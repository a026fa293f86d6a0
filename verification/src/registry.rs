//! The registry of maps and their routes: the ordered list of map names and
//! the routes registered on each map.

use vstd::prelude::*;
use vstd::hash_map::StringHashMap;
use crate::slug::{slugify, spec_slugify};
use crate::text::{spec_trim, trim};

verus! {

/// A route of a map: its display name and its full definition (the JSON
/// document of its start and finish lines, checkpoints, leaderboards and so on),
/// which the registry carries unchanged.
#[derive(Clone, Debug, PartialEq, Eq)]
pub struct Route {
    pub name: String,
    pub definition: String,
}

/// What a route is, as text.
pub struct RouteModel {
    pub name: Seq<char>,
    pub definition: Seq<char>,
}

impl View for Route {
    type V = RouteModel;

    open spec fn view(&self) -> RouteModel {
        RouteModel { name: self.name@, definition: self.definition@ }
    }
}

impl Route {
    /// A route with the given name and definition.
    pub fn new(name: String, definition: String) -> (r: Route)
        ensures
            r.name == name,
            r.definition == definition,
    {
        Route { name, definition }
    }

    /// A copy of this route.
    pub fn duplicate(&self) -> (r: Route)
        ensures
            r@ == self@,
    {
        Route { name: self.name.clone(), definition: self.definition.clone() }
    }
}

/// The routes of a list, as text.
pub open spec fn routes_view(v: Seq<Route>) -> Seq<RouteModel> {
    v.map_values(|r: Route| r@)
}

/// The names of a list, as text.
pub open spec fn names_view(v: Seq<String>) -> Seq<Seq<char>> {
    v.map_values(|s: String| s@)
}

fn duplicate_routes(v: &Vec<Route>) -> (r: Vec<Route>)
    ensures
        routes_view(r@) == routes_view(v@),
{
    let mut r: Vec<Route> = Vec::new();
    for i in 0..v.len()
        invariant
            r@.len() == i,
            forall|j: int| 0 <= j < i ==> #[trigger] r@[j]@ == v@[j]@,
    {
        r.push(v[i].duplicate());
    }
    assert(routes_view(r@) =~= routes_view(v@));
    r
}

/// What a registry is: the map names in the order they were added, and the
/// routes registered on each map.
pub struct RegistryModel {
    pub maps: Seq<Seq<char>>,
    pub routes: Map<Seq<char>, Seq<RouteModel>>,
}

/// The empty registry.
pub open spec fn empty_model() -> RegistryModel {
    RegistryModel { maps: Seq::empty(), routes: Map::empty() }
}

/// The list of map names mirrors the maps that hold routes: every listed name
/// has an entry, and every entry is listed.
pub open spec fn mirrors(m: RegistryModel) -> bool {
    &&& forall|i: int| 0 <= i < m.maps.len() ==> m.routes.contains_key(#[trigger] m.maps[i])
    &&& forall|k: Seq<char>| #[trigger] m.routes.contains_key(k) ==> m.maps.contains(k)
}

/// Outcome of creating a map.
#[derive(Clone, Copy, Debug, PartialEq, Eq, Structural)]
pub enum CreateMapOutcome {
    Created,
    AlreadyExists,
}

impl CreateMapOutcome {
    /// The HTTP status of the reply: 201 when created, 208 when the map exists.
    pub fn status(&self) -> (code: u16)
        ensures
            code == (if *self == CreateMapOutcome::Created { 201u16 } else { 208u16 }),
    {
        match self {
            CreateMapOutcome::Created => 201,
            CreateMapOutcome::AlreadyExists => 208,
        }
    }

    /// The message of the reply.
    pub fn message(&self) -> (text: &'static str)
        ensures
            *self == CreateMapOutcome::Created ==> text@ == "Map created."@,
            *self == CreateMapOutcome::AlreadyExists ==> text@ == "Map already exists."@,
    {
        match self {
            CreateMapOutcome::Created => "Map created.",
            CreateMapOutcome::AlreadyExists => "Map already exists.",
        }
    }
}

/// What creating the map named `requested` (once trimmed) does to `m`.
pub open spec fn spec_create_map(m: RegistryModel, requested: Seq<char>) -> (RegistryModel, CreateMapOutcome) {
    let name = spec_trim(requested);
    if m.routes.contains_key(name) {
        (m, CreateMapOutcome::AlreadyExists)
    } else {
        (
            RegistryModel { maps: m.maps.push(name), routes: m.routes.insert(name, Seq::empty()) },
            CreateMapOutcome::Created,
        )
    }
}

/// Status of adding a route.
#[derive(Clone, Copy, Debug, PartialEq, Eq, Structural)]
pub enum AddRouteStatus {
    Created,
    NameTaken,
    MapNotFound,
}

/// Outcome of adding a route; a created route is answered with its slug.
#[derive(Clone, Debug, PartialEq, Eq)]
pub enum AddRouteOutcome {
    Created(String),
    NameTaken,
    MapNotFound,
}

impl AddRouteOutcome {
    /// The status of this outcome.
    pub open spec fn spec_status(&self) -> AddRouteStatus {
        match self {
            AddRouteOutcome::Created(_) => AddRouteStatus::Created,
            AddRouteOutcome::NameTaken => AddRouteStatus::NameTaken,
            AddRouteOutcome::MapNotFound => AddRouteStatus::MapNotFound,
        }
    }

    /// The HTTP status of the reply: 201 created, 208 name already used on the
    /// map, 404 map not found.
    pub fn status(&self) -> (code: u16)
        ensures
            code == match self.spec_status() {
                AddRouteStatus::Created => 201u16,
                AddRouteStatus::NameTaken => 208u16,
                AddRouteStatus::MapNotFound => 404u16,
            },
    {
        match self {
            AddRouteOutcome::Created(_) => 201,
            AddRouteOutcome::NameTaken => 208,
            AddRouteOutcome::MapNotFound => 404,
        }
    }

    /// The message of a refusal; a created route is answered with its slug.
    pub fn message(&self) -> (text: Option<&'static str>)
        ensures
            self is Created ==> text is None,
            self is NameTaken ==> text == Some("Route name already used on this map."),
            self is MapNotFound ==> text == Some("Map not found."),
    {
        match self {
            AddRouteOutcome::Created(_) => None,
            AddRouteOutcome::NameTaken => Some("Route name already used on this map."),
            AddRouteOutcome::MapNotFound => Some("Map not found."),
        }
    }
}

/// Whether a route named `name` is registered on map `map_name` of `m`.
pub open spec fn has_route_named(m: RegistryModel, map_name: Seq<char>, name: Seq<char>) -> bool {
    exists|i: int| 0 <= i < m.routes[map_name].len() && #[trigger] m.routes[map_name][i].name == name
}

/// What adding `route` to map `map_name` does to `m`.
pub open spec fn spec_add_route(m: RegistryModel, map_name: Seq<char>, route: RouteModel) -> (RegistryModel, AddRouteStatus) {
    if !m.routes.contains_key(map_name) {
        (m, AddRouteStatus::MapNotFound)
    } else if has_route_named(m, map_name, route.name) {
        (m, AddRouteStatus::NameTaken)
    } else {
        (
            RegistryModel { maps: m.maps, routes: m.routes.insert(map_name, m.routes[map_name].push(route)) },
            AddRouteStatus::Created,
        )
    }
}

/// Whether map `map_name` of `m` has a route whose slug is `slug`.
pub open spec fn spec_route_exists(m: RegistryModel, map_name: Seq<char>, slug: Seq<char>) -> bool {
    &&& m.routes.contains_key(map_name)
    &&& exists|i: int| 0 <= i < m.routes[map_name].len() && #[trigger] spec_slugify(m.routes[map_name][i].name) == slug
}

/// What loading `entries` (map name and its routes, in order) does to `m`:
/// each name is appended to the list and its routes replace any earlier ones.
pub open spec fn spec_load(m: RegistryModel, entries: Seq<(Seq<char>, Seq<RouteModel>)>) -> RegistryModel
    decreases entries.len(),
{
    if entries.len() == 0 {
        m
    } else {
        let p = spec_load(m, entries.drop_last());
        let e = entries.last();
        RegistryModel { maps: p.maps.push(e.0), routes: p.routes.insert(e.0, e.1) }
    }
}

/// The entries of `m` in the order of its map list.
pub open spec fn spec_snapshot(m: RegistryModel) -> Seq<(Seq<char>, Seq<RouteModel>)> {
    m.maps.map_values(|k: Seq<char>| (k, m.routes[k]))
}

/// The entries of a list, as text.
pub open spec fn entries_view(v: Seq<(String, Vec<Route>)>) -> Seq<(Seq<char>, Seq<RouteModel>)> {
    v.map_values(|e: (String, Vec<Route>)| (e.0@, routes_view(e.1@)))
}

/// One route as the scoreboard lists it.
#[derive(Clone, Debug, PartialEq, Eq)]
pub struct BoardRoute {
    pub slug: String,
    pub name: String,
    pub map_name: String,
}

/// A scoreboard route, as text.
pub struct BoardRouteModel {
    pub slug: Seq<char>,
    pub name: Seq<char>,
    pub map_name: Seq<char>,
}

impl View for BoardRoute {
    type V = BoardRouteModel;

    open spec fn view(&self) -> BoardRouteModel {
        BoardRouteModel { slug: self.slug@, name: self.name@, map_name: self.map_name@ }
    }
}

/// The scoreboard rows of one map: each of its routes, in order, with its slug.
pub open spec fn board_rows_of(m: RegistryModel, map_name: Seq<char>) -> Seq<BoardRouteModel> {
    if m.routes.contains_key(map_name) {
        m.routes[map_name].map_values(
            |r: RouteModel| BoardRouteModel { slug: spec_slugify(r.name), name: r.name, map_name },
        )
    } else {
        Seq::empty()
    }
}

/// The scoreboard rows of the maps `names`, map after map.
pub open spec fn board_rows(m: RegistryModel, names: Seq<Seq<char>>) -> Seq<BoardRouteModel>
    decreases names.len(),
{
    if names.len() == 0 {
        Seq::empty()
    } else {
        board_rows(m, names.drop_last()) + board_rows_of(m, names.last())
    }
}

/// The scoreboard of `m`: the routes of every map, maps in list order.
pub open spec fn spec_scoreboard(m: RegistryModel) -> Seq<BoardRouteModel> {
    board_rows(m, m.maps)
}

/// The rows of a list, as text.
pub open spec fn board_view(v: Seq<BoardRoute>) -> Seq<BoardRouteModel> {
    v.map_values(|b: BoardRoute| b@)
}

/// The maps and routes of the service.
pub struct Registry {
    maps: Vec<String>,
    routes: StringHashMap<Vec<Route>>,
}

impl View for Registry {
    type V = RegistryModel;

    closed spec fn view(&self) -> RegistryModel {
        RegistryModel {
            maps: names_view(self.maps@),
            routes: self.routes@.map_values(|v: Vec<Route>| routes_view(v@)),
        }
    }
}

impl Registry {
    /// The registry's invariant: its map list mirrors its entries.
    pub open spec fn wf(&self) -> bool {
        mirrors(self@)
    }

    /// An empty registry.
    pub fn new() -> (r: Registry)
        ensures
            r@ == empty_model(),
            r.wf(),
    {
        let r = Registry { maps: Vec::new(), routes: StringHashMap::new() };
        assert(r@.maps =~= Seq::<Seq<char>>::empty());
        assert(r@.routes =~= Map::<Seq<char>, Seq<RouteModel>>::empty());
        r
    }

    /// The map names, in the order they were added.
    pub fn map_names(&self) -> (names: &Vec<String>)
        ensures
            names_view(names@) == self@.maps,
    {
        &self.maps
    }

    /// Whether a map of this name exists.
    pub fn has_map(&self, map_name: &str) -> (b: bool)
        ensures
            b == self@.routes.contains_key(map_name@),
    {
        self.routes.contains_key(map_name)
    }

    /// The routes of a map, or `None` where there is no such map.
    pub fn routes_of(&self, map_name: &str) -> (r: Option<&Vec<Route>>)
        ensures
            match r {
                Some(v) => self@.routes.contains_key(map_name@) && routes_view(v@) == self@.routes[map_name@],
                None => !self@.routes.contains_key(map_name@),
            },
    {
        self.routes.get(map_name)
    }

    /// Creates the map named `requested`, white space trimmed, unless a map of
    /// that name exists.
    pub fn create_map(&mut self, requested: &str) -> (outcome: CreateMapOutcome)
        requires
            old(self).wf(),
        ensures
            final(self).wf(),
            (final(self)@, outcome) == spec_create_map(old(self)@, requested@),
    {
        let name = trim(requested).to_owned();
        if self.routes.contains_key(name.as_str()) {
            return CreateMapOutcome::AlreadyExists;
        }
        let ghost old_model = self@;
        let empty: Vec<Route> = Vec::new();
        assert(routes_view(empty@) =~= Seq::<RouteModel>::empty());
        self.routes.insert(name.clone(), empty);
        self.maps.push(name);
        proof {
            let m = self@;
            let n = spec_trim(requested@);
            assert(m.maps =~= old_model.maps.push(n));
            assert(m.routes =~= old_model.routes.insert(n, Seq::empty()));
            assert forall|k: Seq<char>| #[trigger] m.routes.contains_key(k) implies m.maps.contains(k) by {
                if k == n {
                    assert(m.maps[m.maps.len() - 1] == n);
                } else {
                    assert(old_model.maps.contains(k));
                    let i = choose|i: int| 0 <= i < old_model.maps.len() && old_model.maps[i] == k;
                    assert(m.maps[i] == k);
                }
            }
            assert forall|i: int| 0 <= i < m.maps.len() implies m.routes.contains_key(#[trigger] m.maps[i]) by {
                if i < old_model.maps.len() {
                    assert(m.maps[i] == old_model.maps[i]);
                }
            }
        }
        CreateMapOutcome::Created
    }

    /// Adds `route` to map `map_name`, unless the map does not exist or one of
    /// its routes already has that name; a created route is answered with its
    /// slug.
    pub fn add_route(&mut self, map_name: &str, route: Route) -> (outcome: AddRouteOutcome)
        requires
            old(self).wf(),
        ensures
            final(self).wf(),
            (final(self)@, outcome.spec_status()) == spec_add_route(old(self)@, map_name@, route@),
            match outcome {
                AddRouteOutcome::Created(slug) => slug@ == spec_slugify(route.name@),
                _ => true,
            },
    {
        let ghost old_model = self@;
        let mut updated = match self.routes.get(map_name) {
            None => return AddRouteOutcome::MapNotFound,
            Some(current) => {
                for i in 0..current.len()
                    invariant
                        self@ == old_model,
                        old(self).wf(),
                        *old(self) == *self,
                        old_model.routes.contains_key(map_name@),
                        routes_view(current@) == old_model.routes[map_name@],
                        forall|j: int| 0 <= j < i ==> old_model.routes[map_name@][j].name != route.name@,
                {
                    assert(old_model.routes[map_name@][i as int] == current@[i as int]@);
                    if current[i].name == route.name {
                        assert(old_model.routes[map_name@][i as int].name == route@.name);
                        assert(has_route_named(old_model, map_name@, route@.name));
                        return AddRouteOutcome::NameTaken;
                    }
                }
                duplicate_routes(current)
            },
        };
        let slug = slugify(route.name.as_str());
        let ghost r = route@;
        updated.push(route);
        assert(routes_view(updated@) =~= old_model.routes[map_name@].push(r));
        self.routes.insert(map_name.to_owned(), updated);
        proof {
            let m = self@;
            assert(m.maps == old_model.maps);
            assert(m.routes =~= old_model.routes.insert(map_name@, old_model.routes[map_name@].push(r)));
            assert forall|k: Seq<char>| #[trigger] m.routes.contains_key(k) implies m.maps.contains(k) by {
                assert(old_model.routes.contains_key(k));
            }
        }
        AddRouteOutcome::Created(slug)
    }

    /// Whether map `map_name` has a route whose slug is `slug`.
    pub fn route_exists(&self, map_name: &str, slug: &str) -> (b: bool)
        ensures
            b == spec_route_exists(self@, map_name@, slug@),
    {
        match self.routes.get(map_name) {
            None => false,
            Some(routes) => {
                let wanted = slug.to_owned();
                for i in 0..routes.len()
                    invariant
                        routes_view(routes@) == self@.routes[map_name@],
                        self@.routes.contains_key(map_name@),
                        wanted@ == slug@,
                        forall|j: int| 0 <= j < i ==> #[trigger] spec_slugify(self@.routes[map_name@][j].name) != slug@,
                {
                    assert(self@.routes[map_name@][i as int] == routes@[i as int]@);
                    let candidate = slugify(routes[i].name.as_str());
                    if candidate == wanted {
                        assert(spec_slugify(self@.routes[map_name@][i as int].name) == slug@);
                        return true;
                    }
                }
                false
            },
        }
    }

    /// Loads `entries` in order: each map name is appended to the list and its
    /// routes replace any routes the map had.
    pub fn load(&mut self, entries: Vec<(String, Vec<Route>)>)
        requires
            old(self).wf(),
        ensures
            final(self).wf(),
            final(self)@ == spec_load(old(self)@, entries_view(entries@)),
    {
        let ghost old_model = self@;
        let ghost all = entries_view(entries@);
        for entry in it: entries.into_iter()
            invariant
                self.wf(),
                it.seq() == entries@,
                all == entries_view(entries@),
                self@ == spec_load(old_model, all.take(it.index() as int)),
        {
            let ghost before = self@;
            let ghost k = it.index() as int;
            let (name, routes) = entry;
            assert(all.take(k + 1).drop_last() =~= all.take(k));
            assert(all[k] == (name@, routes_view(routes@)));
            self.maps.push(name.clone());
            self.routes.insert(name, routes);
            proof {
                let m = self@;
                assert(m.maps =~= before.maps.push(all[k].0));
                assert(m.routes =~= before.routes.insert(all[k].0, all[k].1));
                assert forall|key: Seq<char>| #[trigger] m.routes.contains_key(key) implies m.maps.contains(key) by {
                    if key == all[k].0 {
                        assert(m.maps[m.maps.len() - 1] == key);
                    } else {
                        assert(before.maps.contains(key));
                        let i = choose|i: int| 0 <= i < before.maps.len() && before.maps[i] == key;
                        assert(m.maps[i] == key);
                    }
                }
                assert forall|i: int| 0 <= i < m.maps.len() implies m.routes.contains_key(#[trigger] m.maps[i]) by {
                    if i < before.maps.len() {
                        assert(m.maps[i] == before.maps[i]);
                    }
                }
            }
        }
        assert(all.take(all.len() as int) =~= all);
    }

    /// Every map with its routes, in the order of the map list.
    pub fn snapshot(&self) -> (entries: Vec<(String, Vec<Route>)>)
        requires
            self.wf(),
        ensures
            entries_view(entries@) == spec_snapshot(self@),
    {
        let mut entries: Vec<(String, Vec<Route>)> = Vec::new();
        for i in 0..self.maps.len()
            invariant
                self.wf(),
                entries@.len() == i,
                i <= self@.maps.len(),
                forall|j: int| 0 <= j < i ==> #[trigger] entries_view(entries@)[j] == spec_snapshot(self@)[j],
        {
            let name = &self.maps[i];
            assert(self@.maps[i as int] == name@);
            assert(self@.routes.contains_key(name@));
            match self.routes.get(name.as_str()) {
                Some(routes) => {
                    let ghost before = entries@;
                    entries.push((name.clone(), duplicate_routes(routes)));
                    assert(entries@.len() == i + 1);
                    assert(entries_view(entries@)[i as int] == (name@, routes_view(routes@)));
                    assert(spec_snapshot(self@)[i as int] == (name@, self@.routes[name@]));
                    assert forall|j: int| 0 <= j <= i implies #[trigger] entries_view(entries@)[j] == spec_snapshot(self@)[j] by {
                        if j < i {
                            assert(entries@[j] == before[j]);
                            assert(entries_view(entries@)[j] == entries_view(before)[j]);
                        }
                    }
                },
                None => {},
            }
        }
        assert(entries_view(entries@) =~= spec_snapshot(self@));
        entries
    }

    /// The scoreboard: the routes of every map with their slugs, maps in list
    /// order, routes in the order they were added.
    pub fn scoreboard(&self) -> (rows: Vec<BoardRoute>)
        ensures
            board_view(rows@) == spec_scoreboard(self@),
    {
        let mut rows: Vec<BoardRoute> = Vec::new();
        let ghost m = self@;
        for i in 0..self.maps.len()
            invariant
                m == self@,
                i <= m.maps.len(),
                board_view(rows@) == board_rows(m, m.maps.take(i as int)),
        {
            let map_name = &self.maps[i];
            let ghost key = map_name@;
            assert(m.maps[i as int] == key);
            assert(m.maps.take(i + 1).drop_last() =~= m.maps.take(i as int));
            let ghost start = board_view(rows@);
            match self.routes.get(map_name.as_str()) {
                None => {
                    assert(board_rows_of(m, key) =~= Seq::<BoardRouteModel>::empty());
                    assert(start + board_rows_of(m, key) =~= start);
                },
                Some(routes) => {
                    for j in 0..routes.len()
                        invariant
                            m == self@,
                            m.routes.contains_key(key),
                            routes_view(routes@) == m.routes[key],
                            key == map_name@,
                            board_view(rows@) == start + board_rows_of(m, key).take(j as int),
                    {
                        assert(m.routes[key][j as int] == routes@[j as int]@);
                        let route = &routes[j];
                        let row = BoardRoute {
                            slug: slugify(route.name.as_str()),
                            name: route.name.clone(),
                            map_name: map_name.clone(),
                        };
                        let ghost prev = rows@;
                        rows.push(row);
                        assert(board_rows_of(m, key).len() == routes@.len());
                        assert(board_rows_of(m, key)[j as int] == row@);
                        assert(board_view(rows@) =~= board_view(prev).push(row@));
                        assert(board_view(rows@) =~= start + board_rows_of(m, key).take(j + 1));
                    }
                    assert(board_rows_of(m, key).take(routes@.len() as int) =~= board_rows_of(m, key));
                },
            }
        }
        assert(m.maps.take(m.maps.len() as int) =~= m.maps);
        rows
    }
}

} // verus!

verus! {

/// Creating a map under a name that trims to the name of a map just created
/// changes nothing and answers that the map already exists.
pub proof fn law_create_map_twice(m: RegistryModel, first: Seq<char>, second: Seq<char>)
    requires
        spec_trim(first) == spec_trim(second),
    ensures
        spec_create_map(spec_create_map(m, first).0, second) == (
            spec_create_map(m, first).0,
            CreateMapOutcome::AlreadyExists,
        ),
{
}

/// After a map is created, or found to exist, the registry holds it under its
/// trimmed name; a new map starts without routes and ends the map list.
pub proof fn law_created_map_is_listed(m: RegistryModel, requested: Seq<char>)
    ensures
        spec_create_map(m, requested).0.routes.contains_key(spec_trim(requested)),
        spec_create_map(m, requested).1 == CreateMapOutcome::Created ==> {
            let m1 = spec_create_map(m, requested).0;
            &&& m1.maps.last() == spec_trim(requested)
            &&& m1.routes[spec_trim(requested)] == Seq::<RouteModel>::empty()
        },
{
}

/// A route that was added can be found by its slug on its map.
pub proof fn law_added_route_exists(m: RegistryModel, map_name: Seq<char>, route: RouteModel)
    requires
        spec_add_route(m, map_name, route).1 == AddRouteStatus::Created,
    ensures
        spec_route_exists(spec_add_route(m, map_name, route).0, map_name, spec_slugify(route.name)),
{
    let m1 = spec_add_route(m, map_name, route).0;
    let i = m.routes[map_name].len() as int;
    assert(m1.routes[map_name][i] == route);
    assert(spec_slugify(m1.routes[map_name][i].name) == spec_slugify(route.name));
}

/// A refused route (unknown map, or a name already used on the map) leaves
/// the registry unchanged; no outcome changes the map list.
pub proof fn law_add_route_refusals_change_nothing(m: RegistryModel, map_name: Seq<char>, route: RouteModel)
    ensures
        spec_add_route(m, map_name, route).1 != AddRouteStatus::Created ==> spec_add_route(m, map_name, route).0 == m,
        spec_add_route(m, map_name, route).0.maps == m.maps,
        mirrors(m) ==> mirrors(spec_add_route(m, map_name, route).0),
{
    let m1 = spec_add_route(m, map_name, route).0;
    if mirrors(m) {
        assert forall|k: Seq<char>| #[trigger] m1.routes.contains_key(k) implies m1.maps.contains(k) by {
            assert(m.routes.contains_key(k));
        }
    }
}

/// A map that does not exist has no routes.
pub proof fn law_unknown_map_has_no_route(m: RegistryModel, map_name: Seq<char>, slug: Seq<char>)
    requires
        !m.routes.contains_key(map_name),
    ensures
        !spec_route_exists(m, map_name, slug),
{
}

proof fn lemma_load_snapshot_prefix(m: RegistryModel, i: int)
    requires
        mirrors(m),
        0 <= i <= m.maps.len(),
    ensures
        spec_load(empty_model(), spec_snapshot(m).take(i)) == (RegistryModel {
            maps: m.maps.take(i),
            routes: Map::new(|k: Seq<char>| m.maps.take(i).contains(k), |k: Seq<char>| m.routes[k]),
        }),
    decreases i,
{
    let target = RegistryModel {
        maps: m.maps.take(i),
        routes: Map::new(|k: Seq<char>| m.maps.take(i).contains(k), |k: Seq<char>| m.routes[k]),
    };
    if i == 0 {
        assert(spec_snapshot(m).take(0) =~= Seq::<(Seq<char>, Seq<RouteModel>)>::empty());
        assert(target.maps =~= Seq::<Seq<char>>::empty());
        assert(target.routes =~= Map::<Seq<char>, Seq<RouteModel>>::empty());
    } else {
        lemma_load_snapshot_prefix(m, i - 1);
        let e = spec_snapshot(m).take(i);
        assert(e.drop_last() =~= spec_snapshot(m).take(i - 1));
        let k = m.maps[i - 1];
        assert(e.last() == (k, m.routes[k]));
        let prev = spec_load(empty_model(), e.drop_last());
        let got = spec_load(empty_model(), e);
        assert(got.maps =~= target.maps);
        let t1 = m.maps.take(i);
        let t0 = m.maps.take(i - 1);
        assert forall|x: Seq<char>| t1.contains(x) <==> (t0.contains(x) || x == k) by {
            if t1.contains(x) {
                let j = choose|j: int| 0 <= j < t1.len() && t1[j] == x;
                if j < i - 1 {
                    assert(t0[j] == x);
                }
            }
            if t0.contains(x) {
                let j = choose|j: int| 0 <= j < t0.len() && t0[j] == x;
                assert(t1[j] == x);
            }
            if x == k {
                assert(t1[i - 1] == x);
            }
        }
        assert(got.routes =~= target.routes);
    }
}

/// Loading a registry's snapshot into an empty registry gives back the same
/// registry: the same map list, in the same order, and the same routes.
pub proof fn law_snapshot_load_round_trip(m: RegistryModel)
    requires
        mirrors(m),
    ensures
        spec_load(empty_model(), spec_snapshot(m)) == m,
{
    let n = m.maps.len() as int;
    lemma_load_snapshot_prefix(m, n);
    assert(spec_snapshot(m).take(n) =~= spec_snapshot(m));
    assert(m.maps.take(n) =~= m.maps);
    let r = Map::new(|k: Seq<char>| m.maps.take(n).contains(k), |k: Seq<char>| m.routes[k]);
    assert forall|k: Seq<char>| r.contains_key(k) <==> m.routes.contains_key(k) by {
        if m.maps.contains(k) {
            let j = choose|j: int| 0 <= j < m.maps.len() && m.maps[j] == k;
            assert(m.routes.contains_key(m.maps[j]));
        }
    }
    assert(r =~= m.routes);
}

proof fn lemma_board_rows_include(m: RegistryModel, names: Seq<Seq<char>>, t: int, i: int)
    requires
        0 <= t < names.len(),
        0 <= i < board_rows_of(m, names[t]).len(),
    ensures
        board_rows(m, names).contains(board_rows_of(m, names[t])[i]),
    decreases names.len(),
{
    let prefix = board_rows(m, names.drop_last());
    let all = board_rows(m, names);
    if t == names.len() - 1 {
        assert(all[prefix.len() + i] == board_rows_of(m, names[t])[i]);
    } else {
        assert(names.drop_last()[t] == names[t]);
        lemma_board_rows_include(m, names.drop_last(), t, i);
        let j = choose|j: int| 0 <= j < prefix.len() && prefix[j] == board_rows_of(m, names[t])[i];
        assert(all[j] == prefix[j]);
    }
}

/// The scoreboard shows every route of every listed map, with its slug.
pub proof fn law_scoreboard_shows_every_route(m: RegistryModel, map_name: Seq<char>, i: int)
    requires
        m.maps.contains(map_name),
        m.routes.contains_key(map_name),
        0 <= i < m.routes[map_name].len(),
    ensures
        spec_scoreboard(m).contains(
            BoardRouteModel {
                slug: spec_slugify(m.routes[map_name][i].name),
                name: m.routes[map_name][i].name,
                map_name,
            },
        ),
{
    let t = choose|t: int| 0 <= t < m.maps.len() && m.maps[t] == map_name;
    lemma_board_rows_include(m, m.maps, t, i);
}

/// Whether no map name occurs twice in the map list; together with
/// `mirrors`, the list then holds each map exactly once.
pub open spec fn distinct_maps(m: RegistryModel) -> bool {
    forall|i: int, j: int| 0 <= i < j < m.maps.len() ==> m.maps[i] != m.maps[j]
}

/// Creating a map keeps the map list free of duplicates.
pub proof fn law_create_map_keeps_distinct(m: RegistryModel, requested: Seq<char>)
    requires
        mirrors(m),
        distinct_maps(m),
    ensures
        distinct_maps(spec_create_map(m, requested).0),
{
    let n = spec_trim(requested);
    let m1 = spec_create_map(m, requested).0;
    if !m.routes.contains_key(n) {
        assert forall|i: int, j: int| 0 <= i < j < m1.maps.len() implies m1.maps[i] != m1.maps[j] by {
            if j == m.maps.len() {
                assert(m.routes.contains_key(m.maps[i]));
            } else {
                assert(m1.maps[i] == m.maps[i] && m1.maps[j] == m.maps[j]);
            }
        }
    }
}

/// The names of a list of entries.
pub open spec fn entry_names(entries: Seq<(Seq<char>, Seq<RouteModel>)>) -> Seq<Seq<char>> {
    entries.map_values(|e: (Seq<char>, Seq<RouteModel>)| e.0)
}

/// Loading appends the entries' names, in order, to the map list, and the
/// maps afterwards are those before and those loaded.
pub proof fn law_load_appends(m: RegistryModel, entries: Seq<(Seq<char>, Seq<RouteModel>)>)
    ensures
        spec_load(m, entries).maps == m.maps + entry_names(entries),
        forall|k: Seq<char>| #[trigger] spec_load(m, entries).routes.contains_key(k) <==> (m.routes.contains_key(k)
            || entry_names(entries).contains(k)),
    decreases entries.len(),
{
    if entries.len() == 0 {
        assert(m.maps + entry_names(entries) =~= m.maps);
    } else {
        let e0 = entries.drop_last();
        law_load_appends(m, e0);
        let names = entry_names(entries);
        assert(entry_names(e0) =~= names.drop_last());
        assert(m.maps + names =~= (m.maps + entry_names(e0)).push(entries.last().0));
        assert forall|k: Seq<char>| names.contains(k) <==> (entry_names(e0).contains(k) || k == entries.last().0) by {
            if names.contains(k) {
                let j = choose|j: int| 0 <= j < names.len() && names[j] == k;
                if j < names.len() - 1 {
                    assert(entry_names(e0)[j] == k);
                }
            }
            if entry_names(e0).contains(k) {
                let j = choose|j: int| 0 <= j < entry_names(e0).len() && entry_names(e0)[j] == k;
                assert(names[j] == k);
            }
            if k == entries.last().0 {
                assert(names[names.len() - 1] == k);
            }
        }
    }
}

/// Loading entries whose names are distinct and new to the registry (as at
/// start-up, into an empty registry) keeps the map list mirroring the entries
/// one to one.
pub proof fn law_fresh_load_keeps_distinct(m: RegistryModel, entries: Seq<(Seq<char>, Seq<RouteModel>)>)
    requires
        mirrors(m),
        distinct_maps(m),
        forall|i: int, j: int| 0 <= i < j < entries.len() ==> entries[i].0 != entries[j].0,
        forall|i: int| 0 <= i < entries.len() ==> !m.routes.contains_key(#[trigger] entries[i].0),
    ensures
        mirrors(spec_load(m, entries)),
        distinct_maps(spec_load(m, entries)),
{
    law_load_appends(m, entries);
    let m1 = spec_load(m, entries);
    let names = entry_names(entries);
    let n0 = m.maps.len();
    assert forall|i: int, j: int| 0 <= i < j < m1.maps.len() implies m1.maps[i] != m1.maps[j] by {
        if j < n0 {
            assert(m1.maps[i] == m.maps[i] && m1.maps[j] == m.maps[j]);
        } else if i < n0 {
            assert(m1.maps[i] == m.maps[i]);
            assert(m1.maps[j] == names[j - n0] && names[j - n0] == entries[j - n0].0);
            assert(m.routes.contains_key(m.maps[i]));
        } else {
            assert(m1.maps[i] == entries[i - n0].0 && m1.maps[j] == entries[j - n0].0);
        }
    }
    assert forall|i: int| 0 <= i < m1.maps.len() implies m1.routes.contains_key(#[trigger] m1.maps[i]) by {
        if i < n0 {
            assert(m1.maps[i] == m.maps[i]);
        } else {
            assert(m1.maps[i] == names[i - n0]);
            assert(names.contains(m1.maps[i]));
        }
    }
    assert forall|k: Seq<char>| #[trigger] m1.routes.contains_key(k) implies m1.maps.contains(k) by {
        if m.routes.contains_key(k) {
            let i = choose|i: int| 0 <= i < m.maps.len() && m.maps[i] == k;
            assert(m1.maps[i] == k);
        } else {
            let j = choose|j: int| 0 <= j < names.len() && names[j] == k;
            assert(m1.maps[n0 + j] == k);
        }
    }
}

/// The snapshot of a registry whose map list has no duplicates names each
/// map once, so keying it by map name loses nothing.
pub proof fn law_snapshot_names_distinct(m: RegistryModel)
    requires
        distinct_maps(m),
    ensures
        forall|i: int, j: int|
            0 <= i < j < spec_snapshot(m).len() ==> spec_snapshot(m)[i].0 != spec_snapshot(m)[j].0,
{
}

proof fn lemma_load_value(m: RegistryModel, entries: Seq<(Seq<char>, Seq<RouteModel>)>, i: int)
    requires
        forall|a: int, b: int| 0 <= a < b < entries.len() ==> entries[a].0 != entries[b].0,
        0 <= i < entries.len(),
    ensures
        spec_load(m, entries).routes[entries[i].0] == entries[i].1,
    decreases entries.len(),
{
    if i < entries.len() - 1 {
        let e0 = entries.drop_last();
        assert(e0[i] == entries[i]);
        assert forall|a: int, b: int| 0 <= a < b < e0.len() implies e0[a].0 != e0[b].0 by {
            assert(e0[a] == entries[a] && e0[b] == entries[b]);
        }
        lemma_load_value(m, e0, i);
    }
}

/// Loading entries with distinct names (such as a saved file, keyed by map
/// name) into an empty registry lists each name once, in order, mirrors the
/// entries one to one, and gives each map the routes of its entry.
pub proof fn law_load_into_empty(entries: Seq<(Seq<char>, Seq<RouteModel>)>)
    requires
        forall|i: int, j: int| 0 <= i < j < entries.len() ==> entries[i].0 != entries[j].0,
    ensures
        spec_load(empty_model(), entries).maps == entry_names(entries),
        mirrors(spec_load(empty_model(), entries)),
        distinct_maps(spec_load(empty_model(), entries)),
        forall|i: int| 0 <= i < entries.len() ==> #[trigger] spec_load(empty_model(), entries).routes[entries[i].0] == entries[i].1,
        forall|k: Seq<char>| #[trigger] spec_load(empty_model(), entries).routes.contains_key(k) <==> entry_names(entries).contains(k),
{
    let m = empty_model();
    law_load_appends(m, entries);
    assert(m.maps + entry_names(entries) =~= entry_names(entries));
    law_fresh_load_keeps_distinct(m, entries);
    assert forall|i: int| 0 <= i < entries.len() implies #[trigger] spec_load(m, entries).routes[entries[i].0] == entries[i].1 by {
        lemma_load_value(m, entries, i);
    }
}

/// Every route of a map is found by the slug of its name, whatever its
/// position in the map's route list; and a slug is found only when some route
/// of the map has it.
pub proof fn law_route_exists_finds_every_route(m: RegistryModel, map_name: Seq<char>, i: int, slug: Seq<char>)
    requires
        m.routes.contains_key(map_name),
        0 <= i < m.routes[map_name].len(),
    ensures
        spec_route_exists(m, map_name, spec_slugify(m.routes[map_name][i].name)),
        spec_route_exists(m, map_name, slug) ==> exists|j: int|
            0 <= j < m.routes[map_name].len() && spec_slugify(#[trigger] m.routes[map_name][j].name) == slug,
{
    assert(spec_slugify(m.routes[map_name][i].name) == spec_slugify(m.routes[map_name][i].name));
}

/// A created route is appended, name and definition as given, to the end of
/// its map's route list; no other map and not the map list change.
pub proof fn law_add_route_appends(m: RegistryModel, map_name: Seq<char>, route: RouteModel)
    requires
        spec_add_route(m, map_name, route).1 == AddRouteStatus::Created,
    ensures
        m.routes.contains_key(map_name),
        forall|i: int| 0 <= i < m.routes[map_name].len() ==> #[trigger] m.routes[map_name][i].name != route.name,
        spec_add_route(m, map_name, route).0.routes[map_name].len() == m.routes[map_name].len() + 1,
        spec_add_route(m, map_name, route).0.routes[map_name].last() == route,
        spec_add_route(m, map_name, route).0.routes[map_name].last().definition == route.definition,
        forall|i: int| 0 <= i < m.routes[map_name].len() ==> #[trigger] spec_add_route(m, map_name, route).0.routes[map_name][i]
            == m.routes[map_name][i],
        forall|k: Seq<char>| k != map_name ==> (#[trigger] spec_add_route(m, map_name, route).0.routes.contains_key(k)
            == m.routes.contains_key(k)) && spec_add_route(m, map_name, route).0.routes[k] == m.routes[k],
        spec_add_route(m, map_name, route).0.maps == m.maps,
{
    assert forall|i: int| 0 <= i < m.routes[map_name].len() implies #[trigger] m.routes[map_name][i].name != route.name by {
        if m.routes[map_name][i].name == route.name {
            assert(has_route_named(m, map_name, route.name));
        }
    }
}

/// A route whose name is already used by any route of the map, at any
/// position, is refused as taken and changes nothing.
pub proof fn law_add_route_name_taken(m: RegistryModel, map_name: Seq<char>, route: RouteModel, i: int)
    requires
        m.routes.contains_key(map_name),
        0 <= i < m.routes[map_name].len(),
        m.routes[map_name][i].name == route.name,
    ensures
        spec_add_route(m, map_name, route) == (m, AddRouteStatus::NameTaken),
{
    assert(has_route_named(m, map_name, route.name));
}

/// Creating a map under a name (once trimmed) that already names a map answers
/// that it exists and leaves the registry unchanged, routes included.
pub proof fn law_create_existing_map_changes_nothing(m: RegistryModel, requested: Seq<char>)
    requires
        m.routes.contains_key(spec_trim(requested)),
    ensures
        spec_create_map(m, requested) == (m, CreateMapOutcome::AlreadyExists),
{
}

/// Creating a new map appends its trimmed name to the list, gives it no
/// routes, and leaves every other map as it was.
pub proof fn law_create_new_map(m: RegistryModel, requested: Seq<char>)
    requires
        !m.routes.contains_key(spec_trim(requested)),
    ensures
        spec_create_map(m, requested).1 == CreateMapOutcome::Created,
        spec_create_map(m, requested).0.maps == m.maps.push(spec_trim(requested)),
        spec_create_map(m, requested).0.routes[spec_trim(requested)] == Seq::<RouteModel>::empty(),
        forall|k: Seq<char>| k != spec_trim(requested) ==> (#[trigger] spec_create_map(m, requested).0.routes.contains_key(k)
            == m.routes.contains_key(k)) && spec_create_map(m, requested).0.routes[k] == m.routes[k],
{
}

/// The scoreboard block of a map lists its routes in the order they were
/// added: row `j` is route `j`, with its slug, name and map.
pub proof fn law_board_rows_follow_routes(m: RegistryModel, map_name: Seq<char>, j: int)
    requires
        m.routes.contains_key(map_name),
        0 <= j < m.routes[map_name].len(),
    ensures
        board_rows_of(m, map_name).len() == m.routes[map_name].len(),
        board_rows_of(m, map_name)[j] == (BoardRouteModel {
            slug: spec_slugify(m.routes[map_name][j].name),
            name: m.routes[map_name][j].name,
            map_name,
        }),
{
}

proof fn lemma_board_rows_prefix(m: RegistryModel, names: Seq<Seq<char>>, t: int)
    requires
        0 <= t < names.len(),
    ensures
        board_rows(m, names.take(t + 1)) == board_rows(m, names.take(t)) + board_rows_of(m, names[t]),
{
    assert(names.take(t + 1).drop_last() =~= names.take(t));
    assert(names.take(t + 1).last() == names[t]);
}

proof fn lemma_board_rows_extend(m: RegistryModel, names: Seq<Seq<char>>, k: int)
    requires
        0 <= k <= names.len(),
    ensures
        board_rows(m, names).len() >= board_rows(m, names.take(k)).len(),
        forall|x: int| 0 <= x < board_rows(m, names.take(k)).len() ==> #[trigger] board_rows(m, names)[x]
            == board_rows(m, names.take(k))[x],
    decreases names.len() - k,
{
    if k < names.len() {
        lemma_board_rows_extend(m, names, k + 1);
        lemma_board_rows_prefix(m, names, k);
    } else {
        assert(names.take(k) =~= names);
    }
}

/// On the scoreboard, the maps follow the map list and each map's routes
/// follow its route list: route `j` of the map at position `t` stands at the
/// number of rows of the maps before it, plus `j`.
pub proof fn law_scoreboard_order(m: RegistryModel, t: int, j: int)
    requires
        0 <= t < m.maps.len(),
        m.routes.contains_key(m.maps[t]),
        0 <= j < m.routes[m.maps[t]].len(),
    ensures
        board_rows(m, m.maps.take(t)).len() + j < spec_scoreboard(m).len(),
        spec_scoreboard(m)[board_rows(m, m.maps.take(t)).len() + j] == (BoardRouteModel {
            slug: spec_slugify(m.routes[m.maps[t]][j].name),
            name: m.routes[m.maps[t]][j].name,
            map_name: m.maps[t],
        }),
{
    lemma_board_rows_prefix(m, m.maps, t);
    lemma_board_rows_extend(m, m.maps, t + 1);
    let x = board_rows(m, m.maps.take(t)).len() + j;
    assert(board_rows(m, m.maps.take(t + 1))[x] == board_rows_of(m, m.maps[t])[j]);
}

proof fn lemma_board_rows_origin(m: RegistryModel, names: Seq<Seq<char>>, x: int)
    requires
        0 <= x < board_rows(m, names).len(),
    ensures
        exists|t: int, j: int|
            0 <= t < names.len() && m.routes.contains_key(names[t]) && 0 <= j < m.routes[names[t]].len()
                && #[trigger] board_rows(m, names)[x] == (BoardRouteModel {
                slug: spec_slugify(#[trigger] m.routes[names[t]][j].name),
                name: m.routes[names[t]][j].name,
                map_name: names[t],
            }),
    decreases names.len(),
{
    let prefix = board_rows(m, names.drop_last());
    let last = names[names.len() - 1];
    if x < prefix.len() {
        lemma_board_rows_origin(m, names.drop_last(), x);
        let (t, j) = choose|t: int, j: int|
            0 <= t < names.drop_last().len() && m.routes.contains_key(names.drop_last()[t]) && 0 <= j
                < m.routes[names.drop_last()[t]].len() && #[trigger] prefix[x] == (BoardRouteModel {
                slug: spec_slugify(#[trigger] m.routes[names.drop_last()[t]][j].name),
                name: m.routes[names.drop_last()[t]][j].name,
                map_name: names.drop_last()[t],
            });
        assert(names.drop_last()[t] == names[t]);
        assert(board_rows(m, names)[x] == prefix[x]);
    } else {
        let j = x - prefix.len();
        assert(board_rows(m, names)[x] == board_rows_of(m, last)[j]);
        assert(m.routes.contains_key(last));
        assert(board_rows(m, names)[x] == (BoardRouteModel {
            slug: spec_slugify(m.routes[names[names.len() - 1]][j].name),
            name: m.routes[names[names.len() - 1]][j].name,
            map_name: names[names.len() - 1],
        }));
    }
}

/// Every scoreboard row is a route of a listed map, with that route's slug
/// and name: the scoreboard shows nothing else.
pub proof fn law_scoreboard_rows_are_routes(m: RegistryModel, x: int)
    requires
        0 <= x < spec_scoreboard(m).len(),
    ensures
        exists|t: int, j: int|
            0 <= t < m.maps.len() && m.routes.contains_key(m.maps[t]) && 0 <= j < m.routes[m.maps[t]].len()
                && #[trigger] spec_scoreboard(m)[x] == (BoardRouteModel {
                slug: spec_slugify(#[trigger] m.routes[m.maps[t]][j].name),
                name: m.routes[m.maps[t]][j].name,
                map_name: m.maps[t],
            }),
{
    lemma_board_rows_origin(m, m.maps, x);
}

} // verus!
