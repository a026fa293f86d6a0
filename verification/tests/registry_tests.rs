use parkour_api::registry::{AddRouteOutcome, BoardRoute, CreateMapOutcome, Registry, Route};

fn route(name: &str) -> Route {
    Route::new(name.to_string(), format!("{{\"name\":\"{}\"}}", name))
}

#[test]
fn create_map_lists_in_order() {
    let mut r = Registry::new();
    assert_eq!(r.create_map("mp_lf_traffic"), CreateMapOutcome::Created);
    assert_eq!(r.create_map("mp_thaw"), CreateMapOutcome::Created);
    assert_eq!(r.map_names(), &vec!["mp_lf_traffic".to_string(), "mp_thaw".to_string()]);
}

#[test]
fn create_map_trims_and_refuses_duplicates() {
    let mut r = Registry::new();
    assert_eq!(r.create_map("  mp_thaw \n"), CreateMapOutcome::Created);
    assert!(r.has_map("mp_thaw"));
    assert_eq!(r.create_map("mp_thaw"), CreateMapOutcome::AlreadyExists);
    assert_eq!(r.map_names().len(), 1);
}

#[test]
fn create_map_replies() {
    assert_eq!(CreateMapOutcome::Created.status(), 201);
    assert_eq!(CreateMapOutcome::AlreadyExists.status(), 208);
    assert_eq!(CreateMapOutcome::Created.message(), "Map created.");
    assert_eq!(CreateMapOutcome::AlreadyExists.message(), "Map already exists.");
}

#[test]
fn add_route_and_find_by_slug() {
    let mut r = Registry::new();
    r.create_map("mp_thaw");
    let outcome = r.add_route("mp_thaw", route("Example Route"));
    assert_eq!(outcome, AddRouteOutcome::Created("example-route".to_string()));
    assert_eq!(outcome.status(), 201);
    assert_eq!(outcome.message(), None);
    assert!(r.route_exists("mp_thaw", "example-route"));
    assert!(!r.route_exists("mp_thaw", "Example Route"));
    assert!(!r.route_exists("other", "example-route"));
    assert_eq!(r.routes_of("mp_thaw").unwrap().len(), 1);
    assert!(r.routes_of("other").is_none());
}

#[test]
fn add_route_refusals() {
    let mut r = Registry::new();
    r.create_map("mp_thaw");
    r.add_route("mp_thaw", route("A"));
    let taken = r.add_route("mp_thaw", route("A"));
    assert_eq!(taken, AddRouteOutcome::NameTaken);
    assert_eq!(taken.status(), 208);
    assert_eq!(taken.message(), Some("Route name already used on this map."));
    let missing = r.add_route("nowhere", route("A"));
    assert_eq!(missing, AddRouteOutcome::MapNotFound);
    assert_eq!(missing.status(), 404);
    assert_eq!(missing.message(), Some("Map not found."));
    assert_eq!(r.routes_of("mp_thaw").unwrap().len(), 1);
}

#[test]
fn snapshot_then_load_gives_back_registry() {
    let mut r = Registry::new();
    r.create_map("b");
    r.create_map("a");
    r.add_route("a", route("One"));
    r.add_route("a", route("Two"));
    let snap = r.snapshot();
    let mut loaded = Registry::new();
    loaded.load(snap.clone());
    assert_eq!(loaded.map_names(), r.map_names());
    assert_eq!(loaded.snapshot(), snap);
}

#[test]
fn load_appends_and_replaces() {
    let mut r = Registry::new();
    r.create_map("a");
    r.load(vec![("b".to_string(), vec![route("X")]), ("a".to_string(), vec![route("Y")])]);
    assert_eq!(r.map_names(), &vec!["a".to_string(), "b".to_string(), "a".to_string()]);
    assert_eq!(r.routes_of("a").unwrap(), &vec![route("Y")]);
    assert!(r.route_exists("b", "x"));
}

#[test]
fn scoreboard_follows_map_order() {
    let mut r = Registry::new();
    r.create_map("second");
    r.create_map("first");
    r.add_route("first", route("Fast Lane"));
    r.add_route("second", route("Up Hill"));
    r.add_route("second", route("Down Hill"));
    let rows = r.scoreboard();
    let expect = |slug: &str, name: &str, map: &str| BoardRoute {
        slug: slug.to_string(),
        name: name.to_string(),
        map_name: map.to_string(),
    };
    assert_eq!(
        rows,
        vec![
            expect("up-hill", "Up Hill", "second"),
            expect("down-hill", "Down Hill", "second"),
            expect("fast-lane", "Fast Lane", "first"),
        ]
    );
}
