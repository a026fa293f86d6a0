//! Score submission and rival recording lookup: the decisions taken between
//! the database queries that the service runs.

use vstd::prelude::*;

verus! {

/// Reply to a score submission.
#[derive(Clone, Copy, Debug, PartialEq, Eq, Structural)]
pub enum SubmitReply {
    /// The score was recorded.
    Created,
    /// The player already has a better or equal time on the route.
    AlreadyReported,
    /// The map or the route does not exist.
    RouteNotFound,
}

impl SubmitReply {
    /// The HTTP status of the reply: 201, 208 or 404.
    pub fn status(&self) -> (code: u16)
        ensures
            code == match *self {
                SubmitReply::Created => 201u16,
                SubmitReply::AlreadyReported => 208u16,
                SubmitReply::RouteNotFound => 404u16,
            },
    {
        match self {
            SubmitReply::Created => 201,
            SubmitReply::AlreadyReported => 208,
            SubmitReply::RouteNotFound => 404,
        }
    }

    /// The message of the reply.
    pub fn message(&self) -> (text: &'static str)
        ensures
            *self == SubmitReply::Created ==> text@ == "Score created."@,
            *self == SubmitReply::AlreadyReported ==> text@
                == "Leaderboard contains a better score for this player."@,
            *self == SubmitReply::RouteNotFound ==> text@ == "Route not found."@,
    {
        match self {
            SubmitReply::Created => "Score created.",
            SubmitReply::AlreadyReported => "Leaderboard contains a better score for this player.",
            SubmitReply::RouteNotFound => "Route not found.",
        }
    }
}

/// Where a score submission stands.
#[derive(Clone, Copy, Debug, PartialEq, Eq, Structural)]
pub enum SubmitState {
    /// Waiting to learn whether the route exists.
    CheckingRoute,
    /// Waiting for the player's name to be saved.
    SavingUser,
    /// Waiting for the player's best time on the route.
    FetchingBest,
    /// Waiting for the new score to be saved.
    SavingScore,
    /// The reply has been given.
    Finished,
}

/// What the service learnt since the last step of a submission.
#[derive(Clone, Copy, Debug, PartialEq, Eq, Structural)]
pub enum SubmitEvent {
    /// Whether the map has a route with the submitted slug.
    RouteChecked(bool),
    /// The player's name was stored (inserted, or updated where it changed).
    UserSaved,
    /// The player's best time on the route: `None` when there is none, else
    /// whether the submitted time is not below it (the best is at least as good).
    BestFetched(Option<bool>),
    /// The submitted score was stored.
    ScoreSaved,
}

/// What the service does next in a submission.
#[derive(Clone, Copy, Debug, PartialEq, Eq, Structural)]
pub enum SubmitAction {
    /// Store the player's name under their id.
    SaveUser,
    /// Look up the player's best time on the route.
    FetchBest,
    /// Store the submitted time (with the current time stamp and recording).
    SaveScore,
    /// Answer the request.
    Reply(SubmitReply),
}

/// One step of a submission: from where it stands and what was learnt, where
/// it goes and what to do; `None` when the event does not fit the state.
pub open spec fn spec_submit_step(state: SubmitState, event: SubmitEvent) -> Option<(SubmitState, SubmitAction)> {
    match (state, event) {
        (SubmitState::CheckingRoute, SubmitEvent::RouteChecked(found)) => if found {
            Some((SubmitState::SavingUser, SubmitAction::SaveUser))
        } else {
            Some((SubmitState::Finished, SubmitAction::Reply(SubmitReply::RouteNotFound)))
        },
        (SubmitState::SavingUser, SubmitEvent::UserSaved) => Some(
            (SubmitState::FetchingBest, SubmitAction::FetchBest),
        ),
        (SubmitState::FetchingBest, SubmitEvent::BestFetched(best)) => if best == Some(true) {
            Some((SubmitState::Finished, SubmitAction::Reply(SubmitReply::AlreadyReported)))
        } else {
            Some((SubmitState::SavingScore, SubmitAction::SaveScore))
        },
        (SubmitState::SavingScore, SubmitEvent::ScoreSaved) => Some(
            (SubmitState::Finished, SubmitAction::Reply(SubmitReply::Created)),
        ),
        _ => None,
    }
}

/// Takes one step of a score submission.
pub fn submit_step(state: SubmitState, event: SubmitEvent) -> (next: Option<(SubmitState, SubmitAction)>)
    ensures
        next == spec_submit_step(state, event),
{
    match (state, event) {
        (SubmitState::CheckingRoute, SubmitEvent::RouteChecked(found)) => if found {
            Some((SubmitState::SavingUser, SubmitAction::SaveUser))
        } else {
            Some((SubmitState::Finished, SubmitAction::Reply(SubmitReply::RouteNotFound)))
        },
        (SubmitState::SavingUser, SubmitEvent::UserSaved) => Some(
            (SubmitState::FetchingBest, SubmitAction::FetchBest),
        ),
        (SubmitState::FetchingBest, SubmitEvent::BestFetched(best)) => match best {
            Some(true) => Some(
                (SubmitState::Finished, SubmitAction::Reply(SubmitReply::AlreadyReported)),
            ),
            _ => Some((SubmitState::SavingScore, SubmitAction::SaveScore)),
        },
        (SubmitState::SavingScore, SubmitEvent::ScoreSaved) => Some(
            (SubmitState::Finished, SubmitAction::Reply(SubmitReply::Created)),
        ),
        _ => None,
    }
}

/// The actions of a whole submission, given whether the route exists and the
/// player's best time as `SubmitEvent::BestFetched` reports it.
pub open spec fn submission_actions(route_found: bool, best: Option<bool>) -> Seq<SubmitAction> {
    let s1 = spec_submit_step(SubmitState::CheckingRoute, SubmitEvent::RouteChecked(route_found)).unwrap();
    if s1.0 == SubmitState::Finished {
        seq![s1.1]
    } else {
        let s2 = spec_submit_step(s1.0, SubmitEvent::UserSaved).unwrap();
        let s3 = spec_submit_step(s2.0, SubmitEvent::BestFetched(best)).unwrap();
        if s3.0 == SubmitState::Finished {
            seq![s1.1, s2.1, s3.1]
        } else {
            let s4 = spec_submit_step(s3.0, SubmitEvent::ScoreSaved).unwrap();
            seq![s1.1, s2.1, s3.1, s4.1]
        }
    }
}

/// A submission on an unknown route is refused at once; on a known route the
/// player's name is always stored first, and the score is stored, and answered
/// as created, exactly when the player has no time that is at least as good.
pub proof fn law_submission(route_found: bool, best: Option<bool>)
    ensures
        !route_found ==> submission_actions(route_found, best) == seq![
            SubmitAction::Reply(SubmitReply::RouteNotFound),
        ],
        route_found && best == Some(true) ==> submission_actions(route_found, best) == seq![
            SubmitAction::SaveUser,
            SubmitAction::FetchBest,
            SubmitAction::Reply(SubmitReply::AlreadyReported),
        ],
        route_found && best != Some(true) ==> submission_actions(route_found, best) == seq![
            SubmitAction::SaveUser,
            SubmitAction::FetchBest,
            SubmitAction::SaveScore,
            SubmitAction::Reply(SubmitReply::Created),
        ],
{
}

/// A finished submission takes no further event.
pub proof fn law_submission_ends(event: SubmitEvent)
    ensures
        spec_submit_step(SubmitState::Finished, event) is None,
{
}

/// A rival's run: the player's name and the recording of the run.
#[derive(Clone, Debug, PartialEq, Eq)]
pub struct GhostRecord {
    pub name: String,
    pub recording: String,
}

/// Reply to a rival recording request.
#[derive(Clone, Debug, PartialEq, Eq)]
pub enum RivalReply {
    /// A rival's run was found.
    Found(GhostRecord),
    /// The map or the route does not exist.
    RouteNotFound,
    /// No run was found.
    NoRecording,
}

impl RivalReply {
    /// The HTTP status of the reply: 200 when found, else 404.
    pub fn status(&self) -> (code: u16)
        ensures
            code == (if self is Found { 200u16 } else { 404u16 }),
    {
        match self {
            RivalReply::Found(_) => 200,
            _ => 404,
        }
    }

    /// The message of a reply that found nothing.
    pub fn message(&self) -> (text: Option<&'static str>)
        ensures
            self is Found ==> text is None,
            self is RouteNotFound ==> text == Some("Route not found."),
            self is NoRecording ==> text == Some("No recording found."),
    {
        match self {
            RivalReply::Found(_) => None,
            RivalReply::RouteNotFound => Some("Route not found."),
            RivalReply::NoRecording => Some("No recording found."),
        }
    }
}

/// Where a rival recording request stands.
#[derive(Clone, Copy, Debug, PartialEq, Eq, Structural)]
pub enum RivalState {
    /// Waiting to learn whether the route exists.
    CheckingRoute,
    /// Waiting for the slowest recorded run on the route that beats the
    /// player's own time.
    FetchingFaster,
    /// Waiting for the fallback run, asked for when no faster run was found.
    FetchingFallback,
    /// The reply has been given.
    Finished,
}

/// What the service learnt since the last step of a rival request.
#[derive(Clone, Debug, PartialEq, Eq)]
pub enum RivalEvent {
    RouteChecked(bool),
    FasterFetched(Option<GhostRecord>),
    FallbackFetched(Option<GhostRecord>),
}

/// What the service does next in a rival request.
#[derive(Clone, Debug, PartialEq, Eq)]
pub enum RivalAction {
    /// Look up the slowest recorded run on the route that beats the player.
    FetchFaster,
    /// Look up the fallback run.
    FetchFallback,
    /// Answer the request.
    Reply(RivalReply),
}

/// One step of a rival request; `None` when the event does not fit the state.
pub open spec fn spec_rival_step(state: RivalState, event: RivalEvent) -> Option<(RivalState, RivalAction)> {
    match (state, event) {
        (RivalState::CheckingRoute, RivalEvent::RouteChecked(found)) => if found {
            Some((RivalState::FetchingFaster, RivalAction::FetchFaster))
        } else {
            Some((RivalState::Finished, RivalAction::Reply(RivalReply::RouteNotFound)))
        },
        (RivalState::FetchingFaster, RivalEvent::FasterFetched(run)) => match run {
            Some(g) => Some((RivalState::Finished, RivalAction::Reply(RivalReply::Found(g)))),
            None => Some((RivalState::FetchingFallback, RivalAction::FetchFallback)),
        },
        (RivalState::FetchingFallback, RivalEvent::FallbackFetched(run)) => match run {
            Some(g) => Some((RivalState::Finished, RivalAction::Reply(RivalReply::Found(g)))),
            None => Some((RivalState::Finished, RivalAction::Reply(RivalReply::NoRecording))),
        },
        _ => None,
    }
}

/// Takes one step of a rival recording request.
pub fn rival_step(state: RivalState, event: RivalEvent) -> (next: Option<(RivalState, RivalAction)>)
    ensures
        next == spec_rival_step(state, event),
{
    match (state, event) {
        (RivalState::CheckingRoute, RivalEvent::RouteChecked(found)) => if found {
            Some((RivalState::FetchingFaster, RivalAction::FetchFaster))
        } else {
            Some((RivalState::Finished, RivalAction::Reply(RivalReply::RouteNotFound)))
        },
        (RivalState::FetchingFaster, RivalEvent::FasterFetched(run)) => match run {
            Some(g) => Some((RivalState::Finished, RivalAction::Reply(RivalReply::Found(g)))),
            None => Some((RivalState::FetchingFallback, RivalAction::FetchFallback)),
        },
        (RivalState::FetchingFallback, RivalEvent::FallbackFetched(run)) => match run {
            Some(g) => Some((RivalState::Finished, RivalAction::Reply(RivalReply::Found(g)))),
            None => Some((RivalState::Finished, RivalAction::Reply(RivalReply::NoRecording))),
        },
        _ => None,
    }
}

/// The reply to a rival request whose route exists: the faster run when there
/// is one; otherwise the fallback run, which is only asked for then; otherwise
/// no recording.
pub proof fn law_rival_reply(faster: Option<GhostRecord>, fallback: Option<GhostRecord>)
    ensures
        spec_rival_step(RivalState::CheckingRoute, RivalEvent::RouteChecked(false)) == Some(
            (RivalState::Finished, RivalAction::Reply(RivalReply::RouteNotFound)),
        ),
        spec_rival_step(RivalState::CheckingRoute, RivalEvent::RouteChecked(true)) == Some(
            (RivalState::FetchingFaster, RivalAction::FetchFaster),
        ),
        faster is Some ==> spec_rival_step(RivalState::FetchingFaster, RivalEvent::FasterFetched(faster))
            == Some((RivalState::Finished, RivalAction::Reply(RivalReply::Found(faster.unwrap())))),
        faster is None ==> spec_rival_step(RivalState::FetchingFaster, RivalEvent::FasterFetched(faster))
            == Some((RivalState::FetchingFallback, RivalAction::FetchFallback)),
        spec_rival_step(RivalState::FetchingFallback, RivalEvent::FallbackFetched(fallback)) == Some(
            (
                RivalState::Finished,
                RivalAction::Reply(
                    match fallback {
                        Some(g) => RivalReply::Found(g),
                        None => RivalReply::NoRecording,
                    },
                ),
            ),
        ),
{
}

/// A rival recording: the reference of the run and, where it was kept, the
/// recorded data.
#[derive(Clone, Debug, PartialEq, Eq)]
pub struct Recording {
    pub reference: String,
    pub recording: Option<String>,
}

} // verus!
