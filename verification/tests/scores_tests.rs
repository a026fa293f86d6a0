use parkour_api::scores::{
    rival_step, submit_step, GhostRecord, Recording, RivalAction, RivalEvent, RivalReply, RivalState,
    SubmitAction, SubmitEvent, SubmitReply, SubmitState,
};

fn run_submission(route_found: bool, best: Option<bool>) -> Vec<SubmitAction> {
    let mut actions = Vec::new();
    let mut state = SubmitState::CheckingRoute;
    let mut event = SubmitEvent::RouteChecked(route_found);
    loop {
        let (next, action) = submit_step(state, event).unwrap();
        actions.push(action);
        state = next;
        event = match action {
            SubmitAction::SaveUser => SubmitEvent::UserSaved,
            SubmitAction::FetchBest => SubmitEvent::BestFetched(best),
            SubmitAction::SaveScore => SubmitEvent::ScoreSaved,
            SubmitAction::Reply(_) => return actions,
        };
    }
}

#[test]
fn submission_on_unknown_route() {
    assert_eq!(run_submission(false, None), vec![SubmitAction::Reply(SubmitReply::RouteNotFound)]);
}

#[test]
fn first_submission_is_recorded() {
    assert_eq!(
        run_submission(true, None),
        vec![
            SubmitAction::SaveUser,
            SubmitAction::FetchBest,
            SubmitAction::SaveScore,
            SubmitAction::Reply(SubmitReply::Created)
        ]
    );
}

#[test]
fn improvement_is_recorded() {
    assert_eq!(run_submission(true, Some(false)).len(), 4);
}

#[test]
fn no_improvement_is_rejected_but_name_saved() {
    assert_eq!(
        run_submission(true, Some(true)),
        vec![
            SubmitAction::SaveUser,
            SubmitAction::FetchBest,
            SubmitAction::Reply(SubmitReply::AlreadyReported)
        ]
    );
}

#[test]
fn mismatched_events_are_refused() {
    assert_eq!(submit_step(SubmitState::Finished, SubmitEvent::ScoreSaved), None);
    assert_eq!(submit_step(SubmitState::CheckingRoute, SubmitEvent::UserSaved), None);
}

#[test]
fn submission_replies() {
    assert_eq!(SubmitReply::Created.status(), 201);
    assert_eq!(SubmitReply::AlreadyReported.status(), 208);
    assert_eq!(SubmitReply::RouteNotFound.status(), 404);
    assert_eq!(SubmitReply::Created.message(), "Score created.");
    assert_eq!(
        SubmitReply::AlreadyReported.message(),
        "Leaderboard contains a better score for this player."
    );
    assert_eq!(SubmitReply::RouteNotFound.message(), "Route not found.");
}

fn ghost(name: &str) -> GhostRecord {
    GhostRecord { name: name.to_string(), recording: format!("rec-{}", name) }
}

#[test]
fn rival_found_directly() {
    let (s, a) = rival_step(RivalState::CheckingRoute, RivalEvent::RouteChecked(true)).unwrap();
    assert_eq!(a, RivalAction::FetchFaster);
    let (s, a) = rival_step(s, RivalEvent::FasterFetched(Some(ghost("Ann")))).unwrap();
    assert_eq!(s, RivalState::Finished);
    assert_eq!(a, RivalAction::Reply(RivalReply::Found(ghost("Ann"))));
}

#[test]
fn rival_falls_back() {
    let (s, _) = rival_step(RivalState::CheckingRoute, RivalEvent::RouteChecked(true)).unwrap();
    let (s, a) = rival_step(s, RivalEvent::FasterFetched(None)).unwrap();
    assert_eq!(a, RivalAction::FetchFallback);
    let (_, a) = rival_step(s, RivalEvent::FallbackFetched(Some(ghost("Bo")))).unwrap();
    assert_eq!(a, RivalAction::Reply(RivalReply::Found(ghost("Bo"))));
    let (_, a) = rival_step(s, RivalEvent::FallbackFetched(None)).unwrap();
    assert_eq!(a, RivalAction::Reply(RivalReply::NoRecording));
}

#[test]
fn rival_replies() {
    let (_, a) = rival_step(RivalState::CheckingRoute, RivalEvent::RouteChecked(false)).unwrap();
    assert_eq!(a, RivalAction::Reply(RivalReply::RouteNotFound));
    assert_eq!(RivalReply::RouteNotFound.status(), 404);
    assert_eq!(RivalReply::RouteNotFound.message(), Some("Route not found."));
    assert_eq!(RivalReply::NoRecording.status(), 404);
    assert_eq!(RivalReply::NoRecording.message(), Some("No recording found."));
    assert_eq!(RivalReply::Found(ghost("C")).status(), 200);
    assert_eq!(RivalReply::Found(ghost("C")).message(), None);
    assert_eq!(rival_step(RivalState::Finished, RivalEvent::RouteChecked(true)), None);
}

#[test]
fn recording_holds_its_fields() {
    let r = Recording { reference: "ref".to_string(), recording: None };
    assert_eq!(r.clone(), r);
    assert!(r.recording.is_none());
}
