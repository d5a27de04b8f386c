use ceilidh::protocol::{
    ClaimRequest, ClaimResponse, CreateSessionRequest, Envelope, Event, Harness, Heartbeat, Lane,
    PostTurnRequest, ReportRequest, SessionId, SessionStatus, Timestamp, Turn, TurnId, TurnStatus,
};
use ceilidh::runners::ClaimStep;
use ceilidh::store::{feed_takes, ApiError, Store};

const SECOND: Timestamp = 1_000_000_000;

/// An instant some seconds after a start that lies well after zero.
fn at(seconds: i128) -> Timestamp {
    1_000_000 * SECOND + seconds * SECOND
}

fn lane() -> Lane {
    Lane { harness: Harness::Mock, model: "mock".to_string(), effort: None }
}

fn create(store: &mut Store, id: SessionId, title: &str, parent: Option<SessionId>) -> SessionId {
    let request = CreateSessionRequest {
        title: title.to_string(),
        lane: Some(lane()),
        profile: None,
        parent_id: parent,
    };
    let (session, effects) = store.create_session(id, request, at(0)).unwrap();
    assert_eq!(session.id, id);
    assert_eq!(session.runner_affinity, None);
    assert_eq!(effects.events.len(), 1);
    assert_eq!(effects.events[0].session_id, parent);
    assert!(matches!(&effects.events[0].event, Event::SessionCreated { session } if session.id == id));
    session.id
}

fn post(store: &mut Store, session: SessionId, id: TurnId, input: &str, now: Timestamp) -> Turn {
    let request = PostTurnRequest { input: input.to_string(), lane: None };
    let (turn, effects) = store.post_turn(session, id, request, now).unwrap();
    assert!(effects.wake);
    turn
}

fn request(runner: &str, epoch: Option<&str>) -> ClaimRequest {
    ClaimRequest {
        runner: runner.to_string(),
        harnesses: vec![Harness::Mock],
        wait_seconds: 0,
        epoch: epoch.map(|e| e.to_string()),
    }
}

/// Claims, and gives back the turn that was handed out.
fn claim(store: &mut Store, runner: &str, epoch: Option<&str>, now: Timestamp) -> Option<Turn> {
    let (step, _) = store.claim_turn(&request(runner, epoch), now).unwrap();
    assert!(store.in_order());
    match step {
        ClaimStep::Answer { response: ClaimResponse::Work { work } } => Some(work.turn),
        ClaimStep::Answer { response: ClaimResponse::Empty } => None,
        ClaimStep::Hold { .. } => panic!("a claim that does not wait is not held"),
    }
}

fn beat(store: &mut Store, runner: &str, held: Vec<TurnId>, epoch: Option<&str>, now: Timestamp) {
    let beat = Heartbeat {
        runner: runner.to_string(),
        active_turns: held,
        at: now,
        epoch: epoch.map(|e| e.to_string()),
    };
    store.heartbeat(&beat, now).unwrap();
    assert!(store.in_order());
}

fn done(resume: Option<&str>) -> ReportRequest {
    ReportRequest {
        status: TurnStatus::Done,
        envelope: Some(Envelope {
            headline: "done".to_string(),
            work_complete: true,
            cannot_proceed: false,
            body_markdown: "finished".to_string(),
            questions: Vec::new(),
        }),
        error: None,
        commit: Some("abc123".to_string()),
        resume_token: resume.map(|t| t.to_string()),
    }
}

fn failed(status: TurnStatus) -> ReportRequest {
    ReportRequest { status, envelope: None, error: None, commit: None, resume_token: None }
}

fn status_of(store: &Store, id: TurnId) -> TurnStatus {
    store.get_turn(id).unwrap().status
}

fn refused<T>(outcome: Result<T, ApiError>) -> (u16, String) {
    match outcome {
        Ok(_) => panic!("expected a refusal"),
        Err(error) => (error.status, error.message),
    }
}

#[test]
fn runner_flow_emits_sse_and_persists_final_state() {
    let mut store = Store::new();
    let session = create(&mut store, 1, "demo", None);

    let request_turn = PostTurnRequest { input: "hello".to_string(), lane: None };
    let (turn, effects) = store.post_turn(session, 10, request_turn, at(1)).unwrap();
    assert_eq!(turn.status, TurnStatus::Queued);
    assert_eq!(turn.seq, 1);
    assert_eq!(effects.events.len(), 1);
    assert!(matches!(&effects.events[0].event, Event::TurnQueued { turn: queued } if queued.id == turn.id));

    let (step, effects) = store.claim_turn(&request("runner-1", None), at(2)).unwrap();
    let work = match step {
        ClaimStep::Answer { response: ClaimResponse::Work { work } } => work,
        _ => panic!("expected claimed work"),
    };
    assert_eq!(work.turn.id, turn.id);
    assert_eq!(work.turn.status, TurnStatus::Claimed);
    assert_eq!(work.turn.started_at, Some(at(2)));
    assert_eq!(work.session.runner_affinity.as_deref(), Some("runner-1"));
    assert_eq!(effects.events.len(), 1);
    assert_eq!(effects.events[0].session_id, Some(session));
    assert!(
        matches!(&effects.events[0].event, Event::TurnClaimed { turn_id, runner } if *turn_id == turn.id && runner == "runner-1")
    );

    let effects = store.post_chunk(turn.id, "chunk one".to_string()).unwrap();
    assert!(
        matches!(&effects.events[0].event, Event::Chunk { turn_id, text } if *turn_id == turn.id && text == "chunk one")
    );
    assert_eq!(status_of(&store, turn.id), TurnStatus::Working);

    let (last, effects) = store.report_turn(turn.id, done(Some("resume-1")), at(3)).unwrap();
    assert_eq!(last.status, TurnStatus::Done);
    assert_eq!(last.commit.as_deref(), Some("abc123"));
    assert_eq!(last.resume_token.as_deref(), Some("resume-1"));
    assert_eq!(last.finished_at, Some(at(3)));
    assert!(
        matches!(&effects.events[0].event, Event::TurnDone { turn: ended } if ended.id == turn.id && ended.status == TurnStatus::Done)
    );

    let turns = store.list_session_turns(session).unwrap();
    assert_eq!(turns.len(), 1);
    assert_eq!(turns[0].status, TurnStatus::Done);

    let runners = store.list_runners(at(4));
    assert_eq!(runners[0].runner, "runner-1");
    assert!(runners[0].online);
}

#[test]
fn claim_carries_forward_the_previous_resume_token() {
    let mut store = Store::new();
    let session = create(&mut store, 1, "resume", None);
    let first = post(&mut store, session, 10, "one", at(1));
    assert!(claim(&mut store, "runner-a", None, at(2)).is_some());
    store.report_turn(first.id, done(Some("harness-session-1")), at(3)).unwrap();
    post(&mut store, session, 11, "two", at(4));

    match store.claim_turn(&request("runner-a", None), at(5)).unwrap().0 {
        ClaimStep::Answer { response: ClaimResponse::Work { work } } => {
            assert_eq!(work.turn.resume_token.as_deref(), Some("harness-session-1"));
            assert_eq!(work.history_hint.len(), 1);
            assert_eq!(work.history_hint[0].input, "one");
            assert_eq!(work.history_hint[0].headline.as_deref(), Some("done"));
        },
        _ => panic!("expected the second turn to be claimable"),
    }
}

#[test]
fn stale_in_flight_turns_are_requeued_for_another_runner() {
    let mut store = Store::new();
    let session = create(&mut store, 1, "stale", None);
    let turn = post(&mut store, session, 10, "hello", at(1));
    assert!(claim(&mut store, "doomed-runner", None, at(2)).is_some());

    // Within the online window the turn stays where it is.
    assert!(claim(&mut store, "rescue-runner", None, at(62)).is_none());

    // Past it the work counts as abandoned.
    let rescued = claim(&mut store, "rescue-runner", None, at(63));
    assert_eq!(rescued.unwrap().id, turn.id);
    let session = store.get_session(session).unwrap();
    assert_eq!(session.runner_affinity.as_deref(), Some("rescue-runner"));
}

#[test]
fn heartbeat_releases_turns_the_runner_no_longer_holds() {
    let mut store = Store::new();
    let session = create(&mut store, 1, "reconcile", None);
    let turn = post(&mut store, session, 10, "hello", at(1));
    assert!(claim(&mut store, "restarting-runner", None, at(2)).is_some());

    // Within the grace a heartbeat that omits the turn changes nothing.
    beat(&mut store, "restarting-runner", vec![], None, at(92));
    assert_eq!(status_of(&store, turn.id), TurnStatus::Claimed);

    // Past it the next heartbeat releases it.
    beat(&mut store, "restarting-runner", vec![], None, at(93));
    assert_eq!(status_of(&store, turn.id), TurnStatus::Queued);
    assert_eq!(store.get_turn(turn.id).unwrap().started_at, None);
    assert!(claim(&mut store, "restarting-runner", None, at(94)).is_some());
}

#[test]
fn runner_epochs_separate_a_restart_from_an_orphan() {
    let mut store = Store::new();
    let session = create(&mut store, 1, "epochs", None);
    let turn = post(&mut store, session, 10, "hello", at(1));
    assert!(claim(&mut store, "shared-id", Some("epoch-one"), at(2)).is_some());

    // The orphan shares the name but not the epoch: its empty heartbeat
    // releases nothing.
    beat(&mut store, "shared-id", vec![], Some("orphan-epoch"), at(200));
    assert_eq!(status_of(&store, turn.id), TurnStatus::Claimed);
    beat(&mut store, "shared-id", vec![], None, at(201));
    assert_eq!(status_of(&store, turn.id), TurnStatus::Claimed);

    // The live process still holds it.
    beat(&mut store, "shared-id", vec![turn.id], Some("epoch-one"), at(202));
    assert_eq!(status_of(&store, turn.id), TurnStatus::Claimed);

    // A restart gets the dead process's turn straight back.
    let again = claim(&mut store, "shared-id", Some("epoch-two"), at(203));
    assert_eq!(again.unwrap().id, turn.id);
}

#[test]
fn a_session_never_has_two_turns_claimed_at_once() {
    let mut store = Store::new();
    let session = create(&mut store, 1, "one at a time", None);
    post(&mut store, session, 10, "one", at(1));
    assert!(claim(&mut store, "runner-a", Some("a"), at(2)).is_some());
    post(&mut store, session, 11, "two", at(3));
    assert!(claim(&mut store, "runner-b", Some("b"), at(4)).is_none());
    assert!(claim(&mut store, "runner-a", Some("a"), at(5)).is_none());
    assert!(store.session_busy(session));
}

#[test]
fn a_turn_waits_for_a_runner_of_its_harness() {
    let mut store = Store::new();
    let session = create(&mut store, 1, "routing", None);
    let lane = Lane { harness: Harness::Codex, model: "gpt-5.5".to_string(), effort: None };
    let turn = PostTurnRequest { input: "on codex".to_string(), lane: Some(lane) };
    store.post_turn(session, 10, turn, at(1)).unwrap();

    // The session's own lane is the mock, but this turn named another.
    assert!(claim(&mut store, "mock-only", Some("a"), at(2)).is_none());

    let mut both = request("both", Some("b"));
    both.harnesses = vec![Harness::Mock, Harness::Codex];
    let (step, _) = store.claim_turn(&both, at(3)).unwrap();
    match step {
        ClaimStep::Answer { response: ClaimResponse::Work { work } } => {
            assert_eq!(work.turn.id, 10);
            assert_eq!(work.turn.lane_override.unwrap().harness, Harness::Codex);
        }
        _ => panic!("the turn was there to be claimed"),
    }
}

#[test]
fn messages_queue_behind_a_running_turn() {
    let mut store = Store::new();
    let session = create(&mut store, 1, "steering", None);
    let first = post(&mut store, session, 10, "start the long thing", at(1));
    assert!(claim(&mut store, "runner-a", Some("a"), at(2)).is_some());

    let second = post(&mut store, session, 11, "actually, do it the other way", at(3));
    assert_eq!(second.seq, 2);
    assert_eq!(second.status, TurnStatus::Queued);
    assert!(claim(&mut store, "runner-b", Some("b"), at(4)).is_none());

    for id in 12..16 {
        post(&mut store, session, id, "more", at(5));
    }
    let over = PostTurnRequest { input: "too much".to_string(), lane: None };
    assert_eq!(
        refused(store.post_turn(session, 99, over, at(6))),
        (409, "this session already has 5 messages waiting; let it catch up first".to_string())
    );

    // The message runs next, in order.
    store.report_turn(first.id, done(None), at(7)).unwrap();
    assert_eq!(claim(&mut store, "runner-a", Some("a"), at(8)).unwrap().id, second.id);
}

#[test]
fn archive_then_delete_a_session_with_a_child() {
    let mut store = Store::new();
    let parent = create(&mut store, 1, "parent", None);
    let child = create(&mut store, 2, "child", Some(parent));
    let other = create(&mut store, 3, "other", None);
    let queued = post(&mut store, child, 10, "never runs", at(1));

    assert_eq!(
        refused(store.delete_session(parent)),
        (409, "archive the session before deleting it".to_string())
    );

    let (archived, effects) = store.archive_session(parent, at(2)).unwrap();
    assert_eq!(archived.status, SessionStatus::Archived);
    assert!(effects.wake);
    // The parent, then the child's cancelled turn, then the child.
    assert_eq!(effects.events.len(), 3);
    assert!(matches!(&effects.events[0].event, Event::SessionUpdated { session } if session.id == parent));
    assert!(matches!(&effects.events[1].event, Event::TurnCancelled { turn } if turn.id == queued.id));
    assert!(matches!(&effects.events[2].event, Event::SessionUpdated { session } if session.id == child));
    assert_eq!(effects.events[2].session_id, Some(parent));

    assert_eq!(store.get_session(child).unwrap().status, SessionStatus::Archived);
    let turns = store.list_session_turns(child).unwrap();
    assert_eq!(turns[0].id, queued.id);
    assert_eq!(turns[0].status, TurnStatus::Cancelled);

    let listed = store.list_sessions(false);
    assert!(listed.iter().all(|s| s.id != parent && s.id != child));
    assert_eq!(listed.len(), 1);
    assert_eq!(store.list_sessions(true).len(), 3);

    let (back, effects) = store.unarchive_session(parent, at(3)).unwrap();
    assert_eq!(back.status, SessionStatus::Active);
    assert_eq!(effects.events.len(), 1);
    assert_eq!(store.get_session(child).unwrap().status, SessionStatus::Archived);
    store.archive_session(parent, at(4)).unwrap();

    let effects = store.delete_session(parent).unwrap();
    let gone: Vec<SessionId> = effects
        .events
        .iter()
        .map(|e| match &e.event {
            Event::SessionDeleted { session_id } => *session_id,
            _ => panic!("deleting tells of deleted sessions alone"),
        })
        .collect();
    assert_eq!(gone, vec![child, parent]);
    assert_eq!(refused(store.get_session(child)), (404, "session not found".to_string()));
    assert_eq!(refused(store.get_turn(queued.id)), (404, "turn not found".to_string()));
    assert!(store.get_session(other).is_ok());
    assert!(store.in_order());
}

#[test]
fn a_running_turn_holds_up_a_delete() {
    let mut store = Store::new();
    let session = create(&mut store, 1, "busy", None);
    let turn = post(&mut store, session, 10, "work", at(1));
    claim(&mut store, "r", None, at(2));
    store.archive_session(session, at(3)).unwrap();
    assert!(store.turn_control(turn.id).unwrap().cancel_requested);
    assert_eq!(
        refused(store.delete_session(session)),
        (409, "a turn is still running in busy; wait for the cancel to land".to_string())
    );
    store.report_turn(turn.id, failed(TurnStatus::Cancelled), at(4)).unwrap();
    assert!(store.delete_session(session).is_ok());
    assert!(store.turns.is_empty());
}

#[test]
fn archiving_twice_changes_nothing_more() {
    let mut store = Store::new();
    let session = create(&mut store, 1, "twice", None);
    post(&mut store, session, 10, "waiting", at(1));
    store.archive_session(session, at(2)).unwrap();
    let updated = store.get_session(session).unwrap().updated_at;
    let (_, effects) = store.archive_session(session, at(3)).unwrap();
    assert!(effects.events.is_empty());
    assert_eq!(store.get_session(session).unwrap().updated_at, updated);
    assert_eq!(store.get_turn(10).unwrap().finished_at, Some(at(2)));
}

#[test]
fn archived_sessions_are_not_played() {
    let mut store = Store::new();
    let session = create(&mut store, 1, "away", None);
    store.archive_session(session, at(1)).unwrap();
    post(&mut store, session, 10, "hello", at(2));
    assert!(claim(&mut store, "r", None, at(3)).is_none());
    store.unarchive_session(session, at(4)).unwrap();
    assert!(claim(&mut store, "r", None, at(5)).is_some());
}

#[test]
fn sessions_need_a_title_and_a_known_parent() {
    let mut store = Store::new();
    let blank = CreateSessionRequest {
        title: " \t".to_string(),
        lane: None,
        profile: None,
        parent_id: None,
    };
    assert_eq!(
        refused(store.create_session(1, blank, at(0))),
        (422, "title is required".to_string())
    );
    let orphan = CreateSessionRequest {
        title: "t".to_string(),
        lane: None,
        profile: None,
        parent_id: Some(7),
    };
    assert_eq!(
        refused(store.create_session(1, orphan, at(0))),
        (422, "parent_id does not name a session".to_string())
    );
    let plain = CreateSessionRequest {
        title: "t".to_string(),
        lane: None,
        profile: None,
        parent_id: None,
    };
    let (session, _) = store.create_session(1, plain, at(0)).unwrap();
    assert_eq!(session.lane.harness, Harness::ClaudeCode);
    assert!(!session.profile.allow_push);
    let clash = CreateSessionRequest {
        title: "t".to_string(),
        lane: None,
        profile: None,
        parent_id: None,
    };
    assert_eq!(
        refused(store.create_session(1, clash, at(0))),
        (500, "internal server error".to_string())
    );
}

#[test]
fn messages_need_an_input_and_a_session() {
    let mut store = Store::new();
    let blank = PostTurnRequest { input: "  ".to_string(), lane: None };
    assert_eq!(
        refused(store.post_turn(1, 10, blank, at(0))),
        (422, "input is required".to_string())
    );
    let lost = PostTurnRequest { input: "x".to_string(), lane: None };
    assert_eq!(
        refused(store.post_turn(1, 10, lost, at(0))),
        (404, "session not found".to_string())
    );
}

#[test]
fn queued_turns_are_cancelled_at_once_and_running_ones_are_flagged() {
    let mut store = Store::new();
    let session = create(&mut store, 1, "cancel", None);
    let running = post(&mut store, session, 10, "a", at(1));
    let waiting = post(&mut store, session, 11, "b", at(1));
    claim(&mut store, "r", None, at(2));

    let (turn, effects) = store.cancel_turn(session, waiting.id, at(3)).unwrap();
    assert_eq!(turn.status, TurnStatus::Cancelled);
    assert!(turn.cancel_requested);
    assert!(matches!(&effects.events[0].event, Event::TurnCancelled { .. }));

    let (turn, effects) = store.cancel_turn(session, running.id, at(3)).unwrap();
    assert_eq!(turn.status, TurnStatus::Claimed);
    assert!(turn.cancel_requested);
    assert!(effects.events.is_empty());

    assert_eq!(
        refused(store.cancel_turn(session, waiting.id, at(4))),
        (409, "turn has already finished".to_string())
    );
    assert_eq!(
        refused(store.cancel_turn(2, running.id, at(4))),
        (404, "turn not found".to_string())
    );

    // A cancelled turn is not handed out again when its runner loses it.
    beat(&mut store, "r", vec![], None, at(200));
    assert_eq!(status_of(&store, running.id), TurnStatus::Cancelled);
    assert!(claim(&mut store, "r", None, at(201)).is_none());
}

#[test]
fn a_turn_is_reported_once() {
    let mut store = Store::new();
    let session = create(&mut store, 1, "report", None);
    let turn = post(&mut store, session, 10, "a", at(1));
    assert_eq!(
        refused(store.report_turn(turn.id, done(None), at(2))),
        (409, "turn transition is not allowed".to_string())
    );
    claim(&mut store, "r", None, at(2));
    assert_eq!(
        refused(store.report_turn(turn.id, failed(TurnStatus::Working), at(3))),
        (422, "report status must be done, error, capped, or cancelled".to_string())
    );
    assert_eq!(
        refused(store.report_turn(77, done(None), at(3))),
        (404, "turn not found".to_string())
    );
    let (_, effects) = store.report_turn(turn.id, failed(TurnStatus::Error), at(3)).unwrap();
    assert!(
        matches!(&effects.events[0].event, Event::TurnError { message, .. } if message == "turn did not complete")
    );
    assert_eq!(
        refused(store.report_turn(turn.id, done(None), at(4))),
        (409, "turn transition is not allowed".to_string())
    );
    assert_eq!(
        refused(store.post_chunk(turn.id, "late".to_string())),
        (409, "turn is not claimed or working".to_string())
    );
    assert_eq!(
        refused(store.post_chunk(77, "late".to_string())),
        (404, "turn not found".to_string())
    );
}

#[test]
fn a_session_stays_with_its_runner_while_that_is_online() {
    let mut store = Store::new();
    let session = create(&mut store, 1, "affinity", None);
    let first = post(&mut store, session, 10, "a", at(1));
    claim(&mut store, "home", None, at(2));
    store.report_turn(first.id, done(None), at(3)).unwrap();
    post(&mut store, session, 11, "b", at(4));

    assert!(claim(&mut store, "stranger", None, at(62)).is_none());
    assert!(claim(&mut store, "home", None, at(63)).is_some());
}

#[test]
fn the_oldest_turn_goes_first() {
    let mut store = Store::new();
    let one = create(&mut store, 1, "one", None);
    let two = create(&mut store, 2, "two", None);
    post(&mut store, one, 10, "later", at(9));
    post(&mut store, two, 11, "earlier", at(8));
    assert_eq!(claim(&mut store, "r", None, at(10)).unwrap().id, 11);
    assert_eq!(claim(&mut store, "r", None, at(10)).unwrap().id, 10);
    assert!(claim(&mut store, "r", None, at(10)).is_none());
}

#[test]
fn runners_get_only_what_they_offer() {
    let mut store = Store::new();
    let session = create(&mut store, 1, "lanes", None);
    let request_turn = PostTurnRequest {
        input: "on codex".to_string(),
        lane: Some(Lane { harness: Harness::Codex, model: "gpt-5.5".to_string(), effort: None }),
    };
    store.post_turn(session, 10, request_turn, at(1)).unwrap();
    assert!(claim(&mut store, "mock-only", None, at(2)).is_none());
    let mut codex = request("codex-runner", None);
    codex.harnesses = vec![Harness::Codex];
    let (step, _) = store.claim_turn(&codex, at(3)).unwrap();
    assert!(matches!(step, ClaimStep::Answer { response: ClaimResponse::Work { .. } }));
}

#[test]
fn claims_are_held_open_for_at_most_half_a_minute() {
    let mut store = Store::new();
    let mut waiting = request("r", None);
    waiting.wait_seconds = 5;
    assert_eq!(store.claim_turn(&waiting, at(0)).unwrap().0, ClaimStep::Hold { seconds: 5 });
    waiting.wait_seconds = 600;
    assert_eq!(store.claim_turn(&waiting, at(0)).unwrap().0, ClaimStep::Hold { seconds: 30 });
    waiting.wait_seconds = 0;
    assert_eq!(
        store.claim_turn(&waiting, at(0)).unwrap().0,
        ClaimStep::Answer { response: ClaimResponse::Empty }
    );
}

#[test]
fn nameless_runners_are_refused() {
    let mut store = Store::new();
    assert_eq!(
        refused(store.claim_turn(&request(" ", None), at(0))),
        (422, "runner is required".to_string())
    );
    let beat = Heartbeat { runner: "".to_string(), active_turns: vec![], at: at(0), epoch: None };
    assert_eq!(refused(store.heartbeat(&beat, at(0))), (422, "runner is required".to_string()));
}

#[test]
fn runners_are_listed_by_when_they_were_last_seen() {
    let mut store = Store::new();
    beat(&mut store, "a", vec![1, 2], None, at(0));
    beat(&mut store, "b", vec![], None, at(30));
    let listed = store.list_runners(at(61));
    assert_eq!(listed[0].runner, "b");
    assert!(listed[0].online);
    assert_eq!(listed[1].runner, "a");
    assert!(!listed[1].online);
    assert_eq!(listed[1].active_turns, 2);
    assert_eq!(listed[1].last_seen, at(0));
}

#[test]
fn hints_carry_the_last_turns_oldest_first() {
    let mut store = Store::new();
    let session = create(&mut store, 1, "hints", None);
    for n in 0..10u128 {
        let turn = post(&mut store, session, 10 + n, &format!("message {n}"), at(1 + n as i128));
        claim(&mut store, "r", None, at(2 + n as i128));
        store.report_turn(turn.id, done(None), at(3 + n as i128)).unwrap();
    }
    let hint = store.history_hint(session, 11);
    assert_eq!(hint.len(), 8);
    assert_eq!(hint[0].input, "message 2");
    assert_eq!(hint[7].input, "message 9");
}

#[test]
fn trees_are_listed_level_by_level() {
    let mut store = Store::new();
    create(&mut store, 1, "root", None);
    create(&mut store, 2, "left", Some(1));
    create(&mut store, 3, "under left", Some(2));
    create(&mut store, 4, "right", Some(1));
    create(&mut store, 5, "apart", None);
    let ids: Vec<SessionId> = store.session_tree(1).unwrap().iter().map(|s| s.id).collect();
    assert_eq!(ids, vec![1, 2, 4, 3]);
    assert_eq!(refused(store.session_tree(9)), (404, "session not found".to_string()));
}

#[test]
fn unreadable_bodies_are_told_the_harnesses() {
    let shape = ApiError::unreadable(true, "x");
    assert_eq!(shape.status, 422);
    assert!(shape.message.starts_with("invalid json: x; supported harnesses: "));
    assert!(shape.message.ends_with("-code, codex, cursor, mock"));
    assert_eq!(ApiError::unreadable(false, "x").status, 400);
}

#[test]
fn books_out_of_order_are_noticed() {
    let mut store = Store::new();
    assert!(store.in_order());
    let session = create(&mut store, 1, "a", None);
    create(&mut store, 2, "b", Some(1));
    post(&mut store, session, 10, "x", at(1));
    post(&mut store, session, 11, "y", at(1));
    assert!(store.in_order());

    store.turns[1].seq = 3;
    assert!(!store.in_order());
    store.turns[1].seq = 2;
    assert!(store.in_order());

    store.turns[0].status = TurnStatus::Claimed;
    store.turns[1].status = TurnStatus::Working;
    assert!(!store.in_order());
    store.turns[1].status = TurnStatus::Queued;
    assert!(store.in_order());

    store.turns[1].id = 10;
    assert!(!store.in_order());
    store.turns[1].id = 11;

    store.turns[1].session_id = 9;
    store.turns[1].seq = 1;
    assert!(!store.in_order());
    store.turns[1].session_id = 1;
    store.turns[1].seq = 2;

    store.sessions[1].id = 1;
    assert!(!store.in_order());
    store.sessions[1].id = 2;

    store.sessions[0].parent_id = Some(2);
    assert!(!store.in_order());
    store.sessions[0].parent_id = None;

    beat(&mut store, "r", vec![], None, at(1));
    beat(&mut store, "s", vec![], None, at(1));
    store.runners[1].runner = "r".to_string();
    assert!(!store.in_order());
}

#[test]
fn feeds_take_what_goes_to_them() {
    assert!(feed_takes(None, None));
    assert!(feed_takes(None, Some(1)));
    assert!(feed_takes(Some(1), Some(1)));
    assert!(!feed_takes(Some(1), Some(2)));
    assert!(!feed_takes(Some(1), None));
}

fn codex(model: &str, effort: Option<&str>) -> Lane {
    Lane {
        harness: Harness::Codex,
        model: model.to_string(),
        effort: effort.map(|e| e.to_string()),
    }
}

#[test]
fn sessions_on_lanes_that_are_not_offered_are_refused() {
    let mut store = Store::new();
    let request = |lane: Option<Lane>| CreateSessionRequest {
        title: "t".to_string(),
        lane,
        profile: None,
        parent_id: None,
    };
    let (status, message) =
        refused(store.create_session(1, request(Some(codex("gpt-6-sol", None))), at(0)));
    assert_eq!(status, 422);
    assert!(message.starts_with("lane gpt-6-sol (codex) is not offered here; choose one of: "));
    assert!(message.contains("choose one of: opus ("));
    assert!(message.contains("gpt-5.6-sol (codex), "));
    assert!(message.ends_with("(cursor)"));
    // A model of another harness is not offered either.
    let mut other = codex("composer-2.5", None);
    assert_eq!(refused(store.create_session(1, request(Some(other.clone())), at(0))).0, 422);
    assert!(store.list_sessions(true).is_empty());

    other.harness = Harness::Cursor;
    store.create_session(1, request(Some(other)), at(0)).unwrap();
    store.create_session(2, request(Some(codex("gpt-5.5", Some("high")))), at(0)).unwrap();
    store.create_session(3, request(Some(Lane::default())), at(0)).unwrap();
    let (session, _) = store.create_session(4, request(None), at(0)).unwrap();
    assert_eq!(session.lane, Lane::default());
    store.create_session(5, request(Some(lane())), at(0)).unwrap();
}

#[test]
fn messages_on_lanes_that_are_not_offered_are_refused() {
    let mut store = Store::new();
    let session = create(&mut store, 1, "t", None);
    let wrong =
        PostTurnRequest { input: "hello".to_string(), lane: Some(codex("gpt-6-sol", None)) };
    let (status, message) = refused(store.post_turn(session, 10, wrong, at(1)));
    assert_eq!(status, 422);
    assert!(message.contains("gpt-5.5 (codex)"));
    assert!(store.list_session_turns(session).unwrap().is_empty());
    let right = PostTurnRequest { input: "hello".to_string(), lane: Some(codex("gpt-5.5", None)) };
    store.post_turn(session, 10, right, at(1)).unwrap();
}
