//! The caller's books: sessions, their turns, and the runners that have been
//! seen. Every request the caller answers is an operation on a `Store`.

use vstd::prelude::*;

use crate::caller;
use crate::names;
use crate::protocol;
use crate::protocol::{
    Envelope, Event, Harness, Lane, RunnerId, Session, SessionId, Timestamp, Turn, TurnId,
    TurnStatus,
};
use crate::protocol::{EnvelopeView, EventView, LaneView, SessionView, TurnView};
use crate::text;

verus! {

/// A runner heard from this recently counts as online.
pub const ONLINE_WINDOW_SECS: i64 = 60;

/// A turn claimed this recently may not yet be in its runner's heartbeat set.
/// It exceeds the runner's own HTTP timeout on purpose: a heartbeat body is
/// built before it is sent, so a slow request can carry a snapshot that is
/// already stale by that whole timeout.
pub const HELD_TURN_GRACE_SECS: i64 = 90;

/// How long a claim is held open at most.
pub const CLAIM_WAIT_CAP_SECS: u32 = 30;

/// How many finished turns a claim carries along.
pub const HISTORY_HINT_LIMIT: usize = 8;

/// How many messages may wait behind a running turn.
pub const MAX_QUEUED_TURNS_PER_SESSION: usize = 5;

/// Nanoseconds in a second.
pub const NANOS_PER_SEC: i128 = 1_000_000_000;

// ---------------------------------------------------------------------------
// Rows
// ---------------------------------------------------------------------------

/// A turn as the caller keeps it: a `Turn` with the time of the cancel
/// request in place of the flag.
#[derive(Debug, PartialEq)]
pub struct TurnRow {
    pub id: TurnId,
    pub session_id: SessionId,
    pub seq: i64,
    pub input: String,
    pub lane_override: Option<Lane>,
    pub status: TurnStatus,
    pub envelope: Option<Envelope>,
    pub error: Option<String>,
    pub commit: Option<String>,
    pub resume_token: Option<String>,
    pub cancel_requested_at: Option<Timestamp>,
    pub created_at: Timestamp,
    pub started_at: Option<Timestamp>,
    pub finished_at: Option<Timestamp>,
}

/// The view of a turn row.
pub struct TurnRowView {
    pub id: TurnId,
    pub session_id: SessionId,
    pub seq: i64,
    pub input: Seq<char>,
    pub lane_override: Option<LaneView>,
    pub status: TurnStatus,
    pub envelope: Option<EnvelopeView>,
    pub error: Option<Seq<char>>,
    pub commit: Option<Seq<char>>,
    pub resume_token: Option<Seq<char>>,
    pub cancel_requested_at: Option<Timestamp>,
    pub created_at: Timestamp,
    pub started_at: Option<Timestamp>,
    pub finished_at: Option<Timestamp>,
}

impl View for TurnRow {
    type V = TurnRowView;

    open spec fn view(&self) -> TurnRowView {
        TurnRowView {
            id: self.id,
            session_id: self.session_id,
            seq: self.seq,
            input: self.input@,
            lane_override: protocol::opt_lane(self.lane_override),
            status: self.status,
            envelope: protocol::opt_envelope(self.envelope),
            error: text::opt_text(self.error),
            commit: text::opt_text(self.commit),
            resume_token: text::opt_text(self.resume_token),
            cancel_requested_at: self.cancel_requested_at,
            created_at: self.created_at,
            started_at: self.started_at,
            finished_at: self.finished_at,
        }
    }
}

/// The turn that a row shows to the outside.
pub open spec fn turn_of(row: TurnRowView) -> TurnView {
    TurnView {
        id: row.id,
        session_id: row.session_id,
        seq: row.seq,
        input: row.input,
        lane_override: row.lane_override,
        status: row.status,
        envelope: row.envelope,
        error: row.error,
        commit: row.commit,
        resume_token: row.resume_token,
        cancel_requested: row.cancel_requested_at is Some,
        created_at: row.created_at,
        started_at: row.started_at,
        finished_at: row.finished_at,
    }
}

impl TurnRow {
    /// The turn this row shows to the outside.
    pub fn to_turn(&self) -> (turn: Turn)
        ensures
            turn@ == turn_of(self@),
    {
        Turn {
            id: self.id,
            session_id: self.session_id,
            seq: self.seq,
            input: self.input.clone(),
            lane_override: match &self.lane_override {
                Some(lane) => Some(lane.clone()),
                None => None,
            },
            status: self.status,
            envelope: match &self.envelope {
                Some(envelope) => Some(envelope.clone()),
                None => None,
            },
            error: text::clone_opt(&self.error),
            commit: text::clone_opt(&self.commit),
            resume_token: text::clone_opt(&self.resume_token),
            cancel_requested: self.cancel_requested_at.is_some(),
            created_at: self.created_at,
            started_at: self.started_at,
            finished_at: self.finished_at,
        }
    }
}

/// What the caller knows of a runner.
#[derive(Debug, PartialEq)]
pub struct RunnerRecord {
    pub runner: RunnerId,
    pub last_seen: Timestamp,
    pub harnesses: Vec<Harness>,
    pub active_turns: Vec<TurnId>,
    pub epoch: Option<String>,
}

/// The view of a runner record.
#[verifier::ext_equal]
pub struct RunnerView {
    pub runner: Seq<char>,
    pub last_seen: Timestamp,
    pub harnesses: Seq<Harness>,
    pub active_turns: Seq<TurnId>,
    pub epoch: Option<Seq<char>>,
}

impl View for RunnerRecord {
    type V = RunnerView;

    open spec fn view(&self) -> RunnerView {
        RunnerView {
            runner: self.runner@,
            last_seen: self.last_seen,
            harnesses: self.harnesses@,
            active_turns: self.active_turns@,
            epoch: text::opt_text(self.epoch),
        }
    }
}

// ---------------------------------------------------------------------------
// The store and its invariant
// ---------------------------------------------------------------------------

/// All that the caller keeps.
#[derive(Debug, PartialEq)]
pub struct Store {
    pub sessions: Vec<Session>,
    pub turns: Vec<TurnRow>,
    pub runners: Vec<RunnerRecord>,
}

/// The view of the store.
#[verifier::ext_equal]
pub struct StoreView {
    pub sessions: Seq<SessionView>,
    pub turns: Seq<TurnRowView>,
    pub runners: Seq<RunnerView>,
}

/// The views of a list of sessions.
pub open spec fn session_rows(sessions: Seq<Session>) -> Seq<SessionView> {
    sessions.map_values(|session: Session| session@)
}

/// The views of a list of turn rows.
pub open spec fn turn_rows(turns: Seq<TurnRow>) -> Seq<TurnRowView> {
    turns.map_values(|turn: TurnRow| turn@)
}

/// The views of a list of runner records.
pub open spec fn runner_rows(runners: Seq<RunnerRecord>) -> Seq<RunnerView> {
    runners.map_values(|runner: RunnerRecord| runner@)
}

impl View for Store {
    type V = StoreView;

    open spec fn view(&self) -> StoreView {
        StoreView {
            sessions: session_rows(self.sessions@),
            turns: turn_rows(self.turns@),
            runners: runner_rows(self.runners@),
        }
    }
}

/// Whether some session has this identifier.
pub open spec fn has_session(sessions: Seq<SessionView>, id: SessionId) -> bool {
    exists|i: int| 0 <= i < sessions.len() && (#[trigger] sessions[i]).id == id
}

/// Whether some turn has this identifier.
pub open spec fn has_turn(turns: Seq<TurnRowView>, id: TurnId) -> bool {
    exists|i: int| 0 <= i < turns.len() && (#[trigger] turns[i]).id == id
}

/// Whether a runner of this name has been seen.
pub open spec fn has_runner(runners: Seq<RunnerView>, name: Seq<char>) -> bool {
    exists|i: int| 0 <= i < runners.len() && (#[trigger] runners[i]).runner == name
}

/// How many of the first `n` turns belong to a session.
pub open spec fn turns_before(turns: Seq<TurnRowView>, session: SessionId, n: int) -> nat
    decreases n,
{
    if n <= 0 || n > turns.len() {
        0
    } else {
        turns_before(turns, session, n - 1) + if turns[n - 1].session_id == session {
            1nat
        } else {
            0nat
        }
    }
}

/// Sessions: no identifier twice, and a parent stands before its children.
pub open spec fn sessions_wf(sessions: Seq<SessionView>) -> bool {
    &&& forall|i: int, j: int|
        0 <= i < j < sessions.len() ==> (#[trigger] sessions[i]).id != (#[trigger] sessions[j]).id
    &&& forall|i: int|
        0 <= i < sessions.len() ==> parent_comes_first(sessions, #[trigger] sessions[i], i)
}

/// The parent of the session, where it has one, is among the first `i`.
pub open spec fn parent_comes_first(
    sessions: Seq<SessionView>,
    session: SessionView,
    i: int,
) -> bool {
    match session.parent_id {
        Some(parent) => exists|j: int| 0 <= j < i && (#[trigger] sessions[j]).id == parent,
        None => true,
    }
}

/// Turns: no identifier twice, and `seq` is the 1-based position of a turn
/// within its session.
pub open spec fn turns_wf(turns: Seq<TurnRowView>) -> bool {
    &&& forall|i: int, j: int|
        0 <= i < j < turns.len() ==> (#[trigger] turns[i]).id != (#[trigger] turns[j]).id
    &&& forall|i: int|
        0 <= i < turns.len() ==> (#[trigger] turns[i]).seq == turns_before(
            turns,
            turns[i].session_id,
            i,
        ) + 1
}

/// A session never has two turns in flight.
pub open spec fn one_turn_in_flight(turns: Seq<TurnRowView>) -> bool {
    forall|i: int, j: int|
        0 <= i < j < turns.len() && caller::is_held((#[trigger] turns[i]).status)
            && caller::is_held((#[trigger] turns[j]).status) ==> turns[i].session_id
            != turns[j].session_id
}

/// Every turn belongs to a session.
pub open spec fn turns_owned(sessions: Seq<SessionView>, turns: Seq<TurnRowView>) -> bool {
    forall|i: int|
        0 <= i < turns.len() ==> has_session(sessions, (#[trigger] turns[i]).session_id)
}

/// No runner is listed twice.
pub open spec fn runners_wf(runners: Seq<RunnerView>) -> bool {
    forall|i: int, j: int|
        0 <= i < j < runners.len() ==> (#[trigger] runners[i]).runner != (
        #[trigger] runners[j]).runner
}

/// What holds of the books between requests.
pub open spec fn wf(store: StoreView) -> bool {
    &&& sessions_wf(store.sessions)
    &&& turns_wf(store.turns)
    &&& one_turn_in_flight(store.turns)
    &&& turns_owned(store.sessions, store.turns)
    &&& runners_wf(store.runners)
}

/// The same turns in the same order, whatever their state.
pub open spec fn same_turns(before: Seq<TurnRowView>, after: Seq<TurnRowView>) -> bool {
    &&& before.len() == after.len()
    &&& forall|i: int|
        0 <= i < before.len() ==> {
            &&& (#[trigger] after[i]).id == before[i].id
            &&& after[i].session_id == before[i].session_id
            &&& after[i].seq == before[i].seq
        }
}

pub proof fn lemma_same_turns_count(
    before: Seq<TurnRowView>,
    after: Seq<TurnRowView>,
    session: SessionId,
    n: int,
)
    requires
        same_turns(before, after),
    ensures
        turns_before(before, session, n) == turns_before(after, session, n),
    decreases n,
{
    if 0 < n <= before.len() {
        lemma_same_turns_count(before, after, session, n - 1);
        assert(after[n - 1].session_id == before[n - 1].session_id);
    }
}

/// Changing the state of turns keeps the books in order, as long as nothing
/// new is in flight.
pub proof fn lemma_turns_keep_wf(
    sessions: Seq<SessionView>,
    before: Seq<TurnRowView>,
    after: Seq<TurnRowView>,
)
    requires
        turns_wf(before),
        one_turn_in_flight(before),
        turns_owned(sessions, before),
        same_turns(before, after),
        forall|i: int|
            0 <= i < before.len() && caller::is_held((#[trigger] after[i]).status)
                ==> caller::is_held(before[i].status),
    ensures
        turns_wf(after),
        one_turn_in_flight(after),
        turns_owned(sessions, after),
{
    assert forall|i: int, j: int| 0 <= i < j < after.len() implies (#[trigger] after[i]).id != (
    #[trigger] after[j]).id by {
        assert(before[i].id != before[j].id);
    }
    assert forall|i: int| 0 <= i < after.len() implies (#[trigger] after[i]).seq == turns_before(
        after,
        after[i].session_id,
        i,
    ) + 1 by {
        lemma_same_turns_count(before, after, after[i].session_id, i);
        assert(before[i].seq == turns_before(before, before[i].session_id, i) + 1);
    }
    assert forall|i: int, j: int|
        0 <= i < j < after.len() && caller::is_held((#[trigger] after[i]).status)
            && caller::is_held((#[trigger] after[j]).status) implies after[i].session_id
        != after[j].session_id by {
        assert(before[i].session_id != before[j].session_id);
    }
    assert forall|i: int| 0 <= i < after.len() implies has_session(
        sessions,
        (#[trigger] after[i]).session_id,
    ) by {
        assert(has_session(sessions, before[i].session_id));
    }
}

// ---------------------------------------------------------------------------
// Effects
// ---------------------------------------------------------------------------

/// An event and the session feed it goes to; None goes to the firehose alone.
#[derive(Debug, PartialEq)]
pub struct Broadcast {
    pub session_id: Option<SessionId>,
    pub event: Event,
}

/// The view of a broadcast.
pub struct BroadcastView {
    pub session_id: Option<SessionId>,
    pub event: EventView,
}

impl View for Broadcast {
    type V = BroadcastView;

    open spec fn view(&self) -> BroadcastView {
        BroadcastView { session_id: self.session_id, event: self.event@ }
    }
}

/// A feed takes an event: the firehose takes them all, a session's feed those
/// that go to it.
pub open spec fn taken(feed: Option<SessionId>, event: BroadcastView) -> bool {
    feed is Some ==> event.session_id == feed
}

/// Whether a feed takes an event that goes to this session's feed, or to the
/// firehose alone; the feed is a session's, or the firehose.
pub fn feed_takes(feed: Option<SessionId>, session_id: Option<SessionId>) -> (yes: bool)
    ensures
        forall|event: BroadcastView|
            event.session_id == session_id ==> yes == #[trigger] taken(feed, event),
{
    match (feed, session_id) {
        (None, _) => true,
        (Some(feed), Some(id)) => feed == id,
        (Some(_), None) => false,
    }
}

/// The views of a list of broadcasts.
pub open spec fn events_view(events: Seq<Broadcast>) -> Seq<BroadcastView> {
    events.map_values(|event: Broadcast| event@)
}

/// What an operation asks of the program around the store: the events to
/// send, in order, and whether held claims should look again.
#[derive(Debug, PartialEq)]
pub struct Effects {
    pub events: Vec<Broadcast>,
    pub wake: bool,
}

/// The view of effects.
#[verifier::ext_equal]
pub struct EffectsView {
    pub events: Seq<BroadcastView>,
    pub wake: bool,
}

impl View for Effects {
    type V = EffectsView;

    open spec fn view(&self) -> EffectsView {
        EffectsView { events: events_view(self.events@), wake: self.wake }
    }
}

/// A refusal: an HTTP status and a message.
#[derive(Debug, PartialEq, Eq)]
pub struct ApiError {
    pub status: u16,
    pub message: String,
}

/// The view of a refusal.
pub struct ErrorView {
    pub status: u16,
    pub message: Seq<char>,
}

impl View for ApiError {
    type V = ErrorView;

    open spec fn view(&self) -> ErrorView {
        ErrorView { status: self.status, message: self.message@ }
    }
}

/// 404, naming what was not found.
pub open spec fn not_found_error(entity: Seq<char>) -> ErrorView {
    ErrorView { status: 404, message: entity + " not found"@ }
}

/// 409.
pub open spec fn conflict_error(message: Seq<char>) -> ErrorView {
    ErrorView { status: 409, message }
}

/// 422.
pub open spec fn unprocessable_error(message: Seq<char>) -> ErrorView {
    ErrorView { status: 422, message }
}

/// 500, with nothing said of the cause.
pub open spec fn internal_error() -> ErrorView {
    ErrorView { status: 500, message: "internal server error"@ }
}

/// A body that could not be read: 422 where it is JSON of another shape, 400
/// otherwise, with the harnesses that there are.
pub open spec fn unreadable_error(other_shape: bool, detail: Seq<char>) -> ErrorView {
    ErrorView {
        status: if other_shape {
            422
        } else {
            400
        },
        message: "invalid json: "@ + detail + "; supported harnesses: "@ + names::name_of(
            Harness::ClaudeCode,
        ) + ", codex, cursor, mock"@,
    }
}

impl ApiError {
    pub fn unreadable(other_shape: bool, detail: &str) -> (error: Self)
        ensures
            error@ == unreadable_error(other_shape, detail@),
    {
        let mut message: String = "invalid json: ".to_string();
        message.append(detail);
        message.append("; supported harnesses: ");
        message.append(&names::harness_name(Harness::ClaudeCode));
        message.append(", codex, cursor, mock");
        let status: u16 = if other_shape {
            422
        } else {
            400
        };
        ApiError { status, message }
    }

    pub fn new(status: u16, message: &str) -> (error: Self)
        ensures
            error@ == (ErrorView { status, message: message@ }),
    {
        ApiError { status, message: message.to_string() }
    }

    pub fn unauthorized() -> (error: Self)
        ensures
            error@ == (ErrorView { status: 401, message: "unauthorized"@ }),
    {
        Self::new(401, "unauthorized")
    }

    pub fn not_found(entity: &str) -> (error: Self)
        ensures
            error@ == not_found_error(entity@),
    {
        let mut message: String = entity.to_string();
        message.append(" not found");
        ApiError { status: 404, message }
    }

    pub fn conflict(message: &str) -> (error: Self)
        ensures
            error@ == conflict_error(message@),
    {
        Self::new(409, message)
    }

    pub fn unprocessable(message: &str) -> (error: Self)
        ensures
            error@ == unprocessable_error(message@),
    {
        Self::new(422, message)
    }

    pub fn internal() -> (error: Self)
        ensures
            error@ == internal_error(),
    {
        Self::new(500, "internal server error")
    }
}

// ---------------------------------------------------------------------------
// Time
// ---------------------------------------------------------------------------

/// More than `seconds` have passed between the two instants.
pub open spec fn older_than(then: Timestamp, now: Timestamp, seconds: int) -> bool {
    now - then > seconds * NANOS_PER_SEC
}

/// Whether more than `seconds` have passed between the two instants.
pub fn elapsed(then: Timestamp, now: Timestamp, seconds: i64) -> (yes: bool)
    ensures
        yes == older_than(then, now, seconds as int),
{
    let span: i128 = (seconds as i128) * NANOS_PER_SEC;
    match now.checked_sub(span) {
        Some(cutoff) => then < cutoff,
        None => span < 0,
    }
}

// ---------------------------------------------------------------------------
// Look-ups
// ---------------------------------------------------------------------------

/// The runner of this name was heard from within the online window.
pub open spec fn online(runners: Seq<RunnerView>, name: Seq<char>, now: Timestamp) -> bool {
    exists|i: int|
        0 <= i < runners.len() && (#[trigger] runners[i]).runner == name && !older_than(
            runners[i].last_seen,
            now,
            ONLINE_WINDOW_SECS as int,
        )
}

impl Store {
    /// Empty books.
    pub fn new() -> (store: Self)
        ensures
            wf(store@),
            store@ == (StoreView {
                sessions: Seq::empty(),
                turns: Seq::empty(),
                runners: Seq::empty(),
            }),
    {
        let store: Store = Store { sessions: Vec::new(), turns: Vec::new(), runners: Vec::new() };
        proof {
            assert(store@.sessions =~= Seq::empty());
            assert(store@.turns =~= Seq::empty());
            assert(store@.runners =~= Seq::empty());
        }
        store
    }

    /// Where the session with this identifier stands.
    pub fn find_session(&self, id: SessionId) -> (found: Option<usize>)
        ensures
            match found {
                Some(i) => i < self.sessions@.len() && self@.sessions[i as int].id == id,
                None => !has_session(self@.sessions, id),
            },
    {
        let mut i: usize = 0;
        while i < self.sessions.len()
            invariant
                i <= self.sessions@.len(),
                forall|k: int| 0 <= k < i ==> (#[trigger] self@.sessions[k]).id != id,
            decreases self.sessions@.len() - i,
        {
            if self.sessions[i].id == id {
                return Some(i);
            }
            i += 1;
        }
        None
    }

    /// Where the turn with this identifier stands.
    pub fn find_turn(&self, id: TurnId) -> (found: Option<usize>)
        ensures
            match found {
                Some(i) => i < self.turns@.len() && self@.turns[i as int].id == id,
                None => !has_turn(self@.turns, id),
            },
    {
        let mut i: usize = 0;
        while i < self.turns.len()
            invariant
                i <= self.turns@.len(),
                forall|k: int| 0 <= k < i ==> (#[trigger] self@.turns[k]).id != id,
            decreases self.turns@.len() - i,
        {
            if self.turns[i].id == id {
                return Some(i);
            }
            i += 1;
        }
        None
    }

    /// Where the record of the runner of this name stands.
    pub fn find_runner(&self, name: &str) -> (found: Option<usize>)
        ensures
            match found {
                Some(i) => i < self.runners@.len() && self@.runners[i as int].runner == name@,
                None => !has_runner(self@.runners, name@),
            },
    {
        let mut i: usize = 0;
        while i < self.runners.len()
            invariant
                i <= self.runners@.len(),
                forall|k: int| 0 <= k < i ==> (#[trigger] self@.runners[k]).runner != name@,
            decreases self.runners@.len() - i,
        {
            if text::same_text(&self.runners[i].runner, name) {
                return Some(i);
            }
            i += 1;
        }
        None
    }

    /// Whether a runner has not been heard from within the online window.
    pub fn runner_is_offline(&self, name: &str, now: Timestamp) -> (offline: bool)
        requires
            runners_wf(self@.runners),
        ensures
            offline == !online(self@.runners, name@, now),
    {
        match self.find_runner(name) {
            Some(i) => {
                proof {
                    assert forall|k: int| 0 <= k < self@.runners.len() && (
                    #[trigger] self@.runners[k]).runner == name@ implies k == i by {
                        if k < i {
                            assert(self@.runners[k].runner != self@.runners[i as int].runner);
                        } else if i < k {
                            assert(self@.runners[i as int].runner != self@.runners[k].runner);
                        }
                    }
                }
                elapsed(self.runners[i].last_seen, now, ONLINE_WINDOW_SECS)
            },
            None => true,
        }
    }
}

} // verus!
