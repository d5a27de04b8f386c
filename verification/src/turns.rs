//! Turns: posting them, streaming, reporting and cancelling.

use vstd::prelude::*;

use crate::archive;
use crate::caller;
use crate::config;
use crate::protocol;
use crate::protocol::{
    Event, PostTurnRequest, ReportRequest, SessionId, Timestamp, Turn, TurnControl, TurnId,
    TurnStatus,
};
use crate::protocol::{EventView, LaneView, ReportView, TurnView};
use crate::release;
use crate::store;
use crate::store::{ApiError, Broadcast, Effects, Store, TurnRow};
use crate::store::{BroadcastView, EffectsView, ErrorView, StoreView, TurnRowView};
use crate::text;

verus! {

/// One changed row changes one row of the view.
proof fn lemma_row_updated(before: Seq<TurnRow>, after: Seq<TurnRow>, i: int)
    requires
        0 <= i < before.len() == after.len(),
        forall|m: int| 0 <= m < before.len() && m != i ==> (#[trigger] after[m]) == before[m],
    ensures
        store::turn_rows(after) == store::turn_rows(before).update(i, after[i]@),
{
    assert(store::turn_rows(after) =~= store::turn_rows(before).update(i, after[i]@));
}

/// The books with the turn at `i` in another state.
pub open spec fn with_turn(store: StoreView, i: int, turn: TurnRowView) -> StoreView {
    StoreView { turns: store.turns.update(i, turn), ..store }
}

/// Changing the state of one turn keeps the books in order, as long as it is
/// not newly in flight.
proof fn lemma_with_turn_wf(store: StoreView, i: int, turn: TurnRowView)
    requires
        store::wf(store),
        0 <= i < store.turns.len(),
        turn.id == store.turns[i].id,
        turn.session_id == store.turns[i].session_id,
        turn.seq == store.turns[i].seq,
        caller::is_held(turn.status) ==> caller::is_held(store.turns[i].status),
    ensures
        store::wf(with_turn(store, i, turn)),
{
    store::lemma_turns_keep_wf(
        store.sessions,
        store.turns,
        with_turn(store, i, turn).turns,
    );
}

/// Some turn has this identifier, at `i`.
pub open spec fn stands_at(turns: Seq<TurnRowView>, id: TurnId, i: int) -> bool {
    0 <= i < turns.len() && turns[i].id == id
}

// ---------------------------------------------------------------------------
// Posting
// ---------------------------------------------------------------------------

/// How many of the first `n` turns wait in a session.
pub open spec fn waiting(turns: Seq<TurnRowView>, session: SessionId, n: int) -> nat
    decreases n,
{
    if n <= 0 || n > turns.len() {
        0
    } else {
        waiting(turns, session, n - 1) + if turns[n - 1].session_id == session
            && turns[n - 1].status == TurnStatus::Queued {
            1nat
        } else {
            0nat
        }
    }
}

/// The refusal when too many messages wait.
pub open spec fn queue_full(waiting: nat) -> ErrorView {
    store::conflict_error(
        "this session already has "@ + text::decimal(waiting)
            + " messages waiting; let it catch up first"@,
    )
}

/// Why a message is not queued, if it is not.
pub open spec fn post_refusal(
    store: StoreView,
    session: SessionId,
    id: TurnId,
    input: Seq<char>,
    lane: Option<LaneView>,
) -> Option<ErrorView> {
    let queued = waiting(store.turns, session, store.turns.len() as int);
    if text::is_blank(input) {
        Some(store::unprocessable_error("input is required"@))
    } else if lane is Some && !config::offered(lane->0) {
        Some(config::not_offered(lane->0))
    } else if !store::has_session(store.sessions, session) {
        Some(store::not_found_error("session"@))
    } else if queued >= store::MAX_QUEUED_TURNS_PER_SESSION {
        Some(queue_full(queued))
    } else if store::has_turn(store.turns, id) {
        Some(store::internal_error())
    } else {
        None
    }
}

/// The row of a message that was queued.
pub open spec fn queued_row(
    store: StoreView,
    session: SessionId,
    id: TurnId,
    input: Seq<char>,
    lane: Option<LaneView>,
    now: Timestamp,
) -> TurnRowView {
    TurnRowView {
        id,
        session_id: session,
        seq: (store::turns_before(store.turns, session, store.turns.len() as int) + 1) as i64,
        input,
        lane_override: lane,
        status: TurnStatus::Queued,
        envelope: None,
        error: None,
        commit: None,
        resume_token: None,
        cancel_requested_at: None,
        created_at: now,
        started_at: None,
        finished_at: None,
    }
}

/// What posting a message comes to: the books afterwards, with the turn and
/// what is broadcast, or the refusal.
pub open spec fn post_ends(
    before: StoreView,
    session: SessionId,
    id: TurnId,
    input: Seq<char>,
    lane: Option<LaneView>,
    now: Timestamp,
    after: StoreView,
    outcome: Result<(TurnView, EffectsView), ErrorView>,
) -> bool {
    match outcome {
        Ok((turn, effects)) => {
            let row = queued_row(before, session, id, input, lane, now);
            &&& post_refusal(before, session, id, input, lane) is None
            &&& after == StoreView { turns: before.turns.push(row), ..before }
            &&& turn == store::turn_of(row)
            &&& effects == EffectsView {
                events: seq![
                    BroadcastView {
                        session_id: Some(session),
                        event: EventView::TurnQueued { turn },
                    },
                ],
                wake: true,
            }
        },
        Err(error) => {
            &&& post_refusal(before, session, id, input, lane) == Some(error)
            &&& after == before
        },
    }
}

impl Store {
    /// How many messages wait in a session.
    fn count_waiting(&self, session: SessionId) -> (count: usize)
        ensures
            count == waiting(self@.turns, session, self@.turns.len() as int),
            count <= self.turns@.len(),
    {
        let mut count: usize = 0;
        let mut i: usize = 0;
        while i < self.turns.len()
            invariant
                i <= self.turns@.len(),
                count <= i,
                count == waiting(self@.turns, session, i as int),
            decreases self.turns@.len() - i,
        {
            assert(self@.turns[i as int] == self.turns@[i as int]@);
            if self.turns[i].session_id == session && self.turns[i].status == TurnStatus::Queued {
                count += 1;
            }
            i += 1;
        }
        count
    }

    /// How many turns a session has.
    fn count_turns(&self, session: SessionId) -> (count: usize)
        ensures
            count == store::turns_before(self@.turns, session, self@.turns.len() as int),
            count <= self.turns@.len(),
    {
        let mut count: usize = 0;
        let mut i: usize = 0;
        while i < self.turns.len()
            invariant
                i <= self.turns@.len(),
                count <= i,
                count == store::turns_before(self@.turns, session, i as int),
            decreases self.turns@.len() - i,
        {
            assert(self@.turns[i as int] == self.turns@[i as int]@);
            if self.turns[i].session_id == session {
                count += 1;
            }
            i += 1;
        }
        count
    }

    /// Queues a message in a session, under the identifier that the caller
    /// drew for it.
    ///
    /// A turn already running does not block the next message: turns still
    /// execute one at a time, so a message sent mid-turn queues and runs next.
    /// The cap stops a runaway client filling the queue.
    pub fn post_turn(
        &mut self,
        session_id: SessionId,
        id: TurnId,
        request: PostTurnRequest,
        now: Timestamp,
    ) -> (posted: Result<(Turn, Effects), ApiError>)
        requires
            store::wf(old(self)@),
            old(self).turns@.len() < i64::MAX,
        ensures
            store::wf(final(self)@),
            post_ends(
                old(self)@,
                session_id,
                id,
                request.input@,
                protocol::opt_lane(request.lane),
                now,
                final(self)@,
                turn_outcome(posted),
            ),
    {
        let ghost start = self@;
        if text::blank(&request.input) {
            return Err(ApiError::unprocessable("input is required"));
        }
        if let Err(error) = config::check_lane(&request.lane) {
            return Err(error);
        }
        match self.find_session(session_id) {
            Some(k) => {
                assert(start.sessions[k as int].id == session_id);
            },
            None => {
                return Err(ApiError::not_found("session"));
            },
        }
        let queued: usize = self.count_waiting(session_id);
        if queued >= store::MAX_QUEUED_TURNS_PER_SESSION {
            let mut message: String = "this session already has ".to_string();
            message.append(&text::decimal_text(queued as u64));
            message.append(" messages waiting; let it catch up first");
            assert(message@ == queue_full(queued as nat).message);
            return Err(ApiError::conflict(&message));
        }
        if let Some(k) = self.find_turn(id) {
            assert(start.turns[k as int].id == id);
            return Err(ApiError::internal());
        }
        let seq: i64 = self.count_turns(session_id) as i64 + 1;
        let row: TurnRow = TurnRow {
            id,
            session_id,
            seq,
            input: request.input,
            lane_override: request.lane,
            status: TurnStatus::Queued,
            envelope: None,
            error: None,
            commit: None,
            resume_token: None,
            cancel_requested_at: None,
            created_at: now,
            started_at: None,
            finished_at: None,
        };
        let turn: Turn = row.to_turn();
        let mut events: Vec<Broadcast> = Vec::new();
        events.push(
            Broadcast {
                session_id: Some(session_id),
                event: Event::TurnQueued { turn: row.to_turn() },
            },
        );
        let ghost added = row@;
        self.turns.push(row);
        proof {
            assert(self@.turns =~= start.turns.push(added));
            assert(self@ =~= StoreView { turns: start.turns.push(added), ..start });
            assert(store::events_view(events@) =~= seq![
                BroadcastView {
                    session_id: Some(session_id),
                    event: EventView::TurnQueued { turn: turn@ },
                },
            ]);
            lemma_pushed_turn_wf(start, added);
        }
        Ok((turn, Effects { events, wake: true }))
    }
}

proof fn lemma_count_before_push(
    turns: Seq<TurnRowView>,
    row: TurnRowView,
    session: SessionId,
    n: int,
)
    requires
        n <= turns.len(),
    ensures
        store::turns_before(turns.push(row), session, n) == store::turns_before(
            turns,
            session,
            n,
        ),
    decreases n,
{
    if n > 0 {
        lemma_count_before_push(turns, row, session, n - 1);
    }
}

/// A queued turn at the end keeps the books in order.
proof fn lemma_pushed_turn_wf(store: StoreView, row: TurnRowView)
    requires
        store::wf(store),
        store::has_session(store.sessions, row.session_id),
        !store::has_turn(store.turns, row.id),
        row.status == TurnStatus::Queued,
        row.seq == store::turns_before(store.turns, row.session_id, store.turns.len() as int) + 1,
    ensures
        store::wf(StoreView { turns: store.turns.push(row), ..store }),
{
    let after = store.turns.push(row);
    assert forall|i: int, j: int| 0 <= i < j < after.len() implies (#[trigger] after[i]).id != (
    #[trigger] after[j]).id by {
        assert(after[i] == store.turns[i]);
        if j < store.turns.len() {
            assert(after[j] == store.turns[j]);
        }
    }
    assert forall|i: int| 0 <= i < after.len() implies (#[trigger] after[i]).seq
        == store::turns_before(after, after[i].session_id, i) + 1 by {
        lemma_count_before_push(store.turns, row, after[i].session_id, i);
        if i < store.turns.len() {
            assert(store.turns[i].seq == store::turns_before(
                store.turns,
                store.turns[i].session_id,
                i,
            ) + 1);
        }
    }
    assert forall|i: int, j: int|
        0 <= i < j < after.len() && caller::is_held((#[trigger] after[i]).status)
            && caller::is_held((#[trigger] after[j]).status) implies after[i].session_id
        != after[j].session_id by {
        assert(after[i] == store.turns[i] && after[j] == store.turns[j]);
    }
    assert forall|i: int| 0 <= i < after.len() implies store::has_session(
        store.sessions,
        (#[trigger] after[i]).session_id,
    ) by {
        if i < store.turns.len() {
            assert(after[i] == store.turns[i]);
        }
    }
}

// ---------------------------------------------------------------------------
// One turn
// ---------------------------------------------------------------------------

/// What a runner that holds a turn is told: whether a cancel was asked for.
pub open spec fn control_ends(
    turns: Seq<TurnRowView>,
    id: TurnId,
    cancel: Result<bool, ErrorView>,
) -> bool {
    match cancel {
        Ok(cancel) => exists|i: int| #[trigger]
            stands_at(turns, id, i) && cancel == turns[i].cancel_requested_at is Some,
        Err(error) => !store::has_turn(turns, id) && error == store::not_found_error("turn"@),
    }
}

impl Store {
    /// The turn of this identifier.
    pub fn get_turn(&self, id: TurnId) -> (found: Result<Turn, ApiError>)
        ensures
            match found {
                Ok(turn) => exists|i: int| #[trigger]
                    stands_at(self@.turns, id, i) && turn@ == store::turn_of(self@.turns[i]),
                Err(error) => !store::has_turn(self@.turns, id) && error@
                    == store::not_found_error("turn"@),
            },
    {
        match self.find_turn(id) {
            Some(i) => {
                let turn: Turn = self.turns[i].to_turn();
                assert(stands_at(self@.turns, id, i as int));
                Ok(turn)
            },
            None => Err(ApiError::not_found("turn")),
        }
    }

    /// Asked by the runner holding a turn: has the human asked for a cancel?
    pub fn turn_control(&self, id: TurnId) -> (control: Result<TurnControl, ApiError>)
        ensures
            control_ends(
                self@.turns,
                id,
                match control {
                    Ok(control) => Ok(control.cancel_requested),
                    Err(error) => Err(error@),
                },
            ),
    {
        match self.find_turn(id) {
            Some(i) => {
                assert(stands_at(self@.turns, id, i as int));
                Ok(TurnControl { cancel_requested: self.turns[i].cancel_requested_at.is_some() })
            },
            None => Err(ApiError::not_found("turn")),
        }
    }
}

// ---------------------------------------------------------------------------
// Streaming
// ---------------------------------------------------------------------------

/// How a chunk of output ends: the first one of a claimed turn sets it
/// working, and each is told on the session's feed.
pub open spec fn chunk_ends(
    before: StoreView,
    id: TurnId,
    chunk: Seq<char>,
    after: StoreView,
    outcome: Result<EffectsView, ErrorView>,
) -> bool {
    if !store::has_turn(before.turns, id) {
        outcome == Err::<EffectsView, _>(store::not_found_error("turn"@)) && after == before
    } else {
        exists|i: int| #[trigger]
            stands_at(before.turns, id, i) && {
                let turn = before.turns[i];
                if caller::is_held(turn.status) {
                    &&& after == with_turn(
                        before,
                        i,
                        TurnRowView { status: TurnStatus::Working, ..turn },
                    )
                    &&& outcome == Ok::<_, ErrorView>(
                        EffectsView {
                            events: seq![
                                BroadcastView {
                                    session_id: Some(turn.session_id),
                                    event: EventView::Chunk { turn_id: id, text: chunk },
                                },
                            ],
                            wake: false,
                        },
                    )
                } else {
                    &&& after == before
                    &&& outcome == Err::<EffectsView, _>(
                        store::conflict_error("turn is not claimed or working"@),
                    )
                }
            }
    }
}

/// The view of an outcome that carries effects alone.
pub open spec fn effects_outcome(outcome: Result<Effects, ApiError>) -> Result<
    EffectsView,
    ErrorView,
> {
    match outcome {
        Ok(effects) => Ok(effects@),
        Err(error) => Err(error@),
    }
}

impl Store {
    /// Takes a chunk of a turn's output.
    pub fn post_chunk(&mut self, id: TurnId, chunk: String) -> (outcome: Result<Effects, ApiError>)
        requires
            store::wf(old(self)@),
        ensures
            store::wf(final(self)@),
            chunk_ends(old(self)@, id, chunk@, final(self)@, effects_outcome(outcome)),
    {
        let ghost start = self@;
        let i: usize = match self.find_turn(id) {
            Some(i) => i,
            None => {
                return Err(ApiError::not_found("turn"));
            },
        };
        let ghost before = self.turns@;
        assert(start.turns[i as int].id == id);
        assert(stands_at(start.turns, id, i as int));
        let status: TurnStatus = self.turns[i].status;
        if !caller::held(status) {
            return Err(ApiError::conflict("turn is not claimed or working"));
        }
        if status == TurnStatus::Claimed {
            self.turns[i].status = TurnStatus::Working;
        }
        let ghost text = chunk@;
        let session_id: SessionId = self.turns[i].session_id;
        let mut events: Vec<Broadcast> = Vec::new();
        events.push(
            Broadcast {
                session_id: Some(session_id),
                event: Event::Chunk { turn_id: id, text: chunk },
            },
        );
        proof {
            lemma_row_updated(before, self.turns@, i as int);
            let row = TurnRowView { status: TurnStatus::Working, ..start.turns[i as int] };
            assert(self.turns@[i as int]@ == row);
            assert(self@ =~= with_turn(start, i as int, row));
            lemma_with_turn_wf(start, i as int, row);
            assert(store::events_view(events@) =~= seq![
                BroadcastView {
                    session_id: Some(session_id),
                    event: EventView::Chunk { turn_id: id, text },
                },
            ]);
        }
        Ok(Effects { events, wake: false })
    }
}

// ---------------------------------------------------------------------------
// Reporting
// ---------------------------------------------------------------------------

/// The statuses that a report may carry.
pub open spec fn reportable(status: TurnStatus) -> bool {
    caller::is_terminal(status) || status == TurnStatus::Capped
}

/// A turn once it was reported.
pub open spec fn reported(turn: TurnRowView, report: ReportView, now: Timestamp) -> TurnRowView {
    TurnRowView {
        status: report.status,
        envelope: report.envelope,
        error: report.error,
        commit: report.commit,
        resume_token: report.resume_token,
        finished_at: Some(now),
        ..turn
    }
}

/// What a feed is told of a reported turn.
pub open spec fn report_event(turn: TurnRowView) -> EventView {
    match turn.status {
        TurnStatus::Done => EventView::TurnDone { turn: store::turn_of(turn) },
        TurnStatus::Cancelled => EventView::TurnCancelled { turn: store::turn_of(turn) },
        _ => EventView::TurnError {
            turn_id: turn.id,
            message: match turn.error {
                Some(message) => message,
                None => "turn did not complete"@,
            },
        },
    }
}

/// How a report ends.
pub open spec fn report_ends(
    before: StoreView,
    id: TurnId,
    report: ReportView,
    now: Timestamp,
    after: StoreView,
    outcome: Result<(TurnView, EffectsView), ErrorView>,
) -> bool {
    if !reportable(report.status) {
        outcome == Err::<(TurnView, EffectsView), _>(
            store::unprocessable_error("report status must be done, error, capped, or cancelled"@),
        ) && after == before
    } else if !store::has_turn(before.turns, id) {
        outcome == Err::<(TurnView, EffectsView), _>(store::not_found_error("turn"@)) && after
            == before
    } else {
        exists|i: int| #[trigger]
            stands_at(before.turns, id, i) && {
                let turn = before.turns[i];
                let row = reported(turn, report, now);
                if caller::legal(turn.status, report.status) {
                    &&& after == with_turn(before, i, row)
                    &&& outcome == Ok::<_, ErrorView>(
                        (
                            store::turn_of(row),
                            EffectsView {
                                events: seq![
                                    BroadcastView {
                                        session_id: Some(turn.session_id),
                                        event: report_event(row),
                                    },
                                ],
                                wake: true,
                            },
                        ),
                    )
                } else {
                    &&& after == before
                    &&& outcome == Err::<(TurnView, EffectsView), _>(
                        store::conflict_error("turn transition is not allowed"@),
                    )
                }
            }
    }
}

/// The view of an outcome that carries a turn.
pub open spec fn turn_outcome(outcome: Result<(Turn, Effects), ApiError>) -> Result<
    (TurnView, EffectsView),
    ErrorView,
> {
    match outcome {
        Ok((turn, effects)) => Ok((turn@, effects@)),
        Err(error) => Err(error@),
    }
}

/// What a feed is told of a reported turn.
fn tell_report(row: &TurnRow) -> (event: Event)
    requires
        reportable(row.status),
    ensures
        event@ == report_event(row@),
{
    match row.status {
        TurnStatus::Done => Event::TurnDone { turn: row.to_turn() },
        TurnStatus::Cancelled => Event::TurnCancelled { turn: row.to_turn() },
        _ => Event::TurnError {
            turn_id: row.id,
            message: match &row.error {
                Some(message) => message.clone(),
                None => "turn did not complete".to_string(),
            },
        },
    }
}

impl Store {
    /// Takes a runner's report of how a turn ended.
    pub fn report_turn(&mut self, id: TurnId, report: ReportRequest, now: Timestamp) -> (outcome:
        Result<(Turn, Effects), ApiError>)
        requires
            store::wf(old(self)@),
        ensures
            store::wf(final(self)@),
            report_ends(old(self)@, id, report@, now, final(self)@, turn_outcome(outcome)),
    {
        let ghost start = self@;
        let ghost told = report@;
        match report.status {
            TurnStatus::Done | TurnStatus::Error | TurnStatus::Capped | TurnStatus::Cancelled => {},
            _ => {
                return Err(
                    ApiError::unprocessable(
                        "report status must be done, error, capped, or cancelled",
                    ),
                );
            },
        }
        let i: usize = match self.find_turn(id) {
            Some(i) => i,
            None => {
                return Err(ApiError::not_found("turn"));
            },
        };
        let ghost before = self.turns@;
        assert(start.turns[i as int].id == id);
        assert(stands_at(start.turns, id, i as int));
        if !caller::transition_allowed(self.turns[i].status, report.status) {
            return Err(ApiError::conflict("turn transition is not allowed"));
        }
        self.turns[i].status = report.status;
        self.turns[i].envelope = report.envelope;
        self.turns[i].error = report.error;
        self.turns[i].commit = report.commit;
        self.turns[i].resume_token = report.resume_token;
        self.turns[i].finished_at = Some(now);
        let ghost row = reported(start.turns[i as int], told, now);
        proof {
            lemma_row_updated(before, self.turns@, i as int);
            assert(self.turns@[i as int]@ == row);
            assert(self@ =~= with_turn(start, i as int, row));
            lemma_with_turn_wf(start, i as int, row);
        }
        let turn: Turn = self.turns[i].to_turn();
        let mut events: Vec<Broadcast> = Vec::new();
        events.push(
            Broadcast {
                session_id: Some(self.turns[i].session_id),
                event: tell_report(&self.turns[i]),
            },
        );
        assert(store::events_view(events@) =~= seq![
            BroadcastView { session_id: Some(row.session_id), event: report_event(row) },
        ]);
        Ok((turn, Effects { events, wake: true }))
    }
}

// ---------------------------------------------------------------------------
// Cancelling
// ---------------------------------------------------------------------------

/// How a cancel ends: a queued turn is cancelled here and now; one that a
/// runner holds is flagged, and the runner kills the harness and reports it.
pub open spec fn cancel_ends(
    before: StoreView,
    session: SessionId,
    id: TurnId,
    now: Timestamp,
    after: StoreView,
    outcome: Result<(TurnView, EffectsView), ErrorView>,
) -> bool {
    if !store::has_turn(before.turns, id) {
        outcome == Err::<(TurnView, EffectsView), _>(store::not_found_error("turn"@)) && after
            == before
    } else {
        exists|i: int| #[trigger]
            stands_at(before.turns, id, i) && {
                let turn = before.turns[i];
                if turn.session_id != session {
                    &&& after == before
                    &&& outcome == Err::<(TurnView, EffectsView), _>(
                        store::not_found_error("turn"@),
                    )
                } else if turn.status == TurnStatus::Queued {
                    let row = TurnRowView {
                        status: TurnStatus::Cancelled,
                        cancel_requested_at: Some(now),
                        finished_at: Some(now),
                        ..turn
                    };
                    &&& after == with_turn(before, i, row)
                    &&& outcome == Ok::<_, ErrorView>(
                        (
                            store::turn_of(row),
                            EffectsView {
                                events: seq![release::cancelled_event(row)],
                                wake: true,
                            },
                        ),
                    )
                } else if caller::is_held(turn.status) {
                    let row = TurnRowView {
                        cancel_requested_at: archive::first_asked(turn.cancel_requested_at, now),
                        ..turn
                    };
                    &&& after == with_turn(before, i, row)
                    &&& outcome == Ok::<_, ErrorView>(
                        (
                            store::turn_of(row),
                            EffectsView { events: Seq::empty(), wake: false },
                        ),
                    )
                } else {
                    &&& after == before
                    &&& outcome == Err::<(TurnView, EffectsView), _>(
                        store::conflict_error("turn has already finished"@),
                    )
                }
            }
    }
}

impl Store {
    /// Cancels a turn of a session.
    pub fn cancel_turn(&mut self, session_id: SessionId, id: TurnId, now: Timestamp) -> (outcome:
        Result<(Turn, Effects), ApiError>)
        requires
            store::wf(old(self)@),
        ensures
            store::wf(final(self)@),
            cancel_ends(old(self)@, session_id, id, now, final(self)@, turn_outcome(outcome)),
    {
        let ghost start = self@;
        let i: usize = match self.find_turn(id) {
            Some(i) => i,
            None => {
                return Err(ApiError::not_found("turn"));
            },
        };
        let ghost before = self.turns@;
        assert(start.turns[i as int].id == id);
        assert(stands_at(start.turns, id, i as int));
        if self.turns[i].session_id != session_id {
            return Err(ApiError::not_found("turn"));
        }
        let status: TurnStatus = self.turns[i].status;
        let mut events: Vec<Broadcast> = Vec::new();
        let queued: bool = status == TurnStatus::Queued;
        if queued {
            self.turns[i].status = TurnStatus::Cancelled;
            self.turns[i].cancel_requested_at = Some(now);
            self.turns[i].finished_at = Some(now);
            events.push(
                Broadcast {
                    session_id: Some(session_id),
                    event: Event::TurnCancelled { turn: self.turns[i].to_turn() },
                },
            );
        } else if caller::held(status) {
            if self.turns[i].cancel_requested_at.is_none() {
                self.turns[i].cancel_requested_at = Some(now);
            }
        } else {
            return Err(ApiError::conflict("turn has already finished"));
        }
        proof {
            lemma_row_updated(before, self.turns@, i as int);
            let row = self.turns@[i as int]@;
            assert(self@ =~= with_turn(start, i as int, row));
            lemma_with_turn_wf(start, i as int, row);
            if queued {
                assert(store::events_view(events@) =~= seq![release::cancelled_event(row)]);
            } else {
                assert(store::events_view(events@) =~= Seq::empty());
            }
        }
        Ok((self.turns[i].to_turn(), Effects { events, wake: queued }))
    }
}

} // verus!
