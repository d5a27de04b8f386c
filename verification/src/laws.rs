//! What holds of the books across requests, whatever comes in.
//!
//! Each law speaks of the spec functions in which the operations of `Store`
//! state their outcomes.

use vstd::prelude::*;

use crate::archive;
use crate::caller;
use crate::claims;
use crate::config;
use crate::names;
use crate::protocol;
use crate::protocol::{
    ClaimRequestView, CreateSessionView, HeartbeatView, LaneView, ReportView, SessionView, TurnView,
};
use crate::protocol::{SessionId, SessionStatus, Timestamp, TurnId, TurnStatus};
use crate::protocol::WorkView;
use crate::release;
use crate::runners;
use crate::sessions;
use crate::store;
use crate::store::{EffectsView, ErrorView, StoreView, TurnRowView};
use crate::text;
use crate::tree;
use crate::turns;

verus! {

// ---------------------------------------------------------------------------
// Turns move along the state machine, and finished turns stay as they are
// ---------------------------------------------------------------------------

/// What may become of a turn in one step: it stays what it was asked to be,
/// its status moves along the state machine or not at all, a finished turn
/// does not change, and a request to cancel is neither withdrawn nor undone by
/// the queue.
pub open spec fn row_step(old: TurnRowView, new: TurnRowView) -> bool {
    &&& new.id == old.id
    &&& new.session_id == old.session_id
    &&& new.seq == old.seq
    &&& new.input == old.input
    &&& new.lane_override == old.lane_override
    &&& new.created_at == old.created_at
    &&& new.status == old.status || caller::legal(old.status, new.status) || caller::caller_move(
        old.status,
        new.status,
    )
    &&& caller::is_terminal(old.status) ==> new == old
    &&& old.cancel_requested_at is Some ==> new.cancel_requested_at is Some
    &&& old.cancel_requested_at is Some && new.status == TurnStatus::Queued ==> old.status
        == TurnStatus::Queued
}

/// Every turn makes such a step, and new turns come last.
pub open spec fn turns_step(before: Seq<TurnRowView>, after: Seq<TurnRowView>) -> bool {
    &&& before.len() <= after.len()
    &&& forall|i: int| 0 <= i < before.len() ==> row_step(before[i], #[trigger] after[i])
}

/// Giving back what a runner abandoned is a step.
pub proof fn releases_are_steps(
    sessions: Seq<SessionView>,
    rows: Seq<TurnRowView>,
    runner: Seq<char>,
    holds: Seq<TurnId>,
    now: Timestamp,
    grace_seconds: int,
)
    ensures
        turns_step(
            rows,
            release::turns_released(sessions, rows, runner, holds, now, grace_seconds),
        ),
{
}

/// A heartbeat is a step.
pub proof fn heartbeats_are_steps(store: StoreView, beat: HeartbeatView, now: Timestamp)
    ensures
        turns_step(store.turns, runners::after_beat(store, beat, now).turns),
{
    releases_are_steps(
        store.sessions,
        store.turns,
        beat.runner,
        beat.active_turns,
        now,
        store::HELD_TURN_GRACE_SECS as int,
    );
}

/// A claim is two steps: what was left behind is given back, and then one turn
/// is handed out.
pub proof fn claims_are_steps(
    before: StoreView,
    request: ClaimRequestView,
    now: Timestamp,
    after: StoreView,
    work: Option<WorkView>,
    effects: EffectsView,
)
    requires
        claims::claim_ends(before, request, now, after, work, effects),
    ensures
        turns_step(before.turns, claims::prepared(before, request, now).turns),
        turns_step(claims::prepared(before, request, now).turns, after.turns),
{
    let restart = claims::after_restart(before, request, now);
    let ready = claims::prepared(before, request, now);
    assert forall|i: int| 0 <= i < before.turns.len() implies row_step(
        before.turns[i],
        #[trigger] ready.turns[i],
    ) by {
        assert(restart.turns[i] == before.turns[i] || !caller::is_held(restart.turns[i].status));
    }
    if work is Some {
        let i = choose|i: int| #[trigger]
            claims::next_up(ready, request, now, i) && after == claims::claimed(
                ready,
                request,
                now,
                i,
            );
        assert(claims::eligible(ready, request, now, i));
    }
}

/// A chunk of output is a step.
pub proof fn chunks_are_steps(
    before: StoreView,
    id: TurnId,
    chunk: Seq<char>,
    after: StoreView,
    outcome: Result<EffectsView, ErrorView>,
)
    requires
        turns::chunk_ends(before, id, chunk, after, outcome),
    ensures
        turns_step(before.turns, after.turns),
{
}

/// A report is a step.
pub proof fn reports_are_steps(
    before: StoreView,
    id: TurnId,
    report: ReportView,
    now: Timestamp,
    after: StoreView,
    outcome: Result<(TurnView, EffectsView), ErrorView>,
)
    requires
        turns::report_ends(before, id, report, now, after, outcome),
    ensures
        turns_step(before.turns, after.turns),
{
}

/// A cancel is a step.
pub proof fn cancels_are_steps(
    before: StoreView,
    session: SessionId,
    id: TurnId,
    now: Timestamp,
    after: StoreView,
    outcome: Result<(TurnView, EffectsView), ErrorView>,
)
    requires
        turns::cancel_ends(before, session, id, now, after, outcome),
    ensures
        turns_step(before.turns, after.turns),
{
}

/// Archiving is a step.
pub proof fn archiving_is_a_step(store: StoreView, root: SessionId, now: Timestamp)
    ensures
        turns_step(store.turns, archive::archived(store, root, now).turns),
{
}

/// Posting is a step.
pub proof fn posting_is_a_step(rows: Seq<TurnRowView>, row: TurnRowView)
    ensures
        turns_step(rows, rows.push(row)),
{
}

/// Deleting leaves every turn that it does not remove as it was.
pub proof fn deleting_changes_no_other_turn(store: StoreView, root: SessionId, turn: TurnRowView)
    requires
        archive::deleted(store, root).turns.contains(turn),
    ensures
        store.turns.contains(turn),
{
    let keep = |turn: TurnRowView| !tree::descends(store.sessions, root, turn.session_id);
    let left = store.turns.filter(keep);
    let i = choose|i: int| 0 <= i < left.len() && left[i] == turn;
    store.turns.lemma_filter_contains_rev(keep, left[i]);
}

/// A finished turn stays exactly as it is, however many steps follow.
pub proof fn finished_turns_stay(
    before: Seq<TurnRowView>,
    middle: Seq<TurnRowView>,
    after: Seq<TurnRowView>,
    i: int,
)
    requires
        turns_step(before, middle),
        turns_step(middle, after),
        0 <= i < before.len(),
        caller::is_terminal(before[i].status),
    ensures
        after[i] == before[i],
{
    assert(row_step(before[i], middle[i]));
    assert(row_step(middle[i], after[i]));
}

// ---------------------------------------------------------------------------
// Claims
// ---------------------------------------------------------------------------

/// The turn that a claim handed out: it was the oldest one eligible, its
/// session's workspace is with the runner from now on, and before that it was
/// with this runner, with none, or with one that is away. A session stays with
/// its runner while that is online.
pub proof fn a_session_stays_with_its_runner(
    before: StoreView,
    request: ClaimRequestView,
    now: Timestamp,
    after: StoreView,
    work: WorkView,
    effects: EffectsView,
)
    requires
        store::wf(before),
        claims::claim_ends(before, request, now, after, Some(work), effects),
    ensures
        work.session.id == work.turn.session_id,
        work.session.runner_affinity == Some(request.runner),
        after.sessions.contains(work.session),
        exists|k: int|
            0 <= k < before.sessions.len() && #[trigger] before.sessions[k].id
                == work.turn.session_id && claims::welcomes(
                claims::prepared(before, request, now).runners,
                before.sessions[k],
                request.runner,
                now,
            ),
{
    let ready = claims::prepared(before, request, now);
    let i = choose|i: int| #[trigger]
        claims::next_up(ready, request, now, i) && after == claims::claimed(ready, request, now, i)
            && claims::is_work(after, i, work);
    assert(claims::eligible(ready, request, now, i));
    assert(ready.sessions == before.sessions);
    let k = choose|k: int|
        0 <= k < ready.sessions.len() && claims::may_play(
            ready.runners,
            #[trigger] ready.sessions[k],
            ready.turns[i],
            request,
            now,
        );
    let m = choose|m: int|
        0 <= m < after.sessions.len() && (#[trigger] after.sessions[m]).id
            == after.turns[i].session_id && work.session == after.sessions[m];
    assert(after.turns[i].session_id == ready.turns[i].session_id);
    assert(after.sessions[m].id == before.sessions[m].id);
    assert(before.sessions[k].id == work.turn.session_id);
}

/// A turn goes to a runner that offers the harness it is to be played on, its
/// own or else its session's, and to no other harness in its place.
pub proof fn a_turn_is_played_on_its_lane(
    before: StoreView,
    request: ClaimRequestView,
    now: Timestamp,
    after: StoreView,
    work: WorkView,
    effects: EffectsView,
)
    requires
        store::wf(before),
        claims::claim_ends(before, request, now, after, Some(work), effects),
    ensures
        request.harnesses.contains(protocol::lane_of_work(work).harness),
{
    let ready = claims::prepared(before, request, now);
    let i = choose|i: int| #[trigger]
        claims::next_up(ready, request, now, i) && after == claims::claimed(ready, request, now, i)
            && claims::is_work(after, i, work);
    assert(claims::eligible(ready, request, now, i));
    let k = choose|k: int|
        0 <= k < ready.sessions.len() && claims::may_play(
            ready.runners,
            #[trigger] ready.sessions[k],
            ready.turns[i],
            request,
            now,
        );
    let m = choose|m: int|
        0 <= m < after.sessions.len() && (#[trigger] after.sessions[m]).id
            == after.turns[i].session_id && work.session == after.sessions[m];
    assert(before.sessions[m].id == before.sessions[k].id);
    if m < k {
        assert(before.sessions[m].id != before.sessions[k].id);
    } else if k < m {
        assert(before.sessions[k].id != before.sessions[m].id);
    }
    assert(after.sessions[m].lane == ready.sessions[m].lane);
}

/// While a turn of a session is in flight no other turn of it is handed out,
/// to any runner.
pub proof fn a_busy_session_gets_no_second_turn(
    before: StoreView,
    request: ClaimRequestView,
    now: Timestamp,
    after: StoreView,
    work: WorkView,
    effects: EffectsView,
    other: ClaimRequestView,
    later: Timestamp,
    j: int,
)
    requires
        store::wf(before),
        claims::claim_ends(before, request, now, after, Some(work), effects),
        0 <= j < after.turns.len(),
        after.turns[j].session_id == work.turn.session_id,
    ensures
        claims::busy(after.turns, work.turn.session_id),
        !claims::eligible(after, other, later, j),
{
    let ready = claims::prepared(before, request, now);
    let i = choose|i: int| #[trigger]
        claims::next_up(ready, request, now, i) && after == claims::claimed(ready, request, now, i)
            && claims::is_work(after, i, work);
    assert(claims::eligible(ready, request, now, i));
    assert(after.turns[i].status == TurnStatus::Claimed);
    assert(after.turns[i].session_id == work.turn.session_id);
}

/// An archived session gets no work.
pub proof fn archived_sessions_get_no_work(
    store: StoreView,
    request: ClaimRequestView,
    now: Timestamp,
    i: int,
)
    requires
        store::sessions_wf(store.sessions),
        0 <= i < store.turns.len(),
        !archive::is_active(store.sessions, store.turns[i].session_id),
    ensures
        !claims::eligible(store, request, now, i),
{
}

/// A claim under a new epoch gives back what the runner's former process was
/// playing: to the queue, or cancelled where that was asked for.
pub proof fn a_restart_gives_back(
    store: StoreView,
    request: ClaimRequestView,
    now: Timestamp,
    i: int,
)
    requires
        claims::restarted(store.runners, request),
        0 <= i < store.turns.len(),
        caller::is_held(store.turns[i].status),
        store.turns[i].started_at matches Some(started) && started < now,
        release::assigned(store.sessions, store.turns[i].session_id, request.runner),
    ensures
        claims::after_restart(store, request, now).turns[i].status == if store.turns[i].cancel_requested_at is Some {
            TurnStatus::Cancelled
        } else {
            TurnStatus::Queued
        },
{
    assert(store::older_than(store.turns[i].started_at->0, now, 0));
    assert(release::abandoned(
        store.sessions,
        request.runner,
        Seq::empty(),
        now,
        0,
        store.turns[i],
    ));
}

/// Once a claim has looked at the books, no turn is left with a runner that is
/// away: dead work goes back on the queue.
pub proof fn dead_work_is_given_back(
    store: StoreView,
    request: ClaimRequestView,
    now: Timestamp,
    i: int,
)
    requires
        0 <= i < store.turns.len(),
    ensures
        ({
            let ready = claims::prepared(store, request, now);
            !claims::stale(ready.sessions, ready.runners, now, ready.turns[i])
        }),
{
}

/// A runner that claims has been heard from: it is on record, as of now.
pub proof fn claiming_is_being_seen(
    store: StoreView,
    request: ClaimRequestView,
    now: Timestamp,
)
    ensures
        store::has_runner(claims::prepared(store, request, now).runners, request.runner),
        forall|k: int|
            0 <= k < claims::prepared(store, request, now).runners.len() && (
            #[trigger] claims::prepared(store, request, now).runners[k]).runner == request.runner
                ==> claims::prepared(store, request, now).runners[k].last_seen == now,
{
    let after = claims::prepared(store, request, now).runners;
    if store::has_runner(store.runners, request.runner) {
        let k = choose|k: int|
            0 <= k < store.runners.len() && (#[trigger] store.runners[k]).runner
                == request.runner;
        assert(after[k].runner == request.runner);
    } else {
        assert(after.last().runner == request.runner);
        assert forall|k: int|
            0 <= k < after.len() && (#[trigger] after[k]).runner == request.runner implies after[k].last_seen
            == now by {
            if k < store.runners.len() {
                assert(store.runners[k].runner == request.runner);
            }
        }
    }
}

/// A turn that follows another in its session resumes the harness session that
/// the one before it left, unless it has a token of its own.
pub proof fn the_next_turn_resumes(store: StoreView, i: int, j: int, work: WorkView)
    requires
        store::wf(store),
        0 <= i < store.turns.len(),
        0 <= j < store.turns.len(),
        store.turns[i].session_id == store.turns[j].session_id,
        store.turns[j].seq == store.turns[i].seq + 1,
        store.turns[i].resume_token is Some,
        store.turns[j].resume_token is None,
        claims::is_work(store, j, work),
    ensures
        work.turn.resume_token == store.turns[i].resume_token,
{
    let row = store.turns[j];
    assert forall|m: int|
        0 <= m < store.turns.len() && #[trigger] store.turns[m].session_id == row.session_id
            && store.turns[m].seq == store.turns[i].seq implies m == i by {
        places_are_unique(store.turns, m, i);
    }
    lemma_latest_token(store.turns, row.session_id, row.seq, work.turn.resume_token, i);
}

proof fn lemma_latest_token(
    rows: Seq<TurnRowView>,
    session: SessionId,
    seq: i64,
    token: Option<Seq<char>>,
    i: int,
)
    requires
        claims::is_latest_token(rows, session, seq, token),
        0 <= i < rows.len(),
        claims::left_token(rows[i], session, seq),
        rows[i].seq == seq - 1,
        forall|m: int|
            0 <= m < rows.len() && #[trigger] rows[m].session_id == session && rows[m].seq
                == rows[i].seq ==> m == i,
    ensures
        token == rows[i].resume_token,
{
    assert(token is Some);
    let m = choose|m: int|
        0 <= m < rows.len() && claims::left_token(#[trigger] rows[m], session, seq)
            && rows[m].resume_token == token && forall|n: int|
            0 <= n < rows.len() && claims::left_token(#[trigger] rows[n], session, seq)
                ==> rows[n].seq <= rows[m].seq;
    assert(rows[i].seq <= rows[m].seq);
}

/// No two turns of a session have the same place.
pub proof fn places_are_unique(rows: Seq<TurnRowView>, i: int, j: int)
    requires
        store::turns_wf(rows),
        0 <= i < rows.len(),
        0 <= j < rows.len(),
        rows[i].session_id == rows[j].session_id,
        rows[i].seq == rows[j].seq,
    ensures
        i == j,
{
    if i < j {
        lemma_places_grow(rows, rows[i].session_id, i, j);
    } else if j < i {
        lemma_places_grow(rows, rows[i].session_id, j, i);
    }
}

proof fn lemma_places_grow(rows: Seq<TurnRowView>, session: SessionId, i: int, j: int)
    requires
        0 <= i < j <= rows.len(),
        rows[i].session_id == session,
    ensures
        store::turns_before(rows, session, j) > store::turns_before(rows, session, i),
    decreases j,
{
    if j > i + 1 {
        lemma_places_grow(rows, session, i, j - 1);
    }
}

/// A turn is told of at most so many earlier ones.
pub proof fn hints_are_short(rows: Seq<TurnRowView>, session: SessionId, before_seq: i64)
    ensures
        claims::hint(rows, session, before_seq).len() <= store::HISTORY_HINT_LIMIT,
{
}

// ---------------------------------------------------------------------------
// Heartbeats
// ---------------------------------------------------------------------------

/// A leftover process of a runner releases nothing: only the process whose
/// epoch is on record says what the runner holds.
pub proof fn orphans_release_nothing(store: StoreView, beat: HeartbeatView, now: Timestamp)
    requires
        beat.epoch != claims::epoch_of(store.runners, beat.runner),
    ensures
        runners::after_beat(store, beat, now).turns == store.turns,
{
}

/// A heartbeat leaves alone the turns that it lists, those of other runners,
/// and those that were claimed within the grace.
pub proof fn heartbeats_spare(store: StoreView, beat: HeartbeatView, now: Timestamp, i: int)
    requires
        0 <= i < store.turns.len(),
        beat.active_turns.contains(store.turns[i].id) || !release::assigned(
            store.sessions,
            store.turns[i].session_id,
            beat.runner,
        ) || (store.turns[i].started_at matches Some(started) && !store::older_than(
            started,
            now,
            store::HELD_TURN_GRACE_SECS as int,
        )),
    ensures
        runners::after_beat(store, beat, now).turns[i] == store.turns[i],
{
}

/// A heartbeat of the process on record gives back what the runner no longer
/// holds: after the grace, to the queue, or cancelled where that was asked for.
pub proof fn heartbeats_give_back(store: StoreView, beat: HeartbeatView, now: Timestamp, i: int)
    requires
        beat.epoch == claims::epoch_of(store.runners, beat.runner),
        0 <= i < store.turns.len(),
        caller::is_held(store.turns[i].status),
        store.turns[i].started_at matches Some(started) && store::older_than(
            started,
            now,
            store::HELD_TURN_GRACE_SECS as int,
        ),
        release::assigned(store.sessions, store.turns[i].session_id, beat.runner),
        !beat.active_turns.contains(store.turns[i].id),
    ensures
        runners::after_beat(store, beat, now).turns[i].status == if store.turns[i].cancel_requested_at is Some {
            TurnStatus::Cancelled
        } else {
            TurnStatus::Queued
        },
{
}

// ---------------------------------------------------------------------------
// Posting, reporting, cancelling
// ---------------------------------------------------------------------------

proof fn lemma_waiting_prefix(
    rows: Seq<TurnRowView>,
    more: Seq<TurnRowView>,
    session: SessionId,
    n: int,
)
    requires
        n <= rows.len() <= more.len(),
        forall|k: int| 0 <= k < n ==> rows[k] == more[k],
    ensures
        turns::waiting(rows, session, n) == turns::waiting(more, session, n),
    decreases n,
{
    if n > 0 {
        lemma_waiting_prefix(rows, more, session, n - 1);
    }
}

/// A message that is accepted joins at most so many that wait, itself
/// included.
pub proof fn accepted_messages_fit(
    store: StoreView,
    session: SessionId,
    id: TurnId,
    input: Seq<char>,
    lane: Option<LaneView>,
    now: Timestamp,
)
    requires
        turns::post_refusal(store, session, id, input, lane) is None,
    ensures
        ({
            let rows = store.turns.push(turns::queued_row(store, session, id, input, lane, now));
            turns::waiting(rows, session, rows.len() as int)
                <= store::MAX_QUEUED_TURNS_PER_SESSION
        }),
{
    let rows = store.turns.push(turns::queued_row(store, session, id, input, lane, now));
    lemma_waiting_prefix(store.turns, rows, session, store.turns.len() as int);
}

/// A turn whose end was reported takes no second report.
pub proof fn a_second_report_is_refused(
    before: StoreView,
    id: TurnId,
    first: ReportView,
    now: Timestamp,
    middle: StoreView,
    answer: (TurnView, EffectsView),
    second: ReportView,
    later: Timestamp,
    after: StoreView,
    outcome: Result<(TurnView, EffectsView), ErrorView>,
)
    requires
        store::wf(before),
        turns::report_ends(before, id, first, now, middle, Ok(answer)),
        caller::is_terminal(first.status),
        turns::reportable(second.status),
        turns::report_ends(middle, id, second, later, after, outcome),
    ensures
        after == middle,
        outcome == Err::<(TurnView, EffectsView), _>(
            store::conflict_error("turn transition is not allowed"@),
        ),
{
    let i = choose|i: int| #[trigger]
        turns::stands_at(before.turns, id, i) && middle == turns::with_turn(
            before,
            i,
            turns::reported(before.turns[i], first, now),
        );
    assert(middle.turns[i].id == id);
    assert(store::has_turn(middle.turns, id));
    assert forall|j: int| #[trigger] turns::stands_at(middle.turns, id, j) implies j == i by {
        if j < i {
            assert(before.turns[j].id != before.turns[i].id);
        } else if i < j {
            assert(before.turns[i].id != before.turns[j].id);
        }
    }
}

/// What was reported is what is read.
pub proof fn reports_are_read_back(
    before: StoreView,
    id: TurnId,
    report: ReportView,
    now: Timestamp,
    after: StoreView,
    answer: (TurnView, EffectsView),
    i: int,
)
    requires
        store::wf(before),
        turns::report_ends(before, id, report, now, after, Ok(answer)),
        turns::stands_at(after.turns, id, i),
    ensures
        store::turn_of(after.turns[i]) == answer.0,
        answer.0.status == report.status,
        answer.0.envelope == report.envelope,
        answer.0.error == report.error,
        answer.0.commit == report.commit,
        answer.0.resume_token == report.resume_token,
        answer.0.finished_at == Some(now),
{
    let k = choose|k: int| #[trigger]
        turns::stands_at(before.turns, id, k) && after == turns::with_turn(
            before,
            k,
            turns::reported(before.turns[k], report, now),
        ) && answer.0 == store::turn_of(turns::reported(before.turns[k], report, now));
    if i < k {
        assert(before.turns[i].id != before.turns[k].id);
    } else if k < i {
        assert(before.turns[k].id != before.turns[i].id);
    }
}

/// A cancel reaches the runner: from then on the turn is over, or its runner
/// is told to stop.
pub proof fn a_cancel_is_seen(
    before: StoreView,
    session: SessionId,
    id: TurnId,
    now: Timestamp,
    after: StoreView,
    answer: (TurnView, EffectsView),
)
    requires
        turns::cancel_ends(before, session, id, now, after, Ok(answer)),
    ensures
        answer.0.cancel_requested,
        answer.0.status == TurnStatus::Cancelled || caller::is_held(answer.0.status),
        exists|i: int| #[trigger]
            turns::stands_at(after.turns, id, i) && store::turn_of(after.turns[i]) == answer.0,
{
    let i = choose|i: int| #[trigger]
        turns::stands_at(before.turns, id, i) && after.turns.len() == before.turns.len()
            && store::turn_of(after.turns[i]) == answer.0;
    assert(turns::stands_at(after.turns, id, i));
}

// ---------------------------------------------------------------------------
// Archiving and deleting
// ---------------------------------------------------------------------------

/// Once a session was put away, so is everything under it, and no turn of any
/// of them waits.
pub proof fn archiving_takes_the_whole_tree(
    store: StoreView,
    root: SessionId,
    now: Timestamp,
    k: int,
    i: int,
)
    requires
        0 <= k < store.sessions.len(),
        tree::descends(store.sessions, root, store.sessions[k].id),
        0 <= i < store.turns.len(),
        store.turns[i].session_id == store.sessions[k].id,
    ensures
        ({
            let after = archive::archived(store, root, now);
            &&& after.sessions[k].status == SessionStatus::Archived
            &&& after.turns[i].status != TurnStatus::Queued
            &&& caller::is_held(after.turns[i].status) ==> after.turns[i].cancel_requested_at is Some
        }),
{
}

/// The same sessions under the same parents, whatever their state.
pub open spec fn same_forest(a: Seq<SessionView>, b: Seq<SessionView>) -> bool {
    &&& a.len() == b.len()
    &&& forall|i: int|
        0 <= i < a.len() ==> (#[trigger] a[i]).id == b[i].id && a[i].parent_id == b[i].parent_id
}

proof fn lemma_same_descent(
    a: Seq<SessionView>,
    b: Seq<SessionView>,
    root: SessionId,
    id: SessionId,
)
    requires
        same_forest(a, b),
        tree::descends(a, root, id),
    ensures
        tree::descends(b, root, id),
{
    let path = choose|path: Seq<SessionId>| #[trigger]
        tree::is_path(a, path) && path[0] == root && path.last() == id;
    assert forall|k: int| 0 <= k < path.len() - 1 implies tree::child_of(
        b,
        #[trigger] path[k],
        path[k + 1],
    ) by {
        assert(tree::child_of(a, path[k], path[k + 1]));
        let i = choose|i: int|
            0 <= i < a.len() && (#[trigger] a[i]).id == path[k + 1] && a[i].parent_id == Some(
                path[k],
            );
        assert(b[i].id == path[k + 1]);
    }
    assert(tree::is_path(b, path));
}

/// What lies under a session does not depend on the state of the sessions.
pub proof fn descent_is_lasting(
    a: Seq<SessionView>,
    b: Seq<SessionView>,
    root: SessionId,
    id: SessionId,
)
    requires
        same_forest(a, b),
    ensures
        tree::descends(a, root, id) == tree::descends(b, root, id),
{
    if tree::descends(a, root, id) {
        lemma_same_descent(a, b, root, id);
    }
    if tree::descends(b, root, id) {
        assert forall|i: int| 0 <= i < b.len() implies (#[trigger] b[i]).id == a[i].id
            && b[i].parent_id == a[i].parent_id by {
            assert(a[i].id == b[i].id);
        }
        lemma_same_descent(b, a, root, id);
    }
}

/// Archiving twice is archiving once.
pub proof fn archiving_twice_is_archiving_once(
    store: StoreView,
    root: SessionId,
    now: Timestamp,
    later: Timestamp,
)
    ensures
        archive::archived(archive::archived(store, root, now), root, later) == archive::archived(
            store,
            root,
            now,
        ),
{
    let once = archive::archived(store, root, now);
    let twice = archive::archived(once, root, later);
    assert(same_forest(store.sessions, once.sessions));
    assert forall|k: int| 0 <= k < once.sessions.len() implies twice.sessions[k]
        == #[trigger] once.sessions[k] by {
        descent_is_lasting(store.sessions, once.sessions, root, store.sessions[k].id);
        assert(once.sessions[k].id == store.sessions[k].id);
    }
    assert forall|i: int| 0 <= i < once.turns.len() implies twice.turns[i]
        == #[trigger] once.turns[i] by {
        descent_is_lasting(store.sessions, once.sessions, root, store.turns[i].session_id);
        assert(once.turns[i].session_id == store.turns[i].session_id);
    }
    assert(twice.sessions =~= once.sessions);
    assert(twice.turns =~= once.turns);
}

/// Bringing a session back brings back that one: everything under it, and
/// every turn, stays as it is.
pub proof fn bringing_back_is_for_one(
    store: StoreView,
    id: SessionId,
    now: Timestamp,
    k: int,
)
    requires
        0 <= k < store.sessions.len(),
    ensures
        ({
            let after = archive::unarchived(store, id, now);
            &&& after.turns == store.turns
            &&& store.sessions[k].id == id ==> after.sessions[k].status == SessionStatus::Active
            &&& store.sessions[k].id != id ==> after.sessions[k] == store.sessions[k]
        }),
{
}

/// A deleted session is gone with everything under it and all of their turns,
/// and nothing else is.
pub proof fn deleting_takes_the_whole_tree(store: StoreView, root: SessionId, id: SessionId)
    ensures
        ({
            let after = archive::deleted(store, root);
            &&& store::has_session(after.sessions, id) <==> store::has_session(store.sessions, id)
                && !tree::descends(store.sessions, root, id)
            &&& forall|i: int|
                0 <= i < after.turns.len() ==> !tree::descends(
                    store.sessions,
                    root,
                    (#[trigger] after.turns[i]).session_id,
                )
            &&& forall|i: int|
                0 <= i < store.turns.len() && !tree::descends(
                    store.sessions,
                    root,
                    (#[trigger] store.turns[i]).session_id,
                ) ==> after.turns.contains(store.turns[i])
        }),
{
    let keep = |session: SessionView| !tree::descends(store.sessions, root, session.id);
    let keep_turn = |turn: TurnRowView| !tree::descends(store.sessions, root, turn.session_id);
    let after = archive::deleted(store, root);
    if store::has_session(after.sessions, id) {
        let i = choose|i: int|
            0 <= i < after.sessions.len() && (#[trigger] after.sessions[i]).id == id;
        store.sessions.lemma_filter_pred(keep, i);
        store.sessions.lemma_filter_contains_rev(keep, after.sessions[i]);
        let j = choose|j: int|
            0 <= j < store.sessions.len() && store.sessions[j] == after.sessions[i];
        assert(store.sessions[j].id == id);
    }
    if store::has_session(store.sessions, id) && !tree::descends(store.sessions, root, id) {
        let j = choose|j: int|
            0 <= j < store.sessions.len() && (#[trigger] store.sessions[j]).id == id;
        store.sessions.lemma_filter_contains(keep, j);
        let i = choose|i: int|
            0 <= i < after.sessions.len() && after.sessions[i] == store.sessions[j];
        assert(after.sessions[i].id == id);
    }
    assert forall|i: int| 0 <= i < after.turns.len() implies !tree::descends(
        store.sessions,
        root,
        (#[trigger] after.turns[i]).session_id,
    ) by {
        store.turns.lemma_filter_pred(keep_turn, i);
    }
    assert forall|i: int|
        0 <= i < store.turns.len() && !tree::descends(
            store.sessions,
            root,
            (#[trigger] store.turns[i]).session_id,
        ) implies after.turns.contains(store.turns[i]) by {
        store.turns.lemma_filter_contains(keep_turn, i);
    }
}

// ---------------------------------------------------------------------------
// Lanes
// ---------------------------------------------------------------------------

/// A session is on the lane that it asked for, or on the default where it
/// named none, and that lane is offered.
pub proof fn sessions_get_offered_lanes(
    store: StoreView,
    id: SessionId,
    request: CreateSessionView,
    now: Timestamp,
)
    requires
        sessions::create_refusal(store, id, request) is None,
    ensures
        config::offered(sessions::requested_session(id, request, now).lane),
        request.lane is Some ==> sessions::requested_session(id, request, now).lane
            == request.lane->0,
{
}

/// A session is refused for a lane that is not offered, whatever the books
/// hold.
pub proof fn unknown_lanes_get_no_session(
    store: StoreView,
    id: SessionId,
    request: CreateSessionView,
)
    requires
        !text::is_blank(request.title),
        request.lane is Some,
        !config::offered(request.lane->0),
    ensures
        sessions::create_refusal(store, id, request) == Some(
            config::not_offered(request.lane->0),
        ),
{
}

/// A message that names a lane which is not offered is refused, and the
/// refusal is a 422 that names the default lane and the whole menu.
pub proof fn unknown_lanes_are_refused(
    store: StoreView,
    session: SessionId,
    id: TurnId,
    input: Seq<char>,
    lane: LaneView,
)
    requires
        !text::is_blank(input),
        !config::offered(lane),
    ensures
        turns::post_refusal(store, session, id, input, Some(lane)) == Some(
            config::not_offered(lane),
        ),
        config::not_offered(lane).status == 422,
        exists|front: Seq<char>|
            config::not_offered(lane).message == #[trigger] (front + config::choices()),
{
    let front = "lane "@ + lane.model + " ("@ + names::name_of(lane.harness)
        + ") is not offered here; choose one of: "@;
    assert(config::not_offered(lane).message == front + config::choices());
}

/// In a session on an offered lane every turn that is queued is played on an
/// offered one.
pub proof fn queued_turns_are_played_on_offered_lanes(
    store: StoreView,
    session: SessionView,
    id: TurnId,
    input: Seq<char>,
    lane: Option<LaneView>,
    now: Timestamp,
)
    requires
        config::offered(session.lane),
        turns::post_refusal(store, session.id, id, input, lane) is None,
    ensures
        config::offered(
            claims::lane_of(
                turns::queued_row(store, session.id, id, input, lane, now),
                session,
            ),
        ),
{
}

// ---------------------------------------------------------------------------
// Feeds
// ---------------------------------------------------------------------------

/// The firehose takes every event, and no event reaches the feeds of two
/// sessions.
pub proof fn feeds_are_kept_apart(
    event: store::BroadcastView,
    one: SessionId,
    other: SessionId,
)
    ensures
        store::taken(None, event),
        store::taken(Some(one), event) && store::taken(Some(other), event) ==> one == other,
{
}

} // verus!
