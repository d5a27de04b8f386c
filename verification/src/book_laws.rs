//! What the requests to the books are for, in terms of the rows before and
//! after and of what is answered and told.

use vstd::prelude::*;

use crate::archive;
use crate::claims;
use crate::config;
use crate::order;
use crate::protocol;
use crate::protocol::{
    CreateSessionView, EventView, HeartbeatView, LaneView, ReportView, SessionView, TurnView,
};
use crate::protocol::{SessionId, SessionStatus, Timestamp, TurnId, TurnStatus};
use crate::release;
use crate::runners;
use crate::sessions;
use crate::store;
use crate::store::{BroadcastView, EffectsView, ErrorView, StoreView, TurnRowView};
use crate::text;
use crate::tree;
use crate::turns;

verus! {

/// The turn at `i` is the only one of its identifier.
proof fn lemma_only_turn(turns: Seq<TurnRowView>, id: TurnId, i: int)
    requires
        store::turns_wf(turns),
        0 <= i < turns.len(),
        turns[i].id == id,
    ensures
        store::has_turn(turns, id),
        forall|j: int| #[trigger] turns::stands_at(turns, id, j) ==> j == i,
{
    assert forall|j: int| #[trigger] turns::stands_at(turns, id, j) implies j == i by {
        if j < i {
            assert(turns[j].id != turns[i].id);
        } else if i < j {
            assert(turns[i].id != turns[j].id);
        }
    }
}

// ---------------------------------------------------------------------------
// Cancelling
// ---------------------------------------------------------------------------

/// A cancel ends a turn that waits at once, flags one that is played, and is
/// refused for one that is over or is of another session. No other turn is
/// touched.
pub proof fn a_cancel_ends_or_flags(
    before: StoreView,
    session: SessionId,
    id: TurnId,
    now: Timestamp,
    after: StoreView,
    outcome: Result<(TurnView, EffectsView), ErrorView>,
    i: int,
    j: int,
)
    requires
        store::wf(before),
        turns::cancel_ends(before, session, id, now, after, outcome),
        0 <= i < before.turns.len(),
        before.turns[i].id == id,
        0 <= j < before.turns.len(),
        j != i,
    ensures
        after.turns.len() == before.turns.len(),
        after.turns[j] == before.turns[j],
        after.sessions == before.sessions,
        before.turns[i].session_id != session ==> outcome is Err && outcome->Err_0.status == 404
            && after == before,
        before.turns[i].session_id == session ==> match before.turns[i].status {
            TurnStatus::Queued => {
                &&& outcome is Ok
                &&& after.turns[i].status == TurnStatus::Cancelled
                &&& after.turns[i].finished_at == Some(now)
                &&& after.turns[i].cancel_requested_at is Some
            },
            TurnStatus::Claimed | TurnStatus::Working => {
                &&& outcome is Ok
                &&& after.turns[i].status == before.turns[i].status
                &&& after.turns[i].cancel_requested_at is Some
                &&& before.turns[i].cancel_requested_at is Some
                    ==> after.turns[i].cancel_requested_at == before.turns[i].cancel_requested_at
                &&& before.turns[i].cancel_requested_at is None
                    ==> after.turns[i].cancel_requested_at == Some(now)
            },
            _ => outcome is Err && outcome->Err_0.status == 409 && after == before,
        },
{
    lemma_only_turn(before.turns, id, i);
}

/// A turn that was cancelled before it was played is told as cancelled on its
/// session's feed, and frees the way for the next.
pub proof fn a_cancelled_message_is_announced(
    before: StoreView,
    session: SessionId,
    id: TurnId,
    now: Timestamp,
    after: StoreView,
    answer: (TurnView, EffectsView),
    i: int,
)
    requires
        store::wf(before),
        turns::cancel_ends(before, session, id, now, after, Ok(answer)),
        0 <= i < before.turns.len(),
        before.turns[i].id == id,
        before.turns[i].status == TurnStatus::Queued,
    ensures
        answer.1.wake,
        answer.1.events == seq![
            BroadcastView {
                session_id: Some(session),
                event: EventView::TurnCancelled { turn: answer.0 },
            },
        ],
        answer.0.status == TurnStatus::Cancelled,
{
    lemma_only_turn(before.turns, id, i);
}

// ---------------------------------------------------------------------------
// Output and reports
// ---------------------------------------------------------------------------

/// A chunk of a turn that is played reaches its session's feed as it is, and
/// the turn is at work from then on; of any other turn a chunk is refused.
pub proof fn chunks_reach_the_feed(
    before: StoreView,
    id: TurnId,
    chunk: Seq<char>,
    after: StoreView,
    outcome: Result<EffectsView, ErrorView>,
    i: int,
    j: int,
)
    requires
        store::wf(before),
        turns::chunk_ends(before, id, chunk, after, outcome),
        0 <= i < before.turns.len(),
        before.turns[i].id == id,
        0 <= j < before.turns.len(),
        j != i,
    ensures
        after.turns.len() == before.turns.len(),
        after.turns[j] == before.turns[j],
        before.turns[i].status == TurnStatus::Claimed || before.turns[i].status
            == TurnStatus::Working ==> {
            &&& outcome is Ok
            &&& after.turns[i].status == TurnStatus::Working
            &&& outcome->Ok_0.events == seq![
                BroadcastView {
                    session_id: Some(before.turns[i].session_id),
                    event: EventView::Chunk { turn_id: id, text: chunk },
                },
            ]
        },
        before.turns[i].status != TurnStatus::Claimed && before.turns[i].status
            != TurnStatus::Working ==> outcome is Err && outcome->Err_0.status == 409 && after
            == before,
{
    lemma_only_turn(before.turns, id, i);
}

/// The report of an end is taken for a turn that is played, whole: the answer,
/// the error, the commit and what can be resumed. A capped turn must have been
/// at work.
pub proof fn reports_are_taken_whole(
    before: StoreView,
    id: TurnId,
    report: ReportView,
    now: Timestamp,
    after: StoreView,
    outcome: Result<(TurnView, EffectsView), ErrorView>,
    i: int,
    j: int,
)
    requires
        store::wf(before),
        turns::report_ends(before, id, report, now, after, outcome),
        0 <= i < before.turns.len(),
        before.turns[i].id == id,
        0 <= j < before.turns.len(),
        j != i,
        report.status == TurnStatus::Done || report.status == TurnStatus::Error || report.status
            == TurnStatus::Cancelled || report.status == TurnStatus::Capped,
    ensures
        after.turns.len() == before.turns.len(),
        after.turns[j] == before.turns[j],
        outcome is Ok <==> before.turns[i].status == TurnStatus::Working || (before.turns[i].status
            == TurnStatus::Claimed && report.status != TurnStatus::Capped),
        outcome is Err ==> outcome->Err_0.status == 409 && after == before,
        outcome is Ok ==> {
            &&& after.turns[i].status == report.status
            &&& after.turns[i].envelope == report.envelope
            &&& after.turns[i].error == report.error
            &&& after.turns[i].commit == report.commit
            &&& after.turns[i].resume_token == report.resume_token
            &&& after.turns[i].finished_at == Some(now)
            &&& after.turns[i].input == before.turns[i].input
            &&& after.turns[i].seq == before.turns[i].seq
            &&& after.turns[i].started_at == before.turns[i].started_at
        },
{
    lemma_only_turn(before.turns, id, i);
}

/// A status that is no end is no report.
pub proof fn only_ends_are_reported(
    before: StoreView,
    id: TurnId,
    report: ReportView,
    now: Timestamp,
    after: StoreView,
    outcome: Result<(TurnView, EffectsView), ErrorView>,
)
    requires
        turns::report_ends(before, id, report, now, after, outcome),
        report.status == TurnStatus::Queued || report.status == TurnStatus::Claimed
            || report.status == TurnStatus::Working,
    ensures
        outcome is Err,
        outcome->Err_0.status == 422,
        after == before,
{
}

/// An end is told on the session's feed for what it is, and frees the way for
/// the next turn.
pub proof fn ends_are_announced(
    before: StoreView,
    id: TurnId,
    report: ReportView,
    now: Timestamp,
    after: StoreView,
    answer: (TurnView, EffectsView),
    i: int,
)
    requires
        store::wf(before),
        turns::report_ends(before, id, report, now, after, Ok(answer)),
        0 <= i < before.turns.len(),
        before.turns[i].id == id,
    ensures
        answer.1.wake,
        answer.1.events.len() == 1,
        answer.1.events[0].session_id == Some(before.turns[i].session_id),
        report.status == TurnStatus::Done ==> answer.1.events[0].event == (EventView::TurnDone {
            turn: answer.0,
        }),
        report.status == TurnStatus::Cancelled ==> answer.1.events[0].event == (
        EventView::TurnCancelled { turn: answer.0 }),
        report.status == TurnStatus::Error || report.status == TurnStatus::Capped ==> {
            &&& answer.1.events[0].event is TurnError
            &&& answer.1.events[0].event->TurnError_turn_id == id
            &&& report.error is Some ==> answer.1.events[0].event->TurnError_message
                == report.error->0
        },
{
    lemma_only_turn(before.turns, id, i);
}

// ---------------------------------------------------------------------------
// Sessions
// ---------------------------------------------------------------------------

/// A session is created as it was asked for: active, with nothing played yet.
pub proof fn a_session_is_what_was_asked_for(
    id: SessionId,
    request: CreateSessionView,
    now: Timestamp,
)
    ensures
        ({
            let session = sessions::requested_session(id, request, now);
            &&& session.id == id
            &&& session.title == request.title
            &&& session.parent_id == request.parent_id
            &&& session.status == SessionStatus::Active
            &&& session.runner_affinity is None
            &&& session.created_at == now
            &&& session.updated_at == now
            &&& request.lane is Some ==> session.lane == request.lane->0
            &&& request.lane is None ==> session.lane == protocol::default_lane()
            &&& request.profile is Some ==> session.profile == request.profile->0
            &&& request.profile is None ==> session.profile.repo_url is None
                && !session.profile.allow_push
        }),
{
}

/// A session with a title, on an offered lane or none, under a parent that is
/// there or none, is created; one without a title or under a parent that is
/// not there is refused.
pub proof fn sessions_need_a_title_and_a_known_parent(
    books: StoreView,
    id: SessionId,
    request: CreateSessionView,
    k: int,
)
    requires
        forall|i: int| 0 <= i < books.sessions.len() ==> (#[trigger] books.sessions[i]).id != id,
        request.lane is Some ==> config::offered(request.lane->0),
    ensures
        text::is_blank(request.title) ==> sessions::create_refusal(books, id, request) is Some
            && sessions::create_refusal(books, id, request)->0.status == 422,
        !text::is_blank(request.title) && request.parent_id is None ==> sessions::create_refusal(
            books,
            id,
            request,
        ) is None,
        !text::is_blank(request.title) && 0 <= k < books.sessions.len() && request.parent_id
            == Some(books.sessions[k].id) ==> sessions::create_refusal(books, id, request) is None,
        request.parent_id is Some && (forall|i: int|
            0 <= i < books.sessions.len() ==> Some((#[trigger] books.sessions[i]).id)
                != request.parent_id) ==> sessions::create_refusal(books, id, request) is Some
            && sessions::create_refusal(books, id, request)->0.status == 422,
{
    if 0 <= k < books.sessions.len() {
        assert(store::has_session(books.sessions, books.sessions[k].id));
    }
}

/// What is sorted by newest is in that order, with the undated behind, and
/// holds what it was given, each once.
pub proof fn the_newest_come_first<A>(
    items: Seq<A>,
    time: spec_fn(A) -> Option<Timestamp>,
    list: Seq<A>,
    a: int,
    b: int,
)
    requires
        order::is_by_newest(items, time, list),
        0 <= a < b < list.len(),
    ensures
        time(list[a]) is None ==> time(list[b]) is None,
        time(list[a]) is Some && time(list[b]) is Some ==> time(list[a])->0 >= time(list[b])->0,
        list.len() == items.len(),
        items.contains(list[a]),
        list.contains(items[a]),
{
    let times = items.map_values(time);
    let o = choose|o: Seq<int>| #[trigger]
        order::is_newest_first(times, o) && list == order::arranged(items, o);
    assert(order::leads(times, o[a], o[b]));
    assert(list[a] == items[o[a]] && list[b] == items[o[b]]);
    assert(times[o[a]] == time(list[a]) && times[o[b]] == time(list[b]));
    assert(o.contains(a));
    let k = o.index_of(a);
    assert(list[k] == items[a]);
}

/// What has the same time keeps the order that it came in.
pub proof fn ties_keep_their_order<A>(
    items: Seq<A>,
    time: spec_fn(A) -> Option<Timestamp>,
    list: Seq<A>,
    a: int,
    b: int,
)
    requires
        order::is_by_newest(items, time, list),
        0 <= a < b < list.len(),
        time(list[a]) == time(list[b]),
    ensures
        exists|i: int, j: int|
            0 <= i < j < items.len() && #[trigger] items[i] == list[a] && #[trigger] items[j]
                == list[b],
{
    let times = items.map_values(time);
    let o = choose|o: Seq<int>| #[trigger]
        order::is_newest_first(times, o) && list == order::arranged(items, o);
    assert(order::leads(times, o[a], o[b]));
    assert(list[a] == items[o[a]] && list[b] == items[o[b]]);
    assert(times[o[a]] == time(list[a]) && times[o[b]] == time(list[b]));
}

/// The sessions that are listed are the active ones, and the archived ones too
/// where those are asked for.
pub proof fn archived_sessions_are_listed_on_request(
    rows: Seq<SessionView>,
    include_archived: bool,
    session: SessionView,
)
    ensures
        sessions::shown(rows, include_archived).contains(session) <==> rows.contains(session) && (
        include_archived || session.status == SessionStatus::Active),
{
    let test = |session: SessionView|
        include_archived || session.status == SessionStatus::Active;
    order::lemma_filter_kept(rows, test);
    let shown = sessions::shown(rows, include_archived);
    if shown.contains(session) {
        let i = shown.index_of(session);
        let k = order::kept(rows, test)[i];
        assert(rows[k] == session);
        assert(test(rows[k]));
    }
    if rows.contains(session) && test(session) {
        let k = rows.index_of(session);
        assert(test(rows[k]));
        let i = order::kept(rows, test).index_of(k);
        assert(shown[i] == session);
    }
}

// ---------------------------------------------------------------------------
// The tree
// ---------------------------------------------------------------------------

/// A session is under itself, and so are the children of what is under it.
pub proof fn children_are_under_their_parent(
    rows: Seq<SessionView>,
    root: SessionId,
    parent: SessionId,
    i: int,
)
    requires
        tree::descends(rows, root, parent),
        0 <= i < rows.len(),
        rows[i].parent_id == Some(parent),
    ensures
        tree::descends(rows, root, root),
        tree::descends(rows, root, rows[i].id),
{
    let alone = seq![root];
    assert(tree::is_path(rows, alone));
    assert(alone.last() == root);
    let path = choose|path: Seq<SessionId>| #[trigger]
        tree::is_path(rows, path) && path[0] == root && path.last() == parent;
    let longer = path.push(rows[i].id);
    assert(tree::child_of(rows, parent, rows[i].id));
    assert forall|k: int| 0 <= k < longer.len() - 1 implies tree::child_of(
        rows,
        #[trigger] longer[k],
        longer[k + 1],
    ) by {
        if k < path.len() - 1 {
            assert(longer[k] == path[k] && longer[k + 1] == path[k + 1]);
            assert(tree::child_of(rows, path[k], path[k + 1]));
        }
    }
    assert(tree::is_path(rows, longer));
    assert(longer[0] == root && longer.last() == rows[i].id);
}

/// What is under a session is that session, or the child of something under
/// it.
pub proof fn only_children_are_under_a_session(
    rows: Seq<SessionView>,
    root: SessionId,
    id: SessionId,
)
    requires
        tree::descends(rows, root, id),
        id != root,
    ensures
        exists|i: int|
            0 <= i < rows.len() && (#[trigger] rows[i]).id == id && rows[i].parent_id is Some
                && tree::descends(rows, root, rows[i].parent_id->0),
{
    let path = choose|path: Seq<SessionId>| #[trigger]
        tree::is_path(rows, path) && path[0] == root && path.last() == id;
    let n = path.len() as int;
    assert(n > 1);
    assert(tree::child_of(rows, path[n - 2], path[n - 2 + 1]));
    let i = choose|i: int|
        0 <= i < rows.len() && (#[trigger] rows[i]).id == id && rows[i].parent_id == Some(
            path[n - 2],
        );
    let shorter = path.drop_last();
    assert forall|k: int| 0 <= k < shorter.len() - 1 implies tree::child_of(
        rows,
        #[trigger] shorter[k],
        shorter[k + 1],
    ) by {
        assert(shorter[k] == path[k] && shorter[k + 1] == path[k + 1]);
        assert(tree::child_of(rows, path[k], path[k + 1]));
    }
    assert(tree::is_path(rows, shorter));
    assert(shorter[0] == root && shorter.last() == path[n - 2]);
}

/// Archiving ends every message that waits under the session and flags every
/// turn that is played there; what is over stays, and so does everything that
/// is not under it.
pub proof fn archiving_spares_the_rest(
    books: StoreView,
    root: SessionId,
    now: Timestamp,
    k: int,
    i: int,
)
    requires
        0 <= k < books.sessions.len(),
        0 <= i < books.turns.len(),
    ensures
        ({
            let after = archive::archived(books, root, now);
            let under = tree::descends(books.sessions, root, books.sessions[k].id);
            let played_under = tree::descends(books.sessions, root, books.turns[i].session_id);
            &&& after.runners == books.runners
            &&& !under ==> after.sessions[k] == books.sessions[k]
            &&& under ==> after.sessions[k].status == SessionStatus::Archived
                && after.sessions[k].title == books.sessions[k].title
                && after.sessions[k].runner_affinity == books.sessions[k].runner_affinity
            &&& !played_under ==> after.turns[i] == books.turns[i]
            &&& played_under ==> match books.turns[i].status {
                TurnStatus::Queued => after.turns[i].status == TurnStatus::Cancelled
                    && after.turns[i].finished_at == Some(now),
                TurnStatus::Claimed | TurnStatus::Working => after.turns[i].status
                    == books.turns[i].status && after.turns[i].cancel_requested_at is Some,
                _ => after.turns[i] == books.turns[i],
            }
        }),
{
}

/// A session is deleted only once it is archived and nothing under it is
/// played.
pub proof fn only_what_rests_is_deleted(
    before: StoreView,
    id: SessionId,
    after: StoreView,
    events: Result<Seq<BroadcastView>, ErrorView>,
    k: int,
    i: int,
)
    requires
        store::wf(before),
        archive::delete_ends(before, id, after, events),
        0 <= k < before.sessions.len(),
        before.sessions[k].id == id,
        0 <= i < before.turns.len(),
    ensures
        before.sessions[k].status != SessionStatus::Archived ==> events is Err
            && events->Err_0.status == 409,
        tree::descends(before.sessions, id, before.turns[i].session_id) && (before.turns[i].status
            == TurnStatus::Claimed || before.turns[i].status == TurnStatus::Working) ==> events is Err
            && events->Err_0.status == 409,
        events is Err ==> after == before,
        events is Ok ==> after == archive::deleted(before, id),
{
    let (at, places) = choose|at: int, places: Seq<int>|
        0 <= at < before.sessions.len() && before.sessions[at].id == id
            && #[trigger] tree::is_tree(before.sessions, at, places) && if before.sessions[at].status
            != SessionStatus::Archived {
            events == Err::<Seq<BroadcastView>, _>(
                store::conflict_error("archive the session before deleting it"@),
            ) && after == before
        } else {
            match events {
                Err(error) => after == before && exists|k: int| #[trigger]
                    archive::first_running(before, places, k) && error == archive::still_running(
                        before.sessions[places[k]].title,
                    ),
                Ok(events) => {
                    &&& forall|k: int|
                        0 <= k < places.len() ==> !claims::busy(
                            before.turns,
                            before.sessions[#[trigger] places[k]].id,
                        )
                    &&& after == archive::deleted(before, id)
                    &&& events == archive::delete_events(before.sessions, places, 0)
                },
            }
        };
    if at < k {
        assert(before.sessions[at].id != before.sessions[k].id);
    } else if k < at {
        assert(before.sessions[k].id != before.sessions[at].id);
    }
    if tree::descends(before.sessions, id, before.turns[i].session_id) && (before.turns[i].status
        == TurnStatus::Claimed || before.turns[i].status == TurnStatus::Working) && events is Ok {
        tree::tree_lists_the_descendants(
            before.sessions,
            at,
            places,
            before.turns[i].session_id,
        );
        let m = choose|m: int|
            0 <= m < places.len() && before.sessions[#[trigger] places[m]].id
                == before.turns[i].session_id;
        assert(claims::busy(before.turns, before.sessions[places[m]].id));
    }
}

/// Work that is given back goes to the queue as it was posted, or is cancelled
/// where that was asked for.
pub proof fn work_is_given_back_as_it_was(turn: TurnRowView, now: Timestamp)
    ensures
        ({
            let back = release::given_back(turn);
            let released = release::released(turn, now);
            &&& back.status == if turn.cancel_requested_at is Some {
                TurnStatus::Cancelled
            } else {
                TurnStatus::Queued
            }
            &&& released.status == back.status
            &&& back.started_at is None
            &&& released.started_at is None
            &&& back.id == turn.id && released.id == turn.id
            &&& back.session_id == turn.session_id && released.session_id == turn.session_id
            &&& back.seq == turn.seq && released.seq == turn.seq
            &&& back.input == turn.input && released.input == turn.input
            &&& back.created_at == turn.created_at && released.created_at == turn.created_at
            &&& back.lane_override == turn.lane_override
            &&& released.lane_override == turn.lane_override
            &&& turn.cancel_requested_at is Some ==> released.finished_at == Some(now)
            &&& turn.cancel_requested_at is None ==> released.finished_at == turn.finished_at
        }),
{
}

/// A turn is shown as its row says, with a flag where a cancel was asked for.
pub proof fn turns_are_shown_as_they_are(row: TurnRowView)
    ensures
        ({
            let turn = store::turn_of(row);
            &&& turn.id == row.id
            &&& turn.session_id == row.session_id
            &&& turn.seq == row.seq
            &&& turn.input == row.input
            &&& turn.lane_override == row.lane_override
            &&& turn.status == row.status
            &&& turn.envelope == row.envelope
            &&& turn.error == row.error
            &&& turn.commit == row.commit
            &&& turn.resume_token == row.resume_token
            &&& turn.cancel_requested <==> row.cancel_requested_at is Some
            &&& turn.created_at == row.created_at
            &&& turn.started_at == row.started_at
            &&& turn.finished_at == row.finished_at
        }),
{
}

// ---------------------------------------------------------------------------
// What the requests leave behind, and who is told
// ---------------------------------------------------------------------------

/// Creating a session adds it behind those there are, changes nothing else,
/// and is told where its parent is watched. A refusal changes nothing.
pub proof fn a_created_session_is_added_and_told(
    before: StoreView,
    id: SessionId,
    request: CreateSessionView,
    now: Timestamp,
    after: StoreView,
    outcome: Result<(SessionView, EffectsView), ErrorView>,
)
    requires
        sessions::create_ends(before, id, request, now, after, outcome),
    ensures
        outcome is Err ==> after == before,
        outcome matches Ok((session, effects)) ==> {
            &&& after.sessions == before.sessions.push(session)
            &&& after.turns == before.turns
            &&& after.runners == before.runners
            &&& session.id == id
            &&& session.title == request.title
            &&& session.parent_id == request.parent_id
            &&& effects.events.len() == 1
            &&& effects.events[0].session_id == request.parent_id
            &&& effects.events[0].event == (EventView::SessionCreated { session })
        },
{
}

/// A message that is taken is added behind those there are, changes nothing
/// else, is told where its session is watched, and wakes the runners that wait.
/// A refusal changes nothing.
pub proof fn a_posted_message_is_added_and_told(
    before: StoreView,
    session: SessionId,
    id: TurnId,
    input: Seq<char>,
    lane: Option<LaneView>,
    now: Timestamp,
    after: StoreView,
    outcome: Result<(TurnView, EffectsView), ErrorView>,
)
    requires
        turns::post_ends(before, session, id, input, lane, now, after, outcome),
    ensures
        outcome is Err ==> after == before,
        outcome matches Ok((turn, effects)) ==> {
            &&& after.turns.len() == before.turns.len() + 1
            &&& after.turns.drop_last() == before.turns
            &&& after.turns.last().id == id
            &&& after.turns.last().session_id == session
            &&& after.turns.last().input == input
            &&& after.turns.last().lane_override == lane
            &&& after.turns.last().status == TurnStatus::Queued
            &&& after.turns.last().created_at == now
            &&& after.sessions == before.sessions
            &&& after.runners == before.runners
            &&& turn.id == id
            &&& turn.session_id == session
            &&& turn.input == input
            &&& turn.status == TurnStatus::Queued
            &&& effects.events.len() == 1
            &&& effects.events[0].session_id == Some(session)
            &&& effects.events[0].event == (EventView::TurnQueued { turn })
            &&& effects.wake
        },
{
    if outcome is Ok {
        assert(after.turns.drop_last() =~= before.turns);
    }
}

/// The sessions are listed from the one created last to the first, each that is
/// active, and each that is archived where those are asked for.
pub proof fn the_last_created_session_leads(
    rows: Seq<SessionView>,
    include_archived: bool,
    listed: Seq<SessionView>,
    a: int,
    b: int,
)
    requires
        sessions::is_session_list(rows, include_archived, listed),
        0 <= a < b < listed.len(),
    ensures
        listed[a].created_at >= listed[b].created_at,
        rows.contains(listed[a]),
        include_archived || listed[a].status == SessionStatus::Active,
{
    let some = sessions::shown(rows, include_archived);
    let time = |session: SessionView| Some(session.created_at);
    the_newest_come_first(some, time, listed, a, b);
    archived_sessions_are_listed_on_request(rows, include_archived, listed[a]);
}

/// Every turn that became cancelled is told as cancelled where its session is
/// watched.
pub proof fn cancels_are_told(
    before: Seq<TurnRowView>,
    after: Seq<TurnRowView>,
    session: Option<SessionId>,
    n: int,
    i: int,
)
    requires
        0 <= i < n <= before.len() == after.len(),
        before[i].status != TurnStatus::Cancelled,
        after[i].status == TurnStatus::Cancelled,
        session is Some ==> after[i].session_id == session->0,
    ensures
        release::cancel_events(before, after, session, n).contains(
            BroadcastView {
                session_id: Some(after[i].session_id),
                event: EventView::TurnCancelled { turn: store::turn_of(after[i]) },
            },
        ),
    decreases n,
{
    let told = release::cancelled_event(after[i]);
    let all = release::cancel_events(before, after, session, n);
    let rest = release::cancel_events(before, after, session, n - 1);
    if i == n - 1 {
        assert(all.last() == told);
    } else {
        cancels_are_told(before, after, session, n - 1, i);
        let k = rest.index_of(told);
        assert(all[k] == told);
    }
}

/// Every turn that a heartbeat cancels is told as cancelled where its session
/// is watched.
pub proof fn what_a_heartbeat_cancels_is_told(
    before: StoreView,
    beat: HeartbeatView,
    now: Timestamp,
    after: StoreView,
    effects: EffectsView,
    i: int,
)
    requires
        runners::beat_ends(before, beat, now, after, Ok(effects)),
        0 <= i < before.turns.len(),
        before.turns[i].status != TurnStatus::Cancelled,
        after.turns[i].status == TurnStatus::Cancelled,
    ensures
        effects.events.contains(
            BroadcastView {
                session_id: Some(after.turns[i].session_id),
                event: EventView::TurnCancelled { turn: store::turn_of(after.turns[i]) },
            },
        ),
{
    let n = before.turns.len() as int;
    let told = release::cancelled_event(after.turns[i]);
    let cancels = release::cancel_events(before.turns, after.turns, None, n);
    assert(after.turns.len() == n);
    cancels_are_told(before.turns, after.turns, None, n, i);
    let k = cancels.index_of(told);
    assert(effects.events[k] == told);
}

proof fn lemma_put_away_is_told(
    before: StoreView,
    after: StoreView,
    places: Seq<int>,
    n: int,
    p: int,
    i: int,
)
    requires
        0 <= p < n <= places.len(),
        before.turns.len() == after.turns.len(),
    ensures
        before.sessions[places[p]].status == SessionStatus::Active ==> archive::archive_events(
            before,
            after,
            places,
            n,
        ).contains(archive::updated_event(after.sessions[places[p]])),
        0 <= i < before.turns.len() && after.turns[i].session_id == before.sessions[places[p]].id
            && before.turns[i].status != TurnStatus::Cancelled && after.turns[i].status
            == TurnStatus::Cancelled ==> archive::archive_events(before, after, places, n).contains(
            release::cancelled_event(after.turns[i]),
        ),
    decreases n,
{
    let old = before.sessions[places[n - 1]];
    let all = archive::archive_events(before, after, places, n);
    let rest = archive::archive_events(before, after, places, n - 1);
    let size = before.turns.len() as int;
    let cancels = release::cancel_events(before.turns, after.turns, Some(old.id), size);
    if p < n - 1 {
        lemma_put_away_is_told(before, after, places, n - 1, p, i);
        assert forall|told: BroadcastView| rest.contains(told) implies #[trigger] all.contains(
            told,
        ) by {
            let k = rest.index_of(told);
            assert(all[k] == told);
        }
    } else {
        if old.status == SessionStatus::Active {
            assert(all.last() == archive::updated_event(after.sessions[places[p]]));
        }
        if 0 <= i < size && after.turns[i].session_id == old.id && before.turns[i].status
            != TurnStatus::Cancelled && after.turns[i].status == TurnStatus::Cancelled {
            let told = release::cancelled_event(after.turns[i]);
            cancels_are_told(before.turns, after.turns, Some(old.id), size, i);
            let k = cancels.index_of(told);
            assert(all[rest.len() + k] == told);
        }
    }
}

/// Archiving tells of every session that it put away, where its parent is
/// watched, and of every message that it cancelled, where its session is.
pub proof fn archiving_is_told(
    before: StoreView,
    id: SessionId,
    now: Timestamp,
    after: StoreView,
    session: SessionView,
    effects: EffectsView,
    k: int,
    i: int,
)
    requires
        store::wf(before),
        archive::archive_ends(before, id, now, after, Ok((session, effects))),
        0 <= k < before.sessions.len(),
        tree::descends(before.sessions, id, before.sessions[k].id),
    ensures
        before.sessions[k].status == SessionStatus::Active ==> effects.events.contains(
            BroadcastView {
                session_id: after.sessions[k].parent_id,
                event: EventView::SessionUpdated { session: after.sessions[k] },
            },
        ),
        0 <= i < before.turns.len() && before.turns[i].session_id == before.sessions[k].id
            && before.turns[i].status == TurnStatus::Queued ==> effects.events.contains(
            BroadcastView {
                session_id: Some(before.sessions[k].id),
                event: EventView::TurnCancelled { turn: store::turn_of(after.turns[i]) },
            },
        ),
{
    let (at, places) = choose|at: int, places: Seq<int>|
        0 <= at < before.sessions.len() && before.sessions[at].id == id && #[trigger] tree::is_tree(
            before.sessions,
            at,
            places,
        ) && effects.events == archive::archive_events(before, after, places, places.len() as int);
    tree::tree_lists_the_descendants(before.sessions, at, places, before.sessions[k].id);
    let p = choose|p: int|
        0 <= p < places.len() && before.sessions[#[trigger] places[p]].id == before.sessions[k].id;
    lemma_only_session(before.sessions, places[p], k);
    lemma_put_away_is_told(before, after, places, places.len() as int, p, i);
}

proof fn lemma_only_session(rows: Seq<SessionView>, i: int, k: int)
    requires
        store::sessions_wf(rows),
        0 <= i < rows.len(),
        0 <= k < rows.len(),
        rows[i].id == rows[k].id,
    ensures
        i == k,
{
    if i < k {
        assert(rows[i].id != rows[k].id);
    } else if k < i {
        assert(rows[k].id != rows[i].id);
    }
}

/// Bringing a session back makes it active, leaves every other session, turn
/// and runner, and is told where its parent is watched, unless it was active.
pub proof fn a_session_comes_back_alone(
    before: StoreView,
    id: SessionId,
    now: Timestamp,
    after: StoreView,
    session: SessionView,
    effects: EffectsView,
    k: int,
    j: int,
)
    requires
        store::wf(before),
        archive::unarchive_ends(before, id, now, after, Ok((session, effects))),
        0 <= k < before.sessions.len(),
        before.sessions[k].id == id,
        0 <= j < before.sessions.len(),
    ensures
        after.turns == before.turns,
        after.runners == before.runners,
        after.sessions.len() == before.sessions.len(),
        j != k ==> after.sessions[j] == before.sessions[j],
        after.sessions[k] == session,
        session.status == SessionStatus::Active,
        session.title == before.sessions[k].title,
        session.lane == before.sessions[k].lane,
        session.profile == before.sessions[k].profile,
        session.runner_affinity == before.sessions[k].runner_affinity,
        session.parent_id == before.sessions[k].parent_id,
        session.created_at == before.sessions[k].created_at,
        before.sessions[k].status == SessionStatus::Active ==> session == before.sessions[k]
            && effects.events.len() == 0,
        before.sessions[k].status == SessionStatus::Archived ==> {
            &&& effects.wake
            &&& effects.events.len() == 1
            &&& effects.events[0].session_id == session.parent_id
            &&& effects.events[0].event == (EventView::SessionUpdated { session })
        },
{
    if j != k && before.sessions[j].id == id {
        lemma_only_session(before.sessions, j, k);
    }
    let at = after.sessions.index_of(session);
    assert(before.sessions[at].id == id);
    lemma_only_session(before.sessions, at, k);
    if archive::is_active(before.sessions, id) {
        let a = choose|a: int|
            0 <= a < before.sessions.len() && (#[trigger] before.sessions[a]).id == id
                && before.sessions[a].status == SessionStatus::Active;
        lemma_only_session(before.sessions, a, k);
    }
}

/// A runner that holds a turn is told of a cancel exactly where one was asked
/// for, and that there is no such turn where there is none.
pub proof fn cancels_reach_the_runner(
    rows: Seq<TurnRowView>,
    id: TurnId,
    cancel: Result<bool, ErrorView>,
    i: int,
)
    requires
        store::turns_wf(rows),
        turns::control_ends(rows, id, cancel),
    ensures
        0 <= i < rows.len() && rows[i].id == id ==> cancel == Ok::<bool, ErrorView>(
            rows[i].cancel_requested_at is Some,
        ),
        (forall|j: int| 0 <= j < rows.len() ==> (#[trigger] rows[j]).id != id)
            ==> cancel is Err && cancel->Err_0.status == 404,
{
    if 0 <= i < rows.len() && rows[i].id == id {
        lemma_only_turn(rows, id, i);
    }
}

/// Deleting tells of every session that it took away, where its parent is
/// watched.
pub proof fn deleting_is_told(
    before: StoreView,
    id: SessionId,
    after: StoreView,
    events: Seq<BroadcastView>,
    k: int,
)
    requires
        archive::delete_ends(before, id, after, Ok(events)),
        store::wf(before),
        0 <= k < before.sessions.len(),
        tree::descends(before.sessions, id, before.sessions[k].id),
    ensures
        events.contains(
            BroadcastView {
                session_id: before.sessions[k].parent_id,
                event: EventView::SessionDeleted { session_id: before.sessions[k].id },
            },
        ),
{
    let (at, places) = choose|at: int, places: Seq<int>|
        0 <= at < before.sessions.len() && before.sessions[at].id == id && #[trigger] tree::is_tree(
            before.sessions,
            at,
            places,
        ) && before.sessions[at].status == SessionStatus::Archived && events
            == archive::delete_events(before.sessions, places, 0);
    tree::tree_lists_the_descendants(before.sessions, at, places, before.sessions[k].id);
    let p = choose|p: int|
        0 <= p < places.len() && before.sessions[#[trigger] places[p]].id == before.sessions[k].id;
    lemma_only_session(before.sessions, places[p], k);
    lemma_deleting_is_told(before.sessions, places, 0, p);
}

proof fn lemma_deleting_is_told(rows: Seq<SessionView>, places: Seq<int>, n: int, p: int)
    requires
        0 <= n <= p < places.len(),
    ensures
        archive::delete_events(rows, places, n).contains(
            BroadcastView {
                session_id: rows[places[p]].parent_id,
                event: EventView::SessionDeleted { session_id: rows[places[p]].id },
            },
        ),
    decreases places.len() - n,
{
    let told = BroadcastView {
        session_id: rows[places[p]].parent_id,
        event: EventView::SessionDeleted { session_id: rows[places[p]].id },
    };
    let all = archive::delete_events(rows, places, n);
    let rest = archive::delete_events(rows, places, n + 1);
    if n == p {
        assert(all.last() == told);
    } else {
        lemma_deleting_is_told(rows, places, n + 1, p);
        let k = rest.index_of(told);
        assert(all[k] == told);
    }
}

/// A session that a request changes carries the time of the change, and one
/// that it leaves as it was carries its own.
pub proof fn changed_sessions_carry_the_time(session: SessionView, now: Timestamp, runner: Seq<char>)
    ensures
        session.status == SessionStatus::Active ==> archive::session_put_away(
            session,
            now,
        ).updated_at == now,
        session.status == SessionStatus::Archived ==> archive::session_put_away(session, now)
            == session,
        session.status == SessionStatus::Archived ==> archive::session_back(
            session,
            now,
        ).updated_at == now,
        session.status == SessionStatus::Active ==> archive::session_back(session, now) == session,
        session.runner_affinity != Some(runner) ==> claims::moved_to(
            session,
            runner,
            now,
        ).updated_at == now,
        session.runner_affinity == Some(runner) ==> claims::moved_to(session, runner, now)
            == session,
        claims::moved_to(session, runner, now).created_at == session.created_at,
        archive::session_put_away(session, now).created_at == session.created_at,
{
}

/// Some turn of the session, among the first `n`, is shown so.
pub open spec fn is_turn_of(
    rows: Seq<TurnRowView>,
    session: SessionId,
    n: int,
    turn: TurnView,
) -> bool {
    exists|i: int|
        0 <= i < n && (#[trigger] rows[i]).session_id == session && store::turn_of(rows[i]) == turn
}

/// A session's turns are listed, each as its row says, and no other's.
pub proof fn a_sessions_own_turns_are_listed(
    rows: Seq<TurnRowView>,
    session: SessionId,
    n: int,
    turn: TurnView,
)
    requires
        0 <= n <= rows.len(),
    ensures
        sessions::turns_of(rows, session, n).contains(turn) <==> is_turn_of(
            rows,
            session,
            n,
            turn,
        ),
    decreases n,
{
    if n > 0 {
        a_sessions_own_turns_are_listed(rows, session, n - 1, turn);
        let rest = sessions::turns_of(rows, session, n - 1);
        let all = sessions::turns_of(rows, session, n);
        if all.contains(turn) {
            let k = all.index_of(turn);
            if k < rest.len() {
                assert(rest[k] == turn);
                let i = choose|i: int|
                    0 <= i < n - 1 && (#[trigger] rows[i]).session_id == session && store::turn_of(
                        rows[i],
                    ) == turn;
                assert(rows[i].session_id == session);
            } else {
                assert(rows[n - 1].session_id == session);
            }
        }
        if is_turn_of(rows, session, n, turn) {
            let i = choose|i: int|
                0 <= i < n && (#[trigger] rows[i]).session_id == session && store::turn_of(rows[i])
                    == turn;
            if i == n - 1 {
                assert(all.last() == turn);
            } else {
                assert(is_turn_of(rows, session, n - 1, turn));
                let k = rest.index_of(turn);
                assert(all[k] == turn);
            }
        }
    }
}

/// A session's tree is listed from the session itself, every parent before its
/// children, the children of one parent as they were created, and holds exactly
/// what is under the session.
pub proof fn trees_are_listed_from_the_root(
    rows: Seq<SessionView>,
    root: SessionId,
    listed: Seq<SessionView>,
    a: int,
    b: int,
    id: SessionId,
)
    requires
        sessions::tree_ends(rows, root, Ok(listed)),
    ensures
        listed.len() > 0,
        listed[0].id == root,
        0 <= a < b < listed.len() && listed[a].parent_id is Some && listed[a].parent_id
            == listed[b].parent_id && is_listed(listed, listed[a].parent_id->0)
            ==> listed[a].created_at <= listed[b].created_at,
        0 < b < listed.len() ==> exists|p: int|
            0 <= p < b && listed[b].parent_id == Some((#[trigger] listed[p]).id),
        is_listed(listed, id) <==> tree::descends(rows, root, id),
{
    let (at, places) = choose|at: int, places: Seq<int>|
        0 <= at < rows.len() && rows[at].id == root && #[trigger] tree::is_tree(rows, at, places)
            && listed == order::arranged(rows, places);
    assert(forall|k: int| 0 <= k < places.len() ==> listed[k] == rows[#[trigger] places[k]]);
    assert(listed[0] == rows[places[0]]);
    if 0 <= a < b < listed.len() && listed[a].parent_id is Some && listed[a].parent_id
        == listed[b].parent_id && is_listed(listed, listed[a].parent_id->0) {
        let p = choose|p: int|
            0 <= p < listed.len() && (#[trigger] listed[p]).id == listed[a].parent_id->0;
        assert(listed[p] == rows[places[p]]);
        assert(listed[a] == rows[places[a]]);
        assert(listed[b] == rows[places[b]]);
        assert(tree::is_child(rows, places[p], places[a]));
        assert(tree::is_child(rows, places[p], places[b]));
    }
    if 0 < b < listed.len() {
        assert(tree::has_parent_before(rows, places, b, places.len() as int));
        let p = choose|p: int|
            0 <= p < b && p < places.len() && tree::is_child(rows, #[trigger] places[p], places[b]);
        assert(listed[p] == rows[places[p]]);
        assert(listed[b] == rows[places[b]]);
    }
    tree::tree_lists_the_descendants(rows, at, places, id);
    if is_listed(listed, id) {
        let p = choose|p: int| 0 <= p < listed.len() && (#[trigger] listed[p]).id == id;
        assert(rows[places[p]].id == id);
    }
    if tree::descends(rows, root, id) {
        let p = choose|p: int| 0 <= p < places.len() && rows[#[trigger] places[p]].id == id;
        assert(listed[p].id == id);
    }
}

/// Some session of the list has this identifier.
pub open spec fn is_listed(listed: Seq<SessionView>, id: SessionId) -> bool {
    exists|p: int| 0 <= p < listed.len() && (#[trigger] listed[p]).id == id
}

/// What is not there is named in the refusal.
pub proof fn what_is_not_there_is_named(entity: Seq<char>)
    ensures
        store::not_found_error(entity).status == 404,
        store::not_found_error(entity).message == entity + " not found"@,
{
}

} // verus!
