//! Putting sessions away: archiving, bringing back, deleting.

use vstd::prelude::*;

use crate::caller;
use crate::claims;
use crate::order;
use crate::protocol::{Event, Session, SessionId, SessionStatus, Timestamp, TurnStatus};
use crate::protocol::{EventView, SessionView};
use crate::release;
use crate::store;
use crate::store::{ApiError, Broadcast, Effects, Store};
use crate::store::{BroadcastView, EffectsView, ErrorView, StoreView, TurnRowView};
use crate::tree;

verus! {

// ---------------------------------------------------------------------------
// What archiving does
// ---------------------------------------------------------------------------

/// The earlier of a recorded instant and now.
pub open spec fn first_asked(at: Option<Timestamp>, now: Timestamp) -> Option<Timestamp> {
    if at is Some {
        at
    } else {
        Some(now)
    }
}

/// A turn of a session that is put away: a queued one is cancelled outright,
/// one that a runner is playing gets a cancel request.
pub open spec fn turn_put_away(turn: TurnRowView, now: Timestamp) -> TurnRowView {
    if turn.status == TurnStatus::Queued {
        TurnRowView {
            status: TurnStatus::Cancelled,
            cancel_requested_at: first_asked(turn.cancel_requested_at, now),
            finished_at: Some(now),
            ..turn
        }
    } else if caller::is_held(turn.status) {
        TurnRowView { cancel_requested_at: first_asked(turn.cancel_requested_at, now), ..turn }
    } else {
        turn
    }
}

/// A session that is put away.
pub open spec fn session_put_away(session: SessionView, now: Timestamp) -> SessionView {
    if session.status == SessionStatus::Archived {
        session
    } else {
        SessionView { status: SessionStatus::Archived, updated_at: now, ..session }
    }
}

/// The books once a session and everything under it was put away.
pub open spec fn archived(store: StoreView, root: SessionId, now: Timestamp) -> StoreView {
    StoreView {
        sessions: store.sessions.map_values(
            |session: SessionView|
                if tree::descends(store.sessions, root, session.id) {
                    session_put_away(session, now)
                } else {
                    session
                },
        ),
        turns: store.turns.map_values(
            |turn: TurnRowView|
                if tree::descends(store.sessions, root, turn.session_id) {
                    turn_put_away(turn, now)
                } else {
                    turn
                },
        ),
        ..store
    }
}

/// The event that tells of a changed session, on its parent's feed.
pub open spec fn updated_event(session: SessionView) -> BroadcastView {
    BroadcastView {
        session_id: session.parent_id,
        event: EventView::SessionUpdated { session },
    }
}

/// The events of archiving the first `n` listed sessions: for each, the turns
/// that were cancelled and then, unless it was put away before, the session.
pub open spec fn archive_events(
    before: StoreView,
    after: StoreView,
    places: Seq<int>,
    n: int,
) -> Seq<BroadcastView>
    decreases n,
{
    if n <= 0 {
        Seq::empty()
    } else {
        let old = before.sessions[places[n - 1]];
        let new = after.sessions[places[n - 1]];
        let turns = archive_events(before, after, places, n - 1) + release::cancel_events(
            before.turns,
            after.turns,
            Some(old.id),
            before.turns.len() as int,
        );
        if old.status == SessionStatus::Archived {
            turns
        } else {
            turns.push(updated_event(new))
        }
    }
}

/// The books once the first `k` listed sessions were put away.
spec fn partly(store: StoreView, places: Seq<int>, k: int, now: Timestamp) -> StoreView {
    StoreView {
        sessions: store.sessions.map_values(
            |session: SessionView|
                if tree::lists(store.sessions, places.take(k), session.id) {
                    session_put_away(session, now)
                } else {
                    session
                },
        ),
        turns: store.turns.map_values(
            |turn: TurnRowView|
                if tree::lists(store.sessions, places.take(k), turn.session_id) {
                    turn_put_away(turn, now)
                } else {
                    turn
                },
        ),
        ..store
    }
}

/// Listing one session more.
proof fn lemma_lists_next(sessions: Seq<SessionView>, places: Seq<int>, k: int, id: SessionId)
    requires
        0 <= k < places.len(),
    ensures
        tree::lists(sessions, places.take(k + 1), id) <==> (tree::lists(
            sessions,
            places.take(k),
            id,
        ) || sessions[places[k]].id == id),
{
    let few = places.take(k);
    let more = places.take(k + 1);
    if tree::lists(sessions, few, id) {
        let m = choose|m: int| 0 <= m < few.len() && sessions[#[trigger] few[m]].id == id;
        assert(sessions[more[m]].id == id);
    }
    if sessions[places[k]].id == id {
        assert(sessions[more[k]].id == id);
    }
    if tree::lists(sessions, more, id) {
        let m = choose|m: int| 0 <= m < more.len() && sessions[#[trigger] more[m]].id == id;
        if m < k {
            assert(sessions[few[m]].id == id);
        }
    }
}

/// No session is listed twice, so the next one is not listed yet.
proof fn lemma_next_not_listed(sessions: Seq<SessionView>, places: Seq<int>, k: int)
    requires
        store::sessions_wf(sessions),
        tree::within(places, sessions.len() as int),
        tree::distinct(places),
        0 <= k < places.len(),
    ensures
        !tree::lists(sessions, places.take(k), sessions[places[k]].id),
{
    let few = places.take(k);
    if tree::lists(sessions, few, sessions[places[k]].id) {
        let m = choose|m: int|
            0 <= m < few.len() && sessions[#[trigger] few[m]].id == sessions[places[k]].id;
        assert(places[m] != places[k]);
        assert(0 <= places[m] < sessions.len());
        assert(0 <= places[k] < sessions.len());
        if places[m] < places[k] {
            assert(sessions[places[m]].id != sessions[places[k]].id);
        } else {
            assert(sessions[places[k]].id != sessions[places[m]].id);
        }
    }
}

/// The cancel events of one session depend on its own turns alone.
proof fn lemma_session_events_same(
    before: Seq<TurnRowView>,
    after: Seq<TurnRowView>,
    before2: Seq<TurnRowView>,
    after2: Seq<TurnRowView>,
    session: SessionId,
    n: int,
)
    requires
        0 <= n <= before.len() == after.len() == before2.len() == after2.len(),
        forall|i: int|
            0 <= i < n ==> (#[trigger] after[i]).session_id == after2[i].session_id,
        forall|i: int|
            0 <= i < n && (#[trigger] after[i]).session_id == session ==> after[i] == after2[i]
                && before[i] == before2[i],
    ensures
        release::cancel_events(before, after, Some(session), n) == release::cancel_events(
            before2,
            after2,
            Some(session),
            n,
        ),
    decreases n,
{
    if n > 0 {
        lemma_session_events_same(before, after, before2, after2, session, n - 1);
        assert(after[n - 1].session_id == after2[n - 1].session_id);
    }
}

/// What archiving a session comes to: the books afterwards, with the session
/// and what is broadcast, or the refusal.
pub open spec fn archive_ends(
    before: StoreView,
    id: SessionId,
    now: Timestamp,
    after: StoreView,
    outcome: Result<(SessionView, EffectsView), ErrorView>,
) -> bool {
    match outcome {
        Ok((session, effects)) => {
            &&& store::has_session(before.sessions, id)
            &&& after == archived(before, id, now)
            &&& session.id == id
            &&& after.sessions.contains(session)
            &&& effects.wake
            &&& exists|at: int, places: Seq<int>|
                0 <= at < before.sessions.len() && before.sessions[at].id == id
                    && #[trigger] tree::is_tree(before.sessions, at, places) && effects.events
                    == archive_events(before, after, places, places.len() as int)
        },
        Err(error) => {
            &&& !store::has_session(before.sessions, id)
            &&& error == store::not_found_error("session"@)
            &&& after == before
        },
    }
}

impl Store {
    /// Cancels what waits in a session and asks for the cancel of what runs.
    fn put_turns_away(&mut self, session: SessionId, now: Timestamp) -> (events: Vec<Broadcast>)
        ensures
            final(self)@.sessions == old(self)@.sessions,
            final(self)@.runners == old(self)@.runners,
            final(self)@.turns == old(self)@.turns.map_values(
                |turn: TurnRowView|
                    if turn.session_id == session {
                        turn_put_away(turn, now)
                    } else {
                        turn
                    },
            ),
            store::events_view(events@) == release::cancel_events(
                old(self)@.turns,
                final(self)@.turns,
                Some(session),
                old(self)@.turns.len() as int,
            ),
    {
        let ghost start = self@;
        let ghost goal = start.turns.map_values(
            |turn: TurnRowView|
                if turn.session_id == session {
                    turn_put_away(turn, now)
                } else {
                    turn
                },
        );
        let mut events: Vec<Broadcast> = Vec::new();
        let mut i: usize = 0;
        proof {
            assert(store::events_view(events@) =~= release::cancel_events(
                start.turns,
                goal,
                Some(session),
                0,
            ));
        }
        while i < self.turns.len()
            invariant
                i <= self.turns@.len() == start.turns.len() == goal.len(),
                self@.sessions == start.sessions,
                self@.runners == start.runners,
                goal == start.turns.map_values(
                    |turn: TurnRowView|
                        if turn.session_id == session {
                            turn_put_away(turn, now)
                        } else {
                            turn
                        },
                ),
                forall|k: int| 0 <= k < i ==> #[trigger] self@.turns[k] == goal[k],
                forall|k: int|
                    i <= k < start.turns.len() ==> #[trigger] self@.turns[k] == start.turns[k],
                store::events_view(events@) == release::cancel_events(
                    start.turns,
                    goal,
                    Some(session),
                    i as int,
                ),
            decreases self.turns@.len() - i,
        {
            let ghost before = self.turns@;
            assert(self@.turns[i as int] == start.turns[i as int]);
            if self.turns[i].session_id == session {
                let status: TurnStatus = self.turns[i].status;
                if status == TurnStatus::Queued || caller::held(status) {
                    if self.turns[i].cancel_requested_at.is_none() {
                        self.turns[i].cancel_requested_at = Some(now);
                    }
                }
                if status == TurnStatus::Queued {
                    self.turns[i].status = TurnStatus::Cancelled;
                    self.turns[i].finished_at = Some(now);
                    let ghost sent = events@;
                    let turn = self.turns[i].to_turn();
                    events.push(
                        Broadcast {
                            session_id: Some(session),
                            event: Event::TurnCancelled { turn },
                        },
                    );
                    assert(self@.turns[i as int] == goal[i as int]);
                    assert(store::events_view(events@) =~= store::events_view(sent).push(
                        release::cancelled_event(goal[i as int]),
                    ));
                }
            }
            proof {
                assert(self@.turns[i as int] == goal[i as int]);
                assert forall|k: int| 0 <= k < start.turns.len() && k != i implies (
                #[trigger] self@.turns[k]) == store::turn_rows(before)[k] by {
                    assert(self.turns@[k] == before[k]);
                }
            }
            i += 1;
        }
        proof {
            assert(self@.turns =~= goal);
        }
        events
    }

    /// Gives the session at `k` another status.
    fn set_session_status(&mut self, k: usize, status: SessionStatus, now: Timestamp) -> (event:
        Broadcast)
        requires
            k < old(self).sessions@.len(),
        ensures
            final(self)@ == (StoreView {
                sessions: old(self)@.sessions.update(
                    k as int,
                    SessionView { status, updated_at: now, ..old(self)@.sessions[k as int] },
                ),
                ..old(self)@
            }),
            event@ == updated_event(final(self)@.sessions[k as int]),
    {
        let ghost start = self@;
        let ghost before = self.sessions@;
        self.sessions[k].status = status;
        self.sessions[k].updated_at = now;
        proof {
            let goal = start.sessions.update(
                k as int,
                SessionView { status, updated_at: now, ..start.sessions[k as int] },
            );
            assert forall|m: int| 0 <= m < goal.len() implies (#[trigger] self@.sessions[m])
                == goal[m] by {
                if m != k {
                    assert(self.sessions@[m] == before[m]);
                }
            }
            assert(self@.sessions =~= goal);
        }
        Broadcast {
            session_id: self.sessions[k].parent_id,
            event: Event::SessionUpdated { session: self.sessions[k].clone() },
        }
    }

    /// Puts the session listed at `k` away.
    fn put_away(&mut self, places: &Vec<usize>, k: usize, now: Timestamp, books: Ghost<StoreView>) -> (
        events: Vec<Broadcast>)
        requires
            k < places@.len(),
            store::sessions_wf(books@.sessions),
            tree::within(tree::places_of(places@), books@.sessions.len() as int),
            tree::distinct(tree::places_of(places@)),
            old(self)@ == partly(books@, tree::places_of(places@), k as int, now),
        ensures
            final(self)@ == partly(books@, tree::places_of(places@), k + 1, now),
            store::events_view(events@) == ({
                let old_session = books@.sessions[places@[k as int] as int];
                let cancelled = release::cancel_events(
                    books@.turns,
                    final(self)@.turns,
                    Some(old_session.id),
                    books@.turns.len() as int,
                );
                if old_session.status == SessionStatus::Archived {
                    cancelled
                } else {
                    cancelled.push(
                        updated_event(final(self)@.sessions[places@[k as int] as int]),
                    )
                }
            }),
    {
        let ghost start = self@;
        let ghost spots = tree::places_of(places@);
        let ghost base = books@;
        proof {
            assert(spots[k as int] == places@[k as int] as int);
            assert(0 <= spots[k as int] < base.sessions.len());
            lemma_next_not_listed(base.sessions, spots, k as int);
            assert(self.sessions@.len() == start.sessions.len() == base.sessions.len());
        }
        let place: usize = places[k];
        let id: SessionId = self.sessions[place].id;
        let status: SessionStatus = self.sessions[place].status;
        assert(self@.sessions[place as int] == base.sessions[place as int]);
        let mut events: Vec<Broadcast> = self.put_turns_away(id, now);
        let ghost turned = self@;
        if status != SessionStatus::Archived {
            let ghost sent = events@;
            let event: Broadcast = self.set_session_status(place, SessionStatus::Archived, now);
            let ghost told = event@;
            events.push(event);
            assert(store::events_view(events@) =~= store::events_view(sent).push(told));
        }
        proof {
            let goal = partly(base, spots, k + 1, now);
            assert forall|m: int| 0 <= m < goal.sessions.len() implies (
            #[trigger] self@.sessions[m]) == goal.sessions[m] by {
                lemma_lists_next(base.sessions, spots, k as int, base.sessions[m].id);
                if m < place {
                    assert(base.sessions[m].id != base.sessions[place as int].id);
                } else if place < m {
                    assert(base.sessions[place as int].id != base.sessions[m].id);
                }
            }
            assert(self@.sessions =~= goal.sessions);
            assert forall|m: int| 0 <= m < goal.turns.len() implies (#[trigger] self@.turns[m])
                == goal.turns[m] by {
                lemma_lists_next(base.sessions, spots, k as int, base.turns[m].session_id);
            }
            assert(self@.turns =~= goal.turns);
            assert(self@ =~= goal);
            lemma_session_events_same(
                start.turns,
                self@.turns,
                base.turns,
                self@.turns,
                id,
                base.turns.len() as int,
            );
        }
        events
    }

    /// Puts a session and every sub-agent under it away. Queued turns are
    /// cancelled outright; a turn that a runner is playing gets a cancel
    /// request and finishes as cancelled when the runner sees it. Nothing is
    /// deleted, and the session can be brought back.
    pub fn archive_session(&mut self, id: SessionId, now: Timestamp) -> (outcome: Result<
        (Session, Effects),
        ApiError,
    >)
        requires
            store::wf(old(self)@),
        ensures
            store::wf(final(self)@),
            archive_ends(
                old(self)@,
                id,
                now,
                final(self)@,
                match outcome {
                    Ok((session, effects)) => Ok((session@, effects@)),
                    Err(error) => Err(error@),
                },
            ),
    {
        let ghost start = self@;
        let at: usize = match self.find_session(id) {
            Some(at) => at,
            None => {
                return Err(ApiError::not_found("session"));
            },
        };
        assert(store::has_session(start.sessions, id)) by {
            assert(start.sessions[at as int].id == id);
        }
        let places: Vec<usize> = self.tree_places(at);
        let ghost spots = tree::places_of(places@);
        let ghost goal = archived(start, id, now);
        let mut events: Vec<Broadcast> = Vec::new();
        let mut k: usize = 0;
        proof {
            lemma_partly_none(start, spots, now);
            assert(store::events_view(events@) =~= archive_events(start, goal, spots, 0));
            lemma_partly_all(start, at as int, spots, now);
        }
        while k < places.len()
            invariant
                k <= places@.len(),
                spots == tree::places_of(places@),
                store::wf(start),
                at < start.sessions.len(),
                start.sessions[at as int].id == id,
                tree::is_tree(start.sessions, at as int, spots),
                goal == archived(start, id, now),
                partly(start, spots, spots.len() as int, now) == goal,
                self@ == partly(start, spots, k as int, now),
                store::events_view(events@) == archive_events(start, goal, spots, k as int),
            decreases places@.len() - k,
        {
            let ghost sent = events@;
            let mut more: Vec<Broadcast> = self.put_away(&places, k, now, Ghost(start));
            let ghost added = more@;
            events.append(&mut more);
            proof {
                assert(spots[k as int] == places@[k as int] as int);
                assert(store::events_view(events@) =~= store::events_view(sent)
                    + store::events_view(added));
                lemma_step_events(start, at as int, spots, k as int, now);
                let session = start.sessions[spots[k as int]];
                let cancelled = release::cancel_events(
                    start.turns,
                    goal.turns,
                    Some(session.id),
                    start.turns.len() as int,
                );
                let told = updated_event(goal.sessions[spots[k as int]]);
                let rest = archive_events(start, goal, spots, k as int);
                assert(archive_events(start, goal, spots, k + 1) == if session.status
                    == SessionStatus::Archived {
                    rest + cancelled
                } else {
                    (rest + cancelled).push(told)
                });
                assert(rest + cancelled.push(told) =~= (rest + cancelled).push(told));
            }
            k += 1;
        }
        proof {
            lemma_archived_wf(start, id, now);
            assert(self@ == goal);
            assert(tree::is_tree(start.sessions, at as int, spots));
            assert(goal.sessions[at as int].id == id);
        }
        let session: Session = self.sessions[at].clone();
        assert(session@ == self@.sessions[at as int]);
        Ok((session, Effects { events, wake: true }))
    }
}

/// Before the first session nothing was put away.
proof fn lemma_partly_none(store: StoreView, places: Seq<int>, now: Timestamp)
    ensures
        partly(store, places, 0, now) == store,
{
    assert(partly(store, places, 0, now).sessions =~= store.sessions);
    assert(partly(store, places, 0, now).turns =~= store.turns);
}

/// After the last one everything under the root was.
proof fn lemma_partly_all(store: StoreView, at: int, places: Seq<int>, now: Timestamp)
    requires
        0 <= at < store.sessions.len(),
        tree::is_tree(store.sessions, at, places),
    ensures
        partly(store, places, places.len() as int, now) == archived(
            store,
            store.sessions[at].id,
            now,
        ),
{
    let all = partly(store, places, places.len() as int, now);
    let goal = archived(store, store.sessions[at].id, now);
    assert(places.take(places.len() as int) =~= places);
    assert forall|m: int| 0 <= m < goal.sessions.len() implies (#[trigger] all.sessions[m])
        == goal.sessions[m] by {
        tree::tree_lists_the_descendants(store.sessions, at, places, store.sessions[m].id);
    }
    assert(all.sessions =~= goal.sessions);
    assert forall|m: int| 0 <= m < goal.turns.len() implies (#[trigger] all.turns[m])
        == goal.turns[m] by {
        tree::tree_lists_the_descendants(store.sessions, at, places, store.turns[m].session_id);
    }
    assert(all.turns =~= goal.turns);
}

/// What one step tells is what the whole tells of that session.
proof fn lemma_step_events(store: StoreView, at: int, places: Seq<int>, k: int, now: Timestamp)
    requires
        store::wf(store),
        0 <= at < store.sessions.len(),
        tree::is_tree(store.sessions, at, places),
        0 <= k < places.len(),
    ensures
        ({
            let step = partly(store, places, k + 1, now);
            let goal = archived(store, store.sessions[at].id, now);
            let session = store.sessions[places[k]];
            &&& step.sessions[places[k]] == goal.sessions[places[k]]
            &&& release::cancel_events(
                store.turns,
                step.turns,
                Some(session.id),
                store.turns.len() as int,
            ) == release::cancel_events(
                store.turns,
                goal.turns,
                Some(session.id),
                store.turns.len() as int,
            )
        }),
{
    let step = partly(store, places, k + 1, now);
    let goal = archived(store, store.sessions[at].id, now);
    assert(0 <= places[k] < store.sessions.len());
    let id = store.sessions[places[k]].id;
    lemma_lists_next(store.sessions, places, k, id);
    assert(tree::lists(store.sessions, places, id));
    tree::tree_lists_the_descendants(store.sessions, at, places, id);
    lemma_session_events_same(
        store.turns,
        step.turns,
        store.turns,
        goal.turns,
        id,
        store.turns.len() as int,
    );
}

/// Putting sessions away keeps the books in order.
proof fn lemma_archived_wf(store: StoreView, root: SessionId, now: Timestamp)
    requires
        store::wf(store),
    ensures
        store::wf(archived(store, root, now)),
{
    let after = archived(store, root, now);
    lemma_same_sessions_wf(store, after.sessions);
    store::lemma_turns_keep_wf(after.sessions, store.turns, after.turns);
}

/// Changing the state of sessions keeps the books in order.
proof fn lemma_same_sessions_wf(store: StoreView, after: Seq<SessionView>)
    requires
        store::wf(store),
        after.len() == store.sessions.len(),
        forall|i: int|
            0 <= i < after.len() ==> (#[trigger] after[i]).id == store.sessions[i].id
                && after[i].parent_id == store.sessions[i].parent_id,
    ensures
        store::wf(StoreView { sessions: after, ..store }),
{
    let sessions = store.sessions;
    assert forall|i: int, j: int| 0 <= i < j < after.len() implies (#[trigger] after[i]).id != (
    #[trigger] after[j]).id by {
        assert(sessions[i].id != sessions[j].id);
    }
    assert forall|i: int| 0 <= i < after.len() implies store::parent_comes_first(
        after,
        #[trigger] after[i],
        i,
    ) by {
        assert(store::parent_comes_first(sessions, sessions[i], i));
        if let Some(parent) = after[i].parent_id {
            let j = choose|j: int| 0 <= j < i && (#[trigger] sessions[j]).id == parent;
            assert(after[j].id == parent);
        }
    }
    assert forall|i: int| 0 <= i < store.turns.len() implies store::has_session(
        after,
        (#[trigger] store.turns[i]).session_id,
    ) by {
        assert(store::has_session(sessions, store.turns[i].session_id));
        let k = choose|k: int|
            0 <= k < sessions.len() && (#[trigger] sessions[k]).id == store.turns[i].session_id;
        assert(after[k].id == store.turns[i].session_id);
    }
}

// ---------------------------------------------------------------------------
// Bringing back
// ---------------------------------------------------------------------------

/// A session that is brought back.
pub open spec fn session_back(session: SessionView, now: Timestamp) -> SessionView {
    if session.status == SessionStatus::Active {
        session
    } else {
        SessionView { status: SessionStatus::Active, updated_at: now, ..session }
    }
}

/// The books once one session was brought back.
pub open spec fn unarchived(store: StoreView, id: SessionId, now: Timestamp) -> StoreView {
    StoreView {
        sessions: store.sessions.map_values(
            |session: SessionView|
                if session.id == id {
                    session_back(session, now)
                } else {
                    session
                },
        ),
        ..store
    }
}

/// The session of this identifier is active.
pub open spec fn is_active(sessions: Seq<SessionView>, id: SessionId) -> bool {
    exists|i: int|
        0 <= i < sessions.len() && (#[trigger] sessions[i]).id == id && sessions[i].status
            == SessionStatus::Active
}

/// What bringing a session back comes to: the books afterwards, with the
/// session and what is broadcast, or the refusal.
pub open spec fn unarchive_ends(
    before: StoreView,
    id: SessionId,
    now: Timestamp,
    after: StoreView,
    outcome: Result<(SessionView, EffectsView), ErrorView>,
) -> bool {
    match outcome {
        Ok((session, effects)) => {
            &&& store::has_session(before.sessions, id)
            &&& after == unarchived(before, id, now)
            &&& session.id == id
            &&& after.sessions.contains(session)
            &&& effects == if is_active(before.sessions, id) {
                EffectsView { events: Seq::empty(), wake: false }
            } else {
                EffectsView { events: seq![updated_event(session)], wake: true }
            }
        },
        Err(error) => {
            &&& !store::has_session(before.sessions, id)
            &&& error == store::not_found_error("session"@)
            &&& after == before
        },
    }
}

impl Store {
    /// Brings one session back. Its sub-agents stay as they are.
    pub fn unarchive_session(&mut self, id: SessionId, now: Timestamp) -> (outcome: Result<
        (Session, Effects),
        ApiError,
    >)
        requires
            store::wf(old(self)@),
        ensures
            store::wf(final(self)@),
            unarchive_ends(
                old(self)@,
                id,
                now,
                final(self)@,
                match outcome {
                    Ok((session, effects)) => Ok((session@, effects@)),
                    Err(error) => Err(error@),
                },
            ),
    {
        let ghost start = self@;
        let at: usize = match self.find_session(id) {
            Some(at) => at,
            None => {
                return Err(ApiError::not_found("session"));
            },
        };
        let ghost goal = unarchived(start, id, now);
        proof {
            assert(start.sessions[at as int].id == id);
            assert forall|m: int| 0 <= m < start.sessions.len() && (#[trigger] start.sessions[m]).id
                == id implies m == at by {
                if m < at {
                    assert(start.sessions[m].id != start.sessions[at as int].id);
                } else if at < m {
                    assert(start.sessions[at as int].id != start.sessions[m].id);
                }
            }
            lemma_same_sessions_wf(start, goal.sessions);
        }
        let mut events: Vec<Broadcast> = Vec::new();
        let mut wake: bool = false;
        if self.sessions[at].status != SessionStatus::Active {
            let event: Broadcast = self.set_session_status(at, SessionStatus::Active, now);
            let ghost told = event@;
            events.push(event);
            wake = true;
            proof {
                assert(self@.sessions =~= goal.sessions);
                assert(store::events_view(events@) =~= seq![told]);
            }
        } else {
            proof {
                assert(self@.sessions =~= goal.sessions);
                assert(store::events_view(events@) =~= Seq::empty());
            }
        }
        let session: Session = self.sessions[at].clone();
        assert(session@ == self@.sessions[at as int]);
        assert(self@ =~= goal);
        Ok((session, Effects { events, wake }))
    }
}

// ---------------------------------------------------------------------------
// Deleting
// ---------------------------------------------------------------------------

/// The books without a session, everything under it, and all of their turns.
pub open spec fn deleted(store: StoreView, root: SessionId) -> StoreView {
    StoreView {
        sessions: store.sessions.filter(
            |session: SessionView| !tree::descends(store.sessions, root, session.id),
        ),
        turns: store.turns.filter(
            |turn: TurnRowView| !tree::descends(store.sessions, root, turn.session_id),
        ),
        ..store
    }
}

/// The events of deleting the listed sessions from the last down to the one
/// at `n`: children before their parents, each told on its parent's feed.
pub open spec fn delete_events(
    sessions: Seq<SessionView>,
    places: Seq<int>,
    n: int,
) -> Seq<BroadcastView>
    decreases places.len() - n,
{
    if n >= places.len() || n < 0 {
        Seq::empty()
    } else {
        let session = sessions[places[n]];
        delete_events(sessions, places, n + 1).push(
            BroadcastView {
                session_id: session.parent_id,
                event: EventView::SessionDeleted { session_id: session.id },
            },
        )
    }
}

/// The session listed at `k` is the first of those listed that still has a
/// turn in flight.
pub open spec fn first_running(store: StoreView, places: Seq<int>, k: int) -> bool {
    &&& 0 <= k < places.len()
    &&& claims::busy(store.turns, store.sessions[places[k]].id)
    &&& forall|j: int|
        0 <= j < k ==> !claims::busy(store.turns, store.sessions[#[trigger] places[j]].id)
}

/// The refusal while a turn is still running in a session.
pub open spec fn still_running(title: Seq<char>) -> ErrorView {
    store::conflict_error(
        "a turn is still running in "@ + title + "; wait for the cancel to land"@,
    )
}

/// How deleting ends. Only an archived session goes, with everything under
/// it, once nothing in it is running.
pub open spec fn delete_ends(
    before: StoreView,
    id: SessionId,
    after: StoreView,
    events: Result<Seq<BroadcastView>, ErrorView>,
) -> bool {
    if !store::has_session(before.sessions, id) {
        events == Err::<Seq<BroadcastView>, _>(store::not_found_error("session"@)) && after
            == before
    } else {
        exists|at: int, places: Seq<int>|
            0 <= at < before.sessions.len() && before.sessions[at].id == id
                && #[trigger] tree::is_tree(before.sessions, at, places) && if before.sessions[at].status
                != SessionStatus::Archived {
                events == Err::<Seq<BroadcastView>, _>(
                    store::conflict_error("archive the session before deleting it"@),
                ) && after == before
            } else {
                match events {
                    Err(error) => after == before && exists|k: int| #[trigger]
                        first_running(before, places, k) && error == still_running(
                            before.sessions[places[k]].title,
                        ),
                    Ok(events) => {
                        &&& forall|k: int|
                            0 <= k < places.len() ==> !claims::busy(
                                before.turns,
                                before.sessions[#[trigger] places[k]].id,
                            )
                        &&& after == deleted(before, id)
                        &&& events == delete_events(before.sessions, places, 0)
                    },
                }
            }
    }
}

proof fn lemma_count_prefix(
    a: Seq<TurnRowView>,
    b: Seq<TurnRowView>,
    session: SessionId,
    n: int,
)
    requires
        n <= a.len(),
        n <= b.len(),
        forall|i: int| 0 <= i < n ==> (#[trigger] a[i]) == b[i],
    ensures
        store::turns_before(a, session, n) == store::turns_before(b, session, n),
    decreases n,
{
    if n > 0 {
        lemma_count_prefix(a, b, session, n - 1);
        assert(a[n - 1] == b[n - 1]);
    }
}

/// Dropping the turns of other sessions does not change a turn's place in its
/// own.
proof fn lemma_count_filtered(
    turns: Seq<TurnRowView>,
    test: spec_fn(TurnRowView) -> bool,
    session: SessionId,
)
    requires
        forall|turn: TurnRowView|
            turn.session_id == session ==> #[trigger] test(turn),
    ensures
        store::turns_before(turns.filter(test), session, turns.filter(test).len() as int)
            == store::turns_before(turns, session, turns.len() as int),
        forall|k: int|
            0 <= k < order::kept(turns, test).len() ==> store::turns_before(
                turns.filter(test),
                session,
                k,
            ) == store::turns_before(turns, session, #[trigger] order::kept(turns, test)[k]),
    decreases turns.len(),
{
    reveal(Seq::filter);
    if turns.len() > 0 {
        let rest = turns.drop_last();
        lemma_count_filtered(rest, test, session);
        order::lemma_filter_kept(rest, test);
        let few = order::kept(rest, test);
        let all = order::kept(turns, test);
        let fewer = rest.filter(test);
        let filtered = turns.filter(test);
        lemma_count_prefix(turns, rest, session, rest.len() as int);
        lemma_count_prefix(filtered, fewer, session, fewer.len() as int);
        assert forall|k: int| 0 <= k < all.len() implies store::turns_before(filtered, session, k)
            == store::turns_before(turns, session, #[trigger] all[k]) by {
            if k < few.len() {
                assert(all[k] == few[k]);
                lemma_count_prefix(filtered, fewer, session, k);
                lemma_count_prefix(turns, rest, session, few[k]);
            }
        }
    }
}

/// Deleting a session with everything under it keeps the books in order.
proof fn lemma_deleted_wf(store: StoreView, root: SessionId)
    requires
        store::wf(store),
    ensures
        store::wf(deleted(store, root)),
{
    let keep_session = |session: SessionView| !tree::descends(store.sessions, root, session.id);
    let keep_turn = |turn: TurnRowView| !tree::descends(store.sessions, root, turn.session_id);
    let after = deleted(store, root);
    order::lemma_filter_kept(store.sessions, keep_session);
    order::lemma_filter_kept(store.turns, keep_turn);
    let spots = order::kept(store.sessions, keep_session);
    let rows = order::kept(store.turns, keep_turn);
    assert forall|i: int, j: int| 0 <= i < j < after.sessions.len() implies (
    #[trigger] after.sessions[i]).id != (#[trigger] after.sessions[j]).id by {
        assert(spots[i] < spots[j]);
        assert(store.sessions[spots[i]].id != store.sessions[spots[j]].id);
    }
    assert forall|i: int| 0 <= i < after.sessions.len() implies store::parent_comes_first(
        after.sessions,
        #[trigger] after.sessions[i],
        i,
    ) by {
        assert(0 <= spots[i] < store.sessions.len());
        let session = store.sessions[spots[i]];
        assert(store::parent_comes_first(store.sessions, session, spots[i]));
        if let Some(parent) = session.parent_id {
            let j = choose|j: int| 0 <= j < spots[i] && (#[trigger] store.sessions[j]).id == parent;
            if tree::descends(store.sessions, root, parent) {
                assert(tree::child_of(store.sessions, parent, session.id));
                tree::lemma_child_descends(store.sessions, root, parent, session.id);
            }
            assert(keep_session(store.sessions[j]));
            let k = spots.index_of(j);
            assert(spots[k] == j);
            if k >= i {
                if i < k {
                    assert(spots[i] < spots[k]);
                }
            }
            assert(after.sessions[k].id == parent);
        }
    }
    assert forall|i: int, j: int| 0 <= i < j < after.turns.len() implies (
    #[trigger] after.turns[i]).id != (#[trigger] after.turns[j]).id by {
        assert(rows[i] < rows[j]);
        assert(store.turns[rows[i]].id != store.turns[rows[j]].id);
    }
    assert forall|i: int, j: int|
        0 <= i < j < after.turns.len() && caller::is_held((#[trigger] after.turns[i]).status)
            && caller::is_held((#[trigger] after.turns[j]).status) implies after.turns[i].session_id
        != after.turns[j].session_id by {
        assert(rows[i] < rows[j]);
        assert(store.turns[rows[i]].session_id != store.turns[rows[j]].session_id);
    }
    assert forall|i: int| 0 <= i < after.turns.len() implies (#[trigger] after.turns[i]).seq
        == store::turns_before(after.turns, after.turns[i].session_id, i) + 1 by {
        let session = after.turns[i].session_id;
        assert(0 <= rows[i] < store.turns.len());
        assert(keep_turn(store.turns[rows[i]]));
        lemma_count_filtered(store.turns, keep_turn, session);
        assert(store.turns[rows[i]].seq == store::turns_before(store.turns, session, rows[i]) + 1);
    }
    assert forall|i: int| 0 <= i < after.turns.len() implies store::has_session(
        after.sessions,
        (#[trigger] after.turns[i]).session_id,
    ) by {
        assert(0 <= rows[i] < store.turns.len());
        let session = store.turns[rows[i]].session_id;
        assert(store::has_session(store.sessions, session));
        let j = choose|j: int|
            0 <= j < store.sessions.len() && (#[trigger] store.sessions[j]).id == session;
        assert(keep_turn(store.turns[rows[i]]));
        assert(keep_session(store.sessions[j]));
        let k = spots.index_of(j);
        assert(after.sessions[k].id == session);
    }
}

/// Whether the list holds the identifier.
fn has_id(ids: &Vec<SessionId>, id: SessionId) -> (yes: bool)
    ensures
        yes == ids@.contains(id),
{
    let mut i: usize = 0;
    while i < ids.len()
        invariant
            i <= ids@.len(),
            forall|k: int| 0 <= k < i ==> ids@[k] != id,
        decreases ids@.len() - i,
    {
        if ids[i] == id {
            return true;
        }
        i += 1;
    }
    false
}

impl Store {
    /// Drops the sessions with one of these identifiers.
    fn drop_sessions(&mut self, ids: &Vec<SessionId>)
        ensures
            final(self)@ == (StoreView {
                sessions: old(self)@.sessions.filter(
                    |session: SessionView| !ids@.contains(session.id),
                ),
                ..old(self)@
            }),
    {
        let ghost start = self@;
        let ghost test = |session: SessionView| !ids@.contains(session.id);
        let ghost mut n: int = 0;
        let mut i: usize = 0;
        proof {
            reveal(Seq::filter);
            assert(start.sessions.take(0).filter(test) =~= Seq::empty());
            assert(start.sessions.skip(0) =~= start.sessions);
            assert(self@.sessions =~= Seq::<SessionView>::empty() + start.sessions);
        }
        while i < self.sessions.len()
            invariant
                i <= self.sessions@.len(),
                0 <= n <= start.sessions.len(),
                test == (|session: SessionView| !ids@.contains(session.id)),
                self@.turns == start.turns,
                self@.runners == start.runners,
                start.sessions.take(n).filter(test).len() == i,
                self@.sessions == start.sessions.take(n).filter(test) + start.sessions.skip(n),
            decreases self.sessions@.len() - i,
        {
            let ghost rows = self@.sessions;
            let ghost before = self.sessions@;
            proof {
                order::lemma_filter_take(start.sessions, test, n);
                assert(rows[i as int] == start.sessions.skip(n)[0]);
                assert(start.sessions.skip(n).skip(1) =~= start.sessions.skip(n + 1));
            }
            if has_id(ids, self.sessions[i].id) {
                let _ = self.sessions.remove(i);
                proof {
                    assert(self@.sessions =~= rows.remove(i as int));
                    assert(self@.sessions =~= start.sessions.take(n + 1).filter(test)
                        + start.sessions.skip(n + 1));
                }
            } else {
                proof {
                    assert(self@.sessions =~= start.sessions.take(n + 1).filter(test)
                        + start.sessions.skip(n + 1));
                }
                i += 1;
            }
            proof {
                n = n + 1;
            }
        }
        proof {
            assert(start.sessions.skip(n).len() == 0);
            assert(start.sessions.take(n) =~= start.sessions);
            assert(self@.sessions =~= start.sessions.filter(test));
        }
    }

    /// Drops the turns of the sessions with one of these identifiers.
    fn drop_turns(&mut self, ids: &Vec<SessionId>)
        ensures
            final(self)@ == (StoreView {
                turns: old(self)@.turns.filter(
                    |turn: TurnRowView| !ids@.contains(turn.session_id),
                ),
                ..old(self)@
            }),
    {
        let ghost start = self@;
        let ghost test = |turn: TurnRowView| !ids@.contains(turn.session_id);
        let ghost mut n: int = 0;
        let mut i: usize = 0;
        proof {
            reveal(Seq::filter);
            assert(start.turns.take(0).filter(test) =~= Seq::empty());
            assert(start.turns.skip(0) =~= start.turns);
            assert(self@.turns =~= Seq::<TurnRowView>::empty() + start.turns);
        }
        while i < self.turns.len()
            invariant
                i <= self.turns@.len(),
                0 <= n <= start.turns.len(),
                test == (|turn: TurnRowView| !ids@.contains(turn.session_id)),
                self@.sessions == start.sessions,
                self@.runners == start.runners,
                start.turns.take(n).filter(test).len() == i,
                self@.turns == start.turns.take(n).filter(test) + start.turns.skip(n),
            decreases self.turns@.len() - i,
        {
            let ghost rows = self@.turns;
            proof {
                order::lemma_filter_take(start.turns, test, n);
                assert(rows[i as int] == start.turns.skip(n)[0]);
                assert(start.turns.skip(n).skip(1) =~= start.turns.skip(n + 1));
            }
            if has_id(ids, self.turns[i].session_id) {
                let _ = self.turns.remove(i);
                proof {
                    assert(self@.turns =~= rows.remove(i as int));
                    assert(self@.turns =~= start.turns.take(n + 1).filter(test)
                        + start.turns.skip(n + 1));
                }
            } else {
                proof {
                    assert(self@.turns =~= start.turns.take(n + 1).filter(test)
                        + start.turns.skip(n + 1));
                }
                i += 1;
            }
            proof {
                n = n + 1;
            }
        }
        proof {
            assert(start.turns.skip(n).len() == 0);
            assert(start.turns.take(n) =~= start.turns);
            assert(self@.turns =~= start.turns.filter(test));
        }
    }

    /// Deletes an archived session and every sub-agent under it, with their
    /// turns.
    pub fn delete_session(&mut self, id: SessionId) -> (outcome: Result<Effects, ApiError>)
        requires
            store::wf(old(self)@),
        ensures
            store::wf(final(self)@),
            delete_ends(
                old(self)@,
                id,
                final(self)@,
                match outcome {
                    Ok(effects) => Ok(effects@.events),
                    Err(error) => Err(error@),
                },
            ),
            outcome matches Ok(effects) ==> !effects.wake,
    {
        let ghost start = self@;
        let at: usize = match self.find_session(id) {
            Some(at) => at,
            None => {
                return Err(ApiError::not_found("session"));
            },
        };
        proof {
            assert(start.sessions[at as int].id == id);
        }
        let places: Vec<usize> = self.tree_places(at);
        let ghost spots = tree::places_of(places@);
        assert(tree::is_tree(start.sessions, at as int, spots));
        if self.sessions[at].status != SessionStatus::Archived {
            return Err(ApiError::conflict("archive the session before deleting it"));
        }
        let mut ids: Vec<SessionId> = Vec::new();
        let mut k: usize = 0;
        while k < places.len()
            invariant
                k <= places@.len(),
                spots == tree::places_of(places@),
                self@ == start,
                store::wf(start),
                store::has_session(start.sessions, id),
                at < start.sessions.len(),
                start.sessions[at as int].id == id,
                start.sessions[at as int].status == SessionStatus::Archived,
                tree::is_tree(start.sessions, at as int, spots),
                ids@.len() == k,
                forall|j: int|
                    0 <= j < k ==> start.sessions[#[trigger] spots[j]].id == ids@[j]
                        && !claims::busy(start.turns, start.sessions[spots[j]].id),
            decreases places@.len() - k,
        {
            assert(spots[k as int] == places@[k as int] as int);
            assert(0 <= spots[k as int] < start.sessions.len());
            let session: &Session = &self.sessions[places[k]];
            assert(session@ == start.sessions[spots[k as int]]);
            if self.session_busy(session.id) {
                let mut message: String = "a turn is still running in ".to_string();
                message.append(&session.title);
                message.append("; wait for the cancel to land");
                assert(first_running(start, spots, k as int));
                assert(message@ == still_running(session@.title).message);
                return Err(ApiError::conflict(&message));
            }
            ids.push(session.id);
            k += 1;
        }
        let mut events: Vec<Broadcast> = Vec::new();
        let mut n: usize = places.len();
        proof {
            assert(store::events_view(events@) =~= delete_events(
                start.sessions,
                spots,
                n as int,
            ));
        }
        while n > 0
            invariant
                n <= places@.len(),
                spots == tree::places_of(places@),
                self@ == start,
                tree::is_tree(start.sessions, at as int, spots),
                store::events_view(events@) == delete_events(start.sessions, spots, n as int),
            decreases n,
        {
            n -= 1;
            assert(spots[n as int] == places@[n as int] as int);
            assert(0 <= spots[n as int] < start.sessions.len());
            let session: &Session = &self.sessions[places[n]];
            assert(session@ == start.sessions[spots[n as int]]);
            let ghost sent = events@;
            events.push(
                Broadcast {
                    session_id: session.parent_id,
                    event: Event::SessionDeleted { session_id: session.id },
                },
            );
            assert(store::events_view(events@) =~= store::events_view(sent).push(
                BroadcastView {
                    session_id: session.parent_id,
                    event: EventView::SessionDeleted { session_id: session.id },
                },
            ));
        }
        self.drop_turns(&ids);
        self.drop_sessions(&ids);
        proof {
            lemma_ids_are_descendants(start, at as int, spots, ids@);
            assert(self@ =~= deleted(start, id));
            lemma_deleted_wf(start, id);
        }
        Ok(Effects { events, wake: false })
    }
}

/// Testing for the listed identifiers is testing for descent.
proof fn lemma_ids_are_descendants(
    store: StoreView,
    at: int,
    places: Seq<int>,
    ids: Seq<SessionId>,
)
    requires
        0 <= at < store.sessions.len(),
        tree::is_tree(store.sessions, at, places),
        ids.len() == places.len(),
        forall|j: int| 0 <= j < places.len() ==> store.sessions[#[trigger] places[j]].id == ids[j],
    ensures
        store.sessions.filter(|session: SessionView| !ids.contains(session.id)) == deleted(
            store,
            store.sessions[at].id,
        ).sessions,
        store.turns.filter(|turn: TurnRowView| !ids.contains(turn.session_id)) == deleted(
            store,
            store.sessions[at].id,
        ).turns,
{
    let root = store.sessions[at].id;
    assert forall|id: SessionId| ids.contains(id) == #[trigger] tree::descends(
        store.sessions,
        root,
        id,
    ) by {
        tree::tree_lists_the_descendants(store.sessions, at, places, id);
        if ids.contains(id) {
            let k = ids.index_of(id);
            assert(store.sessions[places[k]].id == id);
        }
        if tree::lists(store.sessions, places, id) {
            let k = choose|k: int|
                0 <= k < places.len() && store.sessions[#[trigger] places[k]].id == id;
            assert(ids[k] == id);
        }
    }
    let a = |session: SessionView| !ids.contains(session.id);
    let b = |session: SessionView| !tree::descends(store.sessions, root, session.id);
    assert(a =~= b);
    let c = |turn: TurnRowView| !ids.contains(turn.session_id);
    let d = |turn: TurnRowView| !tree::descends(store.sessions, root, turn.session_id);
    assert(c =~= d);
}

} // verus!
