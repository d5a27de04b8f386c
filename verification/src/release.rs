//! Giving turns back: what happens to a turn whose runner has lost it.

use vstd::prelude::*;

use crate::caller;
use crate::protocol::{Event, SessionId, Timestamp, TurnId, TurnStatus};
use crate::protocol::{EventView, SessionView};
use crate::store;
use crate::store::{Broadcast, Store, TurnRow};
use crate::store::{BroadcastView, StoreView, TurnRowView};
use crate::text;

verus! {

/// A turn taken from its runner. One that the human asked to cancel is
/// finished; any other goes back on the queue.
pub open spec fn given_back(turn: TurnRowView) -> TurnRowView {
    TurnRowView {
        status: if turn.cancel_requested_at is Some {
            TurnStatus::Cancelled
        } else {
            TurnStatus::Queued
        },
        started_at: None,
        ..turn
    }
}

/// A turn taken from a runner that no longer holds it; where that cancels the
/// turn, it is finished now.
pub open spec fn released(turn: TurnRowView, now: Timestamp) -> TurnRowView {
    TurnRowView {
        finished_at: if turn.cancel_requested_at is Some {
            Some(now)
        } else {
            turn.finished_at
        },
        ..given_back(turn)
    }
}

/// The session of this identifier has its workspace on this runner.
pub open spec fn assigned(
    sessions: Seq<SessionView>,
    session: SessionId,
    runner: Seq<char>,
) -> bool {
    exists|i: int|
        0 <= i < sessions.len() && (#[trigger] sessions[i]).id == session
            && sessions[i].runner_affinity == Some(runner)
}

/// The runner was playing this turn for longer than the grace, and does not
/// list it among the turns it holds.
pub open spec fn abandoned(
    sessions: Seq<SessionView>,
    runner: Seq<char>,
    holds: Seq<TurnId>,
    now: Timestamp,
    grace_seconds: int,
    turn: TurnRowView,
) -> bool {
    &&& caller::is_held(turn.status)
    &&& turn.started_at matches Some(started) && store::older_than(started, now, grace_seconds)
    &&& assigned(sessions, turn.session_id, runner)
    &&& !holds.contains(turn.id)
}

/// The turns after everything that the runner abandoned was released.
pub open spec fn turns_released(
    sessions: Seq<SessionView>,
    turns: Seq<TurnRowView>,
    runner: Seq<char>,
    holds: Seq<TurnId>,
    now: Timestamp,
    grace_seconds: int,
) -> Seq<TurnRowView> {
    turns.map_values(
        |turn: TurnRowView|
            if abandoned(sessions, runner, holds, now, grace_seconds, turn) {
                released(turn, now)
            } else {
                turn
            },
    )
}

/// The events for those of the first `n` turns that became cancelled, in
/// order: all of them, or those of one session.
pub open spec fn cancel_events(
    before: Seq<TurnRowView>,
    after: Seq<TurnRowView>,
    session: Option<SessionId>,
    n: int,
) -> Seq<BroadcastView>
    decreases n,
{
    if n <= 0 {
        Seq::empty()
    } else {
        let rest = cancel_events(before, after, session, n - 1);
        if (session is None || session == Some(after[n - 1].session_id)) && before[n - 1].status
            != TurnStatus::Cancelled && after[n - 1].status == TurnStatus::Cancelled {
            rest.push(cancelled_event(after[n - 1]))
        } else {
            rest
        }
    }
}

/// The event that tells of a cancelled turn.
pub open spec fn cancelled_event(turn: TurnRowView) -> BroadcastView {
    BroadcastView {
        session_id: Some(turn.session_id),
        event: EventView::TurnCancelled { turn: store::turn_of(turn) },
    }
}

/// Whether the list holds the identifier.
pub fn lists_turn(holds: &Vec<TurnId>, id: TurnId) -> (yes: bool)
    ensures
        yes == holds@.contains(id),
{
    let mut i: usize = 0;
    while i < holds.len()
        invariant
            i <= holds@.len(),
            forall|k: int| 0 <= k < i ==> holds@[k] != id,
        decreases holds@.len() - i,
    {
        if holds[i] == id {
            return true;
        }
        i += 1;
    }
    false
}

/// Takes a turn from its runner.
pub fn give_back(turn: &mut TurnRow)
    ensures
        final(turn)@ == given_back(old(turn)@),
{
    turn.status = if turn.cancel_requested_at.is_some() {
        TurnStatus::Cancelled
    } else {
        TurnStatus::Queued
    };
    turn.started_at = None;
}

impl Store {
    /// Whether the session's workspace is on this runner.
    fn is_assigned(&self, session: SessionId, runner: &str) -> (yes: bool)
        ensures
            yes == assigned(self@.sessions, session, runner@),
    {
        let mut i: usize = 0;
        while i < self.sessions.len()
            invariant
                i <= self.sessions@.len(),
                forall|k: int|
                    0 <= k < i ==> !((#[trigger] self@.sessions[k]).id == session
                        && self@.sessions[k].runner_affinity == Some(runner@)),
            decreases self.sessions@.len() - i,
        {
            if self.sessions[i].id == session {
                if let Some(affinity) = &self.sessions[i].runner_affinity {
                    if text::same_text(affinity, runner) {
                        assert(self@.sessions[i as int].runner_affinity == Some(runner@));
                        return true;
                    }
                }
            }
            i += 1;
        }
        false
    }

    /// Whether the runner abandoned the turn at `i`.
    fn is_abandoned(
        &self,
        i: usize,
        runner: &str,
        holds: &Vec<TurnId>,
        now: Timestamp,
        grace_seconds: i64,
    ) -> (yes: bool)
        requires
            i < self.turns@.len(),
        ensures
            yes == abandoned(
                self@.sessions,
                runner@,
                holds@,
                now,
                grace_seconds as int,
                self@.turns[i as int],
            ),
    {
        let turn: &TurnRow = &self.turns[i];
        let overdue: bool = match turn.started_at {
            Some(started) => store::elapsed(started, now, grace_seconds),
            None => false,
        };
        caller::held(turn.status) && overdue && self.is_assigned(turn.session_id, runner)
            && !lists_turn(holds, turn.id)
    }

    /// Releases every turn that the runner was assigned but does not hold: it
    /// goes back on the queue, or finishes as cancelled where the human asked
    /// for that. A turn started within the grace is left alone.
    pub fn release_turns_not_held(
        &mut self,
        runner: &str,
        holds: &Vec<TurnId>,
        now: Timestamp,
        grace_seconds: i64,
    ) -> (events: Vec<Broadcast>)
        ensures
            final(self)@ == (StoreView {
                turns: turns_released(
                    old(self)@.sessions,
                    old(self)@.turns,
                    runner@,
                    holds@,
                    now,
                    grace_seconds as int,
                ),
                ..old(self)@
            }),
            store::events_view(events@) == cancel_events(
                old(self)@.turns,
                final(self)@.turns,
                None,
                old(self)@.turns.len() as int,
            ),
    {
        let ghost start = self@;
        let ghost goal = turns_released(
            start.sessions,
            start.turns,
            runner@,
            holds@,
            now,
            grace_seconds as int,
        );
        let mut events: Vec<Broadcast> = Vec::new();
        let mut i: usize = 0;
        proof {
            assert(store::events_view(events@) =~= cancel_events(start.turns, goal, None, 0));
        }
        while i < self.turns.len()
            invariant
                i <= self.turns@.len() == start.turns.len() == goal.len(),
                self@.sessions == start.sessions,
                self@.runners == start.runners,
                goal == turns_released(
                    start.sessions,
                    start.turns,
                    runner@,
                    holds@,
                    now,
                    grace_seconds as int,
                ),
                forall|k: int| 0 <= k < i ==> #[trigger] self@.turns[k] == goal[k],
                forall|k: int| i <= k < start.turns.len() ==> #[trigger] self@.turns[k] == start.turns[k],
                store::events_view(events@) == cancel_events(start.turns, goal, None, i as int),
            decreases self.turns@.len() - i,
        {
            let ghost before = self.turns@;
            if self.is_abandoned(i, runner, holds, now, grace_seconds) {
                let cancelled: bool = self.turns[i].cancel_requested_at.is_some();
                give_back(&mut self.turns[i]);
                if cancelled {
                    self.turns[i].finished_at = Some(now);
                    let turn = self.turns[i].to_turn();
                    events.push(
                        Broadcast {
                            session_id: Some(self.turns[i].session_id),
                            event: Event::TurnCancelled { turn },
                        },
                    );
                    assert(self@.turns[i as int] == goal[i as int]);
                    assert(store::events_view(events@) =~= cancel_events(
                        start.turns,
                        goal,
                        None,
                        i as int,
                    ).push(cancelled_event(goal[i as int])));
                }
            }
            proof {
                assert(self@.turns[i as int] == goal[i as int]);
                assert forall|k: int| 0 <= k < start.turns.len() && k != i implies (
                #[trigger] self@.turns[k]) == store::turn_rows(before)[k] by {
                    assert(self.turns@[k] == before[k]);
                }
            }
            i += 1;
        }
        proof {
            assert(self@.turns =~= goal);
        }
        events
    }
}

} // verus!
