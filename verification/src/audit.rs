//! Testing that books that come from outside are in order.

use vstd::prelude::*;

use crate::caller;
use crate::protocol::SessionId;
use crate::store;
use crate::store::Store;
use crate::text;

verus! {

impl Store {
    /// Whether the sessions are in order.
    fn sessions_in_order(&self) -> (yes: bool)
        ensures
            yes == store::sessions_wf(self@.sessions),
    {
        let mut j: usize = 0;
        while j < self.sessions.len()
            invariant
                j <= self.sessions@.len(),
                forall|a: int, b: int|
                    0 <= a < b < j ==> (#[trigger] self@.sessions[a]).id != (
                    #[trigger] self@.sessions[b]).id,
                forall|b: int|
                    0 <= b < j ==> store::parent_comes_first(
                        self@.sessions,
                        #[trigger] self@.sessions[b],
                        b,
                    ),
            decreases self.sessions@.len() - j,
        {
            let mut found: bool = self.sessions[j].parent_id.is_none();
            let mut i: usize = 0;
            while i < j
                invariant
                    i <= j < self.sessions@.len(),
                    forall|a: int|
                        0 <= a < i ==> (#[trigger] self@.sessions[a]).id
                            != self@.sessions[j as int].id,
                    found <==> (self@.sessions[j as int].parent_id matches Some(parent) ==> exists|
                        a: int,
                    |
                        0 <= a < i && (#[trigger] self@.sessions[a]).id == parent),
                decreases j - i,
            {
                assert(self@.sessions[i as int].id == self.sessions@[i as int].id);
                assert(self@.sessions[j as int].id == self.sessions@[j as int].id);
                if self.sessions[i].id == self.sessions[j].id {
                    return false;
                }
                if let Some(parent) = self.sessions[j].parent_id {
                    if self.sessions[i].id == parent {
                        found = true;
                    }
                }
                i += 1;
            }
            if !found {
                assert(!store::parent_comes_first(
                    self@.sessions,
                    self@.sessions[j as int],
                    j as int,
                ));
                return false;
            }
            j += 1;
        }
        true
    }

    /// How many of the first `n` turns belong to a session.
    fn count_before(&self, session: SessionId, n: usize) -> (count: usize)
        requires
            n <= self.turns@.len(),
        ensures
            count == store::turns_before(self@.turns, session, n as int),
    {
        let mut count: usize = 0;
        let mut i: usize = 0;
        while i < n
            invariant
                i <= n <= self.turns@.len(),
                count <= i,
                count == store::turns_before(self@.turns, session, i as int),
            decreases n - i,
        {
            assert(self@.turns[i as int].session_id == self.turns@[i as int].session_id);
            if self.turns[i].session_id == session {
                count += 1;
            }
            i += 1;
        }
        count
    }

    /// Whether the turns are in order.
    fn turns_in_order(&self) -> (yes: bool)
        ensures
            yes == (store::turns_wf(self@.turns) && store::one_turn_in_flight(self@.turns)
                && store::turns_owned(self@.sessions, self@.turns)),
    {
        let mut j: usize = 0;
        while j < self.turns.len()
            invariant
                j <= self.turns@.len(),
                forall|a: int, b: int|
                    0 <= a < b < j ==> (#[trigger] self@.turns[a]).id != (
                    #[trigger] self@.turns[b]).id,
                forall|a: int, b: int|
                    0 <= a < b < j && caller::is_held((#[trigger] self@.turns[a]).status)
                        && caller::is_held((#[trigger] self@.turns[b]).status)
                        ==> self@.turns[a].session_id != self@.turns[b].session_id,
                forall|b: int|
                    0 <= b < j ==> (#[trigger] self@.turns[b]).seq == store::turns_before(
                        self@.turns,
                        self@.turns[b].session_id,
                        b,
                    ) + 1,
                forall|b: int|
                    0 <= b < j ==> store::has_session(
                        self@.sessions,
                        (#[trigger] self@.turns[b]).session_id,
                    ),
            decreases self.turns@.len() - j,
        {
            let ghost row = self@.turns[j as int];
            assert(row == self.turns@[j as int]@);
            let mut i: usize = 0;
            while i < j
                invariant
                    i <= j < self.turns@.len(),
                    row == self@.turns[j as int],
                    row == self.turns@[j as int]@,
                    forall|a: int| 0 <= a < i ==> (#[trigger] self@.turns[a]).id != row.id,
                    forall|a: int|
                        0 <= a < i && caller::is_held((#[trigger] self@.turns[a]).status)
                            && caller::is_held(row.status) ==> self@.turns[a].session_id
                            != row.session_id,
                decreases j - i,
            {
                assert(self@.turns[i as int] == self.turns@[i as int]@);
                if self.turns[i].id == self.turns[j].id {
                    return false;
                }
                if self.turns[i].session_id == self.turns[j].session_id && caller::held(
                    self.turns[i].status,
                ) && caller::held(self.turns[j].status) {
                    assert(!store::one_turn_in_flight(self@.turns));
                    return false;
                }
                i += 1;
            }
            let before: usize = self.count_before(self.turns[j].session_id, j);
            if self.turns[j].seq < 1 || (self.turns[j].seq as u64) - 1 != before as u64 {
                assert(row.seq != store::turns_before(self@.turns, row.session_id, j as int) + 1);
                return false;
            }
            if self.find_session(self.turns[j].session_id).is_none() {
                assert(!store::has_session(self@.sessions, row.session_id));
                return false;
            }
            assert(store::has_session(self@.sessions, row.session_id));
            j += 1;
        }
        true
    }

    /// Whether no runner is listed twice.
    fn runners_in_order(&self) -> (yes: bool)
        ensures
            yes == store::runners_wf(self@.runners),
    {
        let mut j: usize = 0;
        while j < self.runners.len()
            invariant
                j <= self.runners@.len(),
                forall|a: int, b: int|
                    0 <= a < b < j ==> (#[trigger] self@.runners[a]).runner != (
                    #[trigger] self@.runners[b]).runner,
            decreases self.runners@.len() - j,
        {
            let mut i: usize = 0;
            while i < j
                invariant
                    i <= j < self.runners@.len(),
                    forall|a: int|
                        0 <= a < i ==> (#[trigger] self@.runners[a]).runner
                            != self@.runners[j as int].runner,
                decreases j - i,
            {
                assert(self@.runners[i as int] == self.runners@[i as int]@);
                assert(self@.runners[j as int] == self.runners@[j as int]@);
                if text::same_text(&self.runners[i].runner, &self.runners[j].runner) {
                    return false;
                }
                i += 1;
            }
            j += 1;
        }
        true
    }

    /// Whether the books are in order, which every operation asks for and
    /// keeps.
    pub fn in_order(&self) -> (yes: bool)
        ensures
            yes == store::wf(self@),
    {
        self.sessions_in_order() && self.turns_in_order() && self.runners_in_order()
    }
}

} // verus!
