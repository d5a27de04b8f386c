//! Claims: which queued turn a runner is handed, and what comes with it.

use vstd::prelude::*;

use crate::caller;
use crate::protocol::{
    ClaimRequest, ClaimedWork, Event, Harness, Lane, Session, SessionId, SessionStatus, Timestamp,
    TurnStatus, TurnSummary,
};
use crate::protocol::{
    ClaimRequestView, EventView, LaneView, SessionView, SummaryView, TurnView, WorkView,
};
use crate::release;
use crate::store;
use crate::store::{Broadcast, Effects, RunnerRecord, Store, TurnRow};
use crate::store::{BroadcastView, EffectsView, RunnerView, StoreView, TurnRowView};
use crate::text;

verus! {

// ---------------------------------------------------------------------------
// A runner is heard from
// ---------------------------------------------------------------------------

/// The runner's record after a claim: seen now, with what it offers and, if
/// it named one, its epoch.
pub open spec fn seen(old: RunnerView, request: ClaimRequestView, now: Timestamp) -> RunnerView {
    RunnerView {
        last_seen: now,
        harnesses: request.harnesses,
        epoch: if request.epoch is Some {
            request.epoch
        } else {
            old.epoch
        },
        ..old
    }
}

/// The runners after one of them was heard from.
pub open spec fn runners_seen(
    runners: Seq<RunnerView>,
    request: ClaimRequestView,
    now: Timestamp,
) -> Seq<RunnerView> {
    if store::has_runner(runners, request.runner) {
        runners.map_values(
            |runner: RunnerView|
                if runner.runner == request.runner {
                    seen(runner, request, now)
                } else {
                    runner
                },
        )
    } else {
        runners.push(
            RunnerView {
                runner: request.runner,
                last_seen: now,
                harnesses: request.harnesses,
                active_turns: Seq::empty(),
                epoch: request.epoch,
            },
        )
    }
}

/// The epoch on record for a runner.
pub open spec fn epoch_of(runners: Seq<RunnerView>, name: Seq<char>) -> Option<Seq<char>> {
    if store::has_runner(runners, name) {
        runners[choose|i: int|
            0 <= i < runners.len() && (#[trigger] runners[i]).runner == name].epoch
    } else {
        None
    }
}

/// A claim under a new epoch: the runner restarted since it was last heard.
pub open spec fn restarted(runners: Seq<RunnerView>, request: ClaimRequestView) -> bool {
    &&& request.epoch is Some
    &&& epoch_of(runners, request.runner) is Some
    &&& request.epoch != epoch_of(runners, request.runner)
}

/// A copy of a list of harnesses.
fn copy_harnesses(harnesses: &Vec<Harness>) -> (copy: Vec<Harness>)
    ensures
        copy@ == harnesses@,
{
    let mut copy: Vec<Harness> = Vec::new();
    let mut i: usize = 0;
    while i < harnesses.len()
        invariant
            i <= harnesses@.len(),
            copy@ == harnesses@.take(i as int),
        decreases harnesses@.len() - i,
    {
        copy.push(harnesses[i]);
        i += 1;
    }
    proof {
        assert(harnesses@.take(harnesses@.len() as int) =~= harnesses@);
    }
    copy
}

pub proof fn lemma_runner_unique(runners: Seq<RunnerView>, i: int, name: Seq<char>)
    requires
        store::runners_wf(runners),
        0 <= i < runners.len(),
        runners[i].runner == name,
    ensures
        forall|k: int|
            0 <= k < runners.len() && (#[trigger] runners[k]).runner == name ==> k == i,
        epoch_of(runners, name) == runners[i].epoch,
{
    assert forall|k: int| 0 <= k < runners.len() && (#[trigger] runners[k]).runner
        == name implies k == i by {
        if k < i {
            assert(runners[k].runner != runners[i].runner);
        } else if i < k {
            assert(runners[i].runner != runners[k].runner);
        }
    }
}

impl Store {
    /// The epoch on record for a runner.
    pub fn runner_epoch(&self, name: &str) -> (epoch: Option<String>)
        requires
            store::runners_wf(self@.runners),
        ensures
            text::opt_text(epoch) == epoch_of(self@.runners, name@),
    {
        match self.find_runner(name) {
            Some(i) => {
                proof {
                    lemma_runner_unique(self@.runners, i as int, name@);
                }
                text::clone_opt(&self.runners[i].epoch)
            },
            None => None,
        }
    }

    /// Records that a runner asked for work.
    pub fn upsert_runner_seen(&mut self, request: &ClaimRequest, now: Timestamp)
        requires
            store::runners_wf(old(self)@.runners),
        ensures
            final(self)@ == (StoreView {
                runners: runners_seen(old(self)@.runners, request@, now),
                ..old(self)@
            }),
            store::runners_wf(final(self)@.runners),
    {
        let ghost start = self@;
        match self.find_runner(&request.runner) {
            Some(i) => {
                let ghost before = self.runners@;
                self.runners[i].last_seen = now;
                self.runners[i].harnesses = copy_harnesses(&request.harnesses);
                if request.epoch.is_some() {
                    self.runners[i].epoch = text::clone_opt(&request.epoch);
                }
                proof {
                    lemma_runner_unique(start.runners, i as int, request@.runner);
                    let goal = runners_seen(start.runners, request@, now);
                    assert forall|k: int| 0 <= k < goal.len() implies #[trigger] self@.runners[k]
                        == goal[k] by {
                        if k != i {
                            assert(self.runners@[k] == before[k]);
                        }
                    }
                    assert(self@.runners =~= goal);
                    assert forall|a: int, b: int| 0 <= a < b < goal.len() implies (
                    #[trigger] goal[a]).runner != (#[trigger] goal[b]).runner by {
                        assert(start.runners[a].runner != start.runners[b].runner);
                    }
                }
            },
            None => {
                self.runners.push(
                    RunnerRecord {
                        runner: request.runner.clone(),
                        last_seen: now,
                        harnesses: copy_harnesses(&request.harnesses),
                        active_turns: Vec::new(),
                        epoch: text::clone_opt(&request.epoch),
                    },
                );
                proof {
                    assert(self@.runners =~= runners_seen(start.runners, request@, now));
                }
            },
        }
    }
}

// ---------------------------------------------------------------------------
// Turns of runners that went away
// ---------------------------------------------------------------------------

/// The session of this identifier has no runner that is online.
pub open spec fn unattended(
    sessions: Seq<SessionView>,
    runners: Seq<RunnerView>,
    session: SessionId,
    now: Timestamp,
) -> bool {
    exists|i: int|
        0 <= i < sessions.len() && (#[trigger] sessions[i]).id == session && (match sessions[i].runner_affinity {
            Some(affinity) => !store::online(runners, affinity, now),
            None => true,
        })
}

/// A turn held by a runner that stopped being heard from is dead work.
pub open spec fn stale(
    sessions: Seq<SessionView>,
    runners: Seq<RunnerView>,
    now: Timestamp,
    turn: TurnRowView,
) -> bool {
    caller::is_held(turn.status) && unattended(sessions, runners, turn.session_id, now)
}

/// The turns after dead work was taken back.
pub open spec fn turns_reclaimed(
    sessions: Seq<SessionView>,
    turns: Seq<TurnRowView>,
    runners: Seq<RunnerView>,
    now: Timestamp,
) -> Seq<TurnRowView> {
    turns.map_values(
        |turn: TurnRowView|
            if stale(sessions, runners, now, turn) {
                release::given_back(turn)
            } else {
                turn
            },
    )
}

/// Whether there is dead work.
pub open spec fn any_stale(
    sessions: Seq<SessionView>,
    turns: Seq<TurnRowView>,
    runners: Seq<RunnerView>,
    now: Timestamp,
) -> bool {
    exists|i: int| 0 <= i < turns.len() && stale(sessions, runners, now, #[trigger] turns[i])
}

impl Store {
    /// Whether the session has no runner that is online.
    fn is_unattended(&self, session: SessionId, now: Timestamp) -> (yes: bool)
        requires
            store::runners_wf(self@.runners),
        ensures
            yes == unattended(self@.sessions, self@.runners, session, now),
    {
        let mut i: usize = 0;
        while i < self.sessions.len()
            invariant
                i <= self.sessions@.len(),
                store::runners_wf(self@.runners),
                forall|k: int|
                    0 <= k < i ==> !((#[trigger] self@.sessions[k]).id == session && (
                    match self@.sessions[k].runner_affinity {
                        Some(affinity) => !store::online(self@.runners, affinity, now),
                        None => true,
                    })),
            decreases self.sessions@.len() - i,
        {
            if self.sessions[i].id == session {
                let away: bool = match &self.sessions[i].runner_affinity {
                    Some(affinity) => self.runner_is_offline(affinity, now),
                    None => true,
                };
                if away {
                    assert(self@.sessions[i as int].id == session);
                    return true;
                }
            }
            i += 1;
        }
        false
    }

    /// Takes back every turn whose runner has stopped being heard from:
    /// without this the session is stuck behind the one-in-flight rule. Tells
    /// whether there was any.
    pub fn reclaim_stale_turns(&mut self, now: Timestamp) -> (any: bool)
        requires
            store::runners_wf(old(self)@.runners),
        ensures
            final(self)@ == (StoreView {
                turns: turns_reclaimed(
                    old(self)@.sessions,
                    old(self)@.turns,
                    old(self)@.runners,
                    now,
                ),
                ..old(self)@
            }),
            any == any_stale(old(self)@.sessions, old(self)@.turns, old(self)@.runners, now),
    {
        let ghost start = self@;
        let ghost goal = turns_reclaimed(start.sessions, start.turns, start.runners, now);
        let mut any: bool = false;
        let mut i: usize = 0;
        while i < self.turns.len()
            invariant
                i <= self.turns@.len() == start.turns.len() == goal.len(),
                self@.sessions == start.sessions,
                self@.runners == start.runners,
                store::runners_wf(start.runners),
                goal == turns_reclaimed(start.sessions, start.turns, start.runners, now),
                forall|k: int| 0 <= k < i ==> #[trigger] self@.turns[k] == goal[k],
                forall|k: int|
                    i <= k < start.turns.len() ==> #[trigger] self@.turns[k] == start.turns[k],
                any == exists|k: int|
                    0 <= k < i && stale(
                        start.sessions,
                        start.runners,
                        now,
                        #[trigger] start.turns[k],
                    ),
            decreases self.turns@.len() - i,
        {
            let ghost before = self.turns@;
            assert(self@.turns[i as int] == start.turns[i as int]);
            let dead: bool = caller::held(self.turns[i].status) && self.is_unattended(
                self.turns[i].session_id,
                now,
            );
            if dead {
                release::give_back(&mut self.turns[i]);
                any = true;
            }
            proof {
                assert(dead == stale(start.sessions, start.runners, now, start.turns[i as int]));
                assert(self@.turns[i as int] == goal[i as int]);
                assert forall|k: int| 0 <= k < start.turns.len() && k != i implies (
                #[trigger] self@.turns[k]) == store::turn_rows(before)[k] by {
                    assert(self.turns@[k] == before[k]);
                }
            }
            i += 1;
        }
        proof {
            assert(self@.turns =~= goal);
        }
        any
    }
}

// ---------------------------------------------------------------------------
// Choosing a turn
// ---------------------------------------------------------------------------

/// The lane a turn is played on: its own, else the session's.
pub open spec fn lane_of(turn: TurnRowView, session: SessionView) -> LaneView {
    match turn.lane_override {
        Some(lane) => lane,
        None => session.lane,
    }
}

/// The runner offers the harness that the turn is to be played on.
pub open spec fn offers(
    harnesses: Seq<Harness>,
    turn: TurnRowView,
    session: SessionView,
) -> bool {
    harnesses.contains(lane_of(turn, session).harness)
}

/// The session may go to this runner: its workspace is there, or nowhere yet,
/// or on a runner that is away.
pub open spec fn welcomes(
    runners: Seq<RunnerView>,
    session: SessionView,
    runner: Seq<char>,
    now: Timestamp,
) -> bool {
    match session.runner_affinity {
        Some(affinity) => affinity == runner || !store::online(runners, affinity, now),
        None => true,
    }
}

/// Some turn of the session is in flight.
pub open spec fn busy(turns: Seq<TurnRowView>, session: SessionId) -> bool {
    exists|i: int|
        0 <= i < turns.len() && (#[trigger] turns[i]).session_id == session && caller::is_held(
            turns[i].status,
        )
}

/// The session is active and this runner may play the turn in it.
pub open spec fn may_play(
    runners: Seq<RunnerView>,
    session: SessionView,
    turn: TurnRowView,
    request: ClaimRequestView,
    now: Timestamp,
) -> bool {
    &&& session.id == turn.session_id
    &&& session.status == SessionStatus::Active
    &&& offers(request.harnesses, turn, session)
    &&& welcomes(runners, session, request.runner, now)
}

/// The turn at `i` can be handed to the runner that asks.
pub open spec fn eligible(
    store: StoreView,
    request: ClaimRequestView,
    now: Timestamp,
    i: int,
) -> bool {
    &&& 0 <= i < store.turns.len()
    &&& store.turns[i].status == TurnStatus::Queued
    &&& !busy(store.turns, store.turns[i].session_id)
    &&& exists|k: int|
        0 <= k < store.sessions.len() && may_play(
            store.runners,
            #[trigger] store.sessions[k],
            store.turns[i],
            request,
            now,
        )
}

/// The turn at `i` is older than the one at `j`: created before it, or at the
/// same instant with an earlier place in its session or in the books.
pub open spec fn comes_first(turns: Seq<TurnRowView>, i: int, j: int) -> bool {
    let a = turns[i];
    let b = turns[j];
    a.created_at < b.created_at || (a.created_at == b.created_at && (a.seq < b.seq || (a.seq
        == b.seq && i < j)))
}

/// The turn at `i` is the oldest that can be handed out.
pub open spec fn next_up(
    store: StoreView,
    request: ClaimRequestView,
    now: Timestamp,
    i: int,
) -> bool {
    &&& eligible(store, request, now, i)
    &&& forall|j: int|
        #[trigger] eligible(store, request, now, j) && j != i ==> comes_first(store.turns, i, j)
}

impl Store {
    /// Whether some turn of the session is in flight.
    pub fn session_busy(&self, session: SessionId) -> (yes: bool)
        ensures
            yes == busy(self@.turns, session),
    {
        let mut i: usize = 0;
        while i < self.turns.len()
            invariant
                i <= self.turns@.len(),
                forall|k: int|
                    0 <= k < i ==> !((#[trigger] self@.turns[k]).session_id == session
                        && caller::is_held(self@.turns[k].status)),
            decreases self.turns@.len() - i,
        {
            if self.turns[i].session_id == session && caller::held(self.turns[i].status) {
                assert(self@.turns[i as int].session_id == session);
                return true;
            }
            i += 1;
        }
        false
    }

    /// Whether the runner may play the turn at `i` in the session at `k`.
    fn can_play(&self, k: usize, i: usize, request: &ClaimRequest, now: Timestamp) -> (yes: bool)
        requires
            store::runners_wf(self@.runners),
            k < self.sessions@.len(),
            i < self.turns@.len(),
        ensures
            yes == may_play(
                self@.runners,
                self@.sessions[k as int],
                self@.turns[i as int],
                request@,
                now,
            ),
    {
        let session: &Session = &self.sessions[k];
        let turn: &TurnRow = &self.turns[i];
        if session.id != turn.session_id || session.status != SessionStatus::Active
            || !harness_offered(turn, session, &request.harnesses) {
            return false;
        }
        match &session.runner_affinity {
            Some(affinity) => text::same_text(affinity, &request.runner) || self.runner_is_offline(
                affinity,
                now,
            ),
            None => true,
        }
    }

    /// Whether the turn at `i` can be handed to the runner that asks.
    fn can_claim(&self, i: usize, request: &ClaimRequest, now: Timestamp) -> (yes: bool)
        requires
            store::runners_wf(self@.runners),
            i < self.turns@.len(),
        ensures
            yes == eligible(self@, request@, now, i as int),
    {
        if self.turns[i].status != TurnStatus::Queued || self.session_busy(
            self.turns[i].session_id,
        ) {
            return false;
        }
        let mut k: usize = 0;
        while k < self.sessions.len()
            invariant
                k <= self.sessions@.len(),
                i < self.turns@.len(),
                store::runners_wf(self@.runners),
                self@.turns[i as int].status == TurnStatus::Queued,
                !busy(self@.turns, self@.turns[i as int].session_id),
                forall|m: int|
                    0 <= m < k ==> !may_play(
                        self@.runners,
                        #[trigger] self@.sessions[m],
                        self@.turns[i as int],
                        request@,
                        now,
                    ),
            decreases self.sessions@.len() - k,
        {
            if self.can_play(k, i, request, now) {
                assert(may_play(
                    self@.runners,
                    self@.sessions[k as int],
                    self@.turns[i as int],
                    request@,
                    now,
                ));
                return true;
            }
            k += 1;
        }
        false
    }

    /// The oldest turn that can be handed to the runner that asks.
    pub fn next_claim(&self, request: &ClaimRequest, now: Timestamp) -> (next: Option<usize>)
        requires
            store::runners_wf(self@.runners),
        ensures
            match next {
                Some(i) => next_up(self@, request@, now, i as int),
                None => forall|j: int| !#[trigger] eligible(self@, request@, now, j),
            },
    {
        let mut best: Option<usize> = None;
        let mut i: usize = 0;
        while i < self.turns.len()
            invariant
                i <= self.turns@.len(),
                store::runners_wf(self@.runners),
                match best {
                    Some(b) => {
                        &&& b < i
                        &&& eligible(self@, request@, now, b as int)
                        &&& forall|j: int|
                            0 <= j < i && #[trigger] eligible(self@, request@, now, j) && j != b
                                ==> comes_first(self@.turns, b as int, j)
                    },
                    None => forall|j: int|
                        0 <= j < i ==> !#[trigger] eligible(self@, request@, now, j),
                },
            decreases self.turns@.len() - i,
        {
            if self.can_claim(i, request, now) {
                let better: bool = match best {
                    Some(b) => {
                        let old: &TurnRow = &self.turns[b];
                        let new: &TurnRow = &self.turns[i];
                        new.created_at < old.created_at || (new.created_at == old.created_at
                            && new.seq < old.seq)
                    },
                    None => true,
                };
                if better {
                    best = Some(i);
                }
            }
            i += 1;
        }
        best
    }
}

/// Whether the runner offers the harness that the turn is to be played on.
pub fn harness_offered(turn: &TurnRow, session: &Session, harnesses: &Vec<Harness>) -> (yes: bool)
    ensures
        yes == offers(harnesses@, turn@, session@),
{
    let lane: &Lane = match &turn.lane_override {
        Some(lane) => lane,
        None => &session.lane,
    };
    let mut i: usize = 0;
    while i < harnesses.len()
        invariant
            i <= harnesses@.len(),
            lane@ == lane_of(turn@, session@),
            forall|k: int| 0 <= k < i ==> harnesses@[k] != lane.harness,
        decreases harnesses@.len() - i,
    {
        if harnesses[i] == lane.harness {
            assert(harnesses@[i as int] == lane_of(turn@, session@).harness);
            return true;
        }
        i += 1;
    }
    false
}

// ---------------------------------------------------------------------------
// What comes with a claimed turn
// ---------------------------------------------------------------------------

/// An earlier turn of the session that left a resume token.
pub open spec fn left_token(turn: TurnRowView, session: SessionId, before_seq: i64) -> bool {
    turn.session_id == session && turn.seq < before_seq && turn.resume_token is Some
}

/// The newest resume token that the session produced before `before_seq`.
pub open spec fn is_latest_token(
    turns: Seq<TurnRowView>,
    session: SessionId,
    before_seq: i64,
    token: Option<Seq<char>>,
) -> bool {
    match token {
        Some(_) => exists|i: int|
            0 <= i < turns.len() && left_token(#[trigger] turns[i], session, before_seq)
                && turns[i].resume_token == token && forall|j: int|
                0 <= j < turns.len() && left_token(#[trigger] turns[j], session, before_seq)
                    ==> turns[j].seq <= turns[i].seq,
        None => forall|j: int|
            0 <= j < turns.len() ==> !left_token(#[trigger] turns[j], session, before_seq),
    }
}

/// A turn that came to an end, for now or for good.
pub open spec fn is_finished(status: TurnStatus) -> bool {
    caller::is_terminal(status) || status == TurnStatus::Capped
}

/// An earlier turn of the session that came to an end.
pub open spec fn past(turn: TurnRowView, session: SessionId, before_seq: i64) -> bool {
    turn.session_id == session && turn.seq < before_seq && is_finished(turn.status)
}

/// What a later turn is told of this one.
pub open spec fn summary_of(turn: TurnRowView) -> SummaryView {
    SummaryView {
        input: turn.input,
        headline: match turn.envelope {
            Some(envelope) => Some(envelope.headline),
            None => None,
        },
    }
}

/// The summaries of the session's finished turns before `before_seq` among
/// the first `n`, in order.
pub open spec fn past_summaries(
    turns: Seq<TurnRowView>,
    session: SessionId,
    before_seq: i64,
    n: int,
) -> Seq<SummaryView>
    decreases n,
{
    if n <= 0 {
        Seq::empty()
    } else {
        let rest = past_summaries(turns, session, before_seq, n - 1);
        if past(turns[n - 1], session, before_seq) {
            rest.push(summary_of(turns[n - 1]))
        } else {
            rest
        }
    }
}

/// The last `limit` items of a sequence.
pub open spec fn last_of<A>(items: Seq<A>, limit: int) -> Seq<A> {
    if items.len() <= limit {
        items
    } else {
        items.skip(items.len() - limit)
    }
}

/// The session's most recent finished turns before `before_seq`, oldest first.
pub open spec fn hint(
    turns: Seq<TurnRowView>,
    session: SessionId,
    before_seq: i64,
) -> Seq<SummaryView> {
    last_of(
        past_summaries(turns, session, before_seq, turns.len() as int),
        store::HISTORY_HINT_LIMIT as int,
    )
}

/// The views of a list of summaries.
pub open spec fn summaries_view(summaries: Seq<TurnSummary>) -> Seq<SummaryView> {
    summaries.map_values(|summary: TurnSummary| summary@)
}

/// Whether a turn of this status came to an end.
fn finished(status: TurnStatus) -> (yes: bool)
    ensures
        yes == is_finished(status),
{
    match status {
        TurnStatus::Done | TurnStatus::Error | TurnStatus::Capped | TurnStatus::Cancelled => true,
        _ => false,
    }
}

/// What a later turn is told of this one.
fn summarize(turn: &TurnRow) -> (summary: TurnSummary)
    ensures
        summary@ == summary_of(turn@),
{
    TurnSummary {
        input: turn.input.clone(),
        headline: match &turn.envelope {
            Some(envelope) => Some(envelope.headline.clone()),
            None => None,
        },
    }
}

impl Store {
    /// The newest harness resume token this session produced before
    /// `before_seq`.
    pub fn latest_resume_token(&self, session: SessionId, before_seq: i64) -> (token: Option<
        String,
    >)
        ensures
            is_latest_token(self@.turns, session, before_seq, text::opt_text(token)),
    {
        let mut best: Option<usize> = None;
        let mut i: usize = 0;
        while i < self.turns.len()
            invariant
                i <= self.turns@.len(),
                match best {
                    Some(b) => {
                        &&& b < i
                        &&& left_token(self@.turns[b as int], session, before_seq)
                        &&& forall|j: int|
                            0 <= j < i && left_token(
                                #[trigger] self@.turns[j],
                                session,
                                before_seq,
                            ) ==> self@.turns[j].seq <= self@.turns[b as int].seq
                    },
                    None => forall|j: int|
                        0 <= j < i ==> !left_token(#[trigger] self@.turns[j], session, before_seq),
                },
            decreases self.turns@.len() - i,
        {
            let turn: &TurnRow = &self.turns[i];
            assert(turn@ == self@.turns[i as int]);
            if turn.session_id == session && turn.seq < before_seq && turn.resume_token.is_some() {
                let newer: bool = match best {
                    Some(b) => self.turns[b].seq < turn.seq,
                    None => true,
                };
                if newer {
                    best = Some(i);
                }
            }
            i += 1;
        }
        match best {
            Some(b) => {
                let token: Option<String> = text::clone_opt(&self.turns[b].resume_token);
                assert(left_token(self@.turns[b as int], session, before_seq));
                token
            },
            None => None,
        }
    }

    /// The session's most recent finished turns before `before_seq`, oldest
    /// first.
    pub fn history_hint(&self, session: SessionId, before_seq: i64) -> (summaries: Vec<TurnSummary>)
        ensures
            summaries_view(summaries@) == hint(self@.turns, session, before_seq),
    {
        let mut summaries: Vec<TurnSummary> = Vec::new();
        let ghost all: Seq<SummaryView> = Seq::empty();
        let mut i: usize = 0;
        while i < self.turns.len()
            invariant
                i <= self.turns@.len(),
                all == past_summaries(self@.turns, session, before_seq, i as int),
                summaries_view(summaries@) == last_of(all, store::HISTORY_HINT_LIMIT as int),
            decreases self.turns@.len() - i,
        {
            let turn: &TurnRow = &self.turns[i];
            assert(turn@ == self@.turns[i as int]);
            if turn.session_id == session && turn.seq < before_seq && finished(turn.status) {
                let ghost older = summaries@;
                summaries.push(summarize(turn));
                proof {
                    all = all.push(summary_of(turn@));
                    assert(summaries_view(summaries@) =~= summaries_view(older).push(
                        summary_of(turn@),
                    ));
                }
                let ghost grown = summaries@;
                if summaries.len() > store::HISTORY_HINT_LIMIT {
                    let _ = summaries.remove(0);
                    assert(summaries_view(summaries@) =~= summaries_view(grown).skip(1));
                }
                assert(summaries_view(summaries@) =~= last_of(
                    all,
                    store::HISTORY_HINT_LIMIT as int,
                ));
            }
            i += 1;
        }
        summaries
    }
}

// ---------------------------------------------------------------------------
// The claim
// ---------------------------------------------------------------------------

/// The books once a restarted runner's turns were released.
pub open spec fn after_restart(
    store: StoreView,
    request: ClaimRequestView,
    now: Timestamp,
) -> StoreView {
    if restarted(store.runners, request) {
        StoreView {
            turns: release::turns_released(
                store.sessions,
                store.turns,
                request.runner,
                Seq::empty(),
                now,
                0,
            ),
            ..store
        }
    } else {
        store
    }
}

/// The books once the runner that asks was recorded as seen.
pub open spec fn after_seen(
    store: StoreView,
    request: ClaimRequestView,
    now: Timestamp,
) -> StoreView {
    StoreView { runners: runners_seen(store.runners, request, now), ..store }
}

/// The books once dead work was taken back.
pub open spec fn after_reclaim(store: StoreView, now: Timestamp) -> StoreView {
    StoreView {
        turns: turns_reclaimed(store.sessions, store.turns, store.runners, now),
        ..store
    }
}

/// The books in which a claim picks its turn.
pub open spec fn prepared(
    store: StoreView,
    request: ClaimRequestView,
    now: Timestamp,
) -> StoreView {
    after_reclaim(after_seen(after_restart(store, request, now), request, now), now)
}

/// The session once its workspace is on the runner.
pub open spec fn moved_to(
    session: SessionView,
    runner: Seq<char>,
    now: Timestamp,
) -> SessionView {
    if session.runner_affinity == Some(runner) {
        session
    } else {
        SessionView { runner_affinity: Some(runner), updated_at: now, ..session }
    }
}

/// The books once the turn at `i` was handed to the runner.
pub open spec fn claimed(
    store: StoreView,
    request: ClaimRequestView,
    now: Timestamp,
    i: int,
) -> StoreView {
    let turn = store.turns[i];
    StoreView {
        sessions: store.sessions.map_values(
            |session: SessionView|
                if session.id == turn.session_id {
                    moved_to(session, request.runner, now)
                } else {
                    session
                },
        ),
        turns: store.turns.update(
            i,
            TurnRowView { status: TurnStatus::Claimed, started_at: Some(now), ..turn },
        ),
        ..store
    }
}

/// What the runner is handed with the turn at `i`: the turn, with the
/// session's last resume token where it has none of its own, the session, and
/// the session's recent turns.
pub open spec fn is_work(store: StoreView, i: int, work: WorkView) -> bool {
    let row = store.turns[i];
    &&& work.turn == TurnView { resume_token: work.turn.resume_token, ..store::turn_of(row) }
    &&& if row.resume_token is Some {
        work.turn.resume_token == row.resume_token
    } else {
        is_latest_token(store.turns, row.session_id, row.seq, work.turn.resume_token)
    }
    &&& exists|k: int|
        0 <= k < store.sessions.len() && (#[trigger] store.sessions[k]).id == row.session_id
            && work.session == store.sessions[k]
    &&& work.history_hint == hint(store.turns, row.session_id, row.seq)
}

/// The event that tells who plays a turn.
pub open spec fn claimed_event(turn: TurnRowView, runner: Seq<char>) -> BroadcastView {
    BroadcastView {
        session_id: Some(turn.session_id),
        event: EventView::TurnClaimed { turn_id: turn.id, runner },
    }
}

/// How a claim ends: with the oldest turn that the runner may play, or with
/// nothing where there is none. Either way the runner was seen, and what a
/// former process of it or a runner that is away left behind was given back.
pub open spec fn claim_ends(
    before: StoreView,
    request: ClaimRequestView,
    now: Timestamp,
    after: StoreView,
    work: Option<WorkView>,
    effects: EffectsView,
) -> bool {
    let ready = prepared(before, request, now);
    let restart = after_restart(before, request, now);
    let given_back = release::cancel_events(
        before.turns,
        restart.turns,
        None,
        before.turns.len() as int,
    );
    &&& effects.wake == {
        let seen = after_seen(restart, request, now);
        any_stale(seen.sessions, seen.turns, seen.runners, now)
    }
    &&& match work {
        Some(work) => exists|i: int| #[trigger]
            next_up(ready, request, now, i) && after == claimed(ready, request, now, i) && is_work(
                after,
                i,
                work,
            ) && effects.events == given_back.push(claimed_event(ready.turns[i], request.runner)),
        None => {
            &&& forall|i: int| !#[trigger] eligible(ready, request, now, i)
            &&& after == ready
            &&& effects.events == given_back
        },
    }
}

/// The books stay in order up to the choice of a turn.
pub proof fn lemma_prepared_wf(store: StoreView, request: ClaimRequestView, now: Timestamp)
    requires
        store::wf(store),
        store::runners_wf(runners_seen(store.runners, request, now)),
    ensures
        store::wf(after_restart(store, request, now)),
        store::wf(prepared(store, request, now)),
{
    let restart = after_restart(store, request, now);
    store::lemma_turns_keep_wf(store.sessions, store.turns, restart.turns);
    let seen = after_seen(restart, request, now);
    let ready = after_reclaim(seen, now);
    store::lemma_turns_keep_wf(seen.sessions, seen.turns, ready.turns);
}

/// Handing out a turn keeps the books in order.
pub proof fn lemma_claimed_wf(
    store: StoreView,
    request: ClaimRequestView,
    now: Timestamp,
    i: int,
)
    requires
        store::wf(store),
        eligible(store, request, now, i),
    ensures
        store::wf(claimed(store, request, now, i)),
{
    let after = claimed(store, request, now, i);
    assert(store::same_turns(store.turns, after.turns));
    assert forall|a: int, b: int| 0 <= a < b < after.turns.len() implies (
    #[trigger] after.turns[a]).id != (#[trigger] after.turns[b]).id by {
        assert(store.turns[a].id != store.turns[b].id);
    }
    assert forall|a: int| 0 <= a < after.turns.len() implies (#[trigger] after.turns[a]).seq
        == store::turns_before(after.turns, after.turns[a].session_id, a) + 1 by {
        store::lemma_same_turns_count(store.turns, after.turns, after.turns[a].session_id, a);
        assert(store.turns[a].seq == store::turns_before(
            store.turns,
            store.turns[a].session_id,
            a,
        ) + 1);
    }
    assert forall|a: int, b: int|
        0 <= a < b < after.turns.len() && caller::is_held((#[trigger] after.turns[a]).status)
            && caller::is_held((#[trigger] after.turns[b]).status) implies after.turns[a].session_id
        != after.turns[b].session_id by {
        assert(store.turns[a].id != store.turns[b].id);
    }
    lemma_sessions_moved_wf(store, request, now, i);
    assert forall|a: int| 0 <= a < after.turns.len() implies store::has_session(
        after.sessions,
        (#[trigger] after.turns[a]).session_id,
    ) by {
        assert(store::has_session(store.sessions, store.turns[a].session_id));
        let k = choose|k: int|
            0 <= k < store.sessions.len() && (#[trigger] store.sessions[k]).id
                == store.turns[a].session_id;
        assert(after.sessions[k].id == store.turns[a].session_id);
    }
}

proof fn lemma_sessions_moved_wf(
    store: StoreView,
    request: ClaimRequestView,
    now: Timestamp,
    i: int,
)
    requires
        store::sessions_wf(store.sessions),
    ensures
        store::sessions_wf(claimed(store, request, now, i).sessions),
{
    let after = claimed(store, request, now, i).sessions;
    assert forall|a: int, b: int| 0 <= a < b < after.len() implies (#[trigger] after[a]).id != (
    #[trigger] after[b]).id by {
        assert(store.sessions[a].id != store.sessions[b].id);
    }
    assert forall|a: int| 0 <= a < after.len() implies store::parent_comes_first(
        after,
        #[trigger] after[a],
        a,
    ) by {
        assert(store::parent_comes_first(store.sessions, store.sessions[a], a));
        if let Some(parent) = after[a].parent_id {
            let j = choose|j: int| 0 <= j < a && (#[trigger] store.sessions[j]).id == parent;
            assert(after[j].id == parent);
        }
    }
}

impl Store {
    /// Puts the workspace of the session at `k` on the runner.
    fn move_session(&mut self, k: usize, runner: &str, now: Timestamp)
        requires
            k < old(self).sessions@.len(),
        ensures
            final(self)@.turns == old(self)@.turns,
            final(self)@.runners == old(self)@.runners,
            final(self)@.sessions == old(self)@.sessions.update(
                k as int,
                moved_to(old(self)@.sessions[k as int], runner@, now),
            ),
    {
        let ghost before = self.sessions@;
        let there: bool = match &self.sessions[k].runner_affinity {
            Some(affinity) => text::same_text(affinity, runner),
            None => false,
        };
        if !there {
            self.sessions[k].runner_affinity = Some(runner.to_string());
            self.sessions[k].updated_at = now;
        }
        proof {
            let goal = store::session_rows(before).update(
                k as int,
                moved_to(store::session_rows(before)[k as int], runner@, now),
            );
            assert forall|m: int| 0 <= m < goal.len() implies (#[trigger] self@.sessions[m])
                == goal[m] by {
                if m != k {
                    assert(self.sessions@[m] == before[m]);
                }
            }
            assert(self@.sessions =~= goal);
        }
    }

    /// Marks the turn at `i` as handed out.
    fn mark_claimed(&mut self, i: usize, now: Timestamp)
        requires
            i < old(self).turns@.len(),
        ensures
            final(self)@.sessions == old(self)@.sessions,
            final(self)@.runners == old(self)@.runners,
            final(self)@.turns == old(self)@.turns.update(
                i as int,
                TurnRowView {
                    status: TurnStatus::Claimed,
                    started_at: Some(now),
                    ..old(self)@.turns[i as int]
                },
            ),
    {
        let ghost before = self.turns@;
        self.turns[i].status = TurnStatus::Claimed;
        self.turns[i].started_at = Some(now);
        proof {
            let rows = store::turn_rows(before);
            let goal = rows.update(
                i as int,
                TurnRowView {
                    status: TurnStatus::Claimed,
                    started_at: Some(now),
                    ..rows[i as int]
                },
            );
            assert forall|m: int| 0 <= m < goal.len() implies (#[trigger] self@.turns[m])
                == goal[m] by {
                if m != i {
                    assert(self.turns@[m] == before[m]);
                }
            }
            assert(self@.turns =~= goal);
        }
    }

    /// What the runner is handed with the turn at `i`.
    fn work(&self, i: usize) -> (work: ClaimedWork)
        requires
            store::wf(self@),
            i < self.turns@.len(),
        ensures
            is_work(self@, i as int, work@),
    {
        let row: &TurnRow = &self.turns[i];
        assert(row@ == self@.turns[i as int]);
        let mut turn = row.to_turn();
        if turn.resume_token.is_none() {
            turn.resume_token = self.latest_resume_token(row.session_id, row.seq);
        }
        let history_hint: Vec<TurnSummary> = self.history_hint(row.session_id, row.seq);
        assert(store::has_session(self@.sessions, row.session_id));
        let k: usize = match self.find_session(row.session_id) {
            Some(k) => k,
            None => {
                assert(false);
                0
            },
        };
        let session: Session = self.sessions[k].clone();
        assert(session@ == self@.sessions[k as int]);
        ClaimedWork { turn, session, history_hint }
    }

    /// Gives back what a former process of the runner or a runner that is
    /// away left behind, and records that this runner was seen.
    fn prepare(&mut self, request: &ClaimRequest, now: Timestamp) -> (effects: Effects)
        requires
            store::wf(old(self)@),
        ensures
            store::wf(final(self)@),
            final(self)@ == prepared(old(self)@, request@, now),
            effects@.events == release::cancel_events(
                old(self)@.turns,
                after_restart(old(self)@, request@, now).turns,
                None,
                old(self)@.turns.len() as int,
            ),
            effects@.wake == ({
                let seen = after_seen(after_restart(old(self)@, request@, now), request@, now);
                any_stale(seen.sessions, seen.turns, seen.runners, now)
            }),
    {
        let ghost start = self@;
        let previous: Option<String> = self.runner_epoch(&request.runner);
        let new_process: bool = match (&request.epoch, &previous) {
            (Some(epoch), Some(previous)) => !text::same_text(epoch, previous),
            _ => false,
        };
        assert(new_process == restarted(start.runners, request@));
        let mut events: Vec<Broadcast> = Vec::new();
        if new_process {
            let none: Vec<u128> = Vec::new();
            assert(none@ =~= Seq::empty());
            events = self.release_turns_not_held(&request.runner, &none, now, 0);
        }
        proof {
            assert(self@ =~= after_restart(start, request@, now));
            if !new_process {
                lemma_no_cancel_events(start.turns, start.turns.len() as int);
                assert(store::events_view(events@) =~= Seq::empty());
            }
        }
        self.upsert_runner_seen(request, now);
        let wake: bool = self.reclaim_stale_turns(now);
        proof {
            assert(self@ =~= prepared(start, request@, now));
            lemma_prepared_wf(start, request@, now);
        }
        Effects { events, wake }
    }

    /// Hands the turn at `i` to the runner.
    fn claim_at(&mut self, i: usize, request: &ClaimRequest, now: Timestamp) -> (work: ClaimedWork)
        requires
            store::wf(old(self)@),
            eligible(old(self)@, request@, now, i as int),
        ensures
            store::wf(final(self)@),
            final(self)@ == claimed(old(self)@, request@, now, i as int),
            is_work(final(self)@, i as int, work@),
    {
        let ghost ready = self@;
        let session_id: SessionId = self.turns[i].session_id;
        assert(store::has_session(ready.sessions, ready.turns[i as int].session_id));
        self.mark_claimed(i, now);
        let k: usize = match self.find_session(session_id) {
            Some(k) => k,
            None => {
                assert(false);
                0
            },
        };
        self.move_session(k, &request.runner, now);
        proof {
            let goal = claimed(ready, request@, now, i as int);
            assert forall|m: int| 0 <= m < goal.sessions.len() implies (
            #[trigger] self@.sessions[m]) == goal.sessions[m] by {
                if m < k {
                    assert(ready.sessions[m].id != ready.sessions[k as int].id);
                } else if k < m {
                    assert(ready.sessions[k as int].id != ready.sessions[m].id);
                }
            }
            assert(self@.sessions =~= goal.sessions);
            assert(self@ =~= goal);
            assert(self@.turns.len() == self.turns@.len());
            lemma_claimed_wf(ready, request@, now, i as int);
        }
        self.work(i)
    }

    /// Hands the oldest turn that the runner may play to it.
    ///
    /// A runner that restarted arrives with a fresh epoch: whatever its
    /// previous process was holding is dead work, released at once rather
    /// than after the online window, which the new process keeps alive.
    pub fn try_claim(&mut self, request: &ClaimRequest, now: Timestamp) -> (outcome: (
        Option<ClaimedWork>,
        Effects,
    ))
        requires
            store::wf(old(self)@),
        ensures
            store::wf(final(self)@),
            claim_ends(
                old(self)@,
                request@,
                now,
                final(self)@,
                opt_work(outcome.0),
                outcome.1@,
            ),
    {
        let Effects { mut events, wake } = self.prepare(request, now);
        let ghost ready = self@;
        match self.next_claim(request, now) {
            Some(i) => {
                let session_id: SessionId = self.turns[i].session_id;
                let turn_id: u128 = self.turns[i].id;
                let work: ClaimedWork = self.claim_at(i, request, now);
                let ghost sent = events@;
                events.push(
                    Broadcast {
                        session_id: Some(session_id),
                        event: Event::TurnClaimed { turn_id, runner: request.runner.clone() },
                    },
                );
                proof {
                    assert(store::events_view(events@) =~= store::events_view(sent).push(
                        claimed_event(ready.turns[i as int], request@.runner),
                    ));
                    assert(next_up(ready, request@, now, i as int));
                }
                (Some(work), Effects { events, wake })
            },
            None => (None, Effects { events, wake }),
        }
    }
}

/// The view of optional work.
pub open spec fn opt_work(work: Option<ClaimedWork>) -> Option<WorkView> {
    match work {
        Some(work) => Some(work@),
        None => None,
    }
}

/// Where nothing changes there is nothing to tell.
pub proof fn lemma_no_cancel_events(turns: Seq<TurnRowView>, n: int)
    ensures
        release::cancel_events(turns, turns, None, n) == Seq::<BroadcastView>::empty(),
    decreases n,
{
    if n > 0 {
        lemma_no_cancel_events(turns, n - 1);
    }
}

} // verus!
