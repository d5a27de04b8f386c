//! Runners: heartbeats, who is online, and the claim they hold open.

use vstd::prelude::*;

use crate::claims;
use crate::order;
use crate::protocol::{
    ClaimRequest, ClaimResponse, Event, Heartbeat, RunnerStatusInfo, Timestamp, TurnId,
};
use crate::protocol::{EventView, HeartbeatView, RunnerStatusView, WorkView};
use crate::release;
use crate::store;
use crate::store::{ApiError, Broadcast, Effects, RunnerRecord, Store};
use crate::store::{BroadcastView, EffectsView, ErrorView, RunnerView, StoreView};
use crate::text;

verus! {

// ---------------------------------------------------------------------------
// Heartbeats
// ---------------------------------------------------------------------------

/// The runners after a heartbeat: seen now, with the turns it says it holds.
pub open spec fn runners_beat(
    runners: Seq<RunnerView>,
    beat: HeartbeatView,
    now: Timestamp,
) -> Seq<RunnerView> {
    if store::has_runner(runners, beat.runner) {
        runners.map_values(
            |runner: RunnerView|
                if runner.runner == beat.runner {
                    RunnerView { last_seen: now, active_turns: beat.active_turns, ..runner }
                } else {
                    runner
                },
        )
    } else {
        runners.push(
            RunnerView {
                runner: beat.runner,
                last_seen: now,
                harnesses: Seq::empty(),
                active_turns: beat.active_turns,
                epoch: None,
            },
        )
    }
}

/// Only the process that the caller believes owns a runner's name may say
/// what the runner holds. A heartbeat without an epoch from a runner that
/// claimed with one is an older binary or a leftover.
pub open spec fn authoritative(runners: Seq<RunnerView>, beat: HeartbeatView) -> bool {
    beat.epoch == claims::epoch_of(runners, beat.runner)
}

/// The books after a heartbeat. What an authoritative one does not list is
/// released, after the grace.
pub open spec fn after_beat(store: StoreView, beat: HeartbeatView, now: Timestamp) -> StoreView {
    StoreView {
        runners: runners_beat(store.runners, beat, now),
        turns: if authoritative(store.runners, beat) {
            release::turns_released(
                store.sessions,
                store.turns,
                beat.runner,
                beat.active_turns,
                now,
                store::HELD_TURN_GRACE_SECS as int,
            )
        } else {
            store.turns
        },
        ..store
    }
}

/// The event that tells of a runner that was heard from.
pub open spec fn beat_event(beat: HeartbeatView, now: Timestamp) -> BroadcastView {
    BroadcastView {
        session_id: None,
        event: EventView::RunnerStatus {
            runner: RunnerStatusView {
                runner: beat.runner,
                online: true,
                last_seen: now,
                active_turns: beat.active_turns.len() as u32,
            },
        },
    }
}

/// A copy of a list of turns.
fn copy_turns(turns: &Vec<TurnId>) -> (copy: Vec<TurnId>)
    ensures
        copy@ == turns@,
{
    let mut copy: Vec<TurnId> = Vec::new();
    let mut i: usize = 0;
    while i < turns.len()
        invariant
            i <= turns@.len(),
            copy@ == turns@.take(i as int),
        decreases turns@.len() - i,
    {
        copy.push(turns[i]);
        i += 1;
    }
    proof {
        assert(turns@.take(turns@.len() as int) =~= turns@);
    }
    copy
}

/// A heartbeat leaves the epoch on record as it was.
proof fn lemma_beat_keeps_epoch(runners: Seq<RunnerView>, beat: HeartbeatView, now: Timestamp)
    requires
        store::runners_wf(runners),
    ensures
        store::runners_wf(runners_beat(runners, beat, now)),
        claims::epoch_of(runners_beat(runners, beat, now), beat.runner) == claims::epoch_of(
            runners,
            beat.runner,
        ),
{
    let after = runners_beat(runners, beat, now);
    assert forall|a: int, b: int| 0 <= a < b < after.len() implies (#[trigger] after[a]).runner != (
    #[trigger] after[b]).runner by {
        if b < runners.len() {
            assert(runners[a].runner != runners[b].runner);
        }
    }
    if store::has_runner(runners, beat.runner) {
        let i = choose|i: int|
            0 <= i < runners.len() && (#[trigger] runners[i]).runner == beat.runner;
        claims::lemma_runner_unique(runners, i, beat.runner);
        claims::lemma_runner_unique(after, i, beat.runner);
    } else {
        claims::lemma_runner_unique(after, runners.len() as int, beat.runner);
    }
}

/// What a heartbeat comes to: the books afterwards, with what is broadcast, or
/// the refusal.
pub open spec fn beat_ends(
    before: StoreView,
    beat: HeartbeatView,
    now: Timestamp,
    after: StoreView,
    outcome: Result<EffectsView, ErrorView>,
) -> bool {
    match outcome {
        Ok(effects) => {
            &&& !text::is_blank(beat.runner)
            &&& after == after_beat(before, beat, now)
            &&& effects.events == release::cancel_events(
                before.turns,
                after.turns,
                None,
                before.turns.len() as int,
            ).push(beat_event(beat, now))
            &&& effects.wake == authoritative(before.runners, beat)
        },
        Err(error) => {
            &&& text::is_blank(beat.runner)
            &&& error == store::unprocessable_error("runner is required"@)
            &&& after == before
        },
    }
}

impl Store {
    /// Records a heartbeat.
    fn upsert_beat(&mut self, beat: &Heartbeat, now: Timestamp)
        requires
            store::runners_wf(old(self)@.runners),
        ensures
            final(self)@ == (StoreView {
                runners: runners_beat(old(self)@.runners, beat@, now),
                ..old(self)@
            }),
            store::runners_wf(final(self)@.runners),
    {
        let ghost start = self@;
        proof {
            lemma_beat_keeps_epoch(start.runners, beat@, now);
        }
        match self.find_runner(&beat.runner) {
            Some(i) => {
                let ghost before = self.runners@;
                self.runners[i].last_seen = now;
                self.runners[i].active_turns = copy_turns(&beat.active_turns);
                proof {
                    claims::lemma_runner_unique(start.runners, i as int, beat@.runner);
                    let goal = runners_beat(start.runners, beat@, now);
                    assert forall|k: int| 0 <= k < goal.len() implies #[trigger] self@.runners[k]
                        == goal[k] by {
                        if k != i {
                            assert(self.runners@[k] == before[k]);
                        }
                    }
                    assert(self@.runners =~= goal);
                }
            },
            None => {
                self.runners.push(
                    RunnerRecord {
                        runner: beat.runner.clone(),
                        last_seen: now,
                        harnesses: Vec::new(),
                        active_turns: copy_turns(&beat.active_turns),
                        epoch: None,
                    },
                );
                proof {
                    assert(self@.runners =~= runners_beat(start.runners, beat@, now));
                }
            },
        }
    }

    /// Takes a heartbeat.
    ///
    /// A runner that restarted comes back under the same name within the
    /// online window, so it is never away; its heartbeat says which turns it
    /// actually holds, and the rest of what it was assigned is given back.
    pub fn heartbeat(&mut self, beat: &Heartbeat, now: Timestamp) -> (outcome: Result<
        Effects,
        ApiError,
    >)
        requires
            store::wf(old(self)@),
        ensures
            store::wf(final(self)@),
            beat_ends(
                old(self)@,
                beat@,
                now,
                final(self)@,
                match outcome {
                    Ok(effects) => Ok(effects@),
                    Err(error) => Err(error@),
                },
            ),
    {
        let ghost start = self@;
        if text::blank(&beat.runner) {
            return Err(ApiError::unprocessable("runner is required"));
        }
        self.upsert_beat(beat, now);
        proof {
            lemma_beat_keeps_epoch(start.runners, beat@, now);
        }
        let current: Option<String> = self.runner_epoch(&beat.runner);
        let trusted: bool = text::same_opt(&beat.epoch, &current);
        let mut events: Vec<Broadcast> = Vec::new();
        if trusted {
            events = self.release_turns_not_held(
                &beat.runner,
                &beat.active_turns,
                now,
                store::HELD_TURN_GRACE_SECS,
            );
        }
        proof {
            assert(self@ =~= after_beat(start, beat@, now));
            store::lemma_turns_keep_wf(start.sessions, start.turns, self@.turns);
            if !trusted {
                claims::lemma_no_cancel_events(start.turns, start.turns.len() as int);
                assert(store::events_view(events@) =~= Seq::empty());
            }
        }
        let ghost sent = events@;
        #[verifier::truncate]
        let active_turns: u32 = beat.active_turns.len() as u32;
        events.push(
            Broadcast {
                session_id: None,
                event: Event::RunnerStatus {
                    runner: RunnerStatusInfo {
                        runner: beat.runner.clone(),
                        online: true,
                        last_seen: now,
                        active_turns,
                    },
                },
            },
        );
        assert(store::events_view(events@) =~= store::events_view(sent).push(
            beat_event(beat@, now),
        ));
        Ok(Effects { events, wake: trusted })
    }
}

// ---------------------------------------------------------------------------
// Who is online
// ---------------------------------------------------------------------------

/// What the client is shown of a runner.
pub open spec fn status_of(runner: RunnerView, now: Timestamp) -> RunnerStatusView {
    RunnerStatusView {
        runner: runner.runner,
        online: !store::older_than(runner.last_seen, now, store::ONLINE_WINDOW_SECS as int),
        last_seen: runner.last_seen,
        active_turns: runner.active_turns.len() as u32,
    }
}

/// What the client is shown of a runner.
pub fn runner_info(runner: &RunnerRecord, now: Timestamp) -> (info: RunnerStatusInfo)
    ensures
        info@ == status_of(runner@, now),
{
    #[verifier::truncate]
    let active_turns: u32 = runner.active_turns.len() as u32;
    RunnerStatusInfo {
        runner: runner.runner.clone(),
        online: !store::elapsed(runner.last_seen, now, store::ONLINE_WINDOW_SECS),
        last_seen: runner.last_seen,
        active_turns,
    }
}

/// The runners as the client is shown them.
pub open spec fn statuses(runners: Seq<RunnerView>, now: Timestamp) -> Seq<RunnerStatusView> {
    runners.map_values(|runner: RunnerView| status_of(runner, now))
}

/// What is listed: every runner as it is shown, the one seen last first.
pub open spec fn is_runner_list(
    runners: Seq<RunnerView>,
    now: Timestamp,
    listed: Seq<RunnerStatusView>,
) -> bool {
    order::is_by_newest(
        statuses(runners, now),
        |runner: RunnerStatusView| Some(runner.last_seen),
        listed,
    )
}

impl Store {
    /// Every runner that was ever seen, the most recently seen first.
    pub fn list_runners(&self, now: Timestamp) -> (listed: Vec<RunnerStatusInfo>)
        ensures
            is_runner_list(
                self@.runners,
                now,
                listed@.map_values(|info: RunnerStatusInfo| info@),
            ),
    {
        let ghost time = |runner: RunnerStatusView| Some(runner.last_seen);
        let ghost rows = statuses(self@.runners, now);
        let mut times: Vec<Option<Timestamp>> = Vec::new();
        let mut i: usize = 0;
        while i < self.runners.len()
            invariant
                i <= self.runners@.len(),
                time == (|runner: RunnerStatusView| Some(runner.last_seen)),
                rows == statuses(self@.runners, now),
                times@ == rows.map_values(time).take(i as int),
            decreases self.runners@.len() - i,
        {
            times.push(Some(self.runners[i].last_seen));
            proof {
                let all = rows.map_values(time);
                assert(all[i as int] == Some(self.runners@[i as int].last_seen));
                assert(all.take(i + 1) =~= all.take(i as int).push(all[i as int]));
            }
            i += 1;
        }
        proof {
            assert(times@ =~= rows.map_values(time));
        }
        let sorted: Vec<usize> = order::newest_first(&times);
        let mut listed: Vec<RunnerStatusInfo> = Vec::new();
        let mut k: usize = 0;
        let ghost view = |info: RunnerStatusInfo| info@;
        assert(listed@.map_values(view) =~= order::arranged(rows, order::places(sorted@)).take(0));
        while k < sorted.len()
            invariant
                k <= sorted@.len(),
                view == (|info: RunnerStatusInfo| info@),
                rows == statuses(self@.runners, now),
                times@.len() == self.runners@.len(),
                order::is_newest_first(times@, order::places(sorted@)),
                listed@.map_values(view) == order::arranged(rows, order::places(sorted@)).take(
                    k as int,
                ),
            decreases sorted@.len() - k,
        {
            let ghost before = listed@;
            assert(order::places(sorted@)[k as int] == sorted@[k as int] as int);
            listed.push(runner_info(&self.runners[sorted[k]], now));
            proof {
                let all = order::arranged(rows, order::places(sorted@));
                assert(listed@.map_values(view) =~= before.map_values(view).push(all[k as int]));
                assert(all.take(k + 1) =~= all.take(k as int).push(all[k as int]));
            }
            k += 1;
        }
        proof {
            let all = order::arranged(rows, order::places(sorted@));
            assert(all.take(k as int) =~= all);
            assert(order::is_newest_first(rows.map_values(time), order::places(sorted@)));
        }
        listed
    }
}

// ---------------------------------------------------------------------------
// The held claim
// ---------------------------------------------------------------------------

/// What to do with a claim: answer it, or hold it open for so many seconds,
/// trying again whenever held claims are woken, and then answer it empty.
#[derive(Debug, PartialEq)]
pub enum ClaimStep {
    Answer { response: ClaimResponse },
    Hold { seconds: u32 },
}

/// How long a claim is held open.
pub open spec fn hold_seconds(wait: u32) -> u32 {
    if wait < store::CLAIM_WAIT_CAP_SECS {
        wait
    } else {
        store::CLAIM_WAIT_CAP_SECS
    }
}

/// What is done where there is no work for now.
pub open spec fn step_without(wait: u32) -> ClaimStep {
    if hold_seconds(wait) == 0 {
        ClaimStep::Answer { response: ClaimResponse::Empty }
    } else {
        ClaimStep::Hold { seconds: hold_seconds(wait) }
    }
}

/// The work that a step answers with, if it does.
pub open spec fn step_work(step: ClaimStep) -> Option<WorkView> {
    match step {
        ClaimStep::Answer { response: ClaimResponse::Work { work } } => Some(work@),
        _ => None,
    }
}

impl Store {
    /// A runner asks for work.
    pub fn claim_turn(&mut self, request: &ClaimRequest, now: Timestamp) -> (outcome: Result<
        (ClaimStep, Effects),
        ApiError,
    >)
        requires
            store::wf(old(self)@),
        ensures
            store::wf(final(self)@),
            match outcome {
                Ok((step, effects)) => {
                    &&& !text::is_blank(request@.runner)
                    &&& claims::claim_ends(
                        old(self)@,
                        request@,
                        now,
                        final(self)@,
                        step_work(step),
                        effects@,
                    )
                    &&& step_work(step) is None ==> step == step_without(request.wait_seconds)
                },
                Err(error) => {
                    &&& text::is_blank(request@.runner)
                    &&& error@ == store::unprocessable_error("runner is required"@)
                    &&& final(self)@ == old(self)@
                },
            },
    {
        if text::blank(&request.runner) {
            return Err(ApiError::unprocessable("runner is required"));
        }
        let (work, effects) = self.try_claim(request, now);
        let step: ClaimStep = match work {
            Some(work) => ClaimStep::Answer { response: ClaimResponse::Work { work } },
            None => {
                let seconds: u32 = if request.wait_seconds < store::CLAIM_WAIT_CAP_SECS {
                    request.wait_seconds
                } else {
                    store::CLAIM_WAIT_CAP_SECS
                };
                if seconds == 0 {
                    ClaimStep::Answer { response: ClaimResponse::Empty }
                } else {
                    ClaimStep::Hold { seconds }
                }
            },
        };
        Ok((step, effects))
    }
}

} // verus!
