//! What a claim is for: the oldest message that may be played goes to the
//! runner that asks, with what its harness needs to go on.
//!
//! The laws speak of the rows of the books and of the answer, in numbers.

use vstd::prelude::*;

use crate::book_laws;
use crate::caller;
use crate::claims;
use crate::config;
use crate::protocol::{
    ClaimRequestView, EventView, HeartbeatView, LaneView, RunnerStatusView, SessionView,
    SummaryView, WorkView,
};
use crate::protocol::{
    ClaimResponse, SessionId, SessionStatus, Timestamp, TurnId, TurnStatus,
};
use crate::release;
use crate::runners;
use crate::runners::ClaimStep;
use crate::store;
use crate::store::{
    BroadcastView, EffectsView, ErrorView, RunnerView, StoreView, TurnRowView,
};
use crate::text;
use crate::turns;

verus! {

// ---------------------------------------------------------------------------
// Who may play what
// ---------------------------------------------------------------------------

/// Nobody plays a turn of the session.
pub open spec fn is_idle(turns: Seq<TurnRowView>, session: SessionId) -> bool {
    forall|m: int|
        0 <= m < turns.len() && (#[trigger] turns[m]).session_id == session ==> turns[m].status
            != TurnStatus::Claimed && turns[m].status != TurnStatus::Working
}

/// No runner of this name was heard from within the last minute.
pub open spec fn is_away(runners: Seq<RunnerView>, name: Seq<char>, now: Timestamp) -> bool {
    forall|r: int|
        0 <= r < runners.len() && (#[trigger] runners[r]).runner == name ==> now
            - runners[r].last_seen > 60_000_000_000
}

/// The session's workspace is with the runner that asks, with none, or with
/// one that is away.
pub open spec fn may_go_to(
    runners: Seq<RunnerView>,
    session: SessionView,
    runner: Seq<char>,
    now: Timestamp,
) -> bool {
    match session.runner_affinity {
        Some(affinity) => affinity == runner || is_away(runners, affinity, now),
        None => true,
    }
}

/// The turn at `j` waits in the session at `k`, and the runner that asks may
/// play it now.
pub open spec fn could_play(
    books: StoreView,
    request: ClaimRequestView,
    now: Timestamp,
    j: int,
    k: int,
) -> bool {
    &&& 0 <= j < books.turns.len()
    &&& 0 <= k < books.sessions.len()
    &&& books.turns[j].status == TurnStatus::Queued
    &&& is_idle(books.turns, books.turns[j].session_id)
    &&& books.sessions[k].id == books.turns[j].session_id
    &&& books.sessions[k].status == SessionStatus::Active
    &&& request.harnesses.contains(
        match books.turns[j].lane_override {
            Some(lane) => lane.harness,
            None => books.sessions[k].lane.harness,
        },
    )
    &&& may_go_to(books.runners, books.sessions[k], request.runner, now)
}

/// A minute after a runner was last heard from it is away, and no sooner.
pub proof fn a_runner_is_away_after_a_minute(
    runners: Seq<RunnerView>,
    name: Seq<char>,
    now: Timestamp,
)
    ensures
        store::online(runners, name, now) <==> !is_away(runners, name, now),
{
    if !is_away(runners, name, now) {
        let r = choose|r: int|
            0 <= r < runners.len() && (#[trigger] runners[r]).runner == name && now
                - runners[r].last_seen <= 60_000_000_000;
        assert(!store::older_than(runners[r].last_seen, now, store::ONLINE_WINDOW_SECS as int));
    }
}

proof fn lemma_could_be_handed(
    books: StoreView,
    request: ClaimRequestView,
    now: Timestamp,
    j: int,
    k: int,
)
    requires
        could_play(books, request, now, j, k),
    ensures
        claims::eligible(books, request, now, j),
{
    if let Some(affinity) = books.sessions[k].runner_affinity {
        a_runner_is_away_after_a_minute(books.runners, affinity, now);
    }
    assert(!claims::busy(books.turns, books.turns[j].session_id));
    assert(claims::may_play(books.runners, books.sessions[k], books.turns[j], request, now));
}

proof fn lemma_seen_keeps_away(
    runners: Seq<RunnerView>,
    request: ClaimRequestView,
    now: Timestamp,
    name: Seq<char>,
)
    requires
        name != request.runner,
    ensures
        is_away(runners, name, now) <==> is_away(
            claims::runners_seen(runners, request, now),
            name,
            now,
        ),
{
    let after = claims::runners_seen(runners, request, now);
    if is_away(runners, name, now) {
        assert forall|r: int| 0 <= r < after.len() && (#[trigger] after[r]).runner == name implies now
            - after[r].last_seen > 60_000_000_000 by {
            assert(r < runners.len());
            assert(runners[r].runner == name);
        }
    }
    if is_away(after, name, now) {
        assert forall|r: int|
            0 <= r < runners.len() && (#[trigger] runners[r]).runner == name implies now
            - runners[r].last_seen > 60_000_000_000 by {
            assert(after[r].runner == name);
        }
    }
}

/// What was waiting before a claim looked at the books waits when it picks.
proof fn lemma_still_waits(
    books: StoreView,
    request: ClaimRequestView,
    now: Timestamp,
    j: int,
    k: int,
)
    requires
        could_play(books, request, now, j, k),
    ensures
        could_play(claims::prepared(books, request, now), request, now, j, k),
        claims::prepared(books, request, now).turns[j] == books.turns[j],
{
    let ready = claims::prepared(books, request, now);
    assert(ready.turns[j] == books.turns[j]);
    assert forall|m: int|
        0 <= m < ready.turns.len() && (#[trigger] ready.turns[m]).session_id
            == books.turns[j].session_id implies ready.turns[m].status != TurnStatus::Claimed
        && ready.turns[m].status != TurnStatus::Working by {
        assert(books.turns[m].session_id == ready.turns[m].session_id);
    }
    if let Some(affinity) = books.sessions[k].runner_affinity {
        if affinity != request.runner {
            lemma_seen_keeps_away(books.runners, request, now, affinity);
        }
    }
}

// ---------------------------------------------------------------------------
// Which turn is handed out
// ---------------------------------------------------------------------------

/// Where a message waits that the runner may play, the claim hands one out, and
/// none that waits was posted before the one that is handed out.
pub proof fn no_older_message_is_passed_over(
    before: StoreView,
    request: ClaimRequestView,
    now: Timestamp,
    after: StoreView,
    work: Option<WorkView>,
    effects: EffectsView,
    j: int,
    k: int,
)
    requires
        claims::claim_ends(before, request, now, after, work, effects),
        could_play(before, request, now, j, k),
    ensures
        work is Some,
        work->0.turn.created_at <= before.turns[j].created_at,
        work->0.turn.created_at == before.turns[j].created_at ==> work->0.turn.seq
            <= before.turns[j].seq,
{
    let ready = claims::prepared(before, request, now);
    lemma_still_waits(before, request, now, j, k);
    lemma_could_be_handed(ready, request, now, j, k);
    let i = choose|i: int| #[trigger]
        claims::next_up(ready, request, now, i) && after == claims::claimed(ready, request, now, i)
            && claims::is_work(after, i, work->0);
    assert(after.turns[i].created_at == ready.turns[i].created_at);
    if i != j {
        assert(claims::eligible(ready, request, now, j));
    }
}

/// The same of every turn that is eligible once the claim has looked at the
/// books.
pub proof fn no_older_eligible_turn_is_passed_over(
    before: StoreView,
    request: ClaimRequestView,
    now: Timestamp,
    after: StoreView,
    work: WorkView,
    effects: EffectsView,
    j: int,
)
    requires
        claims::claim_ends(before, request, now, after, Some(work), effects),
        claims::eligible(claims::prepared(before, request, now), request, now, j),
    ensures
        !(claims::prepared(before, request, now).turns[j].created_at < work.turn.created_at),
{
    let ready = claims::prepared(before, request, now);
    let i = choose|i: int| #[trigger]
        claims::next_up(ready, request, now, i) && after == claims::claimed(ready, request, now, i)
            && claims::is_work(after, i, work);
    assert(after.turns[i].created_at == ready.turns[i].created_at);
    if i != j {
        assert(claims::eligible(ready, request, now, j));
    }
}

/// The turn at `i` was handed to the runner.
pub open spec fn is_handed(
    before: StoreView,
    after: StoreView,
    request: ClaimRequestView,
    now: Timestamp,
    work: WorkView,
    i: int,
) -> bool {
    &&& 0 <= i < before.turns.len()
    &&& before.turns.len() == after.turns.len()
    &&& work.turn.id == before.turns[i].id
    &&& work.turn.session_id == before.turns[i].session_id
    &&& work.turn.seq == before.turns[i].seq
    &&& work.turn.input == before.turns[i].input
    &&& work.turn.lane_override == before.turns[i].lane_override
    &&& work.turn.created_at == before.turns[i].created_at
    &&& work.turn.status == TurnStatus::Claimed
    &&& after.turns[i].status == TurnStatus::Claimed
    &&& after.turns[i].started_at == Some(now)
    &&& before.turns[i].status == TurnStatus::Queued || before.turns[i].status
        == TurnStatus::Claimed || before.turns[i].status == TurnStatus::Working
    &&& forall|m: int|
        0 <= m < after.turns.len() && m != i && (#[trigger] after.turns[m]).session_id
            == work.turn.session_id ==> after.turns[m].status != TurnStatus::Claimed
            && after.turns[m].status != TurnStatus::Working
}

/// The session at `k` is that of the turn, and it may go to the runner.
pub open spec fn is_its_session(
    before: StoreView,
    after: StoreView,
    request: ClaimRequestView,
    now: Timestamp,
    work: WorkView,
    k: int,
) -> bool {
    &&& 0 <= k < before.sessions.len()
    &&& before.sessions[k].id == work.turn.session_id
    &&& before.sessions[k].status == SessionStatus::Active
    &&& may_go_to(before.runners, before.sessions[k], request.runner, now)
    &&& work.session.title == before.sessions[k].title
    &&& work.session.profile == before.sessions[k].profile
    &&& work.session.lane == before.sessions[k].lane
    &&& work.session.runner_affinity == Some(request.runner)
    &&& request.harnesses.contains(
        match work.turn.lane_override {
            Some(lane) => lane.harness,
            None => before.sessions[k].lane.harness,
        },
    )
}

/// What a claim hands out is a turn of the books that waited or was given back:
/// it is in flight from then on, alone in its session, which is active, may go
/// to this runner, and belongs to it from then on.
pub proof fn a_claim_hands_out_a_free_turn(
    before: StoreView,
    request: ClaimRequestView,
    now: Timestamp,
    after: StoreView,
    work: WorkView,
    effects: EffectsView,
)
    requires
        store::wf(before),
        claims::claim_ends(before, request, now, after, Some(work), effects),
    ensures
        exists|i: int| #[trigger] is_handed(before, after, request, now, work, i),
        exists|k: int| #[trigger] is_its_session(before, after, request, now, work, k),
{
    let ready = claims::prepared(before, request, now);
    let i = choose|i: int| #[trigger]
        claims::next_up(ready, request, now, i) && after == claims::claimed(ready, request, now, i)
            && claims::is_work(after, i, work);
    assert(claims::eligible(ready, request, now, i));
    assert(before.turns[i].id == ready.turns[i].id);
    assert forall|m: int|
        0 <= m < after.turns.len() && m != i && (#[trigger] after.turns[m]).session_id
            == work.turn.session_id implies after.turns[m].status != TurnStatus::Claimed
        && after.turns[m].status != TurnStatus::Working by {
        assert(after.turns[m] == ready.turns[m]);
    }
    assert(is_handed(before, after, request, now, work, i));
    let k = choose|k: int|
        0 <= k < ready.sessions.len() && claims::may_play(
            ready.runners,
            #[trigger] ready.sessions[k],
            ready.turns[i],
            request,
            now,
        );
    let m = choose|m: int|
        0 <= m < after.sessions.len() && (#[trigger] after.sessions[m]).id
            == after.turns[i].session_id && work.session == after.sessions[m];
    assert(before.sessions[m].id == before.sessions[k].id);
    if m < k {
        assert(before.sessions[m].id != before.sessions[k].id);
    } else if k < m {
        assert(before.sessions[k].id != before.sessions[m].id);
    }
    if let Some(affinity) = before.sessions[k].runner_affinity {
        if affinity != request.runner {
            a_runner_is_away_after_a_minute(ready.runners, affinity, now);
            lemma_seen_keeps_away(before.runners, request, now, affinity);
        }
    }
    assert(is_its_session(before, after, request, now, work, k));
}

/// A claim leaves every turn that nobody plays and that it does not hand out
/// as it is, and every session but the one whose turn it hands out.
pub proof fn a_claim_leaves_the_rest(
    before: StoreView,
    request: ClaimRequestView,
    now: Timestamp,
    after: StoreView,
    work: Option<WorkView>,
    effects: EffectsView,
    m: int,
    k: int,
)
    requires
        store::wf(before),
        claims::claim_ends(before, request, now, after, work, effects),
        0 <= m < before.turns.len(),
        before.turns[m].status != TurnStatus::Claimed,
        before.turns[m].status != TurnStatus::Working,
        work is Some ==> before.turns[m].id != work->0.turn.id,
        0 <= k < before.sessions.len(),
        work is Some ==> before.sessions[k].id != work->0.turn.session_id,
    ensures
        after.turns.len() == before.turns.len(),
        after.turns[m] == before.turns[m],
        after.sessions.len() == before.sessions.len(),
        after.sessions[k] == before.sessions[k],
{
    let ready = claims::prepared(before, request, now);
    assert(ready.turns[m] == before.turns[m]);
    if work is Some {
        let i = choose|i: int| #[trigger]
            claims::next_up(ready, request, now, i) && after == claims::claimed(
                ready,
                request,
                now,
                i,
            ) && claims::is_work(after, i, work->0);
        assert(claims::eligible(ready, request, now, i));
        assert(ready.turns[i].id == work->0.turn.id);
    }
}

/// A claim is told on the feed of the session whose turn it hands out.
pub proof fn claims_are_announced(
    before: StoreView,
    request: ClaimRequestView,
    now: Timestamp,
    after: StoreView,
    work: WorkView,
    effects: EffectsView,
)
    requires
        claims::claim_ends(before, request, now, after, Some(work), effects),
    ensures
        effects.events.len() > 0,
        effects.events.last() == (BroadcastView {
            session_id: Some(work.turn.session_id),
            event: EventView::TurnClaimed { turn_id: work.turn.id, runner: request.runner },
        }),
{
}

/// A runner that asks is on record as seen now, with what it offers and its
/// epoch.
pub proof fn who_asks_is_recorded(
    before: StoreView,
    request: ClaimRequestView,
    now: Timestamp,
    after: StoreView,
    work: Option<WorkView>,
    effects: EffectsView,
)
    requires
        claims::claim_ends(before, request, now, after, work, effects),
        request.epoch is Some,
    ensures
        exists|r: int|
            0 <= r < after.runners.len() && (#[trigger] after.runners[r]).runner == request.runner
                && after.runners[r].last_seen == now && after.runners[r].harnesses
                == request.harnesses && after.runners[r].epoch == request.epoch,
{
    let ready = claims::prepared(before, request, now);
    assert(after.runners == ready.runners);
    if store::has_runner(before.runners, request.runner) {
        let r = choose|r: int|
            0 <= r < before.runners.len() && (#[trigger] before.runners[r]).runner
                == request.runner;
        assert(after.runners[r].runner == request.runner);
    } else {
        let r = before.runners.len() as int;
        assert(after.runners[r].runner == request.runner);
    }
}

// ---------------------------------------------------------------------------
// What comes with it
// ---------------------------------------------------------------------------

/// The token is that of the turn at `i`, an earlier turn of the session, and no
/// turn between it and `seq` left one.
pub open spec fn is_last_token(
    turns: Seq<TurnRowView>,
    session: SessionId,
    seq: i64,
    token: Option<Seq<char>>,
    i: int,
) -> bool {
    &&& 0 <= i < turns.len()
    &&& turns[i].session_id == session
    &&& turns[i].seq < seq
    &&& turns[i].resume_token == token
    &&& forall|m: int|
        0 <= m < turns.len() && (#[trigger] turns[m]).session_id == session && turns[i].seq
            < turns[m].seq < seq ==> turns[m].resume_token is None
}

proof fn lemma_last_token(
    before: Seq<TurnRowView>,
    after: Seq<TurnRowView>,
    session: SessionId,
    seq: i64,
    token: Option<Seq<char>>,
)
    requires
        before.len() == after.len(),
        forall|m: int|
            0 <= m < before.len() ==> (#[trigger] after[m]).session_id == before[m].session_id
                && after[m].seq == before[m].seq && after[m].resume_token
                == before[m].resume_token,
        claims::is_latest_token(after, session, seq, token),
    ensures
        match token {
            Some(_) => exists|i: int| #[trigger] is_last_token(before, session, seq, token, i),
            None => forall|m: int|
                0 <= m < before.len() && (#[trigger] before[m]).session_id == session
                    && before[m].seq < seq ==> before[m].resume_token is None,
        },
{
    if token is Some {
        let t = choose|t: int|
            0 <= t < after.len() && claims::left_token(#[trigger] after[t], session, seq)
                && after[t].resume_token == token && forall|j: int|
                0 <= j < after.len() && claims::left_token(#[trigger] after[j], session, seq)
                    ==> after[j].seq <= after[t].seq;
        assert forall|m: int|
            0 <= m < before.len() && (#[trigger] before[m]).session_id == session && before[t].seq
                < before[m].seq < seq implies before[m].resume_token is None by {
            assert(after[m].seq == before[m].seq);
        }
        assert(is_last_token(before, session, seq, token, t));
    } else {
        assert forall|m: int|
            0 <= m < before.len() && (#[trigger] before[m]).session_id == session && before[m].seq
                < seq implies before[m].resume_token is None by {
            assert(after[m].seq == before[m].seq);
        }
    }
}

/// A claimed turn resumes where its session's last turn with a token left off;
/// without such a turn it starts afresh.
pub proof fn a_turn_resumes_its_sessions_last_token(
    before: StoreView,
    request: ClaimRequestView,
    now: Timestamp,
    after: StoreView,
    work: WorkView,
    effects: EffectsView,
)
    requires
        store::wf(before),
        claims::claim_ends(before, request, now, after, Some(work), effects),
        forall|m: int|
            0 <= m < before.turns.len() && (#[trigger] before.turns[m]).id == work.turn.id
                ==> before.turns[m].resume_token is None,
    ensures
        match work.turn.resume_token {
            Some(_) => exists|i: int| #[trigger]
                is_last_token(
                    before.turns,
                    work.turn.session_id,
                    work.turn.seq,
                    work.turn.resume_token,
                    i,
                ),
            None => forall|m: int|
                0 <= m < before.turns.len() && (#[trigger] before.turns[m]).session_id
                    == work.turn.session_id && before.turns[m].seq < work.turn.seq
                    ==> before.turns[m].resume_token is None,
        },
{
    let ready = claims::prepared(before, request, now);
    let i = choose|i: int| #[trigger]
        claims::next_up(ready, request, now, i) && after == claims::claimed(ready, request, now, i)
            && claims::is_work(after, i, work);
    assert(claims::eligible(ready, request, now, i));
    assert(before.turns[i].id == work.turn.id);
    assert(after.turns[i].resume_token is None);
    assert forall|m: int| 0 <= m < before.turns.len() implies (#[trigger] after.turns[m]).session_id
        == before.turns[m].session_id && after.turns[m].seq == before.turns[m].seq
        && after.turns[m].resume_token == before.turns[m].resume_token by {
        assert(ready.turns[m].resume_token == before.turns[m].resume_token);
    }
    lemma_last_token(
        before.turns,
        after.turns,
        work.turn.session_id,
        work.turn.seq,
        work.turn.resume_token,
    );
}

/// The turn is over, one way or another.
pub open spec fn is_over(turn: TurnRowView) -> bool {
    turn.status == TurnStatus::Done || turn.status == TurnStatus::Error || turn.status
        == TurnStatus::Capped || turn.status == TurnStatus::Cancelled
}

/// A summary tells a turn by its input and the headline of its answer.
pub open spec fn tells(summary: SummaryView, turn: TurnRowView) -> bool {
    &&& summary.input == turn.input
    &&& match turn.envelope {
        Some(envelope) => summary.headline == Some(envelope.headline),
        None => summary.headline is None,
    }
}

/// The summary tells one of the first `n` turns: an earlier one of the session
/// that is over.
pub open spec fn tells_the_past(
    summary: SummaryView,
    turns: Seq<TurnRowView>,
    session: SessionId,
    seq: i64,
    n: int,
) -> bool {
    exists|i: int|
        0 <= i < n && is_past(#[trigger] turns[i], session, seq) && tells(summary, turns[i])
}

/// An earlier turn of the session that is over.
pub open spec fn is_past(turn: TurnRowView, session: SessionId, seq: i64) -> bool {
    turn.session_id == session && turn.seq < seq && is_over(turn)
}

/// One of the summaries tells the turn.
pub open spec fn is_told(summaries: Seq<SummaryView>, turn: TurnRowView) -> bool {
    exists|h: int| 0 <= h < summaries.len() && tells(#[trigger] summaries[h], turn)
}

proof fn lemma_summaries(turns: Seq<TurnRowView>, session: SessionId, seq: i64, n: int)
    requires
        0 <= n <= turns.len(),
    ensures
        forall|h: int|
            0 <= h < claims::past_summaries(turns, session, seq, n).len() ==> tells_the_past(
                #[trigger] claims::past_summaries(turns, session, seq, n)[h],
                turns,
                session,
                seq,
                n,
            ),
        forall|i: int|
            0 <= i < n && is_past(#[trigger] turns[i], session, seq) ==> is_told(
                claims::past_summaries(turns, session, seq, n),
                turns[i],
            ),
    decreases n,
{
    if n > 0 {
        lemma_summaries(turns, session, seq, n - 1);
        let rest = claims::past_summaries(turns, session, seq, n - 1);
        let all = claims::past_summaries(turns, session, seq, n);
        assert forall|h: int| 0 <= h < all.len() implies tells_the_past(
            #[trigger] all[h],
            turns,
            session,
            seq,
            n,
        ) by {
            if h < rest.len() {
                assert(all[h] == rest[h]);
                assert(tells_the_past(rest[h], turns, session, seq, n - 1));
                let i = choose|i: int|
                    0 <= i < n - 1 && is_past(#[trigger] turns[i], session, seq) && tells(
                        rest[h],
                        turns[i],
                    );
                assert(is_past(turns[i], session, seq));
            } else {
                assert(is_past(turns[n - 1], session, seq));
                assert(tells(all[h], turns[n - 1]));
            }
        }
        assert forall|i: int| 0 <= i < n && is_past(#[trigger] turns[i], session, seq) implies is_told(
            all,
            turns[i],
        ) by {
            if i < n - 1 {
                assert(is_told(rest, turns[i]));
                let h = choose|h: int| 0 <= h < rest.len() && tells(#[trigger] rest[h], turns[i]);
                assert(all[h] == rest[h]);
            } else {
                assert(tells(all[rest.len() as int], turns[i]));
            }
        }
    }
}

/// The history that comes with a turn tells earlier turns of its session that
/// are over, at most eight. Where it tells fewer, it tells them all.
pub proof fn hints_tell_the_turns_before(turns: Seq<TurnRowView>, session: SessionId, seq: i64)
    ensures
        claims::hint(turns, session, seq).len() <= 8,
        forall|h: int|
            0 <= h < claims::hint(turns, session, seq).len() ==> tells_the_past(
                #[trigger] claims::hint(turns, session, seq)[h],
                turns,
                session,
                seq,
                turns.len() as int,
            ),
        claims::hint(turns, session, seq).len() < 8 ==> forall|i: int|
            0 <= i < turns.len() && is_past(#[trigger] turns[i], session, seq) ==> is_told(
                claims::hint(turns, session, seq),
                turns[i],
            ),
{
    let n = turns.len() as int;
    lemma_summaries(turns, session, seq, n);
    let all = claims::past_summaries(turns, session, seq, n);
    let few = claims::hint(turns, session, seq);
    let skipped = all.len() - few.len();
    assert forall|h: int| 0 <= h < few.len() implies tells_the_past(
        #[trigger] few[h],
        turns,
        session,
        seq,
        n,
    ) by {
        assert(few[h] == all[h + skipped]);
    }
    if few.len() < 8 {
        assert(few == all);
    }
}

/// The history ends with the last turn that is over, and one more such turn
/// only puts its summary behind what was told.
pub proof fn hints_end_with_the_last_turn(
    turns: Seq<TurnRowView>,
    session: SessionId,
    seq: i64,
    turn: TurnRowView,
)
    requires
        turn.session_id == session,
        turn.seq < seq,
        is_over(turn),
    ensures
        ({
            let before = claims::hint(turns, session, seq);
            let after = claims::hint(turns.push(turn), session, seq);
            &&& after.len() > 0
            &&& tells(after.last(), turn)
            &&& before.len() < 8 ==> after.len() == before.len() + 1 && after.drop_last() == before
            &&& before.len() == 8 ==> after.len() == 8 && after.drop_last()
                == before.drop_first()
        }),
{
    let more = turns.push(turn);
    let n = turns.len() as int;
    lemma_summaries_prefix(turns, turn, session, seq, n);
    let all = claims::past_summaries(turns, session, seq, n);
    let longer = claims::past_summaries(more, session, seq, n + 1);
    assert(more[n] == turn);
    assert(longer == all.push(claims::summary_of(turn)));
    let before = claims::hint(turns, session, seq);
    let after = claims::hint(more, session, seq);
    assert(after.last() == claims::summary_of(turn));
    if before.len() < 8 {
        assert(after.drop_last() =~= before);
    } else {
        assert(after.drop_last() =~= before.drop_first());
    }
}

proof fn lemma_summaries_prefix(
    turns: Seq<TurnRowView>,
    turn: TurnRowView,
    session: SessionId,
    seq: i64,
    n: int,
)
    requires
        n <= turns.len(),
    ensures
        claims::past_summaries(turns, session, seq, n) == claims::past_summaries(
            turns.push(turn),
            session,
            seq,
            n,
        ),
    decreases n,
{
    if n > 0 {
        lemma_summaries_prefix(turns, turn, session, seq, n - 1);
    }
}

/// The history that comes with work is that of the turn's session before it.
pub proof fn work_carries_its_sessions_history(
    before: StoreView,
    request: ClaimRequestView,
    now: Timestamp,
    after: StoreView,
    work: WorkView,
    effects: EffectsView,
)
    requires
        claims::claim_ends(before, request, now, after, Some(work), effects),
    ensures
        work.history_hint == claims::hint(after.turns, work.turn.session_id, work.turn.seq),
{
}

// ---------------------------------------------------------------------------
// How long a claim is held, and who is online
// ---------------------------------------------------------------------------

/// A claim is held for as long as the runner asked, but for no more than half
/// a minute.
pub proof fn claims_are_held_for_half_a_minute(wait: u32)
    ensures
        runners::hold_seconds(wait) <= 30,
        wait <= 30 ==> runners::hold_seconds(wait) == wait,
        wait > 30 ==> runners::hold_seconds(wait) == 30,
{
}

/// A runner is shown as it was last heard from: online for a minute.
pub proof fn runners_are_shown_as_they_are(runner: RunnerView, now: Timestamp)
    ensures
        runners::status_of(runner, now).runner == runner.runner,
        runners::status_of(runner, now).last_seen == runner.last_seen,
        runners::status_of(runner, now).online <==> now - runner.last_seen <= 60_000_000_000,
        runner.active_turns.len() <= u32::MAX ==> runners::status_of(runner, now).active_turns
            == runner.active_turns.len(),
{
}

/// A heartbeat puts its runner on record as seen now with what it holds, and
/// changes no other runner.
pub proof fn a_heartbeat_is_recorded(
    books: StoreView,
    beat: HeartbeatView,
    now: Timestamp,
    r: int,
)
    requires
        0 <= r < books.runners.len(),
        books.runners[r].runner != beat.runner,
    ensures
        runners::after_beat(books, beat, now).runners[r] == books.runners[r],
        exists|s: int|
            0 <= s < runners::after_beat(books, beat, now).runners.len() && (
            #[trigger] runners::after_beat(books, beat, now).runners[s]).runner == beat.runner
                && runners::after_beat(books, beat, now).runners[s].last_seen == now
                && runners::after_beat(books, beat, now).runners[s].active_turns
                == beat.active_turns,
{
    let after = runners::after_beat(books, beat, now).runners;
    if store::has_runner(books.runners, beat.runner) {
        let s = choose|s: int|
            0 <= s < books.runners.len() && (#[trigger] books.runners[s]).runner == beat.runner;
        assert(after[s].runner == beat.runner);
    } else {
        assert(after[books.runners.len() as int].runner == beat.runner);
    }
}

/// The turn is in flight with this runner since some instant, and the runner
/// says that it does not hold it.
pub open spec fn is_lost(
    books: StoreView,
    runner: Seq<char>,
    holds: Seq<TurnId>,
    i: int,
    k: int,
    since: Timestamp,
) -> bool {
    &&& 0 <= i < books.turns.len()
    &&& 0 <= k < books.sessions.len()
    &&& books.turns[i].status == TurnStatus::Claimed || books.turns[i].status
        == TurnStatus::Working
    &&& books.turns[i].started_at == Some(since)
    &&& books.sessions[k].id == books.turns[i].session_id
    &&& books.sessions[k].runner_affinity == Some(runner)
    &&& !holds.contains(books.turns[i].id)
}

/// Ninety seconds after it was claimed, a turn that its runner does not list is
/// given back by the heartbeat of the process on record: to the queue, or
/// cancelled where that was asked for. Before that it stays.
pub proof fn lost_turns_are_given_back_after_ninety_seconds(
    books: StoreView,
    beat: HeartbeatView,
    now: Timestamp,
    i: int,
    k: int,
    since: Timestamp,
)
    requires
        beat.epoch == claims::epoch_of(books.runners, beat.runner),
        is_lost(books, beat.runner, beat.active_turns, i, k, since),
    ensures
        now - since <= 90_000_000_000 ==> runners::after_beat(books, beat, now).turns[i]
            == books.turns[i],
        now - since > 90_000_000_000 ==> runners::after_beat(books, beat, now).turns[i].status == (
        if books.turns[i].cancel_requested_at is Some {
            TurnStatus::Cancelled
        } else {
            TurnStatus::Queued
        }) && runners::after_beat(books, beat, now).turns[i].started_at is None,
{
    assert(release::assigned(books.sessions, books.turns[i].session_id, beat.runner));
}

// ---------------------------------------------------------------------------
// Posting
// ---------------------------------------------------------------------------

/// The places of the messages that wait in a session.
pub open spec fn waiting_places(turns: Seq<TurnRowView>, session: SessionId) -> Set<int> {
    Set::new(
        |i: int|
            0 <= i < turns.len() && turns[i].session_id == session && turns[i].status
                == TurnStatus::Queued,
    )
}

proof fn lemma_waiting_counts(turns: Seq<TurnRowView>, session: SessionId, n: int)
    requires
        0 <= n <= turns.len(),
    ensures
        waiting_places(turns.take(n), session).finite(),
        waiting_places(turns.take(n), session).len() == turns::waiting(turns, session, n),
    decreases n,
{
    let set = waiting_places(turns.take(n), session);
    if n == 0 {
        assert(set =~= Set::empty());
    } else {
        lemma_waiting_counts(turns, session, n - 1);
        let rest = waiting_places(turns.take(n - 1), session);
        assert forall|i: int| 0 <= i < n - 1 implies turns.take(n - 1)[i] == #[trigger] turns.take(
            n,
        )[i] by {}
        if turns[n - 1].session_id == session && turns[n - 1].status == TurnStatus::Queued {
            assert(set =~= rest.insert(n - 1));
        } else {
            assert(set =~= rest);
        }
    }
}

/// The answer is a refusal with this status.
pub open spec fn is_refused(refusal: Option<ErrorView>, status: int) -> bool {
    refusal is Some && refusal->0.status == status
}

/// A message with something in it, on no lane of its own or on one that is
/// offered, is queued in a session that is there, unless five wait already.
pub proof fn a_message_is_queued_unless_five_wait(
    books: StoreView,
    session: SessionId,
    id: TurnId,
    input: Seq<char>,
    lane: Option<LaneView>,
    k: int,
)
    requires
        !text::is_blank(input),
        lane is Some ==> config::offered(lane->0),
        0 <= k < books.sessions.len(),
        books.sessions[k].id == session,
        forall|i: int| 0 <= i < books.turns.len() ==> (#[trigger] books.turns[i]).id != id,
    ensures
        waiting_places(books.turns, session).len() < 5 ==> turns::post_refusal(
            books,
            session,
            id,
            input,
            lane,
        ) is None,
        waiting_places(books.turns, session).len() >= 5 ==> is_refused(
            turns::post_refusal(books, session, id, input, lane),
            409,
        ),
{
    let n = books.turns.len() as int;
    lemma_waiting_counts(books.turns, session, n);
    assert(books.turns.take(n) =~= books.turns);
    assert(store::has_session(books.sessions, session));
}

/// A message that says nothing, or is for a session that is not there, is
/// refused.
pub proof fn empty_and_stray_messages_are_refused(
    books: StoreView,
    session: SessionId,
    id: TurnId,
    input: Seq<char>,
    lane: Option<LaneView>,
)
    requires
        lane is Some ==> config::offered(lane->0),
    ensures
        text::is_blank(input) ==> is_refused(
            turns::post_refusal(books, session, id, input, lane),
            422,
        ),
        !text::is_blank(input) && (forall|k: int|
            0 <= k < books.sessions.len() ==> (#[trigger] books.sessions[k]).id != session)
            ==> is_refused(turns::post_refusal(books, session, id, input, lane), 404),
{
}

proof fn lemma_seq_below(turns: Seq<TurnRowView>, session: SessionId, i: int, n: int)
    requires
        0 <= i < n <= turns.len(),
        turns[i].session_id == session,
    ensures
        store::turns_before(turns, session, i) < store::turns_before(turns, session, n),
    decreases n,
{
    if i < n - 1 {
        lemma_seq_below(turns, session, i, n - 1);
    }
}

proof fn lemma_count_bounded(turns: Seq<TurnRowView>, session: SessionId, n: int)
    requires
        0 <= n <= turns.len(),
    ensures
        store::turns_before(turns, session, n) <= n,
    decreases n,
{
    if n > 0 {
        lemma_count_bounded(turns, session, n - 1);
    }
}

/// A message that is queued says what was sent, waits, and comes behind every
/// turn of its session.
pub proof fn a_queued_message_is_what_was_sent(
    books: StoreView,
    session: SessionId,
    id: TurnId,
    input: Seq<char>,
    lane: Option<LaneView>,
    now: Timestamp,
    i: int,
)
    requires
        store::wf(books),
        books.turns.len() < i64::MAX,
        0 <= i < books.turns.len(),
    ensures
        ({
            let row = turns::queued_row(books, session, id, input, lane, now);
            &&& row.id == id
            &&& row.session_id == session
            &&& row.input == input
            &&& row.lane_override == lane
            &&& row.status == TurnStatus::Queued
            &&& row.created_at == now
            &&& row.started_at is None
            &&& row.finished_at is None
            &&& row.cancel_requested_at is None
            &&& row.resume_token is None
            &&& row.envelope is None
            &&& row.error is None
            &&& row.commit is None
            &&& books.turns[i].session_id == session ==> books.turns[i].seq < row.seq
        }),
{
    let n = books.turns.len() as int;
    lemma_count_bounded(books.turns, session, n);
    if books.turns[i].session_id == session {
        lemma_seq_below(books.turns, session, i, n);
        assert(books.turns[i].seq == store::turns_before(books.turns, session, i) + 1);
    }
}

// ---------------------------------------------------------------------------
// The state machine
// ---------------------------------------------------------------------------

/// What a runner reports of a turn that it plays is taken: done, failed or
/// cancelled at any time, capped once it printed anything. Of a turn that it
/// does not play nothing is.
pub proof fn reports_are_for_turns_in_flight(from: TurnStatus)
    ensures
        caller::legal(from, TurnStatus::Done) <==> from == TurnStatus::Claimed || from
            == TurnStatus::Working,
        caller::legal(from, TurnStatus::Error) <==> from == TurnStatus::Claimed || from
            == TurnStatus::Working,
        caller::legal(from, TurnStatus::Cancelled) <==> from == TurnStatus::Claimed || from
            == TurnStatus::Working,
        caller::legal(from, TurnStatus::Capped) <==> from == TurnStatus::Working,
        caller::legal(from, TurnStatus::Working) <==> from == TurnStatus::Claimed,
        caller::legal(from, TurnStatus::Claimed) <==> from == TurnStatus::Queued,
        caller::legal(from, TurnStatus::Queued) <==> from == TurnStatus::Capped,
{
}

// ---------------------------------------------------------------------------
// Whose work is taken back
// ---------------------------------------------------------------------------

/// A claim leaves what is played by a runner that was heard from within the
/// last minute, and what the runner that asks plays itself, unless that runner
/// names another epoch than the one on record.
pub proof fn live_work_is_left_alone(
    before: StoreView,
    request: ClaimRequestView,
    now: Timestamp,
    after: StoreView,
    work: Option<WorkView>,
    effects: EffectsView,
    m: int,
    k: int,
    runner: Seq<char>,
)
    requires
        store::wf(before),
        claims::claim_ends(before, request, now, after, work, effects),
        0 <= m < before.turns.len(),
        before.turns[m].status == TurnStatus::Claimed || before.turns[m].status
            == TurnStatus::Working,
        0 <= k < before.sessions.len(),
        before.sessions[k].id == before.turns[m].session_id,
        before.sessions[k].runner_affinity == Some(runner),
        runner != request.runner ==> !is_away(before.runners, runner, now),
        runner == request.runner ==> forall|r: int|
            0 <= r < before.runners.len() && (#[trigger] before.runners[r]).runner == runner ==> {
                ||| request.epoch is None
                ||| before.runners[r].epoch is None
                ||| before.runners[r].epoch == request.epoch
            },
    ensures
        after.turns.len() == before.turns.len(),
        after.turns[m] == before.turns[m],
{
    let turn = before.turns[m];
    let ready = claims::prepared(before, request, now);
    let mid = claims::after_restart(before, request, now);
    assert forall|i: int| 0 <= i < before.sessions.len() && before.sessions[i].id
        == turn.session_id implies i == k by {
        if i < k {
            assert(before.sessions[i].id != before.sessions[k].id);
        } else if k < i {
            assert(before.sessions[k].id != before.sessions[i].id);
        }
    }
    if runner == request.runner {
        assert(!claims::restarted(before.runners, request));
    } else {
        assert(!release::assigned(before.sessions, turn.session_id, request.runner));
    }
    assert(mid.turns[m] == turn);
    let runners = claims::runners_seen(before.runners, request, now);
    assert(store::online(runners, runner, now)) by {
        a_runner_is_away_after_a_minute(runners, runner, now);
        if runner == request.runner {
            assert(exists|r: int|
                0 <= r < runners.len() && (#[trigger] runners[r]).runner == runner
                    && runners[r].last_seen == now) by {
                if store::has_runner(before.runners, runner) {
                    let r = choose|r: int|
                        0 <= r < before.runners.len() && (#[trigger] before.runners[r]).runner
                            == runner;
                    assert(runners[r].runner == runner);
                } else {
                    assert(runners[before.runners.len() as int].runner == runner);
                }
            }
        } else {
            lemma_seen_keeps_away(before.runners, request, now, runner);
        }
    }
    assert(!claims::unattended(before.sessions, runners, turn.session_id, now));
    assert(ready.turns[m] == turn);
    if let Some(got) = work {
        let i = choose|i: int| #[trigger]
            claims::next_up(ready, request, now, i) && after == claims::claimed(
                ready,
                request,
                now,
                i,
            ) && claims::is_work(after, i, got);
        assert(claims::eligible(ready, request, now, i));
        assert(i != m);
    }
}

/// The turn is back in the queue, or cancelled where that was asked for.
pub open spec fn is_free_again(before: TurnRowView, after: TurnRowView) -> bool {
    &&& after.status == if before.cancel_requested_at is Some {
        TurnStatus::Cancelled
    } else {
        TurnStatus::Queued
    }
    &&& after.started_at is None
    &&& after.id == before.id
    &&& after.session_id == before.session_id
    &&& after.seq == before.seq
    &&& after.input == before.input
    &&& after.lane_override == before.lane_override
    &&& after.created_at == before.created_at
}

/// Before it picks, a claim takes back what a runner plays that was not heard
/// from for a minute, unless that is the runner that asks.
pub proof fn work_of_the_lost_is_taken_back(
    books: StoreView,
    request: ClaimRequestView,
    now: Timestamp,
    m: int,
    k: int,
    runner: Seq<char>,
)
    requires
        0 <= m < books.turns.len(),
        books.turns[m].status == TurnStatus::Claimed || books.turns[m].status
            == TurnStatus::Working,
        0 <= k < books.sessions.len(),
        books.sessions[k].id == books.turns[m].session_id,
        books.sessions[k].runner_affinity == Some(runner),
        runner != request.runner,
        is_away(books.runners, runner, now),
    ensures
        claims::prepared(books, request, now).turns.len() == books.turns.len(),
        is_free_again(books.turns[m], claims::prepared(books, request, now).turns[m]),
{
    let runners = claims::runners_seen(books.runners, request, now);
    lemma_seen_keeps_away(books.runners, request, now, runner);
    a_runner_is_away_after_a_minute(runners, runner, now);
    assert(claims::unattended(books.sessions, runners, books.turns[m].session_id, now));
}

/// A runner that asks under another epoch than the one on record has started
/// anew: before it picks, the claim takes back what it was playing.
pub proof fn work_of_an_earlier_run_is_taken_back(
    books: StoreView,
    request: ClaimRequestView,
    now: Timestamp,
    r: int,
    m: int,
    k: int,
)
    requires
        store::wf(books),
        0 <= r < books.runners.len(),
        books.runners[r].runner == request.runner,
        books.runners[r].epoch is Some,
        request.epoch is Some,
        books.runners[r].epoch->0 != request.epoch->0,
        0 <= m < books.turns.len(),
        books.turns[m].status == TurnStatus::Claimed || books.turns[m].status
            == TurnStatus::Working,
        books.turns[m].started_at is Some,
        books.turns[m].started_at->0 < now,
        0 <= k < books.sessions.len(),
        books.sessions[k].id == books.turns[m].session_id,
        books.sessions[k].runner_affinity == Some(request.runner),
    ensures
        claims::prepared(books, request, now).turns.len() == books.turns.len(),
        is_free_again(books.turns[m], claims::prepared(books, request, now).turns[m]),
{
    claims::lemma_runner_unique(books.runners, r, request.runner);
    assert(claims::restarted(books.runners, request));
    assert(release::assigned(books.sessions, books.turns[m].session_id, request.runner));
    assert(release::abandoned(
        books.sessions,
        request.runner,
        Seq::empty(),
        now,
        0,
        books.turns[m],
    ));
    assert(is_free_again(
        books.turns[m],
        claims::after_restart(books, request, now).turns[m],
    ));
}

/// The runners are listed as they are shown, the one seen last first.
pub proof fn the_last_seen_runner_leads(
    runners: Seq<RunnerView>,
    now: Timestamp,
    listed: Seq<RunnerStatusView>,
    a: int,
    b: int,
)
    requires
        runners::is_runner_list(runners, now, listed),
        0 <= a < b < listed.len(),
    ensures
        listed[a].last_seen >= listed[b].last_seen,
        listed.len() == runners.len(),
        exists|r: int|
            0 <= r < runners.len() && #[trigger] runners::status_of(runners[r], now) == listed[a],
{
    let rows = runners::statuses(runners, now);
    let time = |runner: RunnerStatusView| Some(runner.last_seen);
    book_laws::the_newest_come_first(rows, time, listed, a, b);
    let r = rows.index_of(listed[a]);
    assert(rows[r] == listed[a]);
    assert(runners::status_of(runners[r], now) == listed[a]);
}

/// A heartbeat that names no runner is refused and changes nothing; any other
/// tells everybody that the runner is online.
pub proof fn heartbeats_are_told_to_everybody(
    before: StoreView,
    beat: HeartbeatView,
    now: Timestamp,
    after: StoreView,
    outcome: Result<EffectsView, ErrorView>,
)
    requires
        runners::beat_ends(before, beat, now, after, outcome),
    ensures
        outcome is Err <==> text::is_blank(beat.runner),
        outcome matches Err(error) ==> error.status == 422 && after == before,
        outcome matches Ok(effects) ==> {
            &&& effects.events.len() > 0
            &&& effects.events.last().session_id is None
            &&& effects.events.last().event matches EventView::RunnerStatus { runner } && {
                &&& runner.runner == beat.runner
                &&& runner.online
                &&& runner.last_seen == now
            }
        },
{
}

/// What is played in a session that is with no runner is taken back as well.
pub proof fn work_of_no_runner_is_taken_back(
    books: StoreView,
    request: ClaimRequestView,
    now: Timestamp,
    m: int,
    k: int,
)
    requires
        0 <= m < books.turns.len(),
        books.turns[m].status == TurnStatus::Claimed || books.turns[m].status
            == TurnStatus::Working,
        0 <= k < books.sessions.len(),
        books.sessions[k].id == books.turns[m].session_id,
        books.sessions[k].runner_affinity is None,
    ensures
        claims::prepared(books, request, now).turns.len() == books.turns.len(),
        is_free_again(books.turns[m], claims::prepared(books, request, now).turns[m]),
{
    let runners = claims::runners_seen(books.runners, request, now);
    assert(claims::unattended(books.sessions, runners, books.turns[m].session_id, now));
}

/// Where there is no work, a runner that would not wait is told so, and one that
/// would is held for as long as it asked, up to half a minute.
pub proof fn runners_wait_as_they_asked(wait: u32)
    ensures
        wait == 0 ==> runners::step_without(wait) == (ClaimStep::Answer {
            response: ClaimResponse::Empty,
        }),
        0 < wait <= 30 ==> runners::step_without(wait) == (ClaimStep::Hold { seconds: wait }),
        wait > 30 ==> runners::step_without(wait) == (ClaimStep::Hold { seconds: 30 }),
{
}

/// A turn that has a token of its own resumes that one.
pub proof fn a_turn_resumes_its_own_token(
    before: StoreView,
    request: ClaimRequestView,
    now: Timestamp,
    after: StoreView,
    work: WorkView,
    effects: EffectsView,
    m: int,
)
    requires
        store::wf(before),
        claims::claim_ends(before, request, now, after, Some(work), effects),
        0 <= m < before.turns.len(),
        before.turns[m].id == work.turn.id,
        before.turns[m].resume_token is Some,
    ensures
        work.turn.resume_token == before.turns[m].resume_token,
{
    let ready = claims::prepared(before, request, now);
    let i = choose|i: int| #[trigger]
        claims::next_up(ready, request, now, i) && after == claims::claimed(ready, request, now, i)
            && claims::is_work(after, i, work);
    assert(claims::eligible(ready, request, now, i));
    assert(before.turns[i].id == ready.turns[i].id);
    assert(after.turns[i].id == ready.turns[i].id);
    if i < m {
        assert(before.turns[i].id != before.turns[m].id);
    } else if m < i {
        assert(before.turns[m].id != before.turns[i].id);
    }
    assert(ready.turns[i].resume_token == before.turns[i].resume_token);
    assert(after.turns[i].resume_token == ready.turns[i].resume_token);
}

/// Of two turns that were posted at one instant with the same number, the one
/// that stands first is handed out first.
pub proof fn the_first_of_equals_goes_first(
    before: StoreView,
    request: ClaimRequestView,
    now: Timestamp,
    after: StoreView,
    work: WorkView,
    effects: EffectsView,
    j: int,
    k: int,
)
    requires
        claims::claim_ends(before, request, now, after, Some(work), effects),
        could_play(before, request, now, j, k),
        work.turn.created_at == before.turns[j].created_at,
        work.turn.seq == before.turns[j].seq,
    ensures
        exists|i: int| 0 <= i <= j && (#[trigger] before.turns[i]).id == work.turn.id,
{
    let ready = claims::prepared(before, request, now);
    lemma_still_waits(before, request, now, j, k);
    lemma_could_be_handed(ready, request, now, j, k);
    let i = choose|i: int| #[trigger]
        claims::next_up(ready, request, now, i) && after == claims::claimed(ready, request, now, i)
            && claims::is_work(after, i, work);
    assert(after.turns[i].created_at == ready.turns[i].created_at);
    assert(before.turns[i].id == ready.turns[i].id);
    if i != j {
        assert(claims::eligible(ready, request, now, j));
    }
}

/// A claim that takes back the work of a lost runner wakes the runners that
/// wait.
pub proof fn work_that_is_taken_back_wakes(
    before: StoreView,
    request: ClaimRequestView,
    now: Timestamp,
    after: StoreView,
    work: Option<WorkView>,
    effects: EffectsView,
    m: int,
    k: int,
    runner: Seq<char>,
)
    requires
        store::wf(before),
        claims::claim_ends(before, request, now, after, work, effects),
        0 <= m < before.turns.len(),
        before.turns[m].status == TurnStatus::Claimed || before.turns[m].status
            == TurnStatus::Working,
        0 <= k < before.sessions.len(),
        before.sessions[k].id == before.turns[m].session_id,
        before.sessions[k].runner_affinity == Some(runner),
        runner != request.runner,
        is_away(before.runners, runner, now),
    ensures
        effects.wake,
{
    let turn = before.turns[m];
    let runners = claims::runners_seen(before.runners, request, now);
    lemma_seen_keeps_away(before.runners, request, now, runner);
    a_runner_is_away_after_a_minute(runners, runner, now);
    assert forall|i: int| 0 <= i < before.sessions.len() && before.sessions[i].id
        == turn.session_id implies i == k by {
        if i < k {
            assert(before.sessions[i].id != before.sessions[k].id);
        } else if k < i {
            assert(before.sessions[k].id != before.sessions[i].id);
        }
    }
    assert(!release::assigned(before.sessions, turn.session_id, request.runner));
    let mid = claims::after_restart(before, request, now);
    assert(mid.turns[m] == turn);
    assert(claims::unattended(before.sessions, runners, turn.session_id, now));
    assert(claims::stale(mid.sessions, runners, now, mid.turns[m]));
}

/// A turn of an earlier run that was to be cancelled is told as cancelled once
/// the runner asks anew.
pub proof fn cancels_of_an_earlier_run_are_told(
    before: StoreView,
    request: ClaimRequestView,
    now: Timestamp,
    after: StoreView,
    work: Option<WorkView>,
    effects: EffectsView,
    r: int,
    m: int,
    k: int,
)
    requires
        store::wf(before),
        claims::claim_ends(before, request, now, after, work, effects),
        0 <= r < before.runners.len(),
        before.runners[r].runner == request.runner,
        before.runners[r].epoch is Some,
        request.epoch is Some,
        before.runners[r].epoch->0 != request.epoch->0,
        0 <= m < before.turns.len(),
        before.turns[m].status == TurnStatus::Claimed || before.turns[m].status
            == TurnStatus::Working,
        before.turns[m].started_at is Some,
        before.turns[m].started_at->0 < now,
        before.turns[m].cancel_requested_at is Some,
        0 <= k < before.sessions.len(),
        before.sessions[k].id == before.turns[m].session_id,
        before.sessions[k].runner_affinity == Some(request.runner),
    ensures
        exists|e: int|
            0 <= e < effects.events.len() && (#[trigger] effects.events[e]).session_id == Some(
                before.turns[m].session_id,
            ) && (effects.events[e].event matches EventView::TurnCancelled { turn } && turn.id
                == before.turns[m].id),
{
    claims::lemma_runner_unique(before.runners, r, request.runner);
    assert(claims::restarted(before.runners, request));
    assert(release::assigned(before.sessions, before.turns[m].session_id, request.runner));
    assert(release::abandoned(
        before.sessions,
        request.runner,
        Seq::empty(),
        now,
        0,
        before.turns[m],
    ));
    let mid = claims::after_restart(before, request, now);
    let n = before.turns.len() as int;
    assert(mid.turns[m].status == TurnStatus::Cancelled);
    book_laws::cancels_are_told(before.turns, mid.turns, None, n, m);
    let told = release::cancelled_event(mid.turns[m]);
    let back = release::cancel_events(before.turns, mid.turns, None, n);
    let e = back.index_of(told);
    assert(effects.events[e] == told);
}

} // verus!
