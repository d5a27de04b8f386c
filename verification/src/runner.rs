//! A band runner: how a turn's end is judged and reported, and how a session's
//! workspace is named and prepared.

use vstd::prelude::*;

use crate::adapters::HarnessConfig;
use crate::outside;
use crate::protocol;
use crate::protocol::{Envelope, Harness, ReportRequest, Session, SessionProfile, TurnStatus};
use crate::protocol::{EnvelopeView, ProfileView, ReportView, SessionView};
use crate::text;

verus! {

/// How long a runner lets the caller hold its claim open.
pub const CLAIM_WAIT_SECONDS: u32 = 30;

/// How long a runner waits for any answer of the caller.
pub const CLAIM_TIMEOUT_SECONDS: u64 = 45;

pub const HEARTBEAT_SECONDS: u64 = 30;

pub const CANCEL_POLL_SECONDS: u64 = 2;

pub const MIN_BACKOFF_SECONDS: u64 = 2;

pub const MAX_BACKOFF_SECONDS: u64 = 30;

/// How long a turn may take.
pub const TURN_TIMEOUT_SECONDS: u64 = 1800;

/// How much of a harness's standard error is reported.
pub const STDERR_TAIL_CHARS: usize = 2000;

/// Hard ceiling on captured standard error, in bytes.
pub const STDERR_CAPTURE_LIMIT: u64 = 262_144;

/// What a runner is started with.
#[derive(Debug)]
pub struct RunnerOptions {
    /// Base URL of the caller, e.g. http://127.0.0.1:8080
    pub server_url: String,
    pub token: Option<String>,
    /// Stable identity; defaults to `<host>:<user>` when None.
    pub runner_id: Option<String>,
    /// Where session workspaces live.
    pub data_dir: String,
    /// Which harnesses this runner offers.
    pub harnesses: Vec<Harness>,
    /// How many turns this runner plays at once.
    pub max_turns: usize,
    /// Harness binaries and the sub-agent MCP wiring.
    pub harness: HarnessConfig,
}

// ---------------------------------------------------------------------------
// Outcomes
// ---------------------------------------------------------------------------

/// How an adapter left a turn.
#[derive(Debug, Clone, Copy, PartialEq, Eq, Structural)]
pub enum AdapterStatus {
    Done,
    Capped,
    Error,
    Cancelled,
}

/// The status that a report carries.
pub open spec fn turn_status(status: AdapterStatus) -> TurnStatus {
    match status {
        AdapterStatus::Done => TurnStatus::Done,
        AdapterStatus::Capped => TurnStatus::Capped,
        AdapterStatus::Error => TurnStatus::Error,
        AdapterStatus::Cancelled => TurnStatus::Cancelled,
    }
}

impl AdapterStatus {
    pub fn as_turn_status(&self) -> (status: TurnStatus)
        ensures
            status == turn_status(*self),
    {
        match self {
            AdapterStatus::Done => TurnStatus::Done,
            AdapterStatus::Capped => TurnStatus::Capped,
            AdapterStatus::Error => TurnStatus::Error,
            AdapterStatus::Cancelled => TurnStatus::Cancelled,
        }
    }
}

/// What an adapter made of a turn.
#[derive(Debug)]
pub struct AdapterOutcome {
    pub status: AdapterStatus,
    pub envelope: Option<Envelope>,
    pub resume_token: Option<String>,
    pub error: Option<String>,
}

/// The view of an outcome.
pub struct OutcomeView {
    pub status: AdapterStatus,
    pub envelope: Option<EnvelopeView>,
    pub resume_token: Option<Seq<char>>,
    pub error: Option<Seq<char>>,
}

impl View for AdapterOutcome {
    type V = OutcomeView;

    open spec fn view(&self) -> OutcomeView {
        OutcomeView {
            status: self.status,
            envelope: protocol::opt_envelope(self.envelope),
            resume_token: text::opt_text(self.resume_token),
            error: text::opt_text(self.error),
        }
    }
}

/// A turn that was answered.
pub open spec fn done_outcome(
    envelope: EnvelopeView,
    resume_token: Option<Seq<char>>,
) -> OutcomeView {
    OutcomeView {
        status: AdapterStatus::Done,
        envelope: Some(envelope),
        resume_token,
        error: None,
    }
}

/// A turn that hit its plan's limit.
pub open spec fn capped_outcome(
    error: Seq<char>,
    resume_token: Option<Seq<char>>,
) -> OutcomeView {
    OutcomeView {
        status: AdapterStatus::Capped,
        envelope: None,
        resume_token,
        error: Some(error),
    }
}

/// A turn that went wrong.
pub open spec fn error_outcome(
    error: Seq<char>,
    resume_token: Option<Seq<char>>,
) -> OutcomeView {
    OutcomeView {
        status: AdapterStatus::Error,
        envelope: None,
        resume_token,
        error: Some(error),
    }
}

/// A turn that the human cancelled.
pub open spec fn cancelled_outcome(resume_token: Option<Seq<char>>) -> OutcomeView {
    OutcomeView {
        status: AdapterStatus::Cancelled,
        envelope: None,
        resume_token,
        error: Some("cancelled by the user"@),
    }
}

/// The report of an outcome.
pub open spec fn report_of(outcome: OutcomeView, commit: Option<Seq<char>>) -> ReportView {
    ReportView {
        status: turn_status(outcome.status),
        envelope: outcome.envelope,
        error: outcome.error,
        commit,
        resume_token: outcome.resume_token,
    }
}

impl AdapterOutcome {
    pub fn done(envelope: Envelope, resume_token: Option<String>) -> (outcome: Self)
        ensures
            outcome@ == done_outcome(envelope@, text::opt_text(resume_token)),
    {
        AdapterOutcome {
            status: AdapterStatus::Done,
            envelope: Some(envelope),
            resume_token,
            error: None,
        }
    }

    pub fn capped(error: String, resume_token: Option<String>) -> (outcome: Self)
        ensures
            outcome@ == capped_outcome(error@, text::opt_text(resume_token)),
    {
        AdapterOutcome {
            status: AdapterStatus::Capped,
            envelope: None,
            resume_token,
            error: Some(error),
        }
    }

    pub fn error(error: String, resume_token: Option<String>) -> (outcome: Self)
        ensures
            outcome@ == error_outcome(error@, text::opt_text(resume_token)),
    {
        AdapterOutcome {
            status: AdapterStatus::Error,
            envelope: None,
            resume_token,
            error: Some(error),
        }
    }

    pub fn cancelled(resume_token: Option<String>) -> (outcome: Self)
        ensures
            outcome@ == cancelled_outcome(text::opt_text(resume_token)),
    {
        AdapterOutcome {
            status: AdapterStatus::Cancelled,
            envelope: None,
            resume_token,
            error: Some("cancelled by the user".to_string()),
        }
    }

    pub fn into_report(self, commit: Option<String>) -> (report: ReportRequest)
        ensures
            report@ == report_of(self@, text::opt_text(commit)),
    {
        ReportRequest {
            status: self.status.as_turn_status(),
            envelope: self.envelope,
            error: self.error,
            commit,
            resume_token: self.resume_token,
        }
    }
}

/// The report of a turn that could not be played at all.
pub fn failed_report(error: String) -> (report: ReportRequest)
    ensures
        report@ == report_of(error_outcome(error@, None), None),
{
    AdapterOutcome::error(error, None).into_report(None)
}

// ---------------------------------------------------------------------------
// After the harness: commit and push
// ---------------------------------------------------------------------------

/// An error with one more message behind it.
pub open spec fn with_error(error: Option<Seq<char>>, message: Seq<char>) -> Seq<char> {
    if error is Some && !text::is_blank(error->0) {
        error->0 + "\n"@ + message
    } else {
        message
    }
}

/// Puts one more message behind an error.
pub fn append_error(error: &mut Option<String>, message: String)
    ensures
        text::opt_text(*final(error)) == Some(with_error(text::opt_text(*old(error)), message@)),
{
    let next: String = match &*error {
        Some(existing) => {
            if text::blank(existing) {
                message
            } else {
                let mut next: String = existing.clone();
                next.append("\n");
                next.append(&message);
                next
            }
        },
        None => message,
    };
    *error = Some(next);
}

/// What an adapter that gave up is taken for.
pub fn adapter_outcome(result: Result<AdapterOutcome, String>) -> (outcome: AdapterOutcome)
    ensures
        outcome@ == (match result {
            Ok(outcome) => outcome@,
            Err(error) => error_outcome(error@, None),
        }),
{
    match result {
        Ok(outcome) => outcome,
        Err(error) => AdapterOutcome::error(error, None),
    }
}

/// An outcome once the workspace was to be committed. A turn that was
/// answered but could not be committed is an error; one that was not answered
/// keeps what it was, with the failure added.
pub open spec fn committed(
    outcome: OutcomeView,
    commit: Result<Seq<char>, Seq<char>>,
) -> OutcomeView {
    match commit {
        Ok(_) => outcome,
        Err(error) => {
            let message = "git commit failed: "@ + error;
            if outcome.status == AdapterStatus::Done {
                OutcomeView {
                    status: AdapterStatus::Error,
                    envelope: None,
                    error: Some(message),
                    ..outcome
                }
            } else {
                OutcomeView { error: Some(with_error(outcome.error, message)), ..outcome }
            }
        },
    }
}

/// The view of what a step of git gave.
pub open spec fn git_result(result: Result<String, String>) -> Result<Seq<char>, Seq<char>> {
    match result {
        Ok(output) => Ok(output@),
        Err(error) => Err(error@),
    }
}

/// Takes what became of the commit; gives the commit, if there is one.
pub fn settle_commit(outcome: AdapterOutcome, commit: Result<String, String>) -> (settled: (
    AdapterOutcome,
    Option<String>,
))
    ensures
        settled.0@ == committed(outcome@, git_result(commit)),
        text::opt_text(settled.1) == (match commit {
            Ok(commit) => Some(commit@),
            Err(_) => None,
        }),
{
    match commit {
        Ok(commit) => (outcome, Some(commit)),
        Err(error) => {
            let mut message: String = "git commit failed: ".to_string();
            message.append(&error);
            let mut outcome: AdapterOutcome = outcome;
            if outcome.status == AdapterStatus::Done {
                outcome.status = AdapterStatus::Error;
                outcome.envelope = None;
                outcome.error = Some(message);
            } else {
                append_error(&mut outcome.error, message);
            }
            (outcome, None)
        },
    }
}

/// The branch is to be pushed: there is a commit and the session allows it.
pub open spec fn is_pushed(commit: Option<Seq<char>>, profile: ProfileView) -> bool {
    commit is Some && profile.allow_push
}

/// Whether the branch is to be pushed: there is a commit and the session
/// allows it.
pub fn wants_push(commit: &Option<String>, profile: &SessionProfile) -> (yes: bool)
    ensures
        yes == is_pushed(text::opt_text(*commit), profile@),
{
    commit.is_some() && profile.allow_push
}

/// An outcome once the branch was to be pushed. A push that was asked for and
/// did not happen is visible in the turn.
pub open spec fn pushed(outcome: OutcomeView, failure: Option<Seq<char>>) -> OutcomeView {
    match failure {
        None => outcome,
        Some(error) => {
            let message = "git push failed: "@ + error;
            OutcomeView {
                error: Some(with_error(outcome.error, message)),
                envelope: match outcome.envelope {
                    Some(envelope) => Some(
                        EnvelopeView {
                            body_markdown: envelope.body_markdown + "\n\n> warning: "@ + message
                                + "\n"@,
                            ..envelope
                        },
                    ),
                    None => None,
                },
                ..outcome
            }
        },
    }
}

/// Takes what became of the push: None where it went well.
pub fn settle_push(outcome: AdapterOutcome, failure: Option<String>) -> (settled: AdapterOutcome)
    ensures
        settled@ == pushed(outcome@, text::opt_text(failure)),
{
    match failure {
        None => outcome,
        Some(error) => {
            let mut message: String = "git push failed: ".to_string();
            message.append(&error);
            let mut outcome: AdapterOutcome = outcome;
            outcome.envelope = match outcome.envelope {
                Some(envelope) => {
                    let mut envelope: Envelope = envelope;
                    envelope.body_markdown.append("\n\n> warning: ");
                    envelope.body_markdown.append(&message);
                    envelope.body_markdown.append("\n");
                    Some(envelope)
                },
                None => None,
            };
            append_error(&mut outcome.error, message);
            outcome
        },
    }
}

/// What is reported as done was answered and committed: a failed commit is
/// never reported as done.
pub proof fn done_is_committed(
    outcome: OutcomeView,
    commit: Result<Seq<char>, Seq<char>>,
    push_failure: Option<Seq<char>>,
    sha: Option<Seq<char>>,
)
    requires
        report_of(pushed(committed(outcome, commit), push_failure), sha).status
            == TurnStatus::Done,
    ensures
        commit is Ok,
        outcome.status == AdapterStatus::Done,
{
}

// ---------------------------------------------------------------------------
// The claim loop
// ---------------------------------------------------------------------------

/// How long the wait after another failure is.
pub open spec fn backoff_after(current: u64) -> u64 {
    if current * 2 < MAX_BACKOFF_SECONDS {
        (current * 2) as u64
    } else {
        MAX_BACKOFF_SECONDS
    }
}

/// How long to wait after another failure.
pub fn next_backoff(current: u64) -> (next: u64)
    ensures
        next == backoff_after(current),
{
    match current.checked_mul(2) {
        Some(doubled) => if doubled < MAX_BACKOFF_SECONDS {
            doubled
        } else {
            MAX_BACKOFF_SECONDS
        },
        None => MAX_BACKOFF_SECONDS,
    }
}

/// What came of asking for work.
#[derive(Debug, Clone, Copy, PartialEq, Eq, Structural)]
pub enum ClaimResult {
    Empty,
    Work,
    Failed,
}

/// How long a runner sleeps after it asked for work, and the backoff that
/// stands after that.
pub open spec fn claim_pause(result: ClaimResult, backoff: u64) -> (u64, u64) {
    if result == ClaimResult::Failed {
        (backoff, backoff_after(backoff))
    } else {
        (0, MIN_BACKOFF_SECONDS)
    }
}

/// What a runner does after it asked for work: how long it sleeps first, and
/// the backoff that stands after that.
pub fn after_claim(result: ClaimResult, backoff: u64) -> (step: (u64, u64))
    ensures
        step == claim_pause(result, backoff),
{
    match result {
        ClaimResult::Failed => (backoff, next_backoff(backoff)),
        _ => (0, MIN_BACKOFF_SECONDS),
    }
}

/// How many turns are played at once, where so many were asked for.
pub open spec fn slots_of(max_turns: usize) -> usize {
    if max_turns < 1 {
        1
    } else {
        max_turns
    }
}

/// How many turns are played at once: at least one.
pub fn slots(max_turns: usize) -> (slots: usize)
    ensures
        slots == slots_of(max_turns),
{
    if max_turns < 1 {
        1
    } else {
        max_turns
    }
}

// ---------------------------------------------------------------------------
// Branches
// ---------------------------------------------------------------------------

/// An ASCII letter or digit.
pub open spec fn is_alnum(c: char) -> bool {
    'a' <= c <= 'z' || 'A' <= c <= 'Z' || '0' <= c <= '9'
}

/// Whether a character is an ASCII letter or digit.
fn alnum(c: char) -> (yes: bool)
    ensures
        yes == is_alnum(c),
{
    ('a' <= c && c <= 'z') || ('A' <= c && c <= 'Z') || ('0' <= c && c <= '9')
}

/// A text in lower case.
pub open spec fn lower_all(s: Seq<char>) -> Seq<char>
    decreases s.len(),
{
    if s.len() == 0 {
        Seq::empty()
    } else {
        lower_all(s.drop_last()) + outside::lower_form(s.last())
    }
}

/// One more character of a slug: a letter or digit as it is, a dash for a run
/// of others.
pub open spec fn slug_push(out: Seq<char>, c: char) -> Seq<char> {
    if is_alnum(c) {
        out.push(c)
    } else if out.len() > 0 && out.last() != '-' {
        out.push('-')
    } else {
        out
    }
}

/// The slug of `s` behind `out`, up to forty characters.
pub open spec fn slug_scan(s: Seq<char>, out: Seq<char>) -> Seq<char>
    decreases s.len(),
{
    if s.len() == 0 {
        out
    } else {
        let next = slug_push(out, s[0]);
        if next.len() >= 40 {
            next
        } else {
            slug_scan(s.skip(1), next)
        }
    }
}

/// A title as part of a branch name.
pub open spec fn slug(title: Seq<char>) -> Seq<char> {
    text::strip_end(slug_scan(lower_all(title), Seq::empty()), '-')
}

/// A text in lower case.
fn lower_chars(chars: &Vec<char>) -> (out: Vec<char>)
    ensures
        out@ == lower_all(chars@),
        outside::no_capitals(out@),
{
    let mut out: Vec<char> = Vec::new();
    let mut i: usize = 0;
    proof {
        assert(chars@.take(0) =~= Seq::empty());
        assert(out@ =~= Seq::empty());
    }
    while i < chars.len()
        invariant
            i <= chars@.len(),
            out@ == lower_all(chars@.take(i as int)),
            outside::no_capitals(out@),
        decreases chars@.len() - i,
    {
        let ghost before = out@;
        let mut more: Vec<char> = outside::lowercase(chars[i]);
        let ghost added = more@;
        out.append(&mut more);
        proof {
            assert forall|k: int| 0 <= k < out@.len() implies !('A' <= #[trigger] out@[k]
                <= 'Z') by {
                if k < before.len() {
                    assert(out@[k] == before[k]);
                } else {
                    assert(out@[k] == added[k - before.len()]);
                }
            }
            assert(chars@.take(i + 1).drop_last() =~= chars@.take(i as int));
            assert(out@ =~= before + outside::lower_form(chars@[i as int]));
        }
        i += 1;
    }
    proof {
        assert(chars@.take(i as int) =~= chars@);
    }
    out
}

/// A title as part of a branch name.
pub fn slugify(title: &str) -> (out: String)
    ensures
        out@ == slug(title@),
        is_slug(out@),
        slug(out@) == out@,
{
    let chars: Vec<char> = lower_chars(&text::chars_of(title));
    let mut out: Vec<char> = Vec::new();
    let mut i: usize = 0;
    let ghost goal = slug_scan(lower_all(title@), Seq::empty());
    proof {
        assert(chars@.skip(0) =~= chars@);
        assert(out@ =~= Seq::empty());
    }
    while i < chars.len()
        invariant_except_break
            i <= chars@.len(),
            slug_scan(chars@.skip(i as int), out@) == goal,
        ensures
            out@ == goal,
        decreases chars@.len() - i,
    {
        let c: char = chars[i];
        let ghost before = out@;
        if alnum(c) {
            out.push(c);
        } else if out.len() > 0 && out[out.len() - 1] != '-' {
            out.push('-');
        }
        proof {
            assert(chars@.skip(i as int)[0] == c);
            assert(out@ =~= slug_push(before, c));
            assert(chars@.skip(i as int).skip(1) =~= chars@.skip(i + 1));
        }
        if out.len() >= 40 {
            break;
        }
        i += 1;
    }
    proof {
        lemma_scan_shape(lower_all(title@), Seq::empty());
        lemma_scan_small(lower_all(title@), Seq::empty());
        lemma_strip_shape(goal);
        lemma_strip_small(goal);
        own_slug(slug(title@));
    }
    text::trim_end_char(&text::text_of(&out), '-')
}

/// What a slug is: at most forty small letters, digits and single dashes, with
/// no dash at either end.
pub open spec fn is_slug(s: Seq<char>) -> bool {
    &&& s.len() <= 40
    &&& forall|i: int|
        0 <= i < s.len() ==> 'a' <= (#[trigger] s[i]) <= 'z' || '0' <= s[i] <= '9' || s[i] == '-'
    &&& single_dashes(s)
    &&& s.len() > 0 ==> s[0] != '-' && s.last() != '-'
}

/// No two dashes in a row.
pub open spec fn single_dashes(s: Seq<char>) -> bool {
    forall|i: int, j: int|
        0 <= i < s.len() && j == i + 1 && j < s.len() && (#[trigger] s[i]) == '-' ==> (
        #[trigger] s[j]) != '-'
}

/// What a slug grows through: letters, digits and single dashes, none in
/// front.
spec fn slug_shape(out: Seq<char>) -> bool {
    &&& out.len() <= 40
    &&& forall|i: int| 0 <= i < out.len() ==> is_alnum(#[trigger] out[i]) || out[i] == '-'
    &&& single_dashes(out)
    &&& out.len() > 0 ==> out[0] != '-'
}

proof fn lemma_scan_shape(s: Seq<char>, out: Seq<char>)
    requires
        slug_shape(out),
        out.len() < 40,
    ensures
        slug_shape(slug_scan(s, out)),
    decreases s.len(),
{
    if s.len() > 0 {
        let next = slug_push(out, s[0]);
        assert forall|i: int| 0 <= i < next.len() implies is_alnum(#[trigger] next[i]) || next[i]
            == '-' by {
            if i < out.len() {
                assert(next[i] == out[i]);
            }
        }
        assert forall|i: int, j: int|
            0 <= i < next.len() && j == i + 1 && j < next.len() && (#[trigger] next[i])
                == '-' implies (#[trigger] next[j]) != '-' by {
            assert(next[i] == out[i]);
            if j < out.len() {
                assert(next[j] == out[j]);
            }
        }
        if next.len() < 40 {
            lemma_scan_shape(s.skip(1), next);
        }
    }
}

proof fn lemma_scan_small(s: Seq<char>, out: Seq<char>)
    requires
        outside::no_capitals(s),
        outside::no_capitals(out),
    ensures
        outside::no_capitals(slug_scan(s, out)),
    decreases s.len(),
{
    if s.len() > 0 {
        let next = slug_push(out, s[0]);
        assert forall|i: int| 0 <= i < next.len() implies !('A' <= #[trigger] next[i] <= 'Z') by {
            if i < out.len() {
                assert(next[i] == out[i]);
            }
        }
        if next.len() < 40 {
            assert forall|i: int| 0 <= i < s.skip(1).len() implies !('A' <= #[trigger] s.skip(1)[i]
                <= 'Z') by {
                assert(s.skip(1)[i] == s[i + 1]);
            }
            lemma_scan_small(s.skip(1), next);
        }
    }
}

proof fn lemma_strip_shape(s: Seq<char>)
    requires
        slug_shape(s),
    ensures
        slug_shape(text::strip_end(s, '-')),
        text::strip_end(s, '-').len() > 0 ==> text::strip_end(s, '-').last() != '-',
    decreases s.len(),
{
    if s.len() > 0 && s.last() == '-' {
        let less = s.drop_last();
        assert forall|i: int| 0 <= i < less.len() implies is_alnum(#[trigger] less[i]) || less[i]
            == '-' by {
            assert(less[i] == s[i]);
        }
        assert forall|i: int, j: int|
            0 <= i < less.len() && j == i + 1 && j < less.len() && (#[trigger] less[i])
                == '-' implies (#[trigger] less[j]) != '-' by {
            assert(less[i] == s[i] && less[j] == s[j]);
        }
        lemma_strip_shape(less);
    }
}

proof fn lemma_strip_small(s: Seq<char>)
    requires
        outside::no_capitals(s),
    ensures
        outside::no_capitals(text::strip_end(s, '-')),
    decreases s.len(),
{
    if s.len() > 0 && s.last() == '-' {
        assert forall|i: int| 0 <= i < s.drop_last().len() implies !('A'
            <= #[trigger] s.drop_last()[i] <= 'Z') by {
            assert(s.drop_last()[i] == s[i]);
        }
        lemma_strip_small(s.drop_last());
    }
}

/// A slug is at most forty letters, digits and single dashes, with no dash at
/// either end.
pub proof fn slugs_are_plain(title: Seq<char>)
    ensures
        slug(title).len() <= 40,
        forall|i: int|
            0 <= i < slug(title).len() ==> is_alnum(#[trigger] slug(title)[i]) || slug(title)[i]
                == '-',
        single_dashes(slug(title)),
        slug(title).len() > 0 ==> slug(title)[0] != '-' && slug(title).last() != '-',
{
    lemma_scan_shape(lower_all(title), Seq::empty());
    lemma_strip_shape(slug_scan(lower_all(title), Seq::empty()));
}

/// ASCII characters alone.
pub open spec fn is_ascii(s: Seq<char>) -> bool {
    forall|i: int| 0 <= i < s.len() ==> (#[trigger] s[i]) as u32 <= 0x7f
}

proof fn lemma_lower_ascii(s: Seq<char>)
    requires
        is_ascii(s),
    ensures
        lower_all(s) == text::lowered(s),
    decreases s.len(),
{
    if s.len() > 0 {
        let rest = s.drop_last();
        assert forall|i: int| 0 <= i < rest.len() implies (#[trigger] rest[i]) as u32 <= 0x7f by {
            assert(rest[i] == s[i]);
        }
        lemma_lower_ascii(rest);
        assert(s.last() as u32 <= 0x7f);
        assert(lower_all(s) =~= text::lowered(s));
    } else {
        assert(lower_all(s) =~= text::lowered(s));
    }
}

proof fn lemma_scan_slug(s: Seq<char>, n: int)
    requires
        is_slug(s),
        0 <= n <= s.len(),
        n < 40,
    ensures
        slug_scan(s.skip(n), s.take(n)) == s,
    decreases s.len() - n,
{
    if n < s.len() {
        let c = s.skip(n)[0];
        assert(c == s[n]);
        if c == '-' {
            assert(s.take(n).last() == s[n - 1]);
            assert(s[n - 1] == '-' ==> s[n] != '-');
        }
        assert(slug_push(s.take(n), c) =~= s.take(n + 1));
        if n + 1 < 40 {
            assert(s.skip(n).skip(1) =~= s.skip(n + 1));
            lemma_scan_slug(s, n + 1);
        } else {
            assert(s.take(n + 1) =~= s);
        }
    } else {
        assert(s.take(n) =~= s);
    }
}

/// What has the form of a slug is its own slug.
pub proof fn own_slug(s: Seq<char>)
    requires
        is_slug(s),
    ensures
        slug(s) == s,
{
    assert(is_ascii(s)) by {
        assert forall|i: int| 0 <= i < s.len() implies (#[trigger] s[i]) as u32 <= 0x7f by {}
    }
    lemma_lower_ascii(s);
    assert(text::lowered(s) =~= s);
    assert(s.skip(0) =~= s);
    assert(s.take(0) =~= Seq::<char>::empty());
    lemma_scan_slug(s, 0);
}

/// The slug of an ASCII title has the form of a slug, so it is its own.
pub proof fn ascii_titles_have_slugs(title: Seq<char>)
    requires
        is_ascii(title),
    ensures
        is_slug(slug(title)),
        slug(slug(title)) == slug(title),
{
    lemma_lower_ascii(title);
    let small = lower_all(title);
    lemma_scan_shape(small, Seq::empty());
    lemma_scan_small(small, Seq::empty());
    lemma_strip_shape(slug_scan(small, Seq::empty()));
    lemma_strip_small(slug_scan(small, Seq::empty()));
    own_slug(slug(title));
}

/// The first `n` characters, or all where there are fewer.
pub open spec fn at_most(s: Seq<char>, n: int) -> Seq<char> {
    if s.len() <= n {
        s
    } else {
        s.take(n)
    }
}

proof fn lemma_scan_alnum(s: Seq<char>, n: int)
    requires
        forall|i: int| 0 <= i < s.len() ==> is_alnum(#[trigger] s[i]),
        0 <= n <= s.len(),
        n < 40,
    ensures
        slug_scan(s.skip(n), s.take(n)) == at_most(s, 40),
    decreases s.len() - n,
{
    if n < s.len() {
        assert(s.skip(n)[0] == s[n]);
        assert(slug_push(s.take(n), s[n]) =~= s.take(n + 1));
        if n + 1 < 40 {
            assert(s.skip(n).skip(1) =~= s.skip(n + 1));
            lemma_scan_alnum(s, n + 1);
        } else {
            assert(s.take(n + 1) =~= at_most(s, 40));
        }
    } else {
        assert(s.take(n) =~= s);
    }
}

/// The slug of a title of ASCII letters and digits is its first forty
/// characters in lower case.
pub proof fn plain_titles_are_cut(title: Seq<char>)
    requires
        forall|i: int| 0 <= i < title.len() ==> is_alnum(#[trigger] title[i]),
    ensures
        slug(title) == at_most(text::lowered(title), 40),
{
    assert(is_ascii(title)) by {
        assert forall|i: int| 0 <= i < title.len() implies (#[trigger] title[i]) as u32
            <= 0x7f by {}
    }
    lemma_lower_ascii(title);
    let small = text::lowered(title);
    assert forall|i: int| 0 <= i < small.len() implies is_alnum(#[trigger] small[i]) by {
        assert(is_alnum(title[i]));
    }
    assert(small.skip(0) =~= small);
    assert(small.take(0) =~= Seq::<char>::empty());
    lemma_scan_alnum(small, 0);
    let cut = at_most(small, 40);
    if cut.len() > 0 {
        assert(cut.last() == small[cut.len() - 1]);
    }
}

/// `ceilidh/<title-slug>-<id8>`: readable on GitHub, unique per session.
pub open spec fn branch_of(session: SessionView) -> Seq<char> {
    let id8 = outside::id_digits(session.id).take(8);
    let name = slug(session.title);
    if name.len() == 0 {
        "ceilidh/session-"@ + id8
    } else {
        "ceilidh/"@ + name + "-"@ + id8
    }
}

/// The branch that a session's turns are committed to.
pub fn session_branch(session: &Session) -> (branch: String)
    ensures
        branch@ == branch_of(session@),
{
    let digits: String = outside::simple_id(session.id);
    proof {
        lemma_hex_len(session.id as nat, 32);
    }
    let chars: Vec<char> = text::chars_of(&digits);
    let id8: String = text::text_range(&chars, 0, 8);
    assert(id8@ =~= outside::id_digits(session.id).take(8));
    let name: String = slugify(&session.title);
    if name.as_str().is_empty() {
        let mut branch: String = "ceilidh/session-".to_string();
        branch.append(&id8);
        branch
    } else {
        let mut branch: String = "ceilidh/".to_string();
        branch.append(&name);
        branch.append("-");
        branch.append(&id8);
        branch
    }
}

proof fn lemma_hex_len(n: nat, len: nat)
    ensures
        outside::hex_digits(n, len).len() == len,
        forall|i: int| 0 <= i < len ==> is_alnum(#[trigger] outside::hex_digits(n, len)[i]),
    decreases len,
{
    if len > 0 {
        lemma_hex_len(n / 16, (len - 1) as nat);
    }
}

// ---------------------------------------------------------------------------
// What is let into git's arguments
// ---------------------------------------------------------------------------

/// The characters of a ref name that is let in.
pub open spec fn is_ref_char(c: char) -> bool {
    is_alnum(c) || c == '-' || c == '_' || c == '/' || c == '.'
}

/// A ref name that git cannot take for an option or a range.
pub open spec fn is_ref_name(name: Seq<char>) -> bool {
    &&& name.len() > 0
    &&& name[0] != '-'
    &&& !text::holds(name, ".."@)
    &&& forall|i: int| 0 <= i < name.len() ==> is_ref_char(#[trigger] name[i])
}

/// Lets a ref name in, or says why not.
pub fn validate_ref_name(name: &str) -> (outcome: Result<(), String>)
    ensures
        match outcome {
            Ok(()) => is_ref_name(name@),
            Err(message) => !is_ref_name(name@) && message@ == "invalid git ref name "@
                + outside::debug_of(name@),
        },
{
    let chars: Vec<char> = text::chars_of(name);
    let mut shaped: bool = chars.len() > 0 && chars[0] != '-' && !text::contains(name, "..");
    let mut i: usize = 0;
    while i < chars.len()
        invariant
            i <= chars@.len(),
            chars@ == name@,
            shaped == (name@.len() > 0 && name@[0] != '-' && !text::holds(name@, ".."@)
                && forall|k: int| 0 <= k < i ==> is_ref_char(#[trigger] name@[k])),
        decreases chars@.len() - i,
    {
        let c: char = chars[i];
        let fine: bool = alnum(c) || c == '-' || c == '_' || c == '/' || c == '.';
        shaped = shaped && fine;
        i += 1;
    }
    if shaped {
        Ok(())
    } else {
        let mut message: String = "invalid git ref name ".to_string();
        message.append(&outside::debug_text(name));
        Err(message)
    }
}

/// A session's branch is a ref name that is let in.
pub proof fn session_branches_are_ref_names(session: SessionView)
    ensures
        is_ref_name(branch_of(session)),
{
    reveal_strlit("ceilidh/session-");
    reveal_strlit("ceilidh/");
    reveal_strlit("-");
    reveal_strlit("..");
    let branch = branch_of(session);
    let digits = outside::id_digits(session.id);
    let id8 = digits.take(8);
    let name = slug(session.title);
    lemma_hex_len(session.id as nat, 32);
    slugs_are_plain(session.title);
    assert forall|i: int| 0 <= i < branch.len() implies is_ref_char(#[trigger] branch[i])
        && branch[i] != '.' by {
        if name.len() == 0 {
            if i >= 16 {
                assert(branch[i] == id8[i - 16]);
                assert(id8[i - 16] == digits[i - 16]);
            }
        } else if i >= 8 && i < 8 + name.len() {
            assert(branch[i] == name[i - 8]);
        } else if i > 8 + name.len() {
            assert(branch[i] == id8[i - 9 - name.len()]);
            assert(id8[i - 9 - name.len()] == digits[i - 9 - name.len()]);
        }
    }
    if text::holds(branch, ".."@) {
        let k = choose|k: int| #[trigger] text::occurs_at(branch, ".."@, k);
        let sub = branch.subrange(k, k + ".."@.len());
        assert(sub[0] == '.');
        assert(branch[k] == '.');
    }
}

/// A repository that is let in: a remote over HTTP, or an absolute path on
/// this machine.
pub open spec fn is_repo(url: Seq<char>) -> bool {
    text::occurs_at(url, "https://"@, 0) || text::occurs_at(url, "http://"@, 0) || text::occurs_at(
        url,
        "/"@,
        0,
    )
}

/// Lets a repository in, or says why not. A session profile arrives over the
/// API, so its repository is untrusted input that lands in git's arguments.
pub fn validate_repo_url(url: &str) -> (outcome: Result<(), String>)
    ensures
        match outcome {
            Ok(()) => is_repo(url@),
            Err(message) => !is_repo(url@) && message@
                == "repo_url must be an http:// or https:// URL or an absolute path, got "@
                + outside::debug_of(url@),
        },
{
    if text::starts_with(url, "https://") || text::starts_with(url, "http://")
        || text::starts_with(url, "/") {
        Ok(())
    } else {
        let mut message: String =
            "repo_url must be an http:// or https:// URL or an absolute path, got ".to_string();
        message.append(&outside::debug_text(url));
        Err(message)
    }
}

// ---------------------------------------------------------------------------
// The workspace
// ---------------------------------------------------------------------------

/// How a session's workspace comes to be.
#[derive(Debug)]
pub enum WorkspaceStep {
    /// It is there.
    Ready,
    /// Clone with these arguments in the session's directory, then resume the
    /// session's branch where the remote has it.
    Clone { args: Vec<String> },
    /// A scratch repository with an empty first commit.
    Init,
}

/// The arguments of a clone. `--` keeps an option-looking URL from being taken
/// for an option.
pub open spec fn clone_args(url: Seq<char>, base_branch: Option<Seq<char>>) -> Seq<Seq<char>> {
    let base = match base_branch {
        Some(branch) => seq!["clone"@, "-b"@, branch],
        None => seq!["clone"@],
    };
    base + seq!["--"@, url, "ws"@]
}

/// What is said of a repository or a base branch that is not accepted.
pub open spec fn plan_refusal(profile: ProfileView) -> Seq<char> {
    if !is_repo(profile.repo_url->0) {
        "repo_url must be an http:// or https:// URL or an absolute path, got "@
            + outside::debug_of(profile.repo_url->0)
    } else {
        "invalid git ref name "@ + outside::debug_of(profile.base_branch->0)
    }
}

/// How the workspace of a session comes to be, or why it cannot.
pub fn plan_workspace(exists: bool, profile: &SessionProfile) -> (plan: Result<
    WorkspaceStep,
    String,
>)
    ensures
        match plan {
            Ok(WorkspaceStep::Ready) => exists,
            Ok(WorkspaceStep::Init) => !exists && profile@.repo_url is None,
            Ok(WorkspaceStep::Clone { args }) => {
                &&& !exists
                &&& profile@.repo_url is Some && is_repo(profile@.repo_url->0)
                &&& profile@.base_branch is Some ==> is_ref_name(profile@.base_branch->0)
                &&& text::texts(args@) == clone_args(profile@.repo_url->0, profile@.base_branch)
            },
            Err(message) => {
                &&& !exists
                &&& profile@.repo_url is Some
                &&& !is_repo(profile@.repo_url->0) || (profile@.base_branch is Some
                    && !is_ref_name(profile@.base_branch->0))
                &&& message@ == plan_refusal(profile@)
            },
        },
{
    if exists {
        return Ok(WorkspaceStep::Ready);
    }
    let url: &String = match &profile.repo_url {
        Some(url) => url,
        None => {
            return Ok(WorkspaceStep::Init);
        },
    };
    if let Err(message) = validate_repo_url(url) {
        return Err(message);
    }
    let mut args: Vec<String> = Vec::new();
    args.push("clone".to_string());
    if let Some(branch) = &profile.base_branch {
        if let Err(message) = validate_ref_name(branch) {
            return Err(message);
        }
        args.push("-b".to_string());
        args.push(branch.clone());
    }
    args.push("--".to_string());
    args.push(url.clone());
    args.push("ws".to_string());
    assert(text::texts(args@) =~= clone_args(url@, profile@.base_branch));
    Ok(WorkspaceStep::Clone { args })
}

/// Whether there is a session branch to resume, from what the remote listed;
/// None where it could not be listed.
pub fn resumes_remote(listed: Option<&str>) -> (yes: bool)
    ensures
        yes == (listed is Some && !text::is_blank(listed->0@)),
{
    match listed {
        Some(output) => !text::blank(output),
        None => false,
    }
}

/// The arguments of a commit that may be empty.
pub open spec fn commit_args(message: Seq<char>) -> Seq<Seq<char>> {
    seq!["commit"@, "--allow-empty"@, "-m"@, message]
}

/// The options that stand in for a missing git identity.
pub open spec fn identity_args() -> Seq<Seq<char>> {
    seq![
        "-c"@,
        "user.name=ceilidh-runner"@,
        "-c"@,
        "user.email=ceilidh-runner@example.invalid"@,
    ]
}

/// The arguments of a commit that may be empty, with or without an identity
/// of its own.
pub fn commit_command(message: &str, own_identity: bool) -> (args: Vec<String>)
    ensures
        text::texts(args@) == (if own_identity {
            identity_args() + commit_args(message@)
        } else {
            commit_args(message@)
        }),
{
    let mut args: Vec<String> = Vec::new();
    if own_identity {
        args.push("-c".to_string());
        args.push("user.name=ceilidh-runner".to_string());
        args.push("-c".to_string());
        args.push("user.email=ceilidh-runner@example.invalid".to_string());
    }
    args.push("commit".to_string());
    args.push("--allow-empty".to_string());
    args.push("-m".to_string());
    args.push(message.to_string());
    proof {
        if own_identity {
            assert(text::texts(args@) =~= identity_args() + commit_args(message@));
        } else {
            assert(text::texts(args@) =~= commit_args(message@));
        }
    }
    args
}

/// The message of a turn's commit.
pub open spec fn turn_message(seq: i64) -> Seq<char> {
    "turn "@ + text::signed_decimal(seq as int)
}

/// The message of a turn's commit.
pub fn turn_commit_message(seq: i64) -> (message: String)
    ensures
        message@ == turn_message(seq),
{
    let mut message: String = "turn ".to_string();
    message.append(&text::signed_text(seq));
    message
}

/// Git refused a commit because it does not know who commits.
pub open spec fn identity_error(message: Seq<char>) -> bool {
    let lower = text::lowered(message);
    text::holds(lower, "author identity unknown"@) || text::holds(
        lower,
        "please tell me who you are"@,
    )
}

/// Whether git refused a commit because it does not know who commits.
pub fn is_git_identity_error(message: &str) -> (yes: bool)
    ensures
        yes == identity_error(message@),
{
    let lower: String = text::to_lower(message);
    text::contains(&lower, "author identity unknown") || text::contains(
        &lower,
        "please tell me who you are",
    )
}

/// What is said of a git command that failed: the end of what it printed on
/// standard error, or else on standard output.
pub open spec fn git_failure_of(
    args: Seq<Seq<char>>,
    status: Seq<char>,
    stdout: Seq<char>,
    stderr: Seq<char>,
) -> Seq<char> {
    let detail = if text::is_blank(stderr) {
        stdout
    } else {
        stderr
    };
    "git "@ + text::joined(args, " "@) + " failed with "@ + status + ": "@ + text::tail_of(
        detail,
        4000,
    )
}

/// What is said of a git command that failed.
pub fn git_failure(args: &Vec<String>, status: &str, stdout: &str, stderr: &str) -> (message:
    String)
    ensures
        message@ == git_failure_of(text::texts(args@), status@, stdout@, stderr@),
{
    let mut message: String = "git ".to_string();
    message.append(&text::join(args, " "));
    message.append(" failed with ");
    message.append(status);
    message.append(": ");
    if text::blank(stderr) {
        message.append(&text::tail_chars(stdout, 4000));
    } else {
        message.append(&text::tail_chars(stderr, 4000));
    }
    message
}

/// A runner's name where none was given.
pub open spec fn runner_name(
    hostname: Option<Seq<char>>,
    user: Option<Seq<char>>,
    whoami: Option<Seq<char>>,
) -> Seq<char> {
    let host = match hostname {
        Some(host) => host,
        None => "unknown-host"@,
    };
    let name = if user is Some && !text::is_blank(user->0) {
        user->0
    } else {
        match whoami {
            Some(name) => name,
            None => "unknown-user"@,
        }
    };
    host + ":"@ + text::trimmed(name)
}

/// A runner's name where none was given, from what `hostname` printed, the
/// `USER` variable and what `whoami` printed.
pub fn default_runner_id(hostname: Option<String>, user: Option<String>, whoami: Option<String>) -> (
    name: String)
    ensures
        name@ == runner_name(
            text::opt_text(hostname),
            text::opt_text(user),
            text::opt_text(whoami),
        ),
{
    let mut name: String = match hostname {
        Some(host) => host,
        None => "unknown-host".to_string(),
    };
    name.append(":");
    let own: Option<String> = match user {
        Some(user) => if text::blank(&user) {
            None
        } else {
            Some(user)
        },
        None => None,
    };
    let username: String = match own {
        Some(user) => user,
        None => match whoami {
            Some(user) => user,
            None => "unknown-user".to_string(),
        },
    };
    name.append(&text::trim(&username));
    name
}

} // verus!
