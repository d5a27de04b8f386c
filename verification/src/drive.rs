//! The shared driver: what a harness process's output, its end, a timeout or a
//! cancel mean for the turn it plays.

use vstd::prelude::*;

use crate::json::JsonView;
use crate::names;
use crate::outside;
use crate::protocol::Envelope;
use crate::protocol::EnvelopeView;
use crate::protocol::SessionId;
use crate::runner;
use crate::runner::AdapterOutcome;
use crate::runner::OutcomeView;
use crate::streams;
use crate::streams::{ClaudeStream, CodexStream, CursorStream};
use crate::streams::{ClaudeView, CodexView, CursorView};
use crate::text;

verus! {

// ---------------------------------------------------------------------------
// Any of the three streams
// ---------------------------------------------------------------------------

/// What was read of a harness's output.
#[derive(Debug)]
pub enum HarnessStream {
    Claude(ClaudeStream),
    Codex(CodexStream),
    Cursor(CursorStream),
}

/// What a stream says once it ended.
pub struct StreamEnd {
    pub resume_token: Option<Seq<char>>,
    pub reply: Seq<char>,
    pub failure: Option<Seq<char>>,
    pub capped: bool,
}

/// What a stream says once it ended.
pub open spec fn end_of(stream: HarnessStream) -> StreamEnd {
    match stream {
        HarnessStream::Claude(stream) => StreamEnd {
            resume_token: stream@.resume_token,
            reply: match stream@.final_reply {
                Some(reply) => reply,
                None => stream@.streamed_reply,
            },
            failure: stream@.failure,
            capped: stream@.capped,
        },
        HarnessStream::Codex(stream) => StreamEnd {
            resume_token: stream@.thread_id,
            reply: text::joined(stream@.messages, "\n\n"@),
            failure: stream@.failure,
            capped: false,
        },
        HarnessStream::Cursor(stream) => StreamEnd {
            resume_token: stream@.session_id,
            reply: match stream@.final_reply {
                Some(reply) => reply,
                None => stream@.streamed_reply,
            },
            failure: stream@.failure,
            capped: false,
        },
    }
}

/// What one line does to a stream.
pub open spec fn line_taken(
    before: HarnessStream,
    line: Seq<char>,
    after: HarnessStream,
    result: Result<Seq<Seq<char>>, Seq<char>>,
) -> bool {
    match (before, after) {
        (HarnessStream::Claude(before), HarnessStream::Claude(after)) => streams::line_result(
            before@,
            after@,
            line,
            |state: ClaudeView, value: JsonView| streams::claude_next(state, value),
            |state: ClaudeView, value: JsonView| streams::streamed(value),
            names::anthropic_cli(),
            result,
        ),
        (HarnessStream::Codex(before), HarnessStream::Codex(after)) => streams::line_result(
            before@,
            after@,
            line,
            |state: CodexView, value: JsonView| streams::codex_next(state, value),
            |state: CodexView, value: JsonView| streams::codex_chunks(state, value),
            "codex"@,
            result,
        ),
        (HarnessStream::Cursor(before), HarnessStream::Cursor(after)) => streams::line_result(
            before@,
            after@,
            line,
            |state: CursorView, value: JsonView| streams::cursor_next(state, value),
            |state: CursorView, value: JsonView| streams::streamed(value),
            "cursor"@,
            result,
        ),
        _ => false,
    }
}

impl HarnessStream {
    /// Takes one line of output; gives the chunks to stream to the client.
    pub fn ingest_line(&mut self, line: &str) -> (result: Result<Vec<String>, String>)
        ensures
            line_taken(*old(self), line@, *final(self), streams::chunks_view(result)),
    {
        match self {
            HarnessStream::Claude(stream) => stream.ingest_line(line),
            HarnessStream::Codex(stream) => stream.ingest_line(line),
            HarnessStream::Cursor(stream) => stream.ingest_line(line),
        }
    }

    /// The session to resume.
    pub fn resume_token(&self) -> (token: Option<String>)
        ensures
            text::opt_text(token) == end_of(*self).resume_token,
    {
        match self {
            HarnessStream::Claude(stream) => stream.resume_token(),
            HarnessStream::Codex(stream) => stream.resume_token(),
            HarnessStream::Cursor(stream) => stream.resume_token(),
        }
    }

    /// The reply.
    pub fn reply_text(&self) -> (reply: String)
        ensures
            reply@ == end_of(*self).reply,
    {
        match self {
            HarnessStream::Claude(stream) => stream.reply_text(),
            HarnessStream::Codex(stream) => stream.reply_text(),
            HarnessStream::Cursor(stream) => stream.reply_text(),
        }
    }

    /// A fatal error that the stream itself reported (the process may still
    /// exit cleanly).
    pub fn failure(&self) -> (failure: Option<String>)
        ensures
            text::opt_text(failure) == end_of(*self).failure,
    {
        match self {
            HarnessStream::Claude(stream) => stream.failure(),
            HarnessStream::Codex(stream) => stream.failure(),
            HarnessStream::Cursor(stream) => stream.failure(),
        }
    }

    /// Whether the stream said that the plan or rate limit is exhausted.
    pub fn capped_hint(&self) -> (capped: bool)
        ensures
            capped == end_of(*self).capped,
    {
        match self {
            HarnessStream::Claude(stream) => stream.capped_hint(),
            _ => false,
        }
    }
}

// ---------------------------------------------------------------------------
// While it runs
// ---------------------------------------------------------------------------

/// Why a harness is killed.
#[derive(Debug, Clone, Copy, PartialEq, Eq, Structural)]
pub enum Stop {
    TimedOut,
    Cancelled,
}

/// What happens while a harness prints.
#[derive(Debug)]
pub enum ReadEvent {
    /// The turn took too long.
    TimedOut,
    /// The cancel watch changed: whether it is still watched, and whether the
    /// turn is cancelled.
    CancelChanged { watched: bool, cancelled: bool },
    /// A line of output.
    Line { line: String },
    /// The output ended; whether the turn is cancelled by then.
    Closed { cancelled: bool },
}

/// What is done about it.
#[derive(Debug)]
pub enum ReadStep {
    /// Go on reading, and send these chunks first.
    Emit { chunks: Vec<String> },
    /// Go on reading; the line could not be read.
    Unparsed { message: String },
    /// Go on reading.
    Go,
    /// Kill the harness and everything that it spawned.
    Kill { stop: Stop },
    /// Wait for the process to end.
    Wait,
}

/// What is to be done about an event, and what it does to the stream.
pub open spec fn read_step(
    before: HarnessStream,
    event: ReadEvent,
    after: HarnessStream,
    step: ReadStep,
) -> bool {
    match event {
        ReadEvent::TimedOut => after == before && step == ReadStep::Kill { stop: Stop::TimedOut },
        ReadEvent::CancelChanged { watched, cancelled } => after == before && step == if watched
            && cancelled {
            ReadStep::Kill { stop: Stop::Cancelled }
        } else {
            ReadStep::Go
        },
        ReadEvent::Line { line } => match step {
            ReadStep::Emit { chunks } => line_taken(
                before,
                line@,
                after,
                Ok(text::texts(chunks@)),
            ),
            ReadStep::Unparsed { message } => line_taken(before, line@, after, Err(message@)),
            _ => false,
        },
        ReadEvent::Closed { cancelled } => after == before && step == if cancelled {
            ReadStep::Kill { stop: Stop::Cancelled }
        } else {
            ReadStep::Wait
        },
    }
}

/// Takes an event while a harness prints. A cancel that landed as the output
/// ended is not missed.
pub fn on_read(stream: &mut HarnessStream, event: ReadEvent) -> (step: ReadStep)
    ensures
        read_step(*old(stream), event, *final(stream), step),
{
    match event {
        ReadEvent::TimedOut => ReadStep::Kill { stop: Stop::TimedOut },
        ReadEvent::CancelChanged { watched, cancelled } => if watched && cancelled {
            ReadStep::Kill { stop: Stop::Cancelled }
        } else {
            ReadStep::Go
        },
        ReadEvent::Line { line } => match stream.ingest_line(&line) {
            Ok(chunks) => ReadStep::Emit { chunks },
            Err(message) => ReadStep::Unparsed { message },
        },
        ReadEvent::Closed { cancelled } => if cancelled {
            ReadStep::Kill { stop: Stop::Cancelled }
        } else {
            ReadStep::Wait
        },
    }
}

/// What happens once the output ended.
#[derive(Debug, Clone, Copy, PartialEq, Eq, Structural)]
pub enum WaitEvent {
    TimedOut,
    CancelChanged,
    Exited,
}

/// Why a process that is waited for is killed, if it is.
pub open spec fn wait_stop(event: WaitEvent) -> Option<Stop> {
    match event {
        WaitEvent::TimedOut => Some(Stop::TimedOut),
        WaitEvent::CancelChanged => Some(Stop::Cancelled),
        WaitEvent::Exited => None,
    }
}

/// Why to kill a process that is waited for; None once it ended by itself.
pub fn on_wait(event: WaitEvent) -> (stop: Option<Stop>)
    ensures
        stop == wait_stop(event),
{
    match event {
        WaitEvent::TimedOut => Some(Stop::TimedOut),
        WaitEvent::CancelChanged => Some(Stop::Cancelled),
        WaitEvent::Exited => None,
    }
}

// ---------------------------------------------------------------------------
// How it ended
// ---------------------------------------------------------------------------

/// The end of what a harness printed on standard error, or a word that it
/// printed nothing.
pub open spec fn stderr_tail(stderr: Seq<char>, label: Seq<char>) -> Seq<char> {
    let tail = text::tail_of(stderr, runner::STDERR_TAIL_CHARS as int);
    if tail.len() == 0 {
        label + " exited without stderr"@
    } else {
        tail
    }
}

/// The end of what a harness printed on standard error.
pub fn joinable_tail(stderr: &str, label: &str) -> (tail: String)
    ensures
        tail@ == stderr_tail(stderr@, label@),
{
    let tail: String = text::tail_chars(stderr, runner::STDERR_TAIL_CHARS);
    if tail.as_str().is_empty() {
        let mut word: String = label.to_string();
        word.append(" exited without stderr");
        word
    } else {
        tail
    }
}

/// A message that speaks of a plan's limit.
pub open spec fn speaks_of_limit(message: Seq<char>) -> bool {
    let lower = text::lowered(message);
    text::holds(lower, "rate limit"@) || text::holds(lower, "rate_limit"@) || text::holds(
        lower,
        "usage limit"@,
    ) || text::holds(lower, "usage_limit"@) || text::holds(lower, "capped"@) || text::holds(
        lower,
        "cap reached"@,
    ) || text::holds(lower, "quota"@)
}

/// Whether a message speaks of a plan's limit.
pub fn is_capped_error(message: &str) -> (yes: bool)
    ensures
        yes == speaks_of_limit(message@),
{
    let lower: String = text::to_lower(message);
    text::contains(&lower, "rate limit") || text::contains(&lower, "rate_limit") || text::contains(
        &lower,
        "usage limit",
    ) || text::contains(&lower, "usage_limit") || text::contains(&lower, "capped")
        || text::contains(&lower, "cap reached") || text::contains(&lower, "quota")
}

/// The headline of a reply: its first line that is not blank, shortened.
pub open spec fn headline_of(reply: Seq<char>, label: Seq<char>) -> Seq<char> {
    let line = match text::first_line(reply) {
        Some(line) => line,
        None => label + " turn complete"@,
    };
    text::truncated(line, 120)
}

/// The headline of a reply.
pub fn headline_from_reply(reply: &str, label: &str) -> (headline: String)
    ensures
        headline@ == headline_of(reply@, label@),
{
    let line: String = match text::find_line(reply) {
        Some(line) => line,
        None => {
            let mut fallback: String = label.to_string();
            fallback.append(" turn complete");
            fallback
        },
    };
    text::truncate_chars(&line, 120)
}

/// The outcome of a harness that was killed.
pub open spec fn stopped(
    stop: Stop,
    label: Seq<char>,
    stderr: Seq<char>,
    resume_token: Option<Seq<char>>,
) -> OutcomeView {
    match stop {
        Stop::TimedOut => runner::error_outcome(
            label + " timed out after 30 minutes: "@ + stderr_tail(stderr, label),
            resume_token,
        ),
        Stop::Cancelled => runner::cancelled_outcome(resume_token),
    }
}

/// The outcome of a harness that was killed.
pub fn stopped_outcome(stop: Stop, label: &str, stderr: &str, stream: &HarnessStream) -> (outcome:
    AdapterOutcome)
    ensures
        outcome@ == stopped(stop, label@, stderr@, end_of(*stream).resume_token),
{
    match stop {
        Stop::TimedOut => {
            let mut message: String = label.to_string();
            message.append(" timed out after 30 minutes: ");
            message.append(&joinable_tail(stderr, label));
            AdapterOutcome::error(message, stream.resume_token())
        },
        Stop::Cancelled => AdapterOutcome::cancelled(stream.resume_token()),
    }
}

/// The envelope of a reply.
pub open spec fn reply_envelope(reply: Seq<char>, label: Seq<char>) -> EnvelopeView {
    EnvelopeView {
        headline: headline_of(reply, label),
        work_complete: true,
        cannot_proceed: false,
        body_markdown: reply,
        questions: Seq::empty(),
    }
}

/// A failure, or a capped turn where there is a sign that the plan's limit was
/// reached.
pub open spec fn failed(
    capped: bool,
    message: Seq<char>,
    resume_token: Option<Seq<char>>,
) -> OutcomeView {
    if capped {
        runner::capped_outcome(message, resume_token)
    } else {
        runner::error_outcome(message, resume_token)
    }
}

/// The outcome of a harness that ended by itself. What the stream calls a
/// failure is one, whatever the exit status; so is an exit that is no success,
/// and an empty reply. A reply counts unless the plan's limit was reached
/// before it was complete.
pub open spec fn ended(
    label: Seq<char>,
    end: StreamEnd,
    success: bool,
    status: Seq<char>,
    stderr: Seq<char>,
) -> OutcomeView {
    if end.failure is Some {
        failed(
            end.capped || speaks_of_limit(end.failure->0),
            label + ": "@ + end.failure->0,
            end.resume_token,
        )
    } else if !success {
        failed(
            end.capped || speaks_of_limit(stderr),
            label + " exited with "@ + status + ": "@ + stderr_tail(stderr, label),
            end.resume_token,
        )
    } else if text::is_blank(end.reply) {
        failed(
            end.capped,
            label + " exited cleanly without producing a reply: "@ + stderr_tail(stderr, label),
            end.resume_token,
        )
    } else if end.capped {
        runner::capped_outcome(
            label + " reported its plan limit was reached mid-turn"@,
            end.resume_token,
        )
    } else {
        runner::done_outcome(reply_envelope(end.reply, label), end.resume_token)
    }
}

/// A failure, or a capped turn.
fn failed_outcome(capped: bool, message: String, resume_token: Option<String>) -> (outcome:
    AdapterOutcome)
    ensures
        outcome@ == failed(capped, message@, text::opt_text(resume_token)),
{
    if capped {
        AdapterOutcome::capped(message, resume_token)
    } else {
        AdapterOutcome::error(message, resume_token)
    }
}

/// The outcome of a harness that ended by itself.
pub fn ended_outcome(
    label: &str,
    stream: &HarnessStream,
    success: bool,
    status: &str,
    stderr: &str,
) -> (outcome: AdapterOutcome)
    ensures
        outcome@ == ended(label@, end_of(*stream), success, status@, stderr@),
{
    let resume_token: Option<String> = stream.resume_token();
    let capped: bool = stream.capped_hint();
    if let Some(failure) = stream.failure() {
        let mut message: String = label.to_string();
        message.append(": ");
        message.append(&failure);
        return failed_outcome(capped || is_capped_error(&failure), message, resume_token);
    }
    if !success {
        let mut message: String = label.to_string();
        message.append(" exited with ");
        message.append(status);
        message.append(": ");
        message.append(&joinable_tail(stderr, label));
        return failed_outcome(capped || is_capped_error(stderr), message, resume_token);
    }
    let reply: String = stream.reply_text();
    if text::blank(&reply) {
        let mut message: String = label.to_string();
        message.append(" exited cleanly without producing a reply: ");
        message.append(&joinable_tail(stderr, label));
        return failed_outcome(capped, message, resume_token);
    }
    if capped {
        let mut message: String = label.to_string();
        message.append(" reported its plan limit was reached mid-turn");
        return AdapterOutcome::capped(message, resume_token);
    }
    let envelope: Envelope = Envelope {
        headline: headline_from_reply(&reply, label),
        work_complete: true,
        cannot_proceed: false,
        body_markdown: reply,
        questions: Vec::new(),
    };
    assert(envelope@.questions =~= Seq::empty());
    AdapterOutcome::done(envelope, resume_token)
}

/// A turn counts as done only where the harness ended well, reported no
/// failure, was not capped and said something.
pub proof fn done_means_answered(
    label: Seq<char>,
    end: StreamEnd,
    success: bool,
    status: Seq<char>,
    stderr: Seq<char>,
)
    ensures
        ended(label, end, success, status, stderr).status == runner::AdapterStatus::Done
            <==> success && end.failure is None && !end.capped && !text::is_blank(end.reply),
{
}

/// Whatever became of a turn, what can be resumed is kept.
pub proof fn the_resume_token_is_kept(
    label: Seq<char>,
    end: StreamEnd,
    success: bool,
    status: Seq<char>,
    stderr: Seq<char>,
    stop: Stop,
)
    ensures
        ended(label, end, success, status, stderr).resume_token == end.resume_token,
        stopped(stop, label, stderr, end.resume_token).resume_token == end.resume_token,
{
}

// ---------------------------------------------------------------------------
// Mock: deterministic echo for CI and the smoke script.
// ---------------------------------------------------------------------------

/// A turn of the mock harness: a file in the workspace, two chunks, and an
/// echo.
#[derive(Debug)]
pub struct MockTurn {
    pub file_name: String,
    pub chunks: Vec<String>,
    pub outcome: AdapterOutcome,
}

/// The outcome of a turn of the mock harness.
pub open spec fn mock_outcome(session_id: SessionId, seq: i64, input: Seq<char>) -> OutcomeView {
    runner::done_outcome(
        (EnvelopeView {
            headline: "mock turn "@ + text::signed_decimal(seq as int) + " complete"@,
            work_complete: true,
            cannot_proceed: false,
            body_markdown: "echo: "@ + input,
            questions: Seq::empty(),
        }),
        Some("mock-"@ + outside::id_text(session_id)),
    )
}

/// A turn of the mock harness.
pub fn mock_turn(session_id: SessionId, seq: i64, input: &str) -> (turn: MockTurn)
    ensures
        turn.file_name@ == "turn-"@ + text::signed_decimal(seq as int) + ".txt"@,
        text::texts(turn.chunks@) == seq!["mock: thinking"@, "mock: done"@],
        turn.outcome@ == mock_outcome(session_id, seq, input@),
{
    let number: String = text::signed_text(seq);
    let mut file_name: String = "turn-".to_string();
    file_name.append(&number);
    file_name.append(".txt");
    let mut headline: String = "mock turn ".to_string();
    headline.append(&number);
    headline.append(" complete");
    let mut body_markdown: String = "echo: ".to_string();
    body_markdown.append(input);
    let mut token: String = "mock-".to_string();
    token.append(&outside::written_id(session_id));
    let mut chunks: Vec<String> = Vec::new();
    chunks.push("mock: thinking".to_string());
    chunks.push("mock: done".to_string());
    assert(text::texts(chunks@) =~= seq!["mock: thinking"@, "mock: done"@]);
    let envelope: Envelope = Envelope {
        headline,
        work_complete: true,
        cannot_proceed: false,
        body_markdown,
        questions: Vec::new(),
    };
    assert(envelope@.questions =~= Seq::empty());
    MockTurn { file_name, chunks, outcome: AdapterOutcome::done(envelope, Some(token)) }
}

} // verus!
