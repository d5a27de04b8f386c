//! What reading a harness is for: nothing that it reports gets lost, and no
//! failure is taken for an answer.

use vstd::prelude::*;

use crate::drive;
use crate::drive::{HarnessStream, ReadEvent, ReadStep, StreamEnd, Stop, WaitEvent};
use crate::json;
use crate::json::JsonView;
use crate::outside;
use crate::protocol::SessionId;
use crate::runner::{AdapterStatus, OutcomeView};
use crate::streams;
use crate::streams::{ClaudeView, CodexView, CursorView};
use crate::text;
use crate::text_laws;

verus! {

/// The message is of this kind.
pub open spec fn is_kind(value: JsonView, kind: Seq<char>) -> bool {
    json::member(value, "type"@) == Some(JsonView::Text(kind))
}

/// The message says that it reports an error.
pub open spec fn says_error(value: JsonView) -> bool {
    json::member(value, "is_error"@) == Some(JsonView::Bool(true))
}

/// The kinds of message are different words.
proof fn lemma_kinds()
    ensures
        "assistant"@ != "result"@,
        "assistant"@ != "rate_limit_event"@,
        "result"@ != "rate_limit_event"@,
        "thread.started"@ != "item.completed"@,
        "thread.started"@ != "turn.failed"@,
        "thread.started"@ != "error"@,
        "item.completed"@ != "turn.failed"@,
        "item.completed"@ != "error"@,
        "item.completed"@ != "item.started"@,
        "turn.failed"@ != "error"@,
{
    reveal_strlit("assistant");
    reveal_strlit("result");
    reveal_strlit("rate_limit_event");
    reveal_strlit("thread.started");
    reveal_strlit("item.completed");
    reveal_strlit("item.started");
    reveal_strlit("turn.failed");
    reveal_strlit("error");
    assert("assistant"@.len() == 9 && "result"@.len() == 6 && "rate_limit_event"@.len() == 16);
    assert("thread.started"@.len() == 14 && "item.completed"@.len() == 14);
    assert("thread.started"@[0] == 't' && "item.completed"@[0] == 'i');
    assert("item.started"@.len() == 12 && "turn.failed"@.len() == 11 && "error"@.len() == 5);
}

// ---------------------------------------------------------------------------
// Anthropic's CLI
// ---------------------------------------------------------------------------

/// A result that is an error is a failure, in its own words where it has any,
/// and no reply.
pub proof fn error_results_are_failures(state: ClaudeView, value: JsonView)
    requires
        is_kind(value, "result"@),
        says_error(value),
    ensures
        streams::claude_next(state, value).failure is Some,
        streams::claude_next(state, value).final_reply == state.final_reply,
        streams::claude_next(state, value).streamed_reply == state.streamed_reply,
        json::member(value, "result"@) matches Some(JsonView::Text(words))
            ==> streams::claude_next(state, value).failure == Some(words),
{
    lemma_kinds();
}

/// A result that is no error is the reply, and no failure.
pub proof fn good_results_are_replies(state: ClaudeView, value: JsonView, words: Seq<char>)
    requires
        is_kind(value, "result"@),
        !says_error(value),
        json::member(value, "result"@) == Some(JsonView::Text(words)),
    ensures
        streams::claude_next(state, value).final_reply == Some(words),
        streams::claude_next(state, value).failure == state.failure,
{
    lemma_kinds();
}

/// No message takes back a failure, a limit or the session to resume, and none
/// but a result touches the final reply.
pub proof fn what_was_read_stays(state: ClaudeView, value: JsonView)
    ensures
        state.failure is Some ==> streams::claude_next(state, value).failure is Some,
        state.capped ==> streams::claude_next(state, value).capped,
        state.resume_token is Some ==> streams::claude_next(state, value).resume_token
            == state.resume_token,
        state.final_reply is Some ==> streams::claude_next(state, value).final_reply is Some,
        !is_kind(value, "result"@) ==> streams::claude_next(state, value).final_reply
            == state.final_reply && streams::claude_next(state, value).failure == state.failure,
        !is_kind(value, "assistant"@) ==> streams::claude_next(state, value).streamed_reply
            == state.streamed_reply && streams::streamed(value) == Seq::<Seq<char>>::empty(),
{
}

/// The first session that a message names is the one to resume.
pub proof fn the_first_session_is_resumed(state: ClaudeView, value: JsonView, id: Seq<char>)
    requires
        state.resume_token is None,
        json::member(value, "session_id"@) == Some(JsonView::Text(id)),
    ensures
        streams::claude_next(state, value).resume_token == Some(id),
{
}

/// A rate limit event caps the turn, unless its status allows going on.
pub proof fn refused_limits_cap(state: ClaudeView, value: JsonView, info: JsonView, status: Seq<char>)
    requires
        is_kind(value, "rate_limit_event"@),
        json::member(value, "rate_limit_info"@) == Some(info),
        json::member(info, "status"@) == Some(JsonView::Text(status)),
    ensures
        status != "allowed"@ ==> streams::claude_next(state, value).capped,
        status == "allowed"@ ==> streams::claude_next(state, value).capped == state.capped,
{
    lemma_kinds();
}

/// What is streamed to the client is what the reply grows by.
pub proof fn chunks_make_the_reply(state: ClaudeView, other: CursorView, value: JsonView)
    requires
        is_kind(value, "assistant"@),
    ensures
        streams::claude_next(state, value).streamed_reply == state.streamed_reply + text::together(
            streams::streamed(value),
        ),
        streams::cursor_next(other, value).streamed_reply == other.streamed_reply + text::together(
            streams::streamed(value),
        ),
{
}

/// The item is a block of text that says `words`.
pub open spec fn is_text_block(item: JsonView, words: Seq<char>) -> bool {
    &&& item is Object
    &&& json::member(item, "type"@) == Some(JsonView::Text("text"@))
    &&& json::member(item, "text"@) == Some(JsonView::Text(words))
}

proof fn lemma_item_text(items: Seq<JsonView>, n: nat, i: int, words: Seq<char>)
    requires
        0 <= i < n <= items.len(),
        is_text_block(items[i], words),
    ensures
        streams::items_text(items, n).contains(words),
    decreases n,
{
    let rest = streams::items_text(items, (n - 1) as nat);
    let all = streams::items_text(items, n);
    if i < n - 1 {
        lemma_item_text(items, (n - 1) as nat, i, words);
        let k = rest.index_of(words);
        assert(all[k] == words);
    } else {
        assert(streams::content_text(items[i])[0] == words);
        assert(all[rest.len() as int] == words);
    }
}

/// Every block of text of an assistant message is streamed, word for word.
pub proof fn text_blocks_are_streamed(
    value: JsonView,
    message: JsonView,
    items: Seq<JsonView>,
    i: int,
    words: Seq<char>,
)
    requires
        is_kind(value, "assistant"@),
        json::member(value, "message"@) == Some(message),
        json::member(message, "content"@) == Some(JsonView::Array(items)),
        0 <= i < items.len(),
        is_text_block(items[i], words),
    ensures
        streams::streamed(value).contains(words),
{
    lemma_item_text(items, items.len(), i, words);
    let inner = streams::items_text(items, items.len());
    let k = inner.index_of(words);
    let front = streams::one(
        json::text_in(json::member_of(json::member(value, "delta"@), "text"@)),
    ) + streams::one(json::text_in(json::member(value, "text"@)));
    assert(streams::assistant_text(value)[front.len() + k] == inner[k]);
}

/// A block that is no text says nothing: what a tool is called with is not
/// streamed.
pub proof fn other_blocks_say_nothing(item: JsonView)
    requires
        item is Object,
        json::member(item, "type"@) != Some(JsonView::Text("text"@)),
        json::member(item, "delta"@) is None,
    ensures
        streams::content_text(item) == Seq::<Seq<char>>::empty(),
{
    assert(streams::content_text(item) =~= Seq::<Seq<char>>::empty());
}

// ---------------------------------------------------------------------------
// Cursor
// ---------------------------------------------------------------------------

/// A result of Cursor that is an error is a failure, and no reply; one that is
/// none is the reply, and no failure.
pub proof fn cursor_results_are_told_apart(state: CursorView, value: JsonView)
    requires
        is_kind(value, "result"@),
    ensures
        says_error(value) ==> streams::cursor_next(state, value).failure is Some
            && streams::cursor_next(state, value).final_reply == state.final_reply,
        says_error(value) ==> (json::member(value, "result"@) matches Some(JsonView::Text(words))
            ==> streams::cursor_next(state, value).failure == Some(words)),
        !says_error(value) ==> streams::cursor_next(state, value).failure == state.failure,
        !says_error(value) ==> (json::member(value, "result"@) matches Some(JsonView::Text(words))
            ==> streams::cursor_next(state, value).final_reply == Some(words)),
{
    lemma_kinds();
}

/// No message of Cursor takes back a failure or the session to resume, and the
/// first session that one names is the one to resume.
pub proof fn what_cursor_said_stays(state: CursorView, value: JsonView)
    ensures
        state.failure is Some ==> streams::cursor_next(state, value).failure is Some,
        state.session_id is Some ==> streams::cursor_next(state, value).session_id
            == state.session_id,
        state.session_id is None ==> (json::member(value, "session_id"@) matches Some(
            JsonView::Text(id),
        ) ==> streams::cursor_next(state, value).session_id == Some(id)),
        state.final_reply is Some ==> streams::cursor_next(state, value).final_reply is Some,
        !is_kind(value, "result"@) ==> streams::cursor_next(state, value).final_reply
            == state.final_reply && streams::cursor_next(state, value).failure == state.failure,
        !is_kind(value, "assistant"@) ==> streams::cursor_next(state, value).streamed_reply
            == state.streamed_reply,
{
}

// ---------------------------------------------------------------------------
// Codex
// ---------------------------------------------------------------------------

/// A turn of Codex that failed is a failure, in the words of its error where it
/// has any; so is an error of the stream.
pub proof fn codex_failures_are_failures(state: CodexView, value: JsonView, error: JsonView)
    ensures
        is_kind(value, "turn.failed"@) ==> streams::codex_next(state, value).failure is Some,
        is_kind(value, "turn.failed"@) && json::member(value, "error"@) == Some(error) ==> (
        json::member(error, "message"@) matches Some(JsonView::Text(words)) ==> streams::codex_next(
            state,
            value,
        ).failure == Some(words)),
        is_kind(value, "error"@) ==> (json::member(value, "message"@) matches Some(
            JsonView::Text(words),
        ) ==> streams::codex_next(state, value).failure == Some(words)),
{
    lemma_kinds();
}

/// A message that the agent completed is added to the reply, word for word and
/// behind what was said, and is streamed.
pub proof fn completed_messages_are_said(
    state: CodexView,
    value: JsonView,
    item: JsonView,
    words: Seq<char>,
)
    requires
        is_kind(value, "item.completed"@),
        json::member(value, "item"@) == Some(item),
        json::member(item, "type"@) == Some(JsonView::Text("agent_message"@)),
        json::member(item, "text"@) == Some(JsonView::Text(words)),
        words.len() > 0,
    ensures
        streams::codex_next(state, value).messages == state.messages.push(words),
        streams::codex_next(state, value).failure == state.failure,
        state.messages.len() == 0 ==> streams::codex_chunks(state, value) == seq![words],
        state.messages.len() > 0 ==> streams::codex_chunks(state, value) == seq!["\n\n"@ + words],
{
    lemma_kinds();
}

/// No message of Codex takes back a failure or what was said; the thread that
/// was started is the one to resume, and nothing else changes that.
pub proof fn what_codex_said_stays(state: CodexView, value: JsonView)
    ensures
        state.failure is Some ==> streams::codex_next(state, value).failure is Some,
        state.messages.is_prefix_of(streams::codex_next(state, value).messages),
        is_kind(value, "thread.started"@) ==> (json::member(value, "thread_id"@) matches Some(
            JsonView::Text(id),
        ) ==> streams::codex_next(state, value).thread_id == Some(id)),
        !is_kind(value, "thread.started"@) ==> streams::codex_next(state, value).thread_id
            == state.thread_id,
        !is_kind(value, "turn.failed"@) && !is_kind(value, "error"@) ==> streams::codex_next(
            state,
            value,
        ).failure == state.failure,
        !is_kind(value, "item.completed"@) ==> streams::codex_next(state, value).messages
            == state.messages,
{
    lemma_kinds();
    assert(state.messages.is_prefix_of(state.messages));
    if streams::agent_message(value) is Some {
        let more = state.messages.push(streams::agent_message(value)->0);
        assert(more.take(state.messages.len() as int) =~= state.messages);
    }
}

/// A step that failed on the way is no failure of the turn.
pub proof fn failed_steps_are_no_failures(state: CodexView, value: JsonView)
    requires
        is_kind(value, "item.completed"@) || is_kind(value, "item.started"@),
    ensures
        streams::codex_next(state, value).failure == state.failure,
        streams::codex_next(state, value).thread_id == state.thread_id,
{
    lemma_kinds();
    reveal_strlit("item.started");
    reveal_strlit("thread.started");
    reveal_strlit("turn.failed");
    reveal_strlit("error");
    assert("item.started"@.len() == 12 && "thread.started"@.len() == 14);
    assert("turn.failed"@.len() == 11 && "error"@.len() == 5);
}

// ---------------------------------------------------------------------------
// Any of the three, line by line
// ---------------------------------------------------------------------------

/// A stream ends with what it read: the final reply, or what was streamed where
/// there is none, and the failure, the limit and the session that it saw.
pub proof fn streams_end_with_what_they_read(stream: HarnessStream)
    ensures
        match stream {
            HarnessStream::Claude(stream) => {
                let end = drive::end_of(HarnessStream::Claude(stream));
                &&& end.failure == stream@.failure
                &&& end.capped == stream@.capped
                &&& end.resume_token == stream@.resume_token
                &&& stream@.final_reply is Some ==> end.reply == stream@.final_reply->0
                &&& stream@.final_reply is None ==> end.reply == stream@.streamed_reply
            },
            HarnessStream::Codex(stream) => {
                let end = drive::end_of(HarnessStream::Codex(stream));
                &&& end.failure == stream@.failure
                &&& end.resume_token == stream@.thread_id
                &&& stream@.messages.len() == 1 ==> end.reply == stream@.messages[0]
                &&& stream@.messages.len() > 1 ==> end.reply == text::joined(
                    stream@.messages.drop_last(),
                    "\n\n"@,
                ) + "\n\n"@ + stream@.messages.last()
            },
            HarnessStream::Cursor(stream) => {
                let end = drive::end_of(HarnessStream::Cursor(stream));
                &&& end.failure == stream@.failure
                &&& end.resume_token == stream@.session_id
                &&& stream@.final_reply is Some ==> end.reply == stream@.final_reply->0
                &&& stream@.final_reply is None ==> end.reply == stream@.streamed_reply
            },
        },
{
}

/// Whatever a harness prints next, a failure that it reported stays one, and
/// what can be resumed can be resumed.
pub proof fn failures_outlive_every_line(
    before: HarnessStream,
    line: Seq<char>,
    after: HarnessStream,
    result: Result<Seq<Seq<char>>, Seq<char>>,
)
    requires
        drive::line_taken(before, line, after, result),
    ensures
        drive::end_of(before).failure is Some ==> drive::end_of(after).failure is Some,
        drive::end_of(before).capped ==> drive::end_of(after).capped,
        drive::end_of(before).resume_token is Some ==> drive::end_of(after).resume_token is Some,
{
}

/// A line in which a harness reports an error is a failure: of Anthropic's and
/// Cursor's a result that says so, of Codex a turn that failed.
pub proof fn an_error_line_is_a_failure(
    before: HarnessStream,
    line: Seq<char>,
    value: JsonView,
    after: HarnessStream,
    result: Result<Seq<Seq<char>>, Seq<char>>,
)
    requires
        drive::line_taken(before, line, after, result),
        text::trimmed(line).len() > 0,
        json::json_in(text::trimmed(line)) == Some(value),
        before is Codex ==> is_kind(value, "turn.failed"@),
        !(before is Codex) ==> is_kind(value, "result"@) && says_error(value),
    ensures
        drive::end_of(after).failure is Some,
{
    lemma_kinds();
}

/// A line that is blank or no JSON changes nothing, and streams nothing.
pub proof fn other_lines_change_nothing(
    before: HarnessStream,
    line: Seq<char>,
    after: HarnessStream,
    result: Result<Seq<Seq<char>>, Seq<char>>,
)
    requires
        drive::line_taken(before, line, after, result),
        text::trimmed(line).len() == 0 || json::json_in(text::trimmed(line)) is None,
    ensures
        drive::end_of(after) == drive::end_of(before),
        result matches Ok(chunks) ==> chunks.len() == 0,
        text::trimmed(line).len() > 0 ==> result is Err,
{
}

// ---------------------------------------------------------------------------
// What becomes of the turn
// ---------------------------------------------------------------------------

/// A turn whose stream reported a failure is never done, whatever it replied
/// and however the process ended; its error tells the failure.
pub proof fn a_reported_failure_is_told(
    label: Seq<char>,
    end: StreamEnd,
    success: bool,
    status: Seq<char>,
    stderr: Seq<char>,
)
    requires
        end.failure is Some,
    ensures
        drive::ended(label, end, success, status, stderr).status != AdapterStatus::Done,
        drive::ended(label, end, success, status, stderr).envelope is None,
        drive::ended(label, end, success, status, stderr).error == Some(
            label + ": "@ + end.failure->0,
        ),
{
}

/// A turn that is done answers with the reply, word for word, and without an
/// error.
pub proof fn a_done_turn_answers_with_the_reply(
    label: Seq<char>,
    end: StreamEnd,
    success: bool,
    status: Seq<char>,
    stderr: Seq<char>,
)
    requires
        success,
        end.failure is None,
        !end.capped,
        !text::is_blank(end.reply),
    ensures
        ({
            let outcome = drive::ended(label, end, success, status, stderr);
            &&& outcome.status == AdapterStatus::Done
            &&& outcome.envelope is Some
            &&& outcome.envelope->0.body_markdown == end.reply
            &&& outcome.envelope->0.work_complete
            &&& !outcome.envelope->0.cannot_proceed
            &&& outcome.envelope->0.headline.len() <= 120
            &&& outcome.error is None
            &&& outcome.resume_token == end.resume_token
        }),
{
    text::truncation_is_short(
        match text::first_line(end.reply) {
            Some(line) => line,
            None => label + " turn complete"@,
        },
        120,
    );
}

/// A plan's limit makes a turn capped, not failed: where the stream says so, or
/// where the failure or, without one, the standard error of a failed process
/// speaks of it.
pub proof fn a_limit_makes_a_turn_capped(
    label: Seq<char>,
    end: StreamEnd,
    success: bool,
    status: Seq<char>,
    stderr: Seq<char>,
)
    ensures
        end.capped ==> drive::ended(label, end, success, status, stderr).status
            == AdapterStatus::Capped,
        !end.capped && end.failure is Some ==> (drive::ended(
            label,
            end,
            success,
            status,
            stderr,
        ).status == if drive::speaks_of_limit(end.failure->0) {
            AdapterStatus::Capped
        } else {
            AdapterStatus::Error
        }),
        !end.capped && end.failure is None && !success ==> (drive::ended(
            label,
            end,
            success,
            status,
            stderr,
        ).status == if drive::speaks_of_limit(stderr) {
            AdapterStatus::Capped
        } else {
            AdapterStatus::Error
        }),
        !end.capped && end.failure is None && success && text::is_blank(end.reply)
            ==> drive::ended(label, end, success, status, stderr).status == AdapterStatus::Error,
{
}

/// A message speaks of a limit where one of these words stands in it, in
/// capitals or not.
pub proof fn limits_are_told_by_their_words(message: Seq<char>)
    ensures
        drive::speaks_of_limit(message) <==> text::holds(text::lowered(message), "rate limit"@)
            || text::holds(text::lowered(message), "rate_limit"@) || text::holds(
            text::lowered(message),
            "usage limit"@,
        ) || text::holds(text::lowered(message), "usage_limit"@) || text::holds(
            text::lowered(message),
            "capped"@,
        ) || text::holds(text::lowered(message), "cap reached"@) || text::holds(
            text::lowered(message),
            "quota"@,
        ),
        drive::speaks_of_limit(message) <==> drive::speaks_of_limit(text::lowered(message)),
{
    assert(text::lowered(text::lowered(message)) =~= text::lowered(message));
}

/// A cancel or a timeout stops the harness at once, while it prints and as its
/// output ends; a line never does.
pub proof fn cancels_and_timeouts_stop_the_harness(
    before: HarnessStream,
    event: ReadEvent,
    after: HarnessStream,
    step: ReadStep,
)
    requires
        drive::read_step(before, event, after, step),
    ensures
        event is TimedOut ==> step == (ReadStep::Kill { stop: Stop::TimedOut }),
        event matches ReadEvent::CancelChanged { watched: true, cancelled: true } ==> step == (
        ReadStep::Kill { stop: Stop::Cancelled }),
        event matches ReadEvent::CancelChanged { watched, cancelled: false } ==> step is Go,
        event matches ReadEvent::Closed { cancelled: true } ==> step == (ReadStep::Kill {
            stop: Stop::Cancelled,
        }),
        event matches ReadEvent::Closed { cancelled: false } ==> step is Wait,
        event is Line ==> step is Emit || step is Unparsed,
{
}

/// A harness that was stopped leaves a turn that is cancelled or failed, never
/// done.
pub proof fn stopped_turns_are_not_done(
    label: Seq<char>,
    stderr: Seq<char>,
    token: Option<Seq<char>>,
)
    ensures
        drive::stopped(Stop::Cancelled, label, stderr, token).status == AdapterStatus::Cancelled,
        drive::stopped(Stop::TimedOut, label, stderr, token).status == AdapterStatus::Error,
        drive::stopped(Stop::Cancelled, label, stderr, token).envelope is None,
        drive::stopped(Stop::TimedOut, label, stderr, token).envelope is None,
        drive::stopped(Stop::TimedOut, label, stderr, token).error is Some,
{
}

/// A harness that is waited for is stopped for a cancel or at the end of its
/// time, and left alone once it has ended.
pub proof fn waits_are_cut_short(event: WaitEvent)
    ensures
        drive::wait_stop(event) == Some(Stop::TimedOut) <==> event == WaitEvent::TimedOut,
        drive::wait_stop(event) == Some(Stop::Cancelled) <==> event == WaitEvent::CancelChanged,
        drive::wait_stop(event) is None <==> event == WaitEvent::Exited,
{
}

/// The headline of a reply is its first line that says something, at most a
/// hundred and twenty characters of it.
pub proof fn headlines_are_the_first_line(reply: Seq<char>, label: Seq<char>)
    requires
        !text::is_blank(reply),
        !reply.contains('\n'),
    ensures
        drive::headline_of(reply, label).len() <= 120,
        text::trimmed(reply).len() <= 120 ==> drive::headline_of(reply, label) == text::trimmed(
            reply,
        ),
        text::trimmed(reply).len() > 120 ==> drive::headline_of(reply, label).take(117)
            == text::trimmed(reply).take(117),
{
    text::lemma_place_is(reply, '\n', reply.len() as int);
    assert(reply.take(reply.len() as int) =~= reply);
    text::blank_text_trims_to_nothing(reply);
    text::truncation_is_short(text::trimmed(reply), 120);
    text_laws::truncation_keeps_the_start(text::trimmed(reply), 120);
}

/// What a harness printed as it failed is told, or else that it printed
/// nothing.
pub proof fn what_was_printed_is_told(stderr: Seq<char>, label: Seq<char>)
    ensures
        text::is_blank(stderr) ==> text::occurs_at(drive::stderr_tail(stderr, label), label, 0),
        !text::is_blank(stderr) && text::trimmed(stderr).len() <= 2000 ==> drive::stderr_tail(
            stderr,
            label,
        ) == text::trimmed(stderr),
        !text::is_blank(stderr) && text::trimmed(stderr).len() > 2000 ==> drive::stderr_tail(
            stderr,
            label,
        ).skip(3) == text::trimmed(stderr).skip(text::trimmed(stderr).len() - 2000),
{
    text::blank_text_trims_to_nothing(stderr);
    text_laws::tails_are_the_end(stderr, 2000);
    let words = label + " exited without stderr"@;
    assert(words.subrange(0, label.len() as int) =~= label);
}

// ---------------------------------------------------------------------------
// Where the words of a message stand
// ---------------------------------------------------------------------------

proof fn lemma_added(front: Seq<Seq<char>>, part: Seq<Seq<char>>, words: Seq<char>)
    requires
        part.contains(words),
    ensures
        (front + part).contains(words),
{
    let k = part.index_of(words);
    assert((front + part)[front.len() + k] == words);
}

proof fn lemma_kept(front: Seq<Seq<char>>, part: Seq<Seq<char>>, words: Seq<char>)
    requires
        front.contains(words),
    ensures
        (front + part).contains(words),
{
    let k = front.index_of(words);
    assert((front + part)[k] == words);
}

/// The value has this text under the key.
pub open spec fn says(value: JsonView, key: Seq<char>, words: Seq<char>) -> bool {
    json::member(value, key) == Some(JsonView::Text(words))
}

/// An assistant message is read wherever its words stand: in its own text, in a
/// delta, in the message's text or content, in its own content.
pub proof fn assistant_messages_are_read_everywhere(
    value: JsonView,
    inner: JsonView,
    words: Seq<char>,
)
    requires
        is_kind(value, "assistant"@),
    ensures
        says(value, "text"@, words) ==> streams::streamed(value).contains(words),
        json::member(value, "delta"@) == Some(inner) && says(inner, "text"@, words)
            ==> streams::streamed(value).contains(words),
        json::member(value, "message"@) == Some(inner) && says(inner, "text"@, words)
            ==> streams::streamed(value).contains(words),
        json::member(value, "content"@) == Some(inner) && is_text_block(inner, words)
            ==> streams::streamed(value).contains(words),
{
    let message = json::member(value, "message"@);
    let a = streams::one(json::text_in(json::member_of(json::member(value, "delta"@), "text"@)));
    let b = streams::one(json::text_in(json::member(value, "text"@)));
    let c = streams::opt_content(json::member_of(message, "content"@));
    let d = streams::one(json::text_in(json::member_of(message, "text"@)));
    let e = streams::opt_content(json::member(value, "content"@));
    if a.contains(words) {
        lemma_kept(a, b, words);
        lemma_kept(a + b, c, words);
        lemma_kept(a + b + c, d, words);
        lemma_kept(a + b + c + d, e, words);
    }
    if b.contains(words) {
        lemma_added(a, b, words);
        lemma_kept(a + b, c, words);
        lemma_kept(a + b + c, d, words);
        lemma_kept(a + b + c + d, e, words);
    }
    if d.contains(words) {
        lemma_added(a + b + c, d, words);
        lemma_kept(a + b + c + d, e, words);
    }
    if e.contains(words) {
        lemma_added(a + b + c + d, e, words);
    }
    if says(value, "text"@, words) {
        assert(b[0] == words);
    }
    if json::member(value, "delta"@) == Some(inner) && says(inner, "text"@, words) {
        assert(a[0] == words);
    }
    if json::member(value, "message"@) == Some(inner) && says(inner, "text"@, words) {
        assert(d[0] == words);
    }
    if json::member(value, "content"@) == Some(inner) && is_text_block(inner, words) {
        assert(e[0] == words);
    }
}

/// A block that carries a delta says the delta's words.
pub proof fn deltas_are_said(item: JsonView, delta: JsonView, words: Seq<char>)
    requires
        item is Object,
        json::member(item, "delta"@) == Some(delta),
        says(delta, "text"@, words),
    ensures
        streams::content_text(item).len() > 0,
        streams::content_text(item).last() == words,
{
}

/// Where a result has no text of its own, its blocks are the reply; then the
/// text of the message, then the message's blocks, and last its own.
pub proof fn results_are_read_in_order(
    state: ClaudeView,
    value: JsonView,
    content: JsonView,
    message: JsonView,
    words: Seq<char>,
)
    requires
        is_kind(value, "result"@),
        !says_error(value),
        streams::content_text(content).len() > 0,
        content is Array || content is Object,
    ensures
        json::member(value, "result"@) == Some(content) ==> streams::claude_next(
            state,
            value,
        ).final_reply == Some(text::together(streams::content_text(content))),
        json::member(value, "result"@) is None && says(value, "text"@, words)
            ==> streams::claude_next(state, value).final_reply == Some(words),
        json::member(value, "result"@) is None && json::member(value, "text"@) is None
            && json::member(value, "message"@) == Some(message) && json::member(
            message,
            "content"@,
        ) == Some(content) ==> streams::claude_next(state, value).final_reply == Some(
            text::together(streams::content_text(content)),
        ),
        json::member(value, "result"@) is None && json::member(value, "text"@) is None
            && json::member(value, "message"@) is None && json::member(value, "content"@) == Some(
            content,
        ) ==> streams::claude_next(state, value).final_reply == Some(
            text::together(streams::content_text(content)),
        ),
{
    lemma_kinds();
}

/// The session is read from the message where the line itself names none.
pub proof fn sessions_are_read_from_the_message(
    state: ClaudeView,
    other: CursorView,
    value: JsonView,
    message: JsonView,
    id: Seq<char>,
)
    requires
        state.resume_token is None,
        other.session_id is None,
        json::member(value, "session_id"@) is None,
        json::member(value, "message"@) == Some(message),
        says(message, "session_id"@, id),
    ensures
        streams::claude_next(state, value).resume_token == Some(id),
        streams::cursor_next(other, value).session_id == Some(id),
{
}

/// A rate limit event that tells no status stops nothing, and no other message
/// caps a turn.
pub proof fn silent_limits_do_not_cap(state: ClaudeView, value: JsonView)
    requires
        json::member(value, "rate_limit_info"@) is None || !is_kind(value, "rate_limit_event"@),
    ensures
        streams::claude_next(state, value).capped == state.capped,
{
    lemma_kinds();
}

/// A command that Codex starts is told as it runs, and changes nothing else; an
/// empty message says nothing.
pub proof fn commands_are_told(state: CodexView, value: JsonView, item: JsonView, words: Seq<char>)
    requires
        json::member(value, "item"@) == Some(item),
    ensures
        is_kind(value, "item.started"@) && says(item, "type"@, "command_execution"@) && says(
            item,
            "command"@,
            words,
        ) ==> {
            &&& streams::codex_chunks(state, value).len() == 1
            &&& words.len() <= 200 ==> text::holds(streams::codex_chunks(state, value)[0], words)
            &&& words.len() > 200 ==> text::holds(
                streams::codex_chunks(state, value)[0],
                words.take(197),
            )
            &&& streams::codex_next(state, value) == state
        },
        is_kind(value, "item.completed"@) && says(item, "text"@, Seq::empty())
            ==> streams::codex_next(state, value) == state && streams::codex_chunks(
            state,
            value,
        ).len() == 0,
{
    lemma_kinds();
    lemma_started();
    reveal_strlit("...");
    if is_kind(value, "item.started"@) && says(item, "type"@, "command_execution"@) && says(
        item,
        "command"@,
        words,
    ) {
        let a = "\n> running: "@;
        let told = text::truncated(words, 200);
        let chunk = streams::codex_chunks(state, value)[0];
        text::parts_are_held(a, told, "\n"@);
        if words.len() > 200 {
            assert(told.subrange(0, 197) =~= words.take(197));
            assert(text::occurs_at(told, words.take(197), 0));
            text::parts_of_parts_are_held(chunk, told, words.take(197));
        }
    }
}

proof fn lemma_started()
    ensures
        "item.started"@ != "thread.started"@,
        "item.started"@ != "turn.failed"@,
        "item.started"@ != "error"@,
{
    reveal_strlit("item.started");
    reveal_strlit("thread.started");
    reveal_strlit("turn.failed");
    reveal_strlit("error");
    assert("item.started"@.len() == 12 && "thread.started"@.len() == 14);
    assert("turn.failed"@.len() == 11 && "error"@.len() == 5);
}

/// A line that cannot be read is told, with the harness it came from.
pub proof fn unreadable_lines_are_told(label: Seq<char>, line: Seq<char>)
    ensures
        text::holds(streams::unparsed(label, line), label),
        line.len() <= 200 ==> text::holds(streams::unparsed(label, line), line),
        line.len() > 200 ==> text::holds(streams::unparsed(label, line), line.take(197)),
{
    let a = "parse "@;
    let b = " stream line: "@;
    let told = text::truncated(line, 200);
    let all = streams::unparsed(label, line);
    text::parts_are_held(a, label, b + told);
    assert(all =~= a + label + (b + told));
    text::parts_are_held(a + label + b, told, Seq::empty());
    assert(all =~= a + label + b + told + Seq::<char>::empty());
    if line.len() > 200 {
        reveal_strlit("...");
        assert(told.subrange(0, 197) =~= line.take(197));
        assert(text::occurs_at(told, line.take(197), 0));
        text::parts_of_parts_are_held(all, told, line.take(197));
    }
}

/// What a failed turn is told as names the harness and tells what it said: the
/// failure it reported, or else how it exited and what it printed.
pub proof fn failures_are_told_in_full(
    label: Seq<char>,
    end: StreamEnd,
    success: bool,
    status: Seq<char>,
    stderr: Seq<char>,
)
    ensures
        end.failure matches Some(words) ==> told(
            drive::ended(label, end, success, status, stderr),
            label,
            words,
        ),
        end.failure is None && !success ==> told(
            drive::ended(label, end, success, status, stderr),
            label,
            status,
        ) && told(
            drive::ended(label, end, success, status, stderr),
            label,
            drive::stderr_tail(stderr, label),
        ),
        end.failure is None && success && text::is_blank(end.reply) ==> told(
            drive::ended(label, end, success, status, stderr),
            label,
            drive::stderr_tail(stderr, label),
        ),
        told(
            drive::stopped(Stop::TimedOut, label, stderr, end.resume_token),
            label,
            drive::stderr_tail(stderr, label),
        ),
{
    let tail = drive::stderr_tail(stderr, label);
    if let Some(words) = end.failure {
        lemma_told(label, ": "@, words);
    }
    lemma_told(label, " exited with "@, status);
    lemma_told(label + " exited with "@ + status, ": "@, tail);
    let message = label + " exited with "@ + status + ": "@ + tail;
    text::parts_of_parts_are_held(message, label + " exited with "@ + status, status);
    assert(message.subrange(0, label.len() as int) =~= label);
    lemma_told(label, " exited cleanly without producing a reply: "@, tail);
    lemma_told(label, " timed out after 30 minutes: "@, tail);
}

/// The outcome's error starts with the harness and holds the words.
pub open spec fn told(outcome: OutcomeView, label: Seq<char>, words: Seq<char>) -> bool {
    &&& outcome.error is Some
    &&& text::occurs_at(outcome.error->0, label, 0)
    &&& text::holds(outcome.error->0, words)
}

proof fn lemma_told(label: Seq<char>, between: Seq<char>, words: Seq<char>)
    ensures
        text::occurs_at(label + between + words, label, 0),
        text::holds(label + between + words, label),
        text::holds(label + between + words, words),
{
    let all = label + between + words;
    assert(all.subrange(0, label.len() as int) =~= label);
    assert(text::occurs_at(all, label, 0));
    text::parts_are_held(label + between, words, Seq::empty());
    assert(label + between + words + Seq::<char>::empty() =~= all);
}

/// A harness is stopped for a cancel only where cancels are watched for and one
/// was asked for; else it goes on.
pub proof fn only_a_cancel_stops(
    before: HarnessStream,
    watched: bool,
    cancelled: bool,
    after: HarnessStream,
    step: ReadStep,
)
    requires
        drive::read_step(
            before,
            ReadEvent::CancelChanged { watched, cancelled },
            after,
            step,
        ),
    ensures
        after == before,
        watched && cancelled <==> step is Kill,
        !(watched && cancelled) ==> step is Go,
{
}

/// A turn that is done says that its work is complete, in the words of the
/// reply.
pub proof fn replies_are_complete(reply: Seq<char>, label: Seq<char>)
    ensures
        drive::reply_envelope(reply, label).work_complete,
        !drive::reply_envelope(reply, label).cannot_proceed,
        drive::reply_envelope(reply, label).body_markdown == reply,
        drive::reply_envelope(reply, label).questions.len() == 0,
{
}

/// The mock echoes what it was asked, and can be resumed.
pub proof fn the_mock_echoes(session: SessionId, seq: i64, input: Seq<char>)
    ensures
        drive::mock_outcome(session, seq, input).status == AdapterStatus::Done,
        drive::mock_outcome(session, seq, input).error is None,
        drive::mock_outcome(session, seq, input).envelope is Some,
        drive::mock_outcome(session, seq, input).envelope->0.body_markdown == "echo: "@ + input,
        drive::mock_outcome(session, seq, input).resume_token == Some(
            "mock-"@ + outside::id_text(session),
        ),
{
}

/// A turn that the user cancelled says so.
pub proof fn cancelled_turns_say_so(label: Seq<char>, stderr: Seq<char>, token: Option<Seq<char>>)
    ensures
        drive::stopped(Stop::Cancelled, label, stderr, token).status == AdapterStatus::Cancelled,
        drive::stopped(Stop::Cancelled, label, stderr, token).error == Some(
            "cancelled by the user"@,
        ),
        drive::stopped(Stop::Cancelled, label, stderr, token).envelope is None,
        drive::stopped(Stop::TimedOut, label, stderr, token).status == AdapterStatus::Error,
{
}

} // verus!
