//! What the harnesses print: one JSON value a line, read into chunks of text,
//! a reply, a resume token and, where it went wrong, a failure.

use vstd::prelude::*;

use crate::json;
use crate::json::Json;
use crate::json::JsonView;
use crate::names;
use crate::text;

verus! {

// ---------------------------------------------------------------------------
// Text in a message
// ---------------------------------------------------------------------------

/// One optional text as a list.
pub open spec fn one(text: Option<Seq<char>>) -> Seq<Seq<char>> {
    match text {
        Some(text) => seq![text],
        None => Seq::empty(),
    }
}

/// The text of a content block: a text block's text, and the text of a delta.
pub open spec fn block_text(block: JsonView) -> Seq<Seq<char>> {
    let plain = if json::text_in(json::member(block, "type"@)) == Some("text"@) {
        one(json::text_in(json::member(block, "text"@)))
    } else {
        Seq::empty()
    };
    plain + one(json::text_in(json::member_of(json::member(block, "delta"@), "text"@)))
}

/// The texts of some content: of a block, or of every item of a list.
pub open spec fn content_text(content: JsonView) -> Seq<Seq<char>>
    decreases content, 0nat,
{
    match content {
        JsonView::Array(items) => items_text(items, items.len()),
        JsonView::Object(_) => block_text(content),
        _ => Seq::empty(),
    }
}

/// The texts of the first `n` items of a list.
pub open spec fn items_text(items: Seq<JsonView>, n: nat) -> Seq<Seq<char>>
    decreases items, n,
{
    if n == 0 || n > items.len() {
        Seq::empty()
    } else {
        items_text(items, (n - 1) as nat) + content_text(items[n - 1])
    }
}

/// The texts of optional content.
pub open spec fn opt_content(content: Option<JsonView>) -> Seq<Seq<char>> {
    match content {
        Some(content) => content_text(content),
        None => Seq::empty(),
    }
}

/// The texts that an assistant message adds.
pub open spec fn assistant_text(value: JsonView) -> Seq<Seq<char>> {
    let message = json::member(value, "message"@);
    one(json::text_in(json::member_of(json::member(value, "delta"@), "text"@))) + one(
        json::text_in(json::member(value, "text"@)),
    ) + opt_content(json::member_of(message, "content"@)) + one(
        json::text_in(json::member_of(message, "text"@)),
    ) + opt_content(json::member(value, "content"@))
}

/// All of some texts, where there are any.
pub open spec fn all_of(texts: Seq<Seq<char>>) -> Option<Seq<char>> {
    if texts.len() == 0 {
        None
    } else {
        Some(text::together(texts))
    }
}

/// The first of two that is there.
pub open spec fn either(a: Option<Seq<char>>, b: Option<Seq<char>>) -> Option<Seq<char>> {
    if a is Some {
        a
    } else {
        b
    }
}

/// The text of a result message: its `result`, else its `text`, else what its
/// message or it itself has for content.
pub open spec fn result_of(value: JsonView) -> Option<Seq<char>> {
    let result = json::member(value, "result"@);
    either(
        either(json::text_in(result), all_of(opt_content(result))),
        either(
            json::text_in(json::member(value, "text"@)),
            either(
                all_of(
                    opt_content(json::member_of(json::member(value, "message"@), "content"@)),
                ),
                all_of(opt_content(json::member(value, "content"@))),
            ),
        ),
    )
}

/// The session that a message belongs to.
pub open spec fn session_of(value: JsonView) -> Option<Seq<char>> {
    either(
        json::text_in(json::member(value, "session_id"@)),
        json::text_in(json::member_of(json::member(value, "message"@), "session_id"@)),
    )
}

/// Adds a text, where it is there.
fn add_text(chunks: &mut Vec<String>, found: Option<String>)
    ensures
        text::texts(final(chunks)@) == text::texts(old(chunks)@) + one(text::opt_text(found)),
{
    let ghost before = chunks@;
    match found {
        Some(found) => {
            let ghost added = found@;
            chunks.push(found);
            assert(text::texts(chunks@) =~= text::texts(before) + seq![added]);
        },
        None => {
            assert(text::texts(chunks@) =~= text::texts(before) + Seq::empty());
        },
    }
}

/// Adds the texts of some content.
pub fn collect_content_text(content: &Json, chunks: &mut Vec<String>)
    ensures
        text::texts(final(chunks)@) == text::texts(old(chunks)@) + content_text(content@),
    decreases content,
{
    let ghost before = text::texts(chunks@);
    match content {
        Json::Array(items) => {
            let ghost all = content@->Array_0;
            let mut i: usize = 0;
            assert(text::texts(chunks@) =~= before + items_text(all, 0));
            while i < items.len()
                invariant
                    i <= items@.len(),
                    *content == Json::Array(*items),
                    content@ == JsonView::Array(all),
                    all.len() == items@.len(),
                    text::texts(chunks@) == before + items_text(all, i as nat),
                decreases items@.len() - i,
            {
                proof {
                    assert(decreases_to!(*content => content->Array_0));
                    assert(decreases_to!(items@ => items@[i as int]));
                    assert(decreases_to!(*content => items@[i as int]));
                    assert(all[i as int] == items@[i as int]@);
                }
                collect_content_text(&items[i], chunks);
                i += 1;
                proof {
                    assert(text::texts(chunks@) =~= before + items_text(all, i as nat));
                }
            }
        },
        Json::Object(_) => {
            let is_text: bool = match content.text_at("type") {
                Some(kind) => text::same_text(&kind, "text"),
                None => false,
            };
            if is_text {
                add_text(chunks, content.text_at("text"));
            }
            let delta: Option<String> = match content.get("delta") {
                Some(delta) => delta.text_at("text"),
                None => None,
            };
            add_text(chunks, delta);
            assert(text::texts(chunks@) =~= before + block_text(content@));
        },
        _ => {
            assert(text::texts(chunks@) =~= before + content_text(content@));
        },
    }
}

/// Adds the texts of optional content.
fn collect_optional(content: Option<&Json>, chunks: &mut Vec<String>)
    ensures
        text::texts(final(chunks)@) == text::texts(old(chunks)@) + opt_content(
            json::opt_json(content),
        ),
{
    let ghost before = text::texts(chunks@);
    match content {
        Some(content) => collect_content_text(content, chunks),
        None => {
            assert(text::texts(chunks@) =~= before + Seq::<Seq<char>>::empty());
        },
    }
}

/// A member of an optional value.
fn get_in<'a>(value: Option<&'a Json>, key: &str) -> (found: Option<&'a Json>)
    ensures
        json::opt_json(found) == json::member_of(json::opt_json(value), key@),
{
    match value {
        Some(value) => value.get(key),
        None => None,
    }
}

/// The text of a member of an optional value.
fn text_at_in(value: Option<&Json>, key: &str) -> (found: Option<String>)
    ensures
        text::opt_text(found) == json::text_in(json::member_of(json::opt_json(value), key@)),
{
    match value {
        Some(value) => value.text_at(key),
        None => None,
    }
}

/// The session that a message belongs to.
pub fn session_id_from(value: &Json) -> (id: Option<String>)
    ensures
        text::opt_text(id) == session_of(value@),
{
    match value.text_at("session_id") {
        Some(id) => Some(id),
        None => text_at_in(value.get("message"), "session_id"),
    }
}

/// The texts that an assistant message adds.
pub fn assistant_text_chunks(value: &Json) -> (chunks: Vec<String>)
    ensures
        text::texts(chunks@) == assistant_text(value@),
{
    let mut chunks: Vec<String> = Vec::new();
    assert(text::texts(chunks@) =~= Seq::empty());
    let message: Option<&Json> = value.get("message");
    add_text(&mut chunks, text_at_in(value.get("delta"), "text"));
    assert(text::texts(chunks@) =~= one(
        json::text_in(json::member_of(json::member(value@, "delta"@), "text"@)),
    ));
    add_text(&mut chunks, value.text_at("text"));
    collect_optional(get_in(message, "content"), &mut chunks);
    add_text(&mut chunks, text_at_in(message, "text"));
    collect_optional(value.get("content"), &mut chunks);
    chunks
}

/// All the text of optional content, where there is any.
fn content_whole(content: Option<&Json>) -> (whole: Option<String>)
    ensures
        text::opt_text(whole) == all_of(opt_content(json::opt_json(content))),
{
    let mut chunks: Vec<String> = Vec::new();
    assert(text::texts(chunks@) =~= Seq::empty());
    collect_optional(content, &mut chunks);
    assert(text::texts(chunks@) =~= opt_content(json::opt_json(content)));
    if chunks.len() == 0 {
        None
    } else {
        Some(text::concat(&chunks))
    }
}

/// The text of a result message.
pub fn result_text(value: &Json) -> (found: Option<String>)
    ensures
        text::opt_text(found) == result_of(value@),
{
    let result: Option<&Json> = value.get("result");
    if let Some(Json::Text(text)) = result {
        return Some(text.clone());
    }
    let whole: Option<String> = content_whole(result);
    if whole.is_some() {
        return whole;
    }
    let plain: Option<String> = value.text_at("text");
    if plain.is_some() {
        return plain;
    }
    let inner: Option<String> = content_whole(get_in(value.get("message"), "content"));
    if inner.is_some() {
        return inner;
    }
    content_whole(value.get("content"))
}

/// The kind of a message.
pub open spec fn kind_of(value: JsonView) -> Option<Seq<char>> {
    json::text_in(json::member(value, "type"@))
}

/// Whether an optional text is this one.
fn is_text(found: &Option<String>, wanted: &str) -> (yes: bool)
    ensures
        yes == (text::opt_text(*found) == Some(wanted@)),
{
    match found {
        Some(found) => text::same_text(found, wanted),
        None => false,
    }
}

/// What is said of a line that is no JSON value.
pub open spec fn unparsed(label: Seq<char>, line: Seq<char>) -> Seq<char> {
    "parse "@ + label + " stream line: "@ + text::truncated(line, 200)
}

/// What is said of a line that is no JSON value.
fn unparsed_text(label: &str, line: &str) -> (message: String)
    ensures
        message@ == unparsed(label@, line@),
{
    let mut message: String = "parse ".to_string();
    message.append(label);
    message.append(" stream line: ");
    message.append(&text::truncate_chars(line, 200));
    message
}

// ---------------------------------------------------------------------------
// The stream-json of Anthropic's CLI
// ---------------------------------------------------------------------------

/// What was read of the output of Anthropic's CLI.
#[derive(Debug)]
pub struct ClaudeStream {
    resume_token: Option<String>,
    streamed_reply: String,
    final_reply: Option<String>,
    failure: Option<String>,
    capped: bool,
}

/// The view of what was read of the output of Anthropic's CLI.
pub struct ClaudeView {
    pub resume_token: Option<Seq<char>>,
    pub streamed_reply: Seq<char>,
    pub final_reply: Option<Seq<char>>,
    pub failure: Option<Seq<char>>,
    pub capped: bool,
}

impl View for ClaudeStream {
    type V = ClaudeView;

    closed spec fn view(&self) -> ClaudeView {
        ClaudeView {
            resume_token: text::opt_text(self.resume_token),
            streamed_reply: self.streamed_reply@,
            final_reply: text::opt_text(self.final_reply),
            failure: text::opt_text(self.failure),
            capped: self.capped,
        }
    }
}

/// Before the first line.
pub open spec fn claude_start() -> ClaudeView {
    ClaudeView {
        resume_token: None,
        streamed_reply: Seq::empty(),
        final_reply: None,
        failure: None,
        capped: false,
    }
}

/// The status that a rate limit event reports.
pub open spec fn limit_status(value: JsonView) -> Seq<char> {
    match json::text_in(json::member_of(json::member(value, "rate_limit_info"@), "status"@)) {
        Some(status) => status,
        None => "allowed"@,
    }
}

/// The effect of one message of Anthropic's CLI. The first session identifier is
/// the one to resume; a result is the reply, or a failure; a rate limit event
/// that does not allow going on caps the turn.
pub open spec fn claude_next(state: ClaudeView, value: JsonView) -> ClaudeView {
    let state = ClaudeView {
        resume_token: either(state.resume_token, session_of(value)),
        ..state
    };
    if kind_of(value) == Some("assistant"@) {
        ClaudeView {
            streamed_reply: state.streamed_reply + text::together(assistant_text(value)),
            ..state
        }
    } else if kind_of(value) == Some("result"@) {
        if json::flag_in(json::member(value, "is_error"@)) == Some(true) {
            ClaudeView {
                failure: either(
                    result_of(value),
                    Some(names::anthropic_cli() + " reported an error"@),
                ),
                ..state
            }
        } else {
            ClaudeView { final_reply: either(result_of(value), state.final_reply), ..state }
        }
    } else if kind_of(value) == Some("rate_limit_event"@) {
        ClaudeView { capped: state.capped || limit_status(value) != "allowed"@, ..state }
    } else {
        state
    }
}

/// The chunks that a message streams to the client.
pub open spec fn streamed(value: JsonView) -> Seq<Seq<char>> {
    if kind_of(value) == Some("assistant"@) {
        assistant_text(value)
    } else {
        Seq::empty()
    }
}

/// What one line does to a stream, given what one message does.
pub open spec fn line_result<S>(
    before: S,
    after: S,
    line: Seq<char>,
    next: spec_fn(S, JsonView) -> S,
    chunks_of: spec_fn(S, JsonView) -> Seq<Seq<char>>,
    label: Seq<char>,
    result: Result<Seq<Seq<char>>, Seq<char>>,
) -> bool {
    let line = text::trimmed(line);
    if line.len() == 0 {
        result == Ok::<_, Seq<char>>(Seq::<Seq<char>>::empty()) && after == before
    } else {
        match json::json_in(line) {
            Some(value) => after == next(before, value) && result == Ok::<_, Seq<char>>(
                chunks_of(before, value),
            ),
            None => after == before && result == Err::<Seq<Seq<char>>, _>(unparsed(label, line)),
        }
    }
}

/// The view of what a line gave.
pub open spec fn chunks_view(result: Result<Vec<String>, String>) -> Result<
    Seq<Seq<char>>,
    Seq<char>,
> {
    match result {
        Ok(chunks) => Ok(text::texts(chunks@)),
        Err(message) => Err(message@),
    }
}

/// Appends the chunks to a reply.
fn extend_reply(reply: &mut String, chunks: &Vec<String>)
    ensures
        final(reply)@ == old(reply)@ + text::together(text::texts(chunks@)),
{
    let whole: String = text::concat(chunks);
    reply.append(&whole);
}

/// The flag of the `is_error` member.
fn is_error(value: &Json) -> (yes: bool)
    ensures
        yes == (json::flag_in(json::member(value@, "is_error"@)) == Some(true)),
{
    match value.flag_at("is_error") {
        Some(flag) => flag,
        None => false,
    }
}

impl Default for ClaudeStream {
    fn default() -> (stream: Self)
        ensures
            stream@ == claude_start(),
    {
        let stream: ClaudeStream = ClaudeStream {
            resume_token: None,
            streamed_reply: String::new(),
            final_reply: None,
            failure: None,
            capped: false,
        };
        assert(stream@.streamed_reply =~= Seq::empty());
        stream
    }
}

impl ClaudeStream {
    /// Takes one message; gives the chunks to stream to the client.
    pub fn ingest(&mut self, value: &Json) -> (chunks: Vec<String>)
        ensures
            final(self)@ == claude_next(old(self)@, value@),
            text::texts(chunks@) == streamed(value@),
    {
        if self.resume_token.is_none() {
            self.resume_token = session_id_from(value);
        }
        let kind: Option<String> = value.text_at("type");
        let mut chunks: Vec<String> = Vec::new();
        assert(text::texts(chunks@) =~= Seq::empty());
        if is_text(&kind, "assistant") {
            chunks = assistant_text_chunks(value);
            extend_reply(&mut self.streamed_reply, &chunks);
        } else if is_text(&kind, "result") {
            let text: Option<String> = result_text(value);
            if is_error(value) {
                self.failure = match text {
                    Some(text) => Some(text),
                    None => {
                        let mut message: String = names::anthropic_cli_name();
                        message.append(" reported an error");
                        Some(message)
                    },
                };
            } else if text.is_some() {
                self.final_reply = text;
            }
        } else if is_text(&kind, "rate_limit_event") {
            let status: Option<String> = text_at_in(value.get("rate_limit_info"), "status");
            if let Some(status) = status {
                if !text::same_text(&status, "allowed") {
                    self.capped = true;
                }
            }
        }
        chunks
    }

    /// Takes one line of output; gives the chunks to stream to the client.
    pub fn ingest_line(&mut self, line: &str) -> (result: Result<Vec<String>, String>)
        ensures
            line_result(
                old(self)@,
                final(self)@,
                line@,
                |state: ClaudeView, value: JsonView| claude_next(state, value),
                |state: ClaudeView, value: JsonView| streamed(value),
                names::anthropic_cli(),
                chunks_view(result),
            ),
    {
        let line: String = text::trim(line);
        if line.as_str().is_empty() {
            let none: Vec<String> = Vec::new();
            assert(text::texts(none@) =~= Seq::empty());
            return Ok(none);
        }
        match json::parse(&line) {
            Some(value) => Ok(self.ingest(&value)),
            None => Err(unparsed_text(&names::anthropic_cli_name(), &line)),
        }
    }

    /// The session to resume.
    pub fn resume_token(&self) -> (token: Option<String>)
        ensures
            text::opt_text(token) == self@.resume_token,
    {
        text::clone_opt(&self.resume_token)
    }

    /// The reply: the result, else what was streamed.
    pub fn reply_text(&self) -> (reply: String)
        ensures
            reply@ == (match self@.final_reply {
                Some(reply) => reply,
                None => self@.streamed_reply,
            }),
    {
        match &self.final_reply {
            Some(reply) => reply.clone(),
            None => self.streamed_reply.clone(),
        }
    }

    /// A fatal error that the stream itself reported.
    pub fn failure(&self) -> (failure: Option<String>)
        ensures
            text::opt_text(failure) == self@.failure,
    {
        text::clone_opt(&self.failure)
    }

    /// Whether the stream said that the plan or rate limit is exhausted.
    pub fn capped_hint(&self) -> (capped: bool)
        ensures
            capped == self@.capped,
    {
        self.capped
    }
}

// ---------------------------------------------------------------------------
// Codex `exec --json`
// ---------------------------------------------------------------------------

/// What was read of Codex's output.
#[derive(Debug)]
pub struct CodexStream {
    thread_id: Option<String>,
    messages: Vec<String>,
    failure: Option<String>,
}

/// The view of what was read of Codex's output.
#[verifier::ext_equal]
pub struct CodexView {
    pub thread_id: Option<Seq<char>>,
    pub messages: Seq<Seq<char>>,
    pub failure: Option<Seq<char>>,
}

impl View for CodexStream {
    type V = CodexView;

    closed spec fn view(&self) -> CodexView {
        CodexView {
            thread_id: text::opt_text(self.thread_id),
            messages: text::texts(self.messages@),
            failure: text::opt_text(self.failure),
        }
    }
}

/// Before the first line.
pub open spec fn codex_start() -> CodexView {
    CodexView { thread_id: None, messages: Seq::empty(), failure: None }
}

/// The text of a completed agent message, where the message is one and says
/// anything.
pub open spec fn agent_message(value: JsonView) -> Option<Seq<char>> {
    let item = json::member(value, "item"@);
    let said = json::text_in(json::member_of(item, "text"@));
    if kind_of(value) == Some("item.completed"@) && json::text_in(
        json::member_of(item, "type"@),
    ) == Some("agent_message"@) && said is Some && said->0.len() > 0 {
        said
    } else {
        None
    }
}

/// The command that a started item runs, where it runs one.
pub open spec fn started_command(value: JsonView) -> Option<Seq<char>> {
    let item = json::member(value, "item"@);
    if kind_of(value) == Some("item.started"@) && json::text_in(json::member_of(item, "type"@))
        == Some("command_execution"@) {
        json::text_in(json::member_of(item, "command"@))
    } else {
        None
    }
}

/// The effect of one message of Codex. The last thread identifier is the one
/// to resume; a completed agent message adds to the reply; a failed turn and a
/// stream error are failures, an item that failed is not.
pub open spec fn codex_next(state: CodexView, value: JsonView) -> CodexView {
    if kind_of(value) == Some("thread.started"@) {
        CodexView {
            thread_id: either(
                json::text_in(json::member(value, "thread_id"@)),
                state.thread_id,
            ),
            ..state
        }
    } else if agent_message(value) is Some {
        CodexView { messages: state.messages.push(agent_message(value)->0), ..state }
    } else if kind_of(value) == Some("turn.failed"@) {
        CodexView {
            failure: either(
                json::text_in(json::member_of(json::member(value, "error"@), "message"@)),
                Some("codex turn failed"@),
            ),
            ..state
        }
    } else if kind_of(value) == Some("error"@) {
        CodexView {
            failure: either(json::text_in(json::member(value, "message"@)), state.failure),
            ..state
        }
    } else {
        state
    }
}

/// The chunks that a message of Codex streams to the client.
pub open spec fn codex_chunks(state: CodexView, value: JsonView) -> Seq<Seq<char>> {
    match agent_message(value) {
        Some(said) => if state.messages.len() == 0 {
            seq![said]
        } else {
            seq!["\n\n"@ + said]
        },
        None => match started_command(value) {
            Some(command) => seq!["\n> running: "@ + text::truncated(command, 200) + "\n"@],
            None => Seq::empty(),
        },
    }
}

/// A list of one text.
fn only(text: String) -> (list: Vec<String>)
    ensures
        text::texts(list@) == seq![text@],
{
    let mut list: Vec<String> = Vec::new();
    let ghost view = text@;
    list.push(text);
    assert(text::texts(list@) =~= seq![view]);
    list
}

/// No text at all.
fn nothing() -> (list: Vec<String>)
    ensures
        text::texts(list@) == Seq::<Seq<char>>::empty(),
{
    let list: Vec<String> = Vec::new();
    assert(text::texts(list@) =~= Seq::empty());
    list
}

impl Default for CodexStream {
    fn default() -> (stream: Self)
        ensures
            stream@ == codex_start(),
    {
        let stream: CodexStream = CodexStream {
            thread_id: None,
            messages: Vec::new(),
            failure: None,
        };
        assert(stream@.messages =~= Seq::empty());
        stream
    }
}

impl CodexStream {
    /// Takes a completed item.
    fn item_completed(&mut self, value: &Json) -> (chunks: Vec<String>)
        requires
            kind_of(value@) == Some("item.completed"@),
        ensures
            final(self)@ == codex_next(old(self)@, value@),
            text::texts(chunks@) == codex_chunks(old(self)@, value@),
    {
        proof {
            reveal_strlit("item.completed");
            reveal_strlit("thread.started");
            reveal_strlit("turn.failed");
            reveal_strlit("error");
            reveal_strlit("item.started");
            assert("item.completed"@ != "thread.started"@) by {
                assert("item.completed"@[0] != "thread.started"@[0]);
            }
            assert("item.completed"@ != "turn.failed"@) by {
                assert("item.completed"@.len() != "turn.failed"@.len());
            }
            assert("item.completed"@ != "error"@) by {
                assert("item.completed"@.len() != "error"@.len());
            }
            assert("item.completed"@ != "item.started"@) by {
                assert("item.completed"@.len() != "item.started"@.len());
            }
        }
        let item: Option<&Json> = value.get("item");
        let kind: Option<String> = text_at_in(item, "type");
        if !is_text(&kind, "agent_message") {
            return nothing();
        }
        let said: String = match text_at_in(item, "text") {
            Some(said) => said,
            None => {
                return nothing();
            },
        };
        if said.as_str().is_empty() {
            return nothing();
        }
        let chunk: String = if self.messages.len() == 0 {
            said.clone()
        } else {
            let mut chunk: String = "\n\n".to_string();
            chunk.append(&said);
            chunk
        };
        let ghost before = self.messages@;
        let ghost text = said@;
        self.messages.push(said);
        assert(text::texts(self.messages@) =~= text::texts(before).push(text));
        only(chunk)
    }

    /// Takes a started item.
    fn item_started(&self, value: &Json) -> (chunks: Vec<String>)
        requires
            kind_of(value@) == Some("item.started"@),
        ensures
            text::texts(chunks@) == codex_chunks(self@, value@),
            codex_next(self@, value@) == self@,
    {
        proof {
            reveal_strlit("item.started");
            reveal_strlit("item.completed");
            reveal_strlit("thread.started");
            reveal_strlit("turn.failed");
            reveal_strlit("error");
            assert("item.started"@.len() != "item.completed"@.len());
            assert("item.started"@.len() != "thread.started"@.len());
            assert("item.started"@.len() != "turn.failed"@.len());
            assert("item.started"@.len() != "error"@.len());
        }
        let item: Option<&Json> = value.get("item");
        let kind: Option<String> = text_at_in(item, "type");
        if !is_text(&kind, "command_execution") {
            return nothing();
        }
        match text_at_in(item, "command") {
            Some(command) => {
                let mut chunk: String = "\n> running: ".to_string();
                chunk.append(&text::truncate_chars(&command, 200));
                chunk.append("\n");
                only(chunk)
            },
            None => nothing(),
        }
    }

    /// Takes one message; gives the chunks to stream to the client.
    pub fn ingest(&mut self, value: &Json) -> (chunks: Vec<String>)
        ensures
            final(self)@ == codex_next(old(self)@, value@),
            text::texts(chunks@) == codex_chunks(old(self)@, value@),
    {
        let kind: Option<String> = value.text_at("type");
        if is_text(&kind, "item.completed") {
            return self.item_completed(value);
        }
        if is_text(&kind, "item.started") {
            return self.item_started(value);
        }
        if is_text(&kind, "thread.started") {
            let id: Option<String> = value.text_at("thread_id");
            if id.is_some() {
                self.thread_id = id;
            }
        } else if is_text(&kind, "turn.failed") {
            self.failure = match text_at_in(value.get("error"), "message") {
                Some(message) => Some(message),
                None => Some("codex turn failed".to_string()),
            };
        } else if is_text(&kind, "error") {
            let message: Option<String> = value.text_at("message");
            if message.is_some() {
                self.failure = message;
            }
        }
        nothing()
    }

    /// Takes one line of output; gives the chunks to stream to the client.
    pub fn ingest_line(&mut self, line: &str) -> (result: Result<Vec<String>, String>)
        ensures
            line_result(
                old(self)@,
                final(self)@,
                line@,
                |state: CodexView, value: JsonView| codex_next(state, value),
                |state: CodexView, value: JsonView| codex_chunks(state, value),
                "codex"@,
                chunks_view(result),
            ),
    {
        let line: String = text::trim(line);
        if line.as_str().is_empty() {
            return Ok(nothing());
        }
        match json::parse(&line) {
            Some(value) => Ok(self.ingest(&value)),
            None => Err(unparsed_text("codex", &line)),
        }
    }

    /// The thread to resume.
    pub fn resume_token(&self) -> (token: Option<String>)
        ensures
            text::opt_text(token) == self@.thread_id,
    {
        text::clone_opt(&self.thread_id)
    }

    /// The reply: every agent message, a blank line between them.
    pub fn reply_text(&self) -> (reply: String)
        ensures
            reply@ == text::joined(self@.messages, "\n\n"@),
    {
        text::join(&self.messages, "\n\n")
    }

    /// A fatal error that the stream itself reported.
    pub fn failure(&self) -> (failure: Option<String>)
        ensures
            text::opt_text(failure) == self@.failure,
    {
        text::clone_opt(&self.failure)
    }
}

// ---------------------------------------------------------------------------
// Cursor `agent -p --output-format stream-json`
// ---------------------------------------------------------------------------

/// What was read of Cursor's output.
#[derive(Debug)]
pub struct CursorStream {
    session_id: Option<String>,
    streamed_reply: String,
    final_reply: Option<String>,
    failure: Option<String>,
}

/// The view of what was read of Cursor's output.
pub struct CursorView {
    pub session_id: Option<Seq<char>>,
    pub streamed_reply: Seq<char>,
    pub final_reply: Option<Seq<char>>,
    pub failure: Option<Seq<char>>,
}

impl View for CursorStream {
    type V = CursorView;

    closed spec fn view(&self) -> CursorView {
        CursorView {
            session_id: text::opt_text(self.session_id),
            streamed_reply: self.streamed_reply@,
            final_reply: text::opt_text(self.final_reply),
            failure: text::opt_text(self.failure),
        }
    }
}

/// Before the first line.
pub open spec fn cursor_start() -> CursorView {
    CursorView {
        session_id: None,
        streamed_reply: Seq::empty(),
        final_reply: None,
        failure: None,
    }
}

/// The effect of one message of Cursor. The first session identifier is the
/// one to resume; a result is the reply, or a failure.
pub open spec fn cursor_next(state: CursorView, value: JsonView) -> CursorView {
    let state = CursorView {
        session_id: either(state.session_id, session_of(value)),
        ..state
    };
    if kind_of(value) == Some("assistant"@) {
        CursorView {
            streamed_reply: state.streamed_reply + text::together(assistant_text(value)),
            ..state
        }
    } else if kind_of(value) == Some("result"@) {
        if json::flag_in(json::member(value, "is_error"@)) == Some(true) {
            CursorView {
                failure: either(result_of(value), Some("cursor reported an error"@)),
                ..state
            }
        } else {
            CursorView { final_reply: either(result_of(value), state.final_reply), ..state }
        }
    } else {
        state
    }
}

impl Default for CursorStream {
    fn default() -> (stream: Self)
        ensures
            stream@ == cursor_start(),
    {
        let stream: CursorStream = CursorStream {
            session_id: None,
            streamed_reply: String::new(),
            final_reply: None,
            failure: None,
        };
        assert(stream@.streamed_reply =~= Seq::empty());
        stream
    }
}

impl CursorStream {
    /// Takes one message; gives the chunks to stream to the client.
    pub fn ingest(&mut self, value: &Json) -> (chunks: Vec<String>)
        ensures
            final(self)@ == cursor_next(old(self)@, value@),
            text::texts(chunks@) == streamed(value@),
    {
        if self.session_id.is_none() {
            self.session_id = session_id_from(value);
        }
        let kind: Option<String> = value.text_at("type");
        if is_text(&kind, "assistant") {
            let chunks: Vec<String> = assistant_text_chunks(value);
            extend_reply(&mut self.streamed_reply, &chunks);
            return chunks;
        }
        if is_text(&kind, "result") {
            let text: Option<String> = result_text(value);
            if is_error(value) {
                self.failure = match text {
                    Some(text) => Some(text),
                    None => Some("cursor reported an error".to_string()),
                };
            } else if text.is_some() {
                self.final_reply = text;
            }
        }
        nothing()
    }

    /// Takes one line of output; gives the chunks to stream to the client.
    pub fn ingest_line(&mut self, line: &str) -> (result: Result<Vec<String>, String>)
        ensures
            line_result(
                old(self)@,
                final(self)@,
                line@,
                |state: CursorView, value: JsonView| cursor_next(state, value),
                |state: CursorView, value: JsonView| streamed(value),
                "cursor"@,
                chunks_view(result),
            ),
    {
        let line: String = text::trim(line);
        if line.as_str().is_empty() {
            return Ok(nothing());
        }
        match json::parse(&line) {
            Some(value) => Ok(self.ingest(&value)),
            None => Err(unparsed_text("cursor", &line)),
        }
    }

    /// The session to resume.
    pub fn resume_token(&self) -> (token: Option<String>)
        ensures
            text::opt_text(token) == self@.session_id,
    {
        text::clone_opt(&self.session_id)
    }

    /// The reply: the result, else what was streamed.
    pub fn reply_text(&self) -> (reply: String)
        ensures
            reply@ == (match self@.final_reply {
                Some(reply) => reply,
                None => self@.streamed_reply,
            }),
    {
        match &self.final_reply {
            Some(reply) => reply.clone(),
            None => self.streamed_reply.clone(),
        }
    }

    /// A fatal error that the stream itself reported.
    pub fn failure(&self) -> (failure: Option<String>)
        ensures
            text::opt_text(failure) == self@.failure,
    {
        text::clone_opt(&self.failure)
    }
}

} // verus!
