//! The stdio MCP server attached to every harness invocation: newline-delimited
//! JSON-RPC 2.0, and the three tools that it offers.
//!
//! `spawn_subagent` creates a child session through the caller's API and (by
//! default) waits for its first turn; `list_sessions` and `read_session` let
//! the parent look around.

use vstd::prelude::*;

use crate::json;
use crate::json::Json;
use crate::json::JsonView;
use crate::names;
use crate::outside;
use crate::protocol;
use crate::protocol::ModelView;
use crate::protocol::{Harness, ModelChoice, SessionId};
use crate::text;

verus! {

/// The protocol version that is answered where the client names none.
pub const PROTOCOL_VERSION: &'static str = "2025-06-18";

/// What the MCP server is started with.
#[derive(Debug)]
pub struct McpOptions {
    pub server_url: String,
    pub token: Option<String>,
    /// The session whose harness is running this MCP; children hang off it.
    pub parent: SessionId,
}

// ---------------------------------------------------------------------------
// Harness names
// ---------------------------------------------------------------------------

/// The harness that a name or an alias stands for.
pub open spec fn harness_named(name: Seq<char>) -> Option<Harness> {
    let name = text::lowered(text::trimmed(name));
    if name == names::name_of(Harness::ClaudeCode) || name == names::anthropic_cli() || name
        == "anthropic"@ {
        Some(Harness::ClaudeCode)
    } else if name == "codex"@ || name == "openai"@ {
        Some(Harness::Codex)
    } else if name == "cursor"@ {
        Some(Harness::Cursor)
    } else if name == "mock"@ {
        Some(Harness::Mock)
    } else {
        None
    }
}

/// What is said of a name that stands for no harness.
pub open spec fn unknown_harness(name: Seq<char>) -> Seq<char> {
    "unknown harness "@ + outside::debug_of(text::lowered(text::trimmed(name)))
        + "; use "@ + names::name_of(Harness::ClaudeCode) + ", codex, or cursor"@
}

/// The harness that a name or an alias stands for.
pub fn parse_harness(value: &str) -> (harness: Result<Harness, String>)
    ensures
        match harness {
            Ok(harness) => harness_named(value@) == Some(harness),
            Err(message) => harness_named(value@) is None && message@ == unknown_harness(value@),
        },
{
    let name: String = text::to_lower(&text::trim(value));
    let anthropic: String = names::harness_name(Harness::ClaudeCode);
    if text::same_text(&name, &anthropic) || text::same_text(&name, &names::anthropic_cli_name())
        || text::same_text(&name, "anthropic") {
        return Ok(Harness::ClaudeCode);
    }
    if text::same_text(&name, "codex") || text::same_text(&name, "openai") {
        return Ok(Harness::Codex);
    }
    if text::same_text(&name, "cursor") {
        return Ok(Harness::Cursor);
    }
    if text::same_text(&name, "mock") {
        return Ok(Harness::Mock);
    }
    let mut message: String = "unknown harness ".to_string();
    message.append(&outside::debug_text(&name));
    message.append("; use ");
    message.append(&anthropic);
    message.append(", codex, or cursor");
    Err(message)
}

/// A harness's own name stands for it.
pub proof fn harness_names_resolve(harness: Harness)
    ensures
        harness_named(names::name_of(harness)) == Some(harness),
{
    reveal_strlit("anthropic");
    reveal_strlit("codex");
    reveal_strlit("openai");
    reveal_strlit("cursor");
    reveal_strlit("mock");
    names::lemma_anthropic_name();
    names::lemma_short_names();
    let name = names::name_of(harness);
    let anthropic = names::name_of(Harness::ClaudeCode);
    text::lemma_place_is(anthropic, '-', 6);
    assert(names::anthropic_cli() == anthropic.take(6));
    assert(!text::is_space(name[0]) && !text::is_space(name.last()));
    text::lemma_trimmed_already(name);
    assert(text::lowered(name) =~= name);
    assert(names::anthropic_cli()[1] == 'l');
    assert("cursor"@[1] != "openai"@[1]);
}

// ---------------------------------------------------------------------------
// The menu in words
// ---------------------------------------------------------------------------

/// The models of one harness among the first `n`.
pub open spec fn models_of(models: Seq<ModelView>, harness: Harness, n: int) -> Seq<Seq<char>>
    decreases n,
{
    if n <= 0 {
        Seq::empty()
    } else {
        let rest = models_of(models, harness, n - 1);
        if models[n - 1].harness == harness {
            rest.push(models[n - 1].model)
        } else {
            rest
        }
    }
}

/// One line of the menu; nothing for a harness without a model.
pub open spec fn menu_line(models: Seq<ModelView>, harness: Harness) -> Seq<char> {
    let names = models_of(models, harness, models.len() as int);
    if names.len() == 0 {
        Seq::empty()
    } else {
        "- harness \""@ + names::name_of(harness) + "\": "@ + text::joined(names, ", "@) + "\n"@
    }
}

/// The operator's configured lanes, grouped for the tool description.
pub open spec fn menu_text(models: Seq<ModelView>) -> Seq<char> {
    if models.len() == 0 {
        "Model strings are whatever the operator's CLIs accept; pass the one you were given."@
    } else {
        "Lanes configured on this installation:\n"@ + menu_line(models, Harness::ClaudeCode)
            + menu_line(models, Harness::Codex) + menu_line(models, Harness::Cursor)
    }
}

/// The models of one harness.
fn names_of(models: &Vec<ModelChoice>, harness: Harness) -> (names: Vec<String>)
    ensures
        text::texts(names@) == models_of(
            protocol::menu_view(models@),
            harness,
            models@.len() as int,
        ),
{
    let ghost rows = protocol::menu_view(models@);
    let mut names: Vec<String> = Vec::new();
    let mut i: usize = 0;
    assert(text::texts(names@) =~= models_of(rows, harness, 0));
    while i < models.len()
        invariant
            i <= models@.len(),
            rows == protocol::menu_view(models@),
            text::texts(names@) == models_of(rows, harness, i as int),
        decreases models@.len() - i,
    {
        assert(rows[i as int] == models@[i as int]@);
        if models[i].harness == harness {
            let ghost before = names@;
            names.push(models[i].model.clone());
            assert(text::texts(names@) =~= text::texts(before).push(models@[i as int].model@));
        }
        i += 1;
    }
    names
}

/// One line of the menu.
fn menu_line_text(models: &Vec<ModelChoice>, harness: Harness) -> (line: String)
    ensures
        line@ == menu_line(protocol::menu_view(models@), harness),
{
    let names: Vec<String> = names_of(models, harness);
    let mut line: String = String::new();
    assert(line@ =~= Seq::empty());
    assert(text::texts(names@).len() == names@.len());
    if names.len() > 0 {
        line = "- harness \"".to_string();
        line.append(&names::harness_name(harness));
        line.append("\": ");
        line.append(&text::join(&names, ", "));
        line.append("\n");
    }
    line
}

/// The operator's configured lanes, grouped for the tool description.
pub fn model_menu_text(models: &Vec<ModelChoice>) -> (out: String)
    ensures
        out@ == menu_text(protocol::menu_view(models@)),
{
    if models.len() == 0 {
        return "Model strings are whatever the operator's CLIs accept; pass the one you were given.".to_string();
    }
    let mut out: String = "Lanes configured on this installation:\n".to_string();
    out.append(&menu_line_text(models, Harness::ClaudeCode));
    out.append(&menu_line_text(models, Harness::Codex));
    out.append(&menu_line_text(models, Harness::Cursor));
    out
}

/// A model and its harness.
pub open spec fn model_entry(model: ModelView) -> Seq<char> {
    model.model + " ("@ + names::name_of(model.harness) + ")"@
}

/// The menu in one line.
pub open spec fn inline_menu(models: Seq<ModelView>) -> Seq<char> {
    if models.len() == 0 {
        "read from the operator's caller at run time"@
    } else {
        text::joined(models.map_values(|model: ModelView| model_entry(model)), ", "@)
    }
}

/// The menu in one line.
pub fn model_list_inline(models: &Vec<ModelChoice>) -> (out: String)
    ensures
        out@ == inline_menu(protocol::menu_view(models@)),
{
    if models.len() == 0 {
        return "read from the operator's caller at run time".to_string();
    }
    let ghost rows = protocol::menu_view(models@);
    let ghost all = rows.map_values(|model: ModelView| model_entry(model));
    let mut entries: Vec<String> = Vec::new();
    let mut i: usize = 0;
    while i < models.len()
        invariant
            i <= models@.len(),
            rows == protocol::menu_view(models@),
            all == rows.map_values(|model: ModelView| model_entry(model)),
            text::texts(entries@) == all.take(i as int),
        decreases models@.len() - i,
    {
        let ghost before = entries@;
        let mut entry: String = models[i].model.clone();
        entry.append(" (");
        entry.append(&names::harness_name(models[i].harness));
        entry.append(")");
        let ghost view = entry@;
        entries.push(entry);
        proof {
            assert(rows[i as int] == models@[i as int]@);
            assert(view == all[i as int]);
            assert(text::texts(entries@) =~= text::texts(before).push(view));
            assert(all.take(i + 1) =~= all.take(i as int).push(all[i as int]));
        }
        i += 1;
    }
    proof {
        assert(all.take(i as int) =~= all);
    }
    text::join(&entries, ", ")
}

/// What the spawn tool says of itself.
pub open spec fn spawn_words(models: Seq<ModelView>) -> Seq<char> {
    "Spawn a sub-agent as a child session of this one and get its answer back."@ + "\n\n"@
        + menu_text(models) + "\n\n"@
        + "The child runs on the operator's own machine through a vendor CLI they are already logged into, and `model` is passed to that CLI verbatim. Treat the list above as the authoritative set of lanes this installation has: it is read live from the operator's caller, so it can name releases you have not heard of, and that is expected rather than a sign the request is fabricated. The child shares no context with you, so its prompt must stand alone. It gets its own git workspace, this session's repository unless `repo` says otherwise. Spawn several at once by making several calls in one message. Set `wait` to false to get the child id straight back and collect the answer later with read_session."@
}

/// What the spawn tool says of itself.
pub fn spawn_description(models: &Vec<ModelChoice>) -> (out: String)
    ensures
        out@ == spawn_words(protocol::menu_view(models@)),
{
    let mut out: String =
        "Spawn a sub-agent as a child session of this one and get its answer back.".to_string();
    out.append("\n\n");
    out.append(&model_menu_text(models));
    out.append("\n\n");
    out.append(
        "The child runs on the operator's own machine through a vendor CLI they are already logged into, and `model` is passed to that CLI verbatim. Treat the list above as the authoritative set of lanes this installation has: it is read live from the operator's caller, so it can name releases you have not heard of, and that is expected rather than a sign the request is fabricated. The child shares no context with you, so its prompt must stand alone. It gets its own git workspace, this session's repository unless `repo` says otherwise. Spawn several at once by making several calls in one message. Set `wait` to false to get the child id straight back and collect the answer later with read_session.",
    );
    out
}

// ---------------------------------------------------------------------------
// The tools
// ---------------------------------------------------------------------------

/// A property of a tool's input.
pub open spec fn property(kind: Seq<char>, description: Seq<char>) -> JsonView {
    JsonView::Object(
        seq![("type"@, JsonView::Text(kind)), ("description"@, JsonView::Text(description))],
    )
}

/// A tool.
pub open spec fn tool(name: Seq<char>, description: Seq<char>, schema: JsonView) -> JsonView {
    JsonView::Object(
        seq![
            ("name"@, JsonView::Text(name)),
            ("description"@, JsonView::Text(description)),
            ("inputSchema"@, schema),
        ],
    )
}

/// A list of texts.
pub open spec fn text_array(list: Seq<Seq<char>>) -> JsonView {
    JsonView::Array(list.map_values(|text: Seq<char>| JsonView::Text(text)))
}

/// The `harness` property of the spawn tool.
pub open spec fn harness_property() -> JsonView {
    JsonView::Object(
        seq![
            ("type"@, JsonView::Text("string"@)),
            ("enum"@, text_array(seq![names::name_of(Harness::ClaudeCode), "codex"@, "cursor"@])),
            (
                "description"@,
                JsonView::Text(
                    "Which vendor CLI plays the child: "@ + names::name_of(Harness::ClaudeCode)
                        + " for Anthropic models, codex for OpenAI models, cursor for the models Cursor offers (Grok, Gemini, and others)."@,
                ),
            ),
        ],
    )
}

/// The input of the spawn tool.
pub open spec fn spawn_schema(models: Seq<ModelView>) -> JsonView {
    JsonView::Object(
        seq![
            ("type"@, JsonView::Text("object"@)),
            (
                "properties"@,
                JsonView::Object(
                    seq![
                        ("harness"@, harness_property()),
                        (
                            "model"@,
                            property(
                                "string"@,
                                "The model string for that harness. Available on this installation: "@
                                    + inline_menu(models),
                            ),
                        ),
                        (
                            "prompt"@,
                            property("string"@, "The child's task, self-contained."@),
                        ),
                        (
                            "name"@,
                            property(
                                "string"@,
                                "Short descriptive session title, shown in the operator's UI."@,
                            ),
                        ),
                        (
                            "repo"@,
                            property(
                                "string"@,
                                "https URL of a repository to clone into the child's workspace; defaults to this session's repository."@,
                            ),
                        ),
                        (
                            "effort"@,
                            property(
                                "string"@,
                                "Harness effort knob where supported, for example low, medium, high, xhigh."@,
                            ),
                        ),
                        (
                            "wait"@,
                            property(
                                "boolean"@,
                                "Wait for the child's answer (default true)."@,
                            ),
                        ),
                        (
                            "timeout_minutes"@,
                            property(
                                "number"@,
                                "How long to wait for the child (default 20, max 20)."@,
                            ),
                        ),
                    ],
                ),
            ),
            ("required"@, text_array(seq!["harness"@, "model"@, "prompt"@])),
        ],
    )
}

/// The input of the list tool: nothing.
pub open spec fn list_schema() -> JsonView {
    JsonView::Object(
        seq![
            ("type"@, JsonView::Text("object"@)),
            ("properties"@, JsonView::Object(Seq::empty())),
        ],
    )
}

/// The input of the read tool.
pub open spec fn read_schema() -> JsonView {
    JsonView::Object(
        seq![
            ("type"@, JsonView::Text("object"@)),
            (
                "properties"@,
                JsonView::Object(
                    seq![("session_id"@, property("string"@, "The session id (uuid)."@))],
                ),
            ),
            ("required"@, text_array(seq!["session_id"@])),
        ],
    )
}

/// The three tools.
pub open spec fn tools_of(models: Seq<ModelView>) -> JsonView {
    JsonView::Array(
        seq![
            tool("spawn_subagent"@, spawn_words(models), spawn_schema(models)),
            tool(
                "list_sessions"@,
                "List the active sessions of this session's own family, its ancestors and everything spawned below them: id, title, harness, model, status, and parent id."@,
                list_schema(),
            ),
            tool(
                "read_session"@,
                "Read one session: its lane and every turn's input, status, and reply. Use it to collect a child's answer after spawn_subagent with wait set to false."@,
                read_schema(),
            ),
        ],
    )
}

/// A property of a tool's input.
fn make_property(kind: &str, description: &str) -> (value: Json)
    ensures
        value@ == property(kind@, description@),
{
    let mut members: Vec<(String, Json)> = json::no_members();
    json::add_member(&mut members, "type", json::string(kind));
    json::add_member(&mut members, "description", json::string(description));
    assert(json::members_view(members@) =~= seq![
        ("type"@, JsonView::Text(kind@)),
        ("description"@, JsonView::Text(description@)),
    ]);
    json::object(members)
}

/// A tool.
fn make_tool(name: &str, description: &str, schema: Json) -> (value: Json)
    ensures
        value@ == tool(name@, description@, schema@),
{
    let ghost inner = schema@;
    let mut members: Vec<(String, Json)> = json::no_members();
    json::add_member(&mut members, "name", json::string(name));
    json::add_member(&mut members, "description", json::string(description));
    json::add_member(&mut members, "inputSchema", schema);
    assert(json::members_view(members@) =~= seq![
        ("name"@, JsonView::Text(name@)),
        ("description"@, JsonView::Text(description@)),
        ("inputSchema"@, inner),
    ]);
    json::object(members)
}

/// The `harness` property of the spawn tool.
fn make_harness_property() -> (value: Json)
    ensures
        value@ == harness_property(),
{
    let mut description: String = "Which vendor CLI plays the child: ".to_string();
    description.append(&names::harness_name(Harness::ClaudeCode));
    description.append(
        " for Anthropic models, codex for OpenAI models, cursor for the models Cursor offers (Grok, Gemini, and others).",
    );
    let mut names: Vec<String> = Vec::new();
    names.push(names::harness_name(Harness::ClaudeCode));
    names.push("codex".to_string());
    names.push("cursor".to_string());
    assert(text::texts(names@) =~= seq![names::name_of(Harness::ClaudeCode), "codex"@, "cursor"@]);
    let mut members: Vec<(String, Json)> = json::no_members();
    json::add_member(&mut members, "type", json::string("string"));
    json::add_member(&mut members, "enum", json::strings(names));
    json::add_member(
        &mut members,
        "description",
        json::string(&description),
    );
    let value: Json = json::object(members);
    assert(json::members_view(members@) =~= harness_property()->Object_0);
    value
}

/// The input of the spawn tool.
fn make_spawn_schema(models: &Vec<ModelChoice>) -> (value: Json)
    ensures
        value@ == spawn_schema(protocol::menu_view(models@)),
{
    let ghost goal = spawn_schema(protocol::menu_view(models@))->Object_0;
    let mut model: String =
        "The model string for that harness. Available on this installation: ".to_string();
    model.append(&model_list_inline(models));
    let mut properties: Vec<(String, Json)> = json::no_members();
    json::add_member(&mut properties, "harness", make_harness_property());
    json::add_member(&mut properties, "model", make_property("string", &model));
    json::add_member(
        &mut properties,
        "prompt",
        make_property("string", "The child's task, self-contained."),
    );
    json::add_member(
        &mut properties,
        "name",
        make_property("string", "Short descriptive session title, shown in the operator's UI."),
    );
    json::add_member(
        &mut properties,
        "repo",
        make_property(
            "string",
            "https URL of a repository to clone into the child's workspace; defaults to this session's repository.",
        ),
    );
    json::add_member(
        &mut properties,
        "effort",
        make_property(
            "string",
            "Harness effort knob where supported, for example low, medium, high, xhigh.",
        ),
    );
    json::add_member(
        &mut properties,
        "wait",
        make_property("boolean", "Wait for the child's answer (default true)."),
    );
    json::add_member(
        &mut properties,
        "timeout_minutes",
        make_property("number", "How long to wait for the child (default 20, max 20)."),
    );
    assert(json::members_view(properties@) =~= goal[1].1->Object_0);
    let mut required: Vec<String> = Vec::new();
    required.push("harness".to_string());
    required.push("model".to_string());
    required.push("prompt".to_string());
    assert(text::texts(required@) =~= seq!["harness"@, "model"@, "prompt"@]);
    let mut members: Vec<(String, Json)> = json::no_members();
    json::add_member(&mut members, "type", json::string("object"));
    json::add_member(&mut members, "properties", json::object(properties));
    json::add_member(&mut members, "required", json::strings(required));
    assert(json::members_view(members@) =~= goal);
    json::object(members)
}

/// The input of the list tool.
fn make_list_schema() -> (value: Json)
    ensures
        value@ == list_schema(),
{
    let mut members: Vec<(String, Json)> = json::no_members();
    json::add_member(&mut members, "type", json::string("object"));
    json::add_member(&mut members, "properties", json::object(json::no_members()));
    assert(json::members_view(members@) =~= list_schema()->Object_0);
    json::object(members)
}

/// The input of the read tool.
fn make_read_schema() -> (value: Json)
    ensures
        value@ == read_schema(),
{
    let mut required: Vec<String> = Vec::new();
    required.push("session_id".to_string());
    assert(text::texts(required@) =~= seq!["session_id"@]);
    let mut members: Vec<(String, Json)> = json::no_members();
    json::add_member(&mut members, "type", json::string("object"));
    json::add_member(
        &mut members,
        "properties",
        json::object_of_one("session_id", make_property("string", "The session id (uuid).")),
    );
    json::add_member(&mut members, "required", json::strings(required));
    assert(json::members_view(members@) =~= read_schema()->Object_0);
    json::object(members)
}

/// The three tools.
pub fn tool_definitions(models: &Vec<ModelChoice>) -> (tools: Json)
    ensures
        tools@ == tools_of(protocol::menu_view(models@)),
{
    let mut items: Vec<Json> = json::no_items();
    json::add_item(
        &mut items,
        make_tool("spawn_subagent", &spawn_description(models), make_spawn_schema(models)),
    );
    json::add_item(
        &mut items,
        make_tool(
            "list_sessions",
            "List the active sessions of this session's own family, its ancestors and everything spawned below them: id, title, harness, model, status, and parent id.",
            make_list_schema(),
        ),
    );
    json::add_item(
        &mut items,
        make_tool(
            "read_session",
            "Read one session: its lane and every turn's input, status, and reply. Use it to collect a child's answer after spawn_subagent with wait set to false.",
            make_read_schema(),
        ),
    );
    assert(json::items_view(items@) =~= tools_of(protocol::menu_view(models@))->Array_0);
    json::array(items)
}

// ---------------------------------------------------------------------------
// Requests
// ---------------------------------------------------------------------------

/// A line that the client sent.
#[derive(Debug)]
pub enum Incoming {
    /// Nothing to do: a blank line, or one that is no JSON value.
    Skip { unparsable: bool },
    /// A notification: it gets no reply.
    Notification,
    /// A request.
    Request { id: Json, method: String, params: Json },
}

/// What a message asks.
pub open spec fn is_incoming(message: JsonView, incoming: Incoming) -> bool {
    match json::member(message, "id"@) {
        None => incoming == Incoming::Notification,
        Some(wanted) => match incoming {
            Incoming::Request { id, method, params } => {
                &&& id@ == wanted
                &&& method@ == (match json::text_in(json::member(message, "method"@)) {
                    Some(method) => method,
                    None => Seq::empty(),
                })
                &&& params@ == (match json::member(message, "params"@) {
                    Some(params) => params,
                    None => JsonView::Null,
                })
            },
            _ => false,
        },
    }
}

/// What a message asks.
pub fn incoming_message(message: &Json) -> (incoming: Incoming)
    ensures
        is_incoming(message@, incoming),
{
    match message.get("id") {
        Some(id) => {
            let method: String = match message.text_at("method") {
                Some(method) => method,
                None => String::new(),
            };
            assert(method@ =~= match json::text_in(json::member(message@, "method"@)) {
                Some(method) => method,
                None => Seq::empty(),
            });
            let params: Json = match message.get("params") {
                Some(params) => params.clone(),
                None => Json::Null,
            };
            Incoming::Request { id: id.clone(), method, params }
        },
        None => Incoming::Notification,
    }
}

/// What a line asks.
pub fn incoming_line(line: &str) -> (incoming: Incoming)
    ensures
        ({
            let line = text::trimmed(line@);
            if line.len() == 0 {
                incoming == (Incoming::Skip { unparsable: false })
            } else {
                match json::json_in(line) {
                    Some(message) => is_incoming(message, incoming),
                    None => incoming == (Incoming::Skip { unparsable: true }),
                }
            }
        }),
{
    let line: String = text::trim(line);
    if line.as_str().is_empty() {
        return Incoming::Skip { unparsable: false };
    }
    match json::parse(&line) {
        Some(message) => incoming_message(&message),
        None => Incoming::Skip { unparsable: true },
    }
}

/// A request that is refused.
#[derive(Debug)]
pub struct RpcError {
    pub code: i64,
    pub message: String,
}

/// The view of a refusal.
pub struct RpcErrorView {
    pub code: int,
    pub message: Seq<char>,
}

impl View for RpcError {
    type V = RpcErrorView;

    open spec fn view(&self) -> RpcErrorView {
        RpcErrorView { code: self.code as int, message: self.message@ }
    }
}

/// The refusal of a method or tool that there is not.
pub open spec fn no_method(method: Seq<char>) -> RpcErrorView {
    RpcErrorView { code: -32601, message: "method not found: "@ + method }
}

impl RpcError {
    pub fn method_not_found(method: &str) -> (error: Self)
        ensures
            error@ == no_method(method@),
    {
        let mut message: String = "method not found: ".to_string();
        message.append(method);
        RpcError { code: -32601, message }
    }

    pub fn invalid_params(message: &str) -> (error: Self)
        ensures
            error@ == (RpcErrorView { code: -32602, message: message@ }),
    {
        RpcError { code: -32602, message: message.to_string() }
    }
}

/// A tool to run.
#[derive(Debug, Clone, Copy, PartialEq, Eq, Structural)]
pub enum Tool {
    SpawnSubagent,
    ListSessions,
    ReadSession,
}

/// What a request comes to.
#[derive(Debug)]
pub enum Handled {
    /// The result is known.
    Reply { result: Json },
    /// A tool has to be run with these arguments.
    Call { tool: Tool, arguments: Json },
    /// The request is refused.
    Refuse { error: RpcError },
}

/// The tool of this name.
pub open spec fn tool_named(name: Seq<char>) -> Option<Tool> {
    if name == "spawn_subagent"@ {
        Some(Tool::SpawnSubagent)
    } else if name == "list_sessions"@ {
        Some(Tool::ListSessions)
    } else if name == "read_session"@ {
        Some(Tool::ReadSession)
    } else {
        None
    }
}

/// The answer to `initialize`.
pub open spec fn hello(params: JsonView, version: Seq<char>) -> JsonView {
    JsonView::Object(
        seq![
            (
                "protocolVersion"@,
                JsonView::Text(
                    match json::text_in(json::member(params, "protocolVersion"@)) {
                        Some(version) => version,
                        None => PROTOCOL_VERSION@,
                    },
                ),
            ),
            (
                "capabilities"@,
                JsonView::Object(seq![("tools"@, JsonView::Object(Seq::empty()))]),
            ),
            (
                "serverInfo"@,
                JsonView::Object(
                    seq![
                        ("name"@, JsonView::Text("ceilidh"@)),
                        ("version"@, JsonView::Text(version)),
                    ],
                ),
            ),
        ],
    )
}

/// What a request comes to.
pub open spec fn is_handled(
    method: Seq<char>,
    params: JsonView,
    tools: JsonView,
    version: Seq<char>,
    handled: Handled,
) -> bool {
    if method == "initialize"@ {
        handled matches Handled::Reply { result } && result@ == hello(params, version)
    } else if method == "ping"@ {
        handled matches Handled::Reply { result } && result@ == JsonView::Object(Seq::empty())
    } else if method == "tools/list"@ {
        handled matches Handled::Reply { result } && result@ == JsonView::Object(
            seq![("tools"@, tools)],
        )
    } else if method == "tools/call"@ {
        match json::text_in(json::member(params, "name"@)) {
            None => handled matches Handled::Refuse { error } && error@ == RpcErrorView {
                code: -32602,
                message: "tools/call needs a name"@,
            },
            Some(name) => match tool_named(name) {
                Some(wanted) => handled matches Handled::Call { tool, arguments } && tool == wanted
                    && arguments@ == (match json::member(params, "arguments"@) {
                    Some(arguments) => arguments,
                    None => JsonView::Object(Seq::empty()),
                }),
                None => handled matches Handled::Refuse { error } && error@ == no_method(name),
            },
        }
    } else {
        handled matches Handled::Refuse { error } && error@ == no_method(method)
    }
}

/// The answer to `initialize`.
fn make_hello(params: &Json, version: &str) -> (result: Json)
    ensures
        result@ == hello(params@, version@),
{
    let ghost goal = hello(params@, version@)->Object_0;
    let spoken: Json = match params.text_at("protocolVersion") {
        Some(spoken) => Json::Text(spoken),
        None => json::string(PROTOCOL_VERSION),
    };
    let mut info: Vec<(String, Json)> = json::no_members();
    json::add_member(&mut info, "name", json::string("ceilidh"));
    json::add_member(&mut info, "version", json::string(version));
    assert(json::members_view(info@) =~= goal[2].1->Object_0);
    let mut members: Vec<(String, Json)> = json::no_members();
    json::add_member(&mut members, "protocolVersion", spoken);
    json::add_member(
        &mut members,
        "capabilities",
        json::object_of_one("tools", json::object(json::no_members())),
    );
    json::add_member(&mut members, "serverInfo", json::object(info));
    assert(json::members_view(members@) =~= goal);
    json::object(members)
}

/// Takes a request.
pub fn handle(method: &str, params: &Json, tools: &Json, version: &str) -> (handled: Handled)
    ensures
        is_handled(method@, params@, tools@, version@, handled),
{
    if text::same_text(method, "initialize") {
        return Handled::Reply { result: make_hello(params, version) };
    }
    if text::same_text(method, "ping") {
        return Handled::Reply { result: json::object(json::no_members()) };
    }
    if text::same_text(method, "tools/list") {
        return Handled::Reply { result: json::object_of_one("tools", tools.clone()) };
    }
    if !text::same_text(method, "tools/call") {
        return Handled::Refuse { error: RpcError::method_not_found(method) };
    }
    let name: String = match params.text_at("name") {
        Some(name) => name,
        None => {
            return Handled::Refuse {
                error: RpcError::invalid_params("tools/call needs a name"),
            };
        },
    };
    let tool: Tool = if text::same_text(&name, "spawn_subagent") {
        Tool::SpawnSubagent
    } else if text::same_text(&name, "list_sessions") {
        Tool::ListSessions
    } else if text::same_text(&name, "read_session") {
        Tool::ReadSession
    } else {
        return Handled::Refuse { error: RpcError::method_not_found(&name) };
    };
    let arguments: Json = match params.get("arguments") {
        Some(arguments) => arguments.clone(),
        None => json::object(json::no_members()),
    };
    Handled::Call { tool, arguments }
}

// ---------------------------------------------------------------------------
// Replies
// ---------------------------------------------------------------------------

/// A block of text.
pub open spec fn text_block(text: Seq<char>) -> JsonView {
    JsonView::Object(seq![("type"@, JsonView::Text("text"@)), ("text"@, JsonView::Text(text))])
}

/// What a tool's outcome is answered with.
pub open spec fn tool_result_of(outcome: Result<Seq<char>, Seq<char>>) -> JsonView {
    match outcome {
        Ok(text) => JsonView::Object(
            seq![("content"@, JsonView::Array(seq![text_block(text)]))],
        ),
        Err(error) => JsonView::Object(
            seq![
                ("content"@, JsonView::Array(seq![text_block("error: "@ + error)])),
                ("isError"@, JsonView::Bool(true)),
            ],
        ),
    }
}

/// The view of a tool's outcome.
pub open spec fn outcome_view(outcome: Result<String, String>) -> Result<Seq<char>, Seq<char>> {
    match outcome {
        Ok(text) => Ok(text@),
        Err(error) => Err(error@),
    }
}

/// A list of one block of text.
fn make_content(text: &str) -> (content: Json)
    ensures
        content@ == JsonView::Array(seq![text_block(text@)]),
{
    let mut block: Vec<(String, Json)> = json::no_members();
    json::add_member(&mut block, "type", json::string("text"));
    json::add_member(&mut block, "text", json::string(text));
    assert(json::members_view(block@) =~= text_block(text@)->Object_0);
    let mut items: Vec<Json> = json::no_items();
    json::add_item(&mut items, json::object(block));
    assert(json::items_view(items@) =~= seq![text_block(text@)]);
    json::array(items)
}

/// What a tool's outcome is answered with: a failed tool is a result that says
/// so, not a refused request.
pub fn tool_result(outcome: Result<String, String>) -> (result: Json)
    ensures
        result@ == tool_result_of(outcome_view(outcome)),
{
    match outcome {
        Ok(text) => json::object_of_one("content", make_content(&text)),
        Err(error) => {
            let mut message: String = "error: ".to_string();
            message.append(&error);
            let mut members: Vec<(String, Json)> = json::no_members();
            json::add_member(&mut members, "content", make_content(&message));
            json::add_member(&mut members, "isError", Json::Bool(true));
            assert(json::members_view(members@) =~= tool_result_of(
                Err::<Seq<char>, Seq<char>>(error@),
            )->Object_0);
            json::object(members)
        },
    }
}

/// A response: the request's identifier with its result or its refusal.
pub open spec fn response_of(
    id: JsonView,
    answer: Result<JsonView, RpcErrorView>,
) -> JsonView {
    let version = ("jsonrpc"@, JsonView::Text("2.0"@));
    match answer {
        Ok(result) => JsonView::Object(seq![version, ("id"@, id), ("result"@, result)]),
        Err(error) => JsonView::Object(
            seq![
                version,
                ("id"@, id),
                (
                    "error"@,
                    JsonView::Object(
                        seq![
                            (
                                "code"@,
                                JsonView::Number(text::signed_decimal(error.code)),
                            ),
                            ("message"@, JsonView::Text(error.message)),
                        ],
                    ),
                ),
            ],
        ),
    }
}

/// A response to a request.
pub fn response(id: Json, answer: Result<Json, RpcError>) -> (response: Json)
    ensures
        response@ == response_of(
            id@,
            match answer {
                Ok(result) => Ok(result@),
                Err(error) => Err(error@),
            },
        ),
{
    let ghost id_view = id@;
    let mut members: Vec<(String, Json)> = json::no_members();
    json::add_member(&mut members, "jsonrpc", json::string("2.0"));
    json::add_member(&mut members, "id", id);
    match answer {
        Ok(result) => {
            let ghost inner = result@;
            json::add_member(&mut members, "result", result);
            assert(json::members_view(members@) =~= response_of(
                id_view,
                Ok::<JsonView, RpcErrorView>(inner),
            )->Object_0);
        },
        Err(error) => {
            let ghost goal = response_of(id_view, Err::<JsonView, RpcErrorView>(error@))->Object_0;
            let mut detail: Vec<(String, Json)> = json::no_members();
            json::add_member(&mut detail, "code", Json::Number(text::signed_text(error.code)));
            json::add_member(&mut detail, "message", json::string(&error.message));
            assert(json::members_view(detail@) =~= goal[2].1->Object_0);
            json::add_member(&mut members, "error", json::object(detail));
            assert(json::members_view(members@) =~= goal);
        },
    }
    json::object(members)
}

} // verus!
