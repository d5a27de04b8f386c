//! Band adapters: how a turn is played through a harness CLI.
//!
//! Every CLI adapter has the same shape: build a command in the session
//! workspace, stream its JSON output into chunks, capture the resume id, and
//! close with the final reply.

use vstd::prelude::*;

use crate::json;
use crate::json::Json;
use crate::json::JsonView;
use crate::outside;
use crate::protocol;
use crate::protocol::{ClaimedWork, Lane, SessionId, TurnSummary};
use crate::protocol::{SummaryView, WorkView};
use crate::text;

verus! {

/// MCP tool calls include a synchronous sub-agent turn, so the harness must
/// wait far longer than its default tool timeout.
pub const MCP_TOOL_TIMEOUT_SECS: u64 = 1500;

/// The same in milliseconds.
pub const MCP_TOOL_TIMEOUT_MILLIS: u64 = 1_500_000;

/// Where the harness binaries live and what the sub-agent MCP needs.
#[derive(Debug)]
pub struct HarnessConfig {
    pub claude_bin: String,
    pub codex_bin: String,
    pub cursor_bin: String,
    /// The ceilidh binary, spawned as `ceilidh mcp` by every harness.
    pub ceilidh_bin: String,
    /// The seat's Codex login, symlinked into each session's CODEX_HOME.
    pub codex_auth: String,
    /// Caller URL and token handed to the MCP process.
    pub server_url: String,
    pub token: Option<String>,
    /// Variables that a harness child inherits although they are stripped by
    /// default.
    pub pass_env: Vec<String>,
}

/// A turn as an adapter plays it.
pub struct TurnCtx<'a> {
    pub workspace_dir: &'a str,
    /// The session directory above the workspace; harness config files that
    /// must never be committed live here.
    pub session_dir: &'a str,
    pub session_id: SessionId,
    pub seq: i64,
    pub input: &'a str,
    pub model: &'a str,
    pub effort: Option<&'a str>,
    pub resume_token: Option<&'a str>,
    pub history_hint: &'a Vec<TurnSummary>,
    pub harness: &'a HarnessConfig,
}

// ---------------------------------------------------------------------------
// The prompt
// ---------------------------------------------------------------------------

/// What is said of one prior turn, the `n`th.
pub open spec fn prior_turn(n: nat, turn: SummaryView) -> Seq<char> {
    let user = text::decimal(n) + ". User: "@ + turn.input + "\n"@;
    match turn.headline {
        Some(headline) => user + "   Outcome: "@ + headline + "\n"@,
        None => user,
    }
}

/// What is said of prior turns.
pub open spec fn prior_turns(turns: Seq<SummaryView>) -> Seq<char>
    decreases turns.len(),
{
    if turns.len() == 0 {
        Seq::empty()
    } else {
        prior_turns(turns.drop_last()) + prior_turn(turns.len(), turns.last())
    }
}

/// A prompt that carries the session's history.
pub open spec fn seeded_prompt(input: Seq<char>, history: Seq<SummaryView>) -> Seq<char> {
    "Prior turns:\n"@ + prior_turns(history) + "\nCurrent turn:\n"@ + input
}

/// The views of a history.
pub open spec fn history_view(history: Seq<TurnSummary>) -> Seq<SummaryView> {
    history.map_values(|turn: TurnSummary| turn@)
}

/// A prompt that carries the session's history.
pub fn prompt_with_history(input: &str, history: &Vec<TurnSummary>) -> (prompt: String)
    ensures
        prompt@ == seeded_prompt(input@, history_view(history@)),
{
    let ghost all = history_view(history@);
    let mut prompt: String = "Prior turns:\n".to_string();
    let mut i: usize = 0;
    proof {
        assert(prompt@ =~= "Prior turns:\n"@ + prior_turns(all.take(0)));
    }
    while i < history.len()
        invariant
            i <= history@.len(),
            all == history_view(history@),
            prompt@ == "Prior turns:\n"@ + prior_turns(all.take(i as int)),
        decreases history@.len() - i,
    {
        let ghost before = prompt@;
        let turn: &TurnSummary = &history[i];
        prompt.append(&text::decimal_text(i as u64 + 1));
        prompt.append(". User: ");
        prompt.append(&turn.input);
        prompt.append("\n");
        if let Some(headline) = &turn.headline {
            prompt.append("   Outcome: ");
            prompt.append(headline);
            prompt.append("\n");
        }
        proof {
            let now = all.take(i + 1);
            assert(now.drop_last() =~= all.take(i as int));
            assert(now.last() == turn@);
            assert(prompt@ =~= before + prior_turn((i + 1) as nat, turn@));
            assert(prompt@ =~= "Prior turns:\n"@ + prior_turns(now));
        }
        i += 1;
    }
    proof {
        assert(all.take(i as int) =~= all);
    }
    prompt.append("\nCurrent turn:\n");
    prompt.append(input);
    prompt
}

/// What the harness is asked: the input, seeded with the history where there
/// is nothing to resume.
pub open spec fn prompt_of(ctx: TurnCtx) -> Seq<char> {
    if ctx.resume_token is None && ctx.history_hint@.len() > 0 {
        seeded_prompt(ctx.input@, history_view(ctx.history_hint@))
    } else {
        ctx.input@
    }
}

/// The text behind an optional string.
fn as_text<'a>(value: &'a Option<String>) -> (text: Option<&'a str>)
    ensures
        text::opt_text(*value) == (match text {
            Some(text) => Some(text@),
            None => None,
        }),
{
    match value {
        Some(value) => Some(value.as_str()),
        None => None,
    }
}

/// The context is that of the claimed work: its session, its turn, and the
/// model and effort of the lane that it is played on.
pub open spec fn is_context_of(ctx: TurnCtx, work: WorkView) -> bool {
    let lane = protocol::lane_of_work(work);
    &&& ctx.session_id == work.session.id
    &&& ctx.seq == work.turn.seq
    &&& ctx.input@ == work.turn.input
    &&& ctx.model@ == lane.model
    &&& lane.effort == (match ctx.effort {
        Some(effort) => Some(effort@),
        None => None,
    })
    &&& work.turn.resume_token == (match ctx.resume_token {
        Some(token) => Some(token@),
        None => None,
    })
    &&& history_view(ctx.history_hint@) == work.history_hint
}

/// The context in which claimed work is played.
pub fn turn_ctx<'a>(
    work: &'a ClaimedWork,
    workspace_dir: &'a str,
    session_dir: &'a str,
    harness: &'a HarnessConfig,
) -> (ctx: TurnCtx<'a>)
    ensures
        is_context_of(ctx, work@),
        ctx.workspace_dir@ == workspace_dir@,
        ctx.session_dir@ == session_dir@,
        *ctx.harness == *harness,
{
    let lane: &Lane = work.lane();
    let ctx = TurnCtx {
        workspace_dir,
        session_dir,
        session_id: work.session.id,
        seq: work.turn.seq,
        input: work.turn.input.as_str(),
        model: lane.model.as_str(),
        effort: as_text(&lane.effort),
        resume_token: as_text(&work.turn.resume_token),
        history_hint: &work.history_hint,
        harness,
    };
    assert(history_view(ctx.history_hint@) =~= work@.history_hint);
    ctx
}

impl TurnCtx<'_> {
    /// What the harness is asked.
    pub fn prompt(&self) -> (prompt: String)
        ensures
            prompt@ == prompt_of(*self),
    {
        if self.resume_token.is_none() && self.history_hint.len() > 0 {
            prompt_with_history(self.input, self.history_hint)
        } else {
            self.input.to_string()
        }
    }

    /// The arguments of the sub-agent MCP.
    pub fn mcp_args(&self) -> (args: Vec<String>)
        ensures
            text::texts(args@) == mcp_args_of(*self),
    {
        let mut args: Vec<String> = Vec::new();
        args.push("mcp".to_string());
        args.push("--server".to_string());
        args.push(self.harness.server_url.clone());
        args.push("--parent".to_string());
        args.push(outside::written_id(self.session_id));
        assert(text::texts(args@) =~= mcp_args_of(*self));
        args
    }
}

/// The arguments of the sub-agent MCP.
pub open spec fn mcp_args_of(ctx: TurnCtx) -> Seq<Seq<char>> {
    seq![
        "mcp"@,
        "--server"@,
        ctx.harness.server_url@,
        "--parent"@,
        outside::id_text(ctx.session_id),
    ]
}

// ---------------------------------------------------------------------------
// The MCP config that Anthropic's and Cursor's CLIs read
// ---------------------------------------------------------------------------

/// The token handed to the MCP process.
pub open spec fn token_of(harness: HarnessConfig) -> Seq<char> {
    match harness.token {
        Some(token) => token@,
        None => Seq::empty(),
    }
}

/// The config file that attaches the sub-agent MCP.
pub open spec fn mcp_config_of(ctx: TurnCtx) -> JsonView {
    JsonView::Object(
        seq![
            (
                "mcpServers"@,
                JsonView::Object(
                    seq![
                        (
                            "ceilidh"@,
                            JsonView::Object(
                                seq![
                                    (
                                        "command"@,
                                        JsonView::Text(ctx.harness.ceilidh_bin@),
                                    ),
                                    (
                                        "args"@,
                                        JsonView::Array(
                                            mcp_args_of(ctx).map_values(
                                                |arg: Seq<char>| JsonView::Text(arg),
                                            ),
                                        ),
                                    ),
                                    (
                                        "env"@,
                                        JsonView::Object(
                                            seq![
                                                (
                                                    "CEILIDH_TOKEN"@,
                                                    JsonView::Text(token_of(*ctx.harness)),
                                                ),
                                            ],
                                        ),
                                    ),
                                ],
                            ),
                        ),
                    ],
                ),
            ),
        ],
    )
}

/// The config file that attaches the sub-agent MCP.
pub fn mcp_config(ctx: &TurnCtx) -> (config: Json)
    ensures
        config@ == mcp_config_of(*ctx),
{
    let token: String = match &ctx.harness.token {
        Some(token) => token.clone(),
        None => String::new(),
    };
    assert(token@ =~= token_of(*ctx.harness));
    let mut server: Vec<(String, Json)> = json::no_members();
    json::add_member(&mut server, "command", json::string(&ctx.harness.ceilidh_bin));
    json::add_member(&mut server, "args", json::strings(ctx.mcp_args()));
    json::add_member(
        &mut server,
        "env",
        json::object_of_one("CEILIDH_TOKEN", Json::Text(token)),
    );
    let config: Json = json::object_of_one(
        "mcpServers",
        json::object_of_one("ceilidh", json::object(server)),
    );
    proof {
        let inner = json::members_view(server@);
        assert(inner =~= seq![inner[0], inner[1], inner[2]]);
    }
    config
}

// ---------------------------------------------------------------------------
// Commands
// ---------------------------------------------------------------------------

/// A harness process to start in the workspace.
#[derive(Debug)]
pub struct HarnessCommand {
    pub program: String,
    pub args: Vec<String>,
    /// Variables that are set for it.
    pub env: Vec<(String, String)>,
}

/// The view of a command.
#[verifier::ext_equal]
pub struct CommandView {
    pub program: Seq<char>,
    pub args: Seq<Seq<char>>,
    pub env: Seq<(Seq<char>, Seq<char>)>,
}

impl View for HarnessCommand {
    type V = CommandView;

    open spec fn view(&self) -> CommandView {
        CommandView {
            program: self.program@,
            args: text::texts(self.args@),
            env: self.env@.map_values(|pair: (String, String)| (pair.0@, pair.1@)),
        }
    }
}

/// Two more arguments where there is a value for them.
pub open spec fn option_args(name: Seq<char>, value: Option<&str>) -> Seq<Seq<char>> {
    match value {
        Some(value) => seq![name, value@],
        None => Seq::empty(),
    }
}

/// Anthropic's CLI, with its MCP config in this file.
pub open spec fn claude_command_of(ctx: TurnCtx, mcp_path: Seq<char>) -> CommandView {
    CommandView {
        program: ctx.harness.claude_bin@,
        args: seq![
            "-p"@,
            prompt_of(ctx),
            "--model"@,
            ctx.model@,
            "--output-format"@,
            "stream-json"@,
            "--verbose"@,
            "--permission-mode"@,
            "bypassPermissions"@,
            "--mcp-config"@,
            mcp_path,
        ] + option_args("--resume"@, ctx.resume_token),
        env: seq![
            ("MCP_TIMEOUT"@, "30000"@),
            ("MCP_TOOL_TIMEOUT"@, text::decimal(MCP_TOOL_TIMEOUT_MILLIS as nat)),
        ],
    }
}

/// Anthropic's CLI, with its MCP config in this file.
pub fn claude_command(ctx: &TurnCtx, mcp_path: &str) -> (command: HarnessCommand)
    ensures
        command@ == claude_command_of(*ctx, mcp_path@),
{
    let mut args: Vec<String> = Vec::new();
    args.push("-p".to_string());
    args.push(ctx.prompt());
    args.push("--model".to_string());
    args.push(ctx.model.to_string());
    args.push("--output-format".to_string());
    args.push("stream-json".to_string());
    args.push("--verbose".to_string());
    args.push("--permission-mode".to_string());
    args.push("bypassPermissions".to_string());
    args.push("--mcp-config".to_string());
    args.push(mcp_path.to_string());
    if let Some(token) = ctx.resume_token {
        args.push("--resume".to_string());
        args.push(token.to_string());
    }
    let mut env: Vec<(String, String)> = Vec::new();
    env.push(("MCP_TIMEOUT".to_string(), "30000".to_string()));
    env.push(("MCP_TOOL_TIMEOUT".to_string(), text::decimal_text(MCP_TOOL_TIMEOUT_MILLIS)));
    let command: HarnessCommand = HarnessCommand {
        program: ctx.harness.claude_bin.clone(),
        args,
        env,
    };
    assert(command@.args =~= claude_command_of(*ctx, mcp_path@).args);
    assert(command@.env =~= claude_command_of(*ctx, mcp_path@).env);
    command
}

/// Codex, with this for its home. A resumed thread keeps its model.
pub open spec fn codex_command_of(ctx: TurnCtx, home: Seq<char>) -> CommandView {
    CommandView {
        program: ctx.harness.codex_bin@,
        args: seq!["exec"@] + option_args("resume"@, ctx.resume_token) + seq![
            "--json"@,
            "--skip-git-repo-check"@,
        ] + (if ctx.resume_token is None {
            seq!["-m"@, ctx.model@]
        } else {
            Seq::empty()
        }) + seq![prompt_of(ctx)],
        env: seq![("CODEX_HOME"@, home)],
    }
}

/// Codex, with this for its home.
pub fn codex_command(ctx: &TurnCtx, home: &str) -> (command: HarnessCommand)
    ensures
        command@ == codex_command_of(*ctx, home@),
{
    let mut args: Vec<String> = Vec::new();
    args.push("exec".to_string());
    if let Some(token) = ctx.resume_token {
        args.push("resume".to_string());
        args.push(token.to_string());
    }
    args.push("--json".to_string());
    args.push("--skip-git-repo-check".to_string());
    if ctx.resume_token.is_none() {
        args.push("-m".to_string());
        args.push(ctx.model.to_string());
    }
    args.push(ctx.prompt());
    let mut env: Vec<(String, String)> = Vec::new();
    env.push(("CODEX_HOME".to_string(), home.to_string()));
    let command: HarnessCommand = HarnessCommand {
        program: ctx.harness.codex_bin.clone(),
        args,
        env,
    };
    assert(command@.args =~= codex_command_of(*ctx, home@).args);
    assert(command@.env =~= codex_command_of(*ctx, home@).env);
    command
}

/// Cursor.
pub open spec fn cursor_command_of(ctx: TurnCtx) -> CommandView {
    CommandView {
        program: ctx.harness.cursor_bin@,
        args: seq![
            "-p"@,
            "--output-format"@,
            "stream-json"@,
            "--trust"@,
            "--force"@,
            "--approve-mcps"@,
            "--model"@,
            ctx.model@,
        ] + option_args("--resume"@, ctx.resume_token) + seq![prompt_of(ctx)],
        env: Seq::empty(),
    }
}

/// Cursor.
pub fn cursor_command(ctx: &TurnCtx) -> (command: HarnessCommand)
    ensures
        command@ == cursor_command_of(*ctx),
{
    let mut args: Vec<String> = Vec::new();
    args.push("-p".to_string());
    args.push("--output-format".to_string());
    args.push("stream-json".to_string());
    args.push("--trust".to_string());
    args.push("--force".to_string());
    args.push("--approve-mcps".to_string());
    args.push("--model".to_string());
    args.push(ctx.model.to_string());
    if let Some(token) = ctx.resume_token {
        args.push("--resume".to_string());
        args.push(token.to_string());
    }
    args.push(ctx.prompt());
    let command: HarnessCommand = HarnessCommand {
        program: ctx.harness.cursor_bin.clone(),
        args,
        env: Vec::new(),
    };
    assert(command@.args =~= cursor_command_of(*ctx).args);
    assert(command@.env =~= cursor_command_of(*ctx).env);
    command
}

// ---------------------------------------------------------------------------
// The environment
// ---------------------------------------------------------------------------

/// The variables that a harness child does not inherit. A harness runs with
/// permission prompts off, so anything in its environment is readable by the
/// model: the caller's address and token never are. The API keys of the
/// subscription lanes are stripped unless the operator passes them on, so a
/// key in the shell cannot move a lane onto metered billing.
pub open spec fn stripped(pass_env: Seq<Seq<char>>) -> Seq<Seq<char>> {
    let always = seq!["CEILIDH_TOKEN"@, "CEILIDH_SERVER"@];
    let anthropic = if pass_env.contains("ANTHROPIC_API_KEY"@) {
        Seq::empty()
    } else {
        seq!["ANTHROPIC_API_KEY"@]
    };
    let openai = if pass_env.contains("OPENAI_API_KEY"@) {
        Seq::empty()
    } else {
        seq!["OPENAI_API_KEY"@]
    };
    always + anthropic + openai
}

/// Whether the list holds the name.
fn names(list: &Vec<String>, name: &str) -> (yes: bool)
    ensures
        yes == text::texts(list@).contains(name@),
{
    let mut i: usize = 0;
    while i < list.len()
        invariant
            i <= list@.len(),
            forall|k: int| 0 <= k < i ==> text::texts(list@)[k] != name@,
        decreases list@.len() - i,
    {
        if text::same_text(&list[i], name) {
            assert(text::texts(list@)[i as int] == name@);
            return true;
        }
        i += 1;
    }
    false
}

/// The variables that a harness child does not inherit.
pub fn stripped_env(pass_env: &Vec<String>) -> (removed: Vec<String>)
    ensures
        text::texts(removed@) == stripped(text::texts(pass_env@)),
{
    let mut removed: Vec<String> = Vec::new();
    removed.push("CEILIDH_TOKEN".to_string());
    removed.push("CEILIDH_SERVER".to_string());
    if !names(pass_env, "ANTHROPIC_API_KEY") {
        removed.push("ANTHROPIC_API_KEY".to_string());
    }
    if !names(pass_env, "OPENAI_API_KEY") {
        removed.push("OPENAI_API_KEY".to_string());
    }
    assert(text::texts(removed@) =~= stripped(text::texts(pass_env@)));
    removed
}

/// Whatever the operator passes on, a harness never sees the caller's token.
pub proof fn the_token_is_always_stripped(pass_env: Seq<Seq<char>>)
    ensures
        stripped(pass_env).contains("CEILIDH_TOKEN"@),
        stripped(pass_env).contains("CEILIDH_SERVER"@),
{
    assert(stripped(pass_env)[0] == "CEILIDH_TOKEN"@);
    assert(stripped(pass_env)[1] == "CEILIDH_SERVER"@);
}

// ---------------------------------------------------------------------------
// Codex's config
// ---------------------------------------------------------------------------

/// The arguments of the sub-agent MCP, quoted, with commas between them.
pub open spec fn quoted_args(args: Seq<Seq<char>>) -> Seq<char> {
    text::joined(args.map_values(|arg: Seq<char>| outside::json_string(arg)), ", "@)
}

/// Codex's config file.
pub open spec fn codex_config_of(ctx: TurnCtx) -> Seq<char> {
    let effort = match ctx.effort {
        Some(effort) => "model_reasoning_effort = "@ + outside::json_string(effort@) + "\n"@,
        None => Seq::empty(),
    };
    "model = "@ + outside::json_string(ctx.model@) + "\n"@ + effort
        + "sandbox_mode = \"workspace-write\"\n"@ + "approval_policy = \"never\"\n"@
        + "\n[sandbox_workspace_write]\nnetwork_access = true\n"@ + "\n[projects."@
        + outside::json_string(ctx.workspace_dir@) + "]\ntrust_level = \"trusted\"\n"@
        + "\n[mcp_servers.ceilidh]\n"@ + "command = "@ + outside::json_string(
        ctx.harness.ceilidh_bin@,
    ) + "\n"@ + "args = ["@ + quoted_args(mcp_args_of(ctx)) + "]\n"@ + "startup_timeout_sec = 30\n"@
        + "tool_timeout_sec = "@ + text::decimal(MCP_TOOL_TIMEOUT_SECS as nat) + "\n"@
        + "\n[mcp_servers.ceilidh.env]\n"@ + "CEILIDH_TOKEN = "@ + outside::json_string(
        token_of(*ctx.harness),
    ) + "\n"@
}

/// A TOML string. JSON's escapes are TOML's.
pub fn toml_str(value: &str) -> (quoted: String)
    ensures
        quoted@ == outside::json_string(value@),
{
    outside::quoted(value)
}

/// Codex's config file.
pub fn codex_config_toml(ctx: &TurnCtx) -> (config: String)
    ensures
        config@ == codex_config_of(*ctx),
{
    let mut out: String = "model = ".to_string();
    out.append(&toml_str(ctx.model));
    out.append("\n");
    let mut effort: String = String::new();
    if let Some(level) = ctx.effort {
        effort.append("model_reasoning_effort = ");
        effort.append(&toml_str(level));
        effort.append("\n");
        assert(effort@ =~= "model_reasoning_effort = "@ + outside::json_string(level@) + "\n"@);
    } else {
        assert(effort@ =~= Seq::empty());
    }
    out.append(&effort);
    out.append("sandbox_mode = \"workspace-write\"\n");
    out.append("approval_policy = \"never\"\n");
    out.append("\n[sandbox_workspace_write]\nnetwork_access = true\n");
    out.append("\n[projects.");
    out.append(&toml_str(ctx.workspace_dir));
    out.append("]\ntrust_level = \"trusted\"\n");
    out.append("\n[mcp_servers.ceilidh]\n");
    out.append("command = ");
    out.append(&toml_str(&ctx.harness.ceilidh_bin));
    out.append("\n");
    let args: Vec<String> = ctx.mcp_args();
    let mut quoted: Vec<String> = Vec::new();
    let mut i: usize = 0;
    let ghost all = mcp_args_of(*ctx).map_values(|arg: Seq<char>| outside::json_string(arg));
    while i < args.len()
        invariant
            i <= args@.len(),
            text::texts(args@) == mcp_args_of(*ctx),
            all == mcp_args_of(*ctx).map_values(|arg: Seq<char>| outside::json_string(arg)),
            text::texts(quoted@) == all.take(i as int),
        decreases args@.len() - i,
    {
        let ghost before = quoted@;
        assert(text::texts(args@)[i as int] == args@[i as int]@);
        quoted.push(toml_str(&args[i]));
        proof {
            assert(text::texts(quoted@) =~= text::texts(before).push(all[i as int]));
            assert(all.take(i + 1) =~= all.take(i as int).push(all[i as int]));
        }
        i += 1;
    }
    proof {
        assert(text::texts(args@).len() == args@.len());
        assert(all.take(i as int) =~= all);
    }
    out.append("args = [");
    out.append(&text::join(&quoted, ", "));
    out.append("]\n");
    out.append("startup_timeout_sec = 30\n");
    out.append("tool_timeout_sec = ");
    out.append(&text::decimal_text(MCP_TOOL_TIMEOUT_SECS));
    out.append("\n");
    out.append("\n[mcp_servers.ceilidh.env]\n");
    out.append("CEILIDH_TOKEN = ");
    let token: String = match &ctx.harness.token {
        Some(token) => toml_str(token),
        None => toml_str(""),
    };
    proof {
        reveal_strlit("");
        assert(""@ =~= Seq::empty());
        assert(token@ == outside::json_string(token_of(*ctx.harness)));
    }
    out.append(&token);
    out.append("\n");
    out
}

// ---------------------------------------------------------------------------
// Keeping a file out of the commit
// ---------------------------------------------------------------------------

/// The exclude file with the pattern in it; None where it is there already.
pub open spec fn excluded(existing: Seq<char>, pattern: Seq<char>) -> Option<Seq<char>> {
    if text::has_line(existing, pattern) {
        None
    } else if existing.len() > 0 && existing.last() != '\n' {
        Some(existing + "\n"@ + pattern + "\n"@)
    } else {
        Some(existing + pattern + "\n"@)
    }
}

/// The exclude file with the pattern in it; None where it is there already.
pub fn exclude_pattern(existing: &str, pattern: &str) -> (next: Option<String>)
    ensures
        text::opt_text(next) == excluded(existing@, pattern@),
{
    if text::any_line_is(existing, pattern) {
        return None;
    }
    let chars: Vec<char> = text::chars_of(existing);
    let mut next: String = existing.to_string();
    if chars.len() > 0 && chars[chars.len() - 1] != '\n' {
        next.append("\n");
    }
    next.append(pattern);
    next.append("\n");
    Some(next)
}

} // verus!
