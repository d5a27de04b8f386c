//! What playing a turn is for: the harness that the lane names is started on
//! its model with what was asked, goes on where the session left off, and its
//! work is committed to the session's own branch.

use vstd::prelude::*;

use crate::adapters;
use crate::adapters::TurnCtx;
use crate::json;
use crate::json::JsonView;
use crate::outside;
use crate::protocol::{EnvelopeView, ProfileView, SessionView, SummaryView, WorkView};
use crate::protocol::TurnStatus;
use crate::runner;
use crate::runner::{AdapterStatus, ClaimResult, OutcomeView};
use crate::subagents;
use crate::text;
use crate::workspace;
use crate::workspace::{CommitStep, CommittingView, PrepStep, PrepView};

verus! {

// ---------------------------------------------------------------------------
// Arguments
// ---------------------------------------------------------------------------

/// The value stands in the arguments directly behind the word.
pub open spec fn behind(args: Seq<Seq<char>>, word: Seq<char>, value: Seq<char>) -> bool {
    exists|i: int| 0 <= i < args.len() - 1 && #[trigger] args[i] == word && args[i + 1] == value
}

/// The words of the commands differ from each other.
proof fn lemma_words()
    ensures
        "--resume"@.len() == 8,
        "--resume"@[0] == '-',
        "resume"@.len() == 6,
        "resume"@[0] == 'r',
        "-p"@.len() == 2,
        "--model"@.len() == 7,
        "--output-format"@.len() == 15,
        "stream-json"@.len() == 11,
        "--verbose"@.len() == 9,
        "--permission-mode"@.len() == 17,
        "bypassPermissions"@.len() == 17,
        "--mcp-config"@.len() == 12,
        "exec"@.len() == 4,
        "--json"@.len() == 6,
        "--json"@[0] == '-',
        "--skip-git-repo-check"@.len() == 21,
        "-m"@.len() == 2,
        "--trust"@.len() == 7,
        "--force"@.len() == 7,
        "--approve-mcps"@.len() == 14,
        "Prior turns:\n"@.len() == 13,
        "Prior turns:\n"@[0] == 'P',
{
    reveal_strlit("--resume");
    reveal_strlit("resume");
    reveal_strlit("-p");
    reveal_strlit("--model");
    reveal_strlit("--output-format");
    reveal_strlit("stream-json");
    reveal_strlit("--verbose");
    reveal_strlit("--permission-mode");
    reveal_strlit("bypassPermissions");
    reveal_strlit("--mcp-config");
    reveal_strlit("exec");
    reveal_strlit("--json");
    reveal_strlit("--skip-git-repo-check");
    reveal_strlit("-m");
    reveal_strlit("--trust");
    reveal_strlit("--force");
    reveal_strlit("--approve-mcps");
    reveal_strlit("Prior turns:\n");
}

proof fn lemma_prompt_is_no_word(ctx: TurnCtx, word: Seq<char>)
    requires
        ctx.input@ != word,
        word == "--resume"@ || word == "resume"@,
    ensures
        adapters::prompt_of(ctx) != word,
{
    lemma_words();
    if ctx.resume_token is None && ctx.history_hint@.len() > 0 {
        assert(adapters::prompt_of(ctx)[0] == "Prior turns:\n"@[0]);
    }
}

/// Anthropic's CLI resumes the session that the turn brings, and none where it
/// brings none.
pub proof fn anthropic_resumes(ctx: TurnCtx, mcp_path: Seq<char>)
    ensures
        ctx.resume_token matches Some(token) ==> behind(
            adapters::claude_command_of(ctx, mcp_path).args,
            "--resume"@,
            token@,
        ),
        ctx.resume_token is None && ctx.input@ != "--resume"@ && ctx.model@ != "--resume"@
            && mcp_path != "--resume"@ ==> !adapters::claude_command_of(
            ctx,
            mcp_path,
        ).args.contains("--resume"@),
{
    lemma_words();
    let args = adapters::claude_command_of(ctx, mcp_path).args;
    if ctx.resume_token is Some {
        assert(args[11] == "--resume"@);
        assert(args[12] == ctx.resume_token->0@);
    } else if ctx.input@ != "--resume"@ {
        lemma_prompt_is_no_word(ctx, "--resume"@);
    }
}

/// Codex resumes the thread that the turn brings, right behind `exec`, and none
/// where it brings none.
pub proof fn codex_resumes(ctx: TurnCtx, home: Seq<char>)
    ensures
        adapters::codex_command_of(ctx, home).args[0] == "exec"@,
        ctx.resume_token matches Some(token) ==> behind(
            adapters::codex_command_of(ctx, home).args,
            "resume"@,
            token@,
        ) && adapters::codex_command_of(ctx, home).args[1] == "resume"@,
        ctx.resume_token is None && ctx.input@ != "resume"@ && ctx.model@ != "resume"@
            ==> !adapters::codex_command_of(ctx, home).args.contains("resume"@),
{
    lemma_words();
    let args = adapters::codex_command_of(ctx, home).args;
    if ctx.resume_token is Some {
        assert(args[1] == "resume"@);
        assert(args[2] == ctx.resume_token->0@);
    } else if ctx.input@ != "resume"@ {
        lemma_prompt_is_no_word(ctx, "resume"@);
    }
}

/// Cursor resumes the session that the turn brings, and none where it brings
/// none.
pub proof fn cursor_resumes(ctx: TurnCtx)
    ensures
        ctx.resume_token matches Some(token) ==> behind(
            adapters::cursor_command_of(ctx).args,
            "--resume"@,
            token@,
        ),
        ctx.resume_token is None && ctx.input@ != "--resume"@ && ctx.model@ != "--resume"@
            ==> !adapters::cursor_command_of(ctx).args.contains("--resume"@),
{
    lemma_words();
    let args = adapters::cursor_command_of(ctx).args;
    if ctx.resume_token is Some {
        assert(args[8] == "--resume"@);
        assert(args[9] == ctx.resume_token->0@);
    } else if ctx.input@ != "--resume"@ {
        lemma_prompt_is_no_word(ctx, "--resume"@);
    }
}

/// Each harness is started by its own program, on the model of the lane. A
/// thread of Codex that is resumed keeps the model it has.
pub proof fn harnesses_run_the_lanes_model(ctx: TurnCtx, mcp_path: Seq<char>, home: Seq<char>)
    ensures
        adapters::claude_command_of(ctx, mcp_path).program == ctx.harness.claude_bin@,
        adapters::codex_command_of(ctx, home).program == ctx.harness.codex_bin@,
        adapters::cursor_command_of(ctx).program == ctx.harness.cursor_bin@,
        behind(adapters::claude_command_of(ctx, mcp_path).args, "--model"@, ctx.model@),
        behind(adapters::cursor_command_of(ctx).args, "--model"@, ctx.model@),
        ctx.resume_token is None ==> behind(
            adapters::codex_command_of(ctx, home).args,
            "-m"@,
            ctx.model@,
        ),
{
    let claude = adapters::claude_command_of(ctx, mcp_path).args;
    assert(claude[2] == "--model"@ && claude[3] == ctx.model@);
    let cursor = adapters::cursor_command_of(ctx).args;
    assert(cursor[6] == "--model"@ && cursor[7] == ctx.model@);
    if ctx.resume_token is None {
        let codex = adapters::codex_command_of(ctx, home).args;
        assert(codex[3] == "-m"@ && codex[4] == ctx.model@);
    }
}

/// Each harness is asked the prompt: Anthropic's behind `-p`, the others as the
/// last argument.
pub proof fn harnesses_are_asked_the_prompt(ctx: TurnCtx, mcp_path: Seq<char>, home: Seq<char>)
    ensures
        behind(adapters::claude_command_of(ctx, mcp_path).args, "-p"@, adapters::prompt_of(ctx)),
        adapters::codex_command_of(ctx, home).args.last() == adapters::prompt_of(ctx),
        adapters::cursor_command_of(ctx).args.last() == adapters::prompt_of(ctx),
        adapters::cursor_command_of(ctx).args.contains("-p"@),
{
    let claude = adapters::claude_command_of(ctx, mcp_path).args;
    assert(claude[0] == "-p"@ && claude[1] == adapters::prompt_of(ctx));
    assert(adapters::cursor_command_of(ctx).args[0] == "-p"@);
}

/// Each harness prints JSON that can be read, asks for no permission, and finds
/// its configuration.
pub proof fn harnesses_run_unattended(ctx: TurnCtx, mcp_path: Seq<char>, home: Seq<char>)
    ensures
        behind(
            adapters::claude_command_of(ctx, mcp_path).args,
            "--output-format"@,
            "stream-json"@,
        ),
        adapters::claude_command_of(ctx, mcp_path).args.contains("--verbose"@),
        behind(
            adapters::claude_command_of(ctx, mcp_path).args,
            "--permission-mode"@,
            "bypassPermissions"@,
        ),
        behind(adapters::claude_command_of(ctx, mcp_path).args, "--mcp-config"@, mcp_path),
        adapters::codex_command_of(ctx, home).args.contains("--json"@),
        adapters::codex_command_of(ctx, home).args.contains("--skip-git-repo-check"@),
        adapters::codex_command_of(ctx, home).env.contains(("CODEX_HOME"@, home)),
        behind(adapters::cursor_command_of(ctx).args, "--output-format"@, "stream-json"@),
        adapters::cursor_command_of(ctx).args.contains("--force"@),
        adapters::cursor_command_of(ctx).args.contains("--trust"@),
        adapters::cursor_command_of(ctx).args.contains("--approve-mcps"@),
{
    let claude = adapters::claude_command_of(ctx, mcp_path).args;
    assert(claude[4] == "--output-format"@ && claude[5] == "stream-json"@);
    assert(claude[6] == "--verbose"@);
    assert(claude[7] == "--permission-mode"@ && claude[8] == "bypassPermissions"@);
    assert(claude[9] == "--mcp-config"@ && claude[10] == mcp_path);
    let codex = adapters::codex_command_of(ctx, home).args;
    if ctx.resume_token is Some {
        assert(codex[3] == "--json"@ && codex[4] == "--skip-git-repo-check"@);
    } else {
        assert(codex[1] == "--json"@ && codex[2] == "--skip-git-repo-check"@);
    }
    assert(adapters::codex_command_of(ctx, home).env[0] == ("CODEX_HOME"@, home));
    let cursor = adapters::cursor_command_of(ctx).args;
    assert(cursor[1] == "--output-format"@ && cursor[2] == "stream-json"@);
    assert(cursor[3] == "--trust"@ && cursor[4] == "--force"@ && cursor[5] == "--approve-mcps"@);
}

// ---------------------------------------------------------------------------
// The prompt
// ---------------------------------------------------------------------------

proof fn lemma_prior_turns_hold(turns: Seq<SummaryView>, k: int)
    requires
        0 <= k < turns.len(),
    ensures
        text::holds(
            adapters::prior_turns(turns),
            adapters::prior_turn((k + 1) as nat, turns[k]),
        ),
    decreases turns.len(),
{
    let rest = adapters::prior_turns(turns.drop_last());
    let last = adapters::prior_turn(turns.len(), turns.last());
    if k < turns.len() - 1 {
        lemma_prior_turns_hold(turns.drop_last(), k);
        text::parts_are_held(Seq::empty(), rest, last);
        assert(Seq::<char>::empty() + rest + last =~= rest + last);
        text::parts_of_parts_are_held(
            adapters::prior_turns(turns),
            rest,
            adapters::prior_turn((k + 1) as nat, turns[k]),
        );
    } else {
        text::parts_are_held(rest, last, Seq::empty());
        assert(rest + last + Seq::<char>::empty() =~= rest + last);
    }
}

/// Where a turn resumes, or has no history, the harness is asked the input as
/// it is.
pub proof fn a_resumed_turn_is_asked_its_input(ctx: TurnCtx)
    requires
        ctx.resume_token is Some || ctx.history_hint@.len() == 0,
    ensures
        adapters::prompt_of(ctx) == ctx.input@,
{
}

/// Where there is nothing to resume, the harness is told every turn that the
/// history holds, and then what it is asked.
pub proof fn a_fresh_turn_is_told_the_history(ctx: TurnCtx, k: int)
    requires
        ctx.resume_token is None,
        0 <= k < ctx.history_hint@.len(),
    ensures
        text::holds(adapters::prompt_of(ctx), ctx.history_hint@[k].input@),
        ctx.history_hint@[k].headline matches Some(headline) ==> text::holds(
            adapters::prompt_of(ctx),
            headline@,
        ),
        exists|front: Seq<char>|
            adapters::prompt_of(ctx) == #[trigger] (front + ("\nCurrent turn:\n"@ + ctx.input@)),
{
    let turns = adapters::history_view(ctx.history_hint@);
    let turn = turns[k];
    assert(turn == ctx.history_hint@[k]@);
    let told = adapters::prior_turn((k + 1) as nat, turn);
    lemma_prior_turns_hold(turns, k);
    let all = adapters::prior_turns(turns);
    let rest = "\nCurrent turn:\n"@ + ctx.input@;
    let prompt = adapters::prompt_of(ctx);
    text::parts_are_held("Prior turns:\n"@, all, rest);
    assert("Prior turns:\n"@ + all + rest =~= prompt);
    assert(("Prior turns:\n"@ + all) + rest =~= prompt);
    text::parts_of_parts_are_held(prompt, all, told);
    let number = text::decimal((k + 1) as nat) + ". User: "@;
    let tail = match turn.headline {
        Some(headline) => "\n"@ + "   Outcome: "@ + headline + "\n"@,
        None => "\n"@,
    };
    text::parts_are_held(number, turn.input, tail);
    assert(number + turn.input + tail =~= told);
    text::parts_of_parts_are_held(prompt, told, turn.input);
    if let Some(headline) = turn.headline {
        let front = number + turn.input + "\n"@ + "   Outcome: "@;
        text::parts_are_held(front, headline, "\n"@);
        assert(front + headline + "\n"@ =~= told);
        text::parts_of_parts_are_held(prompt, told, headline);
    }
}

/// A turn is played with its own input, token and history, on the model and
/// effort that it names itself or else its session does.
pub proof fn a_turn_is_played_as_it_was_claimed(ctx: TurnCtx, work: WorkView)
    requires
        adapters::is_context_of(ctx, work),
    ensures
        ctx.input@ == work.turn.input,
        ctx.seq == work.turn.seq,
        ctx.session_id == work.session.id,
        adapters::history_view(ctx.history_hint@) == work.history_hint,
        work.turn.resume_token is Some <==> ctx.resume_token is Some,
        work.turn.resume_token is Some ==> ctx.resume_token->0@ == work.turn.resume_token->0,
        work.turn.lane_override matches Some(lane) ==> ctx.model@ == lane.model && (
        lane.effort is Some <==> ctx.effort is Some),
        work.turn.lane_override is None ==> ctx.model@ == work.session.lane.model && (
        work.session.lane.effort is Some <==> ctx.effort is Some),
{
}

// ---------------------------------------------------------------------------
// The sub-agent tools
// ---------------------------------------------------------------------------

/// The tools are those of this session at the caller's address.
pub proof fn tools_are_for_this_session(ctx: TurnCtx)
    ensures
        adapters::mcp_args_of(ctx)[0] == "mcp"@,
        behind(adapters::mcp_args_of(ctx), "--server"@, ctx.harness.server_url@),
        behind(adapters::mcp_args_of(ctx), "--parent"@, outside::id_text(ctx.session_id)),
{
    let args = adapters::mcp_args_of(ctx);
    assert(args[1] == "--server"@ && args[2] == ctx.harness.server_url@);
    assert(args[3] == "--parent"@ && args[4] == outside::id_text(ctx.session_id));
}

/// The member of an object under a key, one level down.
pub open spec fn inside(value: Option<JsonView>, key: Seq<char>) -> Option<JsonView> {
    match value {
        Some(value) => json::member(value, key),
        None => None,
    }
}

/// The config attaches the caller's program with those arguments, and the token
/// where there is one.
pub proof fn the_config_attaches_the_tools(ctx: TurnCtx)
    ensures
        ({
            let server = inside(
                json::member(adapters::mcp_config_of(ctx), "mcpServers"@),
                "ceilidh"@,
            );
            let args = inside(server, "args"@);
            &&& inside(server, "command"@) == Some(JsonView::Text(ctx.harness.ceilidh_bin@))
            &&& args is Some && args->0 is Array
            &&& args->0->Array_0.len() == adapters::mcp_args_of(ctx).len()
            &&& forall|i: int|
                0 <= i < adapters::mcp_args_of(ctx).len() ==> #[trigger] args->0->Array_0[i]
                    == JsonView::Text(adapters::mcp_args_of(ctx)[i])
            &&& ctx.harness.token matches Some(token) ==> inside(
                inside(server, "env"@),
                "CEILIDH_TOKEN"@,
            ) == Some(JsonView::Text(token@))
        }),
{
    reveal_strlit("command");
    reveal_strlit("args");
    reveal_strlit("env");
    assert("command"@.len() == 7 && "args"@.len() == 4 && "env"@.len() == 3);
    let top = adapters::mcp_config_of(ctx)->Object_0;
    json::members_are_found(top, "mcpServers"@, 0);
    let servers = top[0].1->Object_0;
    json::members_are_found(servers, "ceilidh"@, 0);
    let server = servers[0].1->Object_0;
    json::members_are_found(server, "command"@, 0);
    json::members_are_found(server, "args"@, 1);
    json::members_are_found(server, "env"@, 2);
    json::members_are_found(server[2].1->Object_0, "CEILIDH_TOKEN"@, 0);
}

/// Codex's config names the model, the effort where there is one, the tools and
/// the token, and lets the harness write in the workspace without asking.
pub proof fn codex_is_configured(ctx: TurnCtx)
    ensures
        ({
            let config = adapters::codex_config_of(ctx);
            &&& text::holds(config, "model = "@ + outside::json_string(ctx.model@) + "\n"@)
            &&& ctx.effort matches Some(effort) ==> text::holds(
                config,
                "model_reasoning_effort = "@ + outside::json_string(effort@) + "\n"@,
            )
            &&& text::holds(config, "sandbox_mode = \"workspace-write\"\n"@)
            &&& text::holds(config, "approval_policy = \"never\"\n"@)
            &&& text::holds(
                config,
                "command = "@ + outside::json_string(ctx.harness.ceilidh_bin@) + "\n"@,
            )
            &&& text::holds(
                config,
                "args = ["@ + adapters::quoted_args(adapters::mcp_args_of(ctx)) + "]\n"@,
            )
            &&& ctx.harness.token matches Some(token) ==> text::holds(
                config,
                "CEILIDH_TOKEN = "@ + outside::json_string(token@) + "\n"@,
            )
        }),
{
    let config = adapters::codex_config_of(ctx);
    let model = "model = "@ + outside::json_string(ctx.model@) + "\n"@;
    let effort = match ctx.effort {
        Some(effort) => "model_reasoning_effort = "@ + outside::json_string(effort@) + "\n"@,
        None => Seq::empty(),
    };
    let sandbox = "sandbox_mode = \"workspace-write\"\n"@;
    let approval = "approval_policy = \"never\"\n"@;
    let between = "\n[sandbox_workspace_write]\nnetwork_access = true\n"@ + "\n[projects."@
        + outside::json_string(ctx.workspace_dir@) + "]\ntrust_level = \"trusted\"\n"@
        + "\n[mcp_servers.ceilidh]\n"@;
    let command = "command = "@ + outside::json_string(ctx.harness.ceilidh_bin@) + "\n"@;
    let args = "args = ["@ + adapters::quoted_args(adapters::mcp_args_of(ctx)) + "]\n"@;
    let limits = "startup_timeout_sec = 30\n"@ + "tool_timeout_sec = "@ + text::decimal(
        adapters::MCP_TOOL_TIMEOUT_SECS as nat,
    ) + "\n"@ + "\n[mcp_servers.ceilidh.env]\n"@;
    let token = "CEILIDH_TOKEN = "@ + outside::json_string(adapters::token_of(*ctx.harness))
        + "\n"@;
    let start = model + effort + sandbox + approval;
    let middle = start + between;
    let x1 = "\n[sandbox_workspace_write]\nnetwork_access = true\n"@;
    let x2 = "\n[projects."@;
    let x3 = outside::json_string(ctx.workspace_dir@);
    let x4 = "]\ntrust_level = \"trusted\"\n"@;
    let x5 = "\n[mcp_servers.ceilidh]\n"@;
    assert(middle == start + x1 + x2 + x3 + x4 + x5) by {
        lemma_five(start, x1, x2, x3, x4, x5);
    }
    let y2 = outside::json_string(ctx.harness.ceilidh_bin@);
    assert(middle + command == middle + "command = "@ + y2 + "\n"@) by {
        lemma_three(middle, "command = "@, y2, "\n"@);
    }
    let at_args = middle + command;
    let z2 = adapters::quoted_args(adapters::mcp_args_of(ctx));
    assert(at_args + args == at_args + "args = ["@ + z2 + "]\n"@) by {
        lemma_three(at_args, "args = ["@, z2, "]\n"@);
    }
    let at_limits = at_args + args;
    let w3 = text::decimal(adapters::MCP_TOOL_TIMEOUT_SECS as nat);
    let w5 = "\n[mcp_servers.ceilidh.env]\n"@;
    assert(at_limits + limits == at_limits + "startup_timeout_sec = 30\n"@ + "tool_timeout_sec = "@
        + w3 + "\n"@ + w5) by {
        lemma_five(
            at_limits,
            "startup_timeout_sec = 30\n"@,
            "tool_timeout_sec = "@,
            w3,
            "\n"@,
            w5,
        );
    }
    let at_token = at_limits + limits;
    let v2 = outside::json_string(adapters::token_of(*ctx.harness));
    assert(at_token + token == at_token + "CEILIDH_TOKEN = "@ + v2 + "\n"@) by {
        lemma_three(at_token, "CEILIDH_TOKEN = "@, v2, "\n"@);
    }
    assert(config == at_token + token);
    lemma_last_part(Seq::empty(), model);
    assert(Seq::empty() + model =~= model);
    lemma_last_part(model, effort);
    lemma_last_part(model + effort, sandbox);
    lemma_last_part(model + effort + sandbox, approval);
    lemma_last_part(middle, command);
    lemma_last_part(at_args, args);
    lemma_last_part(at_token, token);
    lemma_more(model, effort, model);
    lemma_more(model + effort, sandbox, model);
    lemma_more(model + effort, sandbox, effort);
    lemma_more(model + effort + sandbox, approval, model);
    lemma_more(model + effort + sandbox, approval, effort);
    lemma_more(model + effort + sandbox, approval, sandbox);
    lemma_rest(start, between, command, args, limits, token, model);
    lemma_rest(start, between, command, args, limits, token, effort);
    lemma_rest(start, between, command, args, limits, token, sandbox);
    lemma_rest(start, between, command, args, limits, token, approval);
    lemma_more(at_args, args, command);
    lemma_more(at_limits, limits, command);
    lemma_more(at_limits, limits, args);
    lemma_more(at_token, token, command);
    lemma_more(at_token, token, args);
}

proof fn lemma_five(
    s: Seq<char>,
    a: Seq<char>,
    b: Seq<char>,
    c: Seq<char>,
    d: Seq<char>,
    e: Seq<char>,
)
    ensures
        s + (a + b + c + d + e) == s + a + b + c + d + e,
{
    assert(s + (a + b + c + d + e) =~= s + a + b + c + d + e);
}

proof fn lemma_three(s: Seq<char>, a: Seq<char>, b: Seq<char>, c: Seq<char>)
    ensures
        s + (a + b + c) == s + a + b + c,
{
    assert(s + (a + b + c) =~= s + a + b + c);
}

proof fn lemma_last_part(front: Seq<char>, part: Seq<char>)
    ensures
        text::holds(front + part, part),
{
    text::parts_are_held(front, part, Seq::empty());
    assert(front + part + Seq::<char>::empty() =~= front + part);
}

proof fn lemma_more(s: Seq<char>, more: Seq<char>, part: Seq<char>)
    requires
        text::holds(s, part),
    ensures
        text::holds(s + more, part),
{
    text::parts_are_held(Seq::empty(), s, more);
    assert(Seq::<char>::empty() + s + more =~= s + more);
    text::parts_of_parts_are_held(s + more, s, part);
}

proof fn lemma_rest(
    s: Seq<char>,
    a: Seq<char>,
    b: Seq<char>,
    c: Seq<char>,
    d: Seq<char>,
    e: Seq<char>,
    part: Seq<char>,
)
    requires
        text::holds(s, part),
    ensures
        text::holds(s + a + b + c + d + e, part),
{
    lemma_more(s, a, part);
    lemma_more(s + a, b, part);
    lemma_more(s + a + b, c, part);
    lemma_more(s + a + b + c, d, part);
    lemma_more(s + a + b + c + d, e, part);
}

/// The API keys of the subscription lanes are stripped unless they are passed
/// on, and nothing is stripped besides them and what leads to the caller.
pub proof fn metered_keys_are_stripped(pass_env: Seq<Seq<char>>, name: Seq<char>)
    ensures
        adapters::stripped(pass_env).contains("ANTHROPIC_API_KEY"@) <==> !pass_env.contains(
            "ANTHROPIC_API_KEY"@,
        ),
        adapters::stripped(pass_env).contains("OPENAI_API_KEY"@) <==> !pass_env.contains(
            "OPENAI_API_KEY"@,
        ),
        adapters::stripped(pass_env).contains(name) ==> name == "CEILIDH_TOKEN"@ || name
            == "CEILIDH_SERVER"@ || name == "ANTHROPIC_API_KEY"@ || name == "OPENAI_API_KEY"@,
        !adapters::stripped(pass_env).contains("CURSOR_API_KEY"@),
{
    reveal_strlit("CEILIDH_TOKEN");
    reveal_strlit("CEILIDH_SERVER");
    reveal_strlit("ANTHROPIC_API_KEY");
    reveal_strlit("OPENAI_API_KEY");
    reveal_strlit("CURSOR_API_KEY");
    assert("CEILIDH_TOKEN"@.len() == 13 && "CEILIDH_SERVER"@.len() == 14);
    assert("ANTHROPIC_API_KEY"@.len() == 17 && "OPENAI_API_KEY"@.len() == 14);
    assert("CEILIDH_SERVER"@[0] == 'C' && "OPENAI_API_KEY"@[0] == 'O');
    assert("CURSOR_API_KEY"@.len() == 14 && "CURSOR_API_KEY"@[1] == 'U');
    assert("CEILIDH_SERVER"@[1] == 'E');
    assert("CURSOR_API_KEY"@[0] == 'C');
    let names = adapters::stripped(pass_env);
    let anthropic = !pass_env.contains("ANTHROPIC_API_KEY"@);
    if anthropic {
        assert(names[2] == "ANTHROPIC_API_KEY"@);
    }
    if !pass_env.contains("OPENAI_API_KEY"@) {
        if anthropic {
            assert(names[3] == "OPENAI_API_KEY"@);
        } else {
            assert(names[2] == "OPENAI_API_KEY"@);
        }
    }
}

/// A pattern is put on a line of its own behind what the file holds.
pub proof fn excluding_only_adds_a_line(existing: Seq<char>, pattern: Seq<char>)
    ensures
        adapters::excluded(existing, pattern) is None <==> text::has_line(existing, pattern),
        adapters::excluded(existing, pattern) matches Some(next) ==> {
            &&& existing.is_prefix_of(next)
            &&& exists|front: Seq<char>|
                next == #[trigger] (front + (pattern + "\n"@)) && (front.len() == 0 || front.last()
                    == '\n')
        },
{
    reveal_strlit("\n");
    if let Some(next) = adapters::excluded(existing, pattern) {
        assert(next.take(existing.len() as int) =~= existing);
        if existing.len() > 0 && existing.last() != '\n' {
            let front = existing + "\n"@;
            assert(next =~= front + (pattern + "\n"@));
        } else {
            assert(next =~= existing + (pattern + "\n"@));
        }
    }
}

// ---------------------------------------------------------------------------
// The workspace
// ---------------------------------------------------------------------------

/// Every step that asks for, fetches, cuts or checks out the session's branch
/// names that branch, and no other; what is listed is that branch alone.
pub proof fn steps_are_for_the_sessions_branch(
    step: PrepStep,
    branch: Seq<char>,
    clone: Seq<Seq<char>>,
)
    ensures
        ({
            let args = workspace::step_args(step, branch, clone);
            match step {
                PrepStep::List => args.len() > 0 && args[0] == "ls-remote"@ && args.contains(
                    "--heads"@,
                ) && args.len() == 4 && behind(args, "origin"@, branch) && args.last() == branch,
                PrepStep::Fetch => args.len() == 3 && args[0] == "fetch"@ && behind(
                    args,
                    "origin"@,
                    branch + ":"@ + branch,
                ),
                PrepStep::Branch => args.len() == 3 && args[0] == "checkout"@ && behind(
                    args,
                    "-b"@,
                    branch,
                ),
                PrepStep::Resume | PrepStep::OldBranch => args.len() == 2 && behind(
                    args,
                    "checkout"@,
                    branch,
                ),
                PrepStep::Clone => args == clone,
                PrepStep::Init => args == seq!["init"@],
                PrepStep::FirstCommit => args.len() > 0 && args[0] == "commit"@ && behind(
                    args,
                    "-m"@,
                    "initial"@,
                ),
                PrepStep::OwnIdentity => behind(args, "-m"@, "initial"@),
                PrepStep::MakeDir => args.len() == 0,
            }
        }),
{
    let args = workspace::step_args(step, branch, clone);
    match step {
        PrepStep::List => {
            assert(args[1] == "--heads"@);
            assert(args[2] == "origin"@ && args[3] == branch);
        },
        PrepStep::Fetch => {
            assert(args[1] == "origin"@);
        },
        PrepStep::Branch => {
            assert(args[1] == "-b"@);
        },
        PrepStep::Resume | PrepStep::OldBranch => {
            assert(args[0] == "checkout"@);
        },
        PrepStep::FirstCommit => {
            assert(args[2] == "-m"@ && args[3] == "initial"@);
        },
        PrepStep::OwnIdentity => {
            assert(args[6] == "-m"@ && args[7] == "initial"@);
        },
        _ => {},
    }
}

/// A clone is of the repository that the session names, behind `--`, so that it
/// is never taken for an option, and from its base branch where it names one.
pub proof fn clones_are_of_the_sessions_repository(url: Seq<char>, base: Option<Seq<char>>)
    ensures
        runner::clone_args(url, base)[0] == "clone"@,
        behind(runner::clone_args(url, base), "--"@, url),
        runner::clone_args(url, base).last() == "ws"@,
        base matches Some(branch) ==> behind(runner::clone_args(url, base), "-b"@, branch)
            && runner::clone_args(url, base).len() == 6,
        base is None ==> runner::clone_args(url, base).len() == 4,
{
    let args = runner::clone_args(url, base);
    if base is Some {
        assert(args[1] == "-b"@ && args[2] == base->0);
        assert(args[3] == "--"@ && args[4] == url);
    } else {
        assert(args[1] == "--"@ && args[2] == url);
    }
}

/// The remote is asked before a branch is cut, and a workspace is ready only
/// once the session's branch is checked out. No failure makes it ready.
pub proof fn a_workspace_is_ready_on_its_branch(
    step: PrepStep,
    branch: Seq<char>,
    result: Result<Seq<char>, Seq<char>>,
)
    ensures
        workspace::after(step, branch, result) is Ready <==> result is Ok && (step
            == PrepStep::Resume || step == PrepStep::Branch || step == PrepStep::OldBranch),
        step == PrepStep::Clone && result is Ok ==> workspace::after(step, branch, result) == (
        PrepView::Run { step: PrepStep::List }),
        step == PrepStep::Clone && result is Err ==> workspace::after(
            step,
            branch,
            result,
        ) is Failed,
        step == PrepStep::List ==> (workspace::after(step, branch, result) == (PrepView::Run {
            step: PrepStep::Fetch,
        }) <==> result is Ok && !text::is_blank(result->Ok_0)),
        step == PrepStep::List && !(result is Ok && !text::is_blank(result->Ok_0))
            ==> workspace::after(step, branch, result) == (PrepView::Run { step: PrepStep::Branch }),
        result is Err && workspace::after(step, branch, result) is Failed ==> text::holds(
            workspace::after(step, branch, result)->Failed_message,
            result->Err_0,
        ),
{
    if let Err(error) = result {
        if let PrepView::Failed { message } = workspace::after(step, branch, result) {
            let n = message.len() - error.len();
            let front = message.take(n);
            assert(message =~= front + error);
            text::parts_are_held(front, error, Seq::empty());
            assert(front + error + Seq::<char>::empty() =~= message);
        }
    }
}

/// A turn is committed whole, under its number, even where it changed nothing;
/// the commit that is reported is the one that git names. Nothing but that is
/// a commit.
pub proof fn turns_are_committed_whole(
    step: CommitStep,
    seq: i64,
    result: Result<Seq<char>, Seq<char>>,
)
    ensures
        workspace::commit_step_args(CommitStep::Add, seq) == seq!["add"@, "-A"@],
        workspace::commit_step_args(CommitStep::Head, seq) == seq!["rev-parse"@, "HEAD"@],
        workspace::commit_step_args(CommitStep::Commit, seq).contains("--allow-empty"@),
        behind(
            workspace::commit_step_args(CommitStep::Commit, seq),
            "-m"@,
            "turn "@ + text::signed_decimal(seq as int),
        ),
        behind(
            workspace::commit_step_args(CommitStep::OwnIdentity, seq),
            "-m"@,
            "turn "@ + text::signed_decimal(seq as int),
        ),
        workspace::commit_step_args(CommitStep::OwnIdentity, seq).contains("--allow-empty"@),
        workspace::committed(step, result) is Done <==> step == CommitStep::Head && result is Ok,
        workspace::committed(CommitStep::Head, result) matches CommittingView::Done { commit }
            ==> commit == text::trimmed(result->Ok_0),
        result is Ok && step == CommitStep::Add ==> workspace::committed(step, result) == (
        CommittingView::Run { step: CommitStep::Commit }),
        result is Ok && (step == CommitStep::Commit || step == CommitStep::OwnIdentity)
            ==> workspace::committed(step, result) == (CommittingView::Run {
            step: CommitStep::Head,
        }),
        result is Err && workspace::committed(step, result) !is Failed ==> step
            == CommitStep::Commit && runner::identity_error(result->Err_0),
{
    let plain = workspace::commit_step_args(CommitStep::Commit, seq);
    assert(plain[1] == "--allow-empty"@);
    assert(plain[2] == "-m"@ && plain[3] == "turn "@ + text::signed_decimal(seq as int));
    let own = workspace::commit_step_args(CommitStep::OwnIdentity, seq);
    assert(own[5] == "--allow-empty"@);
    assert(own[6] == "-m"@ && own[7] == "turn "@ + text::signed_decimal(seq as int));
}

proof fn lemma_digits_len(n: nat, len: nat)
    ensures
        outside::hex_digits(n, len).len() == len,
    decreases len,
{
    if len > 0 {
        lemma_digits_len(n / 16, (len - 1) as nat);
    }
}

/// A session's branch is the caller's own, carries the slug of its title where
/// there is one, and ends with the first eight digits of its identifier: two
/// sessions that differ in those never share a branch.
pub proof fn branches_are_told_apart(one: SessionView, other: SessionView)
    ensures
        text::occurs_at(runner::branch_of(one), "ceilidh/"@, 0),
        runner::branch_of(one).len() > 8,
        runner::branch_of(one).skip(runner::branch_of(one).len() - 8) == outside::id_digits(
            one.id,
        ).take(8),
        text::holds(runner::branch_of(one), runner::slug(one.title)),
        outside::id_digits(one.id).take(8) != outside::id_digits(other.id).take(8)
            ==> runner::branch_of(one) != runner::branch_of(other),
{
    lemma_branch(one);
    lemma_branch(other);
}

proof fn lemma_branch(session: SessionView)
    ensures
        text::occurs_at(runner::branch_of(session), "ceilidh/"@, 0),
        runner::branch_of(session).len() > 8,
        runner::branch_of(session).skip(runner::branch_of(session).len() - 8)
            == outside::id_digits(session.id).take(8),
        text::holds(runner::branch_of(session), runner::slug(session.title)),
{
    reveal_strlit("ceilidh/");
    reveal_strlit("ceilidh/session-");
    lemma_digits_len(session.id as nat, 32);
    let id8 = outside::id_digits(session.id).take(8);
    let name = runner::slug(session.title);
    let branch = runner::branch_of(session);
    assert(id8.len() == 8);
    assert(branch.skip(branch.len() - 8) =~= id8);
    assert(branch.subrange(0, 8) =~= "ceilidh/"@);
    if name.len() == 0 {
        text::parts_are_held(branch, name, Seq::empty());
        assert(branch + name + Seq::<char>::empty() =~= branch);
    } else {
        text::parts_are_held("ceilidh/"@, name, "-"@ + id8);
        assert("ceilidh/"@ + name + ("-"@ + id8) =~= branch);
    }
}

/// Only an http address or an absolute path is a repository.
pub proof fn repositories_are_addresses_or_paths(url: Seq<char>)
    ensures
        runner::is_repo(url) ==> url.len() > 0 && (url[0] == 'h' || url[0] == '/'),
        url.len() > 0 && url[0] == '/' ==> runner::is_repo(url),
        url.len() > 0 && url[0] == '-' ==> !runner::is_repo(url),
{
    reveal_strlit("https://");
    reveal_strlit("http://");
    reveal_strlit("/");
    if text::occurs_at(url, "https://"@, 0) {
        assert(url[0] == url.subrange(0, 8)[0]);
    }
    if text::occurs_at(url, "http://"@, 0) {
        assert(url[0] == url.subrange(0, 7)[0]);
    }
    if text::occurs_at(url, "/"@, 0) {
        assert(url[0] == url.subrange(0, 1)[0]);
    }
    if url.len() > 0 && url[0] == '/' {
        assert(url.subrange(0, 1) =~= "/"@);
        assert(text::occurs_at(url, "/"@, 0));
    }
}

// ---------------------------------------------------------------------------
// The report
// ---------------------------------------------------------------------------

/// What a runner reports is what became of the turn.
pub proof fn reports_tell_the_outcome(outcome: OutcomeView, commit: Option<Seq<char>>)
    ensures
        ({
            let report = runner::report_of(outcome, commit);
            &&& report.status == TurnStatus::Done <==> outcome.status == AdapterStatus::Done
            &&& report.status == TurnStatus::Error <==> outcome.status == AdapterStatus::Error
            &&& report.status == TurnStatus::Capped <==> outcome.status == AdapterStatus::Capped
            &&& report.status == TurnStatus::Cancelled <==> outcome.status
                == AdapterStatus::Cancelled
            &&& report.envelope == outcome.envelope
            &&& report.error == outcome.error
            &&& report.commit == commit
            &&& report.resume_token == outcome.resume_token
        }),
{
}

proof fn lemma_error_told(error: Option<Seq<char>>, message: Seq<char>)
    ensures
        text::holds(runner::with_error(error, message), message),
        error is Some && !text::is_blank(error->0) ==> text::holds(
            runner::with_error(error, message),
            error->0,
        ),
{
    if error is Some && !text::is_blank(error->0) {
        let front = error->0 + "\n"@;
        text::parts_are_held(front, message, Seq::empty());
        assert(front + message + Seq::<char>::empty() =~= front + message);
        text::parts_are_held(Seq::empty(), error->0, "\n"@ + message);
        assert(Seq::<char>::empty() + error->0 + ("\n"@ + message) =~= front + message);
    } else {
        text::parts_are_held(Seq::empty(), message, Seq::empty());
        assert(Seq::<char>::empty() + message + Seq::<char>::empty() =~= message);
    }
}

/// A commit that failed is told, and what can be resumed is kept; one that was
/// made changes nothing of the outcome.
pub proof fn failed_commits_are_told(outcome: OutcomeView, error: Seq<char>, commit: Seq<char>)
    ensures
        runner::committed(outcome, Ok(commit)) == outcome,
        runner::committed(outcome, Err(error)).status != AdapterStatus::Done,
        outcome.status != AdapterStatus::Done ==> runner::committed(outcome, Err(error)).status
            == outcome.status,
        runner::committed(outcome, Err(error)).resume_token == outcome.resume_token,
        runner::committed(outcome, Err(error)).error is Some,
        text::holds(runner::committed(outcome, Err(error)).error->0, error),
        outcome.status == AdapterStatus::Done ==> runner::committed(
            outcome,
            Err(error),
        ).envelope is None,
{
    let message = "git commit failed: "@ + error;
    text::parts_are_held("git commit failed: "@, error, Seq::empty());
    assert("git commit failed: "@ + error + Seq::<char>::empty() =~= message);
    lemma_error_told(outcome.error, message);
    if outcome.status != AdapterStatus::Done {
        text::parts_of_parts_are_held(
            runner::committed(outcome, Err(error)).error->0,
            message,
            error,
        );
    }
}

/// The envelope tells the warning behind what it said.
pub open spec fn warns_of(
    before: EnvelopeView,
    after: EnvelopeView,
    warning: Seq<char>,
) -> bool {
    &&& before.body_markdown.is_prefix_of(after.body_markdown)
    &&& text::holds(after.body_markdown, warning)
    &&& after == EnvelopeView { body_markdown: after.body_markdown, ..before }
}

/// A push that failed is told in the error and in the answer; the turn is what
/// it was, and its answer stands.
pub proof fn failed_pushes_are_told(outcome: OutcomeView, error: Seq<char>)
    ensures
        runner::pushed(outcome, None) == outcome,
        runner::pushed(outcome, Some(error)).status == outcome.status,
        runner::pushed(outcome, Some(error)).resume_token == outcome.resume_token,
        runner::pushed(outcome, Some(error)).error is Some,
        text::holds(runner::pushed(outcome, Some(error)).error->0, error),
        outcome.envelope is None ==> runner::pushed(outcome, Some(error)).envelope is None,
        outcome.envelope is Some ==> runner::pushed(outcome, Some(error)).envelope is Some
            && warns_of(
            outcome.envelope->0,
            runner::pushed(outcome, Some(error)).envelope->0,
            error,
        ),
{
    let message = "git push failed: "@ + error;
    text::parts_are_held("git push failed: "@, error, Seq::empty());
    assert("git push failed: "@ + error + Seq::<char>::empty() =~= message);
    lemma_error_told(outcome.error, message);
    text::parts_of_parts_are_held(runner::pushed(outcome, Some(error)).error->0, message, error);
    if let Some(envelope) = outcome.envelope {
        let front = envelope.body_markdown + "\n\n> warning: "@;
        let body = front + message + "\n"@;
        text::parts_are_held(front, message, "\n"@);
        text::parts_of_parts_are_held(body, message, error);
        assert(body.take(envelope.body_markdown.len() as int) =~= envelope.body_markdown);
    }
}

/// The refusal of a workspace shows what is wrong: the repository, or else the
/// base branch.
pub proof fn refusals_name_what_is_wrong(profile: ProfileView)
    requires
        profile.repo_url is Some,
    ensures
        !runner::is_repo(profile.repo_url->0) ==> text::holds(
            runner::plan_refusal(profile),
            outside::debug_of(profile.repo_url->0),
        ),
        runner::is_repo(profile.repo_url->0) ==> text::holds(
            runner::plan_refusal(profile),
            outside::debug_of(profile.base_branch->0),
        ),
{
    let said = runner::plan_refusal(profile);
    let repo = outside::debug_of(profile.repo_url->0);
    let base = outside::debug_of(profile.base_branch->0);
    let a = "repo_url must be an http:// or https:// URL or an absolute path, got "@;
    text::parts_are_held(a, repo, Seq::empty());
    assert(a + repo + Seq::<char>::empty() =~= a + repo);
    let b = "invalid git ref name "@;
    text::parts_are_held(b, base, Seq::empty());
    assert(b + base + Seq::<char>::empty() =~= b + base);
}

// ---------------------------------------------------------------------------
// What a runner does around a turn
// ---------------------------------------------------------------------------

/// A workspace that is there is used. One that is not is cloned, where the
/// session names a repository that can be, or else made; it is never cloned
/// from what is no address or from a base that is no name of a branch.
pub proof fn workspaces_begin_as_the_session_says(
    exists: bool,
    profile: ProfileView,
    prep: PrepView,
    args: Seq<Seq<char>>,
)
    requires
        workspace::begins(exists, profile, prep, args),
    ensures
        prep is Ready <==> exists,
        !exists && profile.repo_url is None ==> prep == (PrepView::Run { step: PrepStep::MakeDir }),
        prep == (PrepView::Run { step: PrepStep::Clone }) ==> {
            &&& profile.repo_url is Some
            &&& args[0] == "clone"@
            &&& behind(args, "--"@, profile.repo_url->0)
            &&& profile.base_branch matches Some(base) ==> behind(args, "-b"@, base)
        },
        !exists && profile.repo_url is Some && !text::occurs_at(
            profile.repo_url->0,
            "https://"@,
            0,
        ) && !text::occurs_at(profile.repo_url->0, "http://"@, 0) && !text::occurs_at(
            profile.repo_url->0,
            "/"@,
            0,
        ) ==> prep is Failed,
        !exists && profile.repo_url is Some && text::occurs_at(profile.repo_url->0, "https://"@, 0)
            && profile.base_branch is None ==> prep == (PrepView::Run { step: PrepStep::Clone }),
        !exists && profile.repo_url is Some && profile.base_branch is Some
            && profile.base_branch->0.len() > 0 && profile.base_branch->0[0] == '-'
            ==> prep is Failed,
{
    if profile.repo_url is Some {
        clones_are_of_the_sessions_repository(profile.repo_url->0, profile.base_branch);
    }
}

/// A branch is pushed where there is something new on it and the session
/// allows that, to where it came from and under its own name.
pub proof fn pushes_are_allowed_and_of_the_branch(
    commit: Option<Seq<char>>,
    profile: ProfileView,
    branch: Seq<char>,
)
    ensures
        runner::is_pushed(commit, profile) ==> profile.allow_push,
        !profile.allow_push ==> !runner::is_pushed(commit, profile),
        commit is None ==> !runner::is_pushed(commit, profile),
        commit is Some && profile.allow_push ==> runner::is_pushed(commit, profile),
        workspace::push_step_args(branch)[0] == "push"@,
        behind(workspace::push_step_args(branch), "origin"@, branch),
        workspace::push_step_args(branch).last() == branch,
{
    let args = workspace::push_step_args(branch);
    assert(args[2] == "origin"@ && args[3] == branch);
}

/// After a failure a runner waits, each time twice as long, but for no more
/// than half a minute; once it was answered it asks again at once, and the next
/// failure is waited for two seconds.
pub proof fn failures_are_waited_out(result: ClaimResult, backoff: u64)
    ensures
        result == ClaimResult::Failed ==> runner::claim_pause(result, backoff).0 == backoff,
        result == ClaimResult::Failed && backoff <= 15 ==> runner::claim_pause(result, backoff).1
            == 2 * backoff,
        result == ClaimResult::Failed && backoff > 15 ==> runner::claim_pause(result, backoff).1
            == 30,
        result == ClaimResult::Empty || result == ClaimResult::Work ==> runner::claim_pause(
            result,
            backoff,
        ) == (0u64, 2u64),
{
}

/// A runner plays as many turns at once as it was told, and at least one.
pub proof fn a_runner_plays_at_least_one(max_turns: usize)
    ensures
        runner::slots_of(max_turns) >= 1,
        max_turns >= 1 ==> runner::slots_of(max_turns) == max_turns,
        max_turns == 0 ==> runner::slots_of(max_turns) == 1,
{
}

/// A runner goes by its machine and its user, by what the system says of the
/// user where the environment says nothing.
pub proof fn runners_are_named_by_machine_and_user(
    host: Seq<char>,
    user: Seq<char>,
    other: Option<Seq<char>>,
    blank: Option<Seq<char>>,
)
    requires
        !text::is_blank(user),
        blank is None || text::is_blank(blank->0),
    ensures
        runner::runner_name(Some(host), Some(user), other) == host + ":"@ + text::trimmed(user),
        runner::runner_name(Some(host), blank, Some(user)) == host + ":"@ + text::trimmed(user),
{
}

/// A failure of git tells what was run, how it ended, and what git said of it:
/// on standard error, or else on standard output.
pub proof fn failures_of_git_are_told(
    args: Seq<Seq<char>>,
    status: Seq<char>,
    stdout: Seq<char>,
    stderr: Seq<char>,
)
    ensures
        text::holds(
            runner::git_failure_of(args, status, stdout, stderr),
            text::joined(args, " "@),
        ),
        text::holds(runner::git_failure_of(args, status, stdout, stderr), status),
        !text::is_blank(stderr) && text::trimmed(stderr).len() <= 4000 ==> text::holds(
            runner::git_failure_of(args, status, stdout, stderr),
            text::trimmed(stderr),
        ),
        text::is_blank(stderr) && text::trimmed(stdout).len() <= 4000 ==> text::holds(
            runner::git_failure_of(args, status, stdout, stderr),
            text::trimmed(stdout),
        ),
{
    let detail = if text::is_blank(stderr) {
        stdout
    } else {
        stderr
    };
    lemma_failure_words(
        "git "@,
        text::joined(args, " "@),
        " failed with "@,
        status,
        ": "@,
        text::tail_of(detail, 4000),
    );
}

proof fn lemma_failure_words(
    a: Seq<char>,
    words: Seq<char>,
    b: Seq<char>,
    status: Seq<char>,
    c: Seq<char>,
    tail: Seq<char>,
)
    ensures
        text::holds(a + words + b + status + c + tail, words),
        text::holds(a + words + b + status + c + tail, status),
        text::holds(a + words + b + status + c + tail, tail),
{
    let all = a + words + b + status + c + tail;
    text::parts_are_held(a, words, b + status + c + tail);
    assert(all =~= a + words + (b + status + c + tail));
    text::parts_are_held(a + words + b, status, c + tail);
    assert(all =~= (a + words + b) + status + (c + tail));
    text::parts_are_held(a + words + b + status + c, tail, Seq::empty());
    assert(all =~= (a + words + b + status + c) + tail + Seq::<char>::empty());
}

/// Tools are given twenty-five minutes by either harness that takes a limit,
/// longer than any wait for a child.
pub proof fn tools_are_given_time(ctx: TurnCtx, path: Seq<char>)
    ensures
        adapters::claude_command_of(ctx, path).env.contains(
            ("MCP_TOOL_TIMEOUT"@, text::decimal((25 * 60 * 1000) as nat)),
        ),
        adapters::claude_command_of(ctx, path).env.contains(("MCP_TIMEOUT"@, "30000"@)),
        text::holds(
            adapters::codex_config_of(ctx),
            "tool_timeout_sec = "@ + text::decimal((25 * 60) as nat) + "\n"@,
        ),
        forall|asked: Option<u64>| #[trigger] subagents::wait_of(asked) < 25,
{
    let env = adapters::claude_command_of(ctx, path).env;
    assert(env[0] == ("MCP_TIMEOUT"@, "30000"@));
    assert(env[1] == ("MCP_TOOL_TIMEOUT"@, text::decimal((25 * 60 * 1000) as nat)));
    let effort = match ctx.effort {
        Some(effort) => "model_reasoning_effort = "@ + outside::json_string(effort@) + "\n"@,
        None => Seq::empty(),
    };
    let front = "model = "@ + outside::json_string(ctx.model@) + "\n"@ + effort
        + "sandbox_mode = \"workspace-write\"\n"@ + "approval_policy = \"never\"\n"@
        + "\n[sandbox_workspace_write]\nnetwork_access = true\n"@ + "\n[projects."@
        + outside::json_string(ctx.workspace_dir@) + "]\ntrust_level = \"trusted\"\n"@
        + "\n[mcp_servers.ceilidh]\n"@ + "command = "@ + outside::json_string(
        ctx.harness.ceilidh_bin@,
    ) + "\n"@ + "args = ["@ + adapters::quoted_args(adapters::mcp_args_of(ctx)) + "]\n"@
        + "startup_timeout_sec = 30\n"@;
    lemma_three_held(
        front,
        "tool_timeout_sec = "@,
        text::decimal((25 * 60) as nat),
        "\n"@,
        "\n[mcp_servers.ceilidh.env]\n"@,
        "CEILIDH_TOKEN = "@,
        outside::json_string(adapters::token_of(*ctx.harness)),
        "\n"@,
    );
}

/// Three parts that follow each other are held together.
proof fn lemma_three_held(
    front: Seq<char>,
    a: Seq<char>,
    b: Seq<char>,
    c: Seq<char>,
    d: Seq<char>,
    e: Seq<char>,
    f: Seq<char>,
    g: Seq<char>,
)
    ensures
        text::holds(front + a + b + c + d + e + f + g, a + b + c),
{
    text::parts_are_held(front, a + b + c, d + e + f + g);
    assert(front + a + b + c + d + e + f + g =~= front + (a + b + c) + (d + e + f + g));
}

/// Git's complaint that it does not know who commits is known by either of its
/// phrases, in any case.
pub proof fn missing_identities_are_known(message: Seq<char>)
    ensures
        text::holds(text::lowered(message), "author identity unknown"@) ==> runner::identity_error(
            message,
        ),
        text::holds(text::lowered(message), "please tell me who you are"@)
            ==> runner::identity_error(message),
        !text::holds(text::lowered(message), "author identity unknown"@) && !text::holds(
            text::lowered(message),
            "please tell me who you are"@,
        ) ==> !runner::identity_error(message),
{
}

/// A repository is cloned over HTTP, over HTTPS or from a path, and from nothing
/// else.
pub proof fn repositories_are_cloned_over_http_or_from_a_path(rest: Seq<char>, url: Seq<char>)
    ensures
        runner::is_repo("https://"@ + rest),
        runner::is_repo("http://"@ + rest),
        runner::is_repo("/"@ + rest),
        url.len() >= 4 && url[3] == ':' ==> !runner::is_repo(url) || url[0] == '/',
        url.len() >= 4 && url[0] == 'g' ==> !runner::is_repo(url),
{
    reveal_strlit("https://");
    reveal_strlit("http://");
    reveal_strlit("/");
    assert(("https://"@ + rest).subrange(0, 8) =~= "https://"@);
    assert(("http://"@ + rest).subrange(0, 7) =~= "http://"@);
    assert(("/"@ + rest).subrange(0, 1) =~= "/"@);
    if text::occurs_at(url, "https://"@, 0) {
        assert(url[3] == url.subrange(0, 8)[3]);
        assert(url[0] == url.subrange(0, 8)[0]);
    }
    if text::occurs_at(url, "http://"@, 0) {
        assert(url[3] == url.subrange(0, 7)[3]);
        assert(url[0] == url.subrange(0, 7)[0]);
    }
    if text::occurs_at(url, "/"@, 0) {
        assert(url[0] == url.subrange(0, 1)[0]);
    }
}

/// A name of a branch is made of letters, digits and four marks. It does not
/// start with a dash, and it holds no two dots in a row; every other such text
/// is one.
pub proof fn branch_names_are_plain(name: Seq<char>, i: int)
    ensures
        runner::is_ref_name(name) ==> name.len() > 0 && name[0] != '-' && !text::holds(name, ".."@),
        runner::is_ref_name(name) && 0 <= i < name.len() ==> {
            ||| 'a' <= name[i] <= 'z'
            ||| 'A' <= name[i] <= 'Z'
            ||| '0' <= name[i] <= '9'
            ||| name[i] == '-'
            ||| name[i] == '_'
            ||| name[i] == '/'
            ||| name[i] == '.'
        },
        name.len() > 0 && 'a' <= name[0] <= 'z' && !name.contains('.') && (forall|j: int|
            0 <= j < name.len() ==> 'a' <= #[trigger] name[j] <= 'z' || '0' <= name[j] <= '9'
                || name[j] == '-' || name[j] == '_' || name[j] == '/') ==> runner::is_ref_name(
            name,
        ),
{
    if !name.contains('.') && text::holds(name, ".."@) {
        reveal_strlit("..");
        let at = choose|at: int| #[trigger] text::occurs_at(name, ".."@, at);
        assert(name[at] == name.subrange(at, at + 2)[0]);
    }
}

/// Where git knows no author, the commit is made again under the runner's own
/// name and address.
pub proof fn the_runner_signs_for_itself(seq: i64)
    ensures
        workspace::commit_step_args(CommitStep::OwnIdentity, seq).len() == 8,
        workspace::commit_step_args(CommitStep::OwnIdentity, seq)[0] == "-c"@,
        text::occurs_at(
            workspace::commit_step_args(CommitStep::OwnIdentity, seq)[1],
            "user.name=ceilidh-runner"@,
            0,
        ),
        workspace::commit_step_args(CommitStep::OwnIdentity, seq)[2] == "-c"@,
        text::occurs_at(
            workspace::commit_step_args(CommitStep::OwnIdentity, seq)[3],
            "user.email=ceilidh-runner@"@,
            0,
        ),
        workspace::commit_step_args(CommitStep::OwnIdentity, seq).skip(4)
            == workspace::commit_step_args(CommitStep::Commit, seq),
{
    let own = workspace::commit_step_args(CommitStep::OwnIdentity, seq);
    assert(own.skip(4) =~= workspace::commit_step_args(CommitStep::Commit, seq));
    reveal_strlit("user.name=ceilidh-runner");
    reveal_strlit("user.email=ceilidh-runner@example.invalid");
    reveal_strlit("user.email=ceilidh-runner@");
    assert(own[1].subrange(0, own[1].len() as int) =~= "user.name=ceilidh-runner"@);
    assert(own[3].subrange(0, 26) =~= "user.email=ceilidh-runner@"@);
}

/// A new workspace is made, initialised and given a first commit before its
/// branch is cut. A commit that lacks an author is made again, and a branch that
/// is there already is checked out; any other failure ends it.
pub proof fn new_workspaces_are_made_in_order(
    branch: Seq<char>,
    output: Seq<char>,
    error: Seq<char>,
)
    ensures
        workspace::after(PrepStep::MakeDir, branch, Ok(output)) == (PrepView::Run {
            step: PrepStep::Init,
        }),
        workspace::after(PrepStep::Init, branch, Ok(output)) == (PrepView::Run {
            step: PrepStep::FirstCommit,
        }),
        workspace::after(PrepStep::FirstCommit, branch, Ok(output)) == (PrepView::Run {
            step: PrepStep::Branch,
        }),
        workspace::after(PrepStep::OwnIdentity, branch, Ok(output)) == (PrepView::Run {
            step: PrepStep::Branch,
        }),
        workspace::after(PrepStep::FirstCommit, branch, Err(error)) == (PrepView::Run {
            step: PrepStep::OwnIdentity,
        }) <==> runner::identity_error(error),
        !runner::identity_error(error) ==> workspace::after(
            PrepStep::FirstCommit,
            branch,
            Err(error),
        ) is Failed,
        workspace::after(PrepStep::OwnIdentity, branch, Err(error)) is Failed,
        workspace::after(PrepStep::Branch, branch, Err(error)) == (PrepView::Run {
            step: PrepStep::OldBranch,
        }) <==> text::holds(error, "already exists"@),
        !text::holds(error, "already exists"@) ==> workspace::after(
            PrepStep::Branch,
            branch,
            Err(error),
        ) is Failed,
        workspace::after(PrepStep::MakeDir, branch, Err(error)) is Failed,
        workspace::after(PrepStep::Init, branch, Err(error)) is Failed,
        workspace::after(PrepStep::OldBranch, branch, Err(error)) is Failed,
        runner::identity_error(error) ==> workspace::committed(CommitStep::Commit, Err(error)) == (
        CommittingView::Run { step: CommitStep::OwnIdentity }),
        !runner::identity_error(error) ==> workspace::committed(
            CommitStep::Commit,
            Err(error),
        ) is Failed,
        workspace::committed(CommitStep::OwnIdentity, Err(error)) is Failed,
        workspace::committed(CommitStep::Add, Err(error)) is Failed,
        workspace::committed(CommitStep::Head, Err(error)) is Failed,
{
}

} // verus!
