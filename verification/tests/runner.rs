use ceilidh::adapters::{
    claude_command, codex_command, codex_config_toml, cursor_command, exclude_pattern, mcp_config,
    prompt_with_history, stripped_env, toml_str, turn_ctx, HarnessConfig, TurnCtx,
};
use ceilidh::drive::{
    ended_outcome, headline_from_reply, is_capped_error, joinable_tail, mock_turn, on_read, on_wait,
    stopped_outcome, HarnessStream, ReadEvent, ReadStep, Stop, WaitEvent,
};
use ceilidh::protocol::{
    ClaimedWork, Envelope, Harness, Lane, Session, SessionProfile, SessionStatus, Turn, TurnStatus,
    TurnSummary,
};
use ceilidh::runner::{
    adapter_outcome, after_claim, append_error, commit_command, default_runner_id, failed_report,
    git_failure, next_backoff, plan_workspace, resumes_remote, session_branch, settle_commit,
    settle_push, slots, slugify, validate_ref_name, validate_repo_url, wants_push, AdapterOutcome,
    AdapterStatus, ClaimResult, WorkspaceStep,
};
use ceilidh::streams::{ClaudeStream, CodexStream, CursorStream};
use ceilidh::workspace::{
    after_commit_step, after_step, begin, commit_git_args, git_args, git_env, push_args,
    CommitStep, Committing, Prep, PrepStep,
};

fn test_session(profile: SessionProfile) -> Session {
    Session {
        id: 0x0123456789abcdef0123456789abcdef,
        title: "test session".to_string(),
        lane: Lane { harness: Harness::Mock, model: "mock".to_string(), effort: None },
        profile,
        runner_affinity: None,
        status: SessionStatus::Active,
        parent_id: None,
        created_at: 0,
        updated_at: 0,
    }
}

#[test]
fn branch_names_are_slugged_and_unique() {
    let mut session = test_session(SessionProfile::default());
    session.title = "Fix the Login Bug!!".to_string();
    let branch = session_branch(&session);
    assert!(branch.starts_with("ceilidh/fix-the-login-bug-"));
    assert_eq!(branch, "ceilidh/fix-the-login-bug-01234567");
    session.title = "   ".to_string();
    assert!(session_branch(&session).starts_with("ceilidh/session-"));
    assert_eq!(slugify("A".repeat(80).as_str()).len(), 40);
}

#[test]
fn slugs_are_lower_case_with_single_dashes() {
    assert_eq!(slugify("--Hello,  World--"), "hello-world");
    assert_eq!(slugify("\u{c9}t\u{e9} 2024"), "t-2024");
    assert_eq!(slugify(""), "");
}

#[test]
fn slugs_are_their_own_slugs() {
    assert_eq!(slugify("Ab12"), "ab12");
    for title in ["a--b", "  Fix: the \u{130}stanbul bug! ", "\u{212a}elvin", "x".repeat(90).as_str()] {
        let slug = slugify(title);
        assert_eq!(slugify(&slug), slug);
        assert!(!slug.contains("--"));
    }
    assert_eq!(slugify("\u{212a}elvin"), "kelvin");
}

#[test]
fn no_character_puts_a_capital_into_a_slug() {
    for c in '\0'..=char::MAX {
        let slug = slugify(c.to_string().as_str());
        assert!(!slug.chars().any(|c| c.is_ascii_uppercase()));
    }
}

#[test]
fn repositories_and_branches_are_checked() {
    assert!(validate_repo_url("https://example.com/x").is_ok());
    assert!(validate_repo_url("http://example.com/x").is_ok());
    assert!(validate_repo_url("/srv/git/x").is_ok());
    assert_eq!(
        validate_repo_url("--upload-pack=x").unwrap_err(),
        "repo_url must be an http:// or https:// URL or an absolute path, got \"--upload-pack=x\""
    );
    assert!(validate_ref_name("feature/a-b_c.1").is_ok());
    for bad in ["", "-x", "a..b", "a b"] {
        assert!(validate_ref_name(bad).is_err());
    }
    assert_eq!(validate_ref_name("-x").unwrap_err(), "invalid git ref name \"-x\"");
}

#[test]
fn workspaces_are_cloned_or_made_from_scratch() {
    let mut profile = SessionProfile::default();
    assert!(matches!(plan_workspace(true, &profile), Ok(WorkspaceStep::Ready)));
    assert!(matches!(plan_workspace(false, &profile), Ok(WorkspaceStep::Init)));
    profile.repo_url = Some("https://e/r".to_string());
    profile.base_branch = Some("main".to_string());
    match plan_workspace(false, &profile) {
        Ok(WorkspaceStep::Clone { args }) => {
            assert_eq!(args, vec!["clone", "-b", "main", "--", "https://e/r", "ws"])
        },
        _ => panic!("expected a clone"),
    }
    profile.base_branch = Some("-bad".to_string());
    assert!(plan_workspace(false, &profile).is_err());
}

fn run(prep: Prep) -> PrepStep {
    match prep {
        Prep::Run { step } => step,
        _ => panic!("expected a step"),
    }
}

fn ok(output: &str) -> Result<String, String> {
    Ok(output.to_string())
}

fn err(error: &str) -> Result<String, String> {
    Err(error.to_string())
}

#[test]
fn a_pushed_branch_is_fetched_and_checked_out() {
    let mut profile = SessionProfile::default();
    profile.repo_url = Some("https://e/r".to_string());
    let (prep, args) = begin(false, &profile);
    assert_eq!(run(prep), PrepStep::Clone);
    assert_eq!(git_args(PrepStep::Clone, "b", args), vec!["clone", "--", "https://e/r", "ws"]);
    assert_eq!(run(after_step(PrepStep::Clone, "b", ok(""))), PrepStep::List);
    assert_eq!(run(after_step(PrepStep::List, "b", ok("sha refs/heads/b\n"))), PrepStep::Fetch);
    assert_eq!(git_args(PrepStep::Fetch, "b", vec![]), vec!["fetch", "origin", "b:b"]);
    assert_eq!(run(after_step(PrepStep::Fetch, "b", ok(""))), PrepStep::Resume);
    assert!(matches!(after_step(PrepStep::Resume, "b", ok("")), Prep::Ready));
    assert!(resumes_remote(Some("x")));
    assert!(!resumes_remote(Some(" \n")));
    assert!(!resumes_remote(None));
}

#[test]
fn a_new_branch_is_cut_where_there_is_none_to_continue() {
    assert_eq!(run(after_step(PrepStep::List, "b", ok("\n"))), PrepStep::Branch);
    assert_eq!(run(after_step(PrepStep::List, "b", err("offline"))), PrepStep::Branch);
    assert_eq!(git_args(PrepStep::Branch, "b", vec![]), vec!["checkout", "-b", "b"]);
    assert!(matches!(after_step(PrepStep::Branch, "b", ok("")), Prep::Ready));
    assert_eq!(
        run(after_step(PrepStep::Branch, "b", err("fatal: a branch named 'b' already exists"))),
        PrepStep::OldBranch
    );
    match after_step(PrepStep::Branch, "b", err("fatal: no")) {
        Prep::Failed { message } => assert_eq!(message, "checkout session branch: fatal: no"),
        _ => panic!("expected a failure"),
    }
}

#[test]
fn scratch_workspaces_start_with_an_empty_commit() {
    let (prep, _) = begin(false, &SessionProfile::default());
    assert_eq!(run(prep), PrepStep::MakeDir);
    assert_eq!(run(after_step(PrepStep::MakeDir, "b", ok(""))), PrepStep::Init);
    assert_eq!(run(after_step(PrepStep::Init, "b", ok(""))), PrepStep::FirstCommit);
    assert_eq!(
        run(after_step(PrepStep::FirstCommit, "b", err("*** Please tell me who you are."))),
        PrepStep::OwnIdentity
    );
    assert_eq!(git_args(PrepStep::OwnIdentity, "b", vec![])[1], "user.name=ceilidh-runner");
    assert_eq!(run(after_step(PrepStep::OwnIdentity, "b", ok(""))), PrepStep::Branch);
    assert!(matches!(begin(true, &SessionProfile::default()).0, Prep::Ready));
}

#[test]
fn turns_are_committed_and_named() {
    assert_eq!(commit_git_args(CommitStep::Add, 3), vec!["add", "-A"]);
    assert_eq!(
        commit_git_args(CommitStep::Commit, 3),
        vec!["commit", "--allow-empty", "-m", "turn 3"]
    );
    assert_eq!(commit_command("m", true).len(), 8);
    assert!(matches!(
        after_commit_step(CommitStep::Add, ok("")),
        Committing::Run { step: CommitStep::Commit }
    ));
    assert!(matches!(
        after_commit_step(CommitStep::Commit, err("Author identity unknown")),
        Committing::Run { step: CommitStep::OwnIdentity }
    ));
    match after_commit_step(CommitStep::Head, ok("abc\n")) {
        Committing::Done { commit } => assert_eq!(commit, "abc"),
        _ => panic!("expected a commit"),
    }
    match after_commit_step(CommitStep::Add, err("x")) {
        Committing::Failed { message } => assert_eq!(message, "git add: x"),
        _ => panic!("expected a failure"),
    }
    assert_eq!(push_args("b"), vec!["push", "-u", "origin", "b"]);
    assert_eq!(git_env()[1].1, "core.hooksPath");
}

#[test]
fn git_failures_tell_the_end_of_the_output() {
    let args = vec!["clone".to_string(), "x".to_string()];
    assert_eq!(
        git_failure(&args, "exit status: 128", "out", " fatal: no \n"),
        "git clone x failed with exit status: 128: fatal: no"
    );
    assert_eq!(
        git_failure(&args, "exit status: 1", "out", " "),
        "git clone x failed with exit status: 1: out"
    );
}

fn envelope() -> Envelope {
    Envelope {
        headline: "h".to_string(),
        work_complete: true,
        cannot_proceed: false,
        body_markdown: "body".to_string(),
        questions: Vec::new(),
    }
}

#[test]
fn a_turn_that_could_not_be_committed_is_not_done() {
    let done = AdapterOutcome::done(envelope(), Some("t".to_string()));
    let (settled, commit) = settle_commit(done, Err("disk full".to_string()));
    assert_eq!(commit, None);
    assert_eq!(settled.status, AdapterStatus::Error);
    assert_eq!(settled.envelope, None);
    assert_eq!(settled.error.as_deref(), Some("git commit failed: disk full"));
    assert_eq!(settled.resume_token.as_deref(), Some("t"));

    let capped = AdapterOutcome::capped("limit".to_string(), None);
    let (settled, _) = settle_commit(capped, Err("disk full".to_string()));
    assert_eq!(settled.status, AdapterStatus::Capped);
    assert_eq!(settled.error.as_deref(), Some("limit\ngit commit failed: disk full"));

    let done = AdapterOutcome::done(envelope(), None);
    let (settled, commit) = settle_commit(done, Ok("sha".to_string()));
    assert_eq!(commit.as_deref(), Some("sha"));
    let report = settled.into_report(commit);
    assert_eq!(report.status, TurnStatus::Done);
    assert_eq!(report.commit.as_deref(), Some("sha"));
}

#[test]
fn a_push_that_failed_is_seen_in_the_turn() {
    let mut profile = SessionProfile::default();
    assert!(!wants_push(&Some("sha".to_string()), &profile));
    profile.allow_push = true;
    assert!(wants_push(&Some("sha".to_string()), &profile));
    assert!(!wants_push(&None, &profile));
    let settled =
        settle_push(AdapterOutcome::done(envelope(), None), Some("denied".to_string()));
    assert_eq!(settled.status, AdapterStatus::Done);
    assert_eq!(settled.error.as_deref(), Some("git push failed: denied"));
    assert_eq!(
        settled.envelope.unwrap().body_markdown,
        "body\n\n> warning: git push failed: denied\n"
    );
    let settled = settle_push(AdapterOutcome::done(envelope(), None), None);
    assert_eq!(settled.error, None);
}

#[test]
fn errors_are_reported_as_errors() {
    let outcome = adapter_outcome(Err("spawn failed".to_string()));
    assert_eq!(outcome.status, AdapterStatus::Error);
    assert_eq!(outcome.error.as_deref(), Some("spawn failed"));
    let report = failed_report("no workspace".to_string());
    assert_eq!(report.status, TurnStatus::Error);
    assert_eq!(report.error.as_deref(), Some("no workspace"));
    let mut error = Some("  ".to_string());
    append_error(&mut error, "m".to_string());
    assert_eq!(error.as_deref(), Some("m"));
    append_error(&mut error, "n".to_string());
    assert_eq!(error.as_deref(), Some("m\nn"));
    assert_eq!(
        AdapterOutcome::cancelled(None).error.as_deref(),
        Some("cancelled by the user")
    );
}

#[test]
fn claims_back_off_and_recover() {
    assert_eq!(next_backoff(2), 4);
    assert_eq!(next_backoff(16), 30);
    assert_eq!(after_claim(ClaimResult::Failed, 8), (8, 16));
    assert_eq!(after_claim(ClaimResult::Empty, 8), (0, 2));
    assert_eq!(after_claim(ClaimResult::Work, 8), (0, 2));
    assert_eq!(slots(0), 1);
    assert_eq!(slots(3), 3);
}

#[test]
fn runners_are_named_after_host_and_user() {
    let some = |s: &str| Some(s.to_string());
    assert_eq!(default_runner_id(some("h"), some("u"), None), "h:u");
    assert_eq!(default_runner_id(None, some(" "), some("w")), "unknown-host:w");
    assert_eq!(default_runner_id(None, None, None), "unknown-host:unknown-user");
}

fn harness() -> HarnessConfig {
    HarnessConfig {
        claude_bin: "agent-cli".to_string(),
        codex_bin: "codex".to_string(),
        cursor_bin: "cursor-agent".to_string(),
        ceilidh_bin: "/usr/local/bin/ceilidh".to_string(),
        codex_auth: "/Users/seat/.codex/auth.json".to_string(),
        server_url: "https://caller.example".to_string(),
        token: Some("tok\"en".to_string()),
        pass_env: Vec::new(),
    }
}

fn ctx<'a>(
    harness: &'a HarnessConfig,
    history: &'a Vec<TurnSummary>,
    resume: Option<&'a str>,
) -> TurnCtx<'a> {
    TurnCtx {
        workspace_dir: "/Users/seat/ws",
        session_dir: "/Users/seat",
        session_id: 0,
        seq: 1,
        input: "hi",
        model: "gpt-5.6-sol",
        effort: Some("high"),
        resume_token: resume,
        history_hint: history,
        harness,
    }
}

#[test]
fn codex_config_carries_model_sandbox_and_mcp() {
    let harness = harness();
    let history = Vec::new();
    let toml = codex_config_toml(&ctx(&harness, &history, None));
    assert!(toml.contains("model = \"gpt-5.6-sol\""));
    assert!(toml.contains("model_reasoning_effort = \"high\""));
    assert!(toml.contains("network_access = true"));
    assert!(toml.contains("[mcp_servers.ceilidh]"));
    assert!(toml.contains("\"--parent\", \"00000000-0000-0000-0000-000000000000\""));
    assert!(toml.contains("CEILIDH_TOKEN = \"tok\\\"en\""));
    assert!(toml.contains("[projects.\"/Users/seat/ws\"]"));
}

#[test]
fn strings_are_quoted_for_toml() {
    assert_eq!(toml_str("a\"b\\c\n\u{1}\u{e9}"), "\"a\\\"b\\\\c\\n\\u0001\u{e9}\"");
}

#[test]
fn harnesses_are_started_on_their_lane() {
    let harness = harness();
    let history = Vec::new();
    let command = claude_command(&ctx(&harness, &history, Some("s-1")), "/m.json");
    assert_eq!(command.program, "agent-cli");
    assert_eq!(command.args[0], "-p");
    assert_eq!(command.args[1], "hi");
    assert_eq!(command.args[command.args.len() - 2], "--resume");
    assert_eq!(command.args[command.args.len() - 1], "s-1");
    assert_eq!(command.env[1], ("MCP_TOOL_TIMEOUT".to_string(), "1500000".to_string()));

    let codex = codex_command(&ctx(&harness, &history, None), "/home");
    assert_eq!(
        codex.args,
        vec!["exec", "--json", "--skip-git-repo-check", "-m", "gpt-5.6-sol", "hi"]
    );
    assert_eq!(codex.env[0], ("CODEX_HOME".to_string(), "/home".to_string()));
    let resumed = codex_command(&ctx(&harness, &history, Some("t")), "/home");
    assert_eq!(
        resumed.args,
        vec!["exec", "resume", "t", "--json", "--skip-git-repo-check", "hi"]
    );

    let cursor = cursor_command(&ctx(&harness, &history, None));
    assert_eq!(cursor.args[cursor.args.len() - 1], "hi");
    assert!(cursor.args.contains(&"--approve-mcps".to_string()));

    let config = mcp_config(&ctx(&harness, &history, None));
    let server = config.get("mcpServers").unwrap().get("ceilidh").unwrap();
    assert_eq!(server.text_at("command").unwrap(), "/usr/local/bin/ceilidh");
    assert_eq!(server.get("env").unwrap().text_at("CEILIDH_TOKEN").unwrap(), "tok\"en");
}

#[test]
fn prompts_carry_history_where_there_is_nothing_to_resume() {
    let harness = harness();
    let history = vec![
        TurnSummary { input: "first".to_string(), headline: Some("did it".to_string()) },
        TurnSummary { input: "second".to_string(), headline: None },
    ];
    let prompt =
        "Prior turns:\n1. User: first\n   Outcome: did it\n2. User: second\n\nCurrent turn:\nhi";
    assert_eq!(prompt_with_history("hi", &history), prompt);
    assert_eq!(ctx(&harness, &history, None).prompt(), prompt);
    assert_eq!(ctx(&harness, &history, Some("t")).prompt(), "hi");
}

#[test]
fn metered_keys_and_the_token_are_stripped() {
    let removed = stripped_env(&Vec::new());
    assert!(removed.contains(&"CEILIDH_TOKEN".to_string()));
    assert!(removed.contains(&"ANTHROPIC_API_KEY".to_string()));
    assert!(removed.contains(&"OPENAI_API_KEY".to_string()));
    assert!(!removed.contains(&"CURSOR_API_KEY".to_string()));
    let passed = stripped_env(&vec!["OPENAI_API_KEY".to_string(), "CEILIDH_TOKEN".to_string()]);
    assert!(!passed.contains(&"OPENAI_API_KEY".to_string()));
    assert!(passed.contains(&"CEILIDH_TOKEN".to_string()));
}

#[test]
fn patterns_are_excluded_once() {
    assert_eq!(exclude_pattern("", "p").as_deref(), Some("p\n"));
    assert_eq!(exclude_pattern("a", "p").as_deref(), Some("a\np\n"));
    assert_eq!(exclude_pattern("a\np\n", "p"), None);
}

fn lines(stream: &mut HarnessStream, text: &str) -> Vec<String> {
    let mut chunks = Vec::new();
    for line in text.lines() {
        chunks.extend(stream.ingest_line(line).unwrap());
    }
    chunks
}

#[test]
fn claude_inline_deltas_and_result_still_parse() {
    let fixture = r#"{"type":"system","subtype":"init","session_id":"session-123"}
{"type":"assistant","delta":{"text":"hello"}}
{"type":"assistant","message":{"content":[{"type":"text","text":" world"}]}}
{"type":"result","result":"hello world\nsecond line"}"#;
    let mut parser = ClaudeStream::default();
    let mut chunks: Vec<String> = Vec::new();
    for line in fixture.lines() {
        chunks.extend(parser.ingest_line(line).unwrap());
    }
    assert_eq!(parser.resume_token().as_deref(), Some("session-123"));
    assert_eq!(chunks, vec!["hello", " world"]);
    assert_eq!(parser.reply_text(), "hello world\nsecond line");
}

#[test]
fn codex_streams_collect_messages() {
    let mut stream = HarnessStream::Codex(CodexStream::default());
    let chunks = lines(
        &mut stream,
        r#"{"type":"thread.started","thread_id":"t-1"}
{"type":"item.completed","item":{"type":"agent_message","text":"one"}}
{"type":"item.completed","item":{"type":"command_execution","text":"x"}}
{"type":"item.completed","item":{"type":"agent_message","text":"two"}}"#,
    );
    assert_eq!(stream.resume_token().as_deref(), Some("t-1"));
    assert_eq!(chunks.len(), 2);
    assert!(chunks[0].contains("one"));
    assert!(stream.reply_text().ends_with("two"));
    assert_eq!(stream.failure(), None);
}

#[test]
fn codex_streams_report_their_failures() {
    let mut stream = HarnessStream::Codex(CodexStream::default());
    lines(&mut stream, r#"{"type":"turn.failed","error":{"message":"model not supported"}}"#);
    assert!(stream.failure().unwrap().contains("not supported"));
    let outcome = ended_outcome("codex", &stream, true, "exit status: 0", "");
    assert_eq!(outcome.status, AdapterStatus::Error);
    assert!(outcome.error.unwrap().starts_with("codex: "));
}

#[test]
fn cursor_streams_end_with_a_result() {
    let mut stream = HarnessStream::Cursor(CursorStream::default());
    let chunks = lines(
        &mut stream,
        r#"{"type":"system","subtype":"init","session_id":"c-1"}
{"type":"assistant","message":{"role":"assistant","content":[{"type":"text","text":"FIXTURE OK"}]}}
{"type":"result","subtype":"success","is_error":false,"result":"FIXTURE OK","session_id":"c-1"}"#,
    );
    assert_eq!(stream.resume_token().as_deref(), Some("c-1"));
    assert_eq!(chunks, vec!["FIXTURE OK"]);
    assert_eq!(stream.reply_text(), "FIXTURE OK");
    assert!(stream.failure().is_none());
    let outcome = ended_outcome("cursor", &stream, true, "exit status: 0", "");
    assert_eq!(outcome.status, AdapterStatus::Done);
    assert_eq!(outcome.envelope.unwrap().headline, "FIXTURE OK");
    assert_eq!(outcome.resume_token.as_deref(), Some("c-1"));
}

#[test]
fn an_empty_reply_is_an_error() {
    let stream = HarnessStream::Claude(ClaudeStream::default());
    let outcome = ended_outcome("tool", &stream, true, "exit status: 0", "");
    assert_eq!(outcome.status, AdapterStatus::Error);
    assert_eq!(
        outcome.error.as_deref(),
        Some("tool exited cleanly without producing a reply: tool exited without stderr")
    );
    let outcome = ended_outcome("tool", &stream, false, "exit status: 1", "Usage limit reached");
    assert_eq!(outcome.status, AdapterStatus::Capped);
    assert_eq!(
        outcome.error.as_deref(),
        Some("tool exited with exit status: 1: Usage limit reached")
    );
}

#[test]
fn harnesses_are_killed_when_cancelled_or_late() {
    let mut stream = HarnessStream::Claude(ClaudeStream::default());
    assert!(matches!(
        on_read(&mut stream, ReadEvent::TimedOut),
        ReadStep::Kill { stop: Stop::TimedOut }
    ));
    assert!(matches!(
        on_read(&mut stream, ReadEvent::CancelChanged { watched: true, cancelled: true }),
        ReadStep::Kill { stop: Stop::Cancelled }
    ));
    assert!(matches!(
        on_read(&mut stream, ReadEvent::CancelChanged { watched: false, cancelled: true }),
        ReadStep::Go
    ));
    assert!(matches!(
        on_read(&mut stream, ReadEvent::Closed { cancelled: true }),
        ReadStep::Kill { stop: Stop::Cancelled }
    ));
    assert!(matches!(on_read(&mut stream, ReadEvent::Closed { cancelled: false }), ReadStep::Wait));
    match on_read(&mut stream, ReadEvent::Line { line: "{\"delta\":{\"text\":\"x\"}}".to_string() }) {
        ReadStep::Emit { chunks } => assert!(chunks.len() <= 1),
        _ => panic!("expected chunks"),
    }
    assert!(matches!(
        on_read(&mut stream, ReadEvent::Line { line: "not json".to_string() }),
        ReadStep::Unparsed { .. }
    ));
    assert_eq!(on_wait(WaitEvent::Exited), None);
    assert_eq!(on_wait(WaitEvent::TimedOut), Some(Stop::TimedOut));
    assert_eq!(on_wait(WaitEvent::CancelChanged), Some(Stop::Cancelled));

    let late = stopped_outcome(Stop::TimedOut, "tool", "slow", &stream);
    assert_eq!(late.status, AdapterStatus::Error);
    assert_eq!(late.error.as_deref(), Some("tool timed out after 30 minutes: slow"));
    let cancelled = stopped_outcome(Stop::Cancelled, "tool", "", &stream);
    assert_eq!(cancelled.status, AdapterStatus::Cancelled);
}

#[test]
fn headlines_are_the_first_line_shortened() {
    assert_eq!(headline_from_reply("\n  first \nsecond", "x"), "first");
    assert_eq!(headline_from_reply(" \n", "x"), "x turn complete");
    assert_eq!(headline_from_reply(&"a".repeat(130), "x"), format!("{}...", "a".repeat(117)));
    assert_eq!(joinable_tail(" \n", "codex"), "codex exited without stderr");
    assert_eq!(joinable_tail(&"b".repeat(2001), "codex"), format!("...{}", "b".repeat(2000)));
}

#[test]
fn limits_are_recognized() {
    assert!(is_capped_error("You hit your RATE LIMIT"));
    assert!(is_capped_error("quota exceeded"));
    assert!(!is_capped_error("file not found"));
}

#[test]
fn the_mock_echoes() {
    let turn = mock_turn(0, 4, "hello");
    assert_eq!(turn.file_name, "turn-4.txt");
    assert_eq!(turn.chunks, vec!["mock: thinking", "mock: done"]);
    let envelope = turn.outcome.envelope.unwrap();
    assert_eq!(envelope.headline, "mock turn 4 complete");
    assert_eq!(envelope.body_markdown, "echo: hello");
    assert_eq!(
        turn.outcome.resume_token.as_deref(),
        Some("mock-00000000-0000-0000-0000-000000000000")
    );
}

#[test]
fn work_is_played_on_its_own_lane_first() {
    let mut work = ClaimedWork {
        turn: Turn {
            id: 10,
            session_id: 1,
            seq: 3,
            input: "go on".to_string(),
            lane_override: None,
            status: TurnStatus::Claimed,
            envelope: None,
            error: None,
            commit: None,
            resume_token: None,
            cancel_requested: false,
            created_at: 0,
            started_at: Some(1),
            finished_at: None,
        },
        session: test_session(SessionProfile::default()),
        history_hint: vec![TurnSummary { input: "start".to_string(), headline: None }],
    };
    let harness = harness();
    assert_eq!(work.lane().harness, Harness::Mock);
    let ctx = turn_ctx(&work, "/ws", "/session", &harness);
    assert_eq!((ctx.model, ctx.effort, ctx.seq), ("mock", None, 3));
    assert_eq!(ctx.prompt(), "Prior turns:\n1. User: start\n\nCurrent turn:\ngo on");

    work.turn.resume_token = Some("t".to_string());
    work.turn.lane_override = Some(Lane {
        harness: Harness::Codex,
        model: "m".to_string(),
        effort: Some("high".to_string()),
    });
    assert_eq!(work.lane().harness, Harness::Codex);
    let ctx = turn_ctx(&work, "/ws", "/session", &harness);
    assert_eq!((ctx.model, ctx.effort, ctx.resume_token), ("m", Some("high"), Some("t")));
    assert_eq!((ctx.workspace_dir, ctx.session_dir), ("/ws", "/session"));
    assert_eq!(ctx.prompt(), "go on");
}
