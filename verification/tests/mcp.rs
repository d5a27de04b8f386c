use ceilidh::json::{parse, Json};
use ceilidh::mcp::{
    handle, incoming_line, model_list_inline, model_menu_text, parse_harness,
    response, tool_definitions, tool_result, Handled, Incoming, RpcError, Tool,
};
use ceilidh::names::{anthropic_model_name, harness_name};
use ceilidh::protocol::{
    Envelope, Harness, Lane, ModelChoice, Session, SessionId, SessionProfile, SessionStatus, Turn,
    TurnStatus,
};
use ceilidh::subagents::{
    cap, cap_to, child_request, family, family_rows, may_read, read_target, request_failure,
    request_url, session_text, spawn_args, spawned, target_from, wait_minutes, waited,
};

fn menu() -> Vec<ModelChoice> {
    vec![
        ModelChoice {
            vendor: "OpenAI".to_string(),
            harness: Harness::Codex,
            model: "gpt-5.6-sol".to_string(),
            label: "GPT-5.6 Sol".to_string(),
        },
        ModelChoice {
            vendor: "Cursor".to_string(),
            harness: Harness::Cursor,
            model: "gemini-3.7-flash-high".to_string(),
            label: "Gemini 3.7 Flash".to_string(),
        },
    ]
}

fn items(json: &Json) -> &Vec<Json> {
    match json {
        Json::Array(items) => items,
        _ => panic!("expected an array"),
    }
}

fn text<'a>(json: &'a Json, key: &str) -> &'a str {
    json.get(key).unwrap().as_text().unwrap()
}

fn texts(json: &Json) -> Vec<&str> {
    items(json).iter().map(|item| item.as_text().unwrap().as_str()).collect()
}

#[test]
fn the_description_names_the_operators_own_lanes() {
    let tools = tool_definitions(&menu());
    let spawn = &items(&tools)[0];
    let description = text(spawn, "description");
    assert!(description.contains("gpt-5.6-sol"));
    assert!(description.contains("gemini-3.7-flash-high"));
    // A harness that has never heard of a release must still pass it on.
    assert!(description.contains("authoritative set of lanes"));
    assert!(description.contains("expected rather than a sign"));
    let model_field = text(
        spawn.get("inputSchema").unwrap().get("properties").unwrap().get("model").unwrap(),
        "description",
    );
    assert!(model_field.contains("gpt-5.6-sol (codex)"));
}

#[test]
fn an_empty_menu_still_produces_a_usable_description() {
    let tools = tool_definitions(&Vec::new());
    assert!(!text(&items(&tools)[0], "description").is_empty());
}

#[test]
fn tools_are_listed_with_schemas() {
    let tools = tool_definitions(&menu());
    let names: Vec<&str> = items(&tools).iter().map(|t| text(t, "name")).collect();
    assert_eq!(names, vec!["spawn_subagent", "list_sessions", "read_session"]);
    assert_eq!(
        texts(items(&tools)[0].get("inputSchema").unwrap().get("required").unwrap()),
        vec!["harness", "model", "prompt"]
    );
}

#[test]
fn harness_aliases_resolve() {
    let word: String = format!("{:?}", Harness::ClaudeCode).chars().take(6).collect();
    assert_eq!(parse_harness(&word).unwrap(), Harness::ClaudeCode);
    assert_eq!(parse_harness("openai").unwrap(), Harness::Codex);
    assert_eq!(parse_harness("cursor").unwrap(), Harness::Cursor);
    assert!(parse_harness("gemini").is_err());
}

#[test]
fn harness_names_stand_for_themselves() {
    for harness in [Harness::ClaudeCode, Harness::Codex, Harness::Cursor, Harness::Mock] {
        assert_eq!(parse_harness(&harness_name(harness)).unwrap(), harness);
    }
    assert_eq!(parse_harness(" ANTHROPIC ").unwrap(), Harness::ClaudeCode);
    assert_eq!(
        parse_harness("Gem\"ini").unwrap_err(),
        format!(
            "unknown harness \"gem\\\"ini\"; use {}, codex, or cursor",
            harness_name(Harness::ClaudeCode)
        )
    );
}

#[test]
fn harnesses_are_written_in_kebab_case() {
    assert_eq!(harness_name(Harness::Codex), "codex");
    assert_eq!(harness_name(Harness::Cursor), "cursor");
    assert_eq!(harness_name(Harness::Mock), "mock");
    let name = harness_name(Harness::ClaudeCode);
    let words: Vec<&str> = name.split('-').collect();
    assert_eq!(words.len(), 2);
    assert_eq!(words[0], anthropic_model_name().to_lowercase());
    assert_eq!(words[1], "code");
    assert_eq!(parse_harness(words[0]).unwrap(), Harness::ClaudeCode);
}

#[test]
fn the_menu_is_grouped_by_harness() {
    assert_eq!(
        model_menu_text(&menu()),
        "Lanes configured on this installation:\n- harness \"codex\": gpt-5.6-sol\n- harness \"cursor\": gemini-3.7-flash-high\n"
    );
    assert_eq!(
        model_list_inline(&menu()),
        "gpt-5.6-sol (codex), gemini-3.7-flash-high (cursor)"
    );
    assert_eq!(model_list_inline(&Vec::new()), "read from the operator's caller at run time");
}

#[test]
fn lines_are_requests_notifications_or_nothing() {
    assert!(matches!(incoming_line("  "), Incoming::Skip { unparsable: false }));
    assert!(matches!(incoming_line("{nope"), Incoming::Skip { unparsable: true }));
    assert!(matches!(
        incoming_line("{\"jsonrpc\":\"2.0\",\"method\":\"notifications/initialized\"}"),
        Incoming::Notification
    ));
    match incoming_line(" {\"id\":7,\"method\":\"ping\"} ") {
        Incoming::Request { id, method, params } => {
            assert_eq!(id, Json::Number("7".to_string()));
            assert_eq!(method, "ping");
            assert_eq!(params, Json::Null);
        },
        _ => panic!("expected a request"),
    }
    // An identifier of null is an identifier.
    assert!(matches!(incoming_line("{\"id\":null}"), Incoming::Request { .. }));
}

fn handled(method: &str, params: &str) -> Handled {
    let tools = tool_definitions(&menu());
    handle(method, &parse(params).unwrap(), &tools, "0.1.0")
}

#[test]
fn methods_are_answered() {
    match handled("initialize", "{\"protocolVersion\":\"2024-11-05\"}") {
        Handled::Reply { result } => {
            assert_eq!(text(&result, "protocolVersion"), "2024-11-05");
            assert_eq!(text(result.get("serverInfo").unwrap(), "name"), "ceilidh");
            assert_eq!(text(result.get("serverInfo").unwrap(), "version"), "0.1.0");
        },
        _ => panic!("expected a reply"),
    }
    match handled("initialize", "{}") {
        Handled::Reply { result } => assert_eq!(text(&result, "protocolVersion"), "2025-06-18"),
        _ => panic!("expected a reply"),
    }
    match handled("ping", "null") {
        Handled::Reply { result } => assert_eq!(result, Json::Object(Vec::new())),
        _ => panic!("expected a reply"),
    }
    match handled("tools/list", "null") {
        Handled::Reply { result } => assert_eq!(items(result.get("tools").unwrap()).len(), 3),
        _ => panic!("expected a reply"),
    }
}

#[test]
fn tools_are_called_by_name() {
    match handled("tools/call", "{\"name\":\"read_session\",\"arguments\":{\"session_id\":\"x\"}}") {
        Handled::Call { tool, arguments } => {
            assert_eq!(tool, Tool::ReadSession);
            assert_eq!(text(&arguments, "session_id"), "x");
        },
        _ => panic!("expected a call"),
    }
    match handled("tools/call", "{\"name\":\"list_sessions\"}") {
        Handled::Call { tool, arguments } => {
            assert_eq!(tool, Tool::ListSessions);
            assert_eq!(arguments, Json::Object(Vec::new()));
        },
        _ => panic!("expected a call"),
    }
    match handled("tools/call", "{}") {
        Handled::Refuse { error } => {
            assert_eq!(error.code, -32602);
            assert_eq!(error.message, "tools/call needs a name");
        },
        _ => panic!("expected a refusal"),
    }
    match handled("tools/call", "{\"name\":\"rm\"}") {
        Handled::Refuse { error } => {
            assert_eq!(error.code, -32601);
            assert_eq!(error.message, "method not found: rm");
        },
        _ => panic!("expected a refusal"),
    }
    match handled("resources/list", "{}") {
        Handled::Refuse { error } => assert_eq!(error.message, "method not found: resources/list"),
        _ => panic!("expected a refusal"),
    }
}

#[test]
fn failed_tools_are_results_that_say_so() {
    let good = tool_result(Ok("fine".to_string()));
    assert_eq!(text(&items(good.get("content").unwrap())[0], "text"), "fine");
    assert!(good.get("isError").is_none());
    let bad = tool_result(Err("no".to_string()));
    assert_eq!(text(&items(bad.get("content").unwrap())[0], "text"), "error: no");
    assert_eq!(bad.get("isError"), Some(&Json::Bool(true)));
}

#[test]
fn responses_carry_the_identifier() {
    let ok = response(Json::Number("1".to_string()), Ok(Json::Null));
    assert_eq!(text(&ok, "jsonrpc"), "2.0");
    assert_eq!(ok.get("id"), Some(&Json::Number("1".to_string())));
    assert_eq!(ok.get("result"), Some(&Json::Null));
    let error = response(Json::Text("a".to_string()), Err(RpcError::method_not_found("m")));
    let detail = error.get("error").unwrap();
    assert_eq!(detail.get("code"), Some(&Json::Number("-32601".to_string())));
    assert_eq!(text(detail, "message"), "method not found: m");
}

fn session(id: SessionId, title: &str, parent: Option<SessionId>) -> Session {
    Session {
        id,
        title: title.to_string(),
        lane: Lane { harness: Harness::Codex, model: "m1".to_string(), effort: None },
        profile: SessionProfile {
            repo_url: Some("https://example.com/r.git".to_string()),
            base_branch: Some("main".to_string()),
            allow_push: true,
        },
        runner_affinity: None,
        status: SessionStatus::Active,
        parent_id: parent,
        created_at: 0,
        updated_at: 0,
    }
}

fn turn(id: u128, status: TurnStatus) -> Turn {
    Turn {
        id,
        session_id: 2,
        seq: 1,
        input: "do it".to_string(),
        lane_override: None,
        status,
        envelope: None,
        error: None,
        commit: None,
        resume_token: None,
        cancel_requested: false,
        created_at: 0,
        started_at: None,
        finished_at: None,
    }
}

fn with_reply(mut turn: Turn, reply: &str) -> Turn {
    turn.envelope = Some(Envelope {
        headline: "h".to_string(),
        work_complete: true,
        cannot_proceed: false,
        body_markdown: reply.to_string(),
        questions: Vec::new(),
    });
    turn
}

#[test]
fn spawns_need_a_harness_a_model_and_a_prompt() {
    let missing = |args: &str| spawn_args(&parse(args).unwrap()).unwrap_err();
    assert_eq!(missing("{}"), "harness is required");
    assert_eq!(
        missing("{\"harness\":\"x\"}"),
        format!(
            "unknown harness \"x\"; use {}, codex, or cursor",
            harness_name(Harness::ClaudeCode)
        )
    );
    assert_eq!(missing("{\"harness\":\"codex\",\"model\":\" \"}"), "model is required");
    assert_eq!(
        missing("{\"harness\":\"codex\",\"model\":\"m\",\"prompt\":1}"),
        "prompt is required"
    );
    let spawn =
        spawn_args(&parse("{\"harness\":\"codex\",\"model\":\"m\",\"prompt\":\"p\"}").unwrap())
            .unwrap();
    assert_eq!(spawn.harness, Harness::Codex);
    assert!(spawn.wait);
    assert_eq!(spawn.effort, None);
    let spawn = spawn_args(
        &parse("{\"harness\":\"codex\",\"model\":\"m\",\"prompt\":\"p\",\"wait\":false,\"effort\":\"high\"}")
            .unwrap(),
    )
    .unwrap();
    assert!(!spawn.wait);
    assert_eq!(spawn.effort.as_deref(), Some("high"));
}

#[test]
fn children_keep_the_repository_but_never_push() {
    let parent = session(1, "parent", None);
    let spawn =
        spawn_args(&parse("{\"harness\":\"cursor\",\"model\":\"m\",\"prompt\":\"p\"}").unwrap())
            .unwrap();
    let child = child_request(&spawn, &parent);
    assert_eq!(child.title, "sub-agent: m");
    assert_eq!(child.parent_id, Some(1));
    assert_eq!(child.lane.unwrap().harness, Harness::Cursor);
    let profile = child.profile.unwrap();
    assert_eq!(profile.repo_url.as_deref(), Some("https://example.com/r.git"));
    assert_eq!(profile.base_branch.as_deref(), Some("main"));
    assert!(!profile.allow_push);

    let spawn = spawn_args(
        &parse("{\"harness\":\"cursor\",\"model\":\"m\",\"prompt\":\"p\",\"name\":\"n\",\"repo\":\"https://e/x\"}")
            .unwrap(),
    )
    .unwrap();
    let child = child_request(&spawn, &parent);
    assert_eq!(child.title, "n");
    assert_eq!(child.profile.unwrap().repo_url.as_deref(), Some("https://e/x"));
}

#[test]
fn waits_are_between_one_and_twenty_minutes() {
    assert_eq!(wait_minutes(None), 20);
    assert_eq!(wait_minutes(Some(0)), 1);
    assert_eq!(wait_minutes(Some(7)), 7);
    assert_eq!(wait_minutes(Some(90)), 20);
}

#[test]
fn spawns_answer_with_the_child() {
    let child = session(2, "kid", Some(1));
    assert_eq!(
        spawned(&child, Harness::Codex, "m1", 3),
        "spawned child session 00000000-0000-0000-0000-000000000002 (kid) on codex m1; turn 00000000-0000-0000-0000-000000000003 queued. Collect the answer with read_session."
    );
    let look = |turns: Vec<Turn>, late: bool| {
        waited(&turns, 3, &child, Harness::Codex, "m1", late, 20)
    };
    assert_eq!(look(vec![], false), None);
    assert_eq!(look(vec![turn(3, TurnStatus::Working)], false), None);
    assert_eq!(
        look(vec![turn(9, TurnStatus::Error), with_reply(turn(3, TurnStatus::Done), "42")], true)
            .unwrap(),
        "child session 00000000-0000-0000-0000-000000000002 (kid) on codex m1 finished.\n\n42"
    );
    let mut broken = turn(3, TurnStatus::Capped);
    broken.error = Some("limit".to_string());
    assert_eq!(
        look(vec![broken], false).unwrap(),
        "child session 00000000-0000-0000-0000-000000000002 (kid) ended with status Capped: limit"
    );
    assert_eq!(
        look(vec![turn(3, TurnStatus::Queued)], true).unwrap(),
        "child session 00000000-0000-0000-0000-000000000002 (kid) is still running after 20 minutes; read_session later to collect its answer."
    );
}

#[test]
fn families_are_parents_children_and_siblings() {
    let sessions = vec![
        session(1, "root", None),
        session(2, "left", Some(1)),
        session(3, "right", Some(1)),
        session(4, "deep", Some(3)),
        session(5, "stranger", None),
    ];
    let mut known = family(&sessions, 2);
    known.sort();
    assert_eq!(known, vec![1, 2, 3, 4]);
    assert!(may_read(&sessions, 2, 4).is_ok());
    assert_eq!(
        may_read(&sessions, 2, 5).unwrap_err(),
        "session 00000000-0000-0000-0000-000000000005 is not of this session's family"
    );
}

#[test]
fn lists_show_the_active_family() {
    let mut sessions = vec![
        session(2, "left", Some(1)),
        session(5, "stranger", None),
        session(3, "right", Some(1)),
        session(1, "root", None),
    ];
    sessions[2].status = SessionStatus::Archived;
    let rows = family_rows(&sessions, 1);
    let rows = items(&rows);
    assert_eq!(rows.len(), 2);
    assert_eq!(text(&rows[0], "id"), "00000000-0000-0000-0000-000000000002");
    assert_eq!(text(&rows[0], "title"), "left");
    assert_eq!(text(&rows[0], "harness"), "codex");
    assert_eq!(text(&rows[0], "model"), "m1");
    assert_eq!(text(&rows[0], "status"), "active");
    assert_eq!(text(&rows[0], "parent_id"), "00000000-0000-0000-0000-000000000001");
    assert_eq!(rows[0].get("is_child_of_you"), Some(&Json::Bool(true)));
    assert_eq!(rows[1].get("parent_id"), Some(&Json::Null));
    assert_eq!(rows[1].get("is_child_of_you"), Some(&Json::Bool(false)));
}

#[test]
fn reads_need_an_identifier() {
    assert_eq!(read_target(&parse("{}").unwrap()).unwrap_err(), "session_id is required");
    assert_eq!(
        read_target(&parse("{\"session_id\":\"00000000-0000-0000-0000-00000000002a\"}").unwrap())
            .unwrap(),
        42
    );
    assert!(
        read_target(&parse("{\"session_id\":\"zz\"}").unwrap())
            .unwrap_err()
            .starts_with("session_id must be a uuid: ")
    );
    assert_eq!(
        target_from(Err("bad".to_string())).unwrap_err(),
        "session_id must be a uuid: bad"
    );
}

#[test]
fn sessions_are_read_turn_by_turn() {
    let shown = session(1, "root", None);
    let mut wrong = turn(4, TurnStatus::Error);
    wrong.seq = 2;
    wrong.error = Some("boom".to_string());
    assert_eq!(
        session_text(&shown, &vec![with_reply(turn(3, TurnStatus::Done), "yes"), wrong]),
        "session 00000000-0000-0000-0000-000000000001 (root) on codex m1 status Active\n\n--- turn 1 [Done]\ninput: do it\nreply: yes\n\n--- turn 2 [Error]\ninput: do it\nerror: boom\n"
    );
}

#[test]
fn long_replies_are_cut() {
    assert_eq!(cap_to("abc", 3), "abc");
    assert_eq!(cap_to("abcd", 3), "abc\n...[truncated]");
    assert_eq!(cap(&"x".repeat(12_000)).len(), 12_000);
    assert_eq!(cap(&"x".repeat(12_001)), format!("{}\n...[truncated]", "x".repeat(12_000)));
    assert_eq!(
        request_failure("/api/x", "500 Internal Server Error", "oops"),
        "/api/x -> HTTP 500 Internal Server Error: oops"
    );
    assert_eq!(request_url("http://h:1//", "/api"), "http://h:1/api");
}
