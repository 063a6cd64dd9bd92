use minimax_client::api::{build_request, interpret_response, reply_text, status_is_success, ChatMessage, ChatRole, MinimaxError};
use minimax_client::client::{
    server_only_error, DirectMinimaxClient, GenerateCommandsFromNaturalLanguageError, GenerateDialogueResult,
    ServerOnlyRequest, TranscriptPart,
};
use minimax_client::commands::parse_commands;
use minimax_client::config::DirectMinimaxConfig;
use minimax_client::json::{decimal_text, render, Json};
use minimax_client::models::{LLMProvider, ModelsByFeature};

fn config() -> DirectMinimaxConfig {
    DirectMinimaxConfig::from_env(Some("key-1".to_string()), None, None).unwrap()
}

fn user(text: &str) -> ChatMessage {
    ChatMessage { role: ChatRole::User, content: text.to_string() }
}

fn texts(commands: &[minimax_client::commands::AIGeneratedCommand]) -> Vec<String> {
    commands.iter().map(|c| c.command.clone()).collect()
}

fn to_value(j: &Json) -> serde_json::Value {
    match j {
        Json::Null => serde_json::Value::Null,
        Json::Bool(b) => serde_json::Value::Bool(*b),
        Json::Number(n) => serde_json::from_str(n).unwrap(),
        Json::Str(s) => serde_json::Value::String(s.clone()),
        Json::Array(items) => serde_json::Value::Array(items.iter().map(to_value).collect()),
        Json::Object(members) => {
            let mut m = serde_json::Map::new();
            for (k, v) in members {
                m.insert(k.clone(), to_value(v));
            }
            serde_json::Value::Object(m)
        }
    }
}

#[test]
fn config_defaults_apply_without_overrides() {
    let c = config();
    assert_eq!(c.api_key, "key-1");
    assert_eq!(c.base_url, "https://api.minimax.io/anthropic/v1");
    assert_eq!(c.model, "MiniMax-M2.7");
}

#[test]
fn config_overrides_are_kept() {
    let c = DirectMinimaxConfig::from_env(
        Some("k".to_string()),
        Some("http://localhost:9/v1".to_string()),
        Some("other-model".to_string()),
    )
    .unwrap();
    assert_eq!(c.base_url, "http://localhost:9/v1");
    assert_eq!(c.model, "other-model");
}

#[test]
fn config_needs_an_api_key() {
    assert!(DirectMinimaxConfig::from_env(None, Some("u".to_string()), Some("m".to_string())).is_none());
    assert!(DirectMinimaxClient::from_env(None, None, None).is_none());
}

#[test]
fn client_from_env_keeps_the_configuration() {
    let client = DirectMinimaxClient::from_env(Some("abc".to_string()), None, Some("m2".to_string())).unwrap();
    assert_eq!(client.config().api_key, "abc");
    assert_eq!(client.config().model, "m2");
    assert_eq!(client.config().base_url, "https://api.minimax.io/anthropic/v1");
}

#[test]
fn request_url_headers_and_body() {
    let r = build_request(&config(), &vec![user("hi")], 200);
    assert_eq!(r.url, "https://api.minimax.io/anthropic/v1/messages");
    let headers: Vec<(&str, &str)> = r.headers.iter().map(|(a, b)| (a.as_str(), b.as_str())).collect();
    assert_eq!(
        headers,
        vec![("x-api-key", "key-1"), ("Content-Type", "application/json"), ("anthropic-version", "2023-06-01")]
    );
    assert_eq!(
        r.body,
        "{\"max_tokens\":200,\"messages\":[{\"content\":\"hi\",\"role\":\"user\"}],\"model\":\"MiniMax-M2.7\"}"
    );
}

#[test]
fn request_body_matches_serde_json() {
    let messages = vec![
        user("a \"quoted\" line\nand a tab\t, a bell \u{7}, a backslash \\ and é"),
        ChatMessage { role: ChatRole::Assistant, content: "ok".to_string() },
        user(""),
    ];
    let r = build_request(&config(), &messages, 1024);
    let mut expected_messages = Vec::new();
    for m in &messages {
        let mut o = serde_json::Map::new();
        o.insert(
            "role".to_string(),
            serde_json::Value::String(match m.role {
                ChatRole::User => "user".to_string(),
                ChatRole::Assistant => "assistant".to_string(),
            }),
        );
        o.insert("content".to_string(), serde_json::Value::String(m.content.clone()));
        expected_messages.push(serde_json::Value::Object(o));
    }
    let mut body = serde_json::Map::new();
    body.insert("model".to_string(), serde_json::Value::String("MiniMax-M2.7".to_string()));
    body.insert("max_tokens".to_string(), serde_json::Value::from(1024u32));
    body.insert("messages".to_string(), serde_json::Value::Array(expected_messages));
    assert_eq!(r.body, serde_json::Value::Object(body).to_string());
    assert!(r.body.contains("\\u0007"));
}

#[test]
fn request_with_no_messages() {
    let r = build_request(&config(), &vec![], 0);
    assert_eq!(r.body, "{\"max_tokens\":0,\"messages\":[],\"model\":\"MiniMax-M2.7\"}");
}

#[test]
fn decimal_numerals() {
    assert_eq!(decimal_text(0), "0");
    assert_eq!(decimal_text(7), "7");
    assert_eq!(decimal_text(1024), "1024");
    assert_eq!(decimal_text(u32::MAX), "4294967295");
}

#[test]
fn render_matches_serde_json() {
    let j = Json::Object(vec![
        ("a".to_string(), Json::Array(vec![Json::Null, Json::Bool(true), Json::Bool(false)])),
        ("b\"c".to_string(), Json::Number("1.5".to_string())),
        ("d".to_string(), Json::Object(vec![])),
        ("e".to_string(), Json::Str("x\ny\u{1}".to_string())),
    ]);
    assert_eq!(render(&j), to_value(&j).to_string());
    assert_eq!(render(&Json::Array(vec![])), "[]");
}

fn reply(items: Vec<Json>) -> Json {
    Json::Object(vec![
        ("content".to_string(), Json::Array(items)),
        ("id".to_string(), Json::Str("msg_1".to_string())),
    ])
}

fn block(kind: &str, text: Option<&str>) -> Json {
    let mut members = vec![];
    if let Some(t) = text {
        members.push(("text".to_string(), Json::Str(t.to_string())));
    }
    members.push(("type".to_string(), Json::Str(kind.to_string())));
    Json::Object(members)
}

#[test]
fn reply_text_is_first_text_block() {
    let r = reply(vec![block("thinking", None), block("text", Some("first")), block("text", Some("second"))]);
    assert_eq!(reply_text(&r), "first");
}

#[test]
fn reply_without_text_is_rendered_whole() {
    let r = reply(vec![block("tool_use", None)]);
    assert_eq!(reply_text(&r), "{\"content\":[{\"type\":\"tool_use\"}],\"id\":\"msg_1\"}");
    let not_text = Json::Object(vec![(
        "content".to_string(),
        Json::Array(vec![Json::Object(vec![("text".to_string(), Json::Number("3".to_string()))])]),
    )]);
    assert_eq!(reply_text(&not_text), "{\"content\":[{\"text\":3}]}");
    let no_array = Json::Object(vec![("content".to_string(), Json::Str("plain".to_string()))]);
    assert_eq!(reply_text(&no_array), "{\"content\":\"plain\"}");
    assert_eq!(reply_text(&Json::Null), "null");
}

#[test]
fn success_statuses() {
    assert!(status_is_success(200));
    assert!(status_is_success(299));
    assert!(!status_is_success(199));
    assert!(!status_is_success(300));
    assert!(!status_is_success(404));
}

#[test]
fn failed_status_is_an_error() {
    match interpret_response(404, "missing".to_string(), Err("unused".to_string())) {
        Err(e) => {
            assert_eq!(e.message(), "MiniMax API error 404 Not Found: missing");
            match e {
                MinimaxError::Status { code, body } => {
                    assert_eq!(code, 404);
                    assert_eq!(body, "missing");
                }
                _ => panic!("wrong error"),
            }
        }
        Ok(_) => panic!("expected an error"),
    }
}

#[test]
fn unknown_status_reason() {
    let e = MinimaxError::Status { code: 599, body: String::new() };
    assert_eq!(e.message(), "MiniMax API error 599 <unknown status code>: ");
    let e = MinimaxError::Status { code: 42, body: "x".to_string() };
    assert_eq!(e.message(), "MiniMax API error 42 <unknown status code>: x");
}

#[test]
fn undecodable_success_is_an_error() {
    match interpret_response(200, "not json".to_string(), Err("expected value".to_string())) {
        Err(MinimaxError::Decode(m)) => assert_eq!(m, "expected value"),
        _ => panic!("expected a decode error"),
    }
}

#[test]
fn decoded_success_gives_reply_text() {
    let r = interpret_response(200, String::new(), Ok(reply(vec![block("text", Some("ls"))])));
    assert_eq!(r.unwrap(), "ls");
}

#[test]
fn transport_error_message_is_kept() {
    assert_eq!(MinimaxError::Transport("connection refused".to_string()).message(), "connection refused");
}

#[test]
fn commands_from_lines() {
    let cs = parse_commands("ls -la\n# list files\n\n   pwd  \r\n\tgit status\n");
    assert_eq!(texts(&cs), vec!["ls -la", "pwd", "git status"]);
    assert!(cs.iter().all(|c| c.description.is_none() && c.rank == 0));
}

#[test]
fn commands_fall_back_to_whole_reply() {
    assert_eq!(texts(&parse_commands("  # only a comment  ")), vec!["# only a comment"]);
    assert_eq!(texts(&parse_commands("")), vec![""]);
    assert_eq!(texts(&parse_commands(" \n \n")), vec![""]);
    assert_eq!(texts(&parse_commands("#a\n#b")), vec!["#a\n#b"]);
}

#[test]
fn commands_trim_unicode_white_space() {
    assert_eq!(texts(&parse_commands("\u{3000}echo hi\u{a0}\n\u{2028}")), vec!["echo hi"]);
    assert_eq!(texts(&parse_commands("a\rb")), vec!["a\rb"]);
}

#[test]
fn commands_request_frames_the_instruction() {
    let client = DirectMinimaxClient::new(config()).unwrap();
    let r = client.commands_request("list files");
    let expected = format!(
        "{{\"max_tokens\":200,\"messages\":[{{\"content\":{},\"role\":\"user\"}}],\"model\":\"MiniMax-M2.7\"}}",
        serde_json::Value::String(
            "Given the following natural language request, generate the appropriate shell command(s). Return ONLY the commands, one per line, with no additional explanation:\n\nlist files"
                .to_string()
        )
    );
    assert_eq!(r.body, expected);
}

#[test]
fn commands_from_failed_reply() {
    let r = DirectMinimaxClient::commands_from_reply(Err(MinimaxError::Transport("down".to_string())));
    assert!(matches!(r, Err(GenerateCommandsFromNaturalLanguageError::Other)));
    let ok = DirectMinimaxClient::commands_from_reply(Ok("a\nb".to_string())).unwrap();
    assert_eq!(texts(&ok), vec!["a", "b"]);
}

#[test]
fn dialogue_messages_alternate() {
    let transcript = vec![
        TranscriptPart { user_prompt: "q1".to_string(), assistant_answer: "a1".to_string() },
        TranscriptPart { user_prompt: "q2".to_string(), assistant_answer: "a2".to_string() },
    ];
    let ms = DirectMinimaxClient::dialogue_messages(&transcript, "q3");
    let shape: Vec<(ChatRole, &str)> = ms.iter().map(|m| (m.role, m.content.as_str())).collect();
    assert_eq!(
        shape,
        vec![
            (ChatRole::User, "q1"),
            (ChatRole::Assistant, "a1"),
            (ChatRole::User, "q2"),
            (ChatRole::Assistant, "a2"),
            (ChatRole::User, "q3"),
        ]
    );
    let client = DirectMinimaxClient::new(config()).unwrap();
    let r = client.dialogue_request(&transcript, "q3");
    assert!(r.body.starts_with("{\"max_tokens\":1024,"));
}

#[test]
fn dialogue_results() {
    match DirectMinimaxClient::dialogue_result(Ok("answer".to_string())).unwrap() {
        GenerateDialogueResult::Success { answer, truncated, transcript_summarized, .. } => {
            assert_eq!(answer, "answer");
            assert!(!truncated);
            assert!(!transcript_summarized);
        }
    }
    let e = DirectMinimaxClient::dialogue_result(Err(MinimaxError::Status { code: 500, body: "boom".to_string() }));
    assert_eq!(e.unwrap_err(), "MiniMax API error: MiniMax API error 500 Internal Server Error: boom");
}

fn ids(m: &minimax_client::models::AvailableLLMs) -> Vec<String> {
    m.choices.iter().map(|c| c.id.0.clone()).collect()
}

fn check_models(m: &ModelsByFeature) {
    assert_eq!(m.agent_mode.default_id.0, "MiniMax-M2.7");
    assert_eq!(ids(&m.agent_mode), vec!["MiniMax-M2.7"]);
    assert_eq!(ids(&m.coding), vec!["MiniMax-M2.7", "minimax-coding-plan/MiniMax-M2.7"]);
    assert_eq!(m.coding.choices[1].display_name, "MiniMax Coding Plan");
    assert_eq!(ids(m.cli_agent.as_ref().unwrap()), vec!["MiniMax-M2.7"]);
    assert_eq!(ids(m.computer_use.as_ref().unwrap()), vec!["MiniMax-M2.7"]);
    let info = &m.agent_mode.choices[0];
    assert_eq!(info.display_name, "MiniMax M2.7");
    assert_eq!(info.reasoning_level.as_deref(), Some("high"));
    assert_eq!(info.description.as_deref(), Some("MiniMax M2.7 - 196K context window, reasoning, tool calls"));
    assert_eq!(info.provider, LLMProvider::MiniMax);
    assert_eq!(info.context_window.max, 196608);
    assert_eq!(info.context_window.min, 4096);
    let spec = info.spec.as_ref().unwrap();
    assert_eq!((spec.cost, spec.quality, spec.speed), (0, 90, 80));
    assert!(info.vision_supported);
}

#[test]
fn model_choices() {
    let client = DirectMinimaxClient::new(config()).unwrap();
    check_models(&client.get_feature_model_choices());
    check_models(&client.get_free_available_models(Some("ref".to_string())));
}

#[test]
fn server_only_requests_are_refused() {
    assert_eq!(server_only_error(ServerOnlyRequest::CreateAgentTask), "Agent tasks require warp-server");
    assert_eq!(server_only_error(ServerOnlyRequest::GetAiConversation), "Conversations require warp-server");
    assert_eq!(server_only_error(ServerOnlyRequest::GenerateCodeReviewContent), "Code review requires warp-server");
}

#[test]
fn metadata_and_history() {
    let client = DirectMinimaxClient::new(config()).unwrap();
    let m = client.generate_metadata_for_command("ls".to_string()).unwrap();
    assert_eq!(m.command, "ls");
    assert!(m.description.is_none() && m.tags.is_empty());
    let h = client.get_scheduled_agent_history("s-1");
    assert!(h.schedule_id.is_empty() && h.agent_ids.is_empty() && h.runs.is_empty());
}

#[test]
fn raw_answers_without_server() {
    let client = DirectMinimaxClient::new(config()).unwrap();
    assert_eq!(render(&client.list_agent_runs_raw(10)), "{\"runs\":[]}");
    assert_eq!(render(&client.get_agent_run_raw("t")), "{}");
    assert_eq!(render(&client.get_public_conversation("c")), "{}");
    assert_eq!(render(&client.get_run_conversation("r")), "{}");
    assert_eq!(client.provide_negative_feedback_response_for_ai_conversation("c".to_string(), vec![]), 0);
}

#[test]
fn json_member_lookup_takes_the_first_match() {
    let j = Json::Object(vec![
        ("k".to_string(), Json::Number("1".to_string())),
        ("k".to_string(), Json::Number("2".to_string())),
    ]);
    match j.get("k") {
        Some(Json::Number(n)) => assert_eq!(n, "1"),
        _ => panic!("member not found"),
    }
    assert!(j.get("missing").is_none());
    assert!(Json::Array(vec![]).get("k").is_none());
}

#[test]
fn commands_read_back_from_their_lines() {
    for reply in ["ls -la\n# list\n  pwd \n", "#a\n#b", "  \u{3000}  ", "x\r\n\ny"] {
        let first = parse_commands(reply);
        let joined = texts(&first).join("\n");
        assert_eq!(texts(&parse_commands(&joined)), texts(&first));
    }
}

#[test]
fn local_no_op_requests_succeed() {
    let client = DirectMinimaxClient::new(config()).unwrap();
    assert!(client.mark_message_delivered("m").is_ok());
    assert!(client.delete_ai_conversation("t".to_string()).is_ok());
    assert!(client.cancel_ambient_agent_task("t").is_ok());
    assert!(client.update_event_sequence_on_server("r", 3).is_ok());
}

#[test]
fn json_lookup_in_ordered_object() {
    let j = Json::Object(vec![
        ("a".to_string(), Json::Bool(true)),
        ("b".to_string(), Json::Bool(false)),
    ]);
    assert!(matches!(j.get("b"), Some(Json::Bool(false))));
    assert!(matches!(j.get("a"), Some(Json::Bool(true))));
}
