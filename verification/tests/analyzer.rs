use hook_notify::analyzer::{detect_status, message_from_json, parse_message_line, parse_transcript_str, Message};
use hook_notify::hook::HookInput;
use hook_notify::json::Json;
use hook_notify::types::Status;

fn make_hook_input(tool_name: &str) -> HookInput {
    HookInput {
        session_id: "test-session".to_string(),
        transcript_path: "/tmp/transcript.jsonl".to_string(),
        tool_name: tool_name.to_string(),
        tool_input: Json::Null,
        tool_result: Json::Null,
        is_team_lead: false,
        team_name: String::new(),
        is_api_error_message: false,
    }
}

fn make_message(
    msg_type: &str,
    text_content: &str,
    tool_name: Option<&str>,
    is_api_error: bool,
    error_status: Option<u16>,
) -> Message {
    Message {
        msg_type: msg_type.to_string(),
        text_content: text_content.to_string(),
        tool_name: tool_name.map(|s| s.to_string()),
        tool_input: Json::Null,
        is_api_error,
        error_status,
    }
}

#[test]
fn detect_session_limit() {
    let messages = vec![make_message(
        "assistant",
        "Session limit reached, please start a new session.",
        None,
        false,
        None,
    )];
    let hook = make_hook_input("");
    assert_eq!(detect_status(&messages, &hook), Status::SessionLimit);
}

#[test]
fn detect_api_error() {
    let messages = vec![make_message("assistant", "API call failed.", None, true, Some(500))];
    let hook = make_hook_input("");
    assert_eq!(detect_status(&messages, &hook), Status::ApiError);
}

#[test]
fn detect_api_overloaded() {
    let messages = vec![make_message("assistant", "Too many requests.", None, true, Some(429))];
    let hook = make_hook_input("");
    assert_eq!(detect_status(&messages, &hook), Status::ApiOverloaded);
}

#[test]
fn detect_question() {
    let messages = vec![make_message("assistant", "I need more info.", Some("AskUserQuestion"), false, None)];
    let hook = make_hook_input("AskUserQuestion");
    assert_eq!(detect_status(&messages, &hook), Status::Question);
}

#[test]
fn detect_plan_ready() {
    let messages = vec![make_message("assistant", "Here is my plan.", None, false, None)];
    let hook = make_hook_input("ExitPlanMode");
    assert_eq!(detect_status(&messages, &hook), Status::PlanReady);
}

#[test]
fn detect_task_complete_with_write_tool() {
    let messages = vec![make_message("assistant", "Writing the file.", Some("Write"), false, None)];
    let hook = make_hook_input("");
    assert_eq!(detect_status(&messages, &hook), Status::TaskComplete);
}

#[test]
fn detect_review_complete_read_only() {
    let long_text = "a".repeat(201);
    let messages = vec![
        make_message("assistant", &long_text, Some("Read"), false, None),
        make_message("assistant", "Also grepped.", Some("Grep"), false, None),
    ];
    let hook = make_hook_input("");
    assert_eq!(detect_status(&messages, &hook), Status::ReviewComplete);
}

#[test]
fn parse_jsonl_transcript() {
    let jsonl = r#"
{"type":"assistant","message":{"role":"assistant","content":[{"type":"text","text":"Hello there."}]},"session_id":"s1"}
{"type":"assistant","message":{"role":"assistant","content":[{"type":"tool_use","id":"t1","name":"Write","input":{"file_path":"/tmp/a.txt","content":"hi"}}]},"session_id":"s1"}
{"type":"tool_result","tool_use_id":"t1","content":[{"type":"text","text":"Written."}],"session_id":"s1"}
"#;
    let messages = parse_transcript_str(jsonl);
    assert_eq!(messages.len(), 3);

    assert_eq!(messages[0].msg_type, "assistant");
    assert_eq!(messages[0].text_content, "Hello there.");
    assert!(messages[0].tool_name.is_none());

    assert_eq!(messages[1].msg_type, "assistant");
    assert_eq!(messages[1].tool_name.as_deref(), Some("Write"));

    assert_eq!(messages[2].msg_type, "tool_result");
}

#[test]
fn parse_api_error_line() {
    let line = r#"{"type":"assistant","isApiErrorMessage":true,"error":{"status":529},"message":{"role":"assistant","content":[{"type":"text","text":"Overloaded"}]}}"#;
    let msg = parse_message_line(line).expect("should parse");
    assert!(msg.is_api_error);
    assert_eq!(msg.error_status, Some(529));
    assert_eq!(msg.text_content, "Overloaded");
}

#[test]
fn parse_skips_invalid_lines() {
    let messages = parse_transcript_str("not json\n\n{\"type\":\"user\"}\n");
    assert_eq!(messages.len(), 1);
    assert_eq!(messages[0].msg_type, "user");
    assert_eq!(messages[0].text_content, "");
    assert!(parse_message_line("  {broken").is_none());
}

#[test]
fn hook_flag_marks_api_error() {
    let mut hook = make_hook_input("");
    hook.is_api_error_message = true;
    let messages = vec![make_message("assistant", "fine", None, false, None)];
    assert_eq!(detect_status(&messages, &hook), Status::ApiError);
}

#[test]
fn empty_transcript_is_task_complete() {
    let hook = make_hook_input("");
    assert_eq!(detect_status(&[], &hook), Status::TaskComplete);
}

#[test]
fn message_from_parsed_entry() {
    let v = Json::Object(vec![
        ("type".to_string(), Json::Str("assistant".to_string())),
        ("isApiErrorMessage".to_string(), Json::Bool(true)),
        (
            "error".to_string(),
            Json::Object(vec![("status".to_string(), Json::Number(hook_notify::json::JsonNumber::PosInt(429)))]),
        ),
    ]);
    let m = message_from_json(v);
    assert_eq!(m.msg_type, "assistant");
    assert!(m.is_api_error);
    assert_eq!(m.error_status, Some(429));
    assert_eq!(m.text_content, "");
    assert!(m.tool_name.is_none());
}
