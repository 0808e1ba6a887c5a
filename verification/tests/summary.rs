use hook_notify::analyzer::Message;
use hook_notify::json::Json;
use hook_notify::summary::{
    clean_and_truncate, clean_markdown, extract_error_info, extract_plan_summary, extract_question,
    extract_summary, extract_work_summary, truncate,
};
use hook_notify::types::Status;

fn make_msg(
    tool_name: Option<&str>,
    tool_input: Json,
    text_content: &str,
    is_api_error: bool,
    error_status: Option<u16>,
) -> Message {
    Message {
        msg_type: "assistant".to_string(),
        text_content: text_content.to_string(),
        tool_name: tool_name.map(|s| s.to_string()),
        tool_input,
        is_api_error,
        error_status,
    }
}

fn object(key: &str, value: &str) -> Json {
    Json::Object(vec![(key.to_string(), Json::Str(value.to_string()))])
}

#[test]
fn clean_markdown_formatting() {
    let input = "## Header\n**bold** and __under__ and *italic* and `code` and [link](https://example.com)";
    let result = clean_markdown(input);
    assert!(!result.contains('#'), "headers should be removed");
    assert!(!result.contains("**"), "bold markers should be removed");
    assert!(!result.contains("__"), "underline markers should be removed");
    assert!(!result.contains('`'), "inline backticks should be removed");
    assert!(!result.contains("https://example.com"), "urls should be removed");
    assert!(result.contains("link"), "link text should be preserved");
    assert!(result.contains("Header"), "header text should be preserved");
    assert!(result.contains("bold"), "bold text should be preserved");
}

#[test]
fn clean_code_blocks() {
    let input = "Some text\n```rust\nlet x = 1;\nprintln!(\"{}\", x);\n```\nMore text";
    let result = clean_markdown(input);
    assert!(!result.contains("let x"), "code block content should be removed");
    assert!(result.contains("Some text"), "text before code block should remain");
    assert!(result.contains("More text"), "text after code block should remain");
}

#[test]
fn collapse_whitespace() {
    let input = "Hello   world\n\nfoo\tbar";
    let result = clean_markdown(input);
    assert!(!result.contains("  "), "double spaces should be collapsed");
    assert!(!result.contains('\n'), "newlines should be collapsed");
    assert!(!result.contains('\t'), "tabs should be collapsed");
    assert!(result.contains("Hello world"), "words should remain separated by single space");
}

#[test]
fn truncate_at_word_boundary() {
    let text = "The quick brown fox jumps over the lazy dog and then some more words here";
    let result = truncate(text, 30);
    assert!(result.ends_with("..."), "truncated text should end with ...");
    assert!(result.chars().count() <= 30, "result should not exceed max_len");
    let without_ellipsis = result.trim_end_matches("...");
    assert!(!without_ellipsis.ends_with(' '), "no trailing space before ...");
}

#[test]
fn truncate_short_text_unchanged() {
    let text = "Short text";
    let result = truncate(text, 150);
    assert_eq!(result, text, "short text should be returned unchanged");
}

#[test]
fn extract_question_from_tool() {
    let messages = vec![make_msg(
        Some("AskUserQuestion"),
        object("question", "Would you like me to proceed with the refactoring?"),
        "",
        false,
        None,
    )];
    let result = extract_question(&messages);
    assert!(result.contains("proceed"), "should extract question text");
    assert!(!result.is_empty(), "result should not be empty");
}

#[test]
fn extract_question_fallback_to_text() {
    let messages = vec![make_msg(
        None,
        Json::Null,
        "I've analyzed the code. Should I continue?",
        false,
        None,
    )];
    let result = extract_question(&messages);
    assert!(result.contains("Should I continue"), "should use text with '?'");
}

#[test]
fn extract_work_summary_uses_last_text() {
    let messages = vec![
        make_msg(Some("Write"), Json::Null, "", false, None),
        make_msg(Some("Write"), Json::Null, "", false, None),
        make_msg(None, Json::Null, "All files updated successfully.", false, None),
    ];
    let result = extract_work_summary(&messages);
    assert!(result.contains("All files updated"), "should use last assistant text, got: {result}");
    assert!(!result.contains("write"), "should not contain tool counts");
}

#[test]
fn extract_session_limit() {
    let result = extract_summary(&Status::SessionLimit, &[]);
    assert!(result.contains("Session limit"), "should return session limit message");
}

#[test]
fn clean_and_truncate_150_char_limit() {
    let long = "word ".repeat(50);
    let result = clean_and_truncate(&long);
    assert!(result.chars().count() <= 150, "should be truncated to 150 chars, got {}", result.chars().count());
    assert!(result.ends_with("..."), "truncated result should end with ...");
}

#[test]
fn truncate_tiny_limits_stay_within_limit() {
    assert_eq!(truncate("abcdef", 2), "..");
    assert_eq!(truncate("abcdef", 1), ".");
    assert_eq!(truncate("abcdef", 0), "");
    assert_eq!(truncate("ab", 2), "ab");
}

#[test]
fn error_summary_with_status_stays_within_150() {
    let text = "x".repeat(150);
    let messages = vec![make_msg(None, Json::Null, &text, true, Some(500))];
    let result = extract_error_info(&messages);
    assert!(result.chars().count() <= 150, "got {}", result.chars().count());
    assert_eq!(result, "[500]...");
    assert!(result.ends_with("..."));
}

#[test]
fn truncate_exact_result() {
    assert_eq!(truncate("alpha beta gamma", 12), "alpha...");
    assert_eq!(truncate("abcdefghij", 5), "ab...");
    assert_eq!(truncate("exact", 5), "exact");
}

#[test]
fn clean_markdown_exact_result() {
    assert_eq!(clean_markdown("# Title\n- item one\n* item two"), "Title item one item two");
    assert_eq!(clean_markdown("see [docs](http://x.y) and `x`"), "see docs and");
}

#[test]
fn extract_question_prefers_tool_over_text() {
    let messages = vec![
        make_msg(Some("AskUserQuestion"), object("question", "**Pick** one?"), "", false, None),
        make_msg(None, Json::Null, "Later text?", false, None),
    ];
    assert_eq!(extract_question(&messages), "Pick one?");
}

#[test]
fn extract_question_skips_blank_tool_question() {
    let messages = vec![
        make_msg(None, Json::Null, "Earlier?", false, None),
        make_msg(Some("AskUserQuestion"), object("question", "   "), "", false, None),
    ];
    assert_eq!(extract_question(&messages), "Earlier?");
    assert_eq!(extract_question(&[]), "");
}

#[test]
fn extract_plan_from_tool_and_fallback() {
    let messages = vec![make_msg(Some("ExitPlanMode"), object("plan", "1. Do it"), "", false, None)];
    assert_eq!(extract_plan_summary(&messages), "1. Do it");
    let messages = vec![
        make_msg(None, Json::Null, "first", false, None),
        make_msg(None, Json::Null, "second", false, None),
    ];
    assert_eq!(extract_plan_summary(&messages), "second");
}

#[test]
fn extract_error_info_cases() {
    let messages = vec![make_msg(None, Json::Null, "Overloaded", true, Some(529))];
    assert_eq!(extract_error_info(&messages), "[529] Overloaded");
    let messages = vec![make_msg(None, Json::Null, "", true, None)];
    assert_eq!(extract_error_info(&messages), "API error occurred");
    let messages = vec![make_msg(None, Json::Null, "The build FAILED badly", false, None)];
    assert_eq!(extract_error_info(&messages), "The build FAILED badly");
    assert_eq!(extract_error_info(&[]), "An error occurred");
}
