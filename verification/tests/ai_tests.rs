use stellar::ai::{plain_message, truncate};

#[test]
fn truncation_preserves_utf8_boundaries() {
    assert_eq!(truncate("服务不可用", 3), "服务不...");
}

#[test]
fn truncation_keeps_short_text() {
    assert_eq!(truncate("abc", 3), "abc");
    assert_eq!(truncate("abcd", 0), "...");
    assert_eq!(truncate("", 5), "");
}

#[test]
fn plain_message_has_no_tool_calls() {
    let m = plain_message("user", "hi".to_string());
    assert_eq!(m.role, "user");
    assert_eq!(m.content, "hi");
    assert!(m.tool_calls.is_none());
    assert!(m.tool_call_id.is_none());
}
