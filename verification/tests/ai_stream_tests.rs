use std::collections::BTreeMap;

use stellar::ai::client::{
    api_error_text, completion_from_reply, completions_url, output_budget, provider_available,
    request_timeout_secs, ReplyChoice,
};
use stellar::ai::session::{
    feedback_after_update, feedback_first_op, session_title, to_chat_messages, FeedbackOp,
    MessageRecord,
};
use stellar::ai::stream::{
    finish_stream, take_lines, AccToolCall, ChunkDelta, ChunkToolCall, LineStep, StreamState,
};
use stellar::ai::types::AgentStep;
use stellar::ai::ToolCallDelta;

fn frag(index: usize, id: Option<&str>, name: Option<&str>, args: Option<&str>) -> ChunkToolCall {
    ChunkToolCall {
        index,
        id: id.map(|s| s.to_string()),
        name: name.map(|s| s.to_string()),
        arguments: args.map(|s| s.to_string()),
    }
}

#[test]
fn take_lines_keeps_partial_tail() {
    let mut buf = b"data: a\n\ndata: b\npart".to_vec();
    let lines = take_lines(&mut buf);
    assert_eq!(lines, vec![b"data: a".to_vec(), b"".to_vec(), b"data: b".to_vec()]);
    assert_eq!(buf, b"part".to_vec());
    let mut none = b"no newline".to_vec();
    assert!(take_lines(&mut none).is_empty());
    assert_eq!(none, b"no newline".to_vec());
}

#[test]
fn read_line_classifies_event_lines() {
    let mut st = StreamState::new();
    assert!(matches!(st.read_line(b": heartbeat"), LineStep::Skip));
    assert!(!st.saw_data_line);
    match st.read_line(b"  data:  {\"x\":1}  ") {
        LineStep::Payload(p) => assert_eq!(p, "{\"x\":1}"),
        _ => panic!("expected a payload"),
    }
    assert!(st.saw_data_line);
    assert!(matches!(st.read_line(b"data: [DONE]"), LineStep::Done));
    assert!(matches!(st.read_line(b"event: message"), LineStep::Skip));
}

#[test]
fn deltas_accumulate_content_and_tool_calls_by_index() {
    let mut st = StreamState::new();
    let e1 = st.apply_delta(ChunkDelta {
        content: Some("Hel".to_string()),
        tool_calls: vec![frag(1, Some("c2"), Some("query_metrics"), Some("{\"limit\": "))],
    });
    assert_eq!(e1, Some("Hel".to_string()));
    let e2 = st.apply_delta(ChunkDelta {
        content: Some(String::new()),
        tool_calls: vec![
            frag(0, Some("c1"), Some("list_nodes"), Some("{}")),
            frag(1, None, Some(""), Some("5}")),
        ],
    });
    assert_eq!(e2, None);
    let e3 = st.apply_delta(ChunkDelta { content: Some("lo".to_string()), tool_calls: vec![] });
    assert_eq!(e3, Some("lo".to_string()));
    assert_eq!(st.content, "Hello");
    let indices: Vec<usize> = st.calls.iter().map(|(i, _)| *i).collect();
    assert_eq!(indices, vec![0, 1]);
    let done = st.end_of_stream().expect("stream had content");
    assert_eq!(done.content, Some("Hello".to_string()));
    assert_eq!(done.tool_calls.len(), 2);
    assert_eq!(done.tool_calls[0].id, "c1");
    assert_eq!(done.tool_calls[0].name, "list_nodes");
    assert_eq!(done.tool_calls[1].id, "c2");
    assert_eq!(done.tool_calls[1].name, "query_metrics");
    assert_eq!(done.tool_calls[1].arguments, "{\"limit\": 5}");
    assert_eq!(done.usage_tokens, 0);
    assert_eq!(done.finish_reason, None);
}

#[test]
fn finish_stream_drops_calls_without_a_name() {
    let acc: BTreeMap<usize, AccToolCall> = vec![
        (3, AccToolCall { id: "b".into(), name: "tool".into(), arguments: "".into() }),
        (0, AccToolCall { id: "a".into(), name: "  ".into(), arguments: "{}".into() }),
        (1, AccToolCall { id: "c".into(), name: "first".into(), arguments: "".into() }),
    ]
    .into_iter()
    .collect();
    let c = finish_stream(String::new(), acc).unwrap();
    assert_eq!(c.content, None);
    assert_eq!(c.tool_calls.len(), 2);
    assert_eq!(c.tool_calls[0].id, "c");
    assert_eq!(c.tool_calls[1].id, "b");
}

#[test]
fn stream_without_data_lines_is_refused() {
    let st = StreamState::new();
    let err = st.end_of_stream().unwrap_err();
    assert!(err.contains("SSE"));
    let mut seen = StreamState::new();
    seen.read_line(b"data: {}");
    let ok = seen.end_of_stream().unwrap();
    assert_eq!(ok.content, None);
    assert!(ok.tool_calls.is_empty());
}

#[test]
fn request_shaping() {
    assert_eq!(completions_url("https://api.x.com/v1//"), "https://api.x.com/v1/chat/completions");
    assert_eq!(completions_url("http://h"), "http://h/chat/completions");
    assert_eq!(output_budget(0), 1);
    assert_eq!(output_budget(4096), 4096);
    assert_eq!(request_timeout_secs(10), 30);
    assert_eq!(request_timeout_secs(90), 90);
    assert!(provider_available(true, &Some("k".into())));
    assert!(!provider_available(true, &None));
    assert!(!provider_available(false, &Some("k".into())));
    assert_eq!(api_error_text("400 Bad Request", "oops"), "LLM API error 400 Bad Request: oops");
    let long = "x".repeat(501);
    assert_eq!(api_error_text("500", &long), format!("LLM API error 500: {}...", "x".repeat(500)));
}

#[test]
fn reply_keeps_first_choice_and_routable_calls() {
    let choices = vec![
        ReplyChoice {
            content: Some("answer".into()),
            tool_calls: vec![
                ToolCallDelta { id: "1".into(), name: " ".into(), arguments: "{}".into() },
                ToolCallDelta { id: "2".into(), name: "get".into(), arguments: "{}".into() },
            ],
            finish_reason: Some("stop".into()),
        },
        ReplyChoice { content: Some("other".into()), tool_calls: vec![], finish_reason: None },
    ];
    let c = completion_from_reply(choices, 42).unwrap();
    assert_eq!(c.content, Some("answer".to_string()));
    assert_eq!(c.tool_calls.len(), 1);
    assert_eq!(c.tool_calls[0].id, "2");
    assert_eq!(c.usage_tokens, 42);
    assert_eq!(c.finish_reason, Some("stop".to_string()));
    assert_eq!(completion_from_reply(vec![], 1).unwrap_err(), "LLM response has no choices");
}

#[test]
fn session_helpers() {
    let long: String = "问".repeat(70);
    assert_eq!(session_title(&long).chars().count(), 60);
    assert_eq!(session_title("short"), "short");
    let recs = vec![
        MessageRecord { id: 1, role: "user".into(), content: "hi".into(), steps: vec![], feedback: None },
        MessageRecord { id: 2, role: "tool".into(), content: "x".into(), steps: vec![], feedback: None },
        MessageRecord {
            id: 3,
            role: "assistant".into(),
            content: "ok".into(),
            steps: vec![AgentStep::end()],
            feedback: Some("up".into()),
        },
    ];
    let msgs = to_chat_messages(&recs);
    assert_eq!(msgs.len(), 2);
    assert_eq!(msgs[0].role, "user");
    assert_eq!(msgs[1].content, "ok");
    assert!(msgs[1].tool_calls.is_none());
    assert_eq!(feedback_first_op(&None), FeedbackOp::Delete);
    assert_eq!(feedback_first_op(&Some("up".into())), FeedbackOp::Update);
    assert_eq!(feedback_after_update(0), Some(FeedbackOp::Insert));
    assert_eq!(feedback_after_update(1), None);
}

#[test]
fn agent_steps() {
    let s = AgentStep::tool_result("q", "rows".into(), 12);
    assert_eq!(s.kind, "tool_result");
    assert_eq!(s.result, Some("rows".to_string()));
    assert_eq!(s.duration_ms, 12);
    let e = AgentStep::error("q", "boom");
    assert_eq!(e.status, "error");
    assert_eq!(AgentStep::reasoning("think".into()).label, "reasoning");
    assert_eq!(AgentStep::tool("q", serde_json::Value::Bool(true)).status, "pending");
    assert_eq!(AgentStep::end().label, "turn_end");
}

#[test]
fn first_non_empty_tool_name_is_kept() {
    let mut st = StreamState::new();
    st.apply_delta(ChunkDelta { content: None, tool_calls: vec![frag(0, Some("c"), Some(""), Some("{"))] });
    st.apply_delta(ChunkDelta { content: None, tool_calls: vec![frag(0, None, Some("a"), Some("}"))] });
    st.apply_delta(ChunkDelta { content: None, tool_calls: vec![frag(0, None, Some("b"), None)] });
    let done = st.end_of_stream().unwrap();
    assert_eq!(done.tool_calls.len(), 1);
    assert_eq!(done.tool_calls[0].name, "a");
    assert_eq!(done.tool_calls[0].arguments, "{}");
}
