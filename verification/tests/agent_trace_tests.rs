use stellar::agent::models::{llm_trace_text, with_llm_trace, DecisionInput, LlmDecisionTelemetry};
use stellar::rows::JsonCell;

fn telemetry() -> LlmDecisionTelemetry {
    LlmDecisionTelemetry {
        provider: "primary".into(),
        model: "model-a".into(),
        tokens: Some(42),
        latency_ms: 123,
    }
}

fn member<'a>(members: &'a [(String, JsonCell)], key: &str) -> Option<&'a JsonCell> {
    members.iter().find(|(k, _)| k == key).map(|(_, v)| v)
}

fn trace_json(members: &[(String, JsonCell)]) -> serde_json::Value {
    match member(members, "llm_trace") {
        Some(JsonCell::Other(text)) => serde_json::from_str(text).unwrap(),
        other => panic!("no trace: {:?}", other),
    }
}

#[test]
fn llm_trace_keeps_existing_evidence_input_and_excludes_credentials() {
    let input = with_llm_trace(
        Some(DecisionInput::Members(vec![(
            "evidence_ids".to_string(),
            JsonCell::Other("[7,9]".to_string()),
        )])),
        &telemetry(),
    );

    match member(&input, "evidence_ids") {
        Some(JsonCell::Other(text)) => {
            let v: serde_json::Value = serde_json::from_str(text).unwrap();
            assert_eq!(v, serde_json::Value::from(vec![7, 9]));
        },
        other => panic!("evidence ids lost: {:?}", other),
    }
    let trace = trace_json(&input);
    assert_eq!(trace["prompt_version"], "v1");
    assert_eq!(trace["latency_ms"], 123);
    assert!(member(&input, "api_key").is_none());
    assert!(member(&input, "api_base").is_none());
}

#[test]
fn trace_text_and_other_inputs() {
    assert_eq!(llm_trace_text(&telemetry()), "{\"latency_ms\":123,\"prompt_version\":\"v1\"}");
    let wrapped = with_llm_trace(Some(DecisionInput::Value(JsonCell::Number("5".into()))), &telemetry());
    assert_eq!(wrapped.len(), 2);
    assert_eq!(wrapped[0].0, "input");
    assert!(matches!(&wrapped[0].1, JsonCell::Number(n) if n == "5"));
    assert_eq!(wrapped[1].0, "llm_trace");
    let alone = with_llm_trace(None, &telemetry());
    assert_eq!(alone.len(), 1);
    assert_eq!(trace_json(&alone)["latency_ms"], 123);
    let replaced = with_llm_trace(
        Some(DecisionInput::Members(vec![
            ("llm_trace".to_string(), JsonCell::Text("old".into())),
            ("a".to_string(), JsonCell::Bool(true)),
        ])),
        &telemetry(),
    );
    assert_eq!(replaced.len(), 2);
    assert_eq!(replaced[0].0, "a");
    assert_eq!(trace_json(&replaced)["prompt_version"], "v1");
}
