use codex_plus_core::json::Json;
use codex_plus_core::native_agents::{
    interop_enabled, is_message_tool, prepare_glm_messages, prepare_request, restore_call,
    restore_json, rewrite_frame, NativeAgentSseRewriter,
};
use codex_plus_core::settings::{NativeAgentInterop, RelayProfile, RelayProtocol};
use serde_json::Value;

const NATIVE_NAMESPACE: &str = "collaboration";
const WIRE_NAMESPACE: &str = "codexpp_native_collaboration";

fn json(text: &str) -> Json {
    Json::parse(text).unwrap()
}

fn value(json: &Json) -> Value {
    serde_json::from_str(&json.to_text()).unwrap()
}

#[test]
fn native_agent_interop_mode_overrides_automatic_detection() {
    let mut profile = RelayProfile {
        base_url: "http://127.0.0.1:8788/v1".to_string(),
        protocol: RelayProtocol::Responses,
        ..Default::default()
    };
    assert!(interop_enabled(&profile));
    profile.native_agent_interop = NativeAgentInterop::On;
    assert!(interop_enabled(&profile));
    profile.native_agent_interop = NativeAgentInterop::Off;
    assert!(!interop_enabled(&profile));
}

#[test]
fn native_tools_keep_every_definition_and_round_trip_with_plaintext_marker() {
    let namespace = r#"{"type": "namespace", "name": "collaboration", "tools": [
        {"type": "function", "name": "spawn_agent", "parameters": {"properties": {
            "message": {"type": "string", "encrypted": true}, "model": {"type": "string"}
        }}},
        {"type": "function", "name": "wait_agent", "parameters": {"type": "object"}}
    ]}"#;
    let extra = r#"{"type": "future_tool", "keep": [1, 2]}"#;
    let mut request = json(&format!(
        "{{\"input\": [{{\"type\": \"additional_tools\", \"tools\": [{namespace}, {extra}]}}]}}"
    ));
    assert!(prepare_request(&mut request));
    let request = value(&request);
    assert_eq!(request["input"][0]["tools"][0]["name"], WIRE_NAMESPACE);
    assert_eq!(request["input"][0]["tools"][1], value(&json(extra)));
    assert_eq!(
        request["input"][0]["tools"][0]["tools"][0]["parameters"]["properties"]["message"]["encrypted"],
        false
    );
    let arguments = r#"{"message":"run the task","model":"gpt-5.6-luna"}"#;
    let mut call = json(r#"{"type": "function_call", "name": "spawn_agent", "call_id": "call1"}"#);
    call.put_text("namespace", WIRE_NAMESPACE);
    call.put_text("arguments", arguments);
    let mut response = Json::object();
    response.put("output", Json::array(vec![call]));
    let restored: Value =
        serde_json::from_slice(&restore_json(response.to_text().as_bytes())).unwrap();
    assert_eq!(restored["output"][0]["namespace"], NATIVE_NAMESPACE);
    assert_eq!(
        restored["output"][0]["encrypted_function_args"],
        value(&json("[]"))
    );
    assert_eq!(restored["output"][0]["arguments"], arguments);
    let mut replay = Json::object();
    replay.put("input", json(&restored["output"].to_string()));
    assert!(prepare_request(&mut replay));
    assert_eq!(value(&replay)["input"][0]["namespace"], WIRE_NAMESPACE);
}

#[test]
fn glm_keeps_task_text_and_leaves_opaque_old_messages_untouched() {
    let content = r#"[{"type": "input_text", "text": "Message Type: NEW_TASK\nPayload:\nDo work"}]"#;
    let encrypted = r#"{"type": "agent_message", "content": [
        {"type": "encrypted_content", "encrypted_content": "opaque"}
    ]}"#;
    let mut body = json(&format!(
        "{{\"input\": [{{\"type\": \"agent_message\", \"author\": \"/root\", \"content\": {content}}}, {encrypted}]}}"
    ));
    prepare_glm_messages(&mut body);
    let body = value(&body);
    assert_eq!(
        body["input"][0],
        value(&json(&format!(
            "{{\"type\": \"message\", \"role\": \"user\", \"content\": {content}}}"
        )))
    );
    assert_eq!(body["input"][1], value(&json(encrypted)));
    let mut old_call = json(
        r#"{"type": "function_call", "namespace": "codexpp_native_collaboration",
            "name": "send_message", "encrypted_function_args": ["message"]}"#,
    );
    restore_call(&mut old_call);
    assert_eq!(
        value(&old_call)["encrypted_function_args"],
        value(&json(r#"["message"]"#))
    );
    let mut history = Json::object();
    history.put("input", Json::array(vec![old_call]));
    let original = history.copy();
    assert!(!prepare_request(&mut history));
    assert!(history.same(&original));
}

#[test]
fn fragmented_sse_restores_only_alias_calls_and_preserves_other_frames() {
    let unchanged = b": ping\r\n\r\nevent: response.output_text.delta\ndata: {\"type\":\"response.output_text.delta\",\"delta\":\"hello\"}\n\n";
    let event = json(
        r#"{"type": "response.output_item.done", "item": {
        "type": "function_call", "namespace": "codexpp_native_collaboration", "name": "followup_task",
        "arguments": "{\"message\":\"next task\"}"
    }}"#,
    )
    .to_text();
    let frame = format!("id: 7\r\nevent: response.output_item.done\r\ndata: {event}\r\n\r\n");
    let mut input = unchanged.to_vec();
    input.extend(frame.as_bytes());
    input.extend(b"data: [DONE]\n\n");
    for chunk_size in 1..=17 {
        let mut rewriter = NativeAgentSseRewriter::default();
        let mut output = Vec::new();
        for chunk in input.chunks(chunk_size) {
            output.extend(rewriter.push_bytes(chunk));
        }
        output.extend(rewriter.finish());
        assert!(output.starts_with(unchanged));
        assert!(output.ends_with(b"data: [DONE]\n\n"));
        let text = String::from_utf8(output).unwrap();
        assert!(text.contains("\"namespace\":\"collaboration\""));
        assert!(text.contains("\"encrypted_function_args\":[]"));
        assert!(text.contains("id: 7\r\n"));
        assert!(!text.contains(WIRE_NAMESPACE));
    }
}

#[test]
fn pieces_do_not_matter() {
    let input = b"data: {\"a\":1}\n\ndata: {\"item\":{\"type\":\"function_call\",\"namespace\":\"codexpp_native_collaboration\",\"name\":\"wait_agent\"}}\r\n\r\ntail";
    let mut whole = NativeAgentSseRewriter::new();
    let expected = whole.push_bytes(input);
    let rest = whole.finish();
    assert_eq!(rest, b"tail");
    for split in 0..input.len() {
        let mut rewriter = NativeAgentSseRewriter::new();
        let mut output = rewriter.push_bytes(&input[..split]);
        output.extend(rewriter.push_bytes(&input[split..]));
        assert_eq!(output, expected);
        assert_eq!(rewriter.finish(), b"tail");
    }
}

#[test]
fn message_tools_are_three() {
    for name in ["spawn_agent", "send_message", "followup_task"] {
        assert!(is_message_tool(name));
    }
    assert!(!is_message_tool("wait_agent"));
}

#[test]
fn automatic_interop_needs_the_responses_protocol() {
    let profile = RelayProfile {
        protocol: RelayProtocol::ChatCompletions,
        ..Default::default()
    };
    assert!(!interop_enabled(&profile));
}

#[test]
fn nested_responses_are_restored() {
    let bytes = br#"{"response":{"response":{"item":{"type":"function_call","namespace":"codexpp_native_collaboration","name":"wait_agent"}}}}"#;
    let restored: Value = serde_json::from_slice(&restore_json(bytes)).unwrap();
    let item = &restored["response"]["response"]["item"];
    assert_eq!(item["namespace"], NATIVE_NAMESPACE);
    assert!(item.get("encrypted_function_args").is_none());
}

#[test]
fn bytes_that_are_not_json_stay() {
    assert_eq!(restore_json(b"\xff{"), b"\xff{");
    assert_eq!(restore_json(b"{ \"a\": 1 }"), b"{ \"a\": 1 }");
    assert_eq!(rewrite_frame(b"data: \xff\n\n"), b"data: \xff\n\n");
}

#[test]
fn data_lines_are_joined_into_one() {
    let frame = b"data: {\"type\":\"function_call\",\ndata:\"namespace\":\"codexpp_native_collaboration\",\"name\":\"x\"}\nid: 1\n\n";
    assert_eq!(
        String::from_utf8(rewrite_frame(frame)).unwrap(),
        "data: {\"name\":\"x\",\"namespace\":\"collaboration\",\"type\":\"function_call\"}\nid: 1\n\n"
    );
}

#[test]
fn prepared_request_stays() {
    let mut body = json(
        r#"{"tools": [{"type": "namespace", "name": "collaboration", "tools": [{"name": "send_message"}]}],
            "input": [{"type": "function_call", "namespace": "collaboration", "name": "wait_agent"},
                      {"type": "function_call", "namespace": "collaboration", "name": "send_message"}]}"#,
    );
    assert!(prepare_request(&mut body));
    let once = body.copy();
    assert!(!prepare_request(&mut body));
    assert!(body.same(&once));
    let body = value(&body);
    assert_eq!(body["input"][0]["namespace"], WIRE_NAMESPACE);
    assert_eq!(body["input"][1]["namespace"], NATIVE_NAMESPACE);
}
