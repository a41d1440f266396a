use codex_plus_core::custom_tool_adapter::restore::{client_custom_item_id, is_managed_call};
use codex_plus_core::custom_tool_adapter::{
    chat_plan_for_namespace_customs, decode_wrapped_arguments, encode_request,
    flatten_namespace_tool_name, has_unsupported_state_reference, restore_custom_tool_calls_json,
    wrap_arguments, AdapterError, AdapterErrorCode, ClientToolIdentity, CustomToolAdapterPlan,
    CustomToolSseRewriter, MAX_ARGUMENTS_BYTES, MAX_PENDING_CALLS,
};
use codex_plus_core::json::Json;
use codex_plus_core::str_map::StrMap;
use serde_json::Value;

fn json(text: &str) -> Json {
    Json::parse(text).unwrap()
}

fn value(json: &Json) -> Value {
    serde_json::from_str(&json.to_text()).unwrap()
}

/// 精确字符串向量：装箱 → 解码必须逐字符相等，不做任何规范化。
#[test]
fn exact_input_vectors_round_trip() {
    let vectors: Vec<String> = vec![
        String::new(),
        "  前后都有空格  ".to_string(),
        "line1\nline2".to_string(),
        "line1\r\nline2".to_string(),
        "C:\\测试目录\\a b.txt".to_string(),
        "单双引号：\"hello\" 'world'".to_string(),
        "emoji：🧪，中文：工具回放".to_string(),
        "{\"cmd\":\"already-json\"}".to_string(),
        "*** Begin Patch\n*** Update File: probe.txt\n@@\n-old\n+new\n*** End Patch".to_string(),
    ];
    for vector in vectors {
        let mut object = Json::object();
        object.put_text("input", &vector);
        let wrapped = object.to_text();
        let decoded = decode_wrapped_arguments(&wrapped).unwrap();
        assert_eq!(decoded, vector, "input 必须逐字符保留");
    }
}

#[test]
fn invalid_arguments_fail_closed() {
    let cases = [
        "not json at all",
        "42",
        "\"plain string\"",
        "null",
        "[1,2,3]",
        "{}",
        "{\"input\":null}",
        "{\"input\":42}",
        "{\"input\":[\"a\"]}",
        "{\"input\":\"a\",\"extra\":1}",
        "{\"input\":\"a\",\"input\":\"b\"}",
        "{\"input\":\"a\"} trailing",
    ];
    for case in cases {
        let error = decode_wrapped_arguments(case).unwrap_err();
        assert_eq!(error.code, AdapterErrorCode::InvalidArguments, "case: {case}");
    }
    // 合法空串必须成功（不被 falsy 逻辑丢弃）。
    assert_eq!(decode_wrapped_arguments("{\"input\":\"\"}").unwrap(), "");
}

fn namespace_tools_fixture() -> StrMap<(String, String)> {
    let mut names = StrMap::new();
    names.insert(
        "functions__review_echo".to_string(),
        ("functions".to_string(), "review_echo".to_string()),
    );
    names
}

#[test]
fn encode_wraps_custom_declarations_and_history() {
    let mut body = json(r#"{
        "model": "m",
        "tools": [
            { "type": "custom", "name": "functions__review_echo", "description": "Echo tool.", "format": { "type": "text" } },
            { "type": "function", "name": "review_wait", "parameters": { "type": "object", "properties": { "token": { "type": "string" } } } }
        ],
        "input": [
            { "role": "user", "content": "go" },
            { "type": "custom_tool_call", "id": "ctc_1", "call_id": "call_1", "name": "functions__review_echo", "input": "第一行\n  第二行\\路径\"引号\"  " },
            { "type": "custom_tool_call_output", "call_id": "call_1", "output": "done" }
        ],
        "tool_choice": { "type": "custom", "namespace": "functions", "name": "review_echo" }
    }"#);
    let plan = encode_request(&mut body, &namespace_tools_fixture()).unwrap();
    assert!(!plan.is_empty());
    let body = value(&body);

    let tools = body["tools"].as_array().unwrap();
    let echo = tools
        .iter()
        .find(|tool| tool["name"] == "functions__review_echo")
        .unwrap();
    assert_eq!(echo["type"], "function");
    assert_eq!(echo["strict"], false);
    assert_eq!(echo["parameters"]["properties"]["input"]["type"], "string");
    assert_eq!(echo["parameters"]["required"], value(&json(r#"["input"]"#)));
    assert_eq!(echo["parameters"]["additionalProperties"], false);
    // 普通 function 不受影响。
    let wait = tools.iter().find(|tool| tool["name"] == "review_wait").unwrap();
    assert_eq!(wait["type"], "function");
    assert!(wait.get("parameters").is_some());

    let items = body["input"].as_array().unwrap();
    assert_eq!(items[1]["type"], "function_call");
    assert_eq!(items[1]["call_id"], "call_1");
    assert_eq!(items[1]["name"], "functions__review_echo");
    let arguments = items[1]["arguments"].as_str().unwrap();
    assert_eq!(decode_wrapped_arguments(arguments).unwrap(), "第一行\n  第二行\\路径\"引号\"  ");
    assert!(items[1].get("input").is_none());
    assert_eq!(items[2]["type"], "function_call_output");
    assert_eq!(items[2]["call_id"], "call_1");

    assert_eq!(
        body["tool_choice"],
        value(&json(r#"{ "type": "function", "name": "functions__review_echo" }"#))
    );

    // 计划身份：客户端视角还原为原名 + namespace。
    let identity = plan.identity("functions__review_echo").unwrap();
    assert_eq!(identity.client_name, "review_echo");
    assert_eq!(identity.namespace, "functions");
}

#[test]
fn encode_rejects_unknown_fields_and_bad_format() {
    let mut body = json(r#"{
        "tools": [ { "type": "custom", "name": "weird", "defer_loading": true } ]
    }"#);
    let error = encode_request(&mut body, &StrMap::new()).unwrap_err();
    assert_eq!(error.code, AdapterErrorCode::UnsupportedField);

    let mut body = json(r#"{
        "tools": [ { "type": "custom", "name": "weird", "format": { "type": "regex" } } ]
    }"#);
    let error = encode_request(&mut body, &StrMap::new()).unwrap_err();
    assert_eq!(error.code, AdapterErrorCode::UnsupportedFormat);
}

#[test]
fn grammar_meta_is_preserved_as_description_note() {
    let mut body = json(r#"{
        "tools": [ { "type": "custom", "name": "patchy", "format": { "type": "grammar", "syntax": "lark", "definition": "start: TEXT" } } ]
    }"#);
    encode_request(&mut body, &StrMap::new()).unwrap();
    let body = value(&body);
    let description = body["tools"][0]["description"].as_str().unwrap();
    assert!(description.contains("lark"), "grammar 语法要进入包装描述");
}

#[test]
fn json_restore_recovers_exact_input_and_removes_arguments() {
    let plan_json = json(r#"{
        "tools": [ { "type": "custom", "name": "review_echo", "description": "Echo tool." } ]
    }"#);
    let mut body = plan_json.copy();
    let plan = encode_request(&mut body, &StrMap::new()).unwrap();
    let mut response = json(r#"{
        "id": "resp_1",
        "object": "response",
        "output": [
            {
                "type": "function_call",
                "id": "fc_abc",
                "call_id": "call_9",
                "name": "review_echo",
                "arguments": "{\"input\":\"line1\\r\\nline2 🧪\"}",
                "status": "completed"
            }
        ]
    }"#);
    restore_custom_tool_calls_json(&mut response, &plan).unwrap();
    let response = value(&response);
    let item = &response["output"][0];
    assert_eq!(item["type"], "custom_tool_call");
    assert_eq!(item["name"], "review_echo");
    assert_eq!(item["id"], "ctc_abc");
    assert_eq!(item["call_id"], "call_9");
    assert_eq!(item["input"], "line1\r\nline2 🧪");
    assert!(item.get("arguments").is_none());
    assert_eq!(item["status"], "completed");
}

#[test]
fn json_restore_skips_plain_functions_and_metadata() {
    let mut body = json(r#"{
        "tools": [ { "type": "custom", "name": "review_echo" } ]
    }"#);
    let plan = encode_request(&mut body, &StrMap::new()).unwrap();
    let mut response = json(r#"{
        "output": [
            { "type": "function_call", "id": "fc_x", "call_id": "c1", "name": "review_wait", "arguments": "{\"input\":\"nope\"}" },
            { "type": "message", "role": "assistant", "content": [{ "type": "output_text", "text": "{\"type\":\"function_call\",\"name\":\"review_echo\"}" }] }
        ]
    }"#);
    restore_custom_tool_calls_json(&mut response, &plan).unwrap();
    let response = value(&response);
    assert_eq!(response["output"][0]["type"], "function_call", "普通 function 不误转");
    assert_eq!(
        response["output"][1]["content"][0]["text"],
        "{\"type\":\"function_call\",\"name\":\"review_echo\"}",
        "业务 JSON 不被扫描改写"
    );
}

#[test]
fn json_restore_reverts_echoed_tools_and_tool_choice() {
    let mut body = json(r#"{
        "tools": [ { "type": "custom", "name": "review_echo", "description": "Echo." } ],
        "tool_choice": { "type": "custom", "name": "review_echo" }
    }"#);
    let plan = encode_request(&mut body, &StrMap::new()).unwrap();
    let mut response = json(r#"{
        "response": {
            "output": [],
            "tools": [ { "type": "function", "name": "review_echo", "description": "wrapped" } ],
            "tool_choice": { "type": "function", "name": "review_echo" }
        }
    }"#);
    restore_custom_tool_calls_json(&mut response, &plan).unwrap();
    let response = value(&response);
    let echoed = &response["response"];
    assert_eq!(echoed["tools"][0]["type"], "custom");
    assert_eq!(echoed["tools"][0]["description"], "Echo.");
    assert_eq!(
        echoed["tool_choice"],
        value(&json(r#"{ "type": "custom", "name": "review_echo" }"#))
    );
}

#[test]
fn unmanaged_function_call_in_response_passes_through() {
    let mut body = json(r#"{ "tools": [ { "type": "custom", "name": "review_echo" } ] }"#);
    let plan = encode_request(&mut body, &StrMap::new()).unwrap();
    let mut response = json(r#"{
        "output": [
            { "type": "function_call", "call_id": "c1", "name": "totally_other", "arguments": "{\"input\":\"x\"}" },
            { "type": "function_call", "call_id": "c2", "name": "review_wait", "arguments": "{\"token\":\"y\"}" }
        ]
    }"#);
    restore_custom_tool_calls_json(&mut response, &plan).unwrap();
    // 只有计划内的 wire 名才还原；其他 function 原样保留。
    let shown = value(&response);
    assert_eq!(shown["output"][0]["type"], "function_call");
    assert_eq!(shown["output"][0]["name"], "totally_other");
    assert_eq!(shown["output"][1]["type"], "function_call");
    assert_eq!(shown["output"][1]["name"], "review_wait");
    // 计划内的调用正常还原。
    response.array_at_mut("output").unwrap()[0].put_text("name", "review_echo");
    restore_custom_tool_calls_json(&mut response, &plan).unwrap();
    assert_eq!(value(&response)["output"][0]["type"], "custom_tool_call");
}

fn sse_frame(event: &str, mut payload: Json) -> String {
    payload.put_text("type", event);
    format!("event: {event}\ndata: {}\n\n", payload.to_text())
}

#[test]
fn sse_buffers_and_delivers_custom_group_with_sequence_renumbering() {
    let mut body = json(r#"{
        "tools": [ { "type": "custom", "name": "review_echo" }, { "type": "function", "name": "review_wait", "parameters": {} } ]
    }"#);
    let plan = encode_request(&mut body, &StrMap::new()).unwrap();
    let mut rewriter = CustomToolSseRewriter::new(plan);

    let mut upstream = String::new();
    upstream.push_str(&sse_frame(
        "response.created",
        json(r#"{ "response": { "id": "resp" } }"#),
    ));
    upstream.push_str(&sse_frame(
        "response.output_item.added",
        json(r#"{ "output_index": 0, "item": { "id": "fc_1", "type": "function_call", "call_id": "call_a", "name": "review_echo", "arguments": "" } }"#),
    ));
    upstream.push_str(&sse_frame(
        "response.function_call_arguments.delta",
        json(r#"{ "item_id": "fc_1", "output_index": 0, "delta": "{\"inp" }"#),
    ));
    upstream.push_str(&sse_frame(
        "response.function_call_arguments.delta",
        json(r#"{ "item_id": "fc_1", "output_index": 0, "delta": "ut\":\"hi \\ud83e\\uddea\"}" }"#),
    ));
    upstream.push_str(&sse_frame(
        "response.function_call_arguments.done",
        json(r#"{ "item_id": "fc_1", "output_index": 0, "arguments": "{\"input\":\"hi 🧪\"}" }"#),
    ));
    upstream.push_str(&sse_frame(
        "response.output_item.done",
        json(r#"{ "output_index": 0, "item": { "id": "fc_1", "type": "function_call", "call_id": "call_a", "name": "review_echo", "arguments": "{\"input\":\"hi 🧪\"}", "status": "completed" } }"#),
    ));
    upstream.push_str(&sse_frame(
        "response.completed",
        json(r#"{ "response": { "id": "resp", "output": [ { "type": "function_call", "id": "fc_1", "call_id": "call_a", "name": "review_echo", "arguments": "{\"input\":\"hi 🧪\"}", "status": "completed" } ] } }"#),
    ));

    // 分片喂入（含 UTF-8/JSON escape 跨 chunk）。
    let bytes = upstream.as_bytes();
    let mut full = Vec::new();
    for chunk in bytes.chunks(7) {
        full.extend_from_slice(&rewriter.push_bytes(chunk));
    }
    let (tail, truncated) = rewriter.finish_with_truncation();
    full.extend_from_slice(&tail);
    assert!(!truncated);

    let text = String::from_utf8(full).unwrap();
    let events: Vec<(String, Value)> = text
        .split("\n\n")
        .filter(|frame| !frame.trim().is_empty())
        .map(|frame| {
            let mut lines = frame.lines();
            let event = lines
                .next()
                .unwrap()
                .strip_prefix("event: ")
                .unwrap()
                .to_string();
            let data: Value = serde_json::from_str(
                lines.next().unwrap().strip_prefix("data: ").unwrap(),
            )
            .unwrap();
            (event, data)
        })
        .collect();

    let names: Vec<&str> = events.iter().map(|(event, _)| event.as_str()).collect();
    assert_eq!(
        names,
        vec![
            "response.created",
            "response.output_item.added",
            "response.custom_tool_call_input.delta",
            "response.custom_tool_call_input.done",
            "response.output_item.done",
            "response.completed",
        ],
        "added/arguments delta 被吸收，custom 事件组一次性交付"
    );

    for (_, data) in &events {
        assert!(
            data.get("sequence_number").is_some(),
            "活跃适配流必须统一分配 sequence_number"
        );
    }
    let sequences: Vec<u64> = events
        .iter()
        .map(|(_, data)| data["sequence_number"].as_u64().unwrap())
        .collect();
    let mut sorted = sequences.clone();
    sorted.sort();
    assert_eq!(sequences, sorted, "sequence_number 必须单调递增");

    let added = &events[1].1["item"];
    assert_eq!(added["type"], "custom_tool_call");
    assert_eq!(added["id"], "ctc_1");
    assert_eq!(added["name"], "review_echo");
    assert_eq!(added["input"], "");
    let delta = events[2].1["delta"].as_str().unwrap();
    assert_eq!(delta, "hi 🧪");
    let done_item = &events[4].1["item"];
    assert_eq!(done_item["input"], "hi 🧪");
    assert_eq!(done_item["call_id"], "call_a", "call_id 逐字符保留");
    // 终态 output 也已转换。
    assert_eq!(events[5].1["response"]["output"][0]["type"], "custom_tool_call");
}

#[test]
fn sse_passes_plain_functions_through_untouched() {
    let mut body = json(r#"{
        "tools": [ { "type": "custom", "name": "review_echo" } ]
    }"#);
    let plan = encode_request(&mut body, &StrMap::new()).unwrap();
    let mut rewriter = CustomToolSseRewriter::new(plan);
    let upstream = format!(
        "{}{}",
        sse_frame(
            "response.output_item.added",
            json(r#"{ "output_index": 1, "item": { "id": "fc_2", "type": "function_call", "call_id": "call_b", "name": "review_wait", "arguments": "" } }"#),
        ),
        sse_frame(
            "response.output_item.done",
            json(r#"{ "output_index": 1, "item": { "id": "fc_2", "type": "function_call", "call_id": "call_b", "name": "review_wait", "arguments": "{\"token\":\"x\"}", "status": "completed" } }"#),
        ),
    );
    let out = rewriter.push_bytes(upstream.as_bytes());
    let (tail, truncated) = rewriter.finish_with_truncation();
    assert!(!truncated);
    let text = String::from_utf8(out).unwrap();
    assert!(text.contains("\"review_wait\""));
    assert!(
        !text.contains("custom_tool_call"),
        "普通 function 不该被转成 custom"
    );
    assert!(
        text.contains("\\\"token\\\":\\\"x\\\""),
        "普通 function 的 arguments 原样透传"
    );
    assert!(String::from_utf8_lossy(&tail).is_empty());
}

#[test]
fn sse_inconsistent_delta_and_done_fails() {
    let mut body = json(r#"{ "tools": [ { "type": "custom", "name": "review_echo" } ] }"#);
    let plan = encode_request(&mut body, &StrMap::new()).unwrap();
    let mut rewriter = CustomToolSseRewriter::new(plan);
    let mut upstream = String::new();
    upstream.push_str(&sse_frame(
        "response.output_item.added",
        json(r#"{ "output_index": 0, "item": { "id": "fc_1", "type": "function_call", "call_id": "call_a", "name": "review_echo", "arguments": "" } }"#),
    ));
    upstream.push_str(&sse_frame(
        "response.function_call_arguments.delta",
        json(r#"{ "item_id": "fc_1", "output_index": 0, "delta": "{\"input\":\"aaa\"}" }"#),
    ));
    upstream.push_str(&sse_frame(
        "response.function_call_arguments.done",
        json(r#"{ "item_id": "fc_1", "output_index": 0, "arguments": "{\"input\":\"bbb\"}" }"#),
    ));
    let mut out = rewriter.push_bytes(upstream.as_bytes());
    let (tail, _truncated) = rewriter.finish_with_truncation();
    out.extend_from_slice(&tail);
    let text = String::from_utf8(out).unwrap();
    assert!(text.contains("\"type\":\"error\""), "不一致必须显式失败");
    assert!(!text.contains("custom_tool_call_input"), "失败时不得交付输入");
}

#[test]
fn sse_eof_with_pending_emits_error_not_success() {
    let mut body = json(r#"{ "tools": [ { "type": "custom", "name": "review_echo" } ] }"#);
    let plan = encode_request(&mut body, &StrMap::new()).unwrap();
    let mut rewriter = CustomToolSseRewriter::new(plan);
    let upstream = sse_frame(
        "response.output_item.added",
        json(r#"{ "output_index": 0, "item": { "id": "fc_1", "type": "function_call", "call_id": "call_a", "name": "review_echo", "arguments": "" } }"#),
    );
    rewriter.push_bytes(upstream.as_bytes());
    let (tail, truncated) = rewriter.finish_with_truncation();
    let text = String::from_utf8(tail).unwrap();
    assert!(text.contains("CUSTOM_ADAPTER_STREAM_INCOMPLETE"));
    assert!(!text.contains("custom_tool_call_input.done"));
    assert!(!truncated);
}

#[test]
fn sse_half_frame_at_eof_is_reported_truncated() {
    let mut body = json(r#"{ "tools": [ { "type": "custom", "name": "review_echo" } ] }"#);
    let plan = encode_request(&mut body, &StrMap::new()).unwrap();
    let mut rewriter = CustomToolSseRewriter::new(plan);
    let out = rewriter.push_bytes(b"event: response.output_item.added\ndata: {\"partial\"");
    assert!(out.is_empty());
    let (tail, truncated) = rewriter.finish_with_truncation();
    // 半帧被丢弃并报告截断；added 未成功注册，因此没有待交付调用，
    // 也没有任何伪造的 custom 事件。
    assert!(truncated);
    assert!(!String::from_utf8_lossy(&tail).contains("custom_tool_call"));
}

#[test]
fn sse_incomplete_terminal_never_delivers_input() {
    let mut body = json(r#"{ "tools": [ { "type": "custom", "name": "review_echo" } ] }"#);
    let plan = encode_request(&mut body, &StrMap::new()).unwrap();
    let mut rewriter = CustomToolSseRewriter::new(plan);
    let mut upstream = String::new();
    upstream.push_str(&sse_frame(
        "response.output_item.added",
        json(r#"{ "output_index": 0, "item": { "id": "fc_1", "type": "function_call", "call_id": "call_a", "name": "review_echo", "arguments": "" } }"#),
    ));
    upstream.push_str(&sse_frame(
        "response.output_item.done",
        json(r#"{ "output_index": 0, "item": { "id": "fc_1", "type": "function_call", "call_id": "call_a", "name": "review_echo", "arguments": "{\"input\":\"rm -rf /\"}", "status": "incomplete" } }"#),
    ));
    upstream.push_str(&sse_frame(
        "response.incomplete",
        json(r#"{ "response": { "id": "resp", "status": "incomplete", "output": [ { "type": "function_call", "id": "fc_1", "call_id": "call_a", "name": "review_echo", "arguments": "{\"input\":\"rm -rf /\"}", "status": "incomplete" } ] } }"#),
    ));
    let out = rewriter.push_bytes(upstream.as_bytes());
    let text = String::from_utf8(out).unwrap();
    assert!(
        !text.contains("\"input\":\"rm -rf /\""),
        "incomplete 终态不得交付可执行输入"
    );
    let done_count = text.matches("response.custom_tool_call_input.done").count();
    assert_eq!(done_count, 0, "incomplete 终态不得产生 done 交付");
}

#[test]
fn empty_plan_is_byte_fast_path() {
    let mut rewriter = CustomToolSseRewriter::default();
    let payload = sse_frame(
        "response.output_item.added",
        json(r#"{ "output_index": 0, "item": { "type": "function_call", "name": "x" } }"#),
    );
    let out = rewriter.push_bytes(payload.as_bytes());
    assert_eq!(out, payload.as_bytes(), "空计划必须逐字节透传");
    let (tail, truncated) = rewriter.finish_with_truncation();
    assert!(tail.is_empty());
    assert!(!truncated);
}

#[test]
fn chat_plan_collects_only_namespace_customs() {
    let tools = json(r#"[
        { "type": "custom", "name": "top_level" },
        { "type": "namespace", "name": "functions", "tools": [
            { "type": "custom", "name": "review_echo" },
            { "type": "function", "name": "review_wait", "parameters": {} }
        ] }
    ]"#);
    let plan = chat_plan_for_namespace_customs(Some(&tools));
    assert!(plan.identity("top_level").is_none(), "顶层 custom 归既有 Chat 转换管");
    let identity = plan.identity("functions__review_echo").unwrap();
    assert_eq!(identity.client_name, "review_echo");
    assert_eq!(identity.namespace, "functions");
}

#[test]
fn state_reference_detection() {
    assert!(has_unsupported_state_reference(
        &json(r#"{ "previous_response_id": "resp_1" }"#)
    ));
    assert!(has_unsupported_state_reference(
        &json(r#"{ "conversation": { "id": "c1" } }"#)
    ));
    assert!(has_unsupported_state_reference(&json(r#"{
        "input": [ { "type": "item_reference", "id": "item_1" } ]
    }"#)));
    assert!(!has_unsupported_state_reference(
        &json(r#"{ "input": [ { "role": "user" } ] }"#)
    ));
}

fn echo_plan() -> CustomToolAdapterPlan {
    let mut body = json(r#"{ "tools": [ { "type": "custom", "name": "review_echo" } ] }"#);
    encode_request(&mut body, &StrMap::new()).unwrap()
}

#[test]
fn error_codes_name_themselves() {
    let names = [
        (AdapterErrorCode::InvalidArguments, "CUSTOM_ADAPTER_INVALID_ARGUMENTS"),
        (AdapterErrorCode::ToolIdentityConflict, "CUSTOM_ADAPTER_TOOL_IDENTITY_CONFLICT"),
        (AdapterErrorCode::UnsupportedField, "CUSTOM_ADAPTER_UNSUPPORTED_FIELD"),
        (AdapterErrorCode::UnsupportedFormat, "CUSTOM_ADAPTER_UNSUPPORTED_FORMAT"),
        (
            AdapterErrorCode::StateReferenceUnsupported,
            "CUSTOM_ADAPTER_STATE_REFERENCE_UNSUPPORTED",
        ),
        (AdapterErrorCode::StreamIncomplete, "CUSTOM_ADAPTER_STREAM_INCOMPLETE"),
        (AdapterErrorCode::BufferLimit, "CUSTOM_ADAPTER_BUFFER_LIMIT"),
        (AdapterErrorCode::PolicyConflict, "CUSTOM_ADAPTER_POLICY_CONFLICT"),
    ];
    for (code, name) in names {
        assert_eq!(code.as_str(), name);
    }
    let error = AdapterError::new(AdapterErrorCode::BufferLimit, "full".to_string());
    assert_eq!(error.describe(), "CUSTOM_ADAPTER_BUFFER_LIMIT: full");
}

#[test]
fn wrapped_arguments_are_compact_json() {
    assert_eq!(wrap_arguments("a\"b\n"), "{\"input\":\"a\\\"b\\n\"}");
    assert_eq!(decode_wrapped_arguments(&wrap_arguments("a, b")).unwrap(), "a, b");
}

#[test]
fn decoding_accepts_escapes_and_space() {
    assert_eq!(
        decode_wrapped_arguments(" { \"\\u0069nput\" : \"a,b \\u4f60\" } ").unwrap(),
        "a,b 你"
    );
}

#[test]
fn missing_input_has_its_own_message() {
    let error = decode_wrapped_arguments("{}").unwrap_err();
    assert_eq!(error.message, "function 参数缺少 input 字符串字段");
    let error = decode_wrapped_arguments("{\"zeta\":1,\"alpha\":2}").unwrap_err();
    assert!(error.message.ends_with("unexpected field `alpha`"));
    let error = decode_wrapped_arguments("{\"input\":\"a\",\"input\":\"b\"}").unwrap_err();
    assert!(error.message.ends_with("duplicate field `input`"));
}

#[test]
fn item_ids_are_converted_once() {
    assert_eq!(client_custom_item_id("fc_1", "call"), "ctc_1");
    assert_eq!(client_custom_item_id("item_1", "call"), "ctc_1");
    assert_eq!(client_custom_item_id("ctc_1", "call"), "ctc_1");
    assert_eq!(client_custom_item_id("ct_1", "call"), "ct_1");
    assert_eq!(client_custom_item_id("", "call"), "ctc_call");
    assert_eq!(client_custom_item_id("fc_fc_1", "call"), "ctc_fc_1");
}

#[test]
fn encoding_again_changes_nothing() {
    let mut body = json(
        r#"{ "tools": [ { "type": "custom", "name": "review_echo" } ],
             "input": [ { "type": "custom_tool_call", "call_id": "c", "name": "review_echo", "input": "x" } ],
             "tool_choice": { "type": "custom", "name": "review_echo" } }"#,
    );
    encode_request(&mut body, &StrMap::new()).unwrap();
    let once = body.copy();
    let plan = encode_request(&mut body, &StrMap::new()).unwrap();
    assert!(plan.is_empty());
    assert!(body.same(&once));
}

#[test]
fn requests_without_custom_tools_stay() {
    let mut body = json(r#"{ "tools": [ { "type": "function", "name": "f" } ], "tool_choice": "auto" }"#);
    let before = body.copy();
    assert!(encode_request(&mut body, &StrMap::new()).unwrap().is_empty());
    assert!(body.same(&before));
}

#[test]
fn custom_tools_need_a_name() {
    let mut body = json(r#"{ "tools": [ { "type": "custom", "name": "" } ] }"#);
    let error = encode_request(&mut body, &StrMap::new()).unwrap_err();
    assert_eq!(error.code, AdapterErrorCode::ToolIdentityConflict);
}

#[test]
fn history_calls_need_a_name_and_an_input() {
    let mut body = json(r#"{ "input": [ { "type": "custom_tool_call", "input": "x" } ] }"#);
    let error = encode_request(&mut body, &StrMap::new()).unwrap_err();
    assert_eq!(
        error.message,
        "input[0] 的 custom_tool_call 缺少工具名，无法回放"
    );
    let mut body = json(r#"{ "input": [ {}, { "type": "custom_tool_call", "name": "n" } ] }"#);
    let error = encode_request(&mut body, &StrMap::new()).unwrap_err();
    assert_eq!(error.code, AdapterErrorCode::InvalidArguments);
    assert_eq!(
        error.message,
        "input[1]（n）的 custom_tool_call.input 缺失或不是字符串，拒绝回放"
    );
}

#[test]
fn references_must_mean_one_tool() {
    let mut names = StrMap::new();
    names.insert("a__echo".to_string(), ("a".to_string(), "echo".to_string()));
    names.insert("b__echo".to_string(), ("b".to_string(), "echo".to_string()));
    let tools = r#""tools": [ { "type": "custom", "name": "a__echo" }, { "type": "custom", "name": "b__echo" } ]"#;

    let mut body = json(&format!("{{ {tools}, \"tool_choice\": {{ \"type\": \"custom\", \"name\": \"echo\", \"namespace\": \"b\" }} }}"));
    encode_request(&mut body, &names).unwrap();
    assert_eq!(value(&body)["tool_choice"]["name"], "b__echo");

    let mut body = json(&format!("{{ {tools}, \"tool_choice\": {{ \"type\": \"custom\", \"name\": \"echo\" }} }}"));
    let error = encode_request(&mut body, &names).unwrap_err();
    assert_eq!(error.code, AdapterErrorCode::ToolIdentityConflict);

    let mut body = json(r#"{ "tool_choice": { "type": "allowed_tools", "tools": [ { "type": "custom", "name": "gone" } ] } }"#);
    let error = encode_request(&mut body, &StrMap::new()).unwrap_err();
    assert_eq!(error.message, "tool_choice 引用的 custom 工具「gone」不在本次工具集合中");

    let mut body = json(r#"{ "tool_choice": { "type": "custom" } }"#);
    assert!(encode_request(&mut body, &StrMap::new()).is_err());
}

#[test]
fn plan_lists_its_tools_in_order() {
    let mut body = json(r#"{ "tools": [ { "type": "custom", "name": "zeta" }, { "type": "custom", "name": "alpha" } ] }"#);
    let plan = encode_request(&mut body, &StrMap::new()).unwrap();
    let names: Vec<String> = plan.entries().into_iter().map(|(name, _)| name).collect();
    assert_eq!(names, vec!["alpha", "zeta"]);
    assert!(plan
        .original_declaration("zeta")
        .unwrap()
        .same(&json(r#"{ "type": "custom", "name": "zeta" }"#)));
    assert_eq!(
        plan.identity("alpha").unwrap(),
        &ClientToolIdentity {
            client_name: "alpha".to_string(),
            namespace: String::new(),
        }
    );
}

#[test]
fn managed_calls_need_ids_and_arguments() {
    let plan = echo_plan();
    let call = json(r#"{ "type": "function_call", "name": "review_echo" }"#);
    assert!(is_managed_call(&call, &plan));
    let mut response = json(r#"{ "item": { "type": "function_call", "name": "review_echo" } }"#);
    let error = restore_custom_tool_calls_json(&mut response, &plan).unwrap_err();
    assert_eq!(error.code, AdapterErrorCode::ToolIdentityConflict);
    let mut response =
        json(r#"{ "item": { "type": "function_call", "name": "review_echo", "call_id": "c" } }"#);
    let error = restore_custom_tool_calls_json(&mut response, &plan).unwrap_err();
    assert_eq!(error.code, AdapterErrorCode::InvalidArguments);
}

#[test]
fn empty_plan_changes_no_response() {
    let plan = CustomToolAdapterPlan::default();
    let mut response = json(
        r#"{ "output": [ { "type": "function_call", "name": "f" } ], "tools": [ { "type": "function", "name": "f" } ] }"#,
    );
    let before = response.copy();
    restore_custom_tool_calls_json(&mut response, &plan).unwrap();
    assert!(response.same(&before));
}

#[test]
fn namespaces_flatten_at_any_depth() {
    assert_eq!(flatten_namespace_tool_name("", "echo"), "echo");
    assert_eq!(flatten_namespace_tool_name("functions", "echo"), "functions__echo");
    let tools = json(
        r#"[ { "type": "namespace", "name": "a", "children": [
                { "type": "namespace", "name": "b", "tools": [ { "type": "custom", "name": "c" } ] } ] } ]"#,
    );
    let plan = chat_plan_for_namespace_customs(Some(&tools));
    assert_eq!(plan.identity("a__b__c").unwrap().namespace, "a__b");
}

#[test]
fn delivered_call_is_not_sent_again() {
    let mut rewriter = CustomToolSseRewriter::new(echo_plan());
    assert!(!rewriter.plan().is_empty());
    let added = sse_frame(
        "response.output_item.added",
        json(r#"{ "output_index": 0, "item": { "id": "fc_1", "type": "function_call", "call_id": "c", "name": "review_echo" } }"#),
    );
    let done = sse_frame(
        "response.output_item.done",
        json(r#"{ "output_index": 0, "item": { "id": "fc_1", "type": "function_call", "call_id": "c", "name": "review_echo", "arguments": "{\"input\":\"x\"}" } }"#),
    );
    assert!(rewriter.push_bytes(added.as_bytes()).is_empty());
    assert!(!rewriter.push_bytes(done.as_bytes()).is_empty());
    assert!(rewriter.push_bytes(done.as_bytes()).is_empty());
    let (tail, truncated) = rewriter.finish_with_truncation();
    assert!(String::from_utf8(tail).unwrap().contains("CUSTOM_ADAPTER_STREAM_INCOMPLETE"));
    assert!(!truncated);
}

#[test]
fn changed_identity_fails_the_stream() {
    let mut rewriter = CustomToolSseRewriter::new(echo_plan());
    let frames = format!(
        "{}{}",
        sse_frame(
            "response.output_item.added",
            json(r#"{ "output_index": 3, "item": { "id": "fc_1", "type": "function_call", "call_id": "c", "name": "review_echo" } }"#),
        ),
        sse_frame(
            "response.output_item.done",
            json(r#"{ "output_index": 3, "item": { "id": "fc_9", "type": "function_call", "call_id": "c", "name": "review_echo", "arguments": "{\"input\":\"x\"}" } }"#),
        ),
    );
    assert!(rewriter.push_bytes(frames.as_bytes()).is_empty());
    // Whatever follows a failure goes out as it comes in.
    assert_eq!(rewriter.push_bytes(b"data: x\n\n"), b"data: x\n\n");
    let (tail, _) = rewriter.finish_with_truncation();
    let text = String::from_utf8(tail).unwrap();
    assert!(text.contains("同一调用的 item id 发生变化：fc_1 → fc_9"));
    assert!(text.contains("\"sequence_number\":0"));
}

#[test]
fn upstream_error_ends_the_stream() {
    let mut rewriter = CustomToolSseRewriter::new(echo_plan());
    let out = rewriter.push_bytes(b"event: error\ndata: {\"message\":\"no\"}\n\n: ping\n\n");
    let text = String::from_utf8(out).unwrap();
    assert_eq!(
        text,
        "event: error\ndata: {\"message\":\"no\",\"sequence_number\":0}\n\n: ping\n\n"
    );
    let (tail, _) = rewriter.finish_with_truncation();
    assert!(String::from_utf8(tail).unwrap().contains("上游流返回 error 事件"));
}

#[test]
fn crlf_frames_and_done_marks_pass() {
    let mut rewriter = CustomToolSseRewriter::new(echo_plan());
    let out = rewriter.push_bytes(b"data: [DONE]\r\n\r\nevent: x\r\ndata: {\"a\":1}\r\n\r\n");
    assert_eq!(
        String::from_utf8(out).unwrap(),
        "data: [DONE]\r\n\r\nevent: x\ndata: {\"a\":1,\"sequence_number\":0}\n\n"
    );
}

#[test]
fn too_many_calls_fail_the_stream() {
    let mut rewriter = CustomToolSseRewriter::new(echo_plan());
    for index in 0..=MAX_PENDING_CALLS {
        let mut item = json(r#"{ "type": "function_call", "call_id": "c", "name": "review_echo" }"#);
        item.put_text("id", &format!("fc_{index}"));
        let mut data = Json::object();
        data.put("output_index", Json::Unsigned(index as u64));
        data.put("item", item);
        assert!(rewriter
            .push_bytes(sse_frame("response.output_item.added", data).as_bytes())
            .is_empty());
    }
    let (tail, _) = rewriter.finish_with_truncation();
    assert!(String::from_utf8(tail).unwrap().contains("单个响应的并发工具调用超过上限 128"));
}

#[test]
fn too_long_arguments_fail_the_stream() {
    let mut rewriter = CustomToolSseRewriter::new(echo_plan());
    let added = sse_frame(
        "response.output_item.added",
        json(r#"{ "output_index": 0, "item": { "id": "fc_1", "type": "function_call", "call_id": "c", "name": "review_echo" } }"#),
    );
    rewriter.push_bytes(added.as_bytes());
    let mut data = json(r#"{ "item_id": "fc_1" }"#);
    data.put_text("delta", &"x".repeat(MAX_ARGUMENTS_BYTES + 1));
    let delta = sse_frame("response.function_call_arguments.delta", data);
    assert!(rewriter.push_bytes(delta.as_bytes()).is_empty());
    let (tail, _) = rewriter.finish_with_truncation();
    assert!(String::from_utf8(tail).unwrap().contains("CUSTOM_ADAPTER_BUFFER_LIMIT"));
}

#[test]
fn completed_only_streams_are_restored() {
    let mut rewriter = CustomToolSseRewriter::new(echo_plan());
    let end = sse_frame(
        "response.completed",
        json(r#"{ "response": { "output": [ { "type": "function_call", "id": "fc_1", "call_id": "c", "name": "review_echo", "arguments": "{\"input\":\"x\"}" } ] } }"#),
    );
    let text = String::from_utf8(rewriter.push_bytes(end.as_bytes())).unwrap();
    assert!(text.contains("\"type\":\"custom_tool_call\""));
    assert!(text.contains("\"input\":\"x\""));
    let (tail, truncated) = rewriter.finish_with_truncation();
    assert!(tail.is_empty());
    assert!(!truncated);
}

fn identity(client_name: &str, namespace: &str) -> ClientToolIdentity {
    ClientToolIdentity {
        client_name: client_name.to_string(),
        namespace: namespace.to_string(),
    }
}

#[test]
fn name_without_a_namespace_may_mean_several_tools() {
    let mut plan = CustomToolAdapterPlan::default();
    plan.insert("a__echo".to_string(), identity("echo", "a"), Json::object());
    assert_eq!(
        plan.resolve_client_reference("echo", None).unwrap().as_deref(),
        Some("a__echo")
    );
    plan.insert("b__echo".to_string(), identity("echo", "b"), Json::object());
    let error = plan.resolve_client_reference("echo", None).unwrap_err();
    assert_eq!(error.code, AdapterErrorCode::ToolIdentityConflict);
    assert_eq!(
        error.message,
        "tool_choice 的 custom 引用「echo」命中多个同名工具，已拒绝歧义派发"
    );
    assert!(plan.resolve_client_reference("echo", Some("")).is_err());
    assert_eq!(
        plan.resolve_client_reference("echo", Some("b")).unwrap().as_deref(),
        Some("b__echo")
    );
    assert_eq!(plan.resolve_client_reference("other", None).unwrap(), None);
    plan.insert("echo".to_string(), identity("echo", ""), Json::object());
    assert_eq!(
        plan.resolve_client_reference("echo", None).unwrap().as_deref(),
        Some("echo")
    );
}

#[test]
fn response_that_is_a_call_is_restored() {
    let mut response = json(
        r#"{"type":"function_call","id":"fc_abc","call_id":"call_9","name":"review_echo","arguments":"{\"input\":\"x\"}"}"#,
    );
    restore_custom_tool_calls_json(&mut response, &echo_plan()).unwrap();
    assert!(response.same(&json(
        r#"{"type":"custom_tool_call","id":"ctc_abc","call_id":"call_9","name":"review_echo","input":"x","status":"completed"}"#,
    )));

    let mut broken = json(r#"{"type":"function_call","call_id":"c","name":"review_echo"}"#);
    let before = broken.copy();
    assert!(restore_custom_tool_calls_json(&mut broken, &echo_plan()).is_err());
    assert!(broken.same(&before));
}

#[test]
fn unfinished_calls_are_not_sent() {
    for status in ["incomplete", "failed"] {
        let mut rewriter = CustomToolSseRewriter::new(echo_plan());
        let mut data = json(
            r#"{ "output_index": 0, "item": { "type": "function_call", "call_id": "c", "name": "review_echo", "arguments": "{\"input\":\"rm -rf /\"}" } }"#,
        );
        data.get_mut("item").unwrap().put_text("status", status);
        let done = sse_frame("response.output_item.done", data);
        assert!(rewriter.push_bytes(done.as_bytes()).is_empty());
        let (tail, truncated) = rewriter.finish_with_truncation();
        assert!(tail.is_empty());
        assert!(!truncated);
    }
}

fn call_frames(index: u32, call_id: &str, input: &str) -> String {
    let item = format!(
        r#"{{ "id": "fc_{call_id}", "type": "function_call", "call_id": "{call_id}", "name": "review_echo", "arguments": "{{\"input\":\"{input}\"}}" }}"#
    );
    let added = format!(r#"{{ "output_index": {index}, "item": {item} }}"#);
    format!(
        "{}{}",
        sse_frame("response.output_item.added", json(&added)),
        sse_frame("response.output_item.done", json(&added))
    )
}

fn end_frame(event: &str, inputs: &[(&str, &str)]) -> String {
    let items: Vec<String> = inputs
        .iter()
        .map(|(call_id, input)| {
            format!(
                r#"{{ "id": "fc_{call_id}", "type": "function_call", "call_id": "{call_id}", "name": "review_echo", "arguments": "{{\"input\":\"{input}\"}}" }}"#
            )
        })
        .collect();
    sse_frame(
        event,
        json(&format!(r#"{{ "response": {{ "output": [{}] }} }}"#, items.join(","))),
    )
}

#[test]
fn calls_of_one_tool_are_told_apart() {
    let calls = [("call_a", "x"), ("call_b", "y")];
    let mut rewriter = CustomToolSseRewriter::new(echo_plan());
    rewriter.push_bytes(call_frames(0, "call_a", "x").as_bytes());
    rewriter.push_bytes(call_frames(1, "call_b", "y").as_bytes());
    let end = end_frame("response.completed", &calls);
    let text = String::from_utf8(rewriter.push_bytes(end.as_bytes())).unwrap();
    let data: Value = serde_json::from_str(
        text.lines().find_map(|line| line.strip_prefix("data: ")).unwrap(),
    )
    .unwrap();
    assert_eq!(data["response"]["output"][1]["type"], "custom_tool_call");
    assert_eq!(data["response"]["output"][1]["call_id"], "call_b");
    assert_eq!(data["response"]["output"][1]["input"], "y");
    assert!(rewriter.finish_with_truncation().0.is_empty());

    let mut swapped = CustomToolSseRewriter::new(echo_plan());
    swapped.push_bytes(call_frames(0, "call_a", "x").as_bytes());
    swapped.push_bytes(call_frames(1, "call_b", "y").as_bytes());
    let end = end_frame("response.completed", &[("call_a", "y"), ("call_b", "x")]);
    assert!(swapped.push_bytes(end.as_bytes()).is_empty());
    let tail = String::from_utf8(swapped.finish_with_truncation().0).unwrap();
    assert!(tail.contains("CUSTOM_ADAPTER_INVALID_ARGUMENTS"));
}

#[test]
fn call_that_was_not_delivered_shows_no_input_in_a_failed_end() {
    let mut rewriter = CustomToolSseRewriter::new(echo_plan());
    rewriter.push_bytes(call_frames(0, "call_a", "x").as_bytes());
    let end = end_frame("response.failed", &[("call_a", "x"), ("call_b", "y")]);
    let text = String::from_utf8(rewriter.push_bytes(end.as_bytes())).unwrap();
    let data: Value = serde_json::from_str(
        text.lines().find_map(|line| line.strip_prefix("data: ")).unwrap(),
    )
    .unwrap();
    assert_eq!(data["response"]["output"][0]["input"], "x");
    assert_eq!(data["response"]["output"][1]["input"], "");
    assert_eq!(data["response"]["output"][1]["status"], "incomplete");
}

#[test]
fn empty_plan_lets_everything_through() {
    let mut rewriter = CustomToolSseRewriter::default();
    let pieces: [&[u8]; 4] = [b"event: error\ndata: {}\n\n", b"\xff\xfe", b"data: {\"a\"", b""];
    for piece in pieces {
        assert_eq!(rewriter.push_bytes(piece), piece);
    }
    assert_eq!(rewriter.finish_with_truncation(), (Vec::new(), false));
}

#[test]
fn unfinished_call_without_an_id_fails_the_stream() {
    let mut rewriter = CustomToolSseRewriter::new(echo_plan());
    let done = sse_frame(
        "response.output_item.done",
        json(r#"{ "output_index": 0, "item": { "type": "function_call", "name": "review_echo", "arguments": "{\"input\":\"x\"}", "status": "failed" } }"#),
    );
    assert!(rewriter.push_bytes(done.as_bytes()).is_empty());
    let tail = String::from_utf8(rewriter.finish_with_truncation().0).unwrap();
    assert!(tail.contains("CUSTOM_ADAPTER_TOOL_IDENTITY_CONFLICT"));
    assert!(!tail.contains("custom_tool_call_input"));
}
