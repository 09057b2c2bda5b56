use codex_bridge::hosted_tool_calls::{
    append_tool_outputs_to_chat_request, append_tool_outputs_to_responses_request,
    conclude_hosted_tool_call, hosted_tool_error_messages, hosted_tool_messages,
    log_hosted_tool_event, log_hosted_tool_not_called,
    normalize_responses_input_for_hosted_continuation, plan_hosted_tool_call, safe_error_message,
    scan_hosted_tool_calls, scan_responses_hosted_tool_calls, HostedToolCall, HostedToolCallScan,
    HostedToolPlan, ResponsesHostedToolCallScan,
};
use codex_bridge::hosted_tools::{
    disable_projected_hosted_functions_for_responses_request, hosted_function_is_enabled,
    project_hosted_tools_for_responses_request, relax_hosted_tool_choice_for_responses_request,
    remove_projected_hosted_function_calls_from_responses_response, HostedImageGenerationConfig,
    HostedToolCallKind, HostedToolLoopConfig, HostedWebSearchConfig,
};
use codex_bridge::json::{JsonNumber, JsonValue};
use codex_bridge::text_map::TextMap;

fn to_library(value: &serde_json::Value) -> JsonValue {
    match value {
        serde_json::Value::Null => JsonValue::null(),
        serde_json::Value::Bool(b) => JsonValue::truth(*b),
        serde_json::Value::Number(n) => JsonValue::number(match n.as_i64() {
            Some(i) => JsonNumber::Integer(i as i128),
            None => JsonNumber::Float(n.to_string()),
        }),
        serde_json::Value::String(s) => JsonValue::text(s),
        serde_json::Value::Array(items) => {
            JsonValue::array(items.iter().map(to_library).collect())
        }
        serde_json::Value::Object(fields) => {
            let mut map = TextMap::new();
            for (key, item) in fields {
                map.insert(key.clone(), to_library(item));
            }
            JsonValue::object(map)
        }
    }
}

fn from_library(value: &JsonValue) -> serde_json::Value {
    match value {
        JsonValue::Null => serde_json::Value::Null,
        JsonValue::Bool(b) => serde_json::Value::Bool(*b),
        JsonValue::Number(JsonNumber::Integer(i)) => serde_json::Value::from(*i as i64),
        JsonValue::Number(JsonNumber::Float(f)) => serde_json::from_str(f).unwrap(),
        JsonValue::Text(s) => serde_json::Value::String(s.clone()),
        JsonValue::Array(items) => {
            serde_json::Value::Array(items.iter().map(from_library).collect())
        }
        JsonValue::Object(map) => {
            let mut fields = serde_json::Map::new();
            for i in 0..map.len() {
                let (key, item) = map.entry(i);
                fields.insert(key.clone(), from_library(item));
            }
            serde_json::Value::Object(fields)
        }
    }
}

fn json(text: &str) -> JsonValue {
    to_library(&serde_json::from_str(text).unwrap())
}

fn web_search_definition() -> JsonValue {
    json(
        r#"{"type":"function","name":"web_search","parameters":{"type":"object","properties":{"query":{"type":"string"}}}}"#,
    )
}

fn web_search_config() -> HostedToolLoopConfig {
    HostedToolLoopConfig {
        web_search: Some(HostedWebSearchConfig::default()),
        image_generation: None,
    }
}

#[test]
fn hosted_tool_loop_config_is_empty_only_when_no_tools() {
    assert!(HostedToolLoopConfig::default().is_empty());
    assert!(!HostedToolLoopConfig {
        web_search: Some(HostedWebSearchConfig::default()),
        ..HostedToolLoopConfig::default()
    }
    .is_empty());
    assert!(!HostedToolLoopConfig {
        image_generation: Some(HostedImageGenerationConfig::default()),
        ..HostedToolLoopConfig::default()
    }
    .is_empty());
}

#[test]
fn scan_hosted_tool_calls_accepts_web_search_and_image_generation() {
    let response = json(
        r#"{
        "choices": [{
            "message": {
                "role": "assistant",
                "tool_calls": [
                    {
                        "id": "call_search",
                        "type": "function",
                        "function": {
                            "name": "web_search",
                            "arguments": "{\"query\":\"Codex\"}"
                        }
                    },
                    {
                        "id": "call_image",
                        "type": "function",
                        "function": {
                            "name": "generate_image",
                            "arguments": "{\"prompt\":\"robot\"}"
                        }
                    }
                ]
            }
        }]
    }"#,
    );

    assert_eq!(
        scan_hosted_tool_calls(&response),
        HostedToolCallScan::OnlyHosted(vec![
            HostedToolCall {
                kind: HostedToolCallKind::WebSearch,
                id: "call_search".to_string(),
                arguments: "{\"query\":\"Codex\"}".to_string()
            },
            HostedToolCall {
                kind: HostedToolCallKind::ImageGeneration,
                id: "call_image".to_string(),
                arguments: "{\"prompt\":\"robot\"}".to_string()
            }
        ])
    );
}

#[test]
fn scan_hosted_tool_calls_rejects_mixed_tools() {
    let response = json(
        r#"{
        "choices": [{
            "message": {
                "role": "assistant",
                "tool_calls": [{
                    "id": "call_file",
                    "type": "function",
                    "function": {
                        "name": "read_file",
                        "arguments": "{}"
                    }
                }]
            }
        }]
    }"#,
    );

    assert_eq!(
        scan_hosted_tool_calls(&response),
        HostedToolCallScan::ContainsUnsupportedToolCalls
    );
}

#[test]
fn project_hosted_web_search_to_responses_function() {
    let mut request = json(
        r#"{
        "tools": [
            {"type":"web_search","external_web_access":true,"search_content_types":["text"]},
            {"type":"function","name":"shell","parameters":{"type":"object"}}
        ]
    }"#,
    );

    let config =
        project_hosted_tools_for_responses_request(&mut request, true, &web_search_definition());

    assert!(config.web_search.is_some());
    let request = from_library(&request);
    assert_eq!(request["tools"][0]["type"], "function");
    assert_eq!(request["tools"][0]["name"], "web_search");
    assert_eq!(request["tools"][1]["name"], "shell");
    assert_eq!(
        config.web_search.unwrap().declaration,
        json(r#"{"type":"web_search","external_web_access":true,"search_content_types":["text"]}"#)
    );
}

#[test]
fn project_explicit_web_search_choice_to_function_choice() {
    let mut request = json(
        r#"{
        "tools": [{"type":"web_search"}],
        "tool_choice": {"type":"web_search"}
    }"#,
    );

    let config =
        project_hosted_tools_for_responses_request(&mut request, true, &web_search_definition());

    assert!(config.web_search.is_some());
    let request = from_library(&request);
    assert_eq!(request["tool_choice"]["type"], "function");
    assert_eq!(request["tool_choice"]["name"], "web_search");
}

#[test]
fn project_disabled_native_hosted_tools_are_omitted() {
    let mut request = json(
        r#"{
        "tools": [
            {"type":"web_search"},
            {"type":"image_generation"},
            {"type":"function","name":"shell","parameters":{"type":"object"}}
        ],
        "tool_choice": {"type":"web_search"}
    }"#,
    );

    let config =
        project_hosted_tools_for_responses_request(&mut request, false, &web_search_definition());

    assert!(config.is_empty());
    let request = from_library(&request);
    assert_eq!(request["tools"].as_array().unwrap().len(), 1);
    assert_eq!(request["tools"][0]["name"], "shell");
    assert_eq!(request["tool_choice"], "auto");
}

#[test]
fn project_allowed_tools_rewrites_hosted_search_and_drops_unowned_image() {
    let mut request = json(
        r#"{
        "tools": [
            {"type":"web_search"},
            {"type":"image_generation"},
            {"type":"function","name":"shell","parameters":{"type":"object"}}
        ],
        "tool_choice": {
            "type":"allowed_tools",
            "mode":"auto",
            "tools":[
                {"type":"web_search"},
                {"type":"image_generation"},
                {"type":"function","name":"shell"}
            ]
        }
    }"#,
    );

    let config =
        project_hosted_tools_for_responses_request(&mut request, true, &web_search_definition());

    assert!(config.web_search.is_some());
    let request = from_library(&request);
    assert_eq!(request["tool_choice"]["type"], "allowed_tools");
    assert_eq!(request["tool_choice"]["tools"].as_array().unwrap().len(), 2);
    assert_eq!(request["tool_choice"]["tools"][0]["type"], "function");
    assert_eq!(request["tool_choice"]["tools"][0]["name"], "web_search");
    assert_eq!(request["tool_choice"]["tools"][1]["name"], "shell");
}

#[test]
fn project_empty_allowed_tools_downgrades_to_auto() {
    let mut request = json(
        r#"{
        "tools": [{"type":"web_search"}],
        "tool_choice": {
            "type":"allowed_tools",
            "mode":"auto",
            "tools":[{"type":"web_search"}]
        }
    }"#,
    );

    let config =
        project_hosted_tools_for_responses_request(&mut request, false, &web_search_definition());

    assert!(config.is_empty());
    let request = from_library(&request);
    assert!(request.get("tools").is_none());
    assert_eq!(request["tool_choice"], "auto");
}

#[test]
fn relax_required_choice_after_hosted_round() {
    let mut request = json(r#"{"tool_choice":"required"}"#);
    let config = web_search_config();

    relax_hosted_tool_choice_for_responses_request(&mut request, &config);

    assert_eq!(from_library(&request)["tool_choice"], "auto");
}

#[test]
fn relax_required_allowed_tools_after_hosted_round() {
    let mut request = json(
        r#"{
        "tool_choice": {
            "type":"allowed_tools",
            "mode":"required",
            "tools":[
                {"type":"function","name":"web_search"},
                {"type":"function","name":"shell"}
            ]
        }
    }"#,
    );
    let config = web_search_config();

    relax_hosted_tool_choice_for_responses_request(&mut request, &config);

    let request = from_library(&request);
    assert_eq!(request["tool_choice"]["mode"], "auto");
    assert_eq!(request["tool_choice"]["tools"].as_array().unwrap().len(), 2);
}

#[test]
fn normalize_responses_hosted_input_wraps_object_and_absent() {
    let mut object_request = json(
        r#"{
        "input": {"role":"user","content":[{"type":"input_text","text":"hello"}]}
    }"#,
    );
    assert!(normalize_responses_input_for_hosted_continuation(
        &mut object_request
    ));
    let object_request = from_library(&object_request);
    assert_eq!(object_request["input"].as_array().unwrap().len(), 1);
    assert_eq!(object_request["input"][0]["role"], "user");

    let mut absent_request = json("{}");
    assert!(normalize_responses_input_for_hosted_continuation(
        &mut absent_request
    ));
    assert_eq!(absent_request, json(r#"{"input":[]}"#));
}

#[test]
fn strip_projected_hosted_calls_preserves_client_calls() {
    let config = web_search_config();
    let mut response = json(
        r#"{
        "output": [
            {"type":"function_call","call_id":"search","name":"web_search","arguments":"{}"},
            {"type":"custom_tool_call","call_id":"patch","name":"apply_patch","input":"x"}
        ]
    }"#,
    );

    assert_eq!(
        remove_projected_hosted_function_calls_from_responses_response(&mut response, &config),
        1
    );
    let response = from_library(&response);
    assert_eq!(response["output"].as_array().unwrap().len(), 1);
    assert_eq!(response["output"][0]["type"], "custom_tool_call");
}

#[test]
fn append_responses_hosted_output_normalizes_string_input() {
    let mut request = json(r#"{"input":"hello"}"#);
    let response = json(
        r#"{
        "output":[{
            "type":"function_call",
            "call_id":"call_search",
            "name":"web_search",
            "arguments":"{}"
        }]
    }"#,
    );

    assert!(append_tool_outputs_to_responses_request(
        &mut request,
        &response,
        vec![json(
            r#"{
            "role":"tool",
            "tool_call_id":"call_search",
            "content":"{}"
        }"#
        )],
    ));

    let request = from_library(&request);
    let input = request["input"]
        .as_array()
        .expect("normalized Responses input");
    assert_eq!(input[0]["role"], "user");
    assert_eq!(input[0]["content"][0]["type"], "input_text");
    assert_eq!(input[0]["content"][0]["text"], "hello");
    assert_eq!(input[1]["type"], "function_call");
    assert_eq!(input[2]["type"], "function_call_output");
}

#[test]
fn scan_responses_hosted_web_search_call() {
    let config = web_search_config();
    let response = json(
        r#"{
        "output": [{
            "type":"function_call",
            "call_id":"call_search",
            "name":"web_search",
            "arguments":"{\"query\":\"Codex\"}"
        }]
    }"#,
    );

    assert_eq!(
        scan_responses_hosted_tool_calls(&response, &config),
        ResponsesHostedToolCallScan::OnlyHosted(vec![HostedToolCall {
            kind: HostedToolCallKind::WebSearch,
            id: "call_search".to_string(),
            arguments: "{\"query\":\"Codex\"}".to_string()
        }])
    );
}

#[test]
fn scan_responses_hosted_calls_detects_mixed_client_tool_ownership() {
    let config = web_search_config();
    for client_item in [
        r#"{
            "type":"function_call",
            "call_id":"call_shell",
            "name":"shell",
            "arguments":"{}"
        }"#,
        r#"{
            "type":"custom_tool_call",
            "call_id":"call_patch",
            "name":"apply_patch",
            "input":"*** Begin Patch"
        }"#,
        r#"{
            "type":"tool_search_call",
            "call_id":"call_tool_search",
            "arguments":"{}"
        }"#,
        r#"{
            "type":"local_shell_call",
            "call_id":"call_shell",
            "command":"pwd"
        }"#,
        r#"{
            "type":"mcp_tool_call",
            "call_id":"call_mcp",
            "name":"lookup"
        }"#,
        r#"{
            "type":"future_tool_call",
            "call_id":"call_future"
        }"#,
    ] {
        let response = json(&format!(
            r#"{{
            "output": [
                {{
                    "type":"function_call",
                    "call_id":"call_search",
                    "name":"web_search",
                    "arguments":"{{\"query\":\"Codex\"}}"
                }},
                {client_item}
            ]
        }}"#
        ));

        assert_eq!(
            scan_responses_hosted_tool_calls(&response, &config),
            ResponsesHostedToolCallScan::MixedHostedAndClientToolCalls
        );
    }
}

#[test]
fn scan_responses_client_tool_only_is_pass_through() {
    let config = web_search_config();
    let response = json(
        r#"{
        "output": [{
            "type":"custom_tool_call",
            "call_id":"call_patch",
            "name":"apply_patch",
            "input":"*** Begin Patch"
        }]
    }"#,
    );

    assert_eq!(
        scan_responses_hosted_tool_calls(&response, &config),
        ResponsesHostedToolCallScan::OnlyClientToolCalls
    );
}

#[test]
fn relax_responses_hosted_tool_choice_after_first_round() {
    let mut request = json(
        r#"{
        "tool_choice": {"type":"function","name":"web_search"}
    }"#,
    );
    let config = web_search_config();

    relax_hosted_tool_choice_for_responses_request(&mut request, &config);

    assert_eq!(from_library(&request)["tool_choice"], "auto");
}

#[test]
fn append_responses_hosted_output_does_not_replay_client_owned_calls() {
    let mut request = json(r#"{"input":[]}"#);
    let response = json(
        r#"{
        "output": [
            {
                "type":"custom_tool_call",
                "call_id":"call_patch",
                "name":"apply_patch",
                "input":"*** Begin Patch"
            },
            {
                "type":"tool_search_call",
                "call_id":"call_tool_search",
                "arguments":"{}"
            },
            {
                "type":"function_call",
                "call_id":"call_search",
                "name":"web_search",
                "arguments":"{}"
            }
        ]
    }"#,
    );

    assert!(append_tool_outputs_to_responses_request(
        &mut request,
        &response,
        vec![json(
            r#"{
            "role":"tool",
            "tool_call_id":"call_search",
            "content":"{}"
        }"#
        )],
    ));

    let request = from_library(&request);
    let input = request["input"].as_array().expect("responses input");
    assert_eq!(input.len(), 2);
    assert_eq!(input[0]["type"], "function_call");
    assert_eq!(input[0]["call_id"], "call_search");
    assert_eq!(input[1]["type"], "function_call_output");
    assert_eq!(input[1]["call_id"], "call_search");
}

#[test]
fn append_responses_hosted_output_replays_call_and_result() {
    let mut request = json(
        r#"{
        "input":[{"role":"user","content":[{"type":"input_text","text":"Search."}]}]
    }"#,
    );
    let response = json(
        r#"{
        "output":[{
            "type":"function_call",
            "id":"fc_1",
            "call_id":"call_search",
            "name":"web_search",
            "arguments":"{\"query\":\"Codex\"}"
        }]
    }"#,
    );

    assert!(append_tool_outputs_to_responses_request(
        &mut request,
        &response,
        vec![json(
            r#"{
            "role":"tool",
            "tool_call_id":"call_search",
            "content":"{\"summary\":\"ok\"}"
        }"#
        )],
    ));

    let request = from_library(&request);
    assert_eq!(request["input"][1]["type"], "function_call");
    assert_eq!(request["input"][2]["type"], "function_call_output");
    assert_eq!(request["input"][2]["call_id"], "call_search");
    assert_eq!(request["stream"], false);
}

#[test]
fn append_responses_hosted_output_injects_fallback_call_id() {
    let mut request = json(r#"{"input":[]}"#);
    let response = json(
        r#"{
        "output":[{
            "type":"function_call",
            "id":"fc_search",
            "name":"web_search",
            "arguments":"{}"
        }]
    }"#,
    );

    assert!(append_tool_outputs_to_responses_request(
        &mut request,
        &response,
        vec![json(
            r#"{
            "role":"tool",
            "tool_call_id":"fc_search",
            "content":"{}"
        }"#
        )],
    ));

    let request = from_library(&request);
    assert_eq!(request["input"][0]["call_id"], "fc_search");
    assert_eq!(request["input"][1]["call_id"], "fc_search");
}

#[test]
fn append_tool_outputs_to_chat_request_adds_assistant_and_tool_messages() {
    let mut request = json(
        r#"{
        "model": "deepseek-v4-flash",
        "messages": [{"role": "user", "content": "Generate."}],
        "stream": true,
        "stream_options": {"include_usage": true}
    }"#,
    );
    let response = json(
        r#"{
        "choices": [{
            "message": {
                "role": "assistant",
                "tool_calls": [{
                    "id": "call_image",
                    "type": "function",
                    "function": {"name": "generate_image", "arguments": "{}"}
                }]
            }
        }]
    }"#,
    );

    assert!(append_tool_outputs_to_chat_request(
        &mut request,
        &response,
        vec![json(
            r#"{
            "role": "tool",
            "tool_call_id": "call_image",
            "content": "{}"
        }"#
        )],
    ));
    let request = from_library(&request);
    assert_eq!(request["messages"].as_array().unwrap().len(), 3);
    assert_eq!(request["stream"], false);
    assert!(request.get("stream_options").is_none());
}

#[test]
fn projected_request_declares_no_hosted_tool() {
    let mut request = json(
        r#"{"tools":[{"type":"image_generation"}],"tool_choice":{"type":"image_generation"}}"#,
    );
    let config =
        project_hosted_tools_for_responses_request(&mut request, true, &web_search_definition());
    assert!(config.is_empty());
    assert_eq!(request, json(r#"{"tool_choice":"auto"}"#));
    // Without tools a choice stays as it is, but for a choice among none.
    let mut choice = json(r#"{"tool_choice":{"type":"web_search"}}"#);
    project_hosted_tools_for_responses_request(&mut choice, true, &web_search_definition());
    assert_eq!(choice, json(r#"{"tool_choice":{"type":"web_search"}}"#));
    let mut empty = json(r#"{"tool_choice":{"type":"allowed_tools","tools":[]}}"#);
    project_hosted_tools_for_responses_request(&mut empty, true, &web_search_definition());
    assert_eq!(empty, json(r#"{"tool_choice":"auto"}"#));
}

#[test]
fn relaxed_choice_stays_relaxed() {
    let config = web_search_config();
    let mut request = json(
        r#"{"tool_choice":{"type":"allowed_tools","mode":"required","tools":[{"type":"web_search"}]}}"#,
    );
    relax_hosted_tool_choice_for_responses_request(&mut request, &config);
    let once = request.copy();
    relax_hosted_tool_choice_for_responses_request(&mut request, &config);
    assert_eq!(request, once);
    // A client's function stays forced.
    let mut client = json(r#"{"tool_choice":{"type":"function","name":"shell"}}"#);
    relax_hosted_tool_choice_for_responses_request(&mut client, &config);
    assert_eq!(
        client,
        json(r#"{"tool_choice":{"type":"function","name":"shell"}}"#)
    );
}

#[test]
fn disabling_takes_hosted_functions_out() {
    let config = web_search_config();
    let mut request = json(
        r#"{"tools":[{"type":"function","name":"web_search"},{"type":"function"}],"tool_choice":"required"}"#,
    );
    disable_projected_hosted_functions_for_responses_request(&mut request, &config);
    assert_eq!(
        request,
        json(r#"{"tools":[{"type":"function"}],"tool_choice":"auto"}"#)
    );
    let mut only = json(r#"{"tools":[{"type":"function","name":"web_search"}]}"#);
    disable_projected_hosted_functions_for_responses_request(&mut only, &config);
    assert_eq!(only, json(r#"{"tool_choice":"auto"}"#));
    let mut null = JsonValue::null();
    disable_projected_hosted_functions_for_responses_request(&mut null, &config);
    assert_eq!(null, json(r#"{"tool_choice":"auto"}"#));
}

#[test]
fn hosted_call_without_id_is_invalid() {
    let config = web_search_config();
    let response = json(
        r#"{"output":[
            {"type":"custom_tool_call"},
            {"type":"function_call","name":"web_search","call_id":""}
        ]}"#,
    );
    assert_eq!(
        scan_responses_hosted_tool_calls(&response, &config),
        ResponsesHostedToolCallScan::InvalidHostedToolCall
    );
    assert_eq!(
        scan_responses_hosted_tool_calls(&json("{}"), &config),
        ResponsesHostedToolCallScan::NoToolCalls
    );
    assert_eq!(
        scan_responses_hosted_tool_calls(
            &json(r#"{"output":[{"type":"message"},{"type":"call"}]}"#),
            &config
        ),
        ResponsesHostedToolCallScan::NoToolCalls
    );
}

#[test]
fn image_calls_are_hosted_only_where_they_run() {
    assert!(hosted_function_is_enabled("web_search", &web_search_config()));
    assert!(!hosted_function_is_enabled(
        "generate_image",
        &web_search_config()
    ));
    assert!(!hosted_function_is_enabled("", &web_search_config()));
    assert_eq!(
        HostedToolCallKind::from_function_name("generate_image"),
        Some(HostedToolCallKind::ImageGeneration)
    );
    assert_eq!(
        HostedToolCallKind::ImageGeneration.function_name(),
        "generate_image"
    );
}

#[test]
fn continuation_stops_at_a_message_without_call() {
    let mut request = json(r#"{"input":[]}"#);
    let response = json(r#"{"output":[{"type":"reasoning","id":"r"}]}"#);
    assert!(!append_tool_outputs_to_responses_request(
        &mut request,
        &response,
        vec![
            json(r#"{"tool_call_id":"a"}"#),
            json(r#"{"content":"x"}"#),
            json(r#"{"tool_call_id":"b"}"#),
        ],
    ));
    assert_eq!(
        request,
        json(
            r#"{"input":[
            {"type":"reasoning","id":"r"},
            {"type":"function_call_output","call_id":"a","output":""}
        ]}"#
        )
    );
    let mut number = json(r#"{"input":7}"#);
    assert!(!append_tool_outputs_to_responses_request(
        &mut number,
        &response,
        Vec::new()
    ));
    assert_eq!(number, json(r#"{"input":7}"#));
    let mut no_output = json("{}");
    assert!(!append_tool_outputs_to_responses_request(
        &mut no_output,
        &json("{}"),
        Vec::new()
    ));
    assert_eq!(no_output, json(r#"{"input":[]}"#));
}

#[test]
fn answered_response_is_continued() {
    let config = web_search_config();
    let response = json(
        r#"{"output":[{"type":"function_call","name":"web_search","id":"c1","arguments":"{}"}]}"#,
    );
    let calls = match scan_responses_hosted_tool_calls(&response, &config) {
        ResponsesHostedToolCallScan::OnlyHosted(calls) => calls,
        other => panic!("{other:?}"),
    };
    let messages = hosted_tool_messages(&calls, &vec!["found".to_string()]);
    assert_eq!(
        messages,
        vec![json(
            r#"{"role":"tool","tool_call_id":"c1","content":"found"}"#
        )]
    );
    let mut request = JsonValue::null();
    assert!(append_tool_outputs_to_responses_request(
        &mut request,
        &response,
        messages
    ));
    assert_eq!(
        request,
        json(
            r#"{"input":[
            {"type":"function_call","name":"web_search","id":"c1","call_id":"c1","arguments":"{}"},
            {"type":"function_call_output","call_id":"c1","output":"found"}
        ],"stream":false}"#
        )
    );
}

#[test]
fn dropped_calls_are_not_found_again() {
    let config = web_search_config();
    let mut response = json(
        r#"{"output":[
            {"type":"function_call","name":"web_search","call_id":"a"},
            {"type":"function_call","name":"shell","call_id":"b"}
        ]}"#,
    );
    assert_eq!(
        remove_projected_hosted_function_calls_from_responses_response(&mut response, &config),
        1
    );
    assert_eq!(
        scan_responses_hosted_tool_calls(&response, &config),
        ResponsesHostedToolCallScan::OnlyClientToolCalls
    );
    let mut none = json("{}");
    assert_eq!(
        remove_projected_hosted_function_calls_from_responses_response(&mut none, &config),
        0
    );
}

#[test]
fn chat_scan_reads_function_calls_and_invents_ids() {
    let scan = |message: &str| {
        scan_hosted_tool_calls(&json(&format!(
            r#"{{"choices":[{{"message":{message}}}]}}"#
        )))
    };
    assert_eq!(
        scan(r#"{"function_call":{"name":"web_search"}}"#),
        HostedToolCallScan::OnlyHosted(vec![HostedToolCall {
            kind: HostedToolCallKind::WebSearch,
            id: "call_0".to_string(),
            arguments: "{}".to_string()
        }])
    );
    assert_eq!(
        scan(r#"{"function_call":{}}"#),
        HostedToolCallScan::NoToolCalls
    );
    assert_eq!(
        scan(r#"{"function_call":{"name":"shell"}}"#),
        HostedToolCallScan::ContainsUnsupportedToolCalls
    );
    assert_eq!(
        scan(r#"{"tool_calls":[]}"#),
        HostedToolCallScan::NoToolCalls
    );
    assert_eq!(
        scan(
            r#"{"tool_calls":[{"id":"x","function":{"name":"web_search"}},{"id":"","function":{"name":"web_search"}}]}"#
        ),
        HostedToolCallScan::OnlyHosted(vec![
            HostedToolCall {
                kind: HostedToolCallKind::WebSearch,
                id: "x".to_string(),
                arguments: "{}".to_string()
            },
            HostedToolCall {
                kind: HostedToolCallKind::WebSearch,
                id: "call_1".to_string(),
                arguments: "{}".to_string()
            }
        ])
    );
    assert_eq!(
        scan_hosted_tool_calls(&json(r#"{"choices":[]}"#)),
        HostedToolCallScan::NoToolCalls
    );
}

#[test]
fn chat_request_without_messages_is_left_alone() {
    let response = json(r#"{"choices":[{"message":{"role":"assistant"}}]}"#);
    let mut request = json(r#"{"stream":true}"#);
    assert!(!append_tool_outputs_to_chat_request(
        &mut request,
        &response,
        Vec::new()
    ));
    assert_eq!(request, json(r#"{"stream":true}"#));
    let mut with_messages = json(r#"{"messages":[]}"#);
    assert!(!append_tool_outputs_to_chat_request(
        &mut with_messages,
        &json("{}"),
        Vec::new()
    ));
    assert_eq!(with_messages, json(r#"{"messages":[]}"#));
}

#[test]
fn error_messages_answer_every_call() {
    let calls = vec![HostedToolCall {
        kind: HostedToolCallKind::WebSearch,
        id: "c".to_string(),
        arguments: "{}".to_string(),
    }];
    assert_eq!(
        hosted_tool_error_messages(&calls, "too \"many\" rounds"),
        vec![json(
            r#"{"role":"tool","tool_call_id":"c","content":"{\"error\":\"too \\\"many\\\" rounds\"}"}"#
        )]
    );
}

#[test]
fn error_text_is_one_short_line() {
    assert_eq!(safe_error_message("  a\n\tb  c "), "a b c");
    assert_eq!(safe_error_message(""), "");
    let long = "é".repeat(501);
    let cut = safe_error_message(&long);
    assert_eq!(cut.chars().count(), 503);
    assert!(cut.ends_with("é..."));
    assert_eq!(safe_error_message(&"x".repeat(500)), "x".repeat(500));
}

#[test]
fn hosted_call_is_planned_by_configuration_client_and_subject() {
    assert_eq!(
        plan_hosted_tool_call(HostedToolCallKind::WebSearch, None, Some("no key")),
        HostedToolPlan::Unconfigured {
            message: "web_search hosted tool is not configured for this request".to_string()
        }
    );
    assert_eq!(
        plan_hosted_tool_call(HostedToolCallKind::ImageGeneration, None, None),
        HostedToolPlan::Unconfigured {
            message: "image_generation hosted tool is not configured for this request".to_string()
        }
    );
    assert_eq!(
        plan_hosted_tool_call(HostedToolCallKind::WebSearch, Some(" "), Some("no \n key")),
        HostedToolPlan::Refuse {
            status: "not_configured".to_string(),
            message: "no key".to_string()
        }
    );
    assert_eq!(
        plan_hosted_tool_call(HostedToolCallKind::WebSearch, Some(" \u{2003}"), None),
        HostedToolPlan::Refuse {
            status: "invalid".to_string(),
            message: "web_search query is empty".to_string()
        }
    );
    assert_eq!(
        plan_hosted_tool_call(HostedToolCallKind::ImageGeneration, Some(""), None),
        HostedToolPlan::Refuse {
            status: "invalid".to_string(),
            message: "image_generation prompt is empty".to_string()
        }
    );
    assert_eq!(
        plan_hosted_tool_call(HostedToolCallKind::WebSearch, Some("q"), None),
        HostedToolPlan::Run
    );
    assert_eq!(
        conclude_hosted_tool_call(Some("a  b")),
        ("error".to_string(), Some("a b".to_string()))
    );
    assert_eq!(conclude_hosted_tool_call(None), ("ok".to_string(), None));
}

#[test]
fn events_are_recorded_for_traced_requests() {
    assert_eq!(
        log_hosted_tool_event(None, "web_search", "h", "ok", 5, None),
        None
    );
    let field = |name: &str, value: &str| (name.to_string(), value.to_string());
    let event = log_hosted_tool_event(Some("t"), "web_search", "h", "error", 1234, Some("e"))
        .expect("traced");
    assert_eq!(event.name, "hosted_tool_call");
    assert_eq!(
        event.fields,
        vec![
            field("trace", "t"),
            field("tool", "web_search"),
            field("query_hash", "h"),
            field("status", "error"),
            field("elapsed_ms", "1234"),
            field("error", "e"),
        ]
    );
    let event =
        log_hosted_tool_not_called(Some("t"), "s", "m", "p", "web_search", true).expect("traced");
    assert_eq!(event.name, "hosted_tool_not_called");
    assert_eq!(
        event.fields,
        vec![
            field("trace", "t"),
            field("session", "s"),
            field("model", "m"),
            field("provider", "p"),
            field("tool", "web_search"),
            field("status", "not_called"),
            field(
                "reason",
                "upstream_returned_success_without_hosted_tool_call"
            ),
            field("streaming", "true"),
        ]
    );
    assert!(log_hosted_tool_not_called(None, "s", "m", "p", "w", false).is_none());
}

#[test]
fn projecting_or_cutting_twice_changes_nothing_more() {
    for text in [
        r#"{"tools":[{"type":"web_search"},{"type":"image_generation"}],"tool_choice":{"type":"web_search"}}"#,
        r#"{"tools":[{"type":"image_generation"}],"tool_choice":{"type":"allowed_tools","tools":[{"type":"image_generation"}]}}"#,
        r#"{"tool_choice":{"type":"allowed_tools","tools":[{"type":"web_search"}]}}"#,
    ] {
        for enabled in [true, false] {
            let mut once = json(text);
            project_hosted_tools_for_responses_request(
                &mut once,
                enabled,
                &web_search_definition(),
            );
            let mut twice = once.clone();
            project_hosted_tools_for_responses_request(
                &mut twice,
                enabled,
                &web_search_definition(),
            );
            assert_eq!(twice, once);
        }
    }
    let long = "word \n\t".repeat(200);
    let cut = safe_error_message(&long);
    assert_eq!(cut.chars().count(), 503);
    assert_eq!(safe_error_message(&cut), cut);
    assert_eq!(safe_error_message(" a \n b "), "a b");
}
