use codex_bridge::errors::ProxyError;
use codex_bridge::json::{JsonNumber, JsonValue};
use codex_bridge::multi_agent::{
    agent_replay_context, context_from_metadata, is_new_task_for_agent,
    looks_like_codex_fernet_content, looks_like_codex_opaque_encrypted_content,
    opaque_given_decodings, project_codex_agent_messages_for_third_party, AgentReplayContext,
};
use codex_bridge::text_map::TextMap;

use base64::engine::general_purpose::URL_SAFE_NO_PAD;
use base64::Engine;

fn to_library(value: &serde_json::Value) -> JsonValue {
    match value {
        serde_json::Value::Null => JsonValue::null(),
        serde_json::Value::Bool(b) => JsonValue::truth(*b),
        serde_json::Value::Number(n) => JsonValue::number(match n.as_i64() {
            Some(i) => JsonNumber::Integer(i as i128),
            None => JsonNumber::Float(n.to_string()),
        }),
        serde_json::Value::String(s) => JsonValue::text(s),
        serde_json::Value::Array(items) => {
            JsonValue::array(items.iter().map(to_library).collect())
        }
        serde_json::Value::Object(fields) => {
            let mut map = TextMap::new();
            for (key, item) in fields {
                map.insert(key.clone(), to_library(item));
            }
            JsonValue::object(map)
        }
    }
}

fn from_library(value: &JsonValue) -> serde_json::Value {
    match value {
        JsonValue::Null => serde_json::Value::Null,
        JsonValue::Bool(b) => serde_json::Value::Bool(*b),
        JsonValue::Number(JsonNumber::Integer(i)) => serde_json::Value::from(*i as i64),
        JsonValue::Number(JsonNumber::Float(f)) => serde_json::from_str(f).unwrap(),
        JsonValue::Text(s) => serde_json::Value::String(s.clone()),
        JsonValue::Array(items) => {
            serde_json::Value::Array(items.iter().map(from_library).collect())
        }
        JsonValue::Object(map) => {
            let mut fields = serde_json::Map::new();
            for i in 0..map.len() {
                let (key, item) = map.entry(i);
                fields.insert(key.clone(), from_library(item));
            }
            serde_json::Value::Object(fields)
        }
    }
}

fn json(text: &str) -> JsonValue {
    to_library(&serde_json::from_str(text).unwrap())
}

fn fernet() -> String {
    let mut fernet_token = vec![0_u8; 96];
    fernet_token[0] = 0x80;
    URL_SAFE_NO_PAD.encode(fernet_token)
}

#[test]
fn projects_plaintext_agent_message_to_standard_user_message() {
    let task = "Message Type: NEW_TASK\nTask name: /root/qwen\nSender: /root\nPayload:\nNONCE_7F3 read Cargo.toml";
    let mut request = json(
        r#"{
        "input": [
            {
                "type": "message",
                "role": "developer",
                "content": [{"type": "input_text", "text": "keep"}]
            },
            {
                "type": "agent_message",
                "author": "/root",
                "recipient": "/root/qwen",
                "content": [{"type": "input_text", "text": "Message Type: NEW_TASK\nTask name: /root/qwen\nSender: /root\nPayload:\nNONCE_7F3 read Cargo.toml"}]
            }
        ]
    }"#,
    );

    let changed = project_codex_agent_messages_for_third_party(&mut request, false).unwrap();

    assert_eq!(changed, 1);
    let request = from_library(&request);
    assert_eq!(request["input"][0]["role"], "developer");
    assert_eq!(request["input"][1]["content"][0]["text"], task);
    assert_eq!(
        to_library(&request["input"][1]),
        json(
            r#"{
            "type": "message",
            "role": "user",
            "content": [{"type": "input_text", "text": "Message Type: NEW_TASK\nTask name: /root/qwen\nSender: /root\nPayload:\nNONCE_7F3 read Cargo.toml"}]
        }"#
        )
    );
}

#[test]
fn recovers_legacy_plaintext_mislabeled_as_encrypted_content() {
    let mut request = json(
        r#"{
        "input": [{
            "type": "agent_message",
            "author": "/root/worker",
            "recipient": "/root",
            "content": [
                {"type": "input_text", "text": "Message Type: FINAL_ANSWER\nPayload:\n"},
                {"type": "encrypted_content", "encrypted_content": "已完成，结果为 42。"}
            ]
        }]
    }"#,
    );

    let changed = project_codex_agent_messages_for_third_party(&mut request, false).unwrap();

    assert_eq!(changed, 1);
    let request = from_library(&request);
    assert_eq!(request["input"][0]["type"], "message");
    assert_eq!(request["input"][0]["role"], "user");
    assert_eq!(
        to_library(&request["input"][0]["content"]),
        json(
            r#"[
            {"type": "input_text", "text": "Message Type: FINAL_ANSWER\nPayload:\n"},
            {"type": "input_text", "text": "已完成，结果为 42。"}
        ]"#
        )
    );
}

#[test]
fn rejects_opaque_agent_ciphertext_without_echoing_it() {
    let opaque = fernet();
    assert!(
        opaque.starts_with("gAAAAA"),
        "fixture must match the live Fernet prefix"
    );
    let mut request = json(&format!(
        r#"{{
        "input": [{{
            "type": "agent_message",
            "author": "/root",
            "recipient": "/root/deepseek",
            "content": [
                {{"type": "input_text", "text": "Message Type: NEW_TASK\nTask name: /root/deepseek\nSender: /root\nPayload:\n"}},
                {{"type": "encrypted_content", "encrypted_content": "{opaque}"}}
            ]
        }}]
    }}"#
    ));

    let error = project_codex_agent_messages_for_third_party(&mut request, false)
        .expect_err("opaque OpenAI task content must fail closed");
    let message = error.message();

    assert!(message.contains("third-party child cannot read opaque Codex agent payload"));
    assert!(!message.contains(&opaque));
}

#[test]
fn root_thread_drops_historical_opaque_agent_message() {
    let opaque = fernet();
    let mut request = json(&format!(
        r#"{{
        "client_metadata": {{
            "x-codex-turn-metadata":
                "{{\"agent_name\":\"/root\",\"thread_source\":\"user\"}}"
        }},
        "input": [
            {{
                "type": "agent_message",
                "author": "/root",
                "recipient": "/root/old-worker",
                "content": [
                    {{
                        "type": "input_text",
                        "text": "Message Type: NEW_TASK\nTask name: /root/old-worker\nSender: /root\nPayload:\n"
                    }},
                    {{
                        "type": "encrypted_content",
                        "encrypted_content": "{opaque}"
                    }}
                ]
            }},
            {{
                "type": "message",
                "role": "user",
                "content": [{{
                    "type": "input_text",
                    "text": "continue on kimi"
                }}]
            }}
        ]
    }}"#
    ));

    let changed = project_codex_agent_messages_for_third_party(&mut request, false).unwrap();

    assert_eq!(changed, 0);
    let request = from_library(&request);
    assert_eq!(request["input"].as_array().unwrap().len(), 1);
    assert_eq!(request["input"][0]["role"], "user");
    assert!(!request.to_string().contains(&opaque));
}

#[test]
fn subagent_drops_old_opaque_task_but_keeps_latest_plaintext_task() {
    let opaque = fernet();
    let current_task =
        "Message Type: NEW_TASK\nTask name: /root/worker\nSender: /root\nPayload:\ncurrent task";
    let mut request = json(&format!(
        r#"{{
        "client_metadata": {{
            "x-codex-turn-metadata":
                "{{\"agent_name\":\"/root/worker\",\"thread_source\":\"subagent\",\"subagent_kind\":\"thread_spawn\"}}"
        }},
        "input": [
            {{
                "type": "agent_message",
                "author": "/root",
                "recipient": "/root/worker",
                "content": [
                    {{
                        "type": "input_text",
                        "text": "Message Type: NEW_TASK\nTask name: /root/worker\nSender: /root\nPayload:\n"
                    }},
                    {{
                        "type": "encrypted_content",
                        "encrypted_content": "{opaque}"
                    }}
                ]
            }},
            {{
                "type": "message",
                "role": "assistant",
                "content": [{{
                    "type": "output_text",
                    "text": "some replayed history"
                }}]
            }},
            {{
                "type": "agent_message",
                "author": "/root",
                "recipient": "/root/worker",
                "content": [{{
                    "type": "input_text",
                    "text": "Message Type: NEW_TASK\nTask name: /root/worker\nSender: /root\nPayload:\ncurrent task"
                }}]
            }}
        ]
    }}"#
    ));

    let changed = project_codex_agent_messages_for_third_party(&mut request, false).unwrap();

    assert_eq!(changed, 1);
    let request = from_library(&request);
    assert_eq!(request["input"].as_array().unwrap().len(), 2);
    assert!(!request.to_string().contains(&opaque));

    assert_eq!(request["input"][1]["type"], "message");
    assert_eq!(request["input"][1]["role"], "user");
    assert_eq!(request["input"][1]["content"][0]["text"], current_task);
}

#[test]
fn subagent_still_rejects_opaque_current_new_task() {
    let opaque = fernet();
    let mut request = json(&format!(
        r#"{{
        "client_metadata": {{
            "x-codex-turn-metadata":
                "{{\"agent_name\":\"/root/worker\",\"thread_source\":\"subagent\",\"subagent_kind\":\"thread_spawn\"}}"
        }},
        "input": [{{
            "type": "agent_message",
            "author": "/root",
            "recipient": "/root/worker",
            "content": [
                {{
                    "type": "input_text",
                    "text": "Message Type: NEW_TASK\nTask name: /root/worker\nSender: /root\nPayload:\n"
                }},
                {{
                    "type": "encrypted_content",
                    "encrypted_content": "{opaque}"
                }}
            ]
        }}]
    }}"#
    ));

    let error = project_codex_agent_messages_for_third_party(&mut request, false)
        .expect_err("the active child task must remain fail-closed");

    assert!(error
        .message()
        .contains("third-party child cannot read opaque Codex agent payload"));
    assert!(!error.message().contains(&opaque));
}

#[test]
fn managed_plaintext_policy_accepts_base64_like_task_payload() {
    let base64_task = base64::engine::general_purpose::STANDARD.encode([42_u8; 48]);
    assert!(looks_like_codex_opaque_encrypted_content(&base64_task));
    let mut request = json(&format!(
        r#"{{
        "input": [{{
            "type": "agent_message",
            "author": "/root",
            "recipient": "/root/qwen",
            "content": [
                {{
                    "type": "input_text",
                    "text": "Message Type: NEW_TASK\nTask name: /root/qwen\nSender: /root\nPayload:\n"
                }},
                {{"type": "encrypted_content", "encrypted_content": "{base64_task}"}}
            ]
        }}]
    }}"#
    ));

    let changed = project_codex_agent_messages_for_third_party(
        &mut request,
        /* managed_plaintext_policy */ true,
    )
    .expect("the managed mixed-router path already proved the payload is plaintext");

    assert_eq!(changed, 1);
    let request = from_library(&request);
    assert_eq!(
        to_library(&request["input"][0]["content"][1]),
        json(&format!(
            r#"{{"type": "input_text", "text": "{base64_task}"}}"#
        ))
    );
}

#[test]
fn managed_plaintext_policy_still_rejects_known_fernet_ciphertext() {
    let opaque = fernet();
    assert!(opaque.starts_with("gAAAAA"));
    let mut request = json(&format!(
        r#"{{
        "input": [{{
            "type": "agent_message",
            "author": "/root",
            "recipient": "/root/qwen",
            "content": [
                {{
                    "type": "input_text",
                    "text": "Message Type: NEW_TASK\nTask name: /root/qwen\nSender: /root\nPayload:\n"
                }},
                {{"type": "encrypted_content", "encrypted_content": "{opaque}"}}
            ]
        }}]
    }}"#
    ));

    let error = project_codex_agent_messages_for_third_party(
        &mut request,
        /* managed_plaintext_policy */ true,
    )
    .expect_err("a known Fernet token remains unreadable even on the managed agents path");

    assert!(error
        .message()
        .contains("third-party child cannot read opaque Codex agent payload"));
    assert!(!error.message().contains(&opaque));
}

#[test]
fn opaque_content_needs_length_ascii_and_base64() {
    let standard = base64::engine::general_purpose::STANDARD;
    let url_safe = base64::engine::general_purpose::URL_SAFE;
    // 47 bytes take 64 characters with padding.
    assert!(looks_like_codex_opaque_encrypted_content(
        &standard.encode([251_u8; 47])
    ));
    assert!(looks_like_codex_opaque_encrypted_content(
        &url_safe.encode([251_u8; 47])
    ));
    assert!(looks_like_codex_opaque_encrypted_content(
        &URL_SAFE_NO_PAD.encode([251_u8; 49])
    ));
    // 45 bytes take 60 characters: too short.
    assert!(!looks_like_codex_opaque_encrypted_content(
        &standard.encode([1_u8; 45])
    ));
    // Long text that is no base64.
    assert!(!looks_like_codex_opaque_encrypted_content(
        &"a b ".repeat(20)
    ));
    // Long text that is not ASCII.
    assert!(!looks_like_codex_opaque_encrypted_content(&"é".repeat(80)));
    assert!(!looks_like_codex_fernet_content(
        &standard.encode([42_u8; 48])
    ));
    assert!(looks_like_codex_fernet_content(&fernet()));
}

#[test]
fn opaque_content_needs_one_long_decoding() {
    let long = "a".repeat(64);
    assert!(opaque_given_decodings(&long, &None, &Some(vec![0; 32]), &None));
    assert!(!opaque_given_decodings(
        &long,
        &Some(vec![0; 31]),
        &None,
        &None
    ));
    assert!(!opaque_given_decodings(
        &"a".repeat(63),
        &Some(vec![0; 32]),
        &None,
        &None
    ));
}

#[test]
fn replay_context_follows_metadata() {
    let context = |text: &str| agent_replay_context(&json(text));
    assert_eq!(context("{}"), AgentReplayContext::Unknown);
    assert_eq!(
        context(r#"{"client_metadata":{"x-codex-turn-metadata":"not json"}}"#),
        AgentReplayContext::Unknown
    );
    assert_eq!(
        context(r#"{"client_metadata":{"x-codex-turn-metadata":7}}"#),
        AgentReplayContext::Unknown
    );
    assert_eq!(
        context(r#"{"client_metadata":{"x-codex-turn-metadata":{"agent_name":"/root"}}}"#),
        AgentReplayContext::MainThread
    );
    assert_eq!(
        context(
            r#"{"client_metadata":{"x-codex-turn-metadata":{"agent_name":"","thread_source":"subagent"}}}"#
        ),
        AgentReplayContext::Unknown
    );
    assert_eq!(
        context(
            r#"{"client_metadata":{"x-codex-turn-metadata":"{\"agent_name\":\"/root/w\",\"subagent_kind\":\"thread_spawn\"}"}}"#
        ),
        AgentReplayContext::Subagent {
            agent_name: "/root/w".to_string()
        }
    );
    assert_eq!(context_from_metadata(None), AgentReplayContext::Unknown);
}

#[test]
fn new_task_needs_recipient_and_marker() {
    let item = json(
        r#"{"type":"agent_message","recipient":"/root/w","content":[
            {"type":"input_text","text":"Message Type: NEW_TASK\nrest"}]}"#,
    );
    assert!(is_new_task_for_agent(&item, "/root/w"));
    assert!(!is_new_task_for_agent(&item, "/root"));
    let other = json(
        r#"{"type":"agent_message","recipient":"/root/w","content":[
            {"type":"input_text","text":"Message Type: NEW_TASK"}]}"#,
    );
    assert!(!is_new_task_for_agent(&other, "/root/w"));
}

#[test]
fn unreadable_agent_message_is_refused() {
    for content in ["null", "[]", r#"[{"type":"encrypted_content"}]"#] {
        let mut request = json(&format!(
            r#"{{"input":[{{"type":"agent_message","content":{content}}}]}}"#
        ));
        assert_eq!(
            project_codex_agent_messages_for_third_party(&mut request, false),
            Err(ProxyError::InvalidRequest(
                "third-party child received a Codex agent message without readable content"
                    .to_string()
            ))
        );
    }
}

#[test]
fn request_without_input_is_left_alone() {
    let mut request = json(r#"{"input":"hello"}"#);
    assert_eq!(
        project_codex_agent_messages_for_third_party(&mut request, false),
        Ok(0)
    );
    assert_eq!(request, json(r#"{"input":"hello"}"#));
}

#[test]
fn failed_projection_has_projected_what_follows() {
    let mut request = json(
        r#"{"input":[
            {"type":"agent_message","content":[]},
            {"type":"agent_message","content":[{"type":"output_text","text":"later"}]}
        ]}"#,
    );
    assert!(project_codex_agent_messages_for_third_party(&mut request, false).is_err());
    assert_eq!(
        request,
        json(
            r#"{"input":[
            {"type":"agent_message","content":[]},
            {"type":"message","role":"user","content":[{"type":"input_text","text":"later"}]}
        ]}"#
        )
    );
}

#[test]
fn projecting_twice_changes_nothing() {
    let mut request = json(
        r#"{"input":[
            {"type":"agent_message","content":[
                {"type":"input_image","image_url":"x"},{"type":"unknown"}]},
            {"type":"reasoning"}
        ]}"#,
    );
    assert_eq!(
        project_codex_agent_messages_for_third_party(&mut request, false),
        Ok(1)
    );
    let once = request.copy();
    assert_eq!(
        project_codex_agent_messages_for_third_party(&mut request, true),
        Ok(0)
    );
    assert_eq!(request, once);
}
