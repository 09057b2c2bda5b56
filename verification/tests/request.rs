use codex_bridge::body_overrides::{
    apply_provider_body_overrides, apply_responses_history_replay, merge_json_override_inner,
    apply_provider_body_policy, omit_responses_reasoning_items, HistoryReplay, PolicyBody,
    ReplayedBody,
};
use codex_bridge::endpoints::{
    append_query, derive_endpoint_path, derive_full_endpoint, ends_with_version_segment,
    redacted_url, CodexRequestTransport,
};
use codex_bridge::errors::ProxyError;
use codex_bridge::http_headers::{
    apply_provider_header_overrides, ignored_override, protected_provider_override_header,
    HeaderOverride, IgnoredOverride,
};
use codex_bridge::json::{JsonNumber, JsonValue};
use codex_bridge::request_policy::{
    apply_provider_header_policy, effective_third_party_user_agent, explicit_prompt_cache_key,
    finalize_body_steps, finalize_continuation_steps, protocol_transform, CodexRequestOptions,
    CodexThirdPartyRequestPolicy, FinalizeStep, PreparedCodexRequest, ProtocolTransform,
    ProviderAuth,
    ProviderSnapshot, ToolSchemaDialect,
};
use codex_bridge::text_map::TextMap;

fn to_library(value: &serde_json::Value) -> JsonValue {
    match value {
        serde_json::Value::Null => JsonValue::null(),
        serde_json::Value::Bool(b) => JsonValue::truth(*b),
        serde_json::Value::Number(n) => JsonValue::number(match n.as_i64() {
            Some(i) => JsonNumber::Integer(i as i128),
            None => JsonNumber::Float(n.to_string()),
        }),
        serde_json::Value::String(s) => JsonValue::text(s),
        serde_json::Value::Array(items) => {
            JsonValue::array(items.iter().map(to_library).collect())
        }
        serde_json::Value::Object(fields) => {
            let mut map = TextMap::new();
            for (key, item) in fields {
                map.insert(key.clone(), to_library(item));
            }
            JsonValue::object(map)
        }
    }
}

fn from_library(value: &JsonValue) -> serde_json::Value {
    match value {
        JsonValue::Null => serde_json::Value::Null,
        JsonValue::Bool(b) => serde_json::Value::Bool(*b),
        JsonValue::Number(JsonNumber::Integer(i)) => serde_json::Value::from(*i as i64),
        JsonValue::Number(JsonNumber::Float(f)) => serde_json::from_str(f).unwrap(),
        JsonValue::Text(s) => serde_json::Value::String(s.clone()),
        JsonValue::Array(items) => {
            serde_json::Value::Array(items.iter().map(from_library).collect())
        }
        JsonValue::Object(map) => {
            let mut fields = serde_json::Map::new();
            for i in 0..map.len() {
                let (key, item) = map.entry(i);
                fields.insert(key.clone(), from_library(item));
            }
            serde_json::Value::Object(fields)
        }
    }
}

fn json(text: &str) -> JsonValue {
    to_library(&serde_json::from_str(text).unwrap())
}

fn snapshot() -> ProviderSnapshot {
    ProviderSnapshot {
        id: "p".to_string(),
        category: None,
        uses_managed_account_auth: false,
        is_official: false,
        is_full_url: None,
        base_url: Ok("https://user:pw@example.test/v1?k=1#f".to_string()),
        auth: Some(ProviderAuth {
            strategy: "Bearer".to_string(),
            api_key: " key ".to_string(),
        }),
        auth_headers: Ok(vec![
            (
                http::header::AUTHORIZATION,
                http::HeaderValue::from_static("Bearer key"),
            ),
            (
                http::HeaderName::from_static("x-extra"),
                http::HeaderValue::from_static("1"),
            ),
            (
                http::HeaderName::from_static("x-extra"),
                http::HeaderValue::from_static("2"),
            ),
        ]),
        document: Ok(json(r#"{"id":"p"}"#)),
        header_overrides: vec![
            HeaderOverride {
                name: " X-Custom ".to_string(),
                value: "v".to_string(),
            },
            HeaderOverride {
                name: "Authorization".to_string(),
                value: "stolen".to_string(),
            },
            HeaderOverride {
                name: "bad name".to_string(),
                value: "v".to_string(),
            },
            HeaderOverride {
                name: "x-bad-value".to_string(),
                value: "a\nb".to_string(),
            },
            HeaderOverride {
                name: "user-agent".to_string(),
                value: "mine".to_string(),
            },
        ],
        body_override: Some(json(r#"{"temperature":1,"stream":true}"#)),
        user_agent: None,
        client_version: "0.1.0".to_string(),
    }
}

fn policy() -> CodexThirdPartyRequestPolicy {
    CodexThirdPartyRequestPolicy::compile(snapshot(), 16)
        .unwrap_or_else(|error| panic!("{}", error.message()))
}

fn refusal(snapshot: ProviderSnapshot) -> ProxyError {
    match CodexThirdPartyRequestPolicy::compile(snapshot, 16) {
        Ok(_) => panic!("compiled"),
        Err(error) => error,
    }
}

#[test]
fn policy_holds_fingerprints_of_credential_and_provider() {
    let policy = policy();
    assert_eq!(policy.authentication_kind(), "bearer");
    assert_eq!(
        policy.credential_fingerprint(),
        codex_bridge::digest::sha256_hex(b"bearer:key")
    );
    let material = format!(
        r#"{{"credentialFingerprint":"{}","preparerVersion":8,"probeBudget":16,"probeCorpusVersion":4,"provider":{{"id":"p"}}}}"#,
        policy.credential_fingerprint()
    );
    assert_eq!(
        policy.fingerprint(),
        codex_bridge::digest::sha256_hex(material.as_bytes())
    );
    assert_eq!(
        policy.canonical_base_url(),
        "https://user:pw@example.test/v1?k=1#f"
    );
    assert!(!policy.is_full_url());
}

#[test]
fn policies_are_equal_by_fingerprint() {
    let mut other = snapshot();
    other.header_overrides = Vec::new();
    other.auth.as_mut().unwrap().api_key = "key".to_string();
    let other = CodexThirdPartyRequestPolicy::compile(other, 16).ok().unwrap();
    assert!(policy() == other);
    let mut changed = snapshot();
    changed.document = Ok(json(r#"{"id":"q"}"#));
    let changed = CodexThirdPartyRequestPolicy::compile(changed, 16).ok().unwrap();
    assert!(policy() != changed);
}

#[test]
fn providers_that_are_no_third_parties_are_refused() {
    let refused = ProxyError::ConfigError(
        "managed or official providers do not use third-party request preparation".to_string(),
    );
    let mut managed = snapshot();
    managed.uses_managed_account_auth = true;
    assert_eq!(refusal(managed), refused);
    let mut official = snapshot();
    official.category = Some("official".to_string());
    assert_eq!(refusal(official), refused);
    let mut codex = snapshot();
    codex.is_official = true;
    assert_eq!(refusal(codex), refused);
}

#[test]
fn incomplete_providers_are_refused_in_order() {
    let mut no_url = snapshot();
    no_url.base_url = Err(ProxyError::ConfigError("no base_url".to_string()));
    assert_eq!(
        refusal(no_url),
        ProxyError::ConfigError("no base_url".to_string())
    );
    let mut relative = snapshot();
    relative.base_url = Ok("/v1".to_string());
    relative.auth = None;
    assert_eq!(
        refusal(relative),
        ProxyError::ConfigError("Codex Provider base_url must be an absolute URL".to_string())
    );
    let mut no_auth = snapshot();
    no_auth.auth = None;
    assert_eq!(
        refusal(no_auth),
        ProxyError::ConfigError(
            "Codex Provider is missing third-party authentication".to_string()
        )
    );
    let mut bad_headers = snapshot();
    bad_headers.auth_headers = Err(ProxyError::Internal("bad header".to_string()));
    assert_eq!(
        refusal(bad_headers),
        ProxyError::Internal("bad header".to_string())
    );
    let mut no_document = snapshot();
    no_document.document = Err("depth".to_string());
    assert_eq!(
        refusal(no_document),
        ProxyError::Internal("Failed to fingerprint Codex Provider policy: depth".to_string())
    );
}

#[test]
fn headers_follow_the_policy() {
    let headers = policy().prepare_headers();
    assert_eq!(headers["content-type"], "application/json");
    assert_eq!(headers["authorization"], "Bearer key");
    assert_eq!(headers["x-custom"], "v");
    assert_eq!(headers["user-agent"], "CCSwitchMulti/0.1.0");
    assert!(headers.get("x-bad-value").is_none());
    let extra: Vec<_> = headers.get_all("x-extra").iter().collect();
    assert_eq!(extra, vec!["1", "2"]);
    assert_eq!(headers.len(), 6);
    let pairs = policy().auth_header_pairs();
    assert_eq!(pairs.len(), 3);
}

#[test]
fn forwarded_headers_get_overrides_and_user_agent() {
    let mut headers = http::HeaderMap::new();
    headers.insert("user-agent", http::HeaderValue::from_static("client"));
    let custom = http::HeaderValue::from_static("agent/2");
    apply_provider_header_policy(
        &mut headers,
        &vec![HeaderOverride {
            name: "X-Title".to_string(),
            value: "tëst".to_string(),
        }],
        Some(&custom),
        "0.1.0",
    );
    assert_eq!(headers["user-agent"], "agent/2");
    assert_eq!(headers["x-title"].as_bytes(), "tëst".as_bytes());
    assert_eq!(
        effective_third_party_user_agent(None, "2.3.4"),
        "CCSwitchMulti/2.3.4"
    );
}

#[test]
fn last_override_of_a_name_decides() {
    let wanted = |name: &str, value: &str| HeaderOverride {
        name: name.to_string(),
        value: value.to_string(),
    };
    let mut headers = http::HeaderMap::new();
    headers.append("x-a", http::HeaderValue::from_static("0"));
    headers.append("x-a", http::HeaderValue::from_static("1"));
    headers.insert("host", http::HeaderValue::from_static("h"));
    apply_provider_header_overrides(
        &mut headers,
        &vec![
            wanted("x-a", "2"),
            wanted("X-A", "3"),
            wanted("Host", "evil"),
            wanted("", "v"),
        ],
    );
    assert_eq!(headers.get_all("x-a").iter().count(), 1);
    assert_eq!(headers["x-a"], "3");
    assert_eq!(headers["host"], "h");
    assert_eq!(headers.len(), 2);
    assert!(protected_provider_override_header("tracestate"));
    assert!(!protected_provider_override_header("x-custom"));
}

#[test]
fn body_override_joins_objects_and_spares_stream() {
    let mut body = json(r#"{"stream":false,"a":{"b":1,"c":[1]},"k":2}"#);
    let patch = json(r#"{"stream":true,"a":{"b":2,"stream":true},"c":null,"k":2}"#);
    assert!(apply_provider_body_overrides(&mut body, Some(&patch)));
    let once = json(r#"{"stream":false,"a":{"b":2,"c":[1],"stream":true},"c":null,"k":2}"#);
    assert_eq!(body, once);
    assert!(!apply_provider_body_overrides(&mut body, Some(&patch)));
    assert_eq!(body, once);
    assert!(!apply_provider_body_overrides(&mut body, None));
    assert!(!apply_provider_body_overrides(
        &mut body,
        Some(&json("[1]"))
    ));
    assert_eq!(body, once);
}

#[test]
fn a_changed_body_is_filtered_again() {
    let wanted = json(r#"{"a":1,"stream":true}"#);
    match apply_provider_body_policy(json(r#"{"a":2}"#), Some(&wanted)) {
        PolicyBody::FilterAgain(body) => assert_eq!(from_library(&body).to_string(), r#"{"a":1}"#),
        PolicyBody::Ready(_) => panic!("unchanged"),
    }
    for same in [Some(&wanted), None, Some(&json("3"))] {
        match apply_provider_body_policy(json(r#"{"a":1,"b":2}"#), same) {
            PolicyBody::Ready(body) => {
                assert_eq!(from_library(&body).to_string(), r#"{"a":1,"b":2}"#)
            }
            PolicyBody::FilterAgain(_) => panic!("changed"),
        }
    }
}

#[test]
fn ignored_overrides_have_a_reason() {
    let reason = |name: &str, value: &str| {
        ignored_override(&HeaderOverride {
            name: name.to_string(),
            value: value.to_string(),
        })
    };
    assert_eq!(reason("bad name", "v"), Some(IgnoredOverride::InvalidName));
    assert_eq!(reason(" Host ", "\n"), Some(IgnoredOverride::ProtectedName));
    assert_eq!(reason("x-title", "\n"), Some(IgnoredOverride::InvalidValue));
    assert_eq!(reason(" X-Title ", "v"), None);
}

#[test]
fn protocol_decides_how_a_body_is_told() {
    let body = json(r#"{"prompt_cache_key":"k"}"#);
    let omit = CodexRequestOptions {
        history_replay: Some(HistoryReplay::Omit),
        ..CodexRequestOptions::default()
    };
    assert_eq!(
        protocol_transform(CodexRequestTransport::ChatCompletions, &body, &omit),
        ProtocolTransform::Chat {
            replays_reasoning: false,
            prompt_cache_key: Some("k".to_string()),
        }
    );
    assert_eq!(
        protocol_transform(
            CodexRequestTransport::ChatCompletions,
            &json("{}"),
            &CodexRequestOptions::default()
        ),
        ProtocolTransform::Chat {
            replays_reasoning: true,
            prompt_cache_key: None,
        }
    );
    assert_eq!(
        protocol_transform(CodexRequestTransport::Responses, &body, &omit),
        ProtocolTransform::Native
    );
}

#[test]
fn equal_values_are_no_change() {
    let mut zero = json("-0.0");
    assert!(!merge_json_override_inner(&mut zero, &json("0.0"), false));
    assert_eq!(zero, json("-0.0"));
    let mut integer = json("0");
    assert!(merge_json_override_inner(&mut integer, &json("0.0"), false));
    let mut scalar = json(r#""x""#);
    assert!(merge_json_override_inner(
        &mut scalar,
        &json(r#"{"stream":1}"#),
        true
    ));
    assert_eq!(scalar, json(r#"{"stream":1}"#));
}

#[test]
fn policy_lays_its_override_over_a_body() {
    let mut body = json(r#"{"stream":false}"#);
    assert!(policy().apply_body_overrides(&mut body));
    assert_eq!(body, json(r#"{"stream":false,"temperature":1}"#));
}

#[test]
fn reasoning_is_left_out_where_it_is_omitted() {
    let body = || json(r#"{"input":[{"type":"reasoning"},{"type":"message"},"text"]}"#);
    let rest = json(r#"{"input":[{"type":"message"},"text"]}"#);
    assert_eq!(omit_responses_reasoning_items(body()), rest);
    assert_eq!(omit_responses_reasoning_items(rest.copy()), rest);
    match apply_responses_history_replay(body(), Some(HistoryReplay::Omit)) {
        ReplayedBody::Done(done) => assert_eq!(done, rest),
        ReplayedBody::NormalizeReasoning(_) => panic!(),
    }
    for kept in [
        None,
        Some(HistoryReplay::NativeOnly),
        Some(HistoryReplay::ChatReasoningContent),
    ] {
        match apply_responses_history_replay(body(), kept) {
            ReplayedBody::Done(done) => assert_eq!(done, body()),
            ReplayedBody::NormalizeReasoning(_) => panic!(),
        }
    }
    match apply_responses_history_replay(
        body(),
        Some(HistoryReplay::ResponsesReasoningTextContent),
    ) {
        ReplayedBody::NormalizeReasoning(left) => assert_eq!(left, body()),
        ReplayedBody::Done(_) => panic!(),
    }
}

#[test]
fn endpoints_and_suffixes() {
    assert_eq!(CodexRequestTransport::Responses.endpoint(), "/v1/responses");
    assert_eq!(
        CodexRequestTransport::ChatCompletions.endpoint(),
        "/v1/chat/completions"
    );
    assert_eq!(
        CodexRequestTransport::Responses.endpoint_suffix(),
        "/responses"
    );
    assert_eq!(
        CodexRequestTransport::ChatCompletions.endpoint_suffix(),
        "/chat/completions"
    );
}

#[test]
fn endpoint_paths_are_derived() {
    let responses = |path: &str| derive_endpoint_path(path, CodexRequestTransport::Responses);
    let chat = |path: &str| derive_endpoint_path(path, CodexRequestTransport::ChatCompletions);
    assert_eq!(responses("/v1/responses//").as_deref(), Some("/v1/responses"));
    assert_eq!(
        chat("/v1/responses").as_deref(),
        Some("/v1/chat/completions")
    );
    assert_eq!(chat("/a/v1/x/y").as_deref(), Some("/a/v1/chat/completions"));
    assert_eq!(responses("/api/v2").as_deref(), Some("/api/v2/responses"));
    assert_eq!(
        responses("/api/chat/completions").as_deref(),
        Some("/api/responses")
    );
    assert_eq!(chat("/api/responses").as_deref(), Some("/api/chat/completions"));
    assert_eq!(responses("/api").as_deref(), None);
    // Switching back gives the first path, and deriving again changes nothing.
    assert_eq!(
        responses(&chat("/v1").unwrap()).as_deref(),
        Some("/v1/responses")
    );
    assert_eq!(chat("/v1/chat/completions").as_deref(), Some("/v1/chat/completions"));
}

#[test]
fn full_endpoints_keep_the_rest_of_the_address() {
    assert_eq!(
        derive_full_endpoint(
            "https://h.test:8443/api/v1/responses?key=1",
            CodexRequestTransport::ChatCompletions
        ),
        Ok("https://h.test:8443/api/v1/chat/completions?key=1".to_string())
    );
    assert_eq!(
        derive_full_endpoint("not a url", CodexRequestTransport::Responses),
        Err(ProxyError::ConfigError(
            "Codex Provider full URL is invalid".to_string()
        ))
    );
    assert_eq!(
        derive_full_endpoint("https://h.test/api", CodexRequestTransport::Responses),
        Err(ProxyError::ConfigError(
            "Cannot derive /responses endpoint from Codex Provider full URL".to_string()
        ))
    );
}

#[test]
fn version_segments_are_v_and_digits() {
    assert!(ends_with_version_segment("/api/v1"));
    assert!(ends_with_version_segment("v12"));
    assert!(!ends_with_version_segment("/api/v1/"));
    assert!(!ends_with_version_segment("/api/v"));
    assert!(!ends_with_version_segment("/api/v1beta"));
    assert!(!ends_with_version_segment("/api/1"));
}

#[test]
fn queries_are_appended() {
    assert_eq!(append_query("u", None), "u");
    assert_eq!(append_query("u", Some("  ")), "u");
    assert_eq!(append_query("u", Some(" a=1 ")), "u?a=1");
    assert_eq!(append_query("u?b", Some("a=1")), "u?b&a=1");
}

#[test]
fn shown_addresses_hold_no_secrets() {
    assert_eq!(
        redacted_url("https://user:pw@example.test/v1?k=1#f"),
        "https://example.test/v1"
    );
    assert_eq!(redacted_url("nonsense"), "<invalid-url>");
    assert_eq!(redacted_url("https://user@h.test"), "https://h.test/");
    assert_eq!(redacted_url("https://:pw@h.test:81/a@b?c"), "https://h.test:81/a@b");
    assert_eq!(redacted_url("data:x  ?q#f"), "data:x");
    assert_eq!(redacted_url("data:x  #f"), "data:x");
    assert_eq!(redacted_url("file:///tmp/a?b#c"), "file:///tmp/a");
    assert_eq!(redacted_url("foo:/.//p?q"), "foo:/.//p");
    assert_eq!(redacted_url("mailto:a@b.test?subject=s"), "mailto:a@b.test");
}

#[test]
fn policies_and_requests_can_be_cloned() {
    let policy = policy();
    let copy = policy.clone();
    assert!(copy == policy);
    assert_eq!(copy.prepare_headers(), policy.prepare_headers());
    assert_eq!(copy.canonical_base_url(), policy.canonical_base_url());
    assert_eq!(copy.fingerprint().len(), 64);
    assert_eq!(copy.credential_fingerprint().len(), 64);
    let request = PreparedCodexRequest {
        url: "https://h.test/".to_string(),
        headers: policy.prepare_headers(),
        body: json(r#"{"model":"m"}"#),
    };
    let again = request.clone();
    assert_eq!(again.url, request.url);
    assert_eq!(again.headers, request.headers);
    assert_eq!(again.body, request.body);
    let options = CodexRequestOptions {
        tool_schema_dialect: Some(ToolSchemaDialect::Named("d".to_string())),
        ..CodexRequestOptions::default()
    };
    assert_eq!(options.clone(), options);
}

#[test]
fn a_fraction_in_the_provider_document_is_written_as_it_is() {
    let mut exact = snapshot();
    exact.document = Ok(JsonValue::empty_object().with(
        "weight",
        JsonValue::number(JsonNumber::Float("0.38120423768821243".to_string())),
    ));
    let exact = CodexThirdPartyRequestPolicy::compile(exact, 16)
        .unwrap_or_else(|error| panic!("{}", error.message()));
    let material = format!(
        r#"{{"credentialFingerprint":"{}","preparerVersion":8,"probeBudget":16,"probeCorpusVersion":4,"provider":{{"weight":0.38120423768821243}}}}"#,
        exact.credential_fingerprint()
    );
    assert_eq!(
        exact.fingerprint(),
        codex_bridge::digest::sha256_hex(material.as_bytes())
    );
}

#[test]
fn addresses_are_prepared_from_adapter_or_full_url() {
    assert_eq!(
        policy().prepare_url_with_query(
            CodexRequestTransport::Responses,
            "https://example.test/v1/responses",
            Some("x=1")
        ),
        Ok("https://example.test/v1/responses?x=1".to_string())
    );
    assert_eq!(
        policy().prepare_url(CodexRequestTransport::Responses, "adapter"),
        Ok("adapter".to_string())
    );
    let full = CodexThirdPartyRequestPolicy::with_full_url(snapshot(), true, 16)
        .ok()
        .unwrap();
    assert!(full.is_full_url());
    assert_eq!(
        full.prepare_url_with_query(CodexRequestTransport::Responses, "adapter", Some("x=1")),
        Ok("https://user:pw@example.test/v1/responses?k=1#f&x=1".to_string())
    );
}

#[test]
fn requests_are_prepared_with_address_headers_and_body() {
    let body = json(r#"{"model":"m"}"#);
    let request = policy()
        .prepare(CodexRequestTransport::Responses, "https://example.test/v1/responses", Ok(body))
        .unwrap_or_else(|error| panic!("{}", error.message()));
    assert_eq!(request.url, "https://example.test/v1/responses");
    assert_eq!(request.headers, policy().prepare_headers());
    assert_eq!(from_library(&request.body).to_string(), r#"{"model":"m"}"#);
    let failed = ProxyError::Internal("no body".to_string());
    match policy().prepare(CodexRequestTransport::Responses, "adapter", Err(failed)) {
        Ok(_) => panic!("prepared"),
        Err(error) => assert_eq!(error, ProxyError::Internal("no body".to_string())),
    }
    let mut other = snapshot();
    other.base_url = Ok("https://example.test/other".to_string());
    let full = CodexThirdPartyRequestPolicy::with_full_url(other, true, 16)
        .ok()
        .unwrap();
    let failed = ProxyError::Internal("no body".to_string());
    match full.prepare(CodexRequestTransport::Responses, "adapter", Err(failed)) {
        Ok(_) => panic!("prepared"),
        Err(error) => assert!(matches!(error, ProxyError::ConfigError(_))),
    }
}

#[test]
fn summaries_show_no_values() {
    let summary = policy().summary();
    assert_eq!(summary.base_url, "https://example.test/v1");
    assert_eq!(summary.provider_id, "p");
    assert!(summary.has_authentication);
    assert!(!summary.is_full_url);
    let request = PreparedCodexRequest {
        url: "https://h.test/?secret".to_string(),
        headers: policy().prepare_headers(),
        body: json(r#"{"model":"m","input":"secret"}"#),
    };
    let summary = request.summary();
    assert_eq!(summary.url, "https://h.test/");
    assert_eq!(
        summary.header_names,
        vec!["authorization", "content-type", "user-agent", "x-custom", "x-extra"]
    );
    assert_eq!(
        summary.body_keys,
        Some(vec!["input".to_string(), "model".to_string()])
    );
    let scalar = PreparedCodexRequest {
        url: String::new(),
        headers: http::HeaderMap::new(),
        body: json("1"),
    };
    assert_eq!(scalar.summary().body_keys, None);
}

#[test]
fn bodies_are_finalized_step_by_step() {
    let options = CodexRequestOptions {
        history_replay: Some(HistoryReplay::Omit),
        ..CodexRequestOptions::default()
    };
    assert_eq!(
        finalize_body_steps(CodexRequestTransport::Responses, &options, true, true),
        vec![
            FinalizeStep::ApplyBodyPolicy,
            FinalizeStep::ReplayHistory(Some(HistoryReplay::Omit)),
            FinalizeStep::CompileToolSchemas,
            FinalizeStep::SanitizeResponses,
        ]
    );
    assert_eq!(
        finalize_body_steps(CodexRequestTransport::ChatCompletions, &options, true, true),
        vec![
            FinalizeStep::ApplyBodyPolicy,
            FinalizeStep::CompileToolSchemas,
            FinalizeStep::WrapRefSiblings,
        ]
    );
    assert_eq!(
        finalize_body_steps(CodexRequestTransport::ChatCompletions, &options, false, true).len(),
        2
    );
    assert_eq!(
        finalize_continuation_steps(&options),
        vec![
            FinalizeStep::ApplyBodyPolicy,
            FinalizeStep::ReplayHistory(Some(HistoryReplay::Omit)),
        ]
    );
    assert!(!options.replays_chat_reasoning());
    assert!(CodexRequestOptions::default().replays_chat_reasoning());
    assert_eq!(CodexRequestOptions::default().foreign_dialect(), None);
    let named = CodexRequestOptions {
        tool_schema_dialect: Some(ToolSchemaDialect::Named("gemini".to_string())),
        ..CodexRequestOptions::default()
    };
    assert_eq!(named.foreign_dialect(), Some("gemini"));
    assert_eq!(
        explicit_prompt_cache_key(&json(r#"{"prompt_cache_key":"k"}"#)).as_deref(),
        Some("k")
    );
}
