use codex_bridge::activation::{
    newest_app_server, newest_start, record_managed_config_write, runtime_activation_from_system,
    runtime_activation_from_managed_receipt_evidence, system_time_to_millis,
    CodexConfigRuntimeActivation, CodexConfigRuntimeActivationState,
    CodexManagedConfigActivationReceipt, CodexProcess,
};
use codex_bridge::config_merge::merge_ccsm_owned_projection;
use codex_bridge::config_projection::{
    active_model_provider_id_from_text, fingerprint_toml, managed_fingerprint,
    CC_SWITCH_CODEX_ROUTER_MODEL_PROVIDER_ID,
};
use codex_bridge::consistency::{
    begin_inspection, confirm_live_config, drift_backup_name, inspect, pending_report,
    refresh_backup_name, repair_current_profile_provider_before_inspection, report,
    report_finding, reproject_current_ccsm_config, resolve, resolve_for_command,
    should_emit_report, CodexConfigConsistencyAction, CodexConfigConsistencyReport,
    CodexConfigConsistencyState, CommandPlan, InspectEvent, InspectState, InspectStep, LiveConfig,
    ReprojectPlan, ResolvePlan, LAST_ACTION_KEY, LAST_ACTUAL_FINGERPRINT_KEY,
    LAST_PROVIDER_ID_KEY,
};
use codex_bridge::errors::AppError;
use codex_bridge::key_paths::{changed_key_paths, changed_managed_key_paths};

const PROVIDER_CONFIG: &str = "model = \"gpt-5.5\"\nmodel_provider = \"ccsm-provider\"\nmodel_reasoning_effort = \"medium\"\n\n[model_providers.ccsm-provider]\nname = \"CCSM Provider\"\nbase_url = \"https://example.test/v1\"\nwire_api = \"responses\"\n";

/// What an inspection comes to know.
struct World {
    pending: bool,
    current_provider: Option<&'static str>,
    takeover_active: bool,
    takeover_expected: bool,
    provider_known: bool,
    expected: Option<String>,
    live: Option<String>,
}

fn world(live: &str) -> World {
    World {
        pending: false,
        current_provider: Some("consistency-provider"),
        takeover_active: false,
        takeover_expected: false,
        provider_known: true,
        expected: Some(PROVIDER_CONFIG.to_string()),
        live: Some(live.to_string()),
    }
}

fn no_activation() -> CodexConfigRuntimeActivation {
    runtime_activation_from_system(&Vec::new(), None, Ok(None), None, None)
}

fn inspect_world(world: &World) -> Result<CodexConfigConsistencyReport, AppError> {
    let mut state = begin_inspection();
    for _ in 0..6 {
        let event = match &state {
            InspectState::Startup => InspectEvent::Startup {
                pending: world.pending,
            },
            InspectState::CurrentProvider => {
                InspectEvent::CurrentProvider(Ok(world.current_provider.map(str::to_string)))
            }
            InspectState::Takeover { .. } => InspectEvent::Takeover {
                live_active: world.takeover_active,
                expected: world.takeover_expected,
            },
            InspectState::ProviderRecord { .. } => {
                InspectEvent::ProviderRecord(Ok(world.provider_known))
            }
            InspectState::ExpectedText { .. } => InspectEvent::ExpectedText(world.expected.clone()),
            InspectState::TakeoverLive { .. } | InspectState::LiveText { .. } => {
                InspectEvent::Live(match &world.live {
                    Some(text) => LiveConfig::Text(text.clone()),
                    None => LiveConfig::Missing,
                })
            }
        };
        match inspect(state, event) {
            InspectStep::Continue(next) => state = next,
            InspectStep::Pending => return Ok(pending_report()),
            InspectStep::Settled(finding) => return Ok(report_finding(finding, no_activation())),
            InspectStep::Fail(error) => return Err(error),
        }
    }
    panic!("the inspection did not end");
}

fn expected_document() -> toml_edit::DocumentMut {
    PROVIDER_CONFIG
        .parse::<toml_edit::DocumentMut>()
        .expect("parse expected config")
}

fn drifted() -> World {
    let mut live = expected_document();
    live["model_providers"]["ccsm-provider"]["wire_api"] = toml_edit::value("chat");
    world(&live.to_string())
}

#[test]
fn semantic_fingerprint_ignores_comments_whitespace_and_key_order() {
    let first = "# user note\nmodel = \"gpt-5.5\"\nmodel_reasoning_effort = \"medium\"\n";
    let second = "model_reasoning_effort = \"medium\"\nmodel = \"gpt-5.5\" # inline note\n";

    assert_eq!(
        fingerprint_toml(first).expect("first fingerprint"),
        fingerprint_toml(second).expect("second fingerprint")
    );
    assert!(changed_key_paths(first, second)
        .expect("semantic diff")
        .is_empty());
}

#[test]
fn semantic_diff_reports_changed_paths_without_values() {
    let before = "model = \"gpt-5.5\"\n[features]\nweb_search = true\n";
    let after = "model = \"gpt-5.5\"\n[features]\nweb_search = false\n";

    let changed = changed_key_paths(before, after).expect("semantic diff");

    assert_eq!(changed, vec!["features.web_search"]);
    let serialized = serde_json::to_string(&changed).expect("serialize paths");
    assert!(!serialized.contains("true"));
    assert!(!serialized.contains("false"));
}

#[test]
fn runtime_activation_requires_restart_when_app_server_predates_managed_config() {
    let activation = runtime_activation_from_managed_receipt_evidence(
        Some(1_788_186_514_000),
        Some(1_788_189_533_000),
        Some("managed-fingerprint"),
        Some("managed-fingerprint"),
        Some("2026-08-31T21:48:34+08:00".to_string()),
        Some("2026-08-31T22:38:53+08:00".to_string()),
        None,
    );

    assert_eq!(
        activation.state,
        CodexConfigRuntimeActivationState::RestartRequired
    );
    assert_eq!(
        activation.reason.as_deref(),
        Some("app_server_started_before_managed_config")
    );
}

#[test]
fn runtime_activation_is_current_after_app_server_restart() {
    let activation = runtime_activation_from_managed_receipt_evidence(
        Some(1_788_190_000_000),
        Some(1_788_189_533_000),
        Some("managed-fingerprint"),
        Some("managed-fingerprint"),
        Some("2026-08-31T22:46:40+08:00".to_string()),
        Some("2026-08-31T22:38:53+08:00".to_string()),
        None,
    );

    assert_eq!(activation.state, CodexConfigRuntimeActivationState::Current);
    assert!(activation.reason.is_none());
}

#[test]
fn codex_owned_rewrite_after_startup_does_not_invalidate_managed_activation_receipt() {
    let activation = runtime_activation_from_managed_receipt_evidence(
        Some(1_788_190_000_000),
        Some(1_788_189_533_000),
        Some("managed-fingerprint"),
        Some("managed-fingerprint"),
        Some("2026-08-31T22:46:40+08:00".to_string()),
        Some("2026-08-31T22:38:53+08:00".to_string()),
        None,
    );

    assert_eq!(activation.state, CodexConfigRuntimeActivationState::Current);
    assert!(activation.reason.is_none());
}

#[test]
fn managed_write_after_app_server_start_still_requires_refresh() {
    let activation = runtime_activation_from_managed_receipt_evidence(
        Some(1_788_186_514_000),
        Some(1_788_189_533_000),
        Some("managed-fingerprint"),
        Some("managed-fingerprint"),
        Some("2026-08-31T21:48:34+08:00".to_string()),
        Some("2026-08-31T22:38:53+08:00".to_string()),
        None,
    );

    assert_eq!(
        activation.state,
        CodexConfigRuntimeActivationState::RestartRequired
    );
    assert_eq!(
        activation.reason.as_deref(),
        Some("app_server_started_before_managed_config")
    );
}

#[test]
fn activation_receipt_changes_only_when_ccsm_owned_projection_changes() {
    let first = r#"
model = "qwen3.8"
model_provider = "router"
[model_providers.router]
base_url = "http://127.0.0.1:15721/v1"
wire_api = "responses"
"#;
    let initial = record_managed_config_write(first, Ok(None), Some(1_000), "first")
        .expect("record initial receipt")
        .expect("initial receipt exists");
    assert_eq!(initial.written_at_ms, 1_000);
    assert_eq!(initial.written_at, "first");
    let managed_fingerprint_of_initial = initial.managed_fingerprint.clone();

    let codex_owned_change =
        format!("developer_instructions = \"written by Codex Desktop\"\n{first}");
    let after_codex_change =
        record_managed_config_write(&codex_owned_change, Ok(Some(initial)), Some(2_000), "second")
            .expect("record Codex-owned change");
    assert_eq!(after_codex_change, None);

    let managed_change = codex_owned_change.replace("qwen3.8", "deepseek-v4-flash");
    let known = CodexManagedConfigActivationReceipt {
        managed_fingerprint: managed_fingerprint_of_initial.clone(),
        written_at_ms: 1_000,
        written_at: "first".to_string(),
    };
    let after_managed_change =
        record_managed_config_write(&managed_change, Ok(Some(known)), Some(3_000), "third")
            .expect("record changed receipt")
            .expect("changed receipt exists");
    assert_ne!(
        after_managed_change.managed_fingerprint,
        managed_fingerprint_of_initial
    );
}

#[test]
fn inspect_reports_only_ccsm_owned_route_drift() {
    let mut live = expected_document();
    live["model_providers"]["ccsm-provider"]["wire_api"] = toml_edit::value("chat");
    live["agents"]["max_threads"] = toml_edit::value(16);
    live["desktop"]["composerPlainTextMode"] = toml_edit::value(true);
    live["projects"][r"c:\users\sunda\documents\new-project"]["trust_level"] =
        toml_edit::value("trusted");

    let result = inspect_world(&world(&live.to_string())).expect("inspect config consistency");

    assert_eq!(result.state, CodexConfigConsistencyState::ExternalDrift);
    assert_eq!(result.provider_id.as_deref(), Some("consistency-provider"));
    assert_eq!(
        result.changed_keys,
        vec!["model_providers.ccsm-provider.wire_api"]
    );
}

#[test]
fn inspect_ignores_codex_desktop_runtime_and_user_owned_changes() {
    let mut live = expected_document();
    live["developer_instructions"] = toml_edit::value("updated by the user");
    live["agents"]["max_threads"] = toml_edit::value(16);
    live["desktop"]["composerPlainTextMode"] = toml_edit::value(true);
    live["mcp_servers"]["node_repl"]["command"] =
        toml_edit::value(r"C:\Program Files\Codex\node_repl.exe");
    live["mcp_servers"]["cua_repl"]["command"] =
        toml_edit::value(r"C:\Program Files\Codex\cua_repl.exe");
    live["mcp_servers"]["node_repl"]["env"]["BROWSER_USE_CODEX_APP_VERSION"] =
        toml_edit::value("26.825.6671.0");
    live["mcp_servers"]["node_repl"]["env"]["BROWSER_USE_TINYSKY_ENABLED"] =
        toml_edit::value("true");
    live["mcp_servers"]["node_repl"]["env"]["CODEX_CLI_PATH"] =
        toml_edit::value(r"C:\Program Files\Codex\codex.exe");
    live["mcp_servers"]["node_repl"]["env"]["NODE_REPL_NODE_MODULE_DIRS"] =
        toml_edit::value(r"C:\Program Files\Codex\node_modules");
    live["mcp_servers"]["node_repl"]["env"]["NODE_REPL_NODE_PATH"] =
        toml_edit::value(r"C:\Program Files\Codex\node.exe");
    live["mcp_servers"]["node_repl"]["env"]["NODE_REPL_TRUSTED_CODE_PATHS"] =
        toml_edit::value(r"C:\Program Files\Codex");
    live["mcp_servers"]["node_repl"]["env"]["NODE_REPL_TRUSTED_SERVICES"] =
        toml_edit::value("codex-app");
    live["mcp_servers"]["node_repl"]["env"]["SKY_CUA_NATIVE_PIPE_DIRECTORY"] =
        toml_edit::value(r"C:\Users\sunda\AppData\Local\Temp\codex-cua");
    live["mcp_servers"]["cua_repl"]["enabled"] = toml_edit::value(true);
    live["plugins"]["codex-app-tools@openai-bundled"]["enabled"] = toml_edit::value(true);
    for project in [
        r"c:\users\sunda\appdata\local\temp\ccsm-qwen-coalesce-canary-20260817-1355",
        r"c:\users\sunda\documents\chatgpt\acps比赛",
        r"c:\users\sunda\documents\codex\2026-08-24\w",
        r"c:\users\sunda\documents\llm-api-protocol-bridge",
        r"c:\users\sunda\documents\wit和codex与acps adapter",
    ] {
        live["projects"][project]["trust_level"] = toml_edit::value("trusted");
    }
    live["wire_api"] = toml_edit::value("responses");

    let result = inspect_world(&world(&live.to_string())).expect("inspect config consistency");

    assert_eq!(result.state, CodexConfigConsistencyState::Consistent);
    assert!(result.changed_keys.is_empty());
}

#[test]
fn inspect_reports_when_qwen_is_left_on_the_chatgpt_account_provider() {
    let mut live = expected_document();
    live["model_provider"] = toml_edit::value("openai");
    live["agents"]["max_threads"] = toml_edit::value(16);

    let result = inspect_world(&world(&live.to_string())).expect("inspect config consistency");

    assert_eq!(result.state, CodexConfigConsistencyState::ExternalDrift);
    assert_eq!(result.changed_keys, vec!["model_provider"]);
}

#[test]
fn inspect_treats_missing_live_router_as_takeover_projection_drift() {
    let mut takeover = world(PROVIDER_CONFIG);
    takeover.takeover_expected = true;

    let result = inspect_world(&takeover).expect("inspect takeover projection");

    assert_eq!(result.state, CodexConfigConsistencyState::ExternalDrift);
    assert_eq!(result.reason.as_deref(), Some("takeover_projection_drift"));
    assert!(
        result.changed_keys.is_empty(),
        "an aggregate takeover projection failure is not a semantic field diff"
    );
    let actual = result
        .actual_fingerprint
        .clone()
        .expect("actual fingerprint");
    let error = resolve(&result, &actual, CodexConfigConsistencyAction::KeepCodex)
        .expect_err("takeover drift cannot be accepted as an external edit");
    assert!(error
        .message()
        .contains("cannot_keep_codex_changes_while_takeover_enabled"));
}

#[test]
fn inspect_defers_takeover_drift_until_startup_reconciliation_finishes() {
    let mut takeover = world(PROVIDER_CONFIG);
    takeover.takeover_expected = true;

    takeover.pending = true;
    let pending = inspect_world(&takeover).expect("inspect during startup reconciliation");

    assert_eq!(pending.state, CodexConfigConsistencyState::NotApplicable);
    assert_eq!(
        pending.reason.as_deref(),
        Some("startup_reconciliation_pending")
    );
    assert!(pending.changed_keys.is_empty());

    takeover.pending = false;
    let completed = inspect_world(&takeover).expect("inspect after startup reconciliation");
    assert_eq!(completed.state, CodexConfigConsistencyState::ExternalDrift);
    assert_eq!(
        completed.reason.as_deref(),
        Some("takeover_projection_drift")
    );
}

#[test]
fn inspect_reports_a_changed_ccsm_model_catalog_pointer() {
    let mut live = expected_document();
    live["model_catalog_json"] = toml_edit::value(r"C:\other\catalog.json");

    let result = inspect_world(&world(&live.to_string())).expect("inspect config consistency");

    assert_eq!(result.state, CodexConfigConsistencyState::ExternalDrift);
    assert_eq!(result.changed_keys, vec!["model_catalog_json"]);
}

#[test]
fn inspect_marks_invalid_live_toml_unavailable() {
    let result = inspect_world(&world("model = [\n")).expect("inspect invalid config");

    assert_eq!(result.state, CodexConfigConsistencyState::Unavailable);
    assert_eq!(result.reason.as_deref(), Some("invalid_toml"));
    assert!(result.actual_fingerprint.is_none());
}

#[test]
fn keep_codex_records_only_fingerprint_acknowledgement() {
    let before = inspect_world(&drifted()).expect("inspect drift");
    let actual = before
        .actual_fingerprint
        .clone()
        .expect("actual fingerprint");

    let plan = resolve(&before, &actual, CodexConfigConsistencyAction::KeepCodex)
        .expect("keep Codex changes");

    assert_eq!(before.state, CodexConfigConsistencyState::ExternalDrift);
    assert_eq!(
        plan,
        ResolvePlan::Acknowledge {
            settings: vec![
                (LAST_ACTION_KEY.to_string(), "keep_codex".to_string()),
                (LAST_ACTUAL_FINGERPRINT_KEY.to_string(), actual),
                (
                    LAST_PROVIDER_ID_KEY.to_string(),
                    "consistency-provider".to_string()
                ),
            ]
        }
    );
}

#[test]
fn later_does_not_persist_an_acknowledgement() {
    let before = inspect_world(&drifted()).expect("inspect drift");
    let actual = before
        .actual_fingerprint
        .clone()
        .expect("actual fingerprint");

    assert_eq!(
        resolve(&before, &actual, CodexConfigConsistencyAction::Later)
            .expect("defer Codex changes"),
        ResolvePlan::Stand
    );
}

#[test]
fn apply_ccsm_uses_compare_and_swap_and_creates_a_drift_backup() {
    let mut live = drifted()
        .live
        .unwrap()
        .parse::<toml_edit::DocumentMut>()
        .expect("parse drifted live config");
    live["desktop"]["composerPlainTextMode"] = toml_edit::value(true);
    live["mcp_servers"]["node_repl"]["env"]["BROWSER_USE_CODEX_APP_VERSION"] =
        toml_edit::value("26.825.6671.0");
    live["projects"][r"c:\users\sunda\documents\new-project"]["trust_level"] =
        toml_edit::value("trusted");
    let live = live.to_string();
    let before = inspect_world(&world(&live)).expect("inspect drift");
    let actual = before
        .actual_fingerprint
        .clone()
        .expect("actual fingerprint");

    let plan = resolve(&before, &actual, CodexConfigConsistencyAction::ApplyCcsm)
        .expect("apply CCSM config");
    assert_eq!(
        plan,
        ResolvePlan::Apply {
            provider_id: "consistency-provider".to_string()
        }
    );
    confirm_live_config(&live, PROVIDER_CONFIG, &actual).expect("nothing changed in between");
    let merged = merge_ccsm_owned_projection(&live, PROVIDER_CONFIG).expect("merge");
    let after = inspect_world(&world(&merged)).expect("inspect after repair");

    assert_eq!(after.state, CodexConfigConsistencyState::Consistent);
    let applied = merged
        .parse::<toml::Value>()
        .expect("parse applied live config");
    assert_eq!(
        applied
            .get("desktop")
            .and_then(|desktop| desktop.get("composerPlainTextMode"))
            .and_then(toml::Value::as_bool),
        Some(true)
    );
    assert_eq!(
        applied
            .get("mcp_servers")
            .and_then(|servers| servers.get("node_repl"))
            .and_then(|server| server.get("env"))
            .and_then(|env| env.get("BROWSER_USE_CODEX_APP_VERSION"))
            .and_then(toml::Value::as_str),
        Some("26.825.6671.0")
    );
    assert_eq!(
        applied
            .get("projects")
            .and_then(|projects| projects.get(r"c:\users\sunda\documents\new-project"))
            .and_then(|project| project.get("trust_level"))
            .and_then(toml::Value::as_str),
        Some("trusted")
    );
    assert_eq!(
        applied
            .get("model_providers")
            .and_then(|providers| providers.get("ccsm-provider"))
            .and_then(|provider| provider.get("wire_api"))
            .and_then(toml::Value::as_str),
        Some("responses")
    );
    assert!(drift_backup_name("20260831T000000Z").starts_with("config.toml.ccsm-drift-"));
}

#[test]
fn runtime_refresh_reprojection_preserves_unmanaged_codex_settings() {
    let mut live = drifted()
        .live
        .unwrap()
        .parse::<toml_edit::DocumentMut>()
        .expect("parse drifted config");
    live["desktop"]["composerPlainTextMode"] = toml_edit::value(true);
    live["projects"][r"c:\users\sunda\documents\runtime-refresh"]["trust_level"] =
        toml_edit::value("trusted");

    assert_eq!(
        reproject_current_ccsm_config(Some("consistency-provider".to_string()), false)
            .expect("reproject CCSM config"),
        ReprojectPlan::Merge {
            provider_id: "consistency-provider".to_string()
        }
    );
    let merged = merge_ccsm_owned_projection(&live.to_string(), PROVIDER_CONFIG).expect("merge");
    let report = inspect_world(&world(&merged)).expect("inspect reprojected config");

    assert_eq!(report.state, CodexConfigConsistencyState::Consistent);
    let applied = merged
        .parse::<toml::Value>()
        .expect("parse reprojected config");
    assert_eq!(
        applied
            .get("desktop")
            .and_then(|desktop| desktop.get("composerPlainTextMode"))
            .and_then(toml::Value::as_bool),
        Some(true)
    );
    assert_eq!(
        applied
            .get("projects")
            .and_then(|projects| projects.get(r"c:\users\sunda\documents\runtime-refresh"))
            .and_then(|project| project.get("trust_level"))
            .and_then(toml::Value::as_str),
        Some("trusted")
    );
    assert_eq!(
        applied
            .get("model_providers")
            .and_then(|providers| providers.get("ccsm-provider"))
            .and_then(|provider| provider.get("wire_api"))
            .and_then(toml::Value::as_str),
        Some("responses")
    );
}

#[test]
fn apply_ccsm_rejects_a_stale_live_fingerprint_before_writing() {
    let current = inspect_world(&drifted()).expect("inspect drift");
    let error = resolve(
        &current,
        "stale-fingerprint",
        CodexConfigConsistencyAction::ApplyCcsm,
    )
    .expect_err("stale fingerprint must not overwrite Codex changes");

    assert!(error
        .message()
        .contains("codex_config_consistency_stale_fingerprint"));
    assert_eq!(
        confirm_live_config(PROVIDER_CONFIG, PROVIDER_CONFIG, "stale-fingerprint"),
        Err(AppError::InvalidInput(
            "codex_config_consistency_stale_fingerprint".to_string()
        ))
    );
}

#[test]
fn startup_reconciliation_always_emits_the_settled_report() {
    let runtime_only = CodexConfigConsistencyReport {
        state: CodexConfigConsistencyState::Consistent,
        provider_id: Some("router".to_string()),
        expected_fingerprint: Some("same".to_string()),
        actual_fingerprint: Some("same".to_string()),
        changed_keys: Vec::new(),
        reason: None,
        runtime_activation: CodexConfigRuntimeActivation {
            state: CodexConfigRuntimeActivationState::RestartRequired,
            app_server_started_at: Some("2026-08-31T21:48:34+08:00".to_string()),
            config_modified_at: Some("2026-08-31T22:38:53+08:00".to_string()),
            reason: Some("app_server_started_before_managed_config".to_string()),
        },
    };
    assert!(should_emit_report(&runtime_only));

    let healthy_completion = CodexConfigConsistencyReport {
        state: CodexConfigConsistencyState::NotApplicable,
        provider_id: Some("router".to_string()),
        expected_fingerprint: None,
        actual_fingerprint: None,
        changed_keys: Vec::new(),
        reason: Some("proxy_takeover_active".to_string()),
        runtime_activation: CodexConfigRuntimeActivation {
            state: CodexConfigRuntimeActivationState::Current,
            app_server_started_at: None,
            config_modified_at: None,
            reason: None,
        },
    };
    assert!(
        should_emit_report(&healthy_completion),
        "startup completion must clear a renderer report captured during recovery"
    );
}

#[test]
fn merge_projection_preserves_existing_context_overrides_for_router() {
    let current = r#"model = "gpt-5.6-sol"
model_provider = "codex_model_router_v2"
model_context_window = 1000000
model_auto_compact_token_limit = 900000

[model_providers.codex_model_router_v2]
name = "Old Router"
base_url = "http://127.0.0.1:15721/v1"
"#;
    let expected = r#"model = "gpt-5.6-sol"
model_provider = "codex_model_router_v2"
model_catalog_json = "cc-switch-model-catalog.json"

[model_providers.codex_model_router_v2]
name = "OpenAI Multi-Model Router"
base_url = "http://127.0.0.1:15721/v1"
"#;

    let merged = merge_ccsm_owned_projection(current, expected).expect("merge managed projection");
    let parsed: toml::Value = toml::from_str(&merged).expect("parse merged config");

    assert_eq!(
        parsed
            .get("model_context_window")
            .and_then(toml::Value::as_integer),
        Some(1_000_000)
    );
    assert_eq!(
        parsed
            .get("model_auto_compact_token_limit")
            .and_then(toml::Value::as_integer),
        Some(900_000)
    );
}

#[test]
fn router_fingerprint_ignores_user_context_overrides() {
    let expected = r#"model = "gpt-5.6-sol"
model_provider = "codex_model_router_v2"

[model_providers.codex_model_router_v2]
name = "OpenAI Multi-Model Router"
base_url = "http://127.0.0.1:15721/v1"
"#;
    let actual = r#"model = "gpt-5.6-sol"
model_provider = "codex_model_router_v2"
model_context_window = 1000000
model_auto_compact_token_limit = 900000

[model_providers.codex_model_router_v2]
name = "OpenAI Multi-Model Router"
base_url = "http://127.0.0.1:15721/v1"
"#;

    let provider_id = Some(CC_SWITCH_CODEX_ROUTER_MODEL_PROVIDER_ID);
    assert_eq!(
        managed_fingerprint(expected, provider_id).expect("expected fingerprint"),
        managed_fingerprint(actual, provider_id).expect("actual fingerprint"),
        "user context overrides must not be reported as CCSM-owned drift"
    );
}

#[test]
fn repair_before_inspection_names_the_current_provider() {
    assert_eq!(
        repair_current_profile_provider_before_inspection(Ok(Some(
            "consistency-provider".to_string()
        ))),
        Ok(Some("consistency-provider".to_string()))
    );
    assert_eq!(
        repair_current_profile_provider_before_inspection(Ok(None)),
        Ok(None)
    );
}

#[test]
fn fingerprint_is_the_digest_of_sorted_compact_json() {
    // The digest of {"a":1,"b":[true,1.5,"x"]}.
    let text = "b = [true, 1.5, \"x\"]\na = 1\n";
    assert_eq!(
        fingerprint_toml(text).expect("fingerprint"),
        codex_bridge::digest::sha256_hex(br#"{"a":1,"b":[true,1.5,"x"]}"#)
    );
    assert_eq!(
        codex_bridge::digest::sha256_hex(b"abc"),
        "ba7816bf8f01cfea414140de5dae2223b00361a396177a9cb410ff61f20015ad"
    );
}

#[test]
fn owned_part_is_the_managed_keys_the_switch_and_one_provider() {
    let text = "model = \"m\"\nweb_search = \"disabled\"\nuser = 1\nmodel_provider = \" p \"\n[model_providers.p]\nname = \"P\"\n[model_providers.q]\nname = \"Q\"\n";
    assert_eq!(
        active_model_provider_id_from_text(text),
        Ok(Some("p".to_string()))
    );
    assert_eq!(
        managed_fingerprint(text, None).expect("fingerprint"),
        codex_bridge::digest::sha256_hex(
            br#"{"model":"m","model_provider":" p ","model_providers":{"p":{"name":"P"}},"web_search":"disabled"}"#
        )
    );
    assert_eq!(
        managed_fingerprint(text, Some("q")).expect("fingerprint"),
        codex_bridge::digest::sha256_hex(
            br#"{"model":"m","model_provider":" p ","model_providers":{"q":{"name":"Q"}},"web_search":"disabled"}"#
        )
    );
    let enabled = text.replace("disabled", "live");
    assert_eq!(
        managed_fingerprint(&enabled, Some("none")).expect("fingerprint"),
        codex_bridge::digest::sha256_hex(br#"{"model":"m","model_provider":" p "}"#)
    );
}

#[test]
fn special_values_have_a_canonical_form() {
    let text = "a = inf\nb = 1979-05-27T07:32:00Z\nc = -0.0\nd = 1e3\n";
    assert_eq!(
        fingerprint_toml(text).expect("fingerprint"),
        codex_bridge::digest::sha256_hex(
            br#"{"a":"inf","b":"1979-05-27T07:32:00Z","c":-0.0,"d":1000.0}"#
        )
    );
}

#[test]
fn fractions_are_written_to_the_last_digit() {
    for number in ["0.9452706955539223", "0.38120423768821243", "0.12088995980580641"] {
        assert_eq!(
            fingerprint_toml(&format!("a = {number}\n")).expect("fingerprint"),
            codex_bridge::digest::sha256_hex(format!("{{\"a\":{number}}}").as_bytes())
        );
    }
}

#[test]
fn merge_keeps_comments_and_order_of_the_rest() {
    let current = "# first\nzeta = 1 # one\nmodel = \"old\"\n# second\nalpha = { b = 2 }\n\n# other\n[model_providers.q] # q\nname = \"Q\"\n\n[model_providers.p]\nname = \"Old\"\n\n[tail]\nx = 1\n# end\n";
    let expected = "model = \"new\"\nmodel_provider = \"p\"\n[model_providers.p]\nname = \"P\"\n";
    let merged = merge_ccsm_owned_projection(current, expected).expect("merge");
    let mut from = 0;
    for kept in [
        "# first\nzeta = 1 # one\n",
        "# second\nalpha = { b = 2 }\n",
        "# other\n[model_providers.q] # q\nname = \"Q\"\n",
        "[tail]\nx = 1\n",
        "# end\n",
    ] {
        let found = merged[from..].find(kept);
        assert!(found.is_some(), "{merged}");
        from += found.unwrap_or_default() + kept.len();
    }
    assert!(!merged.contains("Old"));
}

#[test]
fn a_table_with_the_key_for_dates_is_read_as_a_date() {
    let text = "a = { \"$__toml_private_datetime\" = \"1979-05-27\" }\n";
    assert_eq!(
        fingerprint_toml(text).expect("fingerprint"),
        codex_bridge::digest::sha256_hex(br#"{"a":"1979-05-27"}"#)
    );
    assert!(managed_fingerprint("\"$__toml_private_datetime\" = \"1979-05-27\"\n", None).is_err());
}

#[test]
fn both_readers_refuse_a_text_in_the_same_words() {
    for text in ["model = [\n", "a = 1\na = 2\n", "= 1", "[t]\nx = 1\n[t]\n", "a = 1979-02-30\n"] {
        let message = text
            .parse::<toml_edit::DocumentMut>()
            .expect_err("refused")
            .to_string();
        assert_eq!(
            fingerprint_toml(text),
            Err(AppError::Config(format!(
                "Codex config.toml semantic parse failed: {message}"
            )))
        );
    }
}

#[test]
fn changed_paths_are_the_same_in_both_directions() {
    let (first, second) = ("a = 1\nb = [1]\n", "a = 2\nb = [1, 2]\nc = {}\n");
    assert_eq!(changed_key_paths(first, second), changed_key_paths(second, first));
    assert_eq!(changed_key_paths(first, second), Ok(vec!["a".to_string(), "b[1]".to_string(), "c".to_string()]));
}

#[test]
fn fingerprints_have_64_lower_case_digits() {
    let fingerprints = vec![
        fingerprint_toml("").expect("fingerprint"),
        managed_fingerprint("model = \"m\"\n", None).expect("fingerprint"),
        codex_bridge::digest::sha256_hex(b""),
    ];
    for fingerprint in fingerprints {
        assert_eq!(fingerprint.len(), 64);
        assert!(fingerprint
            .chars()
            .all(|c| c.is_ascii_digit() || ('a'..='f').contains(&c)));
    }
}

#[test]
fn merged_text_is_found_consistent_and_merges_to_itself() {
    let current = "# note\nuser = 1\nmodel = \"old\"\nweb_search = \"disabled\"\n[model_providers.q]\nname = \"Q\"\n";
    let expected = "model = \"new\"\nmodel_provider = \"p\"\n[model_providers.p]\nname = \"P\"\n";
    let merged = merge_ccsm_owned_projection(current, expected).expect("merge");
    assert_eq!(
        managed_fingerprint(&merged, Some("p")),
        managed_fingerprint(expected, Some("p"))
    );
    assert_eq!(
        changed_managed_key_paths(expected, &merged, Some("p")),
        Ok(Vec::new())
    );
    assert_eq!(
        changed_key_paths(current, &merged).expect("paths"),
        vec!["model", "model_provider", "model_providers.p.name", "web_search"]
    );
    let again = merge_ccsm_owned_projection(&merged, expected).expect("merge");
    assert_eq!(changed_key_paths(&merged, &again), Ok(Vec::new()));
}

#[test]
fn broken_toml_is_a_configuration_error() {
    let error = fingerprint_toml("model = [\n").expect_err("broken");
    assert!(matches!(error, AppError::Config(_)));
    assert!(error
        .message()
        .starts_with("Codex config.toml semantic parse failed: "));
    assert!(changed_managed_key_paths("a = 1\n", "model = [\n", None).is_err());
    assert!(active_model_provider_id_from_text("= 1").is_err());
}

#[test]
fn changed_paths_are_sorted_and_limited() {
    let mut after = String::new();
    for i in 0..80 {
        after.push_str(&format!("k{i:02} = {i}\n"));
    }
    let changed = changed_key_paths("", &after).expect("paths");
    assert_eq!(changed.len(), 64);
    assert_eq!(changed[0], "k00");
    assert_eq!(changed[63], "k63");
    let nested = changed_key_paths("a = [1, {b = 2}]\nc = {}\n", "a = [1, {b = 3}]\n[d]\n")
        .expect("paths");
    assert_eq!(nested, vec!["a[1].b", "c", "d"]);
}

#[test]
fn merge_replaces_the_owned_part_and_keeps_the_rest() {
    let current = "# kept\nuser = 1\nmodel = \"old\"\nopenai_base_url = \"x\"\nweb_search = \"disabled\"\n[model_providers.other]\nname = \"O\"\n[model_providers.p]\nname = \"old\"\n";
    let expected = "model = \"new\"\nmodel_provider = \"p\"\n[model_providers.p]\nname = \"new\"\n";
    let merged = merge_ccsm_owned_projection(current, expected).expect("merge");
    assert!(merged.starts_with("# kept\n"));
    let parsed: toml::Value = toml::from_str(&merged).expect("parse");
    assert_eq!(
        parsed,
        toml::from_str::<toml::Value>(
            "user = 1\nmodel = \"new\"\nmodel_provider = \"p\"\n[model_providers.other]\nname = \"O\"\n[model_providers.p]\nname = \"new\"\n"
        )
        .unwrap()
    );
    // A second merge changes nothing.
    let again = merge_ccsm_owned_projection(&merged, expected).expect("merge again");
    assert_eq!(toml::from_str::<toml::Value>(&again).unwrap(), parsed);
    assert_eq!(
        managed_fingerprint(&merged, Some("p")),
        managed_fingerprint(expected, Some("p"))
    );
}

#[test]
fn merge_drops_a_provider_table_that_becomes_empty() {
    let merged = merge_ccsm_owned_projection(
        "[model_providers.p]\nname = \"old\"\n",
        "model_provider = \"p\"\n",
    )
    .expect("merge");
    let parsed: toml::Value = toml::from_str(&merged).expect("parse");
    assert!(parsed.get("model_providers").is_none());
    assert_eq!(
        parsed.get("model_provider").and_then(toml::Value::as_str),
        Some("p")
    );
}

#[test]
fn merge_works_on_inline_provider_tables() {
    let merged = merge_ccsm_owned_projection(
        "model_providers = { a = { name = \"A\" } }\n",
        "model_provider = \"b\"\n[model_providers.b]\nname = \"B\"\n[model_providers.b.env]\nx = 1\n",
    )
    .expect("merge");
    assert_eq!(
        toml::from_str::<toml::Value>(&merged).unwrap(),
        toml::from_str::<toml::Value>(
            "model_provider = \"b\"\n[model_providers]\na = { name = \"A\" }\nb = { name = \"B\", env = { x = 1 } }\n"
        )
        .unwrap()
    );
}

#[test]
fn merge_errors_name_the_text_at_fault() {
    let live = merge_ccsm_owned_projection("= 1", "").expect_err("live");
    assert!(live
        .message()
        .starts_with("Invalid live Codex config.toml: "));
    let expected = merge_ccsm_owned_projection("", "= 1").expect_err("expected");
    assert!(expected
        .message()
        .starts_with("Invalid expected Codex config.toml: "));
    assert_eq!(
        merge_ccsm_owned_projection("model_providers = 1\n", "model_provider = \"p\"\n"),
        Err(AppError::Config(
            "Codex model_providers must be a table".to_string()
        ))
    );
    assert!(merge_ccsm_owned_projection("model_providers = 1\n", "model = \"m\"\n").is_ok());
}

#[test]
fn merge_copies_the_web_search_switch_only_when_it_is_off() {
    let off = merge_ccsm_owned_projection("web_search = \"live\"\n", "web_search = \"disabled\"\n")
        .expect("merge");
    assert_eq!(off, "web_search = \"disabled\"\n");
    let kept = merge_ccsm_owned_projection("web_search = \"live\"\n", "").expect("merge");
    assert_eq!(kept, "web_search = \"live\"\n");
    let dropped = merge_ccsm_owned_projection("web_search = \"disabled\"\n", "").expect("merge");
    assert_eq!(dropped, "");
}

#[test]
fn activation_evidence_is_judged_in_order() {
    let judge = |started, written, receipt, actual, error: Option<&str>| {
        let activation = runtime_activation_from_managed_receipt_evidence(
            started,
            written,
            receipt,
            actual,
            None,
            None,
            error.map(str::to_string),
        );
        (activation.state, activation.reason)
    };
    assert_eq!(
        judge(Some(1), Some(1), None, None, Some("ps failed")),
        (
            CodexConfigRuntimeActivationState::Unknown,
            Some("app_server_detection_failed".to_string())
        )
    );
    assert_eq!(
        judge(None, Some(1), None, None, None),
        (CodexConfigRuntimeActivationState::NotRunning, None)
    );
    assert_eq!(
        judge(Some(1), None, None, None, None),
        (
            CodexConfigRuntimeActivationState::Unknown,
            Some("managed_config_activation_receipt_unavailable".to_string())
        )
    );
    assert_eq!(
        judge(Some(1), Some(1), Some("a"), Some("b"), None),
        (
            CodexConfigRuntimeActivationState::Unknown,
            Some("managed_config_activation_receipt_mismatch".to_string())
        )
    );
    assert_eq!(
        judge(Some(1), Some(1), Some("a"), Some("a"), None),
        (CodexConfigRuntimeActivationState::Current, None)
    );
}

#[test]
fn newest_app_server_is_the_last_of_the_latest() {
    let process = |is_app_server, started_at: Option<&str>| CodexProcess {
        is_app_server,
        started_at: started_at.map(str::to_string),
    };
    assert_eq!(
        newest_app_server(&vec![
            process(true, Some("2026-08-31T21:48:34+08:00")),
            process(false, Some("2027-01-01T00:00:00Z")),
            process(true, Some("not a time")),
            process(true, None),
            process(true, Some("2026-08-31T13:48:34Z")),
            process(true, Some("2020-01-01T00:00:00Z")),
        ]),
        Some((1_788_184_114_000, "2026-08-31T13:48:34Z".to_string()))
    );
    assert_eq!(newest_app_server(&Vec::new()), None);
    assert_eq!(
        newest_start(&vec![(5, "a".to_string()), (7, "b".to_string()), (7, "c".to_string())]),
        Some((7, "c".to_string()))
    );
}

#[test]
fn activation_from_system_reads_the_live_text_where_no_fingerprint_is_given() {
    let fingerprint = managed_fingerprint(PROVIDER_CONFIG, Some("ccsm-provider")).unwrap();
    let receipt = CodexManagedConfigActivationReceipt {
        managed_fingerprint: fingerprint,
        written_at_ms: 1_000,
        written_at: "then".to_string(),
    };
    let processes = vec![CodexProcess {
        is_app_server: true,
        started_at: Some("1970-01-01T00:00:02Z".to_string()),
    }];
    let activation = runtime_activation_from_system(
        &processes,
        None,
        Ok(Some(receipt)),
        None,
        Some(PROVIDER_CONFIG),
    );
    assert_eq!(
        activation,
        CodexConfigRuntimeActivation {
            state: CodexConfigRuntimeActivationState::Current,
            app_server_started_at: Some("1970-01-01T00:00:02Z".to_string()),
            config_modified_at: Some("then".to_string()),
            reason: None,
        }
    );
    let failed = runtime_activation_from_system(
        &processes,
        None,
        Err("denied".to_string()),
        None,
        None,
    );
    assert_eq!(
        failed.reason.as_deref(),
        Some("app_server_detection_failed")
    );
}

#[test]
fn timestamps_that_do_not_fit_are_refused() {
    assert_eq!(system_time_to_millis(None), None);
    assert_eq!(system_time_to_millis(Some(5)), Some(5));
    assert_eq!(
        system_time_to_millis(Some(i64::MAX as u128)),
        Some(i64::MAX)
    );
    assert_eq!(system_time_to_millis(Some(i64::MAX as u128 + 1)), None);
    assert_eq!(
        record_managed_config_write("", Ok(None), None, "now"),
        Err(AppError::Config(
            "managed config write timestamp overflow".to_string()
        ))
    );
    assert_eq!(
        record_managed_config_write("", Err(AppError::Io("denied".to_string())), None, "now"),
        Err(AppError::Io("denied".to_string()))
    );
}

#[test]
fn inspection_settles_early_where_nothing_can_be_compared() {
    let reason = |world: &World| {
        let report = inspect_world(world).expect("report");
        (report.state, report.reason.unwrap())
    };
    let mut none = world("");
    none.current_provider = None;
    assert_eq!(
        reason(&none),
        (
            CodexConfigConsistencyState::NotApplicable,
            "no_current_provider".to_string()
        )
    );
    let mut active = world("");
    active.takeover_active = true;
    assert_eq!(
        reason(&active),
        (
            CodexConfigConsistencyState::NotApplicable,
            "proxy_takeover_active".to_string()
        )
    );
    let mut unbuilt = world("");
    unbuilt.expected = None;
    assert_eq!(
        reason(&unbuilt),
        (
            CodexConfigConsistencyState::Unavailable,
            "expected_config_unavailable".to_string()
        )
    );
    let mut missing = world("");
    missing.live = None;
    assert_eq!(
        reason(&missing),
        (
            CodexConfigConsistencyState::Unavailable,
            "live_config_missing".to_string()
        )
    );
    missing.takeover_expected = true;
    assert_eq!(
        reason(&missing),
        (
            CodexConfigConsistencyState::Unavailable,
            "live_config_missing".to_string()
        )
    );
    let mut unknown = world("");
    unknown.provider_known = false;
    assert_eq!(
        inspect_world(&unknown),
        Err(AppError::Config(
            "Codex current provider is missing".to_string()
        ))
    );
}

#[test]
fn failures_end_an_inspection() {
    let failed = || AppError::Message("db".to_string());
    assert!(matches!(
        inspect(
            InspectState::CurrentProvider,
            InspectEvent::CurrentProvider(Err(failed()))
        ),
        InspectStep::Fail(AppError::Message(_))
    ));
    assert!(matches!(
        inspect(
            InspectState::ProviderRecord {
                provider_id: "p".to_string()
            },
            InspectEvent::ProviderRecord(Err(failed()))
        ),
        InspectStep::Fail(AppError::Message(_))
    ));
    assert!(matches!(
        inspect(
            InspectState::TakeoverLive {
                provider_id: "p".to_string()
            },
            InspectEvent::Live(LiveConfig::Failed(AppError::Io("denied".to_string())))
        ),
        InspectStep::Fail(AppError::Io(_))
    ));
    // An answer to another question is not taken.
    assert!(matches!(
        inspect(
            InspectState::Startup,
            InspectEvent::ExpectedText(None)
        ),
        InspectStep::Continue(InspectState::Startup)
    ));
}

#[test]
fn commands_let_the_proxy_take_over() {
    let mut takeover = world(PROVIDER_CONFIG);
    takeover.takeover_expected = true;
    let current = inspect_world(&takeover).expect("inspect");
    let actual = current.actual_fingerprint.clone().unwrap();
    assert_eq!(
        resolve_for_command(&current, &actual, CodexConfigConsistencyAction::ApplyCcsm),
        Ok(CommandPlan::TakeOver)
    );
    assert_eq!(
        resolve_for_command(&current, &actual, CodexConfigConsistencyAction::Later),
        Ok(CommandPlan::Stand)
    );
    assert_eq!(
        resolve_for_command(&current, &actual, CodexConfigConsistencyAction::KeepCodex),
        Err(AppError::InvalidInput(
            "cannot_keep_codex_changes_while_takeover_enabled".to_string()
        ))
    );
    assert_eq!(
        resolve_for_command(&current, "other", CodexConfigConsistencyAction::ApplyCcsm),
        Err(AppError::InvalidInput(
            "codex_config_consistency_stale_fingerprint".to_string()
        ))
    );
    let plain = inspect_world(&drifted()).expect("inspect");
    assert_eq!(
        resolve_for_command(&plain, "other", CodexConfigConsistencyAction::ApplyCcsm),
        Ok(CommandPlan::Resolve)
    );
    let without = report(
        CodexConfigConsistencyState::ExternalDrift,
        None,
        None,
        None,
        Vec::new(),
        Some("takeover_projection_drift"),
        no_activation(),
    );
    assert_eq!(
        resolve_for_command(&without, "x", CodexConfigConsistencyAction::ApplyCcsm),
        Err(AppError::Config(
            "Codex live configuration fingerprint is missing".to_string()
        ))
    );
}

#[test]
fn resolution_without_a_fingerprint_or_provider() {
    let without = pending_report();
    assert_eq!(
        resolve(&without, "x", CodexConfigConsistencyAction::ApplyCcsm),
        Ok(ResolvePlan::Stand)
    );
    let nobody = report(
        CodexConfigConsistencyState::ExternalDrift,
        None,
        None,
        Some("f".to_string()),
        Vec::new(),
        None,
        no_activation(),
    );
    assert_eq!(
        resolve(&nobody, "f", CodexConfigConsistencyAction::ApplyCcsm),
        Err(AppError::Config(
            "Codex current provider is missing".to_string()
        ))
    );
    assert_eq!(
        reproject_current_ccsm_config(None, false),
        Err(AppError::Config(
            "Codex current provider is missing".to_string()
        ))
    );
    assert_eq!(
        reproject_current_ccsm_config(Some("p".to_string()), true),
        Ok(ReprojectPlan::TakeOver)
    );
    assert_eq!(
        refresh_backup_name("T"),
        "config.toml.ccsm-runtime-refresh-T.bak"
    );
    assert_eq!(drift_backup_name("T"), "config.toml.ccsm-drift-T.bak");
}
