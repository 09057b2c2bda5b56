//! Whether the live Codex configuration is the one that CCSM expects, and what to
//! do where it is not.

use crate::activation;
use crate::activation::{Activation, CodexConfigRuntimeActivation, CodexConfigRuntimeActivationState};
use crate::config_merge;
use crate::config_projection;
use crate::data_text;
use crate::errors::{AppError, AppFault};
use crate::key_paths;
use crate::text;
use crate::toml_value::Toml;
use vstd::prelude::*;

verus! {

/// The setting that records the last action.
pub const LAST_ACTION_KEY: &'static str = "codex_config_consistency:last_action";

/// The setting that records the fingerprint that was acknowledged.
pub const LAST_ACTUAL_FINGERPRINT_KEY: &'static str = "codex_config_consistency:last_actual_fingerprint";

/// The setting that records the provider for which it was acknowledged.
pub const LAST_PROVIDER_ID_KEY: &'static str = "codex_config_consistency:last_provider_id";

/// Whether the live configuration is the expected one.
#[derive(Debug, Clone, Copy, PartialEq, Eq, Structural)]
pub enum CodexConfigConsistencyState {
    Consistent,
    ExternalDrift,
    NotApplicable,
    Unavailable,
}

/// What to do about a live configuration that is not the expected one.
#[derive(Debug, Clone, Copy, PartialEq, Eq, Structural)]
pub enum CodexConfigConsistencyAction {
    ApplyCcsm,
    KeepCodex,
    Later,
}

/// What was found out about the live configuration.
#[derive(Debug, Clone, PartialEq, Eq)]
pub struct CodexConfigConsistencyReport {
    pub state: CodexConfigConsistencyState,
    pub provider_id: Option<String>,
    pub expected_fingerprint: Option<String>,
    pub actual_fingerprint: Option<String>,
    pub changed_keys: Vec<String>,
    pub reason: Option<String>,
    pub runtime_activation: CodexConfigRuntimeActivation,
}

/// What was found out about the live configuration, but for the app server.
#[derive(Debug, PartialEq, Eq)]
pub struct InspectionFinding {
    pub state: CodexConfigConsistencyState,
    pub provider_id: Option<String>,
    pub expected_fingerprint: Option<String>,
    pub actual_fingerprint: Option<String>,
    pub changed_keys: Vec<String>,
    pub reason: Option<String>,
}

/// What an [`InspectionFinding`] says.
#[verifier::ext_equal]
pub struct Finding {
    pub state: CodexConfigConsistencyState,
    pub provider_id: Option<Seq<char>>,
    pub expected_fingerprint: Option<Seq<char>>,
    pub actual_fingerprint: Option<Seq<char>>,
    pub changed_keys: Seq<Seq<char>>,
    pub reason: Option<Seq<char>>,
}

impl View for InspectionFinding {
    type V = Finding;

    open spec fn view(&self) -> Finding {
        Finding {
            state: self.state,
            provider_id: text::opt_view(self.provider_id),
            expected_fingerprint: text::opt_view(self.expected_fingerprint),
            actual_fingerprint: text::opt_view(self.actual_fingerprint),
            changed_keys: text::texts_view(self.changed_keys@),
            reason: text::opt_view(self.reason),
        }
    }
}

impl CodexConfigConsistencyReport {
    /// What the report says of the live configuration.
    pub open spec fn finding(&self) -> Finding {
        Finding {
            state: self.state,
            provider_id: text::opt_view(self.provider_id),
            expected_fingerprint: text::opt_view(self.expected_fingerprint),
            actual_fingerprint: text::opt_view(self.actual_fingerprint),
            changed_keys: text::texts_view(self.changed_keys@),
            reason: text::opt_view(self.reason),
        }
    }
}

/// Makes a report of what was found out.
pub fn report(
    state: CodexConfigConsistencyState,
    provider_id: Option<String>,
    expected_fingerprint: Option<String>,
    actual_fingerprint: Option<String>,
    changed_keys: Vec<String>,
    reason: Option<&str>,
    runtime_activation: CodexConfigRuntimeActivation,
) -> (r: CodexConfigConsistencyReport)
    ensures
        r.finding() == (Finding {
            state,
            provider_id: text::opt_view(provider_id),
            expected_fingerprint: text::opt_view(expected_fingerprint),
            actual_fingerprint: text::opt_view(actual_fingerprint),
            changed_keys: text::texts_view(changed_keys@),
            reason: text::opt_str_view(reason),
        }),
        r.runtime_activation@ == runtime_activation@,
{
    let reason = match reason {
        Some(reason) => Some(reason.to_owned()),
        None => None,
    };
    CodexConfigConsistencyReport {
        state,
        provider_id,
        expected_fingerprint,
        actual_fingerprint,
        changed_keys,
        reason,
        runtime_activation,
    }
}

/// Makes a report of a finding.
pub fn report_finding(
    finding: InspectionFinding,
    runtime_activation: CodexConfigRuntimeActivation,
) -> (r: CodexConfigConsistencyReport)
    ensures
        r.finding() == finding@,
        r.runtime_activation@ == runtime_activation@,
{
    CodexConfigConsistencyReport {
        state: finding.state,
        provider_id: finding.provider_id,
        expected_fingerprint: finding.expected_fingerprint,
        actual_fingerprint: finding.actual_fingerprint,
        changed_keys: finding.changed_keys,
        reason: finding.reason,
        runtime_activation,
    }
}

/// A finding without a provider section that was compared.
pub open spec fn plain_finding(
    state: CodexConfigConsistencyState,
    provider_id: Option<Seq<char>>,
    expected_fingerprint: Option<Seq<char>>,
    actual_fingerprint: Option<Seq<char>>,
    reason: Option<Seq<char>>,
) -> Finding {
    Finding {
        state,
        provider_id,
        expected_fingerprint,
        actual_fingerprint,
        changed_keys: Seq::empty(),
        reason,
    }
}

/// Makes a finding without changed paths.
fn make_finding(
    state: CodexConfigConsistencyState,
    provider_id: Option<String>,
    expected_fingerprint: Option<String>,
    actual_fingerprint: Option<String>,
    reason: Option<&str>,
) -> (r: InspectionFinding)
    ensures
        r@ == plain_finding(
            state,
            text::opt_view(provider_id),
            text::opt_view(expected_fingerprint),
            text::opt_view(actual_fingerprint),
            text::opt_str_view(reason),
        ),
{
    let changed_keys: Vec<String> = Vec::new();
    assert(text::texts_view(changed_keys@) =~= Seq::empty());
    let reason = match reason {
        Some(reason) => Some(reason.to_owned()),
        None => None,
    };
    InspectionFinding {
        state,
        provider_id,
        expected_fingerprint,
        actual_fingerprint,
        changed_keys,
        reason,
    }
}

/// Whether the report after startup is published. The end of startup means
/// something in itself: what a listener saw while recovery was pending has to be
/// replaced, so every report is.
pub fn should_emit_report(report: &CodexConfigConsistencyReport) -> (r: bool)
    ensures
        r,
{
    true
}

/// The report while recovery at startup is pending.
pub fn pending_report() -> (r: CodexConfigConsistencyReport)
    ensures
        r.finding() == plain_finding(
            CodexConfigConsistencyState::NotApplicable,
            None,
            None,
            None,
            Some("startup_reconciliation_pending"@),
        ),
        r.runtime_activation@ == (Activation {
            state: CodexConfigRuntimeActivationState::Unknown,
            app_server_started_at: None,
            config_modified_at: None,
            reason: Some("startup_reconciliation_pending"@),
        }),
{
    report_finding(
        make_finding(
            CodexConfigConsistencyState::NotApplicable,
            None,
            None,
            None,
            Some("startup_reconciliation_pending"),
        ),
        CodexConfigRuntimeActivation {
            state: CodexConfigRuntimeActivationState::Unknown,
            app_server_started_at: None,
            config_modified_at: None,
            reason: Some("startup_reconciliation_pending".to_owned()),
        },
    )
}

/// The profile to bring up to date before an inspection at startup: that of the
/// current provider, where there is one.
pub fn repair_current_profile_provider_before_inspection(
    current_provider: Result<Option<String>, AppError>,
) -> (r: Result<Option<String>, AppError>)
    ensures
        match current_provider {
            Ok(current) => r matches Ok(provider) && text::opt_view(provider) == text::opt_view(
                current,
            ),
            Err(e) => r matches Err(f) && f@ == e@,
        },
{
    match current_provider {
        Ok(Some(provider_id)) => Ok(Some(provider_id)),
        Ok(None) => Ok(None),
        Err(e) => Err(e),
    }
}

// ---------------------------------------------------------------------------
// Inspection, step by step

/// What reading the live configuration gave.
pub enum LiveConfig {
    Text(String),
    Missing,
    Failed(AppError),
}

/// What [`LiveConfig`] says.
pub enum Live {
    Text(Seq<char>),
    Missing,
    Failed(AppFault),
}

impl View for LiveConfig {
    type V = Live;

    open spec fn view(&self) -> Live {
        match *self {
            LiveConfig::Text(t) => Live::Text(t@),
            LiveConfig::Missing => Live::Missing,
            LiveConfig::Failed(e) => Live::Failed(e@),
        }
    }
}

/// The configuration that CCSM expects.
pub struct ExpectedConfig {
    pub provider_id: String,
    pub text: String,
    pub selected: Option<String>,
    pub fingerprint: String,
}

/// What an [`ExpectedConfig`] says.
pub struct Expected {
    pub provider_id: Seq<char>,
    pub text: Seq<char>,
    pub selected: Option<Seq<char>>,
    pub fingerprint: Seq<char>,
}

impl View for ExpectedConfig {
    type V = Expected;

    open spec fn view(&self) -> Expected {
        Expected {
            provider_id: self.provider_id@,
            text: self.text@,
            selected: text::opt_view(self.selected),
            fingerprint: self.fingerprint@,
        }
    }
}

/// Where an inspection stands: what it has to know next.
pub enum InspectState {
    /// Whether recovery at startup is pending.
    Startup,
    /// Which provider is the current one.
    CurrentProvider,
    /// Whether the proxy has taken over, and whether it should have.
    Takeover { provider_id: String },
    /// The live configuration, where the proxy should have taken over.
    TakeoverLive { provider_id: String },
    /// Whether the provider is known.
    ProviderRecord { provider_id: String },
    /// The configuration that the provider asks for.
    ExpectedText { provider_id: String },
    /// The live configuration.
    LiveText { expected: ExpectedConfig },
}

/// What an [`InspectState`] says.
pub enum Phase {
    Startup,
    CurrentProvider,
    Takeover(Seq<char>),
    TakeoverLive(Seq<char>),
    ProviderRecord(Seq<char>),
    ExpectedText(Seq<char>),
    LiveText(Expected),
}

impl View for InspectState {
    type V = Phase;

    open spec fn view(&self) -> Phase {
        match *self {
            InspectState::Startup => Phase::Startup,
            InspectState::CurrentProvider => Phase::CurrentProvider,
            InspectState::Takeover { provider_id } => Phase::Takeover(provider_id@),
            InspectState::TakeoverLive { provider_id } => Phase::TakeoverLive(provider_id@),
            InspectState::ProviderRecord { provider_id } => Phase::ProviderRecord(provider_id@),
            InspectState::ExpectedText { provider_id } => Phase::ExpectedText(provider_id@),
            InspectState::LiveText { expected } => Phase::LiveText(expected@),
        }
    }
}

/// An answer to what an inspection has to know.
pub enum InspectEvent {
    Startup { pending: bool },
    CurrentProvider(Result<Option<String>, AppError>),
    Takeover { live_active: bool, expected: bool },
    Live(LiveConfig),
    ProviderRecord(Result<bool, AppError>),
    /// The expected configuration, where it could be built.
    ExpectedText(Option<String>),
}

/// What an [`InspectEvent`] says.
pub enum Answer {
    Startup(bool),
    CurrentProvider(Result<Option<Seq<char>>, AppFault>),
    Takeover(bool, bool),
    Live(Live),
    ProviderRecord(Result<bool, AppFault>),
    ExpectedText(Option<Seq<char>>),
}

impl View for InspectEvent {
    type V = Answer;

    open spec fn view(&self) -> Answer {
        match *self {
            InspectEvent::Startup { pending } => Answer::Startup(pending),
            InspectEvent::CurrentProvider(Ok(current)) => Answer::CurrentProvider(
                Ok(text::opt_view(current)),
            ),
            InspectEvent::CurrentProvider(Err(e)) => Answer::CurrentProvider(Err(e@)),
            InspectEvent::Takeover { live_active, expected } => Answer::Takeover(
                live_active,
                expected,
            ),
            InspectEvent::Live(live) => Answer::Live(live@),
            InspectEvent::ProviderRecord(Ok(known)) => Answer::ProviderRecord(Ok(known)),
            InspectEvent::ProviderRecord(Err(e)) => Answer::ProviderRecord(Err(e@)),
            InspectEvent::ExpectedText(built) => Answer::ExpectedText(text::opt_view(built)),
        }
    }
}

/// What an answer leads to.
pub enum InspectStep {
    /// There is more to know.
    Continue(InspectState),
    /// Recovery at startup is pending.
    Pending,
    /// This was found out.
    Settled(InspectionFinding),
    /// The inspection failed.
    Fail(AppError),
}

/// What an [`InspectStep`] says.
pub enum Step {
    Continue(Phase),
    Pending,
    Settled(Finding),
    Fail(AppFault),
}

impl View for InspectStep {
    type V = Step;

    open spec fn view(&self) -> Step {
        match *self {
            InspectStep::Continue(state) => Step::Continue(state@),
            InspectStep::Pending => Step::Pending,
            InspectStep::Settled(finding) => Step::Settled(finding@),
            InspectStep::Fail(e) => Step::Fail(e@),
        }
    }
}

/// The error for a current provider that is not known.
pub open spec fn missing_provider_fault() -> AppFault {
    AppFault::Config("Codex current provider is missing"@)
}

/// What a live text shows where the proxy should have taken over.
pub open spec fn judge_takeover(provider_id: Seq<char>, live: Live) -> Step {
    match live {
        Live::Missing => Step::Settled(
            plain_finding(
                CodexConfigConsistencyState::Unavailable,
                Some(provider_id),
                None,
                None,
                Some("live_config_missing"@),
            ),
        ),
        Live::Failed(fault) => Step::Fail(fault),
        Live::Text(source) => match activation::self_fingerprint(source) {
            Err(fault) => Step::Fail(fault),
            Ok(actual) => Step::Settled(
                plain_finding(
                    CodexConfigConsistencyState::ExternalDrift,
                    Some(provider_id),
                    None,
                    Some(actual),
                    Some("takeover_projection_drift"@),
                ),
            ),
        },
    }
}

/// What an expected text leads to.
pub open spec fn expect(provider_id: Seq<char>, built: Option<Seq<char>>) -> Step {
    match built {
        None => Step::Settled(
            plain_finding(
                CodexConfigConsistencyState::Unavailable,
                Some(provider_id),
                None,
                None,
                Some("expected_config_unavailable"@),
            ),
        ),
        Some(source) => match data_text::toml_parsed(source) {
            Err(message) => Step::Fail(config_projection::parse_fault(message)),
            Ok(value) => {
                let selected = config_projection::active_provider_of(value);
                match config_projection::owned_fingerprint(source, selected) {
                    Err(fault) => Step::Fail(fault),
                    Ok(fingerprint) => Step::Continue(
                        Phase::LiveText(
                            Expected { provider_id, text: source, selected, fingerprint },
                        ),
                    ),
                }
            },
        },
    }
}

/// What a live text shows beside the expected one.
pub open spec fn judge_live(expected: Expected, live: Live) -> Step {
    match live {
        Live::Missing => Step::Settled(
            plain_finding(
                CodexConfigConsistencyState::Unavailable,
                Some(expected.provider_id),
                Some(expected.fingerprint),
                None,
                Some("live_config_missing"@),
            ),
        ),
        Live::Failed(fault) => Step::Fail(fault),
        Live::Text(source) => match config_projection::owned_fingerprint(
            source,
            expected.selected,
        ) {
            Err(_) => Step::Settled(
                plain_finding(
                    CodexConfigConsistencyState::Unavailable,
                    Some(expected.provider_id),
                    Some(expected.fingerprint),
                    None,
                    Some("invalid_toml"@),
                ),
            ),
            Ok(actual) => if actual == expected.fingerprint {
                Step::Settled(
                    plain_finding(
                        CodexConfigConsistencyState::Consistent,
                        Some(expected.provider_id),
                        Some(expected.fingerprint),
                        Some(actual),
                        None,
                    ),
                )
            } else {
                match key_paths::changed_between(
                    config_projection::projection(expected.text, expected.selected),
                    config_projection::projection(source, expected.selected),
                ) {
                    Err(fault) => Step::Fail(fault),
                    Ok(changed_keys) => Step::Settled(
                        Finding {
                            state: CodexConfigConsistencyState::ExternalDrift,
                            provider_id: Some(expected.provider_id),
                            expected_fingerprint: Some(expected.fingerprint),
                            actual_fingerprint: Some(actual),
                            changed_keys,
                            reason: Some("live_config_changed"@),
                        },
                    ),
                }
            },
        },
    }
}

/// What an answer leads to. An answer to something else than what is to be known
/// changes nothing.
pub open spec fn next_step(phase: Phase, answer: Answer) -> Step {
    match (phase, answer) {
        (Phase::Startup, Answer::Startup(pending)) => if pending {
            Step::Pending
        } else {
            Step::Continue(Phase::CurrentProvider)
        },
        (Phase::CurrentProvider, Answer::CurrentProvider(current)) => match current {
            Err(fault) => Step::Fail(fault),
            Ok(None) => Step::Settled(
                plain_finding(
                    CodexConfigConsistencyState::NotApplicable,
                    None,
                    None,
                    None,
                    Some("no_current_provider"@),
                ),
            ),
            Ok(Some(id)) => Step::Continue(Phase::Takeover(id)),
        },
        (Phase::Takeover(id), Answer::Takeover(live_active, expected)) => if live_active {
            Step::Settled(
                plain_finding(
                    CodexConfigConsistencyState::NotApplicable,
                    Some(id),
                    None,
                    None,
                    Some("proxy_takeover_active"@),
                ),
            )
        } else if expected {
            Step::Continue(Phase::TakeoverLive(id))
        } else {
            Step::Continue(Phase::ProviderRecord(id))
        },
        (Phase::TakeoverLive(id), Answer::Live(live)) => judge_takeover(id, live),
        (Phase::ProviderRecord(id), Answer::ProviderRecord(known)) => match known {
            Err(fault) => Step::Fail(fault),
            Ok(false) => Step::Fail(missing_provider_fault()),
            Ok(true) => Step::Continue(Phase::ExpectedText(id)),
        },
        (Phase::ExpectedText(id), Answer::ExpectedText(built)) => expect(id, built),
        (Phase::LiveText(expected), Answer::Live(live)) => judge_live(expected, live),
        _ => Step::Continue(phase),
    }
}

/// Judges a live text where the proxy should have taken over.
fn judge_takeover_live(provider_id: String, live: LiveConfig) -> (r: InspectStep)
    ensures
        r@ == judge_takeover(provider_id@, live@),
{
    match live {
        LiveConfig::Missing => InspectStep::Settled(
            make_finding(
                CodexConfigConsistencyState::Unavailable,
                Some(provider_id),
                None,
                None,
                Some("live_config_missing"),
            ),
        ),
        LiveConfig::Failed(e) => InspectStep::Fail(e),
        LiveConfig::Text(source) => match activation::fingerprint_of_own_provider(
            source.as_str(),
        ) {
            Err(e) => InspectStep::Fail(e),
            Ok(actual) => InspectStep::Settled(
                make_finding(
                    CodexConfigConsistencyState::ExternalDrift,
                    Some(provider_id),
                    None,
                    Some(actual),
                    Some("takeover_projection_drift"),
                ),
            ),
        },
    }
}

/// Takes in the configuration that the provider asks for.
fn take_expected(provider_id: String, built: Option<String>) -> (r: InspectStep)
    ensures
        r@ == expect(provider_id@, text::opt_view(built)),
{
    let source = match built {
        Some(source) => source,
        None => return InspectStep::Settled(
            make_finding(
                CodexConfigConsistencyState::Unavailable,
                Some(provider_id),
                None,
                None,
                Some("expected_config_unavailable"),
            ),
        ),
    };
    let selected = match config_projection::active_model_provider_id_from_text(source.as_str()) {
        Ok(selected) => selected,
        Err(e) => return InspectStep::Fail(e),
    };
    match config_projection::managed_fingerprint(source.as_str(), text::borrow_opt(&selected)) {
        Ok(fingerprint) => InspectStep::Continue(
            InspectState::LiveText {
                expected: ExpectedConfig { provider_id, text: source, selected, fingerprint },
            },
        ),
        Err(e) => InspectStep::Fail(e),
    }
}

/// Judges a live text beside the expected one.
fn judge_live_text(expected: ExpectedConfig, live: LiveConfig) -> (r: InspectStep)
    ensures
        r@ == judge_live(expected@, live@),
{
    let source = match live {
        LiveConfig::Missing => return InspectStep::Settled(
            make_finding(
                CodexConfigConsistencyState::Unavailable,
                Some(expected.provider_id),
                Some(expected.fingerprint),
                None,
                Some("live_config_missing"),
            ),
        ),
        LiveConfig::Failed(e) => return InspectStep::Fail(e),
        LiveConfig::Text(source) => source,
    };
    let hint = text::borrow_opt(&expected.selected);
    let actual = match config_projection::managed_fingerprint(source.as_str(), hint) {
        Ok(actual) => actual,
        Err(_) => return InspectStep::Settled(
            make_finding(
                CodexConfigConsistencyState::Unavailable,
                Some(expected.provider_id),
                Some(expected.fingerprint),
                None,
                Some("invalid_toml"),
            ),
        ),
    };
    if text::same(expected.fingerprint.as_str(), actual.as_str()) {
        return InspectStep::Settled(
            make_finding(
                CodexConfigConsistencyState::Consistent,
                Some(expected.provider_id),
                Some(expected.fingerprint),
                Some(actual),
                None,
            ),
        );
    }
    match key_paths::changed_managed_key_paths(expected.text.as_str(), source.as_str(), hint) {
        Ok(changed_keys) => InspectStep::Settled(
            InspectionFinding {
                state: CodexConfigConsistencyState::ExternalDrift,
                provider_id: Some(expected.provider_id),
                expected_fingerprint: Some(expected.fingerprint),
                actual_fingerprint: Some(actual),
                changed_keys,
                reason: Some("live_config_changed".to_owned()),
            },
        ),
        Err(e) => InspectStep::Fail(e),
    }
}

/// The start of an inspection.
pub fn begin_inspection() -> (r: InspectState)
    ensures
        r@ == Phase::Startup,
{
    InspectState::Startup
}

/// Takes an inspection one step further by an answer to what it has to know.
pub fn inspect(state: InspectState, event: InspectEvent) -> (r: InspectStep)
    ensures
        r@ == next_step(state@, event@),
{
    match (state, event) {
        (InspectState::Startup, InspectEvent::Startup { pending }) => if pending {
            InspectStep::Pending
        } else {
            InspectStep::Continue(InspectState::CurrentProvider)
        },
        (InspectState::CurrentProvider, InspectEvent::CurrentProvider(current)) => match current {
            Err(e) => InspectStep::Fail(e),
            Ok(None) => InspectStep::Settled(
                make_finding(
                    CodexConfigConsistencyState::NotApplicable,
                    None,
                    None,
                    None,
                    Some("no_current_provider"),
                ),
            ),
            Ok(Some(provider_id)) => InspectStep::Continue(InspectState::Takeover { provider_id }),
        },
        (InspectState::Takeover { provider_id }, InspectEvent::Takeover { live_active, expected })
            => if live_active {
            InspectStep::Settled(
                make_finding(
                    CodexConfigConsistencyState::NotApplicable,
                    Some(provider_id),
                    None,
                    None,
                    Some("proxy_takeover_active"),
                ),
            )
        } else if expected {
            InspectStep::Continue(InspectState::TakeoverLive { provider_id })
        } else {
            InspectStep::Continue(InspectState::ProviderRecord { provider_id })
        },
        (InspectState::TakeoverLive { provider_id }, InspectEvent::Live(live))
            => judge_takeover_live(provider_id, live),
        (InspectState::ProviderRecord { provider_id }, InspectEvent::ProviderRecord(known))
            => match known {
            Err(e) => InspectStep::Fail(e),
            Ok(known) => if known {
                InspectStep::Continue(InspectState::ExpectedText { provider_id })
            } else {
                InspectStep::Fail(AppError::config("Codex current provider is missing"))
            },
        },
        (InspectState::ExpectedText { provider_id }, InspectEvent::ExpectedText(built))
            => take_expected(provider_id, built),
        (InspectState::LiveText { expected }, InspectEvent::Live(live)) => judge_live_text(
            expected,
            live,
        ),
        (state, _) => InspectStep::Continue(state),
    }
}

// ---------------------------------------------------------------------------
// Resolution

/// What an action comes to.
#[derive(Debug, PartialEq, Eq)]
pub enum ResolvePlan {
    /// Nothing: the report stands.
    Stand,
    /// The live configuration is accepted: record these settings, in order, and let
    /// the report stand.
    Acknowledge { settings: Vec<(String, String)> },
    /// The owned part of this provider's configuration is to be written.
    Apply { provider_id: String },
}

/// What a [`ResolvePlan`] says.
#[verifier::ext_equal]
pub enum Plan {
    Stand,
    Acknowledge(Seq<(Seq<char>, Seq<char>)>),
    Apply(Seq<char>),
}

/// What settings say.
pub open spec fn settings_view(settings: Seq<(String, String)>) -> Seq<(Seq<char>, Seq<char>)> {
    settings.map_values(|setting: (String, String)| (setting.0@, setting.1@))
}

impl View for ResolvePlan {
    type V = Plan;

    open spec fn view(&self) -> Plan {
        match *self {
            ResolvePlan::Stand => Plan::Stand,
            ResolvePlan::Acknowledge { settings } => Plan::Acknowledge(settings_view(settings@)),
            ResolvePlan::Apply { provider_id } => Plan::Apply(provider_id@),
        }
    }
}

/// The reason of a finding that the proxy should have taken over.
pub open spec fn is_takeover_drift(finding: Finding) -> bool {
    finding.reason == Some("takeover_projection_drift"@)
}

/// The error for changes of Codex that cannot be kept.
pub open spec fn cannot_keep_fault() -> AppFault {
    AppFault::InvalidInput("cannot_keep_codex_changes_while_takeover_enabled"@)
}

/// The error for a live configuration that is not the one that was seen.
pub open spec fn stale_fault() -> AppFault {
    AppFault::InvalidInput("codex_config_consistency_stale_fingerprint"@)
}

/// What an action on a finding comes to. `seen` is the fingerprint of the live
/// configuration that the action was decided on.
pub open spec fn resolution(
    finding: Finding,
    seen: Seq<char>,
    action: CodexConfigConsistencyAction,
) -> Result<Plan, AppFault> {
    match finding.actual_fingerprint {
        None => Ok(Plan::Stand),
        Some(actual) => match action {
            CodexConfigConsistencyAction::Later => Ok(Plan::Stand),
            CodexConfigConsistencyAction::KeepCodex => if is_takeover_drift(finding) {
                Err(cannot_keep_fault())
            } else {
                Ok(
                    Plan::Acknowledge(
                        seq![
                            (LAST_ACTION_KEY@, "keep_codex"@),
                            (LAST_ACTUAL_FINGERPRINT_KEY@, actual),
                            (
                                LAST_PROVIDER_ID_KEY@,
                                match finding.provider_id {
                                    Some(id) => id,
                                    None => ""@,
                                },
                            ),
                        ],
                    ),
                )
            },
            CodexConfigConsistencyAction::ApplyCcsm => if seen != actual {
                Err(stale_fault())
            } else {
                match finding.provider_id {
                    Some(id) => Ok(Plan::Apply(id)),
                    None => Err(missing_provider_fault()),
                }
            },
        },
    }
}

/// What a fallible plan says.
pub open spec fn plan_result(r: Result<ResolvePlan, AppError>) -> Result<Plan, AppFault> {
    match r {
        Ok(plan) => Ok(plan@),
        Err(e) => Err(e@),
    }
}

/// Whether a report says that the proxy should have taken over.
fn says_takeover_drift(current: &CodexConfigConsistencyReport) -> (r: bool)
    ensures
        r == is_takeover_drift(current.finding()),
{
    text::same_opt(text::borrow_opt(&current.reason), Some("takeover_projection_drift"))
}

/// Decides what an action on a report comes to.
pub fn resolve(
    current: &CodexConfigConsistencyReport,
    expected_fingerprint: &str,
    action: CodexConfigConsistencyAction,
) -> (r: Result<ResolvePlan, AppError>)
    ensures
        plan_result(r) == resolution(current.finding(), expected_fingerprint@, action),
{
    if action == CodexConfigConsistencyAction::Later {
        return Ok(ResolvePlan::Stand);
    }
    let actual = match &current.actual_fingerprint {
        Some(actual) => actual,
        None => return Ok(ResolvePlan::Stand),
    };
    if action == CodexConfigConsistencyAction::KeepCodex {
        if says_takeover_drift(current) {
            return Err(
                AppError::invalid_input("cannot_keep_codex_changes_while_takeover_enabled"),
            );
        }
        let provider_id = match &current.provider_id {
            Some(id) => id.clone(),
            None => "".to_owned(),
        };
        let mut settings: Vec<(String, String)> = Vec::new();
        settings.push((LAST_ACTION_KEY.to_owned(), "keep_codex".to_owned()));
        settings.push((LAST_ACTUAL_FINGERPRINT_KEY.to_owned(), actual.clone()));
        settings.push((LAST_PROVIDER_ID_KEY.to_owned(), provider_id));
        assert(settings_view(settings@) =~= resolution(
            current.finding(),
            expected_fingerprint@,
            action,
        )->Ok_0->Acknowledge_0);
        return Ok(ResolvePlan::Acknowledge { settings });
    }
    if !text::same(expected_fingerprint, actual.as_str()) {
        return Err(AppError::invalid_input("codex_config_consistency_stale_fingerprint"));
    }
    match &current.provider_id {
        Some(id) => Ok(ResolvePlan::Apply { provider_id: id.clone() }),
        None => Err(AppError::config("Codex current provider is missing")),
    }
}

/// What an action that came as a command comes to.
#[derive(Debug, Clone, Copy, PartialEq, Eq, Structural)]
pub enum CommandPlan {
    /// Resolve it, on a new report.
    Resolve,
    /// Nothing: the report stands.
    Stand,
    /// Let the proxy take over, and report anew.
    TakeOver,
}

/// What an action that came as a command comes to.
pub open spec fn command_plan(
    finding: Finding,
    seen: Seq<char>,
    action: CodexConfigConsistencyAction,
) -> Result<CommandPlan, AppFault> {
    if !is_takeover_drift(finding) {
        Ok(CommandPlan::Resolve)
    } else {
        match action {
            CodexConfigConsistencyAction::Later => Ok(CommandPlan::Stand),
            CodexConfigConsistencyAction::KeepCodex => Err(cannot_keep_fault()),
            CodexConfigConsistencyAction::ApplyCcsm => match finding.actual_fingerprint {
                None => Err(
                    AppFault::Config("Codex live configuration fingerprint is missing"@),
                ),
                Some(actual) => if actual != seen {
                    Err(stale_fault())
                } else {
                    Ok(CommandPlan::TakeOver)
                },
            },
        }
    }
}

/// Decides what an action that came as a command comes to.
pub fn resolve_for_command(
    current: &CodexConfigConsistencyReport,
    expected_fingerprint: &str,
    action: CodexConfigConsistencyAction,
) -> (r: Result<CommandPlan, AppError>)
    ensures
        match command_plan(current.finding(), expected_fingerprint@, action) {
            Ok(plan) => r == Ok::<CommandPlan, AppError>(plan),
            Err(fault) => r matches Err(e) && e@ == fault,
        },
{
    if !says_takeover_drift(current) {
        return Ok(CommandPlan::Resolve);
    }
    match action {
        CodexConfigConsistencyAction::Later => Ok(CommandPlan::Stand),
        CodexConfigConsistencyAction::KeepCodex => Err(
            AppError::invalid_input("cannot_keep_codex_changes_while_takeover_enabled"),
        ),
        CodexConfigConsistencyAction::ApplyCcsm => match &current.actual_fingerprint {
            None => Err(AppError::config("Codex live configuration fingerprint is missing")),
            Some(actual) => if text::same(actual.as_str(), expected_fingerprint) {
                Ok(CommandPlan::TakeOver)
            } else {
                Err(AppError::invalid_input("codex_config_consistency_stale_fingerprint"))
            },
        },
    }
}

/// How the owned part of the configuration is written anew.
#[derive(Debug, PartialEq, Eq)]
pub enum ReprojectPlan {
    /// Let the proxy take over.
    TakeOver,
    /// Merge the configuration of this provider into the live one.
    Merge { provider_id: String },
}

/// The provider whose configuration is merged into the live one, where the proxy is not to
/// take over instead.
pub open spec fn provider_to_merge(
    current_provider: Option<Seq<char>>,
    takeover_expected: bool,
) -> Result<Option<Seq<char>>, AppFault> {
    match current_provider {
        None => Err(missing_provider_fault()),
        Some(id) => Ok(
            if takeover_expected {
                None
            } else {
                Some(id)
            },
        ),
    }
}

/// Decides how the owned part of the configuration is written anew, once Codex has
/// ended.
pub fn reproject_current_ccsm_config(
    current_provider: Option<String>,
    takeover_expected: bool,
) -> (r: Result<ReprojectPlan, AppError>)
    ensures
        match current_provider {
            None => r matches Err(e) && e@ == missing_provider_fault(),
            Some(id) => if takeover_expected {
                r matches Ok(ReprojectPlan::TakeOver)
            } else {
                r matches Ok(ReprojectPlan::Merge { provider_id }) && provider_id@ == id@
            },
        },
        match provider_to_merge(text::opt_view(current_provider), takeover_expected) {
            Err(fault) => r matches Err(e) && e@ == fault,
            Ok(None) => r matches Ok(ReprojectPlan::TakeOver),
            Ok(Some(id)) => r matches Ok(ReprojectPlan::Merge { provider_id }) && provider_id@
                == id,
        },
{
    match current_provider {
        None => Err(AppError::config("Codex current provider is missing")),
        Some(provider_id) => if takeover_expected {
            Ok(ReprojectPlan::TakeOver)
        } else {
            Ok(ReprojectPlan::Merge { provider_id })
        },
    }
}

/// Why a live configuration must not be repaired, where it must not: it is not the
/// one that the repair was decided on.
pub open spec fn repair_fault(live: Seq<char>, candidate: Seq<char>, seen: Seq<char>) -> Option<
    AppFault,
> {
    match data_text::toml_parsed(candidate) {
        Err(message) => Some(config_projection::parse_fault(message)),
        Ok(value) => match config_projection::owned_fingerprint(
            live,
            config_projection::active_provider_of(value),
        ) {
            Err(fault) => Some(fault),
            Ok(observed) => if observed != seen {
                Some(stale_fault())
            } else {
                None
            },
        },
    }
}

/// Makes sure that a live configuration is still the one that a repair was decided
/// on, before it is saved and repaired.
pub fn confirm_live_config(live: &str, candidate: &str, expected_fingerprint: &str) -> (r: Result<
    (),
    AppError,
>)
    ensures
        match repair_fault(live@, candidate@, expected_fingerprint@) {
            Some(fault) => r matches Err(e) && e@ == fault,
            None => r is Ok,
        },
{
    let hint = match config_projection::active_model_provider_id_from_text(candidate) {
        Ok(hint) => hint,
        Err(e) => return Err(e),
    };
    let observed = match config_projection::managed_fingerprint(live, text::borrow_opt(&hint)) {
        Ok(observed) => observed,
        Err(e) => return Err(e),
    };
    if text::same(observed.as_str(), expected_fingerprint) {
        Ok(())
    } else {
        Err(AppError::invalid_input("codex_config_consistency_stale_fingerprint"))
    }
}

/// The name of the copy of a live configuration that is kept before a repair.
pub fn drift_backup_name(timestamp: &str) -> (r: String)
    ensures
        r@ == "config.toml.ccsm-drift-"@ + timestamp@ + ".bak"@,
{
    text::joined(text::joined("config.toml.ccsm-drift-", timestamp).as_str(), ".bak")
}

/// The name of the copy of a live configuration that is kept before the owned part
/// is written anew.
pub fn refresh_backup_name(timestamp: &str) -> (r: String)
    ensures
        r@ == "config.toml.ccsm-runtime-refresh-"@ + timestamp@ + ".bak"@,
{
    text::joined(text::joined("config.toml.ccsm-runtime-refresh-", timestamp).as_str(), ".bak")
}

// ---------------------------------------------------------------------------
// Laws

/// What an inspection may come to know.
pub struct Circumstances {
    pub pending: bool,
    pub current_provider: Result<Option<Seq<char>>, AppFault>,
    pub takeover_active: bool,
    pub takeover_expected: bool,
    pub provider_record: Result<bool, AppFault>,
    pub expected_text: Option<Seq<char>>,
    pub live: Live,
}

/// The answer that circumstances give.
pub open spec fn answer_in(circumstances: Circumstances, phase: Phase) -> Answer {
    match phase {
        Phase::Startup => Answer::Startup(circumstances.pending),
        Phase::CurrentProvider => Answer::CurrentProvider(circumstances.current_provider),
        Phase::Takeover(_) => Answer::Takeover(
            circumstances.takeover_active,
            circumstances.takeover_expected,
        ),
        Phase::TakeoverLive(_) => Answer::Live(circumstances.live),
        Phase::ProviderRecord(_) => Answer::ProviderRecord(circumstances.provider_record),
        Phase::ExpectedText(_) => Answer::ExpectedText(circumstances.expected_text),
        Phase::LiveText(_) => Answer::Live(circumstances.live),
    }
}

/// What an inspection comes to within a number of steps.
pub open spec fn run(circumstances: Circumstances, phase: Phase, steps: nat) -> Step
    decreases steps,
{
    if steps == 0 {
        Step::Continue(phase)
    } else {
        match next_step(phase, answer_in(circumstances, phase)) {
            Step::Continue(next) => run(circumstances, next, (steps - 1) as nat),
            step => step,
        }
    }
}

/// What an inspection finds under circumstances.
pub open spec fn inspection(circumstances: Circumstances) -> Step {
    if circumstances.pending {
        Step::Pending
    } else {
        match circumstances.current_provider {
            Err(fault) => Step::Fail(fault),
            Ok(None) => Step::Settled(
                plain_finding(
                    CodexConfigConsistencyState::NotApplicable,
                    None,
                    None,
                    None,
                    Some("no_current_provider"@),
                ),
            ),
            Ok(Some(id)) => if circumstances.takeover_active {
                Step::Settled(
                    plain_finding(
                        CodexConfigConsistencyState::NotApplicable,
                        Some(id),
                        None,
                        None,
                        Some("proxy_takeover_active"@),
                    ),
                )
            } else if circumstances.takeover_expected {
                judge_takeover(id, circumstances.live)
            } else {
                match circumstances.provider_record {
                    Err(fault) => Step::Fail(fault),
                    Ok(false) => Step::Fail(missing_provider_fault()),
                    Ok(true) => match expect(id, circumstances.expected_text) {
                        Step::Continue(Phase::LiveText(expected)) => judge_live(
                            expected,
                            circumstances.live,
                        ),
                        step => step,
                    },
                }
            },
        }
    }
}

/// An inspection ends after six steps at most, and what it comes to is what it
/// finds under the circumstances that gave its answers.
pub proof fn law_inspection_ends(circumstances: Circumstances, steps: nat)
    requires
        steps >= 6,
    ensures
        run(circumstances, Phase::Startup, steps) == inspection(circumstances),
        !(inspection(circumstances) is Continue),
{
    reveal_with_fuel(run, 8);
}

/// What a finding says fits together: it has no reason exactly where the configuration
/// is consistent, a consistent configuration has the expected fingerprint and no
/// changed path, and changed paths are listed only for a drift
/// of the live configuration.
pub proof fn law_findings_fit(circumstances: Circumstances)
    ensures
        inspection(circumstances) matches Step::Settled(finding) ==> {
            &&& finding.reason is None <==> finding.state
                == CodexConfigConsistencyState::Consistent
            &&& finding.state == CodexConfigConsistencyState::Consistent ==> {
                &&& finding.actual_fingerprint is Some
                &&& finding.actual_fingerprint == finding.expected_fingerprint
                &&& finding.changed_keys.len() == 0
            }
            &&& finding.changed_keys.len() > 0 ==> {
                &&& finding.state == CodexConfigConsistencyState::ExternalDrift
                &&& finding.actual_fingerprint != finding.expected_fingerprint
            }
            &&& finding.state == CodexConfigConsistencyState::ExternalDrift
                ==> finding.actual_fingerprint is Some && finding.provider_id is Some
        },
{
}

/// A repair is found consistent: where the live text reads as the expected
/// configuration merged into any other, and nothing keeps the inspection from
/// comparing them, it settles as consistent.
pub proof fn law_repaired_config_is_consistent(
    circumstances: Circumstances,
    provider_id: Seq<char>,
    expected_text: Seq<char>,
    expected: Map<Seq<char>, Toml>,
    before: Map<Seq<char>, Toml>,
    live_text: Seq<char>,
)
    requires
        !circumstances.pending,
        circumstances.current_provider == Ok::<Option<Seq<char>>, AppFault>(Some(provider_id)),
        !circumstances.takeover_active,
        !circumstances.takeover_expected,
        circumstances.provider_record == Ok::<bool, AppFault>(true),
        circumstances.expected_text == Some(expected_text),
        circumstances.live == Live::Text(live_text),
        data_text::toml_parsed(expected_text) == Ok::<Toml, Seq<char>>(Toml::Table(expected)),
        data_text::toml_parsed(live_text) == Ok::<Toml, Seq<char>>(
            Toml::Table(config_merge::merged(before, expected)),
        ),
    ensures
        inspection(circumstances) matches Step::Settled(finding) && finding.state
            == CodexConfigConsistencyState::Consistent,
{
    config_merge::law_repair_reads_as_consistent(before, expected, expected_text, live_text);
}

/// A configuration that was merged is found consistent: where the live text is an
/// outcome of a merge with the expected text that can be read again, and nothing
/// keeps the inspection from comparing them, it settles as consistent.
pub proof fn law_merged_config_is_consistent(
    circumstances: Circumstances,
    provider_id: Seq<char>,
    before_text: Seq<char>,
    expected_text: Seq<char>,
    live_text: Seq<char>,
)
    requires
        !circumstances.pending,
        circumstances.current_provider == Ok::<Option<Seq<char>>, AppFault>(Some(provider_id)),
        !circumstances.takeover_active,
        !circumstances.takeover_expected,
        circumstances.provider_record == Ok::<bool, AppFault>(true),
        circumstances.expected_text == Some(expected_text),
        circumstances.live == Live::Text(live_text),
        config_merge::is_readable_merge(before_text, expected_text, live_text),
        config_merge::is_plain_text(before_text),
        config_merge::is_plain_text(expected_text),
    ensures
        inspection(circumstances) matches Step::Settled(finding) && finding.state
            == CodexConfigConsistencyState::Consistent,
{
    config_merge::law_merged_text_restores_owned_part(before_text, expected_text, live_text);
}

/// Putting a decision off records nothing and changes nothing, whatever was found.
pub proof fn law_later_changes_nothing(finding: Finding, seen: Seq<char>)
    ensures
        resolution(finding, seen, CodexConfigConsistencyAction::Later) == Ok::<Plan, AppFault>(
            Plan::Stand,
        ),
{
}

/// Only keeping records settings, and only applying writes: with a live
/// configuration that is not the one that was seen, applying is refused, and where
/// the proxy should have taken over, keeping is.
pub proof fn law_actions_do_what_they_say(
    finding: Finding,
    seen: Seq<char>,
    action: CodexConfigConsistencyAction,
)
    ensures
        resolution(finding, seen, action) matches Ok(Plan::Acknowledge(settings)) ==> {
            &&& action == CodexConfigConsistencyAction::KeepCodex
            &&& !is_takeover_drift(finding)
            &&& settings.len() == 3
            &&& finding.actual_fingerprint == Some(settings[1].1)
        },
        resolution(finding, seen, action) matches Ok(Plan::Apply(id)) ==> {
            &&& action == CodexConfigConsistencyAction::ApplyCcsm
            &&& finding.actual_fingerprint == Some(seen)
            &&& finding.provider_id == Some(id)
        },
        finding.actual_fingerprint is Some && finding.actual_fingerprint != Some(seen)
            ==> resolution(finding, seen, CodexConfigConsistencyAction::ApplyCcsm) == Err::<
            Plan,
            AppFault,
        >(stale_fault()),
        finding.actual_fingerprint is Some && is_takeover_drift(finding) ==> resolution(
            finding,
            seen,
            CodexConfigConsistencyAction::KeepCodex,
        ) == Err::<Plan, AppFault>(cannot_keep_fault()),
{
}

/// The fingerprint that an inspection reports is the one that a repair of the
/// same configuration checks: an action that was decided on a report is not
/// refused as stale while nothing changes.
pub proof fn law_reported_fingerprint_is_accepted(
    expected: Expected,
    live: Seq<char>,
    finding: Finding,
)
    requires
        data_text::toml_parsed(expected.text) is Ok,
        expected.selected == config_projection::active_provider_of(
            data_text::toml_parsed(expected.text)->Ok_0,
        ),
        judge_live(expected, Live::Text(live)) == Step::Settled(finding),
        finding.actual_fingerprint is Some,
    ensures
        repair_fault(live, expected.text, finding.actual_fingerprint->0) is None,
{
}

} // verus!
