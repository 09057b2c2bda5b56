//! Laws on the inspection of the live configuration: what is found in which
//! circumstances, what a drift says, and what may be done about it.

use crate::activation;
use crate::config_projection;
use crate::consistency;
use crate::consistency::{
    Answer, Circumstances, CodexConfigConsistencyAction, CodexConfigConsistencyState, CommandPlan,
    Expected, Finding, Live, Phase, Plan, Step,
};
use crate::data_text;
use crate::errors::AppFault;
use crate::json::Json;
use crate::key_paths;
use vstd::prelude::*;

verus! {

// ---------------------------------------------------------------------------
// What is found

/// Whether an inspection ended with this finding, without changed keys.
pub open spec fn finds(
    step: Step,
    state: CodexConfigConsistencyState,
    provider_id: Option<Seq<char>>,
    expected: Option<Seq<char>>,
    actual: Option<Seq<char>>,
    reason: Option<Seq<char>>,
) -> bool {
    &&& step matches Step::Settled(finding)
    &&& finding.state == state
    &&& finding.provider_id == provider_id
    &&& finding.expected_fingerprint == expected
    &&& finding.actual_fingerprint == actual
    &&& finding.changed_keys.len() == 0
    &&& finding.reason == reason
}

/// Whether an inspection ended with a drift of the owned part from one value to
/// another, and tells both fingerprints and the keys that changed.
pub open spec fn finds_drift(
    step: Step,
    provider_id: Seq<char>,
    expected: Seq<char>,
    actual: Seq<char>,
    before: Json,
    after: Json,
) -> bool {
    &&& step matches Step::Settled(finding)
    &&& finding.state == CodexConfigConsistencyState::ExternalDrift
    &&& finding.provider_id == Some(provider_id)
    &&& finding.expected_fingerprint == Some(expected)
    &&& finding.actual_fingerprint == Some(actual)
    &&& key_paths::lists_first_changes(finding.changed_keys, before, after)
    &&& finding.reason == Some("live_config_changed"@)
}

/// A live configuration is judged by its owned part alone. Where that can be read and
/// its fingerprint is the expected one, the configuration is consistent; where it can
/// be read and its fingerprint is another, this is a drift, however many keys have
/// changed, and it tells which; only where it cannot be read is it unavailable for being
/// no valid TOML.
pub proof fn law_drift_is_reported(expected: Expected, source: Seq<char>, before: Json)
    requires
        config_projection::projection(expected.text, expected.selected) == Ok::<Json, AppFault>(
            before,
        ),
    ensures
        ({
            let step = consistency::judge_live(expected, Live::Text(source));
            match config_projection::projection(source, expected.selected) {
                Err(_) => finds(
                    step,
                    CodexConfigConsistencyState::Unavailable,
                    Some(expected.provider_id),
                    Some(expected.fingerprint),
                    None,
                    Some("invalid_toml"@),
                ),
                Ok(after) => {
                    &&& config_projection::json_fingerprint(after) matches Ok(actual)
                    &&& actual == expected.fingerprint ==> finds(
                        step,
                        CodexConfigConsistencyState::Consistent,
                        Some(expected.provider_id),
                        Some(expected.fingerprint),
                        Some(actual),
                        None,
                    )
                    &&& actual != expected.fingerprint ==> finds_drift(
                        step,
                        expected.provider_id,
                        expected.fingerprint,
                        actual,
                        before,
                        after,
                    )
                },
            }
        }),
{
    if let Ok(after) = config_projection::projection(source, expected.selected) {
        key_paths::law_changes_are_listed_in_order(before, after);
    }
}

/// While recovery at startup is pending, nothing is inspected.
pub proof fn law_pending_recovery_comes_first(circumstances: Circumstances)
    ensures
        consistency::run(circumstances, Phase::Startup, 6) is Pending <==> circumstances.pending,
{
    reveal_with_fuel(consistency::run, 7);
}

/// Where there is no current provider, or where the proxy has taken over, nothing is to
/// be kept consistent.
pub proof fn law_not_applicable_without_an_own_config(circumstances: Circumstances)
    requires
        !circumstances.pending,
    ensures
        ({
            let step = consistency::run(circumstances, Phase::Startup, 6);
            match circumstances.current_provider {
                Err(fault) => step == Step::Fail(fault),
                Ok(None) => finds(
                    step,
                    CodexConfigConsistencyState::NotApplicable,
                    None,
                    None,
                    None,
                    Some("no_current_provider"@),
                ),
                Ok(Some(id)) => circumstances.takeover_active ==> finds(
                    step,
                    CodexConfigConsistencyState::NotApplicable,
                    Some(id),
                    None,
                    None,
                    Some("proxy_takeover_active"@),
                ),
            }
        }),
{
    reveal_with_fuel(consistency::run, 7);
}

/// Where the proxy should have taken over and has not, any live configuration that can
/// be read is a drift, with its own fingerprint; one that is missing is unavailable.
pub proof fn law_lost_takeover_is_a_drift(circumstances: Circumstances, provider_id: Seq<char>)
    requires
        !circumstances.pending,
        circumstances.current_provider == Ok::<Option<Seq<char>>, AppFault>(Some(provider_id)),
        !circumstances.takeover_active,
        circumstances.takeover_expected,
    ensures
        ({
            let step = consistency::run(circumstances, Phase::Startup, 6);
            match circumstances.live {
                Live::Missing => finds(
                    step,
                    CodexConfigConsistencyState::Unavailable,
                    Some(provider_id),
                    None,
                    None,
                    Some("live_config_missing"@),
                ),
                Live::Failed(fault) => step == Step::Fail(fault),
                Live::Text(source) => match config_projection::owned_fingerprint(source, None) {
                    Ok(actual) => finds(
                        step,
                        CodexConfigConsistencyState::ExternalDrift,
                        Some(provider_id),
                        None,
                        Some(actual),
                        Some("takeover_projection_drift"@),
                    ),
                    Err(fault) => step == Step::Fail(fault),
                },
            }
        }),
{
    reveal_with_fuel(consistency::run, 7);
    if let Live::Text(source) = circumstances.live {
        activation::law_own_provider_is_the_default(source);
    }
}

/// Where the provider is not known, or its configuration cannot be built or read, there
/// is nothing to compare the live configuration with.
pub proof fn law_nothing_to_compare_with(circumstances: Circumstances, provider_id: Seq<char>)
    requires
        !circumstances.pending,
        circumstances.current_provider == Ok::<Option<Seq<char>>, AppFault>(Some(provider_id)),
        !circumstances.takeover_active,
        !circumstances.takeover_expected,
    ensures
        ({
            let step = consistency::run(circumstances, Phase::Startup, 6);
            match circumstances.provider_record {
                Err(fault) => step == Step::Fail(fault),
                Ok(false) => step == Step::Fail(
                    AppFault::Config("Codex current provider is missing"@),
                ),
                Ok(true) => match circumstances.expected_text {
                    None => finds(
                        step,
                        CodexConfigConsistencyState::Unavailable,
                        Some(provider_id),
                        None,
                        None,
                        Some("expected_config_unavailable"@),
                    ),
                    Some(wanted) => match config_projection::owned_fingerprint(wanted, None) {
                        Err(fault) => step == Step::Fail(fault),
                        Ok(_) => !(step is Pending) && !(step is Continue),
                    },
                },
            }
        }),
{
    reveal_with_fuel(consistency::run, 7);
    if let Some(wanted) = circumstances.expected_text {
        activation::law_own_provider_is_the_default(wanted);
    }
}

/// The provider that a configuration selects, where it can be read.
pub open spec fn selected_by(source: Seq<char>) -> Option<Seq<char>> {
    match data_text::toml_parsed(source) {
        Ok(value) => config_projection::active_provider_of(value),
        Err(_) => None,
    }
}

/// The live configuration is compared with the one that the provider asks for, both read
/// for the provider that the latter selects. The outcome depends on their owned parts
/// alone: consistent where their fingerprints are the same, and otherwise a drift that
/// tells both fingerprints and the first of the keys that changed. A live configuration
/// that is missing or cannot be read is unavailable.
pub proof fn law_live_config_is_compared_with_the_expected_one(
    circumstances: Circumstances,
    provider_id: Seq<char>,
    wanted: Seq<char>,
    before: Json,
    fingerprint: Seq<char>,
)
    requires
        !circumstances.pending,
        circumstances.current_provider == Ok::<Option<Seq<char>>, AppFault>(Some(provider_id)),
        !circumstances.takeover_active,
        !circumstances.takeover_expected,
        circumstances.provider_record == Ok::<bool, AppFault>(true),
        circumstances.expected_text == Some(wanted),
        config_projection::projection(wanted, selected_by(wanted)) == Ok::<Json, AppFault>(before),
        config_projection::json_fingerprint(before) == Ok::<Seq<char>, AppFault>(fingerprint),
    ensures
        ({
            let step = consistency::run(circumstances, Phase::Startup, 6);
            match circumstances.live {
                Live::Missing => finds(
                    step,
                    CodexConfigConsistencyState::Unavailable,
                    Some(provider_id),
                    Some(fingerprint),
                    None,
                    Some("live_config_missing"@),
                ),
                Live::Failed(fault) => step == Step::Fail(fault),
                Live::Text(source) => match config_projection::projection(
                    source,
                    selected_by(wanted),
                ) {
                    Err(_) => finds(
                        step,
                        CodexConfigConsistencyState::Unavailable,
                        Some(provider_id),
                        Some(fingerprint),
                        None,
                        Some("invalid_toml"@),
                    ),
                    Ok(after) => {
                        &&& config_projection::json_fingerprint(after) matches Ok(actual)
                        &&& actual == fingerprint ==> finds(
                            step,
                            CodexConfigConsistencyState::Consistent,
                            Some(provider_id),
                            Some(fingerprint),
                            Some(actual),
                            None,
                        )
                        &&& actual != fingerprint ==> finds_drift(
                            step,
                            provider_id,
                            fingerprint,
                            actual,
                            before,
                            after,
                        )
                    },
                },
            }
        }),
{
    reveal_with_fuel(consistency::run, 7);
    let expected = Expected { provider_id, text: wanted, selected: selected_by(wanted), fingerprint };
    if let Live::Text(source) = circumstances.live {
        law_drift_is_reported(expected, source, before);
    }
}

// ---------------------------------------------------------------------------
// What is done about it

/// An action on a finding does what it says. Without a live fingerprint, and where the
/// action is to wait, the report stands. To keep the live configuration records that
/// this was done, its fingerprint and its provider, unless the proxy should have taken
/// over. To apply the own configuration is done for the provider of the finding, unless
/// the live configuration is not the one that was seen.
pub proof fn law_actions_on_findings(finding: Finding, seen: Seq<char>)
    ensures
        ({
            let wait = consistency::resolution(finding, seen, CodexConfigConsistencyAction::Later);
            let keep = consistency::resolution(
                finding,
                seen,
                CodexConfigConsistencyAction::KeepCodex,
            );
            let apply = consistency::resolution(
                finding,
                seen,
                CodexConfigConsistencyAction::ApplyCcsm,
            );
            let stands = Ok::<Plan, AppFault>(Plan::Stand);
            let lost = finding.reason == Some("takeover_projection_drift"@);
            &&& wait == stands
            &&& finding.actual_fingerprint is None ==> keep == stands && apply == stands
            &&& finding.actual_fingerprint matches Some(actual) ==> {
                &&& lost ==> keep == Err::<Plan, AppFault>(
                    AppFault::InvalidInput("cannot_keep_codex_changes_while_takeover_enabled"@),
                )
                &&& !lost ==> {
                    &&& keep matches Ok(Plan::Acknowledge(settings))
                    &&& settings.len() == 3
                    &&& settings[0].0 == "codex_config_consistency:last_action"@
                    &&& settings[0].1 == "keep_codex"@
                    &&& settings[1].0 == "codex_config_consistency:last_actual_fingerprint"@
                    &&& settings[1].1 == actual
                    &&& settings[2].0 == "codex_config_consistency:last_provider_id"@
                    &&& settings[2].1 == match finding.provider_id {
                        Some(id) => id,
                        None => ""@,
                    }
                }
                &&& seen != actual ==> apply == Err::<Plan, AppFault>(
                    AppFault::InvalidInput("codex_config_consistency_stale_fingerprint"@),
                )
                &&& seen == actual ==> match finding.provider_id {
                    Some(id) => apply == Ok::<Plan, AppFault>(Plan::Apply(id)),
                    None => apply == Err::<Plan, AppFault>(
                        AppFault::Config("Codex current provider is missing"@),
                    ),
                }
            }
        }),
{
}

/// A command is resolved on a new report unless the proxy should have taken over. Then
/// the live configuration cannot be kept, waiting lets the report stand, and applying
/// lets the proxy take over, unless the live configuration is not the one that was seen.
pub proof fn law_commands_on_findings(
    finding: Finding,
    seen: Seq<char>,
    action: CodexConfigConsistencyAction,
)
    ensures
        ({
            let plan = consistency::command_plan(finding, seen, action);
            let lost = finding.reason == Some("takeover_projection_drift"@);
            &&& !lost ==> plan == Ok::<CommandPlan, AppFault>(CommandPlan::Resolve)
            &&& lost && action is Later ==> plan == Ok::<CommandPlan, AppFault>(CommandPlan::Stand)
            &&& lost && action is KeepCodex ==> plan == Err::<CommandPlan, AppFault>(
                AppFault::InvalidInput("cannot_keep_codex_changes_while_takeover_enabled"@),
            )
            &&& lost && action is ApplyCcsm ==> match finding.actual_fingerprint {
                None => plan == Err::<CommandPlan, AppFault>(
                    AppFault::Config("Codex live configuration fingerprint is missing"@),
                ),
                Some(actual) => if seen == actual {
                    plan == Ok::<CommandPlan, AppFault>(CommandPlan::TakeOver)
                } else {
                    plan == Err::<CommandPlan, AppFault>(
                        AppFault::InvalidInput("codex_config_consistency_stale_fingerprint"@),
                    )
                },
            }
        }),
{
}

/// A live configuration is repaired exactly where both configurations can be read and
/// the owned part of the live one, for the provider that the new one selects, has the
/// fingerprint that was seen.
pub proof fn law_repair_needs_the_config_that_was_seen(
    live: Seq<char>,
    candidate: Seq<char>,
    seen: Seq<char>,
)
    ensures
        consistency::repair_fault(live, candidate, seen) is None <==> {
            &&& data_text::toml_parsed(candidate) is Ok
            &&& config_projection::owned_fingerprint(live, selected_by(candidate)) == Ok::<
                Seq<char>,
                AppFault,
            >(seen)
        },
        data_text::toml_parsed(candidate) is Ok ==> match config_projection::owned_fingerprint(
            live,
            selected_by(candidate),
        ) {
            Err(fault) => consistency::repair_fault(live, candidate, seen) == Some(fault),
            Ok(actual) => actual != seen ==> consistency::repair_fault(live, candidate, seen)
                == Some(AppFault::InvalidInput("codex_config_consistency_stale_fingerprint"@)),
        },
{
}

/// The owned part is written anew for the current provider, by the proxy exactly where it
/// should have taken over; without a current provider it is not written.
pub proof fn law_owned_part_is_written_for_the_current_provider(
    current_provider: Option<Seq<char>>,
    takeover_expected: bool,
)
    ensures
        ({
            let plan = consistency::provider_to_merge(current_provider, takeover_expected);
            &&& plan is Err <==> current_provider is None
            &&& plan matches Err(fault) ==> fault == AppFault::Config(
                "Codex current provider is missing"@,
            )
            &&& plan matches Ok(merged) ==> (merged is None <==> takeover_expected)
            &&& plan matches Ok(Some(id)) ==> current_provider == Some(id)
        }),
{
}

/// Whether an answer is one to what is asked for in a phase.
pub open spec fn is_asked_for(phase: Phase, answer: Answer) -> bool {
    match phase {
        Phase::Startup => answer is Startup,
        Phase::CurrentProvider => answer is CurrentProvider,
        Phase::Takeover(_) => answer is Takeover,
        Phase::TakeoverLive(_) => answer is Live,
        Phase::ProviderRecord(_) => answer is ProviderRecord,
        Phase::ExpectedText(_) => answer is ExpectedText,
        Phase::LiveText(_) => answer is Live,
    }
}

/// An answer that nobody asked for changes nothing: the inspection still asks for what it
/// asked for.
pub proof fn law_unasked_answers_change_nothing(phase: Phase, answer: Answer)
    requires
        !is_asked_for(phase, answer),
    ensures
        consistency::next_step(phase, answer) == Step::Continue(phase),
{
}

} // verus!
