//! Whether a running Codex app server has taken up the managed configuration.

use crate::config_merge;
use crate::config_projection;
use crate::data_text;
use crate::digest;
use crate::errors::{AppError, AppFault};
use crate::listing;
use crate::text;
use crate::toml_value::Toml;
use vstd::prelude::*;

verus! {

/// The name of the file that records the last managed write.
pub const MANAGED_ACTIVATION_RECEIPT_FILENAME: &'static str = "codex-managed-config-activation.json";

/// The record of the last managed write.
#[derive(Debug, Clone, PartialEq, Eq)]
pub struct CodexManagedConfigActivationReceipt {
    pub managed_fingerprint: String,
    pub written_at_ms: i64,
    pub written_at: String,
}

/// Whether a running app server has taken up the managed configuration.
#[derive(Debug, Clone, Copy, PartialEq, Eq, Structural)]
pub enum CodexConfigRuntimeActivationState {
    NotRunning,
    Current,
    RestartRequired,
    Unknown,
}

/// Whether a running app server has taken up the managed configuration, and why
/// that is thought.
#[derive(Debug, Clone, PartialEq, Eq)]
pub struct CodexConfigRuntimeActivation {
    pub state: CodexConfigRuntimeActivationState,
    pub app_server_started_at: Option<String>,
    pub config_modified_at: Option<String>,
    pub reason: Option<String>,
}

/// What a [`CodexConfigRuntimeActivation`] says.
pub struct Activation {
    pub state: CodexConfigRuntimeActivationState,
    pub app_server_started_at: Option<Seq<char>>,
    pub config_modified_at: Option<Seq<char>>,
    pub reason: Option<Seq<char>>,
}

impl View for CodexConfigRuntimeActivation {
    type V = Activation;

    open spec fn view(&self) -> Activation {
        Activation {
            state: self.state,
            app_server_started_at: text::opt_view(self.app_server_started_at),
            config_modified_at: text::opt_view(self.config_modified_at),
            reason: text::opt_view(self.reason),
        }
    }
}

/// The state that the evidence shows, and the reason for it.
pub open spec fn activation_verdict(
    started_ms: Option<i64>,
    written_ms: Option<i64>,
    receipt_fingerprint: Option<Seq<char>>,
    actual_fingerprint: Option<Seq<char>>,
    detection_failed: bool,
) -> (CodexConfigRuntimeActivationState, Option<Seq<char>>) {
    if detection_failed {
        (CodexConfigRuntimeActivationState::Unknown, Some("app_server_detection_failed"@))
    } else if started_ms is None {
        (CodexConfigRuntimeActivationState::NotRunning, None)
    } else if written_ms is None {
        (
            CodexConfigRuntimeActivationState::Unknown,
            Some("managed_config_activation_receipt_unavailable"@),
        )
    } else if receipt_fingerprint != actual_fingerprint {
        (
            CodexConfigRuntimeActivationState::Unknown,
            Some("managed_config_activation_receipt_mismatch"@),
        )
    } else if started_ms->0 < written_ms->0 {
        (
            CodexConfigRuntimeActivationState::RestartRequired,
            Some("app_server_started_before_managed_config"@),
        )
    } else {
        (CodexConfigRuntimeActivationState::Current, None)
    }
}

/// Judges whether the app server has taken up the managed configuration by when
/// it started, when the configuration was written, and whether the record fits.
pub fn runtime_activation_from_managed_receipt_evidence(
    app_server_started_at_ms: Option<i64>,
    managed_config_written_at_ms: Option<i64>,
    receipt_managed_fingerprint: Option<&str>,
    actual_managed_fingerprint: Option<&str>,
    app_server_started_at: Option<String>,
    managed_config_written_at: Option<String>,
    detection_error: Option<String>,
) -> (r: CodexConfigRuntimeActivation)
    ensures
        ({
            let verdict = activation_verdict(
                app_server_started_at_ms,
                managed_config_written_at_ms,
                text::opt_str_view(receipt_managed_fingerprint),
                text::opt_str_view(actual_managed_fingerprint),
                detection_error is Some,
            );
            r@ == Activation {
                state: verdict.0,
                app_server_started_at: text::opt_view(app_server_started_at),
                config_modified_at: text::opt_view(managed_config_written_at),
                reason: verdict.1,
            }
        }),
{
    let (state, reason): (CodexConfigRuntimeActivationState, Option<&str>) =
        if detection_error.is_some() {
        (CodexConfigRuntimeActivationState::Unknown, Some("app_server_detection_failed"))
    } else {
        match (app_server_started_at_ms, managed_config_written_at_ms) {
            (None, _) => (CodexConfigRuntimeActivationState::NotRunning, None),
            (Some(_), None) => (
                CodexConfigRuntimeActivationState::Unknown,
                Some("managed_config_activation_receipt_unavailable"),
            ),
            (Some(started), Some(written)) => if !text::same_opt(
                receipt_managed_fingerprint,
                actual_managed_fingerprint,
            ) {
                (
                    CodexConfigRuntimeActivationState::Unknown,
                    Some("managed_config_activation_receipt_mismatch"),
                )
            } else if started < written {
                (
                    CodexConfigRuntimeActivationState::RestartRequired,
                    Some("app_server_started_before_managed_config"),
                )
            } else {
                (CodexConfigRuntimeActivationState::Current, None)
            },
        }
    };
    let reason = match reason {
        Some(reason) => Some(reason.to_owned()),
        None => None,
    };
    CodexConfigRuntimeActivation {
        state,
        app_server_started_at,
        config_modified_at: managed_config_written_at,
        reason,
    }
}

/// A number of milliseconds since the epoch as a timestamp, where it is one.
pub fn system_time_to_millis(since_epoch: Option<u128>) -> (r: Option<i64>)
    ensures
        match since_epoch {
            Some(ms) => if ms <= i64::MAX {
                r == Some(ms as i64)
            } else {
                r is None
            },
            None => r is None,
        },
{
    match since_epoch {
        Some(ms) => if ms <= i64::MAX as u128 {
            Some(ms as i64)
        } else {
            None
        },
        None => None,
    }
}

// ---------------------------------------------------------------------------
// The newest app server

/// A running process of Codex.
#[derive(Debug, PartialEq, Eq)]
pub struct CodexProcess {
    pub is_app_server: bool,
    pub started_at: Option<String>,
}

/// The timestamp in milliseconds that `chrono` reads in an RFC 3339 text.
pub uninterp spec fn rfc3339_millis(source: Seq<char>) -> Option<int>;

/// Calls `chrono::DateTime::parse_from_rfc3339` and `timestamp_millis`. The
/// contract names the outcome, as a function of the text.
#[verifier::external_body]
fn parse_rfc3339_millis(source: &str) -> (r: Option<i64>)
    ensures
        match r {
            Some(ms) => rfc3339_millis(source@) == Some(ms as int),
            None => rfc3339_millis(source@) is None,
        },
{
    chrono::DateTime::parse_from_rfc3339(source).ok().map(|parsed| parsed.timestamp_millis())
}

/// When something started: as a timestamp and as a text.
pub struct Start {
    pub ms: int,
    pub stamp: Seq<char>,
}

/// The starts of app servers, where they are known.
pub open spec fn app_server_starts(processes: Seq<CodexProcess>) -> Seq<Start>
    decreases processes.len(),
{
    if processes.len() == 0 {
        Seq::empty()
    } else {
        let before = app_server_starts(processes.drop_last());
        let last = processes.last();
        if last.is_app_server && last.started_at is Some && rfc3339_millis(last.started_at->0@)
            is Some {
            before.push(
                Start {
                    ms: rfc3339_millis(last.started_at->0@)->0,
                    stamp: last.started_at->0@,
                },
            )
        } else {
            before
        }
    }
}

/// The latest of some starts; of equal ones the last.
pub open spec fn newest(starts: Seq<Start>) -> Option<Start>
    decreases starts.len(),
{
    if starts.len() == 0 {
        None
    } else {
        match newest(starts.drop_last()) {
            Some(best) => if best.ms <= starts.last().ms {
                Some(starts.last())
            } else {
                Some(best)
            },
            None => Some(starts.last()),
        }
    }
}

/// What pairs of timestamps and texts say.
pub open spec fn starts_view(starts: Seq<(i64, String)>) -> Seq<Start> {
    starts.map_values(|start: (i64, String)| Start { ms: start.0 as int, stamp: start.1@ })
}

/// What an optional pair of a timestamp and a text says.
pub open spec fn opt_start_view(start: Option<(i64, String)>) -> Option<Start> {
    match start {
        Some(s) => Some(Start { ms: s.0 as int, stamp: s.1@ }),
        None => None,
    }
}

/// The latest of some starts; of equal ones the last.
pub fn newest_start(starts: &Vec<(i64, String)>) -> (r: Option<(i64, String)>)
    ensures
        opt_start_view(r) == newest(starts_view(starts@)),
{
    let ghost views = starts_view(starts@);
    let mut best: Option<(i64, String)> = None;
    let mut i: usize = 0;
    while i < starts.len()
        invariant
            i <= starts@.len(),
            views == starts_view(starts@),
            opt_start_view(best) == newest(views.take(i as int)),
        decreases starts@.len() - i,
    {
        proof {
            assert(views.take(i + 1).drop_last() =~= views.take(i as int));
            assert(views.take(i + 1).last() == views[i as int]);
        }
        let later = match &best {
            Some(found) => found.0 <= starts[i].0,
            None => true,
        };
        if later {
            best = Some((starts[i].0, starts[i].1.clone()));
        }
        i = i + 1;
    }
    assert(views.take(i as int) =~= views);
    best
}

/// The start of the app server that started last.
pub fn newest_app_server(processes: &Vec<CodexProcess>) -> (r: Option<(i64, String)>)
    ensures
        opt_start_view(r) == newest(app_server_starts(processes@)),
{
    let mut starts: Vec<(i64, String)> = Vec::new();
    let mut i: usize = 0;
    assert(starts_view(starts@) =~= app_server_starts(processes@.take(0)));
    while i < processes.len()
        invariant
            i <= processes@.len(),
            starts_view(starts@) == app_server_starts(processes@.take(i as int)),
        decreases processes@.len() - i,
    {
        let ghost before = starts_view(starts@);
        assert(processes@.take(i + 1).drop_last() =~= processes@.take(i as int));
        if processes[i].is_app_server {
            if let Some(stamp) = &processes[i].started_at {
                if let Some(ms) = parse_rfc3339_millis(stamp.as_str()) {
                    starts.push((ms, stamp.clone()));
                    assert(starts_view(starts@) =~= before.push(
                        Start { ms: ms as int, stamp: stamp@ },
                    ));
                }
            }
        }
        i = i + 1;
    }
    assert(processes@.take(i as int) =~= processes@);
    newest_start(&starts)
}

// ---------------------------------------------------------------------------
// Findings about the system

/// The fingerprint of the owned part of a text, for the provider that it selects;
/// none where the text is not usable.
pub open spec fn self_fingerprint(source: Seq<char>) -> Result<Seq<char>, AppFault> {
    match data_text::toml_parsed(source) {
        Err(message) => Err(config_projection::parse_fault(message)),
        Ok(value) => config_projection::owned_fingerprint(
            source,
            config_projection::active_provider_of(value),
        ),
    }
}

/// The fingerprint of the owned part of a text, for the provider that it selects.
pub fn fingerprint_of_own_provider(source: &str) -> (r: Result<String, AppError>)
    ensures
        config_projection::text_result(r) == self_fingerprint(source@),
        r matches Ok(fingerprint) ==> digest::is_fingerprint(fingerprint@),
{
    match config_projection::active_model_provider_id_from_text(source) {
        Ok(id) => config_projection::managed_fingerprint(source, text::borrow_opt(&id)),
        Err(e) => Err(e),
    }
}

/// The fingerprint that counts as the actual one: the given one, or else that of
/// the live text, where it is usable.
pub open spec fn actual_fingerprint(given: Option<Seq<char>>, live: Option<Seq<char>>) -> Option<
    Seq<char>,
> {
    match given {
        Some(fingerprint) => Some(fingerprint),
        None => match live {
            Some(source) => match self_fingerprint(source) {
                Ok(fingerprint) => Some(fingerprint),
                Err(_) => None,
            },
            None => None,
        },
    }
}

/// What is known of the last managed write, and why it is not.
pub open spec fn known_receipt(
    receipt: Result<Option<CodexManagedConfigActivationReceipt>, String>,
) -> Option<CodexManagedConfigActivationReceipt> {
    match receipt {
        Ok(found) => found,
        Err(_) => None,
    }
}

/// The activation that findings about the system show.
pub open spec fn activation_from_findings(
    processes: Seq<CodexProcess>,
    detection_failed: bool,
    receipt: Result<Option<CodexManagedConfigActivationReceipt>, String>,
    given: Option<Seq<char>>,
    live: Option<Seq<char>>,
) -> Activation {
    let server = newest(app_server_starts(processes));
    let known = known_receipt(receipt);
    let verdict = activation_verdict(
        match server {
            Some(start) => Some(start.ms as i64),
            None => None,
        },
        match known {
            Some(k) => Some(k.written_at_ms),
            None => None,
        },
        match known {
            Some(k) => Some(k.managed_fingerprint@),
            None => None,
        },
        actual_fingerprint(given, live),
        detection_failed || receipt is Err,
    );
    Activation {
        state: verdict.0,
        app_server_started_at: match server {
            Some(start) => Some(start.stamp),
            None => None,
        },
        config_modified_at: match known {
            Some(k) => Some(k.written_at@),
            None => None,
        },
        reason: verdict.1,
    }
}

/// Judges whether the app server has taken up the managed configuration by the
/// processes that run, the record of the last managed write, and the fingerprint
/// of the configuration. Where that fingerprint is not given, the live text shows
/// it.
pub fn runtime_activation_from_system(
    processes: &Vec<CodexProcess>,
    detection_error: Option<String>,
    receipt: Result<Option<CodexManagedConfigActivationReceipt>, String>,
    actual_managed_fingerprint: Option<&str>,
    live_text: Option<&str>,
) -> (r: CodexConfigRuntimeActivation)
    ensures
        r@ == activation_from_findings(
            processes@,
            detection_error is Some,
            receipt,
            text::opt_str_view(actual_managed_fingerprint),
            text::opt_str_view(live_text),
        ),
{
    let server = newest_app_server(processes);
    let (known, receipt_error): (Option<CodexManagedConfigActivationReceipt>, Option<String>) =
        match receipt {
        Ok(found) => (found, None),
        Err(e) => (
            None,
            Some(text::joined("managed_activation_receipt_read_failed: ", e.as_str())),
        ),
    };
    let detection_error = match detection_error {
        Some(e) => Some(e),
        None => receipt_error,
    };
    let discovered: Option<String> = match actual_managed_fingerprint {
        Some(_) => None,
        None => match live_text {
            Some(live) => match fingerprint_of_own_provider(live) {
                Ok(fingerprint) => Some(fingerprint),
                Err(_) => None,
            },
            None => None,
        },
    };
    let actual: Option<&str> = match actual_managed_fingerprint {
        Some(fingerprint) => Some(fingerprint),
        None => text::borrow_opt(&discovered),
    };
    let (started_ms, started_at): (Option<i64>, Option<String>) = match server {
        Some((ms, stamp)) => (Some(ms), Some(stamp)),
        None => (None, None),
    };
    let written_ms: Option<i64> = match &known {
        Some(k) => Some(k.written_at_ms),
        None => None,
    };
    let written_at: Option<String> = match &known {
        Some(k) => Some(k.written_at.clone()),
        None => None,
    };
    let receipt_fingerprint: Option<&str> = match &known {
        Some(k) => Some(k.managed_fingerprint.as_str()),
        None => None,
    };
    runtime_activation_from_managed_receipt_evidence(
        started_ms,
        written_ms,
        receipt_fingerprint,
        actual,
        started_at,
        written_at,
        detection_error,
    )
}

/// The fingerprint to record after a managed write of a text, where it is not the one
/// that is recorded.
pub open spec fn fingerprint_to_record(config_text: Seq<char>, recorded: Option<Seq<char>>) -> Result<
    Option<Seq<char>>,
    AppFault,
> {
    match self_fingerprint(config_text) {
        Err(fault) => Err(fault),
        Ok(fingerprint) => if recorded == Some(fingerprint) {
            Ok(None)
        } else {
            Ok(Some(fingerprint))
        },
    }
}

/// What is to be recorded after a managed write of a text: the write, where the
/// fingerprint of its owned part is not the recorded one. `now_ms` are the
/// milliseconds since the epoch and `now_text` the local time as a text.
pub fn record_managed_config_write(
    config_text: &str,
    receipt: Result<Option<CodexManagedConfigActivationReceipt>, AppError>,
    now_ms: Option<u128>,
    now_text: &str,
) -> (r: Result<Option<CodexManagedConfigActivationReceipt>, AppError>)
    ensures
        match self_fingerprint(config_text@) {
            Err(fault) => r matches Err(e) && e@ == fault,
            Ok(fingerprint) => match receipt {
                Err(e) => r == Err::<Option<CodexManagedConfigActivationReceipt>, AppError>(e),
                Ok(Some(known)) if known.managed_fingerprint@ == fingerprint => r matches Ok(None),
                Ok(_) => if now_ms is Some && now_ms->0 <= i64::MAX {
                    r matches Ok(Some(written)) && written.managed_fingerprint@ == fingerprint
                        && written.written_at_ms == now_ms->0 && written.written_at@ == now_text@
                } else {
                    r matches Err(e) && e@ == AppFault::Config(
                        "managed config write timestamp overflow"@,
                    )
                },
            },
        },
        receipt matches Ok(found) ==> match fingerprint_to_record(
            config_text@,
            match found {
                Some(known) => Some(known.managed_fingerprint@),
                None => None,
            },
        ) {
            Err(fault) => r matches Err(e) && e@ == fault,
            Ok(None) => r matches Ok(None),
            Ok(Some(fingerprint)) => r matches Ok(written) ==> written is Some
                && written->0.managed_fingerprint@ == fingerprint,
        },
{
    let fingerprint = match fingerprint_of_own_provider(config_text) {
        Ok(fingerprint) => fingerprint,
        Err(e) => return Err(e),
    };
    match receipt {
        Err(e) => return Err(e),
        Ok(Some(known)) => if text::same(known.managed_fingerprint.as_str(), fingerprint.as_str()) {
            return Ok(None);
        },
        Ok(None) => {},
    }
    match system_time_to_millis(now_ms) {
        Some(written_at_ms) => Ok(
            Some(
                CodexManagedConfigActivationReceipt {
                    managed_fingerprint: fingerprint,
                    written_at_ms,
                    written_at: now_text.to_owned(),
                },
            ),
        ),
        None => Err(AppError::config("managed config write timestamp overflow")),
    }
}

// ---------------------------------------------------------------------------
// Laws

/// No start is later than the newest one, and the newest one is among the starts.
pub proof fn law_newest_is_latest(starts: Seq<Start>)
    ensures
        newest(starts) is Some <==> starts.len() > 0,
        newest(starts) matches Some(best) ==> starts.contains(best),
        forall|i: int|
            0 <= i < starts.len() ==> (#[trigger] starts[i]).ms <= newest(starts)->0.ms,
    decreases starts.len(),
{
    if starts.len() > 0 {
        law_newest_is_latest(starts.drop_last());
        let before = starts.drop_last();
        assert(starts[starts.len() - 1] == starts.last());
        if let Some(best) = newest(before) {
            let j = choose|j: int| 0 <= j < before.len() && before[j] == best;
            assert(starts[j] == best);
        }
        assert forall|i: int| 0 <= i < starts.len() implies (#[trigger] starts[i]).ms
            <= newest(starts)->0.ms by {
            if i < before.len() {
                assert(before[i] == starts[i]);
            }
        }
    }
}

/// A restart makes an app server current: with a record that fits, a server that
/// started when the configuration was written or later has taken it up, and one
/// that started before has to be restarted.
pub proof fn law_restart_makes_current(
    started_ms: i64,
    written_ms: i64,
    fingerprint: Option<Seq<char>>,
)
    ensures
        activation_verdict(Some(started_ms), Some(written_ms), fingerprint, fingerprint, false)
            == if started_ms >= written_ms {
            (CodexConfigRuntimeActivationState::Current, None::<Seq<char>>)
        } else {
            (
                CodexConfigRuntimeActivationState::RestartRequired,
                Some("app_server_started_before_managed_config"@),
            )
        },
{
}

/// What Codex or the user writes under keys that CCSM does not own leaves the
/// fingerprint as it was, so that a record of a managed write stays good.
pub proof fn law_codex_owned_rewrite_keeps_fingerprint(
    before: Seq<char>,
    after: Seq<char>,
    root: Map<Seq<char>, Toml>,
    key: Seq<char>,
    value: Toml,
)
    requires
        data_text::toml_parsed(before) == Ok::<Toml, Seq<char>>(Toml::Table(root)),
        data_text::toml_parsed(after) == Ok::<Toml, Seq<char>>(
            Toml::Table(root.insert(key, value)),
        ),
        !config_projection::is_managed_key(key),
        key != config_projection::CODEX_WEB_SEARCH_FIELD@,
        key != "model_providers"@,
    ensures
        self_fingerprint(after) == self_fingerprint(before),
{
    let hint = config_projection::active_provider(root);
    assert(config_projection::is_managed_key("model_provider"@));
    assert(config_projection::active_provider(root.insert(key, value)) == hint);
    config_merge::law_user_keys_do_not_count(root, hint, key, value);
}

/// A configuration that is read for the provider that it selects is read as it is where
/// no provider is given.
pub proof fn law_own_provider_is_the_default(source: Seq<char>)
    ensures
        self_fingerprint(source) == config_projection::owned_fingerprint(source, None),
        data_text::toml_parsed(source) matches Ok(value) ==> {
            let own = config_projection::active_provider_of(value);
            &&& config_projection::projection(source, own) == config_projection::projection(
                source,
                None,
            )
            &&& config_projection::owned_fingerprint(source, own)
                == config_projection::owned_fingerprint(source, None)
        },
{
    if let Ok(Toml::Table(root)) = data_text::toml_parsed(source) {
        let own = config_projection::active_provider(root);
        assert(config_projection::owned_entries(root, own) =~= config_projection::owned_entries(
            root,
            None,
        ));
    }
}

/// Whether a process is an app server with this start.
pub open spec fn is_start_of(process: CodexProcess, start: Start) -> bool {
    &&& process.started_at matches Some(stamp) && stamp@ == start.stamp
    &&& rfc3339_millis(start.stamp) == Some(start.ms)
}

/// Whether a process is an app server whose start is known.
pub open spec fn has_known_start(process: CodexProcess) -> bool {
    &&& process.is_app_server
    &&& process.started_at matches Some(stamp) && rfc3339_millis(stamp@) is Some
}

/// The starts that count are those of the app servers whose start is known, in order.
pub proof fn law_only_app_servers_count(processes: Seq<CodexProcess>)
    ensures
        listing::lists_kept(
            processes,
            app_server_starts(processes),
            |process: CodexProcess| has_known_start(process),
            |process: CodexProcess, start: Start| is_start_of(process, start),
        ),
    decreases processes.len(),
{
    let keep = |process: CodexProcess| has_known_start(process);
    let fits = |process: CodexProcess, start: Start| is_start_of(process, start);
    let starts = app_server_starts(processes);
    if processes.len() == 0 {
        listing::lemma_lists_nothing(processes, starts, keep, fits);
    } else {
        law_only_app_servers_count(processes.drop_last());
        let before = app_server_starts(processes.drop_last());
        if keep(processes.last()) {
            assert(starts.take(before.len() as int) =~= before);
        }
        listing::lemma_lists_last(processes, before, starts, keep, fits);
    }
}

/// Of starts at the same time the last one is the newest.
pub proof fn law_last_of_equal_starts_is_newest(starts: Seq<Start>) -> (at: int)
    requires
        starts.len() > 0,
    ensures
        0 <= at < starts.len(),
        newest(starts) == Some(starts[at]),
        forall|i: int| 0 <= i < starts.len() ==> (#[trigger] starts[i]).ms <= starts[at].ms,
        forall|i: int| at < i < starts.len() ==> (#[trigger] starts[i]).ms < starts[at].ms,
    decreases starts.len(),
{
    let front = starts.drop_last();
    let last = starts.len() - 1;
    if front.len() == 0 {
        last
    } else {
        let at: int = law_last_of_equal_starts_is_newest(front);
        assert forall|i: int| 0 <= i < front.len() implies (#[trigger] starts[i]).ms
            <= starts[at].ms by {
            assert(front[i].ms <= front[at].ms);
        }
        assert forall|i: int| at < i < front.len() implies (#[trigger] starts[i]).ms
            < starts[at].ms by {
            assert(front[i].ms < front[at].ms);
        }
        if front[at].ms <= starts[last].ms {
            last
        } else {
            at
        }
    }
}

/// The state of an app server follows from the evidence: it is unknown where the
/// processes could not be looked up, not running where none was found, unknown without
/// a record of the last write or with one for another configuration, and otherwise it
/// is current exactly where it started no earlier than that write. A reason is given
/// for everything but a server that is current or not running.
pub proof fn law_activation_follows_from_the_evidence(
    started_ms: Option<i64>,
    written_ms: Option<i64>,
    receipt: Option<Seq<char>>,
    actual: Option<Seq<char>>,
    detection_failed: bool,
)
    ensures
        ({
            let verdict = activation_verdict(
                started_ms,
                written_ms,
                receipt,
                actual,
                detection_failed,
            );
            &&& verdict.0 is NotRunning <==> !detection_failed && started_ms is None
            &&& verdict.0 is Current <==> {
                &&& !detection_failed
                &&& started_ms is Some
                &&& written_ms is Some
                &&& receipt == actual
                &&& written_ms->0 <= started_ms->0
            }
            &&& verdict.0 is RestartRequired <==> {
                &&& !detection_failed
                &&& started_ms is Some
                &&& written_ms is Some
                &&& receipt == actual
                &&& started_ms->0 < written_ms->0
            }
            &&& verdict.1 is None <==> verdict.0 is Current || verdict.0 is NotRunning
            &&& verdict.0 is RestartRequired ==> verdict.1 == Some(
                "app_server_started_before_managed_config"@,
            )
            &&& verdict.0 is Unknown ==> verdict.1 == if detection_failed {
                Some("app_server_detection_failed"@)
            } else if written_ms is None {
                Some("managed_config_activation_receipt_unavailable"@)
            } else {
                Some("managed_config_activation_receipt_mismatch"@)
            }
        }),
{
}

/// What is reported of an app server is the start of the newest one and the time of the
/// last managed write. A record that cannot be read counts as a failed look-up, and the
/// fingerprint of the live text counts only where none is given.
pub proof fn law_activation_reports_what_was_found(
    processes: Seq<CodexProcess>,
    detection_failed: bool,
    receipt: Result<Option<CodexManagedConfigActivationReceipt>, String>,
    given: Option<Seq<char>>,
    live: Option<Seq<char>>,
)
    ensures
        ({
            let activation = activation_from_findings(
                processes,
                detection_failed,
                receipt,
                given,
                live,
            );
            let server = newest(app_server_starts(processes));
            &&& activation.app_server_started_at is Some <==> server is Some
            &&& server matches Some(start) ==> activation.app_server_started_at == Some(start.stamp)
            &&& match receipt {
                Ok(Some(known)) => activation.config_modified_at == Some(known.written_at@),
                _ => activation.config_modified_at is None,
            }
            &&& detection_failed || receipt is Err ==> activation.state is Unknown
                && activation.reason == Some("app_server_detection_failed"@)
            &&& !detection_failed && receipt is Ok && server is None ==> activation.state
                is NotRunning
            &&& activation.state is Current || activation.state is RestartRequired ==> {
                &&& receipt matches Ok(Some(known))
                &&& match given {
                    Some(fingerprint) => known.managed_fingerprint@ == fingerprint,
                    None => live is Some && config_projection::owned_fingerprint(live->0, None)
                        == Ok::<Seq<char>, AppFault>(known.managed_fingerprint@),
                }
                &&& server matches Some(start)
                &&& activation.state is Current <==> known.written_at_ms <= start.ms as i64
            }
            &&& !detection_failed && server is Some && receipt is Ok && receipt->Ok_0 is Some && (
            given is Some ==> given->0 == receipt->Ok_0->0.managed_fingerprint@) && (given is None
                ==> live is Some && config_projection::owned_fingerprint(live->0, None) == Ok::<
                Seq<char>,
                AppFault,
            >(receipt->Ok_0->0.managed_fingerprint@)) ==> activation.state is Current
                || activation.state is RestartRequired
        }),
{
    if let Some(source) = live {
        law_own_provider_is_the_default(source);
    }
}

/// A managed write is recorded where the owned part of the configuration is not the
/// recorded one, and once only: with the record that it leaves, the same configuration is
/// not recorded again, and neither is any other with the same owned part.
pub proof fn law_write_is_recorded_once(
    first: Seq<char>,
    second: Seq<char>,
    recorded: Option<Seq<char>>,
    fingerprint: Seq<char>,
)
    requires
        config_projection::owned_fingerprint(first, None) == Ok::<Seq<char>, AppFault>(fingerprint),
    ensures
        fingerprint_to_record(first, recorded) == Ok::<Option<Seq<char>>, AppFault>(
            if recorded == Some(fingerprint) {
                None
            } else {
                Some(fingerprint)
            },
        ),
        fingerprint_to_record(first, Some(fingerprint)) == Ok::<Option<Seq<char>>, AppFault>(None),
        config_projection::owned_fingerprint(second, None) == Ok::<Seq<char>, AppFault>(fingerprint)
            <==> fingerprint_to_record(second, Some(fingerprint)) == Ok::<
            Option<Seq<char>>,
            AppFault,
        >(None),
{
    law_own_provider_is_the_default(first);
    law_own_provider_is_the_default(second);
}

} // verus!
