//! How requests to a third-party provider are prepared.

use crate::body_overrides::HistoryReplay;
use crate::data_text;
use crate::digest;
use crate::endpoints;
use crate::endpoints::CodexRequestTransport;
use crate::errors::{ProxyError, ProxyFault};
use crate::http_headers;
use crate::http_headers::HeaderOverride;
use crate::json;
use crate::json::{Json, JsonNumber, JsonValue, Number};
use crate::request_laws;
use crate::text;
use crate::text_map;
use crate::text_map::TextMap;
use vstd::prelude::*;
use vstd::string::StringExecFns;

verus! {

/// The version of the way in which requests are prepared.
pub const CODEX_REQUEST_PREPARER_VERSION: u32 = 8;

/// The version of the corpus that probes of a provider use.
pub const PROBE_CORPUS_VERSION: u32 = 4;

/// The beginning of the user agent that third parties see, unless a provider is given
/// another. The version of the client follows.
pub const THIRD_PARTY_USER_AGENT_PREFIX: &'static str = "CCSwitchMulti/";

/// The credential of a provider, and how it is sent.
#[derive(Debug, PartialEq, Eq)]
pub struct ProviderAuth {
    pub strategy: String,
    pub api_key: String,
}

/// What is known of a provider when requests to it are prepared.
pub struct ProviderSnapshot {
    /// The id of the provider.
    pub id: String,
    /// The category that the provider is filed under.
    pub category: Option<String>,
    /// Whether an account managed elsewhere signs requests in.
    pub uses_managed_account_auth: bool,
    /// Whether this is the official provider of Codex.
    pub is_official: bool,
    /// Whether the address is that of an endpoint, where it is said.
    pub is_full_url: Option<bool>,
    /// The address, or why there is none.
    pub base_url: Result<String, ProxyError>,
    /// The credential, where there is one.
    pub auth: Option<ProviderAuth>,
    /// The headers that carry the credential, or why there are none.
    pub auth_headers: Result<Vec<(http::HeaderName, http::HeaderValue)>, ProxyError>,
    /// The provider as JSON, or why it cannot be written.
    pub document: Result<JsonValue, String>,
    /// The headers that the provider's configuration asks for.
    pub header_overrides: Vec<HeaderOverride>,
    /// The fields that the provider's configuration asks for in a body.
    pub body_override: Option<JsonValue>,
    /// The user agent that the provider's configuration asks for.
    pub user_agent: Option<http::HeaderValue>,
    /// The version of the client that sends the requests.
    pub client_version: String,
}

/// How requests to one third-party provider are prepared.
pub struct CodexThirdPartyRequestPolicy {
    provider_id: String,
    base_url: String,
    auth_headers: http::HeaderMap<http::HeaderValue>,
    authentication_kind: String,
    credential_fingerprint: String,
    fingerprint: String,
    is_full_url: bool,
    header_overrides: Vec<HeaderOverride>,
    body_override: Option<JsonValue>,
    user_agent: Option<http::HeaderValue>,
    client_version: String,
}

/// What a [`CodexThirdPartyRequestPolicy`] says.
#[verifier::ext_equal]
pub struct Policy {
    pub provider_id: Seq<char>,
    pub base_url: Seq<char>,
    pub auth_headers: Map<Seq<char>, Seq<Seq<u8>>>,
    pub authentication_kind: Seq<char>,
    pub credential_fingerprint: Seq<char>,
    pub fingerprint: Seq<char>,
    pub is_full_url: bool,
    pub header_overrides: Seq<HeaderOverride>,
    pub body_override: Option<Json>,
    pub user_agent: Option<Seq<u8>>,
    pub client_version: Seq<char>,
}

/// The bytes of an optional header value.
pub open spec fn opt_value_bytes(value: Option<http::HeaderValue>) -> Option<Seq<u8>> {
    match value {
        Some(v) => Some(http_headers::header_value_bytes(v)),
        None => None,
    }
}

impl View for CodexThirdPartyRequestPolicy {
    type V = Policy;

    closed spec fn view(&self) -> Policy {
        Policy {
            provider_id: self.provider_id@,
            base_url: self.base_url@,
            auth_headers: http_headers::header_entries(self.auth_headers),
            authentication_kind: self.authentication_kind@,
            credential_fingerprint: self.credential_fingerprint@,
            fingerprint: self.fingerprint@,
            is_full_url: self.is_full_url,
            header_overrides: self.header_overrides@,
            body_override: json::opt_value_view(self.body_override),
            user_agent: opt_value_bytes(self.user_agent),
            client_version: self.client_version@,
        }
    }
}

/// The headers with one more value for each pair, in order.
pub open spec fn appended(
    entries: Map<Seq<char>, Seq<Seq<u8>>>,
    pairs: Seq<(http::HeaderName, http::HeaderValue)>,
) -> Map<Seq<char>, Seq<Seq<u8>>>
    decreases pairs.len(),
{
    if pairs.len() == 0 {
        entries
    } else {
        let before = appended(entries, pairs.drop_last());
        let name = http_headers::header_name_text(pairs.last().0);
        before.insert(
            name,
            http_headers::values_under(before, name).push(
                http_headers::header_value_bytes(pairs.last().1),
            ),
        )
    }
}

/// Whether a provider is none that requests are prepared for here.
pub open spec fn is_not_third_party(snapshot: ProviderSnapshot) -> bool {
    ||| snapshot.uses_managed_account_auth
    ||| text::opt_view(snapshot.category) == Some("official"@)
    ||| snapshot.is_official
}

/// How a credential is sent, in lower case.
pub open spec fn kind_of_auth(auth: ProviderAuth) -> Seq<char> {
    http_headers::lower(auth.strategy@)
}

/// The SHA-256 digest of a text in hexadecimal.
pub open spec fn text_digest(source: Seq<char>) -> Seq<char> {
    text::lower_hex(digest::sha256(vstd::utf8::encode_utf8(source)))
}

/// The fingerprint of a credential.
pub open spec fn credential_digest(auth: ProviderAuth) -> Seq<char> {
    text_digest(kind_of_auth(auth) + ":"@ + text::trimmed(auth.api_key@))
}

/// What the fingerprint of a policy is made of.
pub open spec fn fingerprint_material(
    document: Json,
    credential: Seq<char>,
    probe_budget: u64,
) -> Json {
    Json::empty_object().with(
        "preparerVersion"@,
        Json::Number(Number::Integer(CODEX_REQUEST_PREPARER_VERSION as int)),
    ).with("provider"@, document).with("credentialFingerprint"@, Json::Text(credential)).with(
        "probeBudget"@,
        Json::Number(Number::Integer(probe_budget as int)),
    ).with("probeCorpusVersion"@, Json::Number(Number::Integer(PROBE_CORPUS_VERSION as int)))
}

/// The fingerprint of a policy.
pub open spec fn policy_digest(document: Json, credential: Seq<char>, probe_budget: u64) -> Seq<
    char,
> {
    text_digest(
        data_text::json_rendered(fingerprint_material(document, credential, probe_budget)),
    )
}

/// Why no policy can be compiled for a provider, where none can.
pub open spec fn compile_fault(snapshot: ProviderSnapshot) -> Option<ProxyFault> {
    if is_not_third_party(snapshot) {
        Some(
            ProxyFault::ConfigError(
                "managed or official providers do not use third-party request preparation"@,
            ),
        )
    } else {
        match snapshot.base_url {
            Err(e) => Some(e@),
            Ok(base_url) => if endpoints::url_path(base_url@) is None {
                Some(
                    ProxyFault::ConfigError("Codex Provider base_url must be an absolute URL"@),
                )
            } else if snapshot.auth is None {
                Some(
                    ProxyFault::ConfigError(
                        "Codex Provider is missing third-party authentication"@,
                    ),
                )
            } else {
                match snapshot.auth_headers {
                    Err(e) => Some(e@),
                    Ok(_) => match snapshot.document {
                        Err(message) => Some(
                            ProxyFault::Internal(
                                "Failed to fingerprint Codex Provider policy: "@ + message@,
                            ),
                        ),
                        Ok(_) => None,
                    },
                }
            },
        }
    }
}

/// The policy of a provider for which one can be compiled.
pub open spec fn compiled(snapshot: ProviderSnapshot, probe_budget: u64) -> Policy {
    let auth = snapshot.auth->0;
    let credential = credential_digest(auth);
    Policy {
        provider_id: snapshot.id@,
        base_url: snapshot.base_url->Ok_0@,
        auth_headers: appended(http_headers::no_headers(), snapshot.auth_headers->Ok_0@),
        authentication_kind: kind_of_auth(auth),
        credential_fingerprint: credential,
        fingerprint: policy_digest(snapshot.document->Ok_0@, credential, probe_budget),
        is_full_url: snapshot.is_full_url == Some(true),
        header_overrides: snapshot.header_overrides@,
        body_override: json::opt_value_view(snapshot.body_override),
        user_agent: opt_value_bytes(snapshot.user_agent),
        client_version: snapshot.client_version@,
    }
}

/// Whether a provider's address and headers are of a size that the libraries
/// which hold them can take, and the version of the client can stand in a header.
pub open spec fn is_usable(snapshot: ProviderSnapshot) -> bool {
    &&& snapshot.base_url matches Ok(url) ==> url@.len() <= endpoints::MAX_URL_CHARS
    &&& snapshot.auth_headers matches Ok(pairs) ==> pairs@.len() + snapshot.header_overrides@.len()
        + 2 <= http_headers::MAX_HEADER_NAMES
    &&& http_headers::is_header_value(snapshot.client_version@)
}

/// Puts pairs into a new header map.
fn collect_headers(pairs: Vec<(http::HeaderName, http::HeaderValue)>) -> (r: http::HeaderMap<
    http::HeaderValue,
>)
    requires
        pairs@.len() <= http_headers::MAX_HEADER_NAMES,
    ensures
        http_headers::header_entries(r) == appended(http_headers::no_headers(), pairs@),
        http_headers::header_entries(r).dom().finite(),
        http_headers::header_entries(r).dom().len() <= pairs@.len(),
{
    let ghost all = pairs@;
    let mut headers = http_headers::new_headers();
    assert(all.take(0) =~= Seq::empty());
    for pair in iter: pairs
        invariant
            iter.seq() == all,
            all.len() <= http_headers::MAX_HEADER_NAMES,
            http_headers::header_entries(headers) == appended(
                http_headers::no_headers(),
                all.take(iter.index() as int),
            ),
            http_headers::header_entries(headers).dom().finite(),
            http_headers::header_entries(headers).dom().len() <= iter.index(),
    {
        let ghost done = iter.index() as int;
        assert(all.take(done + 1).drop_last() =~= all.take(done));
        assert(all.take(done + 1).last() == pair);
        http_headers::headers_append(&mut headers, pair.0, pair.1);
    }
    assert(all.take(all.len() as int) =~= all);
    headers
}

/// The SHA-256 digest of a text in hexadecimal.
fn digest_of_text(source: &str) -> (r: String)
    ensures
        r@ == text_digest(source@),
        digest::is_fingerprint(r@),
{
    digest::sha256_hex(source.as_bytes())
}

/// The fingerprint of a policy.
fn digest_of_policy(document: &JsonValue, credential: &str, probe_budget: u64) -> (r: String)
    ensures
        r@ == policy_digest(document@, credential@, probe_budget),
        digest::is_fingerprint(r@),
{
    let material = JsonValue::empty_object().with(
        "preparerVersion",
        JsonValue::number(JsonNumber::Integer(CODEX_REQUEST_PREPARER_VERSION as i128)),
    ).with("provider", document.copy()).with(
        "credentialFingerprint",
        JsonValue::text(credential),
    ).with("probeBudget", JsonValue::number(JsonNumber::Integer(probe_budget as i128))).with(
        "probeCorpusVersion",
        JsonValue::number(JsonNumber::Integer(PROBE_CORPUS_VERSION as i128)),
    );
    digest_of_text(data_text::json_to_string(&material).as_str())
}

impl CodexThirdPartyRequestPolicy {
    #[verifier::type_invariant]
    closed spec fn well_formed(&self) -> bool {
        &&& self.base_url@.len() <= endpoints::MAX_URL_CHARS
        &&& http_headers::has_room(self.auth_headers, self.header_overrides@.len() + 2)
        &&& digest::is_fingerprint(self.fingerprint@)
        &&& digest::is_fingerprint(self.credential_fingerprint@)
        &&& http_headers::is_header_value(self.client_version@)
    }

    /// Compiles the policy for requests to a provider. `probe_budget` is the number
    /// of tokens that a probe of the provider may take.
    pub fn compile(snapshot: ProviderSnapshot, probe_budget: u64) -> (r: Result<Self, ProxyError>)
        requires
            is_usable(snapshot),
        ensures
            match compile_fault(snapshot) {
                Some(fault) => r matches Err(e) && e@ == fault,
                None => r matches Ok(policy) && policy@ == compiled(snapshot, probe_budget),
            },
    {
        if snapshot.uses_managed_account_auth || text::same_opt(
            text::borrow_opt(&snapshot.category),
            Some("official"),
        ) || snapshot.is_official {
            return Err(
                ProxyError::ConfigError(
                    "managed or official providers do not use third-party request preparation".to_owned(),
                ),
            );
        }
        let base_url = match snapshot.base_url {
            Ok(base_url) => base_url,
            Err(e) => return Err(e),
        };
        if endpoints::read_url_path(base_url.as_str()).is_none() {
            return Err(
                ProxyError::ConfigError(
                    "Codex Provider base_url must be an absolute URL".to_owned(),
                ),
            );
        }
        let auth = match snapshot.auth {
            Some(auth) => auth,
            None => return Err(
                ProxyError::ConfigError(
                    "Codex Provider is missing third-party authentication".to_owned(),
                ),
            ),
        };
        let authentication_kind = text::to_ascii_lowercase(auth.strategy.as_str());
        let mut credential = text::joined(authentication_kind.as_str(), ":");
        credential.append(text::trim(auth.api_key.as_str()).as_str());
        let credential_fingerprint = digest_of_text(credential.as_str());
        let auth_headers = match snapshot.auth_headers {
            Ok(pairs) => collect_headers(pairs),
            Err(e) => return Err(e),
        };
        let document = match snapshot.document {
            Ok(document) => document,
            Err(message) => return Err(
                ProxyError::Internal(
                    text::joined("Failed to fingerprint Codex Provider policy: ", message.as_str()),
                ),
            ),
        };
        let fingerprint = digest_of_policy(
            &document,
            credential_fingerprint.as_str(),
            probe_budget,
        );
        let is_full_url = match snapshot.is_full_url {
            Some(is_full_url) => is_full_url,
            None => false,
        };
        Ok(
            CodexThirdPartyRequestPolicy {
                provider_id: snapshot.id,
                base_url,
                auth_headers,
                authentication_kind,
                credential_fingerprint,
                fingerprint,
                is_full_url,
                header_overrides: snapshot.header_overrides,
                body_override: snapshot.body_override,
                user_agent: snapshot.user_agent,
                client_version: snapshot.client_version,
            },
        )
    }

    /// Compiles the policy for requests to a provider whose address is said to be
    /// that of an endpoint, or not to be. The snapshot's document is that of the
    /// provider so changed.
    pub fn with_full_url(
        snapshot: ProviderSnapshot,
        is_full_url: bool,
        probe_budget: u64,
    ) -> (r: Result<Self, ProxyError>)
        requires
            is_usable(snapshot),
        ensures
            match compile_fault(snapshot) {
                Some(fault) => r matches Err(e) && e@ == fault,
                None => r matches Ok(policy) && policy@ == (Policy {
                    is_full_url,
                    ..compiled(snapshot, probe_budget)
                }),
            },
    {
        let mut snapshot = snapshot;
        snapshot.is_full_url = Some(is_full_url);
        CodexThirdPartyRequestPolicy::compile(snapshot, probe_budget)
    }

    /// The address that a request goes to. `adapter_url` is the address that the
    /// adapter of the provider builds for the endpoint of the protocol.
    pub fn prepare_url(&self, transport: CodexRequestTransport, adapter_url: &str) -> (r: Result<
        String,
        ProxyError,
    >)
        ensures
            endpoints::text_result(r) == prepared_url(self@, transport, adapter_url@, None),
    {
        self.prepare_url_with_query(transport, adapter_url, None)
    }

    /// The address that a request goes to, with a query that is passed through.
    pub fn prepare_url_with_query(
        &self,
        transport: CodexRequestTransport,
        adapter_url: &str,
        passthrough_query: Option<&str>,
    ) -> (r: Result<String, ProxyError>)
        ensures
            endpoints::text_result(r) == prepared_url(
                self@,
                transport,
                adapter_url@,
                text::opt_str_view(passthrough_query),
            ),
            r matches Ok(url) ==> request_laws::goes_where_served(
                url@,
                self@,
                transport,
                adapter_url@,
                text::opt_str_view(passthrough_query),
            ),
    {
        proof {
            use_type_invariant(self);
            request_laws::law_request_goes_where_its_protocol_is_served(
                self@,
                transport,
                adapter_url@,
                text::opt_str_view(passthrough_query),
            );
        }
        if self.is_full_url {
            return match endpoints::derive_full_endpoint(self.base_url.as_str(), transport) {
                Ok(url) => Ok(endpoints::append_query(url.as_str(), passthrough_query)),
                Err(e) => Err(e),
            };
        }
        Ok(endpoints::append_query(adapter_url, passthrough_query))
    }

    /// The headers of a request.
    pub fn prepare_headers(&self) -> (r: http::HeaderMap<http::HeaderValue>)
        ensures
            http_headers::header_entries(r) == prepared_headers(self@),
    {
        proof {
            use_type_invariant(self);
            lemma_fixed_headers();
        }
        let mut headers = http_headers::clone_headers(&self.auth_headers);
        if let Some(name) = http_headers::make_header_name("content-type") {
            if let Some(value) = http_headers::make_header_value("application/json") {
                http_headers::headers_insert(&mut headers, name, value);
            }
        }
        assert(http_headers::has_room(headers, self.header_overrides@.len() + 1));
        apply_provider_header_policy(
            &mut headers,
            &self.header_overrides,
            self.user_agent.as_ref(),
            self.client_version.as_str(),
        );
        headers
    }

    /// A request as it is sent, with a body that was made ready, or why there is
    /// none.
    pub fn prepare(
        &self,
        transport: CodexRequestTransport,
        adapter_url: &str,
        body: Result<JsonValue, ProxyError>,
    ) -> (r: Result<PreparedCodexRequest, ProxyError>)
        ensures
            match prepared_url(self@, transport, adapter_url@, None) {
                Err(fault) => r matches Err(e) && e@ == fault,
                Ok(url) => match body {
                    Err(failed) => r matches Err(e) && e@ == failed@,
                    Ok(ready) => r matches Ok(request) && request.url@ == url && request.body@
                        == ready@ && http_headers::header_entries(request.headers)
                        == prepared_headers(self@),
                },
            },
    {
        let url = match self.prepare_url(transport, adapter_url) {
            Ok(url) => url,
            Err(e) => return Err(e),
        };
        match body {
            Ok(body) => Ok(
                PreparedCodexRequest { url, headers: self.prepare_headers(), body },
            ),
            Err(e) => Err(e),
        }
    }

    /// The headers that carry the credential, one by one. The values of one name
    /// keep their order.
    pub fn auth_header_pairs(&self) -> (r: Vec<(http::HeaderName, http::HeaderValue)>)
        ensures
            forall|name: Seq<char>| #[trigger]
                http_headers::values_of_pairs(r@, name) == http_headers::values_under(
                    self@.auth_headers,
                    name,
                ),
    {
        http_headers::header_pairs(&self.auth_headers)
    }

    /// Lays what the provider's configuration asks for over a body, and says
    /// whether that changed it.
    pub fn apply_body_overrides(&self, body: &mut JsonValue) -> (r: bool)
        ensures
            final(body)@ == crate::body_overrides::overridden_body(
                old(body)@,
                self@.body_override,
            ),
            r == crate::body_overrides::is_overridden(old(body)@, self@.body_override),
    {
        crate::body_overrides::apply_provider_body_overrides(body, self.body_override.as_ref())
    }

    /// The fingerprint of the policy.
    pub fn fingerprint(&self) -> (r: &str)
        ensures
            r@ == self@.fingerprint,
            digest::is_fingerprint(r@),
    {
        proof {
            use_type_invariant(self);
        }
        self.fingerprint.as_str()
    }

    /// The fingerprint of the credential.
    pub fn credential_fingerprint(&self) -> (r: &str)
        ensures
            r@ == self@.credential_fingerprint,
            digest::is_fingerprint(r@),
    {
        proof {
            use_type_invariant(self);
        }
        self.credential_fingerprint.as_str()
    }

    /// How the credential is sent.
    pub fn authentication_kind(&self) -> (r: &str)
        ensures
            r@ == self@.authentication_kind,
    {
        self.authentication_kind.as_str()
    }

    /// The address of the provider.
    pub fn canonical_base_url(&self) -> (r: &str)
        ensures
            r@ == self@.base_url,
    {
        self.base_url.as_str()
    }

    /// Whether the address is that of an endpoint.
    pub fn is_full_url(&self) -> (r: bool)
        ensures
            r == self@.is_full_url,
    {
        self.is_full_url
    }

    /// What may be shown of the policy: nothing of the credential.
    pub fn summary(&self) -> (r: PolicySummary)
        ensures
            r.provider_id@ == self@.provider_id,
            r.base_url@ == endpoints::shown_url(self@.base_url),
            r.authentication_kind@ == self@.authentication_kind,
            r.has_authentication == (self@.auth_headers != http_headers::no_headers()),
            r.is_full_url == self@.is_full_url,
            r.fingerprint@ == self@.fingerprint,
    {
        PolicySummary {
            provider_id: self.provider_id.clone(),
            base_url: endpoints::redacted_url(self.base_url.as_str()),
            authentication_kind: self.authentication_kind.clone(),
            has_authentication: !http_headers::headers_are_empty(&self.auth_headers),
            is_full_url: self.is_full_url,
            fingerprint: self.fingerprint.clone(),
        }
    }
}

impl Clone for CodexThirdPartyRequestPolicy {
    fn clone(&self) -> (r: Self)
        ensures
            r@ == self@,
    {
        proof {
            use_type_invariant(self);
        }
        let mut header_overrides: Vec<HeaderOverride> = Vec::new();
        let mut i: usize = 0;
        while i < self.header_overrides.len()
            invariant
                i <= self.header_overrides@.len(),
                header_overrides@ == self.header_overrides@.take(i as int),
            decreases self.header_overrides@.len() - i,
        {
            header_overrides.push(self.header_overrides[i].copy());
            i = i + 1;
        }
        assert(header_overrides@ =~= self.header_overrides@);
        CodexThirdPartyRequestPolicy {
            provider_id: self.provider_id.clone(),
            base_url: self.base_url.clone(),
            auth_headers: http_headers::clone_headers(&self.auth_headers),
            authentication_kind: self.authentication_kind.clone(),
            credential_fingerprint: self.credential_fingerprint.clone(),
            fingerprint: self.fingerprint.clone(),
            is_full_url: self.is_full_url,
            header_overrides,
            body_override: match &self.body_override {
                Some(body) => Some(body.copy()),
                None => None,
            },
            user_agent: match &self.user_agent {
                Some(value) => Some(http_headers::clone_value(value)),
                None => None,
            },
            client_version: self.client_version.clone(),
        }
    }
}

impl PartialEq for CodexThirdPartyRequestPolicy {
    fn eq(&self, other: &Self) -> (r: bool) {
        text::same(self.fingerprint.as_str(), other.fingerprint.as_str())
    }
}

impl vstd::std_specs::cmp::PartialEqSpecImpl for CodexThirdPartyRequestPolicy {
    open spec fn obeys_eq_spec() -> bool {
        true
    }

    open spec fn eq_spec(&self, other: &Self) -> bool {
        self@.fingerprint == other@.fingerprint
    }
}

impl Eq for CodexThirdPartyRequestPolicy {

}

/// What may be shown of a policy.
#[derive(Debug, PartialEq, Eq)]
pub struct PolicySummary {
    pub provider_id: String,
    pub base_url: String,
    pub authentication_kind: String,
    pub has_authentication: bool,
    pub is_full_url: bool,
    pub fingerprint: String,
}

/// The address that a request goes to.
pub open spec fn prepared_url(
    policy: Policy,
    transport: CodexRequestTransport,
    adapter_url: Seq<char>,
    query: Option<Seq<char>>,
) -> Result<Seq<char>, ProxyFault> {
    if policy.is_full_url {
        match endpoints::full_endpoint(policy.base_url, transport) {
            Ok(url) => Ok(endpoints::with_query(url, query)),
            Err(fault) => Err(fault),
        }
    } else {
        Ok(endpoints::with_query(adapter_url, query))
    }
}

/// The bytes of the user agent that a provider sees.
pub open spec fn effective_user_agent(
    custom: Option<Seq<u8>>,
    client_version: Seq<char>,
) -> Seq<u8> {
    match custom {
        Some(bytes) => bytes,
        None => vstd::utf8::encode_utf8(THIRD_PARTY_USER_AGENT_PREFIX@ + client_version),
    }
}

/// The headers after the overrides of a provider, with its user agent.
pub open spec fn with_header_policy(
    entries: Map<Seq<char>, Seq<Seq<u8>>>,
    overrides: Seq<HeaderOverride>,
    user_agent: Option<Seq<u8>>,
    client_version: Seq<char>,
) -> Map<Seq<char>, Seq<Seq<u8>>> {
    http_headers::overridden(entries, overrides).insert(
        "user-agent"@,
        seq![effective_user_agent(user_agent, client_version)],
    )
}

/// The headers of a request.
pub open spec fn prepared_headers(policy: Policy) -> Map<Seq<char>, Seq<Seq<u8>>> {
    with_header_policy(
        policy.auth_headers.insert(
            "content-type"@,
            seq![vstd::utf8::encode_utf8("application/json"@)],
        ),
        policy.header_overrides,
        policy.user_agent,
        policy.client_version,
    )
}

/// The headers that every request has are well formed.
proof fn lemma_fixed_headers()
    ensures
        http_headers::is_header_name("content-type"@),
        http_headers::lower("content-type"@) == "content-type"@,
        http_headers::is_header_value("application/json"@),
        http_headers::is_header_name("user-agent"@),
        http_headers::lower("user-agent"@) == "user-agent"@,
        http_headers::is_header_value(THIRD_PARTY_USER_AGENT_PREFIX@),
{
    reveal_strlit("content-type");
    reveal_strlit("application/json");
    reveal_strlit("user-agent");
    reveal_strlit("CCSwitchMulti/");
    assert(http_headers::lower("content-type"@) =~= "content-type"@);
    assert(http_headers::lower("user-agent"@) =~= "user-agent"@);
}

/// The user agent that a provider sees.
pub fn effective_third_party_user_agent(
    custom: Option<&http::HeaderValue>,
    client_version: &str,
) -> (r: http::HeaderValue)
    requires
        http_headers::is_header_value(client_version@),
    ensures
        http_headers::header_value_bytes(r) == effective_user_agent(
            match custom {
                Some(value) => Some(http_headers::header_value_bytes(*value)),
                None => None,
            },
            client_version@,
        ),
{
    match custom {
        Some(value) => http_headers::clone_value(value),
        None => {
            let agent = text::joined(THIRD_PARTY_USER_AGENT_PREFIX, client_version);
            proof {
                lemma_fixed_headers();
                let prefix = THIRD_PARTY_USER_AGENT_PREFIX@;
                assert forall|i: int| 0 <= i < agent@.len() implies http_headers::is_value_char(
                    #[trigger] agent@[i],
                ) by {
                    if i < prefix.len() {
                        assert(agent@[i] == prefix[i]);
                    } else {
                        assert(agent@[i] == client_version@[i - prefix.len()]);
                    }
                }
            }
            http_headers::make_header_value(agent.as_str()).unwrap()
        },
    }
}

/// Applies the overrides of a provider to the headers of a request that is
/// forwarded, and sets its user agent.
pub fn apply_provider_header_policy(
    headers: &mut http::HeaderMap<http::HeaderValue>,
    overrides: &Vec<HeaderOverride>,
    user_agent: Option<&http::HeaderValue>,
    client_version: &str,
)
    requires
        http_headers::has_room(*old(headers), overrides@.len() + 1),
        http_headers::is_header_value(client_version@),
    ensures
        http_headers::header_entries(*final(headers)) == with_header_policy(
            http_headers::header_entries(*old(headers)),
            overrides@,
            match user_agent {
                Some(value) => Some(http_headers::header_value_bytes(*value)),
                None => None,
            },
            client_version@,
        ),
{
    http_headers::apply_provider_header_overrides(headers, overrides);
    proof {
        lemma_fixed_headers();
    }
    let name = http_headers::make_header_name("user-agent").unwrap();
    let agent = effective_third_party_user_agent(user_agent, client_version);
    http_headers::headers_insert(headers, name, agent);
}

// ---------------------------------------------------------------------------
// Prepared requests

/// A request as it is sent.
pub struct PreparedCodexRequest {
    pub url: String,
    pub headers: http::HeaderMap<http::HeaderValue>,
    pub body: JsonValue,
}

/// What may be shown of a request: neither the values of its headers nor those of
/// its body.
#[derive(Debug, PartialEq, Eq)]
pub struct PreparedSummary {
    pub url: String,
    pub header_names: Vec<String>,
    pub body_keys: Option<Vec<String>>,
}

/// The keys of an object, in order.
fn sorted_body_keys(body: &JsonValue) -> (r: Option<Vec<String>>)
    ensures
        match body@ {
            Json::Object(fields) => r matches Some(keys) && text::texts_view(keys@)
                == text_map::sorted_keys(fields.dom()),
            _ => r is None,
        },
{
    match body.as_object() {
        Some(fields) => {
            assert(json::fields_view(fields@).dom() =~= fields@.dom());
            Some(keys_in_order(fields))
        },
        None => None,
    }
}

/// The keys of a map, in order.
fn keys_in_order<V>(map: &TextMap<V>) -> (r: Vec<String>)
    ensures
        text::texts_view(r@) == text_map::sorted_keys(map@.dom()),
{
    let n = map.len();
    let mut keys: Vec<String> = Vec::new();
    let mut i: usize = 0;
    while i < n
        invariant
            i <= n == map.key_seq().len(),
            text::texts_view(keys@) == map.key_seq().take(i as int),
        decreases n - i,
    {
        let ghost before = text::texts_view(keys@);
        let (key, _) = map.entry(i);
        keys.push(key.clone());
        assert(text::texts_view(keys@) =~= before.push(key@));
        assert(map.key_seq().take(i + 1) =~= before.push(key@));
        i = i + 1;
    }
    assert(map.key_seq().take(n as int) =~= map.key_seq());
    keys
}

/// The names of headers, in order.
fn sorted_header_names(headers: &http::HeaderMap<http::HeaderValue>) -> (r: Vec<String>)
    ensures
        text::texts_view(r@) == text_map::sorted_keys(
            http_headers::header_entries(*headers).dom(),
        ),
{
    let names = http_headers::header_keys(headers);
    let ghost all = text::texts_view(names@);
    let mut set: TextMap<bool> = TextMap::new();
    let mut i: usize = 0;
    while i < names.len()
        invariant
            i <= names@.len(),
            all == text::texts_view(names@),
            forall|k: Seq<char>| #[trigger]
                set@.contains_key(k) <==> (exists|j: int| 0 <= j < i && (#[trigger] all[j]) == k),
        decreases names@.len() - i,
    {
        assert(all[i as int] == names@[i as int]@);
        set.insert(names[i].clone(), true);
        i = i + 1;
    }
    proof {
        assert forall|k: Seq<char>| #[trigger]
            set@.dom().contains(k) <==> all.to_set().contains(k) by {
            if all.to_set().contains(k) {
                let j = choose|j: int| 0 <= j < all.len() && all[j] == k;
                assert(all[j] == k);
            }
        }
        assert(set@.dom() =~= all.to_set());
    }
    keys_in_order(&set)
}

impl Clone for PreparedCodexRequest {
    fn clone(&self) -> (r: Self)
        ensures
            r.url@ == self.url@,
            http_headers::header_entries(r.headers) == http_headers::header_entries(self.headers),
            r.body@ == self.body@,
    {
        PreparedCodexRequest {
            url: self.url.clone(),
            headers: http_headers::clone_headers(&self.headers),
            body: self.body.copy(),
        }
    }
}

impl PreparedCodexRequest {
    /// What may be shown of the request.
    pub fn summary(&self) -> (r: PreparedSummary)
        ensures
            r.url@ == endpoints::shown_url(self.url@),
            text::texts_view(r.header_names@) == text_map::sorted_keys(
                http_headers::header_entries(self.headers).dom(),
            ),
            match self.body@ {
                Json::Object(fields) => r.body_keys matches Some(keys) && text::texts_view(keys@)
                    == text_map::sorted_keys(fields.dom()),
                _ => r.body_keys is None,
            },
    {
        PreparedSummary {
            url: endpoints::redacted_url(self.url.as_str()),
            header_names: sorted_header_names(&self.headers),
            body_keys: sorted_body_keys(&self.body),
        }
    }
}

/// The dialect in which the schemas of tools are written.
#[derive(Debug, Clone, PartialEq, Eq)]
pub enum ToolSchemaDialect {
    OpenAi,
    Named(String),
}

/// What a single request asks of its preparation.
#[derive(Debug, Clone, PartialEq, Eq)]
pub struct CodexRequestOptions {
    pub hosted_web_search_enabled: bool,
    pub hosted_image_generation_enabled: bool,
    pub prompt_cache_session_id: Option<String>,
    pub tool_schema_dialect: Option<ToolSchemaDialect>,
    pub history_replay: Option<HistoryReplay>,
}

impl Default for CodexRequestOptions {
    fn default() -> (r: Self)
        ensures
            !r.hosted_web_search_enabled,
            !r.hosted_image_generation_enabled,
            r.prompt_cache_session_id is None,
            r.tool_schema_dialect is None,
            r.history_replay is None,
    {
        CodexRequestOptions {
            hosted_web_search_enabled: false,
            hosted_image_generation_enabled: false,
            prompt_cache_session_id: None,
            tool_schema_dialect: None,
            history_replay: None,
        }
    }
}

impl CodexRequestOptions {
    /// Whether the reasoning in the history goes into Chat messages.
    pub fn replays_chat_reasoning(&self) -> (r: bool)
        ensures
            r == (self.history_replay is None || self.history_replay == Some(
                HistoryReplay::ChatReasoningContent,
            )),
    {
        match self.history_replay {
            Some(HistoryReplay::ChatReasoningContent) => true,
            Some(_) => false,
            None => true,
        }
    }

    /// The dialect of the schemas of tools, where it is not that of OpenAI.
    pub fn foreign_dialect(&self) -> (r: Option<&str>)
        ensures
            text::opt_str_view(r) == match self.tool_schema_dialect {
                Some(ToolSchemaDialect::Named(name)) => Some(name@),
                _ => None,
            },
    {
        match &self.tool_schema_dialect {
            Some(ToolSchemaDialect::Named(name)) => Some(name.as_str()),
            _ => None,
        }
    }
}

/// The prompt cache key that a request gives itself.
pub fn explicit_prompt_cache_key(body: &JsonValue) -> (r: Option<String>)
    ensures
        text::opt_view(r) == body@.text_field("prompt_cache_key"@),
{
    match body.str_field("prompt_cache_key") {
        Some(key) => Some(key.to_owned()),
        None => None,
    }
}

/// How the body of a request is told in the protocol of a provider.
#[derive(Debug, PartialEq, Eq)]
pub enum ProtocolTransform {
    /// As Chat, with or without the reasoning in the history, under the prompt cache
    /// key that the request gave itself.
    Chat { replays_reasoning: bool, prompt_cache_key: Option<String> },
    /// As Responses.
    Native,
}

/// Whether the reasoning in the history goes into Chat messages.
pub open spec fn reasons_in_chat(history_replay: Option<HistoryReplay>) -> bool {
    history_replay is None || history_replay == Some(HistoryReplay::ChatReasoningContent)
}

/// How a request is told as Chat, with or without reasoning and under which key; nothing
/// where it is told as Responses.
pub open spec fn chat_form(
    transport: CodexRequestTransport,
    body: Json,
    history_replay: Option<HistoryReplay>,
) -> Option<(bool, Option<Seq<char>>)> {
    match transport {
        CodexRequestTransport::ChatCompletions => Some(
            (reasons_in_chat(history_replay), body.text_field("prompt_cache_key"@)),
        ),
        CodexRequestTransport::Responses => None,
    }
}

/// Decides how the body of a request is told in the protocol of a provider.
pub fn protocol_transform(
    transport: CodexRequestTransport,
    body: &JsonValue,
    options: &CodexRequestOptions,
) -> (r: ProtocolTransform)
    ensures
        match transport {
            CodexRequestTransport::ChatCompletions => r matches ProtocolTransform::Chat {
                replays_reasoning,
                prompt_cache_key,
            } && replays_reasoning == (options.history_replay is None || options.history_replay
                == Some(HistoryReplay::ChatReasoningContent)) && text::opt_view(prompt_cache_key)
                == body@.text_field("prompt_cache_key"@),
            CodexRequestTransport::Responses => r is Native,
        },
        match r {
            ProtocolTransform::Chat { replays_reasoning, prompt_cache_key } => chat_form(
                transport,
                body@,
                options.history_replay,
            ) == Some((replays_reasoning, text::opt_view(prompt_cache_key))),
            ProtocolTransform::Native => chat_form(transport, body@, options.history_replay)
                is None,
        },
{
    match transport {
        CodexRequestTransport::ChatCompletions => ProtocolTransform::Chat {
            replays_reasoning: options.replays_chat_reasoning(),
            prompt_cache_key: explicit_prompt_cache_key(body),
        },
        CodexRequestTransport::Responses => ProtocolTransform::Native,
    }
}

/// A step in which the body of a request is made ready to be sent.
#[derive(Debug, Clone, Copy, PartialEq, Eq, Structural)]
pub enum FinalizeStep {
    /// Drop private fields and lay the overrides of the provider over the body.
    ApplyBodyPolicy,
    /// Prepare the reasoning in the history.
    ReplayHistory(Option<HistoryReplay>),
    /// Write the schemas of the tools in the dialect of the provider.
    CompileToolSchemas,
    /// Wrap the siblings of references in the schemas of Chat tools.
    WrapRefSiblings,
    /// Leave out what the provider's Responses endpoint refuses.
    SanitizeResponses,
}

/// The steps in which the body of a request is made ready to be sent.
pub open spec fn steps_to_finalize(
    transport: CodexRequestTransport,
    history_replay: Option<HistoryReplay>,
    wraps_ref_siblings: bool,
    needs_namespace_flatten: bool,
) -> Seq<FinalizeStep> {
    match transport {
        CodexRequestTransport::Responses => seq![
            FinalizeStep::ApplyBodyPolicy,
            FinalizeStep::ReplayHistory(history_replay),
            FinalizeStep::CompileToolSchemas,
        ] + if needs_namespace_flatten {
            seq![FinalizeStep::SanitizeResponses]
        } else {
            Seq::empty()
        },
        CodexRequestTransport::ChatCompletions => seq![
            FinalizeStep::ApplyBodyPolicy,
            FinalizeStep::CompileToolSchemas,
        ] + if wraps_ref_siblings {
            seq![FinalizeStep::WrapRefSiblings]
        } else {
            Seq::empty()
        },
    }
}

/// The steps in which the body of a request is made ready to be sent.
/// `wraps_ref_siblings` says whether the upstream wants the siblings of references
/// wrapped, `needs_namespace_flatten` whether it refuses parts of a Responses
/// request.
pub fn finalize_body_steps(
    transport: CodexRequestTransport,
    options: &CodexRequestOptions,
    wraps_ref_siblings: bool,
    needs_namespace_flatten: bool,
) -> (r: Vec<FinalizeStep>)
    ensures
        r@ == steps_to_finalize(
            transport,
            options.history_replay,
            wraps_ref_siblings,
            needs_namespace_flatten,
        ),
{
    let mut steps: Vec<FinalizeStep> = Vec::new();
    steps.push(FinalizeStep::ApplyBodyPolicy);
    if transport == CodexRequestTransport::Responses {
        steps.push(FinalizeStep::ReplayHistory(options.history_replay));
    }
    steps.push(FinalizeStep::CompileToolSchemas);
    if transport == CodexRequestTransport::ChatCompletions && wraps_ref_siblings {
        steps.push(FinalizeStep::WrapRefSiblings);
    }
    if transport == CodexRequestTransport::Responses && needs_namespace_flatten {
        steps.push(FinalizeStep::SanitizeResponses);
    }
    assert(steps@ =~= steps_to_finalize(
        transport,
        options.history_replay,
        wraps_ref_siblings,
        needs_namespace_flatten,
    ));
    steps
}

/// The steps in which a continued Responses request is made ready to be sent again.
pub open spec fn steps_to_continue(history_replay: Option<HistoryReplay>) -> Seq<FinalizeStep> {
    seq![FinalizeStep::ApplyBodyPolicy, FinalizeStep::ReplayHistory(history_replay)]
}

/// The steps in which a continued Responses request is made ready to be sent
/// again. The schemas of its tools have been written before.
pub fn finalize_continuation_steps(options: &CodexRequestOptions) -> (r: Vec<FinalizeStep>)
    ensures
        r@ == seq![
            FinalizeStep::ApplyBodyPolicy,
            FinalizeStep::ReplayHistory(options.history_replay),
        ],
        r@ == steps_to_continue(options.history_replay),
{
    let mut steps: Vec<FinalizeStep> = Vec::new();
    steps.push(FinalizeStep::ApplyBodyPolicy);
    steps.push(FinalizeStep::ReplayHistory(options.history_replay));
    steps
}

// ---------------------------------------------------------------------------
// Laws

/// Whatever a provider's configuration asks for, a prepared request carries JSON,
/// the headers of the credential that are protected, and one user agent.
pub proof fn law_prepared_headers_are_fixed(policy: Policy, name: Seq<char>)
    ensures
        http_headers::values_under(prepared_headers(policy), "content-type"@) == seq![
            vstd::utf8::encode_utf8("application/json"@),
        ],
        http_headers::values_under(prepared_headers(policy), "user-agent"@) == seq![
            effective_user_agent(policy.user_agent, policy.client_version),
        ],
        http_headers::is_protected(name) && name != "content-type"@ && name != "user-agent"@
            ==> http_headers::values_under(prepared_headers(policy), name)
            == http_headers::values_under(policy.auth_headers, name),
{
    let base = policy.auth_headers.insert(
        "content-type"@,
        seq![vstd::utf8::encode_utf8("application/json"@)],
    );
    reveal_strlit("content-type");
    reveal_strlit("user-agent");
    assert("content-type"@.len() == 12);
    assert("user-agent"@.len() == 10);
    http_headers::law_protected_headers_stay(base, policy.header_overrides, "content-type"@);
    if http_headers::is_protected(name) {
        http_headers::law_protected_headers_stay(base, policy.header_overrides, name);
    }
}

/// Two policies are equal where the provider reads as the same JSON and the same
/// credential is sent in the same way.
pub proof fn law_same_provider_same_policy(
    first: ProviderSnapshot,
    second: ProviderSnapshot,
    probe_budget: u64,
)
    requires
        compile_fault(first) is None,
        compile_fault(second) is None,
        first.document->Ok_0@ == second.document->Ok_0@,
        kind_of_auth(first.auth->0) == kind_of_auth(second.auth->0),
        text::trimmed(first.auth->0.api_key@) == text::trimmed(second.auth->0.api_key@),
    ensures
        compiled(first, probe_budget).fingerprint == compiled(second, probe_budget).fingerprint,
        compiled(first, probe_budget).credential_fingerprint == compiled(
            second,
            probe_budget,
        ).credential_fingerprint,
{
}

} // verus!
