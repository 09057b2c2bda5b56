//! Laws on the requests that a provider gets: where they go, which headers they
//! carry, for which providers they are prepared, and in which steps.

use crate::body_overrides::HistoryReplay;
use crate::data_text;
use crate::digest;
use crate::endpoints;
use crate::endpoints::CodexRequestTransport;
use crate::errors::ProxyFault;
use crate::http_headers;
use crate::http_headers::{HeaderOverride, IgnoredOverride};
use crate::json::{Json, Number};
use crate::listing;
use crate::request_policy;
use crate::request_policy::{FinalizeStep, Policy, ProviderSnapshot};
use crate::text;
use vstd::prelude::*;

verus! {

// ---------------------------------------------------------------------------
// Addresses

/// Whether a text is an address that a provider gave in full, led to this path, with
/// this query.
pub open spec fn leads_to(
    url: Seq<char>,
    address: endpoints::Address,
    path: Seq<char>,
    query: Option<Seq<char>>,
) -> bool {
    url == endpoints::with_query(
        endpoints::address_text(endpoints::address_with_path(address, path)),
        query,
    )
}

/// Whether a request of this protocol goes where it should: where the provider gave its
/// address in full, to that address with a path that ends as the protocol wants it, and
/// otherwise to the address that is given for it.
pub open spec fn goes_where_served(
    url: Seq<char>,
    policy: Policy,
    transport: CodexRequestTransport,
    adapter_url: Seq<char>,
    query: Option<Seq<char>>,
) -> bool {
    if policy.is_full_url {
        &&& endpoints::url_parsed(policy.base_url) matches Some(address)
        &&& exists|path: Seq<char>| {
            &&& #[trigger] leads_to(url, address, path, query)
            &&& transport is Responses ==> "/responses"@.is_suffix_of(path)
            &&& transport is ChatCompletions ==> "/chat/completions"@.is_suffix_of(path)
        }
    } else {
        url == endpoints::with_query(adapter_url, query)
    }
}

/// A request goes where its protocol is served: where a provider gave its address in
/// full, the request goes to that address with a path that ends in `/responses` or in
/// `/chat/completions`, as the protocol of this request wants it, and a path that ends
/// so already is kept. Where no such path follows, or the text is no address, there is
/// an error. Otherwise the request goes to the address that is given for it.
pub proof fn law_request_goes_where_its_protocol_is_served(
    policy: Policy,
    transport: CodexRequestTransport,
    adapter_url: Seq<char>,
    query: Option<Seq<char>>,
)
    ensures
        ({
            let prepared = request_policy::prepared_url(policy, transport, adapter_url, query);
            &&& !policy.is_full_url ==> prepared == Ok::<Seq<char>, ProxyFault>(
                endpoints::with_query(adapter_url, query),
            )
            &&& policy.is_full_url ==> match endpoints::url_parsed(policy.base_url) {
                None => prepared == Err::<Seq<char>, ProxyFault>(
                    ProxyFault::ConfigError("Codex Provider full URL is invalid"@),
                ),
                Some(address) => {
                    &&& prepared matches Ok(url) ==> exists|path: Seq<char>| {
                        &&& #[trigger] leads_to(url, address, path, query)
                        &&& transport is Responses ==> "/responses"@.is_suffix_of(path)
                        &&& transport is ChatCompletions ==> "/chat/completions"@.is_suffix_of(path)
                        &&& endpoints::endpoint_path(address.path, transport) == Some(path)
                    }
                    &&& transport is Responses && "/responses"@.is_suffix_of(address.path) ==> {
                        &&& prepared is Ok
                        &&& leads_to(prepared->Ok_0, address, address.path, query)
                    }
                    &&& transport is ChatCompletions && "/chat/completions"@.is_suffix_of(
                        address.path,
                    ) ==> {
                        &&& prepared is Ok
                        &&& leads_to(prepared->Ok_0, address, address.path, query)
                    }
                    &&& prepared is Err <==> endpoints::endpoint_path(address.path, transport)
                        is None
                    &&& prepared matches Err(fault) ==> fault == ProxyFault::ConfigError(
                        if transport is Responses {
                            "Cannot derive "@ + "/responses"@
                                + " endpoint from Codex Provider full URL"@
                        } else {
                            "Cannot derive "@ + "/chat/completions"@
                                + " endpoint from Codex Provider full URL"@
                        },
                    )
                },
            }
        }),
{
    if policy.is_full_url {
        if let Some(address) = endpoints::url_parsed(policy.base_url) {
            text::law_trim_end_char(address.path, '/');
            let path = text::trim_end_char(address.path, '/');
            let slashes = (address.path.len() - path.len()) as nat;
            assert(address.path =~= path + Seq::new(slashes, |i: int| '/'));
            endpoints::law_endpoint_follows_from_the_path(path, slashes, transport);
            if endpoints::is_served_at(address.path, transport) {
                lemma_served_is_trimmed(address.path, transport);
            }
            if let Some(next) = endpoints::endpoint_path(address.path, transport) {
                let prepared = request_policy::prepared_url(policy, transport, adapter_url, query);
                assert(leads_to(prepared->Ok_0, address, next, query));
            }
        }
    }
}

/// A path that ends as a protocol wants it has no slash at its end.
proof fn lemma_served_is_trimmed(path: Seq<char>, transport: CodexRequestTransport)
    requires
        endpoints::is_served_at(path, transport),
    ensures
        text::trim_end_char(path, '/') == path,
{
    reveal_strlit("/responses");
    reveal_strlit("/chat/completions");
    let suffix = if transport is Responses {
        "/responses"@
    } else {
        "/chat/completions"@
    };
    let n = suffix.len() as int;
    assert(path.subrange(path.len() - n, path.len() as int)[n - 1] == suffix[n - 1]);
}

/// The two protocols of a provider that gave its address in full are served at
/// different addresses: their paths differ.
pub proof fn law_protocols_are_served_apart(path: Seq<char>)
    ensures
        match (
            endpoints::endpoint_path(path, CodexRequestTransport::Responses),
            endpoints::endpoint_path(path, CodexRequestTransport::ChatCompletions),
        ) {
            (Some(responses), Some(chat)) => responses != chat,
            _ => true,
        },
{
    text::law_trim_end_char(path, '/');
    let front = text::trim_end_char(path, '/');
    let slashes = (path.len() - front.len()) as nat;
    assert(path =~= front + Seq::new(slashes, |i: int| '/'));
    endpoints::law_endpoint_follows_from_the_path(front, slashes, CodexRequestTransport::Responses);
    endpoints::law_endpoint_follows_from_the_path(
        front,
        slashes,
        CodexRequestTransport::ChatCompletions,
    );
    reveal_strlit("/responses");
    reveal_strlit("/chat/completions");
    if let (Some(responses), Some(chat)) = (
        endpoints::endpoint_path(path, CodexRequestTransport::Responses),
        endpoints::endpoint_path(path, CodexRequestTransport::ChatCompletions),
    ) {
        let r = responses.subrange(responses.len() - 10, responses.len() as int);
        let c = chat.subrange(chat.len() - 17, chat.len() as int);
        assert(r == "/responses"@ && c == "/chat/completions"@);
        assert(responses[responses.len() - 2] == r[8]);
        assert(chat[chat.len() - 2] == c[15]);
    }
}

// ---------------------------------------------------------------------------
// Headers

/// The headers that carry a credential are all kept: under each name stand the values
/// that were given under it, in the order in which they were given.
pub proof fn law_credential_headers_are_all_kept(
    pairs: Seq<(http::HeaderName, http::HeaderValue)>,
    name: Seq<char>,
)
    ensures
        listing::lists_kept(
            pairs,
            http_headers::values_under(
                request_policy::appended(http_headers::no_headers(), pairs),
                name,
            ),
            |pair: (http::HeaderName, http::HeaderValue)|
                http_headers::header_name_text(pair.0) == name,
            |pair: (http::HeaderName, http::HeaderValue), value: Seq<u8>|
                value == http_headers::header_value_bytes(pair.1),
        ),
    decreases pairs.len(),
{
    let keep = |pair: (http::HeaderName, http::HeaderValue)|
        http_headers::header_name_text(pair.0) == name;
    let fits = |pair: (http::HeaderName, http::HeaderValue), value: Seq<u8>|
        value == http_headers::header_value_bytes(pair.1);
    let entries = request_policy::appended(http_headers::no_headers(), pairs);
    let listed = http_headers::values_under(entries, name);
    if pairs.len() == 0 {
        listing::lemma_lists_nothing(pairs, listed, keep, fits);
    } else {
        law_credential_headers_are_all_kept(pairs.drop_last(), name);
        let before = http_headers::values_under(
            request_policy::appended(http_headers::no_headers(), pairs.drop_last()),
            name,
        );
        if keep(pairs.last()) {
            assert(listed.take(before.len() as int) =~= before);
        }
        listing::lemma_lists_last(pairs, before, listed, keep, fits);
    }
}

/// The headers that no override reaches are exactly these.
pub proof fn law_protected_headers(name: Seq<char>)
    ensures
        http_headers::is_protected(name) <==> {
            ||| is_connection_header(name)
            ||| is_credential_header(name)
            ||| is_forwarding_header(name)
            ||| is_tracing_header(name)
        },
{
}

/// Whether a header steers the connection or the form of the body.
pub open spec fn is_connection_header(name: Seq<char>) -> bool {
    ||| name == "host"@
    ||| name == "connection"@
    ||| name == "content-length"@
    ||| name == "content-type"@
    ||| name == "transfer-encoding"@
    ||| name == "accept-encoding"@
    ||| name == "te"@
    ||| name == "trailer"@
    ||| name == "upgrade"@
}

/// Whether a header carries a credential or names a session.
pub open spec fn is_credential_header(name: Seq<char>) -> bool {
    ||| name == "authorization"@
    ||| name == "proxy-authorization"@
    ||| name == "proxy-authenticate"@
    ||| name == "x-api-key"@
    ||| name == "x-goog-api-key"@
    ||| name == "chatgpt-account-id"@
    ||| name == "session_id"@
    ||| name == "x-client-request-id"@
    ||| name == "x-codex-window-id"@
}

/// Whether a header says through which hosts a request came.
pub open spec fn is_forwarding_header(name: Seq<char>) -> bool {
    ||| name == "forwarded"@
    ||| name == "x-forwarded-host"@
    ||| name == "x-forwarded-port"@
    ||| name == "x-forwarded-proto"@
    ||| name == "cf-connecting-ip"@
    ||| name == "cf-ipcountry"@
    ||| name == "cf-ray"@
    ||| name == "cf-visitor"@
    ||| name == "true-client-ip"@
    ||| name == "fastly-client-ip"@
    ||| name == "x-azure-clientip"@
    ||| name == "x-azure-fdid"@
    ||| name == "x-azure-ref"@
    ||| name == "akamai-origin-hop"@
    ||| name == "x-akamai-config-log-detail"@
}

/// Whether a header traces a request.
pub open spec fn is_tracing_header(name: Seq<char>) -> bool {
    ||| name == "x-request-id"@
    ||| name == "x-correlation-id"@
    ||| name == "x-trace-id"@
    ||| name == "x-amzn-trace-id"@
    ||| name == "x-b3-traceid"@
    ||| name == "x-b3-spanid"@
    ||| name == "x-b3-parentspanid"@
    ||| name == "x-b3-sampled"@
    ||| name == "traceparent"@
    ||| name == "tracestate"@
}

/// Whether an override is one that takes effect, under this name: the name that is
/// left of it without white space at its ends and in lower case can be that of a
/// header and is not kept from overrides, and its value can be that of a header.
pub open spec fn sets_header(wanted: HeaderOverride, name: Seq<char>) -> bool {
    &&& name.len() == text::trimmed(wanted.name@).len()
    &&& forall|i: int|
        0 <= i < name.len() ==> (#[trigger] name[i]) == text::ascii_lower(
            text::trimmed(wanted.name@)[i],
        )
    &&& 1 <= name.len() <= 0xffff
    &&& forall|i: int| 0 <= i < name.len() ==> http_headers::is_name_char(#[trigger] name[i])
    &&& !is_connection_header(name)
    &&& !is_credential_header(name)
    &&& !is_forwarding_header(name)
    &&& !is_tracing_header(name)
    &&& forall|i: int|
        0 <= i < wanted.value@.len() ==> http_headers::is_value_char(#[trigger] wanted.value@[i])
}

/// An override is heeded exactly where it takes effect under its name.
proof fn lemma_sets_header(wanted: HeaderOverride, name: Seq<char>)
    ensures
        sets_header(wanted, name) <==> http_headers::is_heeded(wanted.name@, wanted.value@)
            && http_headers::override_name(wanted.name@) == name,
{
    let own = http_headers::override_name(wanted.name@);
    if sets_header(wanted, name) {
        assert(own =~= name);
    }
}

/// An override is ignored exactly where it takes effect under no name: first for a name
/// that no header can have, then for a name that is kept from overrides, and then for a
/// value that no header can have.
pub proof fn law_overrides_are_ignored_for_a_reason(wanted: HeaderOverride, name: Seq<char>)
    requires
        name.len() == text::trimmed(wanted.name@).len(),
        forall|i: int|
            0 <= i < name.len() ==> (#[trigger] name[i]) == text::ascii_lower(
                text::trimmed(wanted.name@)[i],
            ),
    ensures
        ({
            let reason = http_headers::why_ignored(wanted.name@, wanted.value@);
            let fits = 1 <= name.len() <= 0xffff && forall|i: int|
                0 <= i < name.len() ==> http_headers::is_name_char(#[trigger] name[i]);
            let kept = is_connection_header(name) || is_credential_header(name)
                || is_forwarding_header(name) || is_tracing_header(name);
            &&& reason is None <==> sets_header(wanted, name)
            &&& !fits <==> reason == Some(IgnoredOverride::InvalidName)
            &&& fits && kept <==> reason == Some(IgnoredOverride::ProtectedName)
        }),
{
    assert(http_headers::override_name(wanted.name@) =~= name);
    lemma_sets_header(wanted, name);
}

/// The last override that takes effect under a name decides what the header holds: its
/// value and no other.
pub proof fn law_last_override_reaches_its_header(
    entries: Map<Seq<char>, Seq<Seq<u8>>>,
    overrides: Seq<HeaderOverride>,
    name: Seq<char>,
    index: int,
)
    requires
        0 <= index < overrides.len(),
        sets_header(overrides[index], name),
        forall|j: int|
            index < j < overrides.len() ==> !sets_header(#[trigger] overrides[j], name),
    ensures
        http_headers::overridden(entries, overrides).contains_key(name),
        http_headers::overridden(entries, overrides)[name] == seq![
            vstd::utf8::encode_utf8(overrides[index].value@),
        ],
    decreases overrides.len(),
{
    let front = overrides.drop_last();
    let last = overrides[overrides.len() - 1];
    lemma_sets_header(last, name);
    if index < front.len() {
        assert(!sets_header(last, name));
        assert(front[index] == overrides[index]);
        assert forall|j: int| index < j < front.len() implies !sets_header(
            #[trigger] front[j],
            name,
        ) by {
            assert(!sets_header(overrides[j], name));
        }
        law_last_override_reaches_its_header(entries, front, name, index);
    }
}

/// A header that no override takes effect on is as it was.
pub proof fn law_other_headers_are_not_overridden(
    entries: Map<Seq<char>, Seq<Seq<u8>>>,
    overrides: Seq<HeaderOverride>,
    name: Seq<char>,
)
    requires
        forall|i: int| 0 <= i < overrides.len() ==> !sets_header(#[trigger] overrides[i], name),
    ensures
        http_headers::overridden(entries, overrides).contains_key(name) == entries.contains_key(
            name,
        ),
        entries.contains_key(name) ==> http_headers::overridden(entries, overrides)[name]
            == entries[name],
    decreases overrides.len(),
{
    if overrides.len() > 0 {
        let front = overrides.drop_last();
        let last = overrides[overrides.len() - 1];
        lemma_sets_header(last, name);
        assert(!sets_header(last, name));
        assert forall|i: int| 0 <= i < front.len() implies !sets_header(
            #[trigger] front[i],
            name,
        ) by {
            assert(!sets_header(overrides[i], name));
        }
        law_other_headers_are_not_overridden(entries, front, name);
    }
}

/// A request carries the credential of the provider, JSON as its content, the user
/// agent of the provider or the own one with the version, and the overrides of the
/// provider; neither of the first two is overridden.
pub proof fn law_request_carries_its_headers(policy: Policy, name: Seq<char>)
    ensures
        ({
            let headers = request_policy::prepared_headers(policy);
            &&& headers.contains_key("content-type"@)
            &&& headers["content-type"@] == seq![vstd::utf8::encode_utf8("application/json"@)]
            &&& headers.contains_key("user-agent"@)
            &&& headers["user-agent"@] == seq![
                match policy.user_agent {
                    Some(own) => own,
                    None => vstd::utf8::encode_utf8("CCSwitchMulti/"@ + policy.client_version),
                },
            ]
            &&& name != "content-type"@ && name != "user-agent"@ ==> {
                let before = policy.auth_headers;
                let after = http_headers::overridden(before, policy.header_overrides);
                &&& headers.contains_key(name) == after.contains_key(name)
                &&& after.contains_key(name) ==> headers[name] == after[name]
            }
            &&& is_credential_header(name) ==> {
                &&& headers.contains_key(name) == policy.auth_headers.contains_key(name)
                &&& headers.contains_key(name) ==> headers[name] == policy.auth_headers[name]
            }
        }),
{
    reveal_strlit("content-type");
    reveal_strlit("user-agent");
    assert("content-type"@.len() == 12);
    assert("user-agent"@.len() == 10);
    let json = seq![vstd::utf8::encode_utf8("application/json"@)];
    let base = policy.auth_headers.insert("content-type"@, json);
    assert forall|wanted: HeaderOverride| !sets_header(wanted, "content-type"@) by {}
    law_other_headers_are_not_overridden(base, policy.header_overrides, "content-type"@);
    if name != "content-type"@ {
        lemma_overridden_apart(policy.auth_headers, base, policy.header_overrides, name);
    }
    if is_credential_header(name) {
        assert forall|wanted: HeaderOverride| !sets_header(wanted, name) by {}
        lemma_credential_is_neither(name);
        law_other_headers_are_not_overridden(policy.auth_headers, policy.header_overrides, name);
    }
}

/// No header that carries a credential is one of the two that every request has.
proof fn lemma_credential_is_neither(name: Seq<char>)
    requires
        is_credential_header(name),
    ensures
        name != "content-type"@,
        name != "user-agent"@,
{
    reveal_strlit("content-type");
    reveal_strlit("user-agent");
    reveal_strlit("authorization");
    reveal_strlit("proxy-authorization");
    reveal_strlit("proxy-authenticate");
    reveal_strlit("x-api-key");
    reveal_strlit("x-goog-api-key");
    reveal_strlit("chatgpt-account-id");
    reveal_strlit("session_id");
    reveal_strlit("x-client-request-id");
    reveal_strlit("x-codex-window-id");
    assert("content-type"@.len() == 12);
    assert("user-agent"@.len() == 10);
    assert("user-agent"@[0] == 'u');
    assert("session_id"@[0] == 's');
}

/// What overrides make of a header depends on that header alone.
proof fn lemma_overridden_apart(
    first: Map<Seq<char>, Seq<Seq<u8>>>,
    second: Map<Seq<char>, Seq<Seq<u8>>>,
    overrides: Seq<HeaderOverride>,
    name: Seq<char>,
)
    requires
        first.contains_key(name) == second.contains_key(name),
        first.contains_key(name) ==> first[name] == second[name],
    ensures
        http_headers::overridden(first, overrides).contains_key(name) == http_headers::overridden(
            second,
            overrides,
        ).contains_key(name),
        http_headers::overridden(first, overrides).contains_key(name) ==> http_headers::overridden(
            first,
            overrides,
        )[name] == http_headers::overridden(second, overrides)[name],
    decreases overrides.len(),
{
    if overrides.len() > 0 {
        lemma_overridden_apart(first, second, overrides.drop_last(), name);
    }
}

// ---------------------------------------------------------------------------
// Policies

/// A policy is compiled exactly for a provider of a third party whose address is a
/// URL, whose credential and its headers are known, and which can be written as JSON.
/// The first of these that does not hold is the error.
pub proof fn law_policy_is_compiled_where_it_can(snapshot: ProviderSnapshot)
    ensures
        ({
            let fault = request_policy::compile_fault(snapshot);
            let managed = snapshot.uses_managed_account_auth || snapshot.is_official || (
            snapshot.category matches Some(category) && category@ == "official"@);
            &&& managed ==> fault == Some(
                ProxyFault::ConfigError(
                    "managed or official providers do not use third-party request preparation"@,
                ),
            )
            &&& !managed ==> {
                &&& snapshot.base_url matches Err(e) ==> fault == Some(e@)
                &&& snapshot.base_url matches Ok(url) ==> {
                    let parsed = endpoints::url_parsed(url@) is Some;
                    &&& !parsed ==> fault == Some(
                        ProxyFault::ConfigError("Codex Provider base_url must be an absolute URL"@),
                    )
                    &&& parsed && snapshot.auth is None ==> fault == Some(
                        ProxyFault::ConfigError(
                            "Codex Provider is missing third-party authentication"@,
                        ),
                    )
                    &&& parsed && snapshot.auth is Some ==> {
                        &&& snapshot.auth_headers matches Err(e) ==> fault == Some(e@)
                        &&& snapshot.auth_headers is Ok && snapshot.document is Ok ==> fault is None
                        &&& snapshot.auth_headers is Ok ==> (snapshot.document matches Err(message)
                            ==> fault == Some(
                            ProxyFault::Internal(
                                "Failed to fingerprint Codex Provider policy: "@ + message@,
                            ),
                        ))
                    }
                }
            }
        }),
{
}

/// A policy says of its provider what the provider says of itself: its id, its address,
/// whether that is given in full, its overrides, its user agent, and how its credential
/// is sent. The fingerprint of the credential tells credentials apart by what they are
/// and how they are sent, and that of the policy also by the provider as JSON and the
/// budget.
pub proof fn law_policy_speaks_for_its_provider(snapshot: ProviderSnapshot, probe_budget: u64)
    requires
        request_policy::compile_fault(snapshot) is None,
    ensures
        ({
            let policy = request_policy::compiled(snapshot, probe_budget);
            let auth = snapshot.auth->0;
            &&& policy.provider_id == snapshot.id@
            &&& policy.base_url == snapshot.base_url->Ok_0@
            &&& policy.is_full_url <==> (snapshot.is_full_url matches Some(full) && full)
            &&& policy.header_overrides == snapshot.header_overrides@
            &&& match snapshot.body_override {
                Some(patch) => policy.body_override == Some(patch@),
                None => policy.body_override is None,
            }
            &&& match snapshot.user_agent {
                Some(own) => policy.user_agent == Some(http_headers::header_value_bytes(own)),
                None => policy.user_agent is None,
            }
            &&& policy.client_version == snapshot.client_version@
            &&& policy.authentication_kind.len() == auth.strategy@.len()
            &&& forall|i: int|
                0 <= i < auth.strategy@.len() ==> (#[trigger] policy.authentication_kind[i])
                    == text::ascii_lower(auth.strategy@[i])
            &&& policy.credential_fingerprint == text::lower_hex(
                digest::sha256(
                    vstd::utf8::encode_utf8(
                        policy.authentication_kind + ":"@ + text::trimmed(auth.api_key@),
                    ),
                ),
            )
            &&& exists|material: Json|
                {
                    &&& policy.fingerprint == text::lower_hex(
                        digest::sha256(
                            vstd::utf8::encode_utf8(#[trigger] data_text::json_rendered(material)),
                        ),
                    )
                    &&& material.field("provider"@) == Some(snapshot.document->Ok_0@)
                    &&& material.field("credentialFingerprint"@) == Some(
                        Json::Text(policy.credential_fingerprint),
                    )
                    &&& material.field("probeBudget"@) == Some(
                        Json::Number(Number::Integer(probe_budget as int)),
                    )
                    &&& material.field("preparerVersion"@) == Some(
                        Json::Number(Number::Integer(8)),
                    )
                    &&& material.field("probeCorpusVersion"@) == Some(
                        Json::Number(Number::Integer(4)),
                    )
                    &&& forall|k: Seq<char>|
                        (#[trigger] material.field(k)) is Some ==> k == "provider"@ || k
                            == "credentialFingerprint"@ || k == "probeBudget"@ || k
                            == "preparerVersion"@ || k == "probeCorpusVersion"@
                }
        }),
{
    reveal_strlit("provider");
    reveal_strlit("credentialFingerprint");
    reveal_strlit("probeBudget");
    reveal_strlit("preparerVersion");
    reveal_strlit("probeCorpusVersion");
    assert("provider"@.len() == 8);
    assert("credentialFingerprint"@.len() == 21);
    assert("probeBudget"@.len() == 11);
    assert("preparerVersion"@.len() == 15);
    assert("probeCorpusVersion"@.len() == 18);
    let policy = request_policy::compiled(snapshot, probe_budget);
    let material = request_policy::fingerprint_material(
        snapshot.document->Ok_0@,
        policy.credential_fingerprint,
        probe_budget,
    );
    assert(policy.fingerprint == text::lower_hex(
        digest::sha256(vstd::utf8::encode_utf8(data_text::json_rendered(material))),
    ));
}

// ---------------------------------------------------------------------------
// Steps

/// A body is made ready in a fixed order: the policy of the provider comes first, then,
/// for Responses alone, the history, then the schemas of the tools, and last what the
/// upstream needs besides. Each step is taken once, where it belongs.
pub proof fn law_steps_come_in_order(
    transport: CodexRequestTransport,
    history_replay: Option<HistoryReplay>,
    wraps_ref_siblings: bool,
    needs_namespace_flatten: bool,
)
    ensures
        ({
            let steps = request_policy::steps_to_finalize(
                transport,
                history_replay,
                wraps_ref_siblings,
                needs_namespace_flatten,
            );
            let schemas: int = if transport is Responses {
                2
            } else {
                1
            };
            let more = if transport is Responses {
                needs_namespace_flatten
            } else {
                wraps_ref_siblings
            };
            &&& steps.len() == schemas + if more {
                2int
            } else {
                1int
            }
            &&& steps[0] == FinalizeStep::ApplyBodyPolicy
            &&& transport is Responses ==> steps[1] == FinalizeStep::ReplayHistory(history_replay)
            &&& steps[schemas] == FinalizeStep::CompileToolSchemas
            &&& more ==> steps[schemas + 1] == if transport is Responses {
                FinalizeStep::SanitizeResponses
            } else {
                FinalizeStep::WrapRefSiblings
            }
        }),
{
}

/// A request is told in the protocol that it goes by: as Chat exactly where that is Chat.
/// It then keeps the key for the cache of prompts that it gave itself, where that is a
/// text, and its reasoning goes into the messages unless the provider wants it told in
/// another way or not at all.
pub proof fn law_request_is_told_in_its_protocol(
    transport: CodexRequestTransport,
    body: Json,
    history_replay: Option<HistoryReplay>,
)
    ensures
        ({
            let form = request_policy::chat_form(transport, body, history_replay);
            &&& form is Some <==> transport is ChatCompletions
            &&& form matches Some(told) ==> {
                &&& told.0 <==> !(history_replay is Some && (history_replay->0 is NativeOnly
                    || history_replay->0 is ResponsesReasoningTextContent
                    || history_replay->0 is Omit))
                &&& match body.field("prompt_cache_key"@) {
                    Some(Json::Text(key)) => told.1 == Some(key),
                    _ => told.1 is None,
                }
            }
        }),
{
}

/// A continued request goes through the first steps of a Responses request again, up to
/// the schemas of its tools, which were written before.
pub proof fn law_continued_request_repeats_the_first_steps(
    history_replay: Option<HistoryReplay>,
    wraps_ref_siblings: bool,
    needs_namespace_flatten: bool,
)
    ensures
        ({
            let again = request_policy::steps_to_continue(history_replay);
            let all = request_policy::steps_to_finalize(
                CodexRequestTransport::Responses,
                history_replay,
                wraps_ref_siblings,
                needs_namespace_flatten,
            );
            &&& again == all.subrange(0, again.len() as int)
            &&& all[again.len() as int] == FinalizeStep::CompileToolSchemas
            &&& again.len() == 2
        }),
{
    let again = request_policy::steps_to_continue(history_replay);
    let all = request_policy::steps_to_finalize(
        CodexRequestTransport::Responses,
        history_replay,
        wraps_ref_siblings,
        needs_namespace_flatten,
    );
    assert(again =~= all.subrange(0, again.len() as int));
}

} // verus!
