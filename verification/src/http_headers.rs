//! HTTP headers, held by the `http` crate.

use crate::text;
use vstd::prelude::*;

verus! {

/// A header name of `http`.
#[verifier::external_type_specification]
#[verifier::external_body]
pub struct ExHeaderName(http::HeaderName);

/// A header value of `http`.
#[verifier::external_type_specification]
#[verifier::external_body]
pub struct ExHeaderValue(http::HeaderValue);

/// A header map of `http`.
#[verifier::external_type_specification]
#[verifier::external_body]
#[verifier::reject_recursive_types(T)]
pub struct ExHeaderMap<T>(http::HeaderMap<T>);

/// The text of a header name.
pub uninterp spec fn header_name_text(name: http::HeaderName) -> Seq<char>;

/// The bytes of a header value.
pub uninterp spec fn header_value_bytes(value: http::HeaderValue) -> Seq<u8>;

/// The values that a header map holds under each name, in the order in which
/// they were added.
pub uninterp spec fn header_entries(headers: http::HeaderMap<http::HeaderValue>) -> Map<
    Seq<char>,
    Seq<Seq<u8>>,
>;

/// A header map is not filled beyond this number of names. `http` gives up at the
/// earliest where a map that has grown to its largest table holds 6554 names, some
/// of which collide, and another one comes.
pub const MAX_HEADER_NAMES: usize = 6553;

/// Whether a character may stand in a header name.
pub open spec fn is_name_char(c: char) -> bool {
    ||| 'a' <= c <= 'z'
    ||| 'A' <= c <= 'Z'
    ||| '0' <= c <= '9'
    ||| c == '!'
    ||| '#' <= c <= '\''
    ||| c == '*'
    ||| c == '+'
    ||| c == '-'
    ||| c == '.'
    ||| '^' <= c <= '`'
    ||| c == '|'
    ||| c == '~'
}

/// Whether a text is a header name: not empty, not longer than a name may be, and
/// of name characters only.
pub open spec fn is_header_name(name: Seq<char>) -> bool {
    &&& 1 <= name.len() <= 0xffff
    &&& forall|i: int| 0 <= i < name.len() ==> is_name_char(#[trigger] name[i])
}

/// Whether a character may stand in a header value: no control character but the
/// tab.
pub open spec fn is_value_char(c: char) -> bool {
    (c as u32 >= 0x20 && c as u32 != 0x7f) || c as u32 == 0x9
}

/// Whether a text is a header value.
pub open spec fn is_header_value(value: Seq<char>) -> bool {
    forall|i: int| 0 <= i < value.len() ==> is_value_char(#[trigger] value[i])
}

/// The text with every ASCII letter in lower case.
pub open spec fn lower(name: Seq<char>) -> Seq<char> {
    name.map_values(|c: char| text::ascii_lower(c))
}

/// No headers.
pub open spec fn no_headers() -> Map<Seq<char>, Seq<Seq<u8>>> {
    Map::empty()
}

/// Whether a header map has room for this many names more.
pub open spec fn has_room(headers: http::HeaderMap<http::HeaderValue>, count: nat) -> bool {
    &&& header_entries(headers).dom().finite()
    &&& header_entries(headers).dom().len() + count <= MAX_HEADER_NAMES
}

/// Calls `http::HeaderName::from_bytes`: the name in lower case, where the text is
/// a header name.
#[verifier::external_body]
pub(crate) fn make_header_name(name: &str) -> (r: Option<http::HeaderName>)
    ensures
        match r {
            Some(made) => is_header_name(name@) && header_name_text(made) == lower(name@),
            None => !is_header_name(name@),
        },
{
    http::HeaderName::from_bytes(name.as_bytes()).ok()
}

/// Calls `http::HeaderValue::from_str`: the UTF-8 bytes of the text, where it is a
/// header value.
#[verifier::external_body]
pub(crate) fn make_header_value(value: &str) -> (r: Option<http::HeaderValue>)
    ensures
        match r {
            Some(made) => is_header_value(value@) && header_value_bytes(made)
                == vstd::utf8::encode_utf8(value@),
            None => !is_header_value(value@),
        },
{
    http::HeaderValue::from_str(value).ok()
}

/// Calls `http::HeaderName::as_str`.
#[verifier::external_body]
pub(crate) fn header_name_str(name: &http::HeaderName) -> (r: String)
    ensures
        r@ == header_name_text(*name),
{
    name.as_str().to_string()
}

/// Clones an `http::HeaderValue`, with its bytes.
#[verifier::external_body]
pub(crate) fn clone_value(value: &http::HeaderValue) -> (r: http::HeaderValue)
    ensures
        header_value_bytes(r) == header_value_bytes(*value),
{
    value.clone()
}

/// Calls `http::HeaderMap::new`: a map without headers.
#[verifier::external_body]
pub(crate) fn new_headers() -> (r: http::HeaderMap<http::HeaderValue>)
    ensures
        header_entries(r) == no_headers(),
{
    http::HeaderMap::new()
}

/// Clones an `http::HeaderMap`, with its headers.
#[verifier::external_body]
pub(crate) fn clone_headers(headers: &http::HeaderMap<http::HeaderValue>) -> (r: http::HeaderMap<
    http::HeaderValue,
>)
    ensures
        header_entries(r) == header_entries(*headers),
{
    headers.clone()
}

/// Calls `http::HeaderMap::is_empty`: whether there is no header.
#[verifier::external_body]
pub(crate) fn headers_are_empty(headers: &http::HeaderMap<http::HeaderValue>) -> (r: bool)
    ensures
        r == (header_entries(*headers) == no_headers()),
{
    headers.is_empty()
}

/// Calls `http::HeaderMap::insert`: the name has this value and no other. The map
/// panics when it is full, which the contract leaves out.
#[verifier::external_body]
pub(crate) fn headers_insert(
    headers: &mut http::HeaderMap<http::HeaderValue>,
    name: http::HeaderName,
    value: http::HeaderValue,
)
    requires
        has_room(*old(headers), 1),
    ensures
        header_entries(*final(headers)) == header_entries(*old(headers)).insert(
            header_name_text(name),
            seq![header_value_bytes(value)],
        ),
{
    headers.insert(name, value);
}

/// The values under a name: none where there is no such name.
pub open spec fn values_under(
    entries: Map<Seq<char>, Seq<Seq<u8>>>,
    name: Seq<char>,
) -> Seq<Seq<u8>> {
    if entries.contains_key(name) {
        entries[name]
    } else {
        Seq::empty()
    }
}

/// Calls `http::HeaderMap::append`: the name has this value after those that it
/// had. The map panics when it is full, which the contract leaves out.
#[verifier::external_body]
pub(crate) fn headers_append(
    headers: &mut http::HeaderMap<http::HeaderValue>,
    name: http::HeaderName,
    value: http::HeaderValue,
)
    requires
        has_room(*old(headers), 1),
    ensures
        header_entries(*final(headers)) == header_entries(*old(headers)).insert(
            header_name_text(name),
            values_under(header_entries(*old(headers)), header_name_text(name)).push(
                header_value_bytes(value),
            ),
        ),
{
    headers.append(name, value);
}

/// The values that pairs give to a name, in order.
pub open spec fn values_of_pairs(
    pairs: Seq<(http::HeaderName, http::HeaderValue)>,
    name: Seq<char>,
) -> Seq<Seq<u8>>
    decreases pairs.len(),
{
    if pairs.len() == 0 {
        Seq::empty()
    } else {
        let before = values_of_pairs(pairs.drop_last(), name);
        if header_name_text(pairs.last().0) == name {
            before.push(header_value_bytes(pairs.last().1))
        } else {
            before
        }
    }
}

/// Calls `http::HeaderMap::iter`: every header once, the values of one name in
/// their order. The order of the names is left unsaid.
#[verifier::external_body]
pub(crate) fn header_pairs(headers: &http::HeaderMap<http::HeaderValue>) -> (r: Vec<
    (http::HeaderName, http::HeaderValue),
>)
    ensures
        forall|name: Seq<char>| #[trigger]
            values_of_pairs(r@, name) == values_under(header_entries(*headers), name),
{
    headers.iter().map(|(name, value)| (name.clone(), value.clone())).collect()
}

/// Calls `http::HeaderMap::keys`: every name once, in an order that is left
/// unsaid.
#[verifier::external_body]
pub(crate) fn header_keys(headers: &http::HeaderMap<http::HeaderValue>) -> (r: Vec<String>)
    ensures
        text::texts_view(r@).to_set() == header_entries(*headers).dom(),
        text::texts_view(r@).no_duplicates(),
{
    headers.keys().map(|name| name.as_str().to_string()).collect()
}

// ---------------------------------------------------------------------------
// Overrides of a provider

/// A header that a provider's configuration asks for.
#[derive(Debug, PartialEq, Eq)]
pub struct HeaderOverride {
    pub name: String,
    pub value: String,
}

impl HeaderOverride {
    /// A copy of the override.
    pub fn copy(&self) -> (r: HeaderOverride)
        ensures
            r == *self,
    {
        HeaderOverride { name: self.name.clone(), value: self.value.clone() }
    }
}

/// The names of the headers that no configuration may override: those of the
/// connection, of authentication, of proxies and of tracing.
pub open spec fn is_protected(name: Seq<char>) -> bool {
    ||| name == "host"@
    ||| name == "content-length"@
    ||| name == "transfer-encoding"@
    ||| name == "connection"@
    ||| name == "proxy-authorization"@
    ||| name == "proxy-authenticate"@
    ||| name == "te"@
    ||| name == "trailer"@
    ||| name == "upgrade"@
    ||| name == "accept-encoding"@
    ||| name == "content-type"@
    ||| name == "authorization"@
    ||| name == "x-api-key"@
    ||| name == "x-goog-api-key"@
    ||| name == "chatgpt-account-id"@
    ||| name == "session_id"@
    ||| name == "x-client-request-id"@
    ||| name == "x-codex-window-id"@
    ||| name == "x-forwarded-host"@
    ||| name == "x-forwarded-port"@
    ||| name == "x-forwarded-proto"@
    ||| name == "forwarded"@
    ||| name == "cf-connecting-ip"@
    ||| name == "cf-ipcountry"@
    ||| name == "cf-ray"@
    ||| name == "cf-visitor"@
    ||| name == "true-client-ip"@
    ||| name == "fastly-client-ip"@
    ||| name == "x-azure-clientip"@
    ||| name == "x-azure-fdid"@
    ||| name == "x-azure-ref"@
    ||| name == "akamai-origin-hop"@
    ||| name == "x-akamai-config-log-detail"@
    ||| name == "x-request-id"@
    ||| name == "x-correlation-id"@
    ||| name == "x-trace-id"@
    ||| name == "x-amzn-trace-id"@
    ||| name == "x-b3-traceid"@
    ||| name == "x-b3-spanid"@
    ||| name == "x-b3-parentspanid"@
    ||| name == "x-b3-sampled"@
    ||| name == "traceparent"@
    ||| name == "tracestate"@
}

/// Whether no configuration may override the header.
pub fn protected_provider_override_header(name: &str) -> (r: bool)
    ensures
        r == is_protected(name@),
{
    text::same(name, "host") || text::same(name, "content-length") || text::same(
        name,
        "transfer-encoding",
    ) || text::same(name, "connection") || text::same(name, "proxy-authorization") || text::same(
        name,
        "proxy-authenticate",
    ) || text::same(name, "te") || text::same(name, "trailer") || text::same(name, "upgrade")
        || text::same(name, "accept-encoding") || text::same(name, "content-type") || text::same(
        name,
        "authorization",
    ) || text::same(name, "x-api-key") || text::same(name, "x-goog-api-key") || text::same(
        name,
        "chatgpt-account-id",
    ) || text::same(name, "session_id") || text::same(name, "x-client-request-id") || text::same(
        name,
        "x-codex-window-id",
    ) || text::same(name, "x-forwarded-host") || text::same(name, "x-forwarded-port")
        || text::same(name, "x-forwarded-proto") || text::same(name, "forwarded") || text::same(
        name,
        "cf-connecting-ip",
    ) || text::same(name, "cf-ipcountry") || text::same(name, "cf-ray") || text::same(
        name,
        "cf-visitor",
    ) || text::same(name, "true-client-ip") || text::same(name, "fastly-client-ip") || text::same(
        name,
        "x-azure-clientip",
    ) || text::same(name, "x-azure-fdid") || text::same(name, "x-azure-ref") || text::same(
        name,
        "akamai-origin-hop",
    ) || text::same(name, "x-akamai-config-log-detail") || text::same(name, "x-request-id")
        || text::same(name, "x-correlation-id") || text::same(name, "x-trace-id") || text::same(
        name,
        "x-amzn-trace-id",
    ) || text::same(name, "x-b3-traceid") || text::same(name, "x-b3-spanid") || text::same(
        name,
        "x-b3-parentspanid",
    ) || text::same(name, "x-b3-sampled") || text::same(name, "traceparent") || text::same(
        name,
        "tracestate",
    )
}

/// The name that an override asks for: without white space at its ends, in lower
/// case.
pub open spec fn override_name(raw: Seq<char>) -> Seq<char> {
    lower(text::trimmed(raw))
}

/// Whether an override is heeded: its name is a header name that is not
/// protected, and its value is a header value.
pub open spec fn is_heeded(name: Seq<char>, value: Seq<char>) -> bool {
    &&& is_header_name(override_name(name))
    &&& !is_protected(override_name(name))
    &&& is_header_value(value)
}

/// The headers after the overrides were applied, one after the other.
pub open spec fn overridden(
    entries: Map<Seq<char>, Seq<Seq<u8>>>,
    overrides: Seq<HeaderOverride>,
) -> Map<Seq<char>, Seq<Seq<u8>>>
    decreases overrides.len(),
{
    if overrides.len() == 0 {
        entries
    } else {
        let before = overridden(entries, overrides.drop_last());
        let last = overrides.last();
        if is_heeded(last.name@, last.value@) {
            before.insert(
                override_name(last.name@),
                seq![vstd::utf8::encode_utf8(last.value@)],
            )
        } else {
            before
        }
    }
}

/// A text in lower case stays as it is.
proof fn lemma_lower_twice(name: Seq<char>)
    ensures
        lower(lower(name)) == lower(name),
{
    assert forall|c: char| text::ascii_lower(#[trigger] text::ascii_lower(c)) == text::ascii_lower(
        c,
    ) by {}
    assert(lower(lower(name)) =~= lower(name));
}

/// Why an override is not heeded.
#[derive(Debug, Clone, Copy, PartialEq, Eq, Structural)]
pub enum IgnoredOverride {
    InvalidName,
    ProtectedName,
    InvalidValue,
}

/// Why an override is not heeded, where it is not.
pub open spec fn why_ignored(name: Seq<char>, value: Seq<char>) -> Option<IgnoredOverride> {
    if !is_header_name(override_name(name)) {
        Some(IgnoredOverride::InvalidName)
    } else if is_protected(override_name(name)) {
        Some(IgnoredOverride::ProtectedName)
    } else if !is_header_value(value) {
        Some(IgnoredOverride::InvalidValue)
    } else {
        None
    }
}

/// Why an override is not heeded, where it is not.
pub fn ignored_override(wanted: &HeaderOverride) -> (r: Option<IgnoredOverride>)
    ensures
        r == if !is_header_name(override_name(wanted.name@)) {
            Some(IgnoredOverride::InvalidName)
        } else if is_protected(override_name(wanted.name@)) {
            Some(IgnoredOverride::ProtectedName)
        } else if !is_header_value(wanted.value@) {
            Some(IgnoredOverride::InvalidValue)
        } else {
            None
        },
        r is None <==> is_heeded(wanted.name@, wanted.value@),
        r == why_ignored(wanted.name@, wanted.value@),
{
    let normalized = text::to_ascii_lowercase(text::trim(wanted.name.as_str()).as_str());
    proof {
        assert(normalized@ == override_name(wanted.name@));
        lemma_lower_twice(text::trimmed(wanted.name@));
    }
    let name = match make_header_name(normalized.as_str()) {
        Some(name) => name,
        None => return Some(IgnoredOverride::InvalidName),
    };
    if protected_provider_override_header(header_name_str(&name).as_str()) {
        return Some(IgnoredOverride::ProtectedName);
    }
    match make_header_value(wanted.value.as_str()) {
        Some(_) => None,
        None => Some(IgnoredOverride::InvalidValue),
    }
}

/// The header that an override asks for, where it is heeded.
fn read_override(wanted: &HeaderOverride) -> (r: Option<(http::HeaderName, http::HeaderValue)>)
    ensures
        match r {
            Some(pair) => is_heeded(wanted.name@, wanted.value@) && header_name_text(pair.0)
                == override_name(wanted.name@) && header_value_bytes(pair.1)
                == vstd::utf8::encode_utf8(wanted.value@),
            None => !is_heeded(wanted.name@, wanted.value@),
        },
{
    if ignored_override(wanted).is_some() {
        return None;
    }
    let normalized = text::to_ascii_lowercase(text::trim(wanted.name.as_str()).as_str());
    proof {
        assert(normalized@ == override_name(wanted.name@));
        lemma_lower_twice(text::trimmed(wanted.name@));
    }
    match (make_header_name(normalized.as_str()), make_header_value(wanted.value.as_str())) {
        (Some(name), Some(value)) => Some((name, value)),
        _ => None,
    }
}

/// Applies the header overrides of a provider, one after the other; what is not
/// heeded changes nothing.
pub fn apply_provider_header_overrides(
    headers: &mut http::HeaderMap<http::HeaderValue>,
    overrides: &Vec<HeaderOverride>,
)
    requires
        has_room(*old(headers), overrides@.len()),
    ensures
        header_entries(*final(headers)) == overridden(header_entries(*old(headers)), overrides@),
        forall|count: nat|
            has_room(*old(headers), overrides@.len() + count) ==> #[trigger] has_room(
                *final(headers),
                count,
            ),
{
    let ghost entries = header_entries(*headers);
    let mut i: usize = 0;
    assert(overrides@.take(0) =~= Seq::<HeaderOverride>::empty());
    while i < overrides.len()
        invariant
            i <= overrides@.len(),
            header_entries(*headers) == overridden(entries, overrides@.take(i as int)),
            header_entries(*headers).dom().finite(),
            header_entries(*headers).dom().len() <= entries.dom().len() + i,
            entries.dom().len() + overrides@.len() <= MAX_HEADER_NAMES,
        decreases overrides@.len() - i,
    {
        assert(overrides@.take(i + 1).drop_last() =~= overrides@.take(i as int));
        if let Some((name, value)) = read_override(&overrides[i]) {
            headers_insert(headers, name, value);
        }
        i = i + 1;
    }
    assert(overrides@.take(i as int) =~= overrides@);
}

/// No override changes a protected header, and none changes a header that no
/// override names.
pub proof fn law_protected_headers_stay(
    entries: Map<Seq<char>, Seq<Seq<u8>>>,
    overrides: Seq<HeaderOverride>,
    name: Seq<char>,
)
    requires
        is_protected(name) || forall|i: int|
            0 <= i < overrides.len() ==> override_name((#[trigger] overrides[i]).name@) != name,
    ensures
        overridden(entries, overrides).contains_key(name) == entries.contains_key(name),
        values_under(overridden(entries, overrides), name) == values_under(entries, name),
    decreases overrides.len(),
{
    if overrides.len() > 0 {
        let last = overrides[overrides.len() - 1];
        assert(override_name(last.name@) == name ==> is_protected(name));
        law_protected_headers_stay(entries, overrides.drop_last(), name);
    }
}

/// The last override that is heeded for a name decides its value.
pub proof fn law_last_override_decides(
    entries: Map<Seq<char>, Seq<Seq<u8>>>,
    overrides: Seq<HeaderOverride>,
    index: int,
)
    requires
        0 <= index < overrides.len(),
        is_heeded(overrides[index].name@, overrides[index].value@),
        forall|i: int|
            index < i < overrides.len() ==> override_name((#[trigger] overrides[i]).name@)
                != override_name(overrides[index].name@),
    ensures
        values_under(overridden(entries, overrides), override_name(overrides[index].name@))
            == seq![vstd::utf8::encode_utf8(overrides[index].value@)],
    decreases overrides.len(),
{
    if index < overrides.len() - 1 {
        let last = overrides[overrides.len() - 1];
        assert(override_name(last.name@) != override_name(overrides[index].name@));
        law_last_override_decides(entries, overrides.drop_last(), index);
    }
}

} // verus!
