//! The addresses at which a provider serves requests.

use crate::errors::{ProxyError, ProxyFault};
use crate::text;
use vstd::prelude::*;
use vstd::string::StringExecFns;

verus! {

/// The protocol by which a request is sent.
#[derive(Debug, Clone, Copy, PartialEq, Eq, Structural)]
pub enum CodexRequestTransport {
    Responses,
    ChatCompletions,
}

/// The path below the root of a server at which a protocol is served.
pub open spec fn endpoint_of(transport: CodexRequestTransport) -> Seq<char> {
    match transport {
        CodexRequestTransport::Responses => "/v1/responses"@,
        CodexRequestTransport::ChatCompletions => "/v1/chat/completions"@,
    }
}

/// The end of a path at which a protocol is served.
pub open spec fn suffix_of(transport: CodexRequestTransport) -> Seq<char> {
    match transport {
        CodexRequestTransport::Responses => "/responses"@,
        CodexRequestTransport::ChatCompletions => "/chat/completions"@,
    }
}

/// The other protocol.
pub open spec fn other(transport: CodexRequestTransport) -> CodexRequestTransport {
    match transport {
        CodexRequestTransport::Responses => CodexRequestTransport::ChatCompletions,
        CodexRequestTransport::ChatCompletions => CodexRequestTransport::Responses,
    }
}

impl CodexRequestTransport {
    /// The path below the root of a server at which the protocol is served.
    pub fn endpoint(self) -> (r: &'static str)
        ensures
            r@ == endpoint_of(self),
    {
        match self {
            CodexRequestTransport::Responses => "/v1/responses",
            CodexRequestTransport::ChatCompletions => "/v1/chat/completions",
        }
    }

    /// The end of a path at which the protocol is served.
    pub fn endpoint_suffix(self) -> (r: &'static str)
        ensures
            r@ == suffix_of(self),
    {
        match self {
            CodexRequestTransport::Responses => "/responses",
            CodexRequestTransport::ChatCompletions => "/chat/completions",
        }
    }

    /// The other protocol.
    fn other_transport(self) -> (r: CodexRequestTransport)
        ensures
            r == other(self),
    {
        match self {
            CodexRequestTransport::Responses => CodexRequestTransport::ChatCompletions,
            CodexRequestTransport::ChatCompletions => CodexRequestTransport::Responses,
        }
    }
}

// ---------------------------------------------------------------------------
// URLs

/// The longest address that is taken apart. `url` counts the bytes of an address
/// in 32 bits, and a character may take twelve of them.
pub const MAX_URL_CHARS: usize = 0x100_0000;

/// A URL of `url`.
#[verifier::external_type_specification]
#[verifier::external_body]
pub struct ExUrl(url::Url);

/// The parts of an absolute URL.
#[verifier::ext_equal]
pub struct Address {
    /// The scheme with its colon, and the two slashes where an authority follows.
    pub head: Seq<char>,
    /// The user name; empty where there is none.
    pub user_name: Seq<char>,
    /// The password.
    pub password: Option<Seq<char>>,
    /// What stands from the host to the path: host, port, and what keeps a path that
    /// begins with two slashes apart from an authority.
    pub place: Seq<char>,
    /// The path.
    pub path: Seq<char>,
    /// Whether the path is an opaque one: it follows the scheme without a slash.
    pub opaque: bool,
    /// The query without its mark.
    pub query: Option<Seq<char>>,
    /// The fragment without its mark.
    pub fragment: Option<Seq<char>>,
}

/// The parts of a URL.
pub uninterp spec fn address_of(url: url::Url) -> Address;

/// The parts that `url` finds in a text; nothing where it is no absolute URL.
pub uninterp spec fn url_parsed(source: Seq<char>) -> Option<Address>;

/// The parts of a URL after `url` has set its path, which it encodes as it does when
/// it reads one.
pub uninterp spec fn address_with_path(address: Address, path: Seq<char>) -> Address;

/// The path of an absolute URL; nothing where the text is none.
pub open spec fn url_path(source: Seq<char>) -> Option<Seq<char>> {
    match url_parsed(source) {
        Some(address) => Some(address.path),
        None => None,
    }
}

/// The user name and the password as they are written before a host.
pub open spec fn credentials_text(user_name: Seq<char>, password: Option<Seq<char>>) -> Seq<char> {
    match password {
        Some(password) => user_name + seq![':'] + password + seq!['@'],
        None => if user_name.len() == 0 {
            Seq::empty()
        } else {
            user_name.push('@')
        },
    }
}

/// A part as it is written behind its mark.
pub open spec fn marked(mark: char, part: Option<Seq<char>>) -> Seq<char> {
    match part {
        Some(part) => seq![mark] + part,
        None => Seq::empty(),
    }
}

/// A URL as it is written.
pub open spec fn address_text(address: Address) -> Seq<char> {
    address.head + credentials_text(address.user_name, address.password) + address.place
        + address.path + marked('?', address.query) + marked('#', address.fragment)
}

/// Whether a text holds the mark of neither a query nor a fragment.
pub open spec fn is_unmarked(part: Seq<char>) -> bool {
    !part.contains('?') && !part.contains('#')
}

/// The address with its path as it is left where neither a query nor a fragment
/// follows: an opaque one loses the spaces at its end.
pub open spec fn settled(address: Address) -> Address {
    if address.opaque && address.query is None && address.fragment is None {
        Address { path: text::trim_end_char(address.path, ' '), ..address }
    } else {
        address
    }
}

/// Calls `url::Url::parse`. The contract names the parts, as a function of the text.
/// It says that a character of the text takes at most twelve characters of the path,
/// as three for each of its bytes, and that scheme, host and path hold the mark of
/// neither a query nor a fragment.
#[verifier::external_body]
fn parse_url(source: &str) -> (r: Option<url::Url>)
    ensures
        match r {
            Some(parsed) => url_parsed(source@) == Some(address_of(parsed)),
            None => url_parsed(source@) is None,
        },
        r matches Some(parsed) ==> {
            let address = address_of(parsed);
            &&& address.path.len() <= 12 * source@.len() + 1
            &&& is_unmarked(address.head)
            &&& is_unmarked(address.place)
            &&& is_unmarked(address.path)
        },
{
    url::Url::parse(source).ok()
}

/// Calls `url::Url::path`.
#[verifier::external_body]
fn path_of_url(parsed: &url::Url) -> (r: String)
    ensures
        r@ == address_of(*parsed).path,
{
    parsed.path().to_string()
}

/// Calls `url::Url::set_username` with an empty name: there is no user name any
/// more. The call fails only where there was none.
#[verifier::external_body]
fn clear_user_name(parsed: &mut url::Url)
    ensures
        address_of(*final(parsed)) == (Address {
            user_name: Seq::empty(),
            ..address_of(*old(parsed))
        }),
{
    let _ = parsed.set_username("");
}

/// Calls `url::Url::set_password` with none: there is no password any more. The
/// call fails only where there was none.
#[verifier::external_body]
fn clear_password(parsed: &mut url::Url)
    ensures
        address_of(*final(parsed)) == (Address { password: None, ..address_of(*old(parsed)) }),
{
    let _ = parsed.set_password(None);
}

/// Calls `url::Url::set_query` with none: there is no query any more.
#[verifier::external_body]
fn clear_query(parsed: &mut url::Url)
    ensures
        address_of(*final(parsed)) == settled(
            (Address { query: None, ..address_of(*old(parsed)) }),
        ),
{
    parsed.set_query(None);
}

/// Calls `url::Url::set_fragment` with none: there is no fragment any more.
#[verifier::external_body]
fn clear_fragment(parsed: &mut url::Url)
    ensures
        address_of(*final(parsed)) == settled(
            (Address { fragment: None, ..address_of(*old(parsed)) }),
        ),
{
    parsed.set_fragment(None);
}

/// Writes a URL with `url::Url::to_string`: its parts one after the other.
#[verifier::external_body]
fn write_url(parsed: &url::Url) -> (r: String)
    ensures
        r@ == address_text(address_of(*parsed)),
{
    parsed.to_string()
}

/// Whether an address is that of a text which is not too long.
pub open spec fn is_short(address: Address) -> bool {
    exists|source: Seq<char>|
        source.len() <= MAX_URL_CHARS && #[trigger] url_parsed(source) == Some(address)
}

/// Calls `url::Url::set_path`. The contract names the parts of the URL, as a function
/// of its parts before and of the path. An address that does not fit in 32 bits
/// panics, which the contract leaves out.
#[verifier::external_body]
fn set_path(parsed: &mut url::Url, path: &str)
    requires
        is_short(address_of(*old(parsed))),
        path@.len() <= 16 * MAX_URL_CHARS,
    ensures
        address_of(*final(parsed)) == address_with_path(address_of(*old(parsed)), path@),
{
    parsed.set_path(path);
}

/// The path of an absolute URL.
pub(crate) fn read_url_path(source: &str) -> (r: Option<String>)
    ensures
        text::opt_view(r) == url_path(source@),
{
    match parse_url(source) {
        Some(parsed) => Some(path_of_url(&parsed)),
        None => None,
    }
}

/// The address without user name, password, query and fragment.
pub open spec fn without_secrets(address: Address) -> Address {
    settled(
        Address {
            user_name: Seq::empty(),
            password: None,
            query: None,
            fragment: None,
            ..address
        },
    )
}

/// An address as it may be shown.
pub open spec fn shown_url(raw: Seq<char>) -> Seq<char> {
    match url_parsed(raw) {
        Some(address) => address_text(without_secrets(address)),
        None => "<invalid-url>"@,
    }
}

/// Trimming brings in no mark.
proof fn lemma_trimmed_is_unmarked(part: Seq<char>, c: char)
    requires
        is_unmarked(part),
    ensures
        is_unmarked(text::trim_end_char(part, c)),
    decreases part.len(),
{
    if part.len() > 0 && part.last() == c {
        let shorter = part.drop_last();
        assert forall|i: int| 0 <= i < shorter.len() implies #[trigger] shorter[i] != '?'
            && shorter[i] != '#' by {
            assert(part.contains(part[i]));
        }
        lemma_trimmed_is_unmarked(shorter, c);
    }
}

/// An address of unmarked parts, without secrets, holds no mark.
proof fn lemma_without_secrets_is_unmarked(address: Address)
    requires
        is_unmarked(address.head),
        is_unmarked(address.place),
        is_unmarked(address.path),
    ensures
        is_unmarked(address_text(without_secrets(address))),
{
    let bare = without_secrets(address);
    lemma_trimmed_is_unmarked(address.path, ' ');
    let whole = address_text(bare);
    assert(whole =~= address.head + address.place + bare.path);
    assert forall|i: int| 0 <= i < whole.len() implies #[trigger] whole[i] != '?' && whole[i]
        != '#' by {
        if i < address.head.len() {
            assert(address.head.contains(address.head[i]));
        } else if i < address.head.len() + address.place.len() {
            assert(address.place.contains(address.place[i - address.head.len()]));
        } else {
            assert(bare.path.contains(
                bare.path[i - address.head.len() - address.place.len()],
            ));
        }
    }
}

/// The address as it may be shown: without user name, password, query and
/// fragment.
pub fn redacted_url(raw: &str) -> (r: String)
    ensures
        r@ == shown_url(raw@),
        is_unmarked(r@),
{
    match parse_url(raw) {
        Some(mut parsed) => {
            let ghost address = address_of(parsed);
            clear_user_name(&mut parsed);
            clear_password(&mut parsed);
            clear_query(&mut parsed);
            clear_fragment(&mut parsed);
            proof {
                lemma_trimmed_end(address.path, ' ');
                assert(address_of(parsed) =~= without_secrets(address));
                lemma_without_secrets_is_unmarked(address);
            }
            write_url(&parsed)
        },
        None => {
            proof {
                reveal_strlit("<invalid-url>");
            }
            "<invalid-url>".to_owned()
        },
    }
}

/// Whether a text is a version: a `v` and digits.
pub open spec fn is_version(segment: Seq<char>) -> bool {
    &&& segment.len() > 1
    &&& segment[0] == 'v'
    &&& forall|i: int| 1 <= i < segment.len() ==> '0' <= #[trigger] segment[i] <= '9'
}

/// Whether the last segment of a path is a version.
pub fn ends_with_version_segment(path: &str) -> (r: bool)
    ensures
        r == is_version(text::after_last(path@, '/')),
{
    let segment = text::chars_of(text::last_segment(path, '/').as_str());
    if segment.len() < 2 || segment[0] != 'v' {
        return false;
    }
    let mut i: usize = 1;
    while i < segment.len()
        invariant
            1 <= i <= segment@.len(),
            segment@ == text::after_last(path@, '/'),
            forall|j: int| 1 <= j < i ==> '0' <= #[trigger] segment@[j] <= '9',
        decreases segment@.len() - i,
    {
        let c: char = segment[i];
        if c < '0' || '9' < c {
            return false;
        }
        i = i + 1;
    }
    true
}

/// The path at which a protocol is served, given a path without slashes at its
/// end: that path, where it ends as it should; else a path below its version;
/// else the path of the other protocol with its end exchanged.
pub open spec fn served_path(path: Seq<char>, transport: CodexRequestTransport) -> Option<
    Seq<char>,
> {
    let suffix = suffix_of(transport);
    let other_suffix = suffix_of(other(transport));
    if suffix.is_suffix_of(path) {
        Some(path)
    } else {
        match text::first_place(path, "/v1/"@, 0) {
            Some(i) => Some(path.take(i) + "/v1"@ + suffix),
            None => if is_version(text::after_last(path, '/')) {
                Some(path + suffix)
            } else if other_suffix.is_suffix_of(path) {
                Some(path.take(path.len() - other_suffix.len()) + suffix)
            } else {
                None
            },
        }
    }
}

/// The path at which a protocol is served, given any path of a full address.
pub open spec fn endpoint_path(path: Seq<char>, transport: CodexRequestTransport) -> Option<
    Seq<char>,
> {
    served_path(text::trim_end_char(path, '/'), transport)
}

/// The path at which a protocol is served, given the path of a full address.
pub fn derive_endpoint_path(path: &str, transport: CodexRequestTransport) -> (r: Option<String>)
    ensures
        text::opt_view(r) == endpoint_path(path@, transport),
{
    let suffix = transport.endpoint_suffix();
    let path = text::trim_end_matches(path, '/');
    if text::ends_with(path.as_str(), suffix) {
        return Some(path);
    }
    if let Some(index) = text::find(path.as_str(), "/v1/") {
        let mut next = text::first_chars(path.as_str(), index);
        next.append("/v1");
        next.append(suffix);
        return Some(next);
    }
    if ends_with_version_segment(path.as_str()) {
        return Some(text::joined(path.as_str(), suffix));
    }
    let other_suffix = transport.other_transport().endpoint_suffix();
    if text::ends_with(path.as_str(), other_suffix) {
        let root = text::without_tail(path.as_str(), text::char_count(other_suffix));
        return Some(text::joined(root.as_str(), suffix));
    }
    None
}

/// The error for an address that is no absolute URL.
pub open spec fn invalid_url_fault() -> ProxyFault {
    ProxyFault::ConfigError("Codex Provider full URL is invalid"@)
}

/// The error for an address from which no endpoint follows.
pub open spec fn underivable_fault(transport: CodexRequestTransport) -> ProxyFault {
    ProxyFault::ConfigError(
        "Cannot derive "@ + suffix_of(transport)
            + " endpoint from Codex Provider full URL"@,
    )
}

/// What a fallible text computation says.
pub open spec fn text_result(r: Result<String, ProxyError>) -> Result<Seq<char>, ProxyFault> {
    match r {
        Ok(t) => Ok(t@),
        Err(e) => Err(e@),
    }
}

/// The address at which a protocol is served, given a full address of a provider.
pub open spec fn full_endpoint(base_url: Seq<char>, transport: CodexRequestTransport) -> Result<
    Seq<char>,
    ProxyFault,
> {
    match url_parsed(base_url) {
        None => Err(invalid_url_fault()),
        Some(address) => match endpoint_path(address.path, transport) {
            None => Err(underivable_fault(transport)),
            Some(next) => Ok(address_text(address_with_path(address, next))),
        },
    }
}

/// A derived path is not much longer than the path that it comes from.
proof fn lemma_endpoint_path_len(path: Seq<char>, transport: CodexRequestTransport)
    ensures
        endpoint_path(path, transport) matches Some(next) ==> next.len() <= path.len() + 20,
{
    reveal_strlit("/responses");
    reveal_strlit("/chat/completions");
    reveal_strlit("/v1");
    reveal_strlit("/v1/");
    assert("/responses"@.len() == 10);
    assert("/chat/completions"@.len() == 17);
    assert("/v1"@.len() == 3);
    lemma_trim_len(path, '/');
    let p = text::trim_end_char(path, '/');
    lemma_first_place(p, "/v1/"@, 0);
}

/// Trimming shortens.
proof fn lemma_trim_len(path: Seq<char>, c: char)
    ensures
        text::trim_end_char(path, c).len() <= path.len(),
    decreases path.len(),
{
    if path.len() > 0 && path.last() == c {
        lemma_trim_len(path.drop_last(), c);
    }
}

/// The first place of a text is one where it occurs, and it occurs at none before.
proof fn lemma_first_place(path: Seq<char>, needle: Seq<char>, from: int)
    requires
        0 <= from,
    ensures
        text::first_place(path, needle, from) matches Some(i) ==> {
            &&& from <= i
            &&& i + needle.len() <= path.len()
            &&& path.subrange(i, i + needle.len()) == needle
            &&& forall|j: int| #![trigger path.subrange(j, j + needle.len())]
                from <= j < i ==> path.subrange(j, j + needle.len()) != needle
        },
        text::first_place(path, needle, from) is None ==> forall|j: int|
            #![trigger path.subrange(j, j + needle.len())]
            from <= j && j + needle.len() <= path.len() ==> path.subrange(j, j + needle.len())
                != needle,
    decreases path.len() - from + 1,
{
    if from + needle.len() <= path.len() && path.subrange(from, from + needle.len()) != needle {
        lemma_first_place(path, needle, from + 1);
    }
}

/// The address at which a protocol is served, given a full address of a provider.
pub fn derive_full_endpoint(base_url: &str, transport: CodexRequestTransport) -> (r: Result<
    String,
    ProxyError,
>)
    requires
        base_url@.len() <= MAX_URL_CHARS,
    ensures
        text_result(r) == full_endpoint(base_url@, transport),
{
    let mut parsed = match parse_url(base_url) {
        Some(parsed) => parsed,
        None => return Err(
            ProxyError::ConfigError("Codex Provider full URL is invalid".to_owned()),
        ),
    };
    let path = path_of_url(&parsed);
    let next = match derive_endpoint_path(path.as_str(), transport) {
        Some(next) => next,
        None => {
            let mut message = text::joined("Cannot derive ", transport.endpoint_suffix());
            message.append(" endpoint from Codex Provider full URL");
            return Err(ProxyError::ConfigError(message));
        },
    };
    proof {
        lemma_endpoint_path_len(path@, transport);
    }
    set_path(&mut parsed, next.as_str());
    Ok(write_url(&parsed))
}

/// An address with a query that is passed through, where there is one.
pub open spec fn with_query(base_url: Seq<char>, query: Option<Seq<char>>) -> Seq<char> {
    match query {
        Some(query) => if text::trimmed(query).len() == 0 {
            base_url
        } else if base_url.contains('?') {
            base_url + "&"@ + text::trimmed(query)
        } else {
            base_url + "?"@ + text::trimmed(query)
        },
        None => base_url,
    }
}

/// Adds a query that is passed through to an address.
pub fn append_query(base_url: &str, query: Option<&str>) -> (r: String)
    ensures
        r@ == with_query(base_url@, text::opt_str_view(query)),
{
    let mut url = base_url.to_owned();
    if let Some(query) = query {
        let query = text::trim(query);
        if !query.as_str().is_empty() {
            if text::contains_char(base_url, '?') {
                url.append("&");
            } else {
                url.append("?");
            }
            url.append(query.as_str());
        }
    }
    url
}

// ---------------------------------------------------------------------------
// Laws

/// What the ends of the served paths are made of.
proof fn lemma_suffixes(transport: CodexRequestTransport)
    ensures
        suffix_of(transport).len() >= 10,
        suffix_of(transport)[0] == '/',
        suffix_of(transport).last() == 's',
        forall|i: int|
            0 <= i < suffix_of(transport).len() ==> #[trigger] suffix_of(transport)[i] != 'v'
                && suffix_of(transport)[i] != '1',
        transport is Responses ==> suffix_of(transport)[suffix_of(transport).len() - 2] == 'e',
        transport is ChatCompletions ==> suffix_of(transport)[suffix_of(transport).len() - 2]
            == 'n',
        "/v1"@.len() == 3,
        "/v1/"@.len() == 4,
        "/v1/"@ == "/v1"@.push('/'),
        "/v1"@[0] == '/',
        "/v1"@[1] == 'v',
        "/v1"@[2] == '1',
{
    reveal_strlit("/responses");
    reveal_strlit("/chat/completions");
    reveal_strlit("/v1");
    reveal_strlit("/v1/");
    assert("/v1/"@ =~= "/v1"@.push('/'));
}

/// A path that ends as one protocol wants it does not end as the other does.
proof fn lemma_one_suffix(path: Seq<char>, transport: CodexRequestTransport)
    requires
        suffix_of(transport).is_suffix_of(path),
    ensures
        !suffix_of(other(transport)).is_suffix_of(path),
{
    lemma_suffixes(transport);
    lemma_suffixes(other(transport));
    let s = suffix_of(transport);
    let o = suffix_of(other(transport));
    if o.is_suffix_of(path) {
        assert(path.subrange(path.len() - s.len(), path.len() as int)[s.len() - 2] == s[s.len()
            - 2]);
        assert(path.subrange(path.len() - o.len(), path.len() as int)[o.len() - 2] == o[o.len()
            - 2]);
    }
}

/// A path with a served end has no slash at its end.
proof fn lemma_served_is_trimmed(path: Seq<char>, transport: CodexRequestTransport)
    requires
        suffix_of(transport).is_suffix_of(path),
    ensures
        text::trim_end_char(path, '/') == path,
{
    lemma_suffixes(transport);
    let s = suffix_of(transport);
    assert(path.subrange(path.len() - s.len(), path.len() as int)[s.len() - 1] == s[s.len() - 1]);
}

/// A text ends with the text that was put behind another.
proof fn lemma_joined_suffix(front: Seq<char>, back: Seq<char>)
    ensures
        back.is_suffix_of(front + back),
{
    let all = front + back;
    assert(all.subrange(all.len() - back.len(), all.len() as int) =~= back);
}

/// A derived path ends as the protocol wants it.
proof fn lemma_derived_suffix(path: Seq<char>, transport: CodexRequestTransport)
    ensures
        endpoint_path(path, transport) matches Some(next) ==> suffix_of(transport).is_suffix_of(
            next,
        ),
{
    let p = text::trim_end_char(path, '/');
    let s = suffix_of(transport);
    lemma_joined_suffix(p, s);
    if let Some(i) = text::first_place(p, "/v1/"@, 0) {
        lemma_joined_suffix(p.take(i) + "/v1"@, s);
    }
    lemma_joined_suffix(p.take(p.len() - suffix_of(other(transport)).len()), s);
}

/// The path at which a protocol is served leads to itself: deriving it again
/// changes nothing.
pub proof fn law_derived_path_is_stable(path: Seq<char>, transport: CodexRequestTransport)
    ensures
        endpoint_path(path, transport) matches Some(next) ==> endpoint_path(next, transport)
            == Some(next),
{
    lemma_derived_suffix(path, transport);
    if let Some(next) = endpoint_path(path, transport) {
        lemma_served_is_trimmed(next, transport);
    }
}

/// A text occurs first where it occurs and nowhere before.
proof fn lemma_place_is_first(path: Seq<char>, needle: Seq<char>, from: int, place: int)
    requires
        0 <= from <= place,
        place + needle.len() <= path.len(),
        path.subrange(place, place + needle.len()) == needle,
        forall|j: int| #![trigger path.subrange(j, j + needle.len())]
            from <= j < place ==> path.subrange(j, j + needle.len()) != needle,
    ensures
        text::first_place(path, needle, from) == Some(place),
    decreases place - from,
{
    if from < place {
        assert(path.subrange(from, from + needle.len()) != needle);
        lemma_place_is_first(path, needle, from + 1, place);
    }
}

/// What follows the last mark of a text is what was put behind that mark.
proof fn lemma_after_last(front: Seq<char>, back: Seq<char>, c: char)
    requires
        front.len() > 0,
        front.last() == c,
        forall|i: int| 0 <= i < back.len() ==> #[trigger] back[i] != c,
    ensures
        text::after_last(front + back, c) == back,
    decreases back.len(),
{
    if back.len() == 0 {
        assert(front + back =~= front);
        assert(text::after_last(front, c) =~= back);
    } else {
        assert forall|i: int| 0 <= i < back.drop_last().len() implies #[trigger] back.drop_last()[i]
            != c by {
            assert(back[i] != c);
        }
        lemma_after_last(front, back.drop_last(), c);
        assert(back[back.len() - 1] != c);
        assert((front + back).drop_last() =~= front + back.drop_last());
        assert(back =~= back.drop_last().push(back.last()));
    }
}

/// Trimming leaves no mark at the end.
proof fn lemma_trimmed_end(path: Seq<char>, c: char)
    ensures
        text::trim_end_char(path, c).len() > 0 ==> text::trim_end_char(path, c).last() != c,
        text::trim_end_char(text::trim_end_char(path, c), c) == text::trim_end_char(path, c),
    decreases path.len(),
{
    if path.len() > 0 && path.last() == c {
        lemma_trimmed_end(path.drop_last(), c);
    }
}

/// The last segment of a served path is no version.
proof fn lemma_served_is_no_version(front: Seq<char>, transport: CodexRequestTransport)
    ensures
        !is_version(text::after_last(front + suffix_of(transport), '/')),
{
    reveal_strlit("/responses");
    reveal_strlit("/chat/completions");
    let s = suffix_of(transport);
    let cut: int = match transport {
        CodexRequestTransport::Responses => 1,
        CodexRequestTransport::ChatCompletions => 6,
    };
    let head = front + s.take(cut);
    let tail = s.skip(cut);
    assert(front + s =~= head + tail);
    assert(head.last() == '/') by {
        assert(head.last() == s[cut - 1]);
    }
    assert forall|i: int| 0 <= i < tail.len() implies #[trigger] tail[i] != '/' by {
        assert(tail[i] == s[i + cut]);
    }
    lemma_after_last(head, tail, '/');
    assert(tail[0] == s[cut]);
}

/// Where a path below a version is extended, the first `/v1/` in it is the one
/// that the extension completes, if there is any.
proof fn lemma_extended_place(path: Seq<char>, transport: CodexRequestTransport)
    requires
        path.len() > 0 ==> path.last() != '/',
        text::first_place(path, "/v1/"@, 0) is None,
    ensures
        text::first_place(path + suffix_of(transport), "/v1/"@, 0) matches Some(i) ==> i
            == path.len() - 3 && path.take(i) + "/v1"@ == path,
{
    lemma_suffixes(transport);
    let s = suffix_of(transport);
    let all = path + s;
    let needle = "/v1/"@;
    lemma_first_place(all, needle, 0);
    lemma_first_place(path, needle, 0);
    if let Some(i) = text::first_place(all, needle, 0) {
        let found = all.subrange(i, i + 4);
        assert(found[0] == '/' && found[1] == 'v' && found[2] == '1' && found[3] == '/') by {
            assert(found == needle);
            assert(needle[0] == "/v1"@[0]);
            assert(needle[1] == "/v1"@[1]);
            assert(needle[2] == "/v1"@[2]);
        }
        assert(all[i] == found[0] && all[i + 1] == found[1] && all[i + 2] == found[2] && all[i + 3]
            == found[3]);
        if i + 4 <= path.len() {
            assert(path.subrange(i, i + 4) =~= found);
        } else if i + 1 >= path.len() {
            assert(all[i + 1] == s[i + 1 - path.len()]);
        } else if i + 2 >= path.len() {
            assert(all[i + 2] == s[i + 2 - path.len()]);
        }
        assert(i == path.len() - 3);
        assert(path.take(i) + "/v1"@ =~= path);
    }
}

/// Which protocol a path was derived for first does not matter: deriving it for
/// the other protocol gives the path that follows from the first path. Left out
/// is a path that already ends as the other protocol wants it, which is kept
/// whole when it is derived directly.
pub proof fn law_protocols_can_be_switched(path: Seq<char>, transport: CodexRequestTransport)
    requires
        !suffix_of(other(transport)).is_suffix_of(text::trim_end_char(path, '/')),
    ensures
        endpoint_path(path, transport) matches Some(next) ==> endpoint_path(
            next,
            other(transport),
        ) == endpoint_path(path, other(transport)),
{
    let p = text::trim_end_char(path, '/');
    let s = suffix_of(transport);
    let o = suffix_of(other(transport));
    lemma_suffixes(transport);
    lemma_suffixes(other(transport));
    lemma_trimmed_end(path, '/');
    lemma_derived_suffix(path, transport);
    if let Some(next) = endpoint_path(path, transport) {
        lemma_served_is_trimmed(next, transport);
        lemma_one_suffix(next, transport);
        if s.is_suffix_of(p) {
        } else if let Some(i) = text::first_place(p, "/v1/"@, 0) {
            lemma_first_place(p, "/v1/"@, 0);
            assert(next.subrange(i, i + 4) =~= p.subrange(i, i + 4)) by {
                assert(next.subrange(i, i + 4) =~= "/v1"@.push('/'));
            }
            assert forall|j: int| #![trigger next.subrange(j, j + "/v1/"@.len())]
                0 <= j < i implies next.subrange(j, j + "/v1/"@.len()) != "/v1/"@ by {
                assert(next.take(i + 4) =~= p.take(i + 4)) by {
                    assert(p.take(i + 4) =~= p.take(i) + p.subrange(i, i + 4));
                    assert(next.take(i + 4) =~= p.take(i) + next.subrange(i, i + 4));
                }
                assert(next.subrange(j, j + 4) =~= next.take(i + 4).subrange(j, j + 4));
                assert(p.subrange(j, j + 4) =~= p.take(i + 4).subrange(j, j + 4));
                assert(p.subrange(j, j + "/v1/"@.len()) != "/v1/"@);
            }
            lemma_place_is_first(next, "/v1/"@, 0, i);
            assert(next.take(i) =~= p.take(i));
        } else if is_version(text::after_last(p, '/')) {
            lemma_extended_place(p, transport);
            lemma_served_is_no_version(p, transport);
            assert(next.take(next.len() - s.len()) =~= p);
            if let Some(i) = text::first_place(next, "/v1/"@, 0) {
                assert(next.take(i) =~= p.take(i));
            }
        }
    }
}

/// The end of a path at which a protocol is served, as it is written.
pub open spec fn is_served_at(path: Seq<char>, transport: CodexRequestTransport) -> bool {
    match transport {
        CodexRequestTransport::Responses => "/responses"@.is_suffix_of(path),
        CodexRequestTransport::ChatCompletions => "/chat/completions"@.is_suffix_of(path),
    }
}

/// A path followed by the end at which a protocol is served.
pub open spec fn served_below(path: Seq<char>, transport: CodexRequestTransport) -> Seq<char> {
    match transport {
        CodexRequestTransport::Responses => path + "/responses"@,
        CodexRequestTransport::ChatCompletions => path + "/chat/completions"@,
    }
}

/// Whether a path ends in a segment that is a `v` with a number.
pub open spec fn ends_in_version(path: Seq<char>) -> bool {
    exists|k: int|
        {
            &&& 0 <= k < path.len() - 1
            &&& k == 0 || path[k - 1] == '/'
            &&& #[trigger] path[k] == 'v'
            &&& forall|i: int| k < i < path.len() ==> '0' <= #[trigger] path[i] <= '9'
        }
}

/// Whether a path holds `/v1/` at a place and nowhere before.
pub open spec fn first_holds_version_at(path: Seq<char>, place: int) -> bool {
    &&& 0 <= place <= path.len() - 4
    &&& path.subrange(place, place + 4) == "/v1/"@
    &&& forall|j: int|
        0 <= j < place ==> #[trigger] path.subrange(j, j + 4) != "/v1/"@
}

/// The last segment of a path is a version where it is one to look at.
proof fn lemma_ends_in_version(path: Seq<char>)
    ensures
        is_version(text::after_last(path, '/')) <==> ends_in_version(path),
{
    let from: int = text::law_after_last(path, '/');
    let segment = path.subrange(from, path.len() as int);
    if is_version(segment) {
        assert(path[from] == segment[0]);
        assert forall|i: int| from < i < path.len() implies '0' <= #[trigger] path[i] <= '9' by {
            assert(segment[i - from] == path[i]);
        }
    }
    if ends_in_version(path) {
        let k: int = choose|k: int|
            {
                &&& 0 <= k < path.len() - 1
                &&& k == 0 || path[k - 1] == '/'
                &&& #[trigger] path[k] == 'v'
                &&& forall|i: int| k < i < path.len() ==> '0' <= #[trigger] path[i] <= '9'
            };
        if from > k {
            assert(path[from - 1] == '/');
        }
        if from < k {
            assert(path[k - 1] != '/');
        }
        assert forall|i: int| 1 <= i < segment.len() implies '0' <= #[trigger] segment[i]
            <= '9' by {
            assert(segment[i] == path[i + from]);
        }
    }
}

/// The path at which a protocol is served follows from the path of the address,
/// whatever slashes stand at its end: a path that ends as the protocol wants it stays;
/// otherwise the end of the protocol comes behind the first `/v1`, where the path goes
/// on behind it, or else behind a version at the end, or else in the place of the end
/// of the other protocol. From any other path nothing follows. Every path that follows
/// ends as the protocol wants it.
pub proof fn law_endpoint_follows_from_the_path(
    path: Seq<char>,
    slashes: nat,
    transport: CodexRequestTransport,
)
    requires
        path.len() > 0 ==> path.last() != '/',
    ensures
        ({
            let next = endpoint_path(path + Seq::new(slashes, |i: int| '/'), transport);
            let below_version = exists|i: int| #[trigger] first_holds_version_at(path, i);
            &&& next is Some ==> is_served_at(next->0, transport)
            &&& is_served_at(path, transport) ==> next == Some(path)
            &&& !is_served_at(path, transport) ==> {
                &&& forall|i: int| #[trigger]
                    first_holds_version_at(path, i) ==> next == Some(
                        served_below(path.take(i + 3), transport),
                    )
                &&& !below_version && ends_in_version(path) ==> next == Some(
                    served_below(path, transport),
                )
                &&& !below_version && !ends_in_version(path) ==> {
                    &&& forall|front: Seq<char>, twin: CodexRequestTransport|
                        twin != transport && #[trigger] served_below(front, twin) == path ==> next
                            == Some(served_below(front, transport))
                    &&& (forall|twin: CodexRequestTransport| !(#[trigger] is_served_at(path, twin)))
                        ==> next is None
                }
            }
        }),
{
    let all = path + Seq::new(slashes, |i: int| '/');
    let suffix = suffix_of(transport);
    let next = endpoint_path(all, transport);
    lemma_suffixes(transport);
    lemma_suffixes(other(transport));
    reveal_strlit("/v1/");
    reveal_strlit("/v1");
    text::law_trim_end_char(all, '/');
    let trimmed = text::trim_end_char(all, '/');
    if trimmed.len() < path.len() {
        assert(all[path.len() - 1] == path[path.len() - 1]);
    }
    if trimmed.len() > path.len() {
        assert(trimmed.last() == all[trimmed.len() - 1]);
    }
    assert(trimmed =~= path);
    lemma_derived_suffix(all, transport);
    lemma_ends_in_version(path);
    text::law_first_place(path, "/v1/"@, 0);
    if !is_served_at(path, transport) {
        assert forall|i: int| #[trigger] first_holds_version_at(path, i) implies next == Some(
            served_below(path.take(i + 3), transport),
        ) by {
            assert(path.subrange(i, i + "/v1/"@.len()) == "/v1/"@);
            let found = text::first_place(path, "/v1/"@, 0);
            assert(found is Some);
            if found->0 < i {
                assert(path.subrange(found->0, found->0 + 4) != "/v1/"@);
            }
            assert(found == Some(i));
            assert(path.take(i + 3) =~= path.take(i) + "/v1"@) by {
                assert forall|j: int| i <= j < i + 3 implies path[j] == "/v1"@[j - i] by {
                    assert(path.subrange(i, i + 4)[j - i] == path[j]);
                    assert("/v1/"@[j - i] == "/v1"@[j - i]);
                }
            }
        }
        if let Some(i) = text::first_place(path, "/v1/"@, 0) {
            assert forall|j: int| 0 <= j < i implies #[trigger] path.subrange(j, j + 4)
                != "/v1/"@ by {
                assert(path.subrange(j, j + "/v1/"@.len()) != "/v1/"@);
            }
            assert(first_holds_version_at(path, i));
        }
        assert forall|front: Seq<char>, twin: CodexRequestTransport|
            twin != transport && #[trigger] served_below(front, twin) == path
                && text::first_place(path, "/v1/"@, 0) is None && !ends_in_version(path) implies next
            == Some(served_below(front, transport)) by {
            assert(twin == other(transport));
            lemma_joined_suffix(front, suffix_of(twin));
            assert(path.take(path.len() - suffix_of(twin).len()) =~= front);
        }
        if next is None {
            assert(!is_served_at(path, other(transport)));
        } else if text::first_place(path, "/v1/"@, 0) is None && !ends_in_version(path) {
            assert(is_served_at(path, other(transport)));
        }
    }
}

/// A query that is passed through comes behind the address, with the mark that the
/// address still lacks; a blank one changes nothing.
pub proof fn law_query_is_passed_through(base_url: Seq<char>, query: Seq<char>)
    ensures
        with_query(base_url, None) == base_url,
        (forall|i: int| 0 <= i < query.len() ==> text::is_white_space(#[trigger] query[i]))
            ==> with_query(base_url, Some(query)) == base_url,
        (exists|i: int| 0 <= i < query.len() && !text::is_white_space(#[trigger] query[i])) ==> {
            let url = with_query(base_url, Some(query));
            &&& url.len() == base_url.len() + 1 + text::trimmed(query).len()
            &&& url.subrange(0, base_url.len() as int) == base_url
            &&& url[base_url.len() as int] == if exists|i: int|
                0 <= i < base_url.len() && #[trigger] base_url[i] == '?' {
                '&'
            } else {
                '?'
            }
            &&& url.skip(base_url.len() as int + 1) == text::trimmed(query)
        },
{
    reveal_strlit("&");
    reveal_strlit("?");
    text::law_trimmed(query);
    let url = with_query(base_url, Some(query));
    if text::trimmed(query).len() > 0 {
        assert(url.subrange(0, base_url.len() as int) =~= base_url);
        assert(url.skip(base_url.len() as int + 1) =~= text::trimmed(query));
    }
}

/// An address is shown as its scheme, its host and its path, whatever user name,
/// password, query and fragment it has: addresses that differ in these alone are shown
/// alike. A text that is no address is never shown.
pub proof fn law_shown_address_tells_no_secret(raw: Seq<char>)
    ensures
        match url_parsed(raw) {
            None => shown_url(raw) == "<invalid-url>"@,
            Some(address) => {
                let path = if address.opaque {
                    text::trim_end_char(address.path, ' ')
                } else {
                    address.path
                };
                shown_url(raw) == address.head + address.place + path
            },
        },
        forall|other: Seq<char>, address: Address, twin: Address| {
            &&& url_parsed(raw) == Some(address)
            &&& #[trigger] url_parsed(other) == Some(twin)
            &&& #[trigger] same_place(address, twin)
        } ==> shown_url(raw) == shown_url(other),
{
    if let Some(address) = url_parsed(raw) {
        let shown = without_secrets(address);
        assert(address_text(shown) =~= shown.head + shown.place + shown.path);
    }
}

/// Whether two addresses lead to the same place.
pub open spec fn same_place(first: Address, second: Address) -> bool {
    &&& first.head == second.head
    &&& first.place == second.place
    &&& first.path == second.path
    &&& first.opaque == second.opaque
}

/// The Responses protocol is served at `/v1/responses` below the root of a server and the
/// Chat protocol at `/v1/chat/completions`; the end of a path at which a protocol is
/// served is what follows the version.
pub proof fn law_protocols_have_their_paths(transport: CodexRequestTransport)
    ensures
        transport is Responses ==> endpoint_of(transport) == "/v1/responses"@,
        transport is ChatCompletions ==> endpoint_of(transport) == "/v1/chat/completions"@,
        endpoint_of(transport) == "/v1"@ + suffix_of(transport),
        is_served_at(endpoint_of(transport), transport),
        endpoint_path(endpoint_of(transport), other(transport)) == Some(
            endpoint_of(other(transport)),
        ),
        other(transport) != transport,
{
    reveal_strlit("/v1");
    reveal_strlit("/responses");
    reveal_strlit("/chat/completions");
    reveal_strlit("/v1/responses");
    reveal_strlit("/v1/chat/completions");
    let path = endpoint_of(transport);
    assert("/v1/responses"@ =~= "/v1"@ + "/responses"@);
    assert("/v1/chat/completions"@ =~= "/v1"@ + "/chat/completions"@);
    lemma_joined_suffix("/v1"@, suffix_of(transport));
    reveal_strlit("/v1/");
    lemma_served_is_trimmed(path, transport);
    lemma_one_suffix(path, transport);
    assert(path.subrange(0, 4) =~= "/v1/"@);
    lemma_place_is_first(path, "/v1/"@, 0, 0);
    assert(path.take(0) + "/v1"@ =~= "/v1"@);
}

} // verus!
