//! Provider-boundary compatibility for Codex Multi-Agent V2 messages.

use crate::agent_message_laws;
use crate::data_text;
use crate::errors::{ProxyError, ProxyFault};
use crate::json;
use crate::json::{Json, JsonValue};
use crate::text;
use base64::Engine;
use vstd::prelude::*;

verus! {

// ---------------------------------------------------------------------------
// Opaque payloads

/// What the standard alphabet of `base64` with padding decodes a text to.
pub uninterp spec fn base64_standard(value: Seq<char>) -> Option<Seq<u8>>;

/// What the URL-safe alphabet of `base64` with padding decodes a text to.
pub uninterp spec fn base64_url_safe(value: Seq<char>) -> Option<Seq<u8>>;

/// What the URL-safe alphabet of `base64` without padding decodes a text to.
pub uninterp spec fn base64_url_safe_no_pad(value: Seq<char>) -> Option<Seq<u8>>;

/// The bytes of an optional sequence of bytes.
pub open spec fn opt_bytes(bytes: Option<Vec<u8>>) -> Option<Seq<u8>> {
    match bytes {
        Some(b) => Some(b@),
        None => None,
    }
}

/// Calls `decode` of `base64::engine::general_purpose::STANDARD`. The contract
/// names the outcome, as a function of the text.
#[verifier::external_body]
fn decode_standard(value: &str) -> (r: Option<Vec<u8>>)
    ensures
        opt_bytes(r) == base64_standard(value@),
{
    base64::engine::general_purpose::STANDARD.decode(value).ok()
}

/// Calls `decode` of `base64::engine::general_purpose::URL_SAFE`. The contract
/// names the outcome, as a function of the text.
#[verifier::external_body]
fn decode_url_safe(value: &str) -> (r: Option<Vec<u8>>)
    ensures
        opt_bytes(r) == base64_url_safe(value@),
{
    base64::engine::general_purpose::URL_SAFE.decode(value).ok()
}

/// Calls `decode` of `base64::engine::general_purpose::URL_SAFE_NO_PAD`. The
/// contract names the outcome, as a function of the text.
#[verifier::external_body]
fn decode_url_safe_no_pad(value: &str) -> (r: Option<Vec<u8>>)
    ensures
        opt_bytes(r) == base64_url_safe_no_pad(value@),
{
    base64::engine::general_purpose::URL_SAFE_NO_PAD.decode(value).ok()
}

/// Whether every character is ASCII.
pub open spec fn is_ascii_text(value: Seq<char>) -> bool {
    forall|i: int| 0 <= i < value.len() ==> (#[trigger] value[i] as int) < 128
}

/// Whether a decoding succeeded with at least 32 bytes.
pub open spec fn decoded_long(decoded: Option<Seq<u8>>) -> bool {
    decoded matches Some(bytes) && bytes.len() >= 32
}

/// Whether a text of these characters, decoded in these three ways, is opaque.
pub open spec fn opaque_by(
    value: Seq<char>,
    standard: Option<Seq<u8>>,
    url_safe: Option<Seq<u8>>,
    url_safe_no_pad: Option<Seq<u8>>,
) -> bool {
    &&& value.len() >= 64
    &&& is_ascii_text(value)
    &&& decoded_long(standard) || decoded_long(url_safe) || decoded_long(url_safe_no_pad)
}

/// Whether a text looks like encrypted content of Codex: long, ASCII, and base64
/// of at least 32 bytes.
pub open spec fn is_opaque(value: Seq<char>) -> bool {
    opaque_by(
        value,
        base64_standard(value),
        base64_url_safe(value),
        base64_url_safe_no_pad(value),
    )
}

/// Whether a text looks like a Fernet token.
pub open spec fn is_fernet(value: Seq<char>) -> bool {
    "gAAAAA"@.is_prefix_of(value) && is_opaque(value)
}

/// Whether the character is ASCII.
fn ascii_char(c: char) -> (r: bool)
    ensures
        r == ((c as int) < 128),
{
    (c as u32) < 128
}

/// Whether the text is ASCII.
fn ascii_text(value: &str) -> (r: bool)
    ensures
        r == is_ascii_text(value@),
{
    let chars = text::chars_of(value);
    let mut i: usize = 0;
    while i < chars.len()
        invariant
            i <= chars@.len(),
            chars@ == value@,
            forall|j: int| 0 <= j < i ==> (#[trigger] value@[j] as int) < 128,
        decreases chars@.len() - i,
    {
        if !ascii_char(chars[i]) {
            return false;
        }
        i = i + 1;
    }
    true
}

/// Whether a decoding succeeded with at least 32 bytes.
fn long_decoding(decoded: &Option<Vec<u8>>) -> (r: bool)
    ensures
        r == decoded_long(opt_bytes(*decoded)),
{
    match decoded {
        Some(bytes) => bytes.len() >= 32,
        None => false,
    }
}

/// Whether a text is opaque, given what the three decodings gave.
pub fn opaque_given_decodings(
    value: &str,
    standard: &Option<Vec<u8>>,
    url_safe: &Option<Vec<u8>>,
    url_safe_no_pad: &Option<Vec<u8>>,
) -> (r: bool)
    ensures
        r == opaque_by(
            value@,
            opt_bytes(*standard),
            opt_bytes(*url_safe),
            opt_bytes(*url_safe_no_pad),
        ),
{
    if text::char_count(value) < 64 || !ascii_text(value) {
        return false;
    }
    long_decoding(standard) || long_decoding(url_safe) || long_decoding(url_safe_no_pad)
}

/// Whether a text looks like encrypted content of Codex.
pub fn looks_like_codex_opaque_encrypted_content(value: &str) -> (r: bool)
    ensures
        r == is_opaque(value@),
{
    opaque_given_decodings(
        value,
        &decode_standard(value),
        &decode_url_safe(value),
        &decode_url_safe_no_pad(value),
    )
}

/// Whether a text looks like a Fernet token.
pub fn looks_like_codex_fernet_content(value: &str) -> (r: bool)
    ensures
        r == is_fernet(value@),
{
    text::starts_with(value, "gAAAAA") && looks_like_codex_opaque_encrypted_content(value)
}

// ---------------------------------------------------------------------------
// Errors

/// The error for content that a third party cannot read.
pub open spec fn opaque_fault() -> ProxyFault {
    ProxyFault::InvalidRequest(
        "third-party child cannot read opaque Codex agent payload; the parent turn did not use the managed agents.* plaintext schema or the task predates it; refresh the mixed-router configuration and start a new task"@,
    )
}

/// The error for a message without content to read.
pub open spec fn unreadable_fault() -> ProxyFault {
    ProxyFault::InvalidRequest(
        "third-party child received a Codex agent message without readable content"@,
    )
}

/// The error for content that a third party cannot read.
pub fn opaque_agent_payload_error() -> (r: ProxyError)
    ensures
        r@ == opaque_fault(),
{
    ProxyError::InvalidRequest(
        "third-party child cannot read opaque Codex agent payload; the parent turn did not use the managed agents.* plaintext schema or the task predates it; refresh the mixed-router configuration and start a new task".to_owned(),
    )
}

/// The error for a message without content to read.
pub fn unreadable_agent_payload_error() -> (r: ProxyError)
    ensures
        r@ == unreadable_fault(),
{
    ProxyError::InvalidRequest(
        "third-party child received a Codex agent message without readable content".to_owned(),
    )
}

// ---------------------------------------------------------------------------
// Who asks

/// Whose request it is.
#[derive(Debug, Clone, PartialEq, Eq)]
pub enum AgentReplayContext {
    /// It cannot be told whether this is a root or a child request.
    Unknown,
    /// An ordinary `/root` request: any agent message in it is replayed history.
    MainThread,
    /// The request of an active subagent with this agent path.
    Subagent { agent_name: String },
}

/// What an [`AgentReplayContext`] says.
pub enum ReplayContext {
    Unknown,
    MainThread,
    Subagent(Seq<char>),
}

impl View for AgentReplayContext {
    type V = ReplayContext;

    open spec fn view(&self) -> ReplayContext {
        match *self {
            AgentReplayContext::Unknown => ReplayContext::Unknown,
            AgentReplayContext::MainThread => ReplayContext::MainThread,
            AgentReplayContext::Subagent { agent_name } => ReplayContext::Subagent(agent_name@),
        }
    }
}

/// The metadata value that a request carries, as it stands.
pub open spec fn raw_metadata(body: Json) -> Option<Json> {
    match body.field("client_metadata"@) {
        Some(metadata) => metadata.field("x-codex-turn-metadata"@),
        None => None,
    }
}

/// The metadata of a request: an object, or a text that is read as JSON.
pub open spec fn turn_metadata(body: Json) -> Option<Json> {
    match raw_metadata(body) {
        Some(Json::Text(raw)) => data_text::json_parsed(raw),
        Some(Json::Object(fields)) => Some(Json::Object(fields)),
        _ => None,
    }
}

/// The agent that metadata names, where the name is not empty.
pub open spec fn agent_of(metadata: Json) -> Option<Seq<char>> {
    match metadata.text_field("agent_name"@) {
        Some(name) => if name.len() > 0 {
            Some(name)
        } else {
            None
        },
        None => None,
    }
}

/// Whose request it is, by its metadata.
pub open spec fn context_of(metadata: Option<Json>) -> ReplayContext {
    match metadata {
        None => ReplayContext::Unknown,
        Some(metadata) => if metadata.text_field("thread_source"@) == Some("subagent"@)
            || metadata.text_field("subagent_kind"@) == Some("thread_spawn"@) {
            match agent_of(metadata) {
                Some(name) => ReplayContext::Subagent(name),
                None => ReplayContext::Unknown,
            }
        } else if agent_of(metadata) == Some("/root"@) {
            ReplayContext::MainThread
        } else {
            ReplayContext::Unknown
        },
    }
}

/// Whose request it is, given its metadata.
pub fn context_from_metadata(metadata: Option<&JsonValue>) -> (r: AgentReplayContext)
    ensures
        r@ == context_of(
            match metadata {
                Some(m) => Some(m@),
                None => None,
            },
        ),
{
    let metadata = match metadata {
        Some(metadata) => metadata,
        None => return AgentReplayContext::Unknown,
    };
    let agent_name: Option<&str> = match metadata.str_field("agent_name") {
        Some(name) => if name.is_empty() {
            None
        } else {
            Some(name)
        },
        None => None,
    };
    if metadata.field_is("thread_source", "subagent") || metadata.field_is(
        "subagent_kind",
        "thread_spawn",
    ) {
        return match agent_name {
            Some(name) => AgentReplayContext::Subagent { agent_name: name.to_owned() },
            None => AgentReplayContext::Unknown,
        };
    }
    if text::same_opt(agent_name, Some("/root")) {
        return AgentReplayContext::MainThread;
    }
    AgentReplayContext::Unknown
}

/// Whose request it is.
pub fn agent_replay_context(body: &JsonValue) -> (r: AgentReplayContext)
    ensures
        r@ == context_of(turn_metadata(body@)),
{
    let raw = match body.get("client_metadata") {
        Some(metadata) => match metadata.get("x-codex-turn-metadata") {
            Some(raw) => raw,
            None => return AgentReplayContext::Unknown,
        },
        None => return AgentReplayContext::Unknown,
    };
    if let Some(source) = raw.as_str() {
        let parsed = data_text::parse_json(source);
        return context_from_metadata(parsed.as_ref());
    }
    if raw.is_object() {
        return context_from_metadata(Some(raw));
    }
    AgentReplayContext::Unknown
}

// ---------------------------------------------------------------------------
// The current task

/// Whether a content part begins a new task.
pub open spec fn part_begins_task(part: Json) -> bool {
    &&& part.text_field("type"@) == Some("input_text"@)
    &&& part.text_field("text"@) matches Some(content) && "Message Type: NEW_TASK\n"@.is_prefix_of(
        content,
    )
}

/// Whether an item is a new task for the agent.
pub open spec fn is_new_task(item: Json, agent_name: Seq<char>) -> bool {
    &&& item.text_field("type"@) == Some("agent_message"@)
    &&& item.text_field("recipient"@) == Some(agent_name)
    &&& item.items_field("content"@) matches Some(parts) && exists|i: int|
        0 <= i < parts.len() && part_begins_task(#[trigger] parts[i])
}

/// The last of the first `count` items that is a new task for the agent.
pub open spec fn last_task(items: Seq<Json>, agent_name: Seq<char>, count: nat) -> Option<int>
    decreases count,
{
    if count == 0 || count > items.len() {
        None
    } else if is_new_task(items[count - 1], agent_name) {
        Some(count - 1)
    } else {
        last_task(items, agent_name, (count - 1) as nat)
    }
}

/// The item that triggered the current turn, where the request is a subagent's.
pub open spec fn current_task(items: Seq<Json>, context: ReplayContext) -> Option<int> {
    match context {
        ReplayContext::Subagent(name) => last_task(items, name, items.len()),
        _ => None,
    }
}

/// Whether an item is a new task for the agent.
pub fn is_new_task_for_agent(item: &JsonValue, agent_name: &str) -> (r: bool)
    ensures
        r == is_new_task(item@, agent_name@),
{
    if !item.field_is("type", "agent_message") || !item.field_is("recipient", agent_name) {
        return false;
    }
    let parts = match item.array_field("content") {
        Some(parts) => parts,
        None => return false,
    };
    let ghost views = json::values_view(parts@);
    let mut i: usize = 0;
    while i < parts.len()
        invariant
            i <= parts@.len(),
            views == json::values_view(parts@),
            item@.text_field("type"@) == Some("agent_message"@),
            item@.text_field("recipient"@) == Some(agent_name@),
            item@.items_field("content"@) == Some(views),
            forall|j: int| 0 <= j < i ==> !part_begins_task(#[trigger] views[j]),
        decreases parts@.len() - i,
    {
        let part = &parts[i];
        assert(views[i as int] == part@);
        if part.field_is("type", "input_text") {
            if let Some(content) = part.str_field("text") {
                if text::starts_with(content, "Message Type: NEW_TASK\n") {
                    proof {
                        let found = item@.items_field("content"@)->0;
                        assert(part_begins_task(found[i as int]));
                        assert(is_new_task(item@, agent_name@));
                    }
                    return true;
                }
            }
        }
        i = i + 1;
    }
    false
}

/// The last item that is a new task for the agent.
fn find_last_task(items: &Vec<JsonValue>, agent_name: &str) -> (r: Option<usize>)
    ensures
        match r {
            Some(i) => last_task(json::values_view(items@), agent_name@, items@.len()) == Some(
                i as int,
            ),
            None => last_task(json::values_view(items@), agent_name@, items@.len()) is None,
        },
{
    let ghost views = json::values_view(items@);
    let mut count: usize = items.len();
    while count > 0
        invariant
            count <= items@.len(),
            views == json::values_view(items@),
            last_task(views, agent_name@, items@.len()) == last_task(
                views,
                agent_name@,
                count as nat,
            ),
        decreases count,
    {
        assert(views[count - 1] == items@[count - 1]@);
        if is_new_task_for_agent(&items[count - 1], agent_name) {
            return Some(count - 1);
        }
        count = count - 1;
    }
    None
}

// ---------------------------------------------------------------------------
// What becomes of an item

/// The encrypted content of a part: nothing where it has none.
pub open spec fn encrypted_text(part: Json) -> Seq<char> {
    match part.text_field("encrypted_content"@) {
        Some(content) => content,
        None => Seq::empty(),
    }
}

/// Whether a part holds content that a third party cannot read. Content that was
/// sent under the managed plaintext policy counts only when it is a Fernet token.
pub open spec fn part_is_opaque(part: Json, managed: bool) -> bool {
    &&& part.text_field("type"@) == Some("encrypted_content"@)
    &&& is_fernet(encrypted_text(part)) || (!managed && is_opaque(encrypted_text(part)))
}

/// A text part of a message.
pub open spec fn input_text(content: Seq<char>) -> Json {
    Json::empty_object().with("type"@, Json::Text("input_text"@)).with("text"@, Json::Text(content))
}

/// What becomes of a readable part: nothing where it holds nothing to show.
pub open spec fn readable_part(part: Json) -> Option<Json> {
    match part.text_field("type"@) {
        Some(kind) => if kind == "encrypted_content"@ {
            if encrypted_text(part).len() > 0 {
                Some(input_text(encrypted_text(part)))
            } else {
                None
            }
        } else if kind == "output_text"@ {
            match part.text_field("text"@) {
                Some(content) => Some(input_text(content)),
                None => None,
            }
        } else if kind == "input_text"@ || kind == "input_image"@ || kind == "input_file"@ || kind
            == "input_audio"@ {
            Some(part)
        } else {
            None
        },
        None => None,
    }
}

/// What becomes of the parts of a message.
pub open spec fn readable_parts(parts: Seq<Json>) -> Seq<Json>
    decreases parts.len(),
{
    if parts.len() == 0 {
        Seq::empty()
    } else {
        match readable_part(parts.last()) {
            Some(part) => readable_parts(parts.drop_last()).push(part),
            None => readable_parts(parts.drop_last()),
        }
    }
}

/// A user message with these parts.
pub open spec fn user_message(parts: Seq<Json>) -> Json {
    Json::empty_object().with("type"@, Json::Text("message"@)).with("role"@, Json::Text("user"@)).with(
        "content"@,
        Json::Array(parts),
    )
}

/// What becomes of an item.
pub enum Fate {
    Keep,
    Drop,
    Rewrite(Json),
    Fail(ProxyFault),
}

/// Whether an opaque item at this place is replayed history.
pub open spec fn is_history(context: ReplayContext, current: Option<int>, index: int) -> bool {
    match context {
        ReplayContext::MainThread => true,
        ReplayContext::Subagent(_) => current is Some && current != Some(index),
        ReplayContext::Unknown => false,
    }
}

/// What becomes of the item at a place.
pub open spec fn fate(
    item: Json,
    index: int,
    context: ReplayContext,
    current: Option<int>,
    managed: bool,
) -> Fate {
    if item.text_field("type"@) != Some("agent_message"@) {
        Fate::Keep
    } else {
        match item.items_field("content"@) {
            None => Fate::Fail(unreadable_fault()),
            Some(parts) => if exists|i: int|
                0 <= i < parts.len() && part_is_opaque(#[trigger] parts[i], managed) {
                if is_history(context, current, index) {
                    Fate::Drop
                } else {
                    Fate::Fail(opaque_fault())
                }
            } else if readable_parts(parts).len() == 0 {
                Fate::Fail(unreadable_fault())
            } else {
                Fate::Rewrite(user_message(readable_parts(parts)))
            },
        }
    }
}

/// What becomes of the item at a place of a request.
pub open spec fn fate_at(
    items: Seq<Json>,
    index: int,
    context: ReplayContext,
    managed: bool,
) -> Fate {
    fate(items[index], index, context, current_task(items, context), managed)
}

/// What is left of the items from a place on.
pub open spec fn projected(
    items: Seq<Json>,
    from: int,
    context: ReplayContext,
    managed: bool,
) -> Seq<Json>
    decreases items.len() - from,
{
    if from < 0 || from >= items.len() {
        Seq::empty()
    } else {
        let rest = projected(items, from + 1, context, managed);
        match fate_at(items, from, context, managed) {
            Fate::Keep => seq![items[from]] + rest,
            Fate::Rewrite(message) => seq![message] + rest,
            _ => rest,
        }
    }
}

/// The number of items rewritten from a place on.
pub open spec fn rewritten(
    items: Seq<Json>,
    from: int,
    context: ReplayContext,
    managed: bool,
) -> nat
    decreases items.len() - from,
{
    if from < 0 || from >= items.len() {
        0
    } else {
        rewritten(items, from + 1, context, managed) + if fate_at(items, from, context, managed)
            is Rewrite {
            1nat
        } else {
            0nat
        }
    }
}

/// The last of the first `count` items that makes the projection fail.
pub open spec fn last_failing(
    items: Seq<Json>,
    count: nat,
    context: ReplayContext,
    managed: bool,
) -> Option<int>
    decreases count,
{
    if count == 0 {
        None
    } else if fate_at(items, count - 1, context, managed) is Fail {
        Some(count - 1)
    } else {
        last_failing(items, (count - 1) as nat, context, managed)
    }
}

/// Whether some part holds content that a third party cannot read.
fn has_opaque_part(parts: &Vec<JsonValue>, managed: bool) -> (r: bool)
    ensures
        r == exists|i: int|
            0 <= i < parts@.len() && part_is_opaque(
                #[trigger] json::values_view(parts@)[i],
                managed,
            ),
{
    let ghost views = json::values_view(parts@);
    let mut i: usize = 0;
    while i < parts.len()
        invariant
            i <= parts@.len(),
            views == json::values_view(parts@),
            forall|j: int| 0 <= j < i ==> !part_is_opaque(#[trigger] views[j], managed),
        decreases parts@.len() - i,
    {
        let part = &parts[i];
        assert(views[i as int] == part@);
        if part.field_is("type", "encrypted_content") {
            let content = encrypted_content(part);
            if looks_like_codex_fernet_content(content.as_str()) || (!managed
                && looks_like_codex_opaque_encrypted_content(content.as_str())) {
                assert(part_is_opaque(views[i as int], managed));
                return true;
            }
        }
        i = i + 1;
    }
    false
}

/// The encrypted content of a part: nothing where it has none.
fn encrypted_content(part: &JsonValue) -> (r: String)
    ensures
        r@ == encrypted_text(part@),
{
    match part.str_field("encrypted_content") {
        Some(content) => content.to_owned(),
        None => String::new(),
    }
}

/// A text part of a message.
fn make_input_text(content: &str) -> (r: JsonValue)
    ensures
        r@ == input_text(content@),
{
    JsonValue::empty_object().with("type", JsonValue::text("input_text")).with(
        "text",
        JsonValue::text(content),
    )
}

/// What becomes of a readable part.
fn project_part(part: &JsonValue) -> (r: Option<JsonValue>)
    ensures
        json::opt_value_view(r) == readable_part(part@),
{
    let kind = match part.str_field("type") {
        Some(kind) => kind,
        None => return None,
    };
    if text::same(kind, "encrypted_content") {
        let content = encrypted_content(part);
        if content.as_str().is_empty() {
            None
        } else {
            Some(make_input_text(content.as_str()))
        }
    } else if text::same(kind, "output_text") {
        match part.str_field("text") {
            Some(content) => Some(make_input_text(content)),
            None => None,
        }
    } else if text::same(kind, "input_text") || text::same(kind, "input_image") || text::same(
        kind,
        "input_file",
    ) || text::same(kind, "input_audio") {
        Some(part.copy())
    } else {
        None
    }
}

/// What becomes of the parts of a message.
fn project_parts(parts: &Vec<JsonValue>) -> (r: Vec<JsonValue>)
    ensures
        json::values_view(r@) == readable_parts(json::values_view(parts@)),
{
    let ghost views = json::values_view(parts@);
    let mut projected_content: Vec<JsonValue> = Vec::new();
    let mut i: usize = 0;
    assert(json::values_view(projected_content@) =~= readable_parts(views.take(0)));
    while i < parts.len()
        invariant
            i <= parts@.len(),
            views == json::values_view(parts@),
            json::values_view(projected_content@) == readable_parts(views.take(i as int)),
        decreases parts@.len() - i,
    {
        assert(views.take(i + 1).drop_last() =~= views.take(i as int));
        assert(views.take(i + 1).last() == parts@[i as int]@);
        let ghost before = json::values_view(projected_content@);
        if let Some(part) = project_part(&parts[i]) {
            projected_content.push(part);
            assert(json::values_view(projected_content@) =~= before.push(part@));
        }
        i = i + 1;
    }
    assert(views.take(i as int) =~= views);
    projected_content
}

/// What becomes of an item.
enum ItemFate {
    Keep,
    Drop,
    Rewrite(JsonValue),
    Fail(ProxyError),
}

/// The meaning of what becomes of an item.
spec fn fate_view(fate: ItemFate) -> Fate {
    match fate {
        ItemFate::Keep => Fate::Keep,
        ItemFate::Drop => Fate::Drop,
        ItemFate::Rewrite(message) => Fate::Rewrite(message@),
        ItemFate::Fail(error) => Fate::Fail(error@),
    }
}

/// Decides what becomes of the item at a place.
fn item_fate(
    item: &JsonValue,
    index: usize,
    context: &AgentReplayContext,
    current: Option<usize>,
    managed: bool,
) -> (r: ItemFate)
    ensures
        fate_view(r) == fate(
            item@,
            index as int,
            context@,
            match current {
                Some(i) => Some(i as int),
                None => None,
            },
            managed,
        ),
{
    if !item.field_is("type", "agent_message") {
        return ItemFate::Keep;
    }
    let parts = match item.array_field("content") {
        Some(parts) => parts,
        None => return ItemFate::Fail(unreadable_agent_payload_error()),
    };
    let ghost views = json::values_view(parts@);
    if has_opaque_part(parts, managed) {
        assert(exists|i: int| 0 <= i < views.len() && part_is_opaque(#[trigger] views[i], managed));
        let safe = match context {
            AgentReplayContext::MainThread => true,
            AgentReplayContext::Subagent { .. } => match current {
                Some(current_index) => index != current_index,
                None => false,
            },
            AgentReplayContext::Unknown => false,
        };
        if safe {
            ItemFate::Drop
        } else {
            ItemFate::Fail(opaque_agent_payload_error())
        }
    } else {
        assert(!exists|i: int| 0 <= i < views.len() && part_is_opaque(#[trigger] views[i], managed));
        let content = project_parts(parts);
        if content.len() == 0 {
            ItemFate::Fail(unreadable_agent_payload_error())
        } else {
            ItemFate::Rewrite(
                JsonValue::empty_object().with("type", JsonValue::text("message")).with(
                    "role",
                    JsonValue::text("user"),
                ).with("content", JsonValue::array(content)),
            )
        }
    }
}

// ---------------------------------------------------------------------------
// The request

/// What is left of the items when the projection stopped at a failing item: it
/// goes from the last item to the first, so what follows has been projected.
pub open spec fn stopped_at(
    items: Seq<Json>,
    index: int,
    context: ReplayContext,
    managed: bool,
) -> Seq<Json> {
    items.take(index + 1) + projected(items, index + 1, context, managed)
}

/// Turns the agent messages among the items of a request into user messages, from
/// the last item to the first.
fn project_items(
    input: &mut Vec<JsonValue>,
    context: &AgentReplayContext,
    managed: bool,
) -> (r: Result<usize, ProxyError>)
    ensures
        ({
            let items = json::values_view(old(input)@);
            let after = json::values_view(final(input)@);
            match last_failing(items, items.len(), context@, managed) {
                None => r matches Ok(n) && n == rewritten(items, 0, context@, managed) && after
                    == projected(items, 0, context@, managed),
                Some(i) => r matches Err(e) && fate_at(items, i, context@, managed) == Fate::Fail(
                    e@,
                ) && after == stopped_at(items, i, context@, managed),
            }
        }),
{
    let ghost items = json::values_view(input@);
    let current: Option<usize> = match context {
        AgentReplayContext::Subagent { agent_name } => find_last_task(input, agent_name.as_str()),
        _ => None,
    };
    let ghost current_index = match current {
        Some(i) => Some(i as int),
        None => None,
    };
    assert(current_index == current_task(items, context@));
    let mut changed: usize = 0;
    let mut index: usize = input.len();
    assert(json::values_view(input@) =~= items.take(index as int) + projected(
        items,
        index as int,
        context@,
        managed,
    ));
    while index > 0
        invariant
            index <= items.len(),
            index <= input@.len(),
            items == json::values_view(old(input)@),
            current_index == match current {
                Some(i) => Some(i as int),
                None => None,
            },
            current_index == current_task(items, context@),
            json::values_view(input@) == items.take(index as int) + projected(
                items,
                index as int,
                context@,
                managed,
            ),
            changed == rewritten(items, index as int, context@, managed),
            changed <= items.len() - index,
            items.len() <= usize::MAX,
            last_failing(items, items.len(), context@, managed) == last_failing(
                items,
                index as nat,
                context@,
                managed,
            ),
        decreases index,
    {
        let place: usize = index - 1;
        let ghost views = json::values_view(input@);
        let ghost rest = projected(items, index as int, context@, managed);
        assert(views[place as int] == items[place as int]);
        assert(input@[place as int]@ == views[place as int]);
        let decided = item_fate(&input[place], place, context, current, managed);
        assert(fate_view(decided) == fate_at(items, place as int, context@, managed));
        match decided {
            ItemFate::Keep => {
                assert(views =~= items.take(place as int) + (seq![items[place as int]] + rest));
            },
            ItemFate::Drop => {
                let _dropped = input.remove(place);
                assert(json::values_view(input@) =~= views.remove(place as int));
                assert(views.remove(place as int) =~= items.take(place as int) + rest);
            },
            ItemFate::Fail(error) => {
                assert(last_failing(items, index as nat, context@, managed) == Some(place as int));
                assert(views =~= stopped_at(items, place as int, context@, managed));
                return Err(error);
            },
            ItemFate::Rewrite(message) => {
                input.set(place, message);
                assert(json::values_view(input@) =~= views.update(place as int, message@));
                assert(views.update(place as int, message@) =~= items.take(place as int) + (
                seq![message@] + rest));
                changed = changed + 1;
            },
        }
        index = place;
    }
    assert(items.take(0) + projected(items, 0, context@, managed) =~= projected(
        items,
        0,
        context@,
        managed,
    ));
    Ok(changed)
}

/// Turns the Codex-private agent messages of a request into user messages that a
/// third party can read, and says how many it turned.
pub fn project_codex_agent_messages_for_third_party(
    body: &mut JsonValue,
    managed_plaintext_policy: bool,
) -> (r: Result<usize, ProxyError>)
    ensures
        ({
            let context = context_of(turn_metadata(old(body)@));
            let managed = managed_plaintext_policy;
            match old(body)@.items_field("input"@) {
                None => r matches Ok(n) && n == 0 && final(body)@ == old(body)@,
                Some(items) => match last_failing(items, items.len(), context, managed) {
                    None => r matches Ok(n) && n == rewritten(items, 0, context, managed)
                        && final(body)@ == old(body)@.with(
                        "input"@,
                        Json::Array(projected(items, 0, context, managed)),
                    ),
                    Some(i) => r matches Err(e) && fate_at(items, i, context, managed)
                        == Fate::Fail(e@) && final(body)@ == old(body)@.with(
                        "input"@,
                        Json::Array(stopped_at(items, i, context, managed)),
                    ),
                },
            }
        }),
        r is Ok ==> agent_message_laws::passes_everything_on(
            old(body)@,
            final(body)@,
            managed_plaintext_policy,
        ),
{
    let context = agent_replay_context(body);
    proof {
        if let Some(items) = body@.items_field("input"@) {
            if last_failing(items, items.len(), context@, managed_plaintext_policy) is None {
                agent_message_laws::law_everything_readable_is_passed_on(
                    body@,
                    items,
                    context@,
                    managed_plaintext_policy,
                );
            }
        }
    }
    match body.take_array_field("input") {
        Some(mut input) => {
            let r = project_items(&mut input, &context, managed_plaintext_policy);
            body.set_field("input", JsonValue::array(input));
            r
        },
        None => Ok(0),
    }
}

// ---------------------------------------------------------------------------
// Laws

/// Whether an item of a request is an agent message.
pub open spec fn is_agent_message(item: Json) -> bool {
    item.text_field("type"@) == Some("agent_message"@)
}

/// Whether an item of a request holds content that a third party cannot read.
pub open spec fn holds_opaque(item: Json, managed: bool) -> bool {
    item.items_field("content"@) matches Some(parts) && exists|i: int|
        0 <= i < parts.len() && part_is_opaque(#[trigger] parts[i], managed)
}

/// Whether an item came out of the projection of a request: an item that is no
/// agent message as it was, or the readable content of one that holds nothing
/// opaque.
pub open spec fn comes_from(item: Json, items: Seq<Json>, managed: bool) -> bool {
    exists|j: int|
        0 <= j < items.len() && {
            let source = #[trigger] items[j];
            ||| !is_agent_message(source) && item == source
            ||| is_agent_message(source) && !holds_opaque(source, managed) && item == user_message(
                readable_parts(source.items_field("content"@)->0),
            )
        }
}

/// A user message is no agent message.
proof fn lemma_user_message(parts: Seq<Json>)
    ensures
        !is_agent_message(user_message(parts)),
{
    reveal_strlit("message");
    reveal_strlit("agent_message");
    reveal_strlit("type");
    reveal_strlit("role");
    reveal_strlit("content");
    assert("message"@.len() == 7);
    assert("agent_message"@.len() == 13);
    assert("content"@.len() == 7);
    assert("type"@[0] == 't');
    assert("role"@[0] == 'r');
    let message = user_message(parts);
    assert(message.text_field("type"@) == Some("message"@));
}

/// What is left from a place on comes from the request.
proof fn lemma_projected_items(
    items: Seq<Json>,
    from: int,
    context: ReplayContext,
    managed: bool,
)
    requires
        0 <= from <= items.len(),
    ensures
        forall|i: int|
            0 <= i < projected(items, from, context, managed).len() ==> !is_agent_message(
                #[trigger] projected(items, from, context, managed)[i],
            ) && comes_from(projected(items, from, context, managed)[i], items, managed),
    decreases items.len() - from,
{
    if from < items.len() {
        lemma_projected_items(items, from + 1, context, managed);
        let rest = projected(items, from + 1, context, managed);
        let all = projected(items, from, context, managed);
        let source = items[from];
        match fate_at(items, from, context, managed) {
            Fate::Rewrite(message) => {
                let parts = source.items_field("content"@)->0;
                lemma_user_message(readable_parts(parts));
                assert(comes_from(message, items, managed));
                assert(all =~= seq![message] + rest);
            },
            Fate::Keep => {
                assert(comes_from(source, items, managed));
                assert(all =~= seq![source] + rest);
            },
            _ => {},
        }
        assert forall|i: int| 0 <= i < all.len() implies !is_agent_message(#[trigger] all[i])
            && comes_from(all[i], items, managed) by {
            if all.len() > rest.len() && i > 0 {
                assert(all[i] == rest[i - 1]);
            }
        }
    }
}

/// After a projection no agent message is left, and nothing opaque went through:
/// each item is one that was no agent message, or the readable content of an
/// agent message that holds nothing opaque.
pub proof fn law_only_readable_items_are_left(
    items: Seq<Json>,
    context: ReplayContext,
    managed: bool,
)
    ensures
        forall|i: int|
            0 <= i < projected(items, 0, context, managed).len() ==> !is_agent_message(
                #[trigger] projected(items, 0, context, managed)[i],
            ) && comes_from(projected(items, 0, context, managed)[i], items, managed),
{
    lemma_projected_items(items, 0, context, managed);
}

/// Items that are no agent messages are left alone.
proof fn lemma_plain_items(items: Seq<Json>, from: int, context: ReplayContext, managed: bool)
    requires
        0 <= from <= items.len(),
        forall|i: int| 0 <= i < items.len() ==> !is_agent_message(#[trigger] items[i]),
    ensures
        projected(items, from, context, managed) == items.skip(from),
        rewritten(items, from, context, managed) == 0,
        last_failing(items, from as nat, context, managed) is None,
    decreases items.len() - from,
{
    if from < items.len() {
        lemma_plain_items(items, from + 1, context, managed);
        assert(!is_agent_message(items[from]));
        assert(items.skip(from) =~= seq![items[from]] + items.skip(from + 1));
    }
    lemma_none_failing(items, from as nat, context, managed);
}

/// Items that are no agent messages make no projection fail.
proof fn lemma_none_failing(items: Seq<Json>, count: nat, context: ReplayContext, managed: bool)
    requires
        count <= items.len(),
        forall|i: int| 0 <= i < items.len() ==> !is_agent_message(#[trigger] items[i]),
    ensures
        last_failing(items, count, context, managed) is None,
    decreases count,
{
    if count > 0 {
        assert(!is_agent_message(items[count - 1]));
        lemma_none_failing(items, (count - 1) as nat, context, managed);
    }
}

/// Projecting a request that was projected before changes nothing and does not
/// fail, whoever asks.
pub proof fn law_projecting_twice_changes_nothing(
    items: Seq<Json>,
    context: ReplayContext,
    managed: bool,
    again: ReplayContext,
    managed_again: bool,
)
    ensures
        ({
            let once = projected(items, 0, context, managed);
            &&& last_failing(once, once.len(), again, managed_again) is None
            &&& projected(once, 0, again, managed_again) == once
            &&& rewritten(once, 0, again, managed_again) == 0
        }),
{
    let once = projected(items, 0, context, managed);
    lemma_projected_items(items, 0, context, managed);
    lemma_plain_items(once, 0, again, managed_again);
    lemma_none_failing(once, once.len(), again, managed_again);
    assert(once.skip(0) =~= once);
}

/// An item that makes the projection fail is found.
proof fn lemma_failing_found(
    items: Seq<Json>,
    count: nat,
    index: int,
    context: ReplayContext,
    managed: bool,
)
    requires
        0 <= index < count <= items.len(),
        fate_at(items, index, context, managed) is Fail,
    ensures
        last_failing(items, count, context, managed) matches Some(i) && index <= i < count
            && fate_at(items, i, context, managed) is Fail,
    decreases count,
{
    if !(fate_at(items, count - 1, context, managed) is Fail) {
        lemma_failing_found(items, (count - 1) as nat, index, context, managed);
    }
}

/// Opaque content fails closed: a request whose origin is unknown, a subagent
/// without a task, and the task that triggered a subagent's turn are refused
/// when an agent message there holds something opaque.
pub proof fn law_opaque_task_is_refused(
    items: Seq<Json>,
    index: int,
    context: ReplayContext,
    managed: bool,
)
    requires
        0 <= index < items.len(),
        is_agent_message(items[index]),
        holds_opaque(items[index], managed),
        match context {
            ReplayContext::Unknown => true,
            ReplayContext::MainThread => false,
            ReplayContext::Subagent(_) => current_task(items, context) is None || current_task(
                items,
                context,
            ) == Some(index),
        },
    ensures
        last_failing(items, items.len(), context, managed) is Some,
{
    lemma_failing_found(items, items.len(), index, context, managed);
}

/// Replayed history that is opaque is left out: on the main thread everywhere,
/// and in a subagent's request everywhere but at its current task.
pub proof fn law_opaque_history_is_dropped(
    items: Seq<Json>,
    index: int,
    context: ReplayContext,
    managed: bool,
)
    requires
        0 <= index < items.len(),
        is_agent_message(items[index]),
        holds_opaque(items[index], managed),
        match context {
            ReplayContext::Unknown => false,
            ReplayContext::MainThread => true,
            ReplayContext::Subagent(_) => current_task(items, context) matches Some(i) && i
                != index,
        },
    ensures
        fate_at(items, index, context, managed) is Drop,
        projected(items, index, context, managed) == projected(items, index + 1, context, managed),
{
}

} // verus!
