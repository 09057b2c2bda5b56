//! Calls of hosted tools: finding them in a response, answering them, and telling
//! the model what came of them.

use crate::data_text;
use crate::hosted_call_laws;
use crate::hosted_tools;
use crate::hosted_tools::{HostedToolCallKind, HostedToolLoopConfig};
use crate::json;
use crate::json::{Json, JsonValue};
use crate::text;
use vstd::prelude::*;
use vstd::string::StringExecFns;

verus! {

/// A call of a hosted tool.
#[derive(Debug, Clone, PartialEq, Eq)]
pub struct HostedToolCall {
    pub kind: HostedToolCallKind,
    pub id: String,
    pub arguments: String,
}

/// What a [`HostedToolCall`] says.
pub struct HostedCall {
    pub kind: HostedToolCallKind,
    pub id: Seq<char>,
    pub arguments: Seq<char>,
}

impl View for HostedToolCall {
    type V = HostedCall;

    open spec fn view(&self) -> HostedCall {
        HostedCall { kind: self.kind, id: self.id@, arguments: self.arguments@ }
    }
}

/// What a sequence of calls says.
pub open spec fn calls_view(calls: Seq<HostedToolCall>) -> Seq<HostedCall> {
    calls.map_values(|call: HostedToolCall| call@)
}

/// The tool calls of a Chat response.
#[derive(Debug, Clone, PartialEq, Eq)]
pub enum HostedToolCallScan {
    NoToolCalls,
    OnlyHosted(Vec<HostedToolCall>),
    ContainsUnsupportedToolCalls,
}

/// What a [`HostedToolCallScan`] says.
#[verifier::ext_equal]
pub enum ChatScan {
    NoToolCalls,
    OnlyHosted(Seq<HostedCall>),
    ContainsUnsupportedToolCalls,
}

impl View for HostedToolCallScan {
    type V = ChatScan;

    open spec fn view(&self) -> ChatScan {
        match *self {
            HostedToolCallScan::NoToolCalls => ChatScan::NoToolCalls,
            HostedToolCallScan::OnlyHosted(calls) => ChatScan::OnlyHosted(calls_view(calls@)),
            HostedToolCallScan::ContainsUnsupportedToolCalls => ChatScan::ContainsUnsupportedToolCalls,
        }
    }
}

/// Who owns the tool calls of a native Responses response.
///
/// The request may be continued locally only when every call that a client could
/// act on belongs to the local hosted tools: mixed ownership cannot be split
/// between the local continuation and the executor of the client.
#[derive(Debug, Clone, PartialEq, Eq)]
pub enum ResponsesHostedToolCallScan {
    NoToolCalls,
    OnlyHosted(Vec<HostedToolCall>),
    OnlyClientToolCalls,
    MixedHostedAndClientToolCalls,
    InvalidHostedToolCall,
}

/// What a [`ResponsesHostedToolCallScan`] says.
#[verifier::ext_equal]
pub enum ResponsesScan {
    NoToolCalls,
    OnlyHosted(Seq<HostedCall>),
    OnlyClientToolCalls,
    MixedHostedAndClientToolCalls,
    InvalidHostedToolCall,
}

impl View for ResponsesHostedToolCallScan {
    type V = ResponsesScan;

    open spec fn view(&self) -> ResponsesScan {
        match *self {
            ResponsesHostedToolCallScan::NoToolCalls => ResponsesScan::NoToolCalls,
            ResponsesHostedToolCallScan::OnlyHosted(calls) => ResponsesScan::OnlyHosted(
                calls_view(calls@),
            ),
            ResponsesHostedToolCallScan::OnlyClientToolCalls => ResponsesScan::OnlyClientToolCalls,
            ResponsesHostedToolCallScan::MixedHostedAndClientToolCalls => ResponsesScan::MixedHostedAndClientToolCalls,
            ResponsesHostedToolCallScan::InvalidHostedToolCall => ResponsesScan::InvalidHostedToolCall,
        }
    }
}

/// The text of a field, or another text where the field holds none.
pub open spec fn text_or(value: Json, key: Seq<char>, other: Seq<char>) -> Seq<char> {
    match value.text_field(key) {
        Some(found) => found,
        None => other,
    }
}

/// The text of a field, or another text where the field holds none.
fn str_or(value: &JsonValue, key: &str, other: &str) -> (r: String)
    ensures
        r@ == text_or(value@, key@, other@),
{
    match value.str_field(key) {
        Some(found) => found.to_owned(),
        None => other.to_owned(),
    }
}

// ---------------------------------------------------------------------------
// Responses

/// The id of a call: its call id, or else its own id.
pub open spec fn call_id_of(item: Json) -> Option<Seq<char>> {
    match item.text_field("call_id"@) {
        Some(id) => if id.len() > 0 {
            Some(id)
        } else {
            item.text_field("id"@)
        },
        None => item.text_field("id"@),
    }
}

/// What an output item is.
pub enum ItemKind {
    NoCall,
    ClientCall,
    HostedCall(HostedCall),
}

/// What an output item is: a function call that is run locally, a call of the
/// client, or no call. Whatever else ends in `_call` belongs to the client.
pub open spec fn item_kind(item: Json, config: HostedToolLoopConfig) -> ItemKind {
    match item.text_field("type"@) {
        Some(kind) => if kind == "function_call"@ {
            let name = text_or(item, "name"@, ""@);
            if hosted_tools::is_hosted(config, name) {
                ItemKind::HostedCall(
                    HostedCall {
                        kind: hosted_tools::kind_of(name)->0,
                        id: match call_id_of(item) {
                            Some(id) => id,
                            None => ""@,
                        },
                        arguments: text_or(item, "arguments"@, "{}"@),
                    },
                )
            } else {
                ItemKind::ClientCall
            }
        } else if "_call"@.is_suffix_of(kind) {
            ItemKind::ClientCall
        } else {
            ItemKind::NoCall
        },
        None => ItemKind::NoCall,
    }
}

/// The hosted calls among output items, in order.
pub open spec fn hosted_calls(output: Seq<Json>, config: HostedToolLoopConfig) -> Seq<HostedCall>
    decreases output.len(),
{
    if output.len() == 0 {
        Seq::empty()
    } else {
        match item_kind(output.last(), config) {
            ItemKind::HostedCall(call) => hosted_calls(output.drop_last(), config).push(call),
            _ => hosted_calls(output.drop_last(), config),
        }
    }
}

/// Whether some output item is a call of the client.
pub open spec fn any_client_call(output: Seq<Json>, config: HostedToolLoopConfig) -> bool {
    exists|i: int| 0 <= i < output.len() && item_kind(#[trigger] output[i], config) is ClientCall
}

/// Whether some hosted call has no id.
pub open spec fn any_without_id(calls: Seq<HostedCall>) -> bool {
    exists|i: int| 0 <= i < calls.len() && (#[trigger] calls[i]).id.len() == 0
}

/// Who owns the tool calls among output items.
pub open spec fn responses_scan(output: Seq<Json>, config: HostedToolLoopConfig) -> ResponsesScan {
    let calls = hosted_calls(output, config);
    if any_without_id(calls) {
        ResponsesScan::InvalidHostedToolCall
    } else if calls.len() == 0 {
        if any_client_call(output, config) {
            ResponsesScan::OnlyClientToolCalls
        } else {
            ResponsesScan::NoToolCalls
        }
    } else if any_client_call(output, config) {
        ResponsesScan::MixedHostedAndClientToolCalls
    } else {
        ResponsesScan::OnlyHosted(calls)
    }
}

/// The id of a call: its call id, or else its own id.
fn find_call_id(item: &JsonValue) -> (r: Option<&str>)
    ensures
        text::opt_str_view(r) == call_id_of(item@),
{
    match item.str_field("call_id") {
        Some(id) => if id.is_empty() {
            item.str_field("id")
        } else {
            Some(id)
        },
        None => item.str_field("id"),
    }
}

/// What an output item is.
enum FoundItem {
    NoCall,
    ClientCall,
    HostedCall(HostedToolCall),
}

/// The meaning of what an output item is.
spec fn found_view(found: FoundItem) -> ItemKind {
    match found {
        FoundItem::NoCall => ItemKind::NoCall,
        FoundItem::ClientCall => ItemKind::ClientCall,
        FoundItem::HostedCall(call) => ItemKind::HostedCall(call@),
    }
}

/// Finds out what an output item is.
fn classify_item(item: &JsonValue, config: &HostedToolLoopConfig) -> (r: FoundItem)
    ensures
        found_view(r) == item_kind(item@, *config),
{
    let item_type = match item.str_field("type") {
        Some(item_type) => item_type,
        None => return FoundItem::NoCall,
    };
    if text::same(item_type, "function_call") {
        let name = str_or(item, "name", "");
        if !hosted_tools::hosted_function_is_enabled(name.as_str(), config) {
            return FoundItem::ClientCall;
        }
        let kind = match HostedToolCallKind::from_function_name(name.as_str()) {
            Some(kind) => kind,
            None => return FoundItem::ClientCall,
        };
        let id = match find_call_id(item) {
            Some(id) => id.to_owned(),
            None => "".to_owned(),
        };
        FoundItem::HostedCall(
            HostedToolCall { kind, id, arguments: str_or(item, "arguments", "{}") },
        )
    } else if text::ends_with(item_type, "_call") {
        FoundItem::ClientCall
    } else {
        FoundItem::NoCall
    }
}

/// The calls of the first items are among the calls of all items.
proof fn lemma_calls_grow(output: Seq<Json>, count: int, config: HostedToolLoopConfig)
    requires
        0 <= count <= output.len(),
    ensures
        hosted_calls(output.take(count), config).is_prefix_of(hosted_calls(output, config)),
    decreases output.len(),
{
    if count < output.len() {
        lemma_calls_grow(output.drop_last(), count, config);
        assert(output.drop_last().take(count) =~= output.take(count));
        let part = hosted_calls(output.take(count), config);
        let before = hosted_calls(output.drop_last(), config);
        let all = hosted_calls(output, config);
        assert(before.is_prefix_of(all)) by {
            assert(before =~= all.subrange(0, before.len() as int));
        }
        assert(part =~= all.subrange(0, part.len() as int));
    } else {
        assert(output.take(count) =~= output);
    }
}

/// Finds out who owns the tool calls of a native Responses response.
pub fn scan_responses_hosted_tool_calls(
    response: &JsonValue,
    config: &HostedToolLoopConfig,
) -> (r: ResponsesHostedToolCallScan)
    ensures
        r@ == match response@.items_field("output"@) {
            Some(output) => responses_scan(output, *config),
            None => ResponsesScan::NoToolCalls,
        },
{
    let output = match response.array_field("output") {
        Some(output) => output,
        None => return ResponsesHostedToolCallScan::NoToolCalls,
    };
    let ghost views = json::values_view(output@);
    let mut calls: Vec<HostedToolCall> = Vec::new();
    let mut saw_client_tool = false;
    let mut i: usize = 0;
    assert(calls_view(calls@) =~= hosted_calls(views.take(0), *config));
    while i < output.len()
        invariant
            i <= output@.len(),
            views == json::values_view(output@),
            response@.items_field("output"@) == Some(views),
            calls_view(calls@) == hosted_calls(views.take(i as int), *config),
            saw_client_tool == exists|j: int|
                0 <= j < i && item_kind(#[trigger] views[j], *config) is ClientCall,
            !any_without_id(calls_view(calls@)),
        decreases output@.len() - i,
    {
        let item = &output[i];
        let ghost before = calls_view(calls@);
        proof {
            assert(views.take(i + 1).drop_last() =~= views.take(i as int));
            assert(views.take(i + 1).last() == item@);
            assert(views[i as int] == item@);
        }
        match classify_item(item, config) {
            FoundItem::NoCall => {},
            FoundItem::ClientCall => {
                assert(item_kind(views[i as int], *config) is ClientCall);
                saw_client_tool = true;
            },
            FoundItem::HostedCall(call) => {
                let missing_id = call.id.as_str().is_empty();
                let ghost said = call@;
                calls.push(call);
                proof {
                    assert(calls_view(calls@) =~= before.push(said));
                    if missing_id {
                        lemma_calls_grow(views, i + 1, *config);
                        let all = hosted_calls(views, *config);
                        let part = hosted_calls(views.take(i + 1), *config);
                        assert(part == before.push(said));
                        assert(part[before.len() as int] == all[before.len() as int]);
                        assert(any_without_id(all));
                    }
                }
                if missing_id {
                    return ResponsesHostedToolCallScan::InvalidHostedToolCall;
                }
            },
        }
        i = i + 1;
    }
    assert(views.take(i as int) =~= views);
    if calls.len() == 0 {
        return if saw_client_tool {
            ResponsesHostedToolCallScan::OnlyClientToolCalls
        } else {
            ResponsesHostedToolCallScan::NoToolCalls
        };
    }
    if saw_client_tool {
        ResponsesHostedToolCallScan::MixedHostedAndClientToolCalls
    } else {
        ResponsesHostedToolCallScan::OnlyHosted(calls)
    }
}

/// Whether the input of a request can be continued: a list, a single item, a text
/// or nothing.
pub open spec fn is_continuable(request: Json) -> bool {
    match request.field("input"@) {
        None => true,
        Some(input) => input is Null || input is Array || input is Object || input is Text,
    }
}

/// A user item with this text.
pub open spec fn user_item(content: Seq<char>) -> Json {
    Json::empty_object().with("role"@, Json::Text("user"@)).with(
        "content"@,
        Json::Array(
            seq![
                Json::empty_object().with("type"@, Json::Text("input_text"@)).with(
                    "text"@,
                    Json::Text(content),
                ),
            ],
        ),
    )
}

/// The input of a request as a list of items.
pub open spec fn input_items(request: Json) -> Seq<Json> {
    match request.field("input"@) {
        Some(Json::Array(items)) => items,
        Some(Json::Object(item)) => seq![Json::Object(item)],
        Some(Json::Text(content)) => seq![user_item(content)],
        _ => Seq::empty(),
    }
}

/// The request with its input as a list of items, where it can be continued.
pub open spec fn normalized(request: Json) -> Json {
    if is_continuable(request) {
        request.assigned("input"@, Json::Array(input_items(request)))
    } else {
        request
    }
}

/// A user item with this text.
fn make_user_item(content: &str) -> (r: JsonValue)
    ensures
        r@ == user_item(content@),
{
    let part = JsonValue::empty_object().with("type", JsonValue::text("input_text")).with(
        "text",
        JsonValue::text(content),
    );
    let mut parts: Vec<JsonValue> = Vec::new();
    parts.push(part);
    assert(json::values_view(parts@) =~= seq![part@]);
    JsonValue::empty_object().with("role", JsonValue::text("user")).with(
        "content",
        JsonValue::array(parts),
    )
}

/// Makes the input of a request a list of items, and says whether it could.
pub fn normalize_responses_input_for_hosted_continuation(request: &mut JsonValue) -> (r: bool)
    requires
        old(request)@.is_object_or_null(),
    ensures
        r == is_continuable(old(request)@),
        final(request)@ == normalized(old(request)@),
{
    let mut items: Vec<JsonValue> = Vec::new();
    assert(json::values_view(items@) =~= Seq::<Json>::empty());
    if let Some(input) = request.get("input") {
        if input.as_array().is_some() {
            assert(request@->Object_0.insert("input"@, input@) =~= request@->Object_0);
            return true;
        }
        if input.is_object() {
            items.push(input.copy());
            assert(json::values_view(items@) =~= seq![input@]);
        } else if let Some(content) = input.as_str() {
            let item = make_user_item(content);
            items.push(item);
            assert(json::values_view(items@) =~= seq![item@]);
        } else if !input.is_null() {
            return false;
        }
    }
    request.assign_field("input", JsonValue::array(items));
    true
}

/// The call ids that tool messages answer.
pub open spec fn answered_ids(messages: Seq<Json>) -> Set<Seq<char>> {
    Set::new(
        |id: Seq<char>|
            id.len() > 0 && exists|i: int|
                0 <= i < messages.len() && (#[trigger] messages[i]).text_field("tool_call_id"@)
                    == Some(id),
    )
}

/// What of an output item is played back to the model: reasoning and messages as
/// they are, and the calls that are answered, with their call id.
pub open spec fn replayed_item(item: Json, answered: Set<Seq<char>>) -> Option<Json> {
    match item.text_field("type"@) {
        Some(kind) => if kind == "reasoning"@ || kind == "message"@ {
            Some(item)
        } else if kind == "function_call"@ {
            match call_id_of(item) {
                Some(id) => if answered.contains(id) {
                    if item.text_field("call_id"@) matches Some(given) && given.len() > 0 {
                        Some(item)
                    } else {
                        Some(item.with("call_id"@, Json::Text(id)))
                    }
                } else {
                    None
                },
                None => None,
            }
        } else {
            None
        },
        None => None,
    }
}

/// What of the output is played back to the model, in order.
pub open spec fn replayed(output: Seq<Json>, answered: Set<Seq<char>>) -> Seq<Json>
    decreases output.len(),
{
    if output.len() == 0 {
        Seq::empty()
    } else {
        match replayed_item(output.last(), answered) {
            Some(item) => replayed(output.drop_last(), answered).push(item),
            None => replayed(output.drop_last(), answered),
        }
    }
}

/// Whether a tool message names the call that it answers.
pub open spec fn names_call(message: Json) -> bool {
    text_or(message, "tool_call_id"@, ""@).len() > 0
}

/// What a tool message tells the model.
pub open spec fn tool_output(message: Json) -> Json {
    Json::empty_object().with("type"@, Json::Text("function_call_output"@)).with(
        "call_id"@,
        Json::Text(text_or(message, "tool_call_id"@, ""@)),
    ).with(
        "output"@,
        match message.field("content"@) {
            Some(content) => content,
            None => Json::Text(Seq::empty()),
        },
    )
}

/// What the tool messages tell the model.
pub open spec fn tool_outputs(messages: Seq<Json>) -> Seq<Json> {
    messages.map_values(|message: Json| tool_output(message))
}

/// The number of tool messages before the first that names no call.
pub open spec fn named_count(messages: Seq<Json>) -> nat
    decreases messages.len(),
{
    if messages.len() == 0 || !names_call(messages[0]) {
        0
    } else {
        1 + named_count(messages.skip(1))
    }
}

/// The input of a request with the output of a round and with tool outputs.
pub open spec fn continued(
    request: Json,
    output: Seq<Json>,
    messages: Seq<Json>,
    count: int,
) -> Json {
    Json::Array(
        input_items(request) + replayed(output, answered_ids(messages)) + tool_outputs(
            messages.take(count),
        ),
    )
}

/// Whether a request can be continued with the answers to a response.
pub open spec fn can_continue(request: Json, response: Json, messages: Seq<Json>) -> bool {
    &&& is_continuable(request)
    &&& response.items_field("output"@) is Some
    &&& named_count(messages) == messages.len()
}

/// A request after an attempt to continue it: with the round and the answers,
/// not streaming. Where the attempt fails, what was added before stays.
pub open spec fn continuation(request: Json, response: Json, messages: Seq<Json>) -> Json {
    if !is_continuable(request) {
        request
    } else {
        match response.items_field("output"@) {
            None => normalized(request),
            Some(output) => {
                let count = named_count(messages) as int;
                let next = request.assigned(
                    "input"@,
                    continued(request, output, messages, count),
                );
                if count == messages.len() {
                    next.with("stream"@, Json::Bool(false))
                } else {
                    next
                }
            },
        }
    }
}

/// The call ids that tool messages answer.
fn collect_answered(messages: &Vec<JsonValue>) -> (r: Vec<String>)
    ensures
        forall|id: Seq<char>| #[trigger]
            text::texts_view(r@).contains(id) <==> answered_ids(
                json::values_view(messages@),
            ).contains(id),
{
    let ghost views = json::values_view(messages@);
    let mut ids: Vec<String> = Vec::new();
    let mut i: usize = 0;
    while i < messages.len()
        invariant
            i <= messages@.len(),
            views == json::values_view(messages@),
            forall|id: Seq<char>| #[trigger]
                text::texts_view(ids@).contains(id) <==> id.len() > 0 && exists|j: int|
                    0 <= j < i && (#[trigger] views[j]).text_field("tool_call_id"@) == Some(id),
        decreases messages@.len() - i,
    {
        let ghost before = text::texts_view(ids@);
        assert(views[i as int] == messages@[i as int]@);
        if let Some(id) = messages[i].str_field("tool_call_id") {
            if !id.is_empty() {
                ids.push(id.to_owned());
                proof {
                    let after = text::texts_view(ids@);
                    assert(after =~= before.push(id@));
                    assert forall|k: Seq<char>| #[trigger]
                        after.contains(k) <==> before.contains(k) || k == id@ by {
                        if before.contains(k) {
                            let j = choose|j: int| 0 <= j < before.len() && before[j] == k;
                            assert(after[j] == k);
                        }
                        if k == id@ {
                            assert(after[before.len() as int] == k);
                        }
                        if after.contains(k) {
                            let j = choose|j: int| 0 <= j < after.len() && after[j] == k;
                            if j < before.len() {
                                assert(before[j] == k);
                            }
                        }
                    }
                }
            }
        }
        i = i + 1;
    }
    ids
}

/// Whether a text is among others.
fn is_among(id: &str, ids: &Vec<String>) -> (r: bool)
    ensures
        r == text::texts_view(ids@).contains(id@),
{
    let mut i: usize = 0;
    while i < ids.len()
        invariant
            i <= ids@.len(),
            forall|j: int| 0 <= j < i ==> text::texts_view(ids@)[j] != id@,
        decreases ids@.len() - i,
    {
        assert(text::texts_view(ids@)[i as int] == ids@[i as int]@);
        if text::same(ids[i].as_str(), id) {
            return true;
        }
        i = i + 1;
    }
    false
}

/// What of an output item is played back to the model.
fn replay_item(item: &JsonValue, ids: &Vec<String>, answered: Ghost<Set<Seq<char>>>) -> (r: Option<
    JsonValue,
>)
    requires
        forall|id: Seq<char>| #[trigger]
            text::texts_view(ids@).contains(id) <==> answered@.contains(id),
    ensures
        json::opt_value_view(r) == replayed_item(item@, answered@),
{
    let kind = match item.str_field("type") {
        Some(kind) => kind,
        None => return None,
    };
    if text::same(kind, "reasoning") || text::same(kind, "message") {
        return Some(item.copy());
    }
    if !text::same(kind, "function_call") {
        return None;
    }
    let id = match find_call_id(item) {
        Some(id) => id,
        None => return None,
    };
    if !is_among(id, ids) {
        return None;
    }
    let given = match item.str_field("call_id") {
        Some(given) => !given.is_empty(),
        None => false,
    };
    if given {
        Some(item.copy())
    } else {
        Some(item.copy().with("call_id", JsonValue::text(id)))
    }
}

/// Plays the output back to the model: adds it to the input.
fn replay_output(output: &Vec<JsonValue>, messages: &Vec<JsonValue>, input: &mut Vec<JsonValue>)
    ensures
        json::values_view(final(input)@) == json::values_view(old(input)@) + replayed(
            json::values_view(output@),
            answered_ids(json::values_view(messages@)),
        ),
{
    let ids = collect_answered(messages);
    let ghost answered = answered_ids(json::values_view(messages@));
    let ghost views = json::values_view(output@);
    let ghost start = json::values_view(input@);
    let mut i: usize = 0;
    assert(start + replayed(views.take(0), answered) =~= start);
    while i < output.len()
        invariant
            i <= output@.len(),
            views == json::values_view(output@),
            forall|id: Seq<char>| #[trigger]
                text::texts_view(ids@).contains(id) <==> answered.contains(id),
            json::values_view(input@) == start + replayed(views.take(i as int), answered),
        decreases output@.len() - i,
    {
        let ghost before = json::values_view(input@);
        proof {
            assert(views.take(i + 1).drop_last() =~= views.take(i as int));
            assert(views.take(i + 1).last() == output@[i as int]@);
        }
        if let Some(item) = replay_item(&output[i], &ids, Ghost(answered)) {
            input.push(item);
            assert(json::values_view(input@) =~= before.push(item@));
            assert(before.push(item@) =~= start + replayed(views.take(i as int), answered).push(
                item@,
            ));
        }
        i = i + 1;
    }
    assert(views.take(i as int) =~= views);
}

/// The named messages of a sequence are counted from its start.
proof fn lemma_named_count(messages: Seq<Json>, count: int)
    requires
        0 <= count <= messages.len(),
        forall|i: int| 0 <= i < count ==> names_call(#[trigger] messages[i]),
    ensures
        named_count(messages) == count + named_count(messages.skip(count)),
    decreases count,
{
    if count > 0 {
        assert forall|i: int| 0 <= i < count - 1 implies names_call(
            #[trigger] messages.skip(1)[i],
        ) by {
            assert(names_call(messages[i + 1]));
        }
        assert(names_call(messages[0]));
        lemma_named_count(messages.skip(1), count - 1);
        assert(messages.skip(1).skip(count - 1) =~= messages.skip(count));
    } else {
        assert(messages.skip(0) =~= messages);
    }
}

/// Tells the model what the tool messages say: adds it to the input, up to the
/// first message that names no call. Says whether all named one.
fn push_tool_outputs(messages: &Vec<JsonValue>, input: &mut Vec<JsonValue>) -> (r: bool)
    ensures
        ({
            let views = json::values_view(messages@);
            let count = named_count(views) as int;
            &&& 0 <= count <= views.len()
            &&& r == (count == views.len())
            &&& json::values_view(final(input)@) == json::values_view(old(input)@) + tool_outputs(
                views.take(count),
            )
        }),
{
    let ghost views = json::values_view(messages@);
    let ghost start = json::values_view(input@);
    let mut i: usize = 0;
    assert(start + tool_outputs(views.take(0)) =~= start);
    while i < messages.len()
        invariant
            i <= messages@.len(),
            views == json::values_view(messages@),
            start == json::values_view(old(input)@),
            forall|j: int| 0 <= j < i ==> names_call(#[trigger] views[j]),
            json::values_view(input@) == start + tool_outputs(views.take(i as int)),
        decreases messages@.len() - i,
    {
        let message = &messages[i];
        let ghost before = json::values_view(input@);
        assert(views[i as int] == message@);
        let call_id = str_or(message, "tool_call_id", "");
        let content = match message.get("content") {
            Some(content) => content.copy(),
            None => JsonValue::text(String::new().as_str()),
        };
        if call_id.as_str().is_empty() {
            proof {
                lemma_named_count(views, i as int);
                assert(views.skip(i as int)[0] == views[i as int]);
            }
            return false;
        }
        let output = JsonValue::empty_object().with(
            "type",
            JsonValue::text("function_call_output"),
        ).with("call_id", JsonValue::text(call_id.as_str())).with("output", content);
        input.push(output);
        proof {
            assert(json::values_view(input@) =~= before.push(output@));
            assert(tool_outputs(views.take(i + 1)) =~= tool_outputs(views.take(i as int)).push(
                tool_output(views[i as int]),
            ));
            assert(output@ == tool_output(views[i as int]));
            assert(before.push(output@) =~= start + tool_outputs(views.take(i + 1)));
        }
        i = i + 1;
    }
    proof {
        lemma_named_count(views, i as int);
        assert(views.skip(i as int).len() == 0);
    }
    true
}

/// Continues a request with a round of the model and with the answers to its
/// hosted calls, and says whether it could.
pub fn append_tool_outputs_to_responses_request(
    request: &mut JsonValue,
    response: &JsonValue,
    tool_messages: Vec<JsonValue>,
) -> (r: bool)
    requires
        old(request)@.is_object_or_null(),
    ensures
        r == can_continue(old(request)@, response@, json::values_view(tool_messages@)),
        final(request)@ == continuation(
            old(request)@,
            response@,
            json::values_view(tool_messages@),
        ),
{
    let ghost before = request@;
    if !normalize_responses_input_for_hosted_continuation(request) {
        return false;
    }
    let output = match response.array_field("output") {
        Some(output) => output,
        None => return false,
    };
    let mut input = match request.take_array_field("input") {
        Some(input) => input,
        None => return false,
    };
    replay_output(output, &tool_messages, &mut input);
    let named = push_tool_outputs(&tool_messages, &mut input);
    let ghost added = Json::Array(json::values_view(input@));
    request.set_field("input", JsonValue::array(input));
    proof {
        let first = Json::Array(input_items(before));
        assert(before is Object ==> before->Object_0.insert("input"@, first).insert("input"@, added)
            =~= before->Object_0.insert("input"@, added));
        assert(Map::<Seq<char>, Json>::empty().insert("input"@, first).insert("input"@, added)
            =~= Map::<Seq<char>, Json>::empty().insert("input"@, added));
    }
    if !named {
        return false;
    }
    request.set_field("stream", JsonValue::truth(false));
    true
}

// ---------------------------------------------------------------------------
// Chat

/// The message of the first choice of a Chat response.
pub open spec fn first_message(response: Json) -> Option<Json> {
    match response.items_field("choices"@) {
        Some(choices) => if choices.len() > 0 {
            choices[0].field("message"@)
        } else {
            None
        },
        None => None,
    }
}

/// The function that a tool call names.
pub open spec fn called_function(call: Json) -> Json {
    match call.field("function"@) {
        Some(function) => function,
        None => Json::Null,
    }
}

/// The hosted tool that a tool call asks for.
pub open spec fn called_kind(call: Json) -> Option<HostedToolCallKind> {
    hosted_tools::kind_of(text_or(called_function(call), "name"@, ""@))
}

/// A tool call at a place as a call of a hosted tool. One without an id gets one
/// from its place.
pub open spec fn chat_call(call: Json, index: nat) -> HostedCall {
    HostedCall {
        kind: called_kind(call)->0,
        id: match call.text_field("id"@) {
            Some(id) => if id.len() > 0 {
                id
            } else {
                "call_"@ + text::decimal(index)
            },
            None => "call_"@ + text::decimal(index),
        },
        arguments: text_or(called_function(call), "arguments"@, "{}"@),
    }
}

/// Whether some tool call asks for something else than a hosted tool.
pub open spec fn any_unsupported(calls: Seq<Json>) -> bool {
    exists|i: int| 0 <= i < calls.len() && called_kind(#[trigger] calls[i]) is None
}

/// The tool calls of a message.
pub open spec fn message_scan(message: Json) -> ChatScan {
    match message.items_field("tool_calls"@) {
        Some(calls) => if calls.len() == 0 {
            ChatScan::NoToolCalls
        } else if any_unsupported(calls) {
            ChatScan::ContainsUnsupportedToolCalls
        } else {
            ChatScan::OnlyHosted(Seq::new(calls.len(), |i: int| chat_call(calls[i], i as nat)))
        },
        None => match message.field("function_call"@) {
            Some(call) => {
                let name = text_or(call, "name"@, ""@);
                if name.len() == 0 {
                    ChatScan::NoToolCalls
                } else {
                    match hosted_tools::kind_of(name) {
                        Some(kind) => ChatScan::OnlyHosted(
                            seq![
                                HostedCall {
                                    kind,
                                    id: "call_0"@,
                                    arguments: text_or(call, "arguments"@, "{}"@),
                                },
                            ],
                        ),
                        None => ChatScan::ContainsUnsupportedToolCalls,
                    }
                }
            },
            None => ChatScan::NoToolCalls,
        },
    }
}

/// The tool calls of a Chat response.
pub open spec fn chat_scan(response: Json) -> ChatScan {
    match first_message(response) {
        Some(message) => message_scan(message),
        None => ChatScan::NoToolCalls,
    }
}

/// The message of the first choice of a Chat response.
pub fn first_choice_message(chat_response: &JsonValue) -> (r: Option<&JsonValue>)
    ensures
        match r {
            Some(message) => first_message(chat_response@) == Some(message@),
            None => first_message(chat_response@) is None,
        },
{
    match chat_response.array_field("choices") {
        Some(choices) => if choices.len() > 0 {
            assert(json::values_view(choices@)[0] == choices@[0]@);
            choices[0].get("message")
        } else {
            None
        },
        None => None,
    }
}

/// A tool call at a place as a call of a hosted tool, where it asks for one.
fn read_chat_call(call: &JsonValue, index: usize) -> (r: Option<HostedToolCall>)
    ensures
        match r {
            Some(found) => called_kind(call@) is Some && found@ == chat_call(call@, index as nat),
            None => called_kind(call@) is None,
        },
{
    let function = match call.get("function") {
        Some(function) => function.copy(),
        None => JsonValue::null(),
    };
    let name = str_or(&function, "name", "");
    let kind = match HostedToolCallKind::from_function_name(name.as_str()) {
        Some(kind) => kind,
        None => return None,
    };
    let given = match call.str_field("id") {
        Some(id) => if id.is_empty() {
            None
        } else {
            Some(id.to_owned())
        },
        None => None,
    };
    let id = match given {
        Some(id) => id,
        None => text::joined("call_", text::decimal_text(index as u128).as_str()),
    };
    Some(HostedToolCall { kind, id, arguments: str_or(&function, "arguments", "{}") })
}

/// The tool calls of a list, where all ask for hosted tools.
fn read_chat_calls(tool_calls: &Vec<JsonValue>) -> (r: Option<Vec<HostedToolCall>>)
    ensures
        ({
            let views = json::values_view(tool_calls@);
            match r {
                Some(calls) => !any_unsupported(views) && calls_view(calls@) == Seq::new(
                    views.len(),
                    |i: int| chat_call(views[i], i as nat),
                ),
                None => any_unsupported(views),
            }
        }),
{
    let ghost views = json::values_view(tool_calls@);
    let mut calls: Vec<HostedToolCall> = Vec::new();
    let mut index: usize = 0;
    while index < tool_calls.len()
        invariant
            index <= tool_calls@.len(),
            views == json::values_view(tool_calls@),
            calls@.len() == index,
            forall|j: int| 0 <= j < index ==> !(called_kind(#[trigger] views[j]) is None),
            forall|j: int|
                0 <= j < index ==> (#[trigger] calls@[j])@ == chat_call(views[j], j as nat),
        decreases tool_calls@.len() - index,
    {
        assert(views[index as int] == tool_calls@[index as int]@);
        match read_chat_call(&tool_calls[index], index) {
            Some(call) => {
                calls.push(call);
            },
            None => {
                assert(called_kind(views[index as int]) is None);
                return None;
            },
        }
        index = index + 1;
    }
    assert(calls_view(calls@) =~= Seq::new(views.len(), |i: int| chat_call(views[i], i as nat)));
    Some(calls)
}

/// Finds out whether a Chat response asks only for hosted tools that can be run
/// locally.
pub fn scan_hosted_tool_calls(chat_response: &JsonValue) -> (r: HostedToolCallScan)
    ensures
        r@ == chat_scan(chat_response@),
{
    let message = match first_choice_message(chat_response) {
        Some(message) => message,
        None => return HostedToolCallScan::NoToolCalls,
    };
    if let Some(tool_calls) = message.array_field("tool_calls") {
        if tool_calls.len() == 0 {
            return HostedToolCallScan::NoToolCalls;
        }
        return match read_chat_calls(tool_calls) {
            Some(calls) => HostedToolCallScan::OnlyHosted(calls),
            None => HostedToolCallScan::ContainsUnsupportedToolCalls,
        };
    }
    if let Some(function_call) = message.get("function_call") {
        let name = str_or(function_call, "name", "");
        if name.as_str().is_empty() {
            return HostedToolCallScan::NoToolCalls;
        }
        let kind = match HostedToolCallKind::from_function_name(name.as_str()) {
            Some(kind) => kind,
            None => return HostedToolCallScan::ContainsUnsupportedToolCalls,
        };
        let call = HostedToolCall {
            kind,
            id: "call_0".to_owned(),
            arguments: str_or(function_call, "arguments", "{}"),
        };
        let ghost said = call@;
        let mut calls: Vec<HostedToolCall> = Vec::new();
        calls.push(call);
        assert(calls_view(calls@) =~= seq![said]);
        return HostedToolCallScan::OnlyHosted(calls);
    }
    HostedToolCallScan::NoToolCalls
}

/// A Chat request with an assistant message and the answers to its calls, not
/// streaming.
pub open spec fn chat_continuation(
    request: Json,
    assistant: Json,
    messages: Seq<Json>,
    answers: Seq<Json>,
) -> Json {
    request.with("messages"@, Json::Array(messages.push(assistant) + answers)).with(
        "stream"@,
        Json::Bool(false),
    ).without("stream_options"@)
}

/// Adds the assistant message with its calls and the answers to them to a Chat
/// request, and says whether it could.
pub fn append_tool_outputs_to_chat_request(
    chat_request: &mut JsonValue,
    chat_response: &JsonValue,
    tool_messages: Vec<JsonValue>,
) -> (r: bool)
    ensures
        match (first_message(chat_response@), old(chat_request)@.items_field("messages"@)) {
            (Some(assistant), Some(messages)) => r && final(chat_request)@ == chat_continuation(
                old(chat_request)@,
                assistant,
                messages,
                json::values_view(tool_messages@),
            ),
            _ => !r && final(chat_request)@ == old(chat_request)@,
        },
        r ==> hosted_call_laws::answers_follow_the_call(
            old(chat_request)@,
            final(chat_request)@,
            first_message(chat_response@)->0,
            json::values_view(tool_messages@),
        ),
{
    proof {
        if let (Some(assistant), Some(messages)) = (
            first_message(chat_response@),
            chat_request@.items_field("messages"@),
        ) {
            hosted_call_laws::law_chat_answers_follow_the_call(
                chat_request@,
                assistant,
                messages,
                json::values_view(tool_messages@),
            );
        }
    }
    let assistant = match first_choice_message(chat_response) {
        Some(message) => message.copy(),
        None => return false,
    };
    let mut messages = match chat_request.take_array_field("messages") {
        Some(messages) => messages,
        None => return false,
    };
    let ghost before = json::values_view(messages@);
    let ghost answers = json::values_view(tool_messages@);
    let mut added = tool_messages;
    messages.push(assistant);
    messages.append(&mut added);
    assert(json::values_view(messages@) =~= before.push(assistant@) + answers);
    chat_request.set_field("messages", JsonValue::array(messages));
    chat_request.set_field("stream", JsonValue::truth(false));
    let _options = chat_request.drop_field("stream_options");
    true
}

// ---------------------------------------------------------------------------
// Answers

/// The message that answers a call.
pub open spec fn tool_message(id: Seq<char>, content: Seq<char>) -> Json {
    Json::empty_object().with("role"@, Json::Text("tool"@)).with(
        "tool_call_id"@,
        Json::Text(id),
    ).with("content"@, Json::Text(content))
}

/// The content of an answer that reports an error.
pub open spec fn error_content(message: Seq<char>) -> Seq<char> {
    data_text::json_rendered(Json::empty_object().with("error"@, Json::Text(message)))
}

/// The message that answers a call.
fn make_tool_message(id: &str, content: &str) -> (r: JsonValue)
    ensures
        r@ == tool_message(id@, content@),
{
    JsonValue::empty_object().with("role", JsonValue::text("tool")).with(
        "tool_call_id",
        JsonValue::text(id),
    ).with("content", JsonValue::text(content))
}

/// The messages that answer all calls with the same error.
pub fn hosted_tool_error_messages(calls: &Vec<HostedToolCall>, message: &str) -> (r: Vec<JsonValue>)
    ensures
        json::values_view(r@) == Seq::new(
            calls@.len(),
            |i: int| tool_message(calls@[i].id@, error_content(message@)),
        ),
        r@.len() == calls@.len(),
        forall|i: int|
            0 <= i < calls@.len() ==> hosted_call_laws::answers_call(
                #[trigger] r@[i]@,
                calls@[i].id@,
            ),
{
    let mut messages: Vec<JsonValue> = Vec::new();
    let mut i: usize = 0;
    while i < calls.len()
        invariant
            i <= calls@.len(),
            messages@.len() == i,
            forall|j: int|
                0 <= j < i ==> (#[trigger] messages@[j])@ == tool_message(
                    calls@[j].id@,
                    error_content(message@),
                ),
        decreases calls@.len() - i,
    {
        let content = data_text::json_to_string(
            &JsonValue::empty_object().with("error", JsonValue::text(message)),
        );
        messages.push(make_tool_message(calls[i].id.as_str(), content.as_str()));
        i = i + 1;
    }
    assert(json::values_view(messages@) =~= Seq::new(
        calls@.len(),
        |i: int| tool_message(calls@[i].id@, error_content(message@)),
    ));
    proof {
        assert forall|i: int| 0 <= i < calls@.len() implies hosted_call_laws::answers_call(
            #[trigger] messages@[i]@,
            calls@[i].id@,
        ) by {
            hosted_call_laws::law_answer_names_its_call(calls@[i].id@, error_content(message@));
        }
    }
    messages
}

/// The messages that answer calls, each with the content found for it.
pub fn hosted_tool_messages(calls: &Vec<HostedToolCall>, contents: &Vec<String>) -> (r: Vec<
    JsonValue,
>)
    requires
        calls@.len() == contents@.len(),
    ensures
        json::values_view(r@) == Seq::new(
            calls@.len(),
            |i: int| tool_message(calls@[i].id@, contents@[i]@),
        ),
        r@.len() == calls@.len(),
        forall|i: int|
            0 <= i < calls@.len() ==> {
                &&& hosted_call_laws::answers_call(#[trigger] r@[i]@, calls@[i].id@)
                &&& r@[i]@.text_field("content"@) == Some(contents@[i]@)
            },
{
    let mut messages: Vec<JsonValue> = Vec::new();
    let mut i: usize = 0;
    while i < calls.len()
        invariant
            i <= calls@.len() == contents@.len(),
            messages@.len() == i,
            forall|j: int|
                0 <= j < i ==> (#[trigger] messages@[j])@ == tool_message(
                    calls@[j].id@,
                    contents@[j]@,
                ),
        decreases calls@.len() - i,
    {
        messages.push(make_tool_message(calls[i].id.as_str(), contents[i].as_str()));
        i = i + 1;
    }
    assert(json::values_view(messages@) =~= Seq::new(
        calls@.len(),
        |i: int| tool_message(calls@[i].id@, contents@[i]@),
    ));
    proof {
        assert forall|i: int| 0 <= i < calls@.len() implies {
            &&& hosted_call_laws::answers_call(#[trigger] messages@[i]@, calls@[i].id@)
            &&& messages@[i]@.text_field("content"@) == Some(contents@[i]@)
        } by {
            hosted_call_laws::law_answer_names_its_call(calls@[i].id@, contents@[i]@);
        }
    }
    messages
}

/// An error text in one line of at most 500 characters, with dots where more
/// was cut off.
pub open spec fn safe_message(message: Seq<char>) -> Seq<char> {
    let line = text::join_texts(text::words(message), " "@);
    if line.len() <= 500 {
        line
    } else {
        line.take(500) + "..."@
    }
}

/// Cuts an error text so that neither long answers nor the context of the
/// upstream go back to the model.
pub fn safe_error_message(message: &str) -> (r: String)
    ensures
        r@ == safe_message(message@),
{
    let normalized = text::single_spaced(message);
    if text::char_count(normalized.as_str()) <= 500 {
        return normalized;
    }
    let mut truncated = text::first_chars(normalized.as_str(), 500);
    truncated.append("...");
    truncated
}

/// What is to be done about a call of a hosted tool.
#[derive(Debug, PartialEq, Eq)]
pub enum HostedToolPlan {
    /// The tool is not configured: answer with this error, for the arguments as
    /// they were given, and record nothing.
    Unconfigured { message: String },
    /// Ask the upstream.
    Run,
    /// Answer with this error, and record it under this status.
    Refuse { status: String, message: String },
}

/// What a [`HostedToolPlan`] says.
pub enum Plan {
    Unconfigured(Seq<char>),
    Run,
    Refuse(Seq<char>, Seq<char>),
}

impl View for HostedToolPlan {
    type V = Plan;

    open spec fn view(&self) -> Plan {
        match *self {
            HostedToolPlan::Unconfigured { message } => Plan::Unconfigured(message@),
            HostedToolPlan::Run => Plan::Run,
            HostedToolPlan::Refuse { status, message } => Plan::Refuse(status@, message@),
        }
    }
}

/// What is to be done about a call. `subject` is the query or the prompt, where
/// the tool is configured; `client_error` says why there is no upstream to ask.
pub open spec fn plan(
    kind: HostedToolCallKind,
    subject: Option<Seq<char>>,
    client_error: Option<Seq<char>>,
) -> Plan {
    match subject {
        None => Plan::Unconfigured(
            match kind {
                HostedToolCallKind::WebSearch => "web_search hosted tool is not configured for this request"@,
                HostedToolCallKind::ImageGeneration => "image_generation hosted tool is not configured for this request"@,
            },
        ),
        Some(subject) => match client_error {
            Some(error) => Plan::Refuse("not_configured"@, safe_message(error)),
            None => if text::trimmed(subject).len() > 0 {
                Plan::Run
            } else {
                Plan::Refuse(
                    "invalid"@,
                    match kind {
                        HostedToolCallKind::WebSearch => "web_search query is empty"@,
                        HostedToolCallKind::ImageGeneration => "image_generation prompt is empty"@,
                    },
                )
            },
        },
    }
}

/// Decides what is to be done about a call of a hosted tool.
pub fn plan_hosted_tool_call(
    kind: HostedToolCallKind,
    subject: Option<&str>,
    client_error: Option<&str>,
) -> (r: HostedToolPlan)
    ensures
        r@ == plan(kind, text::opt_str_view(subject), text::opt_str_view(client_error)),
{
    let subject = match subject {
        Some(subject) => subject,
        None => {
            let message = match kind {
                HostedToolCallKind::WebSearch => "web_search hosted tool is not configured for this request",
                HostedToolCallKind::ImageGeneration => "image_generation hosted tool is not configured for this request",
            };
            return HostedToolPlan::Unconfigured { message: message.to_owned() };
        },
    };
    if let Some(error) = client_error {
        return HostedToolPlan::Refuse {
            status: "not_configured".to_owned(),
            message: safe_error_message(error),
        };
    }
    if !text::trim(subject).as_str().is_empty() {
        return HostedToolPlan::Run;
    }
    let message = match kind {
        HostedToolCallKind::WebSearch => "web_search query is empty",
        HostedToolCallKind::ImageGeneration => "image_generation prompt is empty",
    };
    HostedToolPlan::Refuse { status: "invalid".to_owned(), message: message.to_owned() }
}

/// The status to record of a call that was run, and the error to answer with.
pub open spec fn conclusion(error: Option<Seq<char>>) -> (Seq<char>, Option<Seq<char>>) {
    match error {
        Some(e) => ("error"@, Some(safe_message(e))),
        None => ("ok"@, None),
    }
}

/// What came of asking the upstream: the status to record, and the error to
/// answer with, where it failed.
pub fn conclude_hosted_tool_call(error: Option<&str>) -> (r: (String, Option<String>))
    ensures
        match text::opt_str_view(error) {
            Some(e) => r.0@ == "error"@ && text::opt_view(r.1) == Some(safe_message(e)),
            None => r.0@ == "ok"@ && r.1 is None,
        },
        (r.0@, text::opt_view(r.1)) == conclusion(text::opt_str_view(error)),
{
    match error {
        Some(error) => ("error".to_owned(), Some(safe_error_message(error))),
        None => ("ok".to_owned(), None),
    }
}

// ---------------------------------------------------------------------------
// Records

/// An event to be recorded, without the content of queries.
#[derive(Debug, PartialEq, Eq)]
pub struct HostedToolEvent {
    pub name: String,
    pub fields: Vec<(String, String)>,
}

/// The fields of an event.
pub open spec fn event_fields(fields: Seq<(String, String)>) -> Seq<(Seq<char>, Seq<char>)> {
    fields.map_values(|field: (String, String)| (field.0@, field.1@))
}

/// A field of an event.
fn event_field(name: &str, value: &str) -> (r: (String, String))
    ensures
        r.0@ == name@,
        r.1@ == value@,
{
    (name.to_owned(), value.to_owned())
}

/// The event of a call of a hosted tool, where the request is traced.
pub fn log_hosted_tool_event(
    trace_id: Option<&str>,
    tool: &str,
    query_hash: &str,
    status: &str,
    elapsed_ms: u128,
    error: Option<&str>,
) -> (r: Option<HostedToolEvent>)
    ensures
        match text::opt_str_view(trace_id) {
            None => r is None,
            Some(trace) => r matches Some(event) && event.name@ == "hosted_tool_call"@
                && event_fields(event.fields@) == seq![
                ("trace"@, trace),
                ("tool"@, tool@),
                ("query_hash"@, query_hash@),
                ("status"@, status@),
                ("elapsed_ms"@, text::decimal(elapsed_ms as nat)),
            ] + match text::opt_str_view(error) {
                Some(e) => seq![("error"@, e)],
                None => Seq::empty(),
            },
        },
{
    let trace = match trace_id {
        Some(trace) => trace,
        None => return None,
    };
    let mut fields: Vec<(String, String)> = Vec::new();
    fields.push(event_field("trace", trace));
    fields.push(event_field("tool", tool));
    fields.push(event_field("query_hash", query_hash));
    fields.push(event_field("status", status));
    fields.push(event_field("elapsed_ms", text::decimal_text(elapsed_ms).as_str()));
    let ghost common = seq![
        ("trace"@, trace@),
        ("tool"@, tool@),
        ("query_hash"@, query_hash@),
        ("status"@, status@),
        ("elapsed_ms"@, text::decimal(elapsed_ms as nat)),
    ];
    assert(event_fields(fields@) =~= common);
    match error {
        Some(error) => {
            fields.push(event_field("error", error));
            assert(event_fields(fields@) =~= common + seq![("error"@, error@)]);
        },
        None => {
            assert(common + Seq::empty() =~= common);
        },
    }
    Some(HostedToolEvent { name: "hosted_tool_call".to_owned(), fields })
}

/// The event of a hosted tool that was asked for and projected, but that the
/// upstream did not call, where the request is traced.
pub fn log_hosted_tool_not_called(
    trace_id: Option<&str>,
    session: &str,
    model: &str,
    provider: &str,
    tool: &str,
    streaming: bool,
) -> (r: Option<HostedToolEvent>)
    ensures
        match text::opt_str_view(trace_id) {
            None => r is None,
            Some(trace) => r matches Some(event) && event.name@ == "hosted_tool_not_called"@
                && event_fields(event.fields@) == seq![
                ("trace"@, trace),
                ("session"@, session@),
                ("model"@, model@),
                ("provider"@, provider@),
                ("tool"@, tool@),
                ("status"@, "not_called"@),
                ("reason"@, "upstream_returned_success_without_hosted_tool_call"@),
                (
                    "streaming"@,
                    if streaming {
                        "true"@
                    } else {
                        "false"@
                    },
                ),
            ],
        },
{
    let trace = match trace_id {
        Some(trace) => trace,
        None => return None,
    };
    let mut fields: Vec<(String, String)> = Vec::new();
    fields.push(event_field("trace", trace));
    fields.push(event_field("session", session));
    fields.push(event_field("model", model));
    fields.push(event_field("provider", provider));
    fields.push(event_field("tool", tool));
    fields.push(event_field("status", "not_called"));
    fields.push(event_field("reason", "upstream_returned_success_without_hosted_tool_call"));
    fields.push(
        event_field(
            "streaming",
            if streaming {
                "true"
            } else {
                "false"
            },
        ),
    );
    Some(HostedToolEvent { name: "hosted_tool_not_called".to_owned(), fields })
}

// ---------------------------------------------------------------------------
// Laws

/// Where a response is found to ask only for hosted tools, no call in it belongs
/// to the client, there is a call, and every call has an id.
pub proof fn law_local_continuation_owns_every_call(
    output: Seq<Json>,
    config: HostedToolLoopConfig,
    calls: Seq<HostedCall>,
)
    requires
        responses_scan(output, config) == ResponsesScan::OnlyHosted(calls),
    ensures
        calls.len() > 0,
        calls == hosted_calls(output, config),
        forall|i: int| 0 <= i < calls.len() ==> (#[trigger] calls[i]).id.len() > 0,
        forall|i: int|
            0 <= i < output.len() ==> !(item_kind(#[trigger] output[i], config) is ClientCall),
{
}

/// The empty name is no hosted function.
proof fn lemma_empty_name()
    ensures
        hosted_tools::kind_of(""@) is None,
{
    reveal_strlit("");
    reveal_strlit("web_search");
    reveal_strlit("generate_image");
    assert(""@.len() == 0);
    assert("web_search"@.len() == 10);
    assert("generate_image"@.len() == 14);
}

/// Without items that name hosted functions there are no hosted calls.
proof fn lemma_no_hosted_calls(output: Seq<Json>, config: HostedToolLoopConfig)
    requires
        forall|i: int|
            0 <= i < output.len() ==> !hosted_tools::names_hosted(
                #[trigger] output[i],
                "function_call"@,
                config,
            ),
    ensures
        hosted_calls(output, config).len() == 0,
    decreases output.len(),
{
    lemma_empty_name();
    if output.len() > 0 {
        assert(!hosted_tools::names_hosted(output[output.len() - 1], "function_call"@, config));
        lemma_no_hosted_calls(output.drop_last(), config);
    }
}

/// After the hosted calls were dropped from a response, it holds calls of the
/// client or none.
pub proof fn law_dropped_calls_are_not_found_again(
    output: Seq<Json>,
    config: HostedToolLoopConfig,
)
    ensures
        ({
            let kept = hosted_tools::without_hosted(output, "function_call"@, config);
            responses_scan(kept, config) == if any_client_call(kept, config) {
                ResponsesScan::OnlyClientToolCalls
            } else {
                ResponsesScan::NoToolCalls
            }
        }),
{
    let kept = hosted_tools::without_hosted(output, "function_call"@, config);
    hosted_tools::law_no_hosted_call_is_left(output, config);
    lemma_no_hosted_calls(kept, config);
}

/// Whether an item played back to the model is reasoning, a message, or a call
/// that is answered, with its call id.
pub open spec fn is_fit_to_replay(item: Json, answered: Set<Seq<char>>) -> bool {
    ||| item.text_field("type"@) == Some("reasoning"@)
    ||| item.text_field("type"@) == Some("message"@)
    ||| item.text_field("type"@) == Some("function_call"@) && (item.text_field("call_id"@) matches Some(
        id,
    ) && answered.contains(id))
}

/// Only reasoning, messages and answered calls are played back to the model:
/// calls of the client stay out.
pub proof fn law_only_answered_calls_are_replayed(output: Seq<Json>, messages: Seq<Json>)
    ensures
        forall|i: int|
            0 <= i < replayed(output, answered_ids(messages)).len() ==> is_fit_to_replay(
                #[trigger] replayed(output, answered_ids(messages))[i],
                answered_ids(messages),
            ),
    decreases output.len(),
{
    reveal_strlit("call_id");
    reveal_strlit("type");
    assert("call_id"@.len() == 7);
    assert("type"@.len() == 4);
    if output.len() > 0 {
        law_only_answered_calls_are_replayed(output.drop_last(), messages);
        let answered = answered_ids(messages);
        let before = replayed(output.drop_last(), answered);
        let all = replayed(output, answered);
        let item = output.last();
        assert forall|i: int| 0 <= i < all.len() implies is_fit_to_replay(
            #[trigger] all[i],
            answered,
        ) by {
            if i < before.len() {
                assert(all[i] == before[i]);
            } else {
                let next = replayed_item(item, answered)->0;
                assert(all[i] == next);
                if item.text_field("type"@) == Some("function_call"@) && next != item {
                    assert(next.text_field("call_id"@) == call_id_of(item));
                    assert(next.text_field("type"@) == item.text_field("type"@));
                }
            }
        }
    }
}

/// The answers to calls.
pub open spec fn answers(calls: Seq<HostedCall>, contents: Seq<Seq<char>>) -> Seq<Json> {
    Seq::new(calls.len(), |i: int| tool_message(calls[i].id, contents[i]))
}

/// A tool message names the call that it answers.
proof fn lemma_tool_message(id: Seq<char>, content: Seq<char>)
    ensures
        tool_message(id, content).text_field("tool_call_id"@) == Some(id),
{
    reveal_strlit("tool_call_id");
    reveal_strlit("content");
    assert("tool_call_id"@.len() == 12);
    assert("content"@.len() == 7);
}

/// A response that asks only for hosted tools can always be continued with the
/// answers to its calls, and every one of the calls is answered in the request.
pub proof fn law_answered_response_can_be_continued(
    request: Json,
    response: Json,
    config: HostedToolLoopConfig,
    calls: Seq<HostedCall>,
    contents: Seq<Seq<char>>,
)
    requires
        is_continuable(request),
        response.items_field("output"@) is Some,
        responses_scan(response.items_field("output"@)->0, config) == ResponsesScan::OnlyHosted(
            calls,
        ),
        contents.len() == calls.len(),
    ensures
        can_continue(request, response, answers(calls, contents)),
        forall|i: int|
            0 <= i < calls.len() ==> answered_ids(answers(calls, contents)).contains(
                (#[trigger] calls[i]).id,
            ),
{
    let messages = answers(calls, contents);
    assert forall|i: int| 0 <= i < messages.len() implies names_call(#[trigger] messages[i]) by {
        assert(calls[i].id.len() > 0);
        lemma_tool_message(calls[i].id, contents[i]);
    }
    lemma_named_count(messages, messages.len() as int);
    assert forall|i: int| 0 <= i < calls.len() implies answered_ids(messages).contains(
        (#[trigger] calls[i]).id,
    ) by {
        lemma_tool_message(calls[i].id, contents[i]);
        assert(messages[i].text_field("tool_call_id"@) == Some(calls[i].id));
    }
}

/// A continued request does not stream: neither a Responses request nor a Chat
/// request, which asks for no stream options either.
pub proof fn law_continuation_does_not_stream(
    request: Json,
    response: Json,
    messages: Seq<Json>,
    assistant: Json,
    chat_messages: Seq<Json>,
)
    requires
        request.is_object_or_null(),
    ensures
        can_continue(request, response, messages) ==> continuation(
            request,
            response,
            messages,
        ).field("stream"@) == Some(Json::Bool(false)),
        request is Object ==> {
            let next = chat_continuation(request, assistant, chat_messages, messages);
            next.field("stream"@) == Some(Json::Bool(false)) && next.field("stream_options"@)
                is None
        },
{
    reveal_strlit("stream");
    reveal_strlit("stream_options");
    assert("stream"@.len() == 6);
    assert("stream_options"@.len() == 14);
}

/// An error text that goes back to the model is at most 503 characters long.
pub proof fn law_error_text_is_short(message: Seq<char>)
    ensures
        safe_message(message).len() <= 503,
{
    reveal_strlit("...");
    assert("..."@.len() == 3);
}

/// An error text that was cut is not cut any further.
pub proof fn law_cut_twice_is_cut_once(message: Seq<char>)
    ensures
        safe_message(safe_message(message)) == safe_message(message),
{
    reveal_strlit("...");
    let line = text::join_texts(text::words(message), " "@);
    let cut = safe_message(message);
    text::lemma_single_spaced(message);
    if line.len() > 500 {
        assert("..."@.len() == 3);
        assert(text::is_single_spaced(cut)) by {
            assert(cut[0] == line[0]);
            assert(cut.last() == '.');
            assert forall|i: int| 0 <= i < cut.len() && text::is_white_space(
                #[trigger] cut[i],
            ) implies cut[i] == ' ' && !text::is_white_space(cut[i + 1]) by {
                if i < 500 {
                    assert(cut[i] == line[i]);
                    if i + 1 < 500 {
                        assert(cut[i + 1] == line[i + 1]);
                    } else {
                        assert(cut[i + 1] == '.');
                    }
                } else {
                    assert(cut[i] == '.');
                }
            }
        }
    }
    text::lemma_single_spaced_stays(cut);
    if line.len() > 500 {
        assert(cut.take(500) =~= line.take(500));
    }
}

} // verus!
