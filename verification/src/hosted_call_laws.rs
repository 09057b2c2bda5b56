//! Laws on the calls of hosted tools: which calls of a response are found, what a
//! continued request holds and in which order, and what an answer says.

use crate::data_text;
use crate::hosted_tool_calls;
use crate::hosted_tool_calls::{ChatScan, HostedCall, Plan, ResponsesScan};
use crate::hosted_tools::{HostedToolCallKind, HostedToolLoopConfig};
use crate::json::Json;
use crate::listing;
use crate::text;
use vstd::prelude::*;

verus! {

// ---------------------------------------------------------------------------
// Chat

/// Whether a Chat request was continued with the message of the assistant and the answers
/// to it: it holds the messages that it held before, then the message of the assistant,
/// then the answers, each as it was given. It does not stream, and nothing else in it
/// is different.
pub open spec fn answers_follow_the_call(
    before: Json,
    after: Json,
    assistant: Json,
    answers: Seq<Json>,
) -> bool {
    &&& before.items_field("messages"@) matches Some(messages)
    &&& after.items_field("messages"@) matches Some(all)
    &&& all.len() == messages.len() + 1 + answers.len()
    &&& forall|i: int| 0 <= i < messages.len() ==> all[i] == #[trigger] messages[i]
    &&& all[messages.len() as int] == assistant
    &&& forall|i: int|
        0 <= i < answers.len() ==> all[messages.len() + 1 + i] == #[trigger] answers[i]
    &&& after.field("stream"@) == Some(Json::Bool(false))
    &&& after.field("stream_options"@) is None
    &&& forall|k: Seq<char>|
        k != "messages"@ && k != "stream"@ && k != "stream_options"@ ==> (#[trigger] after.field(
            k,
        )) == before.field(k)
}

/// The answers stand behind the message that asked for them in a continued Chat request.
pub proof fn law_chat_answers_follow_the_call(
    request: Json,
    assistant: Json,
    messages: Seq<Json>,
    answers: Seq<Json>,
)
    requires
        request.items_field("messages"@) == Some(messages),
    ensures
        answers_follow_the_call(
            request,
            hosted_tool_calls::chat_continuation(request, assistant, messages, answers),
            assistant,
            answers,
        ),
{
    reveal_strlit("messages");
    reveal_strlit("stream");
    reveal_strlit("stream_options");
    assert("messages"@.len() == 8);
    assert("stream"@.len() == 6);
    assert("stream_options"@.len() == 14);
    let next = hosted_tool_calls::chat_continuation(request, assistant, messages, answers);
    let all = messages.push(assistant) + answers;
    assert(next.items_field("messages"@) == Some(all));
    assert forall|i: int| 0 <= i < answers.len() implies all[messages.len() + 1 + i]
        == #[trigger] answers[i] by {}
}

/// The message that counts in a Chat response is that of its first choice; a
/// response without choices has none.
pub proof fn law_first_choice_counts(response: Json)
    ensures
        match response.field("choices"@) {
            Some(Json::Array(choices)) if choices.len() > 0 => hosted_tool_calls::first_message(
                response,
            ) == choices[0].field("message"@),
            _ => hosted_tool_calls::first_message(response) is None,
        },
{
}

/// A Chat response calls what the message of its first choice calls, and nothing without
/// such a message.
pub proof fn law_chat_response_calls_what_its_message_calls(response: Json)
    ensures
        match hosted_tool_calls::first_message(response) {
            Some(message) => hosted_tool_calls::chat_scan(response)
                == hosted_tool_calls::message_scan(message),
            None => hosted_tool_calls::chat_scan(response) is NoToolCalls,
        },
{
}

/// Whether a name is that of a hosted tool of this kind.
pub open spec fn is_name_of(name: Seq<char>, kind: HostedToolCallKind) -> bool {
    match kind {
        HostedToolCallKind::WebSearch => name == "web_search"@,
        HostedToolCallKind::ImageGeneration => name == "generate_image"@,
    }
}

/// Whether a name is that of a hosted tool.
pub open spec fn is_hosted_name(name: Seq<char>) -> bool {
    name == "web_search"@ || name == "generate_image"@
}

/// The names of the two hosted tools differ, and neither is empty.
proof fn lemma_hosted_names()
    ensures
        "web_search"@.len() == 10,
        "generate_image"@.len() == 14,
        ""@.len() == 0,
        !is_hosted_name(""@),
{
    reveal_strlit("web_search");
    reveal_strlit("generate_image");
    reveal_strlit("");
}

/// Whether the function of a Chat call has this name.
pub open spec fn calls_by_name(call: Json, name: Seq<char>) -> bool {
    call.field("function"@) matches Some(function) && function.text_field("name"@) == Some(name)
}

/// Whether a Chat call calls a hosted tool.
pub open spec fn is_hosted_chat_call(call: Json) -> bool {
    calls_by_name(call, "web_search"@) || calls_by_name(call, "generate_image"@)
}

/// Whether a call that was found is this Chat call: its kind goes with the name of
/// the function, its id is that of the call, or one made of its place where it has
/// none, and its arguments are those of the function, or an empty object where it
/// has none.
pub open spec fn finds_chat_call(found: HostedCall, call: Json, place: nat) -> bool {
    &&& call.field("function"@) matches Some(function) && {
        &&& function.text_field("name"@) matches Some(name) && is_name_of(name, found.kind)
        &&& match function.text_field("arguments"@) {
            Some(arguments) => found.arguments == arguments,
            None => found.arguments == "{}"@,
        }
    }
    &&& match call.text_field("id"@) {
        Some(id) if id.len() > 0 => found.id == id,
        _ => found.id == "call_"@ + text::decimal(place),
    }
}

/// A Chat message that calls tools is answered locally exactly where each of its
/// calls is one of a hosted tool, and then every call is found, in order; where one
/// of them is not, none is taken. A message without calls calls nothing.
pub proof fn law_chat_calls_are_found_in_order(message: Json, calls: Seq<Json>)
    requires
        message.items_field("tool_calls"@) == Some(calls),
    ensures
        calls.len() == 0 ==> hosted_tool_calls::message_scan(message) is NoToolCalls,
        calls.len() > 0 && (exists|i: int|
            0 <= i < calls.len() && !is_hosted_chat_call(#[trigger] calls[i]))
            ==> hosted_tool_calls::message_scan(message) is ContainsUnsupportedToolCalls,
        calls.len() > 0 && (forall|i: int|
            0 <= i < calls.len() ==> is_hosted_chat_call(#[trigger] calls[i])) ==> {
            &&& hosted_tool_calls::message_scan(message) matches ChatScan::OnlyHosted(found)
            &&& found.len() == calls.len()
            &&& forall|i: int|
                0 <= i < calls.len() ==> finds_chat_call(
                    #[trigger] found[i],
                    calls[i],
                    i as nat,
                )
        },
{
    lemma_hosted_names();
    assert forall|i: int| 0 <= i < calls.len() implies (is_hosted_chat_call(#[trigger] calls[i])
        <==> hosted_tool_calls::called_kind(calls[i]) is Some) by {}
    if calls.len() > 0 && (forall|i: int|
        0 <= i < calls.len() ==> is_hosted_chat_call(#[trigger] calls[i])) {
        assert(!hosted_tool_calls::any_unsupported(calls));
    }
    if exists|i: int| 0 <= i < calls.len() && !is_hosted_chat_call(#[trigger] calls[i]) {
        let i: int = choose|i: int|
            0 <= i < calls.len() && !is_hosted_chat_call(#[trigger] calls[i]);
        assert(hosted_tool_calls::called_kind(calls[i]) is None);
        assert(hosted_tool_calls::any_unsupported(calls));
    }
}

/// A Chat message with a call in the older form is answered locally exactly where
/// that call names a hosted tool.
pub proof fn law_older_chat_call_is_found(message: Json)
    requires
        message.items_field("tool_calls"@) is None,
    ensures
        match message.field("function_call"@) {
            None => hosted_tool_calls::message_scan(message) is NoToolCalls,
            Some(call) => match call.text_field("name"@) {
                Some(name) if name.len() > 0 => if is_hosted_name(name) {
                    &&& hosted_tool_calls::message_scan(message) matches ChatScan::OnlyHosted(found)
                    &&& found.len() == 1
                    &&& is_name_of(name, found[0].kind)
                    &&& found[0].id == "call_0"@
                    &&& match call.text_field("arguments"@) {
                        Some(arguments) => found[0].arguments == arguments,
                        None => found[0].arguments == "{}"@,
                    }
                } else {
                    hosted_tool_calls::message_scan(message) is ContainsUnsupportedToolCalls
                },
                _ => hosted_tool_calls::message_scan(message) is NoToolCalls,
            },
        },
{
    lemma_hosted_names();
}

// ---------------------------------------------------------------------------
// Responses

/// Whether an item calls a hosted tool of this kind that is run locally.
pub open spec fn calls_tool(
    item: Json,
    config: HostedToolLoopConfig,
    kind: HostedToolCallKind,
) -> bool {
    &&& item.text_field("type"@) == Some("function_call"@)
    &&& item.text_field("name"@) matches Some(name) && is_name_of(name, kind)
    &&& match kind {
        HostedToolCallKind::WebSearch => config.web_search is Some,
        HostedToolCallKind::ImageGeneration => config.image_generation is Some,
    }
}

/// Whether an item calls a hosted tool that is run locally.
pub open spec fn is_hosted_item(item: Json, config: HostedToolLoopConfig) -> bool {
    calls_tool(item, config, HostedToolCallKind::WebSearch) || calls_tool(
        item,
        config,
        HostedToolCallKind::ImageGeneration,
    )
}

/// Whether an item is a call that the client has to answer: any call but one of a
/// hosted tool that is run locally.
pub open spec fn is_client_item(item: Json, config: HostedToolLoopConfig) -> bool {
    &&& item.text_field("type"@) matches Some(kind) && "_call"@.is_suffix_of(kind)
    &&& !is_hosted_item(item, config)
}

/// Whether an item goes by this id: its call id, or its own id where it has no call
/// id.
pub open spec fn goes_by(item: Json, id: Seq<char>) -> bool {
    match item.text_field("call_id"@) {
        Some(given) if given.len() > 0 => id == given,
        _ => item.text_field("id"@) == Some(id),
    }
}

/// Whether an item goes by some id that is not empty.
pub open spec fn has_an_id(item: Json) -> bool {
    match item.text_field("call_id"@) {
        Some(given) if given.len() > 0 => true,
        _ => item.text_field("id"@) matches Some(id) && id.len() > 0,
    }
}

/// Whether a call that was found is the one of this item: its kind goes with the
/// name, it goes by the id of the item, and its arguments are those of the item, or
/// an empty object where it has none.
pub open spec fn finds_item(item: Json, found: HostedCall, config: HostedToolLoopConfig) -> bool {
    &&& calls_tool(item, config, found.kind)
    &&& goes_by(item, found.id)
    &&& match item.text_field("arguments"@) {
        Some(arguments) => found.arguments == arguments,
        None => found.arguments == "{}"@,
    }
}

/// A call of a function ends as every call does.
proof fn lemma_call_suffix()
    ensures
        "_call"@.is_suffix_of("function_call"@),
{
    reveal_strlit("_call");
    reveal_strlit("function_call");
    assert("function_call"@.subrange(8, 13) =~= "_call"@);
}

/// What an item is, in terms of the item alone.
proof fn lemma_item_kind(item: Json, config: HostedToolLoopConfig)
    ensures
        hosted_tool_calls::item_kind(item, config) is HostedCall <==> is_hosted_item(item, config),
        hosted_tool_calls::item_kind(item, config) is ClientCall <==> is_client_item(item, config),
        hosted_tool_calls::item_kind(item, config) matches hosted_tool_calls::ItemKind::HostedCall(
            call,
        ) ==> {
            &&& call.id.len() > 0 <==> has_an_id(item)
            &&& call.id.len() > 0 ==> finds_item(item, call, config)
        },
{
    lemma_hosted_names();
    lemma_call_suffix();
}

/// The calls of hosted tools are found in order, one for each item that is such a
/// call.
proof fn lemma_hosted_calls_are_listed(output: Seq<Json>, config: HostedToolLoopConfig)
    ensures
        listing::lists_kept(
            output,
            hosted_tool_calls::hosted_calls(output, config),
            |item: Json| is_hosted_item(item, config),
            |item: Json, call: HostedCall|
                (call.id.len() > 0 <==> has_an_id(item)) && (call.id.len() > 0 ==> finds_item(
                    item,
                    call,
                    config,
                )),
        ),
    decreases output.len(),
{
    let keep = |item: Json| is_hosted_item(item, config);
    let fits = |item: Json, call: HostedCall|
        (call.id.len() > 0 <==> has_an_id(item)) && (call.id.len() > 0 ==> finds_item(
            item,
            call,
            config,
        ));
    let calls = hosted_tool_calls::hosted_calls(output, config);
    if output.len() == 0 {
        listing::lemma_lists_nothing(output, calls, keep, fits);
    } else {
        lemma_hosted_calls_are_listed(output.drop_last(), config);
        let before = hosted_tool_calls::hosted_calls(output.drop_last(), config);
        lemma_item_kind(output.last(), config);
        if keep(output.last()) {
            assert(calls.take(before.len() as int) =~= before);
        }
        listing::lemma_lists_last(output, before, calls, keep, fits);
    }
}

/// What a response is found to ask for follows from its items: whether some of them
/// call hosted tools that are run locally, whether some are calls of the client, and
/// whether a hosted call has no id. Where only hosted tools are called, there is one
/// call for each such item, in order, with its kind, id and arguments.
pub proof fn law_hosted_calls_are_found_in_order(output: Seq<Json>, config: HostedToolLoopConfig)
    ensures
        ({
            let hosted = exists|i: int|
                0 <= i < output.len() && is_hosted_item(#[trigger] output[i], config);
            let client = exists|i: int|
                0 <= i < output.len() && is_client_item(#[trigger] output[i], config);
            let nameless = exists|i: int|
                0 <= i < output.len() && is_hosted_item(#[trigger] output[i], config) && !has_an_id(
                    output[i],
                );
            match hosted_tool_calls::responses_scan(output, config) {
                ResponsesScan::InvalidHostedToolCall => nameless,
                ResponsesScan::MixedHostedAndClientToolCalls => !nameless && hosted && client,
                ResponsesScan::OnlyClientToolCalls => !hosted && client,
                ResponsesScan::NoToolCalls => !hosted && !client,
                ResponsesScan::OnlyHosted(calls) => !nameless && hosted && !client
                    && listing::lists_kept(
                    output,
                    calls,
                    |item: Json| is_hosted_item(item, config),
                    |item: Json, call: HostedCall| finds_item(item, call, config),
                ),
            }
        }),
{
    let calls = hosted_tool_calls::hosted_calls(output, config);
    let keep = |item: Json| is_hosted_item(item, config);
    let fits = |item: Json, call: HostedCall|
        (call.id.len() > 0 <==> has_an_id(item)) && (call.id.len() > 0 ==> finds_item(
            item,
            call,
            config,
        ));
    let found = |item: Json, call: HostedCall| finds_item(item, call, config);
    lemma_hosted_calls_are_listed(output, config);
    assert forall|i: int| 0 <= i < output.len() implies (is_client_item(
        #[trigger] output[i],
        config,
    ) <==> hosted_tool_calls::item_kind(output[i], config) is ClientCall) by {
        lemma_item_kind(output[i], config);
    }
    assert forall|i: int| 0 <= i < output.len() && is_hosted_item(#[trigger] output[i], config) implies {
        let place = listing::kept_before(output, keep, i) as int;
        &&& 0 <= place < calls.len()
        &&& fits(output[i], calls[place])
    } by {
        assert(keep(output[i]));
        listing::lemma_kept_before(output, keep, i, output.len() as int);
    }
    if calls.len() > 0 {
        listing::lemma_some_kept(output, keep, output.len() as int);
    }
    assert forall|j: int| 0 <= j < calls.len() && (#[trigger] calls[j]).id.len() == 0 implies exists|
        i: int,
    |
        0 <= i < output.len() && is_hosted_item(#[trigger] output[i], config) && !has_an_id(
            output[i],
        ) by {
        let i: int = listing::lemma_place_is_taken(output, keep, output.len() as int, j);
        assert(is_hosted_item(output[i], config));
    }
    assert(listing::lists_kept(output, calls, keep, fits));
    if !hosted_tool_calls::any_without_id(calls) {
        assert forall|i: int| 0 <= i < output.len() && keep(#[trigger] output[i]) implies found(
            output[i],
            calls[listing::kept_before(output, keep, i) as int],
        ) by {
            listing::lemma_kept_before(output, keep, i, output.len() as int);
            assert(calls[listing::kept_before(output, keep, i) as int].id.len() > 0);
        }
        assert(listing::lists_kept(output, calls, keep, found));
    }
}

/// A single text as a message of the user: its role is that of the user, and its
/// content is one part with the text.
pub open spec fn is_user_text(item: Json, content: Seq<char>) -> bool {
    &&& item.field("role"@) == Some(Json::Text("user"@))
    &&& item.items_field("content"@) matches Some(parts) && {
        &&& parts.len() == 1
        &&& parts[0].field("type"@) == Some(Json::Text("input_text"@))
        &&& parts[0].field("text"@) == Some(Json::Text(content))
        &&& forall|k: Seq<char>|
            (#[trigger] parts[0].field(k)) is Some ==> k == "type"@ || k == "text"@
    }
    &&& forall|k: Seq<char>| (#[trigger] item.field(k)) is Some ==> k == "role"@ || k == "content"@
}

/// Whether items are the input of a request: the items of a list as they are, a
/// single item alone, a text as a message of the user, and nothing where there is no
/// input.
pub open spec fn is_input_of(items: Seq<Json>, request: Json) -> bool {
    match request.field("input"@) {
        Some(Json::Array(given)) => items == given,
        Some(Json::Object(fields)) => items.len() == 1 && items[0] == Json::Object(fields),
        Some(Json::Text(content)) => items.len() == 1 && is_user_text(items[0], content),
        _ => items.len() == 0,
    }
}

/// Whether the input of a request is none that can be continued.
pub open spec fn has_odd_input(request: Json) -> bool {
    request.field("input"@) matches Some(input) && (input is Bool || input is Number)
}

/// The input of a request becomes a list of its items, and nothing else changes.
/// An input that is a truth value or a number stays as it is.
pub proof fn law_input_becomes_a_list(request: Json)
    requires
        request.is_object_or_null(),
    ensures
        hosted_tool_calls::is_continuable(request) <==> !has_odd_input(request),
        has_odd_input(request) ==> hosted_tool_calls::normalized(request) == request,
        !has_odd_input(request) ==> {
            &&& hosted_tool_calls::normalized(request).items_field("input"@) matches Some(items)
                && is_input_of(items, request)
            &&& forall|k: Seq<char>|
                k != "input"@ ==> (#[trigger] hosted_tool_calls::normalized(request).field(k))
                    == request.field(k)
        },
{
    lemma_input_items(request);
}

/// The items of a request are its input.
proof fn lemma_input_items(request: Json)
    ensures
        is_input_of(hosted_tool_calls::input_items(request), request),
{
    reveal_strlit("role");
    reveal_strlit("content");
    reveal_strlit("type");
    reveal_strlit("text");
    assert("role"@[0] == 'r');
    assert("content"@.len() == 7);
    assert("role"@.len() == 4);
    assert("type"@.len() == 4);
    assert("text"@.len() == 4);
    assert("type"@[1] == 'y');
    assert("text"@[1] == 'e');
    let items = hosted_tool_calls::input_items(request);
    if let Some(Json::Text(content)) = request.field("input"@) {
        let item = hosted_tool_calls::user_item(content);
        assert(items[0] == item);
        assert(item.field("content"@) is Some);
    }
}

/// Whether a message answers the call with this id.
pub open spec fn answers_call(message: Json, id: Seq<char>) -> bool {
    message.text_field("tool_call_id"@) == Some(id)
}

/// Whether some message answers an item.
pub open spec fn is_answered(item: Json, messages: Seq<Json>) -> bool {
    has_an_id(item) && exists|i: int, id: Seq<char>|
        0 <= i < messages.len() && goes_by(item, id) && #[trigger] answers_call(messages[i], id)
}

/// Whether an item of a response is played back to the model: reasoning, a message,
/// or a function call that is answered.
pub open spec fn is_played_back(item: Json, messages: Seq<Json>) -> bool {
    ||| item.text_field("type"@) == Some("reasoning"@)
    ||| item.text_field("type"@) == Some("message"@)
    ||| item.text_field("type"@) == Some("function_call"@) && is_answered(item, messages)
}

/// Whether an item is played back as this one: reasoning and messages as they are, a
/// call with its id as the call id and otherwise as it is.
pub open spec fn is_played_back_as(item: Json, played: Json) -> bool {
    if item.text_field("type"@) == Some("function_call"@) {
        &&& played.text_field("call_id"@) matches Some(id) && id.len() > 0 && goes_by(item, id)
        &&& forall|k: Seq<char>|
            k != "call_id"@ ==> (#[trigger] played.field(k)) == item.field(k)
    } else {
        played == item
    }
}

/// Whether an item tells the model the answer that a message gives: its type is that
/// of an output, its call id is that of the message, and its output is the content of
/// the message, or an empty text where it has none.
pub open spec fn tells_answer(item: Json, message: Json) -> bool {
    &&& item.field("type"@) == Some(Json::Text("function_call_output"@))
    &&& item.text_field("call_id"@) is Some
    &&& item.text_field("call_id"@) == message.text_field("tool_call_id"@)
    &&& match message.field("content"@) {
        Some(content) => item.field("output"@) == Some(content),
        None => item.field("output"@) == Some(Json::Text(Seq::<char>::empty())),
    }
    &&& forall|k: Seq<char>|
        (#[trigger] item.field(k)) is Some ==> k == "type"@ || k == "call_id"@ || k == "output"@
}

/// Whether a message names the call that it answers.
pub open spec fn names_its_call(message: Json) -> bool {
    message.text_field("tool_call_id"@) matches Some(id) && id.len() > 0
}

/// Whether every message names the call that it answers.
pub open spec fn all_name_calls(messages: Seq<Json>) -> bool {
    forall|i: int|
        0 <= i < messages.len() ==> names_its_call(#[trigger] messages[i])
}

/// What is played back is what is fit for it, in order.
proof fn lemma_replayed_is_listed(output: Seq<Json>, messages: Seq<Json>)
    ensures
        listing::lists_kept(
            output,
            hosted_tool_calls::replayed(output, hosted_tool_calls::answered_ids(messages)),
            |item: Json| is_played_back(item, messages),
            |item: Json, played: Json| is_played_back_as(item, played),
        ),
    decreases output.len(),
{
    let ids = hosted_tool_calls::answered_ids(messages);
    let keep = |item: Json| is_played_back(item, messages);
    let fits = |item: Json, played: Json| is_played_back_as(item, played);
    let played = hosted_tool_calls::replayed(output, ids);
    if output.len() == 0 {
        listing::lemma_lists_nothing(output, played, keep, fits);
    } else {
        let item = output.last();
        lemma_replayed_is_listed(output.drop_last(), messages);
        lemma_replayed_item(item, messages);
        let before = hosted_tool_calls::replayed(output.drop_last(), ids);
        if keep(item) {
            assert(played.take(before.len() as int) =~= before);
        }
        listing::lemma_lists_last(output, before, played, keep, fits);
    }
}

/// An item is played back where it is fit for it, and as it should be.
proof fn lemma_replayed_item(item: Json, messages: Seq<Json>)
    ensures
        match hosted_tool_calls::replayed_item(item, hosted_tool_calls::answered_ids(messages)) {
            Some(played) => is_played_back(item, messages) && is_played_back_as(item, played),
            None => !is_played_back(item, messages),
        },
{
    reveal_strlit("reasoning");
    reveal_strlit("message");
    reveal_strlit("function_call");
    assert("reasoning"@.len() == 9);
    assert("message"@.len() == 7);
    assert("function_call"@.len() == 13);
    let ids = hosted_tool_calls::answered_ids(messages);
    if item.text_field("type"@) == Some("function_call"@) {
        if let Some(id) = hosted_tool_calls::call_id_of(item) {
            assert(goes_by(item, id));
            if ids.contains(id) {
                let i: int = choose|i: int|
                    0 <= i < messages.len() && (#[trigger] messages[i]).text_field(
                        "tool_call_id"@,
                    ) == Some(id);
                assert(answers_call(messages[i], id));
            }
            if is_answered(item, messages) {
                let (i, other): (int, Seq<char>) = choose|i: int, other: Seq<char>|
                    0 <= i < messages.len() && goes_by(item, other) && #[trigger] answers_call(
                        messages[i],
                        other,
                    );
                assert(other == id);
                assert(messages[i].text_field("tool_call_id"@) == Some(id));
            }
        }
    }
}

/// A request is continued exactly where its input is one that can be continued, the
/// response has an output, and every message names the call that it answers. The
/// continued request holds the input that it held before, then what the model has
/// said of it, in order, and then one output for each message, in order. It does not
/// stream, and nothing else in it changes.
pub proof fn law_continuation_holds_everything_in_order(
    request: Json,
    response: Json,
    messages: Seq<Json>,
)
    requires
        request.is_object_or_null(),
    ensures
        hosted_tool_calls::can_continue(request, response, messages) <==> {
            &&& !has_odd_input(request)
            &&& response.items_field("output"@) is Some
            &&& all_name_calls(messages)
        },
        hosted_tool_calls::can_continue(request, response, messages) ==> {
            let next = hosted_tool_calls::continuation(request, response, messages);
            &&& exists|given: Seq<Json>, played: Seq<Json>, told: Seq<Json>|
                {
                    &&& #[trigger] next.items_field("input"@) == Some(
                        #[trigger] (given + played + told),
                    )
                    &&& is_input_of(given, request)
                    &&& listing::lists_kept(
                        response.items_field("output"@)->0,
                        played,
                        |item: Json| is_played_back(item, messages),
                        |item: Json, played: Json| is_played_back_as(item, played),
                    )
                    &&& told.len() == messages.len()
                    &&& forall|i: int|
                        0 <= i < messages.len() ==> tells_answer(#[trigger] told[i], messages[i])
                }
            &&& next.field("stream"@) == Some(Json::Bool(false))
            &&& forall|k: Seq<char>|
                k != "input"@ && k != "stream"@ ==> (#[trigger] next.field(k)) == request.field(k)
        },
{
    reveal_strlit("input");
    reveal_strlit("stream");
    assert("input"@.len() == 5);
    assert("stream"@.len() == 6);
    lemma_all_named(messages);
    if hosted_tool_calls::can_continue(request, response, messages) {
        let output = response.items_field("output"@)->0;
        let next = hosted_tool_calls::continuation(request, response, messages);
        let given = hosted_tool_calls::input_items(request);
        let played = hosted_tool_calls::replayed(output, hosted_tool_calls::answered_ids(messages));
        let told = hosted_tool_calls::tool_outputs(messages);
        assert(messages.take(messages.len() as int) =~= messages);
        lemma_input_items(request);
        lemma_replayed_is_listed(output, messages);
        assert forall|i: int| 0 <= i < messages.len() implies tells_answer(
            #[trigger] told[i],
            messages[i],
        ) by {
            lemma_tells_answer(messages[i]);
        }
        assert(next.items_field("input"@) == Some(given + played + told));
    }
}

/// How many messages name their calls before the first that does not.
pub open spec fn is_named_front(messages: Seq<Json>, count: int) -> bool {
    &&& 0 <= count <= messages.len()
    &&& forall|i: int| 0 <= i < count ==> names_its_call(#[trigger] messages[i])
    &&& count < messages.len() ==> !names_its_call(messages[count])
}

/// The messages before the first that does not name its call are counted.
proof fn lemma_named_front(messages: Seq<Json>)
    ensures
        is_named_front(messages, hosted_tool_calls::named_count(messages) as int),
    decreases messages.len(),
{
    reveal_strlit("");
    assert(""@.len() == 0);
    if messages.len() > 0 && hosted_tool_calls::names_call(messages[0]) {
        let rest = messages.skip(1);
        lemma_named_front(rest);
        let n = hosted_tool_calls::named_count(rest) as int;
        assert forall|i: int| 0 <= i < n + 1 implies names_its_call(#[trigger] messages[i]) by {
            if i > 0 {
                assert(rest[i - 1] == messages[i]);
            }
        }
        if n < rest.len() {
            assert(rest[n] == messages[n + 1]);
        }
    }
}

/// A request that cannot be continued is left where the work on it ended: as it was where
/// its input cannot be continued, with its input as a list where the response has no
/// output, and with all but the answers from the first message on that does not name its
/// call otherwise. Whether it streams is then as it was.
pub proof fn law_failed_continuation_goes_as_far_as_it_can(
    request: Json,
    response: Json,
    messages: Seq<Json>,
    count: int,
)
    requires
        request.is_object_or_null(),
        is_named_front(messages, count),
    ensures
        ({
            let next = hosted_tool_calls::continuation(request, response, messages);
            &&& has_odd_input(request) ==> next == request
            &&& !has_odd_input(request) && response.items_field("output"@) is None ==> {
                &&& next.items_field("input"@) is Some
                &&& is_input_of(next.items_field("input"@)->0, request)
                &&& forall|k: Seq<char>|
                    k != "input"@ ==> (#[trigger] next.field(k)) == request.field(k)
            }
            &&& !has_odd_input(request) && response.items_field("output"@) is Some && count
                < messages.len() ==> {
                &&& exists|given: Seq<Json>, played: Seq<Json>, told: Seq<Json>|
                    {
                        &&& #[trigger] next.items_field("input"@) == Some(
                            #[trigger] (given + played + told),
                        )
                        &&& is_input_of(given, request)
                        &&& listing::lists_kept(
                            response.items_field("output"@)->0,
                            played,
                            |item: Json| is_played_back(item, messages),
                            |item: Json, played: Json| is_played_back_as(item, played),
                        )
                        &&& told.len() == count
                        &&& forall|i: int|
                            0 <= i < count ==> tells_answer(#[trigger] told[i], messages[i])
                    }
                &&& forall|k: Seq<char>|
                    k != "input"@ ==> (#[trigger] next.field(k)) == request.field(k)
            }
        }),
{
    let next = hosted_tool_calls::continuation(request, response, messages);
    lemma_input_items(request);
    lemma_named_front(messages);
    let named = hosted_tool_calls::named_count(messages) as int;
    if named < count {
        assert(names_its_call(messages[named]));
    }
    if count < named {
        assert(names_its_call(messages[count]));
    }
    if let Some(output) = response.items_field("output"@) {
        if !has_odd_input(request) && count < messages.len() {
            let given = hosted_tool_calls::input_items(request);
            let played = hosted_tool_calls::replayed(
                output,
                hosted_tool_calls::answered_ids(messages),
            );
            let told = hosted_tool_calls::tool_outputs(messages.take(count));
            lemma_replayed_is_listed(output, messages);
            assert forall|i: int| 0 <= i < count implies tells_answer(
                #[trigger] told[i],
                messages[i],
            ) by {
                assert(names_its_call(messages[i]));
                lemma_tells_answer(messages[i]);
            }
            assert(next.items_field("input"@) == Some(given + played + told));
        }
    }
}

/// The output made of a message that names its call tells its answer.
proof fn lemma_tells_answer(message: Json)
    requires
        message.text_field("tool_call_id"@) is Some,
    ensures
        tells_answer(hosted_tool_calls::tool_output(message), message),
{
    reveal_strlit("type");
    reveal_strlit("call_id");
    reveal_strlit("output");
    assert("type"@.len() == 4);
    assert("call_id"@.len() == 7);
    assert("output"@.len() == 6);
}

/// All messages name a call exactly where none of them does not.
proof fn lemma_all_named(messages: Seq<Json>)
    ensures
        hosted_tool_calls::named_count(messages) <= messages.len(),
        hosted_tool_calls::named_count(messages) == messages.len() <==> all_name_calls(messages),
    decreases messages.len(),
{
    reveal_strlit("");
    assert(""@.len() == 0);
    if messages.len() > 0 {
        let rest = messages.skip(1);
        lemma_all_named(rest);
        if hosted_tool_calls::names_call(messages[0]) {
            if all_name_calls(rest) {
                assert forall|i: int| 0 <= i < messages.len() implies names_its_call(
                    #[trigger] messages[i],
                ) by {
                    if i > 0 {
                        assert(rest[i - 1] == messages[i]);
                    }
                }
            }
            if all_name_calls(messages) {
                assert forall|i: int| 0 <= i < rest.len() implies names_its_call(
                    #[trigger] rest[i],
                ) by {
                    assert(messages[i + 1] == rest[i]);
                }
            }
        }
    }
}

// ---------------------------------------------------------------------------
// Answers

/// A message that answers a call has the role of a tool, the id of the call and the
/// content, and nothing else; the content of a reported error is an object with the
/// error alone.
pub proof fn law_answer_names_its_call(id: Seq<char>, content: Seq<char>)
    ensures
        ({
            let message = hosted_tool_calls::tool_message(id, content);
            &&& message.field("role"@) == Some(Json::Text("tool"@))
            &&& message.field("tool_call_id"@) == Some(Json::Text(id))
            &&& message.field("content"@) == Some(Json::Text(content))
            &&& forall|k: Seq<char>|
                (#[trigger] message.field(k)) is Some ==> k == "role"@ || k == "tool_call_id"@ || k
                    == "content"@
        }),
        exists|report: Json|
            {
                &&& hosted_tool_calls::error_content(content) == #[trigger] data_text::json_rendered(
                    report,
                )
                &&& report.field("error"@) == Some(Json::Text(content))
                &&& forall|k: Seq<char>| (#[trigger] report.field(k)) is Some ==> k == "error"@
            },
{
    reveal_strlit("role");
    reveal_strlit("tool_call_id");
    reveal_strlit("content");
    assert("role"@.len() == 4);
    assert("tool_call_id"@.len() == 12);
    assert("content"@.len() == 7);
    let report = Json::empty_object().with("error"@, Json::Text(content));
    assert(hosted_tool_calls::error_content(content) == data_text::json_rendered(report));
}

/// A hosted tool is run exactly where it is configured, its client could be made and
/// what it is asked is not blank. Otherwise the answer is an error that says which of
/// these does not hold, in this order.
pub proof fn law_tool_runs_only_where_it_can(
    kind: HostedToolCallKind,
    subject: Option<Seq<char>>,
    client_error: Option<Seq<char>>,
)
    ensures
        ({
            let plan = hosted_tool_calls::plan(kind, subject, client_error);
            &&& plan is Run <==> {
                &&& subject matches Some(asked) && exists|i: int|
                    0 <= i < asked.len() && !text::is_white_space(#[trigger] asked[i])
                &&& client_error is None
            }
            &&& plan is Unconfigured <==> subject is None
            &&& plan matches Plan::Refuse(status, _) ==> (status == "not_configured"@
                <==> client_error is Some) && (status == "invalid"@ <==> client_error is None)
            &&& plan matches Plan::Refuse(_, message) ==> match client_error {
                Some(error) => message == hosted_tool_calls::safe_message(error),
                None => message == if kind is WebSearch {
                    "web_search query is empty"@
                } else {
                    "image_generation prompt is empty"@
                },
            }
            &&& plan matches Plan::Unconfigured(message) ==> message == if kind is WebSearch {
                "web_search hosted tool is not configured for this request"@
            } else {
                "image_generation hosted tool is not configured for this request"@
            }
        }),
{
    reveal_strlit("not_configured");
    reveal_strlit("invalid");
    assert("not_configured"@.len() == 14);
    assert("invalid"@.len() == 7);
    if let Some(asked) = subject {
        text::law_trimmed(asked);
    }
}

/// An error is told in one line, cut behind its first 500 characters, with dots where
/// something was cut off.
pub proof fn law_error_is_told_in_one_line(message: Seq<char>)
    ensures
        ({
            let line = text::join_texts(text::words(message), " "@);
            let told = hosted_tool_calls::safe_message(message);
            &&& line.len() <= 500 ==> told == line
            &&& line.len() > 500 ==> told.len() == 503 && told.subrange(0, 500) == line.subrange(
                0,
                500,
            ) && told[500] == '.' && told[501] == '.' && told[502] == '.'
        }),
{
    reveal_strlit("...");
    let line = text::join_texts(text::words(message), " "@);
    let told = hosted_tool_calls::safe_message(message);
    if line.len() > 500 {
        assert(told.subrange(0, 500) =~= line.subrange(0, 500));
    }
}

/// A call that was run is recorded as good exactly where it did not fail, and only a
/// failure is answered with an error, told in one line.
pub proof fn law_failures_are_told(error: Option<Seq<char>>)
    ensures
        hosted_tool_calls::conclusion(error).0 == "ok"@ <==> error is None,
        hosted_tool_calls::conclusion(error).0 == "error"@ <==> error is Some,
        hosted_tool_calls::conclusion(error).1 is Some <==> error is Some,
        error matches Some(message) ==> hosted_tool_calls::conclusion(error).1 == Some(
            hosted_tool_calls::safe_message(message),
        ),
{
    reveal_strlit("ok");
    reveal_strlit("error");
    assert("ok"@.len() == 2);
    assert("error"@.len() == 5);
}

} // verus!
