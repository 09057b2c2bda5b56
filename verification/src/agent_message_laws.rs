//! Laws on agent messages at the boundary to a third party: what is passed on, what
//! is left out, and what is refused.

use crate::data_text;
use crate::errors::ProxyFault;
use crate::json::Json;
use crate::listing;
use crate::multi_agent;
use crate::multi_agent::{Fate, ReplayContext};
use vstd::prelude::*;

verus! {

// ---------------------------------------------------------------------------
// What a third party can read

/// Whether some decoding of a text is of some length.
pub open spec fn decodes_to_bytes(value: Seq<char>, count: nat) -> bool {
    ||| multi_agent::base64_standard(value) matches Some(bytes) && bytes.len() >= count
    ||| multi_agent::base64_url_safe(value) matches Some(bytes) && bytes.len() >= count
    ||| multi_agent::base64_url_safe_no_pad(value) matches Some(bytes) && bytes.len() >= count
}

/// Whether a text is made of ASCII characters.
pub open spec fn is_all_ascii(value: Seq<char>) -> bool {
    forall|i: int| 0 <= i < value.len() ==> ((#[trigger] value[i]) as int) < 128
}

/// Whether a text begins as a Fernet token does.
pub open spec fn begins_as_token(value: Seq<char>) -> bool {
    &&& value.len() >= 6
    &&& value[0] == 'g'
    &&& forall|i: int| 1 <= i < 6 ==> #[trigger] value[i] == 'A'
}

/// A text is opaque exactly where it has 64 characters or more, all of them ASCII, and
/// some alphabet decodes it to 32 bytes or more; a token is an opaque text that begins
/// as one.
pub proof fn law_opaque_text(value: Seq<char>)
    ensures
        value.len() < 64 ==> !multi_agent::is_opaque(value),
        !is_all_ascii(value) ==> !multi_agent::is_opaque(value),
        !decodes_to_bytes(value, 32) ==> !multi_agent::is_opaque(value),
        value.len() >= 64 && is_all_ascii(value) && decodes_to_bytes(value, 32)
            ==> multi_agent::is_opaque(value),
        multi_agent::is_fernet(value) <==> multi_agent::is_opaque(value) && begins_as_token(value),
{
    reveal_strlit("gAAAAA");
    let token = "gAAAAA"@;
    assert(is_all_ascii(value) <==> multi_agent::is_ascii_text(value)) by {
        if is_all_ascii(value) {
            assert forall|i: int| 0 <= i < value.len() implies (#[trigger] value[i] as int)
                < 128 by {}
        }
        if multi_agent::is_ascii_text(value) {
            assert forall|i: int| 0 <= i < value.len() implies ((#[trigger] value[i]) as int)
                < 128 by {
                assert((value[i] as int) < 128);
            }
        }
    }
    if multi_agent::is_fernet(value) {
        assert forall|i: int| 0 <= i < 6 implies #[trigger] value[i] == token[i] by {
            assert(value.subrange(0, 6)[i] == value[i]);
        }
    }
    if begins_as_token(value) {
        assert(value.subrange(0, 6) =~= token);
    }
}

/// Whether a part holds a payload that a third party cannot read. Under the managed
/// policy only tokens count as such, since encrypted parts then carry plain text.
pub open spec fn is_cipher_part(part: Json, managed: bool) -> bool {
    &&& part.text_field("type"@) == Some("encrypted_content"@)
    &&& part.text_field("encrypted_content"@) matches Some(value) && {
        &&& value.len() >= 64
        &&& is_all_ascii(value)
        &&& decodes_to_bytes(value, 32)
        &&& managed ==> begins_as_token(value)
    }
}

/// Whether an item is a message between agents.
pub open spec fn is_between_agents(item: Json) -> bool {
    item.text_field("type"@) == Some("agent_message"@)
}

/// Whether a message holds a payload that a third party cannot read.
pub open spec fn hides_payload(item: Json, managed: bool) -> bool {
    item.items_field("content"@) matches Some(parts) && exists|i: int|
        0 <= i < parts.len() && is_cipher_part(#[trigger] parts[i], managed)
}

/// Whether a part holds something to read: a text that is not empty where its type
/// says that it is encrypted, any text that was output, or anything that is input.
pub open spec fn is_legible(part: Json) -> bool {
    ||| part.text_field("type"@) == Some("encrypted_content"@) && (part.text_field(
        "encrypted_content"@,
    ) matches Some(value) && value.len() > 0)
    ||| part.text_field("type"@) == Some("output_text"@) && part.text_field("text"@) is Some
    ||| part.text_field("type"@) == Some("input_text"@)
    ||| part.text_field("type"@) == Some("input_image"@)
    ||| part.text_field("type"@) == Some("input_file"@)
    ||| part.text_field("type"@) == Some("input_audio"@)
}

/// Whether a part is told as this one: what is input as it is, and any other text as
/// an input of the same text.
pub open spec fn is_told_as(part: Json, told: Json) -> bool {
    if part.text_field("type"@) == Some("encrypted_content"@) || part.text_field("type"@) == Some(
        "output_text"@,
    ) {
        &&& told.field("type"@) == Some(Json::Text("input_text"@))
        &&& part.text_field("type"@) == Some("encrypted_content"@) ==> told.text_field("text"@)
            is Some && told.text_field("text"@) == part.text_field("encrypted_content"@)
        &&& part.text_field("type"@) == Some("output_text"@) ==> told.text_field("text"@) is Some
            && told.text_field("text"@) == part.text_field("text"@)
        &&& forall|k: Seq<char>| (#[trigger] told.field(k)) is Some ==> k == "type"@ || k == "text"@
    } else {
        told == part
    }
}

/// Whether an item is passed on as this one: a message between agents as a message of
/// the user with all that can be read of it, in order, and anything else as it is.
pub open spec fn is_passed_on_as(item: Json, passed: Json) -> bool {
    if is_between_agents(item) {
        &&& passed.field("type"@) == Some(Json::Text("message"@))
        &&& passed.field("role"@) == Some(Json::Text("user"@))
        &&& item.items_field("content"@) is Some
        &&& passed.items_field("content"@) is Some
        &&& listing::lists_kept(
            item.items_field("content"@)->0,
            passed.items_field("content"@)->0,
            |part: Json| is_legible(part),
            |part: Json, told: Json| is_told_as(part, told),
        )
        &&& forall|k: Seq<char>|
            (#[trigger] passed.field(k)) is Some ==> k == "type"@ || k == "role"@ || k == "content"@
    } else {
        passed == item
    }
}

/// The types of parts differ.
proof fn lemma_part_types()
    ensures
        "encrypted_content"@.len() == 17,
        "output_text"@.len() == 11,
        "input_text"@.len() == 10,
        "input_image"@.len() == 11,
        "input_file"@.len() == 10,
        "input_audio"@.len() == 11,
        "input_image"@ != "output_text"@,
        "input_audio"@ != "output_text"@,
        "type"@ != "text"@,
{
    reveal_strlit("encrypted_content");
    reveal_strlit("output_text");
    reveal_strlit("input_text");
    reveal_strlit("input_image");
    reveal_strlit("input_file");
    reveal_strlit("input_audio");
    reveal_strlit("type");
    reveal_strlit("text");
    assert("input_image"@[0] == 'i');
    assert("input_audio"@[0] == 'i');
    assert("output_text"@[0] == 'o');
    assert("type"@[1] == 'y');
    assert("text"@[1] == 'e');
}

/// What a part is, in terms of the part alone.
proof fn lemma_part(part: Json, managed: bool)
    ensures
        multi_agent::part_is_opaque(part, managed) <==> is_cipher_part(part, managed),
        match multi_agent::readable_part(part) {
            Some(told) => is_legible(part) && is_told_as(part, told),
            None => !is_legible(part),
        },
{
    lemma_part_types();
    law_opaque_text(multi_agent::encrypted_text(part));
}

/// All that can be read of a message is told, in order and with nothing lost.
pub proof fn law_every_legible_part_is_told(parts: Seq<Json>)
    ensures
        listing::lists_kept(
            parts,
            multi_agent::readable_parts(parts),
            |part: Json| is_legible(part),
            |part: Json, told: Json| is_told_as(part, told),
        ),
    decreases parts.len(),
{
    let keep = |part: Json| is_legible(part);
    let fits = |part: Json, told: Json| is_told_as(part, told);
    let listed = multi_agent::readable_parts(parts);
    if parts.len() == 0 {
        listing::lemma_lists_nothing(parts, listed, keep, fits);
    } else {
        law_every_legible_part_is_told(parts.drop_last());
        lemma_part(parts.last(), false);
        let before = multi_agent::readable_parts(parts.drop_last());
        if keep(parts.last()) {
            assert(listed.take(before.len() as int) =~= before);
        }
        listing::lemma_lists_last(parts, before, listed, keep, fits);
    }
}

// ---------------------------------------------------------------------------
// Whose request it is

/// Whether metadata speaks of an agent that was spawned.
pub open spec fn is_of_child(metadata: Json) -> bool {
    ||| metadata.field("thread_source"@) == Some(Json::Text("subagent"@))
    ||| metadata.field("subagent_kind"@) == Some(Json::Text("thread_spawn"@))
}

/// A request is that of a child exactly where its metadata says so and names it, and
/// that of the main thread exactly where its metadata names the root and not a child.
/// Of any other request it is not known whose it is.
pub proof fn law_request_is_whose_metadata_says(metadata: Json, name: Seq<char>)
    ensures
        multi_agent::context_of(None) is Unknown,
        multi_agent::context_of(Some(metadata)) == ReplayContext::Subagent(name) <==> {
            &&& is_of_child(metadata)
            &&& name.len() > 0
            &&& metadata.field("agent_name"@) == Some(Json::Text(name))
        },
        multi_agent::context_of(Some(metadata)) is MainThread <==> {
            &&& !is_of_child(metadata)
            &&& metadata.field("agent_name"@) == Some(Json::Text("/root"@))
        },
{
    reveal_strlit("/root");
    assert("/root"@.len() == 5);
}

/// Metadata counts alike whether it is given as an object or as its JSON text, and
/// nothing else counts as metadata.
pub proof fn law_metadata_counts_as_text_or_object(body: Json, metadata: Json)
    requires
        body.field("client_metadata"@) matches Some(client) && client.field(
            "x-codex-turn-metadata"@,
        ) == Some(metadata),
    ensures
        match metadata {
            Json::Object(_) => multi_agent::turn_metadata(body) == Some(metadata),
            Json::Text(raw) => multi_agent::turn_metadata(body) == data_text::json_parsed(raw),
            _ => multi_agent::turn_metadata(body) is None,
        },
{
}

/// Without metadata of the client there is none of the turn.
pub proof fn law_no_metadata_without_the_client(body: Json)
    requires
        body.field("client_metadata"@) matches Some(client) ==> client.field(
            "x-codex-turn-metadata"@,
        ) is None,
    ensures
        multi_agent::turn_metadata(body) is None,
{
}

/// Whether an item gives a task to an agent: a message to that agent, one part of which
/// is an input that begins with the mark of a task.
pub open spec fn gives_task(item: Json, name: Seq<char>) -> bool {
    &&& is_between_agents(item)
    &&& item.field("recipient"@) == Some(Json::Text(name))
    &&& item.items_field("content"@) matches Some(parts) && exists|i: int|
        0 <= i < parts.len() && begins_a_task(#[trigger] parts[i])
}

/// Whether a part is an input that begins with the mark of a task.
pub open spec fn begins_a_task(part: Json) -> bool {
    &&& part.field("type"@) == Some(Json::Text("input_text"@))
    &&& part.text_field("text"@) matches Some(content) && "Message Type: NEW_TASK\n"@.is_prefix_of(
        content,
    )
}

/// Whether an item gives the current task to an agent: no later one gives a task to it.
pub open spec fn is_current_task(items: Seq<Json>, index: int, name: Seq<char>) -> bool {
    &&& 0 <= index < items.len()
    &&& gives_task(items[index], name)
    &&& forall|j: int| index < j < items.len() ==> !gives_task(#[trigger] items[j], name)
}

/// What gives a task to an agent.
proof fn lemma_gives_task(item: Json, name: Seq<char>)
    ensures
        multi_agent::is_new_task(item, name) <==> gives_task(item, name),
{
    if let Some(parts) = item.items_field("content"@) {
        assert forall|i: int| 0 <= i < parts.len() implies (multi_agent::part_begins_task(
            #[trigger] parts[i],
        ) <==> begins_a_task(parts[i])) by {}
        if multi_agent::is_new_task(item, name) {
            let i: int = choose|i: int|
                0 <= i < parts.len() && multi_agent::part_begins_task(#[trigger] parts[i]);
            assert(begins_a_task(parts[i]));
        }
        if gives_task(item, name) {
            let i: int = choose|i: int| 0 <= i < parts.len() && begins_a_task(#[trigger] parts[i]);
            assert(multi_agent::part_begins_task(parts[i]));
        }
    }
}

/// The last task among the first items.
proof fn lemma_last_task(items: Seq<Json>, name: Seq<char>, count: nat)
    requires
        count <= items.len(),
    ensures
        match multi_agent::last_task(items, name, count) {
            Some(i) => {
                &&& 0 <= i < count
                &&& gives_task(items[i], name)
                &&& forall|j: int| i < j < count ==> !gives_task(#[trigger] items[j], name)
            },
            None => forall|j: int| 0 <= j < count ==> !gives_task(#[trigger] items[j], name),
        },
    decreases count,
{
    if count > 0 {
        lemma_gives_task(items[count - 1], name);
        lemma_last_task(items, name, (count - 1) as nat);
    }
}

/// The current task of a child is the last that its request gives to it.
pub proof fn law_last_task_is_current(items: Seq<Json>, name: Seq<char>)
    ensures
        match multi_agent::current_task(items, ReplayContext::Subagent(name)) {
            Some(i) => is_current_task(items, i, name),
            None => forall|i: int|
                0 <= i < items.len() ==> !gives_task(#[trigger] items[i], name),
        },
{
    lemma_last_task(items, name, items.len());
}

/// Whether a message is history that is only replayed: any in the main thread, and for
/// a child with a task any but the one that gives its current task.
pub open spec fn is_replayed(items: Seq<Json>, index: int, context: ReplayContext) -> bool {
    match context {
        ReplayContext::MainThread => true,
        ReplayContext::Unknown => false,
        ReplayContext::Subagent(name) => {
            &&& exists|j: int| 0 <= j < items.len() && gives_task(#[trigger] items[j], name)
            &&& !is_current_task(items, index, name)
        },
    }
}

/// Whether an item cannot be passed on: a message between agents without content, one
/// that hides its payload and is not merely replayed, or one with nothing to read.
pub open spec fn must_be_refused(
    items: Seq<Json>,
    index: int,
    context: ReplayContext,
    managed: bool,
) -> bool {
    &&& is_between_agents(items[index])
    &&& match items[index].items_field("content"@) {
        None => true,
        Some(parts) => if hides_payload(items[index], managed) {
            !is_replayed(items, index, context)
        } else {
            forall|i: int| 0 <= i < parts.len() ==> !is_legible(#[trigger] parts[i])
        },
    }
}

/// What becomes of an item, in terms of the request alone.
proof fn lemma_fate(items: Seq<Json>, index: int, context: ReplayContext, managed: bool)
    requires
        0 <= index < items.len(),
    ensures
        ({
            let item = items[index];
            match multi_agent::fate_at(items, index, context, managed) {
                Fate::Keep => !is_between_agents(item),
                Fate::Drop => is_between_agents(item) && hides_payload(item, managed)
                    && !must_be_refused(items, index, context, managed),
                Fate::Rewrite(passed) => is_between_agents(item) && !hides_payload(item, managed)
                    && !must_be_refused(items, index, context, managed) && is_passed_on_as(
                    item,
                    passed,
                ),
                Fate::Fail(fault) => must_be_refused(items, index, context, managed) && fault
                    == ProxyFault::InvalidRequest(
                    if hides_payload(item, managed) {
                        "third-party child cannot read opaque Codex agent payload; the parent turn did not use the managed agents.* plaintext schema or the task predates it; refresh the mixed-router configuration and start a new task"@
                    } else {
                        "third-party child received a Codex agent message without readable content"@
                    },
                ),
            }
        }),
{
    let item = items[index];
    if is_between_agents(item) {
        if let ReplayContext::Subagent(name) = context {
            law_last_task_is_current(items, name);
            if let Some(i) = multi_agent::current_task(items, context) {
                assert(gives_task(items[i], name));
            }
        }
        if let Some(parts) = item.items_field("content"@) {
            assert forall|i: int| 0 <= i < parts.len() implies (multi_agent::part_is_opaque(
                #[trigger] parts[i],
                managed,
            ) <==> is_cipher_part(parts[i], managed)) by {
                lemma_part(parts[i], managed);
            }
            law_every_legible_part_is_told(parts);
            let keep = |part: Json| is_legible(part);
            let told = multi_agent::readable_parts(parts);
            if told.len() > 0 {
                listing::lemma_some_kept(parts, keep, parts.len() as int);
            }
            assert forall|i: int| 0 <= i < parts.len() && is_legible(#[trigger] parts[i]) implies told.len()
                > 0 by {
                assert(keep(parts[i]));
                listing::lemma_kept_before(parts, keep, i, parts.len() as int);
            }
            lemma_user_fields(told);
        }
    }
}

/// The fields of a message of the user.
proof fn lemma_user_fields(parts: Seq<Json>)
    ensures
        ({
            let message = multi_agent::user_message(parts);
            &&& message.field("type"@) == Some(Json::Text("message"@))
            &&& message.field("role"@) == Some(Json::Text("user"@))
            &&& message.items_field("content"@) == Some(parts)
            &&& forall|k: Seq<char>|
                (#[trigger] message.field(k)) is Some ==> k == "type"@ || k == "role"@ || k
                    == "content"@
        }),
{
    reveal_strlit("type");
    reveal_strlit("role");
    reveal_strlit("content");
    assert("type"@[0] == 't');
    assert("role"@[0] == 'r');
    assert("content"@.len() == 7);
    assert("type"@.len() == 4);
    assert("role"@.len() == 4);
}

/// A request is refused exactly where some message in it cannot be passed on. The last
/// such message decides the error: a payload that is hidden, or nothing to read.
pub proof fn law_refused_where_a_message_cannot_be_passed_on(
    items: Seq<Json>,
    count: nat,
    context: ReplayContext,
    managed: bool,
)
    requires
        count <= items.len(),
    ensures
        match multi_agent::last_failing(items, count, context, managed) {
            None => forall|i: int|
                0 <= i < count ==> !(#[trigger] must_be_refused(items, i, context, managed)),
            Some(i) => {
                &&& 0 <= i < count
                &&& must_be_refused(items, i, context, managed)
                &&& forall|j: int|
                    i < j < count ==> !(#[trigger] must_be_refused(items, j, context, managed))
                &&& multi_agent::fate_at(items, i, context, managed) == Fate::Fail(
                    ProxyFault::InvalidRequest(
                        if hides_payload(items[i], managed) {
                            "third-party child cannot read opaque Codex agent payload; the parent turn did not use the managed agents.* plaintext schema or the task predates it; refresh the mixed-router configuration and start a new task"@
                        } else {
                            "third-party child received a Codex agent message without readable content"@
                        },
                    ),
                )
            },
        },
    decreases count,
{
    if count > 0 {
        lemma_fate(items, count - 1, context, managed);
        law_refused_where_a_message_cannot_be_passed_on(
            items,
            (count - 1) as nat,
            context,
            managed,
        );
    }
}

/// Nothing that a third party can read is lost, whoever sends the request: behind the
/// last message that is refused, or in the whole request where none is, every item is
/// passed on in order, messages between agents as messages of the user with all that
/// can be read of them, and everything else as it is. Left out are only messages that
/// hide their payload. Counted are the messages between agents that are passed on.
pub proof fn law_nothing_readable_is_lost(
    items: Seq<Json>,
    from: int,
    context: ReplayContext,
    managed: bool,
)
    requires
        0 <= from <= items.len(),
        forall|i: int|
            from <= i < items.len() ==> !(#[trigger] must_be_refused(items, i, context, managed)),
    ensures
        listing::lists_kept(
            items.skip(from),
            multi_agent::projected(items, from, context, managed),
            |item: Json| !(is_between_agents(item) && hides_payload(item, managed)),
            |item: Json, passed: Json| is_passed_on_as(item, passed),
        ),
        multi_agent::rewritten(items, from, context, managed) == listing::kept_before(
            items.skip(from),
            |item: Json| is_between_agents(item) && !hides_payload(item, managed),
            items.len() - from,
        ),
    decreases items.len() - from,
{
    let keep = |item: Json| !(is_between_agents(item) && hides_payload(item, managed));
    let fits = |item: Json, passed: Json| is_passed_on_as(item, passed);
    let counted = |item: Json| is_between_agents(item) && !hides_payload(item, managed);
    let listed = multi_agent::projected(items, from, context, managed);
    let tail = items.skip(from);
    if from == items.len() {
        listing::lemma_lists_nothing(tail, listed, keep, fits);
    } else {
        law_nothing_readable_is_lost(items, from + 1, context, managed);
        lemma_fate(items, from, context, managed);
        assert(!must_be_refused(items, from, context, managed));
        let after = multi_agent::projected(items, from + 1, context, managed);
        assert(tail.skip(1) =~= items.skip(from + 1));
        assert(tail[0] == items[from]);
        if keep(tail[0]) {
            assert(listed.skip(1) =~= after);
        }
        listing::lemma_lists_first(tail, after, listed, keep, fits);
        listing::lemma_kept_of_rest(tail, counted, tail.len() - 1);
    }
}

/// Where a request is refused, the items up to the message that is refused are still as
/// they were, and those behind it are passed on as they would be anyway.
pub proof fn law_refused_request_keeps_what_was_not_reached(
    items: Seq<Json>,
    index: int,
    context: ReplayContext,
    managed: bool,
)
    requires
        0 <= index < items.len(),
    ensures
        ({
            let left = multi_agent::stopped_at(items, index, context, managed);
            &&& forall|i: int| 0 <= i <= index ==> left[i] == #[trigger] items[i]
            &&& left.skip(index + 1) == multi_agent::projected(items, index + 1, context, managed)
        }),
{
    let left = multi_agent::stopped_at(items, index, context, managed);
    assert(left.skip(index + 1) =~= multi_agent::projected(items, index + 1, context, managed));
}

/// Whether a request was passed on with all that a third party can read of it: its items
/// in order, without messages that hide their payload, and everything else as it was.
pub open spec fn passes_everything_on(before: Json, after: Json, managed: bool) -> bool {
    &&& match before.items_field("input"@) {
        None => after == before,
        Some(items) => {
            &&& after.items_field("input"@) is Some
            &&& listing::lists_kept(
                items,
                after.items_field("input"@)->0,
                |item: Json| !(is_between_agents(item) && hides_payload(item, managed)),
                |item: Json, passed: Json| is_passed_on_as(item, passed),
            )
        },
    }
    &&& forall|k: Seq<char>| k != "input"@ ==> (#[trigger] after.field(k)) == before.field(k)
}

/// A request that is not refused is passed on with all that a third party can read of it,
/// whoever sends it.
pub proof fn law_everything_readable_is_passed_on(
    body: Json,
    items: Seq<Json>,
    context: ReplayContext,
    managed: bool,
)
    requires
        body.items_field("input"@) == Some(items),
        multi_agent::last_failing(items, items.len(), context, managed) is None,
    ensures
        passes_everything_on(
            body,
            body.with(
                "input"@,
                Json::Array(multi_agent::projected(items, 0, context, managed)),
            ),
            managed,
        ),
{
    law_refused_where_a_message_cannot_be_passed_on(items, items.len(), context, managed);
    law_nothing_readable_is_lost(items, 0, context, managed);
    assert(items.skip(0) =~= items);
    let after = body.with(
        "input"@,
        Json::Array(multi_agent::projected(items, 0, context, managed)),
    );
    assert(after.items_field("input"@) == Some(multi_agent::projected(items, 0, context, managed)));
}

} // verus!
