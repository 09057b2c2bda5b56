//! Overrides of a provider on the body of a request.

use crate::json;
use crate::json::{Json, JsonValue};
use crate::listing;
use crate::text;
use crate::text_map;
use vstd::prelude::*;

verus! {

/// Whether a field of a patch is left out: at the top of a body the switch for
/// streaming is not the provider's to set.
pub open spec fn is_left_out(key: Seq<char>, is_top_level: bool) -> bool {
    is_top_level && key == "stream"@
}

/// A value after a patch was laid over it. Objects are joined field by field;
/// anything else is replaced, unless it is equal already.
pub open spec fn patched(target: Json, patch: Json, is_top_level: bool) -> Json
    decreases patch,
{
    match (target, patch) {
        (Json::Object(fields), Json::Object(changes)) => Json::Object(
            Map::new(
                |k: Seq<char>|
                    fields.contains_key(k) || (changes.contains_key(k) && !is_left_out(
                        k,
                        is_top_level,
                    )),
                |k: Seq<char>|
                    if changes.contains_key(k) && !is_left_out(k, is_top_level) {
                        if fields.contains_key(k) {
                            patched(fields[k], changes[k], false)
                        } else {
                            changes[k]
                        }
                    } else {
                        fields[k]
                    },
            ),
        ),
        _ => if json::same_json(target, patch) {
            target
        } else {
            patch
        },
    }
}

/// Whether laying a patch over a value changes it.
pub open spec fn is_changed_by(target: Json, patch: Json, is_top_level: bool) -> bool
    decreases patch,
{
    match (target, patch) {
        (Json::Object(fields), Json::Object(changes)) => exists|k: Seq<char>|
            {
                &&& #[trigger] changes.contains_key(k)
                &&& !is_left_out(k, is_top_level)
                &&& !fields.contains_key(k) || is_changed_by(fields[k], changes[k], false)
            },
        _ => !json::same_json(target, patch),
    }
}

/// Lays a patch over a value, and says whether that changed it.
pub fn merge_json_override_inner(
    target: &mut JsonValue,
    patch: &JsonValue,
    is_top_level: bool,
) -> (r: bool)
    ensures
        final(target)@ == patched(old(target)@, patch@, is_top_level),
        r == is_changed_by(old(target)@, patch@, is_top_level),
        carries(final(target)@, patch@, is_top_level),
        keeps_unnamed(old(target)@, final(target)@, patch@, is_top_level),
    decreases patch,
{
    let ghost before = target@;
    proof {
        law_override_takes_effect(before, patch@, is_top_level);
        law_override_keeps_the_rest(before, patch@, is_top_level);
    }
    let mut taken = JsonValue::Null;
    std::mem::swap(&mut taken, target);
    proof {
        json::lemma_view(&taken);
        json::lemma_view(patch);
    }
    match (taken, patch) {
        (JsonValue::Object(mut fields), JsonValue::Object(changes)) => {
            proof {
                use_type_invariant(&fields);
                use_type_invariant(changes);
                json::lemma_object_view(&fields);
                json::lemma_object_view(changes);
                changes.lemma_parts();
                text_map::lemma_paired(changes.key_seq(), changes.values@);
            }
            let ghost start = json::fields_view(fields@);
            let ghost wanted = json::fields_view(changes@);
            let ghost keys = changes.key_seq();
            let mut changed = false;
            let n = changes.len();
            let mut i: usize = 0;
            while i < n
                invariant
                    i <= n,
                    n == keys.len(),
                    n == changes.values@.len(),
                    n == changes.keys@.len(),
                    keys == changes.key_seq(),
                    keys.no_duplicates(),
                    *patch == JsonValue::Object(*changes),
                    wanted == json::fields_view(changes@),
                    forall|j: int| 0 <= j < n ==> changes@.contains_key(#[trigger] keys[j]),
                    forall|j: int| 0 <= j < n ==> changes@[#[trigger] keys[j]] == changes.values@[j],
                    forall|k: Seq<char>| #[trigger]
                        fields@.contains_key(k) <==> start.contains_key(k) || (exists|j: int|
                            0 <= j < i && (#[trigger] keys[j]) == k && !is_left_out(k, is_top_level)),
                    forall|k: Seq<char>| #[trigger]
                        fields@.contains_key(k) ==> fields@[k]@ == if (exists|j: int|
                            0 <= j < i && (#[trigger] keys[j]) == k) && !is_left_out(
                            k,
                            is_top_level,
                        ) {
                            if start.contains_key(k) {
                                patched(start[k], wanted[k], false)
                            } else {
                                wanted[k]
                            }
                        } else {
                            start[k]
                        },
                    changed == exists|j: int|
                        {
                            &&& 0 <= j < i
                            &&& !is_left_out(#[trigger] keys[j], is_top_level)
                            &&& !start.contains_key(keys[j]) || is_changed_by(
                                start[keys[j]],
                                wanted[keys[j]],
                                false,
                            )
                        },
                decreases n - i,
            {
                let (key, _) = changes.entry(i);
                let ghost name = keys[i as int];
                assert(key@ == name);
                assert(wanted[name] == changes.values@[i as int]@);
                let ghost fields_before = fields@;
                let ghost changed_before = changed;
                if is_top_level && text::same(key.as_str(), "stream") {
                    assert(is_left_out(name, is_top_level));
                } else {
                    assert(decreases_to!(*patch => patch->Object_0));
                    assert(decreases_to!(patch->Object_0 => patch->Object_0.values));
                    assert(decreases_to!(patch->Object_0.values => patch->Object_0.values@));
                    assert(!exists|j: int| 0 <= j < i && (#[trigger] keys[j]) == name);
                    match fields.remove(key.as_str()) {
                        Some(mut value) => {
                            if merge_json_override_inner(&mut value, &changes.values[i], false) {
                                changed = true;
                            }
                            fields.insert(key.clone(), value);
                        },
                        None => {
                            fields.insert(key.clone(), changes.values[i].copy());
                            changed = true;
                        },
                    }
                }
                proof {
                    assert forall|k: Seq<char>| #[trigger]
                        fields@.contains_key(k) <==> start.contains_key(k) || (exists|j: int|
                            0 <= j < i + 1 && (#[trigger] keys[j]) == k && !is_left_out(
                                k,
                                is_top_level,
                            )) by {
                        assert(fields@.contains_key(k) <==> fields_before.contains_key(k) || (k
                            == name && !is_left_out(k, is_top_level)));
                        if k == name && !is_left_out(k, is_top_level) {
                            assert(keys[i as int] == k);
                        }
                    }
                    assert forall|k: Seq<char>| #[trigger]
                        fields@.contains_key(k) implies fields@[k]@ == if (exists|j: int|
                        0 <= j < i + 1 && (#[trigger] keys[j]) == k) && !is_left_out(
                        k,
                        is_top_level,
                    ) {
                        if start.contains_key(k) {
                            patched(start[k], wanted[k], false)
                        } else {
                            wanted[k]
                        }
                    } else {
                        start[k]
                    } by {
                        if k == name {
                            assert(keys[i as int] == k);
                            if is_left_out(name, is_top_level) {
                                assert(fields_before.contains_key(k));
                            } else if fields_before.contains_key(name) {
                                assert(start.contains_key(name));
                                assert(fields_before[name]@ == start[name]);
                            }
                        } else {
                            assert(fields_before.contains_key(k));
                            assert(fields@[k] == fields_before[k]);
                        }
                    }
                    if changed_before {
                        let j = choose|j: int|
                            {
                                &&& 0 <= j < i
                                &&& !is_left_out(#[trigger] keys[j], is_top_level)
                                &&& !start.contains_key(keys[j]) || is_changed_by(
                                    start[keys[j]],
                                    wanted[keys[j]],
                                    false,
                                )
                            };
                        assert(!is_left_out(keys[j], is_top_level));
                    }
                }
                i = i + 1;
            }
            proof {
                use_type_invariant(&fields);
                json::lemma_object_view(&fields);
                let after = json::fields_view(fields@);
                let goal = patched(before, patch@, is_top_level);
                assert forall|k: Seq<char>| wanted.contains_key(k) implies exists|j: int|
                    0 <= j < n && (#[trigger] keys[j]) == k by {
                    assert(keys[keys.index_of(k)] == k);
                }
                assert forall|k: Seq<char>| #[trigger]
                    after.contains_key(k) <==> goal->Object_0.contains_key(k) by {
                    if wanted.contains_key(k) {
                        assert(keys[keys.index_of(k)] == k);
                    }
                }
                assert(after =~= goal->Object_0);
                if changed {
                    let j = choose|j: int|
                        {
                            &&& 0 <= j < n
                            &&& !is_left_out(#[trigger] keys[j], is_top_level)
                            &&& !start.contains_key(keys[j]) || is_changed_by(
                                start[keys[j]],
                                wanted[keys[j]],
                                false,
                            )
                        };
                    assert(wanted.contains_key(keys[j]));
                }
                if is_changed_by(before, patch@, is_top_level) {
                    let k = choose|k: Seq<char>|
                        {
                            &&& #[trigger] wanted.contains_key(k)
                            &&& !is_left_out(k, is_top_level)
                            &&& !start.contains_key(k) || is_changed_by(start[k], wanted[k], false)
                        };
                    assert(keys[keys.index_of(k)] == k);
                }
            }
            *target = JsonValue::object(fields);
            changed
        },
        (other, _) => {
            if other.equals(patch) {
                *target = other;
                false
            } else {
                *target = patch.copy();
                true
            }
        },
    }
}

/// A body after the override of a provider: only an object overrides anything.
pub open spec fn overridden_body(body: Json, wanted: Option<Json>) -> Json {
    match wanted {
        Some(patch) => if patch is Object {
            patched(body, patch, true)
        } else {
            body
        },
        None => body,
    }
}

/// Whether the override of a provider changes a body.
pub open spec fn is_overridden(body: Json, wanted: Option<Json>) -> bool {
    match wanted {
        Some(patch) => patch is Object && is_changed_by(body, patch, true),
        None => false,
    }
}

/// Lays the override of a provider over a body, and says whether that changed it.
pub fn apply_provider_body_overrides(body: &mut JsonValue, wanted: Option<&JsonValue>) -> (r: bool)
    ensures
        ({
            let patch = match wanted {
                Some(patch) => Some(patch@),
                None => None,
            };
            &&& final(body)@ == overridden_body(old(body)@, patch)
            &&& r == is_overridden(old(body)@, patch)
        }),
{
    match wanted {
        Some(patch) => if patch.is_object() {
            merge_json_override_inner(body, patch, true)
        } else {
            false
        },
        None => false,
    }
}

/// A body that is ready, or one from which private fields are to be dropped again.
pub enum PolicyBody {
    Ready(JsonValue),
    FilterAgain(JsonValue),
}

/// Lays the override of a provider over a body from which private fields were
/// dropped. Where that changed the body, they are to be dropped again.
pub fn apply_provider_body_policy(filtered: JsonValue, wanted: Option<&JsonValue>) -> (r:
    PolicyBody)
    ensures
        ({
            let patch = match wanted {
                Some(patch) => Some(patch@),
                None => None,
            };
            if is_overridden(filtered@, patch) {
                r matches PolicyBody::FilterAgain(body) && body@ == overridden_body(
                    filtered@,
                    patch,
                )
            } else {
                r matches PolicyBody::Ready(body) && body@ == filtered@
            }
        }),
{
    proof {
        if let Some(patch) = wanted {
            law_change_is_reported_exactly(filtered@, patch@, true);
        }
    }
    let mut body = filtered;
    if apply_provider_body_overrides(&mut body, wanted) {
        PolicyBody::FilterAgain(body)
    } else {
        PolicyBody::Ready(body)
    }
}

// ---------------------------------------------------------------------------
// Reasoning in the history

/// How reasoning in the history of a request is played back to a provider.
#[derive(Debug, Clone, Copy, PartialEq, Eq, Structural)]
pub enum HistoryReplay {
    /// As it stands, where the provider is native.
    NativeOnly,
    /// As the reasoning content of Chat messages.
    ChatReasoningContent,
    /// As the text content of Responses reasoning items.
    ResponsesReasoningTextContent,
    /// Not at all.
    Omit,
}

/// Whether an item is reasoning.
pub open spec fn is_reasoning(item: Json) -> bool {
    item.text_field("type"@) == Some("reasoning"@)
}

/// A request without the reasoning among its items.
pub open spec fn without_reasoning(body: Json) -> Json {
    match body.items_field("input"@) {
        Some(items) => body.with(
            "input"@,
            Json::Array(items.filter(|item: Json| !is_reasoning(item))),
        ),
        None => body,
    }
}

/// Drops the reasoning items of a request.
pub fn omit_responses_reasoning_items(body: JsonValue) -> (r: JsonValue)
    ensures
        r@ == without_reasoning(body@),
{
    let mut body = body;
    if let Some(items) = body.take_array_field("input") {
        let ghost views = json::values_view(items@);
        let ghost keep = |item: Json| !is_reasoning(item);
        let mut kept: Vec<JsonValue> = Vec::new();
        let mut i: usize = 0;
        assert(views.take(0).filter(keep) =~= Seq::<Json>::empty()) by {
            reveal(Seq::filter);
        }
        while i < items.len()
            invariant
                i <= items@.len(),
                views == json::values_view(items@),
                keep == (|item: Json| !is_reasoning(item)),
                json::values_view(kept@) == views.take(i as int).filter(keep),
            decreases items@.len() - i,
        {
            let item = &items[i];
            let ghost before = json::values_view(kept@);
            proof {
                reveal(Seq::filter);
                assert(views.take(i + 1).drop_last() =~= views.take(i as int));
                assert(views.take(i + 1).last() == item@);
            }
            if !item.field_is("type", "reasoning") {
                kept.push(item.copy());
                assert(json::values_view(kept@) =~= before.push(item@));
            }
            i = i + 1;
        }
        assert(views.take(i as int) =~= views);
        body.set_field("input", JsonValue::array(kept));
    }
    body
}

/// A body whose reasoning was prepared for a provider, or one whose reasoning
/// items are still to be normalised.
pub enum ReplayedBody {
    Done(JsonValue),
    NormalizeReasoning(JsonValue),
}

/// A request whose reasoning was prepared for a provider, as far as that is done here.
pub open spec fn prepared_history(body: Json, history_replay: Option<HistoryReplay>) -> Json {
    match history_replay {
        Some(HistoryReplay::Omit) => without_reasoning(body),
        _ => body,
    }
}

/// Whether reasoning is still to be normalised for a provider.
pub open spec fn is_to_be_normalized(history_replay: Option<HistoryReplay>) -> bool {
    history_replay == Some(HistoryReplay::ResponsesReasoningTextContent)
}

/// Prepares the reasoning in the history of a Responses request for a provider.
pub fn apply_responses_history_replay(
    body: JsonValue,
    history_replay: Option<HistoryReplay>,
) -> (r: ReplayedBody)
    ensures
        match history_replay {
            Some(HistoryReplay::ResponsesReasoningTextContent) => r matches ReplayedBody::NormalizeReasoning(
                left,
            ) && left@ == body@,
            Some(HistoryReplay::Omit) => r matches ReplayedBody::Done(done) && done@
                == without_reasoning(body@),
            _ => r matches ReplayedBody::Done(done) && done@ == body@,
        },
        match r {
            ReplayedBody::NormalizeReasoning(left) => is_to_be_normalized(history_replay) && left@
                == prepared_history(body@, history_replay),
            ReplayedBody::Done(done) => !is_to_be_normalized(history_replay) && done@
                == prepared_history(body@, history_replay),
        },
{
    match history_replay {
        Some(HistoryReplay::ResponsesReasoningTextContent) => ReplayedBody::NormalizeReasoning(
            body,
        ),
        Some(HistoryReplay::Omit) => ReplayedBody::Done(omit_responses_reasoning_items(body)),
        _ => ReplayedBody::Done(body),
    }
}

// ---------------------------------------------------------------------------
// Laws

/// A value is equal to itself.
pub proof fn lemma_same_json(value: Json)
    ensures
        json::same_json(value, value),
    decreases value,
{
    match value {
        Json::Array(items) => {
            assert forall|i: int| 0 <= i < items.len() implies json::same_json(
                #[trigger] items[i],
                items[i],
            ) by {
                lemma_same_json(items[i]);
            }
        },
        Json::Object(fields) => {
            assert forall|k: Seq<char>| #[trigger] fields.contains_key(k) implies json::same_json(
                fields[k],
                fields[k],
            ) by {
                lemma_same_json(fields[k]);
            }
        },
        _ => {},
    }
}

/// A patch laid over itself changes nothing.
proof fn lemma_patched_self(patch: Json, is_top_level: bool)
    ensures
        patched(patch, patch, is_top_level) == patch,
        !is_changed_by(patch, patch, is_top_level),
    decreases patch,
{
    match patch {
        Json::Object(changes) => {
            assert forall|k: Seq<char>| #[trigger] changes.contains_key(k) implies patched(
                changes[k],
                changes[k],
                false,
            ) == changes[k] && !is_changed_by(changes[k], changes[k], false) by {
                lemma_patched_self(changes[k], false);
            }
            assert(patched(patch, patch, is_top_level)->Object_0 =~= changes);
        },
        _ => {
            lemma_same_json(patch);
        },
    }
}

/// A change is reported exactly where the value differs after the override: a value
/// that is reported as unchanged is the very same as before.
pub proof fn law_change_is_reported_exactly(target: Json, patch: Json, is_top_level: bool)
    ensures
        is_changed_by(target, patch, is_top_level) <==> !json::same_json(
            target,
            patched(target, patch, is_top_level),
        ),
        !is_changed_by(target, patch, is_top_level) ==> patched(target, patch, is_top_level)
            == target,
    decreases patch,
{
    lemma_same_json(target);
    match (target, patch) {
        (Json::Object(fields), Json::Object(changes)) => {
            let after = patched(target, patch, is_top_level)->Object_0;
            if is_changed_by(target, patch, is_top_level) {
                let k = choose|k: Seq<char>|
                    {
                        &&& #[trigger] changes.contains_key(k)
                        &&& !is_left_out(k, is_top_level)
                        &&& !fields.contains_key(k) || is_changed_by(fields[k], changes[k], false)
                    };
                assert(after.contains_key(k));
                if fields.contains_key(k) {
                    law_change_is_reported_exactly(fields[k], changes[k], false);
                    assert(after[k] == patched(fields[k], changes[k], false));
                } else {
                    assert(fields.dom() != after.dom());
                }
            }
            if !is_changed_by(target, patch, is_top_level) {
                assert forall|k: Seq<char>| #[trigger]
                    changes.contains_key(k) && !is_left_out(
                        k,
                        is_top_level,
                    ) implies fields.contains_key(k) && patched(fields[k], changes[k], false)
                    == fields[k] by {
                    law_change_is_reported_exactly(fields[k], changes[k], false);
                }
                assert(patched(target, patch, is_top_level)->Object_0 =~= fields);
            }
        },
        _ => {},
    }
}

/// Laying the same override over a body again changes nothing.
pub proof fn law_override_twice_is_override_once(target: Json, patch: Json, is_top_level: bool)
    ensures
        !is_changed_by(patched(target, patch, is_top_level), patch, is_top_level),
        patched(patched(target, patch, is_top_level), patch, is_top_level) == patched(
            target,
            patch,
            is_top_level,
        ),
    decreases patch,
{
    let once = patched(target, patch, is_top_level);
    match (target, patch) {
        (Json::Object(fields), Json::Object(changes)) => {
            let joined = once->Object_0;
            assert forall|k: Seq<char>| #[trigger]
                changes.contains_key(k) && !is_left_out(k, is_top_level) implies joined.contains_key(
                k,
            ) && !is_changed_by(joined[k], changes[k], false) && patched(
                joined[k],
                changes[k],
                false,
            ) == joined[k] by {
                if fields.contains_key(k) {
                    law_override_twice_is_override_once(fields[k], changes[k], false);
                } else {
                    lemma_patched_self(changes[k], false);
                }
            }
            assert(patched(once, patch, is_top_level)->Object_0 =~= joined);
        },
        _ => {
            if !json::same_json(target, patch) {
                lemma_patched_self(patch, is_top_level);
            }
        },
    }
}

/// An override of an object never touches the switch for streaming, nor a field
/// that it does not name.
pub proof fn law_override_keeps_stream_and_other_fields(
    fields: Map<Seq<char>, Json>,
    changes: Map<Seq<char>, Json>,
    key: Seq<char>,
)
    requires
        key == "stream"@ || !changes.contains_key(key),
    ensures
        patched(Json::Object(fields), Json::Object(changes), true).field(key) == Json::Object(
            fields,
        ).field(key),
{
}

/// After reasoning was left out of a request, none is left in it, and leaving it
/// out again changes nothing.
pub proof fn law_no_reasoning_is_left(body: Json)
    ensures
        without_reasoning(body).items_field("input"@) matches Some(items) ==> forall|i: int|
            0 <= i < items.len() ==> !is_reasoning(#[trigger] items[i]),
        without_reasoning(without_reasoning(body)) == without_reasoning(body),
{
    if let Some(items) = body.items_field("input"@) {
        let keep = |item: Json| !is_reasoning(item);
        lemma_filter_keeps(items, keep);
        lemma_filter_of_kept(items.filter(keep), keep);
        let once = without_reasoning(body);
        assert(once.items_field("input"@) == Some(items.filter(keep)));
        assert(without_reasoning(once)->Object_0 =~= once->Object_0);
    }
}

/// A filtered sequence holds only what was kept.
proof fn lemma_filter_keeps(items: Seq<Json>, keep: spec_fn(Json) -> bool)
    ensures
        forall|i: int| 0 <= i < items.filter(keep).len() ==> keep(#[trigger] items.filter(keep)[i]),
    decreases items.len(),
{
    reveal(Seq::filter);
    if items.len() > 0 {
        lemma_filter_keeps(items.drop_last(), keep);
    }
}

/// Filtering changes nothing where everything is kept.
proof fn lemma_filter_of_kept(items: Seq<Json>, keep: spec_fn(Json) -> bool)
    requires
        forall|i: int| 0 <= i < items.len() ==> keep(#[trigger] items[i]),
    ensures
        items.filter(keep) == items,
    decreases items.len(),
{
    reveal(Seq::filter);
    if items.len() > 0 {
        assert(keep(items[items.len() - 1]));
        lemma_filter_of_kept(items.drop_last(), keep);
        assert(items =~= items.drop_last().push(items.last()));
    } else {
        assert(items.filter(keep) =~= items);
    }
}

/// Whether a value carries everything that a patch names: where the patch is an
/// object, the value is one too and carries each of its fields, but for the switch
/// for streaming at the top of a body; where the patch is anything else, the value
/// is the same.
pub open spec fn carries(value: Json, patch: Json, is_top_level: bool) -> bool
    decreases patch,
{
    match patch {
        Json::Object(changes) => {
            &&& value is Object
            &&& forall|k: Seq<char>| #[trigger]
                changes.contains_key(k) && !(is_top_level && k == "stream"@) ==> {
                    &&& value.field(k) is Some
                    &&& carries(value.field(k)->0, changes[k], false)
                }
        },
        _ => json::same_json(value, patch),
    }
}

/// A value carries itself.
proof fn lemma_carries_itself(value: Json, is_top_level: bool)
    ensures
        carries(value, value, is_top_level),
    decreases value,
{
    match value {
        Json::Object(fields) => {
            assert forall|k: Seq<char>| #[trigger]
                fields.contains_key(k) && !(is_top_level && k == "stream"@) implies {
                &&& value.field(k) is Some
                &&& carries(value.field(k)->0, fields[k], false)
            } by {
                lemma_carries_itself(fields[k], false);
            }
        },
        _ => {
            lemma_same_json(value);
        },
    }
}

/// An override takes effect, whatever stood there before: the result carries all
/// that the patch names, at every depth.
pub proof fn law_override_takes_effect(target: Json, patch: Json, is_top_level: bool)
    ensures
        carries(patched(target, patch, is_top_level), patch, is_top_level),
    decreases patch,
{
    let result = patched(target, patch, is_top_level);
    match (target, patch) {
        (Json::Object(fields), Json::Object(changes)) => {
            assert forall|k: Seq<char>| #[trigger]
                changes.contains_key(k) && !(is_top_level && k == "stream"@) implies {
                &&& result.field(k) is Some
                &&& carries(result.field(k)->0, changes[k], false)
            } by {
                if fields.contains_key(k) {
                    law_override_takes_effect(fields[k], changes[k], false);
                } else {
                    lemma_carries_itself(changes[k], false);
                }
            }
        },
        _ => {
            if json::same_json(target, patch) {
                assert(!(patch is Object));
            } else {
                lemma_carries_itself(patch, is_top_level);
            }
        },
    }
}

/// Whether nothing but what a patch names is different after it: an object keeps
/// every field that the patch does not name, a field that both hold is kept in the
/// same way, and no field comes from elsewhere.
pub open spec fn keeps_unnamed(before: Json, after: Json, patch: Json, is_top_level: bool) -> bool
    decreases patch,
{
    match (before, patch) {
        (Json::Object(fields), Json::Object(changes)) => {
            &&& after is Object
            &&& forall|k: Seq<char>| #[trigger]
                after.field(k) is Some ==> fields.contains_key(k) || (changes.contains_key(k) && !(
                is_top_level && k == "stream"@))
            &&& forall|k: Seq<char>| #[trigger]
                fields.contains_key(k) ==> {
                    if !changes.contains_key(k) || (is_top_level && k == "stream"@) {
                        after.field(k) == Some(fields[k])
                    } else {
                        &&& after.field(k) is Some
                        &&& keeps_unnamed(fields[k], after.field(k)->0, changes[k], false)
                    }
                }
        },
        _ => true,
    }
}

/// An override changes nothing that it does not name, at any depth.
pub proof fn law_override_keeps_the_rest(target: Json, patch: Json, is_top_level: bool)
    ensures
        keeps_unnamed(target, patched(target, patch, is_top_level), patch, is_top_level),
    decreases patch,
{
    let result = patched(target, patch, is_top_level);
    match (target, patch) {
        (Json::Object(fields), Json::Object(changes)) => {
            assert forall|k: Seq<char>| #[trigger] fields.contains_key(k) implies {
                if !changes.contains_key(k) || (is_top_level && k == "stream"@) {
                    result.field(k) == Some(fields[k])
                } else {
                    &&& result.field(k) is Some
                    &&& keeps_unnamed(fields[k], result.field(k)->0, changes[k], false)
                }
            } by {
                if changes.contains_key(k) {
                    law_override_keeps_the_rest(fields[k], changes[k], false);
                }
            }
        },
        _ => {},
    }
}

/// The override of a provider reaches a body exactly where it is an object: then
/// the body carries it and keeps the rest, and otherwise the body is as it was. It
/// is reported exactly where the body is another one than before.
pub proof fn law_provider_override_reaches_the_body(body: Json, wanted: Option<Json>)
    ensures
        wanted is Some && wanted->0 is Object ==> {
            &&& carries(overridden_body(body, wanted), wanted->0, true)
            &&& keeps_unnamed(body, overridden_body(body, wanted), wanted->0, true)
        },
        !(wanted is Some && wanted->0 is Object) ==> overridden_body(body, wanted) == body,
        is_overridden(body, wanted) <==> !json::same_json(body, overridden_body(body, wanted)),
{
    lemma_same_json(body);
    if let Some(patch) = wanted {
        law_override_takes_effect(body, patch, true);
        law_override_keeps_the_rest(body, patch, true);
        law_change_is_reported_exactly(body, patch, true);
    }
}

/// Leaving reasoning out of a request drops nothing else: what is left are the
/// items whose type is not `reasoning`, each as it was and in order, and every
/// other field of the request is unchanged.
pub proof fn law_only_reasoning_is_left_out(body: Json)
    ensures
        body.items_field("input"@) matches Some(items) ==> {
            &&& without_reasoning(body).items_field("input"@) is Some
            &&& listing::lists_kept(
                items,
                without_reasoning(body).items_field("input"@)->0,
                |item: Json| item.text_field("type"@) != Some("reasoning"@),
                |item: Json, left: Json| left == item,
            )
        },
        body.items_field("input"@) is None ==> without_reasoning(body) == body,
        forall|k: Seq<char>|
            k != "input"@ ==> #[trigger] without_reasoning(body).field(k) == body.field(k),
{
    if let Some(items) = body.items_field("input"@) {
        let keep = |item: Json| item.text_field("type"@) != Some("reasoning"@);
        let same = |item: Json, left: Json| left == item;
        listing::lemma_lists_filtered(items, keep, same);
        assert(keep =~= (|item: Json| !is_reasoning(item)));
    }
}

/// Reasoning leaves the history of a request exactly where it is to be left out, and is
/// handed on to be normalised exactly where it is to be told as text; otherwise the
/// request is as it was.
pub proof fn law_history_is_prepared_as_it_is_replayed(
    body: Json,
    history_replay: Option<HistoryReplay>,
)
    ensures
        is_to_be_normalized(history_replay) <==> (history_replay is Some
            && history_replay->0 is ResponsesReasoningTextContent),
        !(history_replay is Some && history_replay->0 is Omit) ==> prepared_history(
            body,
            history_replay,
        ) == body,
        history_replay is Some && history_replay->0 is Omit ==> {
            let next = prepared_history(body, history_replay);
            &&& body.items_field("input"@) is None ==> next == body
            &&& body.items_field("input"@) matches Some(items) ==> {
                &&& next.items_field("input"@) is Some
                &&& listing::lists_kept(
                    items,
                    next.items_field("input"@)->0,
                    |item: Json| item.text_field("type"@) != Some("reasoning"@),
                    |item: Json, left: Json| left == item,
                )
            }
        },
{
    law_only_reasoning_is_left_out(body);
}

} // verus!
