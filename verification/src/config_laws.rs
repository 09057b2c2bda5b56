//! Laws on the owned part of a configuration: which entries belong to it, how they are
//! read, what its fingerprint is made of, and what a merge takes from where.

use crate::config_merge;
use crate::config_projection;
use crate::data_text;
use crate::digest;
use crate::errors::AppFault;
use crate::json::{Json, Number};
use crate::key_paths;
use crate::text;
use crate::toml_document;
use crate::toml_value;
use crate::toml_value::{Float, Toml};
use vstd::prelude::*;

verus! {

// ---------------------------------------------------------------------------
// The owned part

/// Whether a table holds nothing under a key.
pub open spec fn lacks(root: Map<Seq<char>, Toml>, key: Seq<char>) -> bool {
    !root.contains_key(key)
}

/// Whether two tables hold the same under a key, or both nothing.
pub open spec fn same_under(
    first: Map<Seq<char>, Toml>,
    second: Map<Seq<char>, Toml>,
    key: Seq<char>,
) -> bool {
    &&& first.contains_key(key) <==> second.contains_key(key)
    &&& first.contains_key(key) ==> first[key] == second[key]
}

/// Whether a key is that of a setting that is owned as a whole.
pub open spec fn is_owned_setting(key: Seq<char>) -> bool {
    ||| key == "model"@
    ||| key == "model_provider"@
    ||| key == "model_catalog_json"@
    ||| key == "openai_base_url"@
    ||| key == "experimental_bearer_token"@
}

/// Whether a table switches the web search off.
pub open spec fn switches_search_off(root: Map<Seq<char>, Toml>) -> bool {
    root.contains_key("web_search"@) && root["web_search"@] == Toml::Text("disabled"@)
}

/// Whether a table selects this provider: under `model_provider` stands a text, which is
/// the id of the provider but for white space at its ends.
pub open spec fn selects(root: Map<Seq<char>, Toml>, id: Seq<char>) -> bool {
    &&& root.contains_key("model_provider"@)
    &&& root["model_provider"@] matches Toml::Text(raw) && id == text::trimmed(raw)
    &&& id.len() > 0
}

/// Whether a table holds this section of a provider.
pub open spec fn has_section(root: Map<Seq<char>, Toml>, id: Seq<char>, section: Toml) -> bool {
    &&& root.contains_key("model_providers"@)
    &&& root["model_providers"@] matches Toml::Table(providers) && providers.contains_key(id)
        && providers[id] == section
}

/// Whether a table holds no section of a provider.
pub open spec fn lacks_section(root: Map<Seq<char>, Toml>, id: Seq<char>) -> bool {
    root.contains_key("model_providers"@) ==> (root["model_providers"@] matches Toml::Table(
        providers,
    ) ==> !providers.contains_key(id))
}

/// Whether a table holds the section of a provider and nothing besides.
pub open spec fn is_section_alone(value: Toml, id: Seq<char>, section: Toml) -> bool {
    &&& value matches Toml::Table(providers)
    &&& providers.contains_key(id)
    &&& providers[id] == section
    &&& forall|other: Seq<char>| #[trigger] providers.contains_key(other) ==> other == id
}

/// The names of the keys differ.
proof fn lemma_keys()
    ensures
        !is_owned_setting("web_search"@),
        !is_owned_setting("model_providers"@),
        "web_search"@ != "model_providers"@,
{
    reveal_strlit("model");
    reveal_strlit("model_provider");
    reveal_strlit("model_catalog_json");
    reveal_strlit("openai_base_url");
    reveal_strlit("experimental_bearer_token");
    reveal_strlit("web_search");
    reveal_strlit("model_providers");
    assert("model"@.len() == 5);
    assert("model_provider"@.len() == 14);
    assert("model_catalog_json"@.len() == 18);
    assert("openai_base_url"@.len() == 15);
    assert("openai_base_url"@[0] == 'o');
    assert("experimental_bearer_token"@.len() == 25);
    assert("web_search"@.len() == 10);
    assert("model_providers"@.len() == 15);
    assert("model_providers"@[0] == 'm');
}

/// A configuration selects a provider exactly where it names one that is not blank.
pub proof fn law_selected_provider_is_named(root: Map<Seq<char>, Toml>, id: Seq<char>)
    ensures
        config_projection::active_provider(root) == Some(id) <==> selects(root, id),
{
}

/// The owned part of a configuration holds the owned settings as they are, the switch of
/// the web search only where it is off, and of the providers only the section of the
/// given one, or of the selected one where none is given. It holds nothing else.
pub proof fn law_owned_part_is_exact(
    root: Map<Seq<char>, Toml>,
    hint: Option<Seq<char>>,
    key: Seq<char>,
)
    ensures
        ({
            let owned = config_projection::owned_entries(root, hint);
            &&& is_owned_setting(key) ==> same_under(owned, root, key)
            &&& owned.contains_key("web_search"@) <==> switches_search_off(root)
            &&& switches_search_off(root) ==> same_under(owned, root, "web_search"@)
            &&& !is_owned_setting(key) && key != "web_search"@ && key != "model_providers"@
                ==> lacks(owned, key)
            &&& forall|id: Seq<char>, section: Toml|
                {
                    &&& hint == Some(id) || (hint is None && selects(root, id))
                    &&& #[trigger] has_section(root, id, section)
                } ==> owned.contains_key("model_providers"@) && is_section_alone(
                    owned["model_providers"@],
                    id,
                    section,
                )
            &&& forall|id: Seq<char>|
                {
                    &&& hint == Some(id) || (hint is None && selects(root, id))
                    &&& #[trigger] lacks_section(root, id)
                } ==> lacks(owned, "model_providers"@)
            &&& hint is None && (forall|id: Seq<char>| !(#[trigger] selects(root, id))) ==> lacks(
                owned,
                "model_providers"@,
            )
        }),
{
    lemma_keys();
    let owned = config_projection::owned_entries(root, hint);
    if hint is None {
        if let Some(id) = config_projection::active_provider(root) {
            assert(selects(root, id));
        }
    }
}

/// A configuration is read as the JSON form of its owned part: each entry of that part
/// becomes a field, and there is no other field. A text that is no TOML is an error.
pub proof fn law_projection_shows_the_owned_part(source: Seq<char>, hint: Option<Seq<char>>)
    ensures
        match data_text::toml_parsed(source) {
            Err(message) => config_projection::projection(source, hint) == Err::<Json, AppFault>(
                AppFault::Config("Codex config.toml semantic parse failed: "@ + message),
            ),
            Ok(Toml::Table(root)) => {
                let owned = config_projection::owned_entries(root, hint);
                &&& config_projection::projection(source, hint) matches Ok(value)
                &&& value is Object
                &&& forall|k: Seq<char>|
                    (#[trigger] value.field(k)) is Some <==> owned.contains_key(k)
                &&& forall|k: Seq<char>| #[trigger]
                    owned.contains_key(k) ==> value.field(k) == Some(
                        toml_value::canonical(owned[k]),
                    )
            },
            Ok(_) => config_projection::projection(source, hint) is Err,
        },
{
}

/// The JSON form of a value keeps what it holds: texts, whole numbers and truth values
/// as they are, dates as texts, finite floats as numbers and others as texts, arrays item
/// by item and tables entry by entry.
pub proof fn law_canonical_form_keeps_what_a_value_holds(value: Toml)
    ensures
        match value {
            Toml::Text(t) => toml_value::canonical(value) == Json::Text(t),
            Toml::Datetime(t) => toml_value::canonical(value) == Json::Text(t),
            Toml::Integer(i) => toml_value::canonical(value) == Json::Number(Number::Integer(i)),
            Toml::Boolean(b) => toml_value::canonical(value) == Json::Bool(b),
            Toml::Float(Float::Finite(t)) => toml_value::canonical(value) == Json::Number(
                Number::Float(t),
            ),
            Toml::Float(Float::NonFinite(t)) => toml_value::canonical(value) == Json::Text(t),
            Toml::Array(items) => {
                &&& toml_value::canonical(value) matches Json::Array(forms)
                &&& forms.len() == items.len()
                &&& forall|i: int|
                    0 <= i < items.len() ==> (#[trigger] forms[i]) == toml_value::canonical(items[i])
            },
            Toml::Table(entries) => {
                &&& toml_value::canonical(value) matches Json::Object(fields)
                &&& forall|k: Seq<char>| #[trigger]
                    fields.contains_key(k) <==> entries.contains_key(k)
                &&& forall|k: Seq<char>| #[trigger]
                    entries.contains_key(k) ==> fields[k] == toml_value::canonical(entries[k])
            },
        },
{
}

/// The fingerprint of a configuration is the digest of its owned part as JSON, written in
/// hexadecimal: two digits for each byte, the high half first. There is one exactly where
/// the owned part can be read.
pub proof fn law_fingerprint_is_the_digest_of_the_owned_part(
    source: Seq<char>,
    hint: Option<Seq<char>>,
)
    ensures
        match config_projection::projection(source, hint) {
            Err(fault) => config_projection::owned_fingerprint(source, hint) == Err::<
                Seq<char>,
                AppFault,
            >(fault),
            Ok(value) => {
                let bytes = digest::sha256(data_text::json_serialized(value));
                &&& config_projection::owned_fingerprint(source, hint) matches Ok(fingerprint)
                &&& config_projection::json_fingerprint(value) == Ok::<Seq<char>, AppFault>(
                    fingerprint,
                )
                &&& fingerprint.len() == 2 * bytes.len()
                &&& forall|i: int|
                    0 <= i < bytes.len() ==> {
                        &&& text::digit_value(fingerprint[2 * i]) == (#[trigger] bytes[i]) as int
                            / 16
                        &&& text::digit_value(fingerprint[2 * i + 1]) == bytes[i] as int % 16
                    }
            },
        },
{
    if let Ok(value) = config_projection::projection(source, hint) {
        text::law_lower_hex(digest::sha256(data_text::json_serialized(value)));
    }
}

// ---------------------------------------------------------------------------
// Merging

/// A merge takes from the expected configuration the owned settings, a web search that is
/// switched off, and the section of the provider that it selects. A web search that was
/// only switched off before is no longer so. Everything else stays as it was, other
/// providers and a web search that is on among it.
pub proof fn law_merge_takes_each_entry_from_its_owner(
    current: Map<Seq<char>, Toml>,
    expected: Map<Seq<char>, Toml>,
    key: Seq<char>,
)
    ensures
        ({
            let merged = config_merge::merged(current, expected);
            &&& is_owned_setting(key) ==> same_under(merged, expected, key)
            &&& !is_owned_setting(key) && key != "web_search"@ && key != "model_providers"@
                ==> same_under(merged, current, key)
            &&& switches_search_off(expected) ==> same_under(merged, expected, "web_search"@)
            &&& !switches_search_off(expected) && switches_search_off(current) ==> lacks(
                merged,
                "web_search"@,
            )
            &&& !switches_search_off(expected) && !switches_search_off(current) ==> same_under(
                merged,
                current,
                "web_search"@,
            )
            &&& (forall|id: Seq<char>| !(#[trigger] selects(expected, id))) ==> same_under(
                merged,
                current,
                "model_providers"@,
            )
        }),
{
    lemma_keys();
    if let Some(id) = config_projection::active_provider(expected) {
        assert(selects(expected, id));
    }
}

/// A merge with a configuration that selects a provider gives that provider the section
/// that this configuration has of it, or none, and leaves the section of every other
/// provider as it was. Where no section is left, there is no table of providers.
pub proof fn law_merge_replaces_one_provider(
    current: Map<Seq<char>, Toml>,
    expected: Map<Seq<char>, Toml>,
    id: Seq<char>,
)
    requires
        selects(expected, id),
        current.contains_key("model_providers"@) ==> current["model_providers"@] is Table,
    ensures
        ({
            let merged = config_merge::merged(current, expected);
            &&& forall|section: Toml| #[trigger]
                has_section(expected, id, section) ==> has_section(merged, id, section)
            &&& lacks_section(expected, id) ==> lacks_section(merged, id)
            &&& forall|other: Seq<char>, section: Toml|
                other != id ==> (#[trigger] has_section(merged, other, section) <==> has_section(
                    current,
                    other,
                    section,
                ))
            &&& merged.contains_key("model_providers"@) <==> exists|any: Seq<char>, section: Toml|
                #[trigger]
                has_section(merged, any, section)
        }),
{
    lemma_keys();
    let merged = config_merge::merged(current, expected);
    let sections = config_merge::merged_sections(current, expected, id);
    let none: Map<Seq<char>, Toml> = Map::empty();
    assert(config_projection::active_provider(expected) == Some(id));
    if merged.contains_key("model_providers"@) {
        assert(merged["model_providers"@] == Toml::Table(sections));
        assert(sections != none);
        if forall|k: Seq<char>| !(#[trigger] sections.contains_key(k)) {
            assert(sections =~= none);
        }
        let any = choose|k: Seq<char>| #[trigger] sections.contains_key(k);
        assert(has_section(merged, any, sections[any]));
    } else {
        assert(sections == none);
        assert forall|k: Seq<char>| !(#[trigger] sections.contains_key(k)) by {}
    }
    assert forall|other: Seq<char>, section: Toml| other != id implies (#[trigger] has_section(
        merged,
        other,
        section,
    ) <==> has_section(current, other, section)) by {
        assert(sections.contains_key(other) <==> config_merge::sections(current).contains_key(
            other,
        ));
    }
    assert forall|section: Toml| #[trigger] has_section(expected, id, section) implies has_section(
        merged,
        id,
        section,
    ) by {
        assert(sections.contains_key(id));
    }
}

/// A merge fails exactly where one of the texts is no TOML, or where a provider is
/// selected and the current entry for providers is no table.
pub proof fn law_merge_fails_only_where_it_must(current: Seq<char>, expected: Seq<char>)
    ensures
        match (
            toml_document::document_parsed(current),
            toml_document::document_parsed(expected),
        ) {
            (Err(message), _) => config_merge::merge_fault(current, expected) == Some(
                AppFault::Config("Invalid live Codex config.toml: "@ + message),
            ),
            (Ok(_), Err(message)) => config_merge::merge_fault(current, expected) == Some(
                AppFault::Config("Invalid expected Codex config.toml: "@ + message),
            ),
            (Ok(before), Ok(wanted)) => {
                let bars = before.contains_key("model_providers"@) && !(
                before["model_providers"@] is Table) && exists|id: Seq<char>| #[trigger]
                    selects(wanted, id);
                &&& bars ==> config_merge::merge_fault(current, expected) == Some(
                    AppFault::Config("Codex model_providers must be a table"@),
                )
                &&& !bars ==> config_merge::merge_fault(current, expected) is None
            },
        },
{
    if let (Ok(before), Ok(wanted)) = (
        toml_document::document_parsed(current),
        toml_document::document_parsed(expected),
    ) {
        if let Some(id) = config_projection::active_provider(wanted) {
            assert(selects(wanted, id));
        }
    }
}

/// Whether a merge has to change the entry under a key.
pub open spec fn is_touched(
    current: Map<Seq<char>, Toml>,
    expected: Map<Seq<char>, Toml>,
    key: Seq<char>,
) -> bool {
    ||| is_owned_setting(key)
    ||| key == "web_search"@ && (switches_search_off(expected) || switches_search_off(current))
    ||| key == "model_providers"@ && exists|id: Seq<char>| #[trigger] selects(expected, id)
}

/// A merge leaves the layout alone but where it has to change an entry: of the owned
/// settings, of a web search that one side switches off, and of the providers where one
/// is selected.
pub proof fn law_merge_touches_only_what_it_owns(
    current: Map<Seq<char>, Toml>,
    expected: Map<Seq<char>, Toml>,
    key: Seq<char>,
)
    ensures
        config_merge::touched_keys(current, expected).contains(key) <==> is_touched(
            current,
            expected,
            key,
        ),
{
    if let Some(id) = config_projection::active_provider(expected) {
        assert(selects(expected, id));
    }
}

/// A merged text is that of a document with the merged entries in which every entry that
/// the merge has not to change is written as it was, in its order, and which ends as it
/// did.
pub proof fn law_merged_text_keeps_the_layout(
    result: Seq<char>,
    current: Seq<char>,
    expected: Seq<char>,
)
    requires
        config_merge::prints_merge(result, current, expected),
    ensures
        ({
            let before = toml_document::document_parsed(current)->Ok_0;
            let wanted = toml_document::document_parsed(expected)->Ok_0;
            let touched = Set::new(|key: Seq<char>| is_touched(before, wanted, key));
            exists|document: toml_edit::DocumentMut|
                {
                    &&& result == #[trigger] toml_document::document_text(document)
                    &&& toml_document::document_entries(document) == config_merge::merged(
                        before,
                        wanted,
                    )
                    &&& toml_document::forms_without(
                        toml_document::document_layout(document).entries,
                        touched,
                    ) == toml_document::forms_without(
                        toml_document::layout_parsed(current).entries,
                        touched,
                    )
                    &&& toml_document::document_layout(document).trailing
                        == toml_document::layout_parsed(current).trailing
                    &&& forall|id: Seq<char>|
                        {
                            &&& #[trigger] selects(wanted, id)
                            &&& before.contains_key("model_providers"@)
                            &&& config_merge::merged(before, wanted).contains_key(
                                "model_providers"@,
                            )
                        } ==> toml_document::forms_without(
                            toml_document::table_layout(document, "model_providers"@),
                            set![id],
                        ) == toml_document::forms_without(
                            toml_document::table_layout_parsed(current, "model_providers"@),
                            set![id],
                        )
                    &&& (forall|id: Seq<char>| !(#[trigger] selects(wanted, id)))
                        ==> toml_document::table_layout(document, "model_providers"@)
                        == toml_document::table_layout_parsed(current, "model_providers"@)
                }
        }),
{
    let before = toml_document::document_parsed(current)->Ok_0;
    let wanted = toml_document::document_parsed(expected)->Ok_0;
    let touched = Set::new(|key: Seq<char>| is_touched(before, wanted, key));
    assert forall|key: Seq<char>| touched.contains(key) <==> config_merge::touched_keys(
        before,
        wanted,
    ).contains(key) by {
        law_merge_touches_only_what_it_owns(before, wanted, key);
    }
    assert(touched =~= config_merge::touched_keys(before, wanted));
    if let Some(id) = config_projection::active_provider(wanted) {
        assert(selects(wanted, id));
    }
    let document = choose|document: toml_edit::DocumentMut|
        {
            &&& toml_document::document_entries(document) == config_merge::merged(before, wanted)
            &&& config_merge::keeps_layout(document, current, before, wanted)
            &&& result == #[trigger] toml_document::document_text(document)
        };
    assert(result == toml_document::document_text(document));
}

/// A whole configuration is read as its JSON form wherever it is TOML, and otherwise the
/// message of the error is passed on. Between two texts the changed paths are those of
/// their forms; where one cannot be read, the first such error is given.
pub proof fn law_whole_texts_are_compared_by_their_forms(first: Seq<char>, second: Seq<char>)
    ensures
        match data_text::toml_parsed(first) {
            Ok(value) => config_projection::canonical_text(first) == Ok::<Json, AppFault>(
                toml_value::canonical(value),
            ),
            Err(message) => config_projection::canonical_text(first) == Err::<Json, AppFault>(
                AppFault::Config("Codex config.toml semantic parse failed: "@ + message),
            ),
        },
        ({
            let changed = key_paths::changed_between(
                config_projection::canonical_text(first),
                config_projection::canonical_text(second),
            );
            match (data_text::toml_parsed(first), data_text::toml_parsed(second)) {
                (Ok(before), Ok(after)) => {
                    &&& changed is Ok
                    &&& key_paths::lists_first_changes(
                        changed->Ok_0,
                        toml_value::canonical(before),
                        toml_value::canonical(after),
                    )
                },
                (Err(message), _) => changed == Err::<Seq<Seq<char>>, AppFault>(
                    AppFault::Config("Codex config.toml semantic parse failed: "@ + message),
                ),
                (Ok(_), Err(message)) => changed == Err::<Seq<Seq<char>>, AppFault>(
                    AppFault::Config("Codex config.toml semantic parse failed: "@ + message),
                ),
            }
        }),
{
    if let (Ok(before), Ok(after)) = (data_text::toml_parsed(first), data_text::toml_parsed(second)) {
        key_paths::law_changes_are_listed_in_order(
            toml_value::canonical(before),
            toml_value::canonical(after),
        );
    }
}

} // verus!
