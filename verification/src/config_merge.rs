//! Writing the owned part of one configuration into another, and what that
//! keeps.

use crate::config_projection;
use crate::data_text;
use crate::errors::{AppError, AppFault};
use crate::key_paths;
use crate::text;
use crate::toml_document;
use crate::toml_value;
use crate::toml_value::Toml;
use vstd::prelude::*;

verus! {

/// The provider sections of a configuration: none where it has no such table.
pub open spec fn sections(root: Map<Seq<char>, Toml>) -> Map<Seq<char>, Toml> {
    match toml_value::entry_of(root, "model_providers"@) {
        Some(Toml::Table(entries)) => entries,
        _ => Map::empty(),
    }
}

/// The provider sections after a merge: those of `current`, with the section of
/// the provider that `expected` selects as it stands in `expected`.
pub open spec fn merged_sections(
    current: Map<Seq<char>, Toml>,
    expected: Map<Seq<char>, Toml>,
    id: Seq<char>,
) -> Map<Seq<char>, Toml> {
    match config_projection::provider_section(expected, id) {
        Some(section) => sections(current).insert(id, section),
        None => sections(current).remove(id),
    }
}

/// What a merge leaves under one top-level key.
pub open spec fn merged_entry(
    current: Map<Seq<char>, Toml>,
    expected: Map<Seq<char>, Toml>,
    key: Seq<char>,
) -> Option<Toml> {
    if config_projection::is_managed_key(key) {
        toml_value::entry_of(expected, key)
    } else if key == config_projection::CODEX_WEB_SEARCH_FIELD@ {
        if toml_value::text_entry(expected, key) == Some(
            config_projection::CODEX_WEB_SEARCH_DISABLED@,
        ) {
            toml_value::entry_of(expected, key)
        } else if toml_value::text_entry(current, key) == Some(
            config_projection::CODEX_WEB_SEARCH_DISABLED@,
        ) {
            None
        } else {
            toml_value::entry_of(current, key)
        }
    } else if key == "model_providers"@ {
        match config_projection::active_provider(expected) {
            Some(id) => if merged_sections(current, expected, id) == Map::<
                Seq<char>,
                Toml,
            >::empty() {
                None
            } else {
                Some(Toml::Table(merged_sections(current, expected, id)))
            },
            None => toml_value::entry_of(current, key),
        }
    } else {
        toml_value::entry_of(current, key)
    }
}

/// The entries after a merge.
pub open spec fn merged(
    current: Map<Seq<char>, Toml>,
    expected: Map<Seq<char>, Toml>,
) -> Map<Seq<char>, Toml> {
    Map::new(
        |k: Seq<char>| merged_entry(current, expected, k) is Some,
        |k: Seq<char>| merged_entry(current, expected, k)->0,
    )
}

/// Whether a merge has a place for the provider section: `expected` selects no
/// provider, or `current` has a table or nothing where the sections stand.
pub open spec fn mergeable(
    current: Map<Seq<char>, Toml>,
    expected: Map<Seq<char>, Toml>,
) -> bool {
    ||| config_projection::active_provider(expected) is None
    ||| toml_value::entry_of(current, "model_providers"@) is None
    ||| toml_value::entry_of(current, "model_providers"@)->0 is Table
}

/// The error of a merge, where it has one.
pub open spec fn merge_fault(current: Seq<char>, expected: Seq<char>) -> Option<AppFault> {
    match toml_document::document_parsed(current) {
        Err(message) => Some(AppFault::Config("Invalid live Codex config.toml: "@ + message)),
        Ok(target) => match toml_document::document_parsed(expected) {
            Err(message) => Some(
                AppFault::Config("Invalid expected Codex config.toml: "@ + message),
            ),
            Ok(source) => if mergeable(target, source) {
                None
            } else {
                Some(AppFault::Config("Codex model_providers must be a table"@))
            },
        },
    }
}

/// The top-level keys that a merge touches: the managed keys, the web search switch
/// where one of the texts turns it off, and the provider sections where `expected`
/// selects a provider.
pub open spec fn touched_keys(
    current: Map<Seq<char>, Toml>,
    expected: Map<Seq<char>, Toml>,
) -> Set<Seq<char>> {
    Set::new(
        |key: Seq<char>|
            {
                ||| config_projection::is_managed_key(key)
                ||| key == config_projection::CODEX_WEB_SEARCH_FIELD@ && (turns_search_off(expected)
                    || turns_search_off(current))
                ||| key == "model_providers"@ && config_projection::active_provider(expected)
                    is Some
            },
    )
}

/// Whether a configuration turns the web search off.
pub open spec fn turns_search_off(root: Map<Seq<char>, Toml>) -> bool {
    toml_value::text_entry(root, config_projection::CODEX_WEB_SEARCH_FIELD@) == Some(
        config_projection::CODEX_WEB_SEARCH_DISABLED@,
    )
}

/// Whether a document is laid out as the text `current` but for what a merge touches:
/// the other entries, and the sections of the other providers, have their forms and
/// their order, and the text behind the last entry is the same.
pub open spec fn keeps_layout(
    document: toml_edit::DocumentMut,
    current: Seq<char>,
    before: Map<Seq<char>, Toml>,
    wanted: Map<Seq<char>, Toml>,
) -> bool {
    let layout = toml_document::document_layout(document);
    let old_layout = toml_document::layout_parsed(current);
    let touched = touched_keys(before, wanted);
    &&& toml_document::forms_without(layout.entries, touched) == toml_document::forms_without(
        old_layout.entries,
        touched,
    )
    &&& layout.trailing == old_layout.trailing
    &&& keeps_sections(
        toml_document::table_layout(document, "model_providers"@),
        current,
        before,
        wanted,
    )
}

/// Whether the sections of the providers that `wanted` does not select are laid out
/// as in the text `current`, where it has such sections and some are left.
pub open spec fn keeps_sections(
    forms: toml_document::Forms,
    current: Seq<char>,
    before: Map<Seq<char>, Toml>,
    wanted: Map<Seq<char>, Toml>,
) -> bool {
    let old_forms = toml_document::table_layout_parsed(current, "model_providers"@);
    match config_projection::active_provider(wanted) {
        Some(id) => toml_value::entry_of(before, "model_providers"@) is Some && merged(
            before,
            wanted,
        ).contains_key("model_providers"@) ==> toml_document::forms_without(forms, set![id])
            == toml_document::forms_without(old_forms, set![id]),
        None => forms == old_forms,
    }
}

/// Whether a text is what a document prints as that has the merged entries of two
/// texts, and the layout of the first but for what the merge touches.
pub open spec fn prints_merge(result: Seq<char>, current: Seq<char>, expected: Seq<char>) -> bool {
    let before = toml_document::document_parsed(current)->Ok_0;
    let wanted = toml_document::document_parsed(expected)->Ok_0;
    exists|document: toml_edit::DocumentMut|
        {
            &&& toml_document::document_entries(document) == merged(before, wanted)
            &&& keeps_layout(document, current, before, wanted)
            &&& result == #[trigger] toml_document::document_text(document)
        }
}

/// Gives a top-level key the item that it has in `expected`, or none.
fn copy_or_remove_top_level_item(
    target: &mut toml_edit::DocumentMut,
    expected: &toml_edit::DocumentMut,
    key: &str,
)
    ensures
        toml_document::document_entries(*final(target)) == match toml_value::entry_of(
            toml_document::document_entries(*expected),
            key@,
        ) {
            Some(value) => toml_document::document_entries(*old(target)).insert(key@, value),
            None => toml_document::document_entries(*old(target)).remove(key@),
        },
        toml_document::laid_out_alike_but(*final(target), *old(target), key@),
{
    match toml_document::document_get(expected, key) {
        Some(item) => {
            toml_document::document_insert(target, key, item);
        },
        None => {
            toml_document::document_remove(target, key);
        },
    }
}

/// The text of a top-level entry that holds a string.
fn document_str(document: &toml_edit::DocumentMut, key: &str) -> (r: Option<String>)
    ensures
        text::opt_view(r) == toml_value::text_entry(
            toml_document::document_entries(*document),
            key@,
        ),
{
    match toml_document::document_get(document, key) {
        Some(item) => toml_document::item_str(&item),
        None => None,
    }
}

/// Whether a top-level entry turns the web search off.
fn web_search_disabled(document: &toml_edit::DocumentMut) -> (r: bool)
    ensures
        r == (toml_value::text_entry(
            toml_document::document_entries(*document),
            config_projection::CODEX_WEB_SEARCH_FIELD@,
        ) == Some(config_projection::CODEX_WEB_SEARCH_DISABLED@)),
{
    match document_str(document, config_projection::CODEX_WEB_SEARCH_FIELD) {
        Some(switch) => text::same(
            switch.as_str(),
            config_projection::CODEX_WEB_SEARCH_DISABLED,
        ),
        None => false,
    }
}

/// Whether a document is laid out as another but for these top-level keys.
pub open spec fn laid_out_alike(
    after: toml_edit::DocumentMut,
    before: toml_edit::DocumentMut,
    keys: Set<Seq<char>>,
) -> bool {
    &&& toml_document::forms_without(toml_document::document_layout(after).entries, keys)
        == toml_document::forms_without(toml_document::document_layout(before).entries, keys)
    &&& toml_document::document_layout(after).trailing == toml_document::document_layout(
        before,
    ).trailing
}

/// A step that touches one of the keys keeps the layout but for these keys.
proof fn lemma_laid_out_alike(
    after: toml_edit::DocumentMut,
    before: toml_edit::DocumentMut,
    start: toml_edit::DocumentMut,
    key: Seq<char>,
    keys: Set<Seq<char>>,
)
    requires
        toml_document::laid_out_alike_but(after, before, key),
        laid_out_alike(before, start, keys),
        keys.contains(key),
    ensures
        laid_out_alike(after, start, keys),
{
    toml_document::lemma_forms_without(
        toml_document::document_layout(after).entries,
        set![key],
        keys,
    );
    toml_document::lemma_forms_without(
        toml_document::document_layout(before).entries,
        set![key],
        keys,
    );
}

/// Gives the managed keys and the web search switch what they have in `expected`.
fn merge_top_level(target: &mut toml_edit::DocumentMut, expected: &toml_edit::DocumentMut)
    ensures
        forall|k: Seq<char>| k != "model_providers"@ ==> #[trigger] toml_value::entry_of(
            toml_document::document_entries(*final(target)),
            k,
        ) == merged_entry(
            toml_document::document_entries(*old(target)),
            toml_document::document_entries(*expected),
            k,
        ),
        toml_value::entry_of(toml_document::document_entries(*final(target)), "model_providers"@)
            == toml_value::entry_of(
            toml_document::document_entries(*old(target)),
            "model_providers"@,
        ),
        laid_out_alike(
            *final(target),
            *old(target),
            touched_keys(
                toml_document::document_entries(*old(target)),
                toml_document::document_entries(*expected),
            ),
        ),
        toml_document::table_layout(*final(target), "model_providers"@)
            == toml_document::table_layout(*old(target), "model_providers"@),
{
    let ghost start = *target;
    let ghost touched = touched_keys(
        toml_document::document_entries(*target),
        toml_document::document_entries(*expected),
    );
    proof {
        config_projection::lemma_keys_differ();
    }
    let ghost current = toml_document::document_entries(*target);
    let ghost source = toml_document::document_entries(*expected);
    let keys = config_projection::managed_keys();
    let mut i: usize = 0;
    while i < keys.len()
        invariant
            i <= keys@.len(),
            source == toml_document::document_entries(*expected),
            forall|k: Seq<char>| #[trigger] toml_value::entry_of(
                toml_document::document_entries(*target),
                k,
            ) == if exists|j: int| 0 <= j < i && (#[trigger] keys@[j])@ == k {
                toml_value::entry_of(source, k)
            } else {
                toml_value::entry_of(current, k)
            },
            keys@.len() == 5,
            forall|k: Seq<char>| #[trigger]
                config_projection::is_managed_key(k) <==> (exists|j: int|
                    0 <= j < 5 && (#[trigger] keys@[j])@ == k),
            touched == touched_keys(current, source),
            !config_projection::is_managed_key("model_providers"@),
            laid_out_alike(*target, start, touched),
            toml_document::table_layout(*target, "model_providers"@)
                == toml_document::table_layout(start, "model_providers"@),
        decreases keys@.len() - i,
    {
        let ghost before = toml_document::document_entries(*target);
        let ghost earlier = *target;
        copy_or_remove_top_level_item(target, expected, keys[i]);
        proof {
            assert(config_projection::is_managed_key(keys@[i as int]@));
            lemma_laid_out_alike(*target, earlier, start, keys@[i as int]@, touched);
            let after = toml_document::document_entries(*target);
            assert forall|k: Seq<char>| #[trigger] toml_value::entry_of(after, k) == if exists|j: int|
                0 <= j < i + 1 && (#[trigger] keys@[j])@ == k {
                toml_value::entry_of(source, k)
            } else {
                toml_value::entry_of(current, k)
            } by {
                assert(k != keys@[i as int]@ ==> toml_value::entry_of(after, k)
                    == toml_value::entry_of(before, k));
            }
        }
        i = i + 1;
    }
    proof {
        config_projection::lemma_keys_differ();
    }
    assert(forall|k: Seq<char>| #[trigger]
        toml_value::entry_of(toml_document::document_entries(*target), k)
            == if config_projection::is_managed_key(k) {
            toml_value::entry_of(source, k)
        } else {
            toml_value::entry_of(current, k)
        });
    let ghost middle = toml_document::document_entries(*target);
    let ghost earlier = *target;
    if web_search_disabled(expected) {
        copy_or_remove_top_level_item(target, expected, config_projection::CODEX_WEB_SEARCH_FIELD);
        proof {
            lemma_laid_out_alike(
                *target,
                earlier,
                start,
                config_projection::CODEX_WEB_SEARCH_FIELD@,
                touched,
            );
        }
    } else if web_search_disabled(target) {
        toml_document::document_remove(target, config_projection::CODEX_WEB_SEARCH_FIELD);
        proof {
            lemma_laid_out_alike(
                *target,
                earlier,
                start,
                config_projection::CODEX_WEB_SEARCH_FIELD@,
                touched,
            );
        }
    }
    assert forall|k: Seq<char>| k != config_projection::CODEX_WEB_SEARCH_FIELD@ implies
        #[trigger] toml_value::entry_of(toml_document::document_entries(*target), k)
        == toml_value::entry_of(middle, k) by {}
}

/// Gives the provider section with this id what it has in `expected`. Says
/// whether there is a place for it.
fn merge_provider_section(
    target: &mut toml_edit::DocumentMut,
    expected: &toml_edit::DocumentMut,
    id: &str,
) -> (r: bool)
    ensures
        r == (toml_value::entry_of(
            toml_document::document_entries(*old(target)),
            "model_providers"@,
        ) matches Some(value) ==> value is Table),
        r ==> ({
            let current = toml_document::document_entries(*old(target));
            let next = merged_sections(current, toml_document::document_entries(*expected), id@);
            toml_document::document_entries(*final(target)) == if next == Map::<
                Seq<char>,
                Toml,
            >::empty() {
                current.remove("model_providers"@)
            } else {
                current.insert("model_providers"@, Toml::Table(next))
            }
        }),
        toml_document::laid_out_alike_but(*final(target), *old(target), "model_providers"@),
        r && toml_value::entry_of(
            toml_document::document_entries(*old(target)),
            "model_providers"@,
        ) is Some && toml_document::document_entries(*final(target)).contains_key(
            "model_providers"@,
        ) ==> toml_document::forms_without(
            toml_document::table_layout(*final(target), "model_providers"@),
            set![id@],
        ) == toml_document::forms_without(
            toml_document::table_layout(*old(target), "model_providers"@),
            set![id@],
        ),
{
    let ghost current = toml_document::document_entries(*target);
    let section = match toml_document::document_get(expected, "model_providers") {
        Some(providers) => toml_document::item_get(&providers, id),
        None => None,
    };
    if toml_document::document_get(target, "model_providers").is_none() {
        toml_document::document_insert(target, "model_providers", toml_document::empty_table());
    }
    let found = match section {
        Some(section) => toml_document::nested_insert(target, "model_providers", id, section),
        None => toml_document::nested_remove(target, "model_providers", id),
    };
    if !found {
        return false;
    }
    let ghost next = merged_sections(current, toml_document::document_entries(*expected), id@);
    assert(toml_document::document_entries(*target) =~= current.insert(
        "model_providers"@,
        Toml::Table(next),
    ));
    if let Some(providers) = toml_document::document_get(target, "model_providers") {
        if toml_document::is_empty_table(&providers) {
            toml_document::document_remove(target, "model_providers");
            assert(toml_document::document_entries(*target) =~= current.remove("model_providers"@));
        }
    }
    true
}

/// Writes the owned part of `expected` into the text `current`: everything else
/// stays as it is in `current`, with its comments and in its order.
pub fn merge_ccsm_owned_projection(current: &str, expected: &str) -> (r: Result<String, AppError>)
    ensures
        match merge_fault(current@, expected@) {
            Some(fault) => r matches Err(e) && e@ == fault,
            None => r matches Ok(result) && prints_merge(result@, current@, expected@),
        },
{
    let mut target = match toml_document::parse_document(current) {
        Ok(document) => document,
        Err(message) => return Err(
            AppError::Config(text::joined("Invalid live Codex config.toml: ", message.as_str())),
        ),
    };
    let source = match toml_document::parse_document(expected) {
        Ok(document) => document,
        Err(message) => return Err(
            AppError::Config(
                text::joined("Invalid expected Codex config.toml: ", message.as_str()),
            ),
        ),
    };
    let ghost before = toml_document::document_entries(target);
    let ghost wanted = toml_document::document_entries(source);
    let ghost start = target;
    merge_top_level(&mut target, &source);
    let ghost middle = toml_document::document_entries(target);
    let ghost earlier = target;
    proof {
        config_projection::lemma_keys_differ();
        assert(sections(middle) == sections(before));
    }
    let id = config_projection::not_blank(
        text::borrow_opt(&document_str(&source, "model_provider")),
    );
    if let Some(id) = id {
        if !merge_provider_section(&mut target, &source, id.as_str()) {
            return Err(AppError::config("Codex model_providers must be a table"));
        }
        proof {
            lemma_laid_out_alike(
                target,
                earlier,
                start,
                "model_providers"@,
                touched_keys(before, wanted),
            );
        }
    }
    proof {
        let after = toml_document::document_entries(target);
        assert forall|k: Seq<char>| #[trigger]
            toml_value::entry_of(after, k) == merged_entry(before, wanted, k) by {
            if k != "model_providers"@ {
                assert(toml_value::entry_of(middle, k) == merged_entry(before, wanted, k));
            }
        }
        assert forall|k: Seq<char>| #[trigger]
            after.contains_key(k) == merged(before, wanted).contains_key(k) by {
            assert(toml_value::entry_of(after, k) == merged_entry(before, wanted, k));
        }
        assert forall|k: Seq<char>| #[trigger]
            after.contains_key(k) implies after[k] == merged(before, wanted)[k] by {
            assert(toml_value::entry_of(after, k) == merged_entry(before, wanted, k));
        }
        assert(after =~= merged(before, wanted));
        assert(keeps_layout(target, current@, before, wanted));
    }
    Ok(toml_document::print_document(&target))
}

// ---------------------------------------------------------------------------
// Laws

/// What CCSM owns is the same after a merge as in the configuration that was
/// merged in: a repair leaves no drift.
pub proof fn law_merge_restores_owned_part(
    current: Map<Seq<char>, Toml>,
    expected: Map<Seq<char>, Toml>,
)
    ensures
        ({
            let hint = config_projection::active_provider(expected);
            config_projection::owned_entries(merged(current, expected), hint)
                == config_projection::owned_entries(expected, hint)
        }),
{
    config_projection::lemma_keys_differ();
    let hint = config_projection::active_provider(expected);
    let after = merged(current, expected);
    assert(config_projection::is_managed_key("model_provider"@));
    assert(toml_value::entry_of(after, "model_provider"@) == merged_entry(
        current,
        expected,
        "model_provider"@,
    ));
    assert forall|k: Seq<char>| #[trigger]
        config_projection::owned_entry(after, hint, k) == config_projection::owned_entry(
            expected,
            hint,
            k,
        ) by {
        assert(toml_value::entry_of(after, k) == merged_entry(current, expected, k));
        if k == "model_providers"@ && hint is Some {
            let id = hint->0;
            let next = merged_sections(current, expected, id);
            if next == Map::<Seq<char>, Toml>::empty() {
                assert(!next.contains_key(id));
            }
        }
    }
    assert(config_projection::owned_entries(after, hint) =~= config_projection::owned_entries(
        expected,
        hint,
    ));
}

/// A merge changes nothing that CCSM does not own: neither a top-level key nor
/// the section of another provider.
pub proof fn law_merge_keeps_the_rest(
    current: Map<Seq<char>, Toml>,
    expected: Map<Seq<char>, Toml>,
    key: Seq<char>,
    id: Seq<char>,
)
    requires
        mergeable(current, expected),
    ensures
        !config_projection::is_managed_key(key) && key
            != config_projection::CODEX_WEB_SEARCH_FIELD@ && key != "model_providers"@
            ==> toml_value::entry_of(merged(current, expected), key) == toml_value::entry_of(
            current,
            key,
        ),
        config_projection::active_provider(expected) != Some(id)
            ==> config_projection::provider_section(merged(current, expected), id)
            == config_projection::provider_section(current, id),
        toml_value::text_entry(expected, config_projection::CODEX_WEB_SEARCH_FIELD@) != Some(
            config_projection::CODEX_WEB_SEARCH_DISABLED@,
        ) && toml_value::text_entry(current, config_projection::CODEX_WEB_SEARCH_FIELD@) != Some(
            config_projection::CODEX_WEB_SEARCH_DISABLED@,
        ) ==> toml_value::entry_of(
            merged(current, expected),
            config_projection::CODEX_WEB_SEARCH_FIELD@,
        ) == toml_value::entry_of(current, config_projection::CODEX_WEB_SEARCH_FIELD@),
{
    config_projection::lemma_keys_differ();
    let after = merged(current, expected);
    assert(toml_value::entry_of(after, "model_providers"@) == merged_entry(
        current,
        expected,
        "model_providers"@,
    ));
    if config_projection::active_provider(expected) is Some {
        let chosen = config_projection::active_provider(expected)->0;
        let next = merged_sections(current, expected, chosen);
        if chosen != id {
            assert(next.contains_key(id) == sections(current).contains_key(id));
            if next == Map::<Seq<char>, Toml>::empty() {
                assert(!next.contains_key(id));
            }
        }
    }
}

/// Merging a second time changes nothing.
pub proof fn law_merge_twice_is_merge_once(
    current: Map<Seq<char>, Toml>,
    expected: Map<Seq<char>, Toml>,
)
    ensures
        merged(merged(current, expected), expected) == merged(current, expected),
        mergeable(current, expected) ==> mergeable(merged(current, expected), expected),
{
    config_projection::lemma_keys_differ();
    let once = merged(current, expected);
    assert forall|k: Seq<char>| #[trigger]
        merged_entry(once, expected, k) == merged_entry(current, expected, k) by {
        assert(toml_value::entry_of(once, k) == merged_entry(current, expected, k));
        if k == "model_providers"@ && config_projection::active_provider(expected) is Some {
            let id = config_projection::active_provider(expected)->0;
            let next = merged_sections(current, expected, id);
            if next == Map::<Seq<char>, Toml>::empty() {
                assert(sections(once) =~= next);
            }
            assert(sections(once) == next);
            assert(merged_sections(once, expected, id) =~= next);
        }
    }
    assert(merged(once, expected) =~= once);
}

/// A top-level key that CCSM does not own is no part of what it owns, whatever
/// the user writes there.
pub proof fn law_user_keys_do_not_count(
    root: Map<Seq<char>, Toml>,
    hint: Option<Seq<char>>,
    key: Seq<char>,
    value: Toml,
)
    requires
        !config_projection::is_managed_key(key),
        key != config_projection::CODEX_WEB_SEARCH_FIELD@,
        key != "model_providers"@,
    ensures
        config_projection::owned_entries(root.insert(key, value), hint)
            == config_projection::owned_entries(root, hint),
        config_projection::owned_entries(root.remove(key), hint)
            == config_projection::owned_entries(root, hint),
{
    assert(config_projection::is_managed_key("model_provider"@));
    assert forall|k: Seq<char>| #[trigger]
        config_projection::owned_entry(root.insert(key, value), hint, k)
            == config_projection::owned_entry(root, hint, k) by {}
    assert forall|k: Seq<char>| #[trigger]
        config_projection::owned_entry(root.remove(key), hint, k)
            == config_projection::owned_entry(root, hint, k) by {}
    assert(config_projection::owned_entries(root.insert(key, value), hint)
        =~= config_projection::owned_entries(root, hint));
    assert(config_projection::owned_entries(root.remove(key), hint)
        =~= config_projection::owned_entries(root, hint));
}

/// Two texts with the same owned part have the same fingerprint, and no changed
/// path is listed between them.
pub proof fn law_same_owned_part_is_no_drift(
    expected: Seq<char>,
    actual: Seq<char>,
    hint: Option<Seq<char>>,
)
    requires
        config_projection::projection(expected, hint) is Ok,
        config_projection::projection(expected, hint) == config_projection::projection(
            actual,
            hint,
        ),
    ensures
        config_projection::owned_fingerprint(expected, hint)
            == config_projection::owned_fingerprint(actual, hint),
        key_paths::changed_between(
            config_projection::projection(expected, hint),
            config_projection::projection(actual, hint),
        ) == Ok::<Seq<Seq<char>>, AppFault>(Seq::empty()),
{
    key_paths::lemma_no_change(config_projection::projection(expected, hint)->Ok_0);
}

/// Texts that read as the same TOML, whatever their comments, white space and
/// order of keys, have the same fingerprint and no changed path.
pub proof fn law_layout_does_not_count(first: Seq<char>, second: Seq<char>, hint: Option<Seq<char>>)
    requires
        data_text::toml_parsed(first) is Ok,
        data_text::toml_parsed(first) == data_text::toml_parsed(second),
    ensures
        config_projection::owned_fingerprint(first, hint) == config_projection::owned_fingerprint(
            second,
            hint,
        ),
        config_projection::canonical_text(first) == config_projection::canonical_text(second),
        key_paths::changed_between(
            config_projection::canonical_text(first),
            config_projection::canonical_text(second),
        ) == Ok::<Seq<Seq<char>>, AppFault>(Seq::empty()),
{
    key_paths::lemma_no_change(config_projection::canonical_text(first)->Ok_0);
}

/// Whether a text is an outcome of a merge of two others that can be read again: it
/// is what a document of the merged entries prints as, and reads as these entries.
pub open spec fn is_readable_merge(
    current: Seq<char>,
    expected: Seq<char>,
    merged_text: Seq<char>,
) -> bool {
    &&& merge_fault(current, expected) is None
    &&& prints_merge(merged_text, current, expected)
    &&& toml_document::document_parsed(merged_text) == Ok::<Map<Seq<char>, Toml>, Seq<char>>(
        merged(
            toml_document::document_parsed(current)->Ok_0,
            toml_document::document_parsed(expected)->Ok_0,
        ),
    )
}

/// Whether a text is TOML in which no table holds the key for dates.
pub open spec fn is_plain_text(source: Seq<char>) -> bool {
    toml_document::document_parsed(source) matches Ok(entries) && toml_value::is_plain(
        Toml::Table(entries),
    )
}

/// TOML has an owned part, a canonical form and fingerprints.
pub proof fn law_toml_has_fingerprints(source: Seq<char>, hint: Option<Seq<char>>)
    requires
        is_plain_text(source),
    ensures
        config_projection::projection(source, hint) is Ok,
        config_projection::owned_fingerprint(source, hint) is Ok,
        config_projection::canonical_text(source) is Ok,
{
}

/// What a table holds under a key is plain where the table is, and so is the table
/// without a key.
proof fn lemma_plain_parts(entries: Map<Seq<char>, Toml>, key: Seq<char>)
    requires
        toml_value::is_plain(Toml::Table(entries)),
    ensures
        toml_value::entry_of(entries, key) matches Some(value) ==> toml_value::is_plain(value),
        toml_value::is_plain(Toml::Table(entries.remove(key))),
        key != toml_value::TOML_DATE_KEY@ ==> forall|value: Toml|
            toml_value::is_plain(value) ==> toml_value::is_plain(
                Toml::Table(#[trigger] entries.insert(key, value)),
            ),
{
    assert(entries.contains_key(key) ==> toml_value::is_plain(entries[key]));
    let less = entries.remove(key);
    assert forall|k: Seq<char>| #[trigger] less.contains_key(k) implies toml_value::is_plain(
        less[k],
    ) by {
        assert(entries.contains_key(k));
    }
    if key != toml_value::TOML_DATE_KEY@ {
        assert forall|value: Toml| toml_value::is_plain(value) implies toml_value::is_plain(
            Toml::Table(#[trigger] entries.insert(key, value)),
        ) by {
            let more = entries.insert(key, value);
            assert forall|k: Seq<char>| #[trigger] more.contains_key(k) implies
                toml_value::is_plain(more[k]) by {
                if k != key {
                    assert(entries.contains_key(k));
                }
            }
        }
    }
}

/// The provider sections after a merge of two plain configurations are plain.
proof fn lemma_merged_sections_are_plain(
    current: Map<Seq<char>, Toml>,
    expected: Map<Seq<char>, Toml>,
    id: Seq<char>,
)
    requires
        toml_value::is_plain(Toml::Table(current)),
        toml_value::is_plain(Toml::Table(expected)),
    ensures
        toml_value::is_plain(Toml::Table(merged_sections(current, expected, id))),
{
    lemma_plain_parts(current, "model_providers"@);
    lemma_plain_parts(expected, "model_providers"@);
    assert(toml_value::is_plain(Toml::Table(sections(current))));
    lemma_plain_parts(sections(current), id);
    if let Some(Toml::Table(wanted)) = toml_value::entry_of(expected, "model_providers"@) {
        lemma_plain_parts(wanted, id);
        assert(config_projection::provider_section(expected, id) is Some ==> id
            != toml_value::TOML_DATE_KEY@);
    }
}

/// A merge of two plain configurations is plain.
proof fn lemma_merged_is_plain(current: Map<Seq<char>, Toml>, expected: Map<Seq<char>, Toml>)
    requires
        toml_value::is_plain(Toml::Table(current)),
        toml_value::is_plain(Toml::Table(expected)),
    ensures
        toml_value::is_plain(Toml::Table(merged(current, expected))),
{
    let after = merged(current, expected);
    reveal_strlit("$__toml_private_datetime");
    reveal_strlit("model");
    reveal_strlit("model_provider");
    reveal_strlit("model_catalog_json");
    reveal_strlit("openai_base_url");
    reveal_strlit("experimental_bearer_token");
    reveal_strlit("web_search");
    reveal_strlit("model_providers");
    assert(toml_value::TOML_DATE_KEY@[0] == '$');
    assert("model"@[0] == 'm');
    assert("model_provider"@[0] == 'm');
    assert("model_catalog_json"@[0] == 'm');
    assert("openai_base_url"@[0] == 'o');
    assert("experimental_bearer_token"@[0] == 'e');
    assert("web_search"@[0] == 'w');
    assert("model_providers"@[0] == 'm');
    assert forall|k: Seq<char>| #[trigger] after.contains_key(k) implies toml_value::is_plain(
        after[k],
    ) by {
        assert(merged_entry(current, expected, k) == Some(after[k]));
        if k == "model_providers"@ && !config_projection::is_managed_key(k) && k
            != config_projection::CODEX_WEB_SEARCH_FIELD@
            && config_projection::active_provider(expected) is Some {
            let id = config_projection::active_provider(expected)->0;
            lemma_merged_sections_are_plain(current, expected, id);
        } else {
            assert(current.contains_key(k) ==> toml_value::is_plain(current[k]));
            assert(expected.contains_key(k) ==> toml_value::is_plain(expected[k]));
        }
    }
    assert(!after.contains_key(toml_value::TOML_DATE_KEY@));
}

/// Of a merged text that can be read again: every top-level key that CCSM does not
/// own, and the section of every provider but the one that `expected` selects, reads
/// as in `current`, and so does the web search switch where neither text turns it
/// off. The managed keys read as in `expected`.
pub proof fn law_merged_text_keeps_the_rest(
    current: Seq<char>,
    expected: Seq<char>,
    merged_text: Seq<char>,
    key: Seq<char>,
    id: Seq<char>,
)
    requires
        is_readable_merge(current, expected, merged_text),
    ensures
        ({
            let before = toml_document::document_parsed(current)->Ok_0;
            let wanted = toml_document::document_parsed(expected)->Ok_0;
            let after = toml_document::document_parsed(merged_text)->Ok_0;
            let switch = config_projection::CODEX_WEB_SEARCH_FIELD@;
            let off = Some(config_projection::CODEX_WEB_SEARCH_DISABLED@);
            &&& config_projection::is_managed_key(key) ==> toml_value::entry_of(after, key)
                == toml_value::entry_of(wanted, key)
            &&& !config_projection::is_managed_key(key) && key != switch && key
                != "model_providers"@ ==> toml_value::entry_of(after, key)
                == toml_value::entry_of(before, key)
            &&& config_projection::active_provider(wanted) != Some(id)
                ==> config_projection::provider_section(after, id)
                == config_projection::provider_section(before, id)
            &&& toml_value::text_entry(wanted, switch) != off && toml_value::text_entry(
                before,
                switch,
            ) != off ==> toml_value::entry_of(after, switch) == toml_value::entry_of(
                before,
                switch,
            )
        }),
{
    let before = toml_document::document_parsed(current)->Ok_0;
    let wanted = toml_document::document_parsed(expected)->Ok_0;
    law_merge_keeps_the_rest(before, wanted, key, id);
    assert(toml_value::entry_of(merged(before, wanted), key) == merged_entry(before, wanted, key));
}

/// Merging into a merged text that can be read again succeeds, and an outcome that
/// can be read again reads as that text does.
pub proof fn law_merged_text_merges_to_itself(
    current: Seq<char>,
    expected: Seq<char>,
    merged_text: Seq<char>,
    merged_again: Seq<char>,
)
    requires
        is_readable_merge(current, expected, merged_text),
    ensures
        merge_fault(merged_text, expected) is None,
        is_readable_merge(merged_text, expected, merged_again)
            ==> toml_document::document_parsed(merged_again) == toml_document::document_parsed(
            merged_text,
        ),
{
    law_merge_twice_is_merge_once(
        toml_document::document_parsed(current)->Ok_0,
        toml_document::document_parsed(expected)->Ok_0,
    );
}

/// Of a merged text that can be read again: its owned part is that of `expected`, its
/// fingerprint too, and no changed path is listed, for the provider that `expected`
/// selects.
pub proof fn law_merged_text_restores_owned_part(
    current: Seq<char>,
    expected: Seq<char>,
    merged_text: Seq<char>,
)
    requires
        is_readable_merge(current, expected, merged_text),
        is_plain_text(current),
        is_plain_text(expected),
    ensures
        ({
            let hint = config_projection::active_provider_of(
                data_text::toml_parsed(expected)->Ok_0,
            );
            &&& config_projection::projection(merged_text, hint) is Ok
            &&& config_projection::projection(merged_text, hint) == config_projection::projection(
                expected,
                hint,
            )
            &&& config_projection::owned_fingerprint(merged_text, hint)
                == config_projection::owned_fingerprint(expected, hint)
            &&& key_paths::changed_between(
                config_projection::projection(expected, hint),
                config_projection::projection(merged_text, hint),
            ) == Ok::<Seq<Seq<char>>, AppFault>(Seq::empty())
        }),
{
    let before = toml_document::document_parsed(current)->Ok_0;
    let wanted = toml_document::document_parsed(expected)->Ok_0;
    lemma_merged_is_plain(before, wanted);
    law_merge_restores_owned_part(before, wanted);
    law_repair_reads_as_consistent(before, wanted, expected, merged_text);
}

/// A text that reads as the outcome of a merge has the fingerprint of the
/// configuration that was merged in, and no changed path: a repair that was
/// written is found consistent.
pub proof fn law_repair_reads_as_consistent(
    current: Map<Seq<char>, Toml>,
    expected: Map<Seq<char>, Toml>,
    expected_text: Seq<char>,
    repaired_text: Seq<char>,
)
    requires
        data_text::toml_parsed(expected_text) == Ok::<Toml, Seq<char>>(Toml::Table(expected)),
        data_text::toml_parsed(repaired_text) == Ok::<Toml, Seq<char>>(
            Toml::Table(merged(current, expected)),
        ),
    ensures
        ({
            let hint = config_projection::active_provider(expected);
            &&& config_projection::owned_fingerprint(repaired_text, hint)
                == config_projection::owned_fingerprint(expected_text, hint)
            &&& key_paths::changed_between(
                config_projection::projection(expected_text, hint),
                config_projection::projection(repaired_text, hint),
            ) == Ok::<Seq<Seq<char>>, AppFault>(Seq::empty())
        }),
{
    let hint = config_projection::active_provider(expected);
    law_merge_restores_owned_part(current, expected);
    law_same_owned_part_is_no_drift(expected_text, repaired_text, hint);
}

} // verus!
