//! The part of a Codex configuration that CCSM owns, its fingerprint, and the
//! paths at which two configurations differ.

use crate::data_text;
use crate::digest;
use crate::errors::{AppError, AppFault};
use crate::json::{Json, JsonValue};
use crate::text;
use crate::text_map::TextMap;
use crate::toml_value;
use crate::toml_value::{Toml, TomlValue};
use vstd::prelude::*;

verus! {

/// The top-level key that turns the web search of Codex on and off.
pub const CODEX_WEB_SEARCH_FIELD: &'static str = "web_search";

/// The value under that key that turns the web search off.
pub const CODEX_WEB_SEARCH_DISABLED: &'static str = "disabled";

/// The provider id under which the model router stands in a configuration.
pub const CC_SWITCH_CODEX_ROUTER_MODEL_PROVIDER_ID: &'static str = "codex_model_router_v2";

/// The top-level keys that CCSM owns.
pub open spec fn is_managed_key(key: Seq<char>) -> bool {
    ||| key == "model"@
    ||| key == "model_provider"@
    ||| key == "model_catalog_json"@
    ||| key == "openai_base_url"@
    ||| key == "experimental_bearer_token"@
}

/// The provider that a configuration selects: a text that is not blank.
pub open spec fn active_provider(root: Map<Seq<char>, Toml>) -> Option<Seq<char>> {
    match toml_value::text_entry(root, "model_provider"@) {
        Some(id) => if text::trimmed(id).len() > 0 {
            Some(text::trimmed(id))
        } else {
            None
        },
        None => None,
    }
}

/// The provider that a value of any kind selects.
pub open spec fn active_provider_of(value: Toml) -> Option<Seq<char>> {
    match value {
        Toml::Table(root) => active_provider(root),
        _ => None,
    }
}

/// The section of one provider in a configuration.
pub open spec fn provider_section(root: Map<Seq<char>, Toml>, id: Seq<char>) -> Option<Toml> {
    match toml_value::entry_of(root, "model_providers"@) {
        Some(providers) => providers.entry(id),
        None => None,
    }
}

/// The provider whose section counts: the hint, else the selected one.
pub open spec fn owned_provider(
    root: Map<Seq<char>, Toml>,
    hint: Option<Seq<char>>,
) -> Option<Seq<char>> {
    match hint {
        Some(id) => Some(id),
        None => active_provider(root),
    }
}

/// What CCSM owns under one top-level key.
pub open spec fn owned_entry(
    root: Map<Seq<char>, Toml>,
    hint: Option<Seq<char>>,
    key: Seq<char>,
) -> Option<Toml> {
    if is_managed_key(key) {
        toml_value::entry_of(root, key)
    } else if key == CODEX_WEB_SEARCH_FIELD@ {
        if toml_value::text_entry(root, key) == Some(CODEX_WEB_SEARCH_DISABLED@) {
            toml_value::entry_of(root, key)
        } else {
            None
        }
    } else if key == "model_providers"@ {
        match owned_provider(root, hint) {
            Some(id) => match provider_section(root, id) {
                Some(section) => Some(Toml::Table(map![id => section])),
                None => None,
            },
            None => None,
        }
    } else {
        None
    }
}

/// The part of a configuration that CCSM owns.
pub open spec fn owned_entries(
    root: Map<Seq<char>, Toml>,
    hint: Option<Seq<char>>,
) -> Map<Seq<char>, Toml> {
    Map::new(
        |k: Seq<char>| owned_entry(root, hint, k) is Some,
        |k: Seq<char>| owned_entry(root, hint, k)->0,
    )
}

/// The error for a configuration text that is no TOML.
pub open spec fn parse_fault(message: Seq<char>) -> AppFault {
    AppFault::Config("Codex config.toml semantic parse failed: "@ + message)
}

/// The canonical form of the owned part of a configuration text.
pub open spec fn projection(source: Seq<char>, hint: Option<Seq<char>>) -> Result<Json, AppFault> {
    match data_text::toml_parsed(source) {
        Err(message) => Err(parse_fault(message)),
        Ok(Toml::Table(root)) => Ok(toml_value::canonical(Toml::Table(owned_entries(root, hint)))),
        Ok(_) => Err(AppFault::Config("Codex config.toml root must be a table"@)),
    }
}

/// The canonical form of a whole configuration text.
pub open spec fn canonical_text(source: Seq<char>) -> Result<Json, AppFault> {
    match data_text::toml_parsed(source) {
        Ok(value) => Ok(toml_value::canonical(value)),
        Err(message) => Err(parse_fault(message)),
    }
}

/// The fingerprint of a JSON value: the digest of its bytes in hexadecimal.
pub open spec fn json_fingerprint(value: Json) -> Result<Seq<char>, AppFault> {
    Ok(text::lower_hex(digest::sha256(data_text::json_serialized(value))))
}

/// The fingerprint of the owned part of a configuration text.
pub open spec fn owned_fingerprint(
    source: Seq<char>,
    hint: Option<Seq<char>>,
) -> Result<Seq<char>, AppFault> {
    match projection(source, hint) {
        Ok(value) => json_fingerprint(value),
        Err(fault) => Err(fault),
    }
}

/// What a fallible text computation says.
pub open spec fn text_result(r: Result<String, AppError>) -> Result<Seq<char>, AppFault> {
    match r {
        Ok(t) => Ok(t@),
        Err(e) => Err(e@),
    }
}

/// What a fallible JSON computation says.
pub open spec fn json_result(r: Result<JsonValue, AppError>) -> Result<Json, AppFault> {
    match r {
        Ok(v) => Ok(v@),
        Err(e) => Err(e@),
    }
}

/// The error value for a text that is no TOML.
fn parse_error(message: &str) -> (e: AppError)
    ensures
        e@ == parse_fault(message@),
{
    AppError::Config(text::joined("Codex config.toml semantic parse failed: ", message))
}

/// Reads a configuration text.
fn read_toml(source: &str) -> (r: Result<TomlValue, AppError>)
    ensures
        match r {
            Ok(value) => data_text::toml_parsed(source@) == Ok::<Toml, Seq<char>>(value@),
            Err(e) => data_text::toml_parsed(source@) is Err && e@ == parse_fault(
                data_text::toml_parsed(source@)->Err_0,
            ),
        },
{
    match data_text::parse_toml(source) {
        Ok(value) => Ok(value),
        Err(message) => Err(parse_error(message.as_str())),
    }
}

/// The canonical form of a whole configuration text.
pub fn canonicalize_toml(source: &str) -> (r: Result<JsonValue, AppError>)
    ensures
        json_result(r) == canonical_text(source@),
{
    match read_toml(source) {
        Ok(value) => Ok(toml_value::canonicalize_toml_value(&value)),
        Err(e) => Err(e),
    }
}

/// The fingerprint of a whole configuration text.
pub fn fingerprint_toml(source: &str) -> (r: Result<String, AppError>)
    ensures
        text_result(r) == match canonical_text(source@) {
            Ok(value) => json_fingerprint(value),
            Err(fault) => Err(fault),
        },
        r matches Ok(fingerprint) ==> digest::is_fingerprint(fingerprint@),
{
    match canonicalize_toml(source) {
        Ok(value) => fingerprint_json(&value),
        Err(e) => Err(e),
    }
}

/// The text without the white space at its ends, where something is left.
pub(crate) fn not_blank(id: Option<&str>) -> (r: Option<String>)
    ensures
        text::opt_view(r) == match text::opt_str_view(id) {
            Some(t) => if text::trimmed(t).len() > 0 {
                Some(text::trimmed(t))
            } else {
                None
            },
            None => None,
        },
{
    match id {
        Some(id) => {
            let id = text::trim(id);
            if id.as_str().is_empty() {
                None
            } else {
                Some(id)
            }
        },
        None => None,
    }
}

/// The provider that a configuration selects.
pub fn active_model_provider_id(value: &TomlValue) -> (r: Option<String>)
    ensures
        text::opt_view(r) == active_provider_of(value@),
{
    match value.get("model_provider") {
        Some(id) => not_blank(id.as_str()),
        None => None,
    }
}

/// The provider that a configuration text selects.
pub fn active_model_provider_id_from_text(source: &str) -> (r: Result<Option<String>, AppError>)
    ensures
        match data_text::toml_parsed(source@) {
            Ok(value) => r matches Ok(id) && text::opt_view(id) == active_provider_of(value),
            Err(message) => r matches Err(e) && e@ == parse_fault(message),
        },
{
    match read_toml(source) {
        Ok(value) => Ok(active_model_provider_id(&value)),
        Err(e) => Err(e),
    }
}

/// The top-level keys that CCSM owns.
pub(crate) fn managed_keys() -> (keys: Vec<&'static str>)
    ensures
        keys@.len() == 5,
        forall|k: Seq<char>| #[trigger]
            is_managed_key(k) <==> (exists|i: int| 0 <= i < 5 && (#[trigger] keys@[i])@ == k),
{
    let mut keys: Vec<&'static str> = Vec::new();
    keys.push("model");
    keys.push("model_provider");
    keys.push("model_catalog_json");
    keys.push("openai_base_url");
    keys.push("experimental_bearer_token");
    proof {
        assert forall|k: Seq<char>| #[trigger] is_managed_key(k) implies exists|i: int|
            0 <= i < 5 && (#[trigger] keys@[i])@ == k by {
            assert(keys@[0]@ == "model"@);
            assert(keys@[1]@ == "model_provider"@);
            assert(keys@[2]@ == "model_catalog_json"@);
            assert(keys@[3]@ == "openai_base_url"@);
            assert(keys@[4]@ == "experimental_bearer_token"@);
        }
    }
    keys
}

/// The web search key and the provider section are not among the managed keys,
/// and differ.
pub(crate) proof fn lemma_keys_differ()
    ensures
        !is_managed_key(CODEX_WEB_SEARCH_FIELD@),
        !is_managed_key("model_providers"@),
        CODEX_WEB_SEARCH_FIELD@ != "model_providers"@,
{
    reveal_strlit("model");
    reveal_strlit("model_provider");
    reveal_strlit("model_catalog_json");
    reveal_strlit("openai_base_url");
    reveal_strlit("experimental_bearer_token");
    reveal_strlit("web_search");
    reveal_strlit("model_providers");
    assert("web_search"@.len() == 10);
    assert("model_providers"@.len() == 15);
    assert("openai_base_url"@.len() == 15);
    assert("openai_base_url"@[0] == 'o');
    assert("model_providers"@[0] == 'm');
}

/// The owned part of a configuration, in canonical form.
pub fn ccsm_owned_projection(
    source: &str,
    provider_id_hint: Option<&str>,
) -> (r: Result<JsonValue, AppError>)
    ensures
        json_result(r) == projection(source@, text::opt_str_view(provider_id_hint)),
{
    let value = match read_toml(source) {
        Ok(value) => value,
        Err(e) => return Err(e),
    };
    let root = match value.as_table() {
        Some(root) => root,
        None => return Err(AppError::config("Codex config.toml root must be a table")),
    };
    let ghost entries = toml_value::entries_view(root@);
    let ghost hint = text::opt_str_view(provider_id_hint);
    let mut managed: TextMap<TomlValue> = TextMap::new();
    let keys = managed_keys();
    let mut i: usize = 0;
    while i < keys.len()
        invariant
            i <= keys@.len(),
            entries == toml_value::entries_view(root@),
            forall|k: Seq<char>| #[trigger]
                managed@.contains_key(k) <==> root@.contains_key(k) && (exists|j: int|
                    0 <= j < i && (#[trigger] keys@[j])@ == k),
            forall|k: Seq<char>| #[trigger] managed@.contains_key(k) ==> managed@[k]@ == root@[k]@,
        decreases keys@.len() - i,
    {
        let key = keys[i];
        if let Some(found) = root.get(key) {
            managed.insert(key.to_owned(), found.copy());
        }
        i = i + 1;
    }
    proof {
        lemma_keys_differ();
    }
    assert(forall|k: Seq<char>| #[trigger]
        managed@.contains_key(k) <==> root@.contains_key(k) && is_managed_key(k));
    if let Some(found) = root.get(CODEX_WEB_SEARCH_FIELD) {
        if let Some(switch) = found.as_str() {
            if text::same(switch, CODEX_WEB_SEARCH_DISABLED) {
                managed.insert(CODEX_WEB_SEARCH_FIELD.to_owned(), found.copy());
            }
        }
    }
    let provider_id = match provider_id_hint {
        Some(id) => Some(id.to_owned()),
        None => active_model_provider_id(&value),
    };
    assert(text::opt_view(provider_id) == owned_provider(entries, hint));
    if let Some(id) = provider_id {
        if let Some(providers) = root.get("model_providers") {
            if let Some(section) = providers.get(id.as_str()) {
                let mut single: TextMap<TomlValue> = TextMap::new();
                let ghost name = id@;
                single.insert(id, section.copy());
                let table = TomlValue::table(single);
                assert(table@->Table_0 =~= map![name => section@]);
                managed.insert("model_providers".to_owned(), table);
            }
        }
    }
    proof {
        assert(toml_value::entries_view(managed@) =~= owned_entries(entries, hint));
    }
    Ok(toml_value::canonicalize_toml_value(&TomlValue::table(managed)))
}

/// The fingerprint of a JSON value.
pub fn fingerprint_json(value: &JsonValue) -> (r: Result<String, AppError>)
    ensures
        text_result(r) == json_fingerprint(value@),
        r matches Ok(fingerprint) ==> digest::is_fingerprint(fingerprint@),
{
    match data_text::json_to_vec(value) {
        Ok(bytes) => Ok(digest::fingerprint_bytes(&bytes)),
        Err(message) => Err(AppError::JsonSerialize(message)),
    }
}

/// The fingerprint of the owned part of a configuration text.
pub fn managed_fingerprint(source: &str, provider_id_hint: Option<&str>) -> (r: Result<
    String,
    AppError,
>)
    ensures
        text_result(r) == owned_fingerprint(source@, text::opt_str_view(provider_id_hint)),
        r matches Ok(fingerprint) ==> digest::is_fingerprint(fingerprint@),
{
    match ccsm_owned_projection(source, provider_id_hint) {
        Ok(value) => fingerprint_json(&value),
        Err(e) => Err(e),
    }
}

} // verus!
