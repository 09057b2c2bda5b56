//! The paths of the leaves of a JSON value, and the paths at which two values
//! differ.

use crate::config_projection;
use crate::data_text;
use crate::errors::{AppError, AppFault};
use crate::json;
use crate::json::{Json, JsonValue};
use crate::text;
use crate::text_map;
use crate::text_map::TextMap;
use vstd::prelude::*;
use vstd::string::StringExecFns;

verus! {

/// At most this many changed paths are listed.
pub const CHANGED_PATH_LIMIT: usize = 64;

/// The path of a field below a path.
pub open spec fn field_path(prefix: Seq<char>, key: Seq<char>) -> Seq<char> {
    if prefix.len() == 0 {
        key
    } else {
        prefix + "."@ + key
    }
}

/// The path of an item below a path.
pub open spec fn item_path(prefix: Seq<char>, index: nat) -> Seq<char> {
    prefix + "["@ + text::decimal(index) + "]"@
}

/// The number of values directly below a value.
pub open spec fn child_count(value: Json) -> nat {
    match value {
        Json::Object(fields) => text_map::sorted_keys(fields.dom()).len(),
        Json::Array(items) => items.len(),
        _ => 0,
    }
}

/// The leaves found so far, with the leaves of a value below a path. Each leaf
/// is held under its path as its JSON text; an empty object or array is a leaf.
pub open spec fn flattened(
    value: Json,
    prefix: Seq<char>,
    found: Map<Seq<char>, Seq<char>>,
) -> Map<Seq<char>, Seq<char>>
    decreases value, child_count(value) + 1,
{
    match value {
        Json::Object(fields) => if fields == Map::<Seq<char>, Json>::empty() && prefix.len() > 0 {
            found.insert(prefix, "{}"@)
        } else {
            flattened_children(value, prefix, found, child_count(value))
        },
        Json::Array(items) => if items.len() == 0 {
            found.insert(prefix, "[]"@)
        } else {
            flattened_children(value, prefix, found, child_count(value))
        },
        _ => found.insert(prefix, data_text::json_rendered(value)),
    }
}

/// The leaves found so far, with the leaves of the first `count` values
/// directly below a value. Fields come in the order of their keys.
pub open spec fn flattened_children(
    value: Json,
    prefix: Seq<char>,
    found: Map<Seq<char>, Seq<char>>,
    count: nat,
) -> Map<Seq<char>, Seq<char>>
    decreases value, count,
{
    if count == 0 {
        found
    } else {
        let before = flattened_children(value, prefix, found, (count - 1) as nat);
        match value {
            Json::Object(fields) => {
                let key = text_map::sorted_keys(fields.dom())[count - 1];
                if fields.contains_key(key) {
                    flattened(fields[key], field_path(prefix, key), before)
                } else {
                    before
                }
            },
            Json::Array(items) => if count <= items.len() {
                flattened(items[count - 1], item_path(prefix, (count - 1) as nat), before)
            } else {
                before
            },
            _ => before,
        }
    }
}

/// The leaves of a value by their paths.
pub open spec fn leaves(value: Json) -> Map<Seq<char>, Seq<char>> {
    flattened(value, Seq::empty(), Map::empty())
}

/// The paths at which two sets of leaves differ.
pub open spec fn differing(
    before: Map<Seq<char>, Seq<char>>,
    after: Map<Seq<char>, Seq<char>>,
) -> Set<Seq<char>> {
    Set::new(
        |path: Seq<char>|
            {
                ||| before.contains_key(path) != after.contains_key(path)
                ||| before.contains_key(path) && before[path] != after[path]
            },
    )
}

/// The first of the paths at which two values differ, in order.
pub open spec fn changed_paths(before: Json, after: Json) -> Seq<Seq<char>> {
    let all = text_map::sorted_keys(differing(leaves(before), leaves(after)));
    if all.len() <= CHANGED_PATH_LIMIT {
        all
    } else {
        all.take(CHANGED_PATH_LIMIT as int)
    }
}

/// Between a value and itself no path is listed.
pub proof fn lemma_no_change(value: Json)
    ensures
        changed_paths(value, value) == Seq::<Seq<char>>::empty(),
{
    let none: Seq<Seq<char>> = Seq::empty();
    assert(differing(leaves(value), leaves(value)) =~= none.to_set());
    text_map::lemma_sorted_keys(none);
}

/// The same paths are listed in both directions.
pub proof fn law_changes_are_symmetric(before: Json, after: Json)
    ensures
        changed_paths(before, after) == changed_paths(after, before),
{
    assert(differing(leaves(before), leaves(after)) =~= differing(leaves(after), leaves(before)));
}

/// The texts that a map holds.
pub open spec fn texts_of(map: Map<Seq<char>, String>) -> Map<Seq<char>, Seq<char>> {
    map.map_values(|t: String| t@)
}

/// The path of a field below a path.
fn make_field_path(prefix: &str, key: &str) -> (r: String)
    ensures
        r@ == field_path(prefix@, key@),
{
    if prefix.is_empty() {
        key.to_owned()
    } else {
        let mut path = prefix.to_owned();
        path.append(".");
        path.append(key);
        path
    }
}

/// The path of an item below a path.
fn make_item_path(prefix: &str, index: usize) -> (r: String)
    ensures
        r@ == item_path(prefix@, index as nat),
{
    let mut path = prefix.to_owned();
    path.append("[");
    path.append(text::decimal_text(index as u128).as_str());
    path.append("]");
    path
}

/// Puts a text under a path.
fn put(output: &mut TextMap<String>, path: &str, leaf: String)
    ensures
        texts_of(final(output)@) == texts_of(old(output)@).insert(path@, leaf@),
{
    output.insert(path.to_owned(), leaf);
    assert(texts_of(output@) =~= texts_of(old(output)@).insert(path@, leaf@));
}

/// Adds the leaves of a value below a path to those in `output`.
pub fn flatten_json(value: &JsonValue, prefix: &str, output: &mut TextMap<String>)
    ensures
        texts_of(final(output)@) == flattened(value@, prefix@, texts_of(old(output)@)),
    decreases value,
{
    proof {
        json::lemma_view(value);
    }
    match value {
        JsonValue::Object(map) => {
            proof {
                use_type_invariant(map);
                json::lemma_object_view(map);
                map.lemma_parts();
                text_map::lemma_paired(map.key_seq(), map.values@);
                assert(json::fields_view(map@).dom() =~= map@.dom());
                if map@ == Map::<Seq<char>, JsonValue>::empty() {
                    assert(json::fields_view(map@) =~= Map::<Seq<char>, Json>::empty());
                } else if json::fields_view(map@) == Map::<Seq<char>, Json>::empty() {
                    assert(map@ =~= Map::<Seq<char>, JsonValue>::empty());
                }
            }
            if map.is_empty() && !prefix.is_empty() {
                put(output, prefix, "{}".to_owned());
                return;
            }
            let ghost found = texts_of(output@);
            let n = map.len();
            let mut i: usize = 0;
            while i < n
                invariant
                    i <= n,
                    n == map.key_seq().len(),
                    n == map.values@.len(),
                    n == map.keys@.len(),
                    *value == JsonValue::Object(*map),
                    value@ == Json::Object(json::fields_view(map@)),
                    json::fields_view(map@).dom() == map@.dom(),
                    text_map::sorted_keys(map@.dom()) == map.key_seq(),
                    forall|j: int|
                        0 <= j < n ==> map@[#[trigger] map.key_seq()[j]] == map.values@[j],
                    texts_of(output@) == flattened_children(value@, prefix@, found, i as nat),
                decreases n - i,
            {
                let (key, _) = map.entry(i);
                let path = make_field_path(prefix, key.as_str());
                assert(decreases_to!(*value => value->Object_0));
                assert(decreases_to!(value->Object_0 => value->Object_0.values));
                assert(decreases_to!(value->Object_0.values => value->Object_0.values@));
                flatten_json(&map.values[i], path.as_str(), output);
                i = i + 1;
            }
        },
        JsonValue::Array(items) => {
            if items.len() == 0 {
                put(output, prefix, "[]".to_owned());
                return;
            }
            let ghost found = texts_of(output@);
            let mut i: usize = 0;
            while i < items.len()
                invariant
                    i <= items@.len(),
                    *value == JsonValue::Array(*items),
                    value@ == Json::Array(json::values_view(items@)),
                    texts_of(output@) == flattened_children(value@, prefix@, found, i as nat),
                decreases items@.len() - i,
            {
                let path = make_item_path(prefix, i);
                assert(decreases_to!(*value => value->Array_0));
                assert(decreases_to!(value->Array_0 => value->Array_0@));
                assert(decreases_to!(value->Array_0@ => value->Array_0@[i as int]));
                flatten_json(&items[i], path.as_str(), output);
                i = i + 1;
            }
        },
        _ => {
            put(output, prefix, data_text::json_to_string(value));
        },
    }
}

/// Whether paths of a set are listed in order, up to the limit, and all of them
/// below it.
pub open spec fn listed_in_order(listed: Seq<Seq<char>>, paths: Set<Seq<char>>) -> bool {
    &&& text_map::strictly_sorted(listed)
    &&& listed.len() <= CHANGED_PATH_LIMIT
    &&& forall|p: Seq<char>| listed.contains(p) ==> paths.contains(p)
    &&& listed.len() < CHANGED_PATH_LIMIT ==> forall|p: Seq<char>|
        paths.contains(p) ==> listed.contains(p)
}

/// Whether two sets of leaves agree at a path.
fn agree_at(before: &TextMap<String>, after: &TextMap<String>, path: &str) -> (r: bool)
    ensures
        r == !differing(texts_of(before@), texts_of(after@)).contains(path@),
{
    match (before.get(path), after.get(path)) {
        (Some(x), Some(y)) => text::same(x.as_str(), y.as_str()),
        (None, None) => true,
        _ => false,
    }
}

/// The paths at which two sets of leaves differ, in order and cut off at the limit.
fn differing_paths(before: &TextMap<String>, after: &TextMap<String>) -> (r: Vec<String>)
    ensures
        ({
            let all = text_map::sorted_keys(differing(texts_of(before@), texts_of(after@)));
            text::texts_view(r@) == if all.len() <= CHANGED_PATH_LIMIT {
                all
            } else {
                all.take(CHANGED_PATH_LIMIT as int)
            }
        }),
        listed_in_order(
            text::texts_view(r@),
            differing(texts_of(before@), texts_of(after@)),
        ),
{
    let mut all: TextMap<bool> = TextMap::new();
    collect_keys(before, &mut all);
    collect_keys(after, &mut all);
    let ghost diff = differing(texts_of(before@), texts_of(after@));
    let n = all.len();
    proof {
        use_type_invariant(&all);
        all.lemma_parts();
        text_map::lemma_paired(all.key_seq(), all.values@);
    }
    let ghost keys = all.key_seq();
    let mut paths: Vec<String> = Vec::new();
    let mut i: usize = 0;
    while i < n
        invariant
            i <= n == keys.len(),
            keys == all.key_seq(),
            text_map::strictly_sorted(keys),
            diff == differing(texts_of(before@), texts_of(after@)),
            text_map::strictly_sorted(text::texts_view(paths@)),
            forall|p: Seq<char>| #[trigger]
                text::texts_view(paths@).contains(p) <==> diff.contains(p) && (exists|j: int|
                    0 <= j < i && (#[trigger] keys[j]) == p),
        decreases n - i,
    {
        let (path, _) = all.entry(i);
        let ghost old_paths = text::texts_view(paths@);
        if !agree_at(before, after, path.as_str()) {
            proof {
                let next = old_paths.push(path@);
                assert forall|a: int, b: int| 0 <= a < b < next.len() implies text::text_lt(
                    #[trigger] next[a],
                    #[trigger] next[b],
                ) by {
                    if b == old_paths.len() {
                        assert(old_paths.contains(old_paths[a]));
                        let j = choose|j: int| 0 <= j < i && (#[trigger] keys[j]) == old_paths[a];
                        assert(text::text_lt(keys[j], keys[i as int]));
                    }
                }
                assert forall|p: Seq<char>| #[trigger] next.contains(p) <==> diff.contains(p) && (
                exists|j: int| 0 <= j < i + 1 && (#[trigger] keys[j]) == p) by {
                    if next.contains(p) {
                        let a = choose|a: int| 0 <= a < next.len() && next[a] == p;
                        if a < old_paths.len() {
                            assert(old_paths.contains(old_paths[a]));
                        } else {
                            assert(keys[i as int] == p);
                        }
                    }
                    if diff.contains(p) && (exists|j: int|
                        0 <= j < i + 1 && (#[trigger] keys[j]) == p) {
                        if p == path@ {
                            assert(next[old_paths.len() as int] == p);
                        } else {
                            assert(old_paths.contains(p));
                            let a = choose|a: int| 0 <= a < old_paths.len() && old_paths[a] == p;
                            assert(next[a] == p);
                        }
                    }
                }
            }
            paths.push(path.clone());
            assert(text::texts_view(paths@) =~= old_paths.push(path@));
        }
        i = i + 1;
    }
    proof {
        let listed = text::texts_view(paths@);
        assert forall|p: Seq<char>| listed.to_set().contains(p) == diff.contains(p) by {
            if diff.contains(p) {
                assert(before@.contains_key(p) || after@.contains_key(p));
                assert(all@.contains_key(p));
                assert(keys[keys.index_of(p)] == p);
                assert(listed.contains(p));
            }
            if listed.to_set().contains(p) {
                assert(listed.contains(p));
            }
        }
        assert(listed.to_set() =~= diff);
        text_map::lemma_sorted_keys(listed);
    }
    let ghost listed = text::texts_view(paths@);
    paths.truncate(CHANGED_PATH_LIMIT);
    proof {
        let kept = text::texts_view(paths@);
        if listed.len() > CHANGED_PATH_LIMIT {
            assert(kept =~= listed.take(CHANGED_PATH_LIMIT as int));
            assert forall|p: Seq<char>| kept.contains(p) implies diff.contains(p) by {
                let a = choose|a: int| 0 <= a < kept.len() && kept[a] == p;
                assert(listed[a] == p);
                assert(listed.contains(p));
            }
        }
    }
    paths
}

/// Adds the keys of a map to those in `keys`.
fn collect_keys(map: &TextMap<String>, keys: &mut TextMap<bool>)
    ensures
        forall|k: Seq<char>| #[trigger]
            final(keys)@.contains_key(k) <==> old(keys)@.contains_key(k) || map@.contains_key(k),
{
    let n = map.len();
    proof {
        use_type_invariant(map);
        map.lemma_parts();
        text_map::lemma_paired(map.key_seq(), map.values@);
    }
    let mut i: usize = 0;
    while i < n
        invariant
            i <= n == map.key_seq().len(),
            forall|k: Seq<char>| #[trigger]
                keys@.contains_key(k) <==> old(keys)@.contains_key(k) || (exists|j: int|
                    0 <= j < i && (#[trigger] map.key_seq()[j]) == k),
        decreases n - i,
    {
        let (key, _) = map.entry(i);
        keys.insert(key.clone(), true);
        i = i + 1;
    }
}

/// The leaves of a value by their paths.
fn leaves_of(value: &JsonValue) -> (r: TextMap<String>)
    ensures
        texts_of(r@) == leaves(value@),
{
    let mut paths: TextMap<String> = TextMap::new();
    assert(texts_of(paths@) =~= Map::empty());
    proof {
        reveal_strlit("");
        assert(""@ =~= Seq::<char>::empty());
    }
    flatten_json(value, "", &mut paths);
    paths
}

/// The first of the paths at which two values differ, in order.
pub fn changed_paths_between(before: &JsonValue, after: &JsonValue) -> (r: Vec<String>)
    ensures
        text::texts_view(r@) == changed_paths(before@, after@),
        listed_in_order(text::texts_view(r@), differing(leaves(before@), leaves(after@))),
{
    differing_paths(&leaves_of(before), &leaves_of(after))
}

/// What a fallible list of paths says.
pub open spec fn paths_result(r: Result<Vec<String>, AppError>) -> Result<
    Seq<Seq<char>>,
    AppFault,
> {
    match r {
        Ok(paths) => Ok(text::texts_view(paths@)),
        Err(e) => Err(e@),
    }
}

/// The first of the paths at which two outcomes differ; the first error where
/// one failed.
pub open spec fn changed_between(
    before: Result<Json, AppFault>,
    after: Result<Json, AppFault>,
) -> Result<Seq<Seq<char>>, AppFault> {
    match before {
        Err(fault) => Err(fault),
        Ok(x) => match after {
            Err(fault) => Err(fault),
            Ok(y) => Ok(changed_paths(x, y)),
        },
    }
}

/// The paths at which two whole configuration texts differ.
pub fn changed_key_paths(before: &str, after: &str) -> (r: Result<Vec<String>, AppError>)
    ensures
        paths_result(r) == changed_between(
            config_projection::canonical_text(before@),
            config_projection::canonical_text(after@),
        ),
        r matches Ok(paths) ==> listed_in_order(
            text::texts_view(paths@),
            differing(
                leaves(config_projection::canonical_text(before@)->Ok_0),
                leaves(config_projection::canonical_text(after@)->Ok_0),
            ),
        ),
{
    let before = match config_projection::canonicalize_toml(before) {
        Ok(value) => value,
        Err(e) => return Err(e),
    };
    let after = match config_projection::canonicalize_toml(after) {
        Ok(value) => value,
        Err(e) => return Err(e),
    };
    Ok(changed_paths_between(&before, &after))
}

/// The paths at which the owned parts of two configuration texts differ.
pub fn changed_managed_key_paths(
    expected: &str,
    actual: &str,
    provider_id_hint: Option<&str>,
) -> (r: Result<Vec<String>, AppError>)
    ensures
        paths_result(r) == changed_between(
            config_projection::projection(expected@, text::opt_str_view(provider_id_hint)),
            config_projection::projection(actual@, text::opt_str_view(provider_id_hint)),
        ),
        r matches Ok(paths) ==> listed_in_order(
            text::texts_view(paths@),
            differing(
                leaves(
                    config_projection::projection(
                        expected@,
                        text::opt_str_view(provider_id_hint),
                    )->Ok_0,
                ),
                leaves(
                    config_projection::projection(
                        actual@,
                        text::opt_str_view(provider_id_hint),
                    )->Ok_0,
                ),
            ),
        ),
{
    let expected = match config_projection::ccsm_owned_projection(expected, provider_id_hint) {
        Ok(value) => value,
        Err(e) => return Err(e),
    };
    let actual = match config_projection::ccsm_owned_projection(actual, provider_id_hint) {
        Ok(value) => value,
        Err(e) => return Err(e),
    };
    Ok(changed_paths_between(&expected, &actual))
}

// ---------------------------------------------------------------------------
// Laws

/// Whether a value holds a leaf with this text at this path, where the value itself
/// stands at `prefix`: a value that is neither an object nor an array is its own leaf,
/// and so is an empty array, and an empty object that is not at the root. A field adds
/// its key behind a dot, and an item its place in brackets.
pub open spec fn has_leaf(
    value: Json,
    prefix: Seq<char>,
    path: Seq<char>,
    leaf: Seq<char>,
) -> bool
    decreases value,
{
    match value {
        Json::Object(fields) => {
            ||| {
                &&& prefix.len() > 0 && path == prefix && leaf == "{}"@
                &&& forall|k: Seq<char>| !(#[trigger] fields.contains_key(k))
            }
            ||| exists|k: Seq<char>| #[trigger]
                fields.contains_key(k) && has_leaf(
                    fields[k],
                    if prefix.len() == 0 {
                        k
                    } else {
                        prefix + "."@ + k
                    },
                    path,
                    leaf,
                )
        },
        Json::Array(items) => {
            ||| items.len() == 0 && path == prefix && leaf == "[]"@
            ||| exists|i: int|
                0 <= i < items.len() && has_leaf(
                    #[trigger] items[i],
                    prefix + "["@ + text::decimal(i as nat) + "]"@,
                    path,
                    leaf,
                )
        },
        _ => path == prefix && leaf == data_text::json_rendered(value),
    }
}

/// Whether every object in a value has finitely many fields.
pub open spec fn is_finite(value: Json) -> bool
    decreases value,
{
    match value {
        Json::Object(fields) => {
            &&& fields.dom().finite()
            &&& forall|k: Seq<char>| #[trigger] fields.contains_key(k) ==> is_finite(fields[k])
        },
        Json::Array(items) => forall|i: int|
            0 <= i < items.len() ==> is_finite(#[trigger] items[i]),
        _ => true,
    }
}

/// Whether the leaves found so far were joined by finitely many leaves of a value and
/// by nothing else.
spec fn adds_leaves(
    value: Json,
    prefix: Seq<char>,
    found: Map<Seq<char>, Seq<char>>,
    all: Map<Seq<char>, Seq<char>>,
) -> bool {
    &&& found.dom().finite() ==> all.dom().finite()
    &&& forall|p: Seq<char>| #[trigger] found.contains_key(p) ==> all.contains_key(p)
    &&& forall|p: Seq<char>| #[trigger]
        all.contains_key(p) ==> (found.contains_key(p) && all[p] == found[p]) || has_leaf(
            value,
            prefix,
            p,
            all[p],
        )
}

/// Flattening adds finitely many leaves, keeps the paths that were found, and adds
/// leaves of the value only.
proof fn lemma_flattened(value: Json, prefix: Seq<char>, found: Map<Seq<char>, Seq<char>>)
    ensures
        adds_leaves(value, prefix, found, flattened(value, prefix, found)),
    decreases value, child_count(value) + 1,
{
    match value {
        Json::Object(fields) => {
            if fields == Map::<Seq<char>, Json>::empty() && prefix.len() > 0 {
                assert(has_leaf(value, prefix, prefix, "{}"@));
            } else {
                lemma_flattened_children(value, prefix, found, child_count(value));
            }
        },
        Json::Array(items) => {
            if items.len() > 0 {
                lemma_flattened_children(value, prefix, found, child_count(value));
            }
        },
        _ => {},
    }
}

/// The same of the values directly below a value.
proof fn lemma_flattened_children(
    value: Json,
    prefix: Seq<char>,
    found: Map<Seq<char>, Seq<char>>,
    count: nat,
)
    ensures
        adds_leaves(value, prefix, found, flattened_children(value, prefix, found, count)),
    decreases value, count,
{
    if count > 0 {
        lemma_flattened_children(value, prefix, found, (count - 1) as nat);
        let before = flattened_children(value, prefix, found, (count - 1) as nat);
        match value {
            Json::Object(fields) => {
                let key = text_map::sorted_keys(fields.dom())[count - 1];
                if fields.contains_key(key) {
                    let below = field_path(prefix, key);
                    lemma_flattened(fields[key], below, before);
                    assert forall|p: Seq<char>, leaf: Seq<char>| #[trigger]
                        has_leaf(fields[key], below, p, leaf) implies has_leaf(
                        value,
                        prefix,
                        p,
                        leaf,
                    ) by {
                        assert(fields.contains_key(key));
                    }
                }
            },
            Json::Array(items) => {
                if count <= items.len() {
                    let item = items[count - 1];
                    let below = item_path(prefix, (count - 1) as nat);
                    lemma_flattened(item, below, before);
                    assert forall|p: Seq<char>, leaf: Seq<char>| #[trigger]
                        has_leaf(item, below, p, leaf) implies has_leaf(
                        value,
                        prefix,
                        p,
                        leaf,
                    ) by {
                        assert(items[count - 1] == item);
                    }
                }
            },
            _ => {},
        }
    }
}

/// Every leaf of a value is found under its path.
proof fn lemma_leaf_is_found(
    value: Json,
    prefix: Seq<char>,
    found: Map<Seq<char>, Seq<char>>,
    path: Seq<char>,
    leaf: Seq<char>,
)
    requires
        is_finite(value),
        has_leaf(value, prefix, path, leaf),
    ensures
        flattened(value, prefix, found).contains_key(path),
    decreases value, child_count(value) + 1,
{
    match value {
        Json::Object(fields) => {
            if exists|k: Seq<char>| #[trigger]
                fields.contains_key(k) && has_leaf(fields[k], field_path(prefix, k), path, leaf) {
                let k = choose|k: Seq<char>| #[trigger]
                    fields.contains_key(k) && has_leaf(fields[k], field_path(prefix, k), path, leaf);
                let keys = text_map::sorted_keys(fields.dom());
                text_map::lemma_sortable(fields.dom());
                assert(keys.to_set().contains(k));
                let i: int = choose|i: int| 0 <= i < keys.len() && keys[i] == k;
                let before = flattened_children(value, prefix, found, i as nat);
                lemma_leaf_is_found(fields[k], field_path(prefix, k), before, path, leaf);
                assert(flattened_children(value, prefix, found, (i + 1) as nat).contains_key(path));
                lemma_leaf_stays(value, prefix, found, (i + 1) as nat, child_count(value), path);
            } else {
                assert(fields =~= Map::<Seq<char>, Json>::empty());
            }
        },
        Json::Array(items) => {
            if items.len() > 0 {
                let i: int = choose|i: int|
                    0 <= i < items.len() && has_leaf(
                        #[trigger] items[i],
                        prefix + "["@ + text::decimal(i as nat) + "]"@,
                        path,
                        leaf,
                    );
                let before = flattened_children(value, prefix, found, i as nat);
                lemma_leaf_is_found(items[i], item_path(prefix, i as nat), before, path, leaf);
                assert(flattened_children(value, prefix, found, (i + 1) as nat).contains_key(path));
                lemma_leaf_stays(value, prefix, found, (i + 1) as nat, child_count(value), path);
            }
        },
        _ => {},
    }
}

/// A path that was found below one value stays found below the next ones.
proof fn lemma_leaf_stays(
    value: Json,
    prefix: Seq<char>,
    found: Map<Seq<char>, Seq<char>>,
    less: nat,
    more: nat,
    path: Seq<char>,
)
    requires
        less <= more,
        flattened_children(value, prefix, found, less).contains_key(path),
    ensures
        flattened_children(value, prefix, found, more).contains_key(path),
    decreases more,
{
    if less < more {
        lemma_leaf_stays(value, prefix, found, less, (more - 1) as nat, path);
        let before = flattened_children(value, prefix, found, (more - 1) as nat);
        match value {
            Json::Object(fields) => {
                let key = text_map::sorted_keys(fields.dom())[more - 1];
                if fields.contains_key(key) {
                    lemma_flattened(fields[key], field_path(prefix, key), before);
                }
            },
            Json::Array(items) => {
                if more <= items.len() {
                    lemma_flattened(
                        items[more - 1],
                        item_path(prefix, (more - 1) as nat),
                        before,
                    );
                }
            },
            _ => {},
        }
    }
}

/// The leaves of a value are exactly what it holds: under each path that some leaf has
/// stands the text of a leaf at that path, and under no other path anything.
pub proof fn law_leaves_are_what_a_value_holds(value: Json, path: Seq<char>)
    requires
        is_finite(value),
    ensures
        leaves(value).contains_key(path) <==> exists|leaf: Seq<char>| #[trigger]
            has_leaf(value, Seq::empty(), path, leaf),
        leaves(value).contains_key(path) ==> has_leaf(
            value,
            Seq::empty(),
            path,
            leaves(value)[path],
        ),
{
    let none: Map<Seq<char>, Seq<char>> = Map::empty();
    lemma_flattened(value, Seq::empty(), none);
    if exists|leaf: Seq<char>| #[trigger] has_leaf(value, Seq::empty(), path, leaf) {
        let leaf = choose|leaf: Seq<char>| #[trigger] has_leaf(value, Seq::empty(), path, leaf);
        lemma_leaf_is_found(value, Seq::empty(), none, path, leaf);
    }
}

/// Whether the leaves of two values differ at a path.
pub open spec fn differ_at(before: Json, after: Json, path: Seq<char>) -> bool {
    ||| leaves(before).contains_key(path) && !leaves(after).contains_key(path)
    ||| leaves(after).contains_key(path) && !leaves(before).contains_key(path)
    ||| leaves(before).contains_key(path) && leaves(after).contains_key(path)
        && leaves(before)[path] != leaves(after)[path]
}

/// Whether the paths of a list are the first of those at which two values differ: they
/// are in order, at most 64, a path is listed only where the values differ, and one at
/// which they differ is left out only where 64 lower ones are listed.
pub open spec fn lists_first_changes(listed: Seq<Seq<char>>, before: Json, after: Json) -> bool {
    &&& listed.len() <= 64
    &&& forall|i: int, j: int|
        0 <= i < j < listed.len() ==> text::text_lt(#[trigger] listed[i], #[trigger] listed[j])
    &&& forall|i: int| 0 <= i < listed.len() ==> differ_at(before, after, #[trigger] listed[i])
    &&& forall|path: Seq<char>| #[trigger]
        differ_at(before, after, path) && !listed.contains(path) ==> listed.len() == 64 && forall|
            i: int,
        |
            0 <= i < 64 ==> text::text_lt(#[trigger] listed[i], path)
}

/// The paths that are listed between two values are the first of those at which they
/// differ, in order.
pub proof fn law_changes_are_listed_in_order(before: Json, after: Json)
    ensures
        lists_first_changes(changed_paths(before, after), before, after),
{
    let none: Map<Seq<char>, Seq<char>> = Map::empty();
    lemma_flattened(before, Seq::empty(), none);
    lemma_flattened(after, Seq::empty(), none);
    let paths = differing(leaves(before), leaves(after));
    let most = leaves(before).dom().union(leaves(after).dom());
    assert(paths.subset_of(most));
    vstd::set_lib::lemma_set_subset_finite(most, paths);
    let all = text_map::sorted_keys(paths);
    text_map::lemma_sortable(paths);
    let listed = changed_paths(before, after);
    assert forall|i: int| 0 <= i < listed.len() implies differ_at(
        before,
        after,
        #[trigger] listed[i],
    ) by {
        assert(all[i] == listed[i]);
        assert(all.to_set().contains(all[i]));
    }
    assert forall|path: Seq<char>| #[trigger]
        differ_at(before, after, path) && !listed.contains(path) implies listed.len() == 64
        && forall|i: int| 0 <= i < 64 ==> text::text_lt(#[trigger] listed[i], path) by {
        assert(paths.contains(path));
        assert(all.to_set().contains(path));
        let j: int = choose|j: int| 0 <= j < all.len() && all[j] == path;
        if j < listed.len() {
            assert(listed[j] == path);
        }
        assert forall|i: int| 0 <= i < 64 implies text::text_lt(#[trigger] listed[i], path) by {
            assert(text::text_lt(all[i], all[j]));
        }
    }
}

} // verus!
