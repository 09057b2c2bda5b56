//! TOML values and their canonical JSON form.

use crate::json;
use crate::json::{Json, JsonNumber, JsonValue, Number};
use crate::text;
use crate::text_map;
use crate::text_map::TextMap;
use vstd::prelude::*;

verus! {

/// A TOML float: a finite one as the shortest decimal text that reads back as
/// the same number, any other one as its name.
#[derive(Debug, PartialEq, Eq)]
pub enum TomlFloat {
    Finite(String),
    NonFinite(String),
}

/// A TOML value. A date and time is held as its text.
#[derive(Debug, PartialEq, Eq)]
pub enum TomlValue {
    Text(String),
    Integer(i64),
    Float(TomlFloat),
    Boolean(bool),
    Datetime(String),
    Array(Vec<TomlValue>),
    Table(TextMap<TomlValue>),
}

/// What a TOML float is.
pub enum Float {
    Finite(Seq<char>),
    NonFinite(Seq<char>),
}

/// What a TOML value is: a table is a map, without an order of its keys.
#[verifier::ext_equal]
pub enum Toml {
    Text(Seq<char>),
    Integer(int),
    Float(Float),
    Boolean(bool),
    Datetime(Seq<char>),
    Array(Seq<Toml>),
    Table(Map<Seq<char>, Toml>),
}

/// The key by which the `toml` crate tells a date from a table while it reads.
pub const TOML_DATE_KEY: &'static str = "$__toml_private_datetime";

/// Whether no table in a value, at any depth, holds the key for dates.
pub open spec fn is_plain(value: Toml) -> bool
    decreases value,
{
    match value {
        Toml::Table(entries) => {
            &&& !entries.contains_key(TOML_DATE_KEY@)
            &&& forall|k: Seq<char>| #[trigger] entries.contains_key(k) ==> is_plain(entries[k])
        },
        Toml::Array(items) => forall|i: int| 0 <= i < items.len() ==> is_plain(#[trigger] items[i]),
        _ => true,
    }
}

impl View for TomlFloat {
    type V = Float;

    open spec fn view(&self) -> Float {
        match *self {
            TomlFloat::Finite(t) => Float::Finite(t@),
            TomlFloat::NonFinite(t) => Float::NonFinite(t@),
        }
    }
}

/// The meaning of a value.
closed spec fn value_model(value: TomlValue) -> Toml
    decreases value,
{
    match value {
        TomlValue::Text(t) => Toml::Text(t@),
        TomlValue::Integer(i) => Toml::Integer(i as int),
        TomlValue::Float(f) => Toml::Float(f@),
        TomlValue::Boolean(b) => Toml::Boolean(b),
        TomlValue::Datetime(t) => Toml::Datetime(t@),
        TomlValue::Array(items) => Toml::Array(
            Seq::new(
                items@.len(),
                |i: int|
                    if 0 <= i < items@.len() {
                        value_model(items@[i])
                    } else {
                        Toml::Boolean(false)
                    },
            ),
        ),
        TomlValue::Table(map) => Toml::Table(
            Map::new(
                |k: Seq<char>| map.key_seq().contains(k),
                |k: Seq<char>|
                    {
                        let i = map.key_seq().index_of(k);
                        if 0 <= i < map.values@.len() {
                            value_model(map.values@[i])
                        } else {
                            Toml::Boolean(false)
                        }
                    },
            ),
        ),
    }
}

impl View for TomlValue {
    type V = Toml;

    closed spec fn view(&self) -> Toml {
        value_model(*self)
    }
}

/// The meanings of a sequence of values.
pub open spec fn values_view(values: Seq<TomlValue>) -> Seq<Toml> {
    values.map_values(|v: TomlValue| v@)
}

/// The meanings of the values of a table.
pub open spec fn entries_view(entries: Map<Seq<char>, TomlValue>) -> Map<Seq<char>, Toml> {
    entries.map_values(|v: TomlValue| v@)
}

/// What the view of each kind of value is.
pub proof fn lemma_view(value: &TomlValue)
    ensures
        *value matches TomlValue::Text(t) ==> value@ == Toml::Text(t@),
        *value matches TomlValue::Integer(i) ==> value@ == Toml::Integer(i as int),
        *value matches TomlValue::Float(f) ==> value@ == Toml::Float(f@),
        *value matches TomlValue::Boolean(b) ==> value@ == Toml::Boolean(b),
        *value matches TomlValue::Datetime(t) ==> value@ == Toml::Datetime(t@),
        *value matches TomlValue::Array(items) ==> value@ == Toml::Array(values_view(items@)),
        *value is Table ==> value@ is Table,
{
    if let TomlValue::Array(items) = *value {
        assert(value@->Array_0 =~= values_view(items@));
    }
}

/// What the view of a table is.
pub(crate) proof fn lemma_table_view(map: &TextMap<TomlValue>)
    requires
        map.well_formed(),
    ensures
        TomlValue::Table(*map)@ == Toml::Table(entries_view(map@)),
{
    map.lemma_parts();
    text_map::lemma_paired(map.key_seq(), map.values@);
    assert(TomlValue::Table(*map)@->Table_0 =~= entries_view(map@));
}

impl Toml {
    /// The value of an entry of a table.
    pub open spec fn entry(self, key: Seq<char>) -> Option<Toml> {
        match self {
            Toml::Table(entries) => entry_of(entries, key),
            _ => None,
        }
    }

    /// The text of a string.
    pub open spec fn text(self) -> Option<Seq<char>> {
        match self {
            Toml::Text(t) => Some(t),
            _ => None,
        }
    }
}

/// The value that a map gives to a key.
pub open spec fn entry_of(entries: Map<Seq<char>, Toml>, key: Seq<char>) -> Option<Toml> {
    if entries.contains_key(key) {
        Some(entries[key])
    } else {
        None
    }
}

/// The text of an entry that holds a string.
pub open spec fn text_entry(entries: Map<Seq<char>, Toml>, key: Seq<char>) -> Option<Seq<char>> {
    match entry_of(entries, key) {
        Some(value) => value.text(),
        None => None,
    }
}

/// The JSON value that stands for a TOML value: the same tree, with a date and
/// time as its text and a float that JSON cannot hold as its name.
pub open spec fn canonical(value: Toml) -> Json
    decreases value,
{
    match value {
        Toml::Text(t) => Json::Text(t),
        Toml::Integer(i) => Json::Number(Number::Integer(i)),
        Toml::Float(Float::Finite(t)) => Json::Number(Number::Float(t)),
        Toml::Float(Float::NonFinite(t)) => Json::Text(t),
        Toml::Boolean(b) => Json::Bool(b),
        Toml::Datetime(t) => Json::Text(t),
        Toml::Array(items) => Json::Array(
            Seq::new(
                items.len(),
                |i: int|
                    if 0 <= i < items.len() {
                        canonical(items[i])
                    } else {
                        Json::Null
                    },
            ),
        ),
        Toml::Table(entries) => Json::Object(
            Map::new(
                |k: Seq<char>| entries.contains_key(k),
                |k: Seq<char>|
                    if entries.contains_key(k) {
                        canonical(entries[k])
                    } else {
                        Json::Null
                    },
            ),
        ),
    }
}

impl TomlValue {
    /// The table with these entries.
    pub fn table(entries: TextMap<TomlValue>) -> (r: TomlValue)
        ensures
            r@ == Toml::Table(entries_view(entries@)),
    {
        proof {
            use_type_invariant(&entries);
            lemma_table_view(&entries);
        }
        TomlValue::Table(entries)
    }

    /// The entries of a table.
    pub fn as_table(&self) -> (r: Option<&TextMap<TomlValue>>)
        ensures
            match r {
                Some(entries) => self@ == Toml::Table(entries_view(entries@)),
                None => !(self@ is Table),
            },
    {
        proof {
            lemma_view(self);
        }
        match self {
            TomlValue::Table(entries) => {
                proof {
                    use_type_invariant(entries);
                    lemma_table_view(entries);
                }
                Some(entries)
            },
            _ => None,
        }
    }

    /// The text of a string.
    pub fn as_str(&self) -> (r: Option<&str>)
        ensures
            text::opt_str_view(r) == self@.text(),
    {
        proof {
            lemma_view(self);
        }
        match self {
            TomlValue::Text(t) => Some(t.as_str()),
            _ => None,
        }
    }

    /// The value of an entry of a table.
    pub fn get(&self, key: &str) -> (r: Option<&TomlValue>)
        ensures
            match r {
                Some(value) => self@.entry(key@) == Some(value@),
                None => self@.entry(key@) is None,
            },
    {
        match self.as_table() {
            Some(entries) => entries.get(key),
            None => None,
        }
    }
}

impl TomlFloat {
    /// A copy of the float.
    fn copy(&self) -> (r: TomlFloat)
        ensures
            r@ == self@,
    {
        match self {
            TomlFloat::Finite(t) => TomlFloat::Finite(t.clone()),
            TomlFloat::NonFinite(t) => TomlFloat::NonFinite(t.clone()),
        }
    }
}

impl TomlValue {
    /// A copy of the value.
    pub fn copy(&self) -> (r: TomlValue)
        ensures
            r@ == self@,
        decreases self,
    {
        proof {
            lemma_view(self);
        }
        let r = match self {
            TomlValue::Text(t) => TomlValue::Text(t.clone()),
            TomlValue::Integer(i) => TomlValue::Integer(*i),
            TomlValue::Float(f) => TomlValue::Float(f.copy()),
            TomlValue::Boolean(b) => TomlValue::Boolean(*b),
            TomlValue::Datetime(t) => TomlValue::Datetime(t.clone()),
            TomlValue::Array(items) => {
                let mut copies: Vec<TomlValue> = Vec::new();
                let mut i: usize = 0;
                while i < items.len()
                    invariant
                        i <= items@.len(),
                        *self == TomlValue::Array(*items),
                        copies@.len() == i,
                        forall|j: int| 0 <= j < i ==> (#[trigger] copies@[j])@ == items@[j]@,
                    decreases items@.len() - i,
                {
                    assert(decreases_to!(*self => self->Array_0));
                    assert(decreases_to!(self->Array_0 => self->Array_0@));
                    assert(decreases_to!(self->Array_0@ => self->Array_0@[i as int]));
                    copies.push(items[i].copy());
                    i = i + 1;
                }
                assert(values_view(copies@) =~= values_view(items@));
                TomlValue::Array(copies)
            },
            TomlValue::Table(map) => {
                proof {
                    use_type_invariant(map);
                    lemma_table_view(map);
                    map.lemma_parts();
                    text_map::lemma_paired(map.key_seq(), map.values@);
                }
                let mut copy: TextMap<TomlValue> = TextMap::new();
                let n = map.len();
                let mut i: usize = 0;
                while i < n
                    invariant
                        i <= n,
                        n == map.key_seq().len(),
                        n == map.values@.len(),
                        n == map.keys@.len(),
                        *self == TomlValue::Table(*map),
                        map.key_seq().no_duplicates(),
                        forall|j: int|
                            0 <= j < n ==> map@[#[trigger] map.key_seq()[j]] == map.values@[j],
                        forall|k: Seq<char>| #[trigger] copy@.contains_key(k) <==> (exists|j: int|
                            0 <= j < i && map.key_seq()[j] == k),
                        forall|k: Seq<char>| #[trigger]
                            copy@.contains_key(k) ==> map@.contains_key(k) && copy@[k]@ == map@[k]@,
                    decreases n - i,
                {
                    let (key, _) = map.entry(i);
                    assert(decreases_to!(*self => self->Table_0));
                    assert(decreases_to!(self->Table_0 => self->Table_0.values));
                    assert(decreases_to!(self->Table_0.values => self->Table_0.values@));
                    let duplicate = map.values[i].copy();
                    copy.insert(key.clone(), duplicate);
                    i = i + 1;
                }
                proof {
                    use_type_invariant(&copy);
                    lemma_table_view(&copy);
                    assert(entries_view(copy@) =~= entries_view(map@));
                }
                TomlValue::Table(copy)
            },
        };
        proof {
            lemma_view(&r);
        }
        r
    }
}

/// The canonical JSON form of a TOML value.
pub fn canonicalize_toml_value(value: &TomlValue) -> (r: JsonValue)
    ensures
        r@ == canonical(value@),
    decreases value,
{
    proof {
        lemma_view(value);
    }
    match value {
        TomlValue::Text(t) => JsonValue::text(t.as_str()),
        TomlValue::Integer(i) => JsonValue::number(JsonNumber::Integer(*i as i128)),
        TomlValue::Float(TomlFloat::Finite(t)) => JsonValue::number(JsonNumber::Float(t.clone())),
        TomlValue::Float(TomlFloat::NonFinite(t)) => JsonValue::text(t.as_str()),
        TomlValue::Boolean(b) => JsonValue::truth(*b),
        TomlValue::Datetime(t) => JsonValue::text(t.as_str()),
        TomlValue::Array(items) => {
            let mut forms: Vec<JsonValue> = Vec::new();
            let mut i: usize = 0;
            while i < items.len()
                invariant
                    i <= items@.len(),
                    *value == TomlValue::Array(*items),
                    forms@.len() == i,
                    forall|j: int| 0 <= j < i ==> (#[trigger] forms@[j])@ == canonical(items@[j]@),
                decreases items@.len() - i,
            {
                assert(decreases_to!(*value => value->Array_0));
                assert(decreases_to!(value->Array_0 => value->Array_0@));
                assert(decreases_to!(value->Array_0@ => value->Array_0@[i as int]));
                forms.push(canonicalize_toml_value(&items[i]));
                i = i + 1;
            }
            let r = JsonValue::array(forms);
            assert(json::values_view(forms@) =~= canonical(value@)->Array_0);
            r
        },
        TomlValue::Table(map) => {
            proof {
                use_type_invariant(map);
                lemma_table_view(map);
                map.lemma_parts();
                text_map::lemma_paired(map.key_seq(), map.values@);
            }
            let mut object: TextMap<JsonValue> = TextMap::new();
            let n = map.len();
            let mut i: usize = 0;
            while i < n
                invariant
                    i <= n,
                    n == map.key_seq().len(),
                    n == map.values@.len(),
                    n == map.keys@.len(),
                    *value == TomlValue::Table(*map),
                    map.key_seq().no_duplicates(),
                    forall|j: int|
                        0 <= j < n ==> map@[#[trigger] map.key_seq()[j]] == map.values@[j],
                    forall|k: Seq<char>| #[trigger] object@.contains_key(k) <==> (exists|j: int|
                        0 <= j < i && map.key_seq()[j] == k),
                    forall|k: Seq<char>| #[trigger]
                        object@.contains_key(k) ==> map@.contains_key(k) && object@[k]@
                            == canonical(map@[k]@),
                decreases n - i,
            {
                let (key, _) = map.entry(i);
                assert(decreases_to!(*value => value->Table_0));
                assert(decreases_to!(value->Table_0 => value->Table_0.values));
                assert(decreases_to!(value->Table_0.values => value->Table_0.values@));
                let form = canonicalize_toml_value(&map.values[i]);
                object.insert(key.clone(), form);
                i = i + 1;
            }
            let r = JsonValue::object(object);
            assert(json::fields_view(object@) =~= canonical(value@)->Object_0);
            r
        },
    }
}

} // verus!
