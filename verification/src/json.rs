//! JSON values: what they are, how they are read and changed.

use crate::text;
use crate::text_map;
use crate::text_map::TextMap;
use vstd::prelude::*;

verus! {

/// A JSON number. A number with a fraction or an exponent is held as the
/// shortest decimal text that reads back as the same number.
#[derive(Debug, PartialEq, Eq)]
pub enum JsonNumber {
    Integer(i128),
    Float(String),
}

/// A JSON value.
#[derive(Debug, PartialEq, Eq)]
pub enum JsonValue {
    Null,
    Bool(bool),
    Number(JsonNumber),
    Text(String),
    Array(Vec<JsonValue>),
    Object(TextMap<JsonValue>),
}

/// What a JSON number is.
pub enum Number {
    Integer(int),
    Float(Seq<char>),
}

/// What a JSON value is: an object is a map, without an order of its keys.
#[verifier::ext_equal]
pub enum Json {
    Null,
    Bool(bool),
    Number(Number),
    Text(Seq<char>),
    Array(Seq<Json>),
    Object(Map<Seq<char>, Json>),
}

impl View for JsonNumber {
    type V = Number;

    open spec fn view(&self) -> Number {
        match *self {
            JsonNumber::Integer(i) => Number::Integer(i as int),
            JsonNumber::Float(text) => Number::Float(text@),
        }
    }
}

/// The meaning of a value.
closed spec fn value_model(value: JsonValue) -> Json
    decreases value,
{
    match value {
        JsonValue::Null => Json::Null,
        JsonValue::Bool(b) => Json::Bool(b),
        JsonValue::Number(n) => Json::Number(n@),
        JsonValue::Text(s) => Json::Text(s@),
        JsonValue::Array(items) => Json::Array(
            Seq::new(
                items@.len(),
                |i: int|
                    if 0 <= i < items@.len() {
                        value_model(items@[i])
                    } else {
                        Json::Null
                    },
            ),
        ),
        JsonValue::Object(map) => Json::Object(
            Map::new(
                |k: Seq<char>| map.key_seq().contains(k),
                |k: Seq<char>|
                    {
                        let i = map.key_seq().index_of(k);
                        if 0 <= i < map.values@.len() {
                            value_model(map.values@[i])
                        } else {
                            Json::Null
                        }
                    },
            ),
        ),
    }
}

impl View for JsonValue {
    type V = Json;

    closed spec fn view(&self) -> Json {
        value_model(*self)
    }
}

/// The meanings of a sequence of values.
pub open spec fn values_view(values: Seq<JsonValue>) -> Seq<Json> {
    values.map_values(|v: JsonValue| v@)
}

/// The meanings of the values of a map.
pub open spec fn fields_view(fields: Map<Seq<char>, JsonValue>) -> Map<Seq<char>, Json> {
    fields.map_values(|v: JsonValue| v@)
}

/// The meaning of an optional value.
pub open spec fn opt_value_view(value: Option<JsonValue>) -> Option<Json> {
    match value {
        Some(v) => Some(v@),
        None => None,
    }
}

/// What the view of each kind of value is.
pub proof fn lemma_view(value: &JsonValue)
    ensures
        *value is Null ==> value@ == Json::Null,
        *value matches JsonValue::Bool(b) ==> value@ == Json::Bool(b),
        *value matches JsonValue::Number(n) ==> value@ == Json::Number(n@),
        *value matches JsonValue::Text(s) ==> value@ == Json::Text(s@),
        *value matches JsonValue::Array(items) ==> value@ == Json::Array(values_view(items@)),
        *value is Object ==> value@ is Object,
{
    if let JsonValue::Array(items) = *value {
        assert(value@->Array_0 =~= values_view(items@));
    }
}

/// What the view of an object is.
pub(crate) proof fn lemma_object_view(map: &TextMap<JsonValue>)
    requires
        map.well_formed(),
    ensures
        JsonValue::Object(*map)@ == Json::Object(fields_view(map@)),
{
    map.lemma_parts();
    text_map::lemma_paired(map.key_seq(), map.values@);
    assert(JsonValue::Object(*map)@->Object_0 =~= fields_view(map@));
}

impl Json {
    /// The value of a field of an object.
    pub open spec fn field(self, key: Seq<char>) -> Option<Json> {
        match self {
            Json::Object(fields) => if fields.contains_key(key) {
                Some(fields[key])
            } else {
                None
            },
            _ => None,
        }
    }

    /// The text of a string.
    pub open spec fn text(self) -> Option<Seq<char>> {
        match self {
            Json::Text(text) => Some(text),
            _ => None,
        }
    }

    /// The items of an array.
    pub open spec fn items(self) -> Option<Seq<Json>> {
        match self {
            Json::Array(items) => Some(items),
            _ => None,
        }
    }

    /// The text of a field that holds a string.
    pub open spec fn text_field(self, key: Seq<char>) -> Option<Seq<char>> {
        match self.field(key) {
            Some(value) => value.text(),
            None => None,
        }
    }

    /// The items of a field that holds an array.
    pub open spec fn items_field(self, key: Seq<char>) -> Option<Seq<Json>> {
        match self.field(key) {
            Some(value) => value.items(),
            None => None,
        }
    }

    /// The object with the field set; anything but an object is unchanged.
    pub open spec fn with(self, key: Seq<char>, value: Json) -> Json {
        match self {
            Json::Object(fields) => Json::Object(fields.insert(key, value)),
            _ => self,
        }
    }

    /// The object without the field; anything but an object is unchanged.
    pub open spec fn without(self, key: Seq<char>) -> Json {
        match self {
            Json::Object(fields) => Json::Object(fields.remove(key)),
            _ => self,
        }
    }

    /// The object with the field set, where null counts as the object without
    /// fields.
    pub open spec fn assigned(self, key: Seq<char>, value: Json) -> Json {
        match self {
            Json::Null => Json::empty_object().with(key, value),
            _ => self.with(key, value),
        }
    }

    /// Whether fields can be set: an object, or null in its place.
    pub open spec fn is_object_or_null(self) -> bool {
        self is Object || self is Null
    }

    /// The object without fields.
    pub open spec fn empty_object() -> Json {
        Json::Object(Map::empty())
    }
}

/// Whether the text is that of a zero with a fraction, with or without a sign.
pub open spec fn is_float_zero(text: Seq<char>) -> bool {
    text == "0.0"@ || text == "-0.0"@
}

/// Equality of JSON numbers: the two zeros with a fraction are one number.
pub open spec fn same_number(a: Number, b: Number) -> bool {
    match (a, b) {
        (Number::Float(x), Number::Float(y)) => x == y || (is_float_zero(x) && is_float_zero(y)),
        _ => a == b,
    }
}

/// Equality of JSON values.
pub open spec fn same_json(a: Json, b: Json) -> bool
    decreases a,
{
    match (a, b) {
        (Json::Number(x), Json::Number(y)) => same_number(x, y),
        (Json::Array(x), Json::Array(y)) => {
            &&& x.len() == y.len()
            &&& forall|i: int| 0 <= i < x.len() ==> same_json(#[trigger] x[i], y[i])
        },
        (Json::Object(x), Json::Object(y)) => {
            &&& x.dom() == y.dom()
            &&& forall|k: Seq<char>| #[trigger] x.contains_key(k) ==> same_json(x[k], y[k])
        },
        _ => a == b,
    }
}

impl JsonNumber {
    /// A copy of the number.
    pub fn copy(&self) -> (r: JsonNumber)
        ensures
            r@ == self@,
    {
        match self {
            JsonNumber::Integer(i) => JsonNumber::Integer(*i),
            JsonNumber::Float(text) => JsonNumber::Float(text.clone()),
        }
    }

    /// Whether the two numbers are equal.
    pub fn equals(&self, other: &JsonNumber) -> (r: bool)
        ensures
            r == same_number(self@, other@),
    {
        match (self, other) {
            (JsonNumber::Integer(a), JsonNumber::Integer(b)) => *a == *b,
            (JsonNumber::Float(a), JsonNumber::Float(b)) => text::same(a.as_str(), b.as_str()) || ((text::same(
                a.as_str(),
                "0.0",
            ) || text::same(a.as_str(), "-0.0")) && (text::same(b.as_str(), "0.0") || text::same(
                b.as_str(),
                "-0.0",
            ))),
            _ => false,
        }
    }
}

impl Clone for JsonValue {
    fn clone(&self) -> (r: JsonValue)
        ensures
            r@ == self@,
    {
        self.copy()
    }
}

impl JsonValue {
    /// A copy of the value.
    pub fn copy(&self) -> (r: JsonValue)
        ensures
            r@ == self@,
        decreases self,
    {
        proof {
            lemma_view(self);
        }
        let r = match self {
            JsonValue::Null => JsonValue::Null,
            JsonValue::Bool(b) => JsonValue::Bool(*b),
            JsonValue::Number(n) => JsonValue::Number(n.copy()),
            JsonValue::Text(s) => JsonValue::Text(s.clone()),
            JsonValue::Array(items) => {
                let mut copies: Vec<JsonValue> = Vec::new();
                let mut i: usize = 0;
                while i < items.len()
                    invariant
                        i <= items@.len(),
                        *self == JsonValue::Array(*items),
                        copies@.len() == i,
                        forall|j: int| 0 <= j < i ==> (#[trigger] copies@[j])@ == items@[j]@,
                    decreases items@.len() - i,
                {
                    let item: &JsonValue = &items[i];
                    assert(decreases_to!(*self => self->Array_0));
                    assert(decreases_to!(self->Array_0 => self->Array_0@));
                    assert(decreases_to!(self->Array_0@ => self->Array_0@[i as int]));
                    copies.push(item.copy());
                    i = i + 1;
                }
                assert(values_view(copies@) =~= values_view(items@));
                JsonValue::Array(copies)
            },
            JsonValue::Object(map) => {
                proof {
                    use_type_invariant(map);
                    lemma_object_view(map);
                    map.lemma_parts();
                    text_map::lemma_paired(map.key_seq(), map.values@);
                }
                let mut copy: TextMap<JsonValue> = TextMap::new();
                let n = map.len();
                let mut i: usize = 0;
                while i < n
                    invariant
                        i <= n,
                        n == map.key_seq().len(),
                        n == map.values@.len(),
                        n == map.keys@.len(),
                        *self == JsonValue::Object(*map),
                        map.key_seq().no_duplicates(),
                        forall|j: int|
                            0 <= j < n ==> map@[#[trigger] map.key_seq()[j]] == map.values@[j],
                        forall|k: Seq<char>| #[trigger] copy@.contains_key(k) <==> (exists|j: int|
                            0 <= j < i && map.key_seq()[j] == k),
                        forall|k: Seq<char>| #[trigger]
                            copy@.contains_key(k) ==> map@.contains_key(k) && copy@[k]@ == map@[k]@,
                    decreases n - i,
                {
                    let (key, value) = map.entry(i);
                    assert(decreases_to!(*self => self->Object_0));
                    assert(decreases_to!(self->Object_0 => self->Object_0.values));
                    assert(decreases_to!(self->Object_0.values => self->Object_0.values@));
                    let duplicate = map.values[i].copy();
                    copy.insert(key.clone(), duplicate);
                    i = i + 1;
                }
                proof {
                    use_type_invariant(&copy);
                    lemma_object_view(&copy);
                    assert(fields_view(copy@) =~= fields_view(map@));
                }
                JsonValue::Object(copy)
            },
        };
        proof {
            lemma_view(&r);
        }
        r
    }
}

impl JsonValue {
    /// The string value with this text.
    pub fn text(text: &str) -> (r: JsonValue)
        ensures
            r@ == Json::Text(text@),
    {
        let r = JsonValue::Text(text.to_owned());
        proof {
            lemma_view(&r);
        }
        r
    }

    /// The array value with these items.
    pub fn array(items: Vec<JsonValue>) -> (r: JsonValue)
        ensures
            r@ == Json::Array(values_view(items@)),
    {
        let r = JsonValue::Array(items);
        proof {
            lemma_view(&r);
        }
        r
    }

    /// The truth value.
    pub fn truth(b: bool) -> (r: JsonValue)
        ensures
            r@ == Json::Bool(b),
    {
        let r = JsonValue::Bool(b);
        proof {
            lemma_view(&r);
        }
        r
    }

    /// The null value.
    pub fn null() -> (r: JsonValue)
        ensures
            r@ == Json::Null,
    {
        let r = JsonValue::Null;
        proof {
            lemma_view(&r);
        }
        r
    }

    /// The number value.
    pub fn number(number: JsonNumber) -> (r: JsonValue)
        ensures
            r@ == Json::Number(number@),
    {
        let r = JsonValue::Number(number);
        proof {
            lemma_view(&r);
        }
        r
    }

    /// The object with these fields.
    pub fn object(fields: TextMap<JsonValue>) -> (r: JsonValue)
        ensures
            r@ == Json::Object(fields_view(fields@)),
    {
        proof {
            use_type_invariant(&fields);
            lemma_object_view(&fields);
        }
        JsonValue::Object(fields)
    }

    /// The object without fields.
    pub fn empty_object() -> (r: JsonValue)
        ensures
            r@ == Json::empty_object(),
    {
        let r = JsonValue::object(TextMap::new());
        assert(r@->Object_0 =~= Map::empty());
        r
    }

    /// Whether the value is an object.
    pub fn is_object(&self) -> (r: bool)
        ensures
            r == self@ is Object,
    {
        proof {
            lemma_view(self);
        }
        match self {
            JsonValue::Object(_) => true,
            _ => false,
        }
    }

    /// Whether the value is null.
    pub fn is_null(&self) -> (r: bool)
        ensures
            r == (self@ == Json::Null),
    {
        proof {
            lemma_view(self);
        }
        match self {
            JsonValue::Null => true,
            _ => false,
        }
    }

    /// The fields of an object.
    pub fn as_object(&self) -> (r: Option<&TextMap<JsonValue>>)
        ensures
            match r {
                Some(fields) => self@ == Json::Object(fields_view(fields@)) && *self
                    == JsonValue::Object(*fields),
                None => !(self@ is Object),
            },
    {
        proof {
            lemma_view(self);
        }
        match self {
            JsonValue::Object(fields) => {
                proof {
                    use_type_invariant(fields);
                    lemma_object_view(fields);
                }
                Some(fields)
            },
            _ => None,
        }
    }

    /// The text of a string.
    pub fn as_str(&self) -> (r: Option<&str>)
        ensures
            text::opt_str_view(r) == self@.text(),
    {
        proof {
            lemma_view(self);
        }
        match self {
            JsonValue::Text(text) => Some(text.as_str()),
            _ => None,
        }
    }

    /// The items of an array.
    pub fn as_array(&self) -> (r: Option<&Vec<JsonValue>>)
        ensures
            match r {
                Some(items) => self@.items() == Some(values_view(items@)),
                None => self@.items() is None,
            },
    {
        proof {
            lemma_view(self);
        }
        match self {
            JsonValue::Array(items) => Some(items),
            _ => None,
        }
    }

    /// The value of a field.
    pub fn get(&self, key: &str) -> (r: Option<&JsonValue>)
        ensures
            match r {
                Some(value) => self@.field(key@) == Some(value@),
                None => self@.field(key@) is None,
            },
    {
        match self.as_object() {
            Some(fields) => fields.get(key),
            None => None,
        }
    }

    /// The text of a field that holds a string.
    pub fn str_field(&self, key: &str) -> (r: Option<&str>)
        ensures
            text::opt_str_view(r) == self@.text_field(key@),
    {
        match self.get(key) {
            Some(value) => value.as_str(),
            None => None,
        }
    }

    /// Whether a field holds the string with this text.
    pub fn field_is(&self, key: &str, text: &str) -> (r: bool)
        ensures
            r == (self@.text_field(key@) == Some(text@)),
    {
        match self.str_field(key) {
            Some(found) => text::same(found, text),
            None => false,
        }
    }

    /// The items of a field that holds an array.
    pub fn array_field(&self, key: &str) -> (r: Option<&Vec<JsonValue>>)
        ensures
            match r {
                Some(items) => self@.items_field(key@) == Some(values_view(items@)),
                None => self@.items_field(key@) is None,
            },
    {
        match self.get(key) {
            Some(value) => value.as_array(),
            None => None,
        }
    }

    /// Sets a field of an object; changes nothing else.
    pub fn set_field(&mut self, key: &str, value: JsonValue)
        ensures
            final(self)@ == old(self)@.with(key@, value@),
    {
        let mut taken = JsonValue::Null;
        std::mem::swap(&mut taken, self);
        proof {
            lemma_view(&taken);
        }
        match taken {
            JsonValue::Object(mut fields) => {
                proof {
                    use_type_invariant(&fields);
                    lemma_object_view(&fields);
                }
                let ghost before = fields@;
                fields.insert(key.to_owned(), value);
                assert(fields_view(fields@) =~= fields_view(before).insert(key@, value@));
                *self = JsonValue::object(fields);
            },
            other => {
                *self = other;
            },
        }
    }

    /// Sets a field of an object; null becomes an object first.
    pub fn assign_field(&mut self, key: &str, value: JsonValue)
        requires
            old(self)@.is_object_or_null(),
        ensures
            final(self)@ == old(self)@.assigned(key@, value@),
    {
        if self.is_null() {
            *self = JsonValue::empty_object();
        }
        self.set_field(key, value);
    }

    /// Drops a field of an object; changes nothing else.
    pub fn drop_field(&mut self, key: &str) -> (r: Option<JsonValue>)
        ensures
            final(self)@ == old(self)@.without(key@),
            opt_value_view(r) == old(self)@.field(key@),
    {
        let mut taken = JsonValue::Null;
        std::mem::swap(&mut taken, self);
        proof {
            lemma_view(&taken);
        }
        match taken {
            JsonValue::Object(mut fields) => {
                proof {
                    use_type_invariant(&fields);
                    lemma_object_view(&fields);
                }
                let ghost before = fields@;
                let dropped = fields.remove(key);
                assert(fields_view(fields@) =~= fields_view(before).remove(key@));
                *self = JsonValue::object(fields);
                dropped
            },
            other => {
                *self = other;
                None
            },
        }
    }

    /// Takes the items of a field that holds an array out of the object; changes
    /// nothing where there is no such field.
    pub fn take_array_field(&mut self, key: &str) -> (r: Option<Vec<JsonValue>>)
        ensures
            match old(self)@.items_field(key@) {
                Some(items) => {
                    &&& r matches Some(taken) && values_view(taken@) == items
                    &&& final(self)@ == old(self)@.without(key@)
                    &&& forall|value: Json| #[trigger]
                        final(self)@.with(key@, value) == old(self)@.with(key@, value)
                },
                None => r is None && final(self)@ == old(self)@,
            },
    {
        if self.array_field(key).is_none() {
            return None;
        }
        let ghost before = self@;
        match self.drop_field(key) {
            Some(JsonValue::Array(items)) => {
                proof {
                    lemma_view(&JsonValue::Array(items));
                    assert forall|value: Json| #[trigger]
                        self@.with(key@, value) == before.with(key@, value) by {
                        assert(before->Object_0.remove(key@).insert(key@, value)
                            =~= before->Object_0.insert(key@, value));
                    }
                }
                Some(items)
            },
            Some(other) => {
                proof {
                    lemma_view(&other);
                }
                None
            },
            None => None,
        }
    }

    /// The object with the field set.
    pub fn with(self, key: &str, value: JsonValue) -> (r: JsonValue)
        ensures
            r@ == self@.with(key@, value@),
    {
        let mut r = self;
        r.set_field(key, value);
        r
    }

    /// Whether the two values are equal.
    pub fn equals(&self, other: &JsonValue) -> (r: bool)
        ensures
            r == same_json(self@, other@),
        decreases self,
    {
        proof {
            lemma_view(self);
            lemma_view(other);
        }
        match (self, other) {
            (JsonValue::Null, JsonValue::Null) => true,
            (JsonValue::Bool(a), JsonValue::Bool(b)) => *a == *b,
            (JsonValue::Number(a), JsonValue::Number(b)) => a.equals(b),
            (JsonValue::Text(a), JsonValue::Text(b)) => text::same(a.as_str(), b.as_str()),
            (JsonValue::Array(a), JsonValue::Array(b)) => {
                if a.len() != b.len() {
                    return false;
                }
                let mut i: usize = 0;
                while i < a.len()
                    invariant
                        i <= a@.len() == b@.len(),
                        *self == JsonValue::Array(*a),
                        self@ == Json::Array(values_view(a@)),
                        other@ == Json::Array(values_view(b@)),
                        forall|j: int|
                            0 <= j < i ==> same_json(#[trigger] values_view(a@)[j], values_view(b@)[j]),
                    decreases a@.len() - i,
                {
                    assert(decreases_to!(*self => self->Array_0));
                    assert(decreases_to!(self->Array_0 => self->Array_0@));
                    assert(decreases_to!(self->Array_0@ => self->Array_0@[i as int]));
                    if !a[i].equals(&b[i]) {
                        assert(!same_json(values_view(a@)[i as int], values_view(b@)[i as int]));
                        return false;
                    }
                    i = i + 1;
                }
                true
            },
            (JsonValue::Object(a), JsonValue::Object(b)) => {
                proof {
                    use_type_invariant(a);
                    use_type_invariant(b);
                    lemma_object_view(a);
                    lemma_object_view(b);
                    a.lemma_parts();
                    b.lemma_parts();
                    text_map::lemma_paired(a.key_seq(), a.values@);
                    text_map::lemma_paired(b.key_seq(), b.values@);
                    assert(fields_view(a@).dom() =~= a@.dom());
                    assert(fields_view(b@).dom() =~= b@.dom());
                }
                if a.len() != b.len() {
                    return false;
                }
                let n = a.len();
                let mut i: usize = 0;
                while i < n
                    invariant
                        i <= n,
                        n == a.key_seq().len(),
                        n == b.key_seq().len(),
                        n == a.values@.len(),
                        n == b.values@.len(),
                        a@.dom() == a.key_seq().to_set(),
                        b@.dom() == b.key_seq().to_set(),
                        text_map::sorted_keys(a@.dom()) == a.key_seq(),
                        text_map::sorted_keys(b@.dom()) == b.key_seq(),
                        *self == JsonValue::Object(*a),
                        self@ == Json::Object(fields_view(a@)),
                        other@ == Json::Object(fields_view(b@)),
                        fields_view(a@).dom() == a@.dom(),
                        fields_view(b@).dom() == b@.dom(),
                        forall|j: int|
                            0 <= j < n ==> a@[#[trigger] a.key_seq()[j]] == a.values@[j],
                        forall|j: int|
                            0 <= j < n ==> b@[#[trigger] b.key_seq()[j]] == b.values@[j],
                        forall|j: int|
                            0 <= j < i ==> a.key_seq()[j] == b.key_seq()[j] && same_json(
                                fields_view(a@)[#[trigger] a.key_seq()[j]],
                                fields_view(b@)[a.key_seq()[j]],
                            ),
                    decreases n - i,
                {
                    let (left, _) = a.entry(i);
                    let (right, _) = b.entry(i);
                    if !text::same(left.as_str(), right.as_str()) {
                        assert(a.key_seq() != b.key_seq());
                        return false;
                    }
                    assert(decreases_to!(*self => self->Object_0));
                    assert(decreases_to!(self->Object_0 => self->Object_0.values));
                    assert(decreases_to!(self->Object_0.values => self->Object_0.values@));
                    assert(fields_view(a@).contains_key(left@));
                    assert(fields_view(b@).contains_key(left@));
                    if !a.values[i].equals(&b.values[i]) {
                        assert(!same_json(fields_view(a@)[left@], fields_view(b@)[left@]));
                        return false;
                    }
                    i = i + 1;
                }
                assert(a.key_seq() =~= b.key_seq());
                assert forall|k: Seq<char>| #[trigger]
                    fields_view(a@).contains_key(k) implies same_json(
                    fields_view(a@)[k],
                    fields_view(b@)[k],
                ) by {
                    assert(a.key_seq().to_set().contains(k));
                    let j = choose|j: int| 0 <= j < n && a.key_seq()[j] == k;
                    assert(a.key_seq()[j] == k);
                }
                true
            },
            _ => false,
        }
    }
}

/// Whether a value holds no number with a fraction.
pub open spec fn holds_no_float(value: Json) -> bool
    decreases value,
{
    match value {
        Json::Number(Number::Float(_)) => false,
        Json::Array(items) => forall|i: int|
            0 <= i < items.len() ==> holds_no_float(#[trigger] items[i]),
        Json::Object(fields) => forall|k: Seq<char>| #[trigger]
            fields.contains_key(k) ==> holds_no_float(fields[k]),
        _ => true,
    }
}

/// Values without fractions are equal only where they are the very same. Fractions are
/// equal where their texts are, and the two zeros are equal as well.
pub proof fn law_equal_values_are_the_same(a: Json, b: Json)
    ensures
        holds_no_float(a) && same_json(a, b) ==> a == b,
        forall|x: Seq<char>, y: Seq<char>|
            a == Json::Number(Number::Float(x)) && b == Json::Number(Number::Float(y)) ==> (
            #[trigger] same_number(Number::Float(x), Number::Float(y)) <==> x == y || ((x == "0.0"@
                || x == "-0.0"@) && (y == "0.0"@ || y == "-0.0"@))),
    decreases a,
{
    if holds_no_float(a) && same_json(a, b) {
        match (a, b) {
            (Json::Array(x), Json::Array(y)) => {
                assert forall|i: int| 0 <= i < x.len() implies #[trigger] x[i] == y[i] by {
                    law_equal_values_are_the_same(x[i], y[i]);
                }
                assert(x =~= y);
            },
            (Json::Object(x), Json::Object(y)) => {
                assert forall|k: Seq<char>| #[trigger] x.contains_key(k) implies x[k] == y[k] by {
                    law_equal_values_are_the_same(x[k], y[k]);
                }
                assert(x =~= y);
            },
            _ => {},
        }
    }
}

/// A field is found by its key in an object and nowhere else; its text and its items are
/// found where it is a string or an array.
pub proof fn law_fields_are_found_by_key(value: Json, key: Seq<char>)
    ensures
        value.field(key) is Some <==> (value is Object && value->Object_0.contains_key(key)),
        value.field(key) matches Some(found) ==> value->Object_0[key] == found,
        match value.field(key) {
            Some(Json::Text(found)) => value.text_field(key) == Some(found),
            _ => value.text_field(key) is None,
        },
        match value.field(key) {
            Some(Json::Array(found)) => value.items_field(key) == Some(found),
            _ => value.items_field(key) is None,
        },
{
}

/// Setting a field sets that field and no other, and dropping one drops that one and no
/// other; what is not an object stays as it is.
pub proof fn law_fields_change_one_at_a_time(value: Json, key: Seq<char>, new: Json, other: Seq<char>)
    ensures
        value is Object ==> value.with(key, new).field(key) == Some(new),
        value is Object && other != key ==> value.with(key, new).field(other) == value.field(other),
        value.without(key).field(key) is None,
        other != key ==> value.without(key).field(other) == value.field(other),
        !(value is Object) ==> value.with(key, new) == value && value.without(key) == value,
        value.is_object_or_null() ==> value.assigned(key, new).field(key) == Some(new),
        value.is_object_or_null() && other != key ==> value.assigned(key, new).field(other)
            == value.field(other),
{
}

} // verus!
