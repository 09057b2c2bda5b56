//! Maps from texts to values that are walked in the order of their keys.

use crate::text;
use vstd::prelude::*;

verus! {

/// Each text comes before all that follow it.
pub open spec fn strictly_sorted(s: Seq<Seq<char>>) -> bool {
    forall|i: int, j: int| 0 <= i < j < s.len() ==> text::text_lt(#[trigger] s[i], #[trigger] s[j])
}

/// The texts of a finite set, each once, in order.
pub open spec fn sorted_keys(keys: Set<Seq<char>>) -> Seq<Seq<char>> {
    choose|s: Seq<Seq<char>>| strictly_sorted(s) && s.to_set() == keys
}

/// Two strictly sorted sequences with the same texts are equal.
pub proof fn lemma_sorted_unique(x: Seq<Seq<char>>, y: Seq<Seq<char>>)
    requires
        strictly_sorted(x),
        strictly_sorted(y),
        x.to_set() == y.to_set(),
    ensures
        x == y,
    decreases x.len(),
{
    if x.len() == 0 {
        if y.len() > 0 {
            assert(y.to_set().contains(y[0]));
            assert(x.to_set().contains(y[0]));
        }
        assert(x =~= y);
    } else {
        assert(x.to_set().contains(x.last()));
        assert(y.to_set().contains(x.last()));
        let i = choose|i: int| 0 <= i < y.len() && y[i] == x.last();
        assert(y.to_set().contains(y.last()));
        assert(x.to_set().contains(y.last()));
        let j = choose|j: int| 0 <= j < x.len() && x[j] == y.last();
        if i != y.len() - 1 {
            assert(text::text_lt(y[i], y[y.len() - 1]));
            if j != x.len() - 1 {
                assert(text::text_lt(x[j], x[x.len() - 1]));
                text::lemma_lt_transitive(x.last(), y.last(), x.last());
            }
            text::lemma_lt_irreflexive(x.last());
        }
        assert(x.last() == y.last());
        let a = x.drop_last();
        let b = y.drop_last();
        assert forall|t: Seq<char>| a.to_set().contains(t) == b.to_set().contains(t) by {
            if a.to_set().contains(t) {
                let k = choose|k: int| 0 <= k < a.len() && a[k] == t;
                assert(x[k] == t);
                assert(x.to_set().contains(t));
                assert(y.to_set().contains(t));
                let l = choose|l: int| 0 <= l < y.len() && y[l] == t;
                assert(text::text_lt(x[k], x[x.len() - 1]));
                text::lemma_lt_irreflexive(t);
                assert(b[l] == t);
            }
            if b.to_set().contains(t) {
                let k = choose|k: int| 0 <= k < b.len() && b[k] == t;
                assert(y[k] == t);
                assert(y.to_set().contains(t));
                assert(x.to_set().contains(t));
                let l = choose|l: int| 0 <= l < x.len() && x[l] == t;
                assert(text::text_lt(y[k], y[y.len() - 1]));
                text::lemma_lt_irreflexive(t);
                assert(a[l] == t);
            }
        }
        assert(a.to_set() =~= b.to_set());
        lemma_sorted_unique(a, b);
        assert(x =~= a.push(x.last()));
        assert(y =~= b.push(y.last()));
    }
}

/// A strictly sorted sequence lists its own texts in order.
pub proof fn lemma_sorted_keys(s: Seq<Seq<char>>)
    requires
        strictly_sorted(s),
    ensures
        sorted_keys(s.to_set()) == s,
        s.no_duplicates(),
{
    let t = sorted_keys(s.to_set());
    assert(strictly_sorted(t) && t.to_set() == s.to_set());
    lemma_sorted_unique(t, s);
    assert forall|i: int, j: int| 0 <= i < s.len() && 0 <= j < s.len() && i != j implies s[i]
        != s[j] by {
        if i < j {
            assert(text::text_lt(s[i], s[j]));
        } else {
            assert(text::text_lt(s[j], s[i]));
        }
        text::lemma_lt_irreflexive(s[i]);
    }
}

/// The map that pairs each key with the value at the same place.
pub open spec fn paired<V>(keys: Seq<Seq<char>>, values: Seq<V>) -> Map<Seq<char>, V> {
    Map::new(|k: Seq<char>| keys.contains(k), |k: Seq<char>| values[keys.index_of(k)])
}

/// Entries of a map given by strictly sorted keys are found by place.
pub proof fn lemma_paired<V>(keys: Seq<Seq<char>>, values: Seq<V>)
    requires
        strictly_sorted(keys),
        keys.len() == values.len(),
    ensures
        keys.no_duplicates(),
        paired(keys, values).dom() == keys.to_set(),
        paired(keys, values).dom().finite(),
        paired(keys, values).dom().len() == keys.len(),
        sorted_keys(paired(keys, values).dom()) == keys,
        forall|i: int|
            0 <= i < keys.len() ==> {
                &&& paired(keys, values).contains_key(#[trigger] keys[i])
                &&& paired(keys, values)[keys[i]] == values[i]
                &&& keys.index_of(keys[i]) == i
            },
        forall|k: Seq<char>| #[trigger]
            paired(keys, values).contains_key(k) ==> {
                &&& 0 <= keys.index_of(k) < keys.len()
                &&& keys[keys.index_of(k)] == k
            },
{
    lemma_sorted_keys(keys);
    assert(paired(keys, values).dom() =~= keys.to_set());
    keys.unique_seq_to_set();
    assert forall|i: int| 0 <= i < keys.len() implies {
        &&& paired(keys, values).contains_key(#[trigger] keys[i])
        &&& paired(keys, values)[keys[i]] == values[i]
        &&& keys.index_of(keys[i]) == i
    } by {
        assert(keys.contains(keys[i]));
        assert(keys[keys.index_of(keys[i])] == keys[i]);
    }
}

/// A new key between its neighbours in order is a new entry.
proof fn lemma_paired_insert<V>(
    keys: Seq<Seq<char>>,
    values: Seq<V>,
    i: int,
    key: Seq<char>,
    value: V,
)
    requires
        strictly_sorted(keys),
        keys.len() == values.len(),
        0 <= i <= keys.len(),
        forall|j: int| 0 <= j < i ==> text::text_lt(#[trigger] keys[j], key),
        forall|j: int| i <= j < keys.len() ==> text::text_lt(key, #[trigger] keys[j]),
    ensures
        strictly_sorted(keys.insert(i, key)),
        paired(keys.insert(i, key), values.insert(i, value)) == paired(keys, values).insert(
            key,
            value,
        ),
{
    let ks = keys.insert(i, key);
    let vs = values.insert(i, value);
    assert forall|a: int, b: int| 0 <= a < b < ks.len() implies text::text_lt(
        #[trigger] ks[a],
        #[trigger] ks[b],
    ) by {
        let x = if a < i { a } else { a - 1 };
        let y = if b < i { b } else { b - 1 };
        if a != i && b != i {
            assert(text::text_lt(keys[x], keys[y]));
        } else if a == i {
            assert(ks[b] == keys[y]);
        } else {
            assert(ks[a] == keys[x]);
        }
    }
    lemma_paired(keys, values);
    lemma_paired(ks, vs);
    let m = paired(keys, values).insert(key, value);
    assert forall|k: Seq<char>| paired(ks, vs).contains_key(k) == #[trigger] m.contains_key(k) by {
        if paired(ks, vs).contains_key(k) {
            let p = ks.index_of(k);
            if p != i {
                let q = if p < i { p } else { p - 1 };
                assert(keys[q] == k);
            }
        }
        if m.contains_key(k) {
            if k == key {
                assert(ks[i] == k);
            } else {
                let q = keys.index_of(k);
                let p = if q < i { q } else { q + 1 };
                assert(ks[p] == k);
            }
        }
    }
    assert forall|k: Seq<char>| #[trigger] m.contains_key(k) implies paired(ks, vs)[k] == m[k] by {
        if k == key {
            assert(ks[i] == k);
        } else {
            let q = keys.index_of(k);
            let p = if q < i { q } else { q + 1 };
            assert(ks[p] == k);
            assert(vs[p] == values[q]);
        }
    }
    assert(paired(ks, vs) =~= m);
}

/// A new value at a place replaces the value of its key.
proof fn lemma_paired_update<V>(keys: Seq<Seq<char>>, values: Seq<V>, i: int, value: V)
    requires
        strictly_sorted(keys),
        keys.len() == values.len(),
        0 <= i < keys.len(),
    ensures
        paired(keys, values.update(i, value)) == paired(keys, values).insert(keys[i], value),
{
    lemma_paired(keys, values);
    lemma_paired(keys, values.update(i, value));
    let m = paired(keys, values).insert(keys[i], value);
    assert forall|k: Seq<char>| #[trigger] m.contains_key(k) implies paired(
        keys,
        values.update(i, value),
    )[k] == m[k] by {
        if k != keys[i] {
            assert(keys[keys.index_of(k)] == k);
        }
    }
    assert(paired(keys, values.update(i, value)) =~= m);
}

/// Dropping a place drops the entry of its key.
proof fn lemma_paired_remove<V>(keys: Seq<Seq<char>>, values: Seq<V>, i: int)
    requires
        strictly_sorted(keys),
        keys.len() == values.len(),
        0 <= i < keys.len(),
    ensures
        strictly_sorted(keys.remove(i)),
        paired(keys.remove(i), values.remove(i)) == paired(keys, values).remove(keys[i]),
{
    let ks = keys.remove(i);
    let vs = values.remove(i);
    assert forall|a: int, b: int| 0 <= a < b < ks.len() implies text::text_lt(
        #[trigger] ks[a],
        #[trigger] ks[b],
    ) by {
        let x = if a < i { a } else { a + 1 };
        let y = if b < i { b } else { b + 1 };
        assert(text::text_lt(keys[x], keys[y]));
    }
    lemma_paired(keys, values);
    lemma_paired(ks, vs);
    let m = paired(keys, values).remove(keys[i]);
    assert forall|k: Seq<char>| paired(ks, vs).contains_key(k) == #[trigger] m.contains_key(k) by {
        if paired(ks, vs).contains_key(k) {
            let p = ks.index_of(k);
            let q = if p < i { p } else { p + 1 };
            assert(keys[q] == k);
        }
        if m.contains_key(k) {
            let q = keys.index_of(k);
            let p = if q < i { q } else { q - 1 };
            assert(ks[p] == k);
        }
    }
    assert forall|k: Seq<char>| #[trigger] m.contains_key(k) implies paired(ks, vs)[k] == m[k] by {
        let q = keys.index_of(k);
        let p = if q < i { q } else { q - 1 };
        assert(ks[p] == k);
        assert(vs[p] == values[q]);
    }
    assert(paired(ks, vs) =~= m);
}

/// The map that pairs make, where the last pair of a key counts.
pub open spec fn from_pair_seq<V>(pairs: Seq<(String, V)>) -> Map<Seq<char>, V>
    decreases pairs.len(),
{
    if pairs.len() == 0 {
        Map::empty()
    } else {
        from_pair_seq(pairs.drop_last()).insert(pairs.last().0@, pairs.last().1)
    }
}

/// A finite map from texts, kept sorted by key.
#[derive(Debug, PartialEq, Eq)]
pub struct TextMap<V> {
    pub(crate) keys: Vec<String>,
    pub(crate) values: Vec<V>,
}

impl<V> View for TextMap<V> {
    type V = Map<Seq<char>, V>;

    closed spec fn view(&self) -> Map<Seq<char>, V> {
        paired(self.key_seq(), self.values@)
    }
}

impl<V> TextMap<V> {
    /// The keys, in the order in which they are held.
    pub closed spec fn key_seq(&self) -> Seq<Seq<char>> {
        text::texts_view(self.keys@)
    }

    #[verifier::type_invariant]
    pub(crate) closed spec fn well_formed(&self) -> bool {
        &&& self.keys@.len() == self.values@.len()
        &&& strictly_sorted(self.key_seq())
    }

    /// What a map is made of.
    pub(crate) proof fn lemma_parts(&self)
        requires
            self.well_formed(),
        ensures
            self@ == paired(self.key_seq(), self.values@),
            self.key_seq() == text::texts_view(self.keys@),
            self.keys@.len() == self.values@.len(),
            strictly_sorted(self.key_seq()),
    {
    }

    /// The empty map.
    pub fn new() -> (m: Self)
        ensures
            m@ == Map::<Seq<char>, V>::empty(),
            m.key_seq().len() == 0,
    {
        let m = TextMap { keys: Vec::new(), values: Vec::new() };
        assert(m@ =~= Map::<Seq<char>, V>::empty());
        m
    }

    /// The map that pairs make, where the last pair of a key counts.
    pub fn from_pairs(pairs: Vec<(String, V)>) -> (m: Self)
        ensures
            m@ == from_pair_seq(pairs@),
    {
        let ghost all = pairs@;
        let mut m = TextMap::new();
        assert(all.take(0) =~= Seq::empty());
        for pair in iter: pairs
            invariant
                iter.seq() == all,
                m@ == from_pair_seq(all.take(iter.index() as int)),
        {
            let ghost done = iter.index() as int;
            assert(all.take(done + 1).drop_last() =~= all.take(done));
            assert(all.take(done + 1).last() == pair);
            m.insert(pair.0, pair.1);
        }
        assert(all.take(all.len() as int) =~= all);
        m
    }

    /// The number of entries.
    pub fn len(&self) -> (n: usize)
        ensures
            n == self.key_seq().len(),
            n == self@.dom().len(),
            self@.dom().finite(),
            sorted_keys(self@.dom()) == self.key_seq(),
    {
        proof {
            use_type_invariant(self);
            lemma_paired(self.key_seq(), self.values@);
        }
        self.keys.len()
    }

    /// Whether the map has no entry.
    pub fn is_empty(&self) -> (r: bool)
        ensures
            r == (self@ == Map::<Seq<char>, V>::empty()),
    {
        proof {
            use_type_invariant(self);
            lemma_paired(self.key_seq(), self.values@);
            if self.keys@.len() == 0 {
                assert(self@ =~= Map::<Seq<char>, V>::empty());
            } else {
                assert(self@.contains_key(self.key_seq()[0]));
            }
        }
        self.keys.len() == 0
    }

    /// The key and the value at a place.
    pub fn entry(&self, i: usize) -> (r: (&String, &V))
        requires
            i < self.key_seq().len(),
        ensures
            r.0@ == self.key_seq()[i as int],
            self@.contains_key(r.0@),
            *r.1 == self@[r.0@],
    {
        proof {
            use_type_invariant(self);
            lemma_paired(self.key_seq(), self.values@);
            assert(self.key_seq()[i as int] == self.keys@[i as int]@);
        }
        (&self.keys[i], &self.values[i])
    }

    /// The first place whose key is not below `key`.
    fn lower_bound(&self, key: &str) -> (i: usize)
        ensures
            i <= self.keys@.len(),
            forall|j: int| 0 <= j < i ==> text::text_lt(#[trigger] self.key_seq()[j], key@),
            forall|j: int| i <= j < self.keys@.len() ==> !text::text_lt(#[trigger] self.key_seq()[j], key@),
    {
        proof {
            use_type_invariant(self);
        }
        let mut i: usize = 0;
        while i < self.keys.len() && text::text_less(self.keys[i].as_str(), key)
            invariant
                i <= self.keys@.len(),
                forall|j: int| 0 <= j < i ==> text::text_lt(#[trigger] self.key_seq()[j], key@),
            decreases self.keys@.len() - i,
        {
            assert(self.key_seq()[i as int] == self.keys@[i as int]@);
            i = i + 1;
        }
        proof {
            assert forall|j: int| i <= j < self.keys@.len() implies !text::text_lt(
                #[trigger] self.key_seq()[j],
                key@,
            ) by {
                assert(self.key_seq()[i as int] == self.keys@[i as int]@);
                if i < j && text::text_lt(self.key_seq()[j], key@) {
                    assert(text::text_lt(self.key_seq()[i as int], self.key_seq()[j]));
                    text::lemma_lt_transitive(self.key_seq()[i as int], self.key_seq()[j], key@);
                }
            }
        }
        i
    }

    /// The place of a key.
    fn find(&self, key: &str) -> (r: Option<usize>)
        ensures
            match r {
                Some(i) => i < self.keys@.len() && self.key_seq()[i as int] == key@
                    && self@.contains_key(key@) && self@[key@] == self.values@[i as int],
                None => !self@.contains_key(key@),
            },
    {
        proof {
            use_type_invariant(self);
            lemma_paired(self.key_seq(), self.values@);
        }
        let i = self.lower_bound(key);
        if i < self.keys.len() && text::same(self.keys[i].as_str(), key) {
            assert(self.key_seq()[i as int] == key@);
            Some(i)
        } else {
            proof {
                if self@.contains_key(key@) {
                    let p = self.key_seq().index_of(key@);
                    text::lemma_lt_irreflexive(key@);
                    assert(self.key_seq()[p] == key@);
                    assert(p >= i);
                    assert(self.key_seq()[i as int] == self.keys@[i as int]@);
                    assert(text::text_lt(self.key_seq()[i as int], self.key_seq()[p]));
                }
            }
            None
        }
    }

    /// The value of a key.
    pub fn get(&self, key: &str) -> (r: Option<&V>)
        ensures
            match r {
                Some(v) => self@.contains_key(key@) && *v == self@[key@],
                None => !self@.contains_key(key@),
            },
    {
        match self.find(key) {
            Some(i) => {
                proof {
                    use_type_invariant(self);
                }
                Some(&self.values[i])
            },
            None => None,
        }
    }

    /// Whether the key has a value.
    pub fn contains_key(&self, key: &str) -> (r: bool)
        ensures
            r == self@.contains_key(key@),
    {
        match self.find(key) {
            Some(_) => true,
            None => false,
        }
    }

    /// Gives the key this value, whether it had one or not.
    pub fn insert(&mut self, key: String, value: V)
        ensures
            final(self)@ == old(self)@.insert(key@, value),
    {
        proof {
            use_type_invariant(&*self);
        }
        let i = self.lower_bound(key.as_str());
        let ghost before = self.key_seq();
        let ghost before_values = self.values@;
        let ghost name = key@;
        let mut taken = TextMap::new();
        std::mem::swap(&mut taken, self);
        let TextMap { mut keys, mut values } = taken;
        if i < keys.len() && text::same(keys[i].as_str(), key.as_str()) {
            values[i] = value;
            proof {
                assert(before[i as int] == name);
                lemma_paired_update(before, before_values, i as int, value);
            }
        } else {
            keys.insert(i, key);
            values.insert(i, value);
            proof {
                assert forall|j: int| i <= j < before.len() implies text::text_lt(
                    name,
                    #[trigger] before[j],
                ) by {
                    text::lemma_lt_total(name, before[j]);
                    if i < j {
                        assert(text::text_lt(before[i as int], before[j]));
                    }
                }
                lemma_paired_insert(before, before_values, i as int, name, value);
                assert(text::texts_view(keys@) =~= before.insert(i as int, name));
            }
        }
        *self = TextMap { keys, values };
    }

    /// Drops the entry of the key, and gives its value back.
    pub fn remove(&mut self, key: &str) -> (r: Option<V>)
        ensures
            final(self)@ == old(self)@.remove(key@),
            match r {
                Some(v) => old(self)@.contains_key(key@) && v == old(self)@[key@],
                None => !old(self)@.contains_key(key@),
            },
    {
        proof {
            use_type_invariant(&*self);
        }
        let ghost before = self.key_seq();
        let ghost before_values = self.values@;
        match self.find(key) {
            Some(i) => {
                let mut taken = TextMap::new();
                std::mem::swap(&mut taken, self);
                let TextMap { mut keys, mut values } = taken;
                let _name = keys.remove(i);
                let value = values.remove(i);
                proof {
                    lemma_paired_remove(before, before_values, i as int);
                    assert(text::texts_view(keys@) =~= before.remove(i as int));
                }
                *self = TextMap { keys, values };
                Some(value)
            },
            None => {
                assert(self@ =~= old(self)@.remove(key@));
                None
            },
        }
    }
}

/// Where a text belongs among sorted texts that do not hold it.
proof fn lemma_place_among(keys: Seq<Seq<char>>, key: Seq<char>) -> (place: int)
    requires
        strictly_sorted(keys),
        !keys.contains(key),
    ensures
        0 <= place <= keys.len(),
        forall|j: int| 0 <= j < place ==> text::text_lt(#[trigger] keys[j], key),
        forall|j: int| place <= j < keys.len() ==> text::text_lt(key, #[trigger] keys[j]),
    decreases keys.len(),
{
    if keys.len() == 0 {
        0
    } else {
        let last = keys[keys.len() - 1];
        assert(keys.contains(last));
        text::lemma_lt_total(last, key);
        if text::text_lt(last, key) {
            assert forall|j: int| 0 <= j < keys.len() implies text::text_lt(
                #[trigger] keys[j],
                key,
            ) by {
                if j < keys.len() - 1 {
                    text::lemma_lt_transitive(keys[j], last, key);
                }
            }
            keys.len() as int
        } else {
            let front = keys.drop_last();
            assert forall|i: int, j: int| 0 <= i < j < front.len() implies text::text_lt(
                #[trigger] front[i],
                #[trigger] front[j],
            ) by {
                assert(text::text_lt(keys[i], keys[j]));
            }
            assert(!front.contains(key)) by {
                if front.contains(key) {
                    let j: int = choose|j: int| 0 <= j < front.len() && front[j] == key;
                    assert(keys[j] == key);
                }
            }
            let place: int = lemma_place_among(front, key);
            assert forall|j: int| 0 <= j < place implies text::text_lt(
                #[trigger] keys[j],
                key,
            ) by {
                assert(front[j] == keys[j]);
            }
            assert forall|j: int| place <= j < keys.len() implies text::text_lt(
                key,
                #[trigger] keys[j],
            ) by {
                if j < front.len() {
                    assert(front[j] == keys[j]);
                }
            }
            place
        }
    }
}

/// The texts of a finite set can be listed in order, each once.
pub proof fn lemma_sortable(keys: Set<Seq<char>>)
    requires
        keys.finite(),
    ensures
        strictly_sorted(sorted_keys(keys)),
        sorted_keys(keys).to_set() == keys,
    decreases keys.len(),
{
    if keys.len() == 0 {
        let none: Seq<Seq<char>> = Seq::empty();
        assert(none.to_set() =~= keys);
        assert(strictly_sorted(none) && none.to_set() == keys);
    } else {
        let key = keys.choose();
        let others = keys.remove(key);
        lemma_sortable(others);
        let rest = sorted_keys(others);
        assert(!rest.contains(key)) by {
            if rest.contains(key) {
                assert(rest.to_set().contains(key));
            }
        }
        let place: int = lemma_place_among(rest, key);
        let marks = Seq::new(rest.len(), |i: int| true);
        lemma_paired_insert(rest, marks, place, key, true);
        let all = rest.insert(place, key);
        assert(all.to_set() =~= keys) by {
            assert forall|k: Seq<char>| all.to_set().contains(k) <==> keys.contains(k) by {
                if all.contains(k) {
                    let j: int = choose|j: int| 0 <= j < all.len() && all[j] == k;
                    if j < place {
                        assert(rest[j] == k);
                        assert(rest.to_set().contains(k));
                    } else if j > place {
                        assert(rest[j - 1] == k);
                        assert(rest.to_set().contains(k));
                    }
                }
                if keys.contains(k) {
                    if k == key {
                        assert(all[place] == k);
                    } else {
                        assert(others.contains(k));
                        assert(rest.to_set().contains(k));
                        let j: int = choose|j: int| 0 <= j < rest.len() && rest[j] == k;
                        if j < place {
                            assert(all[j] == k);
                        } else {
                            assert(all[j + 1] == k);
                        }
                    }
                }
            }
        }
        assert(strictly_sorted(all) && all.to_set() == keys);
    }
}

/// Of pairs with the same key the last one counts.
pub proof fn law_last_pair_counts<V>(pairs: Seq<(String, V)>, index: int)
    requires
        0 <= index < pairs.len(),
        forall|j: int| index < j < pairs.len() ==> (#[trigger] pairs[j]).0@ != pairs[index].0@,
    ensures
        from_pair_seq(pairs).contains_key(pairs[index].0@),
        from_pair_seq(pairs)[pairs[index].0@] == pairs[index].1,
    decreases pairs.len(),
{
    if index < pairs.len() - 1 {
        let front = pairs.drop_last();
        assert(pairs[pairs.len() - 1].0@ != pairs[index].0@);
        assert(front[index] == pairs[index]);
        assert forall|j: int| index < j < front.len() implies (#[trigger] front[j]).0@
            != front[index].0@ by {
            assert(pairs[j].0@ != pairs[index].0@);
        }
        law_last_pair_counts(front, index);
    }
}

/// A key that no pair has is not held.
pub proof fn law_only_keys_of_pairs_are_held<V>(pairs: Seq<(String, V)>, key: Seq<char>)
    requires
        forall|j: int| 0 <= j < pairs.len() ==> (#[trigger] pairs[j]).0@ != key,
    ensures
        !from_pair_seq(pairs).contains_key(key),
    decreases pairs.len(),
{
    if pairs.len() > 0 {
        let front = pairs.drop_last();
        assert(pairs[pairs.len() - 1].0@ != key);
        assert forall|j: int| 0 <= j < front.len() implies (#[trigger] front[j]).0@ != key by {
            assert(pairs[j].0@ != key);
        }
        law_only_keys_of_pairs_are_held(front, key);
    }
}

} // verus!
