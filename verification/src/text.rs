//! Texts as sequences of characters: order, affixes, trimming, words.

use vstd::prelude::*;
use vstd::string::StringExecFns;

verus! {

/// Specification of `String::push`: the character goes to the end of the text.
pub assume_specification[ std::string::String::push ](buffer: &mut std::string::String, c: char)
    ensures
        final(buffer)@ == old(buffer)@.push(c),
;

/// Specification of `==` on string slices: they are equal when they hold the
/// same characters.
pub assume_specification[ <str as PartialEq>::eq ](left: &str, right: &str) -> (r: bool)
    ensures
        r == (left@ == right@),
;

/// Whether two texts hold the same characters.
pub fn same(left: &str, right: &str) -> (r: bool)
    ensures
        r == (left@ == right@),
{
    left.eq(right)
}

/// The text inside an optional owned text.
pub open spec fn opt_view(text: Option<String>) -> Option<Seq<char>> {
    match text {
        Some(t) => Some(t@),
        None => None,
    }
}

/// The text inside an optional borrowed text.
pub open spec fn opt_str_view(text: Option<&str>) -> Option<Seq<char>> {
    match text {
        Some(t) => Some(t@),
        None => None,
    }
}

/// The texts of a sequence of owned texts.
pub open spec fn texts_view(texts: Seq<String>) -> Seq<Seq<char>> {
    texts.map_values(|t: String| t@)
}

/// An owned copy of an optional text.
pub fn copy_opt(text: &Option<String>) -> (r: Option<String>)
    ensures
        opt_view(r) == opt_view(*text),
{
    match text {
        Some(t) => Some(t.clone()),
        None => None,
    }
}

/// The borrowed form of an optional text.
pub fn borrow_opt(text: &Option<String>) -> (r: Option<&str>)
    ensures
        opt_str_view(r) == opt_view(*text),
{
    match text {
        Some(t) => Some(t.as_str()),
        None => None,
    }
}

/// Whether two optional texts are both absent, or present and equal.
pub fn same_opt(left: Option<&str>, right: Option<&str>) -> (r: bool)
    ensures
        r == (opt_str_view(left) == opt_str_view(right)),
{
    match (left, right) {
        (Some(l), Some(r)) => same(l, r),
        (None, None) => true,
        _ => false,
    }
}

/// The characters of a text, in order.
pub fn chars_of(text: &str) -> (chars: Vec<char>)
    ensures
        chars@ == text@,
{
    let mut chars: Vec<char> = Vec::new();
    for c in iter: text.chars()
        invariant
            chars@ == text@.take(iter.index() as int),
            iter.seq() == text@,
    {
        chars.push(c);
    }
    chars
}

/// The text made of `chars[from..to]`.
pub fn text_of(chars: &Vec<char>, from: usize, to: usize) -> (text: String)
    requires
        from <= to <= chars@.len(),
    ensures
        text@ == chars@.subrange(from as int, to as int),
{
    let mut text = String::new();
    let mut i: usize = from;
    while i < to
        invariant
            from <= i <= to <= chars@.len(),
            text@ == chars@.subrange(from as int, i as int),
        decreases to - i,
    {
        text.push(chars[i]);
        i = i + 1;
    }
    text
}

/// The text `left` followed by the text `right`.
pub fn joined(left: &str, right: &str) -> (text: String)
    ensures
        text@ == left@ + right@,
{
    let mut text = left.to_owned();
    text.append(right);
    text
}

// ---------------------------------------------------------------------------
// Order

/// Lexicographic order of texts by code point.
pub open spec fn text_lt(a: Seq<char>, b: Seq<char>) -> bool
    decreases a.len(),
{
    if b.len() == 0 {
        false
    } else if a.len() == 0 {
        true
    } else if a[0] != b[0] {
        (a[0] as int) < (b[0] as int)
    } else {
        text_lt(a.skip(1), b.skip(1))
    }
}

/// No text is below itself.
pub proof fn lemma_lt_irreflexive(a: Seq<char>)
    ensures
        !text_lt(a, a),
    decreases a.len(),
{
    if a.len() > 0 {
        lemma_lt_irreflexive(a.skip(1));
    }
}

/// The order of texts is transitive.
pub proof fn lemma_lt_transitive(a: Seq<char>, b: Seq<char>, c: Seq<char>)
    requires
        text_lt(a, b),
        text_lt(b, c),
    ensures
        text_lt(a, c),
    decreases a.len(),
{
    if a.len() > 0 && a[0] == b[0] && b[0] == c[0] {
        lemma_lt_transitive(a.skip(1), b.skip(1), c.skip(1));
    }
}

/// Of two different texts one is below the other.
pub proof fn lemma_lt_total(a: Seq<char>, b: Seq<char>)
    ensures
        a == b || text_lt(a, b) || text_lt(b, a),
    decreases a.len(),
{
    if a.len() > 0 && b.len() > 0 && a[0] != b[0] {
        assert(a[0] as int != b[0] as int);
    } else if a.len() > 0 && b.len() > 0 {
        lemma_lt_total(a.skip(1), b.skip(1));
        if a.skip(1) == b.skip(1) {
            assert(a =~= seq![a[0]] + a.skip(1));
            assert(b =~= seq![b[0]] + b.skip(1));
        }
    } else if a.len() == 0 && b.len() == 0 {
        assert(a =~= b);
    }
}

/// The code point of a character.
fn code_point(c: char) -> (n: u32)
    ensures
        n as int == c as int,
{
    c as u32
}

/// Whether `left` comes before `right` in the order of texts.
pub fn text_less(left: &str, right: &str) -> (r: bool)
    ensures
        r == text_lt(left@, right@),
{
    let a = chars_of(left);
    let b = chars_of(right);
    let mut i: usize = 0;
    assert(a@.skip(0) =~= a@);
    assert(b@.skip(0) =~= b@);
    while i < a.len() && i < b.len() && a[i] == b[i]
        invariant
            i <= a@.len(),
            i <= b@.len(),
            text_lt(a@, b@) == text_lt(a@.skip(i as int), b@.skip(i as int)),
        decreases a@.len() - i,
    {
        assert(a@.skip(i as int).skip(1) =~= a@.skip(i + 1));
        assert(b@.skip(i as int).skip(1) =~= b@.skip(i + 1));
        i = i + 1;
    }
    if i >= b.len() {
        false
    } else if i >= a.len() {
        true
    } else {
        code_point(a[i]) < code_point(b[i])
    }
}

// ---------------------------------------------------------------------------
// Affixes

/// Whether the text begins with `prefix`.
pub fn starts_with(text: &str, prefix: &str) -> (r: bool)
    ensures
        r == prefix@.is_prefix_of(text@),
{
    let t = chars_of(text);
    let p = chars_of(prefix);
    if p.len() > t.len() {
        return false;
    }
    let mut i: usize = 0;
    while i < p.len()
        invariant
            i <= p@.len() <= t@.len(),
            p@ == prefix@,
            t@ == text@,
            forall|j: int| 0 <= j < i ==> p@[j] == t@[j],
        decreases p@.len() - i,
    {
        if p[i] != t[i] {
            assert(text@.subrange(0, prefix@.len() as int)[i as int] != prefix@[i as int]);
            return false;
        }
        i = i + 1;
    }
    assert(prefix@ =~= text@.subrange(0, prefix@.len() as int));
    true
}

/// Whether the text ends with `suffix`.
pub fn ends_with(text: &str, suffix: &str) -> (r: bool)
    ensures
        r == suffix@.is_suffix_of(text@),
{
    let t = chars_of(text);
    let s = chars_of(suffix);
    if s.len() > t.len() {
        return false;
    }
    let base: usize = t.len() - s.len();
    let mut i: usize = 0;
    while i < s.len()
        invariant
            i <= s@.len() <= t@.len(),
            base + s.len() == t.len(),
            s@ == suffix@,
            t@ == text@,
            forall|j: int| 0 <= j < i ==> s@[j] == t@[base + j],
        decreases s@.len() - i,
    {
        if s[i] != t[base + i] {
            assert(text@.subrange(base as int, text@.len() as int)[i as int] != suffix@[i as int]);
            return false;
        }
        i = i + 1;
    }
    assert(suffix@ =~= text@.subrange(base as int, text@.len() as int));
    true
}

/// The text without its last `count` characters.
pub fn without_tail(text: &str, count: usize) -> (r: String)
    requires
        count <= text@.len(),
    ensures
        r@ == text@.take(text@.len() - count),
{
    let t = chars_of(text);
    let r = text_of(&t, 0, t.len() - count);
    r
}

/// The text without the characters `c` at its end.
pub open spec fn trim_end_char(text: Seq<char>, c: char) -> Seq<char>
    decreases text.len(),
{
    if text.len() > 0 && text.last() == c {
        trim_end_char(text.drop_last(), c)
    } else {
        text
    }
}

/// Drops every trailing `c` from the text.
pub fn trim_end_matches(text: &str, c: char) -> (r: String)
    ensures
        r@ == trim_end_char(text@, c),
{
    let t = chars_of(text);
    let mut end: usize = t.len();
    assert(t@.take(end as int) =~= t@);
    while end > 0 && t[end - 1] == c
        invariant
            end <= t@.len(),
            trim_end_char(t@, c) == trim_end_char(t@.take(end as int), c),
        decreases end,
    {
        assert(t@.take(end as int).drop_last() =~= t@.take(end - 1));
        end = end - 1;
    }
    text_of(&t, 0, end)
}

/// The place at which `needle` first occurs in `text`, at or after `from`.
pub open spec fn first_place(text: Seq<char>, needle: Seq<char>, from: int) -> Option<int>
    decreases text.len() - from + 1,
{
    if from < 0 || from + needle.len() > text.len() {
        None
    } else if text.subrange(from, from + needle.len()) == needle {
        Some(from)
    } else {
        first_place(text, needle, from + 1)
    }
}

/// The number of characters before the first occurrence of `needle`.
pub fn find(text: &str, needle: &str) -> (r: Option<usize>)
    ensures
        match r {
            Some(i) => first_place(text@, needle@, 0) == Some(i as int),
            None => first_place(text@, needle@, 0) is None,
        },
        r matches Some(i) ==> i + needle@.len() <= text@.len(),
{
    let t = chars_of(text);
    let n = chars_of(needle);
    if n.len() > t.len() {
        return None;
    }
    let last: usize = t.len() - n.len();
    let mut i: usize = 0;
    while i <= last
        invariant
            i <= last + 1,
            last + n.len() == t.len(),
            t@ == text@,
            n@ == needle@,
            first_place(text@, needle@, 0) == first_place(text@, needle@, i as int),
        decreases last + 1 - i,
    {
        let piece = text_of(&t, i, i + n.len());
        if same(piece.as_str(), needle) {
            return Some(i);
        }
        if i == last {
            assert(first_place(text@, needle@, i + 1) is None);
            return None;
        }
        i = i + 1;
    }
    None
}

/// Whether the character occurs in the text.
pub fn contains_char(text: &str, c: char) -> (r: bool)
    ensures
        r == text@.contains(c),
{
    let t = chars_of(text);
    let mut i: usize = 0;
    while i < t.len()
        invariant
            i <= t@.len(),
            t@ == text@,
            forall|j: int| 0 <= j < i ==> t@[j] != c,
        decreases t@.len() - i,
    {
        if t[i] == c {
            return true;
        }
        i = i + 1;
    }
    false
}

/// What follows the last `c` of the text; the whole text where it has none.
pub open spec fn after_last(text: Seq<char>, c: char) -> Seq<char>
    decreases text.len(),
{
    if text.len() == 0 || text.last() == c {
        Seq::empty()
    } else {
        after_last(text.drop_last(), c).push(text.last())
    }
}

/// The piece of the text behind its last `c`.
pub fn last_segment(text: &str, c: char) -> (r: String)
    ensures
        r@ == after_last(text@, c),
{
    let t = chars_of(text);
    let mut start: usize = t.len();
    assert(t@.take(t@.len() as int) =~= t@);
    assert(t@.subrange(t@.len() as int, t@.len() as int) =~= Seq::<char>::empty());
    assert(after_last(t@, c) =~= after_last(t@.take(start as int), c) + t@.subrange(start as int, t@.len() as int));
    while start > 0 && t[start - 1] != c
        invariant
            start <= t@.len(),
            after_last(t@, c) == after_last(t@.take(start as int), c) + t@.subrange(
                start as int,
                t@.len() as int,
            ),
        decreases start,
    {
        assert(t@.take(start as int).drop_last() =~= t@.take(start - 1));
        assert(after_last(t@.take(start as int), c) + t@.subrange(start as int, t@.len() as int)
            =~= after_last(t@.take(start - 1), c) + t@.subrange(start - 1, t@.len() as int));
        start = start - 1;
    }
    assert(after_last(t@.take(start as int), c) =~= Seq::<char>::empty());
    assert(after_last(t@, c) =~= t@.subrange(start as int, t@.len() as int));
    text_of(&t, start, t.len())
}

// ---------------------------------------------------------------------------
// Case

/// The lower-case form of an ASCII letter; any other character unchanged.
pub open spec fn ascii_lower(c: char) -> char {
    if 'A' as u32 <= c as u32 <= 'Z' as u32 {
        (c as u32 + 32) as char
    } else {
        c
    }
}

/// The text with every ASCII letter in lower case.
pub fn to_ascii_lowercase(text: &str) -> (r: String)
    ensures
        r@ == text@.map_values(|c: char| ascii_lower(c)),
{
    let t = chars_of(text);
    let mut r = String::new();
    let mut i: usize = 0;
    while i < t.len()
        invariant
            i <= t@.len(),
            r@ == t@.take(i as int).map_values(|c: char| ascii_lower(c)),
        decreases t@.len() - i,
    {
        let c: char = t[i];
        if 'A' as u32 <= c as u32 && c as u32 <= 'Z' as u32 {
            let lower: u8 = (c as u32 + 32) as u8;
            r.push(lower as char);
        } else {
            r.push(c);
        }
        assert(t@.take(i + 1).map_values(|c: char| ascii_lower(c)) =~= t@.take(
            i as int,
        ).map_values(|c: char| ascii_lower(c)).push(ascii_lower(c)));
        i = i + 1;
    }
    assert(t@.take(i as int) =~= t@);
    r
}

// ---------------------------------------------------------------------------
// White space

/// The characters with the Unicode property White_Space.
pub open spec fn is_white_space(c: char) -> bool {
    let u = c as u32;
    ||| 0x9 <= u <= 0xd
    ||| u == 0x20
    ||| u == 0x85
    ||| u == 0xa0
    ||| u == 0x1680
    ||| 0x2000 <= u <= 0x200a
    ||| u == 0x2028
    ||| u == 0x2029
    ||| u == 0x202f
    ||| u == 0x205f
    ||| u == 0x3000
}

/// Whether the character is white space.
pub fn white_space(c: char) -> (r: bool)
    ensures
        r == is_white_space(c),
{
    let u: u32 = c as u32;
    (0x9 <= u && u <= 0xd) || u == 0x20 || u == 0x85 || u == 0xa0 || u == 0x1680 || (0x2000 <= u
        && u <= 0x200a) || u == 0x2028 || u == 0x2029 || u == 0x202f || u == 0x205f || u == 0x3000
}

/// The text without the white space at its two ends.
pub open spec fn trimmed(text: Seq<char>) -> Seq<char>
    decreases text.len(),
{
    if text.len() > 0 && is_white_space(text[0]) {
        trimmed(text.skip(1))
    } else if text.len() > 0 && is_white_space(text.last()) {
        trimmed(text.drop_last())
    } else {
        text
    }
}

/// Drops the white space at both ends of the text.
pub fn trim(text: &str) -> (r: String)
    ensures
        r@ == trimmed(text@),
{
    let t = chars_of(text);
    let mut from: usize = 0;
    let mut to: usize = t.len();
    assert(t@.subrange(0, t@.len() as int) =~= t@);
    while from < to && white_space(t[from])
        invariant
            from <= to == t@.len(),
            trimmed(t@) == trimmed(t@.subrange(from as int, to as int)),
        decreases to - from,
    {
        assert(t@.subrange(from as int, to as int).skip(1) =~= t@.subrange(from + 1, to as int));
        from = from + 1;
    }
    while from < to && white_space(t[to - 1])
        invariant
            from <= to <= t@.len(),
            from < to ==> !is_white_space(t@[from as int]),
            trimmed(t@) == trimmed(t@.subrange(from as int, to as int)),
        decreases to - from,
    {
        assert(t@.subrange(from as int, to as int).drop_last() =~= t@.subrange(from as int, to - 1));
        to = to - 1;
    }
    text_of(&t, from, to)
}

/// The number of characters before the first white space.
pub open spec fn word_len(text: Seq<char>) -> nat
    decreases text.len(),
{
    if text.len() == 0 || is_white_space(text[0]) {
        0
    } else {
        1 + word_len(text.skip(1))
    }
}

/// A word is no longer than its text.
pub proof fn lemma_word_len(text: Seq<char>)
    ensures
        word_len(text) <= text.len(),
        forall|i: int| 0 <= i < word_len(text) ==> !is_white_space(#[trigger] text[i]),
        word_len(text) < text.len() ==> is_white_space(text[word_len(text) as int]),
    decreases text.len(),
{
    if text.len() > 0 && !is_white_space(text[0]) {
        lemma_word_len(text.skip(1));
        assert forall|i: int| 0 <= i < word_len(text) implies !is_white_space(
            #[trigger] text[i],
        ) by {
            if i > 0 {
                assert(text[i] == text.skip(1)[i - 1]);
            }
        }
    }
}

/// The pieces of the text between runs of white space, without empty pieces.
pub open spec fn words(text: Seq<char>) -> Seq<Seq<char>>
    decreases text.len(),
{
    if text.len() == 0 {
        Seq::empty()
    } else if is_white_space(text[0]) {
        words(text.skip(1))
    } else if word_len(text) > text.len() {
        Seq::empty()
    } else {
        seq![text.take(word_len(text) as int)] + words(text.skip(word_len(text) as int))
    }
}

/// The pieces one after the other, with `separator` between neighbours.
pub open spec fn join_texts(pieces: Seq<Seq<char>>, separator: Seq<char>) -> Seq<char>
    decreases pieces.len(),
{
    if pieces.len() == 0 {
        Seq::empty()
    } else if pieces.len() == 1 {
        pieces[0]
    } else {
        join_texts(pieces.drop_last(), separator) + separator + pieces.last()
    }
}

/// Every run of white space becomes one space; none stays at the ends.
pub fn single_spaced(text: &str) -> (r: String)
    ensures
        r@ == join_texts(words(text@), " "@),
{
    let t = chars_of(text);
    let mut i: usize = 0;
    let ghost mut done: Seq<Seq<char>> = Seq::empty();
    let mut r = String::new();
    let mut first = true;
    assert(t@.skip(0) =~= t@);
    assert(done + words(t@.skip(0)) =~= words(t@));
    while i < t.len()
        invariant
            i <= t@.len(),
            first == (done.len() == 0),
            r@ == join_texts(done, " "@),
            words(t@) == done + words(t@.skip(i as int)),
        decreases t@.len() - i,
    {
        let ghost rest = t@.skip(i as int);
        if white_space(t[i]) {
            assert(rest.skip(1) =~= t@.skip(i + 1));
            i = i + 1;
        } else {
            let mut j: usize = i;
            proof {
                lemma_word_len(rest);
                assert(t@.skip(j as int) =~= rest);
            }
            while j < t.len() && !white_space(t[j])
                invariant
                    i <= j <= t@.len(),
                    i < t@.len(),
                    !is_white_space(t@[i as int]),
                    rest == t@.skip(i as int),
                    word_len(rest) == (j - i) + word_len(t@.skip(j as int)),
                decreases t@.len() - j,
            {
                assert(t@.skip(j as int).skip(1) =~= t@.skip(j + 1));
                j = j + 1;
            }
            assert(word_len(t@.skip(j as int)) == 0);
            let word = text_of(&t, i, j);
            if !first {
                r.append(" ");
            }
            r.append(word.as_str());
            proof {
                let piece = rest.take(word_len(rest) as int);
                assert(word@ =~= piece);
                assert(rest.skip(word_len(rest) as int) =~= t@.skip(j as int));
                let next = done.push(piece);
                assert(next.drop_last() =~= done);
                if done.len() == 0 {
                    assert(r@ =~= join_texts(next, " "@));
                }
                assert(done + (seq![piece] + words(t@.skip(j as int))) =~= next + words(
                    t@.skip(j as int),
                ));
                done = next;
                assert(j > i) by {
                    assert(word_len(rest) >= 1);
                }
            }
            first = false;
            i = j;
        }
    }
    assert(t@.skip(i as int) =~= Seq::<char>::empty());
    assert(done + words(t@.skip(i as int)) =~= done);
    r
}

/// Whether single spaces are all the white space of a text, and none stands at its
/// ends.
pub open spec fn is_single_spaced(text: Seq<char>) -> bool {
    &&& text.len() > 0 ==> !is_white_space(text[0]) && !is_white_space(text.last())
    &&& forall|i: int|
        0 <= i < text.len() && is_white_space(#[trigger] text[i]) ==> text[i] == ' '
            && !is_white_space(text[i + 1])
}

/// Whether a text is one word.
pub open spec fn is_word(text: Seq<char>) -> bool {
    &&& text.len() > 0
    &&& forall|i: int| 0 <= i < text.len() ==> !is_white_space(#[trigger] text[i])
}

/// The words of a text are words.
proof fn lemma_words(text: Seq<char>)
    ensures
        forall|i: int| 0 <= i < words(text).len() ==> is_word(#[trigger] words(text)[i]),
    decreases text.len(),
{
    reveal_with_fuel(words, 2);
    if text.len() > 0 {
        if is_white_space(text[0]) {
            lemma_words(text.skip(1));
            assert(words(text) == words(text.skip(1)));
        } else {
            lemma_word_len(text);
            let first = text.take(word_len(text) as int);
            let rest = text.skip(word_len(text) as int);
            assert(is_word(first)) by {
                assert forall|i: int| 0 <= i < first.len() implies !is_white_space(
                    #[trigger] first[i],
                ) by {
                    assert(first[i] == text[i]);
                }
            }
            lemma_words(rest);
            assert forall|i: int| 0 <= i < words(text).len() implies is_word(
                #[trigger] words(text)[i],
            ) by {
                if i > 0 {
                    assert(words(text)[i] == words(rest)[i - 1]);
                } else {
                    assert(words(text)[i] == first);
                }
            }
        }
    } else {
        assert(words(text).len() == 0);
    }
}

/// Words with a space between neighbours are single-spaced.
proof fn lemma_joined_words(pieces: Seq<Seq<char>>)
    requires
        forall|i: int| 0 <= i < pieces.len() ==> is_word(#[trigger] pieces[i]),
    ensures
        is_single_spaced(join_texts(pieces, " "@)),
        pieces.len() > 0 ==> join_texts(pieces, " "@).len() > 0,
    decreases pieces.len(),
{
    reveal_strlit(" ");
    if pieces.len() == 1 {
        assert(is_word(pieces[0]));
    } else if pieces.len() > 1 {
        let front = pieces.drop_last();
        assert forall|i: int| 0 <= i < front.len() implies is_word(#[trigger] front[i]) by {
            assert(front[i] == pieces[i]);
        }
        lemma_joined_words(front);
        let head = join_texts(front, " "@);
        let last = pieces[pieces.len() - 1];
        assert(is_word(last));
        let whole = join_texts(pieces, " "@);
        assert(whole == head + " "@ + last);
        assert forall|i: int| 0 <= i < whole.len() && is_white_space(#[trigger] whole[i]) implies
            whole[i] == ' ' && !is_white_space(whole[i + 1]) by {
            if i < head.len() {
                assert(whole[i] == head[i]);
                if i + 1 < head.len() {
                    assert(whole[i + 1] == head[i + 1]);
                } else {
                    assert(head.last() == head[i]);
                }
            } else if i == head.len() {
                assert(whole[i + 1] == last[0]);
            } else {
                assert(whole[i] == last[i - head.len() - 1]);
            }
        }
        assert(whole[0] == head[0]);
        assert(whole.last() == last.last());
        assert(last.last() == last[last.len() - 1]);
    }
}

/// What is joined begins with the first piece.
proof fn lemma_join_front(first: Seq<char>, rest: Seq<Seq<char>>, separator: Seq<char>)
    requires
        rest.len() > 0,
    ensures
        join_texts(seq![first] + rest, separator) == first + separator + join_texts(
            rest,
            separator,
        ),
    decreases rest.len(),
{
    reveal_with_fuel(join_texts, 3);
    let all = seq![first] + rest;
    assert(all.drop_last() =~= seq![first] + rest.drop_last());
    assert(all.last() == rest.last());
    if rest.len() == 1 {
        assert(all.drop_last() =~= seq![first]);
    } else {
        lemma_join_front(first, rest.drop_last(), separator);
    }
    assert(join_texts(all, separator) =~= first + separator + join_texts(rest, separator));
}

/// A text with its white space made single spaces is single-spaced.
pub proof fn lemma_single_spaced(text: Seq<char>)
    ensures
        is_single_spaced(join_texts(words(text), " "@)),
{
    lemma_words(text);
    lemma_joined_words(words(text));
}

/// A single-spaced text stays as it is.
pub proof fn lemma_single_spaced_stays(text: Seq<char>)
    requires
        is_single_spaced(text),
    ensures
        join_texts(words(text), " "@) == text,
    decreases text.len(),
{
    reveal_strlit(" ");
    reveal_with_fuel(words, 3);
    if text.len() > 0 {
        lemma_word_len(text);
        let n = word_len(text) as int;
        let first = text.take(n);
        if n == text.len() {
            assert(text.skip(n) =~= Seq::<char>::empty());
            assert(words(text) =~= seq![first]);
            assert(first =~= text);
        } else {
            let rest = text.skip(n + 1);
            assert(text[n] == ' ');
            assert(text.last() == text[text.len() - 1]);
            assert(n + 1 < text.len());
            assert(text.skip(n).skip(1) =~= rest);
            assert(text.skip(n)[0] == text[n]);
            assert(words(text) == seq![first] + words(rest));
            assert(is_single_spaced(rest)) by {
                assert(rest[0] == text[n + 1]);
                assert(rest.last() == text.last());
                assert forall|i: int| 0 <= i < rest.len() && is_white_space(
                    #[trigger] rest[i],
                ) implies rest[i] == ' ' && !is_white_space(rest[i + 1]) by {
                    assert(rest[i] == text[i + n + 1]);
                    assert(i + 1 < rest.len()) by {
                        if i + 1 == rest.len() {
                            assert(rest.last() == rest[i]);
                        }
                    }
                    assert(rest[i + 1] == text[i + n + 2]);
                }
            }
            lemma_single_spaced_stays(rest);
            lemma_word_len(rest);
            assert(!is_white_space(rest[0]));
            assert(words(rest).len() > 0);
            lemma_join_front(first, words(rest), " "@);
            assert(first + " "@ + rest =~= text);
        }
    }
}

/// The first `count` characters of the text.
pub fn first_chars(text: &str, count: usize) -> (r: String)
    requires
        count <= text@.len(),
    ensures
        r@ == text@.take(count as int),
{
    let t = chars_of(text);
    text_of(&t, 0, count)
}

/// The number of characters of the text.
pub fn char_count(text: &str) -> (n: usize)
    ensures
        n == text@.len(),
{
    let t = chars_of(text);
    t.len()
}

// ---------------------------------------------------------------------------
// Numbers

/// The decimal digits of a number.
pub open spec fn decimal(n: nat) -> Seq<char>
    decreases n,
{
    if n < 10 {
        seq![('0' as u32 + n) as char]
    } else {
        decimal(n / 10).push(('0' as u32 + n % 10) as char)
    }
}

/// The decimal form of a number.
pub fn decimal_text(n: u128) -> (text: String)
    ensures
        text@ == decimal(n as nat),
    decreases n,
{
    let digit: u8 = (48 + n % 10) as u8;
    if n < 10 {
        let mut text = String::new();
        text.push(digit as char);
        assert(text@ =~= decimal(n as nat));
        text
    } else {
        let mut text = decimal_text(n / 10);
        text.push(digit as char);
        text
    }
}

/// The lower-case hexadecimal digit of a number below sixteen.
pub open spec fn hex_digit(n: int) -> char {
    if n < 10 {
        ('0' as u32 + n) as char
    } else {
        ('a' as u32 + (n - 10)) as char
    }
}

/// Two lower-case hexadecimal digits for each byte, the high half first.
pub open spec fn lower_hex(bytes: Seq<u8>) -> Seq<char>
    decreases bytes.len(),
{
    if bytes.len() == 0 {
        Seq::empty()
    } else {
        lower_hex(bytes.drop_last()).push(hex_digit(bytes.last() as int / 16)).push(
            hex_digit(bytes.last() as int % 16),
        )
    }
}

/// Whether a text is made of lower-case hexadecimal digits.
pub open spec fn is_lower_hex(text: Seq<char>) -> bool {
    forall|i: int|
        0 <= i < text.len() ==> '0' <= #[trigger] text[i] <= '9' || 'a' <= text[i] <= 'f'
}

/// Bytes in hexadecimal are two digits for each.
pub proof fn lemma_lower_hex(bytes: Seq<u8>)
    ensures
        lower_hex(bytes).len() == 2 * bytes.len(),
        is_lower_hex(lower_hex(bytes)),
    decreases bytes.len(),
{
    if bytes.len() > 0 {
        lemma_lower_hex(bytes.drop_last());
    }
}

/// The hexadecimal digit of a number below sixteen.
fn hex_char(n: u8) -> (c: char)
    requires
        n < 16,
    ensures
        c == hex_digit(n as int),
{
    if n < 10 {
        (48 + n) as char
    } else {
        (87 + n) as char
    }
}

/// The bytes in lower-case hexadecimal.
pub fn hex_text(bytes: &Vec<u8>) -> (text: String)
    ensures
        text@ == lower_hex(bytes@),
{
    let mut text = String::new();
    let mut i: usize = 0;
    while i < bytes.len()
        invariant
            i <= bytes@.len(),
            text@ == lower_hex(bytes@.take(i as int)),
        decreases bytes@.len() - i,
    {
        let byte: u8 = bytes[i];
        text.push(hex_char(byte / 16));
        text.push(hex_char(byte % 16));
        assert(bytes@.take(i + 1).drop_last() =~= bytes@.take(i as int));
        i = i + 1;
    }
    assert(bytes@.take(i as int) =~= bytes@);
    text
}

/// Whether everything in a text before one place and from another place on is white
/// space.
pub open spec fn is_blank_around(text: Seq<char>, from: int, to: int) -> bool {
    forall|i: int| 0 <= i < from || to <= i < text.len() ==> is_white_space(#[trigger] text[i])
}

/// Where the trimmed part of a text begins and ends.
proof fn lemma_trimmed_part(text: Seq<char>) -> (r: (int, int))
    ensures
        0 <= r.0 <= r.1 <= text.len(),
        trimmed(text) == text.subrange(r.0, r.1),
        is_blank_around(text, r.0, r.1),
        r.0 < r.1 ==> !is_white_space(text[r.0]) && !is_white_space(text[r.1 - 1]),
    decreases text.len(),
{
    if text.len() > 0 && is_white_space(text[0]) {
        let rest = text.skip(1);
        let (from, to): (int, int) = lemma_trimmed_part(rest);
        assert(trimmed(text) =~= text.subrange(from + 1, to + 1));
        assert forall|i: int|
            0 <= i < from + 1 || to + 1 <= i < text.len() implies is_white_space(
            #[trigger] text[i],
        ) by {
            if i > 0 {
                assert(rest[i - 1] == text[i]);
            }
        }
        (from + 1, to + 1)
    } else if text.len() > 0 && is_white_space(text.last()) {
        let rest = text.drop_last();
        let (from, to): (int, int) = lemma_trimmed_part(rest);
        assert(trimmed(text) =~= text.subrange(from, to));
        assert forall|i: int| 0 <= i < from || to <= i < text.len() implies is_white_space(
            #[trigger] text[i],
        ) by {
            if i < rest.len() {
                assert(rest[i] == text[i]);
            }
        }
        (from, to)
    } else {
        assert(trimmed(text) =~= text.subrange(0, text.len() as int));
        (0, text.len() as int)
    }
}

/// Trimming takes white space from the ends of a text and nothing else: what is left
/// is a part of the text, neither begins nor ends with white space, and around it
/// there is only white space.
pub proof fn law_trimmed(text: Seq<char>)
    ensures
        exists|from: int, to: int|
            0 <= from <= to <= text.len() && trimmed(text) == text.subrange(from, to)
                && #[trigger] is_blank_around(text, from, to),
        trimmed(text).len() > 0 ==> !is_white_space(trimmed(text)[0]) && !is_white_space(
            trimmed(text).last(),
        ),
        trimmed(text).len() == 0 <==> forall|i: int|
            0 <= i < text.len() ==> is_white_space(#[trigger] text[i]),
{
    let (from, to): (int, int) = lemma_trimmed_part(text);
    assert(is_blank_around(text, from, to));
    if from < to {
        assert(!is_white_space(text[from]));
    }
}

/// The piece behind the last mark of a text is the end of the text from that mark on,
/// or the whole text where it holds no mark; the piece itself holds none.
pub proof fn law_after_last(text: Seq<char>, c: char) -> (from: int)
    ensures
        0 <= from <= text.len(),
        after_last(text, c) == text.subrange(from, text.len() as int),
        from == 0 || text[from - 1] == c,
        forall|i: int| from <= i < text.len() ==> #[trigger] text[i] != c,
    decreases text.len(),
{
    if text.len() == 0 || text.last() == c {
        assert(after_last(text, c) =~= text.subrange(text.len() as int, text.len() as int));
        text.len() as int
    } else {
        let front = text.drop_last();
        let from: int = law_after_last(front, c);
        assert(after_last(text, c) =~= text.subrange(from, text.len() as int));
        assert forall|i: int| from <= i < text.len() implies #[trigger] text[i] != c by {
            if i < front.len() {
                assert(front[i] == text[i]);
            }
        }
        assert(from == 0 || front[from - 1] == text[from - 1]);
        from
    }
}

/// Dropping a character from the end of a text drops every one that stands there, and
/// nothing else.
pub proof fn law_trim_end_char(text: Seq<char>, c: char)
    ensures
        trim_end_char(text, c).len() <= text.len(),
        trim_end_char(text, c) == text.subrange(0, trim_end_char(text, c).len() as int),
        forall|i: int|
            trim_end_char(text, c).len() <= i < text.len() ==> #[trigger] text[i] == c,
        trim_end_char(text, c).len() > 0 ==> trim_end_char(text, c).last() != c,
    decreases text.len(),
{
    if text.len() > 0 && text.last() == c {
        let front = text.drop_last();
        law_trim_end_char(front, c);
        let n = trim_end_char(text, c).len() as int;
        assert(front.subrange(0, n) =~= text.subrange(0, n));
        assert forall|i: int| n <= i < text.len() implies #[trigger] text[i] == c by {
            if i < front.len() {
                assert(front[i] == text[i]);
            }
        }
    } else {
        assert(text =~= text.subrange(0, text.len() as int));
    }
}

/// A text is found where it stands first: nowhere before that place, and nowhere at
/// all where it is not found.
pub proof fn law_first_place(text: Seq<char>, needle: Seq<char>, from: int)
    requires
        0 <= from,
    ensures
        match first_place(text, needle, from) {
            Some(i) => {
                &&& from <= i <= text.len() - needle.len()
                &&& text.subrange(i, i + needle.len()) == needle
                &&& forall|j: int|
                    from <= j < i ==> #[trigger] text.subrange(j, j + needle.len()) != needle
            },
            None => forall|j: int|
                from <= j <= text.len() - needle.len() ==> #[trigger] text.subrange(
                    j,
                    j + needle.len(),
                ) != needle,
        },
    decreases text.len() - from + 1,
{
    if from + needle.len() <= text.len() && text.subrange(from, from + needle.len()) != needle {
        law_first_place(text, needle, from + 1);
    }
}

/// The value of a hexadecimal digit in lower case.
pub open spec fn digit_value(digit: char) -> int {
    if '0' <= digit <= '9' {
        digit as int - '0' as int
    } else {
        digit as int - 'a' as int + 10
    }
}

/// Bytes in hexadecimal can be read back: two digits for each byte, the high half first.
pub proof fn law_lower_hex(bytes: Seq<u8>)
    ensures
        lower_hex(bytes).len() == 2 * bytes.len(),
        is_lower_hex(lower_hex(bytes)),
        forall|i: int|
            0 <= i < bytes.len() ==> {
                &&& digit_value(lower_hex(bytes)[2 * i]) == (#[trigger] bytes[i]) as int / 16
                &&& digit_value(lower_hex(bytes)[2 * i + 1]) == bytes[i] as int % 16
            },
    decreases bytes.len(),
{
    lemma_lower_hex(bytes);
    if bytes.len() > 0 {
        let front = bytes.drop_last();
        law_lower_hex(front);
        assert forall|i: int| 0 <= i < bytes.len() implies {
            &&& digit_value(lower_hex(bytes)[2 * i]) == (#[trigger] bytes[i]) as int / 16
            &&& digit_value(lower_hex(bytes)[2 * i + 1]) == bytes[i] as int % 16
        } by {
            if i < front.len() {
                assert(front[i] == bytes[i]);
                assert(lower_hex(bytes)[2 * i] == lower_hex(front)[2 * i]);
                assert(lower_hex(bytes)[2 * i + 1] == lower_hex(front)[2 * i + 1]);
            }
        }
    }
}

/// The words of texts with white space between them are those of the one and then those
/// of the other.
pub proof fn law_words_on_both_sides_of_a_gap(front: Seq<char>, gap: Seq<char>, back: Seq<char>)
    requires
        gap.len() > 0,
        forall|i: int| 0 <= i < gap.len() ==> is_white_space(#[trigger] gap[i]),
    ensures
        words(front + gap + back) == words(front) + words(back),
    decreases front.len(), gap.len(),
{
    let all = front + gap + back;
    if front.len() == 0 {
        assert(words(front) =~= Seq::<Seq<char>>::empty());
        assert(all[0] == gap[0]);
        let rest = gap.skip(1);
        assert(all.skip(1) =~= front + rest + back);
        if rest.len() > 0 {
            assert forall|i: int| 0 <= i < rest.len() implies is_white_space(
                #[trigger] rest[i],
            ) by {
                assert(rest[i] == gap[i + 1]);
            }
            law_words_on_both_sides_of_a_gap(front, rest, back);
        } else {
            assert(front + rest + back =~= back);
            assert(words(front) + words(back) =~= words(back));
        }
    } else {
        assert(all[0] == front[0]);
        if is_white_space(front[0]) {
            assert(all.skip(1) =~= front.skip(1) + gap + back);
            law_words_on_both_sides_of_a_gap(front.skip(1), gap, back);
        } else {
            let n = word_len(front) as int;
            lemma_word_len(front);
            lemma_word_len_of_front(front, gap + back);
            assert(all =~= front + (gap + back));
            assert(word_len(all) == n);
            assert(all.take(n) =~= front.take(n));
            assert(all.skip(n) =~= front.skip(n) + gap + back);
            law_words_on_both_sides_of_a_gap(front.skip(n), gap, back);
            assert(words(front) == seq![front.take(n)] + words(front.skip(n)));
            assert(words(all) == seq![all.take(n)] + words(all.skip(n)));
            assert(words(all) =~= words(front) + words(back));
        }
    }
}

/// A word ends before white space that follows its text.
proof fn lemma_word_len_of_front(front: Seq<char>, back: Seq<char>)
    requires
        back.len() > 0,
        is_white_space(back[0]),
    ensures
        word_len(front + back) == word_len(front),
    decreases front.len(),
{
    let all = front + back;
    if front.len() == 0 {
        assert(all[0] == back[0]);
    } else {
        assert(all[0] == front[0]);
        if !is_white_space(front[0]) {
            assert(all.skip(1) =~= front.skip(1) + back);
            lemma_word_len_of_front(front.skip(1), back);
        }
    }
}

/// A blank text has no word, and a word is the only one of itself.
pub proof fn law_words_of_a_word(text: Seq<char>)
    ensures
        (forall|i: int| 0 <= i < text.len() ==> is_white_space(#[trigger] text[i])) ==> words(text)
            == Seq::<Seq<char>>::empty(),
        is_word(text) ==> words(text) == seq![text],
    decreases text.len(),
{
    if text.len() > 0 {
        if is_white_space(text[0]) {
            let rest = text.skip(1);
            law_words_of_a_word(rest);
            if forall|i: int| 0 <= i < text.len() ==> is_white_space(#[trigger] text[i]) {
                assert forall|i: int| 0 <= i < rest.len() implies is_white_space(
                    #[trigger] rest[i],
                ) by {
                    assert(rest[i] == text[i + 1]);
                }
            }
        } else {
            lemma_word_len(text);
            if is_word(text) {
                let n = word_len(text) as int;
                if n < text.len() {
                    assert(is_white_space(text[n]));
                }
                assert(text.take(n) =~= text);
                assert(words(text.skip(n)) =~= Seq::<Seq<char>>::empty());
                assert(words(text) =~= seq![text]);
            }
        }
    }
}

/// Putting single spaces between words keeps the words.
pub proof fn law_single_spacing_keeps_the_words(pieces: Seq<Seq<char>>)
    requires
        forall|i: int| 0 <= i < pieces.len() ==> is_word(#[trigger] pieces[i]),
    ensures
        words(join_texts(pieces, " "@)) == pieces,
    decreases pieces.len(),
{
    reveal_strlit(" ");
    if pieces.len() == 0 {
        law_words_of_a_word(Seq::empty());
        assert(words(join_texts(pieces, " "@)) =~= pieces);
    } else if pieces.len() == 1 {
        assert(is_word(pieces[0]));
        law_words_of_a_word(pieces[0]);
        assert(pieces =~= seq![pieces[0]]);
    } else {
        let front = pieces.drop_last();
        let last = pieces[pieces.len() - 1];
        assert(is_word(last));
        assert forall|i: int| 0 <= i < front.len() implies is_word(#[trigger] front[i]) by {
            assert(front[i] == pieces[i]);
        }
        law_single_spacing_keeps_the_words(front);
        law_words_of_a_word(last);
        law_words_on_both_sides_of_a_gap(join_texts(front, " "@), " "@, last);
        assert(pieces =~= front + seq![last]);
    }
}

/// The number that decimal digits stand for.
pub open spec fn number_read(digits: Seq<char>) -> int
    decreases digits.len(),
{
    if digits.len() == 0 {
        0
    } else {
        number_read(digits.drop_last()) * 10 + (digits.last() as int - '0' as int)
    }
}

/// The decimal form of a number is made of digits, can be read back, and does not begin
/// with a zero unless it is one.
pub proof fn law_decimal_reads_back(n: nat)
    ensures
        decimal(n).len() > 0,
        forall|i: int| 0 <= i < decimal(n).len() ==> '0' <= #[trigger] decimal(n)[i] <= '9',
        number_read(decimal(n)) == n,
        n > 0 ==> decimal(n)[0] != '0',
    decreases n,
{
    reveal_with_fuel(number_read, 2);
    if n < 10 {
        assert(decimal(n).drop_last() =~= Seq::<char>::empty());
    } else {
        law_decimal_reads_back(n / 10);
        let front = decimal(n / 10);
        assert(decimal(n).drop_last() =~= front);
        assert(decimal(n)[0] == front[0]);
        assert forall|i: int| 0 <= i < decimal(n).len() implies '0' <= #[trigger] decimal(n)[i]
            <= '9' by {
            if i < front.len() {
                assert(front[i] == decimal(n)[i]);
            }
        }
    }
}

/// Only the capital letters of ASCII have another form in lower case: the letter 32
/// places on.
pub proof fn law_ascii_lower(c: char)
    ensures
        'A' <= c <= 'Z' ==> ascii_lower(c) as int == c as int + 32,
        !('A' <= c <= 'Z') ==> ascii_lower(c) == c,
{
}

/// A text is below another exactly where it is a shorter front of it, or where the first
/// character in which they differ is the lower one.
pub proof fn law_texts_are_ordered_by_their_first_difference(a: Seq<char>, b: Seq<char>)
    ensures
        text_lt(a, b) <==> exists|k: int| #[trigger] differ_first_at(a, b, k) && k < b.len() && (k
            == a.len() || (a[k] as int) < (b[k] as int)),
    decreases a.len(),
{
    if b.len() > 0 && a.len() > 0 && a[0] == b[0] {
        let x = a.skip(1);
        let y = b.skip(1);
        law_texts_are_ordered_by_their_first_difference(x, y);
        if text_lt(a, b) {
            let k: int = choose|k: int| #[trigger]
                differ_first_at(x, y, k) && k < y.len() && (k == x.len() || (x[k] as int) < (
                y[k] as int));
            assert(differ_first_at(a, b, k + 1)) by {
                assert forall|i: int| 0 <= i < k + 1 implies #[trigger] a[i] == b[i] by {
                    if i > 0 {
                        assert(x[i - 1] == y[i - 1]);
                    }
                }
            }
        }
        if exists|k: int| #[trigger] differ_first_at(a, b, k) && k < b.len() && (k == a.len() || (
        a[k] as int) < (b[k] as int)) {
            let k: int = choose|k: int| #[trigger]
                differ_first_at(a, b, k) && k < b.len() && (k == a.len() || (a[k] as int) < (
                b[k] as int));
            assert(k > 0);
            assert(differ_first_at(x, y, k - 1)) by {
                assert forall|i: int| 0 <= i < k - 1 implies #[trigger] x[i] == y[i] by {
                    assert(a[i + 1] == b[i + 1]);
                }
            }
        }
    } else if b.len() > 0 {
        assert(differ_first_at(a, b, 0));
        assert forall|k: int| #[trigger] differ_first_at(a, b, k) implies k == 0 by {
            if k > 0 {
                assert(a[0] == b[0]);
            }
        }
    }
}

/// Whether two texts agree up to a place and not beyond it.
pub open spec fn differ_first_at(a: Seq<char>, b: Seq<char>, k: int) -> bool {
    &&& 0 <= k <= a.len()
    &&& k <= b.len()
    &&& forall|i: int| 0 <= i < k ==> #[trigger] a[i] == b[i]
    &&& k < a.len() && k < b.len() ==> a[k] != b[k]
}

/// White space are the blanks and line ends of ASCII, and the spaces and separators that
/// Unicode lists beyond it; no other character is.
pub proof fn law_white_space(c: char)
    ensures
        c == ' ' || c == '\t' || c == '\n' || c == '\r' ==> is_white_space(c),
        c as int == 0xb || c as int == 0xc || c as int == 0x85 || c as int == 0xa0
            ==> is_white_space(c),
        0x2000 <= c as int <= 0x200a || c as int == 0x1680 || c as int == 0x2028 || c as int
            == 0x2029 || c as int == 0x202f || c as int == 0x205f || c as int == 0x3000
            ==> is_white_space(c),
        0x21 <= c as int <= 0x84 || (c as int) < 9 || 0xe <= c as int <= 0x1f ==> !is_white_space(
            c,
        ),
        0x86 <= c as int <= 0x9f || 0xa1 <= c as int <= 0x167f || 0x1681 <= c as int <= 0x1fff
            ==> !is_white_space(c),
        0x200b <= c as int <= 0x2027 || 0x202a <= c as int <= 0x202e || 0x2030 <= c as int
            <= 0x205e || 0x2060 <= c as int <= 0x2fff || c as int > 0x3000 ==> !is_white_space(c),
{
}

} // verus!
