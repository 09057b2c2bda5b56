//! Lists that are drawn from other lists: which values are kept, in what order,
//! and as what.

use vstd::prelude::*;

verus! {

/// How many of the first `count` values are kept.
pub open spec fn kept_before<A>(values: Seq<A>, keep: spec_fn(A) -> bool, count: int) -> nat
    decreases count,
{
    if count <= 0 {
        0
    } else if keep(values[count - 1]) {
        kept_before(values, keep, count - 1) + 1
    } else {
        kept_before(values, keep, count - 1)
    }
}

/// Whether a list holds one entry for each value that is kept and none besides, in
/// the order of the values, and each entry fits its value.
pub open spec fn lists_kept<A, B>(
    values: Seq<A>,
    listed: Seq<B>,
    keep: spec_fn(A) -> bool,
    fits: spec_fn(A, B) -> bool,
) -> bool {
    &&& listed.len() == kept_before(values, keep, values.len() as int)
    &&& forall|i: int|
        0 <= i < values.len() && keep(#[trigger] values[i]) ==> fits(
            values[i],
            listed[kept_before(values, keep, i) as int],
        )
}

/// No more values are kept than there are, and later places keep no fewer.
pub proof fn lemma_kept_before<A>(values: Seq<A>, keep: spec_fn(A) -> bool, less: int, more: int)
    requires
        0 <= less <= more,
    ensures
        kept_before(values, keep, less) <= kept_before(values, keep, more),
        kept_before(values, keep, more) <= more,
        less < more && keep(values[less]) ==> kept_before(values, keep, less) < kept_before(
            values,
            keep,
            more,
        ),
    decreases more,
{
    if more > 0 {
        if less < more {
            lemma_kept_before(values, keep, less, more - 1);
        } else {
            lemma_kept_before(values, keep, less - 1, more - 1);
        }
    }
}

/// What is kept of a front does not depend on what follows it.
proof fn lemma_kept_of_front<A>(values: Seq<A>, keep: spec_fn(A) -> bool, count: int)
    requires
        count < values.len(),
    ensures
        kept_before(values.drop_last(), keep, count) == kept_before(values, keep, count),
    decreases count,
{
    if count > 0 {
        lemma_kept_of_front(values, keep, count - 1);
        assert(values.drop_last()[count - 1] == values[count - 1]);
    }
}

/// What is kept of a list is what is kept of its first value and of the rest.
pub proof fn lemma_kept_of_rest<A>(values: Seq<A>, keep: spec_fn(A) -> bool, count: int)
    requires
        0 <= count < values.len(),
    ensures
        kept_before(values, keep, count + 1) == kept_before(values.skip(1), keep, count)
            + if keep(values[0]) {
            1nat
        } else {
            0nat
        },
    decreases count,
{
    reveal_with_fuel(kept_before, 2);
    if count > 0 {
        lemma_kept_of_rest(values, keep, count - 1);
        assert(values.skip(1)[count - 1] == values[count]);
    }
}

/// No value gives an empty list.
pub proof fn lemma_lists_nothing<A, B>(
    values: Seq<A>,
    listed: Seq<B>,
    keep: spec_fn(A) -> bool,
    fits: spec_fn(A, B) -> bool,
)
    requires
        values.len() == 0,
        listed.len() == 0,
    ensures
        lists_kept(values, listed, keep, fits),
{
}

/// A list goes on with the entry of the last value, where that is kept.
pub proof fn lemma_lists_last<A, B>(
    values: Seq<A>,
    before: Seq<B>,
    listed: Seq<B>,
    keep: spec_fn(A) -> bool,
    fits: spec_fn(A, B) -> bool,
)
    requires
        values.len() > 0,
        lists_kept(values.drop_last(), before, keep, fits),
        if keep(values.last()) {
            &&& listed.len() == before.len() + 1
            &&& listed.take(before.len() as int) == before
            &&& fits(values.last(), listed[before.len() as int])
        } else {
            listed == before
        },
    ensures
        lists_kept(values, listed, keep, fits),
{
    let front = values.drop_last();
    let n = front.len() as int;
    lemma_kept_of_front(values, keep, n);
    assert forall|i: int| 0 <= i < values.len() && keep(#[trigger] values[i]) implies fits(
        values[i],
        listed[kept_before(values, keep, i) as int],
    ) by {
        lemma_kept_of_front(values, keep, i);
        if i < n {
            assert(front[i] == values[i]);
            let place = kept_before(front, keep, i) as int;
            lemma_kept_before(front, keep, i, n);
            assert(fits(front[i], before[place]));
            if keep(values.last()) {
                assert(listed.take(before.len() as int)[place] == listed[place]);
            }
        }
    }
}

/// A list begins with the entry of the first value, where that is kept.
pub proof fn lemma_lists_first<A, B>(
    values: Seq<A>,
    after: Seq<B>,
    listed: Seq<B>,
    keep: spec_fn(A) -> bool,
    fits: spec_fn(A, B) -> bool,
)
    requires
        values.len() > 0,
        lists_kept(values.skip(1), after, keep, fits),
        if keep(values[0]) {
            &&& listed.len() == after.len() + 1
            &&& listed.skip(1) == after
            &&& fits(values[0], listed[0])
        } else {
            listed == after
        },
    ensures
        lists_kept(values, listed, keep, fits),
{
    let rest = values.skip(1);
    let n = rest.len() as int;
    lemma_kept_of_rest(values, keep, n);
    assert forall|i: int| 0 <= i < values.len() && keep(#[trigger] values[i]) implies fits(
        values[i],
        listed[kept_before(values, keep, i) as int],
    ) by {
        if i > 0 {
            lemma_kept_of_rest(values, keep, i - 1);
            assert(rest[i - 1] == values[i]);
            let place = kept_before(rest, keep, i - 1) as int;
            lemma_kept_before(rest, keep, i - 1, n);
            assert(fits(rest[i - 1], after[place]));
            if keep(values[0]) {
                assert(listed.skip(1)[place] == listed[place + 1]);
            }
        }
    }
}

/// A filtered list holds the values that are kept, in order.
pub proof fn lemma_lists_filtered<A>(
    values: Seq<A>,
    keep: spec_fn(A) -> bool,
    fits: spec_fn(A, A) -> bool,
)
    requires
        forall|value: A| #[trigger] fits(value, value),
    ensures
        lists_kept(values, values.filter(keep), keep, fits),
    decreases values.len(),
{
    reveal(Seq::filter);
    if values.len() == 0 {
        lemma_lists_nothing(values, values.filter(keep), keep, fits);
    } else {
        let front = values.drop_last();
        lemma_lists_filtered(front, keep, fits);
        let before = front.filter(keep);
        let listed = values.filter(keep);
        if keep(values.last()) {
            assert(listed == before.push(values.last()));
            assert(listed.take(before.len() as int) =~= before);
        }
        lemma_lists_last(values, before, listed, keep, fits);
    }
}

/// Where something is kept, some value is.
pub proof fn lemma_some_kept<A>(values: Seq<A>, keep: spec_fn(A) -> bool, count: int)
    requires
        count <= values.len(),
        kept_before(values, keep, count) > 0,
    ensures
        exists|i: int| 0 <= i < values.len() && keep(#[trigger] values[i]),
    decreases count,
{
    if !keep(values[count - 1]) {
        lemma_some_kept(values, keep, count - 1);
    }
}

/// Each entry of a list stands for a value that is kept.
pub proof fn lemma_place_is_taken<A>(
    values: Seq<A>,
    keep: spec_fn(A) -> bool,
    count: int,
    place: int,
) -> (at: int)
    requires
        count <= values.len(),
        0 <= place < kept_before(values, keep, count),
    ensures
        0 <= at < count,
        keep(values[at]),
        kept_before(values, keep, at) == place,
    decreases count,
{
    if keep(values[count - 1]) && kept_before(values, keep, count - 1) == place {
        count - 1
    } else {
        lemma_place_is_taken(values, keep, count - 1, place)
    }
}

} // verus!
