//! Counting and joining over sequences, with the step lemmas loops need.
use vstd::prelude::*;

verus! {

/// Number of elements of `s` that satisfy `p`.
pub open spec fn count_where<T>(s: Seq<T>, p: spec_fn(T) -> bool) -> nat
    decreases s.len(),
{
    if s.len() == 0 {
        0
    } else {
        count_where(s.drop_last(), p) + if p(s.last()) { 1nat } else { 0nat }
    }
}

/// Extending a prefix by one element adds that element's contribution to the count.
pub proof fn lemma_count_where_take<T>(s: Seq<T>, p: spec_fn(T) -> bool, i: int)
    requires
        0 <= i < s.len(),
    ensures
        count_where(s.take(i + 1), p) == count_where(s.take(i), p) + if p(s[i]) { 1nat } else { 0nat },
{
    assert(s.take(i + 1).drop_last() =~= s.take(i));
}

/// A count never exceeds the length.
pub proof fn lemma_count_where_le<T>(s: Seq<T>, p: spec_fn(T) -> bool)
    ensures
        count_where(s, p) <= s.len(),
    decreases s.len(),
{
    if s.len() > 0 {
        lemma_count_where_le(s.drop_last(), p);
    }
}

/// The count is zero exactly when no element satisfies `p`.
pub proof fn lemma_count_where_zero<T>(s: Seq<T>, p: spec_fn(T) -> bool)
    ensures
        (count_where(s, p) == 0) <==> (forall|i: int| 0 <= i < s.len() ==> !p(#[trigger] s[i])),
    decreases s.len(),
{
    if s.len() > 0 {
        lemma_count_where_zero(s.drop_last(), p);
        if count_where(s, p) == 0 {
            assert forall|i: int| 0 <= i < s.len() implies !p(#[trigger] s[i]) by {
                if i < s.len() - 1 {
                    assert(s.drop_last()[i] == s[i]);
                }
            }
        } else if forall|i: int| 0 <= i < s.len() ==> !p(#[trigger] s[i]) {
            assert forall|i: int| 0 <= i < s.drop_last().len() implies !p(#[trigger] s.drop_last()[i]) by {
                assert(s.drop_last()[i] == s[i]);
            }
            assert(!p(s[s.len() - 1]));
        }
    }
}

/// The whole sequence is its full prefix.
pub proof fn lemma_take_full<T>(s: Seq<T>)
    ensures
        s.take(s.len() as int) == s,
{
    assert(s.take(s.len() as int) =~= s);
}

/// Pieces joined by `sep`: empty for no pieces, the piece itself for one.
pub open spec fn join(pieces: Seq<Seq<char>>, sep: Seq<char>) -> Seq<char>
    decreases pieces.len(),
{
    if pieces.len() == 0 {
        Seq::empty()
    } else if pieces.len() == 1 {
        pieces[0]
    } else {
        join(pieces.drop_last(), sep) + sep + pieces.last()
    }
}

/// An element mapped to `Some(b)` puts `b` into the filter-map output.
pub proof fn lemma_filter_map_has<A, B>(s: Seq<A>, f: spec_fn(A) -> Option<B>, k: int)
    requires
        0 <= k < s.len(),
        f(s[k]) is Some,
    ensures
        s.filter_map(f).contains(f(s[k])->0),
    decreases s.len(),
{
    let b = f(s[k])->0;
    if k == s.len() - 1 {
        let pre = s.drop_last().filter_map(f);
        assert(s.filter_map(f) == pre + seq![b]);
        assert((pre + seq![b])[pre.len() as int] == b);
    } else {
        assert(s.drop_last()[k] == s[k]);
        lemma_filter_map_has(s.drop_last(), f, k);
        let pre = s.drop_last().filter_map(f);
        let j = choose|j: int| 0 <= j < pre.len() && pre[j] == b;
        match f(s.last()) {
            Some(x) => {
                assert(s.filter_map(f) == pre + seq![x]);
                assert((pre + seq![x])[j] == b);
            }
            None => {
                assert(s.filter_map(f) == pre);
            }
        }
    }
}

/// Overwriting one element changes the count by that element's old and new contributions.
pub proof fn lemma_count_where_update<T>(s: Seq<T>, p: spec_fn(T) -> bool, k: int, v: T)
    requires
        0 <= k < s.len(),
    ensures
        count_where(s.update(k, v), p) + (if p(s[k]) { 1nat } else { 0nat })
            == count_where(s, p) + (if p(v) { 1nat } else { 0nat }),
    decreases s.len(),
{
    if k == s.len() - 1 {
        assert(s.update(k, v).drop_last() =~= s.drop_last());
    } else {
        assert(s.update(k, v).drop_last() =~= s.drop_last().update(k, v));
        lemma_count_where_update(s.drop_last(), p, k, v);
    }
}

/// Extending a prefix by one element appends that element's image, if any.
pub proof fn lemma_filter_map_take<A, B>(s: Seq<A>, f: spec_fn(A) -> Option<B>, i: int)
    requires
        0 <= i < s.len(),
    ensures
        s.take(i + 1).filter_map(f) == match f(s[i]) {
            Some(b) => s.take(i).filter_map(f) + seq![b],
            None => s.take(i).filter_map(f),
        },
{
    assert(s.take(i + 1).drop_last() =~= s.take(i));
    assert(s.take(i + 1).last() == s[i]);
}

/// The filter-map output is empty exactly when every element maps to `None`.
pub proof fn lemma_filter_map_empty<A, B>(s: Seq<A>, f: spec_fn(A) -> Option<B>)
    ensures
        (s.filter_map(f).len() == 0) <==> (forall|k: int| 0 <= k < s.len() ==> (#[trigger] f(s[k])) is None),
    decreases s.len(),
{
    if s.len() > 0 {
        let t = s.drop_last();
        lemma_filter_map_empty(t, f);
        if s.filter_map(f).len() == 0 {
            assert(f(s.last()) is None);
            assert forall|k: int| 0 <= k < s.len() implies (#[trigger] f(s[k])) is None by {
                if k < s.len() - 1 {
                    assert(t[k] == s[k]);
                    assert(f(t[k]) is None);
                }
            }
        }
        if forall|k: int| 0 <= k < s.len() ==> (#[trigger] f(s[k])) is None {
            assert(f(s[s.len() - 1]) is None);
            assert forall|k: int| 0 <= k < t.len() implies (#[trigger] f(t[k])) is None by {
                assert(t[k] == s[k]);
                assert(f(s[k]) is None);
            }
        }
    }
}

/// Sum of `f` over the elements of `s`.
pub open spec fn sum_of<T>(s: Seq<T>, f: spec_fn(T) -> nat) -> nat
    decreases s.len(),
{
    if s.len() == 0 {
        0
    } else {
        sum_of(s.drop_last(), f) + f(s.last())
    }
}

/// Extending a prefix by one element adds that element's term to the sum.
pub proof fn lemma_sum_of_take<T>(s: Seq<T>, f: spec_fn(T) -> nat, i: int)
    requires
        0 <= i < s.len(),
    ensures
        sum_of(s.take(i + 1), f) == sum_of(s.take(i), f) + f(s[i]),
{
    assert(s.take(i + 1).drop_last() =~= s.take(i));
}

/// The filtered sequence is empty exactly when no element satisfies `p`.
pub proof fn lemma_filter_empty<T>(s: Seq<T>, p: spec_fn(T) -> bool)
    ensures
        (s.filter(p).len() == 0) <==> (forall|k: int| 0 <= k < s.len() ==> !p(#[trigger] s[k])),
    decreases s.len(),
{
    reveal(Seq::filter);
    if s.len() > 0 {
        let t = s.drop_last();
        lemma_filter_empty(t, p);
        if s.filter(p).len() == 0 {
            assert forall|k: int| 0 <= k < s.len() implies !p(#[trigger] s[k]) by {
                if k < s.len() - 1 {
                    assert(t[k] == s[k]);
                }
            }
        }
        if forall|k: int| 0 <= k < s.len() ==> !p(#[trigger] s[k]) {
            assert(!p(s[s.len() - 1]));
            assert forall|k: int| 0 <= k < t.len() implies !p(#[trigger] t[k]) by {
                assert(t[k] == s[k]);
            }
        }
    }
}

/// A value is in the filter-map output exactly when some element maps to it.
pub proof fn lemma_filter_map_contains<A, B>(s: Seq<A>, f: spec_fn(A) -> Option<B>, b: B)
    ensures
        s.filter_map(f).contains(b) <==> exists|k: int| 0 <= k < s.len() && #[trigger] f(s[k]) == Some(b),
    decreases s.len(),
{
    if s.len() > 0 {
        let t = s.drop_last();
        lemma_filter_map_contains(t, f, b);
        let pre = t.filter_map(f);
        if s.filter_map(f).contains(b) {
            let j = choose|j: int| 0 <= j < s.filter_map(f).len() && s.filter_map(f)[j] == b;
            match f(s.last()) {
                Some(x) => {
                    assert(s.filter_map(f) == pre + seq![x]);
                    if j < pre.len() {
                        assert(pre[j] == b);
                        let k = choose|k: int| 0 <= k < t.len() && #[trigger] f(t[k]) == Some(b);
                        assert(s[k] == t[k]);
                    } else {
                        assert(f(s[s.len() - 1]) == Some(b));
                    }
                }
                None => {
                    assert(pre.contains(b));
                    let k = choose|k: int| 0 <= k < t.len() && #[trigger] f(t[k]) == Some(b);
                    assert(s[k] == t[k]);
                }
            }
        }
        if exists|k: int| 0 <= k < s.len() && #[trigger] f(s[k]) == Some(b) {
            let k = choose|k: int| 0 <= k < s.len() && #[trigger] f(s[k]) == Some(b);
            lemma_filter_map_has(s, f, k);
        }
    }
}

} // verus!
