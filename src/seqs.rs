//! Facts about sequences that the collections' loops rely on.
use vstd::prelude::*;

verus! {

/// Filtering a prefix one element longer adds that element where it passes.
pub proof fn lemma_filter_step<A>(s: Seq<A>, f: spec_fn(A) -> bool, i: int)
    requires
        0 <= i < s.len(),
    ensures
        s.subrange(0, i + 1).filter(f) == if f(s[i]) {
            s.subrange(0, i).filter(f).push(s[i])
        } else {
            s.subrange(0, i).filter(f)
        },
{
    reveal(Seq::filter);
    assert(s.subrange(0, i + 1).drop_last() =~= s.subrange(0, i));
}

/// The whole sequence is its longest prefix.
pub proof fn lemma_full_prefix<A>(s: Seq<A>)
    ensures
        s.subrange(0, s.len() as int) == s,
{
    assert(s.subrange(0, s.len() as int) =~= s);
}

/// Keeping every element keeps the sequence.
pub proof fn lemma_filter_keeps_all<A>(s: Seq<A>, f: spec_fn(A) -> bool)
    requires
        forall|k: int| 0 <= k < s.len() ==> f(#[trigger] s[k]),
    ensures
        s.filter(f) == s,
    decreases s.len(),
{
    reveal(Seq::filter);
    if s.len() > 0 {
        lemma_filter_keeps_all(s.drop_last(), f);
        assert(s.drop_last().push(s.last()) =~= s);
    } else {
        assert(s =~= Seq::<A>::empty());
    }
}

/// No two elements of `s` share a key.
pub open spec fn keys_distinct<A>(s: Seq<A>, key: spec_fn(A) -> u128) -> bool {
    forall|i: int, j: int|
        0 <= i < s.len() && 0 <= j < s.len() && i != j ==> key(#[trigger] s[i]) != key(#[trigger] s[j])
}

/// Whether some element of `s` has key `k`.
pub open spec fn holds_key<A>(s: Seq<A>, key: spec_fn(A) -> u128, k: u128) -> bool {
    exists|i: int| 0 <= i < s.len() && key(#[trigger] s[i]) == k
}

/// Appending an element under a new key keeps the keys distinct.
pub proof fn lemma_distinct_push<A>(s: Seq<A>, key: spec_fn(A) -> u128, x: A)
    requires
        keys_distinct(s, key),
        !holds_key(s, key, key(x)),
    ensures
        keys_distinct(s.push(x), key),
{
    let t = s.push(x);
    assert forall|i: int, j: int|
        0 <= i < t.len() && 0 <= j < t.len() && i != j implies key(#[trigger] t[i]) != key(#[trigger] t[j]) by {
        if i < s.len() && j < s.len() {
            assert(t[i] == s[i] && t[j] == s[j]);
        } else if i < s.len() {
            assert(t[i] == s[i]);
        } else {
            assert(t[j] == s[j]);
        }
    }
}

/// Replacing an element by one with the same key keeps the keys distinct.
pub proof fn lemma_distinct_update<A>(s: Seq<A>, key: spec_fn(A) -> u128, i: int, x: A)
    requires
        keys_distinct(s, key),
        0 <= i < s.len(),
        key(x) == key(s[i]),
    ensures
        keys_distinct(s.update(i, x), key),
{
    let t = s.update(i, x);
    assert forall|a: int, b: int|
        0 <= a < t.len() && 0 <= b < t.len() && a != b implies key(#[trigger] t[a]) != key(#[trigger] t[b]) by {
        assert(key(t[a]) == key(s[a]));
        assert(key(t[b]) == key(s[b]));
    }
}

/// Removing an element keeps the keys distinct.
pub proof fn lemma_distinct_remove<A>(s: Seq<A>, key: spec_fn(A) -> u128, i: int)
    requires
        keys_distinct(s, key),
        0 <= i < s.len(),
    ensures
        keys_distinct(s.remove(i), key),
        forall|k: int| 0 <= k < s.remove(i).len() ==> #[trigger] s.remove(i)[k] == s[if k < i { k } else { k + 1 }],
{
    let t = s.remove(i);
    assert forall|a: int, b: int|
        0 <= a < t.len() && 0 <= b < t.len() && a != b implies key(#[trigger] t[a]) != key(#[trigger] t[b]) by {
        let a0 = if a < i { a } else { a + 1 };
        let b0 = if b < i { b } else { b + 1 };
        assert(t[a] == s[a0]);
        assert(t[b] == s[b0]);
    }
}

/// Removing the one element that fails `f` is filtering by `f`.
pub proof fn lemma_remove_is_filter<A>(s: Seq<A>, f: spec_fn(A) -> bool, i: int)
    requires
        0 <= i < s.len(),
        !f(s[i]),
        forall|k: int| 0 <= k < s.len() && k != i ==> f(#[trigger] s[k]),
    ensures
        s.remove(i) == s.filter(f),
    decreases s.len(),
{
    reveal(Seq::filter);
    if i == s.len() - 1 {
        assert(s.drop_last() =~= s.remove(i));
        assert forall|k: int| 0 <= k < s.drop_last().len() implies f(#[trigger] s.drop_last()[k]) by {
            assert(s.drop_last()[k] == s[k]);
        }
        lemma_filter_keeps_all(s.drop_last(), f);
    } else {
        let t = s.drop_last();
        assert forall|k: int| 0 <= k < t.len() && k != i implies f(#[trigger] t[k]) by {
            assert(t[k] == s[k]);
        }
        lemma_remove_is_filter(t, f, i);
        assert(s.remove(i) =~= t.remove(i).push(s.last()));
    }
}

/// Reading each reference of a sequence, pushed one at a time.
pub proof fn lemma_deref_push<A>(s: Seq<&A>, x: &A)
    ensures
        s.push(x).map_values(|r: &A| *r) == s.map_values(|r: &A| *r).push(*x),
{
    assert(s.push(x).map_values(|r: &A| *r) =~= s.map_values(|r: &A| *r).push(*x));
}

} // verus!
