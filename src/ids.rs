//! Choosing identifiers that a collection does not hold yet.
use vstd::prelude::*;
use vstd::set_lib::{lemma_int_range, lemma_len_subset, set_int_range};

verus! {

/// Whether `v` holds `id`.
pub fn holds_id(v: &Vec<u128>, id: u128) -> (r: bool)
    ensures
        r == v@.contains(id),
{
    let mut i: usize = 0;
    while i < v.len()
        invariant
            0 <= i <= v.len(),
            forall|j: int| 0 <= j < i ==> v@[j] != id,
        decreases v.len() - i,
    {
        if v[i] == id {
            assert(v@[i as int] == id);
            return true;
        }
        i += 1;
    }
    false
}

/// No sequence of `n` identifiers holds all of `0..=n`.
proof fn lemma_some_small_id_free(s: Seq<u128>)
    requires
        s.len() < u128::MAX,
    ensures
        exists|k: int| 0 <= k <= s.len() && !s.contains(#[trigger] (k as u128)),
{
    if forall|k: int| 0 <= k <= s.len() ==> s.contains(#[trigger] (k as u128)) {
        let wide = s.map_values(|x: u128| x as int);
        let range = set_int_range(0, s.len() + 1 as int);
        assert forall|k: int| #[trigger] range.contains(k) implies wide.to_set().contains(k) by {
            assert(s.contains(k as u128));
            let j = choose|j: int| 0 <= j < s.len() && s[j] == k as u128;
            assert(wide[j] == k);
        }
        lemma_int_range(0, s.len() + 1 as int);
        wide.lemma_cardinality_of_set();
        lemma_len_subset(range, wide.to_set());
    }
}

/// An identifier that `taken` does not hold: `candidate` itself where it is
/// free, else the smallest free number.
pub fn fresh_id(taken: &Vec<u128>, candidate: u128) -> (r: u128)
    ensures
        !taken@.contains(r),
        !taken@.contains(candidate) ==> r == candidate,
{
    if !holds_id(taken, candidate) {
        return candidate;
    }
    let n = taken.len();
    proof {
        lemma_some_small_id_free(taken@);
    }
    let mut k: usize = 0;
    while k < n
        invariant
            n == taken@.len(),
            taken@.contains(candidate),
            0 <= k <= n,
            forall|j: int| 0 <= j < k ==> taken@.contains(#[trigger] (j as u128)),
            exists|f: int| 0 <= f <= n && !taken@.contains(#[trigger] (f as u128)),
        decreases n - k,
    {
        if !holds_id(taken, k as u128) {
            return k as u128;
        }
        k += 1;
    }
    assert(!taken@.contains(n as u128)) by {
        let f = choose|f: int| 0 <= f <= n && !taken@.contains(#[trigger] (f as u128));
        if f < n {
            assert(taken@.contains(f as u128));
        }
        assert(f == n);
    }
    n as u128
}

} // verus!
