//! Assembling results that come back tagged with their position.
//!
//! Work farmed out to a pool of workers comes back as `(index, value)` pairs
//! in whatever order the workers finished.  Placing each value at its index
//! rebuilds the output in input order; the plumbing that moves the pairs
//! lives outside the library, the assembly is decided and proved here.

use vstd::prelude::*;
use vstd::pervasive::VecAdditionalExecFns;

verus! {

/// The assembly of `pairs` into `n` slots, later pairs placed first so that
/// the earliest pair carrying an index wins.
pub open spec fn spec_place<U>(n: nat, pairs: Seq<(usize, U)>) -> Seq<Option<U>>
    decreases pairs.len(),
{
    if pairs.len() == 0 {
        Seq::new(n, |i: int| None)
    } else {
        let rest = spec_place(n, pairs.drop_first());
        if pairs[0].0 < n {
            rest.update(pairs[0].0 as int, Some(pairs[0].1))
        } else {
            rest
        }
    }
}

pub proof fn lemma_place_len<U>(n: nat, pairs: Seq<(usize, U)>)
    ensures
        spec_place(n, pairs).len() == n,
    decreases pairs.len(),
{
    if pairs.len() > 0 {
        lemma_place_len(n, pairs.drop_first());
    }
}

/// When every pair carries a distinct in-range index, the assembly is exact:
/// each pair's value sits at its index, and a slot no pair names stays empty.
pub proof fn lemma_place_exact<U>(n: nat, pairs: Seq<(usize, U)>)
    requires
        forall|k: int| 0 <= k < pairs.len() ==> (#[trigger] pairs[k]).0 < n,
        forall|k: int, l: int| 0 <= k < l < pairs.len() ==> pairs[k].0 != pairs[l].0,
    ensures
        forall|k: int|
            0 <= k < pairs.len() ==> spec_place(n, pairs)[(#[trigger] pairs[k]).0 as int] == Some(
                pairs[k].1,
            ),
        forall|i: int|
            0 <= i < n && (forall|k: int| 0 <= k < pairs.len() ==> (#[trigger] pairs[k]).0 != i)
                ==> spec_place(n, pairs)[i] is None,
    decreases pairs.len(),
{
    lemma_place_len(n, pairs);
    if pairs.len() > 0 {
        let rest = pairs.drop_first();
        lemma_place_len(n, rest);
        lemma_place_exact(n, rest);
        assert forall|k: int|
            0 <= k < pairs.len() implies spec_place(n, pairs)[(#[trigger] pairs[k]).0 as int]
            == Some(pairs[k].1) by {
            if k == 0 {
            } else {
                assert(rest[k - 1] == pairs[k]);
                assert(pairs[0].0 != pairs[k].0);
            }
        }
        assert forall|i: int|
            0 <= i < n && (forall|k: int| 0 <= k < pairs.len() ==> (#[trigger] pairs[k]).0 != i)
            implies spec_place(n, pairs)[i] is None by {
            assert(forall|k: int| 0 <= k < rest.len() ==> (#[trigger] rest[k]) == pairs[k + 1]);
            assert(forall|k: int| 0 <= k < rest.len() ==> (#[trigger] rest[k]).0 != i);
            assert(pairs[0].0 != i);
        }
    }
}

/// Places each `(index, value)` pair into a fresh vector of `n` slots.  When
/// two pairs name the same index, the one earlier in `pairs` wins.
pub fn place_indexed<U>(n: usize, pairs: Vec<(usize, U)>) -> (r: Vec<Option<U>>)
    requires
        forall|k: int| 0 <= k < pairs@.len() ==> (#[trigger] pairs@[k]).0 < n,
    ensures
        r@.len() == n,
        r@ == spec_place(n as nat, pairs@),
{
    let ghost orig = pairs@;
    let mut pairs = pairs;
    let mut r: Vec<Option<U>> = Vec::new();
    let mut i: usize = 0;
    while i < n
        invariant
            i <= n,
            r@.len() == i,
            forall|j: int| 0 <= j < i ==> r@[j] is None,
        decreases n - i,
    {
        r.push(None);
        i = i + 1;
    }
    proof {
        lemma_place_len(n as nat, orig);
        assert(r@ =~= spec_place(n as nat, orig.skip(orig.len() as int)));
    }
    while pairs.len() > 0
        invariant
            pairs@.len() <= orig.len(),
            pairs@ == orig.take(pairs@.len() as int),
            forall|k: int| 0 <= k < orig.len() ==> (#[trigger] orig[k]).0 < n,
            r@ == spec_place(n as nat, orig.skip(pairs@.len() as int)),
            r@.len() == n,
        decreases pairs@.len(),
    {
        let ghost m = pairs@.len() as int;
        let e = pairs.pop().unwrap();
        proof {
            assert(orig.take(m)[m - 1] == orig[m - 1]);
            assert(e == orig[m - 1]);
        }
        r.set(e.0, Some(e.1));
        proof {
            let tail = orig.skip(m);
            let ext = orig.skip(m - 1);
            assert(ext.drop_first() =~= tail);
            assert(ext[0] == orig[m - 1]);
            assert(r@ =~= spec_place(n as nat, ext));
            assert(pairs@ =~= orig.take(m - 1));
        }
    }
    proof {
        assert(orig.skip(0) =~= orig);
    }
    r
}

} // verus!
