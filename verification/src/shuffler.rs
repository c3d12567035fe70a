//! The deterministic shuffle paginator: a seeded permutation of `[0, n)`,
//! recomputed per request so a growing population is reflected immediately.

use vstd::prelude::*;

verus! {

/// The identity index sequence `0, 1, ..., n - 1`.
pub open spec fn ident_seq(n: int) -> Seq<usize> {
    Seq::new(n as nat, |i: int| i as usize)
}

/// The sequence the seeded shuffle leaves behind: a fixed function of the
/// seed and the input alone, the same in every process and on every machine.
pub uninterp spec fn shuffle_of(seed: u64, s: Seq<usize>) -> Seq<usize>;

/// The deterministic pseudo-random permutation of `[0, n)` drawn from a seed.
pub open spec fn spec_permutation(seed: u64, n: int) -> Seq<usize> {
    shuffle_of(seed, ident_seq(n))
}

/// Relies on rand's `StdRng::seed_from_u64` and `SliceRandom::shuffle`: a
/// seeded Fisher–Yates pass rearranges the slice in place — same elements,
/// uniformly chosen order — and its outcome depends on the seed and the
/// slice contents alone.
#[verifier::external_body]
fn seeded_shuffle(seed: u64, xs: &mut Vec<usize>)
    ensures
        final(xs)@ == shuffle_of(seed, old(xs)@),
        final(xs)@.to_multiset() == old(xs)@.to_multiset(),
{
    let mut rng = <rand::rngs::StdRng as rand::SeedableRng>::seed_from_u64(seed);
    rand::seq::SliceRandom::shuffle(xs.as_mut_slice(), &mut rng);
}

/// A deterministic permutation of the indices `0..max_val`: a bijection over
/// `[0, max_val)` fully determined by `(seed, max_val)`.
pub fn randomize(seed: u64, max_val: usize) -> (r: Vec<usize>)
    ensures
        r@ == spec_permutation(seed, max_val as int),
        r@.len() == max_val,
        r@.to_multiset() == ident_seq(max_val as int).to_multiset(),
        r@.no_duplicates(),
        forall|k: int| 0 <= k < r@.len() ==> r@[k] < max_val,
{
    let mut xs: Vec<usize> = Vec::new();
    let mut i: usize = 0;
    while i < max_val
        invariant
            0 <= i <= max_val,
            xs@ == ident_seq(i as int),
        decreases max_val - i,
    {
        xs.push(i);
        proof {
            assert(xs@ =~= ident_seq(i + 1));
        }
        i = i + 1;
    }
    seeded_shuffle(seed, &mut xs);
    proof {
        broadcast use vstd::seq_lib::group_to_multiset_ensures;

        let ident = ident_seq(max_val as int);
        assert(xs@.len() == xs@.to_multiset().len());
        assert(ident.len() == ident.to_multiset().len());
        assert(ident.no_duplicates());
        ident.lemma_multiset_has_no_duplicates();
        xs@.lemma_multiset_has_no_duplicates_conv();
        assert forall|k: int| 0 <= k < xs@.len() implies xs@[k] < max_val by {
            assert(xs@.to_multiset().count(xs@[k]) > 0);
            assert(ident.contains(xs@[k]));
        }
    }
    xs
}

/// Law: the permutation is fully determined by `(seed, n)` — independent of
/// process, call count, or time. Any two results that meet `randomize`'s
/// contract for the same seed and size are identical.
pub proof fn lemma_permutation_deterministic(seed: u64, n: int, a: Seq<usize>, b: Seq<usize>)
    requires
        a == spec_permutation(seed, n),
        b == spec_permutation(seed, n),
    ensures
        a == b,
{
}

/// One page of the permutation: positions `start .. min(start + size, total)`
/// of the deterministic shuffle of `[0, total)`, and nothing at all when
/// `start` is at or past the end.
pub open spec fn spec_page(seed: u64, total: int, start: int, size: int) -> Seq<usize> {
    if start >= total {
        Seq::empty()
    } else {
        spec_permutation(seed, total).subrange(
            start,
            if start + size > total {
                total
            } else {
                start + size
            },
        )
    }
}

/// Slice one page out of the seeded permutation. Requests past the end are
/// answered with an empty page, never an error.
pub fn page(seed: u64, total: usize, start: usize, size: usize) -> (r: Vec<usize>)
    ensures
        r@ == spec_page(seed, total as int, start as int, size as int),
        start >= total ==> r@.len() == 0,
        forall|k: int| 0 <= k < r@.len() ==> r@[k] < total,
{
    if start >= total {
        return Vec::new();
    }
    let perm = randomize(seed, total);
    let end = if size > total - start {
        total
    } else {
        start + size
    };
    let mut r: Vec<usize> = Vec::new();
    let mut i: usize = start;
    while i < end
        invariant
            start <= i <= end <= perm@.len(),
            perm@ == spec_permutation(seed, total as int),
            forall|k: int| 0 <= k < perm@.len() ==> perm@[k] < total,
            r@ == perm@.subrange(start as int, i as int),
        decreases end - i,
    {
        let x = perm[i];
        r.push(x);
        proof {
            assert(perm@.subrange(start as int, i + 1) =~= perm@.subrange(
                start as int,
                i as int,
            ).push(perm@[i as int]));
        }
        i = i + 1;
    }
    r
}

} // verus!
