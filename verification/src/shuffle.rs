//! Statistically unbiased shuffling.
//!
//! Spotify's built-in shuffle is widely observed to be non-uniform. This
//! module implements the classic Fisher–Yates shuffle, which yields every
//! permutation with equal probability given a uniform RNG; the RNG is
//! ChaCha20 seeded from the operating system's entropy source.
//!
//! What is proved here is the shape of the pass: step `k` exchanges position
//! `n-1-k` with a drawn position in `0..=n-1-k` (`fisher_yates_with` is exact
//! for given draws), so a shuffle only ever rearranges. Uniformity rests on
//! `rand`'s unbiased bounded sampling and is checked statistically by the
//! test suite.

use vstd::prelude::*;

use rand::Rng;
use rand::SeedableRng;
use rand::TryRngCore;
use rand::rngs::OsRng;
use rand_chacha::ChaCha20Rng;

verus! {

#[verifier::external_type_specification]
#[verifier::external_body]
pub struct ExChaCha20Rng(ChaCha20Rng);

/// 32 bytes from the operating system's entropy source
/// (`OsRng::try_fill_bytes`), or `None` if the OS generator failed. The
/// bytes are random: nothing is claimed about them.
#[verifier::external_body]
fn os_entropy_seed() -> Option<[u8; 32]> {
    let mut seed = [0u8; 32];
    match OsRng.try_fill_bytes(&mut seed) {
        Ok(()) => Some(seed),
        Err(_) => None,
    }
}

/// `ChaCha20Rng::from_seed`: a generator whose stream is determined by
/// `seed`. The generator is opaque here.
#[verifier::external_body]
fn chacha_from_seed(seed: [u8; 32]) -> ChaCha20Rng {
    ChaCha20Rng::from_seed(seed)
}

/// `Rng::random_range(0..=hi)`: a uniformly chosen index in `0..=hi`
/// (rejection-based bounded sampling, no modulo bias). The value is random;
/// the contract states only its range.
#[verifier::external_body]
fn random_index_upto(rng: &mut ChaCha20Rng, hi: usize) -> (j: usize)
    ensures
        j <= hi,
{
    rng.random_range(0..=hi)
}

/// `<[T]>::swap`: exchange the elements at `i` and `j`.
#[verifier::external_body]
fn vec_swap<T>(v: &mut Vec<T>, i: usize, j: usize)
    requires
        i < old(v)@.len(),
        j < old(v)@.len(),
    ensures
        final(v)@ == old(v)@.update(i as int, old(v)@[j as int]).update(j as int, old(v)@[i as int]),
{
    v.swap(i, j);
}

/// A ChaCha20 CSPRNG freshly seeded from OS entropy, or `None` if the
/// operating system's generator is unavailable.
pub fn os_seeded_csprng() -> Option<ChaCha20Rng> {
    match os_entropy_seed() {
        Some(seed) => Some(chacha_from_seed(seed)),
        None => None,
    }
}

proof fn lemma_swap_keeps_multiset<T>(s: Seq<T>, i: int, j: int)
    requires
        0 <= i < s.len(),
        0 <= j < s.len(),
    ensures
        s.update(i, s[j]).update(j, s[i]).to_multiset() == s.to_multiset(),
{
    broadcast use vstd::seq_lib::to_multiset_update;
    broadcast use vstd::multiset::group_multiset_axioms;
    broadcast use vstd::seq_lib::to_multiset_contains;

    if i != j {
        let s1 = s.update(i, s[j]);
        assert(s1[j] == s[j]);
        let m = s.to_multiset();
        assert(m.count(s[i]) > 0) by {
            assert(s.contains(s[i]));
        }
        assert(s1.to_multiset() == m.insert(s[j]).remove(s[i]));
        assert(s1.update(j, s[i]).to_multiset() == m.insert(s[j]).remove(s[i]).insert(s[i]).remove(
            s[j],
        ));
        assert(m.insert(s[j]).remove(s[i]).insert(s[i]).remove(s[j]) =~= m);
    } else {
        assert(s.update(i, s[j]).update(j, s[i]) =~= s);
    }
}

/// `s` with the elements at `i` and `j` exchanged.
pub open spec fn swap_spec<T>(s: Seq<T>, i: int, j: int) -> Seq<T> {
    s.update(i, s[j]).update(j, s[i])
}

/// Draws fit a Fisher–Yates pass over `n` items: one draw per step, the
/// draw of step `k` in `0..=n-1-k`.
pub open spec fn valid_draws(n: nat, draws: Seq<usize>) -> bool {
    &&& draws.len() == (if n > 1 { (n - 1) as nat } else { 0nat })
    &&& forall|k: int| 0 <= k < draws.len() ==> #[trigger] draws[k] <= n - 1 - k
}

/// The Fisher–Yates (Durstenfeld) pass over `items` with `draws`: step `k`
/// exchanges position `n-1-k` with position `draws[k]`.
pub open spec fn fisher_yates_spec<T>(items: Seq<T>, draws: Seq<usize>) -> Seq<T>
    decreases draws.len(),
{
    if draws.len() == 0 {
        items
    } else {
        let k = draws.len() - 1;
        swap_spec(fisher_yates_spec(items, draws.drop_last()), items.len() - 1 - k, draws[k] as int)
    }
}

proof fn lemma_fisher_yates_len<T>(items: Seq<T>, draws: Seq<usize>)
    requires
        valid_draws(items.len(), draws),
    ensures
        fisher_yates_spec(items, draws).len() == items.len(),
        fisher_yates_spec(items, draws).to_multiset() == items.to_multiset(),
{
    lemma_fisher_yates_len_prefix(items, draws, draws.len() as int);
    assert(draws.take(draws.len() as int) =~= draws);
}

/// Over a prefix of valid draws the pass keeps the length and multiset.
proof fn lemma_fisher_yates_len_prefix<T>(items: Seq<T>, draws: Seq<usize>, k: int)
    requires
        valid_draws(items.len(), draws),
        0 <= k <= draws.len(),
    ensures
        fisher_yates_spec(items, draws.take(k)).len() == items.len(),
        fisher_yates_spec(items, draws.take(k)).to_multiset() == items.to_multiset(),
    decreases k,
{
    if k > 0 {
        lemma_fisher_yates_len_prefix(items, draws, k - 1);
        assert(draws.take(k).drop_last() =~= draws.take(k - 1));
        let prev = fisher_yates_spec(items, draws.take(k - 1));
        assert(draws[k - 1] <= items.len() - 1 - (k - 1));
        lemma_swap_keeps_multiset(prev, items.len() - 1 - (k - 1), draws[k - 1] as int);
    }
}

/// One Fisher–Yates pass over `items` with the given draws: step `k`
/// exchanges position `n-1-k` with position `draws[k]`.
pub fn fisher_yates_with<T>(items: &mut Vec<T>, draws: &Vec<usize>)
    requires
        valid_draws(old(items)@.len(), draws@),
    ensures
        final(items)@ == fisher_yates_spec(old(items)@, draws@),
        final(items)@.to_multiset() == old(items)@.to_multiset(),
{
    let ghost orig = items@;
    let n = items.len();
    let mut k: usize = 0;
    while k < draws.len()
        invariant
            n == orig.len(),
            valid_draws(orig.len(), draws@),
            k <= draws@.len(),
            items@ == fisher_yates_spec(orig, draws@.take(k as int)),
            items@.len() == n,
        decreases draws@.len() - k,
    {
        proof {
            lemma_fisher_yates_len_prefix(orig, draws@, k as int);
            assert(draws@[k as int] <= n - 1 - k);
            assert(draws@.take(k + 1).drop_last() =~= draws@.take(k as int));
        }
        let i = n - 1 - k;
        let j = draws[k];
        vec_swap(items, i, j);
        k += 1;
    }
    proof {
        assert(draws@.take(draws@.len() as int) =~= draws@);
        lemma_fisher_yates_len_prefix(orig, draws@, draws@.len() as int);
    }
}

/// In-place Fisher–Yates (Durstenfeld) shuffle: iterates from the last
/// index down; each element swaps with a uniformly chosen index in `0..=i`.
/// The result is the pass over `items` with some valid draws.
pub fn fisher_yates_shuffle<T>(items: &mut Vec<T>, rng: &mut ChaCha20Rng)
    ensures
        exists|draws: Seq<usize>|
            valid_draws(old(items)@.len(), draws) && final(items)@ == fisher_yates_spec(old(items)@, draws),
        final(items)@.len() == old(items)@.len(),
        final(items)@.to_multiset() == old(items)@.to_multiset(),
{
    let n = items.len();
    let steps: usize = if n > 1 { n - 1 } else { 0 };
    let mut draws: Vec<usize> = Vec::new();
    let mut k: usize = 0;
    while k < steps
        invariant
            n == old(items)@.len(),
            steps == (if n > 1 { n - 1 } else { 0 }),
            k <= steps,
            draws@.len() == k,
            forall|m: int| 0 <= m < k ==> #[trigger] draws@[m] <= n - 1 - m,
        decreases steps - k,
    {
        let j = random_index_upto(rng, n - 1 - k);
        draws.push(j);
        k += 1;
    }
    let ghost before = items@;
    fisher_yates_with(items, &draws);
    proof {
        lemma_fisher_yates_len(before, draws@);
    }
}

/// Clone `items` into a new, unbiasedly shuffled `Vec`, using a fresh
/// OS-seeded CSPRNG: the result is a Fisher–Yates pass, with some valid
/// draws, over clones of the items. `None` if the operating system's
/// generator is unavailable.
pub fn unbiased_shuffled<T: Clone>(items: &[T]) -> (r: Option<Vec<T>>)
    ensures
        match r {
            Some(v) => exists|copy: Seq<T>, draws: Seq<usize>|
                {
                    &&& copy.len() == items@.len()
                    &&& forall|i: int| 0 <= i < copy.len() ==> cloned(items@[i], #[trigger] copy[i])
                    &&& valid_draws(copy.len(), draws)
                    &&& v@ == fisher_yates_spec(copy, draws)
                    &&& v@.to_multiset() == copy.to_multiset()
                } && v@.len() == items@.len(),
            None => true,
        },
{
    let mut v: Vec<T> = Vec::new();
    let mut k: usize = 0;
    while k < items.len()
        invariant
            k <= items@.len(),
            v@.len() == k,
            forall|i: int| 0 <= i < k ==> cloned(items@[i], #[trigger] v@[i]),
        decreases items@.len() - k,
    {
        let c = items[k].clone();
        v.push(c);
        k += 1;
    }
    match os_seeded_csprng() {
        Some(mut rng) => {
            fisher_yates_shuffle(&mut v, &mut rng);
            Some(v)
        },
        None => None,
    }
}

} // verus!
