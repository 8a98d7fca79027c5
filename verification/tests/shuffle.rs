use std::collections::HashMap;

use playlist_studio::shuffle::{fisher_yates_shuffle, fisher_yates_with, os_seeded_csprng, unbiased_shuffled};
use rand::{Rng, SeedableRng};
use rand_chacha::ChaCha20Rng;

#[test]
fn preserves_elements() {
    let mut rng = ChaCha20Rng::seed_from_u64(7);
    let original: Vec<u32> = (0..1000).collect();
    let mut shuffled = original.clone();
    fisher_yates_shuffle(&mut shuffled, &mut rng);
    let mut sorted = shuffled.clone();
    sorted.sort_unstable();
    assert_eq!(sorted, original);
    assert_ne!(shuffled, original, "1000 elements staying put is ~impossible");
}

#[test]
fn handles_degenerate_sizes() {
    let mut rng = ChaCha20Rng::seed_from_u64(7);
    let mut empty: Vec<u8> = vec![];
    fisher_yates_shuffle(&mut empty, &mut rng);
    assert!(empty.is_empty());
    let mut one = vec![42];
    fisher_yates_shuffle(&mut one, &mut rng);
    assert_eq!(one, vec![42]);
}

#[test]
fn distribution_is_uniform_over_permutations() {
    const TRIALS: usize = 240_000;
    const PERMS: usize = 24;
    const EXPECTED: i64 = (TRIALS / PERMS) as i64;
    const TOLERANCE: i64 = 600;

    let mut rng = ChaCha20Rng::seed_from_u64(0xDECAF);
    let mut counts: HashMap<Vec<u8>, i64> = HashMap::new();
    for _ in 0..TRIALS {
        let mut arr = vec![0u8, 1, 2, 3];
        fisher_yates_shuffle(&mut arr, &mut rng);
        *counts.entry(arr).or_insert(0) += 1;
    }

    assert_eq!(counts.len(), PERMS, "all 24 permutations must occur");
    for (perm, count) in counts {
        assert!(
            (count - EXPECTED).abs() <= TOLERANCE,
            "permutation {perm:?} occurred {count} times, expected {EXPECTED} ± {TOLERANCE}"
        );
    }
}

#[test]
fn os_seeded_rngs_differ() {
    let a: Vec<u64> = {
        let mut r = os_seeded_csprng().unwrap();
        (0..8).map(|_| r.random()).collect()
    };
    let b: Vec<u64> = {
        let mut r = os_seeded_csprng().unwrap();
        (0..8).map(|_| r.random()).collect()
    };
    assert_ne!(a, b);
}

#[test]
fn unbiased_shuffle_keeps_the_items() {
    let items: Vec<String> = (0..50).map(|i| format!("spotify:track:{i}")).collect();
    let mut out = unbiased_shuffled(&items).unwrap();
    assert_eq!(out.len(), items.len());
    out.sort();
    let mut expected = items.clone();
    expected.sort();
    assert_eq!(out, expected);
}

#[test]
fn fisher_yates_pass_swaps_from_the_back() {
    let mut v = vec!['a', 'b', 'c', 'd'];
    fisher_yates_with(&mut v, &vec![0, 0, 0]);
    assert_eq!(v, vec!['b', 'c', 'd', 'a']);
    let mut w = vec!['a', 'b', 'c', 'd'];
    fisher_yates_with(&mut w, &vec![3, 2, 1]);
    assert_eq!(w, vec!['a', 'b', 'c', 'd']);
    let mut one = vec!['x'];
    fisher_yates_with(&mut one, &vec![]);
    assert_eq!(one, vec!['x']);
}
