use photojournalism::shuffler::{page, randomize};

#[test]
fn same_seed_produces_same_shuffle_consistently() {
    let seed: u64 = 42;
    let max_val: usize = 1024;

    let a = randomize(seed, max_val);
    let b = randomize(seed, max_val);
    let c = randomize(seed, max_val);

    assert_eq!(a, b);
    assert_eq!(b, c);
    assert_eq!(a, c);
}

#[test]
fn different_seed_produces_different_shuffles() {
    let seed_a: u64 = 42;
    let seed_b: u64 = 127;
    let max_val: usize = 2048;

    let a = randomize(seed_a, max_val);
    let b = randomize(seed_b, max_val);

    assert_ne!(a, b);
}

#[test]
fn randomize_is_a_permutation() {
    let mut indices = randomize(7, 100);
    indices.sort();
    let expected: Vec<usize> = (0..100).collect();
    assert_eq!(indices, expected);
}

#[test]
fn page_at_or_past_the_end_is_empty() {
    for seed in [0u64, 42, 127] {
        for total in [0usize, 1, 10, 100] {
            for size in [0usize, 1, 8, 1000] {
                assert!(page(seed, total, total, size).is_empty());
                assert!(page(seed, total, total + 5, size).is_empty());
            }
        }
    }
}

#[test]
fn page_slices_the_permutation() {
    let seed: u64 = 9;
    let total: usize = 50;
    let perm = randomize(seed, total);

    let first = page(seed, total, 0, 8);
    assert_eq!(first.as_slice(), &perm[0..8]);

    let middle = page(seed, total, 40, 8);
    assert_eq!(middle.as_slice(), &perm[40..48]);

    let tail = page(seed, total, 48, 8);
    assert_eq!(tail.as_slice(), &perm[48..50]);
}
