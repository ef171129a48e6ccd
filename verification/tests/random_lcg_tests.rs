//! Tests of the pseudo-random stream: determinism, reference draws, and
//! the skip-ahead operator against sequential advancing.

use teh_o::random_lcg::future_seed;
use teh_o::random_lcg::init_history_seed;
use teh_o::random_lcg::prn_word;
use teh_o::random_lcg::PRN_STRIDE;

#[test]
fn draw_is_deterministic() {
    let mut seed_a: u64 = 123456789;
    let mut seed_b: u64 = 123456789;
    for _ in 0..16 {
        let word_a = prn_word(&mut seed_a);
        let word_b = prn_word(&mut seed_b);
        assert_eq!(word_a, word_b);
        assert_eq!(seed_a, seed_b);
    }
}

#[test]
fn draw_reference_values() {
    // Seeds and output words of the first four draws starting from seed 1.
    let mut seed: u64 = 1;

    let word = prn_word(&mut seed);
    assert_eq!(seed, 7806831264735756412);
    assert_eq!(word, 13112265920887089679);

    let word = prn_word(&mut seed);
    assert_eq!(seed, 9396908728118811419);
    assert_eq!(word, 13890324607627709258);

    let word = prn_word(&mut seed);
    assert_eq!(seed, 11960119808228829710);
    assert_eq!(word, 6089620500072482747);

    let word = prn_word(&mut seed);
    assert_eq!(seed, 7062582979898595269);
    assert_eq!(word, 8618075676419136029);
}

#[test]
fn future_seed_matches_sequential_draws() {
    for &start in &[1u64, 42, 0, u64::MAX, 987654321987654321] {
        let mut seed = start;
        for n in 0u64..200 {
            assert_eq!(future_seed(n, start), Ok(seed));
            prn_word(&mut seed);
        }
    }
}

#[test]
fn future_seed_large_strides() {
    // A long skip equals the same number of sequential advances.
    let mut seed: u64 = 1;
    for _ in 0..1000 {
        prn_word(&mut seed);
    }
    assert_eq!(future_seed(1000, 1), Ok(seed));
    assert_eq!(future_seed(1000, 1), Ok(17660865281050590889));
    assert_eq!(future_seed(10, 1), Ok(3660572683296592931));
    assert_eq!(future_seed(10, 42), Ok(457466634992928148));
    assert_eq!(future_seed(152917, 1), Ok(3009189780765489792));
}

#[test]
fn future_seed_composes() {
    // Skipping a + b draws equals skipping a then skipping b.
    let seed: u64 = 77;
    let after_a = future_seed(12345, seed).unwrap();
    let after_ab = future_seed(54321, after_a).unwrap();
    assert_eq!(future_seed(12345 + 54321, seed), Ok(after_ab));
}

#[test]
fn history_seeds_follow_the_stride() {
    // History seeds step through the master stream in strides.
    assert_eq!(init_history_seed(0, 7), Ok(7));
    assert_eq!(
        init_history_seed(3, 7),
        future_seed(3 * PRN_STRIDE, 7)
    );
    assert_eq!(init_history_seed(3, 7), Ok(4155851604079766680));
    // Each history seed is one stride ahead of its predecessor.
    let from_previous = future_seed(PRN_STRIDE, init_history_seed(9, 1).unwrap());
    assert_eq!(init_history_seed(10, 1), from_previous);
}
