use blockgen::encode::encode_ranks;
use blockgen::encode::multipliers_of;
use blockgen::encode::slice_product;

#[test]
fn product_of_empty_suffix_is_one() {
    let cards: Vec<usize> = vec![2, 14];
    assert_eq!(slice_product(&cards, 2), 1);
}

#[test]
fn product_of_suffixes() {
    let cards: Vec<usize> = vec![4, 2, 14];
    assert_eq!(slice_product(&cards, 0), 112);
    assert_eq!(slice_product(&cards, 1), 28);
    assert_eq!(slice_product(&cards, 2), 14);
}

#[test]
fn stair_multipliers_match_expected() {
    // facing: 4 values, half: 2, shape: 14 — multipliers (2*14, 14, 1).
    let cards: Vec<usize> = vec![4, 2, 14];
    let mults = multipliers_of(&cards);
    assert_eq!(mults, vec![28, 14, 1]);
}

#[test]
fn single_property_multiplier_is_one() {
    let cards: Vec<usize> = vec![6];
    assert_eq!(multipliers_of(&cards), vec![1]);
}

#[test]
fn stair_combination_encodes_to_42() {
    // facing="south" rank 1, half="bottom" rank 1, shape="straight" rank 0:
    // 1*28 + 1*14 + 0*1 == 42.
    let cards: Vec<usize> = vec![4, 2, 14];
    let ranks: Vec<usize> = vec![1, 1, 0];
    assert_eq!(encode_ranks(&ranks, &cards), 42);
}

#[test]
fn last_property_varies_fastest() {
    let cards: Vec<usize> = vec![3, 5];
    assert_eq!(encode_ranks(&vec![0, 0], &cards), 0);
    assert_eq!(encode_ranks(&vec![0, 1], &cards), 1);
    assert_eq!(encode_ranks(&vec![1, 0], &cards), 5);
    assert_eq!(encode_ranks(&vec![2, 4], &cards), 14);
}

#[test]
fn encoding_is_a_bijection_onto_dense_range() {
    // Every combination of a 2 x 3 x 2 block maps to a distinct integer and
    // together they cover exactly 0..12.
    let cards: Vec<usize> = vec![2, 3, 2];
    let mut seen = vec![false; 12];
    for a in 0..2 {
        for b in 0..3 {
            for c in 0..2 {
                let v = encode_ranks(&vec![a, b, c], &cards);
                assert!(v < 12);
                assert!(!seen[v], "duplicate encoding {}", v);
                seen[v] = true;
            }
        }
    }
    assert!(seen.iter().all(|s| *s));
}
