use std::collections::HashMap;

use mnemosyne::due::{effective_limit, hardest_first, hardness, interleave, DueOrder, DEFAULT_LIMIT, MAX_LIMIT};

fn set(n: u8) -> u128 {
    n as u128
}

fn adjacent_pairs(sets: &[u128]) -> usize {
    sets.windows(2).filter(|w| w[0] == w[1]).count()
}

fn interleave_pairs<T: Clone>(input: &[(T, u128)]) -> Vec<(T, u128)> {
    let sets: Vec<u128> = input.iter().map(|c| c.1).collect();
    interleave(input.to_vec(), sets)
}

#[test]
fn limit_defaults_and_clamps() {
    assert_eq!(effective_limit(None), DEFAULT_LIMIT);
    assert_eq!(effective_limit(Some(50)), 50);
    assert_eq!(effective_limit(Some(MAX_LIMIT)), MAX_LIMIT);
    assert_eq!(effective_limit(Some(10_000)), MAX_LIMIT);
    assert_eq!(effective_limit(Some(0)), 1);
    assert_eq!(effective_limit(Some(-5)), 1);
}

#[test]
fn order_parses_the_three_names_and_refuses_the_rest() {
    assert_eq!(DueOrder::parse(None), Ok(DueOrder::Due));
    assert_eq!(DueOrder::parse(Some("")), Ok(DueOrder::Due));
    assert_eq!(DueOrder::parse(Some("due")), Ok(DueOrder::Due));
    assert_eq!(DueOrder::parse(Some("interleave")), Ok(DueOrder::Interleave));
    assert_eq!(DueOrder::parse(Some("hardest")), Ok(DueOrder::Hardest));
    assert!(DueOrder::parse(Some("random")).is_err());
    assert!(DueOrder::parse(Some("Hardest")).is_err(), "names are exact");
}

#[test]
fn an_unknown_order_is_named_in_the_error() {
    assert_eq!(
        DueOrder::parse(Some(" random ")),
        Err("unknown order \"random\"; expected due, interleave or hardest".to_string())
    );
    assert_eq!(DueOrder::parse(Some("  hardest ")), Ok(DueOrder::Hardest));
}

#[test]
fn interleave_separates_sets_and_keeps_every_card() {
    let a = set(1);
    let b = set(2);
    let input = vec![(0, a), (1, a), (2, b), (3, b)];
    let out = interleave_pairs(&input);
    assert_eq!(out.iter().map(|c| c.0).collect::<Vec<_>>(), vec![0, 2, 1, 3]);
}

#[test]
fn interleave_leaves_an_already_mixed_batch_alone() {
    let input: Vec<(u32, u128)> = vec![(0, set(1)), (1, set(2)), (2, set(1)), (3, set(3))];
    let out = interleave_pairs(&input);
    assert_eq!(out, input);
}

#[test]
fn interleave_of_one_set_is_the_due_order() {
    let input: Vec<(u32, u128)> = (0..5).map(|i| (i, set(7))).collect();
    assert_eq!(interleave_pairs(&input), input);
}

#[test]
fn interleave_is_optimal_on_random_batches() {
    let mut seed: u64 = 0x2545_F491_4F6C_DD1D;
    let mut next = |m: u64| {
        seed = seed.wrapping_mul(6364136223846793005).wrapping_add(1442695040888963407);
        (seed >> 33) % m
    };
    for _ in 0..3000 {
        let n = 1 + next(14) as usize;
        let kinds = 1 + next(4) as u8;
        let input: Vec<(usize, u128)> = (0..n).map(|i| (i, set(1 + next(kinds as u64) as u8))).collect();
        let out = interleave_pairs(&input);

        let mut ids: Vec<usize> = out.iter().map(|c| c.0).collect();
        ids.sort_unstable();
        assert_eq!(ids, (0..n).collect::<Vec<_>>(), "not a permutation: {input:?}");

        let mut counts = HashMap::new();
        for c in &input {
            *counts.entry(c.1).or_insert(0usize) += 1;
        }
        let max = *counts.values().max().unwrap();
        let least = (2 * max).saturating_sub(n + 1);
        let sets: Vec<u128> = out.iter().map(|c| c.1).collect();
        assert_eq!(adjacent_pairs(&sets), least, "input {input:?} -> {out:?}");
    }
}

#[test]
fn interleave_lets_a_majority_set_go_first_when_it_must() {
    // Three of five cards share a set: they can only be separated by
    // starting with one of them.
    let input = vec![(0, set(2)), (1, set(1)), (2, set(1)), (3, set(1)), (4, set(3))];
    let out = interleave_pairs(&input);
    let sets: Vec<u128> = out.iter().map(|c| c.1).collect();
    assert_eq!(adjacent_pairs(&sets), 0, "{out:?}");
    assert_eq!(out.iter().map(|c| c.0).collect::<Vec<_>>(), vec![1, 0, 2, 4, 3]);
}

#[test]
fn hardness_is_the_weak_card_rule() {
    assert_eq!(hardness(&[false, true, false, true, true]), Some(2));
    assert_eq!(hardness(&[true; 5]), Some(0));
    assert_eq!(hardness(&[false; 4]), None);
}

#[test]
fn hardest_first_puts_most_missed_first_and_keeps_ties_in_order() {
    let input = vec![(0, None), (1, Some(1)), (2, Some(3)), (3, Some(1)), (4, None), (5, Some(0))];
    let keys: Vec<Option<usize>> = input.iter().map(|c| c.1).collect();
    let out = hardest_first(input, keys);
    assert_eq!(out.iter().map(|c| c.0).collect::<Vec<_>>(), vec![2, 1, 3, 5, 0, 4]);
}
