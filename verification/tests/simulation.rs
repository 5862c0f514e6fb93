use bevy_turborand::prelude::Rng;
use bevy_turborand::SeededCore;
use dice_encounter::dice_pools::{DicePool, DicePoolType, DiceType};
use dice_encounter::simulation::{sample_rolls, sort_ascending, tally, Histogram, SimulateDice};

fn ratios(histogram: &Histogram) -> Vec<(u8, f32)> {
    histogram
        .buckets
        .iter()
        .map(|(value, count)| (*value, *count as f32 / histogram.tallest as f32))
        .collect()
}

#[test]
fn sort_ascending_sorts_and_keeps_every_value() {
    let mut values = vec![5u8, 1, 4, 1, 255, 0, 3, 3, 3];
    sort_ascending(&mut values);
    assert_eq!(values, vec![0, 1, 1, 3, 3, 3, 4, 5, 255]);
}

#[test]
fn sort_ascending_handles_empty_and_single() {
    let mut none: Vec<u8> = Vec::new();
    sort_ascending(&mut none);
    assert!(none.is_empty());
    let mut one = vec![9u8];
    sort_ascending(&mut one);
    assert_eq!(one, vec![9]);
}

#[test]
fn sort_ascending_agrees_with_std_sort() {
    let mut rng = Rng::with_seed(99);
    let die = DicePool { num_dice: 3, dice: DiceType::D12, pool: DicePoolType::Additive };
    for count in [2usize, 3, 10, 57, 200] {
        let mut values = sample_rolls(&die, count, &mut rng);
        let mut expected = values.clone();
        expected.sort();
        sort_ascending(&mut values);
        assert_eq!(values, expected);
    }
}

#[test]
fn tally_counts_runs_of_equal_values() {
    let histogram = tally(vec![3, 1, 2, 3, 3, 1]);
    assert_eq!(histogram.buckets, vec![(1, 2), (2, 1), (3, 3)]);
    assert_eq!(histogram.tallest, 3);
}

#[test]
fn tally_of_nothing_is_empty() {
    let histogram = tally(Vec::new());
    assert!(histogram.buckets.is_empty());
    assert_eq!(histogram.tallest, 0);
}

#[test]
fn tally_of_one_value() {
    let histogram = tally(vec![7, 7, 7, 7]);
    assert_eq!(histogram.buckets, vec![(7, 4)]);
    assert_eq!(histogram.tallest, 4);
}

#[test]
fn tally_is_relative_to_the_tallest_bucket_not_to_the_total() {
    let histogram = tally(vec![2, 2, 2, 2, 5, 5, 9]);
    assert_eq!(ratios(&histogram), vec![(2, 1.0), (5, 0.5), (9, 0.25)]);
}

#[test]
fn sample_rolls_draws_as_many_as_asked() {
    let mut rng = Rng::with_seed(4);
    let die = DiceType::D6;
    for count in [0usize, 1, 100] {
        let samples = sample_rolls(&die, count, &mut rng);
        assert_eq!(samples.len(), count);
        assert!(samples.iter().all(|sample| 1 <= *sample && *sample <= 6));
    }
}

#[test]
fn simulate_counts_every_sample_once() {
    let mut rng = Rng::with_seed(21);
    let two_d6 = DicePool { num_dice: 2, dice: DiceType::D6, pool: DicePoolType::Additive };
    let histogram = SimulateDice::<100>::simulate(&two_d6, &mut rng);
    let total: usize = histogram.buckets.iter().map(|(_, count)| *count).sum();
    assert_eq!(total, 100);
    for window in histogram.buckets.windows(2) {
        assert!(window[0].0 < window[1].0);
    }
    assert!(histogram.buckets.iter().all(|(value, _)| 2 <= *value && *value <= 12));
}

#[test]
fn simulate_tallest_ratio_is_exactly_one_and_the_rest_lie_above_zero() {
    for seed in 0..25u64 {
        let mut rng = Rng::with_seed(seed);
        let first = DicePool { num_dice: 2, dice: DiceType::D8, pool: DicePoolType::Additive };
        let second = DicePool { num_dice: 3, dice: DiceType::D4, pool: DicePoolType::Advantage };
        let pools = vec![&first, &second];
        let histogram = SimulateDice::<100>::simulate(&pools.as_slice(), &mut rng);
        let heights = ratios(&histogram);
        let highest = heights.iter().map(|(_, ratio)| *ratio).fold(0.0f32, f32::max);
        assert_eq!(highest, 1.0);
        assert!(heights.iter().all(|(_, ratio)| 0.0 < *ratio && *ratio <= 1.0));
        assert!(histogram.buckets.iter().any(|(_, count)| *count == histogram.tallest));
    }
}

#[test]
fn simulate_of_a_constant_is_one_full_bar() {
    let mut rng = Rng::with_seed(8);
    let constant = DiceType::Static { value: 6 };
    let histogram = SimulateDice::<100>::simulate(&constant, &mut rng);
    assert_eq!(histogram.buckets, vec![(6, 100)]);
    assert_eq!(histogram.tallest, 100);
    assert_eq!(ratios(&histogram), vec![(6, 1.0)]);
}

#[test]
fn simulate_of_no_pools_is_a_single_one() {
    let mut rng = Rng::with_seed(8);
    let none: Vec<&DicePool> = Vec::new();
    let histogram = SimulateDice::<100>::simulate(&none.as_slice(), &mut rng);
    assert_eq!(histogram.buckets, vec![(1, 100)]);
}

#[test]
fn simulate_without_samples_is_empty() {
    let mut rng = Rng::with_seed(8);
    let histogram = SimulateDice::<0>::simulate(&DiceType::D6, &mut rng);
    assert!(histogram.buckets.is_empty());
    assert_eq!(histogram.tallest, 0);
}
