use bevy_turborand::prelude::Rng;
use bevy_turborand::SeededCore;
use dice_encounter::dice_pools::{
    borrow_all, pools_fit, DicePool, DicePoolType, DiceType, InitialPools, Roll,
};

fn pool(num_dice: u8, dice: DiceType, pool: DicePoolType) -> DicePool {
    DicePool { num_dice, dice, pool }
}

#[test]
fn empty_pool_rolls_one_for_every_die_and_mode() {
    let dice = [
        DiceType::D2,
        DiceType::D3,
        DiceType::D4,
        DiceType::D6,
        DiceType::D8,
        DiceType::D12,
        DiceType::Static { value: 0 },
        DiceType::Static { value: 200 },
    ];
    for seed in 0..20u64 {
        let mut rng = Rng::with_seed(seed);
        for die in dice.iter() {
            assert_eq!(pool(0, *die, DicePoolType::Additive).roll(&mut rng), 1);
            assert_eq!(pool(0, *die, DicePoolType::Advantage).roll(&mut rng), 1);
        }
    }
}

#[test]
fn static_die_shows_its_value_whatever_the_seed() {
    for seed in 0..50u64 {
        let mut rng = Rng::with_seed(seed);
        for value in [0u8, 1, 2, 7, 100, 255] {
            assert_eq!(DiceType::Static { value }.roll(&mut rng), value);
        }
    }
}

#[test]
fn each_die_stays_on_its_faces_and_reaches_both_ends() {
    let dice = [
        (DiceType::D2, 2u8),
        (DiceType::D3, 3),
        (DiceType::D4, 4),
        (DiceType::D6, 6),
        (DiceType::D8, 8),
        (DiceType::D12, 12),
    ];
    let mut rng = Rng::with_seed(7);
    for (die, faces) in dice.iter() {
        let mut seen_low = false;
        let mut seen_high = false;
        for _ in 0..2000 {
            let face = die.roll(&mut rng);
            assert!(1 <= face && face <= *faces);
            seen_low |= face == 1;
            seen_high |= face == *faces;
        }
        assert!(seen_low && seen_high);
    }
}

#[test]
fn additive_pool_of_static_dice_adds_them_up() {
    let mut rng = Rng::with_seed(1);
    let three_fours = pool(3, DiceType::Static { value: 4 }, DicePoolType::Additive);
    assert_eq!(three_fours.roll(&mut rng), 12);
    assert_eq!(three_fours.total(&[4, 4, 4]), 12);
}

#[test]
fn total_combines_given_faces() {
    let additive = pool(4, DiceType::D6, DicePoolType::Additive);
    assert_eq!(additive.total(&[1, 6, 3, 2]), 12);
    let advantage = pool(4, DiceType::D6, DicePoolType::Advantage);
    assert_eq!(advantage.total(&[1, 6, 3, 2]), 6);
    assert_eq!(advantage.total(&[2, 2, 5, 3]), 5);
}

#[test]
fn advantage_pool_samples_every_die() {
    // A single die is thrown, not skipped: a constant five shows as five.
    let mut rng = Rng::with_seed(3);
    let one_five = pool(1, DiceType::Static { value: 5 }, DicePoolType::Advantage);
    assert_eq!(one_five.roll(&mut rng), 5);
    assert_eq!(one_five.total(&[5]), 5);
}

#[test]
fn advantage_pool_never_reports_less_than_one() {
    let mut rng = Rng::with_seed(3);
    let zeros = pool(3, DiceType::Static { value: 0 }, DicePoolType::Advantage);
    assert_eq!(zeros.roll(&mut rng), 1);
    assert_eq!(zeros.total(&[0, 0, 0]), 1);
}

#[test]
fn advantage_pool_stays_on_the_faces_of_its_die() {
    let mut rng = Rng::with_seed(11);
    let three_d6 = pool(3, DiceType::D6, DicePoolType::Advantage);
    let mut seen_six = false;
    for _ in 0..500 {
        let total = three_d6.roll(&mut rng);
        assert!(1 <= total && total <= 6);
        seen_six |= total == 6;
    }
    assert!(seen_six);
}

#[test]
fn additive_pool_stays_between_its_bounds() {
    let mut rng = Rng::with_seed(5);
    let two_d8 = pool(2, DiceType::D8, DicePoolType::Additive);
    for _ in 0..500 {
        let total = two_d8.roll(&mut rng);
        assert!(2 <= total && total <= 16);
    }
}

#[test]
fn throw_gives_one_face_per_die() {
    let mut rng = Rng::with_seed(9);
    let five_d4 = pool(5, DiceType::D4, DicePoolType::Additive);
    let faces = five_d4.throw(&mut rng);
    assert_eq!(faces.len(), 5);
    assert!(faces.iter().all(|face| 1 <= *face && *face <= 4));
}

#[test]
fn rolling_no_pools_gives_one() {
    let mut rng = Rng::with_seed(2);
    let none: Vec<&DicePool> = Vec::new();
    assert_eq!(none.as_slice().roll(&mut rng), 1);
}

#[test]
fn rolling_several_pools_adds_their_rolls() {
    let mut rng = Rng::with_seed(2);
    let first = pool(2, DiceType::Static { value: 3 }, DicePoolType::Additive);
    let second = pool(1, DiceType::Static { value: 2 }, DicePoolType::Advantage);
    let third = pool(0, DiceType::D12, DicePoolType::Additive);
    let pools = vec![&first, &second, &third];
    assert_eq!(pools.as_slice().roll(&mut rng), 6 + 2 + 1);
}

#[test]
fn defaults_are_one_additive_d12() {
    assert_eq!(DiceType::default(), DiceType::D12);
    assert_eq!(DicePoolType::default(), DicePoolType::Additive);
    assert_eq!(DicePool::default(), pool(1, DiceType::D12, DicePoolType::Additive));
    let initial = InitialPools::default();
    let pools: Vec<DicePool> = initial.iter().copied().collect();
    assert_eq!(pools, vec![pool(1, DiceType::D12, DicePoolType::Additive)]);
}

#[test]
fn initial_pools_keep_their_order() {
    let given = vec![
        pool(2, DiceType::D8, DicePoolType::Additive),
        pool(1, DiceType::Static { value: 2 }, DicePoolType::Additive),
        pool(3, DiceType::D6, DicePoolType::Advantage),
    ];
    let initial = InitialPools::new(given.clone());
    let back: Vec<DicePool> = initial.iter().copied().collect();
    assert_eq!(back, given);
    assert_eq!(initial.as_slice(), given.as_slice());
}

#[test]
fn faces_of_each_die() {
    let dice = [
        (DiceType::D2, 1u8, 2u8),
        (DiceType::D3, 1, 3),
        (DiceType::D4, 1, 4),
        (DiceType::D6, 1, 6),
        (DiceType::D8, 1, 8),
        (DiceType::D12, 1, 12),
        (DiceType::Static { value: 9 }, 9, 9),
        (DiceType::Static { value: 0 }, 0, 0),
    ];
    for (die, low, high) in dice.iter() {
        assert_eq!(die.smallest(), *low);
        assert_eq!(die.largest(), *high);
    }
}

#[test]
fn bounds_of_pools() {
    assert_eq!(pool(0, DiceType::D12, DicePoolType::Additive).smallest(), 1);
    assert_eq!(pool(0, DiceType::D12, DicePoolType::Additive).largest(), 1);
    assert_eq!(pool(3, DiceType::D6, DicePoolType::Additive).smallest(), 3);
    assert_eq!(pool(3, DiceType::D6, DicePoolType::Additive).largest(), 18);
    assert_eq!(pool(3, DiceType::D6, DicePoolType::Advantage).smallest(), 1);
    assert_eq!(pool(3, DiceType::D6, DicePoolType::Advantage).largest(), 6);
    assert_eq!(pool(4, DiceType::Static { value: 0 }, DicePoolType::Additive).largest(), 0);
    assert_eq!(pool(4, DiceType::Static { value: 0 }, DicePoolType::Advantage).largest(), 1);
    assert_eq!(pool(2, DiceType::Static { value: 7 }, DicePoolType::Advantage).smallest(), 7);
    assert_eq!(
        pool(255, DiceType::Static { value: 255 }, DicePoolType::Additive).largest(),
        65025
    );
}

#[test]
fn pools_fit_tells_when_a_roll_fits_a_byte() {
    let none: Vec<&DicePool> = Vec::new();
    assert!(pools_fit(none.as_slice()));
    let twenty_d12 = pool(20, DiceType::D12, DicePoolType::Additive);
    let one_d12 = pool(1, DiceType::D12, DicePoolType::Additive);
    let three = pool(1, DiceType::Static { value: 3 }, DicePoolType::Additive);
    let four = pool(1, DiceType::Static { value: 4 }, DicePoolType::Additive);
    // 240 + 12 + 3 is 255 and fits; one more does not.
    assert!(pools_fit(&[&twenty_d12, &one_d12, &three]));
    assert!(!pools_fit(&[&twenty_d12, &one_d12, &four]));
    let huge = pool(255, DiceType::Static { value: 255 }, DicePoolType::Additive);
    assert!(!pools_fit(&[&huge, &huge, &huge]));
    // Advantage keeps a big pool small.
    let many = pool(255, DiceType::D12, DicePoolType::Advantage);
    assert!(pools_fit(&[&many]));
}

#[test]
fn borrow_all_keeps_order() {
    let pools = vec![
        pool(2, DiceType::D8, DicePoolType::Additive),
        pool(1, DiceType::D4, DicePoolType::Advantage),
    ];
    let borrowed = borrow_all(&pools);
    assert_eq!(borrowed.len(), 2);
    assert_eq!(*borrowed[0], pools[0]);
    assert_eq!(*borrowed[1], pools[1]);
}

#[test]
fn largest_roll_is_reached_at_the_limit() {
    // Fifteen constant seventeens come to exactly 255.
    let mut rng = Rng::with_seed(1);
    let limit = pool(15, DiceType::Static { value: 17 }, DicePoolType::Additive);
    assert_eq!(limit.largest(), 255);
    assert_eq!(limit.roll(&mut rng), 255);
}
