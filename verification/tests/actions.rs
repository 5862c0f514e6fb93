use bevy_turborand::prelude::Rng;
use bevy_turborand::SeededCore;
use dice_encounter::actions::{ActionChoice, ActionResult, ActionType, Resolution};
use dice_encounter::dice_pools::{DicePool, DicePoolType, DiceType, InitialPools};

fn with_thresholds(fail: u8, success: u8, critical_success: u8) -> ActionChoice {
    ActionChoice {
        title: "Test".to_string(),
        content: String::new(),
        fail,
        success,
        critical_success,
        dice_pool: InitialPools::default(),
    }
}

#[test]
fn default_action() {
    let choice = ActionChoice::default();
    assert_eq!(choice.title, "An Action");
    assert_eq!(choice.content, "");
    assert_eq!((choice.fail, choice.success, choice.critical_success), (2, 6, 9));
    assert_eq!(
        choice.dice_pool.as_slice(),
        &[DicePool { num_dice: 1, dice: DiceType::D12, pool: DicePoolType::Additive }]
    );
    assert_eq!(ActionType::default(), ActionType::Text);
}

#[test]
fn evaluate_against_four_ten_fifteen() {
    let choice = with_thresholds(4, 10, 15);
    assert_eq!(choice.evaluate(2), (ActionResult::CriticalFail, 2));
    assert_eq!(choice.evaluate(7), (ActionResult::Fail, 3));
    assert_eq!(choice.evaluate(12), (ActionResult::Success, 2));
    assert_eq!(choice.evaluate(20), (ActionResult::CriticalSuccess, 5));
}

#[test]
fn evaluate_on_the_thresholds_themselves() {
    let choice = with_thresholds(4, 10, 15);
    assert_eq!(choice.evaluate(0), (ActionResult::CriticalFail, 4));
    assert_eq!(choice.evaluate(3), (ActionResult::CriticalFail, 1));
    assert_eq!(choice.evaluate(4), (ActionResult::Fail, 6));
    assert_eq!(choice.evaluate(9), (ActionResult::Fail, 1));
    assert_eq!(choice.evaluate(10), (ActionResult::Success, 0));
    assert_eq!(choice.evaluate(14), (ActionResult::Success, 4));
    assert_eq!(choice.evaluate(15), (ActionResult::CriticalSuccess, 0));
    assert_eq!(choice.evaluate(255), (ActionResult::CriticalSuccess, 240));
}

#[test]
fn evaluate_takes_thresholds_as_given() {
    // Inverted thresholds are judged in the same order: fail, success, critical.
    let choice = with_thresholds(10, 4, 2);
    assert_eq!(choice.evaluate(1), (ActionResult::CriticalFail, 9));
    assert_eq!(choice.evaluate(9), (ActionResult::CriticalFail, 1));
    assert_eq!(choice.evaluate(10), (ActionResult::CriticalSuccess, 8));
    let zero = with_thresholds(0, 0, 0);
    assert_eq!(zero.evaluate(0), (ActionResult::CriticalSuccess, 0));
    let top = with_thresholds(255, 255, 255);
    assert_eq!(top.evaluate(254), (ActionResult::CriticalFail, 1));
    assert_eq!(top.evaluate(255), (ActionResult::CriticalSuccess, 0));
}

#[test]
fn resolution_records_roll_result_and_gap() {
    let choice = with_thresholds(4, 10, 15);
    assert_eq!(
        choice.resolution(12),
        Resolution { roll: 12, result: ActionResult::Success, gap: 2 }
    );
    assert_eq!(
        choice.resolution(1),
        Resolution { roll: 1, result: ActionResult::CriticalFail, gap: 3 }
    );
}

#[test]
fn resolve_rolls_the_pools_and_judges_the_total() {
    let mut rng = Rng::with_seed(5);
    let choice = with_thresholds(4, 10, 15);
    let twelve = DicePool {
        num_dice: 3,
        dice: DiceType::Static { value: 4 },
        pool: DicePoolType::Additive,
    };
    let one = DicePool { num_dice: 0, dice: DiceType::D6, pool: DicePoolType::Additive };
    assert_eq!(
        choice.resolve(&[&twelve, &one], &mut rng),
        Resolution { roll: 13, result: ActionResult::Success, gap: 3 }
    );
    assert_eq!(
        choice.resolve(&[], &mut rng),
        Resolution { roll: 1, result: ActionResult::CriticalFail, gap: 3 }
    );
}

#[test]
fn resolve_of_random_pools_is_consistent() {
    let mut rng = Rng::with_seed(77);
    let choice = with_thresholds(5, 8, 10);
    let first = DicePool { num_dice: 1, dice: DiceType::D6, pool: DicePoolType::Advantage };
    let second = DicePool { num_dice: 1, dice: DiceType::D8, pool: DicePoolType::Additive };
    for _ in 0..200 {
        let resolution = choice.resolve(&[&first, &second], &mut rng);
        assert!(2 <= resolution.roll && resolution.roll <= 14);
        assert_eq!((resolution.result, resolution.gap), choice.evaluate(resolution.roll));
    }
}
