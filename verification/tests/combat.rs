use dice_encounter::actions::{ActionResult, ActionType, Side, Target};
use dice_encounter::combat::{
    combat_report, damage, result_text, Combatants, Completion, CurrentHealth, MaxHealth,
};

fn combatants(player: Option<usize>, challengers: &[usize]) -> Combatants {
    Combatants {
        player: player.map(CurrentHealth),
        challengers: challengers.iter().map(|health| CurrentHealth(*health)).collect(),
    }
}

#[test]
fn challenger_hurts_by_failing() {
    assert_eq!(damage(Side::Challenger, ActionResult::CriticalFail, 3), 6);
    assert_eq!(damage(Side::Challenger, ActionResult::Fail, 3), 3);
    assert_eq!(damage(Side::Challenger, ActionResult::Success, 3), 0);
    assert_eq!(damage(Side::Challenger, ActionResult::CriticalSuccess, 3), 0);
}

#[test]
fn player_hurts_by_succeeding() {
    assert_eq!(damage(Side::Player, ActionResult::CriticalFail, 2), 0);
    assert_eq!(damage(Side::Player, ActionResult::Fail, 2), 0);
    assert_eq!(damage(Side::Player, ActionResult::Success, 2), 2);
    assert_eq!(damage(Side::Player, ActionResult::CriticalSuccess, 2), 4);
}

#[test]
fn damage_of_the_largest_base_does_not_wrap() {
    assert_eq!(damage(Side::Player, ActionResult::CriticalSuccess, 255), 510);
    assert_eq!(damage(Side::Challenger, ActionResult::CriticalFail, 200), 400);
    assert_eq!(damage(Side::Player, ActionResult::CriticalSuccess, 0), 0);
}

#[test]
fn words_for_each_result() {
    assert_eq!(result_text(ActionResult::CriticalFail), "Failed Badly");
    assert_eq!(result_text(ActionResult::Fail), "Failed");
    assert_eq!(result_text(ActionResult::Success), "Succeeded!");
    assert_eq!(result_text(ActionResult::CriticalSuccess), "Amazing Success!");
}

#[test]
fn only_an_attack_has_a_report() {
    assert_eq!(combat_report(ActionType::Text, Side::Player, ActionResult::Success), None);
    let attack = ActionType::Attack { base_damage: 2, target: Some(Target::Challenger(1)) };
    let report = combat_report(attack, Side::Player, ActionResult::CriticalSuccess).unwrap();
    assert_eq!(report.text, "Amazing Success!");
    assert_eq!(report.damage, 4);
    assert_eq!(report.target, Some(Target::Challenger(1)));
    let aimless = ActionType::Attack { base_damage: 5, target: None };
    let report = combat_report(aimless, Side::Challenger, ActionResult::Fail).unwrap();
    assert_eq!(report.text, "Failed");
    assert_eq!(report.damage, 5);
    assert_eq!(report.target, None);
}

#[test]
fn health_stops_at_zero() {
    let mut health = CurrentHealth(5);
    health.take(3);
    assert_eq!(health, CurrentHealth(2));
    health.take(2);
    assert_eq!(health, CurrentHealth(0));
    health.take(1);
    assert_eq!(health, CurrentHealth(0));
    let mut other = CurrentHealth(4);
    other.take(usize::MAX);
    assert_eq!(other, CurrentHealth(0));
    let mut untouched = CurrentHealth(4);
    untouched.take(0);
    assert_eq!(untouched, CurrentHealth(4));
    assert_eq!(MaxHealth(7).0, 7);
}

#[test]
fn hit_takes_damage_off_the_target_only() {
    let mut all = combatants(Some(5), &[2, 2, 2]);
    all.hit(Some(Target::Challenger(1)), 1);
    assert_eq!(all.player, Some(CurrentHealth(5)));
    assert_eq!(all.challengers, vec![CurrentHealth(2), CurrentHealth(1), CurrentHealth(2)]);
    all.hit(Some(Target::Player), 6);
    assert_eq!(all.player, Some(CurrentHealth(0)));
    assert_eq!(all.challengers, vec![CurrentHealth(2), CurrentHealth(1), CurrentHealth(2)]);
}

#[test]
fn hit_without_a_target_or_on_a_missing_one_does_nothing() {
    let mut all = combatants(Some(5), &[2]);
    all.hit(None, 9);
    all.hit(Some(Target::Challenger(1)), 9);
    all.hit(Some(Target::Challenger(usize::MAX)), 9);
    assert_eq!(all.player, Some(CurrentHealth(5)));
    assert_eq!(all.challengers, vec![CurrentHealth(2)]);
    let mut nobody = combatants(None, &[]);
    nobody.hit(Some(Target::Player), 9);
    assert_eq!(nobody.player, None);
    assert!(nobody.challengers.is_empty());
}

#[test]
fn completion_goes_on_while_somebody_on_each_side_stands() {
    assert_eq!(combatants(Some(5), &[2, 0]).completion(), Completion::Continue);
    assert_eq!(combatants(Some(1), &[0, 0, 1]).completion(), Completion::Continue);
    assert_eq!(combatants(None, &[3]).completion(), Completion::Continue);
}

#[test]
fn completion_is_a_success_when_every_challenger_is_down() {
    assert_eq!(combatants(Some(5), &[0]).completion(), Completion::Success);
    assert_eq!(combatants(Some(1), &[0, 0, 0]).completion(), Completion::Success);
    assert_eq!(combatants(Some(1), &[]).completion(), Completion::Success);
}

#[test]
fn completion_is_a_failure_when_the_player_is_down_whatever_else_holds() {
    assert_eq!(combatants(Some(0), &[2, 2]).completion(), Completion::Failure);
    assert_eq!(combatants(Some(0), &[0, 0]).completion(), Completion::Failure);
    assert_eq!(combatants(Some(0), &[]).completion(), Completion::Failure);
}
