//! Turning a judged action into damage, and damage into lost health.

use crate::actions::{ActionResult, ActionType, Side, Target};
use crate::text::{decimal, decimal_text};
use vstd::prelude::*;
use vstd::string::StringExecFns;

verus! {

/// The health that a combatant has left.
#[derive(Clone, Copy, Debug, PartialEq, Eq, Structural)]
pub struct CurrentHealth(pub usize);

/// The most health that a combatant can have.
#[derive(Clone, Copy, Debug, PartialEq, Eq, Structural)]
pub struct MaxHealth(pub usize);

/// The damage that an action of the given side deals.
///
/// A challenger hurts the player by failing: a fail deals the base damage
/// and a critical fail twice as much. A player hurts the target by
/// succeeding: a success deals the base damage and a critical success twice
/// as much.
pub open spec fn damage_of(side: Side, result: ActionResult, base_damage: u8) -> int {
    match side {
        Side::Challenger => match result {
            ActionResult::CriticalFail => 2 * base_damage,
            ActionResult::Fail => base_damage as int,
            ActionResult::Success => 0,
            ActionResult::CriticalSuccess => 0,
        },
        Side::Player => match result {
            ActionResult::CriticalFail => 0,
            ActionResult::Fail => 0,
            ActionResult::Success => base_damage as int,
            ActionResult::CriticalSuccess => 2 * base_damage,
        },
    }
}

/// Computes the damage that an action of the given side deals.
pub fn damage(side: Side, result: ActionResult, base_damage: u8) -> (dealt: usize)
    ensures
        dealt == damage_of(side, result, base_damage),
{
    let base = base_damage as usize;
    match side {
        Side::Challenger => match result {
            ActionResult::CriticalFail => base * 2,
            ActionResult::Fail => base,
            ActionResult::Success => 0,
            ActionResult::CriticalSuccess => 0,
        },
        Side::Player => match result {
            ActionResult::CriticalFail => 0,
            ActionResult::Fail => 0,
            ActionResult::Success => base,
            ActionResult::CriticalSuccess => base * 2,
        },
    }
}

/// The words that go with a result.
pub open spec fn text_of(result: ActionResult) -> Seq<char> {
    match result {
        ActionResult::CriticalFail => "Failed Badly"@,
        ActionResult::Fail => "Failed"@,
        ActionResult::Success => "Succeeded!"@,
        ActionResult::CriticalSuccess => "Amazing Success!"@,
    }
}

/// The words that go with a result.
pub fn result_text(result: ActionResult) -> (text: &'static str)
    ensures
        text@ == text_of(result),
{
    match result {
        ActionResult::CriticalFail => "Failed Badly",
        ActionResult::Fail => "Failed",
        ActionResult::Success => "Succeeded!",
        ActionResult::CriticalSuccess => "Amazing Success!",
    }
}

/// What an attack comes to: the words for its result, the damage, and the
/// target it is aimed at.
#[derive(Clone, Copy, Debug, PartialEq, Eq)]
pub struct CombatReport {
    pub text: &'static str,
    pub damage: usize,
    pub target: Option<Target>,
}

/// Whether `report` is what an action of the given type and side comes to
/// with the given result: nothing unless it is an attack, and for an attack
/// its damage, its target and the words for the result.
pub open spec fn reports(
    report: Option<CombatReport>,
    action_type: ActionType,
    side: Side,
    result: ActionResult,
) -> bool {
    match action_type {
        ActionType::Text => report is None,
        ActionType::Attack { base_damage, target } => {
            &&& report matches Some(found)
            &&& found.damage == damage_of(side, result, base_damage)
            &&& found.target == target
            &&& found.text@ == text_of(result)
        },
    }
}

/// The report of an action that has been judged. Only an attack has one.
pub fn combat_report(action_type: ActionType, side: Side, result: ActionResult) -> (report: Option<
    CombatReport,
>)
    ensures
        reports(report, action_type, side, result),
{
    match action_type {
        ActionType::Text => None,
        ActionType::Attack { base_damage, target } => Some(
            CombatReport {
                text: result_text(result),
                damage: damage(side, result, base_damage),
                target,
            },
        ),
    }
}

/// The line that tells who took how much damage.
pub open spec fn damage_line_of(side: Side, damage: usize) -> Seq<char> {
    match side {
        Side::Challenger => "Player took "@ + decimal_text(damage as nat),
        Side::Player => "Target took "@ + decimal_text(damage as nat),
    }
}

/// The line that tells who took how much damage. There is none where no
/// damage was dealt. A challenger's action hurts the player, a player's
/// action its target.
pub fn damage_line(side: Side, damage: usize) -> (line: Option<String>)
    ensures
        damage == 0 ==> line is None,
        damage > 0 ==> line is Some && line->0@ == damage_line_of(side, damage),
{
    if damage == 0 {
        return None;
    }
    let amount = decimal(damage);
    let start = match side {
        Side::Challenger => "Player took ",
        Side::Player => "Target took ",
    };
    Some(start.to_owned().concat(amount.as_str()))
}

/// The line that tells the roll.
pub fn roll_line(roll: u8) -> (line: String)
    ensures
        line@ == "Rolled a "@ + decimal_text(roll as nat),
{
    let amount = decimal(roll as usize);
    "Rolled a ".to_owned().concat(amount.as_str())
}

/// With the player down the encounter has failed, however the challengers
/// stand.
pub proof fn lemma_player_down_is_failure(challengers: Seq<CurrentHealth>)
    ensures
        completion_of(Some(CurrentHealth(0)), challengers) == Completion::Failure,
{
}

/// Damage of at least the health that is left brings it to zero, and only
/// such damage does.
pub proof fn lemma_down_at_enough_damage(health: CurrentHealth, damage: usize)
    ensures
        health.after(damage).0 == 0 <==> damage >= health.0,
        health.after(damage).0 <= health.0,
{
}

/// Once the last challenger that stood is brought down, with the player
/// standing, the encounter has succeeded.
pub proof fn lemma_last_challenger_down_is_success(
    player: CurrentHealth,
    challengers: Seq<CurrentHealth>,
    slot: usize,
    damage: usize,
)
    requires
        player.0 > 0,
        slot < challengers.len(),
        damage >= challengers[slot as int].0,
        forall|other: int|
            0 <= other < challengers.len() && other != slot ==> (#[trigger] challengers[other]).0
                == 0,
    ensures
        completion_of(
            Some(player),
            challengers_after(challengers, Some(Target::Challenger(slot)), damage),
        ) == Completion::Success,
{
    let after = challengers_after(challengers, Some(Target::Challenger(slot)), damage);
    assert forall|other: int| 0 <= other < after.len() implies (#[trigger] after[other]).0
        == 0 by {
        if other != slot {
            assert(challengers[other].0 == 0);
        }
    }
}

impl CurrentHealth {
    /// The health left after `damage`: never below zero.
    pub open spec fn after(self, damage: usize) -> CurrentHealth {
        if damage >= self.0 {
            CurrentHealth(0)
        } else {
            CurrentHealth((self.0 - damage) as usize)
        }
    }

    /// Takes `damage` off, stopping at zero.
    pub fn take(&mut self, damage: usize)
        ensures
            *final(self) == old(self).after(damage),
    {
        if damage >= self.0 {
            self.0 = 0;
        } else {
            self.0 = self.0 - damage;
        }
    }
}

/// How an encounter stands after an outcome.
#[derive(Clone, Copy, Debug, PartialEq, Eq, Structural)]
pub enum Completion {
    /// Nobody is down: another round follows.
    Continue,
    /// The player is down.
    Failure,
    /// Every challenger is down.
    Success,
}

/// Everybody in an encounter who has health.
#[derive(Debug)]
pub struct Combatants {
    pub player: Option<CurrentHealth>,
    pub challengers: Vec<CurrentHealth>,
}

/// Whether `target` names somebody among the combatants.
pub open spec fn is_present(
    player: Option<CurrentHealth>,
    challengers: Seq<CurrentHealth>,
    target: Option<Target>,
) -> bool {
    match target {
        None => false,
        Some(Target::Player) => player is Some,
        Some(Target::Challenger(slot)) => slot < challengers.len(),
    }
}

/// The player's health after `damage` to `target`.
pub open spec fn player_after(
    player: Option<CurrentHealth>,
    target: Option<Target>,
    damage: usize,
) -> Option<CurrentHealth> {
    match (target, player) {
        (Some(Target::Player), Some(health)) => Some(health.after(damage)),
        _ => player,
    }
}

/// The challengers' health after `damage` to `target`.
pub open spec fn challengers_after(
    challengers: Seq<CurrentHealth>,
    target: Option<Target>,
    damage: usize,
) -> Seq<CurrentHealth> {
    match target {
        Some(Target::Challenger(slot)) => if slot < challengers.len() {
            challengers.update(slot as int, challengers[slot as int].after(damage))
        } else {
            challengers
        },
        _ => challengers,
    }
}

/// How things stand: the player at zero is a failure whatever else holds;
/// otherwise every challenger at zero is a success; otherwise play goes on.
pub open spec fn completion_of(
    player: Option<CurrentHealth>,
    challengers: Seq<CurrentHealth>,
) -> Completion {
    if player == Some(CurrentHealth(0)) {
        Completion::Failure
    } else if forall|slot: int| 0 <= slot < challengers.len() ==> (#[trigger] challengers[slot]).0 == 0 {
        Completion::Success
    } else {
        Completion::Continue
    }
}

impl Combatants {
    /// Takes `damage` off the health of `target`. Without a target, or with
    /// one that is not there, nothing happens.
    pub fn hit(&mut self, target: Option<Target>, damage: usize)
        ensures
            final(self).player == player_after(old(self).player, target, damage),
            final(self).challengers@ == challengers_after(old(self).challengers@, target, damage),
    {
        match target {
            None => {},
            Some(Target::Player) => {
                match self.player {
                    Some(mut health) => {
                        health.take(damage);
                        self.player = Some(health);
                    },
                    None => {},
                }
            },
            Some(Target::Challenger(slot)) => {
                if slot < self.challengers.len() {
                    let mut health = self.challengers[slot];
                    health.take(damage);
                    self.challengers.set(slot, health);
                }
            },
        }
    }

    /// Checks whether the encounter is over.
    pub fn completion(&self) -> (completion: Completion)
        ensures
            completion == completion_of(self.player, self.challengers@),
    {
        match self.player {
            Some(health) => {
                if health.0 == 0 {
                    return Completion::Failure;
                }
            },
            None => {},
        }
        let mut slot: usize = 0;
        while slot < self.challengers.len()
            invariant
                slot <= self.challengers@.len(),
                self.player != Some(CurrentHealth(0)),
                forall|seen: int| 0 <= seen < slot ==> (#[trigger] self.challengers@[seen]).0 == 0,
            decreases self.challengers@.len() - slot,
        {
            if self.challengers[slot].0 > 0 {
                assert(self.challengers@[slot as int].0 != 0);
                return Completion::Continue;
            }
            slot = slot + 1;
        }
        Completion::Success
    }
}

} // verus!
