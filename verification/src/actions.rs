//! Actions that can be contested, and how a roll is judged against them.

use crate::dice_pools::{DicePool, InitialPools, Roll};
use bevy_turborand::prelude::Rng;
use vstd::prelude::*;

verus! {

/// How an action turned out.
#[derive(Clone, Copy, Debug, PartialEq, Eq, Structural)]
pub enum ActionResult {
    CriticalFail,
    Fail,
    Success,
    CriticalSuccess,
}

/// Which side an action belongs to.
#[derive(Clone, Copy, Debug, PartialEq, Eq, Structural)]
pub enum Side {
    Player,
    Challenger,
}

/// Who an attack is aimed at.
#[derive(Clone, Copy, Debug, PartialEq, Eq, Structural)]
pub enum Target {
    Player,
    /// The challenger in the given slot.
    Challenger(usize),
}

/// What an action does once it is resolved.
#[derive(Clone, Copy, Debug, PartialEq, Eq, Structural)]
pub enum ActionType {
    /// Words only.
    Text,
    /// Damage to a target, scaled by how the action turned out.
    Attack { base_damage: u8, target: Option<Target> },
}

impl Default for ActionType {
    fn default() -> (action_type: Self)
        ensures
            action_type == ActionType::Text,
    {
        ActionType::Text
    }
}

/// An action on offer: what it says, the three thresholds that a roll is
/// judged against, and the pools it starts with.
///
/// The thresholds are taken as given. Nothing asks that
/// `fail <= success <= critical_success`; a roll is judged by comparing it
/// with `fail`, then `success`, then `critical_success`, in that order.
#[derive(Debug)]
pub struct ActionChoice {
    pub title: String,
    pub content: String,
    pub fail: u8,
    pub success: u8,
    pub critical_success: u8,
    pub dice_pool: InitialPools,
}

impl Default for ActionChoice {
    fn default() -> (choice: Self)
        ensures
            choice.title@ == "An Action"@,
            choice.content@ == Seq::<char>::empty(),
            choice.fail == 2,
            choice.success == 6,
            choice.critical_success == 9,
            choice.dice_pool@ == seq![DicePool::default_pool()],
    {
        ActionChoice {
            title: "An Action".to_owned(),
            content: String::new(),
            fail: 2,
            success: 6,
            critical_success: 9,
            dice_pool: InitialPools::default(),
        }
    }
}

/// The judged outcome of one roll: the roll, the result, and how far the roll
/// is from the threshold that decided it.
#[derive(Clone, Copy, Debug, PartialEq, Eq, Structural)]
pub struct Resolution {
    pub roll: u8,
    pub result: ActionResult,
    pub gap: u8,
}

/// The result and gap of `value` against the three thresholds.
pub open spec fn judged(fail: u8, success: u8, critical_success: u8, value: u8) -> (ActionResult, u8) {
    if value < fail {
        (ActionResult::CriticalFail, (fail - value) as u8)
    } else if value < success {
        (ActionResult::Fail, (success - value) as u8)
    } else if value < critical_success {
        (ActionResult::Success, (value - success) as u8)
    } else {
        (ActionResult::CriticalSuccess, (value - critical_success) as u8)
    }
}

impl ActionChoice {
    /// The result and gap of `value` against this action's thresholds.
    pub open spec fn outcome(&self, value: u8) -> (ActionResult, u8) {
        judged(self.fail, self.success, self.critical_success, value)
    }

    /// Judges a roll: below `fail` is a critical fail, below `success` a
    /// fail, below `critical_success` a success, anything else a critical
    /// success. The gap is the distance to the threshold that decided.
    pub fn evaluate(&self, value: u8) -> (outcome: (ActionResult, u8))
        ensures
            outcome == self.outcome(value),
    {
        if value < self.fail {
            (ActionResult::CriticalFail, self.fail - value)
        } else if value < self.success {
            (ActionResult::Fail, self.success - value)
        } else if value < self.critical_success {
            (ActionResult::Success, value - self.success)
        } else {
            (ActionResult::CriticalSuccess, value - self.critical_success)
        }
    }

    /// The resolution that a given roll leads to.
    pub open spec fn spec_resolution(&self, roll: u8) -> Resolution {
        Resolution { roll, result: self.outcome(roll).0, gap: self.outcome(roll).1 }
    }

    /// Judges a roll and records it.
    pub fn resolution(&self, roll: u8) -> (resolution: Resolution)
        ensures
            resolution == self.spec_resolution(roll),
    {
        let (result, gap) = self.evaluate(roll);
        Resolution { roll, result, gap }
    }

    /// Rolls the pools that the action holds now and judges the total.
    pub fn resolve(&self, pools: &[&DicePool], rng: &mut Rng) -> (resolution: Resolution)
        requires
            pools.max_roll() <= u8::MAX,
        ensures
            pools.min_roll() <= resolution.roll <= pools.max_roll(),
            resolution == self.spec_resolution(resolution.roll),
    {
        let roll = pools.roll(rng);
        self.resolution(roll)
    }
}

} // verus!
