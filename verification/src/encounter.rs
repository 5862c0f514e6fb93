//! An encounter from its first phase to its teardown.
//!
//! An [`Encounter`] holds everything that lives for one encounter: the
//! phase, the combatants, the powers on offer, the actions with the pools
//! they own, and the outcome on display. Every operation belongs to one
//! phase. Called in another phase, or with an index that names nothing, it
//! changes nothing: input is ignored until it fits the state again.
//!
//! Actions are published in two steps. Participants publish into a batch
//! that nothing reads; a flush moves the whole batch to the actions on
//! offer. Whoever reads the actions sees a batch entirely or not at all.

use crate::actions::{ActionChoice, ActionType, Resolution, Side};
use crate::combat::{
    challengers_after, combat_report, completion_of, player_after, reports, CombatReport,
    Combatants, Completion,
};
use crate::dice_pools::{borrow_all, pools_fit, pools_max, pools_min, DicePool};
use crate::powers::{Power, PowerTargetingType};
use crate::sequencing::{EncounterEvent, EncounterState};
use crate::simulation::{can_sample, samples_within, Histogram, SimulateDice};
use bevy_turborand::prelude::Rng;
use vstd::prelude::*;

verus! {

/// How many rolls a preview is made of.
pub const PREVIEW_SAMPLES: usize = 100;

/// What the player is choosing while the pools are set up.
#[derive(Clone, Copy, Debug, PartialEq, Eq, Structural)]
pub enum TargetingTypes {
    /// A power to spend.
    SelectPower,
    /// The target of the power in the given slot of the catalog.
    PowerTarget(PowerTargetingType, usize, Power),
}

impl Default for TargetingTypes {
    fn default() -> (targeting: Self)
        ensures
            targeting == TargetingTypes::SelectPower,
    {
        TargetingTypes::SelectPower
    }
}

/// The buttons of the pool setup. Powers, pools and actions are named by
/// their slot.
#[derive(Clone, Copy, Debug, PartialEq, Eq, Structural)]
pub enum Buttons {
    Resolve,
    Power(usize),
    Pool { pool: usize, action: usize },
    Action(usize),
}

impl Default for Buttons {
    fn default() -> (button: Self)
        ensures
            button == Buttons::Resolve,
    {
        Buttons::Resolve
    }
}

/// What is to be done about a button's focus.
#[derive(Clone, Copy, Debug, PartialEq, Eq, Structural)]
pub enum FocusChange {
    Keep,
    Unblock,
    Block,
}

impl Buttons {
    /// Whether the button can be focused: `Resolve` always, a power while
    /// one is being selected, an action or a pool while a power of that aim
    /// waits for its target.
    pub open spec fn spec_takes_focus(self, targeting: TargetingTypes) -> bool {
        match self {
            Buttons::Resolve => true,
            Buttons::Power(_) => targeting is SelectPower,
            Buttons::Action(_) => targeting matches TargetingTypes::PowerTarget(kind, _, _)
                && kind == PowerTargetingType::Action,
            Buttons::Pool { .. } => targeting matches TargetingTypes::PowerTarget(kind, _, _)
                && kind == PowerTargetingType::Single,
        }
    }

    /// Whether the button can be focused.
    pub fn takes_focus(&self, targeting: &TargetingTypes) -> (focus: bool)
        ensures
            focus == self.spec_takes_focus(*targeting),
    {
        match self {
            Buttons::Resolve => true,
            Buttons::Power(_) => match targeting {
                TargetingTypes::SelectPower => true,
                _ => false,
            },
            Buttons::Action(_) => match targeting {
                TargetingTypes::PowerTarget(PowerTargetingType::Action, _, _) => true,
                _ => false,
            },
            Buttons::Pool { .. } => match targeting {
                TargetingTypes::PowerTarget(PowerTargetingType::Single, _, _) => true,
                _ => false,
            },
        }
    }
}

/// What to do with a button that should take focus or not (`wanted`) and
/// that can be focused now or not (`focusable`).
pub fn focus_change(wanted: bool, focusable: bool) -> (change: FocusChange)
    ensures
        change == if wanted == focusable {
            FocusChange::Keep
        } else if wanted {
            FocusChange::Unblock
        } else {
            FocusChange::Block
        },
{
    if wanted == focusable {
        FocusChange::Keep
    } else if wanted {
        FocusChange::Unblock
    } else {
        FocusChange::Block
    }
}

/// A published action and what it owns: its pools while they are set up,
/// its resolution once it has been rolled.
#[derive(Debug)]
pub struct ActionRecord {
    pub choice: ActionChoice,
    pub side: Side,
    pub action_type: ActionType,
    /// The pools that the action holds now.
    pub pools: Vec<DicePool>,
    /// Whether the pools have changed since the last frame.
    pub just_updated: bool,
    pub resolution: Option<Resolution>,
}

impl ActionRecord {
    /// A record for an action that has just been published: no pools of its
    /// own yet and no resolution.
    pub fn new(choice: ActionChoice, side: Side, action_type: ActionType) -> (record: Self)
        ensures
            record.choice == choice,
            record.side == side,
            record.action_type == action_type,
            record.pools@.len() == 0,
            !record.just_updated,
            record.resolution is None,
    {
        ActionRecord {
            choice,
            side,
            action_type,
            pools: Vec::new(),
            just_updated: false,
            resolution: None,
        }
    }

    /// Whether `self` is `before` with fresh pools from its template.
    pub open spec fn is_set_up_from(&self, before: &ActionRecord) -> bool {
        &&& self.choice == before.choice
        &&& self.side == before.side
        &&& self.action_type == before.action_type
        &&& self.pools@ == before.choice.dice_pool@
        &&& self.just_updated
        &&& self.resolution == before.resolution
    }

    /// Whether `self` is `before` with the given pools, marked as changed.
    pub open spec fn is_repooled_from(&self, before: &ActionRecord, pools: Seq<DicePool>) -> bool {
        &&& self.choice == before.choice
        &&& self.side == before.side
        &&& self.action_type == before.action_type
        &&& self.pools@ == pools
        &&& self.just_updated
        &&& self.resolution == before.resolution
    }

    /// Whether `self` is `before` with the change mark taken off.
    pub open spec fn is_settled_from(&self, before: &ActionRecord) -> bool {
        &&& self.choice == before.choice
        &&& self.side == before.side
        &&& self.action_type == before.action_type
        &&& self.pools == before.pools
        &&& !self.just_updated
        &&& self.resolution == before.resolution
    }

    /// The smallest total that the pools of the action can give.
    pub open spec fn min_roll(&self) -> int {
        pools_min(self.pools@)
    }

    /// The largest total that the pools of the action can give.
    pub open spec fn max_roll(&self) -> int {
        pools_max(self.pools@)
    }

    /// Whether `self` is `before` rolled and judged: the pools are gone and
    /// the resolution holds a roll that the pools could give, judged against
    /// the thresholds of the action. An action that had its resolution
    /// already is left as it was.
    pub open spec fn is_resolved_from(&self, before: &ActionRecord) -> bool {
        if before.resolution is Some {
            *self == *before
        } else {
            &&& self.choice == before.choice
            &&& self.side == before.side
            &&& self.action_type == before.action_type
            &&& self.pools@.len() == 0
            &&& self.just_updated == before.just_updated
            &&& self.resolution matches Some(resolution)
            &&& before.min_roll() <= resolution.roll <= before.max_roll()
            &&& resolution == before.choice.spec_resolution(resolution.roll)
        }
    }
}

/// What a press of a button did.
#[derive(Clone, Copy, Debug, PartialEq, Eq, Structural)]
pub enum Pressed {
    /// Nothing: the button does not fit the state.
    Ignored,
    /// The player asks for the rolls. Nothing has changed yet.
    ResolveRequested,
    /// A power now waits for its target.
    PowerSelected,
    /// The waiting power has been spent on the target.
    PowerApplied,
}

/// The pools of an action after a power was spent on the pool in slot
/// `pool`: that pool leaves, and what the power makes of it joins at the end.
pub open spec fn pools_after_single(pools: Seq<DicePool>, pool: int, power: Power) -> Seq<DicePool> {
    pools.remove(pool) + power.spec_apply(seq![&pools[pool]])
}

/// The pools of an action after a power was spent on the action as a whole:
/// no pool leaves, and what the power makes of nothing joins at the end.
pub open spec fn pools_after_action(pools: Seq<DicePool>, power: Power) -> Seq<DicePool> {
    pools + power.spec_apply(Seq::empty())
}

/// Everything that lives for one encounter.
#[derive(Debug)]
pub struct Encounter {
    pub state: EncounterState,
    pub combatants: Combatants,
    /// The powers on offer. A power leaves when it is applied.
    pub powers: Vec<Power>,
    /// The batch of actions published since the last flush. Nothing reads it.
    pub published: Vec<ActionRecord>,
    /// The actions on offer. During `OutcomeResolution` the first of them is
    /// the one whose outcome is on display.
    pub actions: Vec<ActionRecord>,
    pub targeting: TargetingTypes,
    /// The combat report of the outcome on display, if it is an attack.
    pub report: Option<CombatReport>,
}

impl Encounter {
    /// Whether nothing but the phase differs between `self` and `other`.
    pub open spec fn same_contents(&self, other: &Encounter) -> bool {
        &&& self.combatants == other.combatants
        &&& self.powers == other.powers
        &&& self.published == other.published
        &&& self.actions == other.actions
        &&& self.targeting == other.targeting
        &&& self.report == other.report
    }

    /// Whether the encounter holds nothing.
    pub open spec fn is_cleared(&self) -> bool {
        &&& self.combatants.player is None
        &&& self.combatants.challengers@.len() == 0
        &&& self.powers@.len() == 0
        &&& self.published@.len() == 0
        &&& self.actions@.len() == 0
        &&& self.targeting == TargetingTypes::SelectPower
        &&& self.report is None
    }

    /// Whether the encounter holds only what belongs to its phase:
    ///
    /// - before anything is loaded it holds nothing;
    /// - a batch of published actions waits only during `ActionChoice`;
    /// - an outcome is on display only during `OutcomeResolution`, and then
    ///   every action that is left has been rolled;
    /// - a power waits for its target only during `ProbabilitySetup`;
    /// - no action is left over in `Introduction` or `EncounterResolved`.
    ///
    /// A new encounter does, and every operation keeps it so.
    pub open spec fn keeps_lifecycle(&self) -> bool {
        &&& self.state == EncounterState::Inactive || self.state == EncounterState::Loading
            ==> self.is_cleared()
        &&& self.state != EncounterState::ActionChoice ==> self.published@.len() == 0
        &&& self.state != EncounterState::OutcomeResolution ==> self.report is None
        &&& self.state == EncounterState::OutcomeResolution ==> forall|i: int|
            0 <= i < self.actions@.len() ==> (#[trigger] self.actions@[i]).resolution is Some
        &&& self.state != EncounterState::ProbabilitySetup ==> self.targeting
            == TargetingTypes::SelectPower
        &&& self.state == EncounterState::Introduction || self.state
            == EncounterState::EncounterResolved ==> self.actions@.len() == 0
    }

    /// An encounter that has not begun.
    pub fn new() -> (encounter: Self)
        ensures
            encounter.state == EncounterState::Inactive,
            encounter.is_cleared(),
            encounter.keeps_lifecycle(),
    {
        Encounter {
            state: EncounterState::Inactive,
            combatants: Combatants { player: None, challengers: Vec::new() },
            powers: Vec::new(),
            published: Vec::new(),
            actions: Vec::new(),
            targeting: TargetingTypes::SelectPower,
            report: None,
        }
    }

    /// Drops everything that the encounter holds.
    fn clear(&mut self)
        ensures
            final(self).is_cleared(),
            final(self).state == old(self).state,
    {
        self.combatants.player = None;
        self.combatants.challengers.clear();
        self.powers.clear();
        self.published.clear();
        self.actions.clear();
        self.targeting = TargetingTypes::SelectPower;
        self.report = None;
    }

    /// Starts loading once a setup is available: `Inactive` to `Loading`.
    pub fn begin(&mut self)
        ensures
            old(self).keeps_lifecycle() ==> final(self).keeps_lifecycle(),
            final(self).state == old(self).state.spec_next(EncounterEvent::SetupAvailable),
            final(self).same_contents(old(self)),
    {
        self.state = self.state.next(EncounterEvent::SetupAvailable);
    }

    /// Gives up loading because the setup is not there: `Loading` to
    /// `Inactive`.
    pub fn missing_setup(&mut self)
        ensures
            old(self).keeps_lifecycle() ==> final(self).keeps_lifecycle(),
            final(self).state == old(self).state.spec_next(EncounterEvent::SetupMissing),
            final(self).same_contents(old(self)),
    {
        self.state = self.state.next(EncounterEvent::SetupMissing);
    }

    /// Ends loading: `Loading` to `Introduction`, with the combatants and the
    /// powers that the encounter is played with. In any other phase nothing
    /// changes.
    pub fn loaded(&mut self, combatants: Combatants, powers: Vec<Power>)
        ensures
            old(self).keeps_lifecycle() ==> final(self).keeps_lifecycle(),
            final(self).state == old(self).state.spec_next(EncounterEvent::AssetsReady),
            old(self).state == EncounterState::Loading ==> {
                &&& final(self).combatants == combatants
                &&& final(self).powers == powers
                &&& final(self).published == old(self).published
                &&& final(self).actions == old(self).actions
                &&& final(self).targeting == old(self).targeting
                &&& final(self).report == old(self).report
            },
            old(self).state != EncounterState::Loading ==> final(self).same_contents(old(self)),
    {
        match self.state {
            EncounterState::Loading => {
                self.combatants = combatants;
                self.powers = powers;
                self.state = EncounterState::Introduction;
            },
            _ => {},
        }
    }

    /// The player confirms the introduction: `Introduction` to
    /// `ActionChoice`.
    pub fn confirm(&mut self)
        ensures
            old(self).keeps_lifecycle() ==> final(self).keeps_lifecycle(),
            final(self).state == old(self).state.spec_next(EncounterEvent::Confirmed),
            final(self).same_contents(old(self)),
    {
        self.state = self.state.next(EncounterEvent::Confirmed);
    }

    /// A participant publishes an action into the batch. The actions on
    /// offer do not change. Outside `ActionChoice` the action is dropped.
    pub fn publish(&mut self, action: ActionRecord)
        ensures
            old(self).keeps_lifecycle() ==> final(self).keeps_lifecycle(),
            final(self).state == old(self).state,
            final(self).combatants == old(self).combatants,
            final(self).powers == old(self).powers,
            final(self).actions == old(self).actions,
            final(self).targeting == old(self).targeting,
            final(self).report == old(self).report,
            final(self).published@ == if old(self).state == EncounterState::ActionChoice {
                old(self).published@.push(action)
            } else {
                old(self).published@
            },
    {
        match self.state {
            EncounterState::ActionChoice => {
                self.published.push(action);
            },
            _ => {},
        }
    }

    /// Moves the whole batch, in the order published, behind the actions on
    /// offer. Outside `ActionChoice` nothing changes.
    pub fn flush(&mut self)
        ensures
            old(self).keeps_lifecycle() ==> final(self).keeps_lifecycle(),
            final(self).state == old(self).state,
            final(self).combatants == old(self).combatants,
            final(self).powers == old(self).powers,
            final(self).targeting == old(self).targeting,
            final(self).report == old(self).report,
            old(self).state == EncounterState::ActionChoice ==> {
                &&& final(self).actions@ == old(self).actions@ + old(self).published@
                &&& final(self).published@.len() == 0
            },
            old(self).state != EncounterState::ActionChoice ==> {
                &&& final(self).actions == old(self).actions
                &&& final(self).published == old(self).published
            },
    {
        match self.state {
            EncounterState::ActionChoice => {
                self.actions.append(&mut self.published);
            },
            _ => {},
        }
    }

    /// Whether the player can go on to set up the pools: the phase is
    /// `ActionChoice` and no published action waits for a flush.
    pub open spec fn can_choose(&self) -> bool {
        self.state == EncounterState::ActionChoice && self.published@.len() == 0
    }

    /// The player goes on with the actions on offer: `ActionChoice` to
    /// `ProbabilitySetup`. Every action gets the pools of its template and
    /// counts as just changed. While a published action waits for a flush,
    /// or in another phase, nothing changes.
    pub fn choose_actions(&mut self) -> (chosen: bool)
        ensures
            old(self).keeps_lifecycle() ==> final(self).keeps_lifecycle(),
            chosen == old(self).can_choose(),
            !chosen ==> final(self).state == old(self).state && final(self).same_contents(old(self)),
            chosen ==> {
                &&& final(self).state == EncounterState::ProbabilitySetup
                &&& final(self).combatants == old(self).combatants
                &&& final(self).powers == old(self).powers
                &&& final(self).published == old(self).published
                &&& final(self).targeting == TargetingTypes::SelectPower
                &&& final(self).report == old(self).report
                &&& final(self).actions@.len() == old(self).actions@.len()
                &&& forall|i: int|
                    0 <= i < old(self).actions@.len() ==> (#[trigger] final(self).actions@[i]).is_set_up_from(
                        &old(self).actions@[i],
                    )
            },
    {
        match self.state {
            EncounterState::ActionChoice => {},
            _ => {
                return false;
            },
        }
        if self.published.len() > 0 {
            return false;
        }
        let mut i: usize = 0;
        while i < self.actions.len()
            invariant
                i <= self.actions@.len(),
                self.actions@.len() == old(self).actions@.len(),
                self.state == old(self).state,
                self.combatants == old(self).combatants,
                self.powers == old(self).powers,
                self.published == old(self).published,
                self.targeting == old(self).targeting,
                self.report == old(self).report,
                forall|k: int| 0 <= k < i ==> (#[trigger] self.actions@[k]).is_set_up_from(&old(self).actions@[k]),
                forall|k: int| i <= k < self.actions@.len() ==> self.actions@[k] == old(self).actions@[k],
            decreases self.actions@.len() - i,
        {
            let mut pools: Vec<DicePool> = Vec::new();
            let template = self.actions[i].choice.dice_pool.as_slice();
            let mut k: usize = 0;
            while k < template.len()
                invariant
                    k <= template@.len(),
                    pools@ == template@.take(k as int),
                decreases template@.len() - k,
            {
                pools.push(template[k]);
                k = k + 1;
                assert(pools@ =~= template@.take(k as int));
            }
            assert(template@.take(k as int) =~= template@);
            self.actions[i].pools = pools;
            self.actions[i].just_updated = true;
            i = i + 1;
        }
        self.targeting = TargetingTypes::SelectPower;
        self.state = EncounterState::ProbabilitySetup;
        true
    }

    /// Whether the waiting power is the one in its slot of the catalog and is
    /// aimed as `kind` says.
    pub open spec fn power_waits(&self, kind: PowerTargetingType) -> bool {
        &&& self.targeting matches TargetingTypes::PowerTarget(aim, slot, power)
        &&& aim == kind
        &&& slot < self.powers@.len()
        &&& self.powers@[slot as int] == power
    }

    /// What a press of `button` does in this state.
    pub open spec fn spec_pressed(&self, button: Buttons) -> Pressed {
        if self.state != EncounterState::ProbabilitySetup {
            Pressed::Ignored
        } else {
            match button {
                Buttons::Resolve => Pressed::ResolveRequested,
                Buttons::Power(slot) => if slot < self.powers@.len() {
                    Pressed::PowerSelected
                } else {
                    Pressed::Ignored
                },
                Buttons::Pool { pool, action } => if self.power_waits(PowerTargetingType::Single)
                    && action < self.actions@.len() && pool < self.actions@[action as int].pools@.len() {
                    Pressed::PowerApplied
                } else {
                    Pressed::Ignored
                },
                Buttons::Action(action) => if self.power_waits(PowerTargetingType::Action) && action
                    < self.actions@.len() {
                    Pressed::PowerApplied
                } else {
                    Pressed::Ignored
                },
            }
        }
    }

    /// Whether `self` is `before` after the waiting power was spent on the
    /// action in slot `action`, whose pools become `pools`: the power has
    /// left the catalog, the action is marked as changed, and the player is
    /// back to selecting a power.
    pub open spec fn is_spent_from(&self, before: &Encounter, action: int, pools: Seq<DicePool>) -> bool {
        &&& before.targeting matches TargetingTypes::PowerTarget(_, slot, _)
        &&& self.powers@ == before.powers@.remove(slot as int)
        &&& self.targeting == TargetingTypes::SelectPower
        &&& self.actions@.len() == before.actions@.len()
        &&& self.actions@[action].is_repooled_from(&before.actions@[action], pools)
        &&& forall|other: int|
            0 <= other < before.actions@.len() && other != action ==> self.actions@[other]
                == before.actions@[other]
    }

    /// Handles a press of a button of the pool setup.
    ///
    /// A power button makes that power wait for its target. A pool button
    /// spends a waiting `Single` power on that pool, an action button a
    /// waiting `Action` power on that action. `Resolve` is reported back and
    /// changes nothing: the rolls are made by [`Encounter::resolve`].
    /// Anything else is ignored.
    pub fn press(&mut self, button: Buttons) -> (pressed: Pressed)
        ensures
            old(self).keeps_lifecycle() ==> final(self).keeps_lifecycle(),
            pressed == old(self).spec_pressed(button),
            final(self).state == old(self).state,
            final(self).combatants == old(self).combatants,
            final(self).published == old(self).published,
            final(self).report == old(self).report,
            pressed == Pressed::Ignored || pressed == Pressed::ResolveRequested
                ==> final(self).same_contents(old(self)),
            pressed == Pressed::PowerSelected ==> {
                &&& button matches Buttons::Power(slot)
                &&& final(self).targeting == TargetingTypes::PowerTarget(
                    old(self).powers@[slot as int].spec_targets(),
                    slot,
                    old(self).powers@[slot as int],
                )
                &&& final(self).powers == old(self).powers
                &&& final(self).actions == old(self).actions
            },
            pressed == Pressed::PowerApplied ==> {
                &&& old(self).targeting matches TargetingTypes::PowerTarget(_, _, power)
                &&& match button {
                    Buttons::Pool { pool, action } => final(self).is_spent_from(
                        old(self),
                        action as int,
                        pools_after_single(
                            old(self).actions@[action as int].pools@,
                            pool as int,
                            power,
                        ),
                    ),
                    Buttons::Action(action) => final(self).is_spent_from(
                        old(self),
                        action as int,
                        pools_after_action(old(self).actions@[action as int].pools@, power),
                    ),
                    _ => false,
                }
            },
    {
        match self.state {
            EncounterState::ProbabilitySetup => {},
            _ => {
                return Pressed::Ignored;
            },
        }
        match button {
            Buttons::Resolve => Pressed::ResolveRequested,
            Buttons::Power(slot) => {
                if slot < self.powers.len() {
                    let power = self.powers[slot];
                    self.targeting = TargetingTypes::PowerTarget(power.targets(), slot, power);
                    Pressed::PowerSelected
                } else {
                    Pressed::Ignored
                }
            },
            Buttons::Pool { pool, action } => {
                match self.targeting {
                    TargetingTypes::PowerTarget(PowerTargetingType::Single, slot, power) => {
                        if slot < self.powers.len() && self.powers[slot] == power && action
                            < self.actions.len() && pool < self.actions[action].pools.len() {
                            let ghost before = self.actions@[action as int].pools@;
                            let target = self.actions[action].pools.remove(pool);
                            let mut targets: Vec<&DicePool> = Vec::new();
                            targets.push(&target);
                            assert(targets@ =~= seq![&before[pool as int]]);
                            let mut replacement = power.apply(targets.as_slice());
                            self.actions[action].pools.append(&mut replacement);
                            self.actions[action].just_updated = true;
                            self.powers.remove(slot);
                            self.targeting = TargetingTypes::SelectPower;
                            Pressed::PowerApplied
                        } else {
                            Pressed::Ignored
                        }
                    },
                    _ => Pressed::Ignored,
                }
            },
            Buttons::Action(action) => {
                match self.targeting {
                    TargetingTypes::PowerTarget(PowerTargetingType::Action, slot, power) => {
                        if slot < self.powers.len() && self.powers[slot] == power && action
                            < self.actions.len() {
                            let targets: Vec<&DicePool> = Vec::new();
                            assert(targets@ =~= Seq::empty());
                            let mut replacement = power.apply(targets.as_slice());
                            self.actions[action].pools.append(&mut replacement);
                            self.actions[action].just_updated = true;
                            self.powers.remove(slot);
                            self.targeting = TargetingTypes::SelectPower;
                            Pressed::PowerApplied
                        } else {
                            Pressed::Ignored
                        }
                    },
                    _ => Pressed::Ignored,
                }
            },
        }
    }

    /// Takes the change mark off every action, once a frame has shown the
    /// change.
    pub fn clear_updates(&mut self)
        ensures
            old(self).keeps_lifecycle() ==> final(self).keeps_lifecycle(),
            final(self).state == old(self).state,
            final(self).combatants == old(self).combatants,
            final(self).powers == old(self).powers,
            final(self).published == old(self).published,
            final(self).targeting == old(self).targeting,
            final(self).report == old(self).report,
            final(self).actions@.len() == old(self).actions@.len(),
            forall|i: int|
                0 <= i < old(self).actions@.len() ==> (#[trigger] final(self).actions@[i]).is_settled_from(
                    &old(self).actions@[i],
                ),
    {
        let mut i: usize = 0;
        while i < self.actions.len()
            invariant
                i <= self.actions@.len(),
                self.actions@.len() == old(self).actions@.len(),
                self.state == old(self).state,
                self.combatants == old(self).combatants,
                self.powers == old(self).powers,
                self.published == old(self).published,
                self.targeting == old(self).targeting,
                self.report == old(self).report,
                forall|k: int|
                    0 <= k < i ==> (#[trigger] self.actions@[k]).is_settled_from(
                        &old(self).actions@[k],
                    ),
                forall|k: int|
                    i <= k < self.actions@.len() ==> self.actions@[k] == old(self).actions@[k],
            decreases self.actions@.len() - i,
        {
            self.actions[i].just_updated = false;
            i = i + 1;
        }
    }

    /// Whether the pools of every action that waits for its roll give
    /// totals that fit the result type of a roll.
    pub open spec fn spec_is_rollable(&self) -> bool {
        forall|i: int|
            0 <= i < self.actions@.len() && (#[trigger] self.actions@[i]).resolution is None
                ==> self.actions@[i].max_roll() <= u8::MAX
    }

    /// Whether the pools of every action that waits for its roll give
    /// totals that fit the result type of a roll.
    pub fn is_rollable(&self) -> (rollable: bool)
        ensures
            rollable == self.spec_is_rollable(),
    {
        let mut i: usize = 0;
        while i < self.actions.len()
            invariant
                i <= self.actions@.len(),
                forall|k: int|
                    0 <= k < i && (#[trigger] self.actions@[k]).resolution is None
                        ==> self.actions@[k].max_roll() <= u8::MAX,
            decreases self.actions@.len() - i,
        {
            if self.actions[i].resolution.is_none() {
                let pools = borrow_all(&self.actions[i].pools);
                if !pools_fit(pools.as_slice()) {
                    assert(self.actions@[i as int].max_roll() > u8::MAX);
                    return false;
                }
            }
            i = i + 1;
        }
        true
    }

    /// Whether `self` shows the outcome of its first action, with the
    /// combatants having stood as `before`: the report is that of the first
    /// action, and its damage has been taken off its target. Without a first
    /// action that has been resolved there is no report and nobody is hurt.
    pub open spec fn shows_first(&self, before: &Combatants) -> bool {
        if self.actions@.len() > 0 && self.actions@[0].resolution is Some {
            let first = self.actions@[0];
            &&& reports(self.report, first.action_type, first.side, first.resolution->0.result)
            &&& match self.report {
                Some(report) => {
                    &&& self.combatants.player == player_after(
                        before.player,
                        report.target,
                        report.damage,
                    )
                    &&& self.combatants.challengers@ == challengers_after(
                        before.challengers@,
                        report.target,
                        report.damage,
                    )
                },
                None => self.combatants == *before,
            }
        } else {
            &&& self.report is None
            &&& self.combatants == *before
        }
    }

    /// Puts the outcome of the first action on display and applies it.
    fn show_first(&mut self)
        ensures
            final(self).state == old(self).state,
            final(self).powers == old(self).powers,
            final(self).published == old(self).published,
            final(self).actions == old(self).actions,
            final(self).targeting == old(self).targeting,
            final(self).shows_first(&old(self).combatants),
    {
        self.report = None;
        if self.actions.len() > 0 {
            match self.actions[0].resolution {
                Some(resolution) => {
                    let report = combat_report(
                        self.actions[0].action_type,
                        self.actions[0].side,
                        resolution.result,
                    );
                    match report {
                        Some(found) => {
                            self.combatants.hit(found.target, found.damage);
                        },
                        None => {},
                    }
                    self.report = report;
                },
                None => {},
            }
        }
    }

    /// Rolls and judges every action that has no resolution yet:
    /// `ProbabilitySetup` to `OutcomeResolution`. The pools are used up. The
    /// outcome of the first action goes on display and its damage is dealt at
    /// once. In any other phase nothing changes.
    pub fn resolve(&mut self, rng: &mut Rng) -> (resolved: bool)
        requires
            old(self).state == EncounterState::ProbabilitySetup ==> old(self).spec_is_rollable(),
        ensures
            old(self).keeps_lifecycle() ==> final(self).keeps_lifecycle(),
            resolved == (old(self).state == EncounterState::ProbabilitySetup),
            !resolved ==> {
                &&& final(self).state == old(self).state
                &&& final(self).same_contents(old(self))
            },
            resolved ==> {
                &&& final(self).state == EncounterState::OutcomeResolution
                &&& final(self).powers == old(self).powers
                &&& final(self).published == old(self).published
                &&& final(self).targeting == TargetingTypes::SelectPower
                &&& final(self).actions@.len() == old(self).actions@.len()
                &&& forall|i: int|
                    0 <= i < old(self).actions@.len() ==> (#[trigger] final(self).actions@[i]).is_resolved_from(
                        &old(self).actions@[i],
                    )
                &&& final(self).shows_first(&old(self).combatants)
            },
    {
        match self.state {
            EncounterState::ProbabilitySetup => {},
            _ => {
                return false;
            },
        }
        let mut i: usize = 0;
        while i < self.actions.len()
            invariant
                i <= self.actions@.len(),
                self.actions@.len() == old(self).actions@.len(),
                self.state == old(self).state,
                self.combatants == old(self).combatants,
                self.powers == old(self).powers,
                self.published == old(self).published,
                self.targeting == old(self).targeting,
                self.report == old(self).report,
                old(self).spec_is_rollable(),
                forall|k: int|
                    0 <= k < i ==> (#[trigger] self.actions@[k]).is_resolved_from(
                        &old(self).actions@[k],
                    ),
                forall|k: int|
                    i <= k < self.actions@.len() ==> self.actions@[k] == old(self).actions@[k],
            decreases self.actions@.len() - i,
        {
            if self.actions[i].resolution.is_none() {
                assert(old(self).actions@[i as int].max_roll() <= u8::MAX);
                let pools = borrow_all(&self.actions[i].pools);
                let resolution = self.actions[i].choice.resolve(pools.as_slice(), rng);
                self.actions[i].pools.clear();
                self.actions[i].resolution = Some(resolution);
            }
            i = i + 1;
        }
        self.targeting = TargetingTypes::SelectPower;
        self.state = EncounterState::OutcomeResolution;
        self.show_first();
        true
    }

    /// The player acknowledges the outcome on display. The action that it
    /// belongs to is used up.
    ///
    /// If the player is down, the encounter is resolved at once and the
    /// actions that are left are dropped. Otherwise the outcome of the next
    /// action goes on display and is applied. When no action is left, the
    /// encounter is resolved if every challenger is down, and goes back to
    /// `ActionChoice` if not. Outside `OutcomeResolution` nothing changes.
    pub fn acknowledge(&mut self)
        ensures
            old(self).keeps_lifecycle() ==> final(self).keeps_lifecycle(),
            final(self).powers == old(self).powers,
            final(self).published == old(self).published,
            final(self).targeting == old(self).targeting,
            old(self).state != EncounterState::OutcomeResolution ==> {
                &&& final(self).state == old(self).state
                &&& final(self).same_contents(old(self))
            },
            old(self).state == EncounterState::OutcomeResolution ==> {
                let standing = completion_of(
                    old(self).combatants.player,
                    old(self).combatants.challengers@,
                );
                if standing == Completion::Failure || old(self).actions@.len() <= 1 {
                    &&& final(self).state == EncounterState::OutcomeResolution.spec_next(
                        EncounterEvent::OutcomesAcknowledged(standing),
                    )
                    &&& final(self).actions@.len() == 0
                    &&& final(self).report is None
                    &&& final(self).combatants == old(self).combatants
                } else {
                    &&& final(self).state == EncounterState::OutcomeResolution
                    &&& final(self).actions@ == old(self).actions@.drop_first()
                    &&& final(self).shows_first(&old(self).combatants)
                }
            },
    {
        match self.state {
            EncounterState::OutcomeResolution => {},
            _ => {
                return ;
            },
        }
        let standing = self.combatants.completion();
        let failed = match standing {
            Completion::Failure => true,
            _ => false,
        };
        if failed || self.actions.len() <= 1 {
            self.actions.clear();
            self.report = None;
            self.state = self.state.next(EncounterEvent::OutcomesAcknowledged(standing));
        } else {
            self.actions.remove(0);
            assert(self.actions@ =~= old(self).actions@.drop_first());
            self.show_first();
        }
    }

    /// Clears a resolved encounter away: `EncounterResolved` to `Inactive`,
    /// with nothing left of it. In any other phase nothing changes.
    pub fn teardown(&mut self)
        ensures
            old(self).keeps_lifecycle() ==> final(self).keeps_lifecycle(),
            final(self).state == old(self).state.spec_next(EncounterEvent::Teardown),
            old(self).state == EncounterState::EncounterResolved ==> final(self).is_cleared(),
            old(self).state != EncounterState::EncounterResolved
                ==> final(self).same_contents(old(self)),
    {
        match self.state {
            EncounterState::EncounterResolved => {
                self.clear();
                self.state = EncounterState::Inactive;
            },
            _ => {},
        }
    }

    /// Drops the encounter, whatever phase it is in: nothing is left of it.
    pub fn cancel(&mut self)
        ensures
            old(self).keeps_lifecycle() ==> final(self).keeps_lifecycle(),
            final(self).state == EncounterState::Inactive,
            final(self).is_cleared(),
    {
        self.clear();
        self.state = EncounterState::Inactive;
    }

    /// Samples the pools of the action in slot `action` and tallies the
    /// totals, for the preview. There is none for a slot without an action.
    pub fn sample(&self, action: usize, rng: &mut Rng) -> (histogram: Option<Histogram>)
        requires
            action < self.actions@.len() ==> self.actions@[action as int].max_roll() <= u8::MAX,
        ensures
            action >= self.actions@.len() ==> histogram is None,
            action < self.actions@.len() ==> {
                &&& histogram matches Some(found)
                &&& exists|samples: Seq<u8>| #[trigger]
                    samples_within(
                        samples,
                        PREVIEW_SAMPLES as int,
                        self.actions@[action as int].min_roll(),
                        self.actions@[action as int].max_roll(),
                    ) && found.tallies(samples)
            },
    {
        if action >= self.actions.len() {
            return None;
        }
        let pools = borrow_all(&self.actions[action].pools);
        let all = pools.as_slice();
        let found = SimulateDice::<PREVIEW_SAMPLES>::simulate(&all, rng);
        proof {
            let samples = choose|samples: Seq<u8>| #[trigger]
                can_sample(&all, PREVIEW_SAMPLES as int, samples) && found.tallies(samples);
            assert(samples_within(
                samples,
                PREVIEW_SAMPLES as int,
                self.actions@[action as int].min_roll(),
                self.actions@[action as int].max_roll(),
            ));
        }
        Some(found)
    }

    /// How the encounter stands.
    pub fn completion(&self) -> (completion: Completion)
        ensures
            completion == completion_of(self.combatants.player, self.combatants.challengers@),
    {
        self.combatants.completion()
    }
}

} // verus!
