//! The two sides of an encounter, what they start with, and the actions
//! they put on offer.

use crate::actions::{ActionChoice, ActionType, Side};
use crate::combat::{Combatants, CurrentHealth};
use crate::dice_pools::{DicePool, DicePoolType, DiceType, InitialPools};
use crate::encounter::ActionRecord;
use crate::powers::Power;
use crate::text::{decimal, decimal_text};
use vstd::prelude::*;
use vstd::string::StringExecFns;

verus! {

/// The health that a player enters an encounter with.
pub const PLAYER_HEALTH: usize = 5;

/// The most health that a player can have.
pub const PLAYER_MAX_HEALTH: usize = 7;

/// The health that a challenger enters an encounter with.
pub const CHALLENGER_HEALTH: usize = 2;

/// The most health that a challenger can have.
pub const CHALLENGER_MAX_HEALTH: usize = 5;

/// The player's character in an encounter.
#[derive(Debug)]
pub struct Player {
    pub name: String,
}

/// A challenger in an encounter, in the slot `id`.
#[derive(Debug)]
pub struct Challenger {
    pub id: usize,
    pub name: String,
}

/// A pool of one die of the given type, with the given mode.
fn one(dice: DiceType, pool: DicePoolType) -> (single: DicePool)
    ensures
        single == (DicePool { num_dice: 1, dice, pool }),
{
    DicePool { num_dice: 1, dice, pool }
}

/// The pools of the greeting: two eight-sided dice and a bonus of two.
pub open spec fn hello_pools() -> Seq<DicePool> {
    seq![
        DicePool { num_dice: 1, dice: DiceType::D8, pool: DicePoolType::Additive },
        DicePool { num_dice: 1, dice: DiceType::D8, pool: DicePoolType::Additive },
        DicePool { num_dice: 1, dice: DiceType::Static { value: 2 }, pool: DicePoolType::Additive },
    ]
}

/// The pools of the farewell: a six-sided die with advantage and an
/// eight-sided die.
pub open spec fn goodbye_pools() -> Seq<DicePool> {
    seq![
        DicePool { num_dice: 1, dice: DiceType::D6, pool: DicePoolType::Advantage },
        DicePool { num_dice: 1, dice: DiceType::D8, pool: DicePoolType::Additive },
    ]
}

impl Player {
    /// The greeting that the player can offer.
    pub fn hello(&self) -> (choice: ActionChoice)
        ensures
            choice.title@ == "Hello!"@,
            choice.content@ == "Say Hi as "@ + self.name@,
            choice.fail == 4,
            choice.success == 10,
            choice.critical_success == 15,
            choice.dice_pool@ == hello_pools(),
    {
        let mut pools: Vec<DicePool> = Vec::new();
        pools.push(one(DiceType::D8, DicePoolType::Additive));
        pools.push(one(DiceType::D8, DicePoolType::Additive));
        pools.push(one(DiceType::Static { value: 2 }, DicePoolType::Additive));
        assert(pools@ =~= hello_pools());
        ActionChoice {
            title: "Hello!".to_owned(),
            content: "Say Hi as ".to_owned().concat(self.name.as_str()),
            fail: 4,
            success: 10,
            critical_success: 15,
            dice_pool: InitialPools::new(pools),
        }
    }

    /// The farewell that the player can offer.
    pub fn goodbye(&self) -> (choice: ActionChoice)
        ensures
            choice.title@ == "Goodbye!"@,
            choice.content@ == "Say Bye as "@ + self.name@,
            choice.fail == 5,
            choice.success == 8,
            choice.critical_success == 10,
            choice.dice_pool@ == goodbye_pools(),
    {
        let mut pools: Vec<DicePool> = Vec::new();
        pools.push(one(DiceType::D6, DicePoolType::Advantage));
        pools.push(one(DiceType::D8, DicePoolType::Additive));
        assert(pools@ =~= goodbye_pools());
        ActionChoice {
            title: "Goodbye!".to_owned(),
            content: "Say Bye as ".to_owned().concat(self.name.as_str()),
            fail: 5,
            success: 8,
            critical_success: 10,
            dice_pool: InitialPools::new(pools),
        }
    }

    /// The actions that the player publishes when actions are chosen: the
    /// greeting, then the farewell.
    pub fn say_hello_action(&self) -> (actions: Vec<ActionRecord>)
        ensures
            actions@.len() == 2,
            actions@[0].choice.title@ == "Hello!"@,
            actions@[0].choice.content@ == "Say Hi as "@ + self.name@,
            actions@[0].choice.fail == 4,
            actions@[0].choice.success == 10,
            actions@[0].choice.critical_success == 15,
            actions@[0].choice.dice_pool@ == hello_pools(),
            actions@[1].choice.title@ == "Goodbye!"@,
            actions@[1].choice.content@ == "Say Bye as "@ + self.name@,
            actions@[1].choice.fail == 5,
            actions@[1].choice.success == 8,
            actions@[1].choice.critical_success == 10,
            actions@[1].choice.dice_pool@ == goodbye_pools(),
            forall|i: int|
                0 <= i < 2 ==> {
                    &&& (#[trigger] actions@[i]).side == Side::Player
                    &&& actions@[i].action_type == ActionType::Text
                    &&& actions@[i].pools@.len() == 0
                    &&& !actions@[i].just_updated
                    &&& actions@[i].resolution is None
                },
    {
        let mut actions: Vec<ActionRecord> = Vec::new();
        actions.push(ActionRecord::new(self.hello(), Side::Player, ActionType::Text));
        actions.push(ActionRecord::new(self.goodbye(), Side::Player, ActionType::Text));
        actions
    }
}

impl Challenger {
    /// What the challenger says: its name and its slot, in a sentence.
    pub open spec fn challenge_text(&self) -> Seq<char> {
        "I, "@ + self.name@ + " ("@ + decimal_text(self.id as nat)
            + "), Challenge you to a game of fiddlesticks!"@
    }

    /// The challenge that the challenger offers.
    pub fn challenge(&self) -> (choice: ActionChoice)
        ensures
            choice.title@ == "A CHALLENGE!"@,
            choice.content@ == self.challenge_text(),
            choice.fail == 4,
            choice.success == 10,
            choice.critical_success == 15,
            choice.dice_pool@ == seq![DicePool::default_pool()],
    {
        let id = decimal(self.id);
        let content = "I, ".to_owned().concat(self.name.as_str()).concat(" (").concat(
            id.as_str(),
        ).concat("), Challenge you to a game of fiddlesticks!");
        ActionChoice {
            title: "A CHALLENGE!".to_owned(),
            content,
            fail: 4,
            success: 10,
            critical_success: 15,
            dice_pool: InitialPools::default(),
        }
    }

    /// The action that the challenger publishes when actions are chosen.
    pub fn say_challenge_action(&self) -> (action: ActionRecord)
        ensures
            action.choice.title@ == "A CHALLENGE!"@,
            action.choice.content@ == self.challenge_text(),
            action.choice.fail == 4,
            action.choice.success == 10,
            action.choice.critical_success == 15,
            action.choice.dice_pool@ == seq![DicePool::default_pool()],
            action.side == Side::Challenger,
            action.action_type == ActionType::Text,
            action.pools@.len() == 0,
            !action.just_updated,
            action.resolution is None,
    {
        ActionRecord::new(self.challenge(), Side::Challenger, ActionType::Text)
    }
}

/// The powers that a player enters an encounter with.
pub fn starting_powers() -> (powers: Vec<Power>)
    ensures
        powers@ == seq![
            Power::SplitDice,
            Power::Advantage,
            Power::StaticBonus(2),
            Power::AddDice(DiceType::D3),
        ],
{
    let mut powers: Vec<Power> = Vec::new();
    powers.push(Power::SplitDice);
    powers.push(Power::Advantage);
    powers.push(Power::StaticBonus(2));
    powers.push(Power::AddDice(DiceType::D3));
    assert(powers@ =~= seq![
        Power::SplitDice,
        Power::Advantage,
        Power::StaticBonus(2),
        Power::AddDice(DiceType::D3),
    ]);
    powers
}

/// A player and the given number of challengers, each at the health it
/// enters with.
pub fn starting_combatants(challengers: usize) -> (combatants: Combatants)
    ensures
        combatants.player == Some(CurrentHealth(PLAYER_HEALTH)),
        combatants.challengers@ == Seq::new(
            challengers as nat,
            |slot: int| CurrentHealth(CHALLENGER_HEALTH),
        ),
{
    let mut all: Vec<CurrentHealth> = Vec::new();
    let mut slot: usize = 0;
    while slot < challengers
        invariant
            slot <= challengers,
            all@ == Seq::new(slot as nat, |slot: int| CurrentHealth(CHALLENGER_HEALTH)),
        decreases challengers - slot,
    {
        all.push(CurrentHealth(CHALLENGER_HEALTH));
        slot = slot + 1;
        assert(all@ =~= Seq::new(slot as nat, |slot: int| CurrentHealth(CHALLENGER_HEALTH)));
    }
    Combatants { player: Some(CurrentHealth(PLAYER_HEALTH)), challengers: all }
}

/// Whether the location has a place for the challenger in slot `slot`.
pub open spec fn has_place(places: Seq<bool>, slot: int) -> bool {
    0 <= slot < places.len() && places[slot]
}

/// How many challengers of a group of `count` get a slot, starting at
/// `slot`: one after the other, until the group is through, the slots run
/// out, or the location has no place for the next slot.
pub open spec fn seated(count: nat, slot: int, slots: int, places: Seq<bool>) -> nat
    decreases count,
{
    if count == 0 || slot >= slots || !has_place(places, slot) {
        0
    } else {
        1 + seated((count - 1) as nat, slot + 1, slots, places)
    }
}

/// The group of each challenger that gets a slot, slot by slot, for the
/// groups from `group` on and the slots from `slot` on. A group whose scene
/// is not available gets none.
pub open spec fn seats_from(
    groups: Seq<(usize, bool)>,
    group: int,
    slot: int,
    slots: int,
    places: Seq<bool>,
) -> Seq<usize>
    decreases groups.len() - group,
{
    if group < 0 || group >= groups.len() || slot >= slots {
        Seq::empty()
    } else if !groups[group].1 {
        seats_from(groups, group + 1, slot, slots, places)
    } else {
        let taken = seated(groups[group].0 as nat, slot, slots, places);
        Seq::new(taken, |i: int| group as usize) + seats_from(
            groups,
            group + 1,
            slot + taken,
            slots,
            places,
        )
    }
}

/// Decides which challengers enter the encounter.
///
/// `groups` lists, in order, how many challengers of a kind are wanted and
/// whether their scene is available. The location has `slots` slots, and
/// `places` says for each slot whether it has a place for a challenger.
/// The result holds, slot by slot from slot zero, the group that the
/// challenger in that slot belongs to.
pub fn seat_challengers(groups: &[(usize, bool)], slots: usize, places: &[bool]) -> (seats: Vec<
    usize,
>)
    ensures
        seats@ == seats_from(groups@, 0, 0, slots as int, places@),
{
    let mut seats: Vec<usize> = Vec::new();
    let mut slot: usize = 0;
    let mut group: usize = 0;
    while group < groups.len() && slot < slots
        invariant
            group <= groups@.len(),
            slot <= slots,
            slot == seats@.len(),
            seats@ + seats_from(groups@, group as int, slot as int, slots as int, places@)
                == seats_from(groups@, 0, 0, slots as int, places@),
        decreases groups@.len() - group,
    {
        let (count, available) = groups[group];
        if available {
            let ghost before = seats@;
            let ghost start = slot;
            let mut placed: usize = 0;
            while placed < count && slot < slots && slot < places.len() && places[slot]
                invariant
                    placed <= count,
                    slot <= slots,
                    slot == start + placed,
                    seats@ == before + Seq::new(placed as nat, |i: int| group),
                    seated(count as nat, start as int, slots as int, places@) == placed + seated(
                        (count - placed) as nat,
                        slot as int,
                        slots as int,
                        places@,
                    ),
                decreases count - placed,
            {
                seats.push(group);
                slot = slot + 1;
                placed = placed + 1;
                assert(seats@ =~= before + Seq::new(placed as nat, |i: int| group));
            }
            proof {
                let taken = seated(count as nat, start as int, slots as int, places@);
                assert(taken == placed);
                let rest = seats_from(
                    groups@,
                    group as int + 1,
                    slot as int,
                    slots as int,
                    places@,
                );
                assert(seats@ + rest =~= before + (Seq::new(placed as nat, |i: int| group) + rest));
            }
        }
        group = group + 1;
    }
    assert(seats@ + Seq::<usize>::empty() =~= seats@);
    seats
}

} // verus!
