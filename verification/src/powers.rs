//! Powers: one-shot transformations of dice pools.
//!
//! A power never changes a pool in place. Given the pools it is aimed at, it
//! hands back the pools that take their place.

use crate::dice_pools::{
    lemma_bounds_of_one_more_pool, lemma_bounds_of_one_pool, pools_max, pools_min, DicePool,
    DicePoolType, DiceType, Icon, Roll,
};
use vstd::prelude::*;

verus! {

/// What a power is aimed at.
#[derive(Clone, Copy, Debug, PartialEq, Eq, Structural)]
pub enum PowerTargetingType {
    /// One chosen pool, which the power's output replaces.
    Single,
    /// An action as a whole: the output joins its pools and none is removed.
    Action,
}

impl Default for PowerTargetingType {
    fn default() -> (targeting: Self)
        ensures
            targeting == PowerTargetingType::Single,
    {
        PowerTargetingType::Single
    }
}

/// A transformation that a player can spend on their dice.
#[derive(Clone, Copy, Debug, PartialEq, Eq, Structural)]
pub enum Power {
    /// Splits a pool of two or more dice into two pools of the same die and
    /// mode. The first gets the larger half. A pool of fewer than two dice is
    /// left as it is, since an empty half would still roll a one.
    SplitDice,
    /// Puts a new additive pool of one die of the given type beside the pool.
    AddDice(DiceType),
    /// Turns the pool into an advantage pool.
    Advantage,
    /// Adds a pool of one constant die to the action.
    StaticBonus(u8),
}

impl Default for Power {
    fn default() -> (power: Self)
        ensures
            power == Power::StaticBonus(1),
    {
        Power::StaticBonus(1)
    }
}

/// How a power is drawn.
#[derive(Clone, Copy, Debug, PartialEq, Eq, Structural)]
pub enum PowerIcon {
    /// One icon.
    Plain(Icon),
    /// A plus sign and the icon of the die that is added.
    Plus(Icon),
}

/// The pool with its mode set to advantage.
pub open spec fn with_advantage(pool: DicePool) -> DicePool {
    DicePool { num_dice: pool.num_dice, dice: pool.dice, pool: DicePoolType::Advantage }
}

/// The pools that a split leaves in place of `pool`.
pub open spec fn split_pool(pool: DicePool) -> Seq<DicePool> {
    if pool.num_dice < 2 {
        seq![pool]
    } else {
        seq![
            DicePool {
                num_dice: (pool.num_dice - pool.num_dice / 2) as u8,
                dice: pool.dice,
                pool: pool.pool,
            },
            DicePool { num_dice: pool.num_dice / 2, dice: pool.dice, pool: pool.pool },
        ]
    }
}

/// Every pool turned into an advantage pool, in order.
pub open spec fn all_with_advantage(targets: Seq<&DicePool>) -> Seq<DicePool> {
    Seq::new(targets.len(), |i: int| with_advantage(*targets[i]))
}

/// Every pool split, in order.
pub open spec fn all_split(targets: Seq<&DicePool>) -> Seq<DicePool>
    decreases targets.len(),
{
    if targets.len() == 0 {
        Seq::empty()
    } else {
        all_split(targets.drop_last()) + split_pool(*targets.last())
    }
}

/// The pools as they are, in order.
pub open spec fn all_kept(targets: Seq<&DicePool>) -> Seq<DicePool> {
    Seq::new(targets.len(), |i: int| *targets[i])
}

/// A split keeps every die: the pieces have the die and the mode of the
/// pool and together as many dice as it had, and no piece is without dice
/// unless the pool was.
pub proof fn lemma_split_keeps_every_die(pool: DicePool)
    ensures
        forall|i: int|
            0 <= i < split_pool(pool).len() ==> (#[trigger] split_pool(pool)[i]).dice == pool.dice
                && split_pool(pool)[i].pool == pool.pool,
        pool.num_dice < 2 ==> split_pool(pool) == seq![pool],
        pool.num_dice >= 2 ==> {
            &&& split_pool(pool).len() == 2
            &&& split_pool(pool)[0].num_dice >= split_pool(pool)[1].num_dice >= 1
            &&& split_pool(pool)[0].num_dice + split_pool(pool)[1].num_dice == pool.num_dice
        },
{
}

/// A split of an additive pool leaves what the dice can roll together as it
/// was: the pieces have the bounds of the pool between them.
pub proof fn lemma_split_keeps_additive_bounds(pool: DicePool)
    requires
        pool.pool == DicePoolType::Additive,
    ensures
        pools_min(split_pool(pool)) == pool.min_roll(),
        pools_max(split_pool(pool)) == pool.max_roll(),
{
    let pieces = split_pool(pool);
    if pool.num_dice < 2 {
        lemma_bounds_of_one_pool(pool);
    } else {
        let first = pieces[0];
        let second = pieces[1];
        lemma_bounds_of_one_pool(first);
        lemma_bounds_of_one_more_pool(seq![first], second);
        assert(pieces =~= seq![first].push(second));
        let low = pool.dice.min_face();
        let high = pool.dice.max_face();
        assert(first.num_dice * low + second.num_dice * low == pool.num_dice * low
            && first.num_dice * high + second.num_dice * high == pool.num_dice * high)
            by (nonlinear_arith)
            requires
                first.num_dice + second.num_dice == pool.num_dice,
        ;
    }
}

/// Advantage never lets a pool roll more than its best die, nor less than
/// one.
pub proof fn lemma_advantage_bounds(pool: DicePool)
    ensures
        1 <= with_advantage(pool).min_roll(),
        with_advantage(pool).max_roll() <= if pool.dice.max_face() > 1 {
            pool.dice.max_face()
        } else {
            1
        },
{
}

impl Power {
    /// What the power is aimed at: `StaticBonus` at an action, every other
    /// power at a single pool.
    pub open spec fn spec_targets(self) -> PowerTargetingType {
        match self {
            Power::StaticBonus(_) => PowerTargetingType::Action,
            _ => PowerTargetingType::Single,
        }
    }

    /// What the power is aimed at.
    pub fn targets(&self) -> (targeting: PowerTargetingType)
        ensures
            targeting == self.spec_targets(),
    {
        match self {
            Power::StaticBonus(_) => PowerTargetingType::Action,
            _ => PowerTargetingType::Single,
        }
    }

    /// How the power is drawn: splitting and advantage have pictures of
    /// their own on the icon sheet, an added die shows behind a plus sign, a
    /// bonus is written out.
    pub open spec fn spec_icon(self) -> PowerIcon {
        match self {
            Power::SplitDice => PowerIcon::Plain(Icon::Atlas(8)),
            Power::AddDice(dice) => PowerIcon::Plus(dice.spec_icon()),
            Power::Advantage => PowerIcon::Plain(Icon::Atlas(9)),
            Power::StaticBonus(value) => PowerIcon::Plain(Icon::Bonus(value)),
        }
    }

    /// How the power is drawn.
    pub fn icon(&self) -> (icon: PowerIcon)
        ensures
            icon == self.spec_icon(),
    {
        match self {
            Power::SplitDice => PowerIcon::Plain(Icon::Atlas(8)),
            Power::AddDice(dice) => PowerIcon::Plus(dice.icon()),
            Power::Advantage => PowerIcon::Plain(Icon::Atlas(9)),
            Power::StaticBonus(value) => PowerIcon::Plain(Icon::Bonus(*value)),
        }
    }

    /// The pools that take the place of `targets` when the power is applied.
    pub open spec fn spec_apply(self, targets: Seq<&DicePool>) -> Seq<DicePool> {
        match self {
            Power::SplitDice => all_split(targets),
            Power::AddDice(dice) => all_kept(targets).push(
                DicePool { num_dice: 1, dice, pool: DicePoolType::Additive },
            ),
            Power::Advantage => all_with_advantage(targets),
            Power::StaticBonus(value) => all_kept(targets).push(
                DicePool {
                    num_dice: 1,
                    dice: DiceType::Static { value },
                    pool: DicePoolType::Additive,
                },
            ),
        }
    }

    /// Applies the power to the pools it is aimed at (one pool for a
    /// `Single` power, none for an `Action` power) and returns the pools
    /// that replace them.
    pub fn apply(&self, targets: &[&DicePool]) -> (replacement: Vec<DicePool>)
        ensures
            replacement@ == self.spec_apply(targets@),
    {
        let mut replacement: Vec<DicePool> = Vec::new();
        let mut i: usize = 0;
        match self {
            Power::SplitDice => {
                while i < targets.len()
                    invariant
                        i <= targets@.len(),
                        replacement@ == all_split(targets@.take(i as int)),
                    decreases targets@.len() - i,
                {
                    let pool = *targets[i];
                    proof {
                        assert(targets@.take(i as int + 1).drop_last() =~= targets@.take(i as int));
                    }
                    if pool.num_dice < 2 {
                        replacement.push(pool);
                    } else {
                        let small = pool.num_dice / 2;
                        replacement.push(
                            DicePool {
                                num_dice: pool.num_dice - small,
                                dice: pool.dice,
                                pool: pool.pool,
                            },
                        );
                        replacement.push(
                            DicePool { num_dice: small, dice: pool.dice, pool: pool.pool },
                        );
                    }
                    i = i + 1;
                    assert(replacement@ =~= all_split(targets@.take(i as int)));
                }
                assert(targets@.take(i as int) =~= targets@);
            },
            Power::Advantage => {
                while i < targets.len()
                    invariant
                        i <= targets@.len(),
                        replacement@ == all_with_advantage(targets@.take(i as int)),
                    decreases targets@.len() - i,
                {
                    let pool = *targets[i];
                    replacement.push(
                        DicePool {
                            num_dice: pool.num_dice,
                            dice: pool.dice,
                            pool: DicePoolType::Advantage,
                        },
                    );
                    i = i + 1;
                    assert(replacement@ =~= all_with_advantage(targets@.take(i as int)));
                }
                assert(targets@.take(i as int) =~= targets@);
            },
            Power::AddDice(_) | Power::StaticBonus(_) => {
                while i < targets.len()
                    invariant
                        i <= targets@.len(),
                        replacement@ == all_kept(targets@.take(i as int)),
                    decreases targets@.len() - i,
                {
                    replacement.push(*targets[i]);
                    i = i + 1;
                    assert(replacement@ =~= all_kept(targets@.take(i as int)));
                }
                assert(targets@.take(i as int) =~= targets@);
                let dice = match self {
                    Power::AddDice(dice) => *dice,
                    Power::StaticBonus(value) => DiceType::Static { value: *value },
                    _ => DiceType::D12,
                };
                replacement.push(DicePool { num_dice: 1, dice, pool: DicePoolType::Additive });
            },
        }
        replacement
    }
}

} // verus!
