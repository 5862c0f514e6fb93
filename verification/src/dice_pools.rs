//! Dice, pools of dice, and how a pool becomes one number.

use crate::random::draw_u8;
use bevy_turborand::prelude::Rng;
use vstd::prelude::*;

verus! {

/// Something that can be rolled into a single `u8`.
///
/// `min_roll` and `max_roll` bound every outcome.
pub trait Roll {
    /// The smallest total a roll can give.
    spec fn min_roll(&self) -> int;

    /// The largest total a roll can give.
    spec fn max_roll(&self) -> int;

    /// The bounds are ordered and never negative.
    proof fn lemma_roll_range(&self)
        ensures
            0 <= self.min_roll() <= self.max_roll(),
    ;

    /// Rolls once. The largest total must fit the result type.
    fn roll(&self, rng: &mut Rng) -> (total: u8)
        requires
            self.max_roll() <= u8::MAX,
        ensures
            self.min_roll() <= total <= self.max_roll(),
    ;
}

/// How a die or a power is drawn.
#[derive(Clone, Copy, Debug, PartialEq, Eq, Structural)]
pub enum Icon {
    /// The picture in the given place of the icon sheet.
    Atlas(usize),
    /// A bonus, written as a plus sign and the number.
    Bonus(u8),
}

/// One die: six sizes with faces `1..=n`, or a constant.
#[derive(Clone, Copy, Debug, PartialEq, Eq, Structural)]
pub enum DiceType {
    D2,
    D3,
    D4,
    D6,
    D8,
    D12,
    Static { value: u8 },
}

impl Default for DiceType {
    fn default() -> (dice: Self)
        ensures
            dice == DiceType::D12,
    {
        DiceType::D12
    }
}

impl DiceType {
    /// The smallest value the die can show.
    pub open spec fn min_face(self) -> int {
        match self {
            DiceType::Static { value } => value as int,
            _ => 1,
        }
    }

    /// The largest value the die can show.
    pub open spec fn max_face(self) -> int {
        match self {
            DiceType::D2 => 2,
            DiceType::D3 => 3,
            DiceType::D4 => 4,
            DiceType::D6 => 6,
            DiceType::D8 => 8,
            DiceType::D12 => 12,
            DiceType::Static { value } => value as int,
        }
    }

    /// Whether one throw of the die can come up `face`.
    pub open spec fn shows(self, face: int) -> bool {
        self.min_face() <= face <= self.max_face()
    }

    /// How the die is drawn: the six sizes have the first six pictures of
    /// the icon sheet, a constant is written out.
    pub open spec fn spec_icon(self) -> Icon {
        match self {
            DiceType::D2 => Icon::Atlas(0),
            DiceType::D3 => Icon::Atlas(1),
            DiceType::D4 => Icon::Atlas(2),
            DiceType::D6 => Icon::Atlas(3),
            DiceType::D8 => Icon::Atlas(4),
            DiceType::D12 => Icon::Atlas(5),
            DiceType::Static { value } => Icon::Bonus(value),
        }
    }

    /// How the die is drawn.
    pub fn icon(&self) -> (icon: Icon)
        ensures
            icon == self.spec_icon(),
    {
        match self {
            DiceType::D2 => Icon::Atlas(0),
            DiceType::D3 => Icon::Atlas(1),
            DiceType::D4 => Icon::Atlas(2),
            DiceType::D6 => Icon::Atlas(3),
            DiceType::D8 => Icon::Atlas(4),
            DiceType::D12 => Icon::Atlas(5),
            DiceType::Static { value } => Icon::Bonus(*value),
        }
    }

    /// The smallest value the die can show.
    pub fn smallest(&self) -> (face: u8)
        ensures
            face == self.min_face(),
    {
        match self {
            DiceType::Static { value } => *value,
            _ => 1,
        }
    }

    /// The largest value the die can show.
    pub fn largest(&self) -> (face: u8)
        ensures
            face == self.max_face(),
    {
        match self {
            DiceType::D2 => 2,
            DiceType::D3 => 3,
            DiceType::D4 => 4,
            DiceType::D6 => 6,
            DiceType::D8 => 8,
            DiceType::D12 => 12,
            DiceType::Static { value } => *value,
        }
    }
}

impl Roll for DiceType {
    open spec fn min_roll(&self) -> int {
        self.min_face()
    }

    open spec fn max_roll(&self) -> int {
        self.max_face()
    }

    proof fn lemma_roll_range(&self) {
    }

    /// Throws the die once. A `Static` die shows its value whatever the
    /// generator holds.
    fn roll(&self, rng: &mut Rng) -> (face: u8)
        ensures
            self matches DiceType::Static { value } ==> face == value,
    {
        match self {
            DiceType::Static { value } => *value,
            DiceType::D2 => draw_u8(rng, 1, 2),
            DiceType::D3 => draw_u8(rng, 1, 3),
            DiceType::D4 => draw_u8(rng, 1, 4),
            DiceType::D6 => draw_u8(rng, 1, 6),
            DiceType::D8 => draw_u8(rng, 1, 8),
            DiceType::D12 => draw_u8(rng, 1, 12),
        }
    }
}

/// How the dice of a pool combine.
#[derive(Clone, Copy, Debug, PartialEq, Eq, Structural)]
pub enum DicePoolType {
    /// The faces are added up.
    Additive,
    /// The best face counts.
    Advantage,
}

impl Default for DicePoolType {
    fn default() -> (pool: Self)
        ensures
            pool == DicePoolType::Additive,
    {
        DicePoolType::Additive
    }
}

/// A number of dice of one type and the rule that combines them.
#[derive(Clone, Copy, Debug, PartialEq, Eq, Structural)]
pub struct DicePool {
    pub num_dice: u8,
    pub dice: DiceType,
    pub pool: DicePoolType,
}

impl Default for DicePool {
    fn default() -> (pool: Self)
        ensures
            pool == DicePool::default_pool(),
    {
        DicePool { num_dice: 1, dice: DiceType::D12, pool: DicePoolType::Additive }
    }
}

/// The sum of the faces.
pub open spec fn sum_faces(faces: Seq<u8>) -> int
    decreases faces.len(),
{
    if faces.len() == 0 {
        0
    } else {
        sum_faces(faces.drop_last()) + faces.last() as int
    }
}

/// The best of the faces, starting from a baseline of one.
pub open spec fn best_face(faces: Seq<u8>) -> int
    decreases faces.len(),
{
    if faces.len() == 0 {
        1
    } else if faces.last() as int > best_face(faces.drop_last()) {
        faces.last() as int
    } else {
        best_face(faces.drop_last())
    }
}

impl DicePool {
    /// The pool that stands in where none is given: one additive twelve-sided
    /// die.
    pub open spec fn default_pool() -> DicePool {
        DicePool { num_dice: 1, dice: DiceType::D12, pool: DicePoolType::Additive }
    }

    /// Whether `faces` can be what the dice of this pool show in one throw:
    /// one face per die, each a face of the pool's die type.
    pub open spec fn can_throw(self, faces: Seq<u8>) -> bool {
        &&& faces.len() == self.num_dice
        &&& forall|i: int| 0 <= i < faces.len() ==> self.dice.shows(#[trigger] faces[i] as int)
    }

    /// What the pool is worth when its dice show `faces`. A pool without
    /// dice is worth one. An `Advantage` pool samples every one of its dice
    /// and never reports less than the baseline of one.
    pub open spec fn total_of(self, faces: Seq<u8>) -> int {
        if self.num_dice == 0 {
            1
        } else {
            match self.pool {
                DicePoolType::Additive => sum_faces(faces),
                DicePoolType::Advantage => best_face(faces),
            }
        }
    }

    /// Whether a roll of the pool can give `total`.
    pub open spec fn can_roll(self, total: int) -> bool {
        exists|faces: Seq<u8>| #[trigger] self.can_throw(faces) && total == self.total_of(faces)
    }

    /// Throws every die of the pool once, in order.
    pub fn throw(&self, rng: &mut Rng) -> (faces: Vec<u8>)
        ensures
            self.can_throw(faces@),
    {
        let mut faces: Vec<u8> = Vec::new();
        let mut thrown: u8 = 0;
        while thrown < self.num_dice
            invariant
                thrown <= self.num_dice,
                faces@.len() == thrown,
                forall|i: int| 0 <= i < faces@.len() ==> self.dice.shows(#[trigger] faces@[i] as int),
            decreases self.num_dice - thrown,
        {
            let face = self.dice.roll(rng);
            faces.push(face);
            thrown = thrown + 1;
        }
        faces
    }

    /// Combines the faces that the dice show into the pool's total.
    pub fn total(&self, faces: &[u8]) -> (total: u8)
        requires
            self.total_of(faces@) <= u8::MAX,
        ensures
            total == self.total_of(faces@),
    {
        if self.num_dice == 0 {
            return 1;
        }
        match self.pool {
            DicePoolType::Additive => {
                let mut result: u8 = 0;
                let mut i: usize = 0;
                while i < faces.len()
                    invariant
                        i <= faces@.len(),
                        result == sum_faces(faces@.take(i as int)),
                        sum_faces(faces@) <= u8::MAX,
                    decreases faces@.len() - i,
                {
                    proof {
                        lemma_sum_faces_prefix(faces@, i as int + 1);
                        assert(faces@.take(i as int + 1).drop_last() =~= faces@.take(i as int));
                    }
                    result = result + faces[i];
                    i = i + 1;
                }
                assert(faces@.take(i as int) =~= faces@);
                result
            },
            DicePoolType::Advantage => {
                let mut result: u8 = 1;
                let mut i: usize = 0;
                while i < faces.len()
                    invariant
                        i <= faces@.len(),
                        result == best_face(faces@.take(i as int)),
                    decreases faces@.len() - i,
                {
                    assert(faces@.take(i as int + 1).drop_last() =~= faces@.take(i as int));
                    if faces[i] > result {
                        result = faces[i];
                    }
                    i = i + 1;
                }
                assert(faces@.take(i as int) =~= faces@);
                result
            },
        }
    }

    /// The smallest total a roll of the pool can give.
    pub fn smallest(&self) -> (total: u16)
        ensures
            total == self.min_roll(),
    {
        if self.num_dice == 0 {
            return 1;
        }
        let face = self.dice.smallest() as u16;
        match self.pool {
            DicePoolType::Additive => {
                assert(self.num_dice * face <= 255 * 255) by (nonlinear_arith)
                    requires
                        0 <= self.num_dice <= 255,
                        0 <= face <= 255,
                ;
                self.num_dice as u16 * face
            },
            DicePoolType::Advantage => if face > 1 {
                face
            } else {
                1
            },
        }
    }

    /// The largest total a roll of the pool can give.
    pub fn largest(&self) -> (total: u16)
        ensures
            total == self.max_roll(),
    {
        if self.num_dice == 0 {
            return 1;
        }
        let face = self.dice.largest() as u16;
        match self.pool {
            DicePoolType::Additive => {
                assert(self.num_dice * face <= 255 * 255) by (nonlinear_arith)
                    requires
                        0 <= self.num_dice <= 255,
                        0 <= face <= 255,
                ;
                self.num_dice as u16 * face
            },
            DicePoolType::Advantage => if face > 1 {
                face
            } else {
                1
            },
        }
    }

    /// Every total that the dice can give lies between the pool's bounds.
    pub proof fn lemma_total_range(self, faces: Seq<u8>)
        requires
            self.can_throw(faces),
        ensures
            self.min_roll() <= self.total_of(faces) <= self.max_roll(),
    {
        if self.num_dice > 0 {
            lemma_sum_faces_range(faces, self.dice.min_face(), self.dice.max_face());
            lemma_best_face_range(faces, self.dice.min_face(), self.dice.max_face());
        }
    }
}

/// A prefix of the faces sums to no more than all of them.
proof fn lemma_sum_faces_prefix(faces: Seq<u8>, n: int)
    requires
        0 <= n <= faces.len(),
    ensures
        0 <= sum_faces(faces.take(n)) <= sum_faces(faces),
    decreases faces.len() - n,
{
    if n == faces.len() {
        assert(faces.take(n) =~= faces);
        lemma_sum_faces_nonnegative(faces);
    } else {
        lemma_sum_faces_prefix(faces, n + 1);
        assert(faces.take(n + 1).drop_last() =~= faces.take(n));
        lemma_sum_faces_nonnegative(faces.take(n));
    }
}

/// A sum of faces is never negative.
proof fn lemma_sum_faces_nonnegative(faces: Seq<u8>)
    ensures
        0 <= sum_faces(faces),
    decreases faces.len(),
{
    if faces.len() > 0 {
        lemma_sum_faces_nonnegative(faces.drop_last());
    }
}

/// Faces that each lie in `low..=high` sum to between `len * low` and
/// `len * high`.
proof fn lemma_sum_faces_range(faces: Seq<u8>, low: int, high: int)
    requires
        forall|i: int| 0 <= i < faces.len() ==> low <= #[trigger] faces[i] as int <= high,
    ensures
        faces.len() * low <= sum_faces(faces) <= faces.len() * high,
    decreases faces.len(),
{
    if faces.len() > 0 {
        let rest = faces.drop_last();
        assert forall|i: int| 0 <= i < rest.len() implies low <= #[trigger] rest[i] as int
            <= high by {
            assert(rest[i] == faces[i]);
        }
        lemma_sum_faces_range(rest, low, high);
        assert(faces.len() * low == rest.len() * low + low) by (nonlinear_arith)
            requires
                faces.len() == rest.len() + 1,
        ;
        assert(faces.len() * high == rest.len() * high + high) by (nonlinear_arith)
            requires
                faces.len() == rest.len() + 1,
        ;
    }
}

/// The best of one or more faces that each lie in `low..=high` lies between
/// the larger of one and `low`, and the larger of one and `high`.
proof fn lemma_best_face_range(faces: Seq<u8>, low: int, high: int)
    requires
        forall|i: int| 0 <= i < faces.len() ==> low <= #[trigger] faces[i] as int <= high,
    ensures
        1 <= best_face(faces),
        best_face(faces) <= if high > 1 { high } else { 1 },
        faces.len() > 0 ==> low <= best_face(faces),
    decreases faces.len(),
{
    if faces.len() > 0 {
        let rest = faces.drop_last();
        assert forall|i: int| 0 <= i < rest.len() implies low <= #[trigger] rest[i] as int
            <= high by {
            assert(rest[i] == faces[i]);
        }
        lemma_best_face_range(rest, low, high);
    }
}

/// `count` faces, each in `low..=high`, that sum to `total`: every face but
/// the last few is as low as can be.
pub open spec fn faces_summing_to(count: nat, low: int, high: int, total: int) -> Seq<u8>
    decreases count,
{
    if count == 0 {
        Seq::empty()
    } else {
        let last = if total - (count - 1) * low < high {
            total - (count - 1) * low
        } else {
            high
        };
        faces_summing_to((count - 1) as nat, low, high, total - last).push(last as u8)
    }
}

/// Any total between `count * low` and `count * high` is the sum of `count`
/// faces that each lie in `low..=high`.
proof fn lemma_faces_summing_to(count: nat, low: int, high: int, total: int)
    requires
        0 <= low <= high <= u8::MAX,
        count * low <= total <= count * high,
    ensures
        faces_summing_to(count, low, high, total).len() == count,
        forall|i: int|
            0 <= i < count ==> low <= (#[trigger] faces_summing_to(count, low, high, total)[i])
                <= high,
        sum_faces(faces_summing_to(count, low, high, total)) == total,
    decreases count,
{
    if count == 0 {
        assert(count * low == 0 && count * high == 0) by (nonlinear_arith)
            requires
                count == 0,
        ;
    } else {
        let rest = (count - 1) as nat;
        let last = if total - rest * low < high {
            total - rest * low
        } else {
            high
        };
        assert(count * low == rest * low + low && count * high == rest * high + high)
            by (nonlinear_arith)
            requires
                count == rest + 1,
        ;
        assert(rest * low <= rest * high) by (nonlinear_arith)
            requires
                0 <= rest,
                low <= high,
        ;
        lemma_faces_summing_to(rest, low, high, total - last);
        let before = faces_summing_to(rest, low, high, total - last);
        let faces = faces_summing_to(count, low, high, total);
        assert(faces == before.push(last as u8));
        assert(faces.drop_last() =~= before);
        assert(faces.last() == last);
        assert forall|i: int| 0 <= i < count implies low <= (#[trigger] faces[i]) <= high by {
            if i < rest {
                assert(faces[i] == before[i]);
            }
        }
    }
}

/// The best of one or more faces that all show `face` is `face`, or one if
/// that is more.
proof fn lemma_best_of_equal_faces(faces: Seq<u8>, face: u8)
    requires
        faces.len() > 0,
        forall|i: int| 0 <= i < faces.len() ==> #[trigger] faces[i] == face,
    ensures
        best_face(faces) == if face > 1 {
            face as int
        } else {
            1
        },
    decreases faces.len(),
{
    let rest = faces.drop_last();
    assert(faces.last() == face);
    if rest.len() > 0 {
        assert forall|i: int| 0 <= i < rest.len() implies #[trigger] rest[i] == face by {
            assert(rest[i] == faces[i]);
        }
        lemma_best_of_equal_faces(rest, face);
    }
}

impl DicePool {
    /// A pool can roll exactly the totals between its bounds: none outside
    /// them, and every one inside.
    pub proof fn lemma_rolls_fill_the_bounds(self, total: int)
        ensures
            self.can_roll(total) <==> self.min_roll() <= total <= self.max_roll(),
    {
        if self.can_roll(total) {
            let faces = choose|faces: Seq<u8>| #[trigger]
                self.can_throw(faces) && total == self.total_of(faces);
            self.lemma_total_range(faces);
        }
        if self.min_roll() <= total <= self.max_roll() {
            let low = self.dice.min_face();
            let high = self.dice.max_face();
            let count = self.num_dice as nat;
            if count == 0 {
                assert(self.can_throw(Seq::empty()));
            } else {
                match self.pool {
                    DicePoolType::Additive => {
                        lemma_faces_summing_to(count, low, high, total);
                        assert(self.can_throw(faces_summing_to(count, low, high, total)));
                    },
                    DicePoolType::Advantage => {
                        let face = if high >= 1 {
                            total as u8
                        } else {
                            0u8
                        };
                        let faces = Seq::new(count, |i: int| face);
                        lemma_best_of_equal_faces(faces, face);
                        assert(self.can_throw(faces));
                    },
                }
            }
        }
    }
}

impl Roll for DicePool {
    open spec fn min_roll(&self) -> int {
        if self.num_dice == 0 {
            1
        } else {
            match self.pool {
                DicePoolType::Additive => self.num_dice * self.dice.min_face(),
                DicePoolType::Advantage => if self.dice.min_face() > 1 {
                    self.dice.min_face()
                } else {
                    1
                },
            }
        }
    }

    open spec fn max_roll(&self) -> int {
        if self.num_dice == 0 {
            1
        } else {
            match self.pool {
                DicePoolType::Additive => self.num_dice * self.dice.max_face(),
                DicePoolType::Advantage => if self.dice.max_face() > 1 {
                    self.dice.max_face()
                } else {
                    1
                },
            }
        }
    }

    proof fn lemma_roll_range(&self) {
        assert(0 <= self.num_dice * self.dice.min_face() <= self.num_dice * self.dice.max_face())
            by (nonlinear_arith)
            requires
                0 <= self.dice.min_face() <= self.dice.max_face(),
                0 <= self.num_dice,
        ;
    }

    /// Rolls the pool. A pool without dice always gives one.
    fn roll(&self, rng: &mut Rng) -> (total: u8)
        ensures
            self.can_roll(total as int),
            self.num_dice == 0 ==> total == 1,
    {
        let faces = self.throw(rng);
        proof {
            self.lemma_total_range(faces@);
        }
        self.total(faces.as_slice())
    }
}

/// The pools that an action starts with.
#[derive(Debug)]
pub struct InitialPools(Vec<DicePool>);

impl View for InitialPools {
    type V = Seq<DicePool>;

    closed spec fn view(&self) -> Seq<DicePool> {
        self.0@
    }
}

impl Default for InitialPools {
    fn default() -> (pools: Self)
        ensures
            pools@ == seq![DicePool::default_pool()],
    {
        let mut pools: Vec<DicePool> = Vec::new();
        pools.push(DicePool::default());
        InitialPools(pools)
    }
}

impl InitialPools {
    /// Wraps the pools, keeping their order.
    pub fn new(pools: Vec<DicePool>) -> (initial: Self)
        ensures
            initial@ == pools@,
    {
        InitialPools(pools)
    }

    /// The pools, first to last.
    pub fn iter(&self) -> (pools: std::slice::Iter<'_, DicePool>)
        ensures
            vstd::std_specs::slice::into_iter_elts(pools) == self@,
    {
        self.0.iter()
    }

    /// The pools as a slice.
    pub fn as_slice(&self) -> (pools: &[DicePool])
        ensures
            pools@ == self@,
    {
        self.0.as_slice()
    }
}

/// The sum of the smallest totals of the items.
pub open spec fn sum_min_rolls<T: Roll>(items: Seq<&T>) -> int
    decreases items.len(),
{
    if items.len() == 0 {
        0
    } else {
        sum_min_rolls(items.drop_last()) + items.last().min_roll()
    }
}

/// The sum of the largest totals of the items.
pub open spec fn sum_max_rolls<T: Roll>(items: Seq<&T>) -> int
    decreases items.len(),
{
    if items.len() == 0 {
        0
    } else {
        sum_max_rolls(items.drop_last()) + items.last().max_roll()
    }
}

/// The summed bounds are ordered and never negative.
proof fn lemma_sum_rolls_ordered<T: Roll>(items: Seq<&T>)
    ensures
        0 <= sum_min_rolls(items) <= sum_max_rolls(items),
    decreases items.len(),
{
    if items.len() > 0 {
        lemma_sum_rolls_ordered(items.drop_last());
        items.last().lemma_roll_range();
    }
}

/// The bounds of a prefix are ordered, never negative, and no larger than
/// the largest total of all the items.
proof fn lemma_sum_rolls_prefix<T: Roll>(items: Seq<&T>, n: int)
    requires
        0 <= n <= items.len(),
    ensures
        0 <= sum_min_rolls(items.take(n)) <= sum_max_rolls(items.take(n)) <= sum_max_rolls(items),
    decreases items.len() - n,
{
    lemma_sum_rolls_ordered(items.take(n));
    if n == items.len() {
        assert(items.take(n) =~= items);
    } else {
        lemma_sum_rolls_prefix(items, n + 1);
        assert(items.take(n + 1).drop_last() =~= items.take(n));
        items.take(n + 1).last().lemma_roll_range();
    }
}

impl<T: Roll> Roll for &[&T] {
    /// Nothing to roll counts as one; otherwise the smallest totals add up.
    open spec fn min_roll(&self) -> int {
        if self@.len() == 0 {
            1
        } else {
            sum_min_rolls(self@)
        }
    }

    /// Nothing to roll counts as one; otherwise the largest totals add up.
    open spec fn max_roll(&self) -> int {
        if self@.len() == 0 {
            1
        } else {
            sum_max_rolls(self@)
        }
    }

    proof fn lemma_roll_range(&self) {
        lemma_sum_rolls_prefix(self@, self@.len() as int);
        assert(self@.take(self@.len() as int) =~= self@);
    }

    /// Rolls every item and adds the totals up. An empty slice gives one.
    fn roll(&self, rng: &mut Rng) -> (total: u8)
        ensures
            self@.len() == 0 ==> total == 1,
    {
        if self.len() == 0 {
            return 1;
        }
        let mut total: u8 = 0;
        let mut i: usize = 0;
        while i < self.len()
            invariant
                i <= self@.len(),
                sum_max_rolls(self@) <= u8::MAX,
                sum_min_rolls(self@.take(i as int)) <= total <= sum_max_rolls(self@.take(i as int)),
            decreases self@.len() - i,
        {
            proof {
                lemma_sum_rolls_prefix(self@, i as int + 1);
                lemma_sum_rolls_prefix(self@, i as int);
                assert(self@.take(i as int + 1).drop_last() =~= self@.take(i as int));
            }
            let rolled = self[i].roll(rng);
            total = total + rolled;
            i = i + 1;
        }
        assert(self@.take(i as int) =~= self@);
        total
    }
}

/// The smallest total of the pools together; one where there is none.
pub open spec fn pools_min(pools: Seq<DicePool>) -> int {
    if pools.len() == 0 {
        1
    } else {
        sum_min_rolls(pools.as_ref())
    }
}

/// The largest total of the pools together; one where there is none.
pub open spec fn pools_max(pools: Seq<DicePool>) -> int {
    if pools.len() == 0 {
        1
    } else {
        sum_max_rolls(pools.as_ref())
    }
}

/// The bounds of one pool alone are its own.
pub proof fn lemma_bounds_of_one_pool(pool: DicePool)
    ensures
        pools_min(seq![pool]) == pool.min_roll(),
        pools_max(seq![pool]) == pool.max_roll(),
{
    let borrowed = seq![pool].as_ref();
    assert(borrowed.drop_last() =~= Seq::<&DicePool>::empty());
    assert(*borrowed.last() == pool);
    assert(sum_min_rolls(borrowed) == sum_min_rolls(borrowed.drop_last())
        + borrowed.last().min_roll());
    assert(sum_max_rolls(borrowed) == sum_max_rolls(borrowed.drop_last())
        + borrowed.last().max_roll());
}

/// One more pool beside others adds its bounds to theirs.
pub proof fn lemma_bounds_of_one_more_pool(pools: Seq<DicePool>, pool: DicePool)
    requires
        pools.len() > 0,
    ensures
        pools_min(pools.push(pool)) == pools_min(pools) + pool.min_roll(),
        pools_max(pools.push(pool)) == pools_max(pools) + pool.max_roll(),
{
    let borrowed = pools.push(pool).as_ref();
    assert(borrowed.drop_last() =~= pools.as_ref());
    assert(*borrowed.last() == pool);
    assert(sum_min_rolls(borrowed) == sum_min_rolls(borrowed.drop_last())
        + borrowed.last().min_roll());
    assert(sum_max_rolls(borrowed) == sum_max_rolls(borrowed.drop_last())
        + borrowed.last().max_roll());
}

/// Whether a roll of all the pools together fits the result type.
pub fn pools_fit(pools: &[&DicePool]) -> (fit: bool)
    ensures
        fit == (pools.max_roll() <= u8::MAX),
{
    if pools.len() == 0 {
        return true;
    }
    let mut largest: u16 = 0;
    let mut i: usize = 0;
    while i < pools.len()
        invariant
            i <= pools@.len(),
            largest == sum_max_rolls(pools@.take(i as int)),
            largest <= u8::MAX,
        decreases pools@.len() - i,
    {
        proof {
            lemma_sum_rolls_prefix(pools@, i as int + 1);
            assert(pools@.take(i as int + 1).drop_last() =~= pools@.take(i as int));
            pools@[i as int].lemma_roll_range();
        }
        let next = pools[i].largest();
        if next > 255 - largest {
            return false;
        }
        largest = largest + next;
        i = i + 1;
    }
    assert(pools@.take(i as int) =~= pools@);
    true
}

/// Borrows every pool, in order.
pub fn borrow_all(pools: &Vec<DicePool>) -> (borrowed: Vec<&DicePool>)
    ensures
        borrowed@ == pools@.as_ref(),
{
    let mut borrowed: Vec<&DicePool> = Vec::new();
    let mut i: usize = 0;
    while i < pools.len()
        invariant
            i <= pools@.len(),
            borrowed@ == pools@.take(i as int).as_ref(),
        decreases pools@.len() - i,
    {
        borrowed.push(&pools[i]);
        i = i + 1;
        assert(borrowed@ =~= pools@.take(i as int).as_ref());
    }
    assert(pools@.take(i as int) =~= pools@);
    borrowed
}

} // verus!
