//! Blending a fresh preview into the one on display.
//!
//! Both previews list their values in ascending order. They are merged by
//! value: where a value is in both, the two heights are averaged with fixed
//! weights; where it is in one only, that height passes through unchanged.
//! Heights are not integers, so the merge here works on the values alone and
//! says, for each entry of the result, which heights it is made of.

use vstd::prelude::*;

verus! {

/// Weight of the fresh height in a blend.
pub const WEIGHT_FRESH: u32 = 1;

/// Weight of the displayed height in a blend. With twenty parts of history to
/// one part of news, the display follows a change slowly and does not jitter.
pub const WEIGHT_STORED: u32 = 20;

/// One entry of a merged preview: its value, and where its height comes from.
#[derive(Clone, Copy, Debug, PartialEq, Eq, Structural)]
pub enum Blend {
    /// Only the fresh preview has the value: entry `fresh` of it passes through.
    Fresh { value: u8, fresh: usize },
    /// Only the displayed preview has the value: entry `stored` of it passes
    /// through.
    Stored { value: u8, stored: usize },
    /// Both have the value: the height is
    /// `(fresh * WEIGHT_FRESH + stored * WEIGHT_STORED) / (WEIGHT_FRESH + WEIGHT_STORED)`.
    Both { value: u8, fresh: usize, stored: usize },
}

impl Blend {
    /// The value that the entry stands for.
    pub open spec fn spec_value(self) -> u8 {
        match self {
            Blend::Fresh { value, .. } => value,
            Blend::Stored { value, .. } => value,
            Blend::Both { value, .. } => value,
        }
    }

    /// The value that the entry stands for.
    pub fn value(&self) -> (value: u8)
        ensures
            value == self.spec_value(),
    {
        match self {
            Blend::Fresh { value, .. } => *value,
            Blend::Stored { value, .. } => *value,
            Blend::Both { value, .. } => *value,
        }
    }

    /// Which entry of the fresh preview the height draws on, if any.
    pub open spec fn fresh_source(self) -> Option<int> {
        match self {
            Blend::Fresh { fresh, .. } => Some(fresh as int),
            Blend::Stored { .. } => None,
            Blend::Both { fresh, .. } => Some(fresh as int),
        }
    }

    /// Which entry of the displayed preview the height draws on, if any.
    pub open spec fn stored_source(self) -> Option<int> {
        match self {
            Blend::Fresh { .. } => None,
            Blend::Stored { stored, .. } => Some(stored as int),
            Blend::Both { stored, .. } => Some(stored as int),
        }
    }
}

/// The merge of `fresh` from entry `i` on with `stored` from entry `j` on:
/// whichever side has the smaller next value goes first, equal values are
/// joined, and when one side runs out the rest of the other follows.
pub open spec fn merged_from(fresh: Seq<u8>, stored: Seq<u8>, i: int, j: int) -> Seq<Blend>
    recommends
        0 <= i <= fresh.len(),
        0 <= j <= stored.len(),
        fresh.len() <= usize::MAX,
        stored.len() <= usize::MAX,
    decreases fresh.len() - i + stored.len() - j,
{
    if i < 0 || j < 0 || i > fresh.len() || j > stored.len() {
        Seq::empty()
    } else if i == fresh.len() && j == stored.len() {
        Seq::empty()
    } else if i == fresh.len() {
        seq![Blend::Stored { value: stored[j], stored: j as usize }] + merged_from(
            fresh,
            stored,
            i,
            j + 1,
        )
    } else if j == stored.len() {
        seq![Blend::Fresh { value: fresh[i], fresh: i as usize }] + merged_from(
            fresh,
            stored,
            i + 1,
            j,
        )
    } else if fresh[i] < stored[j] {
        seq![Blend::Fresh { value: fresh[i], fresh: i as usize }] + merged_from(
            fresh,
            stored,
            i + 1,
            j,
        )
    } else if fresh[i] == stored[j] {
        seq![Blend::Both { value: fresh[i], fresh: i as usize, stored: j as usize }] + merged_from(
            fresh,
            stored,
            i + 1,
            j + 1,
        )
    } else {
        seq![Blend::Stored { value: stored[j], stored: j as usize }] + merged_from(
            fresh,
            stored,
            i,
            j + 1,
        )
    }
}

/// The merge of two whole previews.
pub open spec fn merged(fresh: Seq<u8>, stored: Seq<u8>) -> Seq<Blend> {
    merged_from(fresh, stored, 0, 0)
}

/// Merges the values of a fresh preview with those of the displayed one.
pub fn merge(fresh: &[u8], stored: &[u8]) -> (plan: Vec<Blend>)
    ensures
        plan@ == merged(fresh@, stored@),
{
    let mut plan: Vec<Blend> = Vec::new();
    let mut i: usize = 0;
    let mut j: usize = 0;
    while i < fresh.len() || j < stored.len()
        invariant
            i <= fresh@.len(),
            j <= stored@.len(),
            plan@ + merged_from(fresh@, stored@, i as int, j as int) == merged(fresh@, stored@),
        decreases fresh@.len() - i + stored@.len() - j,
    {
        let ghost rest = merged_from(fresh@, stored@, i as int, j as int);
        let ghost before = plan@;
        let step;
        if i >= fresh.len() {
            step = Blend::Stored { value: stored[j], stored: j };
            j = j + 1;
        } else if j >= stored.len() {
            step = Blend::Fresh { value: fresh[i], fresh: i };
            i = i + 1;
        } else if fresh[i] < stored[j] {
            step = Blend::Fresh { value: fresh[i], fresh: i };
            i = i + 1;
        } else if fresh[i] == stored[j] {
            step = Blend::Both { value: fresh[i], fresh: i, stored: j };
            i = i + 1;
            j = j + 1;
        } else {
            step = Blend::Stored { value: stored[j], stored: j };
            j = j + 1;
        }
        plan.push(step);
        proof {
            let tail = merged_from(fresh@, stored@, i as int, j as int);
            assert(rest == seq![step] + tail);
            assert(before.push(step) + tail =~= before + (seq![step] + tail));
        }
    }
    assert(plan@ + Seq::<Blend>::empty() =~= plan@);
    plan
}

/// A preview that has not been blended: every entry passes through.
pub open spec fn unblended(fresh: Seq<u8>) -> Seq<Blend> {
    Seq::new(fresh.len(), |i: int| Blend::Fresh { value: fresh[i], fresh: i as usize })
}

/// What goes on display this frame. Right after the pools of an action have
/// changed the fresh preview is shown as it is; otherwise it is blended into
/// the one on display.
pub fn preview(fresh: &[u8], stored: &[u8], just_updated: bool) -> (plan: Vec<Blend>)
    ensures
        plan@ == if just_updated {
            unblended(fresh@)
        } else {
            merged(fresh@, stored@)
        },
{
    if just_updated {
        let mut plan: Vec<Blend> = Vec::new();
        let mut i: usize = 0;
        while i < fresh.len()
            invariant
                i <= fresh@.len(),
                plan@ == unblended(fresh@.take(i as int)),
            decreases fresh@.len() - i,
        {
            plan.push(Blend::Fresh { value: fresh[i], fresh: i });
            i = i + 1;
            assert(plan@ =~= unblended(fresh@.take(i as int)));
        }
        assert(fresh@.take(i as int) =~= fresh@);
        plan
    } else {
        merge(fresh, stored)
    }
}

/// Whether each value is larger than the one before it.
pub open spec fn strictly_ascending(values: Seq<u8>) -> bool {
    forall|i: int, j: int| 0 <= i < j < values.len() ==> values[i] < values[j]
}

/// Whether an entry names heights that exist and belong to its value, and
/// passes a height through only where the other preview lacks the value.
pub open spec fn blend_is_sound(entry: Blend, fresh: Seq<u8>, stored: Seq<u8>) -> bool {
    match entry {
        Blend::Fresh { value, fresh: at } => {
            &&& at < fresh.len()
            &&& fresh[at as int] == value
            &&& !stored.contains(value)
        },
        Blend::Stored { value, stored: at } => {
            &&& at < stored.len()
            &&& stored[at as int] == value
            &&& !fresh.contains(value)
        },
        Blend::Both { value, fresh: at, stored: other } => {
            &&& at < fresh.len()
            &&& other < stored.len()
            &&& fresh[at as int] == value
            &&& stored[other as int] == value
        },
    }
}

/// Whether some entry of the plan draws on entry `at` of the fresh preview.
pub open spec fn draws_on_fresh(plan: Seq<Blend>, at: int) -> bool {
    exists|k: int| 0 <= k < plan.len() && (#[trigger] plan[k]).fresh_source() == Some(at)
}

/// Whether some entry of the plan draws on entry `at` of the displayed
/// preview.
pub open spec fn draws_on_stored(plan: Seq<Blend>, at: int) -> bool {
    exists|k: int| 0 <= k < plan.len() && (#[trigger] plan[k]).stored_source() == Some(at)
}

/// Whether `plan`, made from entry `i` of `fresh` and entry `j` of `stored`
/// on, joins the two by value.
pub open spec fn joins_from(
    plan: Seq<Blend>,
    fresh: Seq<u8>,
    stored: Seq<u8>,
    i: int,
    j: int,
) -> bool {
    &&& forall|k: int| 0 <= k < plan.len() ==> blend_is_sound(#[trigger] plan[k], fresh, stored)
    &&& forall|k: int|
        0 <= k < plan.len() ==> ((#[trigger] plan[k]).fresh_source() matches Some(at) ==> i <= at)
    &&& forall|k: int|
        0 <= k < plan.len() ==> ((#[trigger] plan[k]).stored_source() matches Some(at) ==> j <= at)
    &&& forall|a: int, b: int|
        0 <= a < b < plan.len() ==> plan[a].spec_value() < plan[b].spec_value()
    &&& forall|at: int| i <= at < fresh.len() ==> #[trigger] draws_on_fresh(plan, at)
    &&& forall|at: int| j <= at < stored.len() ==> #[trigger] draws_on_stored(plan, at)
}

/// Putting a sound entry, smaller than all that follow, in front of a plan
/// that joins the rest gives a plan that joins from the entry on.
proof fn lemma_joins_step(
    step: Blend,
    tail: Seq<Blend>,
    fresh: Seq<u8>,
    stored: Seq<u8>,
    i: int,
    j: int,
    i2: int,
    j2: int,
)
    requires
        0 <= i <= i2 <= i + 1,
        0 <= j <= j2 <= j + 1,
        joins_from(tail, fresh, stored, i2, j2),
        blend_is_sound(step, fresh, stored),
        i2 == i + 1 <==> step.fresh_source() == Some(i),
        i2 == i <==> step.fresh_source() is None,
        j2 == j + 1 <==> step.stored_source() == Some(j),
        j2 == j <==> step.stored_source() is None,
        forall|k: int| 0 <= k < tail.len() ==> step.spec_value() < (#[trigger] tail[k]).spec_value(),
    ensures
        joins_from(seq![step] + tail, fresh, stored, i, j),
{
    let plan = seq![step] + tail;
    assert forall|k: int| 0 <= k < plan.len() implies blend_is_sound(
        #[trigger] plan[k],
        fresh,
        stored,
    ) by {
        if k > 0 {
            assert(plan[k] == tail[k - 1]);
        }
    }
    assert forall|k: int| 0 <= k < plan.len() implies ((#[trigger] plan[k]).fresh_source() matches Some(
        at,
    ) ==> i <= at) by {
        if k > 0 {
            assert(plan[k] == tail[k - 1]);
        }
    }
    assert forall|k: int| 0 <= k < plan.len() implies ((#[trigger] plan[k]).stored_source() matches Some(
        at,
    ) ==> j <= at) by {
        if k > 0 {
            assert(plan[k] == tail[k - 1]);
        }
    }
    assert forall|a: int, b: int| 0 <= a < b < plan.len() implies plan[a].spec_value()
        < plan[b].spec_value() by {
        assert(plan[b] == tail[b - 1]);
        if a > 0 {
            assert(plan[a] == tail[a - 1]);
        }
    }
    assert forall|at: int| i <= at < fresh.len() implies #[trigger] draws_on_fresh(plan, at) by {
        if at >= i2 {
            assert(draws_on_fresh(tail, at));
            let k = choose|k: int|
                0 <= k < tail.len() && (#[trigger] tail[k]).fresh_source() == Some(at);
            assert(plan[k + 1] == tail[k]);
        } else {
            assert(plan[0] == step);
        }
    }
    assert forall|at: int| j <= at < stored.len() implies #[trigger] draws_on_stored(plan, at) by {
        if at >= j2 {
            assert(draws_on_stored(tail, at));
            let k = choose|k: int|
                0 <= k < tail.len() && (#[trigger] tail[k]).stored_source() == Some(at);
            assert(plan[k + 1] == tail[k]);
        } else {
            assert(plan[0] == step);
        }
    }
}

/// The merge from `(i, j)` on joins by value, when both previews ascend
/// strictly and everything before `i` and `j` is smaller than what follows
/// on the other side.
proof fn lemma_merged_from_joins(fresh: Seq<u8>, stored: Seq<u8>, i: int, j: int)
    requires
        strictly_ascending(fresh),
        strictly_ascending(stored),
        fresh.len() <= usize::MAX,
        stored.len() <= usize::MAX,
        0 <= i <= fresh.len(),
        0 <= j <= stored.len(),
        forall|a: int, b: int| 0 <= a < j && i <= b < fresh.len() ==> stored[a] < fresh[b],
        forall|a: int, b: int| 0 <= a < i && j <= b < stored.len() ==> fresh[a] < stored[b],
    ensures
        joins_from(merged_from(fresh, stored, i, j), fresh, stored, i, j),
    decreases fresh.len() - i + stored.len() - j,
{
    if i == fresh.len() && j == stored.len() {
    } else {
        let take_fresh = j == stored.len() || (i < fresh.len() && fresh[i] <= stored[j]);
        let take_stored = i == fresh.len() || (j < stored.len() && stored[j] <= fresh[i]);
        let i2 = if take_fresh {
            i + 1
        } else {
            i
        };
        let j2 = if take_stored {
            j + 1
        } else {
            j
        };
        let step = if take_fresh && take_stored {
            Blend::Both { value: fresh[i], fresh: i as usize, stored: j as usize }
        } else if take_fresh {
            Blend::Fresh { value: fresh[i], fresh: i as usize }
        } else {
            Blend::Stored { value: stored[j], stored: j as usize }
        };
        let tail = merged_from(fresh, stored, i2, j2);
        assert(merged_from(fresh, stored, i, j) == seq![step] + tail);
        lemma_merged_from_joins(fresh, stored, i2, j2);
        if take_fresh && !take_stored {
            assert forall|at: int| 0 <= at < stored.len() implies stored[at] != fresh[i] by {
                if at >= j {
                    assert(stored[j] <= stored[at]);
                }
            }
        }
        if take_stored && !take_fresh {
            assert forall|at: int| 0 <= at < fresh.len() implies fresh[at] != stored[j] by {
                if at >= i {
                    assert(fresh[i] <= fresh[at]);
                }
            }
        }
        assert forall|k: int| 0 <= k < tail.len() implies step.spec_value() < (
        #[trigger] tail[k]).spec_value() by {
            assert(blend_is_sound(tail[k], fresh, stored));
            match tail[k] {
                Blend::Fresh { value, fresh: at } => {
                    assert(tail[k].fresh_source() == Some(at as int));
                },
                Blend::Stored { value, stored: at } => {
                    assert(tail[k].stored_source() == Some(at as int));
                },
                Blend::Both { value, fresh: at, stored: other } => {
                    assert(tail[k].fresh_source() == Some(at as int));
                    assert(tail[k].stored_source() == Some(other as int));
                },
            }
        }
        lemma_joins_step(step, tail, fresh, stored, i, j, i2, j2);
    }
}

/// Merging two previews that each ascend strictly joins them by value: the
/// result ascends strictly, every entry of either preview is used exactly
/// where its value stands, a value that both have is blended, and a value
/// that one has alone passes through.
pub proof fn lemma_merge_joins_by_value(fresh: Seq<u8>, stored: Seq<u8>)
    requires
        strictly_ascending(fresh),
        strictly_ascending(stored),
        fresh.len() <= usize::MAX,
        stored.len() <= usize::MAX,
    ensures
        joins_from(merged(fresh, stored), fresh, stored, 0, 0),
{
    lemma_merged_from_joins(fresh, stored, 0, 0);
}

} // verus!
