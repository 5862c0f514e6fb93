//! Sampling a roll many times and tallying what came up.
//!
//! A preview draws a fixed number of rolls, sorts them, and counts runs of
//! equal values. Bars are drawn relative to the tallest bucket, not to the
//! number of samples, so each bucket keeps its count next to the tallest
//! count: the height of a bar is `count / tallest`.

use crate::dice_pools::Roll;
use bevy_turborand::prelude::Rng;
use vstd::prelude::*;

verus! {

/// Whether the values never decrease from left to right.
pub open spec fn ascending(values: Seq<u8>) -> bool {
    forall|i: int, j: int| 0 <= i <= j < values.len() ==> values[i] <= values[j]
}

/// Exchanging two values of a sequence keeps every occurrence.
proof fn lemma_swap_keeps_values(values: Seq<u8>, i: int, j: int)
    requires
        0 <= i < values.len(),
        0 <= j < values.len(),
    ensures
        values.update(i, values[j]).update(j, values[i]).to_multiset() == values.to_multiset(),
{
    broadcast use vstd::multiset::group_multiset_axioms;

    let mid = values.update(i, values[j]);
    let all = values.to_multiset();
    vstd::seq_lib::to_multiset_update(values, i, values[j]);
    vstd::seq_lib::to_multiset_update(mid, j, values[i]);
    vstd::seq_lib::to_multiset_contains(values, values[i]);
    vstd::seq_lib::to_multiset_contains(values, values[j]);
    assert(values.contains(values[i]));
    assert(values.contains(values[j]));
    assert(mid[j] == values[j]);
    assert(all.insert(values[j]).remove(values[i]).insert(values[i]).remove(values[j]) =~= all);
}

/// Sorts the values in place, smallest first, keeping every occurrence.
pub fn sort_ascending(values: &mut Vec<u8>)
    ensures
        ascending(final(values)@),
        final(values)@.to_multiset() == old(values)@.to_multiset(),
        final(values)@.len() == old(values)@.len(),
{
    let n = values.len();
    let mut i: usize = 0;
    while i < n
        invariant
            values@.len() == n,
            i <= n,
            ascending(values@.take(i as int)),
            values@.to_multiset() == old(values)@.to_multiset(),
        decreases n - i,
    {
        let mut j: usize = i;
        assert forall|a: int, b: int| 0 <= a <= b < i implies values@[a] <= values@[b] by {
            assert(values@.take(i as int)[a] <= values@.take(i as int)[b]);
        }
        while j > 0 && values[j - 1] > values[j]
            invariant
                values@.len() == n,
                j <= i < n,
                values@.to_multiset() == old(values)@.to_multiset(),
                forall|a: int, b: int|
                    0 <= a <= b <= i && a != j && b != j ==> values@[a] <= values@[b],
                forall|b: int| j < b <= i ==> values@[j as int] <= values@[b],
            decreases j,
        {
            let ghost before = values@;
            let left = values[j - 1];
            let right = values[j];
            values.set(j - 1, right);
            values.set(j, left);
            proof {
                lemma_swap_keeps_values(before, j - 1, j as int);
                assert(values@ =~= before.update(j - 1, before[j as int]).update(
                    j as int,
                    before[j - 1],
                ));
            }
            j = j - 1;
        }
        let ghost sorted_part = values@.take(i + 1);
        assert forall|a: int, b: int| 0 <= a <= b < sorted_part.len() implies sorted_part[a]
            <= sorted_part[b] by {
            if a == j {
                if b != j {
                    assert(values@[j as int] <= values@[b]);
                }
            } else if b == j {
                assert(values@[a] <= values@[j - 1]);
            }
        }
        i = i + 1;
    }
    assert(values@.take(n as int) =~= values@);
}

/// The counts of all the buckets together.
pub open spec fn total_count(buckets: Seq<(u8, usize)>) -> int
    decreases buckets.len(),
{
    if buckets.len() == 0 {
        0
    } else {
        total_count(buckets.drop_last()) + buckets.last().1
    }
}

/// Whether `buckets` and `tallest` are the histogram of `samples`: one
/// bucket for each value that occurs, in ascending order of value, holding
/// the number of its occurrences, with `tallest` the largest of those
/// numbers (zero when nothing was sampled). Every sample is counted once.
pub open spec fn is_histogram(buckets: Seq<(u8, usize)>, tallest: int, samples: Seq<u8>) -> bool {
    let counts = samples.to_multiset();
    &&& total_count(buckets) == samples.len()
    &&& forall|i: int, j: int| 0 <= i < j < buckets.len() ==> buckets[i].0 < buckets[j].0
    &&& forall|i: int|
        0 <= i < buckets.len() ==> (#[trigger] buckets[i]).1 == counts.count(buckets[i].0)
    &&& forall|i: int| 0 <= i < buckets.len() ==> 0 < (#[trigger] buckets[i]).1 <= tallest
    &&& forall|value: u8|
        counts.count(value) > 0 ==> exists|i: int|
            0 <= i < buckets.len() && (#[trigger] buckets[i]).0 == value
    &&& buckets.len() == 0 ==> tallest == 0
    &&& buckets.len() > 0 ==> exists|i: int|
        0 <= i < buckets.len() && (#[trigger] buckets[i]).1 == tallest
}

/// How often each value came up, smallest value first, and the tallest
/// count among them.
#[derive(Debug)]
pub struct Histogram {
    /// One `(value, count)` pair for each value that came up.
    pub buckets: Vec<(u8, usize)>,
    /// The largest count of any bucket; zero when there is none.
    pub tallest: usize,
}

impl Histogram {
    /// Whether this is the histogram of `samples`.
    pub open spec fn tallies(&self, samples: Seq<u8>) -> bool {
        is_histogram(self.buckets@, self.tallest as int, samples)
    }
}

/// Nothing sampled gives the empty histogram.
proof fn lemma_histogram_of_nothing()
    ensures
        is_histogram(Seq::empty(), 0, Seq::empty()),
{
    assert forall|value: u8| Seq::<u8>::empty().to_multiset().count(value) == 0 by {
        vstd::seq_lib::to_multiset_contains(Seq::<u8>::empty(), value);
    }
}

/// One more sample of the value that the last bucket counts makes that
/// bucket one taller.
proof fn lemma_histogram_longer_run(
    buckets: Seq<(u8, usize)>,
    tallest: int,
    samples: Seq<u8>,
    value: u8,
)
    requires
        is_histogram(buckets, tallest, samples),
        buckets.len() > 0,
        buckets.last().0 == value,
        buckets.last().1 < usize::MAX,
    ensures
        is_histogram(
            buckets.update(buckets.len() - 1, (value, (buckets.last().1 + 1) as usize)),
            if buckets.last().1 + 1 > tallest {
                buckets.last().1 + 1
            } else {
                tallest
            },
            samples.push(value),
        ),
{
    let last = buckets.len() - 1;
    let count = (buckets.last().1 + 1) as usize;
    let after = buckets.update(last, (value, count));
    let top = if count > tallest {
        count as int
    } else {
        tallest
    };
    let more = samples.push(value);
    vstd::seq_lib::to_multiset_build(samples, value);
    assert(after.drop_last() =~= buckets.drop_last());
    assert(total_count(after) == total_count(buckets) + 1);
    assert forall|i: int| 0 <= i < after.len() implies (#[trigger] after[i]).1
        == more.to_multiset().count(after[i].0) by {
        if i < last {
            assert(after[i] == buckets[i]);
            assert(buckets[i].0 < buckets[last].0);
        }
    }
    assert forall|i: int| 0 <= i < after.len() implies 0 < (#[trigger] after[i]).1 <= top by {
        if i < last {
            assert(after[i] == buckets[i]);
        }
    }
    assert forall|other: u8| more.to_multiset().count(other) > 0 implies exists|i: int|
        0 <= i < after.len() && (#[trigger] after[i]).0 == other by {
        if other == value {
            assert(after[last].0 == other);
        } else {
            let i = choose|i: int| 0 <= i < buckets.len() && (#[trigger] buckets[i]).0 == other;
            assert(after[i].0 == other);
        }
    }
    if count == top {
        assert(after[last].1 == top);
    } else {
        let i = choose|i: int| 0 <= i < buckets.len() && (#[trigger] buckets[i]).1 == tallest;
        assert(after[i].1 == top);
    }
}

/// A sample larger than every value counted so far opens a bucket of its
/// own.
proof fn lemma_histogram_new_run(
    buckets: Seq<(u8, usize)>,
    tallest: int,
    samples: Seq<u8>,
    value: u8,
)
    requires
        is_histogram(buckets, tallest, samples),
        buckets.len() > 0 ==> buckets.last().0 < value,
    ensures
        is_histogram(
            buckets.push((value, 1)),
            if tallest < 1 {
                1
            } else {
                tallest
            },
            samples.push(value),
        ),
{
    let last = buckets.len() as int;
    let after = buckets.push((value, 1usize));
    let top = if tallest < 1 {
        1
    } else {
        tallest
    };
    let more = samples.push(value);
    vstd::seq_lib::to_multiset_build(samples, value);
    assert(after.drop_last() =~= buckets);
    assert(total_count(after) == total_count(buckets) + 1);
    if samples.to_multiset().count(value) > 0 {
        let i = choose|i: int| 0 <= i < buckets.len() && (#[trigger] buckets[i]).0 == value;
        if i < last - 1 {
            assert(buckets[i].0 < buckets[last - 1].0);
        }
        assert(false);
    }
    assert forall|i: int, j: int| 0 <= i < j < after.len() implies after[i].0 < after[j].0 by {
        if j == last {
            if i < last - 1 {
                assert(buckets[i].0 < buckets[last - 1].0);
            }
        } else {
            assert(buckets[i].0 < buckets[j].0);
        }
    }
    assert forall|i: int| 0 <= i < after.len() implies (#[trigger] after[i]).1
        == more.to_multiset().count(after[i].0) by {
        if i < last {
            assert(after[i] == buckets[i]);
        }
    }
    assert forall|i: int| 0 <= i < after.len() implies 0 < (#[trigger] after[i]).1 <= top by {
        if i < last {
            assert(after[i] == buckets[i]);
        }
    }
    assert forall|other: u8| more.to_multiset().count(other) > 0 implies exists|i: int|
        0 <= i < after.len() && (#[trigger] after[i]).0 == other by {
        if other == value {
            assert(after[last].0 == other);
        } else {
            let i = choose|i: int| 0 <= i < buckets.len() && (#[trigger] buckets[i]).0 == other;
            assert(after[i] == buckets[i]);
        }
    }
    if buckets.len() == 0 {
        assert(after[0].1 == top);
    } else {
        let i = choose|i: int| 0 <= i < buckets.len() && (#[trigger] buckets[i]).1 == tallest;
        assert(after[i] == buckets[i]);
    }
}

/// Two histograms of the same samples hold the same value in each place.
proof fn lemma_histogram_values_agree(
    first: Seq<(u8, usize)>,
    first_tallest: int,
    second: Seq<(u8, usize)>,
    second_tallest: int,
    samples: Seq<u8>,
    at: int,
)
    requires
        is_histogram(first, first_tallest, samples),
        is_histogram(second, second_tallest, samples),
        0 <= at < first.len(),
    ensures
        at < second.len(),
        second[at].0 == first[at].0,
    decreases at,
{
    let counts = samples.to_multiset();
    let value = first[at].0;
    assert(counts.count(value) == first[at].1);
    let other = choose|j: int| 0 <= j < second.len() && (#[trigger] second[j]).0 == value;
    if other < at {
        lemma_histogram_values_agree(
            first,
            first_tallest,
            second,
            second_tallest,
            samples,
            other,
        );
        assert(first[other].0 < first[at].0);
    } else if other > at {
        let skipped = second[at].0;
        assert(second[at].0 < second[other].0);
        assert(counts.count(skipped) == second[at].1);
        let back = choose|m: int| 0 <= m < first.len() && (#[trigger] first[m]).0 == skipped;
        if back > at {
            assert(first[at].0 < first[back].0);
        }
        assert(back < at);
        lemma_histogram_values_agree(first, first_tallest, second, second_tallest, samples, back);
        assert(second[back].0 < second[at].0);
    }
}

/// The samples decide their histogram: any two histograms of the same
/// samples are equal, bucket by bucket, and so is their tallest count.
pub proof fn lemma_histogram_is_unique(
    first: Seq<(u8, usize)>,
    first_tallest: int,
    second: Seq<(u8, usize)>,
    second_tallest: int,
    samples: Seq<u8>,
)
    requires
        is_histogram(first, first_tallest, samples),
        is_histogram(second, second_tallest, samples),
    ensures
        first == second,
        first_tallest == second_tallest,
{
    if first.len() < second.len() {
        lemma_histogram_values_agree(
            second,
            second_tallest,
            first,
            first_tallest,
            samples,
            first.len() as int,
        );
    }
    if second.len() < first.len() {
        lemma_histogram_values_agree(
            first,
            first_tallest,
            second,
            second_tallest,
            samples,
            second.len() as int,
        );
    }
    assert forall|at: int| 0 <= at < first.len() implies first[at] == second[at] by {
        lemma_histogram_values_agree(first, first_tallest, second, second_tallest, samples, at);
        assert(first[at].1 == samples.to_multiset().count(first[at].0));
        assert(second[at].1 == samples.to_multiset().count(second[at].0));
    }
    assert(first =~= second);
    if first.len() > 0 {
        let top = choose|i: int| 0 <= i < first.len() && (#[trigger] first[i]).1 == first_tallest;
        assert(second[top].1 <= second_tallest);
        let other = choose|i: int|
            0 <= i < second.len() && (#[trigger] second[i]).1 == second_tallest;
        assert(first[other].1 <= first_tallest);
    }
}

/// In the histogram of one or more samples no bucket is empty, none is
/// taller than the tallest, and one is the tallest. Drawn relative to the
/// tallest, every bar is higher than nothing and no higher than full, and
/// the highest bar is exactly full.
pub proof fn lemma_tallest_bar_is_full(buckets: Seq<(u8, usize)>, tallest: int, samples: Seq<u8>)
    requires
        is_histogram(buckets, tallest, samples),
        samples.len() > 0,
    ensures
        buckets.len() > 0,
        tallest > 0,
        forall|i: int| 0 <= i < buckets.len() ==> 0 < (#[trigger] buckets[i]).1 <= tallest,
        exists|i: int| 0 <= i < buckets.len() && (#[trigger] buckets[i]).1 == tallest,
{
    vstd::seq_lib::to_multiset_contains(samples, samples[0]);
    assert(samples.contains(samples[0]));
    let at = choose|i: int| 0 <= i < buckets.len() && (#[trigger] buckets[i]).0 == samples[0];
    assert(0 < buckets[at].1 <= tallest);
}

/// Counts runs of equal values in values that are already sorted.
fn run_lengths(sorted: &Vec<u8>) -> (histogram: Histogram)
    requires
        ascending(sorted@),
    ensures
        histogram.tallies(sorted@),
{
    let mut buckets: Vec<(u8, usize)> = Vec::new();
    let mut tallest: usize = 0;
    let mut i: usize = 0;
    proof {
        lemma_histogram_of_nothing();
        assert(sorted@.take(0) =~= Seq::empty());
    }
    while i < sorted.len()
        invariant
            i <= sorted@.len(),
            ascending(sorted@),
            is_histogram(buckets@, tallest as int, sorted@.take(i as int)),
            i > 0 ==> buckets@.len() > 0 && buckets@.last().0 == sorted@[i - 1],
            tallest <= i,
        decreases sorted@.len() - i,
    {
        let value = sorted[i];
        let last = buckets.len();
        proof {
            assert(sorted@.take(i as int + 1) =~= sorted@.take(i as int).push(value));
        }
        if last > 0 && buckets[last - 1].0 == value {
            let count = buckets[last - 1].1 + 1;
            proof {
                lemma_histogram_longer_run(buckets@, tallest as int, sorted@.take(i as int), value);
            }
            buckets.set(last - 1, (value, count));
            if count > tallest {
                tallest = count;
            }
        } else {
            proof {
                if i > 0 {
                    assert(sorted@[i - 1] <= sorted@[i as int]);
                }
                lemma_histogram_new_run(buckets@, tallest as int, sorted@.take(i as int), value);
            }
            buckets.push((value, 1));
            if tallest < 1 {
                tallest = 1;
            }
        }
        i = i + 1;
    }
    assert(sorted@.take(i as int) =~= sorted@);
    Histogram { buckets, tallest }
}

/// Builds the histogram of the samples: sorts them, then counts each run of
/// equal values.
pub fn tally(samples: Vec<u8>) -> (histogram: Histogram)
    ensures
        histogram.tallies(samples@),
{
    let mut sorted = samples;
    sort_ascending(&mut sorted);
    run_lengths(&sorted)
}

/// Whether there are `count` samples, each between `low` and `high`.
pub open spec fn samples_within(samples: Seq<u8>, count: int, low: int, high: int) -> bool {
    &&& samples.len() == count
    &&& forall|i: int| 0 <= i < samples.len() ==> low <= (#[trigger] samples[i]) <= high
}

/// Whether `samples` can be what `count` rolls of `source` give.
pub open spec fn can_sample<T: Roll>(source: &T, count: int, samples: Seq<u8>) -> bool {
    samples_within(samples, count, source.min_roll(), source.max_roll())
}

/// Rolls `source` `count` times and keeps every total, in the order drawn.
pub fn sample_rolls<T: Roll>(source: &T, count: usize, rng: &mut Rng) -> (samples: Vec<u8>)
    requires
        source.max_roll() <= u8::MAX,
    ensures
        can_sample(source, count as int, samples@),
{
    let mut samples: Vec<u8> = Vec::new();
    let mut drawn: usize = 0;
    while drawn < count
        invariant
            drawn <= count,
            source.max_roll() <= u8::MAX,
            can_sample(source, drawn as int, samples@),
        decreases count - drawn,
    {
        let total = source.roll(rng);
        samples.push(total);
        drawn = drawn + 1;
    }
    samples
}

/// Previews what a roll is likely to give, from `COUNT` samples.
pub trait SimulateDice<const COUNT: usize>: Roll + Sized {
    /// Draws `COUNT` rolls and builds their histogram.
    fn simulate(&self, rng: &mut Rng) -> (histogram: Histogram)
        requires
            self.max_roll() <= u8::MAX,
        ensures
            exists|samples: Seq<u8>| #[trigger]
                can_sample(self, COUNT as int, samples) && histogram.tallies(samples),
    ;
}

impl<T: Roll, const COUNT: usize> SimulateDice<COUNT> for T {
    fn simulate(&self, rng: &mut Rng) -> (histogram: Histogram) {
        let samples = sample_rolls(self, COUNT, rng);
        let ghost drawn = samples@;
        let histogram = tally(samples);
        assert(can_sample(self, COUNT as int, drawn) && histogram.tallies(drawn));
        histogram
    }
}

} // verus!
