//! The summaries of a job's outcomes: how often each outcome came, which came
//! most and least often, and the balance of zeros and ones per bit position.

use vstd::prelude::*;
use crate::outcome::{chars_of, texts_of};

verus! {

/// How many of `texts` equal `key`.
pub open spec fn occurrences(texts: Seq<Seq<char>>, key: Seq<char>) -> nat
    decreases texts.len(),
{
    if texts.len() == 0 {
        0
    } else {
        occurrences(texts.drop_last(), key) + if texts.last() == key {
            1nat
        } else {
            0nat
        }
    }
}

/// The frequency histogram of `texts`: each text that occurs, with the number
/// of times it occurs.
pub open spec fn histogram_of(texts: Seq<Seq<char>>) -> Map<Seq<char>, nat> {
    Map::new(|key: Seq<char>| occurrences(texts, key) > 0, |key: Seq<char>| occurrences(texts, key))
}

/// `key` occurs, and nothing occurs more often.
pub open spec fn is_most_frequent(texts: Seq<Seq<char>>, key: Seq<char>) -> bool {
    &&& occurrences(texts, key) > 0
    &&& forall|other: Seq<char>| #[trigger] occurrences(texts, other) <= occurrences(texts, key)
}

/// `key` occurs, and nothing that occurs does so less often.
pub open spec fn is_least_frequent(texts: Seq<Seq<char>>, key: Seq<char>) -> bool {
    &&& occurrences(texts, key) > 0
    &&& forall|other: Seq<char>| #[trigger]
        occurrences(texts, other) > 0 ==> occurrences(texts, key) <= occurrences(texts, other)
}

/// Nothing occurs more often than there are texts.
pub proof fn lemma_occurrences_bounded(texts: Seq<Seq<char>>, key: Seq<char>)
    ensures
        occurrences(texts, key) <= texts.len(),
    decreases texts.len(),
{
    if texts.len() > 0 {
        lemma_occurrences_bounded(texts.drop_last(), key);
    }
}

/// A text occurs exactly when it stands at some index.
pub proof fn lemma_occurs_iff_contained(texts: Seq<Seq<char>>, key: Seq<char>)
    ensures
        occurrences(texts, key) > 0 <==> texts.contains(key),
    decreases texts.len(),
{
    if texts.len() > 0 {
        let earlier = texts.drop_last();
        lemma_occurs_iff_contained(earlier, key);
        if earlier.contains(key) {
            let i = choose|i: int| 0 <= i < earlier.len() && earlier[i] == key;
            assert(texts[i] == key);
        }
        if texts.contains(key) && texts.last() != key {
            let i = choose|i: int| 0 <= i < texts.len() && texts[i] == key;
            assert(earlier[i] == key);
        }
        if texts.last() == key {
            assert(texts[texts.len() - 1] == key);
        }
    }
}

/// The distinct texts, each at the place of its first occurrence.
pub open spec fn first_seen(texts: Seq<Seq<char>>) -> Seq<Seq<char>>
    decreases texts.len(),
{
    if texts.len() == 0 {
        Seq::empty()
    } else {
        let earlier = first_seen(texts.drop_last());
        if earlier.contains(texts.last()) {
            earlier
        } else {
            earlier.push(texts.last())
        }
    }
}

/// `first_seen` lists every text that occurs, once.
pub proof fn lemma_first_seen(texts: Seq<Seq<char>>)
    ensures
        first_seen(texts).no_duplicates(),
        forall|key: Seq<char>| #[trigger]
            first_seen(texts).contains(key) <==> occurrences(texts, key) > 0,
    decreases texts.len(),
{
    if texts.len() > 0 {
        let earlier = first_seen(texts.drop_last());
        let last = texts.last();
        lemma_first_seen(texts.drop_last());
        if !earlier.contains(last) {
            let now = earlier.push(last);
            assert forall|key: Seq<char>| #[trigger]
                now.contains(key) <==> occurrences(texts, key) > 0 by {
                if now.contains(key) {
                    let i = choose|i: int| 0 <= i < now.len() && now[i] == key;
                    if i < earlier.len() {
                        assert(earlier[i] == key);
                    }
                }
                if earlier.contains(key) {
                    let i = choose|i: int| 0 <= i < earlier.len() && earlier[i] == key;
                    assert(now[i] == key);
                }
                if key == last {
                    assert(now[now.len() - 1] == key);
                }
            }
        }
    }
}

/// One line of a histogram.
#[derive(Debug, Clone)]
pub struct HistogramEntry {
    pub outcome: String,
    pub count: usize,
}

/// A frequency histogram: the distinct outcomes of a job, each with the
/// number of shots that gave it.
#[derive(Debug, Clone)]
pub struct Histogram {
    pub entries: Vec<HistogramEntry>,
}

impl HistogramEntry {
    /// A copy of the line.
    pub fn clone_entry(&self) -> (copy: HistogramEntry)
        ensures
            copy == *self,
    {
        HistogramEntry { outcome: self.outcome.clone(), count: self.count }
    }
}

impl Histogram {
    /// The outcomes of the lines, in the order of the lines.
    pub open spec fn keys(&self) -> Seq<Seq<char>> {
        Seq::new(self.entries@.len(), |i: int| self.entries@[i].outcome@)
    }

    /// No outcome has two lines, and no line counts zero.
    pub open spec fn wf(&self) -> bool {
        &&& self.keys().no_duplicates()
        &&& forall|i: int| 0 <= i < self.entries@.len() ==> (#[trigger] self.entries@[i]).count > 0
    }

    /// Whether this is the tally of `texts`: one line for each distinct text,
    /// in the order of first occurrence, with the number of its occurrences.
    pub open spec fn counts(&self, texts: Seq<Seq<char>>) -> bool {
        &&& self.keys() == first_seen(texts)
        &&& forall|i: int|
            0 <= i < self.entries@.len() ==> (#[trigger] self.entries@[i]).count == occurrences(
                texts,
                self.entries@[i].outcome@,
            )
    }

    /// Whether line `index` has the largest count, and is the first line that
    /// has it.
    pub open spec fn is_first_maximum(&self, index: int) -> bool {
        &&& 0 <= index < self.entries@.len()
        &&& forall|i: int|
            0 <= i < self.entries@.len() ==> (#[trigger] self.entries@[i]).count
                <= self.entries@[index].count
        &&& forall|i: int|
            0 <= i < index ==> (#[trigger] self.entries@[i]).count < self.entries@[index].count
    }

    /// Whether line `index` has the smallest count, and is the first line
    /// that has it.
    pub open spec fn is_first_minimum(&self, index: int) -> bool {
        &&& 0 <= index < self.entries@.len()
        &&& forall|i: int|
            0 <= i < self.entries@.len() ==> (#[trigger] self.entries@[i]).count
                >= self.entries@[index].count
        &&& forall|i: int|
            0 <= i < index ==> (#[trigger] self.entries@[i]).count > self.entries@[index].count
    }

    /// The line with the largest count; of several, the first.
    pub fn first_maximum(&self) -> (index: usize)
        requires
            self.entries@.len() > 0,
        ensures
            self.is_first_maximum(index as int),
    {
        let mut best: usize = 0;
        let mut i: usize = 1;
        while i < self.entries.len()
            invariant
                1 <= i <= self.entries@.len(),
                best < i,
                forall|m: int| 0 <= m < i ==> (#[trigger] self.entries@[m]).count
                    <= self.entries@[best as int].count,
                forall|m: int| 0 <= m < best ==> (#[trigger] self.entries@[m]).count
                    < self.entries@[best as int].count,
            decreases self.entries@.len() - i,
        {
            if self.entries[i].count > self.entries[best].count {
                best = i;
            }
            i += 1;
        }
        best
    }

    /// The line with the smallest count; of several, the first.
    pub fn first_minimum(&self) -> (index: usize)
        requires
            self.entries@.len() > 0,
        ensures
            self.is_first_minimum(index as int),
    {
        let mut best: usize = 0;
        let mut i: usize = 1;
        while i < self.entries.len()
            invariant
                1 <= i <= self.entries@.len(),
                best < i,
                forall|m: int| 0 <= m < i ==> (#[trigger] self.entries@[m]).count
                    >= self.entries@[best as int].count,
                forall|m: int| 0 <= m < best ==> (#[trigger] self.entries@[m]).count
                    > self.entries@[best as int].count,
            decreases self.entries@.len() - i,
        {
            if self.entries[i].count < self.entries[best].count {
                best = i;
            }
            i += 1;
        }
        best
    }
}

impl View for Histogram {
    type V = Map<Seq<char>, nat>;

    open spec fn view(&self) -> Map<Seq<char>, nat> {
        Map::new(
            |key: Seq<char>| self.keys().contains(key),
            |key: Seq<char>| self.entries@[self.keys().index_of(key)].count as nat,
        )
    }
}

/// The tally of `texts` is well formed, and as a map it is the histogram of
/// `texts`.
pub proof fn lemma_tally_is_histogram(h: Histogram, texts: Seq<Seq<char>>)
    requires
        h.counts(texts),
    ensures
        h.wf(),
        h@ == histogram_of(texts),
{
    lemma_first_seen(texts);
    assert forall|i: int| 0 <= i < h.entries@.len() implies (#[trigger] h.entries@[i]).count
        > 0 by {
        assert(first_seen(texts).contains(h.keys()[i]));
    }
    assert(h@ =~= histogram_of(texts));
}

/// In the tally of `texts`, the first line with the largest count holds a
/// text that occurs most often, and the first with the smallest count one
/// that occurs least often.
pub proof fn lemma_extremes_of_tally(h: Histogram, texts: Seq<Seq<char>>, index: int)
    requires
        h.counts(texts),
        0 <= index < h.entries@.len(),
    ensures
        h.is_first_maximum(index) ==> is_most_frequent(texts, h.entries@[index].outcome@),
        h.is_first_minimum(index) ==> is_least_frequent(texts, h.entries@[index].outcome@),
{
    lemma_first_seen(texts);
    lemma_tally_is_histogram(h, texts);
    let key = h.entries@[index].outcome@;
    assert forall|other: Seq<char>| occurrences(texts, other) > 0 implies exists|i: int|
        0 <= i < h.entries@.len() && (#[trigger] h.entries@[i]).count == occurrences(
            texts,
            other,
        ) by {
        assert(first_seen(texts).contains(other));
        let i = choose|i: int| 0 <= i < h.keys().len() && h.keys()[i] == other;
        assert(h.entries@[i].count == occurrences(texts, other));
    }
    if h.is_first_maximum(index) {
        assert forall|other: Seq<char>| #[trigger]
            occurrences(texts, other) <= occurrences(texts, key) by {
            if occurrences(texts, other) > 0 {
                let i = choose|i: int|
                    0 <= i < h.entries@.len() && (#[trigger] h.entries@[i]).count == occurrences(
                        texts,
                        other,
                    );
                assert(h.entries@[i].count <= h.entries@[index].count);
            }
        }
    }
    if h.is_first_minimum(index) {
        assert forall|other: Seq<char>| #[trigger]
            occurrences(texts, other) > 0 implies occurrences(texts, key) <= occurrences(
            texts,
            other,
        ) by {
            let i = choose|i: int|
                0 <= i < h.entries@.len() && (#[trigger] h.entries@[i]).count == occurrences(
                    texts,
                    other,
                );
            assert(h.entries@[i].count >= h.entries@[index].count);
        }
    }
}

/// Counts how often each outcome occurs.
pub fn tally(outcomes: &Vec<String>) -> (histogram: Histogram)
    ensures
        histogram.counts(texts_of(outcomes@)),
        histogram.wf(),
        histogram@ == histogram_of(texts_of(outcomes@)),
{
    let ghost texts = texts_of(outcomes@);
    let mut histogram = Histogram { entries: Vec::new() };
    let mut i: usize = 0;
    assert(histogram.keys() =~= first_seen(texts.take(0)));
    while i < outcomes.len()
        invariant
            i <= outcomes@.len(),
            texts == texts_of(outcomes@),
            histogram.counts(texts.take(i as int)),
        decreases outcomes@.len() - i,
    {
        let outcome = &outcomes[i];
        let ghost seen = texts.take(i as int);
        let ghost next = texts.take(i + 1);
        let ghost before = histogram;
        proof {
            assert(next.drop_last() =~= seen);
            lemma_first_seen(seen);
        }
        let mut j: usize = 0;
        while j < histogram.entries.len() && histogram.entries[j].outcome != *outcome
            invariant
                j <= histogram.entries@.len(),
                forall|m: int| 0 <= m < j ==> histogram.entries@[m].outcome@ != outcome@,
            decreases histogram.entries@.len() - j,
        {
            j += 1;
        }
        if j < histogram.entries.len() {
            proof {
                lemma_occurrences_bounded(seen, outcome@);
            }
            let count = histogram.entries[j].count + 1;
            histogram.entries[j].count = count;
            proof {
                assert(histogram.keys() =~= before.keys());
                assert forall|m: int| 0 <= m < histogram.entries@.len() implies (
                #[trigger] histogram.entries@[m]).count == occurrences(
                    next,
                    histogram.entries@[m].outcome@,
                ) by {
                    if m != j {
                        assert(before.keys()[m] != before.keys()[j as int]);
                    }
                }
            }
        } else {
            histogram.entries.push(HistogramEntry { outcome: outcome.clone(), count: 1 });
            proof {
                if before.keys().contains(outcome@) {
                    let m = choose|m: int|
                        0 <= m < before.keys().len() && before.keys()[m] == outcome@;
                    assert(before.entries@[m].outcome@ == outcome@);
                }
                assert(histogram.keys() =~= before.keys().push(outcome@));
                assert forall|m: int| 0 <= m < histogram.entries@.len() implies (
                #[trigger] histogram.entries@[m]).count == occurrences(
                    next,
                    histogram.entries@[m].outcome@,
                ) by {
                    if m < before.entries@.len() {
                        assert(before.keys()[m] != outcome@);
                    }
                }
            }
        }
        i += 1;
    }
    proof {
        assert(texts.take(i as int) =~= texts);
        lemma_tally_is_histogram(histogram, texts);
    }
    histogram
}

/// What one outcome adds to the balance of bit position `position`: +1 for
/// any character but `1`, -1 for `1`, nothing where the outcome has no such
/// position.
pub open spec fn z_term(text: Seq<char>, position: int) -> int {
    if 0 <= position < text.len() {
        if text[position] == '1' {
            -1
        } else {
            1
        }
    } else {
        0
    }
}

/// The balance of bit position `position` over all of `texts`.
pub open spec fn z_sum(texts: Seq<Seq<char>>, position: int) -> int
    decreases texts.len(),
{
    if texts.len() == 0 {
        0
    } else {
        z_sum(texts.drop_last(), position) + z_term(texts.last(), position)
    }
}

/// The number of bit positions of a job's outcomes: the length of the first.
pub open spec fn z_width(texts: Seq<Seq<char>>) -> nat {
    if texts.len() == 0 {
        0
    } else {
        texts[0].len()
    }
}

/// No outcome is longer than the first.
pub open spec fn fits_first(texts: Seq<Seq<char>>) -> bool {
    forall|i: int| 0 <= i < texts.len() ==> (#[trigger] texts[i]).len() <= texts[0].len()
}

/// A balance lies between minus and plus the number of outcomes.
pub proof fn lemma_z_sum_bounded(texts: Seq<Seq<char>>, position: int)
    ensures
        -texts.len() <= z_sum(texts, position) <= texts.len(),
    decreases texts.len(),
{
    if texts.len() > 0 {
        lemma_z_sum_bounded(texts.drop_last(), position);
    }
}

/// The balances of a job's outcomes, one per bit position, with the number of
/// shots they were taken over. The expectation of position `p` is
/// `sums[p] / shots`.
#[derive(Debug, Clone)]
pub struct Expectation {
    pub sums: Vec<i128>,
    pub shots: usize,
}

impl Expectation {
    /// Whether these are the balances of `texts`.
    pub open spec fn balances(&self, texts: Seq<Seq<char>>) -> bool {
        &&& self.shots == texts.len()
        &&& self.sums@.len() == z_width(texts)
        &&& forall|p: int| 0 <= p < self.sums@.len() ==> #[trigger] self.sums@[p] == z_sum(texts, p)
    }
}

/// The balance of zeros and ones at each bit position.
pub fn z_sums(outcomes: &Vec<String>) -> (expectation: Expectation)
    requires
        fits_first(texts_of(outcomes@)),
    ensures
        expectation.balances(texts_of(outcomes@)),
{
    let ghost texts = texts_of(outcomes@);
    let shots = outcomes.len();
    if shots == 0 {
        return Expectation { sums: Vec::new(), shots };
    }
    let width = chars_of(outcomes[0].as_str()).len();
    let mut sums: Vec<i128> = vec![0i128; width];
    let mut i: usize = 0;
    while i < shots
        invariant
            i <= shots,
            shots == outcomes@.len(),
            texts == texts_of(outcomes@),
            fits_first(texts),
            width == texts[0].len(),
            sums@.len() == width,
            forall|p: int| 0 <= p < width ==> #[trigger] sums@[p] == z_sum(texts.take(i as int), p),
        decreases shots - i,
    {
        let chars = chars_of(outcomes[i].as_str());
        let ghost seen = texts.take(i as int);
        let ghost next = texts.take(i + 1);
        proof {
            assert(next.drop_last() =~= seen);
            assert(texts[i as int].len() <= texts[0].len());
        }
        let mut p: usize = 0;
        while p < chars.len()
            invariant
                p <= chars@.len() <= width,
                sums@.len() == width,
                i < shots,
                seen.len() == i,
                forall|q: int| 0 <= q < p ==> #[trigger] sums@[q] == z_sum(seen, q) + z_term(chars@, q),
                forall|q: int| p <= q < width ==> #[trigger] sums@[q] == z_sum(seen, q),
            decreases chars@.len() - p,
        {
            proof {
                lemma_z_sum_bounded(seen, p as int);
            }
            let step: i128 = if chars[p] == '1' {
                -1
            } else {
                1
            };
            let balance = sums[p] + step;
            sums[p] = balance;
            p += 1;
        }
        i += 1;
    }
    assert(texts.take(i as int) =~= texts);
    Expectation { sums, shots }
}

} // verus!
