//! The bounded window of the most recent samples, and the aggregates that
//! are recomputed from it.

use crate::timing::max_duration_nanos;
use std::collections::VecDeque;
use vstd::prelude::*;

verus! {

/// How many samples a window retains.
pub const MAX_SAMPLES: usize = 100;

/// The sum of the samples.
pub open spec fn sum_of(s: Seq<nat>) -> nat
    decreases s.len(),
{
    if s.len() == 0 {
        0
    } else {
        sum_of(s.drop_last()) + s.last()
    }
}

/// The mean of the samples, rounded down to a whole number.
pub open spec fn mean_of(s: Seq<nat>) -> nat
    recommends
        s.len() > 0,
{
    sum_of(s) / s.len()
}

/// The smallest of the samples.
pub open spec fn min_of(s: Seq<nat>) -> nat
    recommends
        s.len() > 0,
    decreases s.len(),
{
    if s.len() <= 1 {
        s.last()
    } else if s.last() < min_of(s.drop_last()) {
        s.last()
    } else {
        min_of(s.drop_last())
    }
}

/// The largest of the samples.
pub open spec fn max_of(s: Seq<nat>) -> nat
    recommends
        s.len() > 0,
    decreases s.len(),
{
    if s.len() <= 1 {
        s.last()
    } else if s.last() > max_of(s.drop_last()) {
        s.last()
    } else {
        max_of(s.drop_last())
    }
}

/// The window after a new sample arrives: the sample goes to the back, and
/// at capacity the oldest one leaves from the front.
pub open spec fn pushed(s: Seq<nat>, x: nat) -> Seq<nat> {
    if s.len() >= MAX_SAMPLES {
        s.subrange(1, s.len() as int).push(x)
    } else {
        s.push(x)
    }
}

/// The last `MAX_SAMPLES` entries of `s`, or all of `s` when it has fewer.
pub open spec fn tail_of(s: Seq<nat>) -> Seq<nat> {
    if s.len() > MAX_SAMPLES {
        s.subrange(s.len() - MAX_SAMPLES, s.len() as int)
    } else {
        s
    }
}

/// The window that results from pushing every entry of `xs`, in order, onto
/// `s`.
pub open spec fn pushed_all(s: Seq<nat>, xs: Seq<nat>) -> Seq<nat>
    decreases xs.len(),
{
    if xs.len() == 0 {
        s
    } else {
        pushed(pushed_all(s, xs.drop_last()), xs.last())
    }
}

/// Whether every sample is the length of some `Duration`.
pub open spec fn all_in_range(s: Seq<nat>) -> bool {
    forall|i: int| 0 <= i < s.len() ==> s[i] <= max_duration_nanos()
}

/// The smallest sample is one of the samples, and none is smaller.
pub proof fn lemma_min_of(s: Seq<nat>)
    requires
        s.len() > 0,
    ensures
        s.contains(min_of(s)),
        forall|i: int| 0 <= i < s.len() ==> min_of(s) <= s[i],
    decreases s.len(),
{
    if s.len() > 1 {
        let front = s.drop_last();
        lemma_min_of(front);
        let k = choose|k: int| 0 <= k < front.len() && front[k] == min_of(front);
        assert(s[k] == front[k]);
        assert forall|i: int| 0 <= i < s.len() implies min_of(s) <= s[i] by {
            if i < s.len() - 1 {
                assert(s[i] == front[i]);
            }
        }
    }
    assert(s[s.len() - 1] == s.last());
}

/// The largest sample is one of the samples, and none is larger.
pub proof fn lemma_max_of(s: Seq<nat>)
    requires
        s.len() > 0,
    ensures
        s.contains(max_of(s)),
        forall|i: int| 0 <= i < s.len() ==> max_of(s) >= s[i],
    decreases s.len(),
{
    if s.len() > 1 {
        let front = s.drop_last();
        lemma_max_of(front);
        let k = choose|k: int| 0 <= k < front.len() && front[k] == max_of(front);
        assert(s[k] == front[k]);
        assert forall|i: int| 0 <= i < s.len() implies max_of(s) >= s[i] by {
            if i < s.len() - 1 {
                assert(s[i] == front[i]);
            }
        }
    }
    assert(s[s.len() - 1] == s.last());
}

/// The sum of samples that are all at most `bound` is at most their number
/// times `bound`.
pub proof fn lemma_sum_bound(s: Seq<nat>, bound: nat)
    requires
        forall|i: int| 0 <= i < s.len() ==> s[i] <= bound,
    ensures
        sum_of(s) <= s.len() * bound,
    decreases s.len(),
{
    if s.len() > 0 {
        lemma_sum_bound(s.drop_last(), bound);
        assert(s.len() * bound == (s.len() - 1) * bound + bound) by (nonlinear_arith);
    }
}

/// The mean lies between the smallest and the largest sample.
pub proof fn lemma_mean_between(s: Seq<nat>)
    requires
        s.len() > 0,
    ensures
        min_of(s) <= mean_of(s) <= max_of(s),
{
    lemma_min_of(s);
    lemma_max_of(s);
    lemma_sum_bound(s, max_of(s));
    lemma_sum_at_least(s, min_of(s));
    let n = s.len();
    let total = sum_of(s);
    let lo = min_of(s);
    let hi = max_of(s);
    assert(lo <= total / n <= hi) by (nonlinear_arith)
        requires
            n > 0,
            n * lo <= total,
            total <= n * hi,
    ;
}

/// The sum of samples that are all at least `bound` is at least their number
/// times `bound`.
pub proof fn lemma_sum_at_least(s: Seq<nat>, bound: nat)
    requires
        forall|i: int| 0 <= i < s.len() ==> s[i] >= bound,
    ensures
        sum_of(s) >= s.len() * bound,
    decreases s.len(),
{
    if s.len() > 0 {
        lemma_sum_at_least(s.drop_last(), bound);
        assert(s.len() * bound == (s.len() - 1) * bound + bound) by (nonlinear_arith);
    }
}

/// A window never holds more than `MAX_SAMPLES` samples, and a push onto a
/// window that holds fewer keeps them all.
pub proof fn lemma_pushed_len(s: Seq<nat>, x: nat)
    requires
        s.len() <= MAX_SAMPLES,
    ensures
        pushed(s, x).len() <= MAX_SAMPLES,
        pushed(s, x).len() == if s.len() < MAX_SAMPLES {
            s.len() + 1
        } else {
            s.len()
        },
        pushed(s, x).last() == x,
{
}

/// The window of the latest samples, after one more sample, is the window
/// of the latest samples with that one behind them.
pub proof fn lemma_pushed_tail(xs: Seq<nat>, x: nat)
    ensures
        pushed(tail_of(xs), x) == tail_of(xs.push(x)),
        tail_of(xs).len() <= MAX_SAMPLES,
{
    assert(pushed(tail_of(xs), x) =~= tail_of(xs.push(x)));
}

/// Pushing a run of samples onto an empty window leaves exactly the last
/// `MAX_SAMPLES` of them, oldest first.
pub proof fn lemma_pushed_all_is_tail(xs: Seq<nat>)
    ensures
        pushed_all(Seq::empty(), xs) == tail_of(xs),
    decreases xs.len(),
{
    if xs.len() > 0 {
        let front = xs.drop_last();
        lemma_pushed_all_is_tail(front);
    }
}

/// The `MAX_SAMPLES` most recent samples, oldest first.
#[derive(Clone, Debug)]
pub struct SampleWindow {
    samples: VecDeque<u128>,
}

impl View for SampleWindow {
    type V = Seq<nat>;

    closed spec fn view(&self) -> Seq<nat> {
        self.samples@.map_values(|x: u128| x as nat)
    }
}

impl SampleWindow {
    /// Whether the window is within its capacity and every sample is the
    /// length of some `Duration`.
    pub closed spec fn wf(&self) -> bool {
        &&& self.samples@.len() <= MAX_SAMPLES
        &&& forall|i: int| 0 <= i < self.samples@.len() ==> self.samples@[i] <= max_duration_nanos()
    }

    /// A well-formed window holds at most `MAX_SAMPLES` samples, all in
    /// range.
    pub proof fn lemma_wf(&self)
        requires
            self.wf(),
        ensures
            self@.len() <= MAX_SAMPLES,
            all_in_range(self@),
    {
    }

    /// A window without samples.
    pub fn new() -> (w: SampleWindow)
        ensures
            w.wf(),
            w@ == Seq::<nat>::empty(),
    {
        let w = SampleWindow { samples: VecDeque::with_capacity(MAX_SAMPLES) };
        w
    }

    /// The number of samples held.
    pub fn len(&self) -> (n: usize)
        requires
            self.wf(),
        ensures
            n == self@.len(),
            n <= MAX_SAMPLES,
    {
        self.samples.len()
    }

    /// Adds a sample, dropping the oldest one when the window is full.
    pub fn push(&mut self, x: u128)
        requires
            old(self).wf(),
            x <= max_duration_nanos(),
        ensures
            final(self).wf(),
            final(self)@ == pushed(old(self)@, x as nat),
    {
        if self.samples.len() >= MAX_SAMPLES {
            self.samples.pop_front();
        }
        self.samples.push_back(x);
    }

    /// The sum of the samples.
    fn sum(&self) -> (total: u128)
        requires
            self.wf(),
        ensures
            total == sum_of(self@),
    {
        let n = self.samples.len();
        let mut total: u128 = 0;
        let mut i: usize = 0;
        while i < n
            invariant
                i <= n,
                n == self.samples@.len(),
                n <= MAX_SAMPLES,
                forall|k: int|
                    0 <= k < self.samples@.len() ==> self.samples@[k] <= max_duration_nanos(),
                total == sum_of(self@.subrange(0, i as int)),
                total <= i * max_duration_nanos(),
            decreases n - i,
        {
            let x = self.samples[i];
            proof {
                let next = self@.subrange(0, i + 1);
                assert(next.drop_last() =~= self@.subrange(0, i as int));
                assert((i + 1) * max_duration_nanos() == i * max_duration_nanos()
                    + max_duration_nanos()) by (nonlinear_arith);
                assert(i * max_duration_nanos() <= 99 * max_duration_nanos()) by (nonlinear_arith)
                    requires
                        i <= 99,
                ;
            }
            total = total + x;
            i = i + 1;
        }
        assert(self@.subrange(0, n as int) =~= self@);
        total
    }

    /// The mean of the samples, rounded down; `None` for an empty window.
    pub fn mean(&self) -> (m: Option<u128>)
        requires
            self.wf(),
        ensures
            self@.len() == 0 ==> m is None,
            self@.len() > 0 ==> m == Some(mean_of(self@) as u128),
            self@.len() > 0 ==> mean_of(self@) <= max_duration_nanos(),
    {
        let n = self.len();
        if n == 0 {
            return None;
        }
        let total = self.sum();
        proof {
            lemma_mean_between(self@);
            lemma_max_of(self@);
        }
        Some(total / (n as u128))
    }

    /// The smallest sample; `None` for an empty window.
    pub fn min(&self) -> (m: Option<u128>)
        requires
            self.wf(),
        ensures
            self@.len() == 0 ==> m is None,
            self@.len() > 0 ==> m == Some(min_of(self@) as u128),
            self@.len() > 0 ==> min_of(self@) <= max_duration_nanos(),
    {
        let n = self.samples.len();
        if n == 0 {
            return None;
        }
        let mut best: u128 = self.samples[0];
        let mut i: usize = 1;
        while i < n
            invariant
                1 <= i <= n,
                n == self.samples@.len(),
                self.wf(),
                best <= max_duration_nanos(),
                best == min_of(self@.subrange(0, i as int)),
            decreases n - i,
        {
            let x = self.samples[i];
            proof {
                let next = self@.subrange(0, i + 1);
                assert(next.drop_last() =~= self@.subrange(0, i as int));
            }
            if x < best {
                best = x;
            }
            i = i + 1;
        }
        assert(self@.subrange(0, n as int) =~= self@);
        Some(best)
    }

    /// The largest sample; `None` for an empty window.
    pub fn max(&self) -> (m: Option<u128>)
        requires
            self.wf(),
        ensures
            self@.len() == 0 ==> m is None,
            self@.len() > 0 ==> m == Some(max_of(self@) as u128),
            self@.len() > 0 ==> max_of(self@) <= max_duration_nanos(),
    {
        let n = self.samples.len();
        if n == 0 {
            return None;
        }
        let mut best: u128 = self.samples[0];
        let mut i: usize = 1;
        while i < n
            invariant
                1 <= i <= n,
                n == self.samples@.len(),
                self.wf(),
                best <= max_duration_nanos(),
                best == max_of(self@.subrange(0, i as int)),
            decreases n - i,
        {
            let x = self.samples[i];
            proof {
                let next = self@.subrange(0, i + 1);
                assert(next.drop_last() =~= self@.subrange(0, i as int));
            }
            if x > best {
                best = x;
            }
            i = i + 1;
        }
        assert(self@.subrange(0, n as int) =~= self@);
        Some(best)
    }
}

} // verus!
