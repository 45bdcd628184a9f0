//! Elapsed times and the order statistics of a duration sample.
//!
//! A duration is held as a whole number of nanoseconds, so the order of two
//! durations is the order of two integers and a sample's extremes are exact.

use vstd::prelude::*;

verus! {

/// The wall-clock time one execution took, in nanoseconds.
#[derive(Clone, Copy, Debug, PartialEq, Eq, Structural)]
pub struct Elapsed {
    pub nanos: u128,
}

impl Elapsed {
    /// The duration of `nanos` nanoseconds.
    pub fn from_nanos(nanos: u128) -> (elapsed: Elapsed)
        ensures
            elapsed.nanos == nanos,
    {
        Elapsed { nanos }
    }

    /// The length of this duration in nanoseconds.
    pub fn as_nanos(&self) -> (nanos: u128)
        ensures
            nanos == self.nanos,
    {
        self.nanos
    }
}

/// Whether `m` occurs in `sample` and no entry of `sample` is shorter.
pub open spec fn is_shortest(m: Elapsed, sample: Seq<Elapsed>) -> bool {
    &&& sample.contains(m)
    &&& forall|i: int| 0 <= i < sample.len() ==> m.nanos <= (#[trigger] sample[i]).nanos
}

/// Whether `m` occurs in `sample` and no entry of `sample` is longer.
pub open spec fn is_longest(m: Elapsed, sample: Seq<Elapsed>) -> bool {
    &&& sample.contains(m)
    &&& forall|i: int| 0 <= i < sample.len() ==> (#[trigger] sample[i]).nanos <= m.nanos
}

/// The shortest duration of `sample`, or `None` for an empty sample.
pub fn shortest(sample: &[Elapsed]) -> (min: Option<Elapsed>)
    ensures
        min is None <==> sample@.len() == 0,
        min matches Some(m) ==> is_shortest(m, sample@),
{
    if sample.len() == 0 {
        return None;
    }
    let mut best = sample[0];
    let mut i: usize = 1;
    assert(sample@.take(1)[0] == best);
    while i < sample.len()
        invariant
            1 <= i <= sample@.len(),
            is_shortest(best, sample@.take(i as int)),
        decreases sample@.len() - i,
    {
        let ghost seen = sample@.take(i as int);
        let ghost prior = best;
        if sample[i].nanos < best.nanos {
            best = sample[i];
        }
        i = i + 1;
        proof {
            let now = sample@.take(i as int);
            assert(now =~= seen.push(sample@[i - 1]));
            let k = choose|k: int| 0 <= k < seen.len() && seen[k] == prior;
            assert(now[k] == prior);
            assert(now[i - 1] == sample@[i - 1]);
        }
    }
    assert(sample@.take(i as int) =~= sample@);
    Some(best)
}

/// The longest duration of `sample`, or `None` for an empty sample.
pub fn longest(sample: &[Elapsed]) -> (max: Option<Elapsed>)
    ensures
        max is None <==> sample@.len() == 0,
        max matches Some(m) ==> is_longest(m, sample@),
{
    if sample.len() == 0 {
        return None;
    }
    let mut best = sample[0];
    let mut i: usize = 1;
    assert(sample@.take(1)[0] == best);
    while i < sample.len()
        invariant
            1 <= i <= sample@.len(),
            is_longest(best, sample@.take(i as int)),
        decreases sample@.len() - i,
    {
        let ghost seen = sample@.take(i as int);
        let ghost prior = best;
        if sample[i].nanos > best.nanos {
            best = sample[i];
        }
        i = i + 1;
        proof {
            let now = sample@.take(i as int);
            assert(now =~= seen.push(sample@[i - 1]));
            let k = choose|k: int| 0 <= k < seen.len() && seen[k] == prior;
            assert(now[k] == prior);
            assert(now[i - 1] == sample@[i - 1]);
        }
    }
    assert(sample@.take(i as int) =~= sample@);
    Some(best)
}

/// A sample has at most one shortest and at most one longest duration.
pub proof fn lemma_extremes_unique(sample: Seq<Elapsed>, a: Elapsed, b: Elapsed)
    ensures
        is_shortest(a, sample) && is_shortest(b, sample) ==> a == b,
        is_longest(a, sample) && is_longest(b, sample) ==> a == b,
{
}

} // verus!
