//! The rolling CPU-load history.

use vstd::prelude::*;
use std::collections::VecDeque;

verus! {

/// The history after recording `sample` with room for `capacity` samples: unchanged when
/// there is no room at all; otherwise the sample is appended, after the oldest sample is
/// dropped when the history is already full.
pub open spec fn recorded<T>(history: Seq<T>, capacity: nat, sample: T) -> Seq<T> {
    if capacity == 0 {
        history
    } else if history.len() >= capacity {
        history.drop_first().push(sample)
    } else {
        history.push(sample)
    }
}

/// Records a CPU-load sample in a history that keeps at most `capacity` samples, oldest
/// first.
pub fn record_sample<T>(history: &mut VecDeque<T>, capacity: usize, sample: T)
    ensures
        final(history)@ == recorded(old(history)@, capacity as nat, sample),
{
    if capacity > 0 {
        if history.len() >= capacity {
            history.pop_front();
        }
        history.push_back(sample);
    }
}

/// The history after recording `samples` in order, starting from an empty history.
pub open spec fn history_after<T>(samples: Seq<T>, capacity: nat) -> Seq<T>
    decreases samples.len(),
{
    if samples.len() == 0 {
        Seq::empty()
    } else {
        recorded(history_after(samples.drop_last(), capacity), capacity, samples.last())
    }
}

/// After recording samples `l_1, ..., l_n` into an empty history, it holds the last
/// `min(n, capacity)` of them, oldest first, and nothing at all when the capacity is zero.
pub proof fn lemma_history_keeps_latest<T>(samples: Seq<T>, capacity: nat)
    ensures
        history_after(samples, capacity) == (if capacity == 0 {
            Seq::empty()
        } else if samples.len() <= capacity {
            samples
        } else {
            samples.subrange(samples.len() - capacity, samples.len() as int)
        }),
    decreases samples.len(),
{
    if samples.len() > 0 {
        let p = samples.drop_last();
        lemma_history_keeps_latest(p, capacity);
        let n = samples.len();
        if capacity == 0 {
        } else if n <= capacity {
            assert(p.push(samples.last()) =~= samples);
        } else if n - 1 == capacity {
            assert(p.drop_first().push(samples.last()) =~= samples.subrange(n - capacity, n as int));
        } else {
            let h = p.subrange(n - 1 - capacity, n - 1);
            assert(h.drop_first().push(samples.last()) =~= samples.subrange(n - capacity, n as int));
        }
    }
}

/// Recording never lets a history that fits its capacity outgrow it.
pub proof fn lemma_recorded_within_capacity<T>(history: Seq<T>, capacity: nat, sample: T)
    requires
        history.len() <= capacity,
    ensures
        recorded(history, capacity, sample).len() <= capacity,
        capacity > 0 ==> recorded(history, capacity, sample).last() == sample,
{
}

} // verus!
