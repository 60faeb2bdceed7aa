//! The monotonic filter: suppresses any timestamp not strictly greater than
//! the last emitted one.

use vstd::prelude::*;

verus! {

/// Process-local mutable state of the clock monitor: the greatest timestamp
/// emitted so far, starting at zero before any notification arrives.
#[derive(Clone, Copy, Debug, PartialEq, Eq, Structural)]
pub struct MonitorState {
    /// The greatest timestamp emitted so far; nothing at or below this value
    /// is ever emitted again.
    pub latest_emitted: i64,
}

impl MonitorState {
    /// Fresh state: no timestamp has been emitted yet.
    pub fn new() -> (s: MonitorState)
        ensures
            s.latest_emitted == 0,
    {
        MonitorState { latest_emitted: 0 }
    }

    /// One step of the monotonic filter: emit `timestamp` exactly when it is
    /// strictly greater than everything emitted so far, advancing the state
    /// to it in that case and leaving the state unchanged otherwise.
    pub fn step(&mut self, timestamp: i64) -> (emitted: bool)
        ensures
            emitted == (timestamp > old(self).latest_emitted),
            final(self).latest_emitted == if emitted {
                timestamp
            } else {
                old(self).latest_emitted
            },
    {
        if timestamp > self.latest_emitted {
            self.latest_emitted = timestamp;
            true
        } else {
            false
        }
    }
}

/// The timestamps the filter emits when fed `ts` in order, starting from a
/// state whose greatest emitted value is `latest`.
pub open spec fn filter_emissions(ts: Seq<i64>, latest: int) -> Seq<i64>
    decreases ts.len(),
{
    if ts.len() == 0 {
        Seq::empty()
    } else if ts[0] > latest {
        seq![ts[0]] + filter_emissions(ts.drop_first(), ts[0] as int)
    } else {
        filter_emissions(ts.drop_first(), latest)
    }
}

/// Each element is strictly less than every later one.
pub open spec fn strictly_increasing(s: Seq<i64>) -> bool {
    forall|j: int, k: int| 0 <= j < k < s.len() ==> #[trigger] s[j] < #[trigger] s[k]
}

/// Every element lies strictly above `bound`.
pub open spec fn all_above(s: Seq<i64>, bound: int) -> bool {
    forall|k: int| 0 <= k < s.len() ==> #[trigger] s[k] > bound
}

/// Whatever sequence of timestamps is fed to the filter, and whatever state
/// it starts from, the emitted sequence is strictly increasing, and every
/// emitted value lies strictly above the starting state.
pub proof fn lemma_emissions_strictly_increasing(ts: Seq<i64>, latest: int)
    ensures
        strictly_increasing(filter_emissions(ts, latest)),
        all_above(filter_emissions(ts, latest), latest),
    decreases ts.len(),
{
    if ts.len() == 0 {
    } else if ts[0] > latest {
        lemma_emissions_strictly_increasing(ts.drop_first(), ts[0] as int);
        let tail = filter_emissions(ts.drop_first(), ts[0] as int);
        let whole = filter_emissions(ts, latest);
        assert(whole == seq![ts[0]] + tail);
        assert forall|k: int| 0 <= k < whole.len() implies #[trigger] whole[k] > latest by {
            if k == 0 {
            } else {
                assert(whole[k] == tail[k - 1]);
            }
        }
        assert forall|j: int, k: int| 0 <= j < k < whole.len() implies #[trigger] whole[j]
            < #[trigger] whole[k] by {
            assert(whole[k] == tail[k - 1]);
            if j > 0 {
                assert(whole[j] == tail[j - 1]);
            }
        }
    } else {
        lemma_emissions_strictly_increasing(ts.drop_first(), latest);
    }
}

/// A duplicate at the head of the stream changes nothing: the filter emits
/// the same sequence whether the first timestamp arrives once or twice,
/// whatever follows it.
proof fn lemma_duplicate_head_suppressed(t: i64, rest: Seq<i64>, latest: int)
    ensures
        filter_emissions(seq![t, t] + rest, latest) == filter_emissions(seq![t] + rest, latest),
{
    let twice = seq![t, t] + rest;
    let once = seq![t] + rest;
    assert(twice[0] == t);
    assert(once[0] == t);
    assert(twice.drop_first() =~= once);
    assert(once.drop_first() =~= rest);
    if t > latest {
        assert(filter_emissions(twice, latest) == seq![t] + filter_emissions(once, t as int));
        assert(filter_emissions(once, t as int) == filter_emissions(rest, t as int));
        assert(filter_emissions(once, latest) == seq![t] + filter_emissions(rest, t as int));
    } else {
        assert(filter_emissions(twice, latest) == filter_emissions(once, latest));
        assert(filter_emissions(once, latest) == filter_emissions(rest, latest));
    }
}

/// Feeding the same timestamp twice in a row, anywhere in the stream,
/// yields exactly one emission for it: the filter emits the same sequence
/// with the duplicate occurrence as without it.
pub proof fn lemma_duplicate_suppressed(ts: Seq<i64>, i: int, latest: int)
    requires
        0 <= i < ts.len() - 1,
        ts[i + 1] == ts[i],
    ensures
        filter_emissions(ts, latest) == filter_emissions(ts.remove(i + 1), latest),
    decreases i,
{
    if i == 0 {
        let t = ts[0];
        let rest = ts.skip(2);
        assert(ts =~= seq![t, t] + rest);
        assert(ts.remove(1) =~= seq![t] + rest);
        lemma_duplicate_head_suppressed(t, rest, latest);
    } else {
        let tail = ts.drop_first();
        let shorter = ts.remove(i + 1);
        assert(tail[i - 1] == ts[i]);
        assert(tail[i] == ts[i + 1]);
        assert(shorter[0] == ts[0]);
        assert(shorter.drop_first() =~= tail.remove(i));
        if ts[0] > latest {
            lemma_duplicate_suppressed(tail, i - 1, ts[0] as int);
        } else {
            lemma_duplicate_suppressed(tail, i - 1, latest);
        }
    }
}

/// Runs the monotonic filter over a whole sequence of decoded timestamps,
/// returning exactly the values a fresh monitor would emit, in order.
pub fn run_filter(timestamps: &Vec<i64>) -> (emitted: Vec<i64>)
    ensures
        emitted@ == filter_emissions(timestamps@, 0),
{
    let ghost all = timestamps@;
    let mut state = MonitorState::new();
    let mut emitted: Vec<i64> = Vec::new();
    let mut i: usize = 0;
    proof {
        assert(all.skip(0) =~= all);
        assert(emitted@ + filter_emissions(all, 0) =~= filter_emissions(all, 0));
    }
    while i < timestamps.len()
        invariant
            i <= all.len(),
            all == timestamps@,
            emitted@ + filter_emissions(all.skip(i as int), state.latest_emitted as int)
                == filter_emissions(all, 0),
        decreases all.len() - i,
    {
        let ghost prev = emitted@;
        let ghost pending = all.skip(i as int);
        let ghost lat = state.latest_emitted as int;
        let t = timestamps[i];
        let was_emitted = state.step(t);
        if was_emitted {
            emitted.push(t);
        }
        proof {
            assert(pending[0] == t);
            assert(pending.drop_first() =~= all.skip(i + 1));
            if was_emitted {
                assert(filter_emissions(pending, lat) == seq![t] + filter_emissions(
                    all.skip(i + 1),
                    t as int,
                ));
                assert(emitted@ =~= prev + seq![t]);
                assert(emitted@ + filter_emissions(all.skip(i + 1), t as int) =~= prev
                    + filter_emissions(pending, lat));
            } else {
                assert(filter_emissions(pending, lat) == filter_emissions(
                    all.skip(i + 1),
                    lat,
                ));
            }
        }
        i = i + 1;
    }
    proof {
        assert(all.skip(all.len() as int) =~= Seq::<i64>::empty());
        assert(emitted@ + Seq::<i64>::empty() =~= emitted@);
    }
    emitted
}

} // verus!
