//! Offline recall/precision scoring: buffered query results are compared
//! against the precomputed true-neighbor table and folded into streaming
//! statistics, in micro-units of the exact fractions.

use vstd::prelude::*;

use crate::math::{StreamingStat, MAX_COUNT};

verus! {

/// How many top hits and true neighbors one query is scored over.
pub const SCORED_HITS: usize = 10;

/// One million: the scale the exact fractions are folded at.
pub const MICRO: u64 = 1_000_000;

/// The first ten entries, or all of them when there are fewer.
pub open spec fn take_scored(s: Seq<u64>) -> Seq<u64> {
    if s.len() < SCORED_HITS {
        s
    } else {
        s.take(SCORED_HITS as int)
    }
}

/// How many distinct returned hits occur among the expected neighbors:
/// the cardinality of the set intersection, so a hit a backend repeats
/// counts once.
pub open spec fn tp_count(got: Seq<u64>, expected: Seq<u64>) -> int
    decreases got.len(),
{
    if got.len() == 0 {
        0
    } else {
        tp_count(got.drop_last(), expected) + if expected.contains(got.last())
            && !got.drop_last().contains(got.last()) {
            1int
        } else {
            0int
        }
    }
}

/// The true positives of one query: its first ten hits against the first
/// ten true neighbors.
pub open spec fn query_tp(got: Seq<u64>, expected: Seq<u64>) -> int {
    tp_count(take_scored(got), expected.take(SCORED_HITS as int))
}

/// Recall in micro-units: `tp / expected_hits`.
pub open spec fn recall_micros(got: Seq<u64>, expected: Seq<u64>, expected_hits: u64) -> int {
    query_tp(got, expected) * MICRO / (expected_hits as int)
}

/// Precision in micro-units: `tp / |got|`, zero for no hits at all.
pub open spec fn precision_micros(got: Seq<u64>, expected: Seq<u64>) -> int {
    if query_tp(got, expected) == 0 {
        0
    } else {
        query_tp(got, expected) * MICRO / (got.len() as int)
    }
}

/// There are never more true positives than scored hits.
proof fn lemma_tp_count_le(got: Seq<u64>, expected: Seq<u64>)
    ensures
        0 <= tp_count(got, expected) <= got.len(),
    decreases got.len(),
{
    if got.len() > 0 {
        lemma_tp_count_le(got.drop_last(), expected);
    }
}

/// Counts how many distinct hits among the first ten occur among the
/// first ten expected neighbors.
fn true_positives(got: &Vec<u64>, expected: &Vec<u64>) -> (tp: u64)
    requires
        expected@.len() >= SCORED_HITS,
    ensures
        tp == query_tp(got@, expected@),
        tp <= SCORED_HITS,
{
    let scored: usize = if got.len() < SCORED_HITS {
        got.len()
    } else {
        SCORED_HITS
    };
    let ghost g = take_scored(got@);
    let ghost e = expected@.take(SCORED_HITS as int);
    proof {
        assert(g =~= got@.subrange(0, scored as int));
    }
    let mut tp: u64 = 0;
    let mut i: usize = 0;
    while i < scored
        invariant
            i <= scored <= got@.len(),
            scored <= SCORED_HITS,
            expected@.len() >= SCORED_HITS,
            g == take_scored(got@),
            e == expected@.take(SCORED_HITS as int),
            g =~= got@.subrange(0, scored as int),
            tp == tp_count(g.subrange(0, i as int), e),
            tp <= i,
        decreases scored - i,
    {
        let hit = got[i];
        let mut found = false;
        let mut j: usize = 0;
        while j < SCORED_HITS
            invariant
                j <= SCORED_HITS,
                expected@.len() >= SCORED_HITS,
                e == expected@.take(SCORED_HITS as int),
                found == exists|k: int| 0 <= k < j && e[k] == hit,
            decreases SCORED_HITS - j,
        {
            if expected[j] == hit {
                proof {
                    assert(e[j as int] == hit);
                }
                found = true;
            }
            j = j + 1;
        }
        // a hit already scored earlier in the list counts only once
        let mut seen = false;
        let mut h: usize = 0;
        while h < i
            invariant
                h <= i <= got@.len(),
                seen == exists|k: int| 0 <= k < h && got@[k] == hit,
            decreases i - h,
        {
            if got[h] == hit {
                seen = true;
            }
            h = h + 1;
        }
        proof {
            assert(found == e.contains(hit));
            let pre = g.subrange(0, i as int);
            let nxt = g.subrange(0, i + 1);
            assert(nxt.drop_last() =~= pre);
            assert(nxt.last() == g[i as int] && g[i as int] == hit);
            assert(forall|k: int| 0 <= k < i ==> pre[k] == got@[k]);
            if seen {
                let k = choose|k: int| 0 <= k < i && got@[k] == hit;
                assert(pre[k] == hit);
                assert(pre.contains(hit));
            } else {
                assert(forall|k: int| 0 <= k < pre.len() ==> pre[k] != hit);
                assert(!pre.contains(hit));
            }
        }
        if found && !seen {
            tp = tp + 1;
        }
        i = i + 1;
    }
    proof {
        assert(g.subrange(0, scored as int) =~= g);
    }
    tp
}

/// The streaming recall and precision aggregates of one trial.
pub struct RecallPrecision {
    pub recall: StreamingStat,
    pub precision: StreamingStat,
}

impl RecallPrecision {
    pub open spec fn wf(&self) -> bool {
        &&& self.recall.wf()
        &&& self.precision.wf()
        &&& self.recall.samples().len() == self.precision.samples().len()
    }

    /// Empty aggregates.
    pub fn new() -> (r: RecallPrecision)
        ensures
            r.wf(),
            r.recall.samples() == Seq::<int>::empty(),
            r.precision.samples() == Seq::<int>::empty(),
    {
        RecallPrecision { recall: StreamingStat::new(), precision: StreamingStat::new() }
    }

    /// Scores one query's hits against its true neighbors and folds both
    /// fractions in.
    pub fn update_query(&mut self, got: &Vec<u64>, expected: &Vec<u64>, expected_hits: u64)
        requires
            old(self).wf(),
            old(self).recall.samples().len() < MAX_COUNT,
            expected@.len() >= SCORED_HITS,
            expected_hits >= 1,
        ensures
            final(self).wf(),
            final(self).recall.samples() == old(self).recall.samples().push(
                recall_micros(got@, expected@, expected_hits),
            ),
            final(self).precision.samples() == old(self).precision.samples().push(
                precision_micros(got@, expected@),
            ),
    {
        let tp = true_positives(got, expected);
        proof {
            lemma_tp_count_le(take_scored(got@), expected@.take(SCORED_HITS as int));
            assert((tp as int) * (MICRO as int) / (expected_hits as int) <= (tp as int) * (
            MICRO as int)) by (nonlinear_arith)
                requires
                    1 <= expected_hits as int,
                    0 <= (tp as int) * (MICRO as int),
            ;
            if tp > 0 {
                assert((tp as int) * (MICRO as int) / (got@.len() as int) <= (tp as int) * (
                MICRO as int)) by (nonlinear_arith)
                    requires
                        1 <= got@.len() as int,
                        0 <= (tp as int) * (MICRO as int),
                ;
                assert((tp as int) * (MICRO as int) / (got@.len() as int) >= 0)
                    by (nonlinear_arith)
                    requires
                        1 <= got@.len() as int,
                        0 <= (tp as int) * (MICRO as int),
                ;
            }
            assert((tp as int) * (MICRO as int) / (expected_hits as int) >= 0)
                by (nonlinear_arith)
                requires
                    1 <= expected_hits as int,
                    0 <= (tp as int) * (MICRO as int),
            ;
        }
        let recall_value: u64 = tp * MICRO / expected_hits;
        let precision_value: u64 = if tp == 0 {
            0
        } else {
            tp * MICRO / (got.len() as u64)
        };
        proof {
            if tp > 0 {
                lemma_tp_count_le(take_scored(got@), expected@.take(SCORED_HITS as int));
            }
        }
        self.recall.update(recall_value);
        self.precision.update(precision_value);
    }
}

/// Scores every buffered `(query index, hits)` pair of one trial against
/// the true-neighbor table.
///
/// `None` when a query index has no neighbor row, a row is shorter than
/// the ten scored neighbors, the header's expected-hit count is zero, or
/// the trial holds more queries than one aggregate can take.
pub fn calculate_stats(
    data: &Vec<(u64, Vec<u64>)>,
    neighbors: &Vec<Vec<u64>>,
    expected_hits: u64,
) -> (r: Option<RecallPrecision>)
    ensures
        r is Some <==> {
            &&& expected_hits >= 1
            &&& data@.len() <= MAX_COUNT
            &&& forall|i: int|
                0 <= i < data@.len() ==> (#[trigger] data@[i]).0 < neighbors@.len()
                    && neighbors@[data@[i].0 as int]@.len() >= SCORED_HITS
        },
        r matches Some(rp) ==> {
            &&& rp.wf()
            &&& rp.recall.samples().len() == data@.len()
            &&& forall|i: int|
                0 <= i < data@.len() ==> rp.recall.samples()[i] == recall_micros(
                    (#[trigger] data@[i]).1@,
                    neighbors@[data@[i].0 as int]@,
                    expected_hits,
                )
            &&& forall|i: int|
                0 <= i < data@.len() ==> rp.precision.samples()[i] == precision_micros(
                    (#[trigger] data@[i]).1@,
                    neighbors@[data@[i].0 as int]@,
                )
        },
{
    if expected_hits < 1 {
        return None;
    }
    if data.len() > MAX_COUNT as usize {
        return None;
    }
    let mut rp = RecallPrecision::new();
    let mut i: usize = 0;
    while i < data.len()
        invariant
            i <= data@.len() <= MAX_COUNT,
            expected_hits >= 1,
            rp.wf(),
            rp.recall.samples().len() == i,
            forall|k: int|
                0 <= k < i ==> (#[trigger] data@[k]).0 < neighbors@.len()
                    && neighbors@[data@[k].0 as int]@.len() >= SCORED_HITS,
            forall|k: int|
                0 <= k < i ==> rp.recall.samples()[k] == recall_micros(
                    (#[trigger] data@[k]).1@,
                    neighbors@[data@[k].0 as int]@,
                    expected_hits,
                ),
            forall|k: int|
                0 <= k < i ==> rp.precision.samples()[k] == precision_micros(
                    (#[trigger] data@[k]).1@,
                    neighbors@[data@[k].0 as int]@,
                ),
        decreases data@.len() - i,
    {
        let idx = data[i].0;
        if idx >= neighbors.len() as u64 {
            return None;
        }
        let expected = &neighbors[idx as usize];
        if expected.len() < SCORED_HITS {
            return None;
        }
        rp.update_query(&data[i].1, expected, expected_hits);
        i = i + 1;
    }
    Some(rp)
}

} // verus!
