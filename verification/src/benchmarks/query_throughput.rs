//! The query-throughput trial suite: the fixed plan of trials, and the
//! off-hot-path recall accumulator that buffers each worker's result sets
//! and renders them as JSON lines for the append-only recall log.

use vstd::prelude::*;

use crate::benchmarks::{IngestionParameters, QueryParameters};
use crate::distribution::ids::{decoded_index, FakeUuid};
use crate::text::{append_u64, dec_str, push_char};

verus! {

/// One message to the recall accumulator: buffer one query's result ids,
/// or flush the buffer to the log.
pub enum Group {
    Add { query_id: u64, vectors: Vec<FakeUuid> },
    Write,
}

/// The decoded dataset indices behind a list of result identifiers.
pub open spec fn decoded_ids(vectors: Seq<Seq<u8>>) -> Seq<u64> {
    Seq::new(vectors.len(), |i: int| decoded_index(vectors[i]))
}

/// The comma-joined decimal renderings of a list of numbers.
pub open spec fn join_dec(s: Seq<u64>) -> Seq<char>
    decreases s.len(),
{
    if s.len() == 0 {
        Seq::empty()
    } else if s.len() == 1 {
        dec_str(s[0] as nat)
    } else {
        join_dec(s.drop_last()) + seq![','] + dec_str(s.last() as nat)
    }
}

/// A JSON array of numbers.
pub open spec fn json_u64_list(s: Seq<u64>) -> Seq<char> {
    seq!['['] + join_dec(s) + seq![']']
}

/// A JSON array `[query_id, [decoded indices...]]`.
pub open spec fn json_pair(p: (u64, Seq<u64>)) -> Seq<char> {
    seq!['['] + dec_str(p.0 as nat) + seq![','] + json_u64_list(p.1) + seq![']']
}

/// The comma-joined pair renderings.
pub open spec fn join_pairs(s: Seq<(u64, Seq<u64>)>) -> Seq<char>
    decreases s.len(),
{
    if s.len() == 0 {
        Seq::empty()
    } else if s.len() == 1 {
        json_pair(s[0])
    } else {
        join_pairs(s.drop_last()) + seq![','] + json_pair(s.last())
    }
}

/// One recall-log line: a JSON array of `[query_id, [indices...]]` pairs.
pub open spec fn json_recall_line(s: Seq<(u64, Seq<u64>)>) -> Seq<char> {
    seq!['['] + join_pairs(s) + seq![']']
}

/// The deep view of the buffered pairs.
pub open spec fn buffer_rows(b: Seq<(u64, Vec<u64>)>) -> Seq<(u64, Seq<u64>)> {
    b.map_values(|p: (u64, Vec<u64>)| (p.0, p.1@))
}

/// The recall log's header line: `{"expected_hits":<k>}`.
pub open spec fn json_recall_header(expected_hits: u64) -> Seq<char> {
    seq!['{', '"', 'e', 'x', 'p', 'e', 'c', 't', 'e', 'd', '_', 'h', 'i', 't', 's', '"', ':']
        + dec_str(expected_hits as nat) + seq!['}']
}

/// Renders the recall log's header line.
pub fn recall_header(expected_hits: u64) -> (r: String)
    ensures
        r@ == json_recall_header(expected_hits),
{
    let mut s = String::new();
    push_char(&mut s, '{');
    push_char(&mut s, '"');
    push_char(&mut s, 'e');
    push_char(&mut s, 'x');
    push_char(&mut s, 'p');
    push_char(&mut s, 'e');
    push_char(&mut s, 'c');
    push_char(&mut s, 't');
    push_char(&mut s, 'e');
    push_char(&mut s, 'd');
    push_char(&mut s, '_');
    push_char(&mut s, 'h');
    push_char(&mut s, 'i');
    push_char(&mut s, 't');
    push_char(&mut s, 's');
    push_char(&mut s, '"');
    push_char(&mut s, ':');
    append_u64(&mut s, expected_hits);
    push_char(&mut s, '}');
    assert(s@ =~= json_recall_header(expected_hits));
    s
}

/// Appends a JSON array of numbers.
fn append_u64_list(s: &mut String, ids: &Vec<u64>)
    ensures
        final(s)@ == old(s)@ + json_u64_list(ids@),
{
    push_char(s, '[');
    let mut i: usize = 0;
    while i < ids.len()
        invariant
            i <= ids@.len(),
            s@ =~= old(s)@ + seq!['['] + join_dec(ids@.subrange(0, i as int)),
        decreases ids@.len() - i,
    {
        proof {
            assert(ids@.subrange(0, i + 1).drop_last() =~= ids@.subrange(0, i as int));
            assert(ids@.subrange(0, i + 1).last() == ids@[i as int]);
        }
        if i > 0 {
            push_char(s, ',');
        }
        append_u64(s, ids[i]);
        proof {
            if i == 0 {
                assert(ids@.subrange(0, 1) =~= seq![ids@[0]]);
            }
            assert(s@ =~= old(s)@ + seq!['['] + join_dec(ids@.subrange(0, i + 1)));
        }
        i = i + 1;
    }
    push_char(s, ']');
    proof {
        assert(ids@.subrange(0, ids@.len() as int) =~= ids@);
        assert(final(s)@ =~= old(s)@ + json_u64_list(ids@));
    }
}

/// Buffers decoded result sets off the hot path and renders them as one
/// JSON line per flush. The accumulator is the only writer of its log.
pub struct RecallAccumulator {
    buffer: Vec<(u64, Vec<u64>)>,
}

impl RecallAccumulator {
    /// The buffered `(query id, decoded indices)` pairs.
    pub closed spec fn buffered(&self) -> Seq<(u64, Seq<u64>)> {
        buffer_rows(self.buffer@)
    }

    /// An empty buffer.
    pub fn new() -> (r: RecallAccumulator)
        ensures
            r.buffered() == Seq::<(u64, Seq<u64>)>::empty(),
    {
        let r = RecallAccumulator { buffer: Vec::new() };
        assert(r.buffered() =~= Seq::<(u64, Seq<u64>)>::empty());
        r
    }

    /// Handles one message: `Add` decodes every result identifier back into
    /// its dataset index and buffers the pair; `Write` renders the whole
    /// buffer as one JSON line, to be appended to the log, and clears it.
    pub fn handle(&mut self, msg: Group) -> (r: Option<String>)
        requires
            msg matches Group::Add { vectors, .. } ==> forall|i: int|
                0 <= i < vectors@.len() ==> (#[trigger] vectors@[i]).wf(),
        ensures
            match msg {
                Group::Add { query_id, vectors } => {
                    &&& r is None
                    &&& final(self).buffered() == old(self).buffered().push(
                        (query_id, decoded_ids(vectors@.map_values(|v: FakeUuid| v@))),
                    )
                },
                Group::Write => {
                    &&& r matches Some(line) && line@ == json_recall_line(old(self).buffered())
                    &&& final(self).buffered() == Seq::<(u64, Seq<u64>)>::empty()
                },
            },
    {
        match msg {
            Group::Add { query_id, vectors } => {
                let ghost views = vectors@.map_values(|v: FakeUuid| v@);
                let mut decoded: Vec<u64> = Vec::new();
                let mut i: usize = 0;
                while i < vectors.len()
                    invariant
                        i <= vectors@.len(),
                        views == vectors@.map_values(|v: FakeUuid| v@),
                        forall|j: int| 0 <= j < vectors@.len() ==> (#[trigger] vectors@[j]).wf(),
                        decoded@ =~= decoded_ids(views).subrange(0, i as int),
                    decreases vectors@.len() - i,
                {
                    decoded.push(crate::distribution::ids::fake_uuid_to_index(&vectors[i]));
                    i = i + 1;
                    assert(decoded@ =~= decoded_ids(views).subrange(0, i as int));
                }
                proof {
                    assert(decoded@ =~= decoded_ids(views));
                }
                self.buffer.push((query_id, decoded));
                proof {
                    assert(final(self).buffered() =~= old(self).buffered().push(
                        (query_id, decoded_ids(views)),
                    ));
                }
                None
            },
            Group::Write => {
                let mut line = String::new();
                push_char(&mut line, '[');
                let mut i: usize = 0;
                while i < self.buffer.len()
                    invariant
                        i <= self.buffer@.len(),
                        line@ =~= seq!['['] + join_pairs(
                            buffer_rows(self.buffer@).subrange(0, i as int),
                        ),
                    decreases self.buffer@.len() - i,
                {
                    let ghost rows = buffer_rows(self.buffer@);
                    proof {
                        assert(rows.subrange(0, i + 1).drop_last() =~= rows.subrange(0, i as int));
                        assert(rows.subrange(0, i + 1).last() == rows[i as int]);
                    }
                    if i > 0 {
                        push_char(&mut line, ',');
                    }
                    push_char(&mut line, '[');
                    append_u64(&mut line, self.buffer[i].0);
                    push_char(&mut line, ',');
                    append_u64_list(&mut line, &self.buffer[i].1);
                    push_char(&mut line, ']');
                    proof {
                        if i == 0 {
                            assert(rows.subrange(0, 1) =~= seq![rows[0]]);
                        }
                        assert(line@ =~= seq!['['] + join_pairs(rows.subrange(0, i + 1)));
                    }
                    i = i + 1;
                }
                push_char(&mut line, ']');
                proof {
                    assert(buffer_rows(self.buffer@).subrange(
                        0,
                        self.buffer@.len() as int,
                    ) =~= buffer_rows(self.buffer@));
                    assert(line@ =~= json_recall_line(old(self).buffered()));
                }
                self.buffer = Vec::new();
                proof {
                    assert(final(self).buffered() =~= Seq::<(u64, Seq<u64>)>::empty());
                }
                Some(line)
            },
        }
    }
}

/// The fixed suite of query-throughput trials, in order: two unfiltered
/// breadth settings, filtered trials over growing neighbor counts, a
/// payload-fetching trial, a breadth-versus-count trial, a worker-count
/// sweep, and a neighbor-count sweep at fixed breadth.
pub open spec fn spec_trial_plan() -> Seq<(IngestionParameters, QueryParameters)> {
    seq![
        (IngestionParameters { m: 16, ef_construct: 100 }, QueryParameters { k: 10, ef: 10, fetch_payload: false, number_of_tasks: 5, queries_per_task: 10, use_filters: false }),
        (IngestionParameters { m: 16, ef_construct: 100 }, QueryParameters { k: 10, ef: 200, fetch_payload: false, number_of_tasks: 5, queries_per_task: 10, use_filters: false }),
        (IngestionParameters { m: 16, ef_construct: 100 }, QueryParameters { k: 10, ef: 10, fetch_payload: false, number_of_tasks: 5, queries_per_task: 10, use_filters: true }),
        (IngestionParameters { m: 16, ef_construct: 100 }, QueryParameters { k: 50, ef: 50, fetch_payload: false, number_of_tasks: 5, queries_per_task: 10, use_filters: true }),
        (IngestionParameters { m: 16, ef_construct: 100 }, QueryParameters { k: 100, ef: 100, fetch_payload: false, number_of_tasks: 5, queries_per_task: 10, use_filters: true }),
        (IngestionParameters { m: 16, ef_construct: 100 }, QueryParameters { k: 100, ef: 100, fetch_payload: true, number_of_tasks: 5, queries_per_task: 10, use_filters: true }),
        (IngestionParameters { m: 16, ef_construct: 100 }, QueryParameters { k: 10, ef: 100, fetch_payload: false, number_of_tasks: 5, queries_per_task: 10, use_filters: true }),
        (IngestionParameters { m: 16, ef_construct: 100 }, QueryParameters { k: 10, ef: 100, fetch_payload: false, number_of_tasks: 5, queries_per_task: 1, use_filters: true }),
        (IngestionParameters { m: 16, ef_construct: 100 }, QueryParameters { k: 10, ef: 100, fetch_payload: false, number_of_tasks: 10, queries_per_task: 1, use_filters: true }),
        (IngestionParameters { m: 16, ef_construct: 100 }, QueryParameters { k: 10, ef: 100, fetch_payload: false, number_of_tasks: 20, queries_per_task: 1, use_filters: true }),
        (IngestionParameters { m: 16, ef_construct: 100 }, QueryParameters { k: 5, ef: 50, fetch_payload: false, number_of_tasks: 5, queries_per_task: 10, use_filters: true }),
        (IngestionParameters { m: 16, ef_construct: 100 }, QueryParameters { k: 25, ef: 50, fetch_payload: false, number_of_tasks: 5, queries_per_task: 10, use_filters: true }),
        (IngestionParameters { m: 16, ef_construct: 100 }, QueryParameters { k: 50, ef: 50, fetch_payload: false, number_of_tasks: 5, queries_per_task: 10, use_filters: true }),
    ]
}

/// The fixed suite of query-throughput trials; every entry satisfies the
/// trial constraints.
pub fn trial_plan() -> (r: Vec<(IngestionParameters, QueryParameters)>)
    ensures
        r@ == spec_trial_plan(),
        r@.len() == 13,
        forall|i: int| 0 <= i < r@.len() ==> (#[trigger] r@[i]).1.valid(),
{
    let mut plan: Vec<(IngestionParameters, QueryParameters)> = Vec::new();
    plan.push((IngestionParameters { m: 16, ef_construct: 100 }, QueryParameters { k: 10, ef: 10, fetch_payload: false, number_of_tasks: 5, queries_per_task: 10, use_filters: false }));
    plan.push((IngestionParameters { m: 16, ef_construct: 100 }, QueryParameters { k: 10, ef: 200, fetch_payload: false, number_of_tasks: 5, queries_per_task: 10, use_filters: false }));
    plan.push((IngestionParameters { m: 16, ef_construct: 100 }, QueryParameters { k: 10, ef: 10, fetch_payload: false, number_of_tasks: 5, queries_per_task: 10, use_filters: true }));
    plan.push((IngestionParameters { m: 16, ef_construct: 100 }, QueryParameters { k: 50, ef: 50, fetch_payload: false, number_of_tasks: 5, queries_per_task: 10, use_filters: true }));
    plan.push((IngestionParameters { m: 16, ef_construct: 100 }, QueryParameters { k: 100, ef: 100, fetch_payload: false, number_of_tasks: 5, queries_per_task: 10, use_filters: true }));
    plan.push((IngestionParameters { m: 16, ef_construct: 100 }, QueryParameters { k: 100, ef: 100, fetch_payload: true, number_of_tasks: 5, queries_per_task: 10, use_filters: true }));
    plan.push((IngestionParameters { m: 16, ef_construct: 100 }, QueryParameters { k: 10, ef: 100, fetch_payload: false, number_of_tasks: 5, queries_per_task: 10, use_filters: true }));
    plan.push((IngestionParameters { m: 16, ef_construct: 100 }, QueryParameters { k: 10, ef: 100, fetch_payload: false, number_of_tasks: 5, queries_per_task: 1, use_filters: true }));
    plan.push((IngestionParameters { m: 16, ef_construct: 100 }, QueryParameters { k: 10, ef: 100, fetch_payload: false, number_of_tasks: 10, queries_per_task: 1, use_filters: true }));
    plan.push((IngestionParameters { m: 16, ef_construct: 100 }, QueryParameters { k: 10, ef: 100, fetch_payload: false, number_of_tasks: 20, queries_per_task: 1, use_filters: true }));
    plan.push((IngestionParameters { m: 16, ef_construct: 100 }, QueryParameters { k: 5, ef: 50, fetch_payload: false, number_of_tasks: 5, queries_per_task: 10, use_filters: true }));
    plan.push((IngestionParameters { m: 16, ef_construct: 100 }, QueryParameters { k: 25, ef: 50, fetch_payload: false, number_of_tasks: 5, queries_per_task: 10, use_filters: true }));
    plan.push((IngestionParameters { m: 16, ef_construct: 100 }, QueryParameters { k: 50, ef: 50, fetch_payload: false, number_of_tasks: 5, queries_per_task: 10, use_filters: true }));
    assert(plan@ =~= spec_trial_plan());
    plan
}

} // verus!
