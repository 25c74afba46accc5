//! The batching plan of mass ingestion: documents are uploaded in fixed
//! batches, each document keyed by the identifier encoding its index.

use vstd::prelude::*;

verus! {

/// How many documents one ingestion batch carries.
pub const BATCH_SIZE: usize = 100;

/// The consecutive `[start, end)` index ranges ingestion uploads: chunks
/// of `batch_size` covering every document once, in order, with only the
/// last chunk possibly smaller.
pub fn ingestion_batch_bounds(nr_documents: usize, batch_size: usize) -> (r: Vec<(usize, usize)>)
    requires
        batch_size >= 1,
    ensures
        r@.len() > 0 ==> (r@[0].0 == 0 && r@[r@.len() - 1].1 == nr_documents),
        r@.len() == 0 ==> nr_documents == 0,
        forall|i: int| 0 <= i < r@.len() ==> (#[trigger] r@[i]).0 < r@[i].1,
        forall|i: int|
            0 <= i < r@.len() ==> (#[trigger] r@[i]).1 - r@[i].0 <= batch_size,
        forall|i: int| 0 < i < r@.len() ==> (#[trigger] r@[i]).0 == r@[i - 1].1,
    {
    let mut r: Vec<(usize, usize)> = Vec::new();
    let mut start: usize = 0;
    while start < nr_documents
        invariant
            start <= nr_documents,
            r@.len() > 0 ==> (r@[0].0 == 0 && r@[r@.len() - 1].1 == start),
            r@.len() == 0 ==> start == 0,
            forall|i: int| 0 <= i < r@.len() ==> (#[trigger] r@[i]).0 < r@[i].1,
            forall|i: int|
                0 <= i < r@.len() ==> (#[trigger] r@[i]).1 - r@[i].0 <= batch_size,
            forall|i: int| 0 < i < r@.len() ==> (#[trigger] r@[i]).0 == r@[i - 1].1,
            batch_size >= 1,
        decreases nr_documents - start,
    {
        let end = if nr_documents - start < batch_size {
            nr_documents
        } else {
            start + batch_size
        };
        r.push((start, end));
        start = end;
    }
    r
}

} // verus!
