//! Building YQL search queries for a Vespa-style backend out of a query
//! payload: a nearest-neighbor clause plus optional date-range and label
//! constraints.

use vstd::prelude::*;
use vstd::string::StringExecFns;

use crate::distribution::ids::{encoded_bytes, index_to_fake_uuid, uuid_str};
use crate::distribution::label::Labels;
use crate::distribution::{DateFilter, LabelFilter, QueryPayload};
use crate::text::{append_u64, dec_str, push_char};

verus! {

/// The rendering of one optional date bound: the timestamp, or an
/// unbounded end.
pub open spec fn bound_str(bound: Option<u64>, unbounded: Seq<char>) -> Seq<char> {
    match bound {
        Some(ts) => dec_str(ts as nat),
        None => unbounded,
    }
}

/// The date-range clause appended for a filter, empty when the filter has
/// no bounds.
pub open spec fn date_range_str(field: Seq<char>, filter: DateFilter) -> Seq<char> {
    if filter.lower_bound is None && filter.upper_bound is None {
        Seq::empty()
    } else {
        " and range("@ + field + ", "@ + bound_str(filter.lower_bound, "-Infinity"@) + ", "@
            + bound_str(filter.upper_bound, "Infinity"@) + ")"@
    }
}

/// The quoted identifier one label renders as.
pub open spec fn label_str(label_id: u64) -> Seq<char> {
    seq!['"'] + uuid_str(encoded_bytes(label_id)) + seq!['"']
}

/// One `<field> contains "<identifier>"` term.
pub open spec fn contains_term_str(field: Seq<char>, label_id: u64) -> Seq<char> {
    field + " contains "@ + label_str(label_id)
}

/// The ` or `-joined contains terms of a label list.
pub open spec fn or_joined_str(field: Seq<char>, labels: Seq<u64>) -> Seq<char>
    decreases labels.len(),
{
    if labels.len() == 0 {
        Seq::empty()
    } else if labels.len() == 1 {
        contains_term_str(field, labels[0])
    } else {
        or_joined_str(field, labels.drop_last()) + " or "@ + contains_term_str(
            field,
            labels.last(),
        )
    }
}

/// The label ids of a label list.
pub open spec fn label_ids(labels: Labels) -> Seq<u64> {
    labels.0@.map_values(|l: crate::distribution::Label| l.0)
}

/// The clause appended for one side of a label filter: empty for no
/// labels, else an ` and `-joined, possibly negated, group.
pub open spec fn label_group_str(field: Seq<char>, labels: Seq<u64>, negate: bool) -> Seq<char> {
    if labels.len() == 0 {
        Seq::empty()
    } else {
        " and "@ + (if negate {
            seq!['!']
        } else {
            Seq::empty()
        }) + seq!['('] + or_joined_str(field, labels) + seq![')']
    }
}

/// Both clauses of a label filter: the required labels, then the negated
/// excluded ones.
pub open spec fn label_filter_str(field: Seq<char>, filter: &LabelFilter) -> Seq<char> {
    label_group_str(field, label_ids(filter.included), false) + label_group_str(
        field,
        label_ids(filter.excluded),
        true,
    )
}

/// Appends a date-range constraint for the field, when the filter has any
/// bound.
pub fn yql_append_date_range(query: &mut String, field: &str, filter: &DateFilter)
    ensures
        final(query)@ == old(query)@ + date_range_str(field@, *filter),
{
    if filter.lower_bound.is_some() || filter.upper_bound.is_some() {
        query.append(" and range(");
        query.append(field);
        query.append(", ");
        match filter.lower_bound {
            Some(ts) => append_u64(query, ts),
            None => query.append("-Infinity"),
        }
        query.append(", ");
        match filter.upper_bound {
            Some(ts) => append_u64(query, ts),
            None => query.append("Infinity"),
        }
        query.append(")");
        assert(final(query)@ =~= old(query)@ + date_range_str(field@, *filter));
    }
}

/// Appends the ` or `-joined contains terms of the labels, negated as one
/// group when asked, when there are any.
#[verifier::rlimit(100)]
pub fn yql_append_or_joined_labels(
    query: &mut String,
    field: &str,
    labels: &Labels,
    negate_group: bool,
)
    ensures
        final(query)@ == old(query)@ + label_group_str(field@, label_ids(*labels), negate_group),
{
    if labels.0.len() == 0 {
        return ;
    }
    query.append(" and ");
    if negate_group {
        push_char(query, '!');
    }
    push_char(query, '(');
    let ghost ids = label_ids(*labels);
    let mut i: usize = 0;
    while i < labels.0.len()
        invariant
            i <= labels.0@.len(),
            ids == label_ids(*labels),
            ids.len() == labels.0@.len(),
            forall|j: int| 0 <= j < ids.len() ==> ids[j] == labels.0@[j].0,
            query@ =~= old(query)@ + " and "@ + (if negate_group {
                seq!['!']
            } else {
                Seq::<char>::empty()
            }) + seq!['('] + or_joined_str(field@, ids.subrange(0, i as int)),
        decreases labels.0@.len() - i,
    {
        proof {
            assert(ids.subrange(0, i + 1).drop_last() =~= ids.subrange(0, i as int));
            assert(ids.subrange(0, i + 1).last() == ids[i as int]);
        }
        if i > 0 {
            query.append(" or ");
        }
        query.append(field);
        query.append(" contains ");
        push_char(query, '"');
        let id = index_to_fake_uuid(labels.0[i].0);
        let rendered = id.hyphenated_string();
        query.append(rendered.as_str());
        push_char(query, '"');
        proof {
            if i == 0 {
                assert(ids.subrange(0, 1) =~= seq![ids[0]]);
            }
            assert(query@ =~= old(query)@ + " and "@ + (if negate_group {
                seq!['!']
            } else {
                Seq::<char>::empty()
            }) + seq!['('] + or_joined_str(field@, ids.subrange(0, i + 1)));
        }
        i = i + 1;
    }
    push_char(query, ')');
    proof {
        assert(ids.subrange(0, ids.len() as int) =~= ids);
        assert(final(query)@ =~= old(query)@ + label_group_str(field@, ids, negate_group));
    }
}

/// Appends both sides of a label filter: the required labels, then the
/// negated excluded ones.
pub fn yql_append_label_filter(query: &mut String, field: &str, filter: &LabelFilter)
    ensures
        final(query)@ == old(query)@ + label_filter_str(field@, filter),
{
    yql_append_or_joined_labels(query, field, &filter.included, false);
    yql_append_or_joined_labels(query, field, &filter.excluded, true);
    assert(final(query)@ =~= old(query)@ + label_filter_str(field@, filter));
}

/// The full YQL text of one query.
pub open spec fn yql_query_str(
    k: usize,
    ef: usize,
    payload: &QueryPayload,
    return_payload: bool,
    use_filter: bool,
) -> Seq<char> {
    "select"@ + (if return_payload {
        " * "@
    } else {
        " id "@
    }) + "from content where {hnsw.exploreAdditionalHits:"@ + dec_str((ef - k) as nat)
        + ", targetHits:"@ + dec_str(k as nat) + "}nearestNeighbor(embedding, query_embedding)"@
        + (if use_filter {
        date_range_str("publication_date"@, payload.publication_date) + label_filter_str(
            "authors"@,
            &payload.authors,
        ) + label_filter_str("tags"@, &payload.tags)
    } else {
        Seq::empty()
    })
}

/// One backend search request, short of the query vector: the YQL text and
/// the fixed request fields around it.
pub struct YqlQuery {
    pub yql: String,
    pub hits: usize,
    pub ranking_profile: String,
    pub timeout: String,
}

/// Builds the YQL request for one query payload: a nearest-neighbor clause
/// exploring `ef - k` additional hits, plus the payload's date and label
/// constraints when filters are on.
#[verifier::rlimit(100)]
pub fn yql_build_query(
    k: usize,
    ef: usize,
    payload: &QueryPayload,
    return_payload: bool,
    use_filter: bool,
) -> (r: YqlQuery)
    requires
        k <= ef,
    ensures
        r.yql@ == yql_query_str(k, ef, payload, return_payload, use_filter),
        r.hits == k,
        r.ranking_profile@ == "ann"@,
        r.timeout@ == "60s"@,
{
    let mut query = String::new();
    query.append("select");
    if return_payload {
        query.append(" * ");
    } else {
        query.append(" id ");
    }
    query.append("from content where {hnsw.exploreAdditionalHits:");
    append_u64(&mut query, (ef - k) as u64);
    query.append(", targetHits:");
    append_u64(&mut query, k as u64);
    query.append("}nearestNeighbor(embedding, query_embedding)");
    if use_filter {
        yql_append_date_range(&mut query, "publication_date", &payload.publication_date);
        yql_append_label_filter(&mut query, "authors", &payload.authors);
        yql_append_label_filter(&mut query, "tags", &payload.tags);
    }
    assert(query@ =~= yql_query_str(k, ef, payload, return_payload, use_filter));
    YqlQuery {
        yql: query,
        hits: k,
        ranking_profile: String::from_str("ann"),
        timeout: String::from_str("60s"),
    }
}

} // verus!
