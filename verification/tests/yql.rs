use vdb_benchmarks::distribution::label::Labels;
use vdb_benchmarks::distribution::{DateFilter, Label, LabelFilter, QueryPayload};
use vdb_benchmarks::yql::yql_build_query;

fn payload(
    lower: Option<u64>,
    upper: Option<u64>,
    authors: (Vec<u64>, Vec<u64>),
    tags: (Vec<u64>, Vec<u64>),
) -> QueryPayload {
    let labels = |ids: Vec<u64>| Labels(ids.into_iter().map(Label).collect());
    QueryPayload {
        publication_date: DateFilter {
            lower_bound: lower,
            upper_bound: upper,
        },
        authors: LabelFilter {
            included: labels(authors.0),
            excluded: labels(authors.1),
        },
        tags: LabelFilter {
            included: labels(tags.0),
            excluded: labels(tags.1),
        },
    }
}

#[test]
fn test_query_building() {
    let res = yql_build_query(
        10,
        22,
        &payload(
            Some(3661),
            Some(1107309722),
            (vec![12, 5], vec![3]),
            (vec![7], vec![1, 321]),
        ),
        true,
        true,
    );
    assert_eq!(
        res.yql,
        "select * from content where {hnsw.exploreAdditionalHits:12, targetHits:10}nearestNeighbor(embedding, query_embedding) and range(publication_date, 3661, 1107309722) and (authors contains \"00000000-0000-400c-8000-00000000000c\" or authors contains \"00000000-0000-4005-8000-000000000005\") and !(authors contains \"00000000-0000-4003-8000-000000000003\") and (tags contains \"00000000-0000-4007-8000-000000000007\") and !(tags contains \"00000000-0000-4001-8000-000000000001\" or tags contains \"00000000-0000-4141-8000-000000000141\")"
    );
    assert_eq!(res.hits, 10);
    assert_eq!(res.ranking_profile, "ann");
    assert_eq!(res.timeout, "60s");

    let res = yql_build_query(
        10,
        25,
        &payload(Some(3661), None, (vec![], vec![3]), (vec![7], vec![])),
        true,
        true,
    );
    assert_eq!(
        res.yql,
        "select * from content where {hnsw.exploreAdditionalHits:15, targetHits:10}nearestNeighbor(embedding, query_embedding) and range(publication_date, 3661, Infinity) and !(authors contains \"00000000-0000-4003-8000-000000000003\") and (tags contains \"00000000-0000-4007-8000-000000000007\")"
    );
    assert_eq!(res.hits, 10);

    let res = yql_build_query(
        15,
        20,
        &payload(None, None, (vec![], vec![]), (vec![], vec![])),
        true,
        true,
    );
    assert_eq!(
        res.yql,
        "select * from content where {hnsw.exploreAdditionalHits:5, targetHits:15}nearestNeighbor(embedding, query_embedding)"
    );
    assert_eq!(res.hits, 15);

    let res = yql_build_query(
        10,
        20,
        &payload(None, Some(3661), (vec![], vec![]), (vec![], vec![])),
        false,
        true,
    );
    assert_eq!(
        res.yql,
        "select id from content where {hnsw.exploreAdditionalHits:10, targetHits:10}nearestNeighbor(embedding, query_embedding) and range(publication_date, -Infinity, 3661)"
    );
    assert_eq!(res.hits, 10);

    let res = yql_build_query(
        10,
        20,
        &payload(None, Some(3661), (vec![], vec![]), (vec![], vec![])),
        false,
        false,
    );
    assert_eq!(
        res.yql,
        "select id from content where {hnsw.exploreAdditionalHits:10, targetHits:10}nearestNeighbor(embedding, query_embedding)"
    );
    assert_eq!(res.hits, 10);
    assert_eq!(res.timeout, "60s");
}
