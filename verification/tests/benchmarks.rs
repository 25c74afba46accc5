use vdb_benchmarks::benchmarks::query_throughput::{
    recall_header, trial_plan, Group, RecallAccumulator,
};
use vdb_benchmarks::benchmarks::{bench_id, IngestionParameters, QueryParameters};
use vdb_benchmarks::distribution::ids::index_to_fake_uuid;
use vdb_benchmarks::error::ConfigError;

fn params(k: usize, ef: usize, fetch: bool, tasks: usize, qpt: usize, filters: bool) -> QueryParameters {
    QueryParameters {
        k,
        ef,
        fetch_payload: fetch,
        number_of_tasks: tasks,
        queries_per_task: qpt,
        use_filters: filters,
    }
}

#[test]
fn trial_identifiers_render_like_their_parameters() {
    let q = params(10, 22, true, 5, 10, false);
    assert_eq!(q.format_id(), "10-22Pf-5-10");
    let q = params(100, 100, false, 20, 1, true);
    assert_eq!(q.format_id(), "100-100pF-20-1");
    let i = IngestionParameters { m: 16, ef_construct: 100 };
    assert_eq!(i.format_id(), "16-100");
    assert_eq!(bench_id(&i, &params(10, 22, true, 5, 10, false)), "16-100_10-22Pf-5-10");
}

#[test]
fn trial_parameters_are_validated() {
    assert!(params(10, 22, false, 5, 10, false).validate().is_ok());
    assert_eq!(
        params(23, 22, false, 5, 10, false).validate().unwrap_err(),
        ConfigError::InvalidTrialParameters
    );
    assert_eq!(
        params(10, 22, false, 0, 10, false).validate().unwrap_err(),
        ConfigError::InvalidTrialParameters
    );
    assert_eq!(
        params(10, 22, false, 5, 0, false).validate().unwrap_err(),
        ConfigError::InvalidTrialParameters
    );
    assert_eq!(params(10, 22, false, 5, 10, false).total_queries(), Some(50));
    assert!(params(10, 22, false, 5, 10, true).recall_enabled() == false);
    assert!(params(10, 22, false, 5, 10, false).recall_enabled());
}

#[test]
fn the_trial_plan_is_well_formed() {
    let plan = trial_plan();
    assert_eq!(plan.len(), 13);
    for (iparams, qparams) in &plan {
        assert_eq!((iparams.m, iparams.ef_construct), (16, 100));
        assert!(qparams.validate().is_ok());
    }
    assert_eq!(plan[0].1, params(10, 10, false, 5, 10, false));
    assert_eq!(plan[1].1, params(10, 200, false, 5, 10, false));
    assert_eq!(plan[12].1, params(50, 50, false, 5, 10, true));
}

#[test]
fn recall_accumulator_buffers_and_flushes_json_lines() {
    let mut acc = RecallAccumulator::new();
    let r = acc.handle(Group::Add {
        query_id: 1,
        vectors: vec![index_to_fake_uuid(2), index_to_fake_uuid(3)],
    });
    assert!(r.is_none());
    let r = acc.handle(Group::Add {
        query_id: 4,
        vectors: vec![index_to_fake_uuid(5)],
    });
    assert!(r.is_none());
    let line = acc.handle(Group::Write).unwrap();
    assert_eq!(line, "[[1,[2,3]],[4,[5]]]");
    // the buffer is cleared by the flush
    let line = acc.handle(Group::Write).unwrap();
    assert_eq!(line, "[]");
    let r = acc.handle(Group::Add {
        query_id: 0,
        vectors: Vec::new(),
    });
    assert!(r.is_none());
    assert_eq!(acc.handle(Group::Write).unwrap(), "[[0,[]]]");
}

#[test]
fn recall_header_names_the_expected_hits() {
    assert_eq!(recall_header(10), "{\"expected_hits\":10}");
    assert_eq!(recall_header(0), "{\"expected_hits\":0}");
}
