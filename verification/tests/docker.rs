use vdb_benchmarks::docker::{
    parse_mem_current_max, parse_percentage, DockerStats, LineParser, Ratio, GB, GIB,
};
use vdb_benchmarks::error::ParseError;

fn as_f64(r: Ratio) -> f64 {
    r.num as f64 / r.den as f64
}

#[test]
fn test_parsing_dual_mem_stats() {
    assert_eq!(as_f64(parse_mem_current_max("10GiB / 20GiB", GIB).unwrap()), 10.);
    assert_eq!(as_f64(parse_mem_current_max("1024MiB / 20GiB", GIB).unwrap()), 1.);
    assert_eq!(as_f64(parse_mem_current_max("2500000KB / 20GiB", GB).unwrap()), 2.5);
    assert_eq!(
        as_f64(parse_mem_current_max("4250000000B / 20GiB", GB).unwrap()),
        4.25
    );
}

#[test]
fn test_parse_parsing_docker_stats_line() {
    let parser = LineParser::new("qdrant");
    let stat_point = parser.parse("\u{1b}[2J\u{1b}[H{\"BlockIO\":\"24.6kB / 17.4GB\",\"CPUPerc\":\"7.46%\",\"Container\":\"67dec669eced\",\"ID\":\"67dec669eced\",\"MemPerc\":\"53.88%\",\"MemUsage\":\"4.311GiB / 8GiB\",\"Name\":\"qdrant_node-3_1\",\"NetIO\":\"2.88GB / 8.64MB\",\"PIDs\":\"38\"}").unwrap();
    let stat_point = stat_point.expect("line should match the qdrant prefix");
    assert_eq!(as_f64(stat_point.memory), 4.311);
    assert_eq!(as_f64(stat_point.cpu), 7.46);
    assert_eq!(as_f64(stat_point.block_io), 2.46e-05);
    assert_eq!(as_f64(stat_point.net_io), 2.88);
}

#[test]
fn foreign_container_yields_no_sample() {
    let parser = LineParser::new("qdrant");
    let r = parser.parse("{\"BlockIO\":\"24.6kB / 17.4GB\",\"CPUPerc\":\"7.46%\",\"MemUsage\":\"4.311GiB / 8GiB\",\"Name\":\"vespa_node-1_1\",\"NetIO\":\"2.88GB / 8.64MB\"}");
    assert_eq!(r.unwrap(), None);
}

#[test]
fn all_escape_line_yields_no_sample() {
    let parser = LineParser::new("qdrant");
    assert_eq!(parser.parse("\u{1b}[2J\u{1b}[H").unwrap(), None);
}

#[test]
fn malformed_matching_line_is_fatal() {
    let parser = LineParser::new("qdrant");
    assert_eq!(
        parser.parse("this is not json").unwrap_err(),
        ParseError::MalformedStatLine
    );
    let r = parser.parse("{\"BlockIO\":\"nonsense\",\"CPUPerc\":\"7.46%\",\"MemUsage\":\"4.311GiB / 8GiB\",\"Name\":\"qdrant_node-3_1\",\"NetIO\":\"2.88GB / 8.64MB\"}");
    assert_eq!(r.unwrap_err(), ParseError::MalformedByteSize);
    let r = parser.parse("{\"BlockIO\":\"24.6kB / 17.4GB\",\"CPUPerc\":\"abc\",\"MemUsage\":\"4.311GiB / 8GiB\",\"Name\":\"qdrant_node-3_1\",\"NetIO\":\"2.88GB / 8.64MB\"}");
    assert_eq!(r.unwrap_err(), ParseError::MalformedPercentage);
}

#[test]
fn bare_binary_unit_is_rejected() {
    assert_eq!(
        parse_mem_current_max("10iB / 20GiB", GIB).unwrap_err(),
        ParseError::MalformedByteSize
    );
    assert_eq!(
        parse_mem_current_max("garbage", GIB).unwrap_err(),
        ParseError::MalformedByteSize
    );
}

#[test]
fn percentage_parses_exactly() {
    let r = parse_percentage("7.46%").unwrap();
    assert_eq!((r.num, r.den), (746, 100));
    assert!(parse_percentage("7.46").is_err());
}

#[test]
fn stats_fold_snapshots() {
    let parser = LineParser::new("qdrant");
    let mut stats = DockerStats::new();
    let point = parser
        .parse("{\"BlockIO\":\"0B / 1GB\",\"CPUPerc\":\"50%\",\"MemUsage\":\"2GiB / 8GiB\",\"Name\":\"qdrant_node-3_1\",\"NetIO\":\"1GB / 1GB\"}")
        .unwrap()
        .unwrap();
    assert!(stats.update(&point));
    let (cpu_sum, cpu_count) = stats.cpu.mean_parts();
    assert_eq!((cpu_sum, cpu_count), (50_000_000, 1));
    assert_eq!(stats.memory.max_micros(), 2_000_000);
}
