use dataframe_api::bench_config::{parse_endpoint_list, BenchConfig, ConfigError, EnvValues};
use dataframe_api::bench_plan::{
    available_endpoints, batch_chunks, client_settings, probe_decision, warmup_client_settings,
    warmup_waves, EndpointTable, ProbeOutcome, RunProgress,
};
use dataframe_api::bench_results::{
    count_successes, latency_sample_indices, percentile_ranks, request_status,
};

fn unset() -> EnvValues {
    EnvValues {
        concurrency: None,
        requests: None,
        duration: None,
        no_warmup: None,
        no_keepalive: None,
        force_all: None,
        base_url: None,
        endpoints: None,
        results_dir: None,
        default_req_per_batch: None,
    }
}

fn config_with(concurrency: usize, requests: usize, batch: usize) -> BenchConfig {
    let mut c = BenchConfig::from_env_values(&unset()).ok().unwrap();
    c.concurrency = concurrency;
    c.requests = requests;
    c.default_req_per_batch = batch;
    c
}

#[test]
fn config_defaults() {
    let c = BenchConfig::from_env_values(&unset()).ok().unwrap();
    assert_eq!(c.concurrency, 100);
    assert_eq!(c.requests, 10_000_000);
    assert_eq!(c.duration, 15);
    assert!(!c.no_warmup && !c.no_keepalive && !c.force_all);
    assert_eq!(c.base_url, "http://localhost:8080");
    assert_eq!(c.endpoints, vec!["/users-df".to_string()]);
    assert_eq!(c.results_dir, "results");
    assert_eq!(c.default_req_per_batch, 500);
}

#[test]
fn config_overrides() {
    let mut v = unset();
    v.concurrency = Some("+8".to_string());
    v.duration = Some("18446744073709551615".to_string());
    v.force_all = Some("true".to_string());
    v.endpoints = Some(" /users , /user,/users-df-json ".to_string());
    let c = BenchConfig::from_env_values(&v).ok().unwrap();
    assert_eq!(c.concurrency, 8);
    assert_eq!(c.duration, u64::MAX);
    assert!(c.force_all);
    assert_eq!(c.endpoints, vec!["/users".to_string(), "/user".to_string(), "/users-df-json".to_string()]);
}

#[test]
fn config_errors_name_the_first_bad_variable() {
    let mut v = unset();
    v.requests = Some("-1".to_string());
    v.no_warmup = Some("yes".to_string());
    assert_eq!(BenchConfig::from_env_values(&v).err(), Some(ConfigError::Requests));
    let bad: Vec<(fn(&mut EnvValues), ConfigError)> = vec![
        (|v| v.concurrency = Some("ten".to_string()), ConfigError::Concurrency),
        (|v| v.requests = Some("".to_string()), ConfigError::Requests),
        (|v| v.duration = Some("18446744073709551616".to_string()), ConfigError::Duration),
        (|v| v.no_warmup = Some("True".to_string()), ConfigError::NoWarmup),
        (|v| v.no_keepalive = Some("1".to_string()), ConfigError::NoKeepalive),
        (|v| v.force_all = Some(" true".to_string()), ConfigError::ForceAll),
        (|v| v.default_req_per_batch = Some("+".to_string()), ConfigError::DefaultReqPerBatch),
    ];
    for (set, expected) in bad {
        let mut v = unset();
        set(&mut v);
        assert_eq!(BenchConfig::from_env_values(&v).err(), Some(expected));
    }
    assert_eq!(ConfigError::Concurrency.message(), "CONCURRENCY deve ser um número");
    assert_eq!(ConfigError::ForceAll.message(), "FORCE_ALL deve ser true ou false");
}

#[test]
fn endpoint_list_pieces() {
    assert_eq!(parse_endpoint_list(""), vec!["".to_string()]);
    assert_eq!(parse_endpoint_list("a,,b"), vec!["a".to_string(), "".to_string(), "b".to_string()]);
    assert_eq!(parse_endpoint_list("\t/x\u{3000}, /y\n"), vec!["/x".to_string(), "/y".to_string()]);
}

#[test]
fn client_settings_with_and_without_keepalive() {
    let c = config_with(100, 1000, 500);
    let s = client_settings(&c);
    assert_eq!(s.user_agent, "rust-benchmark/0.1.0");
    assert_eq!(s.pool_max_idle_per_host, 400);
    assert!(s.tcp_nodelay);
    assert_eq!(s.timeout_secs, Some(60));
    assert_eq!(s.pool_idle_timeout_secs, Some(300));
    assert_eq!(s.http2_keep_alive_timeout_secs, Some(300));
    let mut off = config_with(100, 1000, 500);
    off.no_keepalive = true;
    let s = client_settings(&off);
    assert_eq!(s.pool_max_idle_per_host, 0);
    assert_eq!(s.pool_idle_timeout_secs, None);
    assert_eq!(s.http2_keep_alive_timeout_secs, None);
    let w = warmup_client_settings(&c);
    assert_eq!(w.pool_max_idle_per_host, 100);
    assert_eq!(w.pool_idle_timeout_secs, Some(30));
    assert_eq!(w.timeout_secs, None);
}

#[test]
fn warmup_has_three_growing_waves() {
    let w = warmup_waves(150);
    let got: Vec<(usize, usize)> = w.iter().map(|x| (x.requests, x.parallelism)).collect();
    assert_eq!(got, vec![(100, 100), (200, 150), (300, 150)]);
}

#[test]
fn batches_split_into_chunks_of_a_thousand() {
    assert_eq!(batch_chunks(0), Vec::<usize>::new());
    assert_eq!(batch_chunks(1), vec![1]);
    assert_eq!(batch_chunks(1000), vec![1000]);
    assert_eq!(batch_chunks(1001), vec![1000, 1]);
    assert_eq!(batch_chunks(2500), vec![1000, 1000, 500]);
    assert_eq!(batch_chunks(7777).iter().sum::<usize>(), 7777);
}

#[test]
fn run_progress_follows_the_batch_rules() {
    let c = config_with(100, 1500, 500);
    let mut p = RunProgress::start(&c);
    assert_eq!(p.batch_size, 100);
    let mut sizes = Vec::new();
    while p.should_continue(&c, true) {
        let b = p.plan_batch(&c);
        sizes.push(b);
        p.record_batch(b);
    }
    assert_eq!(p.current, 1500);
    assert_eq!(sizes.len(), 15);
    assert!(sizes.iter().all(|&b| b == 100));
    assert!(!p.should_continue(&c, true));
    let fresh = RunProgress::start(&c);
    assert!(!fresh.should_continue(&c, false));
}

#[test]
fn run_progress_never_overshoots() {
    let c = config_with(100, 10, 500);
    let mut p = RunProgress::start(&c);
    let b = p.plan_batch(&c);
    assert_eq!(b, 10);
    p.record_batch(b);
    assert_eq!(p.current, 10);
    assert!(!p.should_continue(&c, true));
    let c = config_with(100, 250, 500);
    let mut p = RunProgress::start(&c);
    let mut sizes = Vec::new();
    while p.should_continue(&c, true) {
        let b = p.plan_batch(&c);
        sizes.push(b);
        p.record_batch(b);
    }
    assert_eq!(sizes, vec![100, 100, 50]);
    assert_eq!(p.current, 250);
    let c = config_with(100, 1050, 500);
    let mut p = RunProgress { current: 1001, batch_size: 100 };
    assert_eq!(p.plan_batch(&c), 49);
    p.record_batch(49);
    assert_eq!(p.current, 1050);
}

#[test]
fn probe_decisions() {
    assert_eq!(probe_decision(&ProbeOutcome::Status(200), false), Some(200));
    assert_eq!(probe_decision(&ProbeOutcome::Status(399), false), Some(399));
    assert_eq!(probe_decision(&ProbeOutcome::Status(404), false), None);
    assert_eq!(probe_decision(&ProbeOutcome::Status(404), true), Some(404));
    assert_eq!(probe_decision(&ProbeOutcome::Failed, false), None);
    assert_eq!(probe_decision(&ProbeOutcome::Failed, true), Some(0));
}

#[test]
fn endpoint_table_reads_back_the_last_write() {
    let mut t = EndpointTable::new();
    assert!(t.is_empty());
    t.insert("/a".to_string(), 200);
    t.insert("/b".to_string(), 500);
    t.insert("/a".to_string(), 201);
    assert!(!t.is_empty());
    assert_eq!(t.get("/a"), Some(201));
    assert_eq!(t.get("/b"), Some(500));
    assert_eq!(t.get("/c"), None);
}

#[test]
fn available_endpoints_keep_working_ones() {
    let endpoints = vec!["/ok".to_string(), "/missing".to_string(), "/down".to_string()];
    let outcomes = vec![ProbeOutcome::Status(200), ProbeOutcome::Status(404), ProbeOutcome::Failed];
    let t = available_endpoints(&endpoints, &outcomes, false);
    assert_eq!(t.get("/ok"), Some(200));
    assert_eq!(t.get("/missing"), None);
    assert_eq!(t.get("/down"), None);
    let t = available_endpoints(&endpoints, &outcomes, true);
    assert_eq!(t.get("/ok"), Some(200));
    assert_eq!(t.get("/missing"), Some(404));
    assert_eq!(t.get("/down"), Some(0));
    let none = available_endpoints(&vec!["/x".to_string()], &vec![ProbeOutcome::Status(500)], false);
    assert!(none.is_empty());
}

#[test]
fn success_counting_and_statuses() {
    assert_eq!(count_successes(&vec![true, false, true, true]), 3);
    assert_eq!(count_successes(&Vec::new()), 0);
    assert_eq!(request_status(Some(204)), (204, true));
    assert_eq!(request_status(Some(199)), (199, false));
    assert_eq!(request_status(Some(300)), (300, false));
    assert_eq!(request_status(None), (0, false));
}

#[test]
fn latency_samples() {
    assert_eq!(latency_sample_indices(3), vec![0, 1, 2]);
    assert_eq!(latency_sample_indices(10_000).len(), 10_000);
    let sample = latency_sample_indices(25_000);
    assert_eq!(sample.len(), 10_000);
    let mut sorted = sample.clone();
    sorted.sort();
    sorted.dedup();
    assert_eq!(sorted.len(), 10_000);
    assert!(sorted.iter().all(|&i| i < 25_000));
}

#[test]
fn percentile_ranks_bracket_the_position() {
    assert_eq!(percentile_ranks(1, 50), (0, 0));
    assert_eq!(percentile_ranks(5, 50), (2, 2));
    assert_eq!(percentile_ranks(4, 50), (1, 2));
    assert_eq!(percentile_ranks(10_000, 99), (9899, 9900));
    assert_eq!(percentile_ranks(101, 90), (90, 90));
    assert_eq!(percentile_ranks(7, 100), (6, 6));
    assert_eq!(percentile_ranks(7, 0), (0, 0));
    assert_eq!(percentile_ranks(1, 150), (0, 0));
}

#[test]
fn repeated_endpoints_keep_the_last_kept_status() {
    let endpoints = vec!["/a".to_string(), "/a".to_string(), "/a".to_string()];
    let outcomes = vec![ProbeOutcome::Status(200), ProbeOutcome::Status(201), ProbeOutcome::Status(500)];
    let t = available_endpoints(&endpoints, &outcomes, false);
    assert_eq!(t.get("/a"), Some(201));
}
