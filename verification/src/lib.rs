pub mod api_errors;
pub mod bench_config;
pub mod bench_plan;
pub mod bench_results;
pub mod frame;
pub mod frame_json;
pub mod json;
pub mod oracle_query;
pub mod text;
pub mod users;
