//! Beacon termination: decode batches of browser reporting-API beacons,
//! enrich them with privacy-truncated client data, and assemble newline-
//! delimited JSON log lines, isolating per-report failures.

pub mod client_data;
pub mod core_web_vital;
pub mod csp_violation;
pub mod errors;
pub mod ip_prefix;
pub mod json;
pub mod json_laws;
pub mod json_parse;
pub mod json_ser;
pub mod log_line;
pub mod network_error_log;
pub mod pipeline;
pub mod report;
pub mod text;
