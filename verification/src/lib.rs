//! Parser for the periodic status line of a disk-benchmarking tool.
//!
//! One call to [`parse_eta_line`] turns a line such as
//! `"Jobs: 94 (f=94): [R(6),M(29),M(31)][37.5%][r=7354MiB/s][r=1883k IOPS][eta 00m:25s]"`
//! into a structured [`FioEtaLine`] record plus the unconsumed remainder, or a
//! [`ParseError`] naming the failing position.

pub mod outside;
pub mod scan;
pub mod types;
pub mod utils;
pub mod parse;

pub use types::fold_job_statuses;
pub use types::{FioEtaLine, FioIOPS, FioRateLimit, FioSpeed, JobStatus, JobStatuses};
pub use types::{ParseError, ParseFault};
pub use parse::parse_eta_line;
pub use utils::{parse_decimal, parse_iops_str, parse_speed_str, parse_u32};

pub use byte_unit;
pub use rust_decimal;
