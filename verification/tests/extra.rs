use std::time::Duration;

use fio_eta_line::parse::{parse_eta_time, parse_job_status, parse_rate_limit, parse_speed};
use fio_eta_line::{
    fold_job_statuses, parse_decimal, parse_eta_line, parse_iops_str, parse_speed_str, parse_u32,
    FioIOPS, FioRateLimit, FioSpeed, JobStatus, JobStatuses, ParseFault,
};
use rust_decimal::Decimal;

#[test]
fn fold_accumulates_repeated_status() {
    let entries = vec![
        (JobStatus::SeqRead, 1),
        (JobStatus::SeqRead, 2),
        (JobStatus::RandWrite, 4),
    ];
    let folded = fold_job_statuses(&entries);
    assert_eq!(folded.seq_read, 3);
    assert_eq!(folded.rand_write, 4);
    assert_eq!(folded.count(JobStatus::SeqRead), 3);
    let sum = folded.initialized
        + folded.pre_reading
        + folded.ramp_period
        + folded.seq_read
        + folded.rand_read
        + folded.seq_write
        + folded.rand_write
        + folded.seq_trim
        + folded.rand_trim
        + folded.mixed_seq_reads_writes
        + folded.mixed_rand_reads_writes
        + folded.waiting_fsync
        + folded.verify_written_data
        + folded.finishing
        + folded.exited_not_reaped
        + folded.reaped
        + folded.exited_with_error
        + folded.exited_due_to_signal
        + folded.unknown;
    assert_eq!(sum, 1 + 2 + 4);
}

#[test]
fn fold_empty_is_zero() {
    let folded = fold_job_statuses(&Vec::new());
    assert_eq!(folded, JobStatuses::default());
}

#[test]
fn status_char_mapping() {
    assert_eq!(JobStatus::from_char('R'), JobStatus::SeqRead);
    assert_eq!(JobStatus::from_char('_'), JobStatus::Reaped);
    assert_eq!(JobStatus::from_char('Z'), JobStatus::Unknown('Z'));
    let parsed = parse_job_status("M(7)rest").unwrap();
    assert_eq!(parsed, ("rest", (JobStatus::MixedSeqReadsWrites, 7)));
}

#[test]
fn unknown_status_char_still_counted() {
    let result = parse_eta_line("Jobs: 1 (f=1): [Z(3)][1.0%][eta 00m:01s]").unwrap();
    assert_eq!(result.1.job_statuses.unknown, 3);
}

#[test]
fn empty_status_list() {
    let result = parse_eta_line("Jobs: 0 (f=0): [][3.0%][eta 00m:01s]").unwrap();
    assert_eq!(result.1.job_statuses, JobStatuses::default());
}

#[test]
fn parse_twice_equal() {
    let line = "Jobs: 94 (f=94): [R(6),M(29),M(31)][37.5%][r=7354MiB/s][r=1883k IOPS][eta 00m:25s]";
    let first = parse_eta_line(line);
    let second = parse_eta_line(line);
    assert_eq!(first, second);
    assert_eq!(first.unwrap().1, second.unwrap().1);
}

#[test]
fn comma_block_read_only() {
    let result = parse_speed("[r=7354MiB/s]").unwrap();
    assert_eq!(
        result.1,
        FioSpeed {
            read: Some(7354 * 1024 * 1024),
            write: None,
            trim: None,
        }
    );
}

#[test]
fn comma_block_unknown_letter_ignored() {
    let result = parse_speed("[x=5MiB/s,r=1MiB/s]").unwrap();
    assert_eq!(
        result.1,
        FioSpeed {
            read: Some(1024 * 1024),
            write: None,
            trim: None,
        }
    );
}

#[test]
fn eta_time_formula() {
    let result = parse_eta_time("83d:07h:59m:55s").unwrap();
    let expected = (((83 * 24 + 7) * 60 + 59) * 60 + 55) as u64;
    assert_eq!(result, ("", Duration::from_secs(expected)));
    let short = parse_eta_time("00m:25s").unwrap();
    assert_eq!(short, ("", Duration::from_secs(25)));
}

#[test]
fn rate_limit_clause_absent() {
    let (rest, limit) = parse_rate_limit(": [M(1)]");
    assert_eq!(limit, FioRateLimit::NoRateLimit);
    assert_eq!(rest, ": [M(1)]");
}

#[test]
fn rate_limit_malformed_degrades() {
    let result = parse_eta_line(
        "Jobs: 1 (f=1), nonsense: [M(1)][1.0%][eta 00m:01s]",
    )
    .unwrap();
    assert_eq!(result.1.rate_limit, FioRateLimit::NoRateLimit);
}

#[test]
fn speed_and_iops_value_parsing() {
    assert_eq!(parse_speed_str("2048KiB/s"), Some(2048 * 1024));
    assert_eq!(parse_speed_str("0B/s"), Some(0));
    assert_eq!(parse_iops_str("1883k"), Some(1883_000));
    assert_eq!(parse_iops_str("256"), Some(256));
    assert_eq!(parse_iops_str(""), None);
    assert_eq!(parse_speed_str("junk"), None);
}

#[test]
fn primitive_parser_faults() {
    let err = parse_u32("abc").unwrap_err();
    assert_eq!(err.fault, ParseFault::Integer);
    let err = parse_u32("99999999999").unwrap_err();
    assert_eq!(err.fault, ParseFault::Integer);
    let err = parse_decimal("x").unwrap_err();
    assert_eq!(err.fault, ParseFault::Decimal);
    let ok = parse_u32("007x").unwrap();
    assert_eq!(ok, ("x", 7));
    let ok = parse_decimal("37.5%").unwrap();
    assert_eq!(ok, ("%", Decimal::from_str_exact("37.5").unwrap()));
}

#[test]
fn line_faults() {
    let err = parse_eta_line("Hello").unwrap_err();
    assert_eq!(err.fault, ParseFault::Literal);
    let err = parse_eta_line("Jobs: 1 (f=1): [W(1)][5.7][eta 00m:30s]").unwrap_err();
    assert_eq!(err.fault, ParseFault::Delimiter);
    assert!(parse_eta_line("Jobs: 1 (f=1): [W(1)][5.7%][r=bogus[eta 00m:30s]").is_err());
    assert!(parse_eta_line("Jobs: 1 (f=1): [W(1)][5.7%]").is_err());
}

#[test]
fn remainder_is_returned() {
    let result = parse_eta_line("Jobs: 1 (f=1): [W(1)][5.7%][eta 00m:30s] tail").unwrap();
    assert_eq!(result.0, " tail");
    assert_eq!(result.1.eta, Duration::from_secs(30));
    assert_eq!(result.1.speed, FioSpeed::default());
    assert_eq!(result.1.iops, FioIOPS::default());
}
