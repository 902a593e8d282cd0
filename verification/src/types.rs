//! The data model: job-status categories and their aggregate counters, the
//! throughput triples, the rate-limit variants, the parsed-line record, and
//! the parse fault value.

use vstd::prelude::*;
use core::time::Duration;
use rust_decimal::Decimal;

verus! {

/// One job's reported phase, keyed by the single status character the
/// benchmarking tool prints per worker. The mapping from characters is total:
/// an unrecognized character lands in `Unknown` and is still counted.
#[derive(Debug, Clone, Copy, PartialEq, Eq)]
pub enum JobStatus {
    Initialized,
    PreReading,
    RampPeriod,
    SeqRead,
    RandRead,
    SeqWrite,
    RandWrite,
    SeqTrim,
    RandTrim,
    MixedSeqReadsWrites,
    MixedRandReadsWrites,
    WaitingFsync,
    VerifyWrittenData,
    Finishing,
    ExitedNotReaped,
    Reaped,
    ExitedWithError,
    ExitedDueToSignal,
    Unknown(char),
}

/// The total character-to-category mapping.
pub open spec fn spec_status_of_char(c: char) -> JobStatus {
    match c {
        'I' => JobStatus::Initialized,
        'p' => JobStatus::PreReading,
        '/' => JobStatus::RampPeriod,
        'R' => JobStatus::SeqRead,
        'r' => JobStatus::RandRead,
        'W' => JobStatus::SeqWrite,
        'w' => JobStatus::RandWrite,
        'D' => JobStatus::SeqTrim,
        'd' => JobStatus::RandTrim,
        'M' => JobStatus::MixedSeqReadsWrites,
        'm' => JobStatus::MixedRandReadsWrites,
        'F' => JobStatus::WaitingFsync,
        'V' => JobStatus::VerifyWrittenData,
        'f' => JobStatus::Finishing,
        'E' => JobStatus::ExitedNotReaped,
        '_' => JobStatus::Reaped,
        'X' => JobStatus::ExitedWithError,
        'K' => JobStatus::ExitedDueToSignal,
        _ => JobStatus::Unknown(c),
    }
}

impl JobStatus {
    /// Maps a status character to its category, `Unknown` as the fallback.
    pub fn from_char(c: char) -> (s: JobStatus)
        ensures
            s == spec_status_of_char(c),
    {
        match c {
            'I' => JobStatus::Initialized,
            'p' => JobStatus::PreReading,
            '/' => JobStatus::RampPeriod,
            'R' => JobStatus::SeqRead,
            'r' => JobStatus::RandRead,
            'W' => JobStatus::SeqWrite,
            'w' => JobStatus::RandWrite,
            'D' => JobStatus::SeqTrim,
            'd' => JobStatus::RandTrim,
            'M' => JobStatus::MixedSeqReadsWrites,
            'm' => JobStatus::MixedRandReadsWrites,
            'F' => JobStatus::WaitingFsync,
            'V' => JobStatus::VerifyWrittenData,
            'f' => JobStatus::Finishing,
            'E' => JobStatus::ExitedNotReaped,
            '_' => JobStatus::Reaped,
            'X' => JobStatus::ExitedWithError,
            'K' => JobStatus::ExitedDueToSignal,
            _ => JobStatus::Unknown(c),
        }
    }
}

/// Aggregate job counts, one counter per status category. Counters only grow
/// while `(status, count)` entries are folded in; additions saturate at
/// `u32::MAX` instead of wrapping.
#[derive(Debug, Clone, Copy, PartialEq, Eq)]
pub struct JobStatuses {
    pub initialized: u32,
    pub pre_reading: u32,
    pub ramp_period: u32,
    pub seq_read: u32,
    pub rand_read: u32,
    pub seq_write: u32,
    pub rand_write: u32,
    pub seq_trim: u32,
    pub rand_trim: u32,
    pub mixed_seq_reads_writes: u32,
    pub mixed_rand_reads_writes: u32,
    pub waiting_fsync: u32,
    pub verify_written_data: u32,
    pub finishing: u32,
    pub exited_not_reaped: u32,
    pub reaped: u32,
    pub exited_with_error: u32,
    pub exited_due_to_signal: u32,
    pub unknown: u32,
}

/// All counters zero.
pub open spec fn spec_zero_statuses() -> JobStatuses {
    JobStatuses {
        initialized: 0,
        pre_reading: 0,
        ramp_period: 0,
        seq_read: 0,
        rand_read: 0,
        seq_write: 0,
        rand_write: 0,
        seq_trim: 0,
        rand_trim: 0,
        mixed_seq_reads_writes: 0,
        mixed_rand_reads_writes: 0,
        waiting_fsync: 0,
        verify_written_data: 0,
        finishing: 0,
        exited_not_reaped: 0,
        reaped: 0,
        exited_with_error: 0,
        exited_due_to_signal: 0,
        unknown: 0,
    }
}

/// Addition on a counter, saturating at `u32::MAX`.
pub open spec fn sat_add32(a: u32, b: u32) -> u32 {
    if a + b > u32::MAX {
        u32::MAX
    } else {
        (a + b) as u32
    }
}

impl JobStatuses {
    /// The counter that a status category selects.
    pub open spec fn spec_count(self, status: JobStatus) -> u32 {
        match status {
            JobStatus::Initialized => self.initialized,
            JobStatus::PreReading => self.pre_reading,
            JobStatus::RampPeriod => self.ramp_period,
            JobStatus::SeqRead => self.seq_read,
            JobStatus::RandRead => self.rand_read,
            JobStatus::SeqWrite => self.seq_write,
            JobStatus::RandWrite => self.rand_write,
            JobStatus::SeqTrim => self.seq_trim,
            JobStatus::RandTrim => self.rand_trim,
            JobStatus::MixedSeqReadsWrites => self.mixed_seq_reads_writes,
            JobStatus::MixedRandReadsWrites => self.mixed_rand_reads_writes,
            JobStatus::WaitingFsync => self.waiting_fsync,
            JobStatus::VerifyWrittenData => self.verify_written_data,
            JobStatus::Finishing => self.finishing,
            JobStatus::ExitedNotReaped => self.exited_not_reaped,
            JobStatus::Reaped => self.reaped,
            JobStatus::ExitedWithError => self.exited_with_error,
            JobStatus::ExitedDueToSignal => self.exited_due_to_signal,
            JobStatus::Unknown(_) => self.unknown,
        }
    }

    /// `self` with the counter of `status` raised by `n`, saturating.
    pub open spec fn spec_record(self, status: JobStatus, n: u32) -> JobStatuses {
        match status {
            JobStatus::Initialized => JobStatuses { initialized: sat_add32(self.initialized, n), ..self },
            JobStatus::PreReading => JobStatuses { pre_reading: sat_add32(self.pre_reading, n), ..self },
            JobStatus::RampPeriod => JobStatuses { ramp_period: sat_add32(self.ramp_period, n), ..self },
            JobStatus::SeqRead => JobStatuses { seq_read: sat_add32(self.seq_read, n), ..self },
            JobStatus::RandRead => JobStatuses { rand_read: sat_add32(self.rand_read, n), ..self },
            JobStatus::SeqWrite => JobStatuses { seq_write: sat_add32(self.seq_write, n), ..self },
            JobStatus::RandWrite => JobStatuses { rand_write: sat_add32(self.rand_write, n), ..self },
            JobStatus::SeqTrim => JobStatuses { seq_trim: sat_add32(self.seq_trim, n), ..self },
            JobStatus::RandTrim => JobStatuses { rand_trim: sat_add32(self.rand_trim, n), ..self },
            JobStatus::MixedSeqReadsWrites => JobStatuses {
                mixed_seq_reads_writes: sat_add32(self.mixed_seq_reads_writes, n),
                ..self
            },
            JobStatus::MixedRandReadsWrites => JobStatuses {
                mixed_rand_reads_writes: sat_add32(self.mixed_rand_reads_writes, n),
                ..self
            },
            JobStatus::WaitingFsync => JobStatuses { waiting_fsync: sat_add32(self.waiting_fsync, n), ..self },
            JobStatus::VerifyWrittenData => JobStatuses {
                verify_written_data: sat_add32(self.verify_written_data, n),
                ..self
            },
            JobStatus::Finishing => JobStatuses { finishing: sat_add32(self.finishing, n), ..self },
            JobStatus::ExitedNotReaped => JobStatuses {
                exited_not_reaped: sat_add32(self.exited_not_reaped, n),
                ..self
            },
            JobStatus::Reaped => JobStatuses { reaped: sat_add32(self.reaped, n), ..self },
            JobStatus::ExitedWithError => JobStatuses {
                exited_with_error: sat_add32(self.exited_with_error, n),
                ..self
            },
            JobStatus::ExitedDueToSignal => JobStatuses {
                exited_due_to_signal: sat_add32(self.exited_due_to_signal, n),
                ..self
            },
            JobStatus::Unknown(_) => JobStatuses { unknown: sat_add32(self.unknown, n), ..self },
        }
    }

    /// The sum of all counters.
    pub open spec fn spec_total(self) -> int {
        self.initialized + self.pre_reading + self.ramp_period + self.seq_read + self.rand_read
            + self.seq_write + self.rand_write + self.seq_trim + self.rand_trim
            + self.mixed_seq_reads_writes + self.mixed_rand_reads_writes + self.waiting_fsync
            + self.verify_written_data + self.finishing + self.exited_not_reaped + self.reaped
            + self.exited_with_error + self.exited_due_to_signal + self.unknown
    }

    /// The counter that a status category selects (counterpart of indexing).
    pub fn count(&self, status: JobStatus) -> (n: u32)
        ensures
            n == self.spec_count(status),
    {
        match status {
            JobStatus::Initialized => self.initialized,
            JobStatus::PreReading => self.pre_reading,
            JobStatus::RampPeriod => self.ramp_period,
            JobStatus::SeqRead => self.seq_read,
            JobStatus::RandRead => self.rand_read,
            JobStatus::SeqWrite => self.seq_write,
            JobStatus::RandWrite => self.rand_write,
            JobStatus::SeqTrim => self.seq_trim,
            JobStatus::RandTrim => self.rand_trim,
            JobStatus::MixedSeqReadsWrites => self.mixed_seq_reads_writes,
            JobStatus::MixedRandReadsWrites => self.mixed_rand_reads_writes,
            JobStatus::WaitingFsync => self.waiting_fsync,
            JobStatus::VerifyWrittenData => self.verify_written_data,
            JobStatus::Finishing => self.finishing,
            JobStatus::ExitedNotReaped => self.exited_not_reaped,
            JobStatus::Reaped => self.reaped,
            JobStatus::ExitedWithError => self.exited_with_error,
            JobStatus::ExitedDueToSignal => self.exited_due_to_signal,
            JobStatus::Unknown(_) => self.unknown,
        }
    }

    /// Raises the counter of `status` by `n` (counterpart of mutable
    /// indexing plus addition), saturating at `u32::MAX`.
    pub fn record(&mut self, status: JobStatus, n: u32)
        ensures
            *final(self) == old(self).spec_record(status, n),
    {
        match status {
            JobStatus::Initialized => {
                self.initialized = self.initialized.saturating_add(n);
            },
            JobStatus::PreReading => {
                self.pre_reading = self.pre_reading.saturating_add(n);
            },
            JobStatus::RampPeriod => {
                self.ramp_period = self.ramp_period.saturating_add(n);
            },
            JobStatus::SeqRead => {
                self.seq_read = self.seq_read.saturating_add(n);
            },
            JobStatus::RandRead => {
                self.rand_read = self.rand_read.saturating_add(n);
            },
            JobStatus::SeqWrite => {
                self.seq_write = self.seq_write.saturating_add(n);
            },
            JobStatus::RandWrite => {
                self.rand_write = self.rand_write.saturating_add(n);
            },
            JobStatus::SeqTrim => {
                self.seq_trim = self.seq_trim.saturating_add(n);
            },
            JobStatus::RandTrim => {
                self.rand_trim = self.rand_trim.saturating_add(n);
            },
            JobStatus::MixedSeqReadsWrites => {
                self.mixed_seq_reads_writes = self.mixed_seq_reads_writes.saturating_add(n);
            },
            JobStatus::MixedRandReadsWrites => {
                self.mixed_rand_reads_writes = self.mixed_rand_reads_writes.saturating_add(n);
            },
            JobStatus::WaitingFsync => {
                self.waiting_fsync = self.waiting_fsync.saturating_add(n);
            },
            JobStatus::VerifyWrittenData => {
                self.verify_written_data = self.verify_written_data.saturating_add(n);
            },
            JobStatus::Finishing => {
                self.finishing = self.finishing.saturating_add(n);
            },
            JobStatus::ExitedNotReaped => {
                self.exited_not_reaped = self.exited_not_reaped.saturating_add(n);
            },
            JobStatus::Reaped => {
                self.reaped = self.reaped.saturating_add(n);
            },
            JobStatus::ExitedWithError => {
                self.exited_with_error = self.exited_with_error.saturating_add(n);
            },
            JobStatus::ExitedDueToSignal => {
                self.exited_due_to_signal = self.exited_due_to_signal.saturating_add(n);
            },
            JobStatus::Unknown(_) => {
                self.unknown = self.unknown.saturating_add(n);
            },
        }
    }
}

impl Default for JobStatuses {
    /// All counters zero.
    fn default() -> (r: JobStatuses)
        ensures
            r == spec_zero_statuses(),
    {
        JobStatuses {
            initialized: 0,
            pre_reading: 0,
            ramp_period: 0,
            seq_read: 0,
            rand_read: 0,
            seq_write: 0,
            rand_write: 0,
            seq_trim: 0,
            rand_trim: 0,
            mixed_seq_reads_writes: 0,
            mixed_rand_reads_writes: 0,
            waiting_fsync: 0,
            verify_written_data: 0,
            finishing: 0,
            exited_not_reaped: 0,
            reaped: 0,
            exited_with_error: 0,
            exited_due_to_signal: 0,
            unknown: 0,
        }
    }
}

/// The counters that folding a sequence of `(status, count)` entries yields,
/// starting from all-zero and accumulating left to right.
pub open spec fn spec_fold_statuses(entries: Seq<(JobStatus, u32)>) -> JobStatuses
    decreases entries.len(),
{
    if entries.len() == 0 {
        spec_zero_statuses()
    } else {
        spec_fold_statuses(entries.drop_last()).spec_record(entries.last().0, entries.last().1)
    }
}

/// The sum of the counts of a sequence of `(status, count)` entries.
pub open spec fn spec_sum_counts(entries: Seq<(JobStatus, u32)>) -> int
    decreases entries.len(),
{
    if entries.len() == 0 {
        0
    } else {
        spec_sum_counts(entries.drop_last()) + entries.last().1
    }
}

/// Folds `(status, count)` entries into aggregate counters by summation:
/// several entries for one status accumulate instead of overwriting.
pub fn fold_job_statuses(entries: &Vec<(JobStatus, u32)>) -> (r: JobStatuses)
    ensures
        r == spec_fold_statuses(entries@),
{
    let mut r = JobStatuses::default();
    let mut i: usize = 0;
    while i < entries.len()
        invariant
            0 <= i <= entries.len(),
            r == spec_fold_statuses(entries@.subrange(0, i as int)),
        decreases entries.len() - i,
    {
        let (status, n) = entries[i];
        r.record(status, n);
        proof {
            assert(entries@.subrange(0, i + 1).drop_last() =~= entries@.subrange(0, i as int));
            assert(entries@.subrange(0, i + 1).last() == entries@[i as int]);
        }
        i = i + 1;
    }
    proof {
        assert(entries@.subrange(0, entries@.len() as int) =~= entries@);
    }
    r
}

/// Law: as long as the counts do not overflow a counter, folding entries
/// into `JobStatuses` preserves every count exactly — the sum of all
/// counters equals the sum of the folded counts.
pub proof fn lemma_fold_statuses_total(entries: Seq<(JobStatus, u32)>)
    requires
        spec_sum_counts(entries) <= u32::MAX,
    ensures
        spec_fold_statuses(entries).spec_total() == spec_sum_counts(entries),
    decreases entries.len(),
{
    if entries.len() > 0 {
        lemma_sum_counts_nonneg(entries.drop_last());
        lemma_fold_statuses_total(entries.drop_last());
    }
}

pub proof fn lemma_sum_counts_nonneg(entries: Seq<(JobStatus, u32)>)
    ensures
        0 <= spec_sum_counts(entries),
    decreases entries.len(),
{
    if entries.len() > 0 {
        lemma_sum_counts_nonneg(entries.drop_last());
    }
}

/// Law: when every entry counts a single job, the sum of all counters after
/// folding equals the number of entries folded in.
pub proof fn lemma_fold_statuses_counts_entries(entries: Seq<(JobStatus, u32)>)
    requires
        forall|i: int| 0 <= i < entries.len() ==> (#[trigger] entries[i]).1 == 1,
        entries.len() <= u32::MAX,
    ensures
        spec_fold_statuses(entries).spec_total() == entries.len(),
{
    lemma_sum_counts_all_ones(entries);
    lemma_fold_statuses_total(entries);
}

proof fn lemma_sum_counts_all_ones(entries: Seq<(JobStatus, u32)>)
    requires
        forall|i: int| 0 <= i < entries.len() ==> (#[trigger] entries[i]).1 == 1,
    ensures
        spec_sum_counts(entries) == entries.len(),
    decreases entries.len(),
{
    if entries.len() > 0 {
        lemma_sum_counts_all_ones(entries.drop_last());
    }
}

/// Law: folding one more entry for a status adds its count to that status's
/// counter — repetition accumulates, it does not overwrite.
pub proof fn lemma_fold_statuses_accumulates(
    entries: Seq<(JobStatus, u32)>,
    status: JobStatus,
    n: u32,
)
    requires
        spec_fold_statuses(entries).spec_count(status) + n <= u32::MAX,
    ensures
        spec_fold_statuses(entries.push((status, n))).spec_count(status) == spec_fold_statuses(
            entries,
        ).spec_count(status) + n,
{
    assert(entries.push((status, n)).drop_last() =~= entries);
}

/// Law: recording an entry never lowers any counter.
pub proof fn lemma_record_monotone(js: JobStatuses, status: JobStatus, n: u32, other: JobStatus)
    ensures
        js.spec_record(status, n).spec_count(other) >= js.spec_count(other),
{
}

/// Law: counters only grow as entries are folded in, never decrease.
pub proof fn lemma_fold_statuses_monotone(
    entries: Seq<(JobStatus, u32)>,
    e: (JobStatus, u32),
    status: JobStatus,
)
    ensures
        spec_fold_statuses(entries.push(e)).spec_count(status) >= spec_fold_statuses(
            entries,
        ).spec_count(status),
{
    assert(entries.push(e).drop_last() =~= entries);
    lemma_record_monotone(spec_fold_statuses(entries), e.0, e.1, status);
}

/// A throughput triple of byte-per-second speeds, one optional slot per
/// `r=` / `w=` / `t=` tag of the source block.
#[derive(Debug, Clone, Copy, PartialEq, Eq)]
pub struct FioSpeed {
    pub read: Option<u64>,
    pub write: Option<u64>,
    pub trim: Option<u64>,
}

impl Default for FioSpeed {
    /// All slots absent.
    fn default() -> (r: FioSpeed)
        ensures
            r == (FioSpeed { read: None, write: None, trim: None }),
    {
        FioSpeed { read: None, write: None, trim: None }
    }
}

/// A throughput triple of I/O-operation counts per second, one optional slot
/// per `r=` / `w=` / `t=` tag of the source block.
#[derive(Debug, Clone, Copy, PartialEq, Eq)]
pub struct FioIOPS {
    pub read: Option<u64>,
    pub write: Option<u64>,
    pub trim: Option<u64>,
}

impl Default for FioIOPS {
    /// All slots absent.
    fn default() -> (r: FioIOPS)
        ensures
            r == (FioIOPS { read: None, write: None, trim: None }),
    {
        FioIOPS { read: None, write: None, trim: None }
    }
}

/// The configured rate limit shown inline in the line, if any. A present but
/// malformed clause degrades to `NoRateLimit` instead of failing the line.
#[derive(Debug, Clone, Copy, PartialEq, Eq)]
pub enum FioRateLimit {
    NoRateLimit,
    /// Bounds in bytes per second.
    SpeedLimit { min: u64, max: u64 },
    /// Bounds in I/O operations per second.
    IOPSLimit { min: u64, max: u64 },
}

impl Default for FioRateLimit {
    /// No limit.
    fn default() -> (r: FioRateLimit)
        ensures
            r == FioRateLimit::NoRateLimit,
    {
        FioRateLimit::NoRateLimit
    }
}

/// The structured record parsed from one status line.
#[derive(Debug, Clone, PartialEq, Eq)]
pub struct FioEtaLine {
    pub jobs_unfinished: u32,
    pub opened_files: u32,
    pub rate_limit: FioRateLimit,
    pub job_statuses: JobStatuses,
    pub progress_percentage: Option<Decimal>,
    pub speed: FioSpeed,
    pub iops: FioIOPS,
    pub eta: Duration,
}

impl Default for FioEtaLine {
    /// Zero counts, no limit, absent percentage, empty triples, zero ETA.
    fn default() -> (r: FioEtaLine)
        ensures
            r.jobs_unfinished == 0,
            r.opened_files == 0,
            r.rate_limit == FioRateLimit::NoRateLimit,
            r.job_statuses == spec_zero_statuses(),
            r.progress_percentage is None,
            r.speed == (FioSpeed { read: None, write: None, trim: None }),
            r.iops == (FioIOPS { read: None, write: None, trim: None }),
            r.eta == crate::outside::duration_of_secs(0),
    {
        FioEtaLine {
            jobs_unfinished: 0,
            opened_files: 0,
            rate_limit: FioRateLimit::NoRateLimit,
            job_statuses: JobStatuses::default(),
            progress_percentage: None,
            speed: FioSpeed::default(),
            iops: FioIOPS::default(),
            eta: crate::outside::duration_from_secs(0),
        }
    }
}

/// Which part of the grammar a hard parse failure came from.
#[derive(Debug, Clone, Copy, PartialEq, Eq)]
pub enum ParseFault {
    /// A mandatory literal token was missing.
    Literal,
    /// A mandatory unsigned integer was missing or out of range.
    Integer,
    /// A decimal number was asked for and absent.
    Decimal,
    /// A delimiter that a scan runs up to never occurred.
    Delimiter,
}

/// A hard parse failure: the failing sub-parser's kind and the character
/// position (within the parsed input) where it gave up.
#[derive(Debug, Clone, Copy, PartialEq, Eq)]
pub struct ParseError {
    pub fault: ParseFault,
    pub at: usize,
}

} // verus!
