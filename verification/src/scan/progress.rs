//! How far a scan has come.

use std::time::UNIX_EPOCH;
use vstd::prelude::*;

verus! {

/// What a scan is doing.
#[derive(Debug, Clone, Copy, PartialEq, Eq, Structural)]
pub enum Phase {
    Idle,
    Walking,
    TagRead,
    Upsert,
    Postprocess,
}

impl Phase {
    pub open spec fn name(self) -> Seq<char> {
        match self {
            Phase::Idle => "idle"@,
            Phase::Walking => "walking"@,
            Phase::TagRead => "tag_read"@,
            Phase::Upsert => "upsert"@,
            Phase::Postprocess => "postprocess"@,
        }
    }

    pub fn as_str(self) -> (r: &'static str)
        ensures
            r@ == self.name(),
    {
        match self {
            Phase::Idle => "idle",
            Phase::Walking => "walking",
            Phase::TagRead => "tag_read",
            Phase::Upsert => "upsert",
            Phase::Postprocess => "postprocess",
        }
    }
}

/// The progress of the scan that is running, if one is.
pub struct ScanProgress {
    phase: Phase,
    current: usize,
    total: usize,
    started_at: i64,
}

/// Progress as it is reported.
#[derive(Debug)]
pub struct ScanProgressSnapshot {
    pub phase: &'static str,
    pub current: usize,
    pub total: usize,
    pub started_at: i64,
    pub elapsed_ms: u64,
}

/// Phase, work done, work to do, and when the scan began (0 for none).
pub struct ProgressView {
    pub phase: Phase,
    pub current: usize,
    pub total: usize,
    pub started_at: i64,
}

impl View for ScanProgress {
    type V = ProgressView;

    closed spec fn view(&self) -> ProgressView {
        ProgressView {
            phase: self.phase,
            current: self.current,
            total: self.total,
            started_at: self.started_at,
        }
    }
}

/// No scan.
pub open spec fn idle() -> ProgressView {
    ProgressView { phase: Phase::Idle, current: 0, total: 0, started_at: 0 }
}

/// Milliseconds from the start of a scan to `now`, in whole seconds and as far as
/// they can be counted; none where no scan runs or the clock went back.
pub open spec fn elapsed_ms(started_at: i64, now: i64) -> u64 {
    if started_at > 0 && now > started_at {
        if (now - started_at) * 1000 <= u64::MAX {
            ((now - started_at) * 1000) as u64
        } else {
            u64::MAX
        }
    } else {
        0
    }
}

/// The clock, in seconds of Unix time: `SystemTime::elapsed` of `UNIX_EPOCH`.
#[verifier::external_body]
pub(crate) fn unix_now_secs() -> i64 {
    UNIX_EPOCH.elapsed().map(|d| d.as_secs() as i64).unwrap_or(0)
}

impl Default for ScanProgress {
    fn default() -> (r: Self)
        ensures
            r@ == idle(),
    {
        ScanProgress::new()
    }
}

impl ScanProgress {
    pub fn new() -> (r: Self)
        ensures
            r@ == idle(),
    {
        ScanProgress { phase: Phase::Idle, current: 0, total: 0, started_at: 0 }
    }

    /// A scan begins at `now`.
    pub fn begin_scan_at(&mut self, now: i64)
        ensures
            final(self)@ == (ProgressView {
                phase: Phase::Walking,
                current: 0,
                total: 0,
                started_at: now,
            }),
    {
        self.phase = Phase::Walking;
        self.current = 0;
        self.total = 0;
        self.started_at = now;
    }

    /// A scan begins, at the time that the clock shows.
    pub fn begin_scan(&mut self)
        ensures
            final(self)@.phase == Phase::Walking,
            final(self)@.current == 0,
            final(self)@.total == 0,
    {
        self.begin_scan_at(unix_now_secs())
    }

    /// The next phase begins, with `total` pieces of work to do.
    pub fn enter(&mut self, phase: Phase, total: usize)
        ensures
            final(self)@ == (ProgressView {
                phase,
                current: 0,
                total,
                started_at: old(self)@.started_at,
            }),
    {
        self.phase = phase;
        self.current = 0;
        self.total = total;
    }

    /// One piece of work is done.
    pub fn tick(&mut self)
        ensures
            final(self)@ == (ProgressView {
                current: old(self)@.current.wrapping_add(1),
                ..old(self)@
            }),
    {
        self.advance(1)
    }

    /// `n` pieces of work are done.
    pub fn advance(&mut self, n: usize)
        ensures
            final(self)@ == (ProgressView {
                current: old(self)@.current.wrapping_add(n),
                ..old(self)@
            }),
    {
        self.current = self.current.wrapping_add(n);
    }

    /// The scan is over, whether it succeeded or not.
    pub fn finish(&mut self)
        ensures
            final(self)@ == idle(),
    {
        self.phase = Phase::Idle;
        self.current = 0;
        self.total = 0;
        self.started_at = 0;
    }

    pub fn current(&self) -> (r: usize)
        ensures
            r == self@.current,
    {
        self.current
    }

    pub fn total(&self) -> (r: usize)
        ensures
            r == self@.total,
    {
        self.total
    }

    pub fn phase(&self) -> (r: Phase)
        ensures
            r == self@.phase,
    {
        self.phase
    }

    /// What is reported at `now`.
    pub fn snapshot_at(&self, now: i64) -> (r: ScanProgressSnapshot)
        ensures
            r.phase@ == self@.phase.name(),
            r.current == self@.current,
            r.total == self@.total,
            r.started_at == self@.started_at,
            r.elapsed_ms == elapsed_ms(self@.started_at, now),
    {
        let elapsed: u64 = if self.started_at > 0 && now > self.started_at {
            let seconds: u64 = (now - self.started_at) as u64;
            if seconds <= u64::MAX / 1000 {
                seconds * 1000
            } else {
                u64::MAX
            }
        } else {
            0
        };
        ScanProgressSnapshot {
            phase: self.phase.as_str(),
            current: self.current,
            total: self.total,
            started_at: self.started_at,
            elapsed_ms: elapsed,
        }
    }

    /// What is reported at the time that the clock shows.
    pub fn snapshot(&self) -> (r: ScanProgressSnapshot)
        ensures
            r.phase@ == self@.phase.name(),
            r.current == self@.current,
            r.total == self@.total,
            r.started_at == self@.started_at,
            exists|now: i64| r.elapsed_ms == #[trigger] elapsed_ms(self@.started_at, now),
    {
        self.snapshot_at(unix_now_secs())
    }
}

} // verus!
