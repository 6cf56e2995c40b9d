//! The decisions of the task that serves one device: when to commit, when to
//! look at reports that came unasked, and when to end.

use crate::engine::device::DeviceInfo;
use crate::hal::transport;
use crate::hal::transport::{
    HIDPP_LONG_REPORT_ID, HIDPP_SHORT_REPORT_ID, READ_TIMEOUT_PER_ATTEMPT_MS,
};
use vstd::prelude::*;

verus! {

/// How many queued reports are read in a row, so that a flood of them cannot
/// hold up a commit.
pub const MAX_IDLE_DRAIN: usize = 32;

/// How long a probe may take (ms).
pub const PROBE_TIMEOUT_MS: u64 = 10_000;

/// How long the profiles may take to load (ms).
pub const LOAD_PROFILES_TIMEOUT_MS: u64 = 15_000;

/// The number of device indices that a probe tries.
pub const PROBE_INDEX_COUNT: u64 = 2;

/// The number of attempts that a probe makes at each index.
pub const PROBE_ATTEMPTS: u64 = 2;

/// A probe has time for every attempt at every index, even if all of them stay
/// without an answer.
pub proof fn probe_timeout_covers_attempts()
    ensures
        PROBE_INDEX_COUNT * PROBE_ATTEMPTS * READ_TIMEOUT_PER_ATTEMPT_MS <= PROBE_TIMEOUT_MS,
{
}

/// What woke the task.
#[derive(Debug, Clone, Copy, PartialEq, Eq, Structural)]
pub enum Wakeup {
    /// Somebody wants the changes committed.
    Commit,
    /// The device is going away.
    Shutdown,
    /// Nobody can send messages any more.
    Closed,
    /// A report is queued.
    Readable,
    /// The device can no longer be watched.
    WatchFailed,
}

/// What the task does next.
#[derive(Debug, Clone, Copy, PartialEq, Eq, Structural)]
pub enum ActorStep {
    Commit,
    DrainReports,
    Wait,
    Exit,
}

/// The state of the task between two wakeups.
#[derive(Debug, Clone, Copy, PartialEq, Eq, Structural)]
pub struct ActorState {
    /// Whether queued reports wake the task.
    pub watch_idle: bool,
}

impl ActorState {
    /// The task watches the device if its driver understands notifications.
    pub fn new(wants_unsolicited_events: bool) -> (r: Self)
        ensures
            r.watch_idle == wants_unsolicited_events,
    {
        ActorState { watch_idle: wants_unsolicited_events }
    }

    /// Decides what a wakeup calls for. A device that can no longer be watched
    /// is not watched again.
    pub fn wake(&mut self, w: Wakeup) -> (r: ActorStep)
        ensures
            r == (match w {
                Wakeup::Commit => ActorStep::Commit,
                Wakeup::Shutdown => ActorStep::Exit,
                Wakeup::Closed => ActorStep::Exit,
                Wakeup::Readable => ActorStep::DrainReports,
                Wakeup::WatchFailed => ActorStep::Wait,
            }),
            final(self).watch_idle == (old(self).watch_idle && w != Wakeup::WatchFailed),
    {
        match w {
            Wakeup::Commit => ActorStep::Commit,
            Wakeup::Shutdown => ActorStep::Exit,
            Wakeup::Closed => ActorStep::Exit,
            Wakeup::Readable => ActorStep::DrainReports,
            Wakeup::WatchFailed => {
                self.watch_idle = false;
                ActorStep::Wait
            },
        }
    }
}

/// The state of the device after a commit: nothing is left to be written if it
/// succeeded; otherwise nothing changes.
pub fn after_commit(info: &DeviceInfo, succeeded: bool) -> (r: DeviceInfo)
    ensures
        r@ == (if succeeded {
            info@.without_dirty_flags()
        } else {
            info@
        }),
{
    if succeeded {
        info.with_cleared_dirty_flags()
    } else {
        info.clone()
    }
}

/// Whether a report is one that a driver may understand.
pub open spec fn is_notification(report: Seq<u8>) -> bool {
    report.len() > 0 && (report[0] == HIDPP_SHORT_REPORT_ID || report[0] == HIDPP_LONG_REPORT_ID)
}

/// What came of reading a queued report.
#[derive(Debug)]
pub enum IdleRead {
    Report(Vec<u8>),
    /// The queue is empty.
    Empty,
    Failed,
}

/// Queued reports on their way in.
#[derive(Debug)]
pub struct IdleDrain {
    reads: usize,
    reports: Vec<Vec<u8>>,
}

impl IdleDrain {
    /// How many reports have been read.
    pub closed spec fn read_count(&self) -> nat {
        self.reads as nat
    }

    /// The reports that were kept.
    pub closed spec fn kept(&self) -> Seq<Seq<u8>> {
        transport::reports_view(self.reports@)
    }

    pub fn new() -> (r: Self)
        ensures
            r.read_count() == 0,
            r.kept() == Seq::<Seq<u8>>::empty(),
    {
        let r = IdleDrain { reads: 0, reports: Vec::new() };
        assert(r.kept() =~= Seq::<Seq<u8>>::empty());
        r
    }

    /// Takes in what was read, keeps it if a driver may understand it, and says
    /// whether to read on.
    pub fn offer(&mut self, read: IdleRead) -> (more: bool)
        requires
            old(self).read_count() < MAX_IDLE_DRAIN,
        ensures
            match read {
                IdleRead::Report(report) => {
                    &&& final(self).read_count() == old(self).read_count() + 1
                    &&& more == (final(self).read_count() < MAX_IDLE_DRAIN)
                    &&& final(self).kept() == (if is_notification(report@) {
                        old(self).kept().push(report@)
                    } else {
                        old(self).kept()
                    })
                },
                _ => !more && *final(self) == *old(self),
            },
    {
        match read {
            IdleRead::Report(report) => {
                self.reads += 1;
                if report.len() > 0 && (report[0] == HIDPP_SHORT_REPORT_ID || report[0]
                    == HIDPP_LONG_REPORT_ID) {
                    let ghost before = self.reports@;
                    self.reports.push(report);
                    assert(transport::reports_view(self.reports@) =~= transport::reports_view(
                        before,
                    ).push(report@));
                }
                self.reads < MAX_IDLE_DRAIN
            },
            _ => false,
        }
    }

    /// The reports to be handled: those just read, then those that were kept
    /// while requests were pending.
    pub fn finish(self, pending: Vec<Vec<u8>>) -> (r: Vec<Vec<u8>>)
        ensures
            transport::reports_view(r@) == self.kept() + transport::reports_view(pending@),
    {
        let mut r: Vec<Vec<u8>> = self.reports;
        let mut rest: Vec<Vec<u8>> = pending;
        r.append(&mut rest);
        assert(transport::reports_view(r@) =~= self.kept() + transport::reports_view(pending@));
        r
    }
}

} // verus!
