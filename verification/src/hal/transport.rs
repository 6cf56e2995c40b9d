//! The exchange of reports with a device node: which reports answer a request,
//! which are kept for later, and when to give up.

use crate::hal::error::DriverError;
use crate::text;
use vstd::prelude::*;

verus! {

/// The size of the largest report of any supported device.
pub const MAX_REPORT_LEN: usize = 4096;

/// The size of the largest report that a request can wait for.
pub const MAX_HID_REPORT: usize = 64;

/// How long an attempt waits for an answer (ms).
pub const READ_TIMEOUT_PER_ATTEMPT_MS: u64 = 2000;

/// How many reports are kept for later.
pub const MAX_PENDING_EVENTS: usize = 64;

pub const HIDPP_SHORT_REPORT_ID: u8 = 0x10;

pub const HIDPP_LONG_REPORT_ID: u8 = 0x11;

/// An ioctl number of the hidraw interface: direction (read and write), size,
/// type `H` and number.
pub open spec fn hidraw_ioctl(nr: u64, len: u64) -> u64 {
    (3u64 << 30) | (0x48u64 << 8) | nr | (len << 16)
}

/// The number of the ioctl that gets a feature report of `len` bytes.
pub fn hid_get_feature_req(len: usize) -> (r: u64)
    ensures
        r == hidraw_ioctl(0x07, len as u64),
{
    (3u64 << 30) | (0x48u64 << 8) | 0x07 | ((len as u64) << 16)
}

/// The number of the ioctl that sets a feature report of `len` bytes.
pub fn hid_set_feature_req(len: usize) -> (r: u64)
    ensures
        r == hidraw_ioctl(0x06, len as u64),
{
    (3u64 << 30) | (0x48u64 << 8) | 0x06 | ((len as u64) << 16)
}

/// For a size that fits its fourteen bits, the parts of an ioctl number do not
/// overlap, and so two sizes have two numbers.
pub proof fn ioctl_fields_are_disjoint(nr: u64, len: u64)
    requires
        nr < 0x100,
        len < 0x4000,
    ensures
        hidraw_ioctl(nr, len) == 0xC000_0000 + len * 0x1_0000 + 0x4800 + nr,
{
    assert((3u64 << 30) | (0x48u64 << 8) | nr | (len << 16) == 0xC000_0000 + len * 0x1_0000 + 0x4800
        + nr) by (bit_vector)
        requires
            nr < 0x100,
            len < 0x4000,
    ;
}

/// Whether a report belongs to normal input, such as the movement of the mouse.
pub open spec fn noise(report: Seq<u8>) -> bool {
    report.len() > 0 && report[0] != HIDPP_SHORT_REPORT_ID && report[0] != HIDPP_LONG_REPORT_ID
}

/// Whether a report belongs to normal input, such as the movement of the mouse.
pub fn is_noise(report: &[u8]) -> (r: bool)
    ensures
        r == noise(report@),
{
    report.len() > 0 && report[0] != HIDPP_SHORT_REPORT_ID && report[0] != HIDPP_LONG_REPORT_ID
}

/// The contents of a list of reports.
pub open spec fn reports_view(s: Seq<Vec<u8>>) -> Seq<Seq<u8>> {
    s.map_values(|v: Vec<u8>| v@)
}

/// Reports that came unasked and wait to be looked at. There is room for
/// [`MAX_PENDING_EVENTS`]; beyond that the oldest is dropped.
#[derive(Debug)]
pub struct PendingEvents {
    events: Vec<Vec<u8>>,
}

impl View for PendingEvents {
    type V = Seq<Seq<u8>>;

    closed spec fn view(&self) -> Seq<Seq<u8>> {
        reports_view(self.events@)
    }
}

/// The reports once one more has come in.
pub open spec fn pushed(events: Seq<Seq<u8>>, event: Seq<u8>) -> Seq<Seq<u8>> {
    if events.len() >= MAX_PENDING_EVENTS {
        events.drop_first().push(event)
    } else {
        events.push(event)
    }
}

impl PendingEvents {
    pub fn new() -> (r: Self)
        ensures
            r@ == Seq::<Seq<u8>>::empty(),
    {
        let r = PendingEvents { events: Vec::new() };
        assert(r@ =~= Seq::<Seq<u8>>::empty());
        r
    }

    /// Keeps a report.
    pub fn push_pending_event(&mut self, event: Vec<u8>)
        ensures
            final(self)@ == pushed(old(self)@, event@),
    {
        let ghost before = self.events@;
        if self.events.len() >= MAX_PENDING_EVENTS {
            let _oldest = self.events.remove(0);
            assert(reports_view(self.events@) =~= reports_view(before).drop_first());
        }
        let ghost kept = self.events@;
        self.events.push(event);
        assert(reports_view(self.events@) =~= reports_view(kept).push(event@));
    }

    /// Hands out every report, oldest first, and keeps none.
    pub fn drain_events(&mut self) -> (r: Vec<Vec<u8>>)
        ensures
            reports_view(r@) == old(self)@,
            final(self)@ == Seq::<Seq<u8>>::empty(),
    {
        let mut r: Vec<Vec<u8>> = Vec::new();
        let ghost all = self.events@;
        r.append(&mut self.events);
        assert(r@ =~= all);
        assert(self@ =~= Seq::<Seq<u8>>::empty());
        r
    }
}

/// However many reports come in, no more than the limit are kept, and the
/// latest is among them.
pub proof fn pending_events_stay_bounded(events: Seq<Seq<u8>>, event: Seq<u8>)
    requires
        events.len() <= MAX_PENDING_EVENTS,
    ensures
        pushed(events, event).len() <= MAX_PENDING_EVENTS,
        pushed(events, event).last() == event,
        events.len() < MAX_PENDING_EVENTS ==> pushed(events, event) == events.push(event),
{
}

/// What became of a report that came while a request was pending.
#[derive(Debug, Clone, Copy, PartialEq, Eq, Structural)]
pub enum Routing {
    /// Normal input: dropped.
    Noise,
    /// The answer to the request.
    Answer,
    /// Something else: kept for later.
    Kept,
}

/// Routes a report that came while a request was pending. `answers` says
/// whether it answers the request; normal input never does.
pub fn route_report(report: &[u8], answers: bool, pending: &mut PendingEvents) -> (r: Routing)
    ensures
        r == (if noise(report@) {
            Routing::Noise
        } else if answers {
            Routing::Answer
        } else {
            Routing::Kept
        }),
        final(pending)@ == (if r == Routing::Kept {
            pushed(old(pending)@, report@)
        } else {
            old(pending)@
        }),
{
    if is_noise(report) {
        Routing::Noise
    } else if answers {
        Routing::Answer
    } else {
        let kept: Vec<u8> = crate::bytes::slice(report, 0, report.len());
        assert(kept@ =~= report@);
        pending.push_pending_event(kept);
        Routing::Kept
    }
}

/// The attempts of a request.
#[derive(Debug, Clone, Copy)]
pub struct Attempts {
    pub made: u8,
    pub max: u8,
}

impl Attempts {
    /// Prepares a request that waits for a report of at most `report_size`
    /// bytes, to be sent `max` times at most.
    pub fn new(report_size: usize, max: u8) -> (r: Result<Attempts, DriverError>)
        ensures
            r is Ok <==> report_size <= MAX_HID_REPORT,
            r is Ok ==> r->Ok_0 == (Attempts { made: 0, max }),
            r is Err ==> r->Err_0 == (DriverError::BufferTooSmall {
                expected: MAX_HID_REPORT,
                actual: report_size,
            }),
    {
        if report_size > MAX_HID_REPORT {
            return Err(
                DriverError::BufferTooSmall { expected: MAX_HID_REPORT, actual: report_size },
            );
        }
        Ok(Attempts { made: 0, max })
    }

    /// Whether to send the request (once more).
    pub fn next(&mut self) -> (r: Result<(), DriverError>)
        requires
            old(self).made <= old(self).max,
        ensures
            r is Ok <==> old(self).made < old(self).max,
            r is Ok ==> *final(self) == (Attempts {
                made: (old(self).made + 1) as u8,
                max: old(self).max,
            }),
            r is Err ==> *final(self) == *old(self) && r->Err_0 == (DriverError::Timeout {
                attempts: old(self).max,
            }),
    {
        if self.made < self.max {
            self.made += 1;
            Ok(())
        } else {
            Err(DriverError::Timeout { attempts: self.max })
        }
    }
}

/// What happens while a request waits for its answer.
#[derive(Debug, Clone, Copy, PartialEq, Eq, Structural)]
pub enum RequestEvent {
    /// A report came and was routed.
    Report(Routing),
    /// Reading failed.
    ReadFailed,
    /// The time for the attempt is over.
    Elapsed,
}

/// What a request does next.
#[derive(Debug, Clone, Copy, PartialEq, Eq, Structural)]
pub enum RequestStep {
    /// Send the request, and wait anew.
    Send,
    /// Wait for another report until the time for the attempt is over.
    Listen,
    /// Nothing: the answer is there.
    Answered,
    /// Nothing: every attempt went unanswered.
    GiveUp { attempts: u8 },
}

impl Attempts {
    /// What is done after an event, and the attempts made by then. Only an
    /// attempt that has ended without an answer leads to the next one.
    pub open spec fn step(self, event: RequestEvent) -> (RequestStep, Attempts) {
        match event {
            RequestEvent::Report(Routing::Answer) => (RequestStep::Answered, self),
            RequestEvent::Report(_) => (RequestStep::Listen, self),
            _ => if self.made < self.max {
                (RequestStep::Send, Attempts { made: (self.made + 1) as u8, max: self.max })
            } else {
                (RequestStep::GiveUp { attempts: self.max }, self)
            },
        }
    }

    /// The attempts after a number of attempts without an answer.
    pub open spec fn unanswered(self, times: nat) -> Attempts
        decreases times,
    {
        if times == 0 {
            self
        } else {
            self.unanswered((times - 1) as nat).step(RequestEvent::Elapsed).1
        }
    }

    /// Decides what to do after an event.
    pub fn after(&mut self, event: RequestEvent) -> (r: RequestStep)
        requires
            old(self).made <= old(self).max,
        ensures
            (r, *final(self)) == old(self).step(event),
            final(self).made <= final(self).max,
    {
        match event {
            RequestEvent::Report(Routing::Answer) => RequestStep::Answered,
            RequestEvent::Report(_) => RequestStep::Listen,
            _ => match self.next() {
                Ok(_) => RequestStep::Send,
                Err(_) => RequestStep::GiveUp { attempts: self.max },
            },
        }
    }
}

/// A request without an answer is sent as often as it may be, and is then given
/// up; a report that does not answer it changes nothing.
pub proof fn unanswered_request_is_given_up(a: Attempts, times: nat)
    requires
        a.made <= a.max,
    ensures
        a.made + times < a.max ==> a.unanswered(times).step(RequestEvent::Elapsed).0
            == RequestStep::Send,
        a.made + times >= a.max ==> a.unanswered(times).step(RequestEvent::Elapsed).0
            == (RequestStep::GiveUp { attempts: a.max }),
        a.step(RequestEvent::Report(Routing::Noise)) == (RequestStep::Listen, a),
        a.step(RequestEvent::Report(Routing::Kept)) == (RequestStep::Listen, a),
{
    lemma_unanswered(a, times);
}

proof fn lemma_unanswered(a: Attempts, times: nat)
    requires
        a.made <= a.max,
    ensures
        a.unanswered(times).max == a.max,
        a.unanswered(times).made == if a.made + times < a.max {
            a.made + times
        } else {
            a.max as int
        },
    decreases times,
{
    if times > 0 {
        lemma_unanswered(a, (times - 1) as nat);
    }
}

/// The drivers that the device database can name.
#[derive(Debug, Clone, Copy, PartialEq, Eq, Structural)]
pub enum DriverKind {
    Asus,
    Etekcity,
    Gskill,
    Hidpp10,
    Hidpp20,
    LogitechG300,
    LogitechG600,
    MarsGaming,
    OpenInput,
    Roccat,
    Sinowealth,
    SinowealthNubwo,
    Steelseries,
}

/// The driver of a name.
pub open spec fn driver_named(name: Seq<char>) -> Option<DriverKind> {
    if name == "asus"@ {
        Some(DriverKind::Asus)
    } else if name == "etekcity"@ {
        Some(DriverKind::Etekcity)
    } else if name == "gskill"@ {
        Some(DriverKind::Gskill)
    } else if name == "hidpp10"@ {
        Some(DriverKind::Hidpp10)
    } else if name == "hidpp20"@ {
        Some(DriverKind::Hidpp20)
    } else if name == "logitech_g300"@ {
        Some(DriverKind::LogitechG300)
    } else if name == "logitech_g600"@ {
        Some(DriverKind::LogitechG600)
    } else if name == "marsgaming"@ {
        Some(DriverKind::MarsGaming)
    } else if name == "openinput"@ {
        Some(DriverKind::OpenInput)
    } else if name == "roccat"@ || name == "roccat-kone-pure"@ || name == "roccat-kone-emp"@ {
        Some(DriverKind::Roccat)
    } else if name == "sinowealth"@ {
        Some(DriverKind::Sinowealth)
    } else if name == "sinowealth-nubwo"@ {
        Some(DriverKind::SinowealthNubwo)
    } else if name == "steelseries"@ {
        Some(DriverKind::Steelseries)
    } else {
        None
    }
}

/// Finds the driver that the device database names.
pub fn driver_kind(name: &str) -> (r: Option<DriverKind>)
    ensures
        r == driver_named(name@),
{
    if text::str_eq(name, "asus") {
        Some(DriverKind::Asus)
    } else if text::str_eq(name, "etekcity") {
        Some(DriverKind::Etekcity)
    } else if text::str_eq(name, "gskill") {
        Some(DriverKind::Gskill)
    } else if text::str_eq(name, "hidpp10") {
        Some(DriverKind::Hidpp10)
    } else if text::str_eq(name, "hidpp20") {
        Some(DriverKind::Hidpp20)
    } else if text::str_eq(name, "logitech_g300") {
        Some(DriverKind::LogitechG300)
    } else if text::str_eq(name, "logitech_g600") {
        Some(DriverKind::LogitechG600)
    } else if text::str_eq(name, "marsgaming") {
        Some(DriverKind::MarsGaming)
    } else if text::str_eq(name, "openinput") {
        Some(DriverKind::OpenInput)
    } else if text::str_eq(name, "roccat") || text::str_eq(name, "roccat-kone-pure")
        || text::str_eq(name, "roccat-kone-emp") {
        Some(DriverKind::Roccat)
    } else if text::str_eq(name, "sinowealth") {
        Some(DriverKind::Sinowealth)
    } else if text::str_eq(name, "sinowealth-nubwo") {
        Some(DriverKind::SinowealthNubwo)
    } else if text::str_eq(name, "steelseries") {
        Some(DriverKind::Steelseries)
    } else {
        None
    }
}

} // verus!
