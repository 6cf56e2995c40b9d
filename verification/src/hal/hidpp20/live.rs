//! Writing the settings of a profile live: the DPI value, the report rate and
//! the LEDs, one request after another.

use crate::engine::device::{ProfileInfo, ProfileModel};
use crate::hal::hidpp20::driver::{DriverModel, Hidpp20Driver};
use crate::hal::hidpp20::error::HidppDriverError;
use crate::hal::hidpp20::feature::{FeatureRequest, RequestModel};
use crate::hal::hidpp20::led;
use vstd::prelude::*;

verus! {

/// How far a live write has come: what it waits for.
#[derive(Debug, Clone, Copy, PartialEq, Eq, Structural)]
pub enum LivePhase {
    /// The DPI value.
    Dpi,
    /// The report rate.
    Rate,
    /// The LED at this place.
    Led(usize),
    /// Nothing.
    Done,
}

/// A live write under way.
#[derive(Debug)]
pub struct LiveWrite {
    pub phase: LivePhase,
    /// The first failure.
    pub error: Option<HidppDriverError>,
}

/// A live write together with the driver and the profile that it works on.
#[verifier::ext_equal]
pub struct LiveWriting {
    pub phase: LivePhase,
    pub error: Option<HidppDriverError>,
    pub driver: DriverModel,
    pub profile: ProfileModel,
}

/// Whether every LED of a profile can be written.
pub open spec fn leds_writable(p: ProfileModel) -> bool {
    forall|k: int| 0 <= k < p.leds.len() ==> led::writable(#[trigger] p.leds[k])
}

impl LiveWriting {
    /// The beginning: no part was written, and nothing has failed.
    pub open spec fn fresh(driver: DriverModel, profile: ProfileModel) -> LiveWriting {
        LiveWriting { phase: LivePhase::Done, error: None, driver, profile }
    }

    pub open spec fn at(self, phase: LivePhase) -> LiveWriting {
        LiveWriting { phase, ..self }
    }

    /// A failure is noted, unless one was noted before.
    pub open spec fn failing(self, e: HidppDriverError) -> LiveWriting {
        LiveWriting {
            error: match self.error {
                Some(first) => Some(first),
                None => Some(e),
            },
            ..self
        }
    }

    /// The DPI value comes next, if it is to be set.
    pub open spec fn at_dpi(self) -> LiveWriting {
        match self.driver.dpi_write(self.profile) {
            Ok(Some(_)) => self.at(LivePhase::Dpi),
            Ok(None) => self.at_rate(),
            Err(e) => self.failing(e).at_rate(),
        }
    }

    /// The report rate comes next, if it is to be set.
    pub open spec fn at_rate(self) -> LiveWriting {
        match self.driver.rate_write(self.profile) {
            Ok(Some(_)) => self.at(LivePhase::Rate),
            Ok(None) => self.at_led(0),
            Err(e) => self.failing(e).at_led(0),
        }
    }

    /// The LED at a place comes next, if there is one. The first LED that cannot
    /// be set ends the write.
    pub open spec fn at_led(self, k: int) -> LiveWriting {
        if k < 0 || k >= self.profile.leds.len() {
            self.at(LivePhase::Done)
        } else {
            match self.driver.led_write(self.profile.leds[k]) {
                Ok(_) => self.at(LivePhase::Led(k as usize)),
                Err(e) => self.failing(e).at(LivePhase::Done),
            }
        }
    }

    /// The request that is to be sent.
    pub open spec fn request(self) -> Option<RequestModel> {
        match self.phase {
            LivePhase::Dpi => match self.driver.dpi_write(self.profile) {
                Ok(r) => r,
                Err(_) => None,
            },
            LivePhase::Rate => match self.driver.rate_write(self.profile) {
                Ok(r) => r,
                Err(_) => None,
            },
            LivePhase::Led(k) => match self.driver.led_write(self.profile.leds[k as int]) {
                Ok(r) => Some(r),
                Err(_) => None,
            },
            LivePhase::Done => None,
        }
    }

    /// The state after the request was answered, or failed. The DPI value and
    /// the report rate stand in no one's way; a failing LED ends the write.
    pub open spec fn after(self, result: Result<(), HidppDriverError>) -> LiveWriting {
        match self.phase {
            LivePhase::Dpi => match result {
                Ok(_) => self.at_rate(),
                Err(e) => self.failing(e).at_rate(),
            },
            LivePhase::Rate => match result {
                Ok(_) => self.at_led(0),
                Err(e) => self.failing(e).at_led(0),
            },
            LivePhase::Led(k) => match result {
                Ok(_) => self.at_led(k + 1),
                Err(e) => self.failing(e).at(LivePhase::Done),
            },
            LivePhase::Done => self,
        }
    }

    /// Whether the write, the driver and the profile fit together.
    pub open spec fn consistent(self) -> bool {
        &&& leds_writable(self.profile)
        &&& self.profile.leds.len() <= usize::MAX
        &&& self.phase is Done || self.request() is Some
        &&& match self.phase {
            LivePhase::Led(k) => k < self.profile.leds.len(),
            _ => true,
        }
    }
}

/// The state of a live write, its driver and its profile.
pub open spec fn writing(w: LiveWrite, d: Hidpp20Driver, p: ProfileInfo) -> LiveWriting {
    LiveWriting { phase: w.phase, error: w.error, driver: d@, profile: p@ }
}

impl LiveWrite {
    /// Begins to write the settings of a profile.
    pub fn begin(driver: &Hidpp20Driver, p: &ProfileInfo) -> (r: Self)
        requires
            leds_writable(p@),
        ensures
            writing(r, *driver, *p) == LiveWriting::fresh(driver@, p@).at_dpi(),
            writing(r, *driver, *p).consistent(),
    {
        assert(p@.leds.len() == p.leds.len());
        let mut r = LiveWrite { phase: LivePhase::Done, error: None };
        match driver.plan_dpi_write(p) {
            Ok(Some(_)) => {
                r.phase = LivePhase::Dpi;
            },
            Ok(None) => {
                r.enter_rate(driver, p);
            },
            Err(e) => {
                r.note(e);
                r.enter_rate(driver, p);
            },
        }
        r
    }

    fn note(&mut self, e: HidppDriverError)
        ensures
            final(self).phase == old(self).phase,
            final(self).error == (match old(self).error {
                Some(first) => Some(first),
                None => Some(e),
            }),
    {
        if self.error.is_none() {
            self.error = Some(e);
        }
    }

    fn enter_rate(&mut self, driver: &Hidpp20Driver, p: &ProfileInfo)
        requires
            leds_writable(p@),
        ensures
            writing(*final(self), *driver, *p) == writing(*old(self), *driver, *p).at_rate(),
            writing(*final(self), *driver, *p).consistent(),
    {
        assert(p@.leds.len() == p.leds.len());
        match driver.plan_rate_write(p) {
            Ok(Some(_)) => {
                self.phase = LivePhase::Rate;
            },
            Ok(None) => {
                self.enter_led(driver, p, 0);
            },
            Err(e) => {
                self.note(e);
                self.enter_led(driver, p, 0);
            },
        }
    }

    fn enter_led(&mut self, driver: &Hidpp20Driver, p: &ProfileInfo, k: usize)
        requires
            leds_writable(p@),
        ensures
            writing(*final(self), *driver, *p) == writing(*old(self), *driver, *p).at_led(k as int),
            writing(*final(self), *driver, *p).consistent(),
    {
        assert(p@.leds.len() == p.leds.len());
        if k >= p.leds.len() {
            self.phase = LivePhase::Done;
            return;
        }
        assert(p@.leds[k as int] == p.leds@[k as int]@);
        match driver.plan_led_write(&p.leds[k]) {
            Ok(_) => {
                self.phase = LivePhase::Led(k);
            },
            Err(e) => {
                self.note(e);
                self.phase = LivePhase::Done;
            },
        }
    }

    /// The request to send next, if the write is not over.
    pub fn request(&self, driver: &Hidpp20Driver, p: &ProfileInfo) -> (r: Option<FeatureRequest>)
        requires
            writing(*self, *driver, *p).consistent(),
        ensures
            match r {
                Some(q) => writing(*self, *driver, *p).request() == Some(q@),
                None => writing(*self, *driver, *p).request() is None && self.phase is Done,
            },
    {
        match self.phase {
            LivePhase::Dpi => match driver.plan_dpi_write(p) {
                Ok(q) => q,
                Err(_) => None,
            },
            LivePhase::Rate => match driver.plan_rate_write(p) {
                Ok(q) => q,
                Err(_) => None,
            },
            LivePhase::Led(k) => {
                assert(p@.leds[k as int] == p.leds@[k as int]@);
                match driver.plan_led_write(&p.leds[k]) {
                    Ok(q) => Some(q),
                    Err(_) => None,
                }
            },
            LivePhase::Done => None,
        }
    }

    /// Takes notice of what became of the request.
    pub fn done(
        &mut self,
        driver: &Hidpp20Driver,
        p: &ProfileInfo,
        result: Result<(), HidppDriverError>,
    )
        requires
            writing(*old(self), *driver, *p).consistent(),
        ensures
            writing(*final(self), *driver, *p) == writing(*old(self), *driver, *p).after(result),
            writing(*final(self), *driver, *p).consistent(),
    {
        assert(p@.leds.len() == p.leds.len());
        let phase = self.phase;
        match phase {
            LivePhase::Dpi => {
                if let Err(e) = result {
                    self.note(e);
                }
                self.enter_rate(driver, p);
            },
            LivePhase::Rate => {
                if let Err(e) = result {
                    self.note(e);
                }
                self.enter_led(driver, p, 0);
            },
            LivePhase::Led(k) => match result {
                Ok(_) => {
                    self.enter_led(driver, p, k + 1);
                },
                Err(e) => {
                    self.note(e);
                    self.phase = LivePhase::Done;
                },
            },
            LivePhase::Done => {},
        }
    }

    /// What became of the write: the first failure, if there was one.
    pub fn outcome(self) -> (r: Result<(), HidppDriverError>)
        ensures
            r == (match self.error {
                Some(e) => Err::<(), HidppDriverError>(e),
                None => Ok::<(), HidppDriverError>(()),
            }),
    {
        match self.error {
            Some(e) => Err(e),
            None => Ok(()),
        }
    }
}

/// How many requests a live write may still send, at most.
pub open spec fn requests_left(s: LiveWriting) -> int {
    let n = s.profile.leds.len() as int;
    match s.phase {
        LivePhase::Dpi => n + 2,
        LivePhase::Rate => n + 1,
        LivePhase::Led(k) => n - k,
        LivePhase::Done => 0,
    }
}

/// A live write ends: each answer, and each failure, brings it nearer to its
/// end.
pub proof fn live_write_makes_progress(s: LiveWriting, result: Result<(), HidppDriverError>)
    requires
        s.consistent(),
        !(s.phase is Done),
    ensures
        0 <= requests_left(s.after(result)) < requests_left(s),
{
}

/// The first failure is the one that a live write reports, whatever follows.
pub proof fn first_failure_is_kept(s: LiveWriting, result: Result<(), HidppDriverError>)
    ensures
        s.error is Some ==> s.after(result).error == s.error,
        s.error is None && result is Err && !(s.phase is Done) ==> s.after(result).error == Some(
            result->Err_0,
        ),
{
}

/// A failure to set the DPI value or the report rate keeps no other part from
/// being written: what comes next is what comes after a success.
pub proof fn failures_block_no_other_part(s: LiveWriting, e: HidppDriverError)
    requires
        s.phase is Dpi || s.phase is Rate,
    ensures
        s.after(Err(e)).phase == s.after(Ok(())).phase,
{
}

} // verus!
