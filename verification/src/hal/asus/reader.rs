//! The order in which the profiles of a device are read.
//!
//! The device answers for the profile that is active in it. So every profile
//! is made active in turn, and the one that was active at first is made active
//! again at the end.

use crate::engine::device;
use crate::engine::device::{DeviceInfo, DeviceModel, ProfileModel};
use crate::hal::asus::driver::AsusDriver;
use crate::hal::asus::load;
use crate::hal::asus::load::{
    ASUS_CMD_GET_BUTTON_DATA, ASUS_CMD_GET_LED_DATA, ASUS_CMD_GET_PROFILE_DATA,
    ASUS_CMD_GET_SETTINGS, ASUS_CMD_SET_PROFILE,
};
use crate::hal::asus::packet;
use crate::hal::asus::packet::{AsusRequest, AsusResponse, parse_profile_info};
use crate::hal::asus::settings;
use crate::hal::asus::settings::{
    ASUS_QUIRK_BUTTONS_SECONDARY, ASUS_QUIRK_SEPARATE_LEDS, ASUS_QUIRK_SEPARATE_XY_DPI,
    ASUS_QUIRK_STRIX_PROFILE,
};
use crate::text;
use vstd::prelude::*;
use vstd::string::*;

verus! {

/// What is to be asked next.
#[derive(Debug, Clone, Copy)]
pub enum AsusLoadPhase {
    /// Which profile is active.
    AskProfile,
    /// To make the profile active.
    Switch,
    AskButtons,
    AskSecondaryButtons { primary: AsusResponse },
    AskSettings,
    AskXyDpi { settings: AsusResponse },
    /// The LEDs, all at once.
    AskLeds,
    /// One LED.
    AskLed { led: usize },
    /// To make the profile active that was so at first.
    Restore,
    Done,
    Failed,
}

/// How far the reading of a device has come.
#[derive(Debug, Clone, Copy)]
pub struct AsusLoad {
    pub phase: AsusLoadPhase,
    /// The place of the profile that is being read.
    pub at: usize,
    /// The profile that was active at first.
    pub initial_id: u32,
    /// The DPI preset in use.
    pub preset: Option<u32>,
}

/// The text of a firmware version.
pub open spec fn firmware_text(version: (u8, u8, u8)) -> Seq<char> {
    text::upper_hex2(version.0 as int).push('.') + text::upper_hex2(version.1 as int).push('.')
        + text::upper_hex2(version.2 as int)
}

fn format_firmware(version: (u8, u8, u8)) -> (r: String)
    ensures
        r@ == firmware_text(version),
{
    proof {
        reveal_strlit(".");
    }
    let mut s: String = String::new();
    text::push_upper_hex2(&mut s, version.0);
    s.append(".");
    text::push_upper_hex2(&mut s, version.1);
    s.append(".");
    text::push_upper_hex2(&mut s, version.2);
    assert(s@ =~= firmware_text(version));
    s
}

/// The reading and the device that it fills in.
pub struct AsusLoading {
    pub load: AsusLoad,
    pub info: DeviceModel,
}

/// The profile that is active at first. It is asked of devices with several
/// profiles only.
pub open spec fn first_active(profiles: nat, reported: u32) -> u32 {
    if profiles > 1 {
        reported
    } else {
        0
    }
}

/// A device with one profile replaced.
pub open spec fn with_profile(info: DeviceModel, at: int, p: ProfileModel) -> DeviceModel {
    DeviceModel { profiles: info.profiles.update(at, p), ..info }
}

impl AsusLoading {
    /// On to the profile at `at`, or to the end.
    pub open spec fn enter(self, at: usize) -> AsusLoading {
        if at < self.info.profiles.len() {
            let p = self.info.profiles[at as int];
            let active = p.index == self.load.initial_id;
            AsusLoading {
                load: AsusLoad {
                    at,
                    phase: if active {
                        AsusLoadPhase::AskButtons
                    } else {
                        AsusLoadPhase::Switch
                    },
                    ..self.load
                },
                info: with_profile(self.info, at as int, ProfileModel { is_active: active, ..p }),
            }
        } else {
            AsusLoading {
                load: AsusLoad {
                    at,
                    phase: if self.info.profiles.len() > 1 {
                        AsusLoadPhase::Restore
                    } else {
                        AsusLoadPhase::Done
                    },
                    ..self.load
                },
                ..self
            }
        }
    }

    /// With another phase.
    pub open spec fn to(self, phase: AsusLoadPhase) -> AsusLoading {
        AsusLoading { load: AsusLoad { phase, ..self.load }, ..self }
    }

    /// The profile that is being read.
    pub open spec fn profile(self) -> ProfileModel {
        self.info.profiles[self.load.at as int]
    }

    /// With the profile that is being read replaced.
    pub open spec fn set_profile(self, p: ProfileModel) -> AsusLoading {
        AsusLoading { info: with_profile(self.info, self.load.at as int, p), ..self }
    }

    /// On to the LEDs of the profile, if it has any.
    pub open spec fn to_leds(self, d: AsusDriver) -> AsusLoading {
        if self.profile().leds.len() == 0 {
            self.enter((self.load.at + 1) as usize)
        } else if settings::quirky(d.quirks, ASUS_QUIRK_SEPARATE_LEDS) {
            self.to(AsusLoadPhase::AskLed { led: 0 })
        } else {
            self.to(AsusLoadPhase::AskLeds)
        }
    }

    /// After a good answer.
    pub open spec fn after_answer(self, d: AsusDriver, reply: AsusResponse) -> AsusLoading {
        let buf = reply.buf@;
        match self.load.phase {
            AsusLoadPhase::AskProfile => {
                let found = packet::profile_info(
                    buf,
                    settings::quirky(d.quirks, ASUS_QUIRK_STRIX_PROFILE),
                );
                AsusLoading {
                    load: AsusLoad {
                        initial_id: first_active(self.info.profiles.len(), found.profile_id),
                        preset: found.dpi_preset,
                        ..self.load
                    },
                    info: DeviceModel {
                        firmware_version: firmware_text(found.firmware_primary),
                        ..self.info
                    },
                }.enter(0)
            },
            AsusLoadPhase::Switch => self.to(AsusLoadPhase::AskButtons),
            AsusLoadPhase::AskButtons => if settings::quirky(
                d.quirks,
                ASUS_QUIRK_BUTTONS_SECONDARY,
            ) {
                self.to(AsusLoadPhase::AskSecondaryButtons { primary: reply })
            } else {
                self.set_profile(load::with_buttons(d, self.profile(), buf, None)).to(
                    AsusLoadPhase::AskSettings,
                )
            },
            AsusLoadPhase::AskSecondaryButtons { primary } => self.set_profile(
                load::with_buttons(d, self.profile(), primary.buf@, Some(buf)),
            ).to(AsusLoadPhase::AskSettings),
            AsusLoadPhase::AskSettings => if settings::quirky(
                d.quirks,
                ASUS_QUIRK_SEPARATE_XY_DPI,
            ) {
                self.to(AsusLoadPhase::AskXyDpi { settings: reply })
            } else {
                self.set_profile(
                    load::with_settings(d, self.profile(), buf, None, self.load.preset),
                ).to_leds(d)
            },
            AsusLoadPhase::AskXyDpi { settings } => self.set_profile(
                load::with_settings(
                    d,
                    self.profile(),
                    settings.buf@,
                    Some(buf),
                    self.load.preset,
                ),
            ).to_leds(d),
            AsusLoadPhase::AskLeds => self.set_profile(
                load::with_leds(d, self.profile(), buf),
            ).enter((self.load.at + 1) as usize),
            AsusLoadPhase::AskLed { led } => {
                let next = self.set_profile(load::with_led(d, self.profile(), led as int, buf));
                if led + 1 < self.profile().leds.len() {
                    next.to(AsusLoadPhase::AskLed { led: (led + 1) as usize })
                } else {
                    next.enter((self.load.at + 1) as usize)
                }
            },
            AsusLoadPhase::Restore => self.to(AsusLoadPhase::Done),
            AsusLoadPhase::Done => self,
            AsusLoadPhase::Failed => self,
        }
    }

    /// After an answer; `None` if the exchange failed. A failure ends the
    /// reading, and leaves in the device what was read before it.
    pub open spec fn after(self, d: AsusDriver, reply: Option<AsusResponse>) -> AsusLoading {
        match reply {
            Some(r) if !packet::signals_error(r.buf@) => self.after_answer(d, r),
            _ => self.to(AsusLoadPhase::Failed),
        }
    }

    /// The request that is to be sent next; `None` at the end.
    pub open spec fn request(self) -> Option<Seq<u8>> {
        match self.load.phase {
            AsusLoadPhase::AskProfile => Some(packet::bare_request(ASUS_CMD_GET_PROFILE_DATA)),
            AsusLoadPhase::Switch => Some(
                packet::with_param(
                    packet::bare_request(ASUS_CMD_SET_PROFILE),
                    0,
                    self.profile().index as u8,
                ),
            ),
            AsusLoadPhase::AskButtons => Some(
                packet::with_param(packet::bare_request(ASUS_CMD_GET_BUTTON_DATA), 0, 0),
            ),
            AsusLoadPhase::AskSecondaryButtons { primary } => Some(
                packet::with_param(packet::bare_request(ASUS_CMD_GET_BUTTON_DATA), 0, 1),
            ),
            AsusLoadPhase::AskSettings => Some(
                packet::with_param(packet::bare_request(ASUS_CMD_GET_SETTINGS), 0, 0),
            ),
            AsusLoadPhase::AskXyDpi { settings } => Some(
                packet::with_param(packet::bare_request(ASUS_CMD_GET_SETTINGS), 0, 2),
            ),
            AsusLoadPhase::AskLeds => Some(
                packet::with_param(packet::bare_request(ASUS_CMD_GET_LED_DATA), 0, 0),
            ),
            AsusLoadPhase::AskLed { led } => Some(
                packet::with_param(
                    packet::bare_request(ASUS_CMD_GET_LED_DATA),
                    0,
                    self.profile().leds[led as int].index as u8,
                ),
            ),
            AsusLoadPhase::Restore => Some(
                packet::with_param(
                    packet::bare_request(ASUS_CMD_SET_PROFILE),
                    0,
                    self.load.initial_id as u8,
                ),
            ),
            AsusLoadPhase::Done => None,
            AsusLoadPhase::Failed => None,
        }
    }

    /// Whether what is asked for is there.
    pub open spec fn consistent(self) -> bool {
        match self.load.phase {
            AsusLoadPhase::AskProfile | AsusLoadPhase::Restore | AsusLoadPhase::Done
            | AsusLoadPhase::Failed => true,
            AsusLoadPhase::AskLed { led } => self.load.at < self.info.profiles.len() && led
                < self.profile().leds.len(),
            _ => self.load.at < self.info.profiles.len(),
        }
    }

    /// How many requests there can still be.
    pub open spec fn remaining(self) -> nat {
        match self.load.phase {
            AsusLoadPhase::AskProfile => 2 + profiles_work(self.info.profiles, 0),
            AsusLoadPhase::Restore => 1,
            AsusLoadPhase::Done => 0,
            AsusLoadPhase::Failed => 0,
            AsusLoadPhase::Switch => 1 + 5 + self.profile().leds.len() + profiles_work(
                self.info.profiles,
                self.load.at + 1,
            ) + 1,
            AsusLoadPhase::AskButtons => 5 + self.profile().leds.len() + profiles_work(
                self.info.profiles,
                self.load.at + 1,
            ) + 1,
            AsusLoadPhase::AskSecondaryButtons { primary } => 4 + self.profile().leds.len()
                + profiles_work(self.info.profiles, self.load.at + 1) + 1,
            AsusLoadPhase::AskSettings => 3 + self.profile().leds.len() + profiles_work(
                self.info.profiles,
                self.load.at + 1,
            ) + 1,
            AsusLoadPhase::AskXyDpi { settings } => 2 + self.profile().leds.len()
                + profiles_work(self.info.profiles, self.load.at + 1) + 1,
            AsusLoadPhase::AskLeds => 1 + self.profile().leds.len() + profiles_work(
                self.info.profiles,
                self.load.at + 1,
            ) + 1,
            AsusLoadPhase::AskLed { led } => (1 + self.profile().leds.len() - led + profiles_work(
                self.info.profiles,
                self.load.at + 1,
            ) + 1) as nat,
        }
    }
}

/// How many requests the profiles from `at` on can take.
pub open spec fn profiles_work(profiles: Seq<ProfileModel>, at: int) -> nat
    decreases profiles.len() - at,
{
    if 0 <= at < profiles.len() {
        6 + profiles[at].leds.len() + profiles_work(profiles, at + 1)
    } else {
        0
    }
}

/// Whether two devices have as many profiles, with as many LEDs in each.
pub open spec fn same_shape(a: Seq<ProfileModel>, b: Seq<ProfileModel>) -> bool {
    a.len() == b.len() && forall|i: int|
        0 <= i < a.len() ==> (#[trigger] a[i]).leds.len() == b[i].leds.len()
}

proof fn lemma_work_depends_on_shape(a: Seq<ProfileModel>, b: Seq<ProfileModel>, at: int)
    requires
        same_shape(a, b),
    ensures
        profiles_work(a, at) == profiles_work(b, at),
    decreases a.len() - at,
{
    if 0 <= at < a.len() {
        assert(a[at].leds.len() == b[at].leds.len());
        lemma_work_depends_on_shape(a, b, at + 1);
    }
}

proof fn lemma_enter(s: AsusLoading, at: usize)
    requires
        at <= s.info.profiles.len(),
    ensures
        s.enter(at).consistent(),
        s.enter(at).remaining() <= profiles_work(s.info.profiles, at as int) + 1,
        same_shape(s.enter(at).info.profiles, s.info.profiles),
{
    let t = s.enter(at);
    assert(same_shape(t.info.profiles, s.info.profiles));
    lemma_work_depends_on_shape(t.info.profiles, s.info.profiles, at + 1);
}

proof fn lemma_to_leds(s: AsusLoading, d: AsusDriver)
    requires
        s.load.at < s.info.profiles.len() < usize::MAX,
    ensures
        s.to_leds(d).consistent(),
        s.to_leds(d).remaining() <= 1 + s.profile().leds.len() + profiles_work(
            s.info.profiles,
            s.load.at + 1,
        ) + 1,
        same_shape(s.to_leds(d).info.profiles, s.info.profiles),
{
    if s.profile().leds.len() == 0 {
        lemma_enter(s, (s.load.at + 1) as usize);
    }
}

proof fn lemma_set_profile(s: AsusLoading, p: ProfileModel)
    requires
        s.load.at < s.info.profiles.len(),
        p.leds.len() == s.profile().leds.len(),
    ensures
        same_shape(s.set_profile(p).info.profiles, s.info.profiles),
        profiles_work(s.set_profile(p).info.profiles, s.load.at + 1) == profiles_work(
            s.info.profiles,
            s.load.at + 1,
        ),
        s.set_profile(p).profile() == p,
{
    let t = s.set_profile(p);
    assert(same_shape(t.info.profiles, s.info.profiles));
    lemma_work_depends_on_shape(t.info.profiles, s.info.profiles, s.load.at + 1);
}

/// Every answer, good or bad, brings the reading nearer to its end, and keeps
/// the number of profiles and of the LEDs in each.
pub proof fn loading_makes_progress(s: AsusLoading, d: AsusDriver, reply: Option<AsusResponse>)
    requires
        s.consistent(),
        s.request() is Some,
        s.info.profiles.len() < usize::MAX,
        forall|i: int|
            0 <= i < s.info.profiles.len() ==> (#[trigger] s.info.profiles[i]).leds.len()
                <= usize::MAX,
    ensures
        s.after(d, reply).consistent(),
        s.after(d, reply).remaining() < s.remaining(),
        same_shape(s.after(d, reply).info.profiles, s.info.profiles),
{
    if reply is Some && !packet::signals_error(reply->0.buf@) {
        let r = reply->0;
        let buf = r.buf@;
        let p = s.profile();
        match s.load.phase {
            AsusLoadPhase::AskProfile => {
                let found = packet::profile_info(
                    buf,
                    settings::quirky(d.quirks, ASUS_QUIRK_STRIX_PROFILE),
                );
                let mid = AsusLoading {
                    load: AsusLoad {
                        initial_id: first_active(s.info.profiles.len(), found.profile_id),
                        preset: found.dpi_preset,
                        ..s.load
                    },
                    info: DeviceModel {
                        firmware_version: firmware_text(found.firmware_primary),
                        ..s.info
                    },
                };
                lemma_enter(mid, 0);
            },
            AsusLoadPhase::AskButtons => {
                lemma_set_profile(s, load::with_buttons(d, p, buf, None));
            },
            AsusLoadPhase::AskSecondaryButtons { primary } => {
                lemma_set_profile(s, load::with_buttons(d, p, primary.buf@, Some(buf)));
            },
            AsusLoadPhase::AskSettings => {
                let q = load::with_settings(d, p, buf, None, s.load.preset);
                lemma_set_profile(s, q);
                lemma_to_leds(s.set_profile(q), d);
            },
            AsusLoadPhase::AskXyDpi { settings } => {
                let q = load::with_settings(d, p, settings.buf@, Some(buf), s.load.preset);
                lemma_set_profile(s, q);
                lemma_to_leds(s.set_profile(q), d);
            },
            AsusLoadPhase::AskLeds => {
                let q = load::with_leds(d, p, buf);
                lemma_set_profile(s, q);
                lemma_enter(s.set_profile(q), (s.load.at + 1) as usize);
            },
            AsusLoadPhase::AskLed { led } => {
                let q = load::with_led(d, p, led as int, buf);
                lemma_set_profile(s, q);
                lemma_enter(s.set_profile(q), (s.load.at + 1) as usize);
            },
            _ => {},
        }
    }
}

/// A device whose reading went through has the profile active again that was
/// active at first: the last request of a reading of several profiles asks
/// for it.
pub proof fn loading_restores_profile(s: AsusLoading, d: AsusDriver, reply: AsusResponse)
    requires
        s.consistent(),
        s.info.profiles.len() > 1,
        s.load.phase !is Done,
        s.after(d, Some(reply)).load.phase is Done,
    ensures
        s.request() == Some(
            packet::with_param(
                packet::bare_request(ASUS_CMD_SET_PROFILE),
                0,
                s.load.initial_id as u8,
            ),
        ),
{
}

impl AsusLoad {
    /// The reading with the device that it fills in.
    pub open spec fn with(self, info: DeviceModel) -> AsusLoading {
        AsusLoading { load: self, info }
    }

    /// At the start.
    pub fn new() -> (r: Self)
        ensures
            r == (AsusLoad {
                phase: AsusLoadPhase::AskProfile,
                at: 0,
                initial_id: 0,
                preset: None,
            }),
            forall|info: DeviceModel| (#[trigger] r.with(info)).consistent(),
    {
        AsusLoad { phase: AsusLoadPhase::AskProfile, at: 0, initial_id: 0, preset: None }
    }

    /// The request that is to be sent next; `None` at the end.
    pub fn request(&self, info: &DeviceInfo) -> (r: Option<AsusRequest>)
        requires
            self.with(info@).consistent(),
        ensures
            match r {
                Some(q) => self.with(info@).request() == Some(q.buf@),
                None => self.with(info@).request() is None,
            },
    {
        let mut q: AsusRequest;
        match self.phase {
            AsusLoadPhase::AskProfile => {
                q = AsusRequest::new(ASUS_CMD_GET_PROFILE_DATA);
            },
            AsusLoadPhase::Switch => {
                assert(info@.profiles[self.at as int] == info.profiles@[self.at as int]@);
                q = AsusRequest::new(ASUS_CMD_SET_PROFILE);
                q.set_param(0, info.profiles[self.at].index as u8);
            },
            AsusLoadPhase::AskButtons => {
                q = AsusRequest::new(ASUS_CMD_GET_BUTTON_DATA);
                q.set_param(0, 0);
            },
            AsusLoadPhase::AskSecondaryButtons { primary: _ } => {
                q = AsusRequest::new(ASUS_CMD_GET_BUTTON_DATA);
                q.set_param(0, 1);
            },
            AsusLoadPhase::AskSettings => {
                q = AsusRequest::new(ASUS_CMD_GET_SETTINGS);
                q.set_param(0, 0);
            },
            AsusLoadPhase::AskXyDpi { settings: _ } => {
                q = AsusRequest::new(ASUS_CMD_GET_SETTINGS);
                q.set_param(0, 2);
            },
            AsusLoadPhase::AskLeds => {
                q = AsusRequest::new(ASUS_CMD_GET_LED_DATA);
                q.set_param(0, 0);
            },
            AsusLoadPhase::AskLed { led } => {
                assert(info@.profiles[self.at as int] == info.profiles@[self.at as int]@);
                assert(info@.profiles[self.at as int].leds[led as int]
                    == info.profiles@[self.at as int].leds@[led as int]@);
                q = AsusRequest::new(ASUS_CMD_GET_LED_DATA);
                q.set_param(0, info.profiles[self.at].leds[led].index as u8);
            },
            AsusLoadPhase::Restore => {
                q = AsusRequest::new(ASUS_CMD_SET_PROFILE);
                q.set_param(0, self.initial_id as u8);
            },
            AsusLoadPhase::Done => {
                return None;
            },
            AsusLoadPhase::Failed => {
                return None;
            },
        }
        Some(q)
    }

    fn enter(&mut self, info: &mut DeviceInfo, at: usize)
        ensures
            final(self).with(final(info)@) == old(self).with(old(info)@).enter(at),
    {
        self.at = at;
        assert(info@.profiles.len() == info.profiles.len());
        if at < info.profiles.len() {
            proof {
                device::lemma_profiles_view_update(info.profiles@, at as int);
            }
            assert(info@.profiles[at as int] == info.profiles@[at as int]@);
            let active = info.profiles[at].index == self.initial_id;
            info.profiles[at].is_active = active;
            self.phase = if active {
                AsusLoadPhase::AskButtons
            } else {
                AsusLoadPhase::Switch
            };
        } else if info.profiles.len() > 1 {
            self.phase = AsusLoadPhase::Restore;
        } else {
            self.phase = AsusLoadPhase::Done;
        }
    }

    fn to_leds(&mut self, driver: &AsusDriver, info: &mut DeviceInfo)
        requires
            old(self).at < old(info).profiles@.len(),
        ensures
            final(self).with(final(info)@) == old(self).with(old(info)@).to_leds(*driver),
    {
        assert(info@.profiles.len() == info.profiles.len());
        assert(info@.profiles[self.at as int] == info.profiles@[self.at as int]@);
        assert(info@.profiles[self.at as int].leds.len()
            == info.profiles@[self.at as int].leds.len());
        if info.profiles[self.at].leds.len() == 0 {
            let next: usize = self.at + 1;
            self.enter(info, next);
        } else if driver.has_quirk(ASUS_QUIRK_SEPARATE_LEDS) {
            self.phase = AsusLoadPhase::AskLed { led: 0 };
        } else {
            self.phase = AsusLoadPhase::AskLeds;
        }
    }

    fn answered(&mut self, driver: &AsusDriver, info: &mut DeviceInfo, reply: &AsusResponse)
        requires
            old(self).with(old(info)@).consistent(),
        ensures
            final(self).with(final(info)@) == old(self).with(old(info)@).after_answer(
                *driver,
                *reply,
            ),
    {
        assert(info@.profiles.len() == info.profiles.len());
        match self.phase {
            AsusLoadPhase::AskProfile => {
                let found = parse_profile_info(reply, driver.has_quirk(ASUS_QUIRK_STRIX_PROFILE));
                self.initial_id = if info.profiles.len() > 1 {
                    found.profile_id
                } else {
                    0
                };
                self.preset = found.dpi_preset;
                info.firmware_version = format_firmware(found.firmware_primary);
                self.enter(info, 0);
                return;
            },
            AsusLoadPhase::Restore => {
                self.phase = AsusLoadPhase::Done;
                return;
            },
            AsusLoadPhase::Done => {
                return;
            },
            AsusLoadPhase::Failed => {
                return;
            },
            _ => {},
        }
        let at: usize = self.at;
        proof {
            device::lemma_profiles_view_update(info.profiles@, at as int);
        }
        assert(info@.profiles[at as int] == info.profiles@[at as int]@);
        let ghost before = self.with(info@);
        match self.phase {
            AsusLoadPhase::Switch => {
                self.phase = AsusLoadPhase::AskButtons;
            },
            AsusLoadPhase::AskButtons => {
                if driver.has_quirk(ASUS_QUIRK_BUTTONS_SECONDARY) {
                    self.phase = AsusLoadPhase::AskSecondaryButtons { primary: *reply };
                } else {
                    driver.load_buttons(&mut info.profiles[at], reply, &None);
                    self.phase = AsusLoadPhase::AskSettings;
                }
            },
            AsusLoadPhase::AskSecondaryButtons { primary } => {
                driver.load_buttons(&mut info.profiles[at], &primary, &Some(*reply));
                self.phase = AsusLoadPhase::AskSettings;
            },
            AsusLoadPhase::AskSettings => {
                if driver.has_quirk(ASUS_QUIRK_SEPARATE_XY_DPI) {
                    self.phase = AsusLoadPhase::AskXyDpi { settings: *reply };
                } else {
                    driver.load_settings(&mut info.profiles[at], reply, &None, self.preset);
                    assert(self.with(info@) == before.set_profile(
                        load::with_settings(*driver, before.profile(), reply.buf@, None, self.preset),
                    ));
                    self.to_leds(driver, info);
                }
            },
            AsusLoadPhase::AskXyDpi { settings } => {
                driver.load_settings(
                    &mut info.profiles[at],
                    &settings,
                    &Some(*reply),
                    self.preset,
                );
                assert(self.with(info@) == before.set_profile(
                    load::with_settings(
                        *driver,
                        before.profile(),
                        settings.buf@,
                        Some(reply.buf@),
                        self.preset,
                    ),
                ));
                self.to_leds(driver, info);
            },
            AsusLoadPhase::AskLeds => {
                driver.load_leds(&mut info.profiles[at], reply);
                assert(self.with(info@) == before.set_profile(
                    load::with_leds(*driver, before.profile(), reply.buf@),
                ));
                self.enter(info, at + 1);
            },
            AsusLoadPhase::AskLed { led } => {
                assert(info@.profiles[at as int].leds.len() == info.profiles@[at as int].leds.len());
                let count: usize = info.profiles[at].leds.len();
                driver.load_single_led(&mut info.profiles[at], led, reply);
                assert(self.with(info@) == before.set_profile(
                    load::with_led(*driver, before.profile(), led as int, reply.buf@),
                ));
                if led + 1 < count {
                    self.phase = AsusLoadPhase::AskLed { led: led + 1 };
                } else {
                    self.enter(info, at + 1);
                }
            },
            _ => {},
        }
    }

    /// Takes the answer to the last request; `None` if the exchange failed.
    pub fn replied(&mut self, driver: &AsusDriver, info: &mut DeviceInfo, reply: &Option<
        AsusResponse,
    >)
        requires
            old(self).with(old(info)@).consistent(),
        ensures
            final(self).with(final(info)@) == old(self).with(old(info)@).after(*driver, *reply),
            final(self).with(final(info)@).consistent(),
    {
        proof {
            assert(info@.profiles.len() == info.profiles.len());
        }
        match reply {
            Some(r) => {
                if r.check().is_ok() {
                    self.answered(driver, info, r);
                } else {
                    self.phase = AsusLoadPhase::Failed;
                }
            },
            None => {
                self.phase = AsusLoadPhase::Failed;
            },
        }
    }

    /// Whether the device has been read; `None` while there is more to ask.
    pub fn outcome(&self) -> (r: Option<bool>)
        ensures
            r == match self.phase {
                AsusLoadPhase::Done => Some(true),
                AsusLoadPhase::Failed => Some(false),
                _ => None,
            },
    {
        match self.phase {
            AsusLoadPhase::Done => Some(true),
            AsusLoadPhase::Failed => Some(false),
            _ => None,
        }
    }
}

} // verus!
