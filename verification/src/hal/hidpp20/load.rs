//! Reading the profiles of a device.
//!
//! A [`ProfileLoad`] goes from phase to phase. In each phase it wants one thing
//! done ([`ProfileLoad::action`]); what came of it is handed to
//! [`ProfileLoad::replied`] or [`ProfileLoad::sector_read`].

use crate::engine::device;
use crate::engine::device::{DeviceInfo, DeviceModel, ProfileInfo, ProfileModel};
use crate::hal::hidpp20::apply;
use crate::hal::hidpp20::driver::{
    DriverModel, Hidpp20Driver, DPI_FN_GET_SENSOR_DPI, DPI_FN_GET_SENSOR_DPI_LIST,
    LED_FN_GET_ZONE_EFFECT, ONBOARD_MODE_ONBOARD, PROFILES_FN_GET_CURRENT_DPI_INDEX,
    PROFILES_FN_GET_CURRENT_PROFILE, PROFILES_FN_GET_MODE, PROFILES_FN_GET_PROFILES_DESCR,
    PROFILES_FN_SET_MODE, RATE_FN_GET_REPORT_RATE, RATE_FN_GET_REPORT_RATE_LIST,
    SPECIAL_KEYS_FN_GET_COUNT,
};
use crate::hal::hidpp20::eeprom;
use crate::hal::hidpp20::eeprom::{EepromModel, EepromProfile};
use crate::hal::hidpp20::error::HidppDriverError;
use crate::hal::hidpp20::feature;
use crate::hal::hidpp20::feature::{FeatureMap, FeatureRequest, RequestModel};
use crate::hal::hidpp20::sensor;
use crate::hal::hidpp20::sensor::{ButtonCountError, Hidpp20OnboardProfilesInfo, OnboardModel};
use vstd::prelude::*;

verus! {

/// The sector that holds the directory of the profiles.
pub const USER_PROFILES_BASE: u16 = 0x0000;

/// How far a load has come: what it waits for.
#[derive(Debug)]
pub enum LoadPhase {
    /// The descriptor of the onboard memory.
    Descriptor,
    /// The number of special keys, for want of a button count.
    Keys,
    /// The mode of the onboard memory.
    Mode,
    /// The switch to onboard mode.
    SetMode,
    /// The directory of the profiles.
    Root,
    /// The sector of a profile.
    User(usize),
    /// The factory copy of a profile.
    Rom(usize),
    /// The active profile.
    CurrentProfile,
    /// The active resolution.
    CurrentDpi,
    /// The DPI values of the sensor.
    DpiRange,
    /// The report rates of the device.
    RateList,
    /// The number of special keys of a device without onboard memory.
    HostKeys,
    /// The DPI values of the sensor, for a profile.
    LiveDpiList(usize),
    /// The DPI value in use, for a profile.
    LiveDpi(usize),
    /// The report rates of the device, for a profile.
    LiveRateList(usize),
    /// The report rate in use, for a profile.
    LiveRate(usize),
    /// The effect of an LED zone, for a profile and the place of its LED.
    LiveLed(usize, usize),
    /// Nothing: the load is complete.
    Finished,
    /// Nothing: the load has failed.
    Failed(LoadError),
}

/// Why a load has failed.
#[derive(Debug)]
pub enum LoadError {
    Device(HidppDriverError),
    Buttons(ButtonCountError),
}

/// What a load wants done.
#[derive(Debug)]
pub enum LoadAction {
    Ask(FeatureRequest),
    ReadSector { feature: u8, sector: u16, size: u16 },
    Stop,
}

/// The contents of a [`LoadAction`].
pub enum ActionModel {
    Ask(RequestModel),
    ReadSector { feature: u8, sector: u16, size: u16 },
    Stop,
}

impl View for LoadAction {
    type V = ActionModel;

    open spec fn view(&self) -> ActionModel {
        match self {
            LoadAction::Ask(r) => ActionModel::Ask(r@),
            LoadAction::ReadSector { feature, sector, size } => ActionModel::ReadSector {
                feature: *feature,
                sector: *sector,
                size: *size,
            },
            LoadAction::Stop => ActionModel::Stop,
        }
    }
}

/// A load under way.
#[derive(Debug)]
pub struct ProfileLoad {
    pub phase: LoadPhase,
    pub profile_count: usize,
    pub button_count: usize,
    pub addrs: Vec<u16>,
    pub enabled: Vec<bool>,
    pub list_reply: [u8; 16],
    pub dpi_range: Option<Vec<u32>>,
}

/// The contents of a [`ProfileLoad`].
#[verifier::ext_equal]
pub struct LoadModel {
    pub phase: LoadPhase,
    pub profile_count: nat,
    pub button_count: nat,
    pub addrs: Seq<u16>,
    pub enabled: Seq<bool>,
    pub list_reply: Seq<u8>,
    pub dpi_range: Option<Seq<u32>>,
}

impl View for ProfileLoad {
    type V = LoadModel;

    open spec fn view(&self) -> LoadModel {
        LoadModel {
            phase: self.phase,
            profile_count: self.profile_count as nat,
            button_count: self.button_count as nat,
            addrs: self.addrs@,
            enabled: self.enabled@,
            list_reply: self.list_reply@,
            dpi_range: apply::list_view(self.dpi_range),
        }
    }
}

/// A load together with the driver and the device that it works on.
#[verifier::ext_equal]
pub struct Loading {
    pub load: LoadModel,
    pub driver: DriverModel,
    pub info: DeviceModel,
}

/// The number of profiles for the one in a descriptor: at least one, at most
/// five.
pub open spec fn plausible_count(n: u8) -> nat {
    if n == 0 {
        1
    } else if n > 5 {
        5
    } else {
        n as nat
    }
}

/// The phase of the live reads that comes at or after a stage (0 for the DPI
/// values, 1 for the report rates, 2 for the LEDs) of profile `p`.
pub open spec fn live_phase(f: FeatureMap, profiles: Seq<ProfileModel>, p: int, stage: int) -> LoadPhase
    decreases profiles.len() - p, 3 - stage,
{
    if p < 0 || p >= profiles.len() || stage < 0 || stage > 2 {
        LoadPhase::Finished
    } else if stage == 0 {
        if f.adjustable_dpi is Some {
            LoadPhase::LiveDpiList(p as usize)
        } else {
            live_phase(f, profiles, p, 1)
        }
    } else if stage == 1 {
        if f.report_rate is Some {
            LoadPhase::LiveRateList(p as usize)
        } else {
            live_phase(f, profiles, p, 2)
        }
    } else if f.color_led_effects is Some && profiles[p].leds.len() > 0 {
        LoadPhase::LiveLed(p as usize, 0)
    } else {
        live_phase(f, profiles, p + 1, 0)
    }
}

impl Loading {
    pub open spec fn onboard(self) -> OnboardModel {
        self.driver.onboard->0
    }

    pub open spec fn at(self, phase: LoadPhase) -> Loading {
        Loading { load: LoadModel { phase, ..self.load }, ..self }
    }

    pub open spec fn failed(self, e: LoadError) -> Loading {
        self.at(LoadPhase::Failed(e))
    }

    pub open spec fn with_profiles(self, profiles: Seq<ProfileModel>) -> Loading {
        Loading { info: DeviceModel { profiles, ..self.info }, ..self }
    }

    pub open spec fn with_profile(self, i: int, p: ProfileModel) -> Loading {
        self.with_profiles(self.info.profiles.update(i, p))
    }

    pub open spec fn to_repair(self) -> Loading {
        Loading { driver: DriverModel { needs_eeprom_repair: true, ..self.driver }, ..self }
    }

    /// The button count of the database: that of the first profile before the
    /// device is asked.
    pub open spec fn db_buttons(self) -> usize {
        if self.info.profiles.len() == 0 {
            0
        } else {
            self.info.profiles[0].buttons.len() as usize
        }
    }

    /// Once the button count is settled (or not), the mode is asked for.
    pub open spec fn with_buttons(self, keys: Result<usize, HidppDriverError>) -> Loading {
        if self.onboard().button_count > 0 {
            self.counted(self.onboard().button_count as nat)
        } else {
            match keys {
                Err(e) => self.failed(LoadError::Buttons(ButtonCountError::Query(e))),
                Ok(n) => if n > 0 {
                    self.counted(n as nat)
                } else if self.db_buttons() > 0 {
                    self.counted(self.db_buttons() as nat)
                } else {
                    self.failed(LoadError::Buttons(ButtonCountError::Unavailable))
                },
            }
        }
    }

    pub open spec fn counted(self, n: nat) -> Loading {
        Loading { load: LoadModel { button_count: n, ..self.load }, ..self }.at(LoadPhase::Mode)
    }

    /// The profiles are brought to the size of the hardware before the
    /// directory is read.
    pub open spec fn sized(self) -> Loading {
        self.with_profiles(
            apply::sized_profiles(
                self.info.profiles,
                self.load.profile_count,
                self.load.button_count,
            ),
        ).at(LoadPhase::Root)
    }

    /// The sector of profile `i` comes next, or its factory copy if it has no
    /// sector; after the last profile, the active one is asked for.
    pub open spec fn at_profile(self, i: int) -> Loading {
        if i >= self.load.profile_count {
            self.at(LoadPhase::CurrentProfile)
        } else if self.load.addrs[i] == 0 {
            self.at(LoadPhase::Rom(i as usize))
        } else {
            self.at(LoadPhase::User(i as usize))
        }
    }

    /// Every profile is read from its factory copy.
    pub open spec fn from_rom(self) -> Loading {
        let num_rom = self.onboard().profile_count_oob as int;
        let n = self.load.profile_count;
        Loading {
            load: LoadModel {
                addrs: Seq::new(n, |i: int| apply::rom_address(i, num_rom)),
                enabled: Seq::new(n, |i: int| true),
                ..self.load
            },
            ..self
        }.at_profile(0)
    }

    /// The profiles are read from where the directory says.
    pub open spec fn from_directory(self, root: Seq<u8>) -> Loading {
        let n = self.load.profile_count;
        Loading {
            load: LoadModel {
                addrs: apply::directory_addresses(root, n),
                enabled: apply::directory_enabled(root, n),
                ..self.load
            },
            ..self
        }.at_profile(0)
    }

    /// The contents of a sector are taken over into profile `i`, unless the
    /// sector is too short for them.
    pub open spec fn decoded(self, i: int, data: Seq<u8>) -> Loading {
        if data.len() < eeprom::EEPROM_PROFILE_MIN_LEN {
            self
        } else {
            self.with_profile(
                i,
                apply::with_sector(
                    self.info.profiles[i],
                    EepromModel::read(data, self.load.button_count as int),
                    self.load.enabled[i],
                ),
            )
        }
    }

    /// After the active resolution the capabilities come, as far as the device
    /// has features for them.
    pub open spec fn capabilities(self) -> Loading {
        if self.driver.features.adjustable_dpi is Some {
            self.at(LoadPhase::DpiRange)
        } else {
            self.rates(None)
        }
    }

    pub open spec fn rates(self, dpis: Option<Seq<u32>>) -> Loading {
        let s = Loading { load: LoadModel { dpi_range: dpis, ..self.load }, ..self };
        if self.driver.features.report_rate is Some {
            s.at(LoadPhase::RateList)
        } else {
            s.complete(None)
        }
    }

    pub open spec fn complete(self, rates: Option<Seq<u32>>) -> Loading {
        self.with_profiles(
            self.info.profiles.map_values(
                |p: ProfileModel| apply::with_capabilities(p, self.load.dpi_range, rates),
            ),
        ).at(LoadPhase::Finished)
    }

    /// A device without onboard memory: profile 0 is active, and the rest is
    /// read live.
    pub open spec fn host_managed(self, keys: usize) -> Loading {
        let s = if keys > 0 {
            self.with_profiles(
                self.info.profiles.map_values(
                    |p: ProfileModel| apply::with_button_count(p, keys as nat),
                ),
            )
        } else {
            self
        };
        s.with_profiles(apply::with_active_index(s.info.profiles, 0)).live(0, 0)
    }

    pub open spec fn live(self, p: int, stage: int) -> Loading {
        self.at(live_phase(self.driver.features, self.info.profiles, p, stage))
    }

    /// The state after an answer to what [`ProfileLoad::action`] asked.
    pub open spec fn after_reply(self, reply: Result<[u8; 16], HidppDriverError>) -> Loading {
        let f = self.driver.features;
        match self.load.phase {
            LoadPhase::Descriptor => match reply {
                Err(e) => self.failed(LoadError::Device(e)),
                Ok(r) => {
                    let desc = OnboardModel::of_reply(r@);
                    let s = Loading {
                        driver: DriverModel { onboard: Some(desc), ..self.driver },
                        load: LoadModel {
                            profile_count: plausible_count(desc.profile_count),
                            ..self.load
                        },
                        ..self
                    };
                    if desc.button_count == 0 && f.special_keys is Some {
                        s.at(LoadPhase::Keys)
                    } else {
                        s.with_buttons(Ok(0))
                    }
                },
            },
            LoadPhase::Keys => self.with_buttons(key_count(reply)),
            LoadPhase::Mode => match reply {
                Ok(r) => if r[0] != ONBOARD_MODE_ONBOARD {
                    self.at(LoadPhase::SetMode)
                } else {
                    self.sized()
                },
                Err(_) => self.sized(),
            },
            LoadPhase::SetMode => self.sized(),
            LoadPhase::CurrentProfile => {
                let index: u32 = match reply {
                    Ok(r) => if r[1] > 0 {
                        (r[1] - 1) as u32
                    } else {
                        0
                    },
                    Err(_) => 0,
                };
                let s = self.with_profiles(apply::with_active_index(self.info.profiles, index));
                if self.info.profiles.len() > 0 {
                    s.at(LoadPhase::CurrentDpi)
                } else {
                    s.capabilities()
                }
            },
            LoadPhase::CurrentDpi => {
                let i = choose|i: int| apply::is_first_active(self.info.profiles, i);
                match reply {
                    Ok(r) => self.with_profile(
                        i,
                        apply::with_active_resolution_index(self.info.profiles[i], r[0] as int),
                    ).capabilities(),
                    Err(_) => self.capabilities(),
                }
            },
            LoadPhase::DpiRange => match reply {
                Ok(r) => if apply::dpis_of_reply(r@).len() > 0 {
                    self.rates(Some(apply::dpis_of_reply(r@)))
                } else {
                    self.rates(None)
                },
                Err(_) => self.rates(None),
            },
            LoadPhase::RateList => match reply {
                Ok(r) => if sensor::rates_of_bitmap(r[0]).len() > 0 {
                    self.complete(Some(sensor::rates_of_bitmap(r[0])))
                } else {
                    self.complete(None)
                },
                Err(_) => self.complete(None),
            },
            LoadPhase::HostKeys => match key_count(reply) {
                Err(e) => self.failed(LoadError::Device(e)),
                Ok(n) => self.host_managed(n),
            },
            LoadPhase::LiveDpiList(p) => match reply {
                Ok(r) => Loading {
                    load: LoadModel { list_reply: r@, ..self.load },
                    ..self
                }.at(LoadPhase::LiveDpi(p)),
                Err(_) => self.live(p as int, 1),
            },
            LoadPhase::LiveDpi(p) => match reply {
                Ok(r) => self.with_profile(
                    p as int,
                    apply::with_sensor_state(
                        self.info.profiles[p as int],
                        apply::dpis_of_reply(self.load.list_reply),
                        crate::bytes::be16(r[1], r[2]),
                    ),
                ).live(p as int, 1),
                Err(_) => self.live(p as int, 1),
            },
            LoadPhase::LiveRateList(p) => match reply {
                Ok(r) => self.with_profile(
                    p as int,
                    ProfileModel {
                        report_rates: sensor::rates_of_bitmap(r[0]),
                        ..self.info.profiles[p as int]
                    },
                ).at(LoadPhase::LiveRate(p)),
                Err(_) => self.live(p as int, 2),
            },
            LoadPhase::LiveRate(p) => match reply {
                Ok(r) => match apply::rate_of_interval(r[0]) {
                    Some(hz) => Loading {
                        driver: DriverModel { cached_report_rate_hz: hz, ..self.driver },
                        ..self.with_profile(
                            p as int,
                            ProfileModel { report_rate: hz, ..self.info.profiles[p as int] },
                        )
                    }.live(p as int, 2),
                    None => self.live(p as int, 2),
                },
                Err(_) => self.live(p as int, 2),
            },
            LoadPhase::LiveLed(p, l) => match reply {
                Ok(r) => {
                    let q = self.info.profiles[p as int];
                    let s = if r[0] == q.leds[l as int].index as u8 {
                        self.with_profile(
                            p as int,
                            ProfileModel {
                                leds: q.leds.update(
                                    l as int,
                                    crate::hal::hidpp20::led::led_of_bytes(
                                        r@.subrange(1, 12),
                                        q.leds[l as int].index as usize as int,
                                    ),
                                ),
                                ..q
                            },
                        )
                    } else {
                        self
                    };
                    if l + 1 < q.leds.len() {
                        s.at(LoadPhase::LiveLed(p, (l + 1) as usize))
                    } else {
                        s.live(p + 1, 0)
                    }
                },
                Err(_) => self.live(p + 1, 0),
            },
            _ => self,
        }
    }

    /// The state after the sector that [`ProfileLoad::action`] asked for was
    /// read, or could not be read.
    pub open spec fn after_sector(self, data: Result<Vec<u8>, HidppDriverError>) -> Loading {
        match self.load.phase {
            LoadPhase::Root => match data {
                Ok(d) => if valid_sector(d@) {
                    self.from_directory(d@)
                } else {
                    self.to_repair().from_rom()
                },
                Err(_) => self.from_rom(),
            },
            LoadPhase::User(i) => match data {
                Ok(d) => if !valid_sector(d@) {
                    self.to_repair().at(LoadPhase::Rom(i))
                } else if d@.len() < eeprom::EEPROM_PROFILE_MIN_LEN {
                    self.to_repair().at_profile(i + 1)
                } else {
                    self.decoded(i as int, d@).at_profile(i + 1)
                },
                Err(_) => self.at(LoadPhase::Rom(i)),
            },
            LoadPhase::Rom(i) => match data {
                Ok(d) => self.decoded(i as int, d@).at_profile(i + 1),
                Err(_) => self.at_profile(i + 1),
            },
            _ => self,
        }
    }

    /// What is wanted in the present phase.
    pub open spec fn action(self) -> ActionModel {
        let f = self.driver.features;
        let onboard = f.onboard_profiles->0;
        match self.load.phase {
            LoadPhase::Descriptor => ask(onboard, PROFILES_FN_GET_PROFILES_DESCR, Seq::empty()),
            LoadPhase::Keys => ask(f.special_keys->0, SPECIAL_KEYS_FN_GET_COUNT, Seq::empty()),
            LoadPhase::HostKeys => ask(f.special_keys->0, SPECIAL_KEYS_FN_GET_COUNT, Seq::empty()),
            LoadPhase::Mode => ask(onboard, PROFILES_FN_GET_MODE, Seq::empty()),
            LoadPhase::SetMode => ask(onboard, PROFILES_FN_SET_MODE, seq![ONBOARD_MODE_ONBOARD]),
            LoadPhase::Root => self.read(USER_PROFILES_BASE),
            LoadPhase::User(i) => self.read(self.load.addrs[i as int]),
            LoadPhase::Rom(i) => self.read(
                apply::rom_address(i as int, self.onboard().profile_count_oob as int),
            ),
            LoadPhase::CurrentProfile => ask(
                onboard,
                PROFILES_FN_GET_CURRENT_PROFILE,
                Seq::empty(),
            ),
            LoadPhase::CurrentDpi => ask(onboard, PROFILES_FN_GET_CURRENT_DPI_INDEX, Seq::empty()),
            LoadPhase::DpiRange => ask(
                f.adjustable_dpi->0,
                DPI_FN_GET_SENSOR_DPI_LIST,
                seq![0u8],
            ),
            LoadPhase::LiveDpiList(_) => ask(
                f.adjustable_dpi->0,
                DPI_FN_GET_SENSOR_DPI_LIST,
                seq![0u8],
            ),
            LoadPhase::LiveDpi(_) => ask(f.adjustable_dpi->0, DPI_FN_GET_SENSOR_DPI, seq![0u8]),
            LoadPhase::RateList => ask(
                f.report_rate->0,
                RATE_FN_GET_REPORT_RATE_LIST,
                Seq::empty(),
            ),
            LoadPhase::LiveRateList(_) => ask(
                f.report_rate->0,
                RATE_FN_GET_REPORT_RATE_LIST,
                Seq::empty(),
            ),
            LoadPhase::LiveRate(_) => ask(f.report_rate->0, RATE_FN_GET_REPORT_RATE, Seq::empty()),
            LoadPhase::LiveLed(p, l) => ask(
                f.color_led_effects->0,
                LED_FN_GET_ZONE_EFFECT,
                seq![self.info.profiles[p as int].leds[l as int].index as u8],
            ),
            LoadPhase::Finished => ActionModel::Stop,
            LoadPhase::Failed(_) => ActionModel::Stop,
        }
    }

    pub open spec fn read(self, sector: u16) -> ActionModel {
        ActionModel::ReadSector {
            feature: self.driver.features.onboard_profiles->0,
            sector,
            size: self.onboard().sector_size,
        }
    }

    /// Whether the load, the driver and the device fit together.
    pub open spec fn consistent(self) -> bool {
        let f = self.driver.features;
        let l = self.load;
        match l.phase {
            LoadPhase::Descriptor => f.onboard_profiles is Some,
            LoadPhase::Keys => self.described() && f.special_keys is Some,
            LoadPhase::Mode => self.described() && l.button_count > 0,
            LoadPhase::SetMode => self.described() && l.button_count > 0,
            LoadPhase::Root => self.ready(),
            LoadPhase::User(i) => self.located() && i < l.profile_count,
            LoadPhase::Rom(i) => self.located() && i < l.profile_count,
            LoadPhase::CurrentProfile => f.onboard_profiles is Some,
            LoadPhase::CurrentDpi => f.onboard_profiles is Some && (exists|i: int|
                apply::is_first_active(self.info.profiles, i)),
            LoadPhase::DpiRange => f.adjustable_dpi is Some,
            LoadPhase::RateList => f.report_rate is Some,
            LoadPhase::HostKeys => f.special_keys is Some,
            LoadPhase::LiveDpiList(p) => f.adjustable_dpi is Some && p < self.info.profiles.len(),
            LoadPhase::LiveDpi(p) => f.adjustable_dpi is Some && p < self.info.profiles.len(),
            LoadPhase::LiveRateList(p) => f.report_rate is Some && p < self.info.profiles.len(),
            LoadPhase::LiveRate(p) => f.report_rate is Some && p < self.info.profiles.len(),
            LoadPhase::LiveLed(p, k) => f.color_led_effects is Some && p < self.info.profiles.len()
                && k < self.info.profiles[p as int].leds.len(),
            LoadPhase::Finished => true,
            LoadPhase::Failed(_) => true,
        }
    }

    pub open spec fn described(self) -> bool {
        &&& self.driver.features.onboard_profiles is Some
        &&& self.driver.onboard is Some
        &&& 1 <= self.load.profile_count <= 5
    }

    pub open spec fn ready(self) -> bool {
        &&& self.described()
        &&& self.info.profiles.len() == self.load.profile_count
        &&& forall|i: int|
            0 <= i < self.info.profiles.len() ==> (#[trigger] self.info.profiles[i]).buttons.len()
                == self.load.button_count
    }

    pub open spec fn located(self) -> bool {
        &&& self.ready()
        &&& self.load.addrs.len() == self.load.profile_count
        &&& self.load.enabled.len() == self.load.profile_count
    }
}

pub open spec fn ask(feature: u8, function: u8, params: Seq<u8>) -> ActionModel {
    ActionModel::Ask(RequestModel::long(feature, function, params))
}

/// The number of special keys that an answer stands for.
pub open spec fn key_count(reply: Result<[u8; 16], HidppDriverError>) -> Result<
    usize,
    HidppDriverError,
> {
    match reply {
        Ok(r) => Ok(r[0] as usize),
        Err(e) => if e.transient() {
            Err(e)
        } else {
            Ok(0)
        },
    }
}

/// Whether a sector passes its check.
pub open spec fn valid_sector(s: Seq<u8>) -> bool {
    s.len() >= 2 && eeprom::stored_crc(s) == eeprom::body_crc(s)
}

/// The state of a load, its driver and its device.
pub open spec fn loading(l: ProfileLoad, d: Hidpp20Driver, i: DeviceInfo) -> Loading {
    Loading { load: l@, driver: d@, info: i@ }
}

fn ask_long(feature: Option<u8>, function: u8, params: Vec<u8>) -> (r: LoadAction)
    requires
        feature is Some,
    ensures
        r@ == ask(feature->0, function, params@),
{
    match feature {
        Some(f) => LoadAction::Ask(FeatureRequest::long(f, function, params)),
        None => LoadAction::Stop,
    }
}

fn next_live_phase(f: &FeatureMap, info: &DeviceInfo, start: usize, first_stage: u8) -> (r: LoadPhase)
    requires
        start <= info@.profiles.len(),
        first_stage <= 2,
    ensures
        r == live_phase(*f, info@.profiles, start as int, first_stage as int),
{
    let mut p: usize = start;
    let mut stage: u8 = first_stage;
    while p < info.profiles.len()
        invariant
            p <= info.profiles@.len(),
            stage <= 2,
            live_phase(*f, info@.profiles, p as int, stage as int) == live_phase(
                *f,
                info@.profiles,
                start as int,
                first_stage as int,
            ),
        decreases info.profiles@.len() - p,
    {
        proof {
            reveal_with_fuel(live_phase, 4);
        }
        if stage == 0 && f.adjustable_dpi.is_some() {
            return LoadPhase::LiveDpiList(p);
        }
        if stage <= 1 && f.report_rate.is_some() {
            return LoadPhase::LiveRateList(p);
        }
        assert(info@.profiles[p as int] == info.profiles@[p as int]@);
        if f.color_led_effects.is_some() && info.profiles[p].leds.len() > 0 {
            return LoadPhase::LiveLed(p, 0);
        }
        p += 1;
        stage = 0;
    }
    LoadPhase::Finished
}

impl ProfileLoad {
    /// Begins to load the profiles of a device. A device without onboard memory
    /// has at least one profile.
    pub fn begin(driver: &Hidpp20Driver, info: &mut DeviceInfo) -> (r: Self)
        ensures
            ({
                let f = driver@.features;
                let s = loading(r, *driver, *final(info));
                let fresh = Loading {
                    load: LoadModel {
                        phase: LoadPhase::Finished,
                        profile_count: 0,
                        button_count: 0,
                        addrs: Seq::empty(),
                        enabled: Seq::empty(),
                        list_reply: crate::bytes::filled(16, 0),
                        dpi_range: None,
                    },
                    driver: driver@,
                    info: old(info)@,
                };
                let hosted = if old(info)@.profiles.len() == 0 {
                    fresh.with_profiles(seq![ProfileModel::empty()])
                } else {
                    fresh
                };
                &&& s.consistent()
                &&& s == (if f.onboard_profiles is Some {
                    fresh.at(LoadPhase::Descriptor)
                } else if f.special_keys is Some {
                    hosted.at(LoadPhase::HostKeys)
                } else {
                    hosted.host_managed(0)
                })
            }),
    {
        let mut r = ProfileLoad {
            phase: LoadPhase::Descriptor,
            profile_count: 0,
            button_count: 0,
            addrs: Vec::new(),
            enabled: Vec::new(),
            list_reply: [0u8; 16],
            dpi_range: None,
        };
        assert(r.list_reply@ =~= crate::bytes::filled(16, 0));
        if driver.features.onboard_profiles.is_some() {
            return r;
        }
        if info.profiles.is_empty() {
            info.profiles.push(ProfileInfo::default());
            assert(info@.profiles =~= seq![ProfileModel::empty()]);
        }
        if driver.features.special_keys.is_some() {
            r.phase = LoadPhase::HostKeys;
            return r;
        }
        r.enter_host_managed(driver, info, 0);
        r
    }

    fn enter_host_managed(&mut self, driver: &Hidpp20Driver, info: &mut DeviceInfo, keys: usize)
        ensures
            loading(*final(self), *driver, *final(info)) == loading(
                *old(self),
                *driver,
                *old(info),
            ).host_managed(keys),
            loading(*final(self), *driver, *final(info)).consistent(),
    {
        if keys > 0 {
            apply::size_all_buttons(info, keys);
        }
        apply::set_active_index(info, 0);
        self.enter_live(driver, info, 0, 0);
    }

    fn enter_live(&mut self, driver: &Hidpp20Driver, info: &DeviceInfo, p: usize, stage: u8)
        requires
            p <= info@.profiles.len(),
            stage <= 2,
        ensures
            loading(*final(self), *driver, *info) == loading(*old(self), *driver, *info).live(
                p as int,
                stage as int,
            ),
            loading(*final(self), *driver, *info).consistent(),
    {
        self.phase = next_live_phase(&driver.features, info, p, stage);
        proof {
            assert(info@.profiles.len() == info.profiles.len());
            lemma_live_phase(driver@.features, info@.profiles, p as int, stage as int);
        }
    }

    /// What is wanted in the present phase.
    pub fn action(&self, driver: &Hidpp20Driver, info: &DeviceInfo) -> (r: LoadAction)
        requires
            loading(*self, *driver, *info).consistent(),
        ensures
            r@ == loading(*self, *driver, *info).action(),
    {
        let f = &driver.features;
        let nothing: Vec<u8> = Vec::new();
        let zero: Vec<u8> = vec![0];
        assert(zero@ =~= seq![0u8]);
        match self.phase {
            LoadPhase::Descriptor => ask_long(
                f.onboard_profiles,
                PROFILES_FN_GET_PROFILES_DESCR,
                nothing,
            ),
            LoadPhase::Keys => ask_long(f.special_keys, SPECIAL_KEYS_FN_GET_COUNT, nothing),
            LoadPhase::HostKeys => ask_long(f.special_keys, SPECIAL_KEYS_FN_GET_COUNT, nothing),
            LoadPhase::Mode => ask_long(f.onboard_profiles, PROFILES_FN_GET_MODE, nothing),
            LoadPhase::SetMode => {
                let mode: Vec<u8> = vec![ONBOARD_MODE_ONBOARD];
                assert(mode@ =~= seq![ONBOARD_MODE_ONBOARD]);
                ask_long(f.onboard_profiles, PROFILES_FN_SET_MODE, mode)
            },
            LoadPhase::Root => self.read_action(driver, USER_PROFILES_BASE),
            LoadPhase::User(i) => self.read_action(driver, self.addrs[i]),
            LoadPhase::Rom(i) => {
                let num_rom: u8 = match driver.cached_onboard_info {
                    Some(d) => d.profile_count_oob,
                    None => 0,
                };
                self.read_action(driver, apply::rom_sector(i, num_rom))
            },
            LoadPhase::CurrentProfile => ask_long(
                f.onboard_profiles,
                PROFILES_FN_GET_CURRENT_PROFILE,
                nothing,
            ),
            LoadPhase::CurrentDpi => ask_long(
                f.onboard_profiles,
                PROFILES_FN_GET_CURRENT_DPI_INDEX,
                nothing,
            ),
            LoadPhase::DpiRange => ask_long(f.adjustable_dpi, DPI_FN_GET_SENSOR_DPI_LIST, zero),
            LoadPhase::LiveDpiList(_) => ask_long(
                f.adjustable_dpi,
                DPI_FN_GET_SENSOR_DPI_LIST,
                zero,
            ),
            LoadPhase::LiveDpi(_) => ask_long(f.adjustable_dpi, DPI_FN_GET_SENSOR_DPI, zero),
            LoadPhase::RateList => ask_long(f.report_rate, RATE_FN_GET_REPORT_RATE_LIST, nothing),
            LoadPhase::LiveRateList(_) => ask_long(
                f.report_rate,
                RATE_FN_GET_REPORT_RATE_LIST,
                nothing,
            ),
            LoadPhase::LiveRate(_) => ask_long(f.report_rate, RATE_FN_GET_REPORT_RATE, nothing),
            LoadPhase::LiveLed(p, l) => {
                assert(info@.profiles[p as int] == info.profiles@[p as int]@);
                assert(info@.profiles[p as int].leds[l as int]
                    == info.profiles@[p as int].leds@[l as int]@);
                let zone: Vec<u8> = vec![info.profiles[p].leds[l].index as u8];
                assert(zone@ =~= seq![
                    info@.profiles[p as int].leds[l as int].index as u8,
                ]);
                ask_long(f.color_led_effects, LED_FN_GET_ZONE_EFFECT, zone)
            },
            LoadPhase::Finished => LoadAction::Stop,
            LoadPhase::Failed(_) => LoadAction::Stop,
        }
    }

    fn read_action(&self, driver: &Hidpp20Driver, sector: u16) -> (r: LoadAction)
        requires
            driver@.features.onboard_profiles is Some,
            driver@.onboard is Some,
        ensures
            r@ == (ActionModel::ReadSector {
                feature: driver@.features.onboard_profiles->0,
                sector,
                size: driver@.onboard->0.sector_size,
            }),
    {
        match (driver.features.onboard_profiles, driver.cached_onboard_info) {
            (Some(feature), Some(d)) => LoadAction::ReadSector {
                feature,
                sector,
                size: d.sector_size(),
            },
            _ => LoadAction::Stop,
        }
    }

    fn settle_buttons(
        &mut self,
        driver: &Hidpp20Driver,
        info: &DeviceInfo,
        keys: Result<usize, HidppDriverError>,
    )
        requires
            loading(*old(self), *driver, *info).described(),
        ensures
            loading(*final(self), *driver, *info) == loading(
                *old(self),
                *driver,
                *info,
            ).with_buttons(keys),
            loading(*final(self), *driver, *info).consistent(),
    {
        let db_count: usize = if info.profiles.len() == 0 {
            0
        } else {
            assert(info@.profiles[0] == info.profiles@[0]@);
            info.profiles[0].buttons.len()
        };
        let descriptor_count: usize = match driver.cached_onboard_info {
            Some(d) => d.button_count as usize,
            None => 0,
        };
        match sensor::resolve_button_count(descriptor_count, keys, db_count) {
            Ok(n) => {
                self.button_count = n;
                self.phase = LoadPhase::Mode;
            },
            Err(e) => {
                self.phase = LoadPhase::Failed(LoadError::Buttons(e));
            },
        }
    }

    fn enter_root(&mut self, driver: &Hidpp20Driver, info: &mut DeviceInfo)
        requires
            loading(*old(self), *driver, *old(info)).described(),
        ensures
            loading(*final(self), *driver, *final(info)) == loading(
                *old(self),
                *driver,
                *old(info),
            ).sized(),
            loading(*final(self), *driver, *final(info)).consistent(),
    {
        apply::size_profiles(info, self.profile_count, self.button_count);
        self.phase = LoadPhase::Root;
    }

    fn enter_profile(&mut self, driver: &Hidpp20Driver, info: &DeviceInfo, i: usize)
        requires
            loading(*old(self), *driver, *info).located(),
        ensures
            loading(*final(self), *driver, *info) == loading(*old(self), *driver, *info).at_profile(
                i as int,
            ),
            loading(*final(self), *driver, *info).consistent(),
    {
        if i >= self.profile_count {
            self.phase = LoadPhase::CurrentProfile;
        } else if self.addrs[i] == 0 {
            self.phase = LoadPhase::Rom(i);
        } else {
            self.phase = LoadPhase::User(i);
        }
    }

    fn enter_rom(&mut self, driver: &Hidpp20Driver, info: &DeviceInfo)
        requires
            loading(*old(self), *driver, *info).ready(),
        ensures
            loading(*final(self), *driver, *info) == loading(*old(self), *driver, *info).from_rom(),
            loading(*final(self), *driver, *info).consistent(),
    {
        let num_rom: u8 = match driver.cached_onboard_info {
            Some(d) => d.profile_count_oob,
            None => 0,
        };
        let mut addrs: Vec<u16> = Vec::new();
        let mut enabled: Vec<bool> = Vec::new();
        let n: usize = self.profile_count;
        let mut i: usize = 0;
        while i < n
            invariant
                i <= n <= 5,
                addrs@.len() == i,
                enabled@.len() == i,
                forall|k: int| 0 <= k < i ==> addrs@[k] == apply::rom_address(k, num_rom as int),
                forall|k: int| 0 <= k < i ==> enabled@[k],
            decreases n - i,
        {
            addrs.push(apply::rom_sector(i, num_rom));
            enabled.push(true);
            i += 1;
        }
        assert(addrs@ =~= Seq::new(
            n as nat,
            |i: int| apply::rom_address(i, num_rom as int),
        ));
        assert(enabled@ =~= Seq::new(n as nat, |i: int| true));
        self.addrs = addrs;
        self.enabled = enabled;
        self.enter_profile(driver, info, 0);
    }

    fn enter_capabilities(&mut self, driver: &Hidpp20Driver, info: &mut DeviceInfo)
        ensures
            loading(*final(self), *driver, *final(info)) == loading(
                *old(self),
                *driver,
                *old(info),
            ).capabilities(),
            loading(*final(self), *driver, *final(info)).consistent(),
    {
        if driver.features.adjustable_dpi.is_some() {
            self.phase = LoadPhase::DpiRange;
        } else {
            self.enter_rates(driver, info, None);
        }
    }

    fn enter_rates(
        &mut self,
        driver: &Hidpp20Driver,
        info: &mut DeviceInfo,
        dpis: Option<Vec<u32>>,
    )
        ensures
            loading(*final(self), *driver, *final(info)) == loading(
                *old(self),
                *driver,
                *old(info),
            ).rates(apply::list_view(dpis)),
            loading(*final(self), *driver, *final(info)).consistent(),
    {
        self.dpi_range = dpis;
        if driver.features.report_rate.is_some() {
            self.phase = LoadPhase::RateList;
        } else {
            self.enter_complete(driver, info, None);
        }
    }

    fn enter_complete(
        &mut self,
        driver: &Hidpp20Driver,
        info: &mut DeviceInfo,
        rates: Option<Vec<u32>>,
    )
        ensures
            loading(*final(self), *driver, *final(info)) == loading(
                *old(self),
                *driver,
                *old(info),
            ).complete(apply::list_view(rates)),
            loading(*final(self), *driver, *final(info)).consistent(),
    {
        apply::apply_capabilities(info, &self.dpi_range, &rates);
        self.phase = LoadPhase::Finished;
        assert(info@.profiles =~= loading(*old(self), *driver, *old(info)).complete(
            apply::list_view(rates),
        ).info.profiles);
    }

    fn decode(&mut self, driver: &Hidpp20Driver, info: &mut DeviceInfo, i: usize, data: &Vec<u8>) -> (ok:
        bool)
        requires
            loading(*old(self), *driver, *old(info)).located(),
            i < old(self).profile_count,
        ensures
            *final(self) == *old(self),
            loading(*final(self), *driver, *final(info)) == loading(
                *old(self),
                *driver,
                *old(info),
            ).decoded(i as int, data@),
            loading(*final(self), *driver, *final(info)).located(),
            ok == (data@.len() >= eeprom::EEPROM_PROFILE_MIN_LEN),
    {
        match EepromProfile::from_bytes(data.as_slice(), self.button_count) {
            Err(_) => false,
            Ok(e) => {
                let enabled: bool = self.enabled[i];
                proof {
                    device::lemma_profiles_view_update(info.profiles@, i as int);
                    assert(info@.profiles[i as int] == info.profiles@[i as int]@);
                }
                apply::apply_sector(&mut info.profiles[i], &e, enabled);
                true
            },
        }
    }

    /// Takes in the sector that was wanted, or the failure to read it.
    pub fn sector_read(
        &mut self,
        driver: &mut Hidpp20Driver,
        info: &mut DeviceInfo,
        data: Result<Vec<u8>, HidppDriverError>,
    )
        requires
            loading(*old(self), *old(driver), *old(info)).consistent(),
        ensures
            loading(*final(self), *final(driver), *final(info)).consistent(),
            loading(*final(self), *final(driver), *final(info)) == loading(
                *old(self),
                *old(driver),
                *old(info),
            ).after_sector(data),
    {
        match self.phase {
            LoadPhase::Root => match data {
                Ok(d) => match eeprom::verify_sector_crc(USER_PROFILES_BASE, d.as_slice()) {
                    Ok(_) => {
                        let (addrs, enabled) = apply::read_directory(&d, self.profile_count);
                        self.addrs = addrs;
                        self.enabled = enabled;
                        self.enter_profile(driver, info, 0);
                    },
                    Err(_) => {
                        driver.needs_eeprom_repair = true;
                        self.enter_rom(driver, info);
                    },
                },
                Err(_) => self.enter_rom(driver, info),
            },
            LoadPhase::User(i) => match data {
                Ok(d) => match eeprom::verify_sector_crc(self.addrs[i], d.as_slice()) {
                    Ok(_) => {
                        let ok: bool = self.decode(driver, info, i, &d);
                        if !ok {
                            driver.needs_eeprom_repair = true;
                        }
                        self.enter_profile(driver, info, i + 1);
                    },
                    Err(_) => {
                        driver.needs_eeprom_repair = true;
                        self.phase = LoadPhase::Rom(i);
                    },
                },
                Err(_) => {
                    self.phase = LoadPhase::Rom(i);
                },
            },
            LoadPhase::Rom(i) => match data {
                Ok(d) => {
                    let _ok: bool = self.decode(driver, info, i, &d);
                    self.enter_profile(driver, info, i + 1);
                },
                Err(_) => self.enter_profile(driver, info, i + 1),
            },
            _ => {},
        }
    }
}

impl ProfileLoad {
    /// Takes in the answer to what was asked, or the failure to get one.
    pub fn replied(
        &mut self,
        driver: &mut Hidpp20Driver,
        info: &mut DeviceInfo,
        reply: Result<[u8; 16], HidppDriverError>,
    )
        requires
            loading(*old(self), *old(driver), *old(info)).consistent(),
        ensures
            loading(*final(self), *final(driver), *final(info)).consistent(),
            loading(*final(self), *final(driver), *final(info)) == loading(
                *old(self),
                *old(driver),
                *old(info),
            ).after_reply(reply),
    {
        match self.phase {
            LoadPhase::Descriptor => match reply {
                Err(e) => {
                    self.phase = LoadPhase::Failed(LoadError::Device(e));
                },
                Ok(r) => {
                    let desc = Hidpp20OnboardProfilesInfo::from_bytes(&r);
                    driver.cached_onboard_info = Some(desc);
                    self.profile_count = if desc.profile_count == 0 {
                        1
                    } else if desc.profile_count > 5 {
                        5
                    } else {
                        desc.profile_count as usize
                    };
                    if desc.button_count == 0 && driver.features.special_keys.is_some() {
                        self.phase = LoadPhase::Keys;
                    } else {
                        self.settle_buttons(driver, info, Ok(0));
                    }
                },
            },
            LoadPhase::Keys => {
                let keys = feature::special_keys_count(reply);
                self.settle_buttons(driver, info, keys);
            },
            LoadPhase::Mode => match reply {
                Ok(r) => {
                    if r[0] != ONBOARD_MODE_ONBOARD {
                        self.phase = LoadPhase::SetMode;
                    } else {
                        self.enter_root(driver, info);
                    }
                },
                Err(_) => self.enter_root(driver, info),
            },
            LoadPhase::SetMode => self.enter_root(driver, info),
            LoadPhase::CurrentProfile => {
                let index: u32 = match reply {
                    Ok(r) => if r[1] > 0 {
                        (r[1] - 1) as u32
                    } else {
                        0
                    },
                    Err(_) => 0,
                };
                let ghost before = info@.profiles;
                apply::set_active_index(info, index);
                if info.profiles.len() > 0 {
                    proof {
                        apply::active_index_leaves_one_active(before, index);
                        lemma_some_first_active(info@.profiles);
                    }
                    self.phase = LoadPhase::CurrentDpi;
                } else {
                    self.enter_capabilities(driver, info);
                }
            },
            LoadPhase::CurrentDpi => {
                match reply {
                    Ok(r) => match apply::find_active_profile(info) {
                        Some(at) => {
                            proof {
                                let k = choose|k: int| apply::is_first_active(info@.profiles, k);
                                assert(apply::is_first_active(info@.profiles, at as int));
                                assert(k == at);
                                device::lemma_profiles_view_update(info.profiles@, at as int);
                                assert(info@.profiles[at as int] == info.profiles@[at as int]@);
                            }
                            let _changed: bool = apply::set_active_resolution(
                                &mut info.profiles[at],
                                r[0] as u32,
                            );
                        },
                        None => {
                            assert(false);
                        },
                    },
                    Err(_) => {},
                }
                self.enter_capabilities(driver, info);
            },
            LoadPhase::DpiRange => {
                let dpis: Option<Vec<u32>> = match reply {
                    Ok(r) => apply::sensor_range(&r),
                    Err(_) => None,
                };
                self.enter_rates(driver, info, dpis);
            },
            LoadPhase::RateList => {
                let rates: Option<Vec<u32>> = match reply {
                    Ok(r) => apply::rate_list(&r),
                    Err(_) => None,
                };
                self.enter_complete(driver, info, rates);
            },
            LoadPhase::HostKeys => match feature::special_keys_count(reply) {
                Err(e) => {
                    self.phase = LoadPhase::Failed(LoadError::Device(e));
                },
                Ok(n) => self.enter_host_managed(driver, info, n),
            },
            LoadPhase::LiveDpiList(p) => match reply {
                Ok(r) => {
                    self.list_reply = r;
                    self.phase = LoadPhase::LiveDpi(p);
                },
                Err(_) => self.enter_live(driver, info, p, 1),
            },
            LoadPhase::LiveDpi(p) => {
                match reply {
                    Ok(r) => {
                        proof {
                            device::lemma_profiles_view_update(info.profiles@, p as int);
                            assert(info@.profiles[p as int] == info.profiles@[p as int]@);
                        }
                        let list: [u8; 16] = self.list_reply;
                        apply::apply_dpi_info(&mut info.profiles[p], &list, &r);
                    },
                    Err(_) => {},
                }
                self.enter_live(driver, info, p, 1);
            },
            LoadPhase::LiveRateList(p) => match reply {
                Ok(r) => {
                    proof {
                        device::lemma_profiles_view_update(info.profiles@, p as int);
                        assert(info@.profiles[p as int] == info.profiles@[p as int]@);
                    }
                    apply::apply_rate_list(&mut info.profiles[p], &r);
                    self.phase = LoadPhase::LiveRate(p);
                },
                Err(_) => self.enter_live(driver, info, p, 2),
            },
            LoadPhase::LiveRate(p) => {
                match reply {
                    Ok(r) => {
                        proof {
                            device::lemma_profiles_view_update(info.profiles@, p as int);
                            assert(info@.profiles[p as int] == info.profiles@[p as int]@);
                        }
                        match apply::apply_report_rate(&mut info.profiles[p], &r) {
                            Some(hz) => {
                                driver.cached_report_rate_hz = hz;
                            },
                            None => {
                                assert(info@.profiles =~= old(info)@.profiles);
                            },
                        }
                    },
                    Err(_) => {},
                }
                self.enter_live(driver, info, p, 2);
            },
            LoadPhase::LiveLed(p, l) => {
                assert(info@.profiles[p as int] == info.profiles@[p as int]@);
                assert(info@.profiles.len() == info.profiles.len());
                let count: usize = info.profiles[p].leds.len();
                match reply {
                    Ok(r) => {
                        proof {
                            device::lemma_profiles_view_update(info.profiles@, p as int);
                        }
                        apply::apply_led_reply(&mut info.profiles[p], l, &r);
                        assert(info@.profiles =~= old(info)@.profiles.update(
                            p as int,
                            info@.profiles[p as int],
                        ));
                        assert(old(info)@.profiles.update(
                            p as int,
                            old(info)@.profiles[p as int],
                        ) =~= old(info)@.profiles);
                        if l + 1 < count {
                            self.phase = LoadPhase::LiveLed(p, l + 1);
                        } else {
                            self.enter_live(driver, info, p + 1, 0);
                        }
                    },
                    Err(_) => self.enter_live(driver, info, p + 1, 0),
                }
            },
            _ => {},
        }
    }
}

proof fn lemma_some_first_active(profiles: Seq<ProfileModel>)
    requires
        exists|i: int| 0 <= i < profiles.len() && (#[trigger] profiles[i]).is_active,
    ensures
        exists|i: int| apply::is_first_active(profiles, i),
{
    let i = choose|i: int| 0 <= i < profiles.len() && (#[trigger] profiles[i]).is_active;
    lemma_first_active_up_to(profiles, i);
}

proof fn lemma_first_active_up_to(profiles: Seq<ProfileModel>, i: int)
    requires
        0 <= i < profiles.len(),
        profiles[i].is_active,
    ensures
        exists|k: int| apply::is_first_active(profiles, k),
    decreases i,
{
    if forall|j: int| 0 <= j < i ==> !(#[trigger] profiles[j]).is_active {
        assert(apply::is_first_active(profiles, i));
    } else {
        let j = choose|j: int| 0 <= j < i && (#[trigger] profiles[j]).is_active;
        lemma_first_active_up_to(profiles, j);
    }
}

proof fn lemma_live_phase(f: FeatureMap, profiles: Seq<ProfileModel>, p: int, stage: int)
    requires
        0 <= p <= profiles.len() <= usize::MAX,
        0 <= stage <= 2,
    ensures
        match live_phase(f, profiles, p, stage) {
            LoadPhase::LiveDpiList(q) => f.adjustable_dpi is Some && q < profiles.len(),
            LoadPhase::LiveRateList(q) => f.report_rate is Some && q < profiles.len(),
            LoadPhase::LiveLed(q, l) => f.color_led_effects is Some && q < profiles.len() && l
                < profiles[q as int].leds.len(),
            LoadPhase::Finished => true,
            _ => false,
        },
    decreases profiles.len() - p, 3 - stage,
{
    if p < profiles.len() {
        if stage < 2 {
            lemma_live_phase(f, profiles, p, stage + 1);
        } else {
            lemma_live_phase(f, profiles, p + 1, 0);
        }
    }
}

/// Where a phase stands in the order of a load.
pub open spec fn load_stage(phase: LoadPhase) -> int {
    match phase {
        LoadPhase::Descriptor => 0,
        LoadPhase::Keys => 1,
        LoadPhase::Mode => 2,
        LoadPhase::SetMode => 3,
        LoadPhase::Root => 4,
        LoadPhase::User(_) => 5,
        LoadPhase::Rom(_) => 5,
        LoadPhase::CurrentProfile => 6,
        LoadPhase::CurrentDpi => 7,
        LoadPhase::DpiRange => 8,
        LoadPhase::RateList => 9,
        LoadPhase::HostKeys => 9,
        LoadPhase::LiveDpiList(_) => 10,
        LoadPhase::LiveDpi(_) => 10,
        LoadPhase::LiveRateList(_) => 10,
        LoadPhase::LiveRate(_) => 10,
        LoadPhase::LiveLed(_, _) => 10,
        LoadPhase::Finished => 11,
        LoadPhase::Failed(_) => 11,
    }
}

/// The profile that a phase is about.
pub open spec fn phase_profile(phase: LoadPhase) -> int {
    match phase {
        LoadPhase::User(i) => i as int,
        LoadPhase::Rom(i) => i as int,
        LoadPhase::LiveDpiList(p) => p as int,
        LoadPhase::LiveDpi(p) => p as int,
        LoadPhase::LiveRateList(p) => p as int,
        LoadPhase::LiveRate(p) => p as int,
        LoadPhase::LiveLed(p, _) => p as int,
        _ => 0,
    }
}

/// Where a phase stands among those about one profile.
pub open spec fn phase_step(phase: LoadPhase) -> int {
    match phase {
        LoadPhase::Rom(_) => 1,
        LoadPhase::LiveDpi(_) => 1,
        LoadPhase::LiveRateList(_) => 2,
        LoadPhase::LiveRate(_) => 3,
        LoadPhase::LiveLed(_, l) => 4 + l,
        _ => 0,
    }
}

/// Whether a phase comes after another.
pub open spec fn comes_after(q: LoadPhase, p: LoadPhase) -> bool {
    ||| load_stage(q) > load_stage(p)
    ||| load_stage(q) == load_stage(p) && phase_profile(q) > phase_profile(p)
    ||| load_stage(q) == load_stage(p) && phase_profile(q) == phase_profile(p) && phase_step(q)
        > phase_step(p)
}

proof fn lemma_live_order(f: FeatureMap, profiles: Seq<ProfileModel>, p: int, stage: int)
    requires
        0 <= p,
        0 <= stage <= 2,
        profiles.len() <= usize::MAX,
    ensures
        ({
            let q = live_phase(f, profiles, p, stage);
            ||| q is Finished
            ||| load_stage(q) == 10 && phase_profile(q) > p
            ||| load_stage(q) == 10 && phase_profile(q) == p && phase_step(q) >= 2 * stage
        }),
    decreases profiles.len() - p, 3 - stage,
{
    if p < profiles.len() {
        if stage == 0 && f.adjustable_dpi is None {
            lemma_live_order(f, profiles, p, 1);
        } else if stage == 1 && f.report_rate is None {
            lemma_live_order(f, profiles, p, 2);
        } else if stage == 2 {
            lemma_live_order(f, profiles, p + 1, 0);
        }
    }
}

/// Each answer brings a load nearer to its end.
pub proof fn loading_makes_progress(s: Loading, reply: Result<[u8; 16], HidppDriverError>)
    requires
        s.consistent(),
        s.action() is Ask,
        s.info.profiles.len() <= usize::MAX,
        forall|i: int|
            0 <= i < s.info.profiles.len() ==> (#[trigger] s.info.profiles[i]).leds.len()
                <= usize::MAX,
    ensures
        comes_after(s.after_reply(reply).load.phase, s.load.phase),
{
    let t = s.after_reply(reply);
    let f = s.driver.features;
    match s.load.phase {
        LoadPhase::HostKeys => {
            lemma_live_order(f, t.info.profiles, 0, 0);
        },
        LoadPhase::LiveDpiList(p) => {
            lemma_live_order(f, t.info.profiles, p as int, 1);
        },
        LoadPhase::LiveDpi(p) => {
            lemma_live_order(f, t.info.profiles, p as int, 1);
        },
        LoadPhase::LiveRateList(p) => {
            lemma_live_order(f, t.info.profiles, p as int, 2);
        },
        LoadPhase::LiveRate(p) => {
            lemma_live_order(f, t.info.profiles, p as int, 2);
        },
        LoadPhase::LiveLed(p, l) => {
            lemma_live_order(f, t.info.profiles, p + 1, 0);
        },
        _ => {},
    }
}

/// Each sector read brings a load nearer to its end.
pub proof fn reading_a_sector_makes_progress(s: Loading, data: Result<Vec<u8>, HidppDriverError>)
    requires
        s.consistent(),
        s.action() is ReadSector,
    ensures
        comes_after(s.after_sector(data).load.phase, s.load.phase),
{
}

/// A load that finds a bad sector leaves the memory to be repaired.
pub proof fn bad_sector_asks_for_repair(s: Loading, data: Vec<u8>)
    requires
        s.load.phase is Root || s.load.phase is User,
        !valid_sector(data@),
    ensures
        s.after_sector(Ok(data)).driver.needs_eeprom_repair,
{
}

} // verus!
