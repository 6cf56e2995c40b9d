//! The state of the driver, live writes and notifications.

use crate::bytes;
use crate::engine::device;
use crate::engine::device::{
    DeviceInfo, DeviceModel, Dpi, LedInfo, LedMode, LedModel, ProfileInfo, ProfileModel,
    ResolutionModel,
};
use crate::hal::hidpp::{
    HidppReport, DEVICE_IDX_RECEIVER, PAGE_ADJUSTABLE_DPI, PAGE_ADJUSTABLE_REPORT_RATE,
    PAGE_COLOR_LED_EFFECTS, PAGE_RGB_EFFECTS,
};
use crate::hal::hidpp20::apply;
use crate::hal::hidpp20::eeprom;
use crate::hal::hidpp20::error::HidppDriverError;
use crate::hal::hidpp20::feature::{FeatureMap, FeatureRequest, RequestModel};
use crate::hal::hidpp20::led;
use crate::hal::hidpp20::sensor::{Hidpp20OnboardProfilesInfo, OnboardModel};
use vstd::prelude::*;

verus! {

pub const DPI_FN_GET_SENSOR_DPI_LIST: u8 = 0x01;

pub const DPI_FN_GET_SENSOR_DPI: u8 = 0x02;

pub const DPI_FN_SET_SENSOR_DPI: u8 = 0x03;

pub const RATE_FN_GET_REPORT_RATE_LIST: u8 = 0x00;

pub const RATE_FN_GET_REPORT_RATE: u8 = 0x01;

pub const RATE_FN_SET_REPORT_RATE: u8 = 0x02;

pub const LED_FN_GET_ZONE_EFFECT: u8 = 0x0E;

pub const LED_FN_SET_ZONE_EFFECT: u8 = 0x03;

pub const RGB_FN_SET_CLUSTER_PATTERN: u8 = 0x02;

pub const PROFILES_FN_GET_PROFILES_DESCR: u8 = 0x00;

pub const PROFILES_FN_SET_MODE: u8 = 0x01;

pub const PROFILES_FN_GET_MODE: u8 = 0x02;

pub const PROFILES_FN_SET_CURRENT_PROFILE: u8 = 0x03;

pub const PROFILES_FN_GET_CURRENT_PROFILE: u8 = 0x04;

pub const PROFILES_FN_GET_CURRENT_DPI_INDEX: u8 = 0x0B;

pub const PROFILES_FN_SET_CURRENT_DPI_INDEX: u8 = 0x0C;

pub const SPECIAL_KEYS_FN_GET_COUNT: u8 = 0x00;

/// The mouse runs its stored profiles.
pub const ONBOARD_MODE_ONBOARD: u8 = 0x01;

/// The host controls the mouse.
pub const ONBOARD_MODE_HOST: u8 = 0x02;

/// What the driver knows about its device.
#[derive(Debug)]
pub struct Hidpp20Driver {
    pub device_index: u8,
    pub features: FeatureMap,
    pub cached_onboard_info: Option<Hidpp20OnboardProfilesInfo>,
    /// The report rate in use (Hz), so that it is not set again: some firmware
    /// refuses that.
    pub cached_report_rate_hz: u32,
    /// Set when the checksum of a sector was wrong; the next commit then
    /// rewrites every sector.
    pub needs_eeprom_repair: bool,
}

/// The contents of a [`Hidpp20Driver`].
#[verifier::ext_equal]
pub struct DriverModel {
    pub device_index: u8,
    pub features: FeatureMap,
    pub onboard: Option<OnboardModel>,
    pub cached_report_rate_hz: u32,
    pub needs_eeprom_repair: bool,
}

impl View for Hidpp20Driver {
    type V = DriverModel;

    open spec fn view(&self) -> DriverModel {
        DriverModel {
            device_index: self.device_index,
            features: self.features,
            onboard: match self.cached_onboard_info {
                Some(d) => Some(d@),
                None => None,
            },
            cached_report_rate_hz: self.cached_report_rate_hz,
            needs_eeprom_repair: self.needs_eeprom_repair,
        }
    }
}

/// The place of the first active resolution.
pub open spec fn is_first_active_resolution(s: Seq<ResolutionModel>, i: int) -> bool {
    &&& 0 <= i < s.len()
    &&& s[i].is_active
    &&& forall|j: int| 0 <= j < i ==> !(#[trigger] s[j]).is_active
}

/// Finds the first active resolution of a profile.
pub fn find_active_resolution(p: &ProfileInfo) -> (r: Option<usize>)
    ensures
        r is Some ==> is_first_active_resolution(p@.resolutions, r->0 as int),
        r is None ==> forall|j: int|
            0 <= j < p@.resolutions.len() ==> !(#[trigger] p@.resolutions[j]).is_active,
{
    let mut i: usize = 0;
    while i < p.resolutions.len()
        invariant
            i <= p.resolutions@.len(),
            forall|j: int| 0 <= j < i ==> !(#[trigger] p@.resolutions[j]).is_active,
        decreases p.resolutions@.len() - i,
    {
        assert(p@.resolutions[i as int] == p.resolutions@[i as int]@);
        if p.resolutions[i].is_active {
            return Some(i);
        }
        i += 1;
    }
    None
}

/// The DPI value that a profile wants the sensor to use: that of its first
/// active resolution, if it is one value for both axes.
pub open spec fn wanted_dpi(p: ProfileModel) -> Option<u32> {
    if exists|i: int| is_first_active_resolution(p.resolutions, i) {
        let i = choose|i: int| is_first_active_resolution(p.resolutions, i);
        match p.resolutions[i].dpi {
            Dpi::Unified(v) => Some(v),
            _ => None,
        }
    } else {
        None
    }
}

/// A number limited to sixteen bits.
pub open spec fn limit16(v: u32) -> u16 {
    if v > 0xFFFF {
        0xFFFF
    } else {
        v as u16
    }
}

/// The interval in ms for a report rate that is not zero, limited to a byte.
pub open spec fn interval_of_rate(rate: u32) -> u8 {
    if 1000int / rate as int > 255 {
        255
    } else {
        (1000int / rate as int) as u8
    }
}

/// The interval in ms for a report rate that is not zero, limited to a byte.
pub fn rate_to_interval(rate: u32) -> (r: u8)
    requires
        rate > 0,
    ensures
        r == interval_of_rate(rate),
{
    let ms: u32 = 1000 / rate;
    if ms > 255 {
        255
    } else {
        ms as u8
    }
}

impl DriverModel {
    /// The request that sets the DPI value that a profile wants, if it wants
    /// one.
    pub open spec fn dpi_write(self, p: ProfileModel) -> Result<
        Option<RequestModel>,
        HidppDriverError,
    > {
        match wanted_dpi(p) {
            None => Ok(None),
            Some(v) => match self.features.required(PAGE_ADJUSTABLE_DPI) {
                Err(e) => Err(e),
                Ok(idx) => Ok(
                    Some(
                        RequestModel::long(
                            idx,
                            DPI_FN_SET_SENSOR_DPI,
                            seq![0u8] + bytes::be_bytes(limit16(v)),
                        ),
                    ),
                ),
            },
        }
    }

    /// The request that sets the report rate of a profile, if it has one and it
    /// is not in use already.
    pub open spec fn rate_write(self, p: ProfileModel) -> Result<
        Option<RequestModel>,
        HidppDriverError,
    > {
        if p.report_rate == 0 || p.report_rate == self.cached_report_rate_hz {
            Ok(None)
        } else {
            match self.features.required(PAGE_ADJUSTABLE_REPORT_RATE) {
                Err(e) => Err(e),
                Ok(idx) => Ok(
                    Some(
                        RequestModel::long(
                            idx,
                            RATE_FN_SET_REPORT_RATE,
                            seq![interval_of_rate(p.report_rate)],
                        ),
                    ),
                ),
            }
        }
    }

    /// The request that sets an LED zone. The three-colour effect has a feature
    /// of its own.
    pub open spec fn led_write(self, l: LedModel) -> Result<RequestModel, HidppDriverError> {
        let params = seq![l.index as u8] + led::payload_of_led(l) + seq![1u8];
        if l.mode is TriColor {
            match self.features.required(PAGE_RGB_EFFECTS) {
                Err(e) => Err(e),
                Ok(idx) => Ok(RequestModel::long(idx, RGB_FN_SET_CLUSTER_PATTERN, params)),
            }
        } else {
            match self.features.required(PAGE_COLOR_LED_EFFECTS) {
                Err(e) => Err(e),
                Ok(idx) => Ok(RequestModel::long(idx, LED_FN_SET_ZONE_EFFECT, params)),
            }
        }
    }
}

/// The contents of a request that may be absent or impossible.
pub open spec fn optional_request_view(
    r: Result<Option<FeatureRequest>, HidppDriverError>,
) -> Result<Option<RequestModel>, HidppDriverError> {
    match r {
        Ok(Some(q)) => Ok(Some(q@)),
        Ok(None) => Ok(None),
        Err(e) => Err(e),
    }
}

/// The contents of a request that may be impossible.
pub open spec fn request_view(r: Result<FeatureRequest, HidppDriverError>) -> Result<
    RequestModel,
    HidppDriverError,
> {
    match r {
        Ok(q) => Ok(q@),
        Err(e) => Err(e),
    }
}

impl Hidpp20Driver {
    pub fn new() -> (r: Self)
        ensures
            r@ == (DriverModel {
                device_index: DEVICE_IDX_RECEIVER,
                features: FeatureMap::empty(),
                onboard: None,
                cached_report_rate_hz: 0,
                needs_eeprom_repair: false,
            }),
    {
        Hidpp20Driver {
            device_index: DEVICE_IDX_RECEIVER,
            features: FeatureMap::default(),
            cached_onboard_info: None,
            cached_report_rate_hz: 0,
            needs_eeprom_repair: false,
        }
    }

    /// Checks the checksum of a sector.
    pub fn verify_sector_crc(sector: u16, data: &[u8]) -> (r: Result<(), HidppDriverError>)
        ensures
            r is Ok <==> data@.len() >= 2 && eeprom::stored_crc(data@) == eeprom::body_crc(data@),
            r is Err ==> r->Err_0 == (if data@.len() < 2 {
                HidppDriverError::BufferUnderflow { expected: 2, received: data.len() }
            } else {
                HidppDriverError::CrcMismatch {
                    sector,
                    expected: eeprom::body_crc(data@),
                    received: eeprom::stored_crc(data@),
                }
            }),
    {
        eeprom::verify_sector_crc(sector, data)
    }

    /// The request that sets the DPI value of a profile.
    pub fn plan_dpi_write(&self, p: &ProfileInfo) -> (r: Result<
        Option<FeatureRequest>,
        HidppDriverError,
    >)
        ensures
            optional_request_view(r) == self@.dpi_write(p@),
    {
        let at: usize = match find_active_resolution(p) {
            None => {
                return Ok(None);
            },
            Some(i) => i,
        };
        proof {
            let k = choose|k: int| is_first_active_resolution(p@.resolutions, k);
            assert(is_first_active_resolution(p@.resolutions, at as int));
            assert(k == at);
            assert(p@.resolutions[at as int] == p.resolutions@[at as int]@);
        }
        let v: u32 = match p.resolutions[at].dpi {
            Dpi::Unified(v) => v,
            _ => {
                return Ok(None);
            },
        };
        match self.features.require(PAGE_ADJUSTABLE_DPI) {
            Err(e) => Err(e),
            Ok(idx) => {
                let value: u16 = if v > 0xFFFF {
                    0xFFFF
                } else {
                    v as u16
                };
                let params: Vec<u8> = vec![0, bytes::high_byte(value), bytes::low_byte(value)];
                assert(params@ =~= seq![0u8] + bytes::be_bytes(limit16(v)));
                Ok(Some(FeatureRequest::long(idx, DPI_FN_SET_SENSOR_DPI, params)))
            },
        }
    }

    /// The request that sets the report rate of a profile.
    pub fn plan_rate_write(&self, p: &ProfileInfo) -> (r: Result<
        Option<FeatureRequest>,
        HidppDriverError,
    >)
        ensures
            optional_request_view(r) == self@.rate_write(p@),
    {
        if p.report_rate == 0 || p.report_rate == self.cached_report_rate_hz {
            return Ok(None);
        }
        match self.features.require(PAGE_ADJUSTABLE_REPORT_RATE) {
            Err(e) => Err(e),
            Ok(idx) => {
                let params: Vec<u8> = vec![rate_to_interval(p.report_rate)];
                assert(params@ =~= seq![interval_of_rate(p.report_rate)]);
                Ok(Some(FeatureRequest::long(idx, RATE_FN_SET_REPORT_RATE, params)))
            },
        }
    }

    /// The request that sets an LED zone.
    pub fn plan_led_write(&self, l: &LedInfo) -> (r: Result<FeatureRequest, HidppDriverError>)
        requires
            led::writable(l@),
        ensures
            request_view(r) == self@.led_write(l@),
    {
        let payload: [u8; 11] = led::build_led_payload(l);
        let mut params: Vec<u8> = vec![l.index as u8];
        bytes::extend(&mut params, payload.as_slice());
        params.push(1);
        assert(params@ =~= seq![l@.index as u8] + led::payload_of_led(l@) + seq![1u8]);
        match l.mode {
            LedMode::TriColor => match self.features.require(PAGE_RGB_EFFECTS) {
                Err(e) => Err(e),
                Ok(idx) => Ok(FeatureRequest::long(idx, RGB_FN_SET_CLUSTER_PATTERN, params)),
            },
            _ => match self.features.require(PAGE_COLOR_LED_EFFECTS) {
                Err(e) => Err(e),
                Ok(idx) => Ok(FeatureRequest::long(idx, LED_FN_SET_ZONE_EFFECT, params)),
            },
        }
    }
}

/// What a notification of the onboard-profile feature announces.
pub enum Notice {
    /// The mouse has switched to the profile of this index.
    Profile(u32),
    /// The mouse has switched to the resolution of this index.
    Resolution(u32),
    Nothing,
}

impl DriverModel {
    /// What a report announces to this driver.
    pub open spec fn notice(self, buf: Seq<u8>) -> Notice {
        if !HidppReport::is_report(buf) || buf[1] != self.device_index
            || self.features.onboard_profiles != Some(buf[2]) {
            Notice::Nothing
        } else {
            let function = buf[3] / 16;
            if function == PROFILES_FN_GET_CURRENT_PROFILE || function
                == PROFILES_FN_SET_CURRENT_PROFILE {
                if buf[5] == 0 {
                    Notice::Nothing
                } else {
                    Notice::Profile((buf[5] - 1) as u32)
                }
            } else if function == PROFILES_FN_GET_CURRENT_DPI_INDEX || function
                == PROFILES_FN_SET_CURRENT_DPI_INDEX {
                Notice::Resolution(buf[4] as u32)
            } else {
                Notice::Nothing
            }
        }
    }
}

/// The device once the profiles of one index are the active ones.
pub open spec fn switched_profile(info: DeviceModel, index: u32) -> DeviceModel {
    DeviceModel {
        profiles: info.profiles.map_values(
            |p: ProfileModel| ProfileModel { is_active: p.index == index, ..p },
        ),
        ..info
    }
}

/// The device once the first active profile uses the resolutions of one index.
pub open spec fn switched_resolution(info: DeviceModel, index: u32) -> DeviceModel {
    if exists|i: int| apply::is_first_active(info.profiles, i) {
        let i = choose|i: int| apply::is_first_active(info.profiles, i);
        DeviceModel {
            profiles: info.profiles.update(
                i,
                apply::with_active_resolution_index(info.profiles[i], index as int),
            ),
            ..info
        }
    } else {
        info
    }
}

/// The device after a report was taken notice of.
pub open spec fn noticed(driver: DriverModel, buf: Seq<u8>, info: DeviceModel) -> DeviceModel {
    match driver.notice(buf) {
        Notice::Profile(index) => switched_profile(info, index),
        Notice::Resolution(index) => switched_resolution(info, index),
        Notice::Nothing => info,
    }
}

fn switch_profile(info: &mut DeviceInfo, index: u32) -> (changed: bool)
    ensures
        final(info)@ == switched_profile(old(info)@, index),
        changed == (final(info)@ != old(info)@),
{
    let ghost orig = old(info)@.profiles;
    let ghost target = switched_profile(old(info)@, index).profiles;
    let mut changed: bool = false;
    let mut i: usize = 0;
    while i < info.profiles.len()
        invariant
            i <= info.profiles@.len(),
            orig == old(info)@.profiles,
            target == switched_profile(old(info)@, index).profiles,
            info.profiles@.len() == orig.len(),
            info@ == (DeviceModel { profiles: info@.profiles, ..old(info)@ }),
            changed <==> exists|j: int| 0 <= j < i && (#[trigger] target[j]) != orig[j],
            forall|j: int| 0 <= j < i ==> info@.profiles[j] == target[j],
            forall|j: int| i <= j < info.profiles@.len() ==> info@.profiles[j] == orig[j],
        decreases info.profiles@.len() - i,
    {
        let wanted: bool = info.profiles[i].index == index;
        proof {
            device::lemma_profiles_view_update(info.profiles@, i as int);
            assert(info@.profiles[i as int] == info.profiles@[i as int]@);
        }
        if info.profiles[i].is_active != wanted {
            info.profiles[i].is_active = wanted;
            changed = true;
            assert(target[i as int].is_active != orig[i as int].is_active);
        } else {
            assert(target[i as int] =~= orig[i as int]);
        }
        i += 1;
    }
    proof {
        assert(info@.profiles =~= target);
        if changed {
            let j = choose|j: int| 0 <= j < target.len() && (#[trigger] target[j]) != orig[j];
            assert(info@.profiles[j] != orig[j]);
        } else {
            assert(info@.profiles =~= orig);
        }
    }
    changed
}

fn switch_resolution(info: &mut DeviceInfo, index: u32) -> (changed: bool)
    ensures
        final(info)@ == switched_resolution(old(info)@, index),
        changed == (final(info)@ != old(info)@),
{
    match apply::find_active_profile(info) {
        None => false,
        Some(at) => {
            proof {
                let k = choose|k: int| apply::is_first_active(info@.profiles, k);
                assert(apply::is_first_active(info@.profiles, at as int));
                assert(k == at);
                device::lemma_profiles_view_update(info.profiles@, at as int);
                assert(info@.profiles[at as int] == info.profiles@[at as int]@);
            }
            let changed: bool = apply::set_active_resolution(&mut info.profiles[at], index);
            proof {
                if changed {
                    assert(info@.profiles[at as int] != old(info)@.profiles[at as int]);
                } else {
                    assert(info@.profiles =~= old(info)@.profiles);
                }
            }
            changed
        },
    }
}

impl Hidpp20Driver {
    /// Takes notice of a report that was not asked for, and says whether it
    /// changed the state of the device.
    pub fn handle_event(&self, report: &[u8], info: &mut DeviceInfo) -> (changed: bool)
        ensures
            final(info)@ == noticed(self@, report@, old(info)@),
            changed == (final(info)@ != old(info)@),
    {
        let is_report: bool = match HidppReport::parse(report) {
            Some(_) => true,
            None => false,
        };
        if !is_report || report[1] != self.device_index {
            return false;
        }
        match self.features.onboard_profiles {
            None => {
                return false;
            },
            Some(idx) => {
                if report[2] != idx {
                    return false;
                }
            },
        }
        let function: u8 = report[3] / 16;
        if function == PROFILES_FN_GET_CURRENT_PROFILE || function
            == PROFILES_FN_SET_CURRENT_PROFILE {
            let sector: u8 = report[5];
            if sector == 0 {
                return false;
            }
            return switch_profile(info, (sector - 1) as u32);
        }
        if function == PROFILES_FN_GET_CURRENT_DPI_INDEX || function
            == PROFILES_FN_SET_CURRENT_DPI_INDEX {
            return switch_resolution(info, report[4] as u32);
        }
        false
    }
}

/// Taking notice of the same report twice changes nothing the second time.
pub proof fn notice_is_idempotent(driver: DriverModel, buf: Seq<u8>, info: DeviceModel)
    ensures
        noticed(driver, buf, noticed(driver, buf, info)) == noticed(driver, buf, info),
{
    let once = noticed(driver, buf, info);
    let twice = noticed(driver, buf, once);
    match driver.notice(buf) {
        Notice::Profile(index) => {
            assert(twice =~= once);
        },
        Notice::Resolution(index) => {
            if exists|i: int| apply::is_first_active(info.profiles, i) {
                let i = choose|i: int| apply::is_first_active(info.profiles, i);
                assert(apply::is_first_active(once.profiles, i));
                let k = choose|k: int| apply::is_first_active(once.profiles, k);
                assert(k == i);
                assert(twice.profiles[i].resolutions =~= once.profiles[i].resolutions);
                assert(twice.profiles[i] =~= once.profiles[i]);
                assert(twice.profiles =~= once.profiles);
            }
        },
        Notice::Nothing => {},
    }
    assert(twice =~= once);
}

} // verus!
