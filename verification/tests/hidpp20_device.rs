use ratbagd::engine::device::{ActionType, Color, DeviceInfo, Dpi, LedInfo, LedMode};
use ratbagd::engine::device_database::{DeviceEntry, DriverConfig};
use ratbagd::engine::special_action;
use ratbagd::hal::error::DriverError;
use ratbagd::hal::hidpp::{
    HidppReport, PAGE_ADJUSTABLE_DPI, PAGE_ADJUSTABLE_REPORT_RATE, PAGE_COLOR_LED_EFFECTS,
    PAGE_ONBOARD_PROFILES, build_hidpp20_request, compute_ccitt_crc, hidpp20_error_name,
};
use ratbagd::hal::hidpp20::binding::{
    Hidpp20ButtonBinding, hidpp20_raw_to_special, hidpp20_special_to_raw,
};
use ratbagd::hal::hidpp20::commit::{CommitAction, CommitPhase, ProfileCommit};
use ratbagd::hal::hidpp20::driver::{
    DPI_FN_GET_SENSOR_DPI_LIST, Hidpp20Driver, PROFILES_FN_GET_CURRENT_DPI_INDEX,
    PROFILES_FN_GET_CURRENT_PROFILE, PROFILES_FN_GET_MODE, PROFILES_FN_GET_PROFILES_DESCR,
    PROFILES_FN_SET_CURRENT_PROFILE, PROFILES_FN_SET_MODE, rate_to_interval,
};
use ratbagd::hal::hidpp20::eeprom::{seal_sector, verify_sector_crc};
use ratbagd::hal::hidpp20::error::HidppDriverError;
use ratbagd::hal::hidpp20::feature::{
    FeatureRequest, feature_index_request, feature_queries, match_feature_index,
    special_keys_count,
};
use ratbagd::hal::hidpp20::led::{parse_eeprom_led, serialize_eeprom_led};
use ratbagd::hal::hidpp20::live::LiveWrite;
use ratbagd::hal::hidpp20::load::{LoadAction, LoadError, LoadPhase, ProfileLoad};
use ratbagd::hal::hidpp20::sector::{
    PROFILES_FN_MEMORY_ADDR_WRITE, PROFILES_FN_MEMORY_READ, PROFILES_FN_MEMORY_WRITE, SectorRead,
    SectorWrite, SectorWritePhase, plan_sector_write, write_retry_delay,
};
use ratbagd::hal::hidpp20::sensor::{parse_dpi_list, parse_rate_bitmap};

const ONBOARD: u8 = 9;
const SENSOR: u8 = 5;
const RATE: u8 = 6;
const SIZE: usize = 255;

fn device() -> DeviceInfo {
    let entry = DeviceEntry {
        name: "G502".into(),
        driver: "hidpp20".into(),
        device_type: "mouse".into(),
        matches: Vec::new(),
        driver_config: Some(DriverConfig {
            profiles: Some(1),
            buttons: Some(2),
            leds: Some(1),
            ..DriverConfig::default()
        }),
    };
    DeviceInfo::from_entry("x", "G502", 3, 0x046d, 0xc07d, &entry)
}

fn driver() -> Hidpp20Driver {
    let mut d = Hidpp20Driver::new();
    d.features.insert(PAGE_ONBOARD_PROFILES, ONBOARD);
    d.features.insert(PAGE_ADJUSTABLE_DPI, SENSOR);
    d.features.insert(PAGE_ADJUSTABLE_REPORT_RATE, RATE);
    d
}

fn timeout() -> HidppDriverError {
    HidppDriverError::from(DriverError::Timeout { attempts: 3 })
}

fn long(first: &[u8]) -> [u8; 16] {
    let mut r = [0u8; 16];
    r[..first.len()].copy_from_slice(first);
    r
}

/// A mouse with two onboard profiles.
struct Mouse {
    sectors: Vec<(u16, Vec<u8>)>,
    asked: Vec<(u8, u8, Vec<u8>)>,
    target: (u16, Vec<u8>),
}

impl Mouse {
    fn new() -> Self {
        let mut root = vec![0xFFu8; SIZE];
        root[..8].copy_from_slice(&[0, 1, 1, 0, 0, 2, 0, 0]);
        seal_sector(&mut root);
        let mut sectors = vec![(0, root)];
        for i in 1..=2u16 {
            let mut s = vec![0u8; SIZE];
            s[0] = 2 * i as u8;
            s[1] = 1;
            s[3..7].copy_from_slice(&[0x20, 0x03, 0x40, 0x06]);
            s[32..36].copy_from_slice(&[0x80, 0x01, 0x00, i as u8]);
            seal_sector(&mut s);
            sectors.push((i, s));
        }
        Mouse { sectors, asked: Vec::new(), target: (0, Vec::new()) }
    }

    fn sector(&mut self, at: u16) -> &mut Vec<u8> {
        &mut self.sectors.iter_mut().find(|s| s.0 == at).unwrap().1
    }

    fn ask(&mut self, q: &FeatureRequest) -> Result<[u8; 16], HidppDriverError> {
        self.asked.push((q.feature, q.function, q.params.clone()));
        match (q.feature, q.function) {
            (ONBOARD, PROFILES_FN_GET_PROFILES_DESCR) => {
                Ok(long(&[1, 2, 3, 2, 1, 2, 4, 0, SIZE as u8]))
            }
            (ONBOARD, PROFILES_FN_GET_MODE) => Ok(long(&[2])),
            (ONBOARD, PROFILES_FN_GET_CURRENT_PROFILE) => Ok(long(&[0, 2])),
            (ONBOARD, PROFILES_FN_GET_CURRENT_DPI_INDEX) => Ok(long(&[1])),
            (ONBOARD, PROFILES_FN_MEMORY_READ) => {
                let at = u16::from_be_bytes([q.params[0], q.params[1]]);
                let from = u16::from_be_bytes([q.params[2], q.params[3]]) as usize;
                let mut r = [0u8; 16];
                r.copy_from_slice(&self.sector(at)[from..from + 16]);
                Ok(r)
            }
            (ONBOARD, PROFILES_FN_MEMORY_ADDR_WRITE) => {
                self.target = (u16::from_be_bytes([q.params[0], q.params[1]]), Vec::new());
                Ok([0; 16])
            }
            (ONBOARD, PROFILES_FN_MEMORY_WRITE) => {
                self.target.1.extend_from_slice(&q.params);
                let (at, mut data) = self.target.clone();
                data.truncate(SIZE);
                self.sector(at)[..data.len()].copy_from_slice(&data);
                Ok([0; 16])
            }
            (SENSOR, DPI_FN_GET_SENSOR_DPI_LIST) => Ok(long(&[0, 1, 0x90, 3, 0x20])),
            (RATE, 0) => Ok(long(&[0x8B])),
            _ => Ok([0; 16]),
        }
    }

    fn read(&mut self, feature: u8, sector: u16, size: u16) -> Result<Vec<u8>, HidppDriverError> {
        let mut read = SectorRead::new(feature, sector, 0, size);
        while let Some(q) = read.next_request() {
            let reply = self.ask(&q)?;
            read.accept(&reply);
        }
        Ok(read.into_data())
    }
}

fn load(driver: &mut Hidpp20Driver, info: &mut DeviceInfo, mouse: &mut Mouse) -> LoadPhase {
    let mut load = ProfileLoad::begin(driver, info);
    loop {
        match load.action(driver, info) {
            LoadAction::Ask(q) => {
                let reply = mouse.ask(&q);
                load.replied(driver, info, reply);
            }
            LoadAction::ReadSector { feature, sector, size } => {
                let data = mouse.read(feature, sector, size);
                load.sector_read(driver, info, data);
            }
            LoadAction::Stop => break,
        }
    }
    load.phase
}

fn commit(driver: &mut Hidpp20Driver, info: &DeviceInfo, mouse: &mut Mouse) -> CommitPhase {
    let mut commit = ProfileCommit::begin(driver, info);
    loop {
        match commit.action(driver, info) {
            CommitAction::WriteLive(_) => commit.done(driver, info, Ok(())),
            CommitAction::Ask(q) => {
                let result = mouse.ask(&q).map(|_| ());
                commit.done(driver, info, result);
            }
            CommitAction::ReadSector { feature, sector, size } => {
                let data = mouse.read(feature, sector, size);
                commit.sector_read(driver, info, data);
            }
            CommitAction::WriteSector { feature, sector, data } => {
                let mut result = Ok(());
                for q in plan_sector_write(feature, sector, 0, &data) {
                    result = result.and(mouse.ask(&q).map(|_| ()));
                }
                commit.done(driver, info, result);
            }
            CommitAction::Stop => break,
        }
    }
    commit.phase
}

#[test]
fn hidpp20_onboard_profiles_are_loaded() {
    let (mut d, mut info, mut mouse) = (driver(), device(), Mouse::new());
    assert!(matches!(load(&mut d, &mut info, &mut mouse), LoadPhase::Finished));
    assert!(!d.needs_eeprom_repair);
    assert_eq!(info.profiles.len(), 2);
    assert!(info.profiles[0].is_enabled && !info.profiles[1].is_enabled);
    assert!(!info.profiles[0].is_active && info.profiles[1].is_active);
    assert_eq!(info.profiles[0].report_rate, 500);
    assert_eq!(info.profiles[1].report_rate, 250);
    let r = &info.profiles[0].resolutions;
    assert_eq!((r[0].dpi, r[1].dpi), (Dpi::Unified(800), Dpi::Unified(1600)));
    assert!(info.profiles[1].resolutions[1].is_active);
    assert_eq!(info.profiles[0].buttons.len(), 2);
    assert_eq!(info.profiles[1].buttons[0].action_type, ActionType::Button);
    assert_eq!(info.profiles[1].buttons[0].mapping_value, 2);
    assert!(mouse.asked.contains(&(ONBOARD, PROFILES_FN_SET_MODE, vec![1])));
}

#[test]
fn spoilt_directory_asks_for_repair() {
    let (mut d, mut info, mut mouse) = (driver(), device(), Mouse::new());
    mouse.sector(0)[0] ^= 1;
    let rom = mouse.sector(1).clone();
    mouse.sectors.push((0x0101, rom));
    assert!(matches!(load(&mut d, &mut info, &mut mouse), LoadPhase::Finished));
    assert!(d.needs_eeprom_repair);
    assert!(info.profiles[0].is_enabled && info.profiles[1].is_enabled);
    assert_eq!(info.profiles[1].report_rate, 500);
}

#[test]
fn lost_descriptor_fails_the_loading() {
    let (mut d, mut info) = (driver(), device());
    let mut l = ProfileLoad::begin(&d, &mut info);
    l.replied(&mut d, &mut info, Err(timeout()));
    assert!(matches!(
        l.phase,
        LoadPhase::Failed(LoadError::Device(HidppDriverError::DeviceTimeout))
    ));
}

#[test]
fn hidpp20_changes_read_back() {
    let (mut d, mut info, mut mouse) = (driver(), device(), Mouse::new());
    load(&mut d, &mut info, &mut mouse);
    let changed = info
        .with_profile_report_rate(1, 1000)
        .with_resolution_dpi(1, 0, Dpi::Unified(1200))
        .with_button_mapping(1, 0, ActionType::Button, 4, Vec::new())
        .with_profile_disabled(1, false);
    mouse.asked.clear();
    assert!(matches!(commit(&mut d, &changed, &mut mouse), CommitPhase::Finished));
    let written: Vec<u8> = mouse
        .asked
        .iter()
        .filter(|a| a.1 == PROFILES_FN_MEMORY_ADDR_WRITE)
        .map(|a| a.2[1])
        .collect();
    assert_eq!(written, vec![2, 0]);
    assert!(mouse.asked.contains(&(ONBOARD, PROFILES_FN_SET_CURRENT_PROFILE, vec![0, 2])));

    let mut again = device();
    assert!(matches!(load(&mut driver(), &mut again, &mut mouse), LoadPhase::Finished));
    assert_eq!(again.profiles[1].report_rate, 1000);
    assert_eq!(again.profiles[1].resolutions[0].dpi, Dpi::Unified(1200));
    assert_eq!(again.profiles[1].buttons[0].mapping_value, 4);
    assert!(again.profiles[1].is_enabled);
    assert_eq!(again.profiles[0].report_rate, 500);
}

#[test]
fn unchanged_device_is_spared() {
    let (mut d, mut info, mut mouse) = (driver(), device(), Mouse::new());
    load(&mut d, &mut info, &mut mouse);
    let clean = info.with_cleared_dirty_flags();
    mouse.asked.clear();
    assert!(matches!(commit(&mut d, &clean, &mut mouse), CommitPhase::Finished));
    assert!(!mouse.asked.iter().any(|a| a.1 == PROFILES_FN_MEMORY_ADDR_WRITE));
}

#[test]
fn failed_write_is_told() {
    let (mut d, mut info, mut mouse) = (driver(), device(), Mouse::new());
    load(&mut d, &mut info, &mut mouse);
    let changed = info.with_profile_report_rate(0, 125);
    let mut c = ProfileCommit::begin(&mut d, &changed);
    while !matches!(c.action(&d, &changed), CommitAction::Stop) {
        if let CommitAction::ReadSector { feature, sector, size } = c.action(&d, &changed) {
            let data = mouse.read(feature, sector, size);
            c.sector_read(&d, &changed, data);
        } else {
            c.done(&mut d, &changed, Err(timeout()));
        }
    }
    assert!(matches!(c.phase, CommitPhase::Failed(HidppDriverError::DeviceTimeout)));
}

#[test]
fn notices_change_the_device() {
    let (mut d, mut info, mut mouse) = (driver(), device(), Mouse::new());
    load(&mut d, &mut info, &mut mouse);
    d.device_index = 1;
    let mut notice = [0u8; 20];
    notice[..6].copy_from_slice(&[0x11, 1, ONBOARD, 0x40, 0, 1]);
    assert!(d.handle_event(&notice, &mut info));
    assert!(info.profiles[0].is_active && !info.profiles[1].is_active);
    d.handle_event(&notice, &mut info);
    assert!(info.profiles[0].is_active && !info.profiles[1].is_active);
    notice[2] = 0x33;
    assert!(!d.handle_event(&notice, &mut info));
}

#[test]
fn features_are_found() {
    let mut map = Hidpp20Driver::new().features;
    assert!(matches!(
        map.require(PAGE_COLOR_LED_EFFECTS),
        Err(HidppDriverError::UnsupportedFeature(PAGE_COLOR_LED_EFFECTS))
    ));
    map.insert(PAGE_COLOR_LED_EFFECTS, 7);
    assert!(matches!(map.require(PAGE_COLOR_LED_EFFECTS), Ok(7)));
    assert_eq!(feature_queries().len(), 6);
    let q = feature_index_request(0x8100);
    assert_eq!(q.report(1)[..6], [0x11, 1, 0, 0x04, 0x81, 0x00]);
    let mut reply = [0u8; 20];
    reply[..5].copy_from_slice(&[0x11, 1, 0, 0x04, 9]);
    assert_eq!(match_feature_index(&reply, 1), Some(Some(9)));
    reply[4] = 0;
    assert_eq!(match_feature_index(&reply, 1), Some(None));
    assert_eq!(match_feature_index(&reply, 2), None);
    assert_eq!(match_feature_index(&[0x11, 1, 0xFF, 0, 0x04, 6], 1), None);
}

#[test]
fn hidpp20_replies_are_matched() {
    let q = FeatureRequest { feature: 5, function: 2, params: vec![0], short: false };
    let mut reply = [0u8; 20];
    reply[..6].copy_from_slice(&[0x11, 1, 5, 0x24, 7, 8]);
    assert!(matches!(q.match_reply(&reply, 1), Some(Ok(p)) if p[..2] == [7, 8]));
    assert!(matches!(
        q.match_reply(&[0x10, 1, 5, 0x24, 7, 8, 9], 1),
        Some(Ok(p)) if p == long(&[7, 8, 9])
    ));
    let mut failure = [0u8; 20];
    failure[..6].copy_from_slice(&[0x11, 1, 0xFF, 5, 0x24, 8]);
    assert!(matches!(
        q.match_reply(&failure, 1),
        Some(Err(HidppDriverError::ProtocolError { code: 8, feature: 5, function: 2 }))
    ));
    reply[3] = 0x20;
    assert!(q.match_reply(&reply, 1).is_none());
    assert!(matches!(HidppReport::parse(&failure), Some(r) if r.is_error()));
    assert_eq!(build_hidpp20_request(1, 5, 2, 4, &[9])[..5], [0x11, 1, 5, 0x24, 9]);
}

#[test]
fn errors_have_names_and_classes() {
    assert_ne!(hidpp20_error_name(8), hidpp20_error_name(2));
    let busy = HidppDriverError::ProtocolError { code: 8, feature: 1, function: 1 };
    let other = HidppDriverError::ProtocolError { code: 2, feature: 1, function: 1 };
    assert!(busy.is_transient() && !other.is_transient() && timeout().is_transient());
    assert!(!HidppDriverError::from(DriverError::DeviceAsleep).is_transient());
    assert!(matches!(special_keys_count(Ok(long(&[11]))), Ok(11)));
    assert!(matches!(special_keys_count(Err(other)), Ok(0)));
    assert!(special_keys_count(Err(timeout())).is_err());
}

#[test]
fn live_writes_go_on_after_failures() {
    let mut d = driver();
    d.features.insert(PAGE_COLOR_LED_EFFECTS, 7);
    let info = device().with_led_mode(0, 0, LedMode::Solid);
    let p = &info.profiles[0];
    let mut w = LiveWrite::begin(&d, p);
    let mut sent = Vec::new();
    while let Some(q) = w.request(&d, p) {
        sent.push((q.feature, q.function));
        let result = if q.feature == SENSOR { Err(timeout()) } else { Ok(()) };
        w.done(&d, p, result);
    }
    assert_eq!(sent, vec![(SENSOR, 3), (RATE, 2), (7, 3)]);
    assert!(matches!(w.outcome(), Err(HidppDriverError::DeviceTimeout)));
}

#[test]
fn live_writes_need_their_features() {
    let d = Hidpp20Driver::new();
    let info = device();
    let w = LiveWrite::begin(&d, &info.profiles[0]);
    assert!(w.request(&d, &info.profiles[0]).is_none());
    assert!(matches!(
        w.outcome(),
        Err(HidppDriverError::UnsupportedFeature(PAGE_ADJUSTABLE_DPI))
    ));
}

#[test]
fn sector_writes_are_repeated() {
    let mut w = SectorWrite::new(ONBOARD, 3, &vec![1u8; 20]);
    assert_eq!(w.request().unwrap().params[..6], [0, 3, 0, 0, 0, 20]);
    for ms in [15, 30] {
        w.done(Ok(()));
        w.done(Err(timeout()));
        assert!(matches!(w.phase, SectorWritePhase::Pause(t) if t == ms));
        assert!(w.request().is_none());
        w.resume();
    }
    for _ in 0..4 {
        assert!(w.request().is_some());
        w.done(Ok(()));
    }
    assert!(matches!(w.phase, SectorWritePhase::Done));

    let mut w = SectorWrite::new(ONBOARD, 3, &vec![1u8; 20]);
    for _ in 0..3 {
        w.done(Err(timeout()));
        w.resume();
    }
    assert!(matches!(w.phase, SectorWritePhase::Failed(HidppDriverError::DeviceTimeout)));
}

#[test]
fn sectors_are_read_and_written() {
    let mut mouse = Mouse::new();
    let whole = mouse.sector(1).clone();
    assert_eq!(mouse.read(ONBOARD, 1, SIZE as u16).unwrap(), whole);
    let last = mouse.asked.last().unwrap().2.clone();
    assert_eq!(u16::from_be_bytes([last[2], last[3]]), 239);
    let plan = plan_sector_write(ONBOARD, 2, 0, &whole);
    assert_eq!(plan.len(), 18);
    assert_eq!(plan[0].params[..6], [0, 2, 0, 0, 0, 255]);
    assert!(plan[17].short && plan[17].params.is_empty());
    let sent: Vec<u8> = plan[1..17].iter().flat_map(|q| q.params.clone()).collect();
    assert_eq!(sent[..SIZE], whole[..]);
    assert_eq!(
        [write_retry_delay(0), write_retry_delay(1), write_retry_delay(2)],
        [Some(15), Some(30), None]
    );
}

#[test]
fn sealed_sectors_are_valid() {
    let mut s = vec![5u8; 20];
    assert!(verify_sector_crc(1, &s).is_err());
    seal_sector(&mut s);
    assert!(verify_sector_crc(1, &s).is_ok());
    assert_eq!(compute_ccitt_crc(b"123456789"), 0x29B1);
}

#[test]
fn bindings_keep_buttons() {
    for button in 1..=16 {
        let b = Hidpp20ButtonBinding::from_action(ActionType::Button, button);
        assert_eq!((b.to_action(), b.mapping_value()), (ActionType::Button, button));
        assert_eq!(Hidpp20ButtonBinding::from_bytes(&b.into_bytes()).mapping_value(), button);
    }
    let off = Hidpp20ButtonBinding::from_action(ActionType::NoAction, 0);
    assert_eq!(off.to_action(), ActionType::NoAction);
    let raw = hidpp20_special_to_raw(special_action::PROFILE_CYCLE_UP);
    assert_eq!(hidpp20_raw_to_special(raw), special_action::PROFILE_CYCLE_UP);
}

#[test]
fn bindings_keep_keys_macros_and_specials() {
    for (action, value) in [
        (ActionType::Key, 30),
        (ActionType::Key, 0x1234),
        (ActionType::Macro, 0),
        (ActionType::Macro, 0xFFFF),
        (ActionType::Special, special_action::WHEEL_LEFT),
        (ActionType::Special, special_action::SECOND_MODE),
    ] {
        let b = Hidpp20ButtonBinding::from_action(action, value);
        assert_eq!((b.to_action(), b.mapping_value()), (action, value));
    }
    let key = Hidpp20ButtonBinding::from_action(ActionType::Key, 0x1234);
    assert_eq!(key.into_bytes()[2..], [0x34, 0x12]);
    let none = Hidpp20ButtonBinding::from_action(ActionType::Special, special_action::UNKNOWN);
    assert_eq!(none.mapping_value(), special_action::UNKNOWN);
}

#[test]
fn led_records_read_back() {
    let mut info = device();
    let led: &mut LedInfo = &mut info.profiles[0].leds[0];
    led.mode = LedMode::Solid;
    led.color = Color { red: 9, green: 8, blue: 7 };
    let back = parse_eeprom_led(&serialize_eeprom_led(led), 0);
    assert_eq!((back.mode, back.color), (LedMode::Solid, led.color));
    led.mode = LedMode::Off;
    assert_eq!(parse_eeprom_led(&serialize_eeprom_led(led), 0).mode, LedMode::Off);
}

#[test]
fn sensor_lists() {
    assert_eq!(parse_dpi_list(&[0x01, 0x90, 0x03, 0x20, 0, 0]), vec![400, 800]);
    assert_eq!(
        parse_dpi_list(&[0x00, 0xC8, 0xE0, 0x32, 0x01, 0x90, 0, 0]),
        vec![200, 250, 300, 350, 400]
    );
    assert_eq!(parse_rate_bitmap(0x8B), vec![1000, 500, 250, 125]);
    assert_eq!(rate_to_interval(500), 2);
}
