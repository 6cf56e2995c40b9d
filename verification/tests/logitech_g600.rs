use ratbagd::engine::device::{ActionType, Color, DeviceInfo, Dpi, LedMode};
use ratbagd::engine::device_database::DeviceEntry;
use ratbagd::engine::special_action;
use ratbagd::hal::logitech_g600::action::{
    decode_button, dpi_to_raw, encode_button, hz_to_raw, raw_to_dpi, raw_to_hz,
};
use ratbagd::hal::logitech_g600::driver::{
    G600Error, LG600Driver, active_query, profile_query,
};
use ratbagd::hal::logitech_g600::report::{ActiveProfileReport, ButtonEntry, ProfileReport};

fn device() -> DeviceInfo {
    let entry = DeviceEntry {
        name: "G600".into(),
        driver: "logitech_g600".into(),
        device_type: "mouse".into(),
        matches: Vec::new(),
        driver_config: None,
    };
    DeviceInfo::from_entry("x", "G600", 3, 0x046d, 0xc24a, &entry)
}

fn loaded() -> (LG600Driver, DeviceInfo) {
    let mut reports = [profile_query(0), profile_query(1), profile_query(2)];
    reports[1][1..4].copy_from_slice(&[10, 20, 30]);
    reports[1][11] = 1;
    reports[1][13] = 2;
    reports[1][14..18].copy_from_slice(&[16, 32, 0, 64]);
    let mut active = active_query();
    active[1] = 0x12;
    let mut driver = LG600Driver::new();
    driver.probed(&active, &reports);
    let mut info = device();
    driver.load_profiles(&mut info).unwrap();
    (driver, info)
}

#[test]
fn profiles_are_read() {
    let (_, info) = loaded();
    assert_eq!(info.profiles.len(), 3);
    let active: Vec<bool> = info.profiles.iter().map(|p| p.is_active).collect();
    assert_eq!(active, vec![false, true, false]);
    let p = &info.profiles[1];
    assert_eq!(p.report_rate, 500);
    let dpis: Vec<Dpi> = p.resolutions.iter().map(|r| r.dpi).collect();
    assert_eq!(dpis, [800, 1600, 0, 3200].map(Dpi::Unified).to_vec());
    assert!(p.resolutions[1].is_active && p.resolutions[1].is_default);
    assert!(p.resolutions[2].is_disabled);
    assert_eq!(p.buttons.len(), 41);
    assert_eq!(p.leds[0].color, Color { red: 10, green: 20, blue: 30 });
    assert_eq!(p.leds[0].mode, LedMode::Solid);
    assert_eq!(info.profiles[0].leds[0].mode, LedMode::Off);
}

#[test]
fn loading_needs_probing() {
    let mut info = device();
    let mut driver = LG600Driver::new();
    assert!(matches!(driver.load_profiles(&mut info), Err(G600Error::NotProbed)));
    assert!(matches!(driver.commit_profile(&info.profiles[0]), Err(G600Error::NotProbed)));

    let (mut driver, mut info) = loaded();
    driver.data.as_mut().unwrap().profile_reports[2] = None;
    assert!(matches!(
        driver.load_profiles(&mut info),
        Err(G600Error::ReportMissing { profile: 2 })
    ));
}

#[test]
fn g600_changes_read_back() {
    let (mut driver, info) = loaded();
    let mut info = info
        .with_profile_report_rate(1, 250)
        .with_resolution_dpi(1, 0, Dpi::Unified(1250))
        .with_default_resolution(1, 3)
        .with_active_resolution(1, 3)
        .with_button_mapping(1, 4, ActionType::Button, 3, Vec::new())
        .with_button_mapping(1, 30, ActionType::Special, special_action::RESOLUTION_UP, Vec::new())
        .with_led_mode(1, 0, LedMode::Breathing)
        .with_led_color(1, 0, Color { red: 1, green: 2, blue: 3 })
        .with_led_effect_duration(1, 0, 4000);
    let sent = driver.commit_profile(&info.profiles[1]).unwrap();
    assert_eq!(sent.len(), 2);
    assert_eq!(sent[0].len(), 154);
    assert_eq!(sent[1], vec![0xF0, 0x40 | (3 << 1), 0, 0]);
    assert!(driver.commit_profile(&info.profiles[0]).unwrap().is_empty());

    driver.load_profiles(&mut info).unwrap();
    let p = &info.profiles[1];
    assert_eq!(p.report_rate, 250);
    assert_eq!(p.resolutions[0].dpi, Dpi::Unified(1250));
    assert!(p.resolutions[3].is_default);
    assert_eq!((p.buttons[4].action_type, p.buttons[4].mapping_value), (ActionType::Button, 3));
    assert_eq!(p.buttons[30].mapping_value, special_action::RESOLUTION_UP);
    assert_eq!(p.leds[0].mode, LedMode::Breathing);
    assert_eq!(p.leds[0].effect_duration, 4000);
    let report = driver.data.unwrap().profile_reports[1].take().unwrap();
    assert_eq!(report.g_shift_color, [1, 2, 3]);
}

#[test]
fn odd_resolutions_are_rounded() {
    let (mut driver, info) = loaded();
    let info = info
        .with_resolution_dpi(1, 0, Dpi::Unified(849))
        .with_resolution_dpi(1, 1, Dpi::Separate { x: 99_999, y: 1 })
        .with_resolution_dpi(1, 2, Dpi::Unknown)
        .with_resolution_disabled(1, 3, true);
    driver.commit_profile(&info.profiles[1]).unwrap();
    let report = driver.data.unwrap().profile_reports[1].take().unwrap();
    assert_eq!(report.dpi, [16, 164, 0, 0]);
}

#[test]
fn missing_profiles_are_passed_over() {
    let (mut driver, mut info) = loaded();
    info.profiles[2].index = 9;
    info.profiles[2].is_dirty = true;
    assert!(driver.commit_profile(&info.profiles[2]).unwrap().is_empty());
}

#[test]
fn reports_travel_whole() {
    let mut bytes = [0u8; 154];
    for (i, b) in bytes.iter_mut().enumerate() {
        *b = (i * 7 % 251) as u8;
    }
    assert_eq!(ProfileReport::from_bytes(&bytes).into_bytes(), bytes);
}

#[test]
fn active_report_is_packed() {
    let r = ActiveProfileReport::from_bytes(&[0xF0, 0x26, 0, 0]);
    assert_eq!((r.profile(), r.resolution()), (2, 3));
}

#[test]
fn numbers_convert() {
    assert_eq!(dpi_to_raw(200), Some(4));
    assert_eq!(dpi_to_raw(8200), Some(164));
    assert_eq!(dpi_to_raw(8250), None);
    assert_eq!(dpi_to_raw(225), None);
    assert_eq!(raw_to_dpi(24), 1200);
    for hz in [125, 250, 500, 1000] {
        assert_eq!(raw_to_hz(hz_to_raw(hz)), hz);
    }
    assert_eq!(hz_to_raw(0), 0);
    assert_eq!(raw_to_hz(7), 125);
}

#[test]
fn g600_buttons_convert() {
    for (kind, value) in [
        (ActionType::Button, 1),
        (ActionType::Button, 5),
        (ActionType::Special, special_action::RESOLUTION_DOWN),
        (ActionType::Special, special_action::PROFILE_CYCLE_UP),
    ] {
        assert_eq!(decode_button(&encode_button(kind, value)), (kind, value));
    }
    let key = ButtonEntry { code: 0, modifier: 2, key: 4 };
    assert_eq!(decode_button(&key), (ActionType::Key, 4));
    let nothing = ButtonEntry { code: 0, modifier: 0, key: 0 };
    assert_eq!(decode_button(&nothing), (ActionType::NoAction, 0));
    assert_eq!(encode_button(ActionType::Unknown, 9).code, 0);
}
