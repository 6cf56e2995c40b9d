use ratbagd::engine::device::{ActionType, Color, DeviceInfo, Dpi, LedMode, RgbColor};
use ratbagd::engine::device_database::{
    DeviceEntry, DriverConfig, SinowealthDevice, SinowealthLedType,
};
use ratbagd::engine::special_action;
use ratbagd::hal::sinowealth::button::{
    BTN_EXTRA, BTN_LEFT, HwButtonType, build_macro, decode_button, encode_button,
    hw_special_to_ratbag, parse_macro, ratbag_special_to_hw,
};
use ratbagd::hal::sinowealth::commit::{SinowealthCommit, SinowealthCommitPhase};
use ratbagd::hal::sinowealth::config::{RgbEffect, read_color, write_color};
use ratbagd::hal::sinowealth::driver::{
    SinowealthDriver, SinowealthLoad, SinowealthLoadPhase, finish_commit,
};
use ratbagd::hal::sinowealth::protocol::{
    CommandId, LedType, Sensor, SinowealthError, build_cmd, build_cmd_with, buttons_cmd,
    check_echo, config_cmd, descriptor_is_long, detect_config_size, format_firmware_version,
};

fn device(profiles: u32) -> DeviceInfo {
    let entry = DeviceEntry {
        name: "sw".into(),
        driver: "sinowealth".into(),
        device_type: "mouse".into(),
        matches: Vec::new(),
        driver_config: Some(DriverConfig {
            sinowealth_devices: vec![SinowealthDevice {
                firmware_version: "va10".into(),
                device_name: "Model O".into(),
                buttons: 6,
                sensor_type: "pmw3327".into(),
                led_type: SinowealthLedType::Rbg,
                profiles,
            }],
            ..DriverConfig::default()
        }),
    };
    DeviceInfo::from_entry("x", "sw", 3, 0x258a, 0x36, &entry)
}

fn config(rate: u8, active: u8) -> Vec<u8> {
    let mut c = vec![0u8; 520];
    c[0] = 4;
    c[6] = 0x20;
    c[7..11].copy_from_slice(&[7, 7, 15, 15]);
    c[23] = active;
    c[72] = rate;
    c[77] = 2;
    c[78..81].copy_from_slice(&[1, 2, 3]);
    c
}

fn buttons(first: [u8; 4]) -> Vec<u8> {
    let mut b = vec![0u8; 520];
    b[0] = 4;
    b[4..8].copy_from_slice(&first);
    b
}

fn probed() -> SinowealthDriver {
    let mut driver = SinowealthDriver::new();
    driver.probed(&[5, 1, b'A', 0x10, 0, 0], false, config(3, 1));
    driver
}

/// Loads a device with two profiles, and gives what was asked.
fn loaded() -> (SinowealthDriver, DeviceInfo, Vec<[u8; 6]>) {
    let mut driver = probed();
    let mut info = device(2);
    let data = driver.data.as_mut().unwrap();
    let mut load = SinowealthLoad::begin(data, &mut info);
    let mut asked = Vec::new();
    for reply in [
        config(1, 0),
        buttons([0x40, 9, 0, 0]),
        buttons([0x01, 0x02, 0, 0]),
        vec![5, 2, 1, 0, 0, 0],
        build_macro(4, 0, 0, &vec![(1, 30), (2, 30)]),
    ] {
        let q = load.query(data, &info).unwrap();
        assert_eq!(q.size, reply.len());
        asked.push(q.cmd);
        load.replied(data, &mut info, &Some(reply));
    }
    assert!(load.query(data, &info).is_none());
    assert!(matches!(load.phase, SinowealthLoadPhase::Done));
    (driver, info, asked)
}

#[test]
fn firmware_versions() {
    assert_eq!(format_firmware_version([0x41, 0x0B]), "VA0B");
    assert_eq!(format_firmware_version([b'V', 0x0A]), "VV0A");
    assert_eq!(format_firmware_version([0x30, 0xFF]), "30FF");
    assert_eq!(format_firmware_version([b'z', 0]), "Vz00");
}

#[test]
fn probing_notes_the_firmware() {
    let d = probed().data.unwrap();
    assert_eq!(d.firmware_version_string, "VA10");
    assert_eq!((d.num_buttons, d.num_profiles, d.config_size), (6, 1, 123));
    assert_eq!(d.configs.len(), 1);
}

#[test]
fn settings_sizes() {
    let mut c = vec![0u8; 520];
    assert_eq!(detect_config_size(&c), 123);
    c[123] = 1;
    assert_eq!(detect_config_size(&c), 123);
    c[124] = 1;
    assert_eq!(detect_config_size(&c), 167);
    assert_eq!(detect_config_size(&[]), 123);
}

#[test]
fn descriptors() {
    assert!(descriptor_is_long(&[0x85, 0x06]));
    assert!(descriptor_is_long(&[0x05, 0x01, 0x26, 0xFF, 0x7F, 0x85, 0x06]));
    assert!(!descriptor_is_long(&[0x85, 0x04]));
    assert!(!descriptor_is_long(&[0x26, 0x85, 0x06]));
    assert!(!descriptor_is_long(&[0x85]));
    assert!(!descriptor_is_long(&[]));
}

#[test]
fn commands() {
    assert_eq!(build_cmd(CommandId::FirmwareVersion), [5, 1, 0, 0, 0, 0]);
    assert_eq!(build_cmd_with(CommandId::Profile, 7, 8), [5, 2, 7, 8, 0, 0]);
    assert!(check_echo(&[5, 1, 0, 0, 0, 0], &[5, 1, 9, 9, 9, 9]).is_ok());
    assert!(matches!(
        check_echo(&[5, 1, 0, 0, 0, 0], &[5, 2, 0, 0, 0, 0]),
        Err(SinowealthError::CommandMismatch { expected: 1, received: 2 })
    ));
    assert!(matches!(config_cmd(0), Ok(CommandId::GetConfig)));
    assert!(matches!(config_cmd(2), Ok(CommandId::GetConfig3)));
    assert!(matches!(config_cmd(3), Err(SinowealthError::InvalidProfile { index: 3 })));
    assert!(matches!(buttons_cmd(1), Ok(CommandId::GetButtons2)));
    assert!(matches!(buttons_cmd(9), Err(SinowealthError::InvalidProfile { index: 9 })));
}

#[test]
fn sensors() {
    assert_eq!(Sensor::from_name("pmw3327"), Some(Sensor::Pmw3327));
    assert_eq!(Sensor::from_name("PMW3389"), Some(Sensor::Pmw3389));
    assert_eq!(Sensor::from_name("PAW3335"), None);
    for sensor in [Sensor::Pmw3360, Sensor::Pmw3212, Sensor::Pmw3327, Sensor::Pmw3389] {
        for dpi in [100, 800, 6400] {
            assert_eq!(sensor.raw_to_dpi(sensor.dpi_to_raw(dpi).unwrap()), dpi);
        }
        assert_eq!(sensor.dpi_to_raw(50), None);
        assert_eq!(sensor.dpi_to_raw(100_000), None);
    }
    assert_eq!(Sensor::Pmw3360.raw_to_dpi(7), 800);
    assert_eq!(Sensor::Pmw3389.raw_to_dpi(8), 800);
    assert_eq!(Sensor::Pmw3212.max_dpi(), 7200);
}

#[test]
fn sinowealth_buttons_convert() {
    for (kind, value) in [
        (ActionType::Button, BTN_LEFT),
        (ActionType::Button, BTN_EXTRA),
        (ActionType::Special, special_action::WHEEL_UP),
        (ActionType::Key, 0x1E),
        (ActionType::Key, 0x02_001E),
        (ActionType::Macro, 5),
        (ActionType::NoAction, 0),
    ] {
        assert_eq!(decode_button(&encode_button(kind, value)), (kind, value));
    }
    assert_eq!(decode_button(&[0x99, 1, 2, 3]), (ActionType::NoAction, 0));
    assert_eq!(encode_button(ActionType::Button, 0x112), [1, 4, 0, 0]);
    assert!(HwButtonType::from_byte(0x99).is_none());
    let code = ratbag_special_to_hw(special_action::RESOLUTION_CYCLE_UP);
    assert_eq!(hw_special_to_ratbag(code), special_action::RESOLUTION_CYCLE_UP);
}

#[test]
fn macros_read_back() {
    let events = vec![(1, 30), (2, 30), (1, 255)];
    let report = build_macro(6, 2, 3, &events);
    assert_eq!(report.len(), 515);
    assert_eq!(report[..9], [6, 2, 3, 1, 30, 0, 2, 30, 0]);
    assert_eq!(parse_macro(&report), events);
    let long: Vec<(u32, u32)> = (0..200).map(|i| (1, i)).collect();
    assert_eq!(parse_macro(&build_macro(4, 0, 0, &long)).len(), 168);
    assert!(parse_macro(&[4, 0, 0, 0, 0, 0]).is_empty());
}

#[test]
fn effects_and_colors() {
    for b in (0..=10).chain([0xFF]) {
        assert_eq!(RgbEffect::from_byte(b).to_byte(), b);
    }
    assert_eq!(RgbEffect::from_byte(0x55).to_byte(), 0);
    let c = RgbColor { r: 1, g: 2, b: 3 };
    assert_eq!(write_color(LedType::Rgb, c), [1, 2, 3]);
    assert_eq!(write_color(LedType::Rbg, c), [1, 3, 2]);
    assert_eq!(read_color(LedType::Rbg, &[1, 3, 2]), c);
}

#[test]
fn device_is_loaded() {
    let (driver, info, asked) = loaded();
    let commands: Vec<u8> = asked.iter().map(|c| c[1]).collect();
    assert_eq!(
        commands,
        vec![
            CommandId::GetConfig2.to_byte(),
            CommandId::GetButtons.to_byte(),
            CommandId::GetButtons2.to_byte(),
            CommandId::Profile.to_byte(),
            CommandId::Macro.to_byte()
        ]
    );
    assert_eq!(asked[4][2..4], [0, 0]);
    let data = driver.data.unwrap();
    assert_eq!((data.sensor, data.led_type), (Sensor::Pmw3327, LedType::Rbg));
    assert_eq!(info.firmware_version, "VA10");
    assert_eq!(info.profiles.len(), 2);
    assert!(!info.profiles[0].is_active && info.profiles[1].is_active);
    let p = &info.profiles[0];
    assert_eq!(p.report_rate, 500);
    assert_eq!(p.resolutions.len(), 8);
    assert_eq!(p.resolutions[0].dpi, Dpi::Unified(800));
    assert_eq!(p.resolutions[1].dpi, Dpi::Unified(1600));
    assert!(p.resolutions[1].is_active && p.resolutions[2].is_disabled);
    assert_eq!(p.resolutions[0].dpi_list.last(), Some(&10200));
    assert_eq!(p.buttons.len(), 6);
    assert_eq!(p.buttons[0].macro_entries, vec![(1, 30), (2, 30)]);
    assert_eq!(info.profiles[1].buttons[0].mapping_value, 0x111);
    assert_eq!(p.leds[0].color, Color { red: 1, green: 3, blue: 2 });
}

#[test]
fn unreadable_reports_stop_the_loading() {
    let mut driver = probed();
    let mut info = device(2);
    let data = driver.data.as_mut().unwrap();
    let mut load = SinowealthLoad::begin(data, &mut info);
    load.replied(data, &mut info, &None);
    assert!(matches!(
        load.phase,
        SinowealthLoadPhase::Failed { error: SinowealthError::ReadFailed }
    ));
}

#[test]
fn too_many_profiles_stop_the_loading() {
    let mut driver = probed();
    let mut info = device(4);
    let data = driver.data.as_mut().unwrap();
    let mut load = SinowealthLoad::begin(data, &mut info);
    for _ in 0..2 {
        load.replied(data, &mut info, &Some(config(1, 0)));
    }
    assert!(matches!(
        load.phase,
        SinowealthLoadPhase::Failed { error: SinowealthError::InvalidProfile { index: 3 } }
    ));
}

#[test]
fn sinowealth_changes_read_back() {
    let (mut driver, info, _) = loaded();
    let info = info
        .with_profile_report_rate(1, 1000)
        .with_resolution_dpi(1, 0, Dpi::Unified(1200))
        .with_button_mapping(1, 2, ActionType::Macro, 1, vec![(1, 40)])
        .with_led_mode(1, 0, LedMode::Breathing)
        .with_led_color(1, 0, Color { red: 9, green: 8, blue: 7 });
    let data = driver.data.as_mut().unwrap();
    let sent = data.commit_config(1, &info.profiles[1]).unwrap();
    assert_eq!(sent.len(), 2);
    assert_eq!(sent[0], build_cmd(CommandId::GetConfig2).to_vec());
    assert_eq!((sent[1][0], sent[1].len()), (4, 520));
    let buttons = data.commit_buttons(1, &info.profiles[1]).unwrap();
    assert_eq!(buttons.len(), 4);
    assert_eq!(buttons[2][..4], [5, CommandId::Macro.to_byte(), 1, 2]);
    assert_eq!(parse_macro(&buttons[3]), vec![(1, 40)]);

    let mut again = device(2);
    let mut other = probed();
    let data = other.data.as_mut().unwrap();
    let mut load = SinowealthLoad::begin(data, &mut again);
    for reply in [sent[1].clone(), buttons[1].clone(), buttons[1].clone(), vec![5, 2, 0, 0, 0, 0]] {
        load.replied(data, &mut again, &Some(reply));
    }
    let p = &again.profiles[1];
    assert_eq!(p.report_rate, 1000);
    assert_eq!(p.resolutions[0].dpi, Dpi::Unified(1200));
    assert_eq!(p.buttons[2].action_type, ActionType::Macro);
    assert_eq!(p.leds[0].mode, LedMode::Breathing);
    assert_eq!(p.leds[0].color, Color { red: 9, green: 8, blue: 7 });
}

#[test]
fn commit_ends_with_debounce_and_profile() {
    let (_, info, _) = loaded();
    assert_eq!(
        finish_commit(&info),
        vec![build_cmd_with(CommandId::Profile, 1, 0).to_vec()]
    );
    let info = info.with_profile_debounce(0, 8);
    assert_eq!(finish_commit(&info)[0], build_cmd_with(CommandId::Debounce, 8, 0).to_vec());
}

#[test]
fn commit_needs_a_known_profile() {
    let (mut driver, info, _) = loaded();
    let data = driver.data.as_mut().unwrap();
    let extra = data.configs[0].clone();
    data.configs.push(extra.clone());
    data.configs.push(extra);
    assert!(matches!(
        data.commit_config(3, &info.profiles[0]),
        Err(SinowealthError::InvalidProfile { index: 3 })
    ));
}

#[test]
fn sinowealth_commit_writes_changed_profiles() {
    let (mut driver, info, _) = loaded();
    let data = driver.data.as_mut().unwrap();
    let clean = SinowealthCommit::begin(data, &info);
    assert_eq!(clean.phase, SinowealthCommitPhase::Finish);
    assert_eq!(clean.reports, finish_commit(&info));

    let changed = info.with_profile_report_rate(1, 125);
    let mut commit = SinowealthCommit::begin(data, &changed);
    assert_eq!(commit.phase, SinowealthCommitPhase::Config { profile: 1 });
    assert_eq!((commit.reports.len(), commit.reports[1][72]), (2, 1));
    commit.sent(data, &changed, true);
    assert_eq!(commit.phase, SinowealthCommitPhase::Buttons { profile: 1 });
    commit.sent(data, &changed, true);
    assert_eq!(commit.phase, SinowealthCommitPhase::Finish);
    commit.sent(data, &changed, true);
    assert_eq!(commit.phase, SinowealthCommitPhase::Done);
    assert!(!commit.is_sending());
}

#[test]
fn sinowealth_commit_stops_at_a_failure() {
    let (mut driver, info, _) = loaded();
    let data = driver.data.as_mut().unwrap();
    let changed = info.with_profile_report_rate(0, 125);
    let mut commit = SinowealthCommit::begin(data, &changed);
    commit.sent(data, &changed, false);
    assert_eq!(
        commit.phase,
        SinowealthCommitPhase::Failed { error: SinowealthError::WriteFailed }
    );
    assert!(!commit.is_sending() && commit.reports.is_empty());
}

#[test]
fn sinowealth_commit_ends_beyond_the_third_profile() {
    let (mut driver, mut info, _) = loaded();
    let data = driver.data.as_mut().unwrap();
    while data.configs.len() < 4 {
        let extra = data.configs[0].clone();
        data.configs.push(extra);
    }
    let profile = info.profiles[0].clone();
    info.profiles = vec![profile; 6];
    info.profiles[3].is_dirty = true;
    info.profiles[5].is_dirty = true;
    let commit = SinowealthCommit::begin(data, &info);
    assert_eq!(
        commit.phase,
        SinowealthCommitPhase::Failed { error: SinowealthError::InvalidProfile { index: 3 } }
    );
}
