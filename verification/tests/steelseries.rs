use ratbagd::engine::device::{ActionType, Color, DeviceInfo, Dpi, LedMode};
use ratbagd::engine::device_database::{DeviceEntry, DpiRange, DriverConfig};
use ratbagd::hal::steelseries::button::write_buttons;
use ratbagd::hal::steelseries::commit::{write_dpi, write_report_rate, write_save};
use ratbagd::hal::steelseries::driver::{
    STEELSERIES_ID_FIRMWARE_PROTOCOL1, STEELSERIES_NUM_DPI, SteelseriesDriver,
    SteelseriesLoadPhase, SteelseriesReply, format_firmware,
};
use ratbagd::hal::steelseries::led::{write_led_v1, write_led_v2, write_led_v3};
use ratbagd::hal::steelseries::report::{
    DeviceQuirks, ProtocolVersion, Report, STEELSERIES_REPORT_SIZE_SHORT, SteelseriesError,
};

fn make_info(device_version: Option<u32>, quirks: &[&str]) -> DeviceInfo {
    let entry = DeviceEntry {
        name: "Test Mouse".into(),
        driver: "steelseries".into(),
        device_type: "mouse".into(),
        matches: Vec::new(),
        driver_config: Some(DriverConfig {
            buttons: Some(6),
            leds: Some(1),
            device_version,
            dpi_range: Some(DpiRange { min: 100, max: 12000, step: 100 }),
            quirks: quirks.iter().map(|s| s.to_string()).collect(),
            ..DriverConfig::default()
        }),
    };
    DeviceInfo::from_entry("test0", "Test Mouse", 0x03, 0x1038, 0x1702, &entry)
}

#[test]
fn protocol_version_parses_valid_range() {
    assert_eq!(ProtocolVersion::try_from(1).unwrap(), ProtocolVersion::V1);
    assert_eq!(ProtocolVersion::try_from(2).unwrap(), ProtocolVersion::V2);
    assert_eq!(ProtocolVersion::try_from(3).unwrap(), ProtocolVersion::V3);
    assert_eq!(ProtocolVersion::try_from(4).unwrap(), ProtocolVersion::V4);
}

#[test]
fn protocol_version_rejects_out_of_range() {
    assert!(ProtocolVersion::try_from(0).is_err());
    assert!(ProtocolVersion::try_from(5).is_err());
}

#[test]
fn load_profiles_rejects_missing_device_version() {
    let mut info = make_info(None, &[]);
    let mut drv = SteelseriesDriver::new();
    let err = drv.load_profiles(&mut info).unwrap_err();
    assert!(err.message().contains("DeviceVersion missing"));
    assert!(drv.version.is_none());
}

#[test]
fn load_profiles_rejects_invalid_device_version() {
    let mut info = make_info(Some(7), &[]);
    let mut drv = SteelseriesDriver::new();
    let err = drv.load_profiles(&mut info).unwrap_err();
    assert!(err.message().contains("unsupported DeviceVersion 7"));
    assert!(drv.version.is_none());
}

#[test]
fn load_profiles_v1_seeds_state_and_reads_firmware() {
    let fw_request =
        Report::output(STEELSERIES_ID_FIRMWARE_PROTOCOL1, STEELSERIES_REPORT_SIZE_SHORT);
    let mut info = make_info(Some(1), &[]);
    let mut drv = SteelseriesDriver::new();
    let mut load = drv.load_profiles(&mut info).unwrap();
    let request = load.request().expect("the firmware is asked for");
    assert_eq!(request.buf, fw_request.buf);
    assert!(!request.feature);
    load.replied(&mut info, &SteelseriesReply::Data(vec![0x02, 0x01]));
    assert!(load.request().is_none());

    assert_eq!(drv.version, Some(ProtocolVersion::V1));
    assert_eq!(info.firmware_version, "1.2");
    assert_eq!(info.profiles.len(), 1);
    let profile = &info.profiles[0];
    assert_eq!(profile.resolutions.len(), STEELSERIES_NUM_DPI as usize);
    assert_eq!(profile.buttons.len(), 6);
    assert_eq!(
        profile.leds[0].modes,
        vec![LedMode::Off, LedMode::Solid, LedMode::Breathing]
    );
    assert_eq!(drv.quirks, DeviceQuirks::default());
}

#[test]
fn device_quirks_parse_from_config() {
    let quirks = |strings: &[&str]| {
        DeviceQuirks::from_config(&DriverConfig {
            quirks: strings.iter().map(|s| s.to_string()).collect(),
            ..DriverConfig::default()
        })
    };
    assert_eq!(quirks(&[]), DeviceQuirks::default());
    assert_eq!(
        quirks(&["STEELSERIES_QUIRK_SENSEIRAW"]),
        DeviceQuirks { is_senseiraw: true, is_rival100: false }
    );
    assert_eq!(
        quirks(&["STEELSERIES_QUIRK_RIVAL100", "STEELSERIES_QUIRK_SENSEIRAW"]),
        DeviceQuirks { is_senseiraw: true, is_rival100: true }
    );
    assert_eq!(quirks(&["SOME_OTHER_QUIRK"]), DeviceQuirks::default());
}

#[test]
fn load_profiles_persists_quirks_in_driver_state() {
    let mut info = make_info(Some(1), &["STEELSERIES_QUIRK_SENSEIRAW"]);
    let mut drv = SteelseriesDriver::new();
    let mut load = drv.load_profiles(&mut info).unwrap();
    load.replied(&mut info, &SteelseriesReply::Data(vec![0x00, 0x01]));

    assert!(drv.quirks.is_senseiraw);
    assert!(!drv.quirks.is_rival100);
    let profile = &info.profiles[0];
    assert_eq!(profile.leds[0].color_depth, 1, "SenseiRaw LED is monochrome");
    assert!(
        !profile.buttons[0].action_types.contains(&ActionType::Macro.to_u32()),
        "SenseiRaw buttons must not advertise Macro"
    );
}

#[test]
fn steelseries_settings_overlay_the_defaults() {
    let mut info = make_info(Some(2), &[]);
    let mut drv = SteelseriesDriver::new();
    let mut load = drv.load_profiles(&mut info).unwrap();
    assert_eq!(load.phase, SteelseriesLoadPhase::Settings);
    let mut data = vec![0u8; 12];
    data[1] = 2;
    data[2] = 3;
    data[4] = 15;
    data[6] = 1;
    data[7] = 2;
    data[8] = 3;
    load.replied(&mut info, &SteelseriesReply::Data(data));
    assert_eq!(load.phase, SteelseriesLoadPhase::Firmware);
    load.replied(&mut info, &SteelseriesReply::Silent);
    assert_eq!(load.phase, SteelseriesLoadPhase::Done);
    let p = &info.profiles[0];
    assert!(!p.resolutions[0].is_active);
    assert!(p.resolutions[1].is_active);
    assert_eq!(p.resolutions[0].dpi, Dpi::Unified(400));
    assert_eq!(p.resolutions[1].dpi, Dpi::Unified(1600));
    assert_eq!(p.leds[0].color, Color { red: 1, green: 2, blue: 3 });
    assert_eq!(info.firmware_version, "");
}

#[test]
fn steelseries_commit_ends_with_a_save() {
    let mut info = make_info(Some(2), &[]);
    let mut drv = SteelseriesDriver::new();
    drv.load_profiles(&mut info).unwrap();
    let plan = drv.commit(&info);
    assert!(plan.error.is_none());
    assert_eq!(plan.sent.len(), 5);
    assert_eq!(plan.sent[0].bytes[1], 0x53);
    assert_eq!(plan.sent[0].bytes[3], 1);
    assert_eq!(plan.sent[0].bytes[4], 7);
    assert_eq!(plan.sent[0].bytes[7], 0x42);
    let last = &plan.sent[4];
    assert_eq!(last.bytes[1], 0x59);
    assert_eq!(last.settle_ms, 20);
    assert_eq!(plan.sent[3].settle_ms, 10);
}

#[test]
fn steelseries_commit_errors() {
    let mut info = make_info(Some(1), &[]);
    let unloaded = SteelseriesDriver::new();
    info.profiles.clear();
    assert_eq!(unloaded.commit(&info).error, Some(SteelseriesError::NoProfiles));
    let mut drv = SteelseriesDriver::new();
    drv.load_profiles(&mut info).unwrap();
    assert_eq!(unloaded.commit(&info).error, Some(SteelseriesError::NotLoaded));
    info.profiles[0].leds[0].mode = LedMode::Cycle;
    let plan = drv.commit(&info);
    let mode = LedMode::Cycle;
    assert_eq!(plan.error, Some(SteelseriesError::UnsupportedLedMode { mode }));
    assert_eq!(
        plan.error.unwrap().message(),
        "SteelSeries V1: unsupported LED mode Cycle"
    );
    assert_eq!(plan.sent.len(), 2);
    let mut info = make_info(Some(4), &[]);
    drv.load_profiles(&mut info).unwrap();
    assert_eq!(drv.commit(&info).error, Some(SteelseriesError::NoLedProtocol));
}

#[test]
fn steelseries_rates_have_codes() {
    assert_eq!(write_report_rate(ProtocolVersion::V1, 1000).buf[3], 1);
    assert_eq!(write_report_rate(ProtocolVersion::V1, 500).buf[3], 2);
    assert_eq!(write_report_rate(ProtocolVersion::V1, 250).buf[3], 3);
    assert_eq!(write_report_rate(ProtocolVersion::V4, 125).buf[3], 4);
    assert_eq!(write_report_rate(ProtocolVersion::V2, 500).buf[3], 2);
    assert_eq!(write_report_rate(ProtocolVersion::V3, 0).buf[3], 8);
    assert_eq!(write_save(ProtocolVersion::V3).opcode, 0x09);
}

#[test]
fn steelseries_dpi_of_version_1_is_a_place() {
    let mut info = make_info(Some(1), &[]);
    let mut drv = SteelseriesDriver::new();
    drv.load_profiles(&mut info).unwrap();
    let r = &info.profiles[0].resolutions[0];
    assert_eq!(write_dpi(ProtocolVersion::V1, r, 100).buf[3], (120 - 7) as u8);
    assert_eq!(write_dpi(ProtocolVersion::V4, r, 100).buf[3], 7);
}

#[test]
fn steelseries_buttons_are_packed() {
    let mut info = make_info(Some(2), &[]);
    let mut drv = SteelseriesDriver::new();
    drv.load_profiles(&mut info).unwrap();
    let buttons = &mut info.profiles[0].buttons;
    buttons[1].action_type = ActionType::Macro;
    buttons[1].macro_entries = vec![(0, 224), (0, 225), (0, 4), (1, 4)];
    buttons[2].action_type = ActionType::Key;
    buttons[2].mapping_value = 0x1_05;
    buttons[3].action_type = ActionType::Key;
    buttons[3].mapping_value = 0;
    let c = write_buttons(ProtocolVersion::V2, false, buttons);
    assert_eq!(c.bytes.len(), 262);
    assert_eq!(&c.bytes[3..8], &[1, 0, 0, 0, 0]);
    assert_eq!(&c.bytes[8..13], &[0x51, 0xE0, 0xE1, 4, 0]);
    assert_eq!(&c.bytes[13..15], &[0x51, 5]);
    assert_eq!(&c.bytes[18..20], &[0x61, 0]);
    assert_eq!(c.bytes[28], 0x30);
    let feature = write_buttons(ProtocolVersion::V3, false, buttons);
    assert!(feature.feature);
    assert_eq!(feature.bytes[0], 0x31);
    assert_eq!(feature.bytes.len(), 261);
}

#[test]
fn steelseries_led_reports() {
    let mut info = make_info(Some(2), &[]);
    let mut drv = SteelseriesDriver::new();
    drv.load_profiles(&mut info).unwrap();
    let led = &mut info.profiles[0].leds[0];
    led.mode = LedMode::Breathing;
    led.effect_duration = 4000;
    let quirks = DeviceQuirks::default();
    let (effect, color) = write_led_v1(quirks, led).unwrap();
    assert_eq!(&effect.buf[..4], &[0, 0x07, 1, 3]);
    assert_eq!(&color.buf[..6], &[0, 0x08, 1, 0, 0, 255]);
    let v2 = write_led_v2(led);
    assert_eq!(v2.buf[28], 3);
    assert_eq!(&v2.buf[4..6], &4000u16.to_le_bytes());
    assert_eq!(&v2.buf[29..44], &[0, 0, 0, 0, 0, 0, 0, 0, 0, 255, 0x7F, 0, 0, 0, 0x7F]);
    led.effect_duration = 10;
    let v3 = write_led_v3(led);
    assert!(v3.feature);
    assert_eq!(&v3.buf[8..10], &990u16.to_le_bytes());
    let raw = DeviceQuirks { is_senseiraw: true, is_rival100: false };
    led.brightness = 172;
    assert_eq!(write_led_v1(raw, led).unwrap().1.buf[3], 4);
}

#[test]
fn steelseries_firmware_needs_two_bytes() {
    assert_eq!(format_firmware(&[5, 12]), "12.5");
    assert_eq!(format_firmware(&[5]), "");
}

#[test]
fn steelseries_numbers_have_to_fit() {
    let mut info = make_info(Some(1), &[]);
    let mut drv = SteelseriesDriver::new();
    drv.load_profiles(&mut info).unwrap();
    assert!(drv.fits(&info));
    let mut led = info.profiles[0].leds[0].clone();
    led.index = 255;
    info.profiles[0].leds.push(led);
    assert!(!drv.fits(&info));
    info.profiles[0].leds[0].mode = LedMode::Cycle;
    assert!(drv.fits(&info));
    let mode = LedMode::Cycle;
    assert_eq!(drv.commit(&info).error, Some(SteelseriesError::UnsupportedLedMode { mode }));
    info.profiles[0].resolutions[0].index = 255;
    assert!(!drv.fits(&info));
}
