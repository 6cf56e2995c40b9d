use ratbagd::engine::device::{
    ActionType, ButtonInfo, DeviceInfo, Dpi, LedInfo, LedMode, ProfileInfo, ResolutionInfo,
};
use ratbagd::engine::device_database::{DeviceEntry, DpiRange, DriverConfig};
use ratbagd::engine::special_action::WHEEL_UP;
use ratbagd::hal::asus::driver::AsusDriver;
use ratbagd::hal::asus::load::{
    ASUS_ACTION_TYPE_BUTTON, ASUS_CMD_GET_PROFILE_DATA, ASUS_CMD_SET_PROFILE,
};
use ratbagd::hal::asus::packet::{
    ASUS_STATUS_ERROR, AsusBindingData, AsusDpi4Data, AsusLedData, AsusRequest, AsusResponse,
};
use ratbagd::hal::asus::reader::AsusLoad;
use ratbagd::hal::asus::save::{AsusSaveError, ASUS_CMD_SAVE};
use ratbagd::hal::asus::settings::{
    ASUS_QUIRK_BATTERY_V2, ASUS_QUIRK_DOUBLE_DPI, ASUS_QUIRK_RAW_BRIGHTNESS,
    ASUS_QUIRK_SEPARATE_LEDS, ASUS_QUIRK_STRIX_PROFILE, brightness_to_asus, brightness_to_ratbag,
    debounce_index, dpi_from_stored, dpi_to_stored, parse_led_mode_str, parse_quirks,
    polling_rate_index, polling_rate_list,
};
use ratbagd::hal::asus::table::{
    AsusButtonKind, KEY_A, find_button_by_action, find_button_by_code, find_key_code,
    get_linux_key_code, is_joystick_code,
};
use ratbagd::hal::error::DriverError;

#[test]
fn test_dpi_from_stored_basic() {
    assert_eq!(dpi_from_stored(0, 0), 50);
    assert_eq!(dpi_from_stored(1, 0), 100);
    assert_eq!(dpi_from_stored(19, 0), 1000);
    assert_eq!(dpi_from_stored(239, 0), 12000);
}

#[test]
fn test_dpi_from_stored_double_dpi() {
    assert_eq!(dpi_from_stored(19, ASUS_QUIRK_DOUBLE_DPI), 2000);
    assert_eq!(dpi_from_stored(0, ASUS_QUIRK_DOUBLE_DPI), 100);
}

#[test]
fn test_dpi_roundtrip() {
    for &dpi in &[100u32, 400, 800, 1600, 3200, 6400, 12000] {
        let stored = dpi_to_stored(dpi, 0);
        assert_eq!(dpi_from_stored(stored as u16, 0), dpi, "roundtrip failed for {} DPI", dpi);
    }
}

#[test]
fn test_dpi_roundtrip_double_dpi() {
    for &dpi in &[200u32, 800, 1600, 3200, 6400, 12800] {
        let stored = dpi_to_stored(dpi, ASUS_QUIRK_DOUBLE_DPI);
        assert_eq!(
            dpi_from_stored(stored as u16, ASUS_QUIRK_DOUBLE_DPI),
            dpi,
            "DOUBLE_DPI roundtrip failed for {} DPI",
            dpi
        );
    }
}

#[test]
fn test_find_button_by_code_left() {
    let e = find_button_by_code(0xf0).expect("left button must be in table");
    assert_eq!(e.kind, AsusButtonKind::Button(1));
}

#[test]
fn test_find_button_by_code_missing() {
    assert!(find_button_by_code(0x00).is_none());
}

#[test]
fn test_find_button_by_code_wheel_up() {
    let e = find_button_by_code(0xe8).expect("wheel-up must be in table");
    assert_eq!(e.kind, AsusButtonKind::Special(WHEEL_UP));
}

#[test]
fn test_find_button_by_action_button() {
    let e = find_button_by_action(ActionType::Button, 1, false)
        .expect("left click action must be found");
    assert_eq!(e.asus_code, 0xf0);
}

#[test]
fn test_find_button_by_action_special() {
    let e = find_button_by_action(ActionType::Special, WHEEL_UP, false)
        .expect("wheel-up special must be found");
    assert_eq!(e.asus_code, 0xe8);
}

#[test]
fn test_find_button_by_action_joystick() {
    let e = find_button_by_action(ActionType::Special, WHEEL_UP, true)
        .expect("joystick wheel-up must be found");
    assert_eq!(e.asus_code, 0xd8);
}

#[test]
fn test_get_linux_key_code_a() {
    assert_eq!(get_linux_key_code(0x04), Some(KEY_A));
}

#[test]
fn test_get_linux_key_code_unmapped() {
    assert!(get_linux_key_code(0x00).is_none());
}

#[test]
fn test_find_key_code_roundtrip() {
    let asus = find_key_code(KEY_A).expect("KEY_A should have an ASUS code");
    assert_eq!(get_linux_key_code(asus), Some(KEY_A));
}

#[test]
fn test_is_joystick_code() {
    assert!(is_joystick_code(0xd0));
    assert!(is_joystick_code(0xdb));
    assert!(!is_joystick_code(0xf0));
    assert!(!is_joystick_code(0x00));
}

#[test]
fn test_polling_rate_index() {
    assert_eq!(polling_rate_index(125), Some(0));
    assert_eq!(polling_rate_index(250), Some(1));
    assert_eq!(polling_rate_index(500), Some(2));
    assert_eq!(polling_rate_index(1000), Some(3));
    assert_eq!(polling_rate_index(333), None);
}

#[test]
fn test_debounce_index() {
    assert_eq!(debounce_index(4), Some(0));
    assert_eq!(debounce_index(32), Some(7));
    assert_eq!(debounce_index(5), None);
}

#[test]
fn test_brightness_to_ratbag_normal() {
    assert_eq!(brightness_to_ratbag(0, 0), 0);
    assert_eq!(brightness_to_ratbag(4, 0), 256);
}

#[test]
fn test_brightness_to_ratbag_raw() {
    assert_eq!(brightness_to_ratbag(200, ASUS_QUIRK_RAW_BRIGHTNESS), 200);
}

#[test]
fn test_brightness_roundtrip() {
    for &b in &[0u32, 64, 128, 192] {
        let asus = brightness_to_asus(b, 0);
        let back = brightness_to_ratbag(asus, 0);
        assert!(
            (back as i64 - b as i64).abs() <= 32,
            "brightness {} → hw {} → {} (diff > 32)",
            b,
            asus,
            back
        );
    }
}

#[test]
fn test_parse_quirks_combined() {
    let q = parse_quirks(&vec![
        "DOUBLE_DPI".to_string(),
        "STRIX_PROFILE".to_string(),
        "SEPARATE_LEDS".to_string(),
    ]);
    assert!(q & ASUS_QUIRK_DOUBLE_DPI != 0);
    assert!(q & ASUS_QUIRK_STRIX_PROFILE != 0);
    assert!(q & ASUS_QUIRK_SEPARATE_LEDS != 0);
    assert!(q & ASUS_QUIRK_BATTERY_V2 == 0);
}

#[test]
fn test_parse_quirks_empty() {
    assert_eq!(parse_quirks(&vec![]), 0);
}

#[test]
fn test_asus_request_cmd_le_encoding() {
    let req = AsusRequest::new(ASUS_CMD_GET_PROFILE_DATA);
    assert_eq!(req.buf[0], 0x12);
    assert_eq!(req.buf[1], 0x00);
}

#[test]
fn test_asus_request_set_param() {
    let mut req = AsusRequest::new(ASUS_CMD_SET_PROFILE);
    req.set_param(0, 2u8);
    assert_eq!(req.buf[2], 2);
}

#[test]
fn test_asus_response_status_error() {
    let mut resp = AsusResponse::default();
    resp.buf[0] = 0xff;
    resp.buf[1] = 0xaa;
    assert_eq!(resp.status_code(), ASUS_STATUS_ERROR);
}

#[test]
fn test_asus_response_result_offset() {
    let mut resp = AsusResponse::default();
    resp.buf[2] = 0xab;
    resp.buf[9] = 0xcd;
    assert_eq!(resp.result(0), 0xab);
    assert_eq!(resp.result(7), 0xcd);
}

#[test]
fn test_binding_data_from_response() {
    let mut resp = AsusResponse::default();
    resp.buf[4] = 0xf0;
    resp.buf[5] = ASUS_ACTION_TYPE_BUTTON;
    resp.buf[6] = 0xe8;
    resp.buf[7] = ASUS_ACTION_TYPE_BUTTON;
    let data = AsusBindingData::from_response(&resp);
    assert_eq!(data.bindings[0].action, 0xf0);
    assert_eq!(data.bindings[0].type_, ASUS_ACTION_TYPE_BUTTON);
    assert_eq!(data.bindings[1].action, 0xe8);
}

#[test]
fn test_led_data_from_response() {
    let mut resp = AsusResponse::default();
    resp.buf[4] = 1;
    resp.buf[5] = 2;
    resp.buf[6] = 10;
    resp.buf[7] = 20;
    resp.buf[8] = 30;
    let data = AsusLedData::from_response(&resp);
    let led = &data.leds[0];
    assert_eq!(led.mode, 1);
    assert_eq!(led.brightness, 2);
    assert_eq!(led.r, 10);
    assert_eq!(led.g, 20);
    assert_eq!(led.b, 30);
}

#[test]
fn test_dpi4_from_response() {
    let mut resp = AsusResponse::default();
    resp.buf[4] = 0x0f;
    resp.buf[5] = 0x00;
    resp.buf[12] = 3;
    resp.buf[13] = 0;
    let data = AsusDpi4Data::from_response(&resp);
    assert_eq!(data.dpi[0], 15);
    assert_eq!(data.rate_idx, 3);
    assert_eq!(dpi_from_stored(data.dpi[0], 0), 800);
    assert_eq!(polling_rate_list()[data.rate_idx as usize], 1000);
}

fn device(quirks: &[&str]) -> DeviceInfo {
    let entry = DeviceEntry {
        name: "Test".to_string(),
        driver: "asus".to_string(),
        device_type: "mouse".to_string(),
        matches: Vec::new(),
        driver_config: Some(DriverConfig {
            profiles: Some(1),
            buttons: Some(2),
            leds: Some(1),
            dpis: Some(2),
            dpi_range: Some(DpiRange { min: 100, max: 400, step: 100 }),
            quirks: quirks.iter().map(|s| s.to_string()).collect(),
            ..DriverConfig::default()
        }),
    };
    DeviceInfo::from_entry("hidraw0", "Test", 0x03, 0x0b05, 0x1234, &entry)
}

#[test]
fn asus_led_modes_have_names() {
    assert_eq!(parse_led_mode_str("BREATHING"), LedMode::Breathing);
    assert_eq!(parse_led_mode_str("OFF"), LedMode::Off);
}

#[test]
fn asus_error_status_is_an_error() {
    let mut resp = AsusResponse::default();
    assert!(resp.check().is_ok());
    resp.buf[0] = 0xff;
    resp.buf[1] = 0xaa;
    assert!(matches!(resp.check(), Err(DriverError::ProtocolError { .. })));
}

#[test]
fn asus_device_is_read_to_the_end() {
    let mut info = device(&[]);
    let mut driver = AsusDriver::new();
    driver.init_from_config(&info.driver_config);
    driver.prepare(&mut info);
    let mut load = AsusLoad::new();
    let mut sent = 0;
    while let Some(_request) = load.request(&info) {
        load.replied(&driver, &mut info, &Some(AsusResponse::default()));
        sent += 1;
        assert!(sent < 100);
    }
    assert_eq!(load.outcome(), Some(true));
    assert_eq!(info.profiles.len(), 1);
    assert!(info.profiles[0].is_active);
    assert_eq!(info.profiles[0].resolutions[0].dpi, Dpi::Unified(50));
    assert_eq!(info.profiles[0].report_rate, 125);
}

#[test]
fn asus_clean_device_is_not_written() {
    let mut info = device(&[]);
    let mut driver = AsusDriver::new();
    driver.init_from_config(&info.driver_config);
    driver.prepare(&mut info);
    let plan = driver.plan_save(&info, 0);
    assert!(plan.sent.is_empty());
    assert!(plan.error.is_none());
}

#[test]
fn asus_unknown_rate_is_refused() {
    let mut info = device(&[]);
    let mut driver = AsusDriver::new();
    driver.init_from_config(&info.driver_config);
    driver.prepare(&mut info);
    info.profiles[0].is_dirty = true;
    info.profiles[0].report_rate = 333;
    let plan = driver.plan_save(&info, 0);
    assert_eq!(plan.error, Some(AsusSaveError::UnsupportedRate { hz: 333 }));
    info.profiles[0].report_rate = 500;
    info.profiles[0].debounce = 5;
    let plan = driver.plan_save(&info, 0);
    assert_eq!(plan.error, Some(AsusSaveError::UnsupportedDebounce { ms: 5 }));
    info.profiles[0].debounce = 4;
    let plan = driver.plan_save(&info, 0);
    assert!(plan.error.is_none());
    let last = &plan.sent[plan.sent.len() - 1];
    assert_eq!(u16::from_le_bytes([last.buf[0], last.buf[1]]), ASUS_CMD_SAVE);
}

#[test]
fn asus_parts_have_blank_defaults() {
    let p = ProfileInfo::default();
    assert!(p.resolutions.is_empty() && p.buttons.is_empty() && p.leds.is_empty());
    let parts: (Option<&ResolutionInfo>, Option<&ButtonInfo>, Option<&LedInfo>) =
        (p.find_resolution(0), p.find_button(0), p.find_led(0));
    assert!(parts.0.is_none() && parts.1.is_none() && parts.2.is_none());
}

#[test]
fn asus_settings_out_of_range_do_not_fit() {
    let mut info = device(&[]);
    let mut driver = AsusDriver::new();
    driver.init_from_config(&info.driver_config);
    driver.prepare(&mut info);
    info.profiles[0].is_dirty = true;
    assert!(driver.fits(&info, 0));
    let sample = info.profiles[0].resolutions[0].clone();
    info.profiles[0].resolutions = vec![sample; 254];
    info.profiles[0].angle_snapping = -1;
    assert!(driver.fits(&info, 0));
    info.profiles[0].angle_snapping = 1;
    assert!(!driver.fits(&info, 0));
    info.profiles[0].report_rate = 333;
    assert!(driver.fits(&info, 0));
    info.profiles[0].report_rate = 500;
    info.profiles[0].is_dirty = false;
    assert!(driver.fits(&info, 0));
}
