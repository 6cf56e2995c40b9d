use ratbagd::engine::actor::{
    ActorState, ActorStep, IdleDrain, IdleRead, MAX_IDLE_DRAIN, PROBE_TIMEOUT_MS, Wakeup,
    after_commit,
};
use ratbagd::engine::device::{
    ActionType, Color, DeviceInfo, Dpi, LedMode, ProfileInfo, RATBAG_PROFILE_CAP_DISABLE,
    RATBAG_PROFILE_CAP_SET_DEFAULT, RgbColor,
};
use ratbagd::engine::device_database::{BusType, DeviceEntry, DpiRange, DriverConfig};
use ratbagd::engine::test_device::{
    TestButtonSpec, TestDeviceSpec, TestLedSpec, TestResolutionSpec, build_device_info,
    default_profile, is_blank,
};

fn entry(device_type: &str, config: Option<DriverConfig>) -> DeviceEntry {
    DeviceEntry {
        name: "Mouse".into(),
        driver: "hidpp20".into(),
        device_type: device_type.into(),
        matches: Vec::new(),
        driver_config: config,
    }
}

fn device() -> DeviceInfo {
    let config = DriverConfig {
        profiles: Some(3),
        buttons: Some(4),
        leds: Some(2),
        dpis: Some(2),
        dpi_range: Some(DpiRange { min: 100, max: 350, step: 100 }),
        ..DriverConfig::default()
    };
    DeviceInfo::from_entry("hidraw0", "Mouse", 0x03, 0x046d, 0xc07d, &entry("Mouse", Some(config)))
}

fn active_profiles(d: &DeviceInfo) -> Vec<u32> {
    d.profiles.iter().filter(|p| p.is_active).map(|p| p.index).collect()
}

#[test]
fn entry_gives_the_whole_device() {
    let d = device();
    assert_eq!(d.model, "usb:046d:c07d:0");
    assert_eq!(d.sysname, "hidraw0");
    assert_eq!(d.firmware_version, "");
    assert_eq!(d.profiles.len(), 3);
    let p = &d.profiles[1];
    assert_eq!((p.index, p.is_active, p.is_enabled, p.is_dirty), (1, false, true, false));
    assert_eq!(p.report_rates, vec![125, 250, 500, 1000]);
    assert_eq!((p.angle_snapping, p.debounce), (-1, -1));
    assert_eq!(p.resolutions.len(), 2);
    assert_eq!(p.resolutions[0].dpi_list, vec![100, 200, 300]);
    assert_eq!(p.resolutions[0].dpi, Dpi::Unified(800));
    assert!(p.resolutions[0].is_active && !p.resolutions[1].is_active);
    assert_eq!(p.buttons[3].mapping_value, 3);
    assert_eq!(p.buttons[3].action_types, vec![0, 1, 2, 3, 4]);
    assert_eq!(p.leds[1].modes.len(), 7);
    assert_eq!((p.leds[1].color_depth, p.leds[1].brightness), (1, 255));
}

#[test]
fn entry_without_configuration_has_one_plain_profile() {
    let d = DeviceInfo::from_entry("x", "y", 0x05, 1, 0xABCD, &entry("keyboard", None));
    assert_eq!(d.model, "bluetooth:0001:abcd:0");
    assert_eq!(d.device_type, 3);
    assert_eq!(d.profiles.len(), 1);
    assert_eq!(d.profiles[0].resolutions.len(), 1);
    assert_eq!(d.profiles[0].resolutions[0].dpi_list, vec![800, 1600]);
    assert!(d.profiles[0].buttons.is_empty() && d.profiles[0].leds.is_empty());
}

#[test]
fn device_type_ignores_case() {
    for (name, code) in [("MOUSE", 2), ("Mouse", 2), ("KeyBoard", 3), ("OTHER", 1), ("", 0)] {
        let d = DeviceInfo::from_entry("x", "y", 0, 0, 0, &entry(name, None));
        assert_eq!(d.device_type, code, "{name}");
    }
}

#[test]
fn bus_names() {
    assert_eq!(BusType::from_u16(0x03).name(), "usb");
    assert_eq!(BusType::from_u16(0x05).name(), "bluetooth");
    assert_eq!(BusType::from_u16(0x18).name(), "unknown");
}

#[test]
fn action_types_and_modes_have_codes() {
    for (code, kind) in [
        (0, ActionType::NoAction),
        (1, ActionType::Button),
        (2, ActionType::Special),
        (3, ActionType::Key),
        (4, ActionType::Macro),
    ] {
        assert_eq!(ActionType::from_u32(code), kind);
        assert_eq!(kind.to_u32(), code);
    }
    assert_eq!(ActionType::from_u32(5), ActionType::Unknown);
    assert_eq!(ActionType::from_u32(ActionType::Unknown.to_u32()), ActionType::Unknown);
    assert_eq!(LedMode::from_u32(3), Some(LedMode::Breathing));
    assert_eq!(LedMode::from_u32(LedMode::TriColor.to_u32()), Some(LedMode::TriColor));
    assert_eq!(LedMode::from_u32(7), None);
}

#[test]
fn colors_convert() {
    let rgb = RgbColor { r: 1, g: 128, b: 255 };
    assert_eq!(Color::from_rgb(rgb).to_rgb(), rgb);
    assert_eq!(Color::from_rgb(rgb), Color { red: 1, green: 128, blue: 255 });
}

#[test]
fn only_the_named_profile_changes() {
    let d = device();
    let n = d.with_profile_report_rate(1, 500).with_profile_report_rate(1, 250);
    assert_eq!(n.profiles[1].report_rate, 250);
    assert!(n.profiles[1].is_dirty);
    assert_eq!(n.profiles[0].report_rate, 1000);
    assert!(!n.profiles[0].is_dirty);
    let same = d.with_profile_report_rate(9, 500);
    assert!(same.profiles.iter().all(|p| p.report_rate == 1000 && !p.is_dirty));
}

#[test]
fn one_profile_is_active() {
    let d = device().with_active_profile(2);
    assert_eq!(active_profiles(&d), vec![2]);
    assert_eq!(active_profiles(&d.with_active_profile(0)), vec![0]);
}

#[test]
fn one_resolution_is_active_and_one_is_default() {
    let d = device().with_active_resolution(0, 1).with_default_resolution(0, 1);
    let r = &d.profiles[0].resolutions;
    assert!(!r[0].is_active && r[1].is_active);
    assert!(!r[0].is_default && r[1].is_default);
    assert!(d.profiles[0].is_dirty && !d.profiles[1].is_dirty);
}

#[test]
fn items_are_changed_by_their_index() {
    let d = device()
        .with_resolution_dpi(0, 1, Dpi::Separate { x: 400, y: 800 })
        .with_resolution_disabled(0, 0, true)
        .with_button_mapping(1, 2, ActionType::Macro, 7, vec![(30, 1), (30, 0)])
        .with_led_mode(2, 1, LedMode::Cycle)
        .with_led_color(2, 1, Color { red: 1, green: 2, blue: 3 })
        .with_led_secondary_color(2, 1, Color { red: 4, green: 5, blue: 6 })
        .with_led_tertiary_color(2, 1, Color { red: 7, green: 8, blue: 9 })
        .with_led_effect_duration(2, 1, 900)
        .with_led_brightness(2, 1, 40);
    assert_eq!(d.profiles[0].resolutions[1].dpi, Dpi::Separate { x: 400, y: 800 });
    assert!(d.profiles[0].resolutions[0].is_disabled);
    let b = d.profiles[1].find_button(2).unwrap();
    assert_eq!((b.action_type, b.mapping_value), (ActionType::Macro, 7));
    assert_eq!(b.macro_entries, vec![(30, 1), (30, 0)]);
    let l = d.find_profile(2).unwrap().find_led(1).unwrap();
    assert_eq!(l.mode, LedMode::Cycle);
    assert_eq!((l.color.red, l.secondary_color.green, l.tertiary_color.blue), (1, 5, 9));
    assert_eq!((l.effect_duration, l.brightness), (900, 40));
    assert!(d.profiles.iter().all(|p| p.is_dirty));
}

#[test]
fn unknown_items_change_nothing() {
    let d = device().with_led_brightness(0, 9, 1).with_button_mapping(
        0,
        9,
        ActionType::Key,
        1,
        Vec::new(),
    );
    assert!(!d.profiles[0].is_dirty);
    assert!(d.find_profile(7).is_none());
    assert!(d.profiles[0].find_resolution(7).is_none());
}

#[test]
fn profile_settings_are_kept() {
    let d = device()
        .with_profile_name(0, "fps".to_string())
        .with_profile_disabled(0, true)
        .with_profile_angle_snapping(0, 1)
        .with_profile_debounce(0, 8);
    let p = &d.profiles[0];
    assert_eq!(p.name, "fps");
    assert!(!p.is_enabled);
    assert_eq!((p.angle_snapping, p.debounce), (1, 8));
}

#[test]
fn finding_for_change() {
    let mut d = device();
    d.find_profile_mut(1).unwrap().find_led_mut(0).unwrap().brightness = 3;
    d.find_profile_mut(1).unwrap().find_button_mut(0).unwrap().mapping_value = 4;
    d.find_profile_mut(1).unwrap().find_resolution_mut(0).unwrap().is_disabled = true;
    assert_eq!(d.profiles[1].leds[0].brightness, 3);
    assert_eq!(d.profiles[1].buttons[0].mapping_value, 4);
    assert!(d.profiles[1].resolutions[0].is_disabled);
    assert!(d.find_profile_mut(5).is_none());
}

#[test]
fn dirty_flags_are_cleared_after_success_only() {
    let d = device().with_profile_debounce(1, 4);
    assert!(after_commit(&d, false).profiles[1].is_dirty);
    let clean = after_commit(&d, true);
    assert!(clean.profiles.iter().all(|p| !p.is_dirty));
    assert_eq!(clean.profiles[1].debounce, 4);
    assert!(clean.with_cleared_dirty_flags().profiles.iter().all(|p| !p.is_dirty));
}

#[test]
fn report_rates_are_clamped() {
    assert_eq!(ProfileInfo::clamp_report_rate(1), 125);
    assert_eq!(ProfileInfo::clamp_report_rate(125), 125);
    assert_eq!(ProfileInfo::clamp_report_rate(999), 999);
    assert_eq!(ProfileInfo::clamp_report_rate(9000), 8000);
}

#[test]
fn capabilities_on_the_bus() {
    let p = ProfileInfo {
        capabilities: vec![7, RATBAG_PROFILE_CAP_DISABLE, 1, RATBAG_PROFILE_CAP_SET_DEFAULT],
        ..ProfileInfo::default()
    };
    assert_eq!(
        p.dbus_capabilities(),
        vec![RATBAG_PROFILE_CAP_DISABLE, RATBAG_PROFILE_CAP_SET_DEFAULT]
    );
}

#[test]
fn names_are_kept() {
    assert_eq!(ProfileInfo::sanitize_name("Größe ✓"), "Größe ✓");
    assert_eq!(ProfileInfo::sanitize_name(""), "");
}

#[test]
fn actor_decides_what_to_do() {
    let mut s = ActorState::new(true);
    assert!(matches!(s.wake(Wakeup::Commit), ActorStep::Commit));
    assert!(matches!(s.wake(Wakeup::Readable), ActorStep::DrainReports));
    assert!(matches!(s.wake(Wakeup::WatchFailed), ActorStep::Wait));
    assert!(!s.watch_idle);
    assert!(matches!(s.wake(Wakeup::Shutdown), ActorStep::Exit));
    assert!(matches!(s.wake(Wakeup::Closed), ActorStep::Exit));
    assert!(!ActorState::new(false).watch_idle);
}

#[test]
fn idle_drain_keeps_protocol_reports() {
    let mut drain = IdleDrain::new();
    assert!(drain.offer(IdleRead::Report(vec![0x11, 1])));
    assert!(drain.offer(IdleRead::Report(vec![0x02, 1])));
    assert!(drain.offer(IdleRead::Report(Vec::new())));
    assert!(drain.offer(IdleRead::Report(vec![0x10, 2])));
    assert!(!drain.offer(IdleRead::Empty));
    assert_eq!(
        drain.finish(vec![vec![0x11, 9]]),
        vec![vec![0x11, 1], vec![0x10, 2], vec![0x11, 9]]
    );
}

#[test]
fn idle_drain_stops() {
    let mut drain = IdleDrain::new();
    for i in 1..MAX_IDLE_DRAIN {
        assert!(drain.offer(IdleRead::Report(vec![0x11, i as u8])));
    }
    assert!(!drain.offer(IdleRead::Report(vec![0x11, 0])));
    assert_eq!(drain.finish(Vec::new()).len(), MAX_IDLE_DRAIN);
    assert!(!IdleDrain::new().offer(IdleRead::Failed));
}

#[test]
fn probe_has_time_for_every_attempt() {
    assert!(PROBE_TIMEOUT_MS >= 2 * 2 * 2000);
}

#[test]
fn blank_texts() {
    assert!(is_blank(""));
    assert!(is_blank(" \t\n\u{2003}"));
    assert!(!is_blank(" {} "));
    let blank: Vec<u32> = (0..0x11_0000)
        .filter(|v| char::from_u32(*v).is_some_and(|c| is_blank(&c.to_string())))
        .collect();
    let mut expected: Vec<u32> = (0x9..=0xD).collect();
    expected.extend([0x20, 0x85, 0xA0, 0x1680]);
    expected.extend(0x2000..=0x200A);
    expected.extend([0x2028, 0x2029, 0x202F, 0x205F, 0x3000]);
    assert_eq!(blank, expected);
    assert!((0..0x11_0000)
        .filter_map(char::from_u32)
        .all(|c| is_blank(&c.to_string()) == c.to_string().trim().is_empty()));
}

#[test]
fn smallest_test_device() {
    let d = build_device_info("test0", TestDeviceSpec::default());
    assert_eq!(d.sysname, "test0");
    assert_eq!(d.profiles.len(), 1);
    let p = &d.profiles[0];
    assert!(p.is_active);
    assert_eq!(p.report_rate, 1000);
    assert_eq!(p.resolutions.len(), 1);
    assert_eq!(p.resolutions[0].dpi, Dpi::Unified(1000));
    assert_eq!(p.resolutions[0].dpi_list, vec![1000]);
    assert_eq!(p.buttons.len(), 1);
    assert_eq!(p.buttons[0].action_type, ActionType::Button);
    assert!(p.leds.is_empty());
}

#[test]
fn described_test_device() {
    let mut p = default_profile();
    p.resolutions = vec![
        TestResolutionSpec {
            xres: 400,
            yres: 800,
            dpi_min: Some(200),
            dpi_max: Some(450),
            is_active: true,
            is_default: false,
            is_disabled: true,
            capabilities: vec![2],
        },
        TestResolutionSpec {
            xres: 500,
            yres: 500,
            dpi_min: Some(1),
            dpi_max: None,
            is_active: false,
            is_default: false,
            is_disabled: false,
            capabilities: Vec::new(),
        },
    ];
    p.buttons = ["none", "special", "key", "macro", "KEY"]
        .iter()
        .map(|t| TestButtonSpec { action_type: t.to_string(), button: 6, key: 9 })
        .collect();
    p.leds = vec![
        TestLedSpec { mode: 3, duration: 10, brightness: 20, color: Some(vec![1, 2, 3, 4]) },
        TestLedSpec { mode: 99, duration: 0, brightness: 1, color: Some(vec![1, 2]) },
    ];
    let d = build_device_info("t", TestDeviceSpec { profiles: vec![p] });
    let p = &d.profiles[0];
    assert_eq!(p.resolutions[0].dpi, Dpi::Separate { x: 400, y: 800 });
    assert_eq!(p.resolutions[0].dpi_list, vec![200, 300, 400]);
    assert_eq!(p.resolutions[0].capabilities, vec![2]);
    assert!(p.resolutions[0].is_disabled);
    assert_eq!(p.resolutions[1].dpi_list, vec![500]);
    assert_eq!(p.resolutions[1].dpi, Dpi::Unified(500));
    let kinds: Vec<ActionType> = p.buttons.iter().map(|b| b.action_type).collect();
    assert_eq!(
        kinds,
        vec![
            ActionType::NoAction,
            ActionType::Special,
            ActionType::Key,
            ActionType::Macro,
            ActionType::Unknown
        ]
    );
    assert_eq!((p.buttons[2].index, p.buttons[2].mapping_value), (2, 6));
    assert_eq!(p.leds[0].mode, LedMode::Breathing);
    assert_eq!(p.leds[0].color, Color { red: 1, green: 2, blue: 3 });
    assert_eq!((p.leds[0].effect_duration, p.leds[0].brightness), (10, 20));
    assert_eq!(p.leds[1].mode, LedMode::Off);
    assert_eq!(p.leds[1].color, Color::default());
}
