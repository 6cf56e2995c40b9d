use ratbagd::engine::device::{Color, DeviceInfo, Dpi, LedMode};
use ratbagd::engine::device_database::{DeviceEntry, DriverConfig};
use ratbagd::engine::special_action;
use ratbagd::hal::hidpp10::binding::{
    Hidpp10ButtonBinding, parse_button_binding, serialize_button_binding,
};
use ratbagd::hal::hidpp10::commit::{Hidpp10Commit, Hidpp10CommitAction};
use ratbagd::hal::hidpp10::driver::{
    Hidpp10Driver, build_directory, probe_index, probe_request, read_directory,
};
use ratbagd::hal::hidpp10::load::{Hidpp10Load, Hidpp10LoadAction};
use ratbagd::hal::hidpp10::macros::{MacroEvent, MacroRead, macro_instruction_size, parse_macro_event};
use ratbagd::hal::hidpp10::memory::{MemoryError, erase_memory, read_memory, send_hot_payload, write_flash};
use ratbagd::hal::hidpp10::profile::{
    Hidpp10DpiMode, Hidpp10Profile, check_page, parse_profile, seal_page, write_profile,
};
use ratbagd::hal::hidpp10::register::{
    Hidpp10Request, REG_CURRENT_PROFILE, REG_LED_COLOR, REG_USB_REFRESH_RATE, disconnect_device,
    encode_individual_features, encode_led_intensity, encode_led_status, encode_notifications,
    open_pairing_lock, pairing_request, parse_battery_mileage, parse_battery_status,
    parse_extended_pairing, parse_firmware, parse_individual_features, parse_led_intensity,
    parse_led_status, parse_notifications, parse_pairing_info, parse_pairing_name,
};
use ratbagd::hal::hidpp10::table::{
    DpiMapping, build_dpi_table_from_list, build_dpi_table_from_range, dpi_from_raw,
    dpi_table_get_max, dpi_table_get_min, hidpp10_code_from_special, hidpp10_special_from_code,
    raw_from_dpi,
};
use ratbagd::hal::hidpp10::types::{
    BatteryChargeState, BatteryLevel, Hidpp10ProfileType, Hidpp10ResolutionLongPayload, LedStatus,
};

fn device(profiles: u32) -> DeviceInfo {
    let entry = DeviceEntry {
        name: "G500".into(),
        driver: "hidpp10".into(),
        device_type: "mouse".into(),
        matches: Vec::new(),
        driver_config: Some(DriverConfig {
            profiles: Some(profiles),
            leds: Some(1),
            dpis: Some(5),
            buttons: Some(13),
            ..DriverConfig::default()
        }),
    };
    DeviceInfo::from_entry("x", "G500", 3, 0x046d, 0xc068, &entry)
}

fn onboard() -> Hidpp10Profile {
    let mut p = Hidpp10Profile {
        page: 2,
        enabled: true,
        refresh_rate: 500,
        default_dpi_mode: 1,
        ..Hidpp10Profile::default()
    };
    for i in 0..5u32 {
        p.dpi_modes.push(Hidpp10DpiMode {
            xres: 50 * (i + 1),
            yres: 50 * (i + 1),
            leds: [i % 2 == 0, false, true, false],
        });
    }
    for i in 0..13u16 {
        p.buttons.push(Hidpp10ButtonBinding::Button { button: i + 1 });
    }
    p
}

/// A device that answers from its flash and its registers.
struct Mouse {
    pages: Vec<Vec<u8>>,
}

impl Mouse {
    fn new(profile: &Hidpp10Profile) -> Self {
        let mut page = vec![0xFFu8; 512];
        write_profile(Hidpp10ProfileType::G500, &mut page, profile, &Vec::new());
        seal_page(&mut page);
        let mut listed = Hidpp10Profile { page: 2, enabled: true, ..Hidpp10Profile::default() };
        listed.offset = 0;
        Mouse { pages: vec![vec![0; 512], build_directory(&vec![listed]), page] }
    }

    fn memory(&self, page: u8, offset: u16) -> Option<Vec<u8>> {
        let at = offset as usize;
        self.pages.get(page as usize).map(|p| p[at..at + 16].to_vec())
    }

    fn register(&self, request: &Hidpp10Request) -> Option<Vec<u8>> {
        let mut reply = vec![0u8; 20];
        reply[1] = request.wire[1];
        reply[2] = request.wire[2];
        reply[3] = request.wire[3];
        match request.wire[3] {
            REG_CURRENT_PROFILE => reply[4] = 0,
            REG_USB_REFRESH_RATE => reply[4] = 4,
            REG_LED_COLOR => reply[4..7].copy_from_slice(&[1, 2, 3]),
            _ => reply[4..8].copy_from_slice(&[16, 0, 32, 0]),
        }
        reply[0] = 0x10;
        if let Some(params) = request.match_reply(&reply[..7]) {
            return Some(params);
        }
        reply[0] = 0x11;
        request.match_reply(&reply)
    }
}

fn load(driver: &mut Hidpp10Driver, info: &mut DeviceInfo, mouse: &Mouse) {
    let mut load = Hidpp10Load::begin(driver);
    loop {
        let reply = match load.action(driver, info) {
            Hidpp10LoadAction::ReadMemory { page, offset } => mouse.memory(page, offset),
            Hidpp10LoadAction::Send(request) => mouse.register(&request),
            Hidpp10LoadAction::Stop => break,
        };
        load.replied(driver, info, &reply);
    }
}

#[test]
fn probing() {
    assert_eq!(probe_index(0), Some(0x01));
    assert_eq!(probe_index(1), Some(0xFF));
    assert_eq!(probe_index(2), None);
    assert_eq!(probe_request(0xFF).wire, vec![0x10, 0xFF, 0x81, 0x00, 0, 0, 0]);
    let mut d = Hidpp10Driver::new();
    d.probed(0xFF, &[1, 7, 9]);
    assert_eq!((d.device_index, d.version.major, d.version.minor), (0xFF, 1, 7));
}

#[test]
fn hidpp10_replies_are_matched() {
    let q = Hidpp10Request::get_register(1, 0x63, &[0, 0, 0]);
    assert_eq!(q.match_reply(&[0x10, 1, 0x81, 0x63, 7, 8, 9]), Some(vec![7, 8, 9]));
    assert_eq!(q.match_reply(&[0x10, 2, 0x81, 0x63, 7, 8, 9]), None);
    assert_eq!(q.match_reply(&[0x10, 1, 0x80, 0x63, 7, 8, 9]), None);
    assert_eq!(q.match_reply(&[0x10, 1, 0x8F, 0x81, 0x63, 8, 9]), None);
    assert_eq!(q.match_reply(&[0x10, 1]), None);
    let long = Hidpp10Request::short_for_long(1, 0x83, 0xA2, &[1, 2, 3]);
    let mut reply = vec![0x11, 1, 0x83, 0xA2];
    reply.extend(0..16u8);
    assert_eq!(long.match_reply(&reply), Some((0..16).collect()));
}

#[test]
fn registers_convert() {
    for p in [[0u8, 0, 0], [1, 2, 3], [0xFF, 0x0E, 0]] {
        assert_eq!(encode_notifications(parse_notifications(&p)), p);
        assert_eq!(encode_individual_features(parse_individual_features(&p)), p);
    }
    assert_eq!(encode_individual_features(u32::MAX), [0xFF, 0x0E, 0x3F]);
    let pcts = [0, 10, 20, 70, 100, 150];
    assert_eq!(parse_led_intensity(&encode_led_intensity(&pcts)), pcts);
    let leds = [
        LedStatus::Off,
        LedStatus::On,
        LedStatus::Blink,
        LedStatus::Heartbeat,
        LedStatus::SlowOn,
        LedStatus::NoChange,
    ];
    assert_eq!(parse_led_status(&encode_led_status(&leds)), leds);
}

#[test]
fn battery_is_read() {
    let b = parse_battery_status(&[5, 0x21, 3]);
    assert_eq!(b.level, BatteryLevel::Good);
    assert_eq!(b.charge_state, BatteryChargeState::Charging);
    assert_eq!(b.low_threshold_percent, 15);
    assert_eq!(parse_battery_status(&[9, 0x50, 7]).low_threshold_percent, 0);
    let m = parse_battery_mileage(&[0x80 | 55, 2, 0x61]);
    assert_eq!(m.level_percent, 55);
    assert_eq!(m.max_seconds, 258 * 3600);
    assert_eq!(m.charge_state, BatteryChargeState::Charging);
}

#[test]
fn pairing_is_read() {
    let mut p = [0u8; 16];
    p[1] = 4;
    p[2..6].copy_from_slice(b"G7\xFF5");
    assert_eq!(parse_pairing_name(&p), "G7\u{FFFD}5");
    p[1] = 200;
    assert_eq!(parse_pairing_name(&p).chars().count(), 14);
    let info = parse_pairing_info(&[0, 0, 8, 0x10, 0x24, 0, 0, 2, 0, 0, 0, 0, 0, 0, 0, 0]);
    assert_eq!((info.report_interval, info.wpid, info.device_type), (8, 0x1024, 2));
    let serial = parse_extended_pairing(&[0, 1, 2, 3, 4, 0, 0, 0, 0, 0, 0, 0, 0, 0, 0, 0]);
    assert_eq!(serial, 0x01020304);
    let fw = parse_firmware(&[1, 2, 3], &[0, 4, 5]);
    assert_eq!((fw.major, fw.minor, fw.build), (2, 3, 0x0405));
    assert_eq!(pairing_request(0x20, 1).wire[4], 0x20);
    assert_eq!(open_pairing_lock(30).wire[4..], [1, 0xFF, 30]);
    assert_ne!(disconnect_device(3).wire, open_pairing_lock(3).wire);
}

#[test]
fn bindings_convert() {
    for wire in [
        [0x81u8, 4, 0],
        [0x82, 2, 30],
        [0x83, 8, 0],
        [0x84, 0, 0xE9],
        [0x8F, 0, 0],
        [3, 16, 0],
        [0x90, 0, 0],
    ] {
        assert_eq!(serialize_button_binding(&parse_button_binding(&wire)), wire, "{wire:?}");
    }
    assert_eq!(
        parse_button_binding(&[3, 16, 0]),
        Hidpp10ButtonBinding::Macro { page: 3, offset: 16 }
    );
    assert_eq!(parse_button_binding(&[0x81, 4, 0]), Hidpp10ButtonBinding::Button { button: 3 });
}

#[test]
fn special_codes_convert() {
    let code = hidpp10_code_from_special(special_action::RESOLUTION_UP);
    assert_eq!(hidpp10_special_from_code(code), special_action::RESOLUTION_UP);
    assert_eq!(hidpp10_special_from_code(0xEE), special_action::UNKNOWN);
}

#[test]
fn dpi_tables() {
    let none: Vec<DpiMapping> = Vec::new();
    assert_eq!((dpi_from_raw(&none, 16), raw_from_dpi(&none, 800)), (800, 16));
    assert_eq!(raw_from_dpi(&none, 1_000_000), 255);
    let list = build_dpi_table_from_list(&[400, 800, 1600]);
    assert_eq!((dpi_table_get_min(&list), dpi_table_get_max(&list)), (400, 1600));
    for dpi in [400, 800, 1600] {
        assert_eq!(dpi_from_raw(&list, raw_from_dpi(&list, dpi)), dpi);
    }
    assert_eq!(dpi_from_raw(&list, raw_from_dpi(&list, 900)), 800);
    assert_eq!(dpi_from_raw(&list, 0xEE), 0);
    let range = build_dpi_table_from_range(200, 1000, 200);
    assert_eq!(dpi_table_get_max(&range), 1000);
    assert_eq!(dpi_from_raw(&range, raw_from_dpi(&range, 600)), 600);
}

#[test]
fn memory_requests() {
    let q = read_memory(1, 2, 32).unwrap();
    assert_eq!(q.wire, vec![0x10, 1, 0x83, 0xA2, 2, 16, 0]);
    assert!(matches!(read_memory(1, 2, 3), Err(MemoryError::OddOffset)));
    assert!(matches!(read_memory(1, 99, 0), Err(MemoryError::NoSuchPage { page: 99 })));
    assert_eq!(erase_memory(1, 5).wire[4..11], [2, 0, 0, 0, 0, 0, 5]);
    let copy = write_flash(1, 0, 0, 2, 16, 512).unwrap();
    assert_eq!(copy.wire[4..16], [3, 0, 0, 0, 0, 0, 2, 8, 0, 0, 2, 0]);
    assert!(matches!(write_flash(1, 0, 1, 0, 0, 1), Err(MemoryError::OddOffset)));
    let mut plan = Vec::new();
    assert!(send_hot_payload(1, 0, 0, &[7; 40], &mut plan).is_ok());
    assert!(plan.len() >= 3);
}

#[test]
fn hidpp10_macro_events_are_read() {
    assert_eq!(macro_instruction_size(0xFF), None);
    assert_eq!(macro_instruction_size(0x85), Some(1));
    assert_eq!(macro_instruction_size(0x43), Some(3));
    assert_eq!(
        parse_macro_event(&[0x20, 30], 0),
        Some((MacroEvent::KeyPress { key: 30 }, 2))
    );
    assert_eq!(
        parse_macro_event(&[0, 0x43, 1, 2], 1),
        Some((MacroEvent::Delay { time_ms: 0x0102 }, 3))
    );
    assert_eq!(parse_macro_event(&[0x20], 0), None);

    let mut read = MacroRead::new(3, 8);
    assert_eq!(read.wants(), Some((3, 8)));
    let mut chunk = [0xFFu8; 16];
    chunk[..4].copy_from_slice(&[0x20, 30, 0x21, 30]);
    read.accept(&chunk);
    assert_eq!(read.wants(), None);
    assert_eq!(
        read.events_so_far(),
        vec![
            MacroEvent::KeyPress { key: 30 },
            MacroEvent::KeyRelease { key: 30 },
            MacroEvent::End
        ]
    );
}

#[test]
fn macro_jumps_are_followed() {
    let mut read = MacroRead::new(3, 8);
    let mut chunk = [0xFFu8; 16];
    chunk[..5].copy_from_slice(&[0x20, 30, 0x44, 4, 16]);
    read.accept(&chunk);
    assert_eq!(read.wants(), Some((4, 32)));
    read.accept(&[0xFF; 16]);
    assert_eq!(read.wants(), None);
    assert_eq!(read.events_so_far(), vec![MacroEvent::KeyPress { key: 30 }, MacroEvent::End]);
}

#[test]
fn circular_macros_end() {
    let mut read = MacroRead::new(3, 8);
    let mut chunk = [0u8; 16];
    chunk[..3].copy_from_slice(&[0x44, 3, 4]);
    for _ in 0..4098 {
        assert_eq!(read.wants(), Some((3, 8)));
        read.accept(&chunk);
    }
    assert_eq!(read.wants(), None);
    assert_eq!(read.events_so_far(), Vec::new());
}

#[test]
fn long_chains_of_jumps_are_followed() {
    let mut read = MacroRead::new(2, 0);
    let mut chunk = [0u8; 16];
    for k in 1..4096u16 {
        let (page, place) = ((2 + k / 128) as u8 % 32, (k % 128) as u8);
        chunk[..3].copy_from_slice(&[0x44, page, place]);
        read.accept(&chunk);
        assert_eq!(read.wants(), Some((page, u16::from(place) * 2)));
    }
    chunk[..6].copy_from_slice(&[0x20, 30, 0x44, 2, 0, 0]);
    read.accept(&chunk);
    assert_eq!(read.wants(), Some((2, 0)));
    chunk[..3].copy_from_slice(&[0x44, 40, 1]);
    read.accept(&chunk);
    assert_eq!(read.wants(), Some((40, 2)));
    read.accept(&[0xFF; 16]);
    assert_eq!(read.wants(), None);
    assert_eq!(read.events_so_far(), vec![MacroEvent::KeyPress { key: 30 }, MacroEvent::End]);
}

#[test]
fn short_delays() {
    for (tag, time_ms) in [
        (0x80, 8),
        (0x9F, 132),
        (0xA0, 140),
        (0xBF, 388),
        (0xC0, 404),
        (0xDF, 900),
        (0xE0, 932),
        (0xFE, 1892),
    ] {
        assert_eq!(parse_macro_event(&[tag], 0), Some((MacroEvent::Delay { time_ms }, 1)));
    }
    assert_eq!(parse_macro_event(&[0x80], usize::MAX), None);
}

#[test]
fn pages_are_sealed() {
    let mut page = vec![7u8; 512];
    assert!(!check_page(&page));
    seal_page(&mut page);
    assert!(check_page(&page));
    page[3] ^= 1;
    assert!(!check_page(&page));
}

#[test]
fn profiles_read_back() {
    let p = onboard();
    for t in [Hidpp10ProfileType::G500, Hidpp10ProfileType::G700] {
        let mut page = vec![0xFFu8; 512];
        write_profile(t, &mut page, &p, &Vec::new());
        let mut back = Hidpp10Profile::default();
        parse_profile(t, &page, &mut back, &Vec::new());
        assert_eq!(back.refresh_rate, 500);
        assert_eq!(back.default_dpi_mode, 1);
        let dpis: Vec<u32> = back.dpi_modes.iter().map(|m| m.xres).collect();
        assert_eq!(dpis, vec![50, 100, 150, 200, 250]);
        assert_eq!(back.buttons, p.buttons);
    }
}

#[test]
fn directories_read_back() {
    let mut second = onboard();
    second.page = 7;
    let mut off = onboard();
    off.enabled = false;
    let page = build_directory(&vec![onboard(), off, second]);
    assert!(check_page(&page));
    let back = read_directory(&page, 3);
    let places: Vec<(u8, bool)> = back.iter().map(|p| (p.page, p.enabled)).collect();
    assert_eq!(places, vec![(2, true), (7, true), (0, false)]);
    assert_eq!(read_directory(&page, 1).len(), 1);
}

#[test]
fn registers_are_loaded() {
    let mut driver = Hidpp10Driver::new();
    let mut info = device(2);
    load(&mut driver, &mut info, &Mouse::new(&onboard()));
    assert!(info.profiles[0].is_active && !info.profiles[1].is_active);
    for p in &info.profiles {
        assert_eq!(p.report_rate, 250);
        assert_eq!(p.resolutions[0].dpi, Dpi::Separate { x: 800, y: 1600 });
        assert_eq!(p.leds[0].color, Color { red: 1, green: 2, blue: 3 });
        assert_eq!(p.leds[0].mode, LedMode::Solid);
    }
}

#[test]
fn hidpp10_onboard_profiles_are_loaded() {
    let mut driver = Hidpp10Driver::new();
    driver.profile_type = Hidpp10ProfileType::G500;
    let mut info = device(1);
    load(&mut driver, &mut info, &Mouse::new(&onboard()));
    assert_eq!(driver.onboard_profiles.len(), 1);
    let o = &driver.onboard_profiles[0];
    assert_eq!((o.page, o.enabled, o.refresh_rate), (2, true, 500));
    assert_eq!(o.buttons.len(), 13);
    assert!(o.macros.iter().all(|m| m.is_none()));
    assert_eq!(info.profiles.len(), 1);
    assert_eq!(info.profiles[0].resolutions[4].dpi, Dpi::Unified(250));
    assert!(info.profiles[0].resolutions[1].is_default);
    assert_eq!(info.profiles[0].buttons[12].mapping_value, 13);
}

#[test]
fn silent_devices_keep_their_description() {
    let mut driver = Hidpp10Driver::new();
    driver.profile_type = Hidpp10ProfileType::G500;
    let mut info = device(1);
    let mut l = Hidpp10Load::begin(&driver);
    while !matches!(l.action(&driver, &info), Hidpp10LoadAction::Stop) {
        l.replied(&mut driver, &mut info, &None);
    }
    assert!(driver.onboard_profiles.is_empty());
    assert_eq!(info.profiles[0].report_rate, 1000);
    assert!(info.profiles[0].is_active);
}

#[test]
fn commit_writes_registers_and_page() {
    let mouse = Mouse::new(&onboard());
    let mut driver = Hidpp10Driver::new();
    driver.profile_type = Hidpp10ProfileType::G500;
    let mut info = device(1);
    load(&mut driver, &mut info, &mouse);
    let mut commit = Hidpp10Commit::begin(&driver, &info).unwrap();
    let mut sent: Vec<Hidpp10Request> = Vec::new();
    let mut read = 0;
    loop {
        match commit.action(&driver, &info) {
            Hidpp10CommitAction::ReadMemory { page, offset } => {
                assert_eq!((page, offset), (2, 16 * read));
                assert!(commit.can_write(&driver, &info));
                read += 1;
                commit.replied(&driver, &info, &mouse.memory(page, offset));
            }
            Hidpp10CommitAction::Send(request) => {
                sent.push(request);
                commit.replied(&driver, &info, &Some(vec![0; 3]));
            }
            Hidpp10CommitAction::Stop => break,
        }
    }
    assert_eq!(read, 32);
    assert_eq!(commit.outcome(), Some(true));
    let registers: Vec<u8> = sent.iter().take(2).map(|q| q.wire[3]).collect();
    assert_eq!(registers, vec![0x63, 0x64]);
    assert_eq!(sent.last().unwrap().wire, vec![0x10, 1, 0x80, 0x0F, 0, 0, 0]);
}

#[test]
fn commit_fails_only_at_the_end() {
    let driver = Hidpp10Driver::new();
    let info = device(1);
    let mut commit = Hidpp10Commit::begin(&driver, &info).unwrap();
    while !matches!(commit.action(&driver, &info), Hidpp10CommitAction::Stop) {
        assert_eq!(commit.outcome(), None);
        commit.replied(&driver, &info, &None);
    }
    assert_eq!(commit.outcome(), Some(false));

    let mut inactive = device(1);
    inactive.profiles[0].is_active = false;
    assert!(Hidpp10Commit::begin(&driver, &inactive).is_none());
}

#[test]
fn resolution_payload() {
    let mut p = Hidpp10ResolutionLongPayload::from_bytes(&[0; 16]);
    p.set_xres(0x1234);
    p.set_yres(0x5678);
    assert_eq!(p.to_bytes()[..4], [0x34, 0x12, 0x78, 0x56]);
    assert_eq!((p.xres(), p.yres()), (0x1234, 0x5678));
}

#[test]
fn profile_types() {
    assert_eq!(Hidpp10ProfileType::from_str("G700"), Hidpp10ProfileType::G700);
    assert_eq!(Hidpp10ProfileType::from_str("other"), Hidpp10ProfileType::Unknown);
}
