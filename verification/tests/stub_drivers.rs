use ratbagd::hal::etekcity::{
    EtekcityDriver, button_to_raw_index, configure_profile_report, raw_to_description,
    set_active_profile_report,
};
use ratbagd::hal::gskill::{
    ButtonFunctionType, GskillDriver, GskillError, RawDpiLevel, compute_checksum,
};
use ratbagd::hal::marsgaming::{MarsGamingDriver, ReportType, probe_request};
use ratbagd::hal::sinowealth_nubwo::{
    SinowealthNubwoDriver, build_dpi_cmd, build_rate_cmd, encode_dpi, encode_rate,
    prefirmware_query,
};
use ratbagd::hal::{etekcity, gskill, marsgaming};

#[test]
fn gskill_probe_reads_the_active_profile() {
    let mut query = gskill::profile_query();
    assert_eq!(query[0], gskill::GSKILL_GET_CURRENT_PROFILE_NUM);
    assert_eq!(query[1..], [0; 8]);
    query[1] = gskill::GSKILL_CMD_SUCCESS;
    query[2] = 0xF3;
    let mut d = GskillDriver::new();
    assert!(matches!(d.probed(&query), GskillError::NotImplemented));
    assert_eq!(d.data.as_ref().unwrap().active_profile, 3);
    assert!(d.data.unwrap().profiles.iter().all(|p| p.is_none()));
}

#[test]
fn gskill_probe_rejects_other_states() {
    let mut reply = gskill::profile_query();
    reply[1] = 0x77;
    let mut d = GskillDriver::new();
    assert!(matches!(d.probed(&reply), GskillError::UnexpectedStatus { status: 0x77 }));
    assert!(d.data.is_none());
}

#[test]
fn gskill_dpi() {
    assert_eq!(gskill::raw_to_dpi(RawDpiLevel { x: 0, y: 15 }), (50, 800));
    assert_eq!(gskill::dpi_to_raw(800), Some(15));
    assert_eq!(gskill::dpi_to_raw(825), None);
    assert_eq!(gskill::dpi_to_raw(50), None);
    assert_eq!(gskill::dpi_to_raw(1_000_000), None);
    let raw = gskill::dpi_to_raw(3200).unwrap();
    assert_eq!(gskill::raw_to_dpi(RawDpiLevel { x: raw, y: raw }), (3200, 3200));
}

#[test]
fn gskill_checksum() {
    let mut report = [1u8, 2, 3, 4, 0x0F, 0xF0, 0x3C];
    assert_eq!(compute_checksum(&report), 0x0F ^ 0xF0 ^ 0x3C);
    let before = compute_checksum(&report);
    report[3] = 99;
    assert_eq!(compute_checksum(&report), before);
    report[5] = 0;
    assert_ne!(compute_checksum(&report), before);
    assert_eq!(compute_checksum(&[9, 9, 9, 9]), 0);
}

#[test]
fn gskill_functions_have_their_own_codes() {
    assert_ne!(ButtonFunctionType::Wheel.to_byte(), ButtonFunctionType::Mouse.to_byte());
    assert_ne!(ButtonFunctionType::DpiUp.to_byte(), ButtonFunctionType::DpiDown.to_byte());
}

#[test]
fn etekcity_probe_starts_blank() {
    let mut d = EtekcityDriver::new();
    d.probed();
    let data = d.data.unwrap();
    assert_eq!((data.profiles.len(), data.settings.len(), data.macros.len()), (5, 5, 5));
    assert!(data.profiles.iter().all(|p| p.iter().all(|&b| b == 0)));
    assert_eq!(data.macros[0].len(), 11);
    assert_eq!(etekcity::profile_query()[1..], [0, 0]);
}

#[test]
fn etekcity_reports() {
    let active = set_active_profile_report(4);
    assert_eq!(active, [etekcity::profile_query()[0], 0x03, 4]);
    let configure = configure_profile_report(2, 0x10);
    assert_eq!(configure[1..], [2, 0x10]);
    assert_ne!(configure[0], active[0]);
}

#[test]
fn etekcity_buttons() {
    assert_eq!(button_to_raw_index(0), 0);
    assert_eq!(button_to_raw_index(7), 7);
    assert_eq!(button_to_raw_index(8), 13);
    assert_eq!(button_to_raw_index(9), 14);
    assert_eq!(raw_to_description(4), Some("special(double-click)"));
    assert_eq!(raw_to_description(5), None);
}

#[test]
fn marsgaming_probe() {
    let request = probe_request();
    assert_eq!(request[..8], [1, ReportType::Read.to_byte(), 0x4F, 0, 0x2A, 0, 0xFA, 0xFA]);
    assert!(request[8..].iter().all(|&b| b == 0));
    let mut d = MarsGamingDriver::new();
    d.probed();
    let data = d.data.unwrap();
    assert_eq!((data.profiles.len(), data.active_profile), (5, 0));
}

#[test]
fn marsgaming_dpi() {
    for dpi in [100u32, 800, 5000] {
        let raw = marsgaming::dpi_to_raw(dpi).unwrap();
        assert_eq!(marsgaming::raw_to_dpi(raw), dpi);
    }
    assert_eq!(marsgaming::dpi_to_raw(801), None);
    assert_eq!(marsgaming::dpi_to_raw(0), None);
    assert_eq!(marsgaming::dpi_to_raw(1_000_000), None);
}

#[test]
fn nubwo_probe_reads_the_firmware() {
    assert_eq!(prefirmware_query()[..3], [0x02, 0x01, 0x49]);
    let mut report = [0u8; 256];
    report[48..52].copy_from_slice(b"v1.\xFF");
    report[53] = b'x';
    let mut d = SinowealthNubwoDriver::new();
    d.probed(&report);
    let data = d.data.unwrap();
    assert_eq!(data.firmware_string, "v1.\u{FFFD}");
    assert_eq!((data.current_dpi_encoded, data.current_rate_encoded), (4, 1));
}

#[test]
fn nubwo_firmware_may_fill_the_report() {
    let mut d = SinowealthNubwoDriver::new();
    d.probed(&[b'a'; 256]);
    assert_eq!(d.data.unwrap().firmware_string, "a".repeat(208));
}

#[test]
fn nubwo_codes() {
    assert_eq!([1000, 2000, 3000, 5000, 15000].map(encode_dpi), [4, 3, 2, 1, 0].map(Some));
    assert_eq!(encode_dpi(4000), None);
    assert_eq!([125, 250, 333, 500, 1000].map(encode_rate), [8, 4, 3, 2, 1].map(Some));
    assert_eq!(encode_rate(200), None);
    assert_eq!(build_rate_cmd(3), [0x02, 0x06, 0xBB, 0xAA, 0x28, 0x00, 0x03, 0x00]);
    assert_eq!(build_dpi_cmd(2)[6], 2);
    assert_ne!(build_dpi_cmd(2)[..6], build_rate_cmd(2)[..6]);
}
