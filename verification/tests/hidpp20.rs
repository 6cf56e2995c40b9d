use ratbagd::hal::error::DriverError;
use ratbagd::hal::hidpp::{
    DEVICE_IDX_CORDED, DEVICE_IDX_RECEIVER, HIDPP10_ERROR, HIDPP10_ERR_RESOURCE_ERROR,
    REPORT_ID_LONG, REPORT_ID_SHORT, ROOT_FEATURE_INDEX, ROOT_FN_GET_PROTOCOL_VERSION,
    compute_ccitt_crc, fn_sw,
};
use ratbagd::hal::hidpp20::binding::Hidpp20ButtonBinding;
use ratbagd::hal::hidpp20::driver::Hidpp20Driver;
use ratbagd::hal::hidpp20::eeprom::{
    EEPROM_BUTTON_OFFSET, EEPROM_BUTTON_SIZE, EEPROM_DEFAULT_DPI_OFFSET, EEPROM_DPI_OFFSET,
    EEPROM_LED_COUNT, EEPROM_LED_OFFSET, EEPROM_LED_SIZE, EEPROM_PROFILE_MIN_LEN,
    EEPROM_REPORT_INTERVAL_OFFSET, EepromProfile,
};
use ratbagd::hal::hidpp20::error::HidppDriverError;
use ratbagd::hal::hidpp20::feature::{
    ProbeIndexResult, ProbeStep, SW_ID, first_probe_index, match_probe_reply, probe_step,
    version_request,
};
use ratbagd::hal::hidpp20::sensor::resolve_button_count;

fn transient_err() -> HidppDriverError {
    HidppDriverError::from(DriverError::Timeout { attempts: 3 })
}

#[test]
fn probe_fails_fast_when_device_asleep() {
    let index = first_probe_index();
    assert_eq!(index, DEVICE_IDX_CORDED);
    let req = version_request().report(index);
    assert_eq!(req.len(), 20);
    assert_eq!(req[0], REPORT_ID_LONG);
    assert_eq!(req[1], DEVICE_IDX_CORDED);
    let err = [
        REPORT_ID_SHORT,
        DEVICE_IDX_CORDED,
        HIDPP10_ERROR,
        ROOT_FEATURE_INDEX,
        fn_sw(ROOT_FN_GET_PROTOCOL_VERSION, SW_ID),
        HIDPP10_ERR_RESOURCE_ERROR,
        0x00,
    ];
    let result = match_probe_reply(&err, index).expect("the report answers the probe");
    assert!(matches!(result, ProbeIndexResult::Asleep));
    assert!(matches!(probe_step(index, result), ProbeStep::Asleep));
}

#[test]
fn probe_tries_both_indices() {
    let first = probe_step(DEVICE_IDX_CORDED, ProbeIndexResult::NoResponse);
    assert!(matches!(first, ProbeStep::Query(DEVICE_IDX_RECEIVER)));
    match probe_step(DEVICE_IDX_RECEIVER, ProbeIndexResult::NoResponse) {
        ProbeStep::Failed(HidppDriverError::ProbeFailed(tried)) => {
            assert_eq!(tried, vec![DEVICE_IDX_CORDED, DEVICE_IDX_RECEIVER]);
        }
        other => panic!("expected a failure, got {other:?}"),
    }
}

#[test]
fn button_count_descriptor_wins() {
    assert_eq!(resolve_button_count(8, Ok(11), 5).unwrap(), 8);
    assert_eq!(resolve_button_count(8, Err(transient_err()), 5).unwrap(), 8);
}

#[test]
fn button_count_falls_back_to_1b04_then_db() {
    assert_eq!(resolve_button_count(0, Ok(11), 5).unwrap(), 11);
    assert_eq!(resolve_button_count(0, Ok(0), 5).unwrap(), 5);
}

#[test]
fn button_count_transient_error_propagates() {
    assert!(resolve_button_count(0, Err(transient_err()), 5).is_err());
}

#[test]
fn button_count_never_zero() {
    assert!(resolve_button_count(0, Ok(0), 0).is_err());
}

fn sample_sector() -> Vec<u8> {
    let mut data = vec![0u8; 256];
    data[EEPROM_REPORT_INTERVAL_OFFSET] = 1;
    data[EEPROM_DEFAULT_DPI_OFFSET] = 2;
    for (i, raw) in [400u16, 800, 1600, 0, 0xFFFF].into_iter().enumerate() {
        let off = EEPROM_DPI_OFFSET + i * 2;
        data[off..off + 2].copy_from_slice(&raw.to_le_bytes());
    }
    for b in 0..3 {
        let off = EEPROM_BUTTON_OFFSET + b * EEPROM_BUTTON_SIZE;
        data[off..off + 4].copy_from_slice(&[0x80 + b as u8, b as u8, 0xAA, 0xBB]);
    }
    for l in 0..EEPROM_LED_COUNT {
        let off = EEPROM_LED_OFFSET + l * EEPROM_LED_SIZE;
        for k in 0..EEPROM_LED_SIZE {
            data[off + k] = (l * 16 + k) as u8;
        }
    }
    data[13] = 0x5A;
    data[31] = 0xC3;
    data[200] = 0x99;
    data[254] = 0xDE;
    data[255] = 0xAD;
    data
}

#[test]
fn eeprom_profile_decodes_each_field() {
    let eeprom = EepromProfile::from_bytes(&sample_sector(), 8).unwrap();
    assert_eq!(eeprom.report_interval, 1);
    assert_eq!(eeprom.default_dpi_index, 2);
    assert_eq!(eeprom.dpis, vec![400, 800, 1600, 0, 0xFFFF]);
    assert_eq!(eeprom.buttons.len(), 8);
    assert_eq!(eeprom.buttons[0], Hidpp20ButtonBinding::from_bytes(&[0x80, 0, 0xAA, 0xBB]));
    assert_eq!(eeprom.leds.len(), EEPROM_LED_COUNT);
    assert_eq!(eeprom.leds[1][0], 16);
}

#[test]
fn eeprom_profile_round_trips() {
    let original = sample_sector();
    let eeprom = EepromProfile::from_bytes(&original, 8).unwrap();
    let mut rewritten = original.clone();
    eeprom.write_into(&mut rewritten).unwrap();
    assert_eq!(rewritten, original, "read→write must not change managed bytes");
    let mut blank = vec![0u8; 256];
    eeprom.write_into(&mut blank).unwrap();
    assert_eq!(EepromProfile::from_bytes(&blank, 8).unwrap(), eeprom);
}

#[test]
fn eeprom_profile_preserves_unmanaged_bytes() {
    let mut data = sample_sector();
    let eeprom = EepromProfile::from_bytes(&data, 8).unwrap();
    let other = EepromProfile::default();
    other.write_into(&mut data).unwrap();
    eeprom.write_into(&mut data).unwrap();
    assert_eq!(data[13], 0x5A);
    assert_eq!(data[31], 0xC3);
    assert_eq!(data[200], 0x99);
    assert_eq!(data[254], 0xDE);
    assert_eq!(data[255], 0xAD);
}

#[test]
fn eeprom_profile_rejects_short_buffer_on_decode() {
    let data = vec![0u8; EEPROM_PROFILE_MIN_LEN - 1];
    let err = EepromProfile::from_bytes(&data, 8).unwrap_err();
    match err {
        HidppDriverError::BufferUnderflow { expected, received } => {
            assert_eq!(expected, EEPROM_PROFILE_MIN_LEN);
            assert_eq!(received, EEPROM_PROFILE_MIN_LEN - 1);
        }
        other => panic!("expected BufferUnderflow, got {other:?}"),
    }
}

#[test]
fn eeprom_profile_rejects_short_buffer_on_write() {
    let eeprom = EepromProfile::from_bytes(&sample_sector(), 8).unwrap();
    let mut short = vec![0u8; EEPROM_LED_OFFSET];
    let err = eeprom.write_into(&mut short).unwrap_err();
    match err {
        HidppDriverError::BufferUnderflow { expected, received } => {
            assert_eq!(expected, EEPROM_PROFILE_MIN_LEN);
            assert_eq!(received, EEPROM_LED_OFFSET);
        }
        other => panic!("expected BufferUnderflow, got {other:?}"),
    }
    assert!(short.iter().all(|&b| b == 0), "failed write must not mutate");
}

#[test]
fn eeprom_profile_accepts_exact_min_length() {
    let mut data = sample_sector();
    data.truncate(EEPROM_PROFILE_MIN_LEN);
    let eeprom = EepromProfile::from_bytes(&data, 8).unwrap();
    assert_eq!(eeprom.leds.len(), EEPROM_LED_COUNT);
    eeprom.write_into(&mut data).unwrap();
}

#[test]
fn verify_sector_crc_reports_mismatch_fields() {
    let mut data = sample_sector();
    let crc_offset = data.len() - 2;
    let computed = compute_ccitt_crc(&data[..crc_offset]);
    let wrong = computed.wrapping_add(1);
    data[crc_offset..].copy_from_slice(&wrong.to_be_bytes());
    let err = Hidpp20Driver::verify_sector_crc(0x0102, &data).unwrap_err();
    match err {
        HidppDriverError::CrcMismatch { sector, expected, received } => {
            assert_eq!(sector, 0x0102);
            assert_eq!(expected, computed);
            assert_eq!(received, wrong);
        }
        other => panic!("expected CrcMismatch, got {other:?}"),
    }
    data[crc_offset..].copy_from_slice(&computed.to_be_bytes());
    Hidpp20Driver::verify_sector_crc(0x0102, &data).unwrap();
}

#[test]
fn verify_sector_crc_rejects_tiny_buffer() {
    let err = Hidpp20Driver::verify_sector_crc(0x0001, &[0xFF]).unwrap_err();
    assert!(matches!(
        err,
        HidppDriverError::BufferUnderflow { expected: 2, received: 1 }
    ));
}
