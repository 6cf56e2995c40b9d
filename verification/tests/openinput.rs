use ratbagd::engine::device::DeviceInfo;
use ratbagd::engine::device_database::DeviceEntry;
use ratbagd::hal::openinput::driver::{OiPhase, OpenInputDriver};
use ratbagd::hal::openinput::report::{
    OI_ERROR_CUSTOM, OI_ERROR_INVALID_VALUE, OI_ERROR_UNSUPPORTED_FUNCTION, OI_PAGE_ERROR,
    OI_REPORT_LONG, OI_REPORT_SHORT, OiError, OiReport, build_request, check_response,
    format_error_report, page_name, read_text, request_bytes,
};

fn report(id: u8, page: u8, function: u8, bytes: &[u8]) -> OiReport {
    let mut data = [0u8; 29];
    data[..bytes.len()].copy_from_slice(bytes);
    OiReport { id, function_page: page, function, data }
}

fn same(a: &OiReport, b: &OiReport) -> bool {
    (a.id, a.function_page, a.function, a.data) == (b.id, b.function_page, b.function, b.data)
}

fn device() -> DeviceInfo {
    let entry = DeviceEntry {
        name: "oi".into(),
        driver: "openinput".into(),
        device_type: "mouse".into(),
        matches: Vec::new(),
        driver_config: None,
    };
    DeviceInfo::from_entry("x", "oi", 3, 1, 2, &entry)
}

#[test]
fn reports_travel() {
    let long = report(OI_REPORT_LONG, 3, 4, &[5, 6, 7, 8, 9, 10, 11]);
    assert_eq!(long.to_long_buf()[..6], [0x21, 3, 4, 5, 6, 7]);
    assert!(same(&OiReport::from_buf(&long.to_long_buf()), &long));
    let short = report(OI_REPORT_SHORT, 3, 4, &[5, 6, 7, 8, 9]);
    assert_eq!(short.to_short_buf(), [0x20, 3, 4, 5, 6, 7, 8, 9]);
    assert!(same(&OiReport::from_buf(&short.to_short_buf()), &short));
}

#[test]
fn requests_have_the_size_of_their_kind() {
    assert_eq!(request_bytes(&build_request(0, 2)).unwrap(), vec![0x20, 0, 2, 0, 0, 0, 0, 0]);
    assert_eq!(request_bytes(&report(OI_REPORT_LONG, 1, 1, &[])).unwrap().len(), 32);
    assert!(matches!(
        request_bytes(&report(0x33, 1, 1, &[])),
        Err(OiError::UnknownReport { id: 0x33 })
    ));
}

#[test]
fn responses_are_checked() {
    assert!(matches!(check_response(&[0x20, 0]), Err(OiError::TooShort { size: 2 })));
    assert!(matches!(
        check_response(&[0x22, 0, 0, 0]),
        Err(OiError::UnexpectedReport { id: 0x22 })
    ));
    assert!(matches!(
        check_response(&[0x20, 0, 0, 0]),
        Err(OiError::SizeMismatch { got: 4, expected: 8 })
    ));
    assert!(matches!(
        check_response(&[0x21; 8]),
        Err(OiError::SizeMismatch { got: 8, expected: 32 })
    ));
    let ok = check_response(&[0x20, 1, 2, 3, 4, 5, 6, 7]).unwrap();
    assert_eq!((ok.function_page, ok.function, ok.data[0], ok.data[4]), (1, 2, 3, 7));
    let failed = check_response(&[0x20, 0xFF, 0x01, 0, 0, 9, 0, 0]);
    match failed {
        Err(OiError::Device { message }) => {
            assert_eq!(message, "OpenInput device error: Invalid value (in position 9)")
        }
        other => panic!("{other:?}"),
    }
}

#[test]
fn errors_are_told_in_words() {
    let e = |f: u8, d: &[u8]| format_error_report(&report(OI_REPORT_SHORT, OI_PAGE_ERROR, f, d));
    assert_eq!(
        e(OI_ERROR_INVALID_VALUE, &[0, 0, 3]),
        "OpenInput device error: Invalid value (in position 3)"
    );
    assert_eq!(
        e(OI_ERROR_UNSUPPORTED_FUNCTION, &[0x0A, 0xFF]),
        "OpenInput device error: Unsupported function (0x0a, 0xff)"
    );
    assert_eq!(
        e(OI_ERROR_CUSTOM, b"no\xFF\0yes"),
        "OpenInput device error: Custom error (no\u{FFFD})"
    );
    assert_eq!(e(0x44, &[]), "OpenInput device error: Unknown error (0x44)");
}

#[test]
fn texts_end_at_zero() {
    assert_eq!(read_text(b"abc\0def"), "abc");
    assert_eq!(read_text(b"abc"), "abc");
    assert_eq!(read_text(b"\xC3\x28"), "\u{FFFD}(");
}

#[test]
fn pages_have_names() {
    let names: Vec<&str> = [0, 1, 2, 3, 4, 0xFD, 0xFE, 0xFF, 7].map(page_name).to_vec();
    assert_eq!(
        names,
        vec![
            "INFO", "SETTINGS", "DPI", "BUTTONS", "LEDS", "GIMMICKS", "DEBUG", "ERROR", "UNKNOWN"
        ]
    );
}

#[test]
fn probing_lists_every_page() {
    let mut driver = OpenInputDriver::new();
    let mut info = device();
    assert!(matches!(driver.load_profiles(&mut info), Err(OiError::NotProbed)));

    let mut probe = driver.probe();
    let data = driver.data.as_mut().unwrap();
    let mut replied = Vec::new();
    for bytes in [
        &[1u8, 2, 3][..],
        b"vendor",
        b"v1",
        b"mouse",
        &[1, 1, 0],
        &[1, 0, 2],
        &[2, 0, 7, 8],
        &[1, 1, 5],
        &[1, 0, 6],
    ] {
        let request = probe.request().unwrap();
        replied.push((request.function, request.data[0], request.data[1]));
        let reply = report(OI_REPORT_SHORT, 0, request.function, bytes);
        probe.replied(data, &Some(reply));
    }
    assert!(probe.request().is_none());
    assert_eq!(probe.outcome(), Some(true));
    assert_eq!(
        replied,
        vec![
            (0, 0, 0),
            (1, 0, 0),
            (1, 1, 0),
            (1, 2, 0),
            (2, 0, 0),
            (2, 1, 0),
            (3, 0, 0),
            (3, 2, 0),
            (3, 2, 1)
        ]
    );
    assert_eq!((data.fw_major, data.fw_minor, data.fw_patch), (1, 2, 3));
    assert_eq!(probe.texts[2], Some("mouse".to_string()));
    assert_eq!(probe.pages, vec![0, 2]);
    assert_eq!(probe.found.len(), 2);
    assert_eq!((probe.found[0].page, probe.found[0].functions.clone()), (0, vec![7, 8]));
    assert_eq!((probe.found[1].page, probe.found[1].functions.clone()), (2, vec![5, 6]));

    driver.load_profiles(&mut info).unwrap();
    assert!(info.profiles.iter().all(|p| p.is_active));
    assert!(info.profiles[0].report_rates.contains(&1000));
}

#[test]
fn probing_needs_the_version_only() {
    let mut driver = OpenInputDriver::new();
    let mut probe = driver.probe();
    let data = driver.data.as_mut().unwrap();
    probe.replied(data, &None);
    assert_eq!(probe.outcome(), Some(false));
    assert!(probe.request().is_none());

    let mut driver = OpenInputDriver::new();
    let mut probe = driver.probe();
    let data = driver.data.as_mut().unwrap();
    assert_eq!(probe.outcome(), None);
    probe.replied(data, &Some(report(OI_REPORT_SHORT, 0, 0, &[1])));
    for _ in 0..4 {
        assert!(probe.request().is_some());
        probe.replied(data, &None);
    }
    assert_eq!(probe.outcome(), Some(true));
    assert_eq!(probe.texts, vec![None, None, None]);
}

#[test]
fn inconsistent_lists_end_the_listing() {
    let mut driver = OpenInputDriver::new();
    let mut probe = driver.probe();
    let data = driver.data.as_mut().unwrap();
    for bytes in [&[1u8][..], &[], &[], &[], &[1, 3, 9]] {
        probe.replied(data, &Some(report(OI_REPORT_SHORT, 0, 0, bytes)));
    }
    assert!(matches!(probe.phase, OiPhase::Pages { total: 4, read: 1 }));
    probe.replied(data, &Some(report(OI_REPORT_SHORT, 0, 0, &[1, 1, 4])));
    assert_eq!(probe.outcome(), Some(true));
    assert!(probe.found.is_empty());
}

#[test]
fn empty_batches_are_asked_for_again() {
    let mut driver = OpenInputDriver::new();
    let mut probe = driver.probe();
    let data = driver.data.as_mut().unwrap();
    for bytes in [&[1u8][..], &[], &[], &[], &[0, 2]] {
        probe.replied(data, &Some(report(OI_REPORT_SHORT, 0, 0, bytes)));
    }
    for _ in 0..3 {
        assert!(matches!(probe.phase, OiPhase::Pages { total: 2, read: 0 }));
        probe.replied(data, &Some(report(OI_REPORT_SHORT, 0, 0, &[0, 2])));
    }
    for bytes in [&[2u8, 0, 8, 9][..], &[1, 3, 5], &[0, 3], &[3, 0, 6, 7, 8], &[1, 0, 6]] {
        probe.replied(data, &Some(report(OI_REPORT_SHORT, 0, 0, bytes)));
    }
    assert_eq!(probe.outcome(), Some(true));
    assert_eq!(probe.found.len(), 2);
    assert_eq!((probe.found[0].page, probe.found[0].functions.clone()), (8, vec![5, 6, 7, 8]));
    assert_eq!((probe.found[1].page, probe.found[1].functions.clone()), (9, vec![6]));
}
