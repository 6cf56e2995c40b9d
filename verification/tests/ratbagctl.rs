use ratbagd::engine::device::LedMode;
use ratbagd::ratbagctl::args::{
    ColorError, EventError, RangeError, ResolveError, button_path, device_path_from_child,
    led_path, parse_hex_color, parse_index, parse_led_mode, parse_macro_events, parse_switch,
    parse_u32, profile_path, resolution_path, resolve_device, validate_brightness,
    validate_macro, validate_rgb,
};
use ratbagd::ratbagctl::bus::{
    BusError, BusValue, button_mapping, extract_color, extract_object_path_array,
    extract_u32_array, resolution_dpi,
};
use ratbagd::ratbagctl::lines::{
    LedView, ProfileView, action_type_name, angle_snapping_line, button_line, button_lines,
    color_depth_name, debounce_lines, dpi_lines, info_lines, led_line, led_mode_name, list_lines,
    profile_led_line, profile_list_line, profile_name_line, profile_resolution_line,
    profile_summary_line, resolution_list_line,
};

fn texts(items: &[&str]) -> Vec<String> {
    items.iter().map(|s| s.to_string()).collect()
}

fn pair(a: u32, b: u32) -> BusValue {
    BusValue::Structure(vec![BusValue::U32(a), BusValue::U32(b)])
}

#[test]
fn numbers_are_read() {
    for n in [0u32, 7, 10, 4096, u32::MAX] {
        assert_eq!(parse_u32(&n.to_string()), Some(n));
    }
    assert_eq!(parse_u32("+5"), Some(5));
    assert_eq!(parse_u32("007"), Some(7));
    assert_eq!(parse_u32("4294967296"), None);
    assert_eq!(parse_u32(""), None);
    assert_eq!(parse_u32("+"), None);
    assert_eq!(parse_u32("-1"), None);
    assert_eq!(parse_u32("1 "), None);
    assert_eq!(parse_index("12"), Some(12));
    assert_eq!(parse_index("99999999999999999999999"), None);
}

#[test]
fn child_paths_lead_back() {
    let device = "/org/freedesktop/ratbag1/device/hidraw0";
    assert_eq!(profile_path(device, 2), "/org/freedesktop/ratbag1/device/hidraw0/p2");
    assert_eq!(resolution_path(device, 0, 13), format!("{device}/p0/r13"));
    assert_eq!(button_path(device, 1, 4), format!("{device}/p1/b4"));
    assert_eq!(led_path(device, 4294967295, 0), format!("{device}/p4294967295/l0"));
    assert_eq!(device_path_from_child(&led_path(device, 3, 1)), device);
    assert_eq!(device_path_from_child(&profile_path(device, 3)), device);
    assert_eq!(device_path_from_child(device), device);
    assert_eq!(device_path_from_child("/a/paper/p0"), "/a");
}

#[test]
fn devices_are_resolved() {
    let devices = texts(&["/d/hidraw0", "/d/hidraw1", "/d/event7"]);
    assert_eq!(resolve_device(&devices, "1"), Ok(1));
    assert_eq!(resolve_device(&devices, "hidraw"), Ok(0));
    assert_eq!(resolve_device(&devices, "event7"), Ok(2));
    assert_eq!(
        resolve_device(&devices, "3"),
        Err(ResolveError::OutOfRange { index: 3, count: 3 })
    );
    assert_eq!(resolve_device(&devices, "joystick"), Err(ResolveError::NoMatch));
    assert_eq!(resolve_device(&Vec::new(), "0"), Err(ResolveError::NoDevices));
}

#[test]
fn colors_are_read() {
    assert_eq!(parse_hex_color("ff8001"), Ok((255, 128, 1)));
    assert_eq!(parse_hex_color("#00FFaB"), Ok((0, 255, 171)));
    assert_eq!(parse_hex_color("+f0000"), Ok((15, 0, 0)));
    assert_eq!(parse_hex_color("fff"), Err(ColorError::Length));
    assert_eq!(parse_hex_color("##ff0000"), Err(ColorError::Length));
    assert_eq!(parse_hex_color("zz0000"), Err(ColorError::Red));
    assert_eq!(parse_hex_color("00-100"), Err(ColorError::Green));
    assert_eq!(parse_hex_color("00000g"), Err(ColorError::Blue));
}

#[test]
fn ranges_are_checked() {
    assert_eq!(validate_rgb(255, 0, 255), Ok(()));
    assert_eq!(validate_rgb(256, 300, 300), Err(RangeError::Red { value: 256 }));
    assert_eq!(validate_rgb(0, 300, 300), Err(RangeError::Green { value: 300 }));
    assert_eq!(validate_rgb(0, 0, 999), Err(RangeError::Blue { value: 999 }));
    assert_eq!(validate_brightness(255), Ok(()));
    assert_eq!(validate_brightness(256), Err(RangeError::Brightness { value: 256 }));
    assert_eq!(validate_macro(&vec![(65535, 1), (0, 0)]), Ok(()));
    assert_eq!(
        validate_macro(&vec![(1, 0), (65536, 2)]),
        Err(RangeError::Keycode { value: 65536 })
    );
    assert_eq!(validate_macro(&vec![(1, 2)]), Err(RangeError::Direction { value: 2 }));
}

#[test]
fn cli_macro_events_are_read() {
    assert_eq!(
        parse_macro_events(&texts(&["30:1", "30:0"])),
        Ok(vec![(30, 1), (30, 0)])
    );
    assert_eq!(parse_macro_events(&Vec::new()), Ok(Vec::new()));
    assert_eq!(parse_macro_events(&texts(&["30:1", "30"])), Err((1, EventError::Format)));
    assert_eq!(parse_macro_events(&texts(&["1:1:1"])), Err((0, EventError::Format)));
    assert_eq!(parse_macro_events(&texts(&["x:1"])), Err((0, EventError::Keycode)));
    assert_eq!(parse_macro_events(&texts(&["1:y"])), Err((0, EventError::Direction)));
    assert_eq!(
        parse_macro_events(&texts(&["1:2"])),
        Err((0, EventError::DirectionRange { direction: 2 }))
    );
}

#[test]
fn modes_are_read_in_any_case() {
    for (name, code) in [
        ("off", 0),
        ("SOLID", 1),
        ("Cycle", 2),
        ("wave", 4),
        ("ColorWave", 4),
        ("color-wave", 4),
        ("StarLight", 5),
        ("breathing", 3),
        ("Breathe", 3),
        ("TRICOLOR", 6),
        ("tri-color", 6),
    ] {
        assert_eq!(parse_led_mode(name), Some(code), "{name}");
    }
    assert_eq!(parse_led_mode("rainbow"), None);
    for m in 0..7 {
        assert_eq!(parse_led_mode(led_mode_name(m)), Some(m));
        assert_eq!(LedMode::from_u32(m).map(|mode| mode.to_u32()), Some(m));
    }
}

#[test]
fn switches_are_read_in_any_case() {
    for s in ["on", "1", "TRUE", "Yes"] {
        assert_eq!(parse_switch(s), Some(true), "{s}");
    }
    for s in ["off", "0", "False", "NO"] {
        assert_eq!(parse_switch(s), Some(false), "{s}");
    }
    assert_eq!(parse_switch("maybe"), None);
}

#[test]
fn arrays_are_extracted() {
    let paths = BusValue::Array(vec![
        BusValue::ObjectPath("/a".to_string()),
        BusValue::ObjectPath("/b".to_string()),
    ]);
    assert_eq!(extract_object_path_array(&paths), Ok(texts(&["/a", "/b"])));
    let mixed = BusValue::Array(vec![BusValue::Text("/a".to_string())]);
    assert_eq!(extract_object_path_array(&mixed), Err(BusError::UnexpectedItem));
    assert_eq!(extract_object_path_array(&BusValue::U32(1)), Err(BusError::UnexpectedType));
    let numbers = BusValue::Array(vec![BusValue::U32(3), BusValue::U32(4)]);
    assert_eq!(extract_u32_array(&numbers), Ok(vec![3, 4]));
    assert_eq!(extract_u32_array(&paths), Err(BusError::UnexpectedItem));
    assert_eq!(extract_u32_array(&BusValue::Bool(true)), Err(BusError::UnexpectedType));
}

#[test]
fn colors_are_extracted() {
    let c = BusValue::Structure(vec![BusValue::U32(1), BusValue::U32(2), BusValue::U32(3)]);
    assert_eq!(extract_color(&c), Ok((1, 2, 3)));
    assert_eq!(extract_color(&pair(1, 2)), Err(BusError::Malformed));
}

#[test]
fn resolutions_are_shown() {
    assert_eq!(resolution_dpi(&BusValue::U32(800)), Ok("800 DPI".to_string()));
    assert_eq!(resolution_dpi(&pair(400, 400)), Ok("400 DPI".to_string()));
    assert_eq!(resolution_dpi(&pair(400, 1600)), Ok("400x1600 DPI".to_string()));
    assert_eq!(
        resolution_dpi(&BusValue::Structure(vec![BusValue::U32(1)])),
        Err(BusError::Malformed)
    );
    assert_eq!(resolution_dpi(&BusValue::I32(-1)), Err(BusError::UnexpectedType));
}

#[test]
fn mappings_are_shown() {
    assert_eq!(button_mapping(&pair(1, 7)), Ok((1, "7".to_string())));
    let events = BusValue::Array(vec![pair(30, 1), pair(30, 0)]);
    let m = BusValue::Structure(vec![BusValue::U32(4), events]);
    assert_eq!(button_mapping(&m), Ok((4, "30:↓ 30:↑".to_string())));
    let odd = BusValue::Array(vec![BusValue::U32(1)]);
    assert_eq!(
        button_mapping(&BusValue::Structure(vec![BusValue::U32(4), odd])),
        Err(BusError::UnexpectedItem)
    );
    assert_eq!(
        button_mapping(&BusValue::Structure(vec![BusValue::U32(4), BusValue::Other])),
        Err(BusError::UnexpectedType)
    );
    assert_eq!(button_mapping(&BusValue::U32(1)), Err(BusError::Malformed));
}

#[test]
fn names_of_codes() {
    let names: Vec<&str> = (0..6).map(action_type_name).collect();
    assert_eq!(names, vec!["none", "button", "special", "key", "macro", "unknown"]);
    let modes: Vec<&str> = (0..8).map(led_mode_name).collect();
    assert_eq!(
        modes,
        vec!["off", "solid", "cycle", "breathing", "wave", "starlight", "tricolor", "unknown"]
    );
    assert_eq!(color_depth_name(0), "monochrome");
    assert_eq!(color_depth_name(1), "rgb");
    assert_eq!(color_depth_name(3), "unknown");
}

#[test]
fn devices_are_listed() {
    assert_eq!(list_lines(2, &Vec::new()), texts(&["No devices found. (API version 2)"]));
    let devices = vec![
        ("G502".to_string(), "usb:046d:c07d:0".to_string()),
        (String::new(), String::new()),
    ];
    assert_eq!(
        list_lines(-1, &devices),
        texts(&["API version: -1", "0: G502 (usb:046d:c07d:0)", "1:  ()"])
    );
    assert_eq!(
        info_lines("G502", "usb:1", "", 3),
        texts(&["Device:    G502", "Model:     usb:1", "Profiles:  3"])
    );
    assert_eq!(info_lines("a", "b", "1.2", 0)[2], "Firmware:  1.2");
}

#[test]
fn profiles_are_shown() {
    assert_eq!(profile_summary_line(0, "", 1000, true), "  Profile 0: rate=1000Hz [active]");
    assert_eq!(profile_summary_line(1, "fps", 500, false), "  Profile 1 \"fps\": rate=500Hz");
    assert_eq!(
        profile_list_line(2, "x", 125, true, false, true),
        "Profile 2 \"x\": rate=125Hz enabled=true active=false [dirty]"
    );
    let mut view = ProfileView {
        index: 1,
        name: String::new(),
        active: true,
        disabled: false,
        dirty: false,
        rate: 1000,
        rates: vec![125, 1000],
        angle_snapping: -1,
        debounce: -1,
        debounces: Vec::new(),
    };
    assert_eq!(
        view.lines(),
        texts(&[
            "Profile 1:",
            "  Active:         true",
            "  Enabled:        true",
            "  Dirty:          false",
            "  Report rate:    1000 Hz",
            "  Supported rates: [125, 1000]",
        ])
    );
    view.name = "fps".to_string();
    view.angle_snapping = 1;
    view.debounce = 8;
    view.debounces = vec![4, 8];
    let lines = view.lines();
    assert_eq!(lines[1], "  Name:           fps");
    assert_eq!(
        lines[7..].to_vec(),
        texts(&["  Angle snapping: on", "  Debounce:       8 ms", "  Supported debounces: [4, 8]"])
    );
}

#[test]
fn resolutions_are_listed() {
    assert_eq!(
        profile_resolution_line(0, "800 DPI", true, &vec![400, 800]),
        "  Resolution 0: 800 DPI [active] (supported: [400, 800])"
    );
    assert_eq!(profile_resolution_line(1, "1 DPI", false, &Vec::new()), "  Resolution 1: 1 DPI");
    assert_eq!(
        resolution_list_line(2, "800 DPI", (true, true, true), &vec![800], &vec![2, 3]),
        "Resolution 2: 800 DPI [active] [default] [disabled] (supported: [800]) caps=[2, 3]"
    );
    assert_eq!(
        resolution_list_line(2, "800 DPI", (false, false, false), &Vec::new(), &Vec::new()),
        "Resolution 2: 800 DPI"
    );
}

#[test]
fn buttons_are_shown() {
    assert_eq!(button_line(3, 2, "1073741831"), "Button 3: type=special value=1073741831");
    assert_eq!(
        button_lines(3, 1, "4", &vec![0, 1, 9]),
        texts(&[
            "Button 3:",
            "  Action type: button (1)",
            "  Value:       4",
            "  Supported:   [\"none\", \"button\", \"unknown\"]",
        ])
    );
}

#[test]
fn leds_are_shown() {
    assert_eq!(
        led_line(0, 1, (255, 0, 10), 99),
        "LED 0: mode=solid color=#ff000a brightness=99"
    );
    assert_eq!(
        profile_led_line(0, 3, (1, 2, 256), 9, 1500),
        "  LED 0: mode=breathing color=#0102100 brightness=9 duration=1500ms"
    );
    let view = LedView {
        index: 1,
        mode: 6,
        modes: vec![0, 6],
        color: (1, 2, 3),
        secondary_color: (16, 32, 48),
        tertiary_color: (255, 255, 255),
        brightness: 7,
        duration: 0,
        color_depth: 1,
    };
    assert_eq!(
        view.lines(),
        texts(&[
            "LED 1:",
            "  Mode:            tricolor",
            "  Color:           #010203",
            "  Secondary color: #102030",
            "  Tertiary color:  #ffffff",
            "  Brightness:      7",
            "  Duration:        0 ms",
            "  Color depth:     rgb",
            "  Supported modes: [\"off\", \"tricolor\"]",
        ])
    );
}

#[test]
fn shown_colors_are_read_back() {
    let line = led_line(0, 1, (18, 52, 86), 0);
    let shown = &line["LED 0: mode=solid color=".len()..][..7];
    assert_eq!(parse_hex_color(shown), Ok((18, 52, 86)));
}

#[test]
fn single_settings_are_shown() {
    assert_eq!(profile_name_line(3, ""), "Profile 3 has no name set.");
    assert_eq!(profile_name_line(3, "fps"), "fps");
    assert_eq!(angle_snapping_line(-1), "Angle snapping is not supported on this device.");
    assert_eq!([angle_snapping_line(0), angle_snapping_line(1)], ["off", "on"]);
    assert_eq!(
        debounce_lines(-1, &vec![4]),
        texts(&["Debounce is not supported on this device."])
    );
    assert_eq!(debounce_lines(8, &vec![4, 8]), texts(&["Current: 8 ms", "Supported: [4, 8]"]));
    assert_eq!(debounce_lines(0, &Vec::new()), texts(&["Current: 0 ms"]));
    assert_eq!(dpi_lines("800 DPI", &vec![800]), texts(&["800 DPI", "Supported: [800]"]));
    assert_eq!(dpi_lines("800 DPI", &Vec::new()), texts(&["800 DPI"]));
}
