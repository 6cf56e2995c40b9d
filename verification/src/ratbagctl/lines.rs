//! The lines that the tool prints.

use crate::engine::device::LedMode;
use crate::ratbagctl::args;
use crate::text;
use vstd::prelude::*;
use vstd::string::*;

verus! {

/// The name of a type of action.
pub open spec fn action_title(t: u32) -> Seq<char> {
    match t {
        0 => "none"@,
        1 => "button"@,
        2 => "special"@,
        3 => "key"@,
        4 => "macro"@,
        _ => "unknown"@,
    }
}

/// The name of a type of action.
pub fn action_type_name(t: u32) -> (r: &'static str)
    ensures
        r@ == action_title(t),
{
    match t {
        0 => "none",
        1 => "button",
        2 => "special",
        3 => "key",
        4 => "macro",
        _ => "unknown",
    }
}

/// The name of the LED mode that a DBus number stands for.
pub open spec fn mode_title(m: u32) -> Seq<char> {
    match LedMode::of_code(m) {
        Some(LedMode::Off) => "off"@,
        Some(LedMode::Solid) => "solid"@,
        Some(LedMode::Cycle) => "cycle"@,
        Some(LedMode::Breathing) => "breathing"@,
        Some(LedMode::ColorWave) => "wave"@,
        Some(LedMode::Starlight) => "starlight"@,
        Some(LedMode::TriColor) => "tricolor"@,
        None => "unknown"@,
    }
}

/// The name of the LED mode that a DBus number stands for.
pub fn led_mode_name(m: u32) -> (r: &'static str)
    ensures
        r@ == mode_title(m),
{
    match LedMode::from_u32(m) {
        Some(LedMode::Off) => "off",
        Some(LedMode::Solid) => "solid",
        Some(LedMode::Cycle) => "cycle",
        Some(LedMode::Breathing) => "breathing",
        Some(LedMode::ColorWave) => "wave",
        Some(LedMode::Starlight) => "starlight",
        Some(LedMode::TriColor) => "tricolor",
        None => "unknown",
    }
}

/// The name of a color depth.
pub open spec fn depth_title(d: u32) -> Seq<char> {
    match d {
        0 => "monochrome"@,
        1 => "rgb"@,
        _ => "unknown"@,
    }
}

/// The name of a color depth.
pub fn color_depth_name(d: u32) -> (r: &'static str)
    ensures
        r@ == depth_title(d),
{
    match d {
        0 => "monochrome",
        1 => "rgb",
        _ => "unknown",
    }
}

/// A color in hexadecimal.
pub open spec fn color_text(c: (u32, u32, u32)) -> Seq<char> {
    "#"@ + text::hex_at_least_2(c.0 as nat) + text::hex_at_least_2(c.1 as nat)
        + text::hex_at_least_2(c.2 as nat)
}

fn push_color(s: &mut String, c: (u32, u32, u32))
    ensures
        final(s)@ == old(s)@ + color_text(c),
{
    s.append("#");
    text::push_hex_at_least_2(s, c.0);
    text::push_hex_at_least_2(s, c.1);
    text::push_hex_at_least_2(s, c.2);
    assert(s@ =~= old(s)@ + color_text(c));
}

fn push_line(lines: &mut Vec<String>, line: String)
    ensures
        text::strings_view(final(lines)@) == text::strings_view(old(lines)@).push(line@),
{
    let ghost content = line@;
    lines.push(line);
    assert(text::strings_view(lines@) =~= text::strings_view(old(lines)@).push(content));
}

/// A line about a device in a list.
pub open spec fn device_line(index: int, name: Seq<char>, model: Seq<char>) -> Seq<char> {
    text::decimal(index as nat) + ": "@ + name + " ("@ + model + ")"@
}

/// The lines that list devices by name and model.
pub open spec fn device_lines(api: i32, devices: Seq<(String, String)>) -> Seq<Seq<char>> {
    if devices.len() == 0 {
        seq!["No devices found. (API version "@ + text::signed(api as int) + ")"@]
    } else {
        seq!["API version: "@ + text::signed(api as int)] + Seq::new(
            devices.len(),
            |i: int| device_line(i, devices[i].0@, devices[i].1@),
        )
    }
}

/// The lines that list devices by name and model.
pub fn list_lines(api: i32, devices: &Vec<(String, String)>) -> (r: Vec<String>)
    ensures
        text::strings_view(r@) == device_lines(api, devices@),
{
    let mut lines: Vec<String> = Vec::new();
    assert(text::strings_view(lines@) =~= Seq::empty());
    if devices.len() == 0 {
        let mut s: String = "No devices found. (API version ".to_owned();
        text::push_signed(&mut s, api);
        s.append(")");
        push_line(&mut lines, s);
        assert(text::strings_view(lines@) =~= device_lines(api, devices@));
        return lines;
    }
    let mut head: String = "API version: ".to_owned();
    text::push_signed(&mut head, api);
    push_line(&mut lines, head);
    let ghost first = "API version: "@ + text::signed(api as int);
    let mut i: usize = 0;
    assert(text::strings_view(lines@) =~= seq![first] + Seq::new(
        0,
        |k: int| device_line(k, devices@[k].0@, devices@[k].1@),
    ));
    while i < devices.len()
        invariant
            i <= devices@.len(),
            devices@.len() > 0,
            first == "API version: "@ + text::signed(api as int),
            text::strings_view(lines@) == seq![first] + Seq::new(
                i as nat,
                |k: int| device_line(k, devices@[k].0@, devices@[k].1@),
            ),
        decreases devices@.len() - i,
    {
        let mut s = String::new();
        text::push_decimal(&mut s, i as u64);
        s.append(": ");
        s.append(devices[i].0.as_str());
        s.append(" (");
        s.append(devices[i].1.as_str());
        s.append(")");
        assert(s@ =~= device_line(i as int, devices@[i as int].0@, devices@[i as int].1@));
        push_line(&mut lines, s);
        i += 1;
        assert(text::strings_view(lines@) =~= seq![first] + Seq::new(
            i as nat,
            |k: int| device_line(k, devices@[k].0@, devices@[k].1@),
        ));
    }
    assert(text::strings_view(lines@) =~= device_lines(api, devices@));
    lines
}

/// The lines about a device, before its profiles.
pub open spec fn device_info(
    name: Seq<char>,
    model: Seq<char>,
    firmware: Seq<char>,
    profiles: nat,
) -> Seq<Seq<char>> {
    let head = seq!["Device:    "@ + name, "Model:     "@ + model];
    let middle = if firmware.len() == 0 {
        head
    } else {
        head.push("Firmware:  "@ + firmware)
    };
    middle.push("Profiles:  "@ + text::decimal(profiles))
}

fn label(head: &str, tail: &str) -> (r: String)
    ensures
        r@ == head@ + tail@,
{
    let mut s: String = head.to_owned();
    s.append(tail);
    s
}

/// The lines about a device, before its profiles.
pub fn info_lines(name: &str, model: &str, firmware: &str, profiles: usize) -> (r: Vec<String>)
    ensures
        text::strings_view(r@) == device_info(name@, model@, firmware@, profiles as nat),
{
    let mut lines: Vec<String> = Vec::new();
    push_line(&mut lines, label("Device:    ", name));
    push_line(&mut lines, label("Model:     ", model));
    assert(text::strings_view(lines@) =~= seq!["Device:    "@ + name@, "Model:     "@ + model@]);
    if !firmware.is_empty() {
        push_line(&mut lines, label("Firmware:  ", firmware));
    }
    let mut s: String = "Profiles:  ".to_owned();
    text::push_decimal(&mut s, profiles as u64);
    push_line(&mut lines, s);
    lines
}

/// The name of a profile in quotation marks, behind a space; nothing where it
/// has none.
pub open spec fn quoted_name(name: Seq<char>) -> Seq<char> {
    if name.len() == 0 {
        Seq::empty()
    } else {
        " \""@ + name + "\""@
    }
}

fn push_name(s: &mut String, name: &str)
    ensures
        final(s)@ == old(s)@ + quoted_name(name@),
{
    if !name.is_empty() {
        s.append(" \"");
        s.append(name);
        s.append("\"");
    }
    assert(s@ =~= old(s)@ + quoted_name(name@));
}

/// A note, or nothing.
pub open spec fn note_if(b: bool, note: Seq<char>) -> Seq<char> {
    if b {
        note
    } else {
        Seq::empty()
    }
}

fn push_if(s: &mut String, b: bool, note: &str)
    ensures
        final(s)@ == old(s)@ + note_if(b, note@),
{
    if b {
        s.append(note);
    }
    assert(s@ =~= old(s)@ + note_if(b, note@));
}

/// A line about a profile of a device.
pub open spec fn profile_summary(index: u32, name: Seq<char>, rate: u32, active: bool) -> Seq<char> {
    "  Profile "@ + text::decimal(index as nat) + quoted_name(name) + ": rate="@ + text::decimal(
        rate as nat,
    ) + "Hz"@ + note_if(active, " [active]"@)
}

/// A line about a profile of a device.
pub fn profile_summary_line(index: u32, name: &str, rate: u32, active: bool) -> (r: String)
    ensures
        r@ == profile_summary(index, name@, rate, active),
{
    let mut s: String = "  Profile ".to_owned();
    text::push_decimal(&mut s, index as u64);
    push_name(&mut s, name);
    s.append(": rate=");
    text::push_decimal(&mut s, rate as u64);
    s.append("Hz");
    push_if(&mut s, active, " [active]");
    s
}

/// What the tool prints of a profile.
#[derive(Debug)]
pub struct ProfileView {
    pub index: u32,
    pub name: String,
    pub active: bool,
    pub disabled: bool,
    pub dirty: bool,
    pub rate: u32,
    pub rates: Vec<u32>,
    pub angle_snapping: i32,
    pub debounce: i32,
    pub debounces: Vec<u32>,
}

/// A line about a profile in a list.
pub open spec fn listed_profile(
    index: u32,
    name: Seq<char>,
    rate: u32,
    enabled: bool,
    active: bool,
    dirty: bool,
) -> Seq<char> {
    "Profile "@ + text::decimal(index as nat) + quoted_name(name) + ": rate="@ + text::decimal(
        rate as nat,
    ) + "Hz enabled="@ + text::truth(enabled) + " active="@ + text::truth(active) + note_if(
        dirty,
        " [dirty]"@,
    )
}

/// A line about a profile in a list.
pub fn profile_list_line(
    index: u32,
    name: &str,
    rate: u32,
    enabled: bool,
    active: bool,
    dirty: bool,
) -> (r: String)
    ensures
        r@ == listed_profile(index, name@, rate, enabled, active, dirty),
{
    let mut s: String = "Profile ".to_owned();
    text::push_decimal(&mut s, index as u64);
    push_name(&mut s, name);
    s.append(": rate=");
    text::push_decimal(&mut s, rate as u64);
    s.append("Hz enabled=");
    text::push_truth(&mut s, enabled);
    s.append(" active=");
    text::push_truth(&mut s, active);
    push_if(&mut s, dirty, " [dirty]");
    s
}

/// Whether something is on, in words; only 1 is on.
pub open spec fn switch_text(v: i32) -> Seq<char> {
    if v == 1 {
        "on"@
    } else {
        "off"@
    }
}

/// Whether something is on, in words; only 1 is on.
pub fn switch_name(v: i32) -> (r: &'static str)
    ensures
        r@ == switch_text(v),
{
    if v == 1 {
        "on"
    } else {
        "off"
    }
}

/// With a line, if there is something to say.
pub open spec fn with_line(lines: Seq<Seq<char>>, b: bool, line: Seq<char>) -> Seq<Seq<char>> {
    if b {
        lines.push(line)
    } else {
        lines
    }
}

impl ProfileView {
    /// The lines about a profile, before its parts. Settings that a device does
    /// not have are left out.
    pub open spec fn text(&self) -> Seq<Seq<char>> {
        let head = seq!["Profile "@ + text::decimal(self.index as nat) + ":"@];
        let named = with_line(head, self.name@.len() > 0, "  Name:           "@ + self.name@);
        let flags = named.push("  Active:         "@ + text::truth(self.active)).push(
            "  Enabled:        "@ + text::truth(!self.disabled),
        ).push("  Dirty:          "@ + text::truth(self.dirty));
        let rates = flags.push(
            "  Report rate:    "@ + text::decimal(self.rate as nat) + " Hz"@,
        ).push("  Supported rates: "@ + text::number_list(self.rates@));
        let snapping = with_line(
            rates,
            self.angle_snapping >= 0,
            "  Angle snapping: "@ + switch_text(self.angle_snapping),
        );
        let debounce = with_line(
            snapping,
            self.debounce >= 0,
            "  Debounce:       "@ + text::signed(self.debounce as int) + " ms"@,
        );
        with_line(
            debounce,
            self.debounces@.len() > 0,
            "  Supported debounces: "@ + text::number_list(self.debounces@),
        )
    }

    /// The lines about a profile, before its parts.
    pub fn lines(&self) -> (r: Vec<String>)
        ensures
            text::strings_view(r@) == self.text(),
    {
        let mut lines: Vec<String> = Vec::new();
        let mut s: String = "Profile ".to_owned();
        text::push_decimal(&mut s, self.index as u64);
        s.append(":");
        push_line(&mut lines, s);
        assert(text::strings_view(lines@) =~= seq![
            "Profile "@ + text::decimal(self.index as nat) + ":"@,
        ]);
        if !self.name.as_str().is_empty() {
            push_line(&mut lines, label("  Name:           ", self.name.as_str()));
        }
        self.flag_lines(&mut lines);
        if self.angle_snapping >= 0 {
            push_line(&mut lines, label("  Angle snapping: ", switch_name(self.angle_snapping)));
        }
        if self.debounce >= 0 {
            let mut s: String = "  Debounce:       ".to_owned();
            text::push_signed(&mut s, self.debounce);
            s.append(" ms");
            push_line(&mut lines, s);
        }
        if self.debounces.len() > 0 {
            let mut s: String = "  Supported debounces: ".to_owned();
            text::push_number_list(&mut s, &self.debounces);
            push_line(&mut lines, s);
        }
        lines
    }

    fn flag_lines(&self, lines: &mut Vec<String>)
        ensures
            text::strings_view(final(lines)@) == text::strings_view(old(lines)@).push(
                "  Active:         "@ + text::truth(self.active),
            ).push("  Enabled:        "@ + text::truth(!self.disabled)).push(
                "  Dirty:          "@ + text::truth(self.dirty),
            ).push("  Report rate:    "@ + text::decimal(self.rate as nat) + " Hz"@).push(
                "  Supported rates: "@ + text::number_list(self.rates@),
            ),
    {
        let mut s: String = "  Active:         ".to_owned();
        text::push_truth(&mut s, self.active);
        push_line(lines, s);
        let mut s: String = "  Enabled:        ".to_owned();
        text::push_truth(&mut s, !self.disabled);
        push_line(lines, s);
        let mut s: String = "  Dirty:          ".to_owned();
        text::push_truth(&mut s, self.dirty);
        push_line(lines, s);
        let mut s: String = "  Report rate:    ".to_owned();
        text::push_decimal(&mut s, self.rate as u64);
        s.append(" Hz");
        push_line(lines, s);
        let mut s: String = "  Supported rates: ".to_owned();
        text::push_number_list(&mut s, &self.rates);
        push_line(lines, s);
    }
}

/// The name of a profile, or that it has none.
pub open spec fn profile_name(profile: u32, name: Seq<char>) -> Seq<char> {
    if name.len() == 0 {
        "Profile "@ + text::decimal(profile as nat) + " has no name set."@
    } else {
        name
    }
}

/// The line that shows the name of a profile.
pub fn profile_name_line(profile: u32, name: &str) -> (r: String)
    ensures
        r@ == profile_name(profile, name@),
{
    if name.is_empty() {
        let mut s: String = "Profile ".to_owned();
        text::push_decimal(&mut s, profile as u64);
        s.append(" has no name set.");
        s
    } else {
        name.to_owned()
    }
}

/// The angle snapping of a profile; negative where the device has none.
pub open spec fn angle_snapping(v: i32) -> Seq<char> {
    if v < 0 {
        "Angle snapping is not supported on this device."@
    } else {
        switch_text(v)
    }
}

/// The line that shows the angle snapping of a profile.
pub fn angle_snapping_line(v: i32) -> (r: &'static str)
    ensures
        r@ == angle_snapping(v),
{
    if v < 0 {
        "Angle snapping is not supported on this device."
    } else {
        switch_name(v)
    }
}

/// The values that a setting can have, on a line of their own, where some are
/// known.
pub open spec fn with_supported(lines: Seq<Seq<char>>, list: Seq<u32>) -> Seq<Seq<char>> {
    with_line(lines, list.len() > 0, "Supported: "@ + text::number_list(list))
}

fn push_supported_line(lines: &mut Vec<String>, list: &Vec<u32>)
    ensures
        text::strings_view(final(lines)@) == with_supported(
            text::strings_view(old(lines)@),
            list@,
        ),
{
    if list.len() > 0 {
        let mut s: String = "Supported: ".to_owned();
        text::push_number_list(&mut s, list);
        push_line(lines, s);
    }
}

/// The debounce time of a profile; negative where the device has none.
pub open spec fn debounce(ms: i32, list: Seq<u32>) -> Seq<Seq<char>> {
    if ms < 0 {
        seq!["Debounce is not supported on this device."@]
    } else {
        with_supported(seq!["Current: "@ + text::signed(ms as int) + " ms"@], list)
    }
}

/// The lines that show the debounce time of a profile.
pub fn debounce_lines(ms: i32, list: &Vec<u32>) -> (r: Vec<String>)
    ensures
        text::strings_view(r@) == debounce(ms, list@),
{
    let mut lines: Vec<String> = Vec::new();
    if ms < 0 {
        push_line(&mut lines, "Debounce is not supported on this device.".to_owned());
        assert(text::strings_view(lines@) =~= debounce(ms, list@));
        return lines;
    }
    let mut s: String = "Current: ".to_owned();
    text::push_signed(&mut s, ms);
    s.append(" ms");
    push_line(&mut lines, s);
    assert(text::strings_view(lines@) =~= seq!["Current: "@ + text::signed(ms as int) + " ms"@]);
    push_supported_line(&mut lines, list);
    lines
}

/// The lines that show the DPI value of a resolution.
pub fn dpi_lines(dpi: &str, list: &Vec<u32>) -> (r: Vec<String>)
    ensures
        text::strings_view(r@) == with_supported(seq![dpi@], list@),
{
    let mut lines: Vec<String> = Vec::new();
    push_line(&mut lines, dpi.to_owned());
    assert(text::strings_view(lines@) =~= seq![dpi@]);
    push_supported_line(&mut lines, list);
    lines
}

/// The values that a resolution can have, in words; nothing where none are
/// known.
pub open spec fn supported(list: Seq<u32>) -> Seq<char> {
    if list.len() == 0 {
        Seq::empty()
    } else {
        " (supported: "@ + text::number_list(list) + ")"@
    }
}

fn push_supported(s: &mut String, list: &Vec<u32>)
    ensures
        final(s)@ == old(s)@ + supported(list@),
{
    if list.len() > 0 {
        s.append(" (supported: ");
        text::push_number_list(s, list);
        s.append(")");
    }
    assert(s@ =~= old(s)@ + supported(list@));
}

/// A line about a resolution of a profile.
pub open spec fn profile_resolution(index: u32, dpi: Seq<char>, active: bool, list: Seq<u32>) -> Seq<
    char,
> {
    "  Resolution "@ + text::decimal(index as nat) + ": "@ + dpi + note_if(active, " [active]"@)
        + supported(list)
}

/// A line about a resolution of a profile.
pub fn profile_resolution_line(index: u32, dpi: &str, active: bool, list: &Vec<u32>) -> (r: String)
    ensures
        r@ == profile_resolution(index, dpi@, active, list@),
{
    let mut s: String = "  Resolution ".to_owned();
    text::push_decimal(&mut s, index as u64);
    s.append(": ");
    s.append(dpi);
    push_if(&mut s, active, " [active]");
    push_supported(&mut s, list);
    s
}

/// The capabilities of a resolution in words; nothing where it has none.
pub open spec fn capabilities(list: Seq<u32>) -> Seq<char> {
    if list.len() == 0 {
        Seq::empty()
    } else {
        " caps="@ + text::number_list(list)
    }
}

/// A line about a resolution in a list.
pub open spec fn listed_resolution(
    index: u32,
    dpi: Seq<char>,
    flags: (bool, bool, bool),
    list: Seq<u32>,
    caps: Seq<u32>,
) -> Seq<char> {
    "Resolution "@ + text::decimal(index as nat) + ": "@ + dpi + note_if(flags.0, " [active]"@)
        + note_if(flags.1, " [default]"@) + note_if(flags.2, " [disabled]"@) + supported(list)
        + capabilities(caps)
}

/// A line about a resolution in a list. The flags say whether it is active,
/// the default and disabled.
pub fn resolution_list_line(
    index: u32,
    dpi: &str,
    flags: (bool, bool, bool),
    list: &Vec<u32>,
    caps: &Vec<u32>,
) -> (r: String)
    ensures
        r@ == listed_resolution(index, dpi@, flags, list@, caps@),
{
    let mut s: String = "Resolution ".to_owned();
    text::push_decimal(&mut s, index as u64);
    s.append(": ");
    s.append(dpi);
    push_if(&mut s, flags.0, " [active]");
    push_if(&mut s, flags.1, " [default]");
    push_if(&mut s, flags.2, " [disabled]");
    push_supported(&mut s, list);
    let ghost before = s@;
    if caps.len() > 0 {
        s.append(" caps=");
        text::push_number_list(&mut s, caps);
    }
    assert(s@ =~= before + capabilities(caps@));
    s
}

/// A line about a button.
pub open spec fn button_text(index: u32, kind: u32, mapping: Seq<char>) -> Seq<char> {
    "Button "@ + text::decimal(index as nat) + ": type="@ + action_title(kind) + " value="@
        + mapping
}

/// A line about a button.
pub fn button_line(index: u32, kind: u32, mapping: &str) -> (r: String)
    ensures
        r@ == button_text(index, kind, mapping@),
{
    let mut s: String = "Button ".to_owned();
    text::push_decimal(&mut s, index as u64);
    s.append(": type=");
    s.append(action_type_name(kind));
    s.append(" value=");
    s.append(mapping);
    s
}

/// A list of names in brackets, each in quotation marks.
pub open spec fn name_list(names: Seq<Seq<char>>) -> Seq<char> {
    "["@ + text::joined(
        names.map_values(|n: Seq<char>| "\""@ + n + "\""@),
        ", "@,
        names.len(),
    ) + "]"@
}

fn push_name_list(s: &mut String, names: &Vec<&'static str>)
    ensures
        final(s)@ == old(s)@ + name_list(names@.map_values(|n: &'static str| n@)),
{
    let ghost views = names@.map_values(|n: &'static str| n@);
    let ghost parts = views.map_values(|n: Seq<char>| "\""@ + n + "\""@);
    s.append("[");
    let mut i: usize = 0;
    assert(s@ =~= old(s)@ + ("["@ + text::joined(parts, ", "@, 0)));
    while i < names.len()
        invariant
            i <= names@.len(),
            views == names@.map_values(|n: &'static str| n@),
            parts == views.map_values(|n: Seq<char>| "\""@ + n + "\""@),
            s@ == old(s)@ + ("["@ + text::joined(parts, ", "@, i as nat)),
        decreases names@.len() - i,
    {
        if i > 0 {
            s.append(", ");
        }
        s.append("\"");
        s.append(names[i]);
        s.append("\"");
        assert(parts[i as int] == "\""@ + names@[i as int]@ + "\""@);
        i += 1;
        assert(s@ =~= old(s)@ + ("["@ + text::joined(parts, ", "@, i as nat)));
    }
    s.append("]");
    assert(s@ =~= old(s)@ + name_list(views));
}

/// The lines about one button.
pub open spec fn button_info(button: u32, kind: u32, mapping: Seq<char>, kinds: Seq<u32>) -> Seq<
    Seq<char>,
> {
    seq![
        "Button "@ + text::decimal(button as nat) + ":"@,
        "  Action type: "@ + action_title(kind) + " ("@ + text::decimal(kind as nat) + ")"@,
        "  Value:       "@ + mapping,
        "  Supported:   "@ + name_list(kinds.map_values(|k: u32| action_title(k))),
    ]
}

/// The lines about one button.
pub fn button_lines(button: u32, kind: u32, mapping: &str, kinds: &Vec<u32>) -> (r: Vec<String>)
    ensures
        text::strings_view(r@) == button_info(button, kind, mapping@, kinds@),
{
    let mut names: Vec<&'static str> = Vec::new();
    let mut i: usize = 0;
    while i < kinds.len()
        invariant
            i <= kinds@.len(),
            names@.len() == i,
            forall|k: int| 0 <= k < i ==> (#[trigger] names@[k])@ == action_title(kinds@[k]),
        decreases kinds@.len() - i,
    {
        names.push(action_type_name(kinds[i]));
        i += 1;
    }
    assert(names@.map_values(|n: &'static str| n@) =~= kinds@.map_values(
        |k: u32| action_title(k),
    ));
    let mut lines: Vec<String> = Vec::new();
    let mut s: String = "Button ".to_owned();
    text::push_decimal(&mut s, button as u64);
    s.append(":");
    push_line(&mut lines, s);
    let mut s: String = "  Action type: ".to_owned();
    s.append(action_type_name(kind));
    s.append(" (");
    text::push_decimal(&mut s, kind as u64);
    s.append(")");
    push_line(&mut lines, s);
    push_line(&mut lines, label("  Value:       ", mapping));
    let mut s: String = "  Supported:   ".to_owned();
    push_name_list(&mut s, &names);
    push_line(&mut lines, s);
    assert(text::strings_view(lines@) =~= button_info(button, kind, mapping@, kinds@));
    lines
}

/// A line about an LED.
pub open spec fn led_text(index: u32, mode: u32, color: (u32, u32, u32), brightness: u32) -> Seq<char> {
    "LED "@ + text::decimal(index as nat) + ": mode="@ + mode_title(mode) + " color="@ + color_text(
        color,
    ) + " brightness="@ + text::decimal(brightness as nat)
}

/// A line about an LED.
pub fn led_line(index: u32, mode: u32, color: (u32, u32, u32), brightness: u32) -> (r: String)
    ensures
        r@ == led_text(index, mode, color, brightness),
{
    let mut s: String = "LED ".to_owned();
    text::push_decimal(&mut s, index as u64);
    s.append(": mode=");
    s.append(led_mode_name(mode));
    s.append(" color=");
    push_color(&mut s, color);
    s.append(" brightness=");
    text::push_decimal(&mut s, brightness as u64);
    s
}

/// What the tool prints of an LED.
#[derive(Debug)]
pub struct LedView {
    pub index: u32,
    pub mode: u32,
    pub modes: Vec<u32>,
    pub color: (u32, u32, u32),
    pub secondary_color: (u32, u32, u32),
    pub tertiary_color: (u32, u32, u32),
    pub brightness: u32,
    pub duration: u32,
    pub color_depth: u32,
}

impl LedView {
    /// The lines about one LED.
    pub open spec fn text(&self) -> Seq<Seq<char>> {
        seq![
            "LED "@ + text::decimal(self.index as nat) + ":"@,
            "  Mode:            "@ + mode_title(self.mode),
            "  Color:           "@ + color_text(self.color),
            "  Secondary color: "@ + color_text(self.secondary_color),
            "  Tertiary color:  "@ + color_text(self.tertiary_color),
            "  Brightness:      "@ + text::decimal(self.brightness as nat),
            "  Duration:        "@ + text::decimal(self.duration as nat) + " ms"@,
            "  Color depth:     "@ + depth_title(self.color_depth),
            "  Supported modes: "@ + name_list(self.modes@.map_values(|m: u32| mode_title(m))),
        ]
    }

    fn mode_names(&self) -> (r: Vec<&'static str>)
        ensures
            r@.map_values(|n: &'static str| n@) == self.modes@.map_values(|m: u32| mode_title(m)),
    {
        let mut names: Vec<&'static str> = Vec::new();
        let mut i: usize = 0;
        while i < self.modes.len()
            invariant
                i <= self.modes@.len(),
                names@.len() == i,
                forall|k: int|
                    0 <= k < i ==> (#[trigger] names@[k])@ == mode_title(self.modes@[k]),
            decreases self.modes@.len() - i,
        {
            names.push(led_mode_name(self.modes[i]));
            i += 1;
        }
        assert(names@.map_values(|n: &'static str| n@) =~= self.modes@.map_values(
            |m: u32| mode_title(m),
        ));
        names
    }

    /// The lines about one LED.
    pub fn lines(&self) -> (r: Vec<String>)
        ensures
            text::strings_view(r@) == self.text(),
    {
        let names = self.mode_names();
        let mut lines: Vec<String> = Vec::new();
        let mut s: String = "LED ".to_owned();
        text::push_decimal(&mut s, self.index as u64);
        s.append(":");
        push_line(&mut lines, s);
        push_line(&mut lines, label("  Mode:            ", led_mode_name(self.mode)));
        let mut s: String = "  Color:           ".to_owned();
        push_color(&mut s, self.color);
        push_line(&mut lines, s);
        let mut s: String = "  Secondary color: ".to_owned();
        push_color(&mut s, self.secondary_color);
        push_line(&mut lines, s);
        let mut s: String = "  Tertiary color:  ".to_owned();
        push_color(&mut s, self.tertiary_color);
        push_line(&mut lines, s);
        let mut s: String = "  Brightness:      ".to_owned();
        text::push_decimal(&mut s, self.brightness as u64);
        push_line(&mut lines, s);
        let mut s: String = "  Duration:        ".to_owned();
        text::push_decimal(&mut s, self.duration as u64);
        s.append(" ms");
        push_line(&mut lines, s);
        push_line(&mut lines, label("  Color depth:     ", color_depth_name(self.color_depth)));
        let mut s: String = "  Supported modes: ".to_owned();
        push_name_list(&mut s, &names);
        push_line(&mut lines, s);
        assert(text::strings_view(lines@) =~= self.text());
        lines
    }
}

/// A line about an LED of a profile.
pub open spec fn profile_led(
    index: u32,
    mode: u32,
    color: (u32, u32, u32),
    brightness: u32,
    duration: u32,
) -> Seq<char> {
    "  "@ + led_text(index, mode, color, brightness) + " duration="@ + text::decimal(
        duration as nat,
    ) + "ms"@
}

/// A line about an LED of a profile.
pub fn profile_led_line(
    index: u32,
    mode: u32,
    color: (u32, u32, u32),
    brightness: u32,
    duration: u32,
) -> (r: String)
    ensures
        r@ == profile_led(index, mode, color, brightness, duration),
{
    let line = led_line(index, mode, color, brightness);
    let mut s = label("  ", line.as_str());
    s.append(" duration=");
    text::push_decimal(&mut s, duration as u64);
    s.append("ms");
    s
}

/// The name that is shown for the number of an LED mode is read as that mode,
/// and so as its number; a number without a mode has a name that is not read.
pub proof fn mode_name_reads_back(m: u32)
    ensures
        args::mode_named(text::lower(mode_title(m))) == LedMode::of_code(m),
        args::mode_code(args::mode_named(text::lower(mode_title(m)))) == if LedMode::of_code(
            m,
        ) is Some {
            Some(m)
        } else {
            None
        },
{
    reveal_strlit("off");
    reveal_strlit("solid");
    reveal_strlit("cycle");
    reveal_strlit("wave");
    reveal_strlit("colorwave");
    reveal_strlit("color-wave");
    reveal_strlit("starlight");
    reveal_strlit("breathing");
    reveal_strlit("breathe");
    reveal_strlit("tricolor");
    reveal_strlit("tri-color");
    reveal_strlit("unknown");
    let name = mode_title(m);
    assert(text::all_ascii(name));
    assert(text::small(name) =~= name);
    assert("solid"@[0] == 's' && "starlight"@[1] == 't' && "solid"@[1] == 'o');
    assert("cycle"@[0] == 'c' && "wave"@[0] == 'w' && "colorwave"@[1] == 'o');
    assert("breathing"@[0] == 'b' && "tricolor"@[0] == 't' && "off"@[0] == 'o');
    assert("unknown"@[0] == 'u' && "breathe"@[0] == 'b' && "tri-color"@[0] == 't');
    assert("starlight"@[0] == 's' && "color-wave"@[0] == 'c');
}

proof fn lemma_pair(n: u32)
    requires
        n <= 255,
    ensures
        text::hex_at_least_2(n as nat) == seq![
            text::hex_digit(n as int / 16),
            text::hex_digit(n as int % 16),
        ],
{
    reveal_strlit("0");
    reveal_with_fuel(text::hex_digits, 3);
    assert(text::hex_at_least_2(n as nat) =~= seq![
        text::hex_digit(n as int / 16),
        text::hex_digit(n as int % 16),
    ]);
}

proof fn lemma_digit(d: int)
    requires
        0 <= d < 16,
    ensures
        args::hex_value(text::hex_digit(d) as u8) == Some(d as u32),
        text::hex_digit(d) <= '\u{7f}',
{
}

proof fn lemma_pair_value(n: u32)
    requires
        n <= 255,
    ensures
        args::hex_pair(
            text::hex_digit(n as int / 16) as u8,
            text::hex_digit(n as int % 16) as u8,
        ) == Some(n),
{
    lemma_digit(n as int / 16);
    lemma_digit(n as int % 16);
}

proof fn lemma_color_bytes(s: Seq<char>, b: Seq<u8>)
    requires
        s.len() == 7,
        s[0] == '#',
        vstd::utf8::is_ascii_chars(s),
        b == vstd::utf8::encode_utf8(s),
    ensures
        args::without_sign(b) == Seq::new(6, |i: int| s[i + 1] as u8),
{
    vstd::utf8::is_ascii_chars_encode_utf8(s);
    assert(b[0] == s[0] as u8);
    assert forall|j: int| 0 <= j < 7 implies #[trigger] b[j] == s[j] as u8 by {}
    assert(args::without_sign(b) =~= Seq::new(6, |i: int| s[i + 1] as u8));
}

/// A color that is printed reads back as it was.
pub proof fn color_reads_back(c: (u32, u32, u32))
    requires
        c.0 <= 255,
        c.1 <= 255,
        c.2 <= 255,
    ensures
        args::color_of(vstd::utf8::encode_utf8(color_text(c))) == Ok::<
            (u32, u32, u32),
            args::ColorError,
        >(c),
{
    reveal_strlit("#");
    lemma_pair(c.0);
    lemma_pair(c.1);
    lemma_pair(c.2);
    let s = color_text(c);
    let d = seq![
        '#',
        text::hex_digit(c.0 as int / 16),
        text::hex_digit(c.0 as int % 16),
        text::hex_digit(c.1 as int / 16),
        text::hex_digit(c.1 as int % 16),
        text::hex_digit(c.2 as int / 16),
        text::hex_digit(c.2 as int % 16),
    ];
    assert(s =~= d);
    lemma_digit(c.0 as int / 16);
    lemma_digit(c.0 as int % 16);
    lemma_digit(c.1 as int / 16);
    lemma_digit(c.1 as int % 16);
    lemma_digit(c.2 as int / 16);
    lemma_digit(c.2 as int % 16);
    lemma_pair_value(c.0);
    lemma_pair_value(c.1);
    lemma_pair_value(c.2);
    lemma_color_bytes(s, vstd::utf8::encode_utf8(s));
}

} // verus!
