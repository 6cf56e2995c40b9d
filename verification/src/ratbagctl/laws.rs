//! What arguments stand for, and how lines depend on what they tell.

use crate::engine::device::LedMode;
use crate::ratbagctl::args;
use crate::ratbagctl::args::{ColorError, RangeError};
use crate::ratbagctl::bus;
use crate::ratbagctl::bus::{BusError, BusValue};
use crate::ratbagctl::lines;
use crate::ratbagctl::lines::{LedView, ProfileView};
use crate::text;
use vstd::prelude::*;

verus! {

/// One digit more makes a number ten times as large and adds the digit.
pub proof fn digits_add_up(s: Seq<char>, d: int)
    requires
        0 <= d <= 9,
    ensures
        args::digits_value(s.push((48 + d) as char), s.len() + 1) == 10 * args::digits_value(
            s,
            s.len(),
        ) + d,
        args::digits_value(Seq::empty(), 0) == 0,
{
    lemma_prefix(s, s.push((48 + d) as char), s.len());
}

proof fn lemma_prefix(s: Seq<char>, t: Seq<char>, n: nat)
    requires
        n <= s.len() <= t.len(),
        forall|i: int| 0 <= i < n ==> s[i] == t[i],
    ensures
        args::digits_value(s, n) == args::digits_value(t, n),
    decreases n,
{
    if n > 0 {
        lemma_prefix(s, t, (n - 1) as nat);
    }
}

/// A number is written with digits only, a plus before them makes no difference,
/// and one that is too large is refused.
pub proof fn numbers_are_digits(s: Seq<char>, max: nat)
    ensures
        args::number(s, max) is Some && s[0] != '+' ==> s.len() > 0 && forall|i: int|
            0 <= i < s.len() ==> '0' <= #[trigger] s[i] <= '9',
        s.len() == 0 ==> args::number(s, max) is None,
        s.len() > 0 && s[0] != '+' ==> args::number(seq!['+'] + s, max) == args::number(s, max),
        args::number(s, max) matches Some(n) ==> n <= max,
{
    assert((seq!['+'] + s).subrange(1, s.len() as int + 1) =~= s);
}

/// The digits of a number: the last is what is left after division by ten.
pub proof fn decimal_digits(n: nat, d: nat)
    requires
        d <= 9,
    ensures
        text::decimal(d) == seq![(48 + d) as char],
        n > 0 ==> text::decimal(10 * n + d) == text::decimal(n).push((48 + d) as char),
{
    assert(n > 0 ==> (10 * n + d) / 10 == n && (10 * n + d) % 10 == d);
}

/// The sign of a number stands before its digits.
pub proof fn signed_digits(n: nat)
    ensures
        text::signed(n as int) == text::decimal(n),
        n > 0 ==> text::signed(-(n as int)) == seq!['-'] + text::decimal(n),
{
    reveal_strlit("-");
    assert("-"@ =~= seq!['-']);
}

/// Hexadecimal digits, small and capital.
pub proof fn hexadecimal_digits(d: int)
    ensures
        0 <= d <= 9 ==> text::hex_digit(d) as int == 48 + d && text::upper_hex_digit(d) as int == 48
            + d,
        10 <= d <= 15 ==> text::hex_digit(d) as int == 97 + d - 10 && text::upper_hex_digit(d) as int
            == 65 + d - 10,
{
}

/// Two hexadecimal digits make a byte, the more significant one first, and four
/// make two bytes.
pub proof fn hexadecimal_numbers(v: int)
    ensures
        0 <= v <= 255 ==> text::hex2(v) == seq![text::hex_digit(v / 16), text::hex_digit(v % 16)],
        0 <= v <= 255 ==> text::upper_hex2(v) == seq![
            text::upper_hex_digit(v / 16),
            text::upper_hex_digit(v % 16),
        ],
        0 <= v <= 65535 ==> text::hex4(v) == text::hex2(v / 256) + text::hex2(v % 256),
{
    if 0 <= v <= 255 {
        assert(v / 16 % 16 == v / 16);
    }
    if 0 <= v <= 65535 {
        let (hi, lo) = (v / 256, v % 256);
        assert(v == 256 * hi + lo);
        assert(v / 4096 % 16 == hi / 16 % 16);
        assert(v / 16 == 16 * hi + lo / 16);
        assert(v / 16 % 16 == lo / 16 % 16);
        assert(v % 16 == lo % 16);
        assert(text::hex4(v) =~= text::hex2(hi) + text::hex2(lo));
    }
}

/// What a hexadecimal digit is worth, and a pair of them.
pub proof fn hexadecimal_values(a: u8, b: u8)
    ensures
        48 <= a <= 57 ==> args::hex_value(a) == Some((a - 48) as u32),
        97 <= a <= 102 ==> args::hex_value(a) == Some((a - 97 + 10) as u32),
        65 <= a <= 70 ==> args::hex_value(a) == Some((a - 65 + 10) as u32),
        a < 48 || 57 < a < 65 || 70 < a < 97 || a > 102 ==> args::hex_value(a) is None,
        args::hex_value(a) is Some && args::hex_value(b) is Some ==> (args::hex_pair(a, b) matches Some(
            v,
        ) && v == 16 * args::hex_value(a)->0 + args::hex_value(b)->0),
        args::hex_value(b) is None ==> args::hex_pair(a, b) is None,
{
}

/// A color is six hexadecimal digits, red, green and blue, with or without a sign
/// before them; the first pair that is none is the one that is named.
pub proof fn color_arguments(b: Seq<u8>)
    requires
        b.len() == 6,
        b[0] != 35,
    ensures
        args::color_of(b) matches Ok(c) ==> Some(c.0) == args::hex_pair(b[0], b[1]) && Some(c.1)
            == args::hex_pair(b[2], b[3]) && Some(c.2) == args::hex_pair(b[4], b[5]),
        args::hex_pair(b[0], b[1]) is None <==> args::color_of(b) == Err::<
            (u32, u32, u32),
            ColorError,
        >(ColorError::Red),
        args::hex_pair(b[0], b[1]) is Some && args::hex_pair(b[2], b[3]) is None
            <==> args::color_of(b) == Err::<(u32, u32, u32), ColorError>(ColorError::Green),
        args::hex_pair(b[0], b[1]) is Some && args::hex_pair(b[2], b[3]) is Some && args::hex_pair(
            b[4],
            b[5],
        ) is None <==> args::color_of(b) == Err::<(u32, u32, u32), ColorError>(ColorError::Blue),
        args::color_of(seq![35u8] + b) == args::color_of(b),
{
    assert((seq![35u8] + b).subrange(1, 7) =~= b);
}

/// A color of another length is refused.
pub proof fn color_length(b: Seq<u8>)
    ensures
        args::color_of(b) == Err::<(u32, u32, u32), ColorError>(ColorError::Length) <==> if b.len()
            > 0 && b[0] == 35 {
            b.len() != 7
        } else {
            b.len() != 6
        },
{
}

/// A color is shown as a sign and two digits for each part.
pub proof fn color_digits(c: (u32, u32, u32))
    requires
        c.0 <= 255 && c.1 <= 255 && c.2 <= 255,
    ensures
        lines::color_text(c) == seq!['#'] + text::hex2(c.0 as int) + text::hex2(c.1 as int)
            + text::hex2(c.2 as int),
{
    reveal_strlit("#");
    lemma_two_digits(c.0 as nat);
    lemma_two_digits(c.1 as nat);
    lemma_two_digits(c.2 as nat);
    assert("#"@ =~= seq!['#']);
}

proof fn lemma_two_digits(n: nat)
    requires
        n <= 255,
    ensures
        text::hex_at_least_2(n) == text::hex2(n as int),
{
    reveal_with_fuel(text::hex_digits, 2);
    reveal_strlit("0");
    assert(text::hex_at_least_2(n) =~= text::hex2(n as int));
}

/// What LED modes are called: when they are given, and when they are shown.
pub proof fn mode_names(s: Seq<char>, m: u32)
    ensures
        s == "off"@ ==> args::mode_named(s) == Some(LedMode::Off),
        s == "solid"@ ==> args::mode_named(s) == Some(LedMode::Solid),
        s == "cycle"@ ==> args::mode_named(s) == Some(LedMode::Cycle),
        s == "wave"@ || s == "colorwave"@ || s == "color-wave"@ ==> args::mode_named(s) == Some(
            LedMode::ColorWave,
        ),
        s == "starlight"@ ==> args::mode_named(s) == Some(LedMode::Starlight),
        s == "breathing"@ || s == "breathe"@ ==> args::mode_named(s) == Some(LedMode::Breathing),
        s == "tricolor"@ || s == "tri-color"@ ==> args::mode_named(s) == Some(LedMode::TriColor),
        m == 0 ==> lines::mode_title(m) == "off"@,
        m == 1 ==> lines::mode_title(m) == "solid"@,
        m == 2 ==> lines::mode_title(m) == "cycle"@,
        m == 3 ==> lines::mode_title(m) == "breathing"@,
        m == 4 ==> lines::mode_title(m) == "wave"@,
        m == 5 ==> lines::mode_title(m) == "starlight"@,
        m == 6 ==> lines::mode_title(m) == "tricolor"@,
        m > 6 ==> lines::mode_title(m) == "unknown"@,
{
    reveal_strlit("off");
    reveal_strlit("solid");
    reveal_strlit("cycle");
    reveal_strlit("wave");
    reveal_strlit("colorwave");
    reveal_strlit("color-wave");
    reveal_strlit("starlight");
    reveal_strlit("breathing");
    reveal_strlit("breathe");
    reveal_strlit("tricolor");
    reveal_strlit("tri-color");
    assert("off"@.len() == 3 && "wave"@.len() == 4 && "color-wave"@.len() == 10);
    assert("breathe"@.len() == 7 && "tricolor"@.len() == 8);
    assert("solid"@[0] == 's' && "cycle"@[0] == 'c' && "solid"@.len() == 5 && "cycle"@.len() == 5);
    assert("colorwave"@[0] == 'c' && "starlight"@[0] == 's' && "breathing"@[0] == 'b'
        && "tri-color"@[0] == 't');
    assert("colorwave"@.len() == 9 && "starlight"@.len() == 9 && "breathing"@.len() == 9
        && "tri-color"@.len() == 9);
}

/// What switches on and what switches off.
pub proof fn switch_names(s: Seq<char>)
    ensures
        s == "on"@ || s == "1"@ || s == "true"@ || s == "yes"@ <==> args::switch_named(s) == Some(
            true,
        ),
        s == "off"@ || s == "0"@ || s == "false"@ || s == "no"@ <==> args::switch_named(s) == Some(
            false,
        ),
{
    reveal_strlit("on");
    reveal_strlit("1");
    reveal_strlit("true");
    reveal_strlit("yes");
    reveal_strlit("off");
    reveal_strlit("0");
    reveal_strlit("false");
    reveal_strlit("no");
    assert("on"@[0] == 'o' && "no"@[0] == 'n' && "1"@[0] == '1' && "0"@[0] == '0' && "yes"@[0] == 'y'
        && "off"@[0] == 'o');
    assert("true"@.len() == 4 && "false"@.len() == 5 && "yes"@.len() == 3 && "off"@.len() == 3
        && "on"@.len() == 2 && "no"@.len() == 2 && "1"@.len() == 1 && "0"@.len() == 1);
}

/// What action types and color depths are called.
pub proof fn titles(t: u32, d: u32)
    ensures
        t == 0 ==> lines::action_title(t) == "none"@,
        t == 1 ==> lines::action_title(t) == "button"@,
        t == 2 ==> lines::action_title(t) == "special"@,
        t == 3 ==> lines::action_title(t) == "key"@,
        t == 4 ==> lines::action_title(t) == "macro"@,
        t > 4 ==> lines::action_title(t) == "unknown"@,
        d == 0 ==> lines::depth_title(d) == "monochrome"@,
        d == 1 ==> lines::depth_title(d) == "rgb"@,
        d > 1 ==> lines::depth_title(d) == "unknown"@,
{
}

/// A device is named by its number, or else by a part of its path; the first one
/// that has it is taken.
pub proof fn device_arguments(devices: Seq<Seq<char>>, spec: Seq<char>, i: int)
    requires
        0 <= i < devices.len() <= usize::MAX,
        args::number(spec, usize::MAX as nat) is None,
        args::occurs(devices[i], spec),
        forall|j: int| 0 <= j < i ==> !args::occurs(#[trigger] devices[j], spec),
    ensures
        args::resolved(devices, spec) matches Ok(k) && k == i,
{
    lemma_matching(devices, spec, 0, i);
}

proof fn lemma_matching(devices: Seq<Seq<char>>, spec: Seq<char>, k: int, i: int)
    requires
        0 <= k <= i < devices.len(),
        args::occurs(devices[i], spec),
        forall|j: int| 0 <= j < i ==> !args::occurs(#[trigger] devices[j], spec),
    ensures
        args::matching(devices, spec, k) == Some(i),
    decreases i - k,
{
    if k < i {
        assert(!args::occurs(devices[k], spec));
        lemma_matching(devices, spec, k + 1, i);
    }
}

/// An event of a macro goes down for 1 and up for anything else.
pub proof fn event_arrows(key: u32, direction: u32)
    ensures
        bus::event_text((key, direction)) == text::decimal(key as nat) + seq![
            ':',
            if direction == 1 {
                '\u{2193}'
            } else {
                '\u{2191}'
            },
        ],
{
    reveal_strlit(":");
    reveal_strlit("\u{2193}");
    reveal_strlit("\u{2191}");
    assert(bus::event_text((key, direction)) =~= text::decimal(key as nat) + seq![
        ':',
        if direction == 1 {
            '\u{2193}'
        } else {
            '\u{2191}'
        },
    ]);
}

/// A resolution with equal axes is shown with one number, another with both.
pub proof fn dpi_texts(x: u32, y: u32)
    ensures
        bus::dpi_text(x, x) == text::decimal(x as nat) + " DPI"@,
        x != y ==> bus::dpi_text(x, y) == text::decimal(x as nat) + "x"@ + text::decimal(y as nat)
            + " DPI"@,
        bus::dpi_in(BusValue::U32(x)) == Ok::<Seq<char>, BusError>(bus::dpi_text(x, x)),
{
}

/// What a profile line says of an active and of a changed profile stands at its
/// end, and nothing else depends on it.
pub proof fn profile_notes(
    index: u32,
    name: Seq<char>,
    rate: u32,
    enabled: bool,
    active: bool,
)
    ensures
        lines::profile_summary(index, name, rate, true) == lines::profile_summary(
            index,
            name,
            rate,
            false,
        ) + " [active]"@,
        lines::listed_profile(index, name, rate, enabled, active, true) == lines::listed_profile(
            index,
            name,
            rate,
            enabled,
            active,
            false,
        ) + " [dirty]"@,
        lines::profile_summary(index, Seq::empty(), rate, false) == "  Profile "@ + text::decimal(
            index as nat,
        ) + ": rate="@ + text::decimal(rate as nat) + "Hz"@,
        lines::listed_profile(index, Seq::empty(), rate, enabled, active, false) == "Profile "@
            + text::decimal(index as nat) + ": rate="@ + text::decimal(rate as nat)
            + "Hz enabled="@ + text::truth(enabled) + " active="@ + text::truth(active),
        text::truth(true) == "true"@,
        text::truth(false) == "false"@,
{
    let empty = Seq::<char>::empty();
    let s = lines::profile_summary(index, name, rate, false);
    assert(s + " [active]"@ =~= lines::profile_summary(index, name, rate, true));
    let l = lines::listed_profile(index, name, rate, enabled, active, false);
    assert(l + " [dirty]"@ =~= lines::listed_profile(index, name, rate, enabled, active, true));
    assert(lines::profile_summary(index, empty, rate, false) =~= "  Profile "@ + text::decimal(
        index as nat,
    ) + ": rate="@ + text::decimal(rate as nat) + "Hz"@);
    assert(lines::listed_profile(index, empty, rate, enabled, active, false) =~= "Profile "@
        + text::decimal(index as nat) + ": rate="@ + text::decimal(rate as nat) + "Hz enabled="@
        + text::truth(enabled) + " active="@ + text::truth(active));
}

/// The flags of a resolution are noted behind its DPI value, in this order:
/// active, default, disabled.
pub proof fn resolution_notes(index: u32, dpi: Seq<char>, a: bool, d: bool)
    ensures
        ({
            let none = Seq::<u32>::empty();
            let bare = "Resolution "@ + text::decimal(index as nat) + ": "@ + dpi;
            &&& lines::listed_resolution(index, dpi, (false, false, false), none, none) == bare
            &&& lines::listed_resolution(index, dpi, (true, false, false), none, none) == bare
                + " [active]"@
            &&& lines::listed_resolution(index, dpi, (a, true, false), none, none)
                == lines::listed_resolution(index, dpi, (a, false, false), none, none)
                + " [default]"@
            &&& lines::listed_resolution(index, dpi, (a, d, true), none, none)
                == lines::listed_resolution(index, dpi, (a, d, false), none, none)
                + " [disabled]"@
        }),
{
    let none = Seq::<u32>::empty();
    let bare = "Resolution "@ + text::decimal(index as nat) + ": "@ + dpi;
    assert(lines::listed_resolution(index, dpi, (false, false, false), none, none) =~= bare);
    assert(lines::listed_resolution(index, dpi, (true, false, false), none, none) =~= bare
        + " [active]"@);
    assert(lines::listed_resolution(index, dpi, (a, true, false), none, none)
        =~= lines::listed_resolution(index, dpi, (a, false, false), none, none) + " [default]"@);
    assert(lines::listed_resolution(index, dpi, (a, d, true), none, none)
        =~= lines::listed_resolution(index, dpi, (a, d, false), none, none) + " [disabled]"@);
}

/// The lines about a profile: six, and one more for each thing that it has, a name,
/// angle snapping, a debounce time and a choice of those.
pub proof fn profile_lines(v: ProfileView)
    ensures
        ({
            let t = v.text();
            let at: int = if v.name@.len() > 0 {
                1
            } else {
                0
            };
            let snaps: int = if v.angle_snapping >= 0 {
                1
            } else {
                0
            };
            let settles: int = if v.debounce >= 0 {
                1
            } else {
                0
            };
            let choice: int = if v.debounces@.len() > 0 {
                1
            } else {
                0
            };
            &&& t.len() == 6 + at + snaps + settles + choice
            &&& t[0] == "Profile "@ + text::decimal(v.index as nat) + ":"@
            &&& at == 1 ==> t[1] == "  Name:           "@ + v.name@
            &&& t[1 + at] == "  Active:         "@ + text::truth(v.active)
            &&& t[2 + at] == "  Enabled:        "@ + text::truth(!v.disabled)
            &&& t[3 + at] == "  Dirty:          "@ + text::truth(v.dirty)
            &&& t[4 + at] == "  Report rate:    "@ + text::decimal(v.rate as nat) + " Hz"@
            &&& v.angle_snapping == 1 ==> t[6 + at] == "  Angle snapping: "@ + "on"@
            &&& v.angle_snapping == 0 ==> t[6 + at] == "  Angle snapping: "@ + "off"@
            &&& settles == 1 ==> t[6 + at + snaps] == "  Debounce:       "@ + text::decimal(
                v.debounce as nat,
            ) + " ms"@
        }),
{
}

/// The lines about an LED, each with its own part of it.
pub proof fn led_lines(v: LedView)
    ensures
        ({
            let t = v.text();
            &&& t.len() == 9
            &&& t[1] == "  Mode:            "@ + lines::mode_title(v.mode)
            &&& t[2] == "  Color:           "@ + lines::color_text(v.color)
            &&& t[3] == "  Secondary color: "@ + lines::color_text(v.secondary_color)
            &&& t[4] == "  Tertiary color:  "@ + lines::color_text(v.tertiary_color)
            &&& t[5] == "  Brightness:      "@ + text::decimal(v.brightness as nat)
            &&& t[6] == "  Duration:        "@ + text::decimal(v.duration as nat) + " ms"@
            &&& t[7] == "  Color depth:     "@ + lines::depth_title(v.color_depth)
        }),
{
}

/// A list is its items with separators between them: one item more adds a
/// separator and itself.
pub proof fn lists_grow(parts: Seq<Seq<char>>, separator: Seq<char>, part: Seq<char>)
    ensures
        text::joined(Seq::empty(), separator, 0) == Seq::<char>::empty(),
        text::joined(seq![part], separator, 1) == part,
        parts.len() > 0 ==> text::joined(parts.push(part), separator, parts.len() + 1)
            == text::joined(parts, separator, parts.len()) + separator + part,
{
    if parts.len() > 0 {
        lemma_joined_prefix(parts, parts.push(part), separator, parts.len());
    }
}

proof fn lemma_joined_prefix(
    a: Seq<Seq<char>>,
    b: Seq<Seq<char>>,
    separator: Seq<char>,
    n: nat,
)
    requires
        n <= a.len() <= b.len(),
        forall|i: int| 0 <= i < n ==> a[i] == b[i],
    ensures
        text::joined(a, separator, n) == text::joined(b, separator, n),
    decreases n,
{
    if n > 1 {
        lemma_joined_prefix(a, b, separator, (n - 1) as nat);
    }
}

/// Events and colors are refused if they are out of range: a key code above 65535,
/// or a direction above 1; of several events the first bad one counts.
pub proof fn event_ranges(e: (u32, u32), events: Seq<(u32, u32)>)
    ensures
        args::event_error(e) is None <==> e.0 <= 65535 && e.1 <= 1,
        e.0 > 65535 ==> args::event_error(e) == Some(RangeError::Keycode { value: e.0 }),
        e.0 <= 65535 && e.1 > 1 ==> args::event_error(e) == Some(
            RangeError::Direction { value: e.1 },
        ),
        args::macro_error(events, 0) is None <==> forall|i: int|
            0 <= i < events.len() ==> (#[trigger] events[i]).0 <= 65535 && events[i].1 <= 1,
{
    lemma_macro_error(events, 0);
}

proof fn lemma_macro_error(events: Seq<(u32, u32)>, k: int)
    requires
        0 <= k,
    ensures
        args::macro_error(events, k) is None <==> forall|i: int|
            k <= i < events.len() ==> (#[trigger] events[i]).0 <= 65535 && events[i].1 <= 1,
    decreases events.len() - k,
{
    if k < events.len() {
        lemma_macro_error(events, k + 1);
        if args::event_error(events[k]) is None {
            assert(events[k].0 <= 65535 && events[k].1 <= 1);
        }
    }
}

/// The first bad event is the one that is told of.
pub proof fn first_bad_event(events: Seq<(u32, u32)>, i: int)
    requires
        0 <= i < events.len(),
        args::event_error(events[i]) is Some,
        forall|j: int| 0 <= j < i ==> (#[trigger] events[j]).0 <= 65535 && events[j].1 <= 1,
    ensures
        args::macro_error(events, 0) == args::event_error(events[i]),
{
    lemma_first_bad(events, 0, i);
}

proof fn lemma_first_bad(events: Seq<(u32, u32)>, k: int, i: int)
    requires
        0 <= k <= i < events.len(),
        args::event_error(events[i]) is Some,
        forall|j: int| 0 <= j < i ==> (#[trigger] events[j]).0 <= 65535 && events[j].1 <= 1,
    ensures
        args::macro_error(events, k) == args::event_error(events[i]),
    decreases i - k,
{
    if k < i {
        assert(events[k].0 <= 65535);
        lemma_first_bad(events, k + 1, i);
    }
}

/// The first argument that is no event is the one that is told of, and there is
/// none if all are events.
pub proof fn bad_arguments(events: Seq<Seq<char>>, i: int)
    requires
        0 <= i <= events.len(),
        forall|j: int| 0 <= j < i ==> args::event_of(#[trigger] events[j]) is Ok,
    ensures
        i == events.len() ==> args::first_bad(events, 0) is None,
        i < events.len() && args::event_of(events[i]) is Err ==> args::first_bad(events, 0) == Some(
            (i, args::event_of(events[i])->Err_0),
        ),
{
    lemma_bad_arguments(events, 0, i);
}

proof fn lemma_bad_arguments(events: Seq<Seq<char>>, k: int, i: int)
    requires
        0 <= k <= i <= events.len(),
        forall|j: int| 0 <= j < i ==> args::event_of(#[trigger] events[j]) is Ok,
    ensures
        i == events.len() ==> args::first_bad(events, k) is None,
        i < events.len() && args::event_of(events[i]) is Err ==> args::first_bad(events, k) == Some(
            (i, args::event_of(events[i])->Err_0),
        ),
    decreases i - k,
{
    if k < i {
        assert(args::event_of(events[k]) is Ok);
        lemma_bad_arguments(events, k + 1, i);
    }
}

/// What values of the bus hold: pairs and triples of numbers, paths, and nothing
/// for other shapes.
pub proof fn bus_values(v: BusValue, f: Vec<BusValue>, a: u32, b: u32, c: u32)
    ensures
        f@ == seq![BusValue::U32(a), BusValue::U32(b)] ==> bus::pair_in(BusValue::Structure(f))
            == Some((a, b)) && bus::triple_in(BusValue::Structure(f)) is None,
        f@ == seq![BusValue::U32(a), BusValue::U32(b), BusValue::U32(c)] ==> bus::triple_in(
            BusValue::Structure(f),
        ) == Some((a, b, c)) && bus::pair_in(BusValue::Structure(f)) is None,
        v matches BusValue::ObjectPath(p) ==> bus::path_in(v) == Some(p@),
        !(v is ObjectPath) ==> bus::path_in(v) is None,
        !(v is Structure) ==> bus::pair_in(v) is None && bus::triple_in(v) is None,
        f@ == seq![BusValue::U32(a), BusValue::U32(b)] ==> bus::mapping_in(BusValue::Structure(f))
            == Ok::<(u32, Seq<char>), BusError>((a, text::decimal(b as nat))),
        f@ == seq![BusValue::U32(a), BusValue::U32(b)] ==> bus::dpi_in(BusValue::Structure(f))
            == Ok::<Seq<char>, BusError>(bus::dpi_text(a, b)),
        v is Bool || v is I32 || v is Text ==> bus::dpi_in(v) == Err::<Seq<char>, BusError>(
            BusError::UnexpectedType,
        ),
{
}

/// A macro is shown as its events with spaces between them.
pub proof fn macro_texts(items: Seq<BusValue>, a: (u32, u32), b: (u32, u32))
    requires
        items.len() == 2,
        bus::pair_in(items[0]) == Some(a),
        bus::pair_in(items[1]) == Some(b),
    ensures
        bus::all_events(items),
        text::joined(bus::event_texts(items), " "@, 2) == bus::event_text(a) + " "@
            + bus::event_text(b),
{
    reveal_with_fuel(text::joined, 3);
}

/// The lines about devices: the version, and one line for each device, with its
/// number, name and model.
pub proof fn device_lists(api: i32, devices: Seq<(String, String)>, i: int)
    ensures
        devices.len() == 0 ==> lines::device_lines(api, devices) =~= seq![
            "No devices found. (API version "@ + text::signed(api as int) + ")"@,
        ],
        devices.len() > 0 ==> lines::device_lines(api, devices).len() == devices.len() + 1
            && lines::device_lines(api, devices)[0] == "API version: "@ + text::signed(api as int),
        0 <= i < devices.len() ==> lines::device_lines(api, devices)[i + 1] == text::decimal(
            i as nat,
        ) + ": "@ + devices[i].0@ + " ("@ + devices[i].1@ + ")"@,
{
}

/// The lines about one device: the firmware version has one only if it is known.
pub proof fn device_details(name: Seq<char>, model: Seq<char>, firmware: Seq<char>, n: nat)
    ensures
        ({
            let t = lines::device_info(name, model, firmware, n);
            &&& t[0] == "Device:    "@ + name
            &&& t[1] == "Model:     "@ + model
            &&& firmware.len() > 0 ==> t.len() == 4 && t[2] == "Firmware:  "@ + firmware
            &&& firmware.len() == 0 ==> t.len() == 3
            &&& t.last() == "Profiles:  "@ + text::decimal(n)
        }),
{
}

/// The lines about buttons, and what they are called in them.
pub proof fn button_lines(index: u32, kind: u32, mapping: Seq<char>, kinds: Seq<u32>)
    ensures
        lines::button_text(index, kind, mapping) == "Button "@ + text::decimal(index as nat)
            + ": type="@ + lines::action_title(kind) + " value="@ + mapping,
        ({
            let t = lines::button_info(index, kind, mapping, kinds);
            &&& t.len() == 4
            &&& t[0] == "Button "@ + text::decimal(index as nat) + ":"@
            &&& t[1] == "  Action type: "@ + lines::action_title(kind) + " ("@ + text::decimal(
                kind as nat,
            ) + ")"@
            &&& t[2] == "  Value:       "@ + mapping
        }),
{
}

/// The line about an LED, in a list and in a profile.
pub proof fn led_summaries(
    index: u32,
    mode: u32,
    color: (u32, u32, u32),
    brightness: u32,
    duration: u32,
)
    ensures
        lines::led_text(index, mode, color, brightness) == "LED "@ + text::decimal(index as nat)
            + ": mode="@ + lines::mode_title(mode) + " color="@ + lines::color_text(color)
            + " brightness="@ + text::decimal(brightness as nat),
        lines::profile_led(index, mode, color, brightness, duration) == "  "@ + lines::led_text(
            index,
            mode,
            color,
            brightness,
        ) + " duration="@ + text::decimal(duration as nat) + "ms"@,
{
}

/// What is said of a name, angle snapping or a debounce time that is not there.
pub proof fn missing_settings(profile: u32, name: Seq<char>, v: i32, list: Seq<u32>)
    ensures
        name.len() > 0 ==> lines::profile_name(profile, name) == name,
        name.len() == 0 ==> lines::profile_name(profile, name) == "Profile "@ + text::decimal(
            profile as nat,
        ) + " has no name set."@,
        v < 0 ==> lines::angle_snapping(v) == "Angle snapping is not supported on this device."@,
        v == 1 ==> lines::angle_snapping(v) == "on"@,
        v == 0 ==> lines::angle_snapping(v) == "off"@,
        v < 0 ==> lines::debounce(v, list) =~= seq!["Debounce is not supported on this device."@],
        v >= 0 ==> lines::debounce(v, list)[0] == "Current: "@ + text::decimal(v as nat) + " ms"@,
        v >= 0 && list.len() == 0 ==> lines::debounce(v, list).len() == 1,
        v >= 0 && list.len() > 0 ==> lines::debounce(v, list).len() == 2,
{
}

/// The line about a resolution in a profile.
pub proof fn profile_resolution_notes(index: u32, dpi: Seq<char>)
    ensures
        ({
            let none = Seq::<u32>::empty();
            let bare = "  Resolution "@ + text::decimal(index as nat) + ": "@ + dpi;
            &&& lines::profile_resolution(index, dpi, false, none) == bare
            &&& lines::profile_resolution(index, dpi, true, none) == bare + " [active]"@
        }),
{
    let none = Seq::<u32>::empty();
    let bare = "  Resolution "@ + text::decimal(index as nat) + ": "@ + dpi;
    assert(lines::profile_resolution(index, dpi, false, none) =~= bare);
    assert(lines::profile_resolution(index, dpi, true, none) =~= bare + " [active]"@);
}

/// A name stands in quotes behind the number of its profile, and lists of names and
/// numbers stand in brackets with commas between their items.
pub proof fn quotes_and_lists(
    index: u32,
    name: Seq<char>,
    rate: u32,
    a: Seq<char>,
    b: Seq<char>,
    m: u32,
    n: u32,
)
    requires
        name.len() > 0,
    ensures
        lines::profile_summary(index, name, rate, false) == "  Profile "@ + text::decimal(
            index as nat,
        ) + " \""@ + name + "\""@ + ": rate="@ + text::decimal(rate as nat) + "Hz"@,
        lines::name_list(seq![a, b]) == "["@ + "\""@ + a + "\""@ + ", "@ + "\""@ + b + "\""@ + "]"@,
        lines::name_list(Seq::empty()) == "["@ + "]"@,
        text::number_list(seq![m, n]) == "["@ + text::decimal(m as nat) + ", "@ + text::decimal(
            n as nat,
        ) + "]"@,
        text::number_list(Seq::empty()) == "["@ + "]"@,
        lines::supported(seq![m]) == " (supported: "@ + text::number_list(seq![m]) + ")"@,
        lines::capabilities(seq![m]) == " caps="@ + text::number_list(seq![m]),
{
    reveal_with_fuel(text::joined, 3);
    assert(lines::profile_summary(index, name, rate, false) =~= "  Profile "@ + text::decimal(
        index as nat,
    ) + " \""@ + name + "\""@ + ": rate="@ + text::decimal(rate as nat) + "Hz"@);
    assert(lines::name_list(seq![a, b]) =~= "["@ + "\""@ + a + "\""@ + ", "@ + "\""@ + b + "\""@
        + "]"@);
    assert(lines::name_list(Seq::empty()) =~= "["@ + "]"@);
    assert(text::number_list(seq![m, n]) =~= "["@ + text::decimal(m as nat) + ", "@ + text::decimal(
        n as nat,
    ) + "]"@);
    assert(text::number_list(Seq::empty()) =~= "["@ + "]"@);
}

} // verus!
