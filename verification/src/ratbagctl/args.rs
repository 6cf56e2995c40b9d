//! Arguments: numbers, devices, colors, modes and macros.

use crate::engine::device::LedMode;
use crate::text;
use vstd::prelude::*;
use vstd::string::*;

verus! {

/// Whether a character is a decimal digit.
pub open spec fn is_digit(c: char) -> bool {
    '0' <= c && c <= '9'
}

/// The number that the first `n` characters stand for, if they are digits.
pub open spec fn digits_value(s: Seq<char>, n: nat) -> nat
    decreases n,
{
    if n == 0 {
        0
    } else {
        (digits_value(s, (n - 1) as nat) * 10 + (s[n - 1] as int - 48)) as nat
    }
}

/// Whether a text is one digit or more.
pub open spec fn all_digits(s: Seq<char>) -> bool {
    s.len() > 0 && forall|i: int| 0 <= i < s.len() ==> is_digit(#[trigger] s[i])
}

/// The digits of a number, which may follow a plus sign.
pub open spec fn without_plus(s: Seq<char>) -> Seq<char> {
    if s.len() > 0 && s[0] == '+' {
        s.subrange(1, s.len() as int)
    } else {
        s
    }
}

/// The number that a text stands for, if it is no larger than `max`.
pub open spec fn number(s: Seq<char>, max: nat) -> Option<nat> {
    let digits = without_plus(s);
    if all_digits(digits) && digits_value(digits, digits.len()) <= max {
        Some(digits_value(digits, digits.len()))
    } else {
        None
    }
}

proof fn lemma_value_grows(s: Seq<char>, m: nat, n: nat)
    requires
        m <= n <= s.len(),
        forall|i: int| 0 <= i < s.len() ==> is_digit(#[trigger] s[i]),
    ensures
        digits_value(s, m) <= digits_value(s, n),
    decreases n,
{
    if m < n {
        lemma_value_grows(s, m, (n - 1) as nat);
        assert(is_digit(s[n - 1]));
    }
}

fn parse_bounded(s: &str, max: u64) -> (r: Option<u64>)
    ensures
        match r {
            Some(v) => number(s@, max as nat) == Some(v as nat),
            None => number(s@, max as nat) is None,
        },
{
    let n: usize = s.unicode_len();
    let start: usize = if n > 0 && s.get_char(0) == '+' {
        1
    } else {
        0
    };
    let ghost digits = without_plus(s@);
    assert(digits =~= s@.subrange(start as int, n as int));
    if start == n {
        return None;
    }
    let mut all = true;
    let mut k: usize = start;
    while k < n
        invariant
            start <= k <= n,
            n == s@.len(),
            digits == s@.subrange(start as int, n as int),
            all == (forall|i: int| 0 <= i < k - start ==> is_digit(#[trigger] digits[i])),
        decreases n - k,
    {
        let c = s.get_char(k);
        assert(digits[k - start] == c);
        if !('0' <= c && c <= '9') {
            all = false;
            assert(!is_digit(digits[k - start]));
        }
        k += 1;
    }
    if !all {
        return None;
    }
    let mut value: u64 = 0;
    let mut i: usize = start;
    while i < n
        invariant
            start <= i <= n,
            n == s@.len(),
            digits == s@.subrange(start as int, n as int),
            digits == without_plus(s@),
            all_digits(digits),
            value == digits_value(digits, (i - start) as nat),
            value <= max,
        decreases n - i,
    {
        let c = s.get_char(i);
        assert(digits[i - start] == c);
        assert(is_digit(digits[i - start]));
        let d: u64 = c as u64 - 48;
        let ghost m = (i - start) as nat;
        assert(digits_value(digits, m + 1) == value * 10 + d);
        if value > (u64::MAX - d) / 10 || value * 10 + d > max {
            proof {
                lemma_value_grows(digits, m + 1, digits.len());
            }
            return None;
        }
        value = value * 10 + d;
        i += 1;
    }
    Some(value)
}

/// The number that a text stands for: digits, with or without a plus sign.
pub fn parse_u32(s: &str) -> (r: Option<u32>)
    ensures
        match r {
            Some(v) => number(s@, u32::MAX as nat) == Some(v as nat),
            None => number(s@, u32::MAX as nat) is None,
        },
{
    match parse_bounded(s, u32::MAX as u64) {
        Some(v) => Some(v as u32),
        None => None,
    }
}

/// The place that a text stands for.
pub fn parse_index(s: &str) -> (r: Option<usize>)
    ensures
        match r {
            Some(v) => number(s@, usize::MAX as nat) == Some(v as nat),
            None => number(s@, usize::MAX as nat) is None,
        },
{
    match parse_bounded(s, usize::MAX as u64) {
        Some(v) => Some(v as usize),
        None => None,
    }
}

proof fn lemma_same_prefix(a: Seq<char>, b: Seq<char>, n: nat)
    requires
        n <= a.len(),
        n <= b.len(),
        forall|i: int| 0 <= i < n ==> a[i] == b[i],
    ensures
        digits_value(a, n) == digits_value(b, n),
    decreases n,
{
    if n > 0 {
        lemma_same_prefix(a, b, (n - 1) as nat);
    }
}

proof fn lemma_decimal_digits(n: nat)
    ensures
        all_digits(text::decimal(n)),
        digits_value(text::decimal(n), text::decimal(n).len()) == n,
    decreases n,
{
    let d = text::decimal(n);
    if n < 10 {
        assert(d =~= seq![(48 + n) as char]);
        assert(digits_value(d, 0) == 0);
        assert(digits_value(d, 1) == n);
    } else {
        lemma_decimal_digits(n / 10);
        let e = text::decimal(n / 10);
        lemma_same_prefix(d, e, e.len());
        assert forall|i: int| 0 <= i < d.len() implies is_digit(#[trigger] d[i]) by {
            if i < e.len() {
                assert(is_digit(e[i]));
            }
        }
        assert(d.len() == e.len() + 1);
        assert(digits_value(d, d.len()) == digits_value(d, e.len()) * 10 + n % 10);
    }
}

/// A number that is written in decimal reads back as it was.
pub proof fn number_round_trip(n: nat, max: nat)
    requires
        n <= max,
    ensures
        number(text::decimal(n), max) == Some(n),
{
    lemma_decimal_digits(n);
    let d = text::decimal(n);
    assert(is_digit(d[0]));
    assert(without_plus(d) == d);
}

/// Whether `part` stands in `s` at `i`.
pub open spec fn stands_at(s: Seq<char>, part: Seq<char>, i: int) -> bool {
    0 <= i && i + part.len() <= s.len() && s.subrange(i, i + part.len()) == part
}

/// Whether `part` stands in `s`.
pub open spec fn occurs(s: Seq<char>, part: Seq<char>) -> bool {
    exists|i: int| stands_at(s, part, i)
}

fn is_at(s: &str, part: &str, i: usize) -> (r: bool)
    requires
        i <= s@.len(),
    ensures
        r == stands_at(s@, part@, i as int),
{
    let n: usize = s.unicode_len();
    let m: usize = part.unicode_len();
    if m > n - i {
        return false;
    }
    let mut k: usize = 0;
    while k < m
        invariant
            k <= m,
            i + m <= n,
            n == s@.len(),
            m == part@.len(),
            forall|j: int| 0 <= j < k ==> s@[i + j] == #[trigger] part@[j],
        decreases m - k,
    {
        if s.get_char(i + k) != part.get_char(k) {
            assert(s@.subrange(i as int, i + m)[k as int] != part@[k as int]);
            return false;
        }
        k += 1;
    }
    assert(s@.subrange(i as int, i + m) =~= part@);
    true
}

/// Whether `i` is the first place at which `part` stands in `s`.
pub open spec fn first_at(s: Seq<char>, part: Seq<char>, i: int) -> bool {
    stands_at(s, part, i) && forall|j: int| 0 <= j < i ==> !stands_at(s, part, j)
}

/// Where `part` stands first in `s`.
pub open spec fn place_of(s: Seq<char>, part: Seq<char>) -> Option<int> {
    if exists|i: int| first_at(s, part, i) {
        Some(choose|i: int| first_at(s, part, i))
    } else {
        None
    }
}

proof fn lemma_place(s: Seq<char>, part: Seq<char>, i: int)
    requires
        first_at(s, part, i),
    ensures
        place_of(s, part) == Some(i),
{
    let k = choose|k: int| first_at(s, part, k);
    assert(first_at(s, part, k));
    if k < i {
        assert(!stands_at(s, part, k));
    } else if i < k {
        assert(!stands_at(s, part, i));
    }
}

fn find(s: &str, part: &str) -> (r: Option<usize>)
    ensures
        match r {
            Some(i) => place_of(s@, part@) == Some(i as int) && i <= s@.len() && occurs(s@, part@),
            None => place_of(s@, part@) is None && !occurs(s@, part@),
        },
{
    let n: usize = s.unicode_len();
    let mut i: usize = 0;
    loop
        invariant
            i <= n,
            n == s@.len(),
            forall|j: int| 0 <= j < i ==> !stands_at(s@, part@, j),
        decreases n - i,
    {
        if is_at(s, part, i) {
            proof {
                lemma_place(s@, part@, i as int);
            }
            return Some(i);
        }
        if i == n {
            assert forall|j: int| !stands_at(s@, part@, j) by {
                if 0 <= j < i {
                } else if j == i {
                } else {
                }
            }
            return None;
        }
        i += 1;
    }
}

/// The path of a device, given the path of one of its parts: what stands
/// before the first `/p`.
pub open spec fn device_path(child: Seq<char>) -> Seq<char> {
    match place_of(child, "/p"@) {
        Some(i) => child.subrange(0, i),
        None => child,
    }
}

/// The path of a device, given the path of one of its parts.
pub fn device_path_from_child(child_path: &str) -> (r: &str)
    ensures
        r@ == device_path(child_path@),
{
    match find(child_path, "/p") {
        Some(i) => child_path.substring_char(0, i),
        None => child_path,
    }
}

/// The path of a part of a profile.
pub open spec fn part_path(device: Seq<char>, profile: u32, part: Option<(Seq<char>, u32)>) -> Seq<
    char,
> {
    let base = device + "/p"@ + text::decimal(profile as nat);
    match part {
        Some((letter, index)) => base + "/"@ + letter + text::decimal(index as nat),
        None => base,
    }
}

fn path_of_part(device: &str, profile: u32, letter: &str, index: u32) -> (r: String)
    ensures
        r@ == part_path(device@, profile, Some((letter@, index))),
{
    let mut s: String = device.to_owned();
    s.append("/p");
    text::push_decimal(&mut s, profile as u64);
    s.append("/");
    s.append(letter);
    text::push_decimal(&mut s, index as u64);
    s
}

/// The path of a profile.
pub fn profile_path(device: &str, profile: u32) -> (r: String)
    ensures
        r@ == part_path(device@, profile, None),
{
    let mut s: String = device.to_owned();
    s.append("/p");
    text::push_decimal(&mut s, profile as u64);
    s
}

/// The path of a resolution.
pub fn resolution_path(device: &str, profile: u32, resolution: u32) -> (r: String)
    ensures
        r@ == part_path(device@, profile, Some(("r"@, resolution))),
{
    path_of_part(device, profile, "r", resolution)
}

/// The path of a button.
pub fn button_path(device: &str, profile: u32, button: u32) -> (r: String)
    ensures
        r@ == part_path(device@, profile, Some(("b"@, button))),
{
    path_of_part(device, profile, "b", button)
}

/// The path of an LED.
pub fn led_path(device: &str, profile: u32, led: u32) -> (r: String)
    ensures
        r@ == part_path(device@, profile, Some(("l"@, led))),
{
    path_of_part(device, profile, "l", led)
}

/// The path of a part leads back to the device, as long as the path of the
/// device holds no `/p` itself.
pub proof fn child_path_leads_back(device: Seq<char>, profile: u32, part: Option<(Seq<char>, u32)>)
    requires
        !occurs(device, "/p"@),
    ensures
        device_path(part_path(device, profile, part)) == device,
{
    reveal_strlit("/p");
    let child = part_path(device, profile, part);
    let n = device.len() as int;
    assert("/p"@ =~= seq!['/', 'p']);
    assert(child.subrange(n, n + 2) =~= "/p"@);
    assert(stands_at(child, "/p"@, n));
    assert forall|j: int| 0 <= j < n implies !stands_at(child, "/p"@, j) by {
        if stands_at(child, "/p"@, j) {
            assert(child.subrange(j, j + 2)[1] == 'p');
            if j + 1 == n {
                assert(child[n] == '/');
            } else {
                assert(device.subrange(j, j + 2) =~= child.subrange(j, j + 2));
                assert(stands_at(device, "/p"@, j));
            }
        }
    }
    lemma_place(child, "/p"@, n);
    assert(child.subrange(0, n) =~= device);
}

/// Why a device cannot be found.
#[derive(Debug, Clone, Copy, PartialEq, Eq, Structural)]
pub enum ResolveError {
    NoDevices,
    OutOfRange { index: usize, count: usize },
    NoMatch,
}

/// The first device from `i` on whose path holds a text.
pub open spec fn matching(devices: Seq<Seq<char>>, spec: Seq<char>, i: int) -> Option<int>
    decreases devices.len() - i,
{
    if i < 0 || i >= devices.len() {
        None
    } else if occurs(devices[i], spec) {
        Some(i)
    } else {
        matching(devices, spec, i + 1)
    }
}

/// The device that a text stands for: a place in the list, or else a part of a
/// path.
pub open spec fn resolved(devices: Seq<Seq<char>>, spec: Seq<char>) -> Result<int, ResolveError> {
    if devices.len() == 0 {
        Err(ResolveError::NoDevices)
    } else {
        match number(spec, usize::MAX as nat) {
            Some(i) => if i < devices.len() {
                Ok(i as int)
            } else {
                Err(
                    ResolveError::OutOfRange {
                        index: i as usize,
                        count: devices.len() as usize,
                    },
                )
            },
            None => match matching(devices, spec, 0) {
                Some(i) => Ok(i),
                None => Err(ResolveError::NoMatch),
            },
        }
    }
}

/// Finds the device that a text stands for, and gives its place in the list.
pub fn resolve_device(devices: &Vec<String>, spec: &str) -> (r: Result<usize, ResolveError>)
    ensures
        match r {
            Ok(i) => i < devices@.len() && resolved(text::strings_view(devices@), spec@) == Ok::<
                int,
                ResolveError,
            >(i as int),
            Err(e) => resolved(text::strings_view(devices@), spec@) == Err::<int, ResolveError>(e),
        },
{
    let ghost paths = text::strings_view(devices@);
    if devices.len() == 0 {
        return Err(ResolveError::NoDevices);
    }
    if let Some(i) = parse_index(spec) {
        return if i < devices.len() {
            Ok(i)
        } else {
            Err(ResolveError::OutOfRange { index: i, count: devices.len() })
        };
    }
    let mut i: usize = 0;
    while i < devices.len()
        invariant
            i <= devices@.len(),
            devices@.len() > 0,
            paths == text::strings_view(devices@),
            number(spec@, usize::MAX as nat) is None,
            matching(paths, spec@, 0) == matching(paths, spec@, i as int),
        decreases devices@.len() - i,
    {
        assert(paths[i as int] == devices@[i as int]@);
        if find(devices[i].as_str(), spec).is_some() {
            return Ok(i);
        }
        i += 1;
    }
    Err(ResolveError::NoMatch)
}

/// The place of a device in the list stands for that device, whatever the
/// paths.
pub proof fn place_resolves_to_device(devices: Seq<Seq<char>>, i: nat)
    requires
        i < devices.len() <= usize::MAX,
    ensures
        resolved(devices, text::decimal(i)) == Ok::<int, ResolveError>(i as int),
{
    number_round_trip(i, usize::MAX as nat);
}

/// Why a color cannot be read.
#[derive(Debug, Clone, Copy, PartialEq, Eq, Structural)]
pub enum ColorError {
    Length,
    Red,
    Green,
    Blue,
}

/// What a byte stands for as a hexadecimal digit.
pub open spec fn hex_value(b: u8) -> Option<u32> {
    if 48 <= b <= 57 {
        Some((b - 48) as u32)
    } else if 97 <= b <= 102 {
        Some((b - 87) as u32)
    } else if 65 <= b <= 70 {
        Some((b - 55) as u32)
    } else {
        None
    }
}

/// What two bytes stand for: two hexadecimal digits, or a plus sign and one.
pub open spec fn hex_pair(a: u8, b: u8) -> Option<u32> {
    match (hex_value(a), hex_value(b)) {
        (Some(x), Some(y)) => Some((x * 16 + y) as u32),
        (None, Some(y)) if a == 43 => Some(y),
        _ => None,
    }
}

/// The bytes of a color without the sign `#` that may stand before them.
pub open spec fn without_sign(b: Seq<u8>) -> Seq<u8> {
    if b.len() > 0 && b[0] == 35 {
        b.subrange(1, b.len() as int)
    } else {
        b
    }
}

/// Whether a character begins with a byte.
pub open spec fn begins_char(b: u8) -> bool {
    b < 128 || b >= 192
}

/// The color that six bytes stand for.
pub open spec fn color_of(b: Seq<u8>) -> Result<(u32, u32, u32), ColorError> {
    let s = without_sign(b);
    if s.len() != 6 {
        Err(ColorError::Length)
    } else {
        match (hex_pair(s[0], s[1]), hex_pair(s[2], s[3]), hex_pair(s[4], s[5])) {
            (Some(red), Some(green), Some(blue)) => Ok((red, green, blue)),
            (None, _, _) => Err(ColorError::Red),
            (_, None, _) => Err(ColorError::Green),
            (_, _, None) => Err(ColorError::Blue),
        }
    }
}

fn read_hex(b: u8) -> (r: Option<u32>)
    ensures
        r == hex_value(b),
{
    if 48 <= b && b <= 57 {
        Some(b as u32 - 48)
    } else if 97 <= b && b <= 102 {
        Some(b as u32 - 87)
    } else if 65 <= b && b <= 70 {
        Some(b as u32 - 55)
    } else {
        None
    }
}

fn read_pair(a: u8, b: u8) -> (r: Option<u32>)
    ensures
        r == hex_pair(a, b),
{
    match (read_hex(a), read_hex(b)) {
        (Some(x), Some(y)) => Some(x * 16 + y),
        (None, Some(y)) => if a == 43 {
            Some(y)
        } else {
            None
        },
        _ => None,
    }
}

/// The color that a text stands for: six hexadecimal digits, which may follow
/// the sign `#`. The digits of each component have to begin with a character.
pub fn parse_hex_color(s: &str) -> (r: Result<(u32, u32, u32), ColorError>)
    requires
        ({
            let b = without_sign(s.spec_bytes());
            b.len() == 6 ==> begins_char(b[2]) && begins_char(b[4])
        }),
    ensures
        r == color_of(s.spec_bytes()),
{
    let b = s.as_bytes();
    let start: usize = if b.len() > 0 && b[0] == 35 {
        1
    } else {
        0
    };
    let ghost rest = without_sign(b@);
    assert(rest =~= b@.subrange(start as int, b@.len() as int));
    if b.len() - start != 6 {
        return Err(ColorError::Length);
    }
    let red: u32 = match read_pair(b[start], b[start + 1]) {
        Some(v) => v,
        None => {
            return Err(ColorError::Red);
        },
    };
    let green: u32 = match read_pair(b[start + 2], b[start + 3]) {
        Some(v) => v,
        None => {
            return Err(ColorError::Green);
        },
    };
    let blue: u32 = match read_pair(b[start + 4], b[start + 5]) {
        Some(v) => v,
        None => {
            return Err(ColorError::Blue);
        },
    };
    Ok((red, green, blue))
}

/// Every color that can be read can be set.
pub proof fn read_color_is_in_range(b: Seq<u8>)
    requires
        color_of(b) is Ok,
    ensures
        color_of(b) matches Ok(c) && c.0 <= 255 && c.1 <= 255 && c.2 <= 255,
{
}

/// The component of a color that is out of range, and its value.
#[derive(Debug, Clone, Copy, PartialEq, Eq, Structural)]
pub enum RangeError {
    Red { value: u32 },
    Green { value: u32 },
    Blue { value: u32 },
    Brightness { value: u32 },
    Keycode { value: u32 },
    Direction { value: u32 },
}

/// Checks that the components of a color are bytes.
pub fn validate_rgb(r: u32, g: u32, b: u32) -> (res: Result<(), RangeError>)
    ensures
        res == if r > 255 {
            Err::<(), RangeError>(RangeError::Red { value: r })
        } else if g > 255 {
            Err::<(), RangeError>(RangeError::Green { value: g })
        } else if b > 255 {
            Err::<(), RangeError>(RangeError::Blue { value: b })
        } else {
            Ok::<(), RangeError>(())
        },
{
    if r > 255 {
        Err(RangeError::Red { value: r })
    } else if g > 255 {
        Err(RangeError::Green { value: g })
    } else if b > 255 {
        Err(RangeError::Blue { value: b })
    } else {
        Ok(())
    }
}

/// Checks that a brightness is a byte.
pub fn validate_brightness(brightness: u32) -> (r: Result<(), RangeError>)
    ensures
        r == if brightness > 255 {
            Err::<(), RangeError>(RangeError::Brightness { value: brightness })
        } else {
            Ok::<(), RangeError>(())
        },
{
    if brightness > 255 {
        Err(RangeError::Brightness { value: brightness })
    } else {
        Ok(())
    }
}

/// What is wrong with an event of a macro.
pub open spec fn event_error(e: (u32, u32)) -> Option<RangeError> {
    if e.0 > 65535 {
        Some(RangeError::Keycode { value: e.0 })
    } else if e.1 > 1 {
        Some(RangeError::Direction { value: e.1 })
    } else {
        None
    }
}

/// What is wrong with the first bad event from `i` on.
pub open spec fn macro_error(events: Seq<(u32, u32)>, i: int) -> Option<RangeError>
    decreases events.len() - i,
{
    if i < 0 || i >= events.len() {
        None
    } else if event_error(events[i]) is Some {
        event_error(events[i])
    } else {
        macro_error(events, i + 1)
    }
}

/// Checks that the events of a macro are keys that are pressed or released.
pub fn validate_macro(events: &Vec<(u32, u32)>) -> (r: Result<(), RangeError>)
    ensures
        match r {
            Ok(_) => macro_error(events@, 0) is None,
            Err(e) => macro_error(events@, 0) == Some(e),
        },
{
    let mut i: usize = 0;
    while i < events.len()
        invariant
            i <= events@.len(),
            macro_error(events@, 0) == macro_error(events@, i as int),
        decreases events@.len() - i,
    {
        let (keycode, direction) = events[i];
        if keycode > 65535 {
            return Err(RangeError::Keycode { value: keycode });
        }
        if direction > 1 {
            return Err(RangeError::Direction { value: direction });
        }
        i += 1;
    }
    Ok(())
}

/// Why an event of a macro cannot be read.
#[derive(Debug, Clone, Copy, PartialEq, Eq, Structural)]
pub enum EventError {
    Format,
    Keycode,
    Direction,
    DirectionRange { direction: u32 },
}

/// How many of the first `n` characters are colons.
pub open spec fn colons(s: Seq<char>, n: nat) -> nat
    decreases n,
{
    if n == 0 {
        0
    } else {
        colons(s, (n - 1) as nat) + if s[n - 1] == ':' {
            1nat
        } else {
            0nat
        }
    }
}

/// Where the first colon from `i` on stands, or else the end.
pub open spec fn colon_from(s: Seq<char>, i: int) -> int
    decreases s.len() - i,
{
    if i < 0 || i >= s.len() {
        s.len() as int
    } else if s[i] == ':' {
        i
    } else {
        colon_from(s, i + 1)
    }
}

/// The event that a text stands for: a key, a colon, and 1 where it is pressed
/// or 0 where it is released.
pub open spec fn event_of(s: Seq<char>) -> Result<(u32, u32), EventError> {
    let at = colon_from(s, 0);
    if colons(s, s.len()) != 1 {
        Err(EventError::Format)
    } else {
        match number(s.subrange(0, at), u32::MAX as nat) {
            None => Err(EventError::Keycode),
            Some(keycode) => match number(s.subrange(at + 1, s.len() as int), u32::MAX as nat) {
                None => Err(EventError::Direction),
                Some(direction) => if direction > 1 {
                    Err(EventError::DirectionRange { direction: direction as u32 })
                } else {
                    Ok((keycode as u32, direction as u32))
                },
            },
        }
    }
}

fn parse_event(s: &str) -> (r: Result<(u32, u32), EventError>)
    ensures
        r == event_of(s@),
{
    let n: usize = s.unicode_len();
    let mut count: usize = 0;
    let mut at: usize = 0;
    let mut i: usize = 0;
    while i < n
        invariant
            i <= n,
            n == s@.len(),
            count <= i,
            count == colons(s@, i as nat),
            count == 0 ==> colon_from(s@, 0) == colon_from(s@, i as int),
            count > 0 ==> at < i && colon_from(s@, 0) == at,
        decreases n - i,
    {
        if s.get_char(i) == ':' {
            if count == 0 {
                at = i;
            }
            count += 1;
        }
        i += 1;
    }
    if count != 1 {
        return Err(EventError::Format);
    }
    let keycode: u32 = match parse_u32(s.substring_char(0, at)) {
        Some(v) => v,
        None => {
            return Err(EventError::Keycode);
        },
    };
    let direction: u32 = match parse_u32(s.substring_char(at + 1, n)) {
        Some(v) => v,
        None => {
            return Err(EventError::Direction);
        },
    };
    if direction > 1 {
        return Err(EventError::DirectionRange { direction });
    }
    Ok((keycode, direction))
}

/// The first event from `i` on that cannot be read, and why.
pub open spec fn first_bad(events: Seq<Seq<char>>, i: int) -> Option<(int, EventError)>
    decreases events.len() - i,
{
    if i < 0 || i >= events.len() {
        None
    } else {
        match event_of(events[i]) {
            Err(e) => Some((i, e)),
            Ok(_) => first_bad(events, i + 1),
        }
    }
}

/// Reads the events of a macro. The error names the first event that cannot be
/// read.
pub fn parse_macro_events(events: &Vec<String>) -> (r: Result<
    Vec<(u32, u32)>,
    (usize, EventError),
>)
    ensures
        match r {
            Ok(v) => first_bad(text::strings_view(events@), 0) is None && v@.len() == events@.len()
                && forall|i: int|
                0 <= i < v@.len() ==> event_of((#[trigger] events@[i])@) == Ok::<
                    (u32, u32),
                    EventError,
                >(v@[i]),
            Err(e) => first_bad(text::strings_view(events@), 0) == Some((e.0 as int, e.1)),
        },
{
    let ghost texts = text::strings_view(events@);
    let mut v: Vec<(u32, u32)> = Vec::new();
    let mut i: usize = 0;
    while i < events.len()
        invariant
            i <= events@.len(),
            texts == text::strings_view(events@),
            v@.len() == i,
            first_bad(texts, 0) == first_bad(texts, i as int),
            forall|k: int|
                0 <= k < i ==> event_of((#[trigger] events@[k])@) == Ok::<(u32, u32), EventError>(
                    v@[k],
                ),
        decreases events@.len() - i,
    {
        assert(texts[i as int] == events@[i as int]@);
        match parse_event(events[i].as_str()) {
            Ok(e) => {
                v.push(e);
            },
            Err(e) => {
                return Err((i, e));
            },
        }
        i += 1;
    }
    Ok(v)
}

/// An event that is written as a key, a colon and a direction reads back as it
/// was.
pub proof fn event_round_trip(keycode: u32, direction: u32)
    requires
        direction <= 1,
    ensures
        event_of(
            text::decimal(keycode as nat) + seq![':'] + text::decimal(direction as nat),
        ) == Ok::<(u32, u32), EventError>((keycode, direction)),
{
    let a = text::decimal(keycode as nat);
    let b = text::decimal(direction as nat);
    let s = a + seq![':'] + b;
    let n = a.len();
    number_round_trip(keycode as nat, u32::MAX as nat);
    number_round_trip(direction as nat, u32::MAX as nat);
    lemma_decimal_digits(keycode as nat);
    lemma_decimal_digits(direction as nat);
    lemma_digits_hold_no_colon(s, 0, n, a);
    assert(s[n as int] == ':');
    assert(colon_from(s, n as int) == n);
    assert(colons(s, n + 1) == 1);
    lemma_tail_holds_no_colon(s, n + 1, s.len(), b);
    assert(s.subrange(0, n as int) =~= a);
    assert(s.subrange((n + 1) as int, s.len() as int) =~= b);
}

proof fn lemma_digits_hold_no_colon(s: Seq<char>, i: int, n: nat, a: Seq<char>)
    requires
        0 <= i <= n <= s.len(),
        n == a.len(),
        all_digits(a),
        colons(s, i as nat) == 0,
        forall|k: int| 0 <= k < n ==> s[k] == #[trigger] a[k],
    ensures
        colons(s, n) == 0,
        colon_from(s, i) == colon_from(s, n as int),
    decreases n - i,
{
    if i < n {
        assert(is_digit(a[i]));
        lemma_digits_hold_no_colon(s, i + 1, n, a);
    }
}

proof fn lemma_tail_holds_no_colon(s: Seq<char>, m: nat, n: nat, b: Seq<char>)
    requires
        m <= n <= s.len(),
        s.len() == m + b.len(),
        all_digits(b),
        forall|k: int| 0 <= k < b.len() ==> s[m + k] == #[trigger] b[k],
    ensures
        colons(s, n) == colons(s, m),
    decreases n,
{
    if m < n {
        lemma_tail_holds_no_colon(s, m, (n - 1) as nat, b);
        assert(is_digit(b[n - 1 - m]));
        assert(s[m + (n - 1 - m)] == b[n - 1 - m]);
    }
}

/// The LED mode that a text in small letters names.
pub open spec fn mode_named(s: Seq<char>) -> Option<LedMode> {
    if s == "off"@ {
        Some(LedMode::Off)
    } else if s == "solid"@ {
        Some(LedMode::Solid)
    } else if s == "cycle"@ {
        Some(LedMode::Cycle)
    } else if s == "wave"@ || s == "colorwave"@ || s == "color-wave"@ {
        Some(LedMode::ColorWave)
    } else if s == "starlight"@ {
        Some(LedMode::Starlight)
    } else if s == "breathing"@ || s == "breathe"@ {
        Some(LedMode::Breathing)
    } else if s == "tricolor"@ || s == "tri-color"@ {
        Some(LedMode::TriColor)
    } else {
        None
    }
}

/// The DBus number of an LED mode, if there is a mode.
pub open spec fn mode_code(mode: Option<LedMode>) -> Option<u32> {
    match mode {
        Some(m) => Some(m.code()),
        None => None,
    }
}

/// The LED mode that a text in small letters names.
pub fn led_mode_from_lowercase(s: &str) -> (r: Option<LedMode>)
    ensures
        r == mode_named(s@),
{
    if text::str_eq(s, "off") {
        Some(LedMode::Off)
    } else if text::str_eq(s, "solid") {
        Some(LedMode::Solid)
    } else if text::str_eq(s, "cycle") {
        Some(LedMode::Cycle)
    } else if text::str_eq(s, "wave") || text::str_eq(s, "colorwave") || text::str_eq(
        s,
        "color-wave",
    ) {
        Some(LedMode::ColorWave)
    } else if text::str_eq(s, "starlight") {
        Some(LedMode::Starlight)
    } else if text::str_eq(s, "breathing") || text::str_eq(s, "breathe") {
        Some(LedMode::Breathing)
    } else if text::str_eq(s, "tricolor") || text::str_eq(s, "tri-color") {
        Some(LedMode::TriColor)
    } else {
        None
    }
}

/// The DBus number of the LED mode that a text names, whatever the case of its
/// letters.
pub fn parse_led_mode(s: &str) -> (r: Option<u32>)
    ensures
        r == mode_code(mode_named(text::lower(s@))),
{
    let small = text::to_lowercase(s);
    match led_mode_from_lowercase(small.as_str()) {
        Some(mode) => Some(mode.to_u32()),
        None => None,
    }
}

/// Whether a text in small letters means on or off.
pub open spec fn switch_named(s: Seq<char>) -> Option<bool> {
    if s == "on"@ || s == "1"@ || s == "true"@ || s == "yes"@ {
        Some(true)
    } else if s == "off"@ || s == "0"@ || s == "false"@ || s == "no"@ {
        Some(false)
    } else {
        None
    }
}

/// Whether a text in small letters means on or off.
pub fn switch_from_lowercase(s: &str) -> (r: Option<bool>)
    ensures
        r == switch_named(s@),
{
    if text::str_eq(s, "on") || text::str_eq(s, "1") || text::str_eq(s, "true") || text::str_eq(
        s,
        "yes",
    ) {
        Some(true)
    } else if text::str_eq(s, "off") || text::str_eq(s, "0") || text::str_eq(s, "false")
        || text::str_eq(s, "no") {
        Some(false)
    } else {
        None
    }
}

/// Whether a text means on or off, whatever the case of its letters.
pub fn parse_switch(s: &str) -> (r: Option<bool>)
    ensures
        r == switch_named(text::lower(s@)),
{
    let small = text::to_lowercase(s);
    switch_from_lowercase(small.as_str())
}

} // verus!
