//! Strings as the rest of the library needs them: comparison, number parsing
//! and the few renderings that appear in device names and messages.

use vstd::prelude::*;
use vstd::string::*;

verus! {

/// The lowercase form of a string, as Unicode defines it.
pub uninterp spec fn lowercase(s: Seq<char>) -> Seq<char>;

/// The uppercase form of a string, as Unicode defines it.
pub uninterp spec fn uppercase(s: Seq<char>) -> Seq<char>;

/// The text that a byte string holds once every ill-formed part of it has been
/// replaced by U+FFFD.
pub uninterp spec fn lossy_utf8(bytes: Seq<u8>) -> Seq<char>;

/// The lowercase form of one ASCII character.
pub open spec fn ascii_lower(c: char) -> char {
    if 'A' <= c && c <= 'Z' {
        ((c as u32) + 32) as char
    } else {
        c
    }
}

/// The uppercase form of one ASCII character.
pub open spec fn ascii_upper(c: char) -> char {
    if 'a' <= c && c <= 'z' {
        ((c as u32) - 32) as char
    } else {
        c
    }
}

/// Whether every character of `s` is ASCII.
pub open spec fn all_ascii(s: Seq<char>) -> bool {
    forall|i: int| 0 <= i < s.len() ==> (#[trigger] s[i] as u32) < 128
}

/// A string with each of `A` to `Z` replaced by its small letter.
pub open spec fn small(s: Seq<char>) -> Seq<char> {
    s.map_values(|c: char| ascii_lower(c))
}

/// The lowercase form of a string: for an ASCII string, `A` to `Z` made small.
pub open spec fn lower(s: Seq<char>) -> Seq<char> {
    if all_ascii(s) {
        small(s)
    } else {
        lowercase(s)
    }
}

/// A string with each of `a` to `z` replaced by its capital letter.
pub open spec fn capital(s: Seq<char>) -> Seq<char> {
    s.map_values(|c: char| ascii_upper(c))
}

/// The uppercase form of a string: for an ASCII string, `a` to `z` made capital.
pub open spec fn upper(s: Seq<char>) -> Seq<char> {
    if all_ascii(s) {
        capital(s)
    } else {
        uppercase(s)
    }
}

/// Whether every byte of `s` is ASCII.
pub open spec fn ascii_bytes(s: Seq<u8>) -> bool {
    forall|i: int| 0 <= i < s.len() ==> #[trigger] s[i] < 128
}

/// ASCII bytes as characters.
pub open spec fn bytes_text(s: Seq<u8>) -> Seq<char> {
    s.map_values(|b: u8| b as char)
}

/// The text that a byte string holds: for ASCII bytes, the bytes as characters.
pub open spec fn decoded(s: Seq<u8>) -> Seq<char> {
    if ascii_bytes(s) {
        bytes_text(s)
    } else {
        lossy_utf8(s)
    }
}

/// Whether a character has the Unicode property White_Space.
pub open spec fn whitespace(c: char) -> bool {
    let v = c as u32;
    ||| 0x9 <= v <= 0xD
    ||| v == 0x20
    ||| v == 0x85
    ||| v == 0xA0
    ||| v == 0x1680
    ||| 0x2000 <= v <= 0x200A
    ||| v == 0x2028
    ||| v == 0x2029
    ||| v == 0x202F
    ||| v == 0x205F
    ||| v == 0x3000
}

/// Calls `str::to_lowercase`. The result depends on the string alone; for an
/// ASCII string it is the string with each of `A` to `Z` replaced by its
/// small letter.
#[verifier::external_body]
pub(crate) fn to_lowercase(s: &str) -> (r: String)
    ensures
        r@ == lowercase(s@),
        all_ascii(s@) ==> r@ == small(s@),
{
    s.to_lowercase()
}

/// Calls `str::to_uppercase`. The result depends on the string alone; for an
/// ASCII string it is the string with each of `a` to `z` replaced by its
/// capital letter.
#[verifier::external_body]
pub(crate) fn to_uppercase(s: &str) -> (r: String)
    ensures
        r@ == uppercase(s@),
        all_ascii(s@) ==> r@ == capital(s@),
{
    s.to_uppercase()
}

/// Whether a character has the Unicode property White_Space.
pub(crate) fn is_whitespace(c: char) -> (r: bool)
    ensures
        r == whitespace(c),
{
    let v: u32 = c as u32;
    (0x9 <= v && v <= 0xD) || v == 0x20 || v == 0x85 || v == 0xA0 || v == 0x1680 || (0x2000 <= v
        && v <= 0x200A) || v == 0x2028 || v == 0x2029 || v == 0x202F || v == 0x205F || v == 0x3000
}

/// Calls `String::from_utf8_lossy`. The result depends on the bytes alone; for
/// ASCII bytes it is those bytes as characters.
#[verifier::external_body]
pub(crate) fn from_utf8_lossy(bytes: &[u8]) -> (r: String)
    ensures
        r@ == lossy_utf8(bytes@),
        ascii_bytes(bytes@) ==> r@ == bytes_text(bytes@),
{
    String::from_utf8_lossy(bytes).into_owned()
}

/// The contents of a list of strings.
pub open spec fn strings_view(s: Seq<String>) -> Seq<Seq<char>> {
    s.map_values(|t: String| t@)
}

/// Whether two strings hold the same characters.
pub fn str_eq(a: &str, b: &str) -> (r: bool)
    ensures
        r == (a@ == b@),
{
    a.to_owned() == b.to_owned()
}

/// The character for a hexadecimal digit below 16, with small letters.
pub open spec fn hex_digit(d: int) -> char {
    if d < 10 {
        (48 + d) as char
    } else {
        (87 + d) as char
    }
}

/// Two hexadecimal digits.
pub open spec fn hex2(v: int) -> Seq<char> {
    seq![hex_digit(v / 16 % 16), hex_digit(v % 16)]
}

/// The character for a hexadecimal digit below 16, with capital letters.
pub open spec fn upper_hex_digit(d: int) -> char {
    if d < 10 {
        (48 + d) as char
    } else {
        (55 + d) as char
    }
}

/// Two hexadecimal digits with capital letters.
pub open spec fn upper_hex2(v: int) -> Seq<char> {
    seq![upper_hex_digit(v / 16 % 16), upper_hex_digit(v % 16)]
}

/// Four hexadecimal digits.
pub open spec fn hex4(v: int) -> Seq<char> {
    seq![
        hex_digit(v / 4096 % 16),
        hex_digit(v / 256 % 16),
        hex_digit(v / 16 % 16),
        hex_digit(v % 16),
    ]
}

/// The decimal digits of a number.
pub open spec fn decimal(n: nat) -> Seq<char>
    decreases n,
{
    if n < 10 {
        seq![(48 + n) as char]
    } else {
        decimal(n / 10).push((48 + n % 10) as char)
    }
}

/// A string that holds one hexadecimal digit.
pub(crate) fn digit_str(d: u8) -> (r: &'static str)
    requires
        d < 16,
    ensures
        r@ == seq![hex_digit(d as int)],
{
    proof {
        reveal_strlit("0");
        reveal_strlit("1");
        reveal_strlit("2");
        reveal_strlit("3");
        reveal_strlit("4");
        reveal_strlit("5");
        reveal_strlit("6");
        reveal_strlit("7");
        reveal_strlit("8");
        reveal_strlit("9");
        reveal_strlit("a");
        reveal_strlit("b");
        reveal_strlit("c");
        reveal_strlit("d");
        reveal_strlit("e");
        reveal_strlit("f");
    }
    let r = match d {
        0 => "0",
        1 => "1",
        2 => "2",
        3 => "3",
        4 => "4",
        5 => "5",
        6 => "6",
        7 => "7",
        8 => "8",
        9 => "9",
        10 => "a",
        11 => "b",
        12 => "c",
        13 => "d",
        14 => "e",
        _ => "f",
    };
    assert(r@ =~= seq![hex_digit(d as int)]);
    r
}

/// Appends a byte as two hexadecimal digits.
pub(crate) fn push_hex2(s: &mut String, v: u8)
    ensures
        final(s)@ == old(s)@ + hex2(v as int),
{
    s.append(digit_str(v / 16));
    s.append(digit_str(v % 16));
    assert(s@ =~= old(s)@ + hex2(v as int));
}

fn upper_digit_str(d: u8) -> (r: &'static str)
    requires
        d < 16,
    ensures
        r@ == seq![upper_hex_digit(d as int)],
{
    proof {
        reveal_strlit("A");
        reveal_strlit("B");
        reveal_strlit("C");
        reveal_strlit("D");
        reveal_strlit("E");
        reveal_strlit("F");
    }
    let r = match d {
        10 => "A",
        11 => "B",
        12 => "C",
        13 => "D",
        14 => "E",
        15 => "F",
        _ => digit_str(d),
    };
    assert(r@ =~= seq![upper_hex_digit(d as int)]);
    r
}

/// Appends a byte as two hexadecimal digits with capital letters.
pub(crate) fn push_upper_hex2(s: &mut String, v: u8)
    ensures
        final(s)@ == old(s)@ + upper_hex2(v as int),
{
    s.append(upper_digit_str(v / 16));
    s.append(upper_digit_str(v % 16));
    assert(s@ =~= old(s)@ + upper_hex2(v as int));
}

/// Appends a number as four hexadecimal digits.
pub(crate) fn push_hex4(s: &mut String, v: u16)
    ensures
        final(s)@ == old(s)@ + hex4(v as int),
{
    s.append(digit_str((v / 4096) as u8));
    s.append(digit_str((v / 256 % 16) as u8));
    s.append(digit_str((v / 16 % 16) as u8));
    s.append(digit_str((v % 16) as u8));
    assert(s@ =~= old(s)@ + hex4(v as int));
}

/// Appends a number in decimal.
pub(crate) fn push_decimal(s: &mut String, v: u64)
    ensures
        final(s)@ == old(s)@ + decimal(v as nat),
    decreases v,
{
    if v >= 10 {
        push_decimal(s, v / 10);
    }
    s.append(digit_str((v % 10) as u8));
    assert(s@ =~= old(s)@ + decimal(v as nat));
}

/// Whether two strings are equal once their ASCII letters are made small.
pub open spec fn same_ignoring_case(a: Seq<char>, b: Seq<char>) -> bool {
    a.len() == b.len() && forall|i: int|
        0 <= i < a.len() ==> ascii_lower(#[trigger] a[i]) == ascii_lower(b[i])
}

fn small_letter(c: char) -> (r: u32)
    ensures
        r == ascii_lower(c) as u32,
{
    if 'A' <= c && c <= 'Z' {
        c as u32 + 32
    } else {
        c as u32
    }
}

/// Whether two strings are equal once their ASCII letters are made small.
pub(crate) fn eq_ignore_case(a: &str, b: &str) -> (r: bool)
    ensures
        r == same_ignoring_case(a@, b@),
{
    let n: usize = a.unicode_len();
    if n != b.unicode_len() {
        return false;
    }
    let mut i: usize = 0;
    while i < n
        invariant
            i <= n,
            n == a@.len(),
            n == b@.len(),
            forall|k: int| 0 <= k < i ==> ascii_lower(#[trigger] a@[k]) == ascii_lower(b@[k]),
        decreases n - i,
    {
        if small_letter(a.get_char(i)) != small_letter(b.get_char(i)) {
            assert(ascii_lower(a@[i as int]) != ascii_lower(b@[i as int]));
            return false;
        }
        i += 1;
    }
    true
}

/// Whether a list of strings holds a string.
pub(crate) fn list_has(list: &Vec<String>, s: &str) -> (r: bool)
    ensures
        r == strings_view(list@).contains(s@),
{
    let mut i: usize = 0;
    while i < list.len()
        invariant
            i <= list@.len(),
            forall|k: int| 0 <= k < i ==> strings_view(list@)[k] != s@,
        decreases list@.len() - i,
    {
        if str_eq(list[i].as_str(), s) {
            assert(strings_view(list@)[i as int] == s@);
            return true;
        }
        i += 1;
    }
    false
}

/// A number in decimal, with a minus sign where it needs one.
pub open spec fn signed(n: int) -> Seq<char> {
    if n < 0 {
        "-"@ + decimal((-n) as nat)
    } else {
        decimal(n as nat)
    }
}

/// Appends a number in decimal, with a minus sign where it needs one.
pub(crate) fn push_signed(s: &mut String, v: i32)
    ensures
        final(s)@ == old(s)@ + signed(v as int),
{
    if v < 0 {
        s.append("-");
        push_decimal(s, (-(v as i64)) as u64);
        assert(s@ =~= old(s)@ + signed(v as int));
    } else {
        push_decimal(s, v as u64);
    }
}

/// The hexadecimal digits of a number.
pub open spec fn hex_digits(n: nat) -> Seq<char>
    decreases n,
{
    if n < 16 {
        seq![hex_digit(n as int)]
    } else {
        hex_digits(n / 16).push(hex_digit((n % 16) as int))
    }
}

/// A number in hexadecimal, with two digits at least.
pub open spec fn hex_at_least_2(n: nat) -> Seq<char> {
    if n < 16 {
        "0"@ + hex_digits(n)
    } else {
        hex_digits(n)
    }
}

fn push_hex_digits(s: &mut String, v: u32)
    ensures
        final(s)@ == old(s)@ + hex_digits(v as nat),
    decreases v,
{
    if v >= 16 {
        push_hex_digits(s, v / 16);
    }
    s.append(digit_str((v % 16) as u8));
    assert(s@ =~= old(s)@ + hex_digits(v as nat));
}

/// Appends a number in hexadecimal, with two digits at least.
pub(crate) fn push_hex_at_least_2(s: &mut String, v: u32)
    ensures
        final(s)@ == old(s)@ + hex_at_least_2(v as nat),
{
    if v < 16 {
        s.append("0");
    }
    push_hex_digits(s, v);
    assert(s@ =~= old(s)@ + hex_at_least_2(v as nat));
}

/// The first `n` of some texts, with a separator between them.
pub open spec fn joined(parts: Seq<Seq<char>>, separator: Seq<char>, n: nat) -> Seq<char>
    decreases n,
{
    if n == 0 {
        Seq::empty()
    } else if n == 1 {
        parts[0]
    } else {
        joined(parts, separator, (n - 1) as nat) + separator + parts[n - 1]
    }
}

/// A list of numbers in brackets.
pub open spec fn number_list(list: Seq<u32>) -> Seq<char> {
    "["@ + joined(
        list.map_values(|v: u32| decimal(v as nat)),
        ", "@,
        list.len(),
    ) + "]"@
}

/// Appends a list of numbers in brackets.
pub(crate) fn push_number_list(s: &mut String, list: &Vec<u32>)
    ensures
        final(s)@ == old(s)@ + number_list(list@),
{
    let ghost parts = list@.map_values(|v: u32| decimal(v as nat));
    s.append("[");
    let mut i: usize = 0;
    assert(s@ =~= old(s)@ + ("["@ + joined(parts, ", "@, 0)));
    while i < list.len()
        invariant
            i <= list@.len(),
            parts == list@.map_values(|v: u32| decimal(v as nat)),
            s@ == old(s)@ + ("["@ + joined(parts, ", "@, i as nat)),
        decreases list@.len() - i,
    {
        if i > 0 {
            s.append(", ");
        }
        push_decimal(s, list[i] as u64);
        i += 1;
        assert(s@ =~= old(s)@ + ("["@ + joined(parts, ", "@, i as nat)));
    }
    s.append("]");
    assert(s@ =~= old(s)@ + number_list(list@));
}

/// A truth value in words.
pub open spec fn truth(b: bool) -> Seq<char> {
    if b {
        "true"@
    } else {
        "false"@
    }
}

/// Appends a truth value in words.
pub(crate) fn push_truth(s: &mut String, b: bool)
    ensures
        final(s)@ == old(s)@ + truth(b),
{
    if b {
        s.append("true");
    } else {
        s.append("false");
    }
}

/// Calls `String::push`, which appends a character.
#[verifier::external_body]
pub(crate) fn push_char(s: &mut String, c: char)
    ensures
        final(s)@ == old(s)@.push(c),
{
    s.push(c);
}

} // verus!
