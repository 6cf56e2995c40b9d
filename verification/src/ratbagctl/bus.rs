//! The values that the daemon sends, and what the tool reads from them.

use crate::text;
use vstd::prelude::*;
use vstd::string::*;

verus! {

/// A value of a property.
#[derive(Debug)]
pub enum BusValue {
    Bool(bool),
    I32(i32),
    U32(u32),
    Text(String),
    ObjectPath(String),
    Array(Vec<BusValue>),
    Structure(Vec<BusValue>),
    /// A value of a type that no property has.
    Other,
}

/// Why a property cannot be read.
#[derive(Debug, Clone, Copy, PartialEq, Eq, Structural)]
pub enum BusError {
    /// It has another type than it should have.
    UnexpectedType,
    /// It does not have the parts that it should have.
    Malformed,
    /// An item of an array has another type than it should have.
    UnexpectedItem,
}

/// The path that a value holds.
pub open spec fn path_in(v: BusValue) -> Option<Seq<char>> {
    match v {
        BusValue::ObjectPath(p) => Some(p@),
        _ => None,
    }
}

/// Reads a list of object paths.
pub fn extract_object_path_array(val: &BusValue) -> (r: Result<Vec<String>, BusError>)
    ensures
        match val {
            BusValue::Array(items) => match r {
                Ok(paths) => paths@.len() == items@.len() && forall|i: int|
                    0 <= i < items@.len() ==> path_in(#[trigger] items@[i]) == Some(paths@[i]@),
                Err(e) => e == BusError::UnexpectedItem && exists|i: int|
                    0 <= i < items@.len() && path_in(#[trigger] items@[i]) is None,
            },
            _ => r == Err::<Vec<String>, BusError>(BusError::UnexpectedType),
        },
{
    let items = match val {
        BusValue::Array(items) => items,
        _ => {
            return Err(BusError::UnexpectedType);
        },
    };
    let mut paths: Vec<String> = Vec::new();
    let mut i: usize = 0;
    while i < items.len()
        invariant
            i <= items@.len(),
            val matches BusValue::Array(all) && all == items,
            paths@.len() == i,
            forall|k: int| 0 <= k < i ==> path_in(#[trigger] items@[k]) == Some(paths@[k]@),
        decreases items@.len() - i,
    {
        match &items[i] {
            BusValue::ObjectPath(p) => {
                paths.push(p.clone());
            },
            _ => {
                assert(path_in(items@[i as int]) is None);
                return Err(BusError::UnexpectedItem);
            },
        }
        i += 1;
    }
    Ok(paths)
}

/// Reads a list of numbers.
pub fn extract_u32_array(val: &BusValue) -> (r: Result<Vec<u32>, BusError>)
    ensures
        match val {
            BusValue::Array(items) => match r {
                Ok(list) => list@.len() == items@.len() && forall|i: int|
                    0 <= i < items@.len() ==> (#[trigger] items@[i]) == BusValue::U32(list@[i]),
                Err(e) => e == BusError::UnexpectedItem && exists|i: int|
                    0 <= i < items@.len() && !((#[trigger] items@[i]) is U32),
            },
            _ => r == Err::<Vec<u32>, BusError>(BusError::UnexpectedType),
        },
{
    let items = match val {
        BusValue::Array(items) => items,
        _ => {
            return Err(BusError::UnexpectedType);
        },
    };
    let mut list: Vec<u32> = Vec::new();
    let mut i: usize = 0;
    while i < items.len()
        invariant
            i <= items@.len(),
            val matches BusValue::Array(all) && all == items,
            list@.len() == i,
            forall|k: int| 0 <= k < i ==> (#[trigger] items@[k]) == BusValue::U32(list@[k]),
        decreases items@.len() - i,
    {
        match &items[i] {
            BusValue::U32(v) => {
                list.push(*v);
            },
            _ => {
                assert(!(items@[i as int] is U32));
                return Err(BusError::UnexpectedItem);
            },
        }
        i += 1;
    }
    Ok(list)
}

/// Three numbers.
pub open spec fn triple_in(v: BusValue) -> Option<(u32, u32, u32)> {
    match v {
        BusValue::Structure(f) => if f@.len() == 3 {
            match (f@[0], f@[1], f@[2]) {
                (BusValue::U32(a), BusValue::U32(b), BusValue::U32(c)) => Some((a, b, c)),
                _ => None,
            }
        } else {
            None
        },
        _ => None,
    }
}

/// Reads a color.
pub fn extract_color(val: &BusValue) -> (r: Result<(u32, u32, u32), BusError>)
    ensures
        match r {
            Ok(c) => triple_in(*val) == Some(c),
            Err(e) => triple_in(*val) is None && e == BusError::Malformed,
        },
{
    if let BusValue::Structure(f) = val {
        if f.len() == 3 {
            if let (BusValue::U32(r), BusValue::U32(g), BusValue::U32(b)) = (&f[0], &f[1], &f[2]) {
                return Ok((*r, *g, *b));
            }
        }
    }
    Err(BusError::Malformed)
}

/// Two numbers.
pub open spec fn pair_in(v: BusValue) -> Option<(u32, u32)> {
    match v {
        BusValue::Structure(f) => if f@.len() == 2 {
            match (f@[0], f@[1]) {
                (BusValue::U32(a), BusValue::U32(b)) => Some((a, b)),
                _ => None,
            }
        } else {
            None
        },
        _ => None,
    }
}

fn read_pair(val: &BusValue) -> (r: Option<(u32, u32)>)
    ensures
        r == pair_in(*val),
{
    if let BusValue::Structure(f) = val {
        if f.len() == 2 {
            if let (BusValue::U32(a), BusValue::U32(b)) = (&f[0], &f[1]) {
                return Some((*a, *b));
            }
        }
    }
    None
}

/// A resolution in words.
pub open spec fn dpi_text(x: u32, y: u32) -> Seq<char> {
    if x == y {
        text::decimal(x as nat) + " DPI"@
    } else {
        text::decimal(x as nat) + "x"@ + text::decimal(y as nat) + " DPI"@
    }
}

/// What a property that holds a resolution says, in words: one number, or two.
pub open spec fn dpi_in(v: BusValue) -> Result<Seq<char>, BusError> {
    match v {
        BusValue::U32(d) => Ok(dpi_text(d, d)),
        BusValue::Structure(_) => match pair_in(v) {
            Some((x, y)) => Ok(dpi_text(x, y)),
            None => Err(BusError::Malformed),
        },
        _ => Err(BusError::UnexpectedType),
    }
}

fn write_dpi(x: u32, y: u32) -> (r: String)
    ensures
        r@ == dpi_text(x, y),
{
    let mut s = String::new();
    text::push_decimal(&mut s, x as u64);
    if x != y {
        s.append("x");
        text::push_decimal(&mut s, y as u64);
    }
    s.append(" DPI");
    assert(s@ =~= dpi_text(x, y));
    s
}

/// Reads a resolution.
pub fn resolution_dpi(val: &BusValue) -> (r: Result<String, BusError>)
    ensures
        match r {
            Ok(s) => dpi_in(*val) == Ok::<Seq<char>, BusError>(s@),
            Err(e) => dpi_in(*val) == Err::<Seq<char>, BusError>(e),
        },
{
    match val {
        BusValue::U32(d) => Ok(write_dpi(*d, *d)),
        BusValue::Structure(_) => match read_pair(val) {
            Some((x, y)) => Ok(write_dpi(x, y)),
            None => Err(BusError::Malformed),
        },
        _ => Err(BusError::UnexpectedType),
    }
}

/// An event of a macro in words: the key, and whether it is pressed.
pub open spec fn event_text(e: (u32, u32)) -> Seq<char> {
    text::decimal(e.0 as nat) + ":"@ + if e.1 == 1 {
        "\u{2193}"@
    } else {
        "\u{2191}"@
    }
}

/// Whether every item of a list is an event.
pub open spec fn all_events(items: Seq<BusValue>) -> bool {
    forall|i: int| 0 <= i < items.len() ==> pair_in(#[trigger] items[i]) is Some
}

/// The events of a list in words.
pub open spec fn event_texts(items: Seq<BusValue>) -> Seq<Seq<char>> {
    items.map_values(|v: BusValue| event_text(pair_in(v)->0))
}

/// What a mapping says, in words.
pub open spec fn mapping_text(v: BusValue) -> Result<Seq<char>, BusError> {
    match v {
        BusValue::U32(n) => Ok(text::decimal(n as nat)),
        BusValue::Array(items) => if all_events(items@) {
            Ok(text::joined(event_texts(items@), " "@, items@.len()))
        } else {
            Err(BusError::UnexpectedItem)
        },
        _ => Err(BusError::UnexpectedType),
    }
}

/// What a property that holds the mapping of a button says: the type of the
/// action, and the mapping in words.
pub open spec fn mapping_in(v: BusValue) -> Result<(u32, Seq<char>), BusError> {
    match v {
        BusValue::Structure(f) => if f@.len() == 2 {
            match f@[0] {
                BusValue::U32(kind) => match mapping_text(f@[1]) {
                    Ok(t) => Ok((kind, t)),
                    Err(e) => Err(e),
                },
                _ => Err(BusError::Malformed),
            }
        } else {
            Err(BusError::Malformed)
        },
        _ => Err(BusError::Malformed),
    }
}

fn write_events(items: &Vec<BusValue>) -> (r: Option<String>)
    ensures
        match r {
            Some(s) => all_events(items@) && s@ == text::joined(
                event_texts(items@),
                " "@,
                items@.len(),
            ),
            None => !all_events(items@),
        },
{
    let ghost texts = event_texts(items@);
    let mut s = String::new();
    assert(s@ =~= text::joined(texts, " "@, 0));
    let mut i: usize = 0;
    while i < items.len()
        invariant
            i <= items@.len(),
            texts == event_texts(items@),
            s@ == text::joined(texts, " "@, i as nat),
            forall|k: int| 0 <= k < i ==> pair_in(#[trigger] items@[k]) is Some,
        decreases items@.len() - i,
    {
        let (keycode, direction) = match read_pair(&items[i]) {
            Some(e) => e,
            None => {
                assert(pair_in(items@[i as int]) is None);
                return None;
            },
        };
        let ghost before = s@;
        if i > 0 {
            s.append(" ");
        }
        text::push_decimal(&mut s, keycode as u64);
        s.append(":");
        if direction == 1 {
            s.append("\u{2193}");
        } else {
            s.append("\u{2191}");
        }
        assert(texts[i as int] == event_text((keycode, direction)));
        i += 1;
        assert(s@ =~= text::joined(texts, " "@, i as nat));
    }
    Some(s)
}

/// Reads the mapping of a button.
pub fn button_mapping(val: &BusValue) -> (r: Result<(u32, String), BusError>)
    ensures
        match r {
            Ok(m) => mapping_in(*val) == Ok::<(u32, Seq<char>), BusError>((m.0, m.1@)),
            Err(e) => mapping_in(*val) == Err::<(u32, Seq<char>), BusError>(e),
        },
{
    if let BusValue::Structure(f) = val {
        if f.len() == 2 {
            if let BusValue::U32(kind) = &f[0] {
                return match &f[1] {
                    BusValue::U32(n) => {
                        let mut s = String::new();
                        text::push_decimal(&mut s, *n as u64);
                        assert(s@ =~= text::decimal(*n as nat));
                        Ok((*kind, s))
                    },
                    BusValue::Array(items) => match write_events(items) {
                        Some(s) => Ok((*kind, s)),
                        None => Err(BusError::UnexpectedItem),
                    },
                    _ => Err(BusError::UnexpectedType),
                };
            }
        }
    }
    Err(BusError::Malformed)
}

} // verus!
