//! Resolutions as a device counts them, and special actions as it numbers
//! them.

use crate::engine::special_action as sa;
use vstd::prelude::*;

verus! {

/// The special action that a code stands for.
pub open spec fn special_of_code(code: u8) -> u32 {
    match code {
        0x01 => sa::WHEEL_LEFT,
        0x02 => sa::WHEEL_RIGHT,
        0x03 => sa::BATTERY_LEVEL,
        0x04 => sa::RESOLUTION_UP,
        0x05 => sa::RESOLUTION_CYCLE_UP,
        0x08 => sa::RESOLUTION_DOWN,
        0x09 => sa::RESOLUTION_CYCLE_DOWN,
        0x10 => sa::PROFILE_UP,
        0x11 => sa::PROFILE_CYCLE_UP,
        0x20 => sa::PROFILE_DOWN,
        0x21 => sa::PROFILE_CYCLE_DOWN,
        _ => sa::UNKNOWN,
    }
}

/// The special action that a code stands for.
pub fn hidpp10_special_from_code(code: u8) -> (r: u32)
    ensures
        r == special_of_code(code),
{
    match code {
        0x01 => sa::WHEEL_LEFT,
        0x02 => sa::WHEEL_RIGHT,
        0x03 => sa::BATTERY_LEVEL,
        0x04 => sa::RESOLUTION_UP,
        0x05 => sa::RESOLUTION_CYCLE_UP,
        0x08 => sa::RESOLUTION_DOWN,
        0x09 => sa::RESOLUTION_CYCLE_DOWN,
        0x10 => sa::PROFILE_UP,
        0x11 => sa::PROFILE_CYCLE_UP,
        0x20 => sa::PROFILE_DOWN,
        0x21 => sa::PROFILE_CYCLE_DOWN,
        _ => sa::UNKNOWN,
    }
}

/// The code of a special action; 0 for one that has none.
pub open spec fn code_of_special(special: u32) -> u8 {
    if special == sa::WHEEL_LEFT {
        0x01
    } else if special == sa::WHEEL_RIGHT {
        0x02
    } else if special == sa::BATTERY_LEVEL {
        0x03
    } else if special == sa::RESOLUTION_UP {
        0x04
    } else if special == sa::RESOLUTION_CYCLE_UP {
        0x05
    } else if special == sa::RESOLUTION_DOWN {
        0x08
    } else if special == sa::RESOLUTION_CYCLE_DOWN {
        0x09
    } else if special == sa::PROFILE_UP {
        0x10
    } else if special == sa::PROFILE_CYCLE_UP {
        0x11
    } else if special == sa::PROFILE_DOWN {
        0x20
    } else if special == sa::PROFILE_CYCLE_DOWN {
        0x21
    } else {
        0x00
    }
}

/// The code of a special action; 0 for one that has none.
pub fn hidpp10_code_from_special(special: u32) -> (r: u8)
    ensures
        r == code_of_special(special),
{
    if special == sa::WHEEL_LEFT {
        0x01
    } else if special == sa::WHEEL_RIGHT {
        0x02
    } else if special == sa::BATTERY_LEVEL {
        0x03
    } else if special == sa::RESOLUTION_UP {
        0x04
    } else if special == sa::RESOLUTION_CYCLE_UP {
        0x05
    } else if special == sa::RESOLUTION_DOWN {
        0x08
    } else if special == sa::RESOLUTION_CYCLE_DOWN {
        0x09
    } else if special == sa::PROFILE_UP {
        0x10
    } else if special == sa::PROFILE_CYCLE_UP {
        0x11
    } else if special == sa::PROFILE_DOWN {
        0x20
    } else if special == sa::PROFILE_CYCLE_DOWN {
        0x21
    } else {
        0x00
    }
}

/// A code that stands for an action is the code of that action, and an action
/// that has a code is the one that the code stands for.
pub proof fn special_code_round_trip(code: u8, special: u32)
    ensures
        special_of_code(code) != sa::UNKNOWN ==> code_of_special(special_of_code(code)) == code,
        code_of_special(special) != 0 ==> special_of_code(code_of_special(special)) == special,
{
}

/// A resolution and the byte that a device has for it.
#[derive(Debug, Clone, Copy, PartialEq, Eq, Structural)]
pub struct DpiMapping {
    pub raw_value: u8,
    pub dpi: u32,
}

/// A table for a list of resolutions: the bytes count up from 0x80.
pub fn build_dpi_table_from_list(entries: &[u32]) -> (r: Vec<DpiMapping>)
    ensures
        r@ == Seq::new(
            entries@.len(),
            |i: int| DpiMapping { raw_value: ((i + 0x80) % 256) as u8, dpi: entries@[i] },
        ),
{
    let mut r: Vec<DpiMapping> = Vec::new();
    let mut i: usize = 0;
    while i < entries.len()
        invariant
            i <= entries@.len(),
            r@.len() == i,
            forall|k: int|
                0 <= k < i ==> #[trigger] r@[k] == (DpiMapping {
                    raw_value: ((k + 0x80) % 256) as u8,
                    dpi: entries@[k],
                }),
        decreases entries@.len() - i,
    {
        let raw_value: u8 = ((i % 256 + 0x80) % 256) as u8;
        r.push(DpiMapping { raw_value, dpi: entries[i] });
        i += 1;
    }
    assert(r@ =~= Seq::new(
        entries@.len(),
        |i: int| DpiMapping { raw_value: ((i + 0x80) % 256) as u8, dpi: entries@[i] },
    ));
    r
}

/// The nearest multiple of 25.
pub open spec fn rounded_dpi(dpi: int) -> int {
    (dpi + 12) / 25 * 25
}

/// A table for a range of resolutions: the byte 0 stands for none, and the
/// others count the steps, each rounded to a multiple of 25.
pub open spec fn range_table(min: u32, max: u32, step: u32) -> Seq<DpiMapping> {
    if step == 0 || max <= min {
        Seq::empty()
    } else {
        Seq::new(
            ((max - min) / step as int + 1) as nat,
            |i: int|
                if i == 0 {
                    DpiMapping { raw_value: 0, dpi: 0 }
                } else {
                    DpiMapping {
                        raw_value: (i % 256) as u8,
                        dpi: rounded_dpi(min + step * i) as u32,
                    }
                },
        )
    }
}

/// A table for a range of resolutions.
pub fn build_dpi_table_from_range(min: u32, max: u32, step: u32) -> (r: Vec<DpiMapping>)
    requires
        step != 0 && max > min ==> min + step * ((max - min) / step as int) + 12 <= u32::MAX,
    ensures
        r@ == range_table(min, max, step),
{
    let mut r: Vec<DpiMapping> = Vec::new();
    if step == 0 || max <= min {
        assert(r@ =~= range_table(min, max, step));
        return r;
    }
    let raw_max: u32 = (max - min) / step;
    r.push(DpiMapping { raw_value: 0, dpi: 0 });
    let mut i: u32 = 0;
    while i < raw_max
        invariant
            step != 0,
            max > min,
            raw_max == (max - min) / step as int,
            min + step * raw_max + 12 <= u32::MAX,
            i <= raw_max,
            r@.len() == i + 1,
            forall|k: int|
                0 <= k <= i ==> #[trigger] r@[k] == range_table(min, max, step)[k],
        decreases raw_max - i,
    {
        i += 1;
        assert(step * i <= step * raw_max) by (nonlinear_arith)
            requires
                i <= raw_max,
        ;
        assert(0 <= step * i) by (nonlinear_arith);
        let exact: u32 = min + step * i;
        let rounded: u32 = (exact + 12) / 25 * 25;
        r.push(DpiMapping { raw_value: (i % 256) as u8, dpi: rounded });
    }
    assert(r@ =~= range_table(min, max, step));
    r
}

/// The highest resolution of a table; 0 for an empty one.
pub fn dpi_table_get_max(table: &[DpiMapping]) -> (r: u32)
    ensures
        forall|i: int| 0 <= i < table@.len() ==> (#[trigger] table@[i]).dpi <= r,
        table@.len() == 0 ==> r == 0,
        table@.len() > 0 ==> exists|i: int| 0 <= i < table@.len() && (#[trigger] table@[i]).dpi == r,
{
    let mut best: u32 = 0;
    let mut i: usize = 0;
    while i < table.len()
        invariant
            i <= table@.len(),
            forall|k: int| 0 <= k < i ==> (#[trigger] table@[k]).dpi <= best,
            i == 0 ==> best == 0,
            i > 0 ==> exists|k: int| 0 <= k < i && (#[trigger] table@[k]).dpi == best,
        decreases table@.len() - i,
    {
        let dpi: u32 = table[i].dpi;
        assert(table@[i as int].dpi == dpi);
        if dpi > best || i == 0 {
            best = dpi;
        }
        i += 1;
    }
    best
}

/// The lowest resolution of a table that is not 0; 0 if there is none.
pub fn dpi_table_get_min(table: &[DpiMapping]) -> (r: u32)
    ensures
        r == 0 ==> forall|i: int| 0 <= i < table@.len() ==> (#[trigger] table@[i]).dpi == 0,
        r != 0 ==> exists|i: int| 0 <= i < table@.len() && (#[trigger] table@[i]).dpi == r,
        r != 0 ==> forall|i: int|
            0 <= i < table@.len() ==> (#[trigger] table@[i]).dpi == 0 || table@[i].dpi >= r,
{
    let mut best: u32 = 0;
    let mut i: usize = 0;
    while i < table.len()
        invariant
            i <= table@.len(),
            best == 0 ==> forall|k: int| 0 <= k < i ==> (#[trigger] table@[k]).dpi == 0,
            best != 0 ==> exists|k: int| 0 <= k < i && (#[trigger] table@[k]).dpi == best,
            best != 0 ==> forall|k: int|
                0 <= k < i ==> (#[trigger] table@[k]).dpi == 0 || table@[k].dpi >= best,
        decreases table@.len() - i,
    {
        let dpi: u32 = table[i].dpi;
        assert(table@[i as int].dpi == dpi);
        if dpi != 0 && (best == 0 || dpi < best) {
            best = dpi;
        }
        i += 1;
    }
    best
}

/// Whether `i` is the first entry with a byte.
pub open spec fn first_with_raw(table: Seq<DpiMapping>, raw: u8, i: int) -> bool {
    &&& 0 <= i < table.len()
    &&& table[i].raw_value == raw
    &&& forall|j: int| 0 <= j < i ==> (#[trigger] table[j]).raw_value != raw
}

/// The resolution that a byte stands for: that of the first entry with the
/// byte, 0 if there is none, and 50 per unit without a table.
pub open spec fn dpi_of_raw(table: Seq<DpiMapping>, raw: u8) -> u32 {
    if table.len() == 0 {
        (raw * 50) as u32
    } else if exists|i: int| first_with_raw(table, raw, i) {
        table[choose|i: int| first_with_raw(table, raw, i)].dpi
    } else {
        0
    }
}

/// The resolution that a byte stands for.
pub fn dpi_from_raw(table: &Vec<DpiMapping>, raw: u8) -> (r: u32)
    ensures
        r == dpi_of_raw(table@, raw),
{
    if table.len() == 0 {
        return raw as u32 * 50;
    }
    let mut i: usize = 0;
    while i < table.len()
        invariant
            i <= table@.len(),
            table@.len() > 0,
            forall|j: int| 0 <= j < i ==> (#[trigger] table@[j]).raw_value != raw,
        decreases table@.len() - i,
    {
        if table[i].raw_value == raw {
            proof {
                assert(first_with_raw(table@, raw, i as int));
                let k = choose|k: int| first_with_raw(table@, raw, k);
                assert(k == i);
            }
            return table[i].dpi;
        }
        i += 1;
    }
    0
}

/// How far an entry is from a resolution.
pub open spec fn distance(m: DpiMapping, dpi: u32) -> int {
    if m.dpi < dpi {
        dpi - m.dpi
    } else {
        m.dpi - dpi
    }
}

/// Whether `i` is the first of the entries that are nearest to a resolution.
pub open spec fn nearest(table: Seq<DpiMapping>, dpi: u32, i: int) -> bool {
    &&& 0 <= i < table.len()
    &&& forall|j: int|
        0 <= j < table.len() ==> distance(table[i], dpi) <= distance(#[trigger] table[j], dpi)
    &&& forall|j: int|
        0 <= j < i ==> distance(table[i], dpi) < distance(#[trigger] table[j], dpi)
}

/// The byte for a resolution: that of the nearest entry, the first of them if
/// there are several, and one for each 50 without a table.
pub open spec fn raw_of_dpi(table: Seq<DpiMapping>, dpi: u32) -> u8 {
    if table.len() == 0 {
        if dpi / 50 > 255 {
            255
        } else {
            (dpi / 50) as u8
        }
    } else {
        table[choose|i: int| nearest(table, dpi, i)].raw_value
    }
}

fn gap(m: &DpiMapping, dpi: u32) -> (r: u32)
    ensures
        r == distance(*m, dpi),
{
    if m.dpi < dpi {
        dpi - m.dpi
    } else {
        m.dpi - dpi
    }
}

/// The byte for a resolution.
pub fn raw_from_dpi(table: &Vec<DpiMapping>, dpi: u32) -> (r: u8)
    ensures
        r == raw_of_dpi(table@, dpi),
{
    if table.len() == 0 {
        let units: u32 = dpi / 50;
        return if units > 255 {
            255
        } else {
            units as u8
        };
    }
    let mut best: usize = 0;
    let mut i: usize = 1;
    while i < table.len()
        invariant
            best < i <= table@.len(),
            forall|j: int|
                0 <= j < i ==> distance(table@[best as int], dpi) <= distance(
                    #[trigger] table@[j],
                    dpi,
                ),
            forall|j: int|
                0 <= j < best ==> distance(table@[best as int], dpi) < distance(
                    #[trigger] table@[j],
                    dpi,
                ),
        decreases table@.len() - i,
    {
        if gap(&table[i], dpi) < gap(&table[best], dpi) {
            best = i;
        }
        i += 1;
    }
    proof {
        assert(nearest(table@, dpi, best as int));
        let k = choose|k: int| nearest(table@, dpi, k);
        assert(k == best);
    }
    table[best].raw_value
}

/// Whether no byte occurs twice in a table.
pub open spec fn distinct_raws(table: Seq<DpiMapping>) -> bool {
    forall|i: int, j: int|
        0 <= i < j < table.len() ==> (#[trigger] table[i]).raw_value != (
        #[trigger] table[j]).raw_value
}

/// A resolution that a table has comes back as it was written, if no byte
/// occurs twice in the table. Without a table every multiple of 50 up to 12750
/// does.
pub proof fn dpi_table_round_trip(table: Seq<DpiMapping>, dpi: u32)
    requires
        table.len() == 0 ==> dpi % 50 == 0 && dpi <= 12750,
        table.len() > 0 ==> distinct_raws(table) && exists|i: int|
            0 <= i < table.len() && (#[trigger] table[i]).dpi == dpi,
    ensures
        dpi_of_raw(table, raw_of_dpi(table, dpi)) == dpi,
{
    if table.len() > 0 {
        let at = choose|i: int| 0 <= i < table.len() && (#[trigger] table[i]).dpi == dpi;
        lemma_nearest_exists(table, dpi, table.len());
        let k = choose|i: int| nearest(table, dpi, i);
        assert(nearest(table, dpi, k));
        assert(distance(table[k], dpi) <= distance(table[at], dpi));
        assert(table[k].dpi == dpi);
        assert(first_with_raw(table, table[k].raw_value, k));
        let m = choose|i: int| first_with_raw(table, table[k].raw_value, i);
        assert(m == k);
    }
}

proof fn lemma_nearest_exists(table: Seq<DpiMapping>, dpi: u32, n: nat)
    requires
        0 < n <= table.len(),
    ensures
        exists|i: int| nearest(table.take(n as int), dpi, i),
        n == table.len() ==> exists|i: int| nearest(table, dpi, i),
    decreases n,
{
    let part = table.take(n as int);
    if n == 1 {
        assert(nearest(part, dpi, 0));
    } else {
        lemma_nearest_exists(table, dpi, (n - 1) as nat);
        let less = table.take(n - 1);
        let k = choose|i: int| nearest(less, dpi, i);
        assert(forall|j: int| 0 <= j < n - 1 ==> less[j] == part[j]);
        if distance(part[n - 1], dpi) < distance(part[k], dpi) {
            assert forall|j: int| 0 <= j < n - 1 implies distance(part[n - 1], dpi) < distance(
                #[trigger] part[j],
                dpi,
            ) by {
                assert(distance(less[k], dpi) <= distance(less[j], dpi));
            }
            assert(nearest(part, dpi, n - 1));
        } else {
            assert forall|j: int| 0 <= j < n implies distance(part[k], dpi) <= distance(
                #[trigger] part[j],
                dpi,
            ) by {
                if j < n - 1 {
                    assert(distance(less[k], dpi) <= distance(less[j], dpi));
                }
            }
            assert forall|j: int| 0 <= j < k implies distance(part[k], dpi) < distance(
                #[trigger] part[j],
                dpi,
            ) by {
                assert(distance(less[k], dpi) < distance(less[j], dpi));
            }
            assert(nearest(part, dpi, k));
        }
    }
    if n == table.len() {
        assert(part =~= table);
    }
}

} // verus!
