//! What the sensor, report-rate and onboard-profile features answer.

use crate::bytes;
use crate::engine::device;
use crate::hal::hidpp20::error::HidppDriverError;
use vstd::prelude::*;

verus! {

/// The sixteen-bit numbers of a list, up to the first zero.
pub open spec fn list_entries(s: Seq<u8>) -> Seq<u16>
    decreases s.len(),
{
    if s.len() < 2 || bytes::be16(s[0], s[1]) == 0 {
        Seq::empty()
    } else {
        seq![bytes::be16(s[0], s[1])] + list_entries(s.skip(2))
    }
}

/// The DPI values that the entries of a list from `i` on add to `acc`. An entry
/// from 0xE000 on is a step: it fills the range between the value before it
/// and the entry behind it.
pub open spec fn expand_entries(entries: Seq<u16>, i: int, acc: Seq<u32>) -> Seq<u32>
    decreases entries.len() - i + 1,
{
    if i < 0 || i >= entries.len() {
        acc
    } else if entries[i] >= 0xE000 {
        let step = (entries[i] - 0xE000) as u32;
        let lo = if acc.len() > 0 {
            acc.last()
        } else {
            200
        };
        let rest = if acc.len() > 0 {
            acc.drop_last()
        } else {
            acc
        };
        let hi = if i + 1 < entries.len() {
            entries[i + 1] as u32
        } else {
            lo
        };
        let filled = if step > 0 && hi >= lo {
            rest + device::stepped_range(lo, hi, step)
        } else {
            rest
        };
        expand_entries(entries, i + 2, filled)
    } else {
        expand_entries(entries, i + 1, acc.push(entries[i] as u32))
    }
}

/// The DPI values that a sensor lists.
pub open spec fn dpi_list_of(s: Seq<u8>) -> Seq<u32> {
    expand_entries(list_entries(s), 0, Seq::empty())
}

/// Reads the DPI values that a sensor lists. The bytes begin behind the index
/// of the sensor.
pub fn parse_dpi_list(list_bytes: &[u8]) -> (r: Vec<u32>)
    ensures
        r@ == dpi_list_of(list_bytes@),
{
    let entries: Vec<u16> = read_entries(list_bytes);
    let mut r: Vec<u32> = Vec::new();
    let mut i: usize = 0;
    while i < entries.len()
        invariant
            i <= entries@.len() + 1,
            entries@.len() < usize::MAX,
            expand_entries(entries@, i as int, r@) == expand_entries(entries@, 0, Seq::empty()),
        decreases entries@.len() + 1 - i,
    {
        let val: u16 = entries[i];
        if val >= 0xE000 {
            let step: u32 = (val - 0xE000) as u32;
            let lo: u32 = match r.pop() {
                Some(v) => v,
                None => 200,
            };
            let hi: u32 = if i + 1 < entries.len() {
                entries[i + 1] as u32
            } else {
                lo
            };
            if step > 0 && hi >= lo {
                let mut range: Vec<u32> = device::stepped_list(lo, hi, step);
                r.append(&mut range);
            }
            i += 2;
        } else {
            r.push(val as u32);
            i += 1;
        }
    }
    r
}

fn read_entries(list_bytes: &[u8]) -> (r: Vec<u16>)
    ensures
        r@ == list_entries(list_bytes@),
        r@.len() < usize::MAX,
{
    let mut r: Vec<u16> = Vec::new();
    let mut i: usize = 0;
    assert(list_bytes@.skip(0) =~= list_bytes@);
    while i < list_bytes.len() && list_bytes.len() - i >= 2
        invariant
            i <= list_bytes@.len(),
            r@ + list_entries(list_bytes@.skip(i as int)) == list_entries(list_bytes@),
            2 * r@.len() == i,
        decreases list_bytes@.len() - i,
    {
        let ghost rest = list_bytes@.skip(i as int);
        let val: u16 = bytes::u16_from(list_bytes[i], list_bytes[i + 1]);
        assert(rest[0] == list_bytes@[i as int] && rest[1] == list_bytes@[i + 1]);
        if val == 0 {
            assert(list_entries(rest) =~= Seq::empty());
            assert(r@ =~= list_entries(list_bytes@));
            return r;
        }
        assert(rest.skip(2) =~= list_bytes@.skip(i + 2));
        assert(list_entries(rest) == seq![val] + list_entries(rest.skip(2)));
        assert(r@ + (seq![val] + list_entries(rest.skip(2))) =~= r@.push(val) + list_entries(
            rest.skip(2),
        ));
        r.push(val);
        i += 2;
    }
    assert(list_entries(list_bytes@.skip(i as int)) =~= Seq::empty());
    assert(r@ =~= list_entries(list_bytes@));
    r
}

/// Whether bit `bit` of a byte is set.
pub open spec fn has_bit(v: u8, bit: int) -> bool {
    v as int / vstd::arithmetic::power2::pow2(bit as nat) as int % 2 == 1
}

/// The report rates of the bits below `n` of a bitmap: bit `k` stands for an
/// interval of `k + 1` ms.
pub open spec fn rates_below(bitmap: u8, n: nat) -> Seq<u32>
    decreases n,
{
    if n == 0 {
        Seq::empty()
    } else {
        let rest = rates_below(bitmap, (n - 1) as nat);
        if has_bit(bitmap, n - 1) {
            rest.push((1000int / (n as int)) as u32)
        } else {
            rest
        }
    }
}

/// The report rates that a bitmap lists, fastest first.
pub open spec fn rates_of_bitmap(bitmap: u8) -> Seq<u32> {
    rates_below(bitmap, 8)
}

/// Reads the report rates that a bitmap lists.
pub fn parse_rate_bitmap(bitmap: u8) -> (r: Vec<u32>)
    ensures
        r@ == rates_of_bitmap(bitmap),
{
    let mut r: Vec<u32> = Vec::new();
    let mut bit: u32 = 0;
    let mut rest: u8 = bitmap;
    proof {
        vstd::arithmetic::power2::lemma2_to64();
    }
    while bit < 8
        invariant
            bit <= 8,
            r@ == rates_below(bitmap, bit as nat),
            rest as int == bitmap as int / vstd::arithmetic::power2::pow2(bit as nat) as int,
        decreases 8 - bit,
    {
        if rest % 2 == 1 {
            r.push(1000 / (bit + 1));
        }
        proof {
            let d = vstd::arithmetic::power2::pow2(bit as nat) as int;
            vstd::arithmetic::power2::lemma_pow2_pos(bit as nat);
            vstd::arithmetic::power2::lemma_pow2_unfold((bit + 1) as nat);
            vstd::arithmetic::div_mod::lemma_div_denominator(bitmap as int, d, 2);
            assert(2 * d == d * 2);
        }
        rest = rest / 2;
        bit += 1;
    }
    r
}

/// What the onboard-profile feature says about its memory.
#[derive(Debug, Clone, Copy)]
pub struct Hidpp20OnboardProfilesInfo {
    pub profile_count: u8,
    pub profile_count_oob: u8,
    pub button_count: u8,
    /// Most significant byte first.
    pub sector_size: [u8; 2],
}

/// The contents of a [`Hidpp20OnboardProfilesInfo`].
#[verifier::ext_equal]
pub struct OnboardModel {
    pub profile_count: u8,
    pub profile_count_oob: u8,
    pub button_count: u8,
    pub sector_size: u16,
}

impl View for Hidpp20OnboardProfilesInfo {
    type V = OnboardModel;

    open spec fn view(&self) -> OnboardModel {
        OnboardModel {
            profile_count: self.profile_count,
            profile_count_oob: self.profile_count_oob,
            button_count: self.button_count,
            sector_size: bytes::be16(self.sector_size[0], self.sector_size[1]),
        }
    }
}

impl OnboardModel {
    /// What the answer to the descriptor query says.
    pub open spec fn of_reply(reply: Seq<u8>) -> OnboardModel {
        OnboardModel {
            profile_count: reply[3],
            profile_count_oob: reply[4],
            button_count: reply[5],
            sector_size: bytes::be16(reply[7], reply[8]),
        }
    }
}

impl Default for Hidpp20OnboardProfilesInfo {
    fn default() -> (r: Self)
        ensures
            r@ == (OnboardModel {
                profile_count: 0,
                profile_count_oob: 0,
                button_count: 0,
                sector_size: 0,
            }),
    {
        Hidpp20OnboardProfilesInfo {
            profile_count: 0,
            profile_count_oob: 0,
            button_count: 0,
            sector_size: [0, 0],
        }
    }
}

impl Hidpp20OnboardProfilesInfo {
    pub fn from_bytes(buf: &[u8; 16]) -> (r: Self)
        ensures
            r@ == OnboardModel::of_reply(buf@),
            r.sector_size@ == buf@.subrange(7, 9),
    {
        let r = Hidpp20OnboardProfilesInfo {
            profile_count: buf[3],
            profile_count_oob: buf[4],
            button_count: buf[5],
            sector_size: [buf[7], buf[8]],
        };
        assert(r.sector_size@ =~= buf@.subrange(7, 9));
        r
    }

    pub fn sector_size(&self) -> (r: u16)
        ensures
            r == self@.sector_size,
    {
        bytes::u16_from(self.sector_size[0], self.sector_size[1])
    }
}

/// Why no button count is known.
#[derive(Debug)]
pub enum ButtonCountError {
    /// The query failed in a way that may pass.
    Query(HidppDriverError),
    /// Every source says zero.
    Unavailable,
}

/// Decides how many buttons a device has: what the onboard descriptor says,
/// else what the special-keys feature says, else what the database says. The
/// answer is never zero, and a failed query is never passed over in favour of
/// the database.
pub fn resolve_button_count(
    descriptor_count: usize,
    special_keys_count: Result<usize, HidppDriverError>,
    db_count: usize,
) -> (r: Result<usize, ButtonCountError>)
    ensures
        r == (if descriptor_count > 0 {
            Ok(descriptor_count)
        } else {
            match special_keys_count {
                Err(e) => Err(ButtonCountError::Query(e)),
                Ok(n) => if n > 0 {
                    Ok(n)
                } else if db_count > 0 {
                    Ok(db_count)
                } else {
                    Err(ButtonCountError::Unavailable)
                },
            }
        }),
        r is Ok ==> r->Ok_0 > 0,
{
    if descriptor_count > 0 {
        return Ok(descriptor_count);
    }
    match special_keys_count {
        Err(e) => Err(ButtonCountError::Query(e)),
        Ok(n) => if n > 0 {
            Ok(n)
        } else if db_count > 0 {
            Ok(db_count)
        } else {
            Err(ButtonCountError::Unavailable)
        },
    }
}

} // verus!
