//! Byte buffers: multi-byte fields and pieces of reports.

use vstd::prelude::*;

verus! {

/// The number that two bytes hold, the most significant first.
pub open spec fn be16(hi: u8, lo: u8) -> u16 {
    (hi * 256 + lo) as u16
}

/// The most significant byte of a number.
pub open spec fn hi8(v: u16) -> u8 {
    (v / 256) as u8
}

/// The least significant byte of a number.
pub open spec fn lo8(v: u16) -> u8 {
    (v % 256) as u8
}

/// The two bytes of a number, the most significant first.
pub open spec fn be_bytes(v: u16) -> Seq<u8> {
    seq![hi8(v), lo8(v)]
}

/// The two bytes of a number, the least significant first.
pub open spec fn le_bytes(v: u16) -> Seq<u8> {
    seq![lo8(v), hi8(v)]
}

/// Taking a number apart into bytes and putting it together again.
pub proof fn bytes_round_trip(v: u16, hi: u8, lo: u8)
    ensures
        be16(hi8(v), lo8(v)) == v,
        hi8(be16(hi, lo)) == hi,
        lo8(be16(hi, lo)) == lo,
{
}

pub(crate) fn u16_from(hi: u8, lo: u8) -> (r: u16)
    ensures
        r == be16(hi, lo),
{
    hi as u16 * 256 + lo as u16
}

pub(crate) fn high_byte(v: u16) -> (r: u8)
    ensures
        r == hi8(v),
{
    (v / 256) as u8
}

pub(crate) fn low_byte(v: u16) -> (r: u8)
    ensures
        r == lo8(v),
{
    (v % 256) as u8
}

/// `n` copies of a byte.
pub open spec fn filled(n: nat, b: u8) -> Seq<u8> {
    Seq::new(n, |i: int| b)
}

/// The first `n` bytes of `s`, with zeros for those that `s` does not have.
pub open spec fn padded(s: Seq<u8>, n: nat) -> Seq<u8> {
    Seq::new(
        n,
        |i: int|
            if i < s.len() {
                s[i]
            } else {
                0u8
            },
    )
}

/// `base` with the bytes of `src` written over it from position `at` on.
pub open spec fn spliced(base: Seq<u8>, at: int, src: Seq<u8>) -> Seq<u8> {
    Seq::new(
        base.len(),
        |i: int|
            if at <= i < at + src.len() {
                src[i - at]
            } else {
                base[i]
            },
    )
}

/// Writes the bytes of `src` over `buf` from position `at` on.
pub(crate) fn put(buf: &mut Vec<u8>, at: usize, src: &[u8])
    requires
        at + src@.len() <= old(buf)@.len(),
    ensures
        final(buf)@ == spliced(old(buf)@, at as int, src@),
{
    let mut i: usize = 0;
    while i < src.len()
        invariant
            i <= src@.len(),
            at + src@.len() <= buf.len(),
            buf@.len() == old(buf)@.len(),
            buf@ == spliced(old(buf)@, at as int, src@.subrange(0, i as int)),
        decreases src@.len() - i,
    {
        let b: u8 = src[i];
        buf[at + i] = b;
        i += 1;
        assert(buf@ =~= spliced(old(buf)@, at as int, src@.subrange(0, i as int)));
    }
    assert(src@.subrange(0, i as int) =~= src@);
}

/// A buffer of `n` equal bytes.
pub(crate) fn fill(n: usize, b: u8) -> (r: Vec<u8>)
    ensures
        r@ == filled(n as nat, b),
{
    let mut r: Vec<u8> = Vec::new();
    let mut i: usize = 0;
    while i < n
        invariant
            i <= n,
            r@ == filled(i as nat, b),
        decreases n - i,
    {
        r.push(b);
        i += 1;
        assert(r@ =~= filled(i as nat, b));
    }
    r
}

/// A copy of the bytes from `from` up to `to`.
pub(crate) fn slice(buf: &[u8], from: usize, to: usize) -> (r: Vec<u8>)
    requires
        from <= to <= buf@.len(),
    ensures
        r@ == buf@.subrange(from as int, to as int),
{
    let mut r: Vec<u8> = Vec::new();
    let mut i: usize = from;
    while i < to
        invariant
            from <= i <= to <= buf@.len(),
            r@ == buf@.subrange(from as int, i as int),
        decreases to - i,
    {
        let b: u8 = buf[i];
        r.push(b);
        i += 1;
        assert(r@ =~= buf@.subrange(from as int, i as int));
    }
    r
}

/// Appends the bytes of `src`.
pub(crate) fn extend(buf: &mut Vec<u8>, src: &[u8])
    ensures
        final(buf)@ == old(buf)@ + src@,
{
    let mut i: usize = 0;
    while i < src.len()
        invariant
            i <= src@.len(),
            buf@ == old(buf)@ + src@.subrange(0, i as int),
        decreases src@.len() - i,
    {
        let b: u8 = src[i];
        buf.push(b);
        i += 1;
        assert(buf@ =~= old(buf)@ + src@.subrange(0, i as int));
    }
    assert(src@.subrange(0, i as int) =~= src@);
}

/// The place of the lowest bit that is set; 0 for the number 0.
pub open spec fn lowest_bit(v: nat) -> nat
    decreases v,
{
    if v == 0 || v % 2 == 1 {
        0
    } else {
        1 + lowest_bit(v / 2)
    }
}

proof fn lemma_lowest_bit_small(v: nat, bits: nat)
    requires
        0 < bits,
        v < vstd::arithmetic::power2::pow2(bits),
    ensures
        lowest_bit(v) < bits,
    decreases bits,
{
    if v != 0 && v % 2 == 0 {
        vstd::arithmetic::power2::lemma_pow2_unfold(bits);
        if bits == 1 {
            vstd::arithmetic::power2::lemma2_to64();
        } else {
            lemma_lowest_bit_small(v / 2, (bits - 1) as nat);
        }
    }
}

/// The lowest bit of a number of sixteen bits is one of the sixteen.
pub proof fn lowest_bit_is_small(v: u16)
    ensures
        lowest_bit(v as nat) < 16,
{
    vstd::arithmetic::power2::lemma2_to64();
    lemma_lowest_bit_small(v as nat, 16);
}

/// Finds the place of the lowest bit that is set.
pub(crate) fn find_lowest_bit(v: u16) -> (r: u32)
    ensures
        r == lowest_bit(v as nat),
        r < 16,
{
    proof {
        lowest_bit_is_small(v);
    }
    let mut rest: u16 = v;
    let mut n: u32 = 0;
    while rest != 0 && rest % 2 == 0
        invariant
            n + lowest_bit(rest as nat) == lowest_bit(v as nat),
            lowest_bit(v as nat) < 16,
        decreases rest,
    {
        rest = rest / 2;
        n += 1;
    }
    n
}

/// Where the first zero from `i` on stands, or else the end.
pub open spec fn zero_from(s: Seq<u8>, i: int) -> int
    decreases s.len() - i,
{
    if i < 0 || i >= s.len() {
        s.len() as int
    } else if s[i] == 0 {
        i
    } else {
        zero_from(s, i + 1)
    }
}

/// Finds the first zero from `from` on, or else the end.
pub(crate) fn find_zero(s: &[u8], from: usize) -> (r: usize)
    requires
        from <= s@.len(),
    ensures
        r == zero_from(s@, from as int),
        from <= r <= s@.len(),
{
    let mut end: usize = from;
    while end < s.len() && s[end] != 0
        invariant
            from <= end <= s@.len(),
            zero_from(s@, from as int) == zero_from(s@, end as int),
        decreases s@.len() - end,
    {
        end += 1;
    }
    end
}

} // verus!
