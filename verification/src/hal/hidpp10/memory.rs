//! Reading and writing the memory of a device.

use crate::bytes;
use crate::hal::hidpp;
use crate::hal::hidpp10::register::{
    Hidpp10Request, REG_MEMORY_MANAGEMENT, REG_READ_MEMORY, ReplyKind, RequestModel,
    SUB_ID_GET_LONG_REGISTER, SUB_ID_SET_LONG_REGISTER,
};
use vstd::prelude::*;

verus! {

pub const CMD_HOT_CONTROL: u8 = 0xA1;

pub const HOT_WRITE: u8 = 0x92;

pub const HOT_CONTINUE: u8 = 0x93;

pub const MAX_PAGE_NUMBER: u8 = 31;

/// Why memory cannot be reached.
#[derive(Debug, Clone, Copy, PartialEq, Eq, Structural)]
pub enum MemoryError {
    /// The device counts in words of two bytes.
    OddOffset,
    NoSuchPage { page: u8 },
}

/// The request for the sixteen bytes at a place of a page.
pub open spec fn read_request(device: u8, page: u8, offset: u16) -> RequestModel {
    RequestModel::short_for_long(
        device,
        SUB_ID_GET_LONG_REGISTER,
        REG_READ_MEMORY,
        seq![page, (offset / 2 % 256) as u8, 0u8],
    )
}

/// The request for the sixteen bytes at a place of a page.
pub fn read_memory(device: u8, page: u8, offset: u16) -> (r: Result<Hidpp10Request, MemoryError>)
    ensures
        match r {
            Ok(q) => offset % 2 == 0 && page <= MAX_PAGE_NUMBER && q@ == read_request(
                device,
                page,
                offset,
            ),
            Err(MemoryError::OddOffset) => offset % 2 == 1,
            Err(MemoryError::NoSuchPage { page: p }) => offset % 2 == 0 && page > MAX_PAGE_NUMBER
                && p == page,
        },
{
    if offset % 2 != 0 {
        return Err(MemoryError::OddOffset);
    }
    if page > MAX_PAGE_NUMBER {
        return Err(MemoryError::NoSuchPage { page });
    }
    let params: [u8; 3] = [page, (offset / 2 % 256) as u8, 0];
    assert(params@ =~= seq![page, (offset / 2 % 256) as u8, 0u8]);
    Ok(Hidpp10Request::short_for_long(device, SUB_ID_GET_LONG_REGISTER, REG_READ_MEMORY, &params))
}

/// The request that erases a page.
pub open spec fn erase_request(device: u8, page: u8) -> RequestModel {
    RequestModel::long(
        device,
        SUB_ID_SET_LONG_REGISTER,
        REG_MEMORY_MANAGEMENT,
        bytes::filled(16, 0).update(0, 2).update(6, page),
    )
}

/// The request that erases a page.
pub fn erase_memory(device: u8, page: u8) -> (r: Hidpp10Request)
    ensures
        r@ == erase_request(device, page),
{
    let mut payload: [u8; 16] = [0u8; 16];
    payload[0] = 0x02;
    payload[6] = page;
    assert(payload@ =~= bytes::filled(16, 0).update(0, 2).update(6, page));
    Hidpp10Request::long(device, SUB_ID_SET_LONG_REGISTER, REG_MEMORY_MANAGEMENT, &payload)
}

/// The request that copies bytes from one place to another.
pub open spec fn copy_request(
    device: u8,
    src_page: u8,
    src_offset: u16,
    dst_page: u8,
    dst_offset: u16,
    size: u16,
) -> RequestModel {
    RequestModel::long(
        device,
        SUB_ID_SET_LONG_REGISTER,
        REG_MEMORY_MANAGEMENT,
        bytes::filled(16, 0).update(0, 3).update(2, src_page).update(
            3,
            (src_offset / 2 % 256) as u8,
        ).update(6, dst_page).update(7, (dst_offset / 2 % 256) as u8).update(
            10,
            bytes::hi8(size),
        ).update(11, bytes::lo8(size)),
    )
}

/// The request that copies bytes from one place to another.
pub fn write_flash(
    device: u8,
    src_page: u8,
    src_offset: u16,
    dst_page: u8,
    dst_offset: u16,
    size: u16,
) -> (r: Result<Hidpp10Request, MemoryError>)
    ensures
        match r {
            Ok(q) => src_offset % 2 == 0 && dst_offset % 2 == 0 && q@ == copy_request(
                device,
                src_page,
                src_offset,
                dst_page,
                dst_offset,
                size,
            ),
            Err(e) => (src_offset % 2 == 1 || dst_offset % 2 == 1) && e == MemoryError::OddOffset,
        },
{
    if src_offset % 2 != 0 || dst_offset % 2 != 0 {
        return Err(MemoryError::OddOffset);
    }
    let mut payload: [u8; 16] = [0u8; 16];
    payload[0] = 0x03;
    payload[2] = src_page;
    payload[3] = (src_offset / 2 % 256) as u8;
    payload[6] = dst_page;
    payload[7] = (dst_offset / 2 % 256) as u8;
    payload[10] = bytes::high_byte(size);
    payload[11] = bytes::low_byte(size);
    assert(payload@ =~= bytes::filled(16, 0).update(0, 3).update(2, src_page).update(
        3,
        (src_offset / 2 % 256) as u8,
    ).update(6, dst_page).update(7, (dst_offset / 2 % 256) as u8).update(
        10,
        bytes::hi8(size),
    ).update(11, bytes::lo8(size)));
    Ok(Hidpp10Request::long(device, SUB_ID_SET_LONG_REGISTER, REG_MEMORY_MANAGEMENT, &payload))
}

/// The request that begins a payload.
pub open spec fn reset_request(device: u8) -> RequestModel {
    RequestModel::set(device, CMD_HOT_CONTROL, seq![1u8, 0u8, 0u8])
}

/// How many parts a payload has: seven bytes in the first, sixteen in each of
/// the others.
pub open spec fn part_count(len: int) -> int {
    if len <= 0 {
        0
    } else if len <= 7 {
        1
    } else {
        1 + (len - 7 + 15) / 16
    }
}

/// Where the bytes of part `j` begin.
pub open spec fn part_start(j: int) -> int {
    if j == 0 {
        0
    } else {
        7 + 16 * (j - 1)
    }
}

/// Where the bytes of part `j` end.
pub open spec fn part_end(len: int, j: int) -> int {
    if part_start(j + 1) < len {
        part_start(j + 1)
    } else {
        len
    }
}

/// What stands before the bytes of part `j`.
pub open spec fn part_header(device: u8, page: u8, offset: u16, len: int, j: int) -> Seq<u8> {
    if j == 0 {
        seq![
            hidpp::REPORT_ID_LONG,
            device,
            HOT_WRITE,
            0u8,
            1u8,
            page,
            (offset / 2 % 256) as u8,
            0u8,
            0u8,
            (len / 256 % 256) as u8,
            (len % 256) as u8,
            0u8,
            0u8,
        ]
    } else {
        seq![hidpp::REPORT_ID_LONG, device, HOT_CONTINUE, (j % 256) as u8]
    }
}

/// Part `j` of a payload for a place of a page.
pub open spec fn part_request(device: u8, page: u8, offset: u16, data: Seq<u8>, j: int) -> RequestModel {
    let len = data.len() as int;
    RequestModel {
        wire: bytes::padded(
            part_header(device, page, offset, len, j) + data.subrange(
                part_start(j),
                part_end(len, j),
            ),
            20,
        ),
        reply: ReplyKind::Notice { device, id: (j % 256) as u8 },
    }
}

/// The requests that send a payload to a place of a page.
pub open spec fn payload_requests(device: u8, page: u8, offset: u16, data: Seq<u8>) -> Seq<
    RequestModel,
> {
    seq![reset_request(device)] + Seq::new(
        part_count(data.len() as int) as nat,
        |j: int| part_request(device, page, offset, data, j),
    )
}

/// The contents of a list of requests.
pub open spec fn requests_view(s: Seq<Hidpp10Request>) -> Seq<RequestModel> {
    s.map_values(|r: Hidpp10Request| r@)
}

pub(crate) proof fn lemma_requests_push(s: Seq<Hidpp10Request>, r: Hidpp10Request)
    ensures
        requests_view(s.push(r)) == requests_view(s).push(r@),
{
    assert(requests_view(s.push(r)) =~= requests_view(s).push(r@));
}

/// Every byte of a payload is in one of its parts: the first seven in the
/// first, and each sixteen of the others in the next.
pub proof fn payload_carries_data(device: u8, page: u8, offset: u16, data: Seq<u8>, k: int)
    requires
        0 <= k < data.len(),
    ensures
        ({
            let j: int = if k < 7 {
                0
            } else {
                1 + (k - 7) / 16
            };
            let at: int = if k < 7 {
                13 + k
            } else {
                4 + (k - 7) % 16
            };
            &&& j < part_count(data.len() as int)
            &&& payload_requests(device, page, offset, data)[1 + j].wire[at] == data[k]
        }),
{
    let j: int = if k < 7 {
        0
    } else {
        1 + (k - 7) / 16
    };
    let len = data.len() as int;
    let part = part_request(device, page, offset, data, j);
    let head = part_header(device, page, offset, len, j);
    let body = data.subrange(part_start(j), part_end(len, j));
    assert(part_start(j) <= k < part_end(len, j));
    assert(body[k - part_start(j)] == data[k]);
    assert((head + body)[head.len() + (k - part_start(j))] == data[k]);
}

fn build_part(device: u8, page: u8, offset: u16, data: &[u8], j: usize) -> (r: Hidpp10Request)
    requires
        j < part_count(data@.len() as int),
    ensures
        r@ == part_request(device, page, offset, data@, j as int),
{
    let len: usize = data.len();
    let id: u8 = (j % 256) as u8;
    let mut wire: Vec<u8> = vec![hidpp::REPORT_ID_LONG, device];
    let from: usize;
    if j == 0 {
        let header: [u8; 11] = [
            HOT_WRITE,
            0,
            1,
            page,
            (offset / 2 % 256) as u8,
            0,
            0,
            (len / 256 % 256) as u8,
            (len % 256) as u8,
            0,
            0,
        ];
        bytes::extend(&mut wire, header.as_slice());
        from = 0;
    } else {
        wire.push(HOT_CONTINUE);
        wire.push(id);
        from = 7 + 16 * (j - 1);
    }
    let ghost head = part_header(device, page, offset, len as int, j as int);
    assert(wire@ =~= head);
    let room: usize = 20 - wire.len();
    assert(from == part_start(j as int));
    assert(from < len);
    let to: usize = if room < len - from {
        from + room
    } else {
        len
    };
    assert(to == part_end(len as int, j as int));
    let body = bytes::slice(data, from, to);
    bytes::extend(&mut wire, body.as_slice());
    let missing: usize = 20 - wire.len();
    let pad = bytes::fill(missing, 0);
    bytes::extend(&mut wire, pad.as_slice());
    assert(wire@ =~= part_request(device, page, offset, data@, j as int).wire);
    Hidpp10Request { wire, reply: ReplyKind::Notice { device, id } }
}

/// Adds the requests that send a payload to a place of a page. At an odd place
/// nothing but the beginning of a payload can be sent.
pub fn send_hot_payload(
    device: u8,
    page: u8,
    offset: u16,
    data: &[u8],
    plan: &mut Vec<Hidpp10Request>,
) -> (r: Result<(), MemoryError>)
    ensures
        match r {
            Ok(_) => (offset % 2 == 0 || data@.len() == 0) && requests_view(final(plan)@)
                == requests_view(old(plan)@) + payload_requests(device, page, offset, data@),
            Err(e) => e == MemoryError::OddOffset && offset % 2 == 1 && data@.len() > 0
                && requests_view(final(plan)@) == requests_view(old(plan)@).push(
                reset_request(device),
            ),
        },
{
    let reset: [u8; 3] = [1, 0, 0];
    assert(reset@ =~= seq![1u8, 0u8, 0u8]);
    let q = Hidpp10Request::set_register(device, CMD_HOT_CONTROL, &reset);
    proof {
        lemma_requests_push(plan@, q);
    }
    plan.push(q);
    let ghost all = payload_requests(device, page, offset, data@);
    let len: usize = data.len();
    let count: usize = if len == 0 {
        0
    } else if len <= 7 {
        1
    } else {
        2 + (len - 8) / 16
    };
    assert(requests_view(plan@) =~= requests_view(old(plan)@) + all.take(1));
    if offset % 2 != 0 && len > 0 {
        return Err(MemoryError::OddOffset);
    }
    let mut j: usize = 0;
    while j < count
        invariant
            j <= count,
            count == part_count(data@.len() as int),
            all == payload_requests(device, page, offset, data@),
            requests_view(plan@) == requests_view(old(plan)@) + all.take(1 + j),
        decreases count - j,
    {
        let part = build_part(device, page, offset, data, j);
        proof {
            lemma_requests_push(plan@, part);
            assert(all.take(2 + j) =~= all.take(1 + j).push(part@));
        }
        plan.push(part);
        assert(requests_view(plan@) =~= requests_view(old(plan)@) + all.take(2 + j));
        j += 1;
    }
    assert(all.take(1 + j) =~= all);
    Ok(())
}

/// A page on its way in.
#[derive(Debug)]
pub struct PageRead {
    data: Vec<u8>,
}

impl View for PageRead {
    type V = Seq<u8>;

    closed spec fn view(&self) -> Seq<u8> {
        self.data@
    }
}

/// Whether so many bytes of a page can be there.
pub open spec fn page_progress(data: Seq<u8>) -> bool {
    data.len() <= 512 && data.len() % 16 == 0
}

impl PageRead {
    pub fn new() -> (r: Self)
        ensures
            r@ == Seq::<u8>::empty(),
    {
        PageRead { data: Vec::new() }
    }

    /// Where the bytes lie that are wanted next; `None` once the page is
    /// complete.
    pub fn wants(&self) -> (r: Option<u16>)
        requires
            page_progress(self@),
        ensures
            match r {
                Some(offset) => self@.len() < 512 && offset == self@.len() && offset % 2 == 0,
                None => self@.len() == 512,
            },
    {
        if self.data.len() < 512 {
            Some(self.data.len() as u16)
        } else {
            None
        }
    }

    /// Takes sixteen bytes.
    pub fn accept(&mut self, chunk: &[u8; 16])
        requires
            page_progress(old(self)@),
            old(self)@.len() < 512,
        ensures
            final(self)@ == old(self)@ + chunk@,
            page_progress(final(self)@),
    {
        bytes::extend(&mut self.data, chunk.as_slice());
    }

    /// Does without sixteen bytes: those of erased memory take their place.
    pub fn skip(&mut self)
        requires
            page_progress(old(self)@),
            old(self)@.len() < 512,
        ensures
            final(self)@ == old(self)@ + bytes::filled(16, 0xFF),
            page_progress(final(self)@),
    {
        let blank = bytes::fill(16, 0xFF);
        bytes::extend(&mut self.data, blank.as_slice());
    }

    /// The bytes.
    pub fn data(&self) -> (r: &Vec<u8>)
        ensures
            r@ == self@,
    {
        &self.data
    }
}

} // verus!
