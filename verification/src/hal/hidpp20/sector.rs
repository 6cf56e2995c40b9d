//! Reading and writing the sectors of the onboard memory, sixteen bytes at a
//! time.

use crate::bytes;
use crate::hal::hidpp20::error::HidppDriverError;
use crate::hal::hidpp20::feature::{FeatureRequest, RequestModel};
use vstd::prelude::*;

verus! {

pub const PROFILES_FN_MEMORY_READ: u8 = 0x05;

pub const PROFILES_FN_MEMORY_ADDR_WRITE: u8 = 0x06;

pub const PROFILES_FN_MEMORY_WRITE: u8 = 0x07;

pub const PROFILES_FN_MEMORY_WRITE_END: u8 = 0x08;

/// How often a sector is written before giving up.
pub const WRITE_RETRIES: usize = 3;

/// The contents of a list of requests.
pub open spec fn requests_view(s: Seq<FeatureRequest>) -> Seq<RequestModel> {
    s.map_values(|r: FeatureRequest| r@)
}

pub(crate) proof fn lemma_requests_push(s: Seq<FeatureRequest>, r: FeatureRequest)
    ensures
        requests_view(s.push(r)) == requests_view(s).push(r@),
{
    assert(requests_view(s.push(r)) =~= requests_view(s).push(r@));
}

/// A sector on its way in.
#[derive(Debug)]
pub struct SectorRead {
    feature: u8,
    sector: u16,
    start: u16,
    current: u16,
    end: u16,
    data: Vec<u8>,
}

/// The state of a [`SectorRead`]: which bytes are wanted, and those received.
#[verifier::ext_equal]
pub struct SectorReadModel {
    pub feature: u8,
    pub sector: u16,
    pub start: int,
    pub end: int,
    pub data: Seq<u8>,
}

impl SectorReadModel {
    /// The position of the next byte.
    pub open spec fn current(self) -> int {
        self.start + self.data.len()
    }

    pub open spec fn finished(self) -> bool {
        self.current() >= self.end
    }

    /// How many bytes the next answer contributes.
    pub open spec fn chunk(self) -> int {
        if self.end - self.current() < 16 {
            self.end - self.current()
        } else {
            16
        }
    }

    /// The position from which the next answer is read. A device refuses to
    /// read across the end of a sector, so the last piece is read from sixteen
    /// bytes before the end.
    pub open spec fn position(self) -> int {
        if self.chunk() == 16 {
            self.current()
        } else if self.end < 16 {
            0
        } else {
            self.end - 16
        }
    }

    /// The part of the next answer that is new.
    pub open spec fn fresh(self, reply: Seq<u8>) -> Seq<u8> {
        if self.position() == self.current() {
            reply.subrange(0, self.chunk())
        } else {
            reply.subrange(16 - self.chunk(), 16)
        }
    }

    /// The next request.
    pub open spec fn request(self) -> RequestModel {
        RequestModel::long(
            self.feature,
            PROFILES_FN_MEMORY_READ,
            bytes::padded(
                bytes::be_bytes(self.sector) + bytes::be_bytes(self.position() as u16),
                16,
            ),
        )
    }

    /// The state after an answer.
    pub open spec fn after(self, reply: Seq<u8>) -> SectorReadModel {
        SectorReadModel { data: self.data + self.fresh(reply), ..self }
    }
}

impl View for SectorRead {
    type V = SectorReadModel;

    closed spec fn view(&self) -> SectorReadModel {
        SectorReadModel {
            feature: self.feature,
            sector: self.sector,
            start: self.start as int,
            end: self.end as int,
            data: self.data@,
        }
    }
}

impl SectorRead {
    pub closed spec fn wf(&self) -> bool {
        &&& self.start <= self.current <= self.end
        &&& self.data@.len() == self.current - self.start
    }

    /// Begins to read `size` bytes of a sector from `offset` on.
    pub fn new(feature: u8, sector: u16, offset: u16, size: u16) -> (r: Self)
        requires
            offset + size <= u16::MAX,
        ensures
            r.wf(),
            r@ == (SectorReadModel {
                feature,
                sector,
                start: offset as int,
                end: offset + size,
                data: Seq::empty(),
            }),
    {
        SectorRead {
            feature,
            sector,
            start: offset,
            current: offset,
            end: offset + size,
            data: Vec::new(),
        }
    }

    /// The next request; none once every byte has arrived.
    pub fn next_request(&self) -> (r: Option<FeatureRequest>)
        requires
            self.wf(),
        ensures
            r is None <==> self@.finished(),
            r is Some ==> r->0@ == self@.request(),
    {
        if self.current >= self.end {
            return None;
        }
        let position: u16 = self.read_position();
        let mut params: Vec<u8> = bytes::fill(16, 0);
        params[0] = bytes::high_byte(self.sector);
        params[1] = bytes::low_byte(self.sector);
        params[2] = bytes::high_byte(position);
        params[3] = bytes::low_byte(position);
        assert(params@ =~= bytes::padded(
            bytes::be_bytes(self.sector) + bytes::be_bytes(position),
            16,
        ));
        Some(FeatureRequest::long(self.feature, PROFILES_FN_MEMORY_READ, params))
    }

    fn chunk_size(&self) -> (r: u16)
        requires
            self.wf(),
        ensures
            r == self@.chunk(),
    {
        if self.end - self.current < 16 {
            self.end - self.current
        } else {
            16
        }
    }

    fn read_position(&self) -> (r: u16)
        requires
            self.wf(),
        ensures
            r == self@.position(),
    {
        if self.chunk_size() < 16 {
            if self.end < 16 {
                0
            } else {
                self.end - 16
            }
        } else {
            self.current
        }
    }

    /// Takes in the answer to the request of [`SectorRead::next_request`].
    pub fn accept(&mut self, reply: &[u8; 16])
        requires
            old(self).wf(),
            !old(self)@.finished(),
        ensures
            final(self).wf(),
            final(self)@ == old(self)@.after(reply@),
    {
        let chunk: u16 = self.chunk_size();
        let piece: &[u8] = if self.read_position() == self.current {
            vstd::slice::slice_subrange(reply.as_slice(), 0, chunk as usize)
        } else {
            vstd::slice::slice_subrange(reply.as_slice(), 16 - chunk as usize, 16)
        };
        bytes::extend(&mut self.data, piece);
        self.current = self.current + chunk;
        assert(self@ =~= old(self)@.after(reply@));
    }

    /// The bytes that have arrived.
    pub fn into_data(self) -> (r: Vec<u8>)
        ensures
            r@ == self@.data,
    {
        self.data
    }
}

/// Whether an answer holds the bytes of `memory` from `position` on, as far as
/// the memory reaches.
pub open spec fn reply_shows(memory: Seq<u8>, position: int, reply: Seq<u8>) -> bool {
    reply.len() == 16 && forall|k: int|
        0 <= k < 16 && position + k < memory.len() ==> #[trigger] reply[k] == memory[position + k]
}

/// While a device answers each request with the bytes of its memory, the bytes
/// received are those of the memory, and in the end they are all that were
/// wanted. A read that ends within the first sixteen bytes must begin at 0.
pub proof fn sector_read_collects_memory(m: SectorReadModel, memory: Seq<u8>, reply: Seq<u8>)
    requires
        0 <= m.start,
        m.end <= memory.len(),
        !m.finished(),
        m.end >= 16 || m.current() == 0,
        m.data == memory.subrange(m.start, m.current()),
        reply_shows(memory, m.position(), reply),
    ensures
        m.after(reply).data == memory.subrange(m.start, m.after(reply).current()),
        m.current() < m.after(reply).current() <= m.end,
        m.after(reply).finished() ==> m.after(reply).data == memory.subrange(m.start, m.end),
{
    let n = m.after(reply);
    let c = m.chunk();
    assert(m.fresh(reply).len() == c);
    assert forall|k: int| 0 <= k < c implies m.fresh(reply)[k] == memory[m.current() + k] by {
        if m.position() == m.current() {
            assert(m.fresh(reply)[k] == reply[k]);
        } else {
            assert(m.fresh(reply)[k] == reply[16 - c + k]);
        }
    }
    assert(n.data =~= memory.subrange(m.start, n.current()));
}

/// The requests that write `data` to a sector from `offset` on.
pub open spec fn sector_write(feature: u8, sector: u16, offset: u16, data: Seq<u8>) -> Seq<
    RequestModel,
> {
    seq![
        RequestModel::long(
            feature,
            PROFILES_FN_MEMORY_ADDR_WRITE,
            bytes::padded(
                bytes::be_bytes(sector) + bytes::be_bytes(offset) + bytes::be_bytes(
                    data.len() as u16,
                ),
                16,
            ),
        ),
    ] + write_chunks(feature, data, chunk_count(data.len() as int)) + seq![
        RequestModel::brief(feature, PROFILES_FN_MEMORY_WRITE_END, Seq::empty()),
    ]
}

/// How many pieces of sixteen bytes cover `len` bytes.
pub open spec fn chunk_count(len: int) -> nat {
    ((len + 15) / 16) as nat
}

/// The requests that carry the first `n` pieces of `data`; the last piece is
/// filled up with zeros.
pub open spec fn write_chunks(feature: u8, data: Seq<u8>, n: nat) -> Seq<RequestModel> {
    Seq::new(
        n,
        |i: int|
            RequestModel::long(
                feature,
                PROFILES_FN_MEMORY_WRITE,
                bytes::padded(data.skip(16 * i), 16),
            ),
    )
}

/// Lists the requests that write `data` to a sector from `offset` on.
pub fn plan_sector_write(feature: u8, sector: u16, offset: u16, data: &Vec<u8>) -> (r: Vec<
    FeatureRequest,
>)
    ensures
        requests_view(r@) == sector_write(feature, sector, offset, data@),
{
    let size: u16 = data.len() as u16;
    let mut start: Vec<u8> = bytes::fill(16, 0);
    start[0] = bytes::high_byte(sector);
    start[1] = bytes::low_byte(sector);
    start[2] = bytes::high_byte(offset);
    start[3] = bytes::low_byte(offset);
    start[4] = bytes::high_byte(size);
    start[5] = bytes::low_byte(size);
    assert(start@ =~= bytes::padded(
        bytes::be_bytes(sector) + bytes::be_bytes(offset) + bytes::be_bytes(size),
        16,
    ));
    let mut r: Vec<FeatureRequest> = Vec::new();
    r.push(FeatureRequest::long(feature, PROFILES_FN_MEMORY_ADDR_WRITE, start));
    let ghost first = requests_view(r@);
    let mut at: usize = 0;
    let ghost mut n: nat = 0;
    assert(requests_view(r@) =~= first + write_chunks(feature, data@, 0));
    while at < data.len()
        invariant
            at <= data@.len(),
            at == 16 * n || at == data@.len(),
            at == data@.len() ==> n == chunk_count(data@.len() as int),
            at < data@.len() ==> at == 16 * n,
            requests_view(r@) == first + write_chunks(feature, data@, n),
        decreases data@.len() - at,
    {
        let left: usize = data.len() - at;
        let len: usize = if left < 16 {
            left
        } else {
            16
        };
        let mut payload: Vec<u8> = bytes::fill(16, 0);
        bytes::put(
            &mut payload,
            0,
            vstd::slice::slice_subrange(data.as_slice(), at, at + len),
        );
        assert(payload@ =~= bytes::padded(data@.skip(16 * n as int), 16));
        let request = FeatureRequest::long(feature, PROFILES_FN_MEMORY_WRITE, payload);
        proof {
            lemma_requests_push(r@, request);
            assert(write_chunks(feature, data@, n + 1) =~= write_chunks(feature, data@, n).push(
                request@,
            ));
            assert((first + write_chunks(feature, data@, n)).push(request@) =~= first
                + write_chunks(feature, data@, n).push(request@));
            n = n + 1;
        }
        r.push(request);
        at += len;
    }
    let end = FeatureRequest::brief(feature, PROFILES_FN_MEMORY_WRITE_END, Vec::new());
    proof {
        lemma_requests_push(r@, end);
        assert(end@ =~= RequestModel::brief(feature, PROFILES_FN_MEMORY_WRITE_END, Seq::empty()));
    }
    r.push(end);
    assert(requests_view(r@) =~= sector_write(feature, sector, offset, data@));
    r
}

/// The requests of a write carry every byte of the data, in order.
pub proof fn sector_write_carries_data(
    feature: u8,
    sector: u16,
    offset: u16,
    data: Seq<u8>,
    i: int,
)
    requires
        0 <= i < data.len(),
    ensures
        sector_write(feature, sector, offset, data)[1 + i / 16].function
            == PROFILES_FN_MEMORY_WRITE,
        sector_write(feature, sector, offset, data)[1 + i / 16].params[i % 16] == data[i],
        sector_write(feature, sector, offset, data).len() == 2 + chunk_count(data.len() as int),
{
    assert(i / 16 < chunk_count(data.len() as int));
    assert(data.skip(16 * (i / 16))[i % 16] == data[i]);
}

/// How long to wait before a sector is written again; see
/// [`write_retry_delay`].
pub open spec fn retry_delay(attempt: int) -> Option<u64> {
    if attempt + 1 < WRITE_RETRIES {
        Some((15 * (attempt + 1)) as u64)
    } else {
        None
    }
}

/// How long to wait, in ms, before a sector is written again once the attempt
/// of that number (counted from 0) has failed; nothing after the last attempt.
pub fn write_retry_delay(attempt: usize) -> (r: Option<u64>)
    ensures
        r == retry_delay(attempt as int),
{
    if attempt < WRITE_RETRIES - 1 {
        Some(15 * (attempt as u64 + 1))
    } else {
        None
    }
}

/// How far the write of a sector has come.
#[derive(Debug)]
pub enum SectorWritePhase {
    /// The request at this place is to be sent.
    Send(usize),
    /// The device is to be left alone for so many ms.
    Pause(u64),
    /// The sector is written.
    Done,
    /// Every attempt has failed, the last one so.
    Failed(HidppDriverError),
}

/// The write of a sector under way. An attempt that fails is followed by a
/// pause and by another one from the beginning, up to [`WRITE_RETRIES`].
#[derive(Debug)]
pub struct SectorWrite {
    pub phase: SectorWritePhase,
    /// The number of the attempt, counted from 0.
    pub attempt: usize,
    requests: Vec<FeatureRequest>,
}

/// The contents of a [`SectorWrite`].
#[verifier::ext_equal]
pub struct SectorWriteModel {
    pub phase: SectorWritePhase,
    pub attempt: int,
    pub requests: Seq<RequestModel>,
}

impl View for SectorWrite {
    type V = SectorWriteModel;

    closed spec fn view(&self) -> SectorWriteModel {
        SectorWriteModel {
            phase: self.phase,
            attempt: self.attempt as int,
            requests: requests_view(self.requests@),
        }
    }
}

impl SectorWriteModel {
    /// The beginning of a write.
    pub open spec fn start(feature: u8, sector: u16, data: Seq<u8>) -> SectorWriteModel {
        SectorWriteModel {
            phase: SectorWritePhase::Send(0),
            attempt: 0,
            requests: sector_write(feature, sector, 0, data),
        }
    }

    pub open spec fn at(self, phase: SectorWritePhase) -> SectorWriteModel {
        SectorWriteModel { phase, ..self }
    }

    pub open spec fn consistent(self) -> bool {
        &&& 0 <= self.attempt < WRITE_RETRIES
        &&& 0 < self.requests.len() <= usize::MAX
        &&& match self.phase {
            SectorWritePhase::Send(i) => i < self.requests.len(),
            _ => true,
        }
    }

    /// The state after the request was answered, or failed.
    pub open spec fn after(self, result: Result<(), HidppDriverError>) -> SectorWriteModel {
        match self.phase {
            SectorWritePhase::Send(i) => match result {
                Ok(_) => if i + 1 < self.requests.len() {
                    self.at(SectorWritePhase::Send((i + 1) as usize))
                } else {
                    self.at(SectorWritePhase::Done)
                },
                Err(e) => match retry_delay(self.attempt) {
                    Some(ms) => SectorWriteModel {
                        phase: SectorWritePhase::Pause(ms),
                        attempt: self.attempt + 1,
                        ..self
                    },
                    None => self.at(SectorWritePhase::Failed(e)),
                },
            },
            _ => self,
        }
    }

    /// The state after a pause.
    pub open spec fn rested(self) -> SectorWriteModel {
        match self.phase {
            SectorWritePhase::Pause(_) => self.at(SectorWritePhase::Send(0)),
            _ => self,
        }
    }

    /// The state after a number of answers.
    pub open spec fn answered(self, times: nat) -> SectorWriteModel
        decreases times,
    {
        if times == 0 {
            self
        } else {
            self.answered((times - 1) as nat).after(Ok(()))
        }
    }
}

impl SectorWrite {
    /// Begins to write a whole sector.
    pub fn new(feature: u8, sector: u16, data: &Vec<u8>) -> (r: Self)
        ensures
            r@ == SectorWriteModel::start(feature, sector, data@),
            r@.consistent(),
    {
        let requests = plan_sector_write(feature, sector, 0, data);
        assert(requests_view(requests@).len() == requests.len());
        SectorWrite { phase: SectorWritePhase::Send(0), attempt: 0, requests }
    }

    /// The request to send next, if one is to be sent now.
    pub fn request(&self) -> (r: Option<&FeatureRequest>)
        requires
            self@.consistent(),
        ensures
            match self@.phase {
                SectorWritePhase::Send(i) => r is Some && r->0@ == self@.requests[i as int],
                _ => r is None,
            },
    {
        match self.phase {
            SectorWritePhase::Send(i) => {
                assert(requests_view(self.requests@)[i as int] == self.requests@[i as int]@);
                Some(&self.requests[i])
            },
            _ => None,
        }
    }

    /// Takes notice of what became of the request.
    pub fn done(&mut self, result: Result<(), HidppDriverError>)
        requires
            old(self)@.consistent(),
        ensures
            final(self)@ == old(self)@.after(result),
            final(self)@.consistent(),
    {
        assert(requests_view(self.requests@).len() == self.requests.len());
        let place: Option<usize> = match &self.phase {
            SectorWritePhase::Send(i) => Some(*i),
            _ => None,
        };
        let i: usize = match place {
            Some(i) => i,
            None => {
                return;
            },
        };
        match result {
            Ok(_) => {
                self.phase = if i + 1 < self.requests.len() {
                    SectorWritePhase::Send(i + 1)
                } else {
                    SectorWritePhase::Done
                };
            },
            Err(e) => match write_retry_delay(self.attempt) {
                Some(ms) => {
                    self.attempt += 1;
                    self.phase = SectorWritePhase::Pause(ms);
                },
                None => {
                    self.phase = SectorWritePhase::Failed(e);
                },
            },
        }
    }

    /// Goes on after a pause.
    pub fn resume(&mut self)
        requires
            old(self)@.consistent(),
        ensures
            final(self)@ == old(self)@.rested(),
            final(self)@.consistent(),
    {
        let paused: bool = match &self.phase {
            SectorWritePhase::Pause(_) => true,
            _ => false,
        };
        if paused {
            self.phase = SectorWritePhase::Send(0);
        }
    }
}

/// The write of a sector is complete once every request of one attempt was
/// answered, and not before.
pub proof fn complete_write_was_answered(m: SectorWriteModel, times: nat)
    requires
        m.consistent(),
        m.phase == SectorWritePhase::Send(0),
        times <= m.requests.len(),
    ensures
        m.answered(times).phase == if times < m.requests.len() {
            SectorWritePhase::Send(times as usize)
        } else {
            SectorWritePhase::Done
        },
        m.answered(times).attempt == m.attempt,
        m.answered(times).requests == m.requests,
    decreases times,
{
    if times > 0 {
        complete_write_was_answered(m, (times - 1) as nat);
    }
}

/// A failed request costs one attempt, and the last attempt ends the write.
pub proof fn failed_write_is_repeated(m: SectorWriteModel, e: HidppDriverError)
    requires
        m.consistent(),
        m.phase is Send,
    ensures
        m.attempt + 1 < WRITE_RETRIES ==> m.after(Err(e)).rested() == (SectorWriteModel {
            phase: SectorWritePhase::Send(0),
            attempt: m.attempt + 1,
            ..m
        }),
        m.attempt + 1 == WRITE_RETRIES ==> m.after(Err(e)).phase == SectorWritePhase::Failed(e),
{
}

} // verus!
