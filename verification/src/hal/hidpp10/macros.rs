//! Macros as they lie in the memory of a device.

use crate::bytes;
use crate::hal::hidpp;
use crate::hal::hidpp10::memory;
use vstd::prelude::*;

verus! {

pub const MACRO_NOOP: u8 = 0x00;

pub const MACRO_WAIT_FOR_BUTTON_RELEASE: u8 = 0x01;

pub const MACRO_REPEAT_UNTIL_BUTTON_RELEASE: u8 = 0x02;

pub const MACRO_REPEAT: u8 = 0x03;

pub const MACRO_KEY_PRESS: u8 = 0x20;

pub const MACRO_KEY_RELEASE: u8 = 0x21;

pub const MACRO_MOD_PRESS: u8 = 0x22;

pub const MACRO_MOD_RELEASE: u8 = 0x23;

pub const MACRO_MOUSE_WHEEL: u8 = 0x24;

pub const MACRO_MOUSE_BUTTON_PRESS: u8 = 0x40;

pub const MACRO_MOUSE_BUTTON_RELEASE: u8 = 0x41;

pub const MACRO_CONSUMER_CONTROL: u8 = 0x42;

pub const MACRO_DELAY: u8 = 0x43;

pub const MACRO_JUMP: u8 = 0x44;

pub const MACRO_JUMP_IF_PRESSED: u8 = 0x45;

pub const MACRO_MOUSE_POINTER_MOVE: u8 = 0x60;

pub const MACRO_JUMP_IF_RELEASED_TIMEOUT: u8 = 0x61;

pub const MACRO_END: u8 = 0xFF;

/// How many events of a macro are read at most.
pub const MAX_MACRO_EVENTS: usize = 256;

/// How many jumps are followed at most without an event between them. There are
/// 32 pages with 128 places each that a jump can lead to, so that more jumps in
/// a row lead in a circle.
pub const MAX_MACRO_JUMPS: usize = 4097;

/// One instruction of a macro.
#[derive(Debug, Clone, Copy, PartialEq, Eq, Structural)]
pub enum MacroEvent {
    Noop,
    WaitForButtonRelease,
    RepeatUntilButtonRelease,
    Repeat,
    KeyPress { key: u8 },
    KeyRelease { key: u8 },
    ModPress { key: u8 },
    ModRelease { key: u8 },
    MouseWheel { value: i8 },
    MouseButtonPress { button: u16 },
    MouseButtonRelease { button: u16 },
    ConsumerControl { usage: u16 },
    Delay { time_ms: u16 },
    Jump { page: u8, offset: u8 },
    JumpIfPressed { page: u8, offset: u8 },
    MousePointerMove { x_rel: i16, y_rel: u16 },
    JumpIfReleasedTimeout { timeout_ms: u16, page: u8, offset: u8 },
    End,
    Unknown { tag: u8 },
}

/// How many bytes the instruction with a tag takes; `None` for the end of a
/// macro and for tags that are not in use. The tags from 0x80 on are short
/// delays.
pub open spec fn instruction_size(tag: u8) -> Option<int> {
    if tag <= MACRO_REPEAT {
        Some(1)
    } else if MACRO_KEY_PRESS <= tag <= MACRO_MOUSE_WHEEL {
        Some(2)
    } else if MACRO_MOUSE_BUTTON_PRESS <= tag <= MACRO_JUMP_IF_PRESSED {
        Some(3)
    } else if tag == MACRO_MOUSE_POINTER_MOVE || tag == MACRO_JUMP_IF_RELEASED_TIMEOUT {
        Some(5)
    } else if 0x80 <= tag < MACRO_END {
        Some(1)
    } else {
        None
    }
}

/// How many bytes the instruction with a tag takes.
pub fn macro_instruction_size(tag: u8) -> (r: Option<usize>)
    ensures
        match r {
            Some(n) => instruction_size(tag) == Some(n as int) && 1 <= n <= 5,
            None => instruction_size(tag) is None,
        },
{
    if tag <= MACRO_REPEAT {
        Some(1)
    } else if MACRO_KEY_PRESS <= tag && tag <= MACRO_MOUSE_WHEEL {
        Some(2)
    } else if MACRO_MOUSE_BUTTON_PRESS <= tag && tag <= MACRO_JUMP_IF_PRESSED {
        Some(3)
    } else if tag == MACRO_MOUSE_POINTER_MOVE || tag == MACRO_JUMP_IF_RELEASED_TIMEOUT {
        Some(5)
    } else if 0x80 <= tag && tag < MACRO_END {
        Some(1)
    } else {
        None
    }
}

/// The delay of a short-delay tag in milliseconds: four ranges with steps of 4,
/// 8, 16 and 32.
pub open spec fn short_delay(tag: u8) -> int {
    if tag < 0xA0 {
        8 + (tag - 0x80) * 4
    } else if tag < 0xC0 {
        132 + (tag - 0x9F) * 8
    } else if tag < 0xE0 {
        388 + (tag - 0xBF) * 16
    } else {
        900 + (tag - 0xDF) * 32
    }
}

/// The signed number that a byte stands for.
pub open spec fn signed8(b: u8) -> i8 {
    if b < 128 {
        b as i8
    } else {
        (b - 256) as i8
    }
}

/// The signed number that two bytes stand for.
pub open spec fn signed16(v: u16) -> i16 {
    if v < 32768 {
        v as i16
    } else {
        (v - 65536) as i16
    }
}

/// The instruction with a tag and the bytes that follow it.
pub open spec fn instruction(tag: u8, a: u8, b: u8, c: u8, d: u8) -> MacroEvent {
    match tag {
        0x00 => MacroEvent::Noop,
        0x01 => MacroEvent::WaitForButtonRelease,
        0x02 => MacroEvent::RepeatUntilButtonRelease,
        0x03 => MacroEvent::Repeat,
        0x20 => MacroEvent::KeyPress { key: a },
        0x21 => MacroEvent::KeyRelease { key: a },
        0x22 => MacroEvent::ModPress { key: a },
        0x23 => MacroEvent::ModRelease { key: a },
        0x24 => MacroEvent::MouseWheel { value: signed8(a) },
        0x40 => MacroEvent::MouseButtonPress {
            button: hidpp::button_of_mask(bytes::be16(b, a)) as u16,
        },
        0x41 => MacroEvent::MouseButtonRelease {
            button: hidpp::button_of_mask(bytes::be16(b, a)) as u16,
        },
        0x42 => MacroEvent::ConsumerControl { usage: bytes::be16(a, b) },
        0x43 => MacroEvent::Delay { time_ms: bytes::be16(a, b) },
        0x44 => MacroEvent::Jump { page: a, offset: b },
        0x45 => MacroEvent::JumpIfPressed { page: a, offset: b },
        0x60 => MacroEvent::MousePointerMove {
            x_rel: signed16(bytes::be16(a, b)),
            y_rel: bytes::be16(c, d),
        },
        0x61 => MacroEvent::JumpIfReleasedTimeout {
            timeout_ms: bytes::be16(a, b),
            page: c,
            offset: d,
        },
        _ => MacroEvent::Delay { time_ms: short_delay(tag) as u16 },
    }
}

/// The instruction at a position of a byte string, and its size; `None` if
/// there is no complete one.
pub open spec fn event_at(data: Seq<u8>, pos: int) -> Option<(MacroEvent, int)> {
    if pos < 0 || pos >= data.len() {
        None
    } else if data[pos] == MACRO_END {
        Some((MacroEvent::End, 1))
    } else {
        match instruction_size(data[pos]) {
            None => None,
            Some(size) => if pos + size > data.len() {
                None
            } else {
                Some(
                    (
                        instruction(
                            data[pos],
                            data[pos + 1],
                            data[pos + 2],
                            data[pos + 3],
                            data[pos + 4],
                        ),
                        size,
                    ),
                )
            },
        }
    }
}

fn to_signed8(b: u8) -> (r: i8)
    ensures
        r == signed8(b),
{
    if b < 128 {
        b as i8
    } else {
        (b as i16 - 256) as i8
    }
}

fn to_signed16(v: u16) -> (r: i16)
    ensures
        r == signed16(v),
{
    if v < 32768 {
        v as i16
    } else {
        (v as i32 - 65536) as i16
    }
}

fn delay_of_tag(tag: u8) -> (r: u16)
    requires
        0x80 <= tag < 0xFF,
    ensures
        r == short_delay(tag),
{
    if tag < 0xA0 {
        8 + (tag as u16 - 0x80) * 4
    } else if tag < 0xC0 {
        132 + (tag as u16 - 0x9F) * 8
    } else if tag < 0xE0 {
        388 + (tag as u16 - 0xBF) * 16
    } else {
        900 + (tag as u16 - 0xDF) * 32
    }
}

/// The instruction at a position of a byte string, and its size.
pub fn parse_macro_event(data: &[u8], pos: usize) -> (r: Option<(MacroEvent, usize)>)
    ensures
        match r {
            Some((event, size)) => event_at(data@, pos as int) == Some((event, size as int)) && 1
                <= size <= 5,
            None => event_at(data@, pos as int) is None,
        },
{
    if pos >= data.len() {
        return None;
    }
    let tag: u8 = data[pos];
    if tag == MACRO_END {
        return Some((MacroEvent::End, 1));
    }
    let size: usize = match macro_instruction_size(tag) {
        Some(n) => n,
        None => {
            return None;
        },
    };
    if size > data.len() - pos {
        return None;
    }
    let event = match tag {
        0x00 => MacroEvent::Noop,
        0x01 => MacroEvent::WaitForButtonRelease,
        0x02 => MacroEvent::RepeatUntilButtonRelease,
        0x03 => MacroEvent::Repeat,
        0x20 => MacroEvent::KeyPress { key: data[pos + 1] },
        0x21 => MacroEvent::KeyRelease { key: data[pos + 1] },
        0x22 => MacroEvent::ModPress { key: data[pos + 1] },
        0x23 => MacroEvent::ModRelease { key: data[pos + 1] },
        0x24 => MacroEvent::MouseWheel { value: to_signed8(data[pos + 1]) },
        0x40 => MacroEvent::MouseButtonPress {
            button: hidpp::button_for_mask(bytes::u16_from(data[pos + 2], data[pos + 1])) as u16,
        },
        0x41 => MacroEvent::MouseButtonRelease {
            button: hidpp::button_for_mask(bytes::u16_from(data[pos + 2], data[pos + 1])) as u16,
        },
        0x42 => MacroEvent::ConsumerControl {
            usage: bytes::u16_from(data[pos + 1], data[pos + 2]),
        },
        0x43 => MacroEvent::Delay { time_ms: bytes::u16_from(data[pos + 1], data[pos + 2]) },
        0x44 => MacroEvent::Jump { page: data[pos + 1], offset: data[pos + 2] },
        0x45 => MacroEvent::JumpIfPressed { page: data[pos + 1], offset: data[pos + 2] },
        0x60 => MacroEvent::MousePointerMove {
            x_rel: to_signed16(bytes::u16_from(data[pos + 1], data[pos + 2])),
            y_rel: bytes::u16_from(data[pos + 3], data[pos + 4]),
        },
        0x61 => MacroEvent::JumpIfReleasedTimeout {
            timeout_ms: bytes::u16_from(data[pos + 1], data[pos + 2]),
            page: data[pos + 3],
            offset: data[pos + 4],
        },
        _ => MacroEvent::Delay { time_ms: delay_of_tag(tag) },
    };
    Some((event, size))
}

/// A macro on its way in.
#[derive(Debug)]
pub struct MacroRead {
    page: u8,
    base: u16,
    data: Vec<u8>,
    at: usize,
    events: Vec<MacroEvent>,
    jumps: usize,
    done: bool,
}

/// The state of a [`MacroRead`]: the page and the place in it from which bytes
/// were read, those bytes, how many of them were used, the events found, and
/// how many jumps were followed since the last of them.
#[verifier::ext_equal]
pub struct MacroState {
    pub page: u8,
    pub base: int,
    pub data: Seq<u8>,
    pub at: int,
    pub events: Seq<MacroEvent>,
    pub jumps: int,
    pub done: bool,
}

impl MacroState {
    /// A macro that begins at a byte of a page. Memory is read from even places
    /// on.
    pub open spec fn start(page: u8, offset: u8) -> MacroState {
        MacroState {
            page,
            base: offset - offset % 2,
            data: Seq::empty(),
            at: (offset % 2) as int,
            events: Seq::empty(),
            jumps: 0,
            done: false,
        }
    }

    /// The page and the place of the sixteen bytes that are wanted next.
    pub open spec fn wants(self) -> Option<(u8, int)> {
        if self.done {
            None
        } else {
            Some((self.page, self.base + self.data.len()))
        }
    }

    /// Whether the bytes at hand may end within the next instruction, though
    /// there are more in the page.
    pub open spec fn short_of_data(self) -> bool {
        self.at + 5 > self.data.len() && self.base + self.data.len() <= 0xFF
    }

    /// After the instructions that the bytes at hand hold. A jump is followed
    /// and not recorded; it starts over in another place. Jumps that lead in a
    /// circle end the macro.
    pub open spec fn settled(self) -> MacroState
        decreases 256 - self.events.len(),
    {
        if self.events.len() >= 256 {
            MacroState { done: true, ..self }
        } else if self.short_of_data() {
            self
        } else {
            match event_at(self.data, self.at) {
                None => MacroState { done: true, ..self },
                Some((MacroEvent::End, size)) => MacroState {
                    events: self.events.push(MacroEvent::End),
                    done: true,
                    ..self
                },
                Some((MacroEvent::Jump { page, offset }, size)) => if self.jumps >= MAX_MACRO_JUMPS {
                    MacroState { done: true, ..self }
                } else {
                    MacroState {
                        page,
                        base: offset * 2 % 256,
                        data: Seq::empty(),
                        at: 0,
                        jumps: self.jumps + 1,
                        ..self
                    }
                },
                Some((event, size)) => MacroState {
                    events: self.events.push(event),
                    at: self.at + size,
                    jumps: 0,
                    ..self
                }.settled(),
            }
        }
    }

    /// After sixteen more bytes.
    pub open spec fn after(self, chunk: Seq<u8>) -> MacroState {
        MacroState { data: self.data + chunk, ..self }.settled()
    }

    /// What holds of every state.
    pub open spec fn consistent(self) -> bool {
        &&& 0 <= self.base <= 255
        &&& self.base % 2 == 0
        &&& self.data.len() % 16 == 0
        &&& self.base + self.data.len() <= 0x10F
        &&& 0 <= self.at <= self.data.len() + 5
        &&& self.events.len() <= 256
        &&& 0 <= self.jumps <= MAX_MACRO_JUMPS
        &&& !self.done ==> self.base + self.data.len() <= 0xFF
    }
}

proof fn lemma_settled_consistent(s: MacroState)
    requires
        0 <= s.base <= 255,
        s.base % 2 == 0,
        s.data.len() % 16 == 0,
        s.base + s.data.len() <= 0x10F,
        0 <= s.at <= s.data.len() + 5,
        s.events.len() <= 256,
        0 <= s.jumps <= MAX_MACRO_JUMPS,
        !s.done,
    ensures
        s.settled().consistent(),
        s.settled().done || s.settled().events.len() > s.events.len() || s.settled() == s || (
        s.settled().events == s.events && s.settled().jumps == s.jumps + 1),
    decreases 256 - s.events.len(),
{
    if s.events.len() < 256 && !s.short_of_data() {
        match event_at(s.data, s.at) {
            None => {},
            Some((MacroEvent::End, size)) => {},
            Some((MacroEvent::Jump { page, offset }, size)) => {
                assert((offset * 2 % 256) % 2 == 0);
            },
            Some((event, size)) => {
                lemma_settled_consistent(
                    MacroState { events: s.events.push(event), at: s.at + size, jumps: 0, ..s },
                );
            },
        }
    }
}

impl View for MacroRead {
    type V = MacroState;

    closed spec fn view(&self) -> MacroState {
        MacroState {
            page: self.page,
            base: self.base as int,
            data: self.data@,
            at: self.at as int,
            events: self.events@,
            jumps: self.jumps as int,
            done: self.done,
        }
    }
}

impl MacroRead {
    /// A macro that begins at a byte of a page.
    pub fn new(page: u8, offset: u8) -> (r: Self)
        ensures
            r@ == MacroState::start(page, offset),
            r@.consistent(),
    {
        let r = MacroRead {
            page,
            base: (offset - offset % 2) as u16,
            data: Vec::new(),
            at: (offset % 2) as usize,
            events: Vec::new(),
            jumps: 0,
            done: false,
        };
        assert(r@ =~= MacroState::start(page, offset));
        assert(r@.base % 2 == 0);
        r
    }

    /// The page and the place of the sixteen bytes that are wanted next.
    pub fn wants(&self) -> (r: Option<(u8, u16)>)
        requires
            self@.consistent(),
        ensures
            match r {
                Some((page, offset)) => self@.wants() == Some((page, offset as int)) && offset % 2
                    == 0,
                None => self@.wants() is None,
            },
    {
        if self.done {
            None
        } else {
            Some((self.page, self.base + self.data.len() as u16))
        }
    }

    /// Takes sixteen more bytes.
    pub fn accept(&mut self, chunk: &[u8; 16])
        requires
            old(self)@.consistent(),
            !old(self)@.done,
        ensures
            final(self)@ == old(self)@.after(chunk@),
            final(self)@.consistent(),
    {
        bytes::extend(&mut self.data, chunk.as_slice());
        let ghost target = self@.settled();
        assert(self@ =~= (MacroState { data: old(self)@.data + chunk@, ..old(self)@ }));
        proof {
            lemma_settled_consistent(self@);
        }
        loop
            invariant
                target == self@.settled(),
                target == old(self)@.after(chunk@),
                target.consistent(),
                self.events@.len() <= 256,
                self.base + self.data@.len() <= 0x10F,
                self.at <= self.data@.len() + 5,
                self.jumps <= MAX_MACRO_JUMPS,
                !self.done,
            decreases 256 - self.events@.len(),
        {
            if self.events.len() >= MAX_MACRO_EVENTS {
                self.done = true;
                return;
            }
            if self.at + 5 > self.data.len() && self.base as usize + self.data.len() <= 0xFF {
                return;
            }
            match parse_macro_event(self.data.as_slice(), self.at) {
                None => {
                    self.done = true;
                    return;
                },
                Some((event, size)) => {
                    match event {
                        MacroEvent::End => {
                            self.events.push(MacroEvent::End);
                            self.done = true;
                            return;
                        },
                        MacroEvent::Jump { page, offset } => {
                            if self.jumps >= MAX_MACRO_JUMPS {
                                self.done = true;
                                return;
                            }
                            self.jumps = self.jumps + 1;
                            self.page = page;
                            self.base = (offset as u16 * 2) % 256;
                            self.data = Vec::new();
                            self.at = 0;
                            assert(self@ =~= target);
                            return;
                        },
                        _ => {
                            let ghost before = self@;
                            self.events.push(event);
                            self.at = self.at + size;
                            self.jumps = 0;
                            assert(self@ =~= (MacroState {
                                events: before.events.push(event),
                                at: before.at + size,
                                jumps: 0,
                                ..before
                            }));
                        },
                    }
                },
            }
        }
    }

    /// The events of the macro so far.
    pub fn events_so_far(&self) -> (r: Vec<MacroEvent>)
        ensures
            r@ == self@.events,
    {
        let r = self.events.clone();
        assert(r@ =~= self.events@);
        r
    }
}

/// Where the memory ends that can be read in one go from a place of a page:
/// sixteen bytes at a time, each time from a place below 256.
pub open spec fn segment_end(base: int) -> int {
    base + (255 - base) / 16 * 16 + 16
}

/// The memory of a page from a place on.
pub open spec fn segment(mem: spec_fn(u8, int) -> u8, page: u8, base: int) -> Seq<u8> {
    Seq::new((segment_end(base) - base) as nat, |k: int| mem(page, base + k))
}

/// A place in a macro: the page, where reading began in it, how far it has
/// come, the events so far, the number of jumps since the last of them, and
/// whether the macro has ended.
#[verifier::ext_equal]
pub struct MacroPlace {
    pub page: u8,
    pub base: int,
    pub at: int,
    pub events: Seq<MacroEvent>,
    pub jumps: int,
    pub done: bool,
}

impl MacroPlace {
    /// After one instruction of a memory.
    pub open spec fn step(self, mem: spec_fn(u8, int) -> u8) -> MacroPlace {
        if self.done || self.events.len() >= 256 {
            MacroPlace { done: true, ..self }
        } else {
            match event_at(segment(mem, self.page, self.base), self.at) {
                None => MacroPlace { done: true, ..self },
                Some((MacroEvent::End, size)) => MacroPlace {
                    events: self.events.push(MacroEvent::End),
                    done: true,
                    ..self
                },
                Some((MacroEvent::Jump { page, offset }, size)) => if self.jumps >= MAX_MACRO_JUMPS {
                    MacroPlace { done: true, ..self }
                } else {
                    MacroPlace {
                        page,
                        base: offset * 2 % 256,
                        at: 0,
                        jumps: self.jumps + 1,
                        ..self
                    }
                },
                Some((event, size)) => MacroPlace {
                    events: self.events.push(event),
                    at: self.at + size,
                    jumps: 0,
                    ..self
                },
            }
        }
    }

    /// After `n` instructions of a memory.
    pub open spec fn run(self, mem: spec_fn(u8, int) -> u8, n: nat) -> MacroPlace
        decreases n,
    {
        if n == 0 {
            self
        } else {
            self.step(mem).run(mem, (n - 1) as nat)
        }
    }
}

impl MacroState {
    /// The place that the reading has come to.
    pub open spec fn place(self) -> MacroPlace {
        MacroPlace {
            page: self.page,
            base: self.base,
            at: self.at,
            events: self.events,
            jumps: self.jumps,
            done: self.done,
        }
    }

    /// Whether the bytes at hand are those of a memory.
    pub open spec fn read_from(self, mem: spec_fn(u8, int) -> u8) -> bool {
        &&& self.base + self.data.len() <= segment_end(self.base)
        &&& forall|k: int|
            0 <= k < self.data.len() ==> #[trigger] self.data[k] == mem(self.page, self.base + k)
    }
}

proof fn lemma_event_in_segment(s: MacroState, mem: spec_fn(u8, int) -> u8)
    requires
        0 <= s.base <= 255,
        s.data.len() % 16 == 0,
        s.at >= 0,
        s.read_from(mem),
        !s.short_of_data(),
    ensures
        event_at(s.data, s.at) == event_at(segment(mem, s.page, s.base), s.at),
{
    let seg = segment(mem, s.page, s.base);
    if s.base + s.data.len() > 0xFF {
        assert(s.data.len() == seg.len());
        assert(s.data =~= seg);
    } else {
        assert(s.at + 5 <= s.data.len());
        assert(forall|k: int| 0 <= k < s.data.len() ==> s.data[k] == seg[k]);
    }
}

proof fn lemma_settled_follows(s: MacroState, mem: spec_fn(u8, int) -> u8) -> (n: nat)
    requires
        0 <= s.base <= 255,
        s.data.len() % 16 == 0,
        0 <= s.at,
        !s.done,
        s.read_from(mem),
    ensures
        s.place().run(mem, n) == s.settled().place(),
        s.settled().read_from(mem),
    decreases 256 - s.events.len(),
{
    if s.events.len() >= 256 {
        assert(s.place().run(mem, 1) == s.place().step(mem).run(mem, 0));
        1
    } else if s.short_of_data() {
        0
    } else {
        lemma_event_in_segment(s, mem);
        match event_at(s.data, s.at) {
            None => {
                assert(s.place().run(mem, 1) == s.place().step(mem).run(mem, 0));
                1
            },
            Some((MacroEvent::End, size)) => {
                assert(s.place().run(mem, 1) == s.place().step(mem).run(mem, 0));
                1
            },
            Some((MacroEvent::Jump { page, offset }, size)) => {
                assert(s.place().run(mem, 1) == s.place().step(mem).run(mem, 0));
                1
            },
            Some((event, size)) => {
                let next = MacroState {
                    events: s.events.push(event),
                    at: s.at + size,
                    jumps: 0,
                    ..s
                };
                let n = lemma_settled_follows(next, mem);
                assert(s.place().step(mem) == next.place());
                assert(s.place().run(mem, n + 1) == next.place().run(mem, n));
                n + 1
            },
        }
    }
}

/// Reading a macro comes to the same events as running through the memory one
/// instruction at a time: with sixteen bytes of the memory where they were
/// wanted, the reading moves on to a place that the run comes to.
pub proof fn macro_reading_follows_memory(
    s: MacroState,
    chunk: Seq<u8>,
    mem: spec_fn(u8, int) -> u8,
)
    requires
        s.consistent(),
        !s.done,
        s.read_from(mem),
        chunk.len() == 16,
        forall|k: int|
            0 <= k < 16 ==> #[trigger] chunk[k] == mem(s.page, s.base + s.data.len() + k),
    ensures
        s.after(chunk).read_from(mem),
        exists|n: nat| #[trigger] s.place().run(mem, n) == s.after(chunk).place(),
{
    let fed = MacroState { data: s.data + chunk, ..s };
    assert forall|k: int| 0 <= k < fed.data.len() implies #[trigger] fed.data[k] == mem(
        fed.page,
        fed.base + k,
    ) by {
        if k >= s.data.len() {
            assert(fed.data[k] == chunk[k - s.data.len()]);
        }
    }
    let n = lemma_settled_follows(fed, mem);
    assert(fed.place() == s.place());
}

impl MacroState {
    /// A bound on the reads that are still to come.
    pub open spec fn reads_left(self) -> int {
        if self.done {
            0
        } else {
            (256 - self.events.len()) * 69666 + (MAX_MACRO_JUMPS - self.jumps) * 17 + (256
                - self.base - self.data.len()) / 16 + 1
        }
    }
}

/// Reading a macro ends: whatever a memory holds, each read brings it nearer to
/// its end.
pub proof fn macro_reading_makes_progress(s: MacroState, chunk: Seq<u8>)
    requires
        s.consistent(),
        !s.done,
        chunk.len() == 16,
    ensures
        0 <= s.after(chunk).reads_left() < s.reads_left(),
{
    lemma_settled_consistent(MacroState { data: s.data + chunk, ..s });
}

/// Where the first instruction at a place of a memory jumps to, if it is a jump.
pub open spec fn jump_from(mem: spec_fn(u8, int) -> u8, place: (u8, int)) -> Option<(u8, int)> {
    match event_at(segment(mem, place.0, place.1), 0) {
        Some((MacroEvent::Jump { page, offset }, size)) => Some((page, offset * 2 % 256)),
        _ => None,
    }
}

/// Where `n` jumps in a row lead to from a place of a memory, if there are as
/// many.
pub open spec fn jumped(mem: spec_fn(u8, int) -> u8, place: (u8, int), n: nat) -> Option<(u8, int)>
    decreases n,
{
    if n == 0 {
        Some(place)
    } else {
        match jump_from(mem, place) {
            Some(next) => jumped(mem, next, (n - 1) as nat),
            None => None,
        }
    }
}

/// Whether a place is one of those in its page that a jump can lead to.
pub open spec fn is_aligned(place: (u8, int)) -> bool {
    0 <= place.1 <= 254 && place.1 % 2 == 0
}

/// Whether a jump can lead to a place that can be read.
pub open spec fn is_target(place: (u8, int)) -> bool {
    place.0 <= memory::MAX_PAGE_NUMBER && is_aligned(place)
}

spec fn target_number(place: (u8, int)) -> int {
    place.0 * 128 + place.1 / 2
}

proof fn lemma_jumped_on(mem: spec_fn(u8, int) -> u8, place: (u8, int), i: nat, m: nat)
    requires
        jumped(mem, place, i) is Some,
    ensures
        jumped(mem, place, i + m) == jumped(mem, jumped(mem, place, i)->0, m),
    decreases i,
{
    if i > 0 {
        lemma_jumped_on(mem, jump_from(mem, place)->0, (i - 1) as nat, m);
    }
}

proof fn lemma_circle(mem: spec_fn(u8, int) -> u8, place: (u8, int)) -> (r: (nat, nat))
    requires
        forall|k: nat|
            k < MAX_MACRO_JUMPS ==> (#[trigger] jumped(mem, place, k) matches Some(q) && is_target(
                q,
            )),
    ensures
        r.0 < r.1 < MAX_MACRO_JUMPS,
        jumped(mem, place, r.0) == jumped(mem, place, r.1),
{
    let number = |k: int| target_number(jumped(mem, place, k as nat)->0);
    let numbers = Seq::new(MAX_MACRO_JUMPS as nat, number);
    if numbers.no_duplicates() {
        let all = vstd::set_lib::set_int_range(0, 4096);
        numbers.unique_seq_to_set();
        vstd::set_lib::lemma_int_range(0, 4096);
        assert(numbers.to_set().subset_of(all)) by {
            assert forall|v: int| numbers.to_set().contains(v) implies all.contains(v) by {
                let k = choose|k: int| 0 <= k < numbers.len() && numbers[k] == v;
                assert(is_target(jumped(mem, place, k as nat)->0));
            }
        }
        vstd::set_lib::lemma_len_subset(numbers.to_set(), all);
        assert(false);
        (0, 1)
    } else {
        let (i, j) = choose|i: int, j: int|
            0 <= i < numbers.len() && 0 <= j < numbers.len() && i != j && numbers[i] == numbers[j];
        assert(is_target(jumped(mem, place, i as nat)->0));
        assert(is_target(jumped(mem, place, j as nat)->0));
        assert(numbers[i] == number(i) && numbers[j] == number(j));
        assert(jumped(mem, place, i as nat)->0 == jumped(mem, place, j as nat)->0);
        if i < j {
            (i as nat, j as nat)
        } else {
            (j as nat, i as nat)
        }
    }
}

/// As many jumps in a row as there are places and one more never come to an end:
/// they lead in a circle.
pub proof fn long_runs_of_jumps_never_end(mem: spec_fn(u8, int) -> u8, place: (u8, int), n: nat)
    requires
        forall|k: nat|
            k < MAX_MACRO_JUMPS ==> (#[trigger] jumped(mem, place, k) matches Some(q) && is_target(
                q,
            )),
    ensures
        jumped(mem, place, n) is Some,
    decreases n,
{
    if n >= MAX_MACRO_JUMPS {
        let (i, j) = lemma_circle(mem, place);
        let m = (n - j) as nat;
        lemma_jumped_on(mem, place, i, m);
        lemma_jumped_on(mem, place, j, m);
        long_runs_of_jumps_never_end(mem, place, i + m);
    }
}

proof fn lemma_run_jumps(s: MacroPlace, mem: spec_fn(u8, int) -> u8, n: nat)
    requires
        s.jumps >= 0,
    ensures
        s.run(mem, n).jumps <= s.jumps + n,
    decreases n,
{
    if n > 0 {
        lemma_run_jumps(s.step(mem), mem, (n - 1) as nat);
    }
}

proof fn lemma_run_of_jumps(s: MacroPlace, mem: spec_fn(u8, int) -> u8, n: nat, k: nat)
    requires
        s.at == 0,
        s.jumps >= 0,
        s.run(mem, n).jumps == s.jumps + n,
        k <= n,
    ensures
        jumped(mem, (s.page, s.base), k) == Some((s.run(mem, k).page, s.run(mem, k).base)),
    decreases k,
{
    if k > 0 {
        let next = s.step(mem);
        lemma_run_jumps(next, mem, (n - 1) as nat);
        lemma_run_of_jumps(next, mem, (n - 1) as nat, (k - 1) as nat);
    }
}

/// A macro is cut short for its jumps only where they never come to an end: from
/// the place `s` that the first of them leads to on, all of them without an
/// event, through places that could be read, to the limit.
pub proof fn only_circles_are_cut_short(s: MacroPlace, mem: spec_fn(u8, int) -> u8, n: nat)
    requires
        s.at == 0,
        s.jumps == 1,
        is_aligned((s.page, s.base)),
        s.run(mem, 4096).jumps == MAX_MACRO_JUMPS,
        forall|k: nat| k <= 4096 ==> (#[trigger] s.run(mem, k)).page <= memory::MAX_PAGE_NUMBER,
    ensures
        jumped(mem, (s.page, s.base), n) is Some,
{
    let place = (s.page, s.base);
    assert forall|k: nat| k < MAX_MACRO_JUMPS implies (#[trigger] jumped(mem, place, k) matches Some(
        q,
    ) && is_target(q)) by {
        lemma_run_of_jumps(s, mem, 4096, k);
        assert(s.run(mem, k).page <= memory::MAX_PAGE_NUMBER);
        lemma_landing(mem, place, k);
    }
    long_runs_of_jumps_never_end(mem, place, n);
}

proof fn lemma_landing(mem: spec_fn(u8, int) -> u8, place: (u8, int), k: nat)
    requires
        is_aligned(place),
        jumped(mem, place, k) is Some,
    ensures
        is_aligned(jumped(mem, place, k)->0),
    decreases k,
{
    if k > 0 {
        let next = jump_from(mem, place)->0;
        assert(is_aligned(next));
        lemma_landing(mem, next, (k - 1) as nat);
    }
}

/// A tag of a short delay is an instruction of its own, wherever it stands, and
/// the delays grow with their tags.
pub proof fn short_delays_grow(a: Seq<u8>, i: int, b: Seq<u8>, j: int)
    requires
        0 <= i < a.len(),
        0 <= j < b.len(),
        0x80 <= a[i] < b[j] < MACRO_END,
    ensures
        event_at(a, i) == Some((MacroEvent::Delay { time_ms: short_delay(a[i]) as u16 }, 1int)),
        event_at(b, j) == Some((MacroEvent::Delay { time_ms: short_delay(b[j]) as u16 }, 1int)),
        8 <= short_delay(a[i]) < short_delay(b[j]) <= 1892,
{
}

/// A macro that has been read holds at most 256 events, and no jump.
pub proof fn macros_are_bounded(s: MacroState, chunk: Seq<u8>)
    requires
        s.consistent(),
        !s.done,
        chunk.len() == 16,
        forall|i: int| 0 <= i < s.events.len() ==> !(#[trigger] s.events[i] is Jump),
    ensures
        s.after(chunk).events.len() <= 256,
        forall|i: int|
            0 <= i < s.after(chunk).events.len() ==> !(#[trigger] s.after(chunk).events[i] is Jump),
{
    let fed = MacroState { data: s.data + chunk, ..s };
    lemma_settled_consistent(fed);
    lemma_settled_without_jumps(fed);
}

proof fn lemma_settled_without_jumps(s: MacroState)
    requires
        forall|i: int| 0 <= i < s.events.len() ==> !(#[trigger] s.events[i] is Jump),
    ensures
        forall|i: int|
            0 <= i < s.settled().events.len() ==> !(#[trigger] s.settled().events[i] is Jump),
    decreases 256 - s.events.len(),
{
    if s.events.len() < 256 && !s.short_of_data() {
        match event_at(s.data, s.at) {
            Some((event, size)) => {
                if !(event is End) && !(event is Jump) {
                    lemma_settled_without_jumps(
                        MacroState { events: s.events.push(event), at: s.at + size, jumps: 0, ..s },
                    );
                }
            },
            None => {},
        }
    }
}

} // verus!
