//! Onboard profiles as they lie in a page of memory.

use crate::bytes;
use crate::hal::hidpp;
use crate::hal::hidpp10::binding;
use crate::hal::hidpp10::binding::{
    Hidpp10ButtonBinding, parse_button_binding, serialize_button_binding,
};
use crate::hal::hidpp10::macros::MacroEvent;
use crate::hal::hidpp10::table;
use crate::hal::hidpp10::table::{DpiMapping, dpi_from_raw, raw_from_dpi};
use crate::hal::hidpp10::types::Hidpp10ProfileType;
use vstd::prelude::*;
use vstd::string::*;

verus! {

pub const PAGE_SIZE: usize = 512;

pub const NUM_DPI_MODES: usize = 5;

/// A resolution of an onboard profile, and the LEDs that show it.
#[derive(Debug, Clone, Copy)]
pub struct Hidpp10DpiMode {
    pub xres: u32,
    pub yres: u32,
    pub leds: [bool; 4],
}

/// The contents of a [`Hidpp10DpiMode`].
#[verifier::ext_equal]
pub struct DpiModeModel {
    pub xres: u32,
    pub yres: u32,
    pub leds: Seq<bool>,
}

impl View for Hidpp10DpiMode {
    type V = DpiModeModel;

    open spec fn view(&self) -> DpiModeModel {
        DpiModeModel { xres: self.xres, yres: self.yres, leds: self.leds@ }
    }
}

impl Default for Hidpp10DpiMode {
    fn default() -> (r: Self)
        ensures
            r@ == (DpiModeModel { xres: 0, yres: 0, leds: seq![false, false, false, false] }),
    {
        let r = Hidpp10DpiMode { xres: 0, yres: 0, leds: [false; 4] };
        assert(r@.leds =~= seq![false, false, false, false]);
        r
    }
}

/// An onboard profile.
#[derive(Debug)]
pub struct Hidpp10Profile {
    pub page: u8,
    pub offset: u8,
    pub enabled: bool,
    pub name: String,
    pub red: u8,
    pub green: u8,
    pub blue: u8,
    pub angle_correction: bool,
    pub default_dpi_mode: u8,
    pub refresh_rate: u16,
    pub dpi_modes: Vec<Hidpp10DpiMode>,
    pub buttons: Vec<Hidpp10ButtonBinding>,
    pub macros: Vec<Option<Vec<MacroEvent>>>,
}

/// The contents of a [`Hidpp10Profile`].
#[verifier::ext_equal]
pub struct OnboardModel {
    pub page: u8,
    pub offset: u8,
    pub enabled: bool,
    pub name: Seq<char>,
    pub red: u8,
    pub green: u8,
    pub blue: u8,
    pub angle_correction: bool,
    pub default_dpi_mode: u8,
    pub refresh_rate: u16,
    pub dpi_modes: Seq<DpiModeModel>,
    pub buttons: Seq<Hidpp10ButtonBinding>,
    pub macros: Seq<Option<Seq<MacroEvent>>>,
}

/// The contents of a list of resolutions.
pub open spec fn modes_view(s: Seq<Hidpp10DpiMode>) -> Seq<DpiModeModel> {
    s.map_values(|m: Hidpp10DpiMode| m@)
}

/// The contents of a macro, if there is one.
pub open spec fn macro_view(m: Option<Vec<MacroEvent>>) -> Option<Seq<MacroEvent>> {
    match m {
        Some(v) => Some(v@),
        None => None,
    }
}

/// The contents of a list of macros.
pub open spec fn macros_view(s: Seq<Option<Vec<MacroEvent>>>) -> Seq<Option<Seq<MacroEvent>>> {
    s.map_values(|m: Option<Vec<MacroEvent>>| macro_view(m))
}

/// The contents of a list of profiles.
pub open spec fn onboard_view(s: Seq<Hidpp10Profile>) -> Seq<OnboardModel> {
    s.map_values(|p: Hidpp10Profile| p@)
}

impl View for Hidpp10Profile {
    type V = OnboardModel;

    open spec fn view(&self) -> OnboardModel {
        OnboardModel {
            page: self.page,
            offset: self.offset,
            enabled: self.enabled,
            name: self.name@,
            red: self.red,
            green: self.green,
            blue: self.blue,
            angle_correction: self.angle_correction,
            default_dpi_mode: self.default_dpi_mode,
            refresh_rate: self.refresh_rate,
            dpi_modes: modes_view(self.dpi_modes@),
            buttons: self.buttons@,
            macros: macros_view(self.macros@),
        }
    }
}

impl OnboardModel {
    /// A profile of which nothing is known.
    pub open spec fn empty() -> OnboardModel {
        OnboardModel {
            page: 0,
            offset: 0,
            enabled: false,
            name: Seq::empty(),
            red: 0,
            green: 0,
            blue: 0,
            angle_correction: false,
            default_dpi_mode: 0,
            refresh_rate: 0,
            dpi_modes: Seq::empty(),
            buttons: Seq::empty(),
            macros: Seq::empty(),
        }
    }

    /// Whether every button of the profile can be written.
    pub open spec fn writable(self) -> bool {
        forall|i: int| 0 <= i < self.buttons.len() ==> (#[trigger] self.buttons[i]).writable()
    }
}

impl Hidpp10Profile {
    /// Whether every button of the profile can be written.
    pub fn is_writable(&self) -> (r: bool)
        ensures
            r == self@.writable(),
    {
        let mut i: usize = 0;
        while i < self.buttons.len()
            invariant
                i <= self.buttons@.len(),
                forall|k: int| 0 <= k < i ==> (#[trigger] self.buttons@[k]).writable(),
            decreases self.buttons@.len() - i,
        {
            if let Hidpp10ButtonBinding::Button { button } = self.buttons[i] {
                if button > 16 {
                    assert(!self@.buttons[i as int].writable());
                    return false;
                }
            }
            i += 1;
        }
        true
    }
}

impl Default for Hidpp10Profile {
    fn default() -> (r: Self)
        ensures
            r@ == OnboardModel::empty(),
    {
        let r = Hidpp10Profile {
            page: 0,
            offset: 0,
            enabled: false,
            name: String::new(),
            red: 0,
            green: 0,
            blue: 0,
            angle_correction: false,
            default_dpi_mode: 0,
            refresh_rate: 0,
            dpi_modes: Vec::new(),
            buttons: Vec::new(),
            macros: Vec::new(),
        };
        assert(r@ =~= OnboardModel::empty());
        r
    }
}

fn clone_macros(macros: &Vec<Option<Vec<MacroEvent>>>) -> (r: Vec<Option<Vec<MacroEvent>>>)
    ensures
        macros_view(r@) == macros_view(macros@),
{
    let mut r: Vec<Option<Vec<MacroEvent>>> = Vec::new();
    let mut i: usize = 0;
    while i < macros.len()
        invariant
            i <= macros@.len(),
            r@.len() == i,
            forall|k: int| 0 <= k < i ==> macro_view(#[trigger] r@[k]) == macro_view(macros@[k]),
        decreases macros@.len() - i,
    {
        let item: Option<Vec<MacroEvent>> = match &macros[i] {
            Some(v) => {
                let copy = v.clone();
                assert(copy@ =~= v@);
                Some(copy)
            },
            None => None,
        };
        r.push(item);
        i += 1;
    }
    assert(macros_view(r@) =~= macros_view(macros@));
    r
}

impl Clone for Hidpp10Profile {
    fn clone(&self) -> (r: Self)
        ensures
            r@ == self@,
    {
        let r = Hidpp10Profile {
            page: self.page,
            offset: self.offset,
            enabled: self.enabled,
            name: self.name.clone(),
            red: self.red,
            green: self.green,
            blue: self.blue,
            angle_correction: self.angle_correction,
            default_dpi_mode: self.default_dpi_mode,
            refresh_rate: self.refresh_rate,
            dpi_modes: self.dpi_modes.clone(),
            buttons: self.buttons.clone(),
            macros: clone_macros(&self.macros),
        };
        assert(modes_view(r.dpi_modes@) =~= modes_view(self.dpi_modes@));
        assert(r.buttons@ =~= self.buttons@);
        assert(r@ =~= self@);
        r
    }
}

/// How resolutions lie in a page: two bytes for each axis, one for each, or one
/// for both. Two bytes of LEDs follow.
#[derive(Debug, Clone, Copy, PartialEq, Eq, Structural)]
pub enum DpiLayout {
    Wide,
    Dual,
    Single,
}

impl DpiLayout {
    /// How many bytes a resolution takes.
    pub open spec fn stride(self) -> int {
        match self {
            DpiLayout::Wide => 6,
            DpiLayout::Dual => 4,
            DpiLayout::Single => 3,
        }
    }

    /// Where the resolution at `i` begins.
    pub open spec fn place(self, i: int) -> int {
        match self {
            DpiLayout::Wide => 6 * i,
            DpiLayout::Dual => 4 * i,
            DpiLayout::Single => 3 * i,
        }
    }

    /// The byte for the first axis.
    pub open spec fn x_at(self) -> int {
        match self {
            DpiLayout::Wide => 1,
            _ => 0,
        }
    }

    /// The byte for the second axis.
    pub open spec fn y_at(self) -> int {
        match self {
            DpiLayout::Wide => 3,
            DpiLayout::Dual => 1,
            DpiLayout::Single => 0,
        }
    }
}

impl DpiLayout {
    fn offset(self, i: usize) -> (r: usize)
        requires
            i < 5,
        ensures
            r == self.place(i as int),
    {
        match self {
            DpiLayout::Wide => 6 * i,
            DpiLayout::Dual => 4 * i,
            DpiLayout::Single => 3 * i,
        }
    }
}

/// Which of four LEDs two bytes light.
pub open spec fn leds_of(a: u8, b: u8) -> Seq<bool> {
    seq![a % 16 == 2, a / 16 == 2, b % 16 == 2, b / 16 == 2]
}

/// The byte for two LEDs.
pub open spec fn led_pair(lo: bool, hi: bool) -> u8 {
    ((if lo {
        2int
    } else {
        1
    }) + (if hi {
        0x20int
    } else {
        0x10
    })) as u8
}

/// The resolution that begins at a place of a page. Of a wide value the lower
/// byte counts.
pub open spec fn mode_at(layout: DpiLayout, page: Seq<u8>, at: int, table: Seq<DpiMapping>) -> DpiModeModel {
    DpiModeModel {
        xres: table::dpi_of_raw(table, page[at + layout.x_at()]),
        yres: table::dpi_of_raw(table, page[at + layout.y_at()]),
        leds: leds_of(page[at + layout.stride() - 2], page[at + layout.stride() - 1]),
    }
}

/// The bytes of a resolution.
pub open spec fn mode_wire(layout: DpiLayout, m: DpiModeModel, table: Seq<DpiMapping>) -> Seq<u8> {
    let x = table::raw_of_dpi(table, m.xres);
    let y = table::raw_of_dpi(table, m.yres);
    let a = led_pair(m.leds[0], m.leds[1]);
    let b = led_pair(m.leds[2], m.leds[3]);
    match layout {
        DpiLayout::Wide => seq![0u8, x, 0u8, y, a, b],
        DpiLayout::Dual => seq![x, y, a, b],
        DpiLayout::Single => seq![x, a, b],
    }
}

/// Where the parts of a profile lie in its page.
pub struct PageLayout {
    /// Whether the page begins with a colour.
    pub colored: bool,
    pub dpi_layout: DpiLayout,
    pub dpi_at: int,
    /// Whether there is a byte for angle correction.
    pub angle_at: Option<int>,
    pub default_at: int,
    pub rate_at: int,
    pub buttons_at: int,
    pub button_count: int,
    pub name_at: int,
}

/// Where the parts of a profile lie in its page; `None` if that is not known.
pub open spec fn page_layout(t: Hidpp10ProfileType) -> Option<PageLayout> {
    match t {
        Hidpp10ProfileType::G500 => Some(
            PageLayout {
                colored: true,
                dpi_layout: DpiLayout::Wide,
                dpi_at: 4,
                angle_at: Some(34),
                default_at: 35,
                rate_at: 38,
                buttons_at: 39,
                button_count: 13,
                name_at: 78,
            },
        ),
        Hidpp10ProfileType::G700 => Some(
            PageLayout {
                colored: false,
                dpi_layout: DpiLayout::Dual,
                dpi_at: 0,
                angle_at: None,
                default_at: 20,
                rate_at: 24,
                buttons_at: 35,
                button_count: 13,
                name_at: 74,
            },
        ),
        Hidpp10ProfileType::G9 => Some(
            PageLayout {
                colored: true,
                dpi_layout: DpiLayout::Single,
                dpi_at: 4,
                angle_at: None,
                default_at: 19,
                rate_at: 22,
                buttons_at: 23,
                button_count: 10,
                name_at: 56,
            },
        ),
        Hidpp10ProfileType::Unknown => None,
    }
}

/// The first five bytes of a name.
pub open spec fn name_mark() -> Seq<u8> {
    seq![0x4Cu8, 0x47, 0x53, 0x30, 0x32]
}

/// How many of the characters from `i` on belong to a name: up to 23, each of
/// two bytes, until one that is zero.
pub open spec fn name_length(data: Seq<u8>, i: int) -> int
    decreases 23 - i,
{
    if i < 0 || i >= 23 || 2 * i + 1 >= data.len() || (data[2 * i] == 0 && data[2 * i + 1] == 0) {
        i
    } else {
        name_length(data, i + 1)
    }
}

/// The name that a byte string holds behind its mark: the lower byte of each
/// character.
pub open spec fn name_of(metadata: Seq<u8>) -> Seq<char> {
    if metadata.len() < 5 || metadata.subrange(0, 5) != name_mark() {
        Seq::empty()
    } else {
        let data = metadata.subrange(5, metadata.len() as int);
        Seq::new(name_length(data, 0) as nat, |k: int| data[2 * k] as char)
    }
}

/// The rate of a byte, in Hz.
pub open spec fn rate_of_byte(b: u8) -> u16 {
    if b > 0 {
        (1000int / b as int) as u16
    } else {
        0
    }
}

/// The byte of a rate.
pub open spec fn byte_of_rate(rate: u16) -> u8 {
    if rate == 0 {
        0
    } else if 1000int / rate as int > 255 {
        255
    } else {
        (1000int / rate as int) as u8
    }
}

/// The profile that a page holds; macros apart.
pub open spec fn profile_of_page(
    t: Hidpp10ProfileType,
    page: Seq<u8>,
    base: OnboardModel,
    table: Seq<DpiMapping>,
) -> OnboardModel {
    match page_layout(t) {
        None => base,
        Some(l) => OnboardModel {
            red: if l.colored {
                page[0]
            } else {
                base.red
            },
            green: if l.colored {
                page[1]
            } else {
                base.green
            },
            blue: if l.colored {
                page[2]
            } else {
                base.blue
            },
            angle_correction: match l.angle_at {
                Some(at) => page[at] != 0,
                None => base.angle_correction,
            },
            default_dpi_mode: page[l.default_at],
            refresh_rate: rate_of_byte(page[l.rate_at]),
            dpi_modes: Seq::new(
                5,
                |i: int| mode_at(l.dpi_layout, page, l.dpi_at + l.dpi_layout.place(i), table),
            ),
            buttons: Seq::new(
                l.button_count as nat,
                |i: int|
                    Hidpp10ButtonBinding::of_wire(
                        page.subrange(l.buttons_at + 3 * i, l.buttons_at + 3 * i + 3),
                    ),
            ),
            name: name_of(page.subrange(l.name_at, 512)),
            ..base
        },
    }
}

fn lit(nibble: u8) -> (r: bool)
    ensures
        r == (nibble == 2),
{
    nibble == 2
}

/// Reads the five resolutions of a page.
pub fn parse_dpi_modes(layout: DpiLayout, page: &[u8], at: usize, table: &Vec<DpiMapping>) -> (r: Vec<
    Hidpp10DpiMode,
>)
    requires
        at + layout.place(5) <= page@.len(),
    ensures
        modes_view(r@) == Seq::new(
            5,
            |i: int| mode_at(layout, page@, at + layout.place(i), table@),
        ),
{
    let mut r: Vec<Hidpp10DpiMode> = Vec::new();
    let stride: usize = match layout {
        DpiLayout::Wide => 6,
        DpiLayout::Dual => 4,
        DpiLayout::Single => 3,
    };
    let (x_at, y_at): (usize, usize) = match layout {
        DpiLayout::Wide => (1, 3),
        DpiLayout::Dual => (0, 1),
        DpiLayout::Single => (0, 0),
    };
    assert(page@.len() == page.len());
    let mut i: usize = 0;
    while i < NUM_DPI_MODES
        invariant
            i <= 5,
            stride == layout.stride(),
            x_at == layout.x_at(),
            y_at == layout.y_at(),
            3 <= stride <= 6,
            y_at < stride,
            x_at < stride,
            at + layout.place(5) <= page.len(),
            r@.len() == i,
            forall|k: int|
                0 <= k < i ==> (#[trigger] r@[k])@ == mode_at(
                    layout,
                    page@,
                    at + layout.place(k),
                    table@,
                ),
        decreases 5 - i,
    {
        let base: usize = at + layout.offset(i);
        let a: u8 = page[base + stride - 2];
        let b: u8 = page[base + stride - 1];
        let mode = Hidpp10DpiMode {
            xres: dpi_from_raw(table, page[base + x_at]),
            yres: dpi_from_raw(table, page[base + y_at]),
            leds: [lit(a % 16), lit(a / 16), lit(b % 16), lit(b / 16)],
        };
        assert(mode@ =~= mode_at(layout, page@, at + layout.place(i as int), table@));
        r.push(mode);
        i += 1;
    }
    assert(modes_view(r@) =~= Seq::new(
        5,
        |i: int| mode_at(layout, page@, at + layout.place(i), table@),
    ));
    r
}

/// Reads the buttons of a page.
pub fn parse_buttons(page: &[u8], at: usize, count: usize) -> (r: Vec<Hidpp10ButtonBinding>)
    requires
        count <= 13,
        at + 3 * count <= page@.len(),
    ensures
        r@ == Seq::new(
            count as nat,
            |i: int| Hidpp10ButtonBinding::of_wire(page@.subrange(at + 3 * i, at + 3 * i + 3)),
        ),
        forall|i: int| 0 <= i < r@.len() ==> (#[trigger] r@[i]).writable(),
{
    let mut r: Vec<Hidpp10ButtonBinding> = Vec::new();
    assert(page@.len() == page.len());
    let mut i: usize = 0;
    while i < count
        invariant
            i <= count <= 13,
            at + 3 * count <= page.len(),
            r@.len() == i,
            forall|k: int|
                0 <= k < i ==> #[trigger] r@[k] == Hidpp10ButtonBinding::of_wire(
                    page@.subrange(at + 3 * k, at + 3 * k + 3),
                ) && r@[k].writable(),
        decreases count - i,
    {
        let base: usize = at + 3 * i;
        let wire: [u8; 3] = [page[base], page[base + 1], page[base + 2]];
        assert(wire@ =~= page@.subrange(at + 3 * i, at + 3 * i + 3));
        r.push(parse_button_binding(&wire));
        i += 1;
    }
    assert(r@ =~= Seq::new(
        count as nat,
        |i: int| Hidpp10ButtonBinding::of_wire(page@.subrange(at + 3 * i, at + 3 * i + 3)),
    ));
    r
}

/// Reads the name that the bytes from `at` on hold.
pub fn parse_profile_name(page: &[u8], at: usize) -> (r: String)
    requires
        at <= page@.len(),
    ensures
        r@ == name_of(page@.subrange(at as int, page@.len() as int)),
{
    let ghost metadata = page@.subrange(at as int, page@.len() as int);
    let mut name: String = String::new();
    assert(page@.len() == page.len());
    if page.len() - at < 5 {
        return name;
    }
    assert(metadata.subrange(0, 5) =~= name_mark() <==> (page@[at as int] == 0x4C && page@[at + 1]
        == 0x47 && page@[at + 2] == 0x53 && page@[at + 3] == 0x30 && page@[at + 4] == 0x32)) by {
        let head = metadata.subrange(0, 5);
        assert(head[0] == page@[at as int] && head[1] == page@[at + 1] && head[2] == page@[at + 2]
            && head[3] == page@[at + 3] && head[4] == page@[at + 4]);
        let mark = name_mark();
        assert(mark[0] == 0x4C && mark[1] == 0x47 && mark[2] == 0x53 && mark[3] == 0x30 && mark[4]
            == 0x32);
        if head =~= mark {
            assert(head[0] == mark[0] && head[1] == mark[1] && head[2] == mark[2] && head[3]
                == mark[3] && head[4] == mark[4]);
        }
    }
    if page[at] != 0x4C || page[at + 1] != 0x47 || page[at + 2] != 0x53 || page[at + 3] != 0x30
        || page[at + 4] != 0x32 {
        return name;
    }
    let ghost data = metadata.subrange(5, metadata.len() as int);
    let start: usize = at + 5;
    let mut i: usize = 0;
    while i < 23 && 2 * i + 1 < page.len() - start && !(page[start + 2 * i] == 0 && page[start + 2
        * i + 1] == 0)
        invariant
            i <= 23,
            page@.len() == page.len(),
            start == at + 5,
            start <= page@.len(),
            metadata == page@.subrange(at as int, page@.len() as int),
            data == metadata.subrange(5, metadata.len() as int),
            name_length(data, 0) == name_length(data, i as int),
            name@ == Seq::new(i as nat, |k: int| data[2 * k] as char),
        decreases 23 - i,
    {
        assert(data[2 * i] == page@[start + 2 * i]);
        assert(data[2 * i + 1] == page@[start + 2 * i + 1]);
        crate::text::push_char(&mut name, page[start + 2 * i] as char);
        assert(name@ =~= Seq::new((i + 1) as nat, |k: int| data[2 * k] as char));
        i += 1;
    }
    proof {
        if i < 23 && 2 * i + 1 < data.len() {
            assert(data[2 * i] == page@[start + 2 * i]);
            assert(data[2 * i + 1] == page@[start + 2 * i + 1]);
        }
        assert(name_length(data, i as int) == i);
        assert(name@ =~= name_of(metadata));
    }
    name
}

fn rate_from_byte(b: u8) -> (r: u16)
    ensures
        r == rate_of_byte(b),
{
    if b > 0 {
        1000 / b as u16
    } else {
        0
    }
}

/// Reads the profile that a page holds into one that was found in the
/// directory.
pub fn parse_profile(
    t: Hidpp10ProfileType,
    page: &[u8],
    profile: &mut Hidpp10Profile,
    table: &Vec<DpiMapping>,
)
    requires
        page@.len() == 512,
    ensures
        final(profile)@ == profile_of_page(t, page@, old(profile)@, table@),
        !(t is Unknown) ==> final(profile)@.writable(),
{
    match t {
        Hidpp10ProfileType::G500 => {
            profile.red = page[0];
            profile.green = page[1];
            profile.blue = page[2];
            profile.dpi_modes = parse_dpi_modes(DpiLayout::Wide, page, 4, table);
            profile.angle_correction = page[34] != 0;
            profile.default_dpi_mode = page[35];
            profile.refresh_rate = rate_from_byte(page[38]);
            profile.buttons = parse_buttons(page, 39, 13);
            profile.name = parse_profile_name(page, 78);
        },
        Hidpp10ProfileType::G700 => {
            profile.dpi_modes = parse_dpi_modes(DpiLayout::Dual, page, 0, table);
            profile.default_dpi_mode = page[20];
            profile.refresh_rate = rate_from_byte(page[24]);
            profile.buttons = parse_buttons(page, 35, 13);
            profile.name = parse_profile_name(page, 74);
        },
        Hidpp10ProfileType::G9 => {
            profile.red = page[0];
            profile.green = page[1];
            profile.blue = page[2];
            profile.dpi_modes = parse_dpi_modes(DpiLayout::Single, page, 4, table);
            profile.default_dpi_mode = page[19];
            profile.refresh_rate = rate_from_byte(page[22]);
            profile.buttons = parse_buttons(page, 23, 10);
            profile.name = parse_profile_name(page, 56);
        },
        Hidpp10ProfileType::Unknown => {},
    }
    assert(profile@ =~= profile_of_page(t, page@, old(profile)@, table@));
}

/// A page with the first `n` resolutions written into it.
pub open spec fn with_modes(
    page: Seq<u8>,
    layout: DpiLayout,
    at: int,
    modes: Seq<DpiModeModel>,
    table: Seq<DpiMapping>,
    n: nat,
) -> Seq<u8>
    decreases n,
{
    if n == 0 {
        page
    } else {
        bytes::spliced(
            with_modes(page, layout, at, modes, table, (n - 1) as nat),
            at + layout.place(n - 1),
            mode_wire(layout, modes[n - 1], table),
        )
    }
}

/// How many resolutions are written: the first five.
pub open spec fn written_modes(modes: Seq<DpiModeModel>) -> nat {
    if modes.len() < 5 {
        modes.len()
    } else {
        5
    }
}

/// A page with the first `n` buttons written into it.
pub open spec fn with_buttons(page: Seq<u8>, at: int, buttons: Seq<Hidpp10ButtonBinding>, n: nat) -> Seq<
    u8,
>
    decreases n,
{
    if n == 0 {
        page
    } else {
        bytes::spliced(
            with_buttons(page, at, buttons, (n - 1) as nat),
            at + 3 * (n - 1),
            buttons[n - 1].wire(),
        )
    }
}

/// How many buttons there is room for in a page.
pub open spec fn written_buttons(page: Seq<u8>, at: int, buttons: Seq<Hidpp10ButtonBinding>) -> nat {
    if buttons.len() <= (page.len() - at) / 3 {
        buttons.len()
    } else {
        ((page.len() - at) / 3) as nat
    }
}

/// A page with a profile written into it.
pub open spec fn page_with_profile(
    t: Hidpp10ProfileType,
    page: Seq<u8>,
    p: OnboardModel,
    table: Seq<DpiMapping>,
) -> Seq<u8> {
    match page_layout(t) {
        None => page,
        Some(l) => {
            let colored = if l.colored {
                bytes::spliced(page, 0, seq![p.red, p.green, p.blue])
            } else {
                page
            };
            let sensed = with_modes(
                colored,
                l.dpi_layout,
                l.dpi_at,
                p.dpi_modes,
                table,
                written_modes(p.dpi_modes),
            );
            let angled = match l.angle_at {
                Some(at) => sensed.update(
                    at,
                    if p.angle_correction {
                        1
                    } else {
                        0
                    },
                ),
                None => sensed,
            };
            let timed = angled.update(l.default_at, p.default_dpi_mode).update(
                l.rate_at,
                byte_of_rate(p.refresh_rate),
            );
            with_buttons(
                timed,
                l.buttons_at,
                p.buttons,
                written_buttons(timed, l.buttons_at, p.buttons),
            )
        },
    }
}

/// A page with its check sum in the last two bytes.
pub open spec fn sealed_page(page: Seq<u8>) -> Seq<u8> {
    bytes::spliced(page, 510, bytes::be_bytes(hidpp::crc_ccitt(page.subrange(0, 510))))
}

/// Whether the last two bytes of a page are its check sum.
pub open spec fn page_is_valid(page: Seq<u8>) -> bool {
    bytes::be16(page[510], page[511]) == hidpp::crc_ccitt(page.subrange(0, 510))
}

/// Whether the last two bytes of a page are its check sum.
pub fn check_page(page: &[u8]) -> (r: bool)
    requires
        page@.len() == 512,
    ensures
        r == page_is_valid(page@),
{
    let body = vstd::slice::slice_subrange(page, 0, 510);
    hidpp::compute_ccitt_crc(body) == bytes::u16_from(page[510], page[511])
}

/// Writes the check sum of a page into its last two bytes.
pub fn seal_page(page: &mut Vec<u8>)
    requires
        old(page)@.len() == 512,
    ensures
        final(page)@ == sealed_page(old(page)@),
{
    let crc: u16 = hidpp::compute_ccitt_crc(
        vstd::slice::slice_subrange(page.as_slice(), 0, 510),
    );
    page[510] = bytes::high_byte(crc);
    page[511] = bytes::low_byte(crc);
    assert(page@ =~= sealed_page(old(page)@));
}

/// A page that was sealed is valid, and keeps the bytes before its check sum.
pub proof fn sealed_page_is_valid(page: Seq<u8>)
    requires
        page.len() == 512,
    ensures
        page_is_valid(sealed_page(page)),
        sealed_page(page).len() == 512,
        sealed_page(page).subrange(0, 510) == page.subrange(0, 510),
{
    assert(sealed_page(page).subrange(0, 510) =~= page.subrange(0, 510));
    bytes::bytes_round_trip(hidpp::crc_ccitt(page.subrange(0, 510)), 0, 0);
}

fn write_dpi_modes(
    page: &mut Vec<u8>,
    layout: DpiLayout,
    at: usize,
    modes: &Vec<Hidpp10DpiMode>,
    table: &Vec<DpiMapping>,
)
    requires
        at + layout.place(5) <= old(page)@.len(),
    ensures
        final(page)@ == with_modes(
            old(page)@,
            layout,
            at as int,
            modes_view(modes@),
            table@,
            written_modes(modes_view(modes@)),
        ),
        final(page)@.len() == old(page)@.len(),
{
    let mut i: usize = 0;
    while i < NUM_DPI_MODES && i < modes.len()
        invariant
            i <= 5,
            i <= modes@.len(),
            page.len() == old(page)@.len(),
            at + layout.place(5) <= page.len(),
            page@ == with_modes(
                old(page)@,
                layout,
                at as int,
                modes_view(modes@),
                table@,
                i as nat,
            ),
        decreases 5 - i,
    {
        let base: usize = at + layout.offset(i);
        let ghost m = modes_view(modes@)[i as int];
        assert(m == modes@[i as int]@);
        let x: u8 = raw_from_dpi(table, modes[i].xres);
        let y: u8 = raw_from_dpi(table, modes[i].yres);
        let a: u8 = led_nibble_pair(modes[i].leds[0], modes[i].leds[1]);
        let b: u8 = led_nibble_pair(modes[i].leds[2], modes[i].leds[3]);
        match layout {
            DpiLayout::Wide => {
                let w: [u8; 6] = [0, x, 0, y, a, b];
                assert(w@ =~= mode_wire(layout, m, table@));
                bytes::put(page, base, w.as_slice());
            },
            DpiLayout::Dual => {
                let w: [u8; 4] = [x, y, a, b];
                assert(w@ =~= mode_wire(layout, m, table@));
                bytes::put(page, base, w.as_slice());
            },
            DpiLayout::Single => {
                let w: [u8; 3] = [x, a, b];
                assert(w@ =~= mode_wire(layout, m, table@));
                bytes::put(page, base, w.as_slice());
            },
        }
        i += 1;
    }
}

fn led_nibble_pair(lo: bool, hi: bool) -> (r: u8)
    ensures
        r == led_pair(lo, hi),
{
    let low: u8 = if lo {
        2
    } else {
        1
    };
    let high: u8 = if hi {
        0x20
    } else {
        0x10
    };
    low + high
}

fn write_buttons(page: &mut Vec<u8>, at: usize, buttons: &Vec<Hidpp10ButtonBinding>)
    requires
        at <= 512,
        old(page)@.len() == 512,
        forall|i: int| 0 <= i < buttons@.len() ==> (#[trigger] buttons@[i]).writable(),
    ensures
        final(page)@ == with_buttons(
            old(page)@,
            at as int,
            buttons@,
            written_buttons(old(page)@, at as int, buttons@),
        ),
        final(page)@.len() == 512,
{
    let mut i: usize = 0;
    while i < buttons.len() && i < (512 - at) / 3
        invariant
            at <= 512,
            i <= buttons@.len(),
            i <= (512 - at) / 3,
            page@.len() == 512,
            forall|i: int| 0 <= i < buttons@.len() ==> (#[trigger] buttons@[i]).writable(),
            page@ == with_buttons(old(page)@, at as int, buttons@, i as nat),
        decreases buttons@.len() - i,
    {
        let wire = serialize_button_binding(&buttons[i]);
        bytes::put(page, at + 3 * i, wire.as_slice());
        i += 1;
    }
}

fn rate_to_byte(rate: u16) -> (r: u8)
    ensures
        r == byte_of_rate(rate),
{
    if rate == 0 {
        return 0;
    }
    let q: u16 = 1000 / rate;
    if q > 255 {
        255
    } else {
        q as u8
    }
}

/// Writes a profile into a page.
pub fn write_profile(
    t: Hidpp10ProfileType,
    page: &mut Vec<u8>,
    p: &Hidpp10Profile,
    table: &Vec<DpiMapping>,
)
    requires
        old(page)@.len() == 512,
        p@.writable(),
    ensures
        final(page)@ == page_with_profile(t, old(page)@, p@, table@),
        final(page)@.len() == 512,
{
    assert forall|i: int| 0 <= i < p.buttons@.len() implies (
    #[trigger] p.buttons@[i]).writable() by {
        assert(p@.buttons[i].writable());
    }
    let angle: u8 = if p.angle_correction {
        1
    } else {
        0
    };
    match t {
        Hidpp10ProfileType::G500 => {
            let rgb: [u8; 3] = [p.red, p.green, p.blue];
            assert(rgb@ =~= seq![p.red, p.green, p.blue]);
            bytes::put(page, 0, rgb.as_slice());
            write_dpi_modes(page, DpiLayout::Wide, 4, &p.dpi_modes, table);
            page[34] = angle;
            page[35] = p.default_dpi_mode;
            page[38] = rate_to_byte(p.refresh_rate);
            write_buttons(page, 39, &p.buttons);
        },
        Hidpp10ProfileType::G700 => {
            write_dpi_modes(page, DpiLayout::Dual, 0, &p.dpi_modes, table);
            page[20] = p.default_dpi_mode;
            page[24] = rate_to_byte(p.refresh_rate);
            write_buttons(page, 35, &p.buttons);
        },
        Hidpp10ProfileType::G9 => {
            let rgb: [u8; 3] = [p.red, p.green, p.blue];
            assert(rgb@ =~= seq![p.red, p.green, p.blue]);
            bytes::put(page, 0, rgb.as_slice());
            write_dpi_modes(page, DpiLayout::Single, 4, &p.dpi_modes, table);
            page[19] = p.default_dpi_mode;
            page[22] = rate_to_byte(p.refresh_rate);
            write_buttons(page, 23, &p.buttons);
        },
        Hidpp10ProfileType::Unknown => {},
    }
}

proof fn lemma_modes_written(
    page: Seq<u8>,
    layout: DpiLayout,
    at: int,
    modes: Seq<DpiModeModel>,
    table: Seq<DpiMapping>,
    n: nat,
)
    requires
        0 <= at,
        n <= 5,
        at + layout.place(5) <= page.len(),
    ensures
        ({
            let w = with_modes(page, layout, at, modes, table, n);
            &&& w.len() == page.len()
            &&& forall|k: int|
                0 <= k < page.len() && !(at <= k < at + layout.place(n as int)) ==> #[trigger] w[k]
                    == page[k]
            &&& forall|i: int, k: int|
                0 <= i < n && 0 <= k < layout.stride() ==> #[trigger] w[at + layout.place(i) + k]
                    == mode_wire(layout, modes[i], table)[k]
        }),
    decreases n,
{
    if n > 0 {
        lemma_modes_written(page, layout, at, modes, table, (n - 1) as nat);
        let before = with_modes(page, layout, at, modes, table, (n - 1) as nat);
        let w = with_modes(page, layout, at, modes, table, n);
        let last = mode_wire(layout, modes[n - 1], table);
        assert(last.len() == layout.stride());
        assert forall|i: int, k: int| 0 <= i < n && 0 <= k < layout.stride() implies #[trigger] w[at
            + layout.place(i) + k] == mode_wire(layout, modes[i], table)[k] by {
            if i < n - 1 {
                assert(before[at + layout.place(i) + k] == mode_wire(layout, modes[i], table)[k]);
            }
        }
    }
}

proof fn lemma_buttons_written(page: Seq<u8>, at: int, buttons: Seq<Hidpp10ButtonBinding>, n: nat)
    requires
        0 <= at,
        at + 3 * n <= page.len(),
    ensures
        ({
            let w = with_buttons(page, at, buttons, n);
            &&& w.len() == page.len()
            &&& forall|k: int|
                0 <= k < page.len() && !(at <= k < at + 3 * n) ==> #[trigger] w[k] == page[k]
            &&& forall|i: int|
                0 <= i < n ==> #[trigger] w.subrange(at + 3 * i, at + 3 * i + 3)
                    == buttons[i].wire()
        }),
    decreases n,
{
    if n > 0 {
        lemma_buttons_written(page, at, buttons, (n - 1) as nat);
        let before = with_buttons(page, at, buttons, (n - 1) as nat);
        let w = with_buttons(page, at, buttons, n);
        assert(buttons[n - 1].wire().len() == 3);
        assert forall|i: int| 0 <= i < n implies #[trigger] w.subrange(at + 3 * i, at + 3 * i + 3)
            == buttons[i].wire() by {
            if i < n - 1 {
                assert(before.subrange(at + 3 * i, at + 3 * i + 3) == buttons[i].wire());
                assert(w.subrange(at + 3 * i, at + 3 * i + 3) =~= before.subrange(
                    at + 3 * i,
                    at + 3 * i + 3,
                ));
            } else {
                assert(w.subrange(at + 3 * i, at + 3 * i + 3) =~= buttons[i].wire());
            }
        }
    }
}

/// A page keeps its size when a profile is written into it.
pub proof fn written_page_keeps_size(
    t: Hidpp10ProfileType,
    page: Seq<u8>,
    p: OnboardModel,
    table: Seq<DpiMapping>,
)
    requires
        page.len() == 512,
    ensures
        page_with_profile(t, page, p, table).len() == 512,
{
    if let Some(l) = page_layout(t) {
        let colored = if l.colored {
            bytes::spliced(page, 0, seq![p.red, p.green, p.blue])
        } else {
            page
        };
        let n = written_modes(p.dpi_modes);
        let sensed = with_modes(colored, l.dpi_layout, l.dpi_at, p.dpi_modes, table, n);
        lemma_modes_written(colored, l.dpi_layout, l.dpi_at, p.dpi_modes, table, n);
        let angled = match l.angle_at {
            Some(at) => sensed.update(
                at,
                if p.angle_correction {
                    1
                } else {
                    0
                },
            ),
            None => sensed,
        };
        let timed = angled.update(l.default_at, p.default_dpi_mode).update(
            l.rate_at,
            byte_of_rate(p.refresh_rate),
        );
        let m = written_buttons(timed, l.buttons_at, p.buttons);
        lemma_buttons_written(timed, l.buttons_at, p.buttons, m);
    }
}

/// Whether a device with a table of resolutions has a resolution, and with it
/// a profile.
pub open spec fn storable_mode(layout: DpiLayout, m: DpiModeModel, table: Seq<DpiMapping>) -> bool {
    &&& m.leds.len() == 4
    &&& table::dpi_of_raw(table, table::raw_of_dpi(table, m.xres)) == m.xres
    &&& table::dpi_of_raw(table, table::raw_of_dpi(table, m.yres)) == m.yres
    &&& layout is Single ==> m.xres == m.yres
}

/// Whether a profile has as many resolutions and buttons as its page has room
/// for, and no value that the device lacks.
pub open spec fn storable(t: Hidpp10ProfileType, p: OnboardModel, table: Seq<DpiMapping>) -> bool {
    match page_layout(t) {
        None => false,
        Some(l) => {
            &&& p.dpi_modes.len() == 5
            &&& forall|i: int|
                0 <= i < 5 ==> storable_mode(l.dpi_layout, #[trigger] p.dpi_modes[i], table)
            &&& p.buttons.len() == l.button_count
            &&& forall|i: int| 0 <= i < p.buttons.len() ==> (#[trigger] p.buttons[i]).readable()
            &&& rate_of_byte(byte_of_rate(p.refresh_rate)) == p.refresh_rate
        },
    }
}

/// What was written of a profile into a page is read from it: resolutions,
/// buttons, the default resolution, the rate, and, where the page has them,
/// the colour and angle correction.
pub proof fn profile_reads_back(
    t: Hidpp10ProfileType,
    page: Seq<u8>,
    p: OnboardModel,
    base: OnboardModel,
    table: Seq<DpiMapping>,
)
    requires
        page.len() == 512,
        storable(t, p, table),
    ensures
        ({
            let back = profile_of_page(
                t,
                sealed_page(page_with_profile(t, page, p, table)),
                base,
                table,
            );
            &&& back.dpi_modes == p.dpi_modes
            &&& back.buttons == p.buttons
            &&& back.default_dpi_mode == p.default_dpi_mode
            &&& back.refresh_rate == p.refresh_rate
            &&& page_layout(t)->0.colored ==> back.red == p.red && back.green == p.green
                && back.blue == p.blue
            &&& page_layout(t)->0.angle_at is Some ==> back.angle_correction == p.angle_correction
        }),
{
    let l = page_layout(t)->0;
    let colored = if l.colored {
        bytes::spliced(page, 0, seq![p.red, p.green, p.blue])
    } else {
        page
    };
    let sensed = with_modes(colored, l.dpi_layout, l.dpi_at, p.dpi_modes, table, 5);
    lemma_modes_written(colored, l.dpi_layout, l.dpi_at, p.dpi_modes, table, 5);
    let angled = match l.angle_at {
        Some(at) => sensed.update(
            at,
            if p.angle_correction {
                1
            } else {
                0
            },
        ),
        None => sensed,
    };
    let timed = angled.update(l.default_at, p.default_dpi_mode).update(
        l.rate_at,
        byte_of_rate(p.refresh_rate),
    );
    lemma_buttons_written(timed, l.buttons_at, p.buttons, p.buttons.len());
    let w = page_with_profile(t, page, p, table);
    assert(w == with_buttons(timed, l.buttons_at, p.buttons, p.buttons.len()));
    let s = sealed_page(w);
    assert(forall|k: int| 0 <= k < 510 ==> s[k] == w[k]);
    let back = profile_of_page(t, s, base, table);
    assert forall|i: int| 0 <= i < 5 implies back.dpi_modes[i] == p.dpi_modes[i] by {
        let m = p.dpi_modes[i];
        assert(storable_mode(l.dpi_layout, m, table));
        let at = l.dpi_at + l.dpi_layout.place(i);
        let wire = mode_wire(l.dpi_layout, m, table);
        assert forall|k: int| 0 <= k < l.dpi_layout.stride() implies s[at + k] == wire[k] by {
            assert(sensed[l.dpi_at + l.dpi_layout.place(i) + k] == wire[k]);
            assert(timed[at + k] == sensed[at + k]);
            assert(w[at + k] == timed[at + k]);
        }
        let stride = l.dpi_layout.stride();
        assert(s[at + l.dpi_layout.x_at()] == wire[l.dpi_layout.x_at()]);
        assert(s[at + l.dpi_layout.y_at()] == wire[l.dpi_layout.y_at()]);
        assert(s[at + (stride - 2)] == wire[stride - 2]);
        assert(s[at + (stride - 1)] == wire[stride - 1]);
        assert(at + stride - 2 == at + (stride - 2));
        assert(at + stride - 1 == at + (stride - 1));
        assert(back.dpi_modes[i].leds =~= m.leds);
        assert(back.dpi_modes[i] =~= m);
    }
    assert(back.dpi_modes =~= p.dpi_modes);
    assert forall|i: int| 0 <= i < p.buttons.len() implies back.buttons[i] == p.buttons[i] by {
        let at = l.buttons_at + 3 * i;
        assert(w.subrange(l.buttons_at + 3 * i, l.buttons_at + 3 * i + 3) == p.buttons[i].wire());
        assert(s.subrange(at, at + 3) =~= w.subrange(at, at + 3));
        assert(p.buttons[i].readable());
        binding::binding_round_trip(p.buttons[i]);
    }
    assert(back.buttons =~= p.buttons);
    assert(w[l.default_at] == timed[l.default_at]);
    assert(w[l.rate_at] == timed[l.rate_at]);
}

/// Every polling rate that divides 1000 and is not below 4 Hz has a byte of its
/// own.
pub proof fn rate_byte_round_trip(b: u8)
    requires
        b <= 5 || b == 8 || b == 10 || b == 20 || b == 25 || b == 40 || b == 50 || b == 100 || b
            == 125 || b == 200 || b == 250,
    ensures
        byte_of_rate(rate_of_byte(b)) == b,
{
    assert(1000int / 1 == 1000 && 1000int / 2 == 500 && 1000int / 3 == 333 && 1000int / 4 == 250
        && 1000int / 5 == 200 && 1000int / 8 == 125 && 1000int / 10 == 100 && 1000int / 20 == 50
        && 1000int / 25 == 40 && 1000int / 40 == 25 && 1000int / 50 == 20 && 1000int / 100 == 10
        && 1000int / 125 == 8 && 1000int / 200 == 5 && 1000int / 250 == 4);
    assert(1000int / 1000 == 1 && 1000int / 500 == 2 && 1000int / 333 == 3);
}

/// Writing a profile leaves the bytes alone that hold none of it, up to the
/// check sum.
pub proof fn write_keeps_other_bytes(
    t: Hidpp10ProfileType,
    page: Seq<u8>,
    p: OnboardModel,
    table: Seq<DpiMapping>,
    k: int,
)
    requires
        page.len() == 512,
        page_layout(t) is Some,
        0 <= k < 510,
        ({
            let l = page_layout(t)->0;
            &&& l.colored ==> k >= 3
            &&& !(l.dpi_at <= k < l.dpi_at + l.dpi_layout.place(5))
            &&& l.angle_at != Some(k)
            &&& k != l.default_at
            &&& k != l.rate_at
            &&& !(l.buttons_at <= k < l.buttons_at + 3 * p.buttons.len())
        }),
    ensures
        sealed_page(page_with_profile(t, page, p, table))[k] == page[k],
{
    let l = page_layout(t)->0;
    let colored = if l.colored {
        bytes::spliced(page, 0, seq![p.red, p.green, p.blue])
    } else {
        page
    };
    let n = written_modes(p.dpi_modes);
    let sensed = with_modes(colored, l.dpi_layout, l.dpi_at, p.dpi_modes, table, n);
    lemma_modes_written(colored, l.dpi_layout, l.dpi_at, p.dpi_modes, table, n);
    let angled = match l.angle_at {
        Some(at) => sensed.update(
            at,
            if p.angle_correction {
                1
            } else {
                0
            },
        ),
        None => sensed,
    };
    let timed = angled.update(l.default_at, p.default_dpi_mode).update(
        l.rate_at,
        byte_of_rate(p.refresh_rate),
    );
    let m = written_buttons(timed, l.buttons_at, p.buttons);
    lemma_buttons_written(timed, l.buttons_at, p.buttons, m);
    assert(sensed[k] == colored[k]);
    assert(with_buttons(timed, l.buttons_at, p.buttons, m)[k] == timed[k]);
}

} // verus!
