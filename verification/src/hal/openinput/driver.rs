//! Probing a device: its version, its texts, and the functions that it has.

use crate::bytes;
use crate::engine::device::{DeviceInfo, DeviceModel, ProfileModel};
use crate::hal::openinput::report;
use crate::hal::openinput::report::{
    OI_PAGE_INFO, OI_REPORT_SHORT, OiError, OiReport, ReportModel, build_request, read_text,
};
use vstd::prelude::*;

verus! {

pub const OI_FUNCTION_VERSION: u8 = 0x00;

pub const OI_FUNCTION_FW_INFO: u8 = 0x01;

pub const OI_FUNCTION_SUPPORTED_PAGES: u8 = 0x02;

pub const OI_FUNCTION_SUPPORTED_FUNCTIONS: u8 = 0x03;

/// What was read from a device.
#[derive(Debug, Clone, Copy, PartialEq, Eq, Structural)]
pub struct OiData {
    pub fw_major: u8,
    pub fw_minor: u8,
    pub fw_patch: u8,
    pub num_profiles: u32,
    pub num_resolutions: u32,
    pub num_buttons: u32,
    pub num_leds: u32,
    /// One bit for each feature that can be used; none can yet.
    pub supported: u64,
}

/// Driver of OpenInput mice.
#[derive(Debug, Clone, Copy)]
pub struct OpenInputDriver {
    /// What was read from the device, once it was probed.
    pub data: Option<OiData>,
}

/// What is known of a device before anything was read.
pub open spec fn blank_data() -> OiData {
    OiData {
        fw_major: 0,
        fw_minor: 0,
        fw_patch: 0,
        num_profiles: 1,
        num_resolutions: 0,
        num_buttons: 0,
        num_leds: 0,
        supported: 0,
    }
}

/// What is to be asked next.
#[derive(Debug, Clone, Copy, PartialEq, Eq, Structural)]
pub enum OiPhase {
    Version,
    /// A text of the firmware: the vendor, the version or the name.
    Field { id: u8 },
    FirstPages,
    Pages { total: usize, read: usize },
    /// The functions of the page at `at` of the list.
    FirstFunctions { at: usize },
    Functions { at: usize, total: usize, read: usize },
    Done,
    Failed,
}

/// A page and its functions.
#[derive(Debug)]
pub struct OiPage {
    pub page: u8,
    pub functions: Vec<u8>,
}

/// The contents of an [`OiPage`].
#[verifier::ext_equal]
pub struct PageModel {
    pub page: u8,
    pub functions: Seq<u8>,
}

impl View for OiPage {
    type V = PageModel;

    open spec fn view(&self) -> PageModel {
        PageModel { page: self.page, functions: self.functions@ }
    }
}

/// How far the probing of a device has come.
#[derive(Debug)]
pub struct OiProbe {
    pub phase: OiPhase,
    /// The texts that were read, in order; `None` for one that could not be.
    pub texts: Vec<Option<String>>,
    pub pages: Vec<u8>,
    /// The functions of the current page.
    pub functions: Vec<u8>,
    /// The pages whose functions were read.
    pub found: Vec<OiPage>,
}

/// The contents of an [`OiProbe`], with what it fills in.
#[verifier::ext_equal]
pub struct Probing {
    pub phase: OiPhase,
    pub data: OiData,
    pub texts: Seq<Option<Seq<char>>>,
    pub pages: Seq<u8>,
    pub functions: Seq<u8>,
    pub found: Seq<PageModel>,
}

/// The contents of a list of texts.
pub open spec fn texts_view(s: Seq<Option<String>>) -> Seq<Option<Seq<char>>> {
    s.map_values(
        |t: Option<String>|
            match t {
                Some(v) => Some(v@),
                None => None,
            },
    )
}

/// The contents of a list of pages.
pub open spec fn pages_view(s: Seq<OiPage>) -> Seq<PageModel> {
    s.map_values(|p: OiPage| p@)
}

/// A request with data.
pub open spec fn request_with(function: u8, a: u8, b: u8) -> ReportModel {
    ReportModel {
        id: OI_REPORT_SHORT,
        function_page: OI_PAGE_INFO,
        function,
        data: bytes::filled(29, 0).update(0, a).update(1, b),
    }
}

/// The entries of a list that an answer holds.
pub open spec fn batch(r: ReportModel) -> Seq<u8> {
    r.data.subrange(2, 2 + r.data[0])
}

/// Whether an answer goes on with a list of which `read` entries of `total` were
/// read: the length of the list stays.
pub open spec fn continues(total: int, read: int, r: ReportModel) -> bool {
    total == read + r.data[0] + r.data[1]
}

impl Probing {
    /// From the functions of the page at `at` on.
    pub open spec fn enter_page(self, at: int) -> Probing {
        Probing {
            phase: if at >= self.pages.len() {
                OiPhase::Done
            } else {
                OiPhase::FirstFunctions { at: at as usize }
            },
            ..self
        }
    }

    /// With a batch of pages, of which `left` are missing.
    pub open spec fn with_pages(self, total: int, read: int, left: u8) -> Probing {
        if left == 0 {
            self.enter_page(0)
        } else {
            Probing {
                phase: OiPhase::Pages { total: total as usize, read: read as usize },
                ..self
            }
        }
    }

    /// With a batch of functions, of which `left` are missing.
    pub open spec fn with_functions(self, at: int, total: int, read: int, left: u8) -> Probing {
        if left == 0 {
            Probing {
                found: self.found.push(
                    PageModel { page: self.pages[at], functions: self.functions },
                ),
                ..self
            }.enter_page(at + 1)
        } else {
            Probing {
                phase: OiPhase::Functions {
                    at: at as usize,
                    total: total as usize,
                    read: read as usize,
                },
                ..self
            }
        }
    }

    /// After an answer; `None` if there is none. Only the version has to be
    /// there. A list ends where the device changes its mind about its length.
    pub open spec fn after(self, reply: Option<ReportModel>) -> Probing {
        match self.phase {
            OiPhase::Version => match reply {
                None => Probing { phase: OiPhase::Failed, ..self },
                Some(r) => Probing {
                    phase: OiPhase::Field { id: 0 },
                    data: OiData {
                        fw_major: r.data[0],
                        fw_minor: r.data[1],
                        fw_patch: r.data[2],
                        ..self.data
                    },
                    ..self
                },
            },
            OiPhase::Field { id } => Probing {
                phase: if id < 2 {
                    OiPhase::Field { id: (id + 1) as u8 }
                } else {
                    OiPhase::FirstPages
                },
                texts: self.texts.push(
                    match reply {
                        Some(r) => Some(report::data_text(r.data)),
                        None => None,
                    },
                ),
                ..self
            },
            OiPhase::FirstPages => match reply {
                None => Probing { phase: OiPhase::Done, ..self },
                Some(r) => {
                    if r.data[0] + r.data[1] == 0 {
                        Probing { phase: OiPhase::Done, ..self }
                    } else {
                        Probing { pages: batch(r), ..self }.with_pages(
                            r.data[0] + r.data[1],
                            r.data[0] as int,
                            r.data[1],
                        )
                    }
                },
            },
            OiPhase::Pages { total, read } => match reply {
                Some(r) if continues(total as int, read as int, r) => {
                    Probing { pages: self.pages + batch(r), ..self }.with_pages(
                        total as int,
                        read + r.data[0],
                        r.data[1],
                    )
                },
                _ => Probing { phase: OiPhase::Done, ..self },
            },
            OiPhase::FirstFunctions { at } => match reply {
                None => self.enter_page(at + 1),
                Some(r) => Probing { functions: batch(r), ..self }.with_functions(
                    at as int,
                    r.data[0] + r.data[1],
                    r.data[0] as int,
                    r.data[1],
                ),
            },
            OiPhase::Functions { at, total, read } => match reply {
                Some(r) if continues(total as int, read as int, r) => {
                    Probing { functions: self.functions + batch(r), ..self }.with_functions(
                        at as int,
                        total as int,
                        read + r.data[0],
                        r.data[1],
                    )
                },
                _ => self.enter_page(at + 1),
            },
            OiPhase::Done => self,
            OiPhase::Failed => self,
        }
    }

    /// The next request; `None` at the end.
    pub open spec fn query(self) -> Option<ReportModel> {
        match self.phase {
            OiPhase::Version => Some(report::bare_request(OI_PAGE_INFO, OI_FUNCTION_VERSION)),
            OiPhase::Field { id } => Some(request_with(OI_FUNCTION_FW_INFO, id, 0)),
            OiPhase::FirstPages => Some(request_with(OI_FUNCTION_SUPPORTED_PAGES, 0, 0)),
            OiPhase::Pages { total, read } => Some(
                request_with(OI_FUNCTION_SUPPORTED_PAGES, read as u8, 0),
            ),
            OiPhase::FirstFunctions { at } => Some(
                request_with(OI_FUNCTION_SUPPORTED_FUNCTIONS, self.pages[at as int], 0),
            ),
            OiPhase::Functions { at, total, read } => Some(
                request_with(
                    OI_FUNCTION_SUPPORTED_FUNCTIONS,
                    self.pages[at as int],
                    read as u8,
                ),
            ),
            OiPhase::Done => None,
            OiPhase::Failed => None,
        }
    }

    /// Whether the entries that an answer announces are in it.
    pub open spec fn fits(self, r: ReportModel) -> bool {
        match self.phase {
            OiPhase::FirstPages | OiPhase::Pages { total: _, read: _ } => r.data[0] <= 27,
            OiPhase::FirstFunctions { at: _ } => r.data[0] <= 27,
            OiPhase::Functions { at: _, total: _, read: _ } => r.data[0] <= 27,
            _ => true,
        }
    }

    /// What holds of every state.
    pub open spec fn consistent(self) -> bool {
        match self.phase {
            OiPhase::Field { id } => id <= 2,
            OiPhase::Pages { total, read } => read < total <= 510 && self.pages.len() == read,
            OiPhase::FirstFunctions { at } => at < self.pages.len() <= 510,
            OiPhase::Functions { at, total, read } => at < self.pages.len() <= 510 && read < total
                <= 510 && self.functions.len() == read,
            _ => true,
        }
    }
}

fn request_of(function: u8, a: u8, b: u8) -> (r: OiReport)
    ensures
        r@ == request_with(function, a, b),
{
    let mut r = build_request(OI_PAGE_INFO, function);
    r.data[0] = a;
    r.data[1] = b;
    assert(r@ =~= request_with(function, a, b));
    r
}

fn batch_of(r: &OiReport) -> (v: Vec<u8>)
    requires
        r@.data[0] <= 27,
    ensures
        v@ == batch(r@),
{
    bytes::slice(r.data.as_slice(), 2, 2 + r.data[0] as usize)
}

impl OiProbe {
    /// The probing with what it fills in.
    pub open spec fn with(self, data: OiData) -> Probing {
        Probing {
            phase: self.phase,
            data,
            texts: texts_view(self.texts@),
            pages: self.pages@,
            functions: self.functions@,
            found: pages_view(self.found@),
        }
    }

    /// Whether the device can be used; `None` while it is not known.
    pub fn outcome(&self) -> (r: Option<bool>)
        ensures
            r == match self.phase {
                OiPhase::Done => Some(true),
                OiPhase::Failed => Some(false),
                _ => None,
            },
    {
        match self.phase {
            OiPhase::Done => Some(true),
            OiPhase::Failed => Some(false),
            _ => None,
        }
    }

    /// The next request; `None` at the end.
    pub fn request(&self) -> (r: Option<OiReport>)
        requires
            self.with(blank_data()).consistent(),
        ensures
            forall|data: OiData|
                (#[trigger] self.with(data)).query() == match r {
                    Some(q) => Some(q@),
                    None => None,
                },
    {
        match self.phase {
            OiPhase::Version => Some(build_request(OI_PAGE_INFO, OI_FUNCTION_VERSION)),
            OiPhase::Field { id } => Some(request_of(OI_FUNCTION_FW_INFO, id, 0)),
            OiPhase::FirstPages => Some(request_of(OI_FUNCTION_SUPPORTED_PAGES, 0, 0)),
            OiPhase::Pages { total: _, read } => Some(
                request_of(OI_FUNCTION_SUPPORTED_PAGES, read as u8, 0),
            ),
            OiPhase::FirstFunctions { at } => Some(
                request_of(OI_FUNCTION_SUPPORTED_FUNCTIONS, self.pages[at], 0),
            ),
            OiPhase::Functions { at, total: _, read } => Some(
                request_of(OI_FUNCTION_SUPPORTED_FUNCTIONS, self.pages[at], read as u8),
            ),
            OiPhase::Done => None,
            OiPhase::Failed => None,
        }
    }

    fn enter_page(&mut self, at: usize)
        ensures
            forall|data: OiData|
                #![auto]
                final(self).with(data) == old(self).with(data).enter_page(at as int),
    {
        self.phase = if at >= self.pages.len() {
            OiPhase::Done
        } else {
            OiPhase::FirstFunctions { at }
        };
    }

    fn finish_page(&mut self, at: usize, total: usize, read: usize, left: u8)
        requires
            at < old(self).pages@.len(),
        ensures
            forall|data: OiData|
                #![auto]
                final(self).with(data) == old(self).with(data).with_functions(
                    at as int,
                    total as int,
                    read as int,
                    left,
                ),
    {
        if left == 0 {
            let functions = self.functions.clone();
            assert(functions@ =~= self.functions@);
            let item = OiPage { page: self.pages[at], functions };
            let ghost model = item@;
            assert(self.pages.len() == self.pages@.len());
            self.found.push(item);
            assert(pages_view(self.found@) =~= pages_view(old(self).found@).push(model));
            self.enter_page(at + 1);
        } else {
            self.phase = OiPhase::Functions { at, total, read };
        }
    }

    fn pages_replied(&mut self, reply: &Option<OiReport>)
        requires
            old(self).phase is FirstPages || old(self).phase is Pages,
            old(self).with(blank_data()).consistent(),
            reply matches Some(r) ==> r@.data[0] <= 27,
        ensures
            forall|data: OiData|
                #![auto]
                final(self).with(data) == old(self).with(data).after(
                    match reply {
                        Some(r) => Some(r@),
                        None => None,
                    },
                ),
            final(self).with(blank_data()).consistent(),
    {
        let r = match reply {
            Some(r) => r,
            None => {
                self.phase = OiPhase::Done;
                return;
            },
        };
        let count: u8 = r.data[0];
        let left: u8 = r.data[1];
        match self.phase {
            OiPhase::Pages { total, read } => {
                if total != read + count as usize + left as usize {
                    self.phase = OiPhase::Done;
                    return;
                }
                let more = batch_of(r);
                bytes::extend(&mut self.pages, more.as_slice());
                if left == 0 {
                    self.enter_page(0);
                } else {
                    self.phase = OiPhase::Pages { total, read: read + count as usize };
                }
            },
            _ => {
                let total: usize = count as usize + left as usize;
                if total == 0 {
                    self.phase = OiPhase::Done;
                    return;
                }
                self.pages = batch_of(r);
                if left == 0 {
                    self.enter_page(0);
                } else {
                    self.phase = OiPhase::Pages { total, read: count as usize };
                }
            },
        }
    }

    fn functions_replied(&mut self, reply: &Option<OiReport>)
        requires
            old(self).phase is FirstFunctions || old(self).phase is Functions,
            old(self).with(blank_data()).consistent(),
            reply matches Some(r) ==> r@.data[0] <= 27,
        ensures
            forall|data: OiData|
                #![auto]
                final(self).with(data) == old(self).with(data).after(
                    match reply {
                        Some(r) => Some(r@),
                        None => None,
                    },
                ),
            final(self).with(blank_data()).consistent(),
    {
        assert(self.pages.len() == self.pages@.len());
        match self.phase {
            OiPhase::FirstFunctions { at } => {
                match reply {
                    None => {
                        self.enter_page(at + 1);
                    },
                    Some(r) => {
                        let count: usize = r.data[0] as usize;
                        let total: usize = count + r.data[1] as usize;
                        self.functions = batch_of(r);
                        self.finish_page(at, total, count, r.data[1]);
                    },
                }
            },
            OiPhase::Functions { at, total, read } => {
                match reply {
                    None => {
                        self.enter_page(at + 1);
                    },
                    Some(r) => {
                        let count: usize = r.data[0] as usize;
                        if total != read + count + r.data[1] as usize {
                            self.enter_page(at + 1);
                            return;
                        }
                        let more = batch_of(r);
                        bytes::extend(&mut self.functions, more.as_slice());
                        self.finish_page(at, total, read + count, r.data[1]);
                    },
                }
            },
            _ => {},
        }
    }

    /// Takes the answer to the last request; `None` if there is none.
    pub fn replied(&mut self, data: &mut OiData, reply: &Option<OiReport>)
        requires
            old(self).with(*old(data)).consistent(),
            reply matches Some(r) ==> old(self).with(*old(data)).fits(r@),
        ensures
            final(self).with(*final(data)) == old(self).with(*old(data)).after(
                match reply {
                    Some(r) => Some(r@),
                    None => None,
                },
            ),
            final(self).with(*final(data)).consistent(),
    {
        match self.phase {
            OiPhase::Version => {
                match reply {
                    None => {
                        self.phase = OiPhase::Failed;
                    },
                    Some(r) => {
                        data.fw_major = r.data[0];
                        data.fw_minor = r.data[1];
                        data.fw_patch = r.data[2];
                        self.phase = OiPhase::Field { id: 0 };
                    },
                }
            },
            OiPhase::Field { id } => {
                let t = match reply {
                    Some(r) => Some(read_text(r.data.as_slice())),
                    None => None,
                };
                let ghost all = self.texts@.push(t);
                self.texts.push(t);
                assert(texts_view(all) =~= texts_view(old(self).texts@).push(
                    texts_view(all).last(),
                ));
                self.phase = if id < 2 {
                    OiPhase::Field { id: id + 1 }
                } else {
                    OiPhase::FirstPages
                };
            },
            OiPhase::FirstPages => {
                assert(old(self).with(blank_data()).consistent());
                self.pages_replied(reply);
            },
            OiPhase::Pages { total: _, read: _ } => {
                assert(old(self).with(blank_data()).consistent());
                self.pages_replied(reply);
            },
            OiPhase::FirstFunctions { at: _ } => {
                assert(old(self).with(blank_data()).consistent());
                self.functions_replied(reply);
            },
            OiPhase::Functions { at: _, total: _, read: _ } => {
                assert(old(self).with(blank_data()).consistent());
                self.functions_replied(reply);
            },
            OiPhase::Done => {},
            OiPhase::Failed => {},
        }
        assert(self.with(blank_data()).phase == self.with(*data).phase);
    }
}

/// The report rates that a device has.
pub open spec fn report_rates() -> Seq<u32> {
    seq![125u32, 250, 500, 750, 1000]
}

/// A device with its report rates, and every profile active.
pub open spec fn loaded(info: DeviceModel) -> DeviceModel {
    DeviceModel {
        profiles: info.profiles.map_values(
            |p: ProfileModel|
                ProfileModel { report_rates: report_rates(), is_active: true, ..p },
        ),
        ..info
    }
}

impl OpenInputDriver {
    pub fn new() -> (r: Self)
        ensures
            r.data is None,
    {
        OpenInputDriver { data: None }
    }

    /// Begins to probe a device.
    pub fn probe(&mut self) -> (r: OiProbe)
        ensures
            final(self).data == Some(blank_data()),
            r.with(blank_data()) == (Probing {
                phase: OiPhase::Version,
                data: blank_data(),
                texts: Seq::empty(),
                pages: Seq::empty(),
                functions: Seq::empty(),
                found: Seq::empty(),
            }),
    {
        self.data = Some(
            OiData {
                fw_major: 0,
                fw_minor: 0,
                fw_patch: 0,
                num_profiles: 1,
                num_resolutions: 0,
                num_buttons: 0,
                num_leds: 0,
                supported: 0,
            },
        );
        let r = OiProbe {
            phase: OiPhase::Version,
            texts: Vec::new(),
            pages: Vec::new(),
            functions: Vec::new(),
            found: Vec::new(),
        };
        assert(texts_view(r.texts@) =~= Seq::empty());
        assert(pages_view(r.found@) =~= Seq::empty());
        r
    }

    /// Gives every profile its report rates and makes it active.
    pub fn load_profiles(&self, info: &mut DeviceInfo) -> (r: Result<(), OiError>)
        ensures
            match r {
                Ok(_) => self.data is Some && final(info)@ == loaded(old(info)@),
                Err(e) => self.data is None && e is NotProbed && final(info)@ == old(info)@,
            },
    {
        if self.data.is_none() {
            return Err(OiError::NotProbed);
        }
        let ghost f = |p: ProfileModel|
            ProfileModel { report_rates: report_rates(), is_active: true, ..p };
        let mut i: usize = 0;
        while i < info.profiles.len()
            invariant
                i <= info.profiles@.len(),
                info.profiles@.len() == old(info).profiles@.len(),
                info@ == (DeviceModel { profiles: info@.profiles, ..old(info)@ }),
                f == (|p: ProfileModel|
                    ProfileModel { report_rates: report_rates(), is_active: true, ..p }),
                forall|k: int|
                    0 <= k < i ==> (#[trigger] info.profiles@[k])@ == f(old(info).profiles@[k]@),
                forall|k: int|
                    i <= k < info.profiles@.len() ==> (#[trigger] info.profiles@[k])@
                        == old(info).profiles@[k]@,
            decreases info.profiles@.len() - i,
        {
            let ghost before = info.profiles@[i as int]@;
            info.profiles[i].report_rates = vec![125, 250, 500, 750, 1000];
            info.profiles[i].is_active = true;
            assert(info.profiles@[i as int]@ =~= f(before));
            i += 1;
        }
        assert(info@.profiles =~= old(info)@.profiles.map_values(f));
        Ok(())
    }
}

/// How much there is still to ask at most: how many kinds of thing, of how many
/// pages, and how many entries.
pub open spec fn remaining(s: Probing) -> (int, int, int) {
    match s.phase {
        OiPhase::Version => (7, 0, 0),
        OiPhase::Field { id } => (6 - id, 0, 0),
        OiPhase::FirstPages => (3, 0, 0),
        OiPhase::Pages { total, read } => (2, 0, total - read),
        OiPhase::FirstFunctions { at } => (1, s.pages.len() - at, 511),
        OiPhase::Functions { at, total, read } => (1, s.pages.len() - at, total - read),
        OiPhase::Done => (0, 0, 0),
        OiPhase::Failed => (0, 0, 0),
    }
}

/// Whether an answer goes on with a list and brings no entry of it.
pub open spec fn brings_nothing(s: Probing, reply: Option<ReportModel>) -> bool {
    &&& reply matches Some(r) && r.data[0] == 0 && match s.phase {
        OiPhase::Pages { total, read } => continues(total as int, read as int, r),
        OiPhase::Functions { at: _, total, read } => continues(total as int, read as int, r),
        _ => false,
    }
}

/// Each answer and each failure brings a probing nearer to its end, but for an
/// answer that goes on with a list and brings no entry of it: that one changes
/// nothing, and the same is asked again.
pub proof fn probing_makes_progress(s: Probing, reply: Option<ReportModel>)
    requires
        s.consistent(),
        s.query() is Some,
        reply matches Some(r) ==> r.data.len() == 29 && s.fits(r),
    ensures
        ({
            let a = remaining(s);
            let b = remaining(s.after(reply));
            if brings_nothing(s, reply) {
                s.after(reply) == s
            } else {
                decreases_to!(a.0, a.1, a.2 => b.0, b.1, b.2)
            }
        }),
{
    if brings_nothing(s, reply) {
        assert(s.after(reply) =~= s);
    }
}

/// A list that was read to its end has as many entries as the device announced
/// at the start.
pub proof fn complete_list_has_its_length(s: Probing, r: ReportModel)
    requires
        s.consistent(),
        s.fits(r),
        r.data.len() == 29,
        s.phase matches OiPhase::Functions { at, total, read } && s.after(Some(r)).found.len()
            > s.found.len(),
    ensures
        s.phase matches OiPhase::Functions { at, total, read } && s.after(
            Some(r),
        ).found.last().functions.len() == total,
{
}

} // verus!
