//! What the reports of a device hold, and what is made of its answers.

use crate::bytes;
use crate::engine::device::DeviceModel;
use crate::hal::openinput::driver;
use crate::hal::openinput::driver::{OiPhase, Probing};
use crate::hal::openinput::report;
use crate::hal::openinput::report::ReportModel;
use crate::text;
use vstd::prelude::*;

verus! {

/// A report is its number, a page, a function and data; the short one has eight
/// bytes, the long one thirty-two.
pub proof fn report_layout(r: ReportModel, i: int)
    requires
        r.data.len() == 29,
    ensures
        r.wire(8).len() == 8,
        r.wire(32).len() == 32,
        r.wire(32)[0] == r.id && r.wire(32)[1] == r.function_page && r.wire(32)[2] == r.function,
        r.wire(8)[0] == r.id && r.wire(8)[1] == r.function_page && r.wire(8)[2] == r.function,
        0 <= i < 29 ==> r.wire(32)[3 + i] == r.data[i],
        0 <= i < 5 ==> r.wire(8)[3 + i] == r.data[i],
        report::report_size(r.id) == Some(8nat) <==> r.id == 0x20,
        report::report_size(r.id) == Some(32nat) <==> r.id == 0x21,
{
}

/// What a report of bytes holds: the data follow the first three, with zeros for
/// those that are missing.
pub proof fn report_is_read(buf: Seq<u8>, i: int)
    requires
        buf.len() >= 3,
    ensures
        ({
            let r = ReportModel::of_wire(buf);
            &&& r.id == buf[0] && r.function_page == buf[1] && r.function == buf[2]
            &&& r.data.len() == 29
            &&& 0 <= i < 29 && 3 + i < buf.len() ==> r.data[i] == buf[3 + i]
            &&& 0 <= i < 29 && 3 + i >= buf.len() ==> r.data[i] == 0
        }),
        report::well_sized(buf) <==> buf[0] == 0x20 && buf.len() == 8 || buf[0] == 0x21 && buf.len()
            == 32,
{
}

/// What is asked of a device: short reports to the page of information.
pub proof fn query_layout(s: Probing)
    requires
        s.consistent(),
    ensures
        s.query() is None <==> s.phase is Done || s.phase is Failed,
        s.query() matches Some(q) ==> {
            &&& q.id == 0x20 && q.function_page == 0 && q.data.len() == 29
            &&& s.phase is Version ==> q.function == 0 && q.data[0] == 0 && q.data[1] == 0
            &&& s.phase matches OiPhase::Field { id } ==> q.function == 1 && q.data[0] == id
                && q.data[1] == 0
            &&& s.phase is FirstPages ==> q.function == 2 && q.data[0] == 0 && q.data[1] == 0
            &&& s.phase matches OiPhase::Pages { total, read } ==> q.function == 2 && (read < 256
                ==> q.data[0] == read) && q.data[1] == 0
            &&& s.phase matches OiPhase::FirstFunctions { at } ==> q.function == 3 && q.data[0]
                == s.pages[at as int] && q.data[1] == 0
            &&& s.phase matches OiPhase::Functions { at, total, read } ==> q.function == 3
                && q.data[0] == s.pages[at as int] && (read < 256 ==> q.data[1] == read)
        },
{
}

/// The version is in the first three bytes of the answer, and a device without an
/// answer to that question is not used.
pub proof fn version_is_read(s: Probing, reply: Option<ReportModel>)
    requires
        s.phase is Version,
    ensures
        reply is None ==> s.after(reply).phase is Failed,
        reply matches Some(r) ==> {
            let a = s.after(reply);
            &&& a.phase == OiPhase::Field { id: 0 }
            &&& a.data.fw_major == r.data[0] && a.data.fw_minor == r.data[1] && a.data.fw_patch
                == r.data[2]
            &&& a.data.num_profiles == s.data.num_profiles
        },
{
}

/// The answers with texts are taken in their order: the three fields are asked
/// for one after the other, and then the pages.
pub proof fn fields_are_read(s: Probing, reply: Option<ReportModel>, id: u8)
    requires
        s.phase == (OiPhase::Field { id }),
        id <= 2,
    ensures
        ({
            let a = s.after(reply);
            &&& a.texts.len() == s.texts.len() + 1
            &&& a.texts.last() is Some <==> reply is Some
            &&& id < 2 ==> a.phase == OiPhase::Field { id: (id + 1) as u8 }
            &&& id == 2 ==> a.phase is FirstPages
        }),
{
}

/// An answer with part of a list says how many entries it has and how many are
/// left; the entries follow, and go behind those that came before.
pub proof fn lists_are_read(s: Probing, r: ReportModel, i: int)
    requires
        s.consistent(),
        r.data.len() == 29,
        r.data[0] <= 27,
        0 <= i < r.data[0],
    ensures
        s.phase is FirstPages ==> {
            let a = s.after(Some(r));
            &&& a.pages.len() == r.data[0]
            &&& a.pages[i] == r.data[2 + i]
            &&& r.data[1] > 0 ==> a.phase == OiPhase::Pages {
                total: (r.data[0] + r.data[1]) as usize,
                read: r.data[0] as usize,
            }
            &&& r.data[1] == 0 ==> a.phase == (OiPhase::FirstFunctions { at: 0 })
        },
        s.phase matches OiPhase::Pages { total, read } ==> total == read + r.data[0] + r.data[1]
            ==> {
            let a = s.after(Some(r));
            &&& a.pages.len() == s.pages.len() + r.data[0]
            &&& a.pages[s.pages.len() + i] == r.data[2 + i]
            &&& a.pages.subrange(0, s.pages.len() as int) =~= s.pages
        },
        s.phase matches OiPhase::FirstFunctions { at } ==> r.data[1] == 0 ==> {
            let a = s.after(Some(r));
            &&& a.found.len() == s.found.len() + 1
            &&& a.found.last().page == s.pages[at as int]
            &&& a.found.last().functions.len() == r.data[0]
            &&& a.found.last().functions[i] == r.data[2 + i]
            &&& at + 1 < s.pages.len() ==> a.phase == OiPhase::FirstFunctions {
                at: (at + 1) as usize,
            }
            &&& at + 1 == s.pages.len() ==> a.phase is Done
        },
{
}

/// A device that was loaded offers five rates, and has its profiles active.
pub proof fn loaded_device(info: DeviceModel, i: int)
    requires
        0 <= i < info.profiles.len(),
    ensures
        ({
            let p = driver::loaded(info).profiles[i];
            &&& p.is_active
            &&& p.index == info.profiles[i].index
            &&& p.report_rates =~= seq![125u32, 250, 500, 750, 1000]
        }),
{
}

/// What the pages are called.
pub proof fn page_titles(page: u8)
    ensures
        page == 0 ==> report::page_title(page) == "INFO"@,
        page == 1 ==> report::page_title(page) == "SETTINGS"@,
        page == 2 ==> report::page_title(page) == "DPI"@,
        page == 3 ==> report::page_title(page) == "BUTTONS"@,
        page == 4 ==> report::page_title(page) == "LEDS"@,
        page == 0xFD ==> report::page_title(page) == "GIMMICKS"@,
        page == 0xFE ==> report::page_title(page) == "DEBUG"@,
        page == 0xFF ==> report::page_title(page) == "ERROR"@,
        5 <= page <= 0xFC ==> report::page_title(page) == "UNKNOWN"@,
{
}

/// What is told of an error of the device.
pub proof fn error_texts(r: ReportModel)
    ensures
        r.function == 1 ==> report::error_text(r)
            == "OpenInput device error: Invalid value (in position "@ + text::decimal(
            r.data[2] as nat,
        ) + ")"@,
        r.function == 2 ==> report::error_text(r)
            == "OpenInput device error: Unsupported function (0x"@ + text::hex2(r.data[0] as int)
            + ", 0x"@ + text::hex2(r.data[1] as int) + ")"@,
        r.function == 0 || 3 <= r.function < 0xFE || r.function == 0xFF ==> report::error_text(r)
            == "OpenInput device error: Unknown error (0x"@ + text::hex2(r.function as int) + ")"@,
{
}

/// What is known of a device before it is asked: one profile, and nothing else.
pub proof fn data_before_probing()
    ensures
        ({
            let d = driver::blank_data();
            &&& d.num_profiles == 1 && d.num_resolutions == 0 && d.num_buttons == 0
            &&& d.num_leds == 0 && d.supported == 0
            &&& d.fw_major == 0 && d.fw_minor == 0 && d.fw_patch == 0
        }),
{
}

/// A text in the data of an answer ends before the first zero.
pub proof fn texts_end_at_zero(data: Seq<u8>, end: int, k: int)
    requires
        data.len() == 29,
        0 <= end < 29,
        data[end] == 0,
        forall|j: int| 0 <= j < end ==> 0 < #[trigger] data[j] < 128,
    ensures
        report::data_text(data).len() == end,
        0 <= k < end ==> report::data_text(data)[k] as int == data[k],
{
    lemma_zero(data, 0, end);
    let name = data.subrange(0, end);
    assert(forall|j: int| 0 <= j < name.len() ==> name[j] == data[j]);
    assert(text::ascii_bytes(name));
}

proof fn lemma_zero(s: Seq<u8>, k: int, end: int)
    requires
        0 <= k <= end < s.len(),
        s[end] == 0,
        forall|j: int| k <= j < end ==> 0 < #[trigger] s[j],
    ensures
        bytes::zero_from(s, k) == end,
    decreases end - k,
{
    if k < end {
        assert(s[k] > 0);
        lemma_zero(s, k + 1, end);
    }
}

} // verus!
