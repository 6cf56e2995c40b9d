//! Reports, and what the answers of a device mean.

use crate::bytes;
use crate::text;
use vstd::prelude::*;
use vstd::string::*;

verus! {

pub const OI_REPORT_SHORT: u8 = 0x20;

pub const OI_REPORT_LONG: u8 = 0x21;

pub const OI_PAGE_INFO: u8 = 0x00;

pub const OI_PAGE_GIMMICKS: u8 = 0xFD;

pub const OI_PAGE_DEBUG: u8 = 0xFE;

pub const OI_PAGE_ERROR: u8 = 0xFF;

pub const OI_ERROR_INVALID_VALUE: u8 = 0x01;

pub const OI_ERROR_UNSUPPORTED_FUNCTION: u8 = 0x02;

pub const OI_ERROR_CUSTOM: u8 = 0xFE;

/// A report: its number, a function on a page, and data.
#[derive(Debug)]
pub struct OiReport {
    pub id: u8,
    pub function_page: u8,
    pub function: u8,
    pub data: [u8; 29],
}

/// The contents of an [`OiReport`].
#[verifier::ext_equal]
pub struct ReportModel {
    pub id: u8,
    pub function_page: u8,
    pub function: u8,
    pub data: Seq<u8>,
}

impl View for OiReport {
    type V = ReportModel;

    open spec fn view(&self) -> ReportModel {
        ReportModel {
            id: self.id,
            function_page: self.function_page,
            function: self.function,
            data: self.data@,
        }
    }
}

impl Clone for OiReport {
    fn clone(&self) -> (r: Self)
        ensures
            r@ == self@,
    {
        OiReport {
            id: self.id,
            function_page: self.function_page,
            function: self.function,
            data: self.data,
        }
    }
}

impl Default for OiReport {
    fn default() -> (r: Self)
        ensures
            r@ == (ReportModel {
                id: 0,
                function_page: 0,
                function: 0,
                data: bytes::filled(29, 0),
            }),
    {
        let r = OiReport { id: 0, function_page: 0, function: 0, data: [0u8; 29] };
        assert(r.data@ =~= bytes::filled(29, 0));
        r
    }
}

impl ReportModel {
    /// The first `n` bytes of a report.
    pub open spec fn wire(self, n: nat) -> Seq<u8> {
        bytes::padded(seq![self.id, self.function_page, self.function] + self.data, n)
    }

    /// The report that bytes hold.
    pub open spec fn of_wire(buf: Seq<u8>) -> ReportModel {
        ReportModel {
            id: buf[0],
            function_page: buf[1],
            function: buf[2],
            data: bytes::padded(buf.subrange(3, buf.len() as int), 29),
        }
    }
}

impl OiReport {
    /// The report in its short form.
    pub fn to_short_buf(&self) -> (r: [u8; 8])
        ensures
            r@ == self@.wire(8),
    {
        let r: [u8; 8] = [
            self.id,
            self.function_page,
            self.function,
            self.data[0],
            self.data[1],
            self.data[2],
            self.data[3],
            self.data[4],
        ];
        assert(r@ =~= self@.wire(8));
        r
    }

    /// The report in its long form.
    pub fn to_long_buf(&self) -> (r: [u8; 32])
        ensures
            r@ == self@.wire(32),
    {
        let mut r: [u8; 32] = [0u8; 32];
        r[0] = self.id;
        r[1] = self.function_page;
        r[2] = self.function;
        let mut i: usize = 0;
        while i < 29
            invariant
                i <= 29,
                r@[0] == self.id,
                r@[1] == self.function_page,
                r@[2] == self.function,
                forall|k: int| 0 <= k < i ==> r@[3 + k] == #[trigger] self.data@[k],
            decreases 29 - i,
        {
            r[3 + i] = self.data[i];
            i += 1;
        }
        assert forall|k: int| 0 <= k < 32 implies r@[k] == self@.wire(32)[k] by {
            if k >= 3 {
                assert(r@[3 + (k - 3)] == self.data@[k - 3]);
            }
        }
        assert(r@ =~= self@.wire(32));
        r
    }

    /// The report that bytes hold. Data that is not there is zero.
    pub fn from_buf(buf: &[u8]) -> (r: Self)
        requires
            buf@.len() >= 3,
        ensures
            r@ == ReportModel::of_wire(buf@),
    {
        let mut data: [u8; 29] = [0u8; 29];
        let mut i: usize = 0;
        while i < 29 && i < buf.len() - 3
            invariant
                i <= 29,
                i <= buf@.len() - 3,
                buf@.len() >= 3,
                forall|k: int| 0 <= k < i ==> (#[trigger] data@[k]) == buf@[3 + k],
                forall|k: int| i <= k < 29 ==> (#[trigger] data@[k]) == 0,
            decreases 29 - i,
        {
            data[i] = buf[3 + i];
            i += 1;
        }
        let r = OiReport { id: buf[0], function_page: buf[1], function: buf[2], data };
        assert(r.data@ =~= ReportModel::of_wire(buf@).data);
        r
    }
}

/// Why a request has no answer.
#[derive(Debug)]
pub enum OiError {
    UnknownReport { id: u8 },
    TooShort { size: usize },
    UnexpectedReport { id: u8 },
    SizeMismatch { got: usize, expected: usize },
    /// The device answered with an error.
    Device { message: String },
    NotProbed,
}

/// How many bytes a report has.
pub open spec fn report_size(id: u8) -> Option<nat> {
    if id == OI_REPORT_SHORT {
        Some(8)
    } else if id == OI_REPORT_LONG {
        Some(32)
    } else {
        None
    }
}

/// The bytes of a request.
pub fn request_bytes(report: &OiReport) -> (r: Result<Vec<u8>, OiError>)
    ensures
        match r {
            Ok(v) => report_size(report.id) matches Some(n) && v@ == report@.wire(n),
            Err(e) => report_size(report.id) is None && e == (OiError::UnknownReport {
                id: report.id,
            }),
        },
{
    if report.id == OI_REPORT_SHORT {
        let buf = report.to_short_buf();
        Ok(bytes::slice(buf.as_slice(), 0, 8))
    } else if report.id == OI_REPORT_LONG {
        let buf = report.to_long_buf();
        Ok(bytes::slice(buf.as_slice(), 0, 32))
    } else {
        Err(OiError::UnknownReport { id: report.id })
    }
}

/// The text before the first zero.
pub open spec fn data_text(s: Seq<u8>) -> Seq<char> {
    text::decoded(s.subrange(0, bytes::zero_from(s, 0)))
}

/// The text before the first zero.
pub fn read_text(data: &[u8]) -> (r: String)
    ensures
        r@ == data_text(data@),
{
    let end: usize = bytes::find_zero(data, 0);
    let head = bytes::slice(data, 0, end);
    text::from_utf8_lossy(head.as_slice())
}

/// An error of the device in words.
pub open spec fn error_text(r: ReportModel) -> Seq<char> {
    if r.function == OI_ERROR_INVALID_VALUE {
        "OpenInput device error: Invalid value (in position "@ + text::decimal(r.data[2] as nat)
            + ")"@
    } else if r.function == OI_ERROR_UNSUPPORTED_FUNCTION {
        "OpenInput device error: Unsupported function (0x"@ + text::hex2(r.data[0] as int)
            + ", 0x"@ + text::hex2(r.data[1] as int) + ")"@
    } else if r.function == OI_ERROR_CUSTOM {
        "OpenInput device error: Custom error ("@ + data_text(r.data) + ")"@
    } else {
        "OpenInput device error: Unknown error (0x"@ + text::hex2(r.function as int) + ")"@
    }
}

/// An error of the device in words.
pub fn format_error_report(report: &OiReport) -> (r: String)
    ensures
        r@ == error_text(report@),
{
    if report.function == OI_ERROR_INVALID_VALUE {
        let mut s: String = "OpenInput device error: Invalid value (in position ".to_owned();
        text::push_decimal(&mut s, report.data[2] as u64);
        s.append(")");
        s
    } else if report.function == OI_ERROR_UNSUPPORTED_FUNCTION {
        let mut s: String = "OpenInput device error: Unsupported function (0x".to_owned();
        text::push_hex2(&mut s, report.data[0]);
        s.append(", 0x");
        text::push_hex2(&mut s, report.data[1]);
        s.append(")");
        s
    } else if report.function == OI_ERROR_CUSTOM {
        let mut s: String = "OpenInput device error: Custom error (".to_owned();
        let msg = read_text(report.data.as_slice());
        s.append(msg.as_str());
        s.append(")");
        s
    } else {
        let mut s: String = "OpenInput device error: Unknown error (0x".to_owned();
        text::push_hex2(&mut s, report.function);
        s.append(")");
        s
    }
}

/// Whether an answer has a known number and the size that goes with it.
pub open spec fn well_sized(rx: Seq<u8>) -> bool {
    rx.len() >= 3 && report_size(rx[0]) == Some(rx.len())
}

/// What an answer says: it has a known number and the size that goes with it,
/// and is not an error of the device.
pub fn check_response(rx: &[u8]) -> (r: Result<OiReport, OiError>)
    ensures
        match r {
            Ok(report) => well_sized(rx@) && rx@[1] != OI_PAGE_ERROR && report@
                == ReportModel::of_wire(rx@),
            Err(OiError::TooShort { size }) => rx@.len() < 3 && size == rx@.len(),
            Err(OiError::UnexpectedReport { id }) => rx@.len() >= 3 && report_size(rx@[0]) is None
                && id == rx@[0],
            Err(OiError::SizeMismatch { got, expected }) => {
                &&& rx@.len() >= 3
                &&& report_size(rx@[0]) == Some(expected as nat)
                &&& got == rx@.len()
                &&& got != expected
            },
            Err(OiError::Device { message }) => well_sized(rx@) && rx@[1] == OI_PAGE_ERROR
                && message@ == error_text(ReportModel::of_wire(rx@)),
            Err(_) => false,
        },
{
    let n: usize = rx.len();
    if n < 3 {
        return Err(OiError::TooShort { size: n });
    }
    let expected: usize = if rx[0] == OI_REPORT_SHORT {
        8
    } else if rx[0] == OI_REPORT_LONG {
        32
    } else {
        return Err(OiError::UnexpectedReport { id: rx[0] });
    };
    if n != expected {
        return Err(OiError::SizeMismatch { got: n, expected });
    }
    let report = OiReport::from_buf(rx);
    if report.function_page == OI_PAGE_ERROR {
        return Err(OiError::Device { message: format_error_report(&report) });
    }
    Ok(report)
}

/// A short request without data.
pub open spec fn bare_request(page: u8, function: u8) -> ReportModel {
    ReportModel {
        id: OI_REPORT_SHORT,
        function_page: page,
        function,
        data: bytes::filled(29, 0),
    }
}

/// A short request without data.
pub fn build_request(page: u8, function: u8) -> (r: OiReport)
    ensures
        r@ == bare_request(page, function),
{
    let r = OiReport { id: OI_REPORT_SHORT, function_page: page, function, data: [0u8; 29] };
    assert(r.data@ =~= bytes::filled(29, 0));
    r
}

/// The name of a page.
pub open spec fn page_title(page: u8) -> Seq<char> {
    if page == 0x00 {
        "INFO"@
    } else if page == 0x01 {
        "SETTINGS"@
    } else if page == 0x02 {
        "DPI"@
    } else if page == 0x03 {
        "BUTTONS"@
    } else if page == 0x04 {
        "LEDS"@
    } else if page == OI_PAGE_GIMMICKS {
        "GIMMICKS"@
    } else if page == OI_PAGE_DEBUG {
        "DEBUG"@
    } else if page == OI_PAGE_ERROR {
        "ERROR"@
    } else {
        "UNKNOWN"@
    }
}

/// The name of a page.
pub fn page_name(page: u8) -> (r: &'static str)
    ensures
        r@ == page_title(page),
{
    match page {
        0x00 => "INFO",
        0x01 => "SETTINGS",
        0x02 => "DPI",
        0x03 => "BUTTONS",
        0x04 => "LEDS",
        OI_PAGE_GIMMICKS => "GIMMICKS",
        OI_PAGE_DEBUG => "DEBUG",
        OI_PAGE_ERROR => "ERROR",
        _ => "UNKNOWN",
    }
}

/// A long report reads back as it was written.
pub proof fn long_report_round_trip(r: ReportModel)
    requires
        r.data.len() == 29,
    ensures
        ReportModel::of_wire(r.wire(32)) == r,
{
    assert(ReportModel::of_wire(r.wire(32)).data =~= r.data);
}

/// A short report reads back as it was written but for the data that it has no
/// room for, which reads as zero.
pub proof fn short_report_round_trip(r: ReportModel)
    requires
        r.data.len() == 29,
    ensures
        ReportModel::of_wire(r.wire(8)) == (ReportModel {
            data: bytes::padded(r.data.subrange(0, 5), 29),
            ..r
        }),
{
    assert(ReportModel::of_wire(r.wire(8)).data =~= bytes::padded(r.data.subrange(0, 5), 29));
}

} // verus!
