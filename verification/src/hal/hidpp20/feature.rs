//! Requests to the features of a device, and the answers to them.

use crate::bytes;
use crate::hal::hidpp;
use crate::hal::hidpp::{
    HidppReport, DEVICE_IDX_CORDED, DEVICE_IDX_RECEIVER, HIDPP10_ERR_RESOURCE_ERROR,
    PAGE_ADJUSTABLE_DPI, PAGE_ADJUSTABLE_REPORT_RATE, PAGE_COLOR_LED_EFFECTS,
    PAGE_ONBOARD_PROFILES, PAGE_RGB_EFFECTS, PAGE_SPECIAL_KEYS_BUTTONS, ROOT_FEATURE_INDEX,
    ROOT_FN_GET_FEATURE, ROOT_FN_GET_PROTOCOL_VERSION,
};
use crate::hal::hidpp20::error::HidppDriverError;
use vstd::prelude::*;

verus! {

/// The software id that marks requests of this program.
pub const SW_ID: u8 = 0x04;

/// The indices at which the features of interest were found.
#[derive(Debug, Clone, Copy, PartialEq, Eq, Structural)]
pub struct FeatureMap {
    pub adjustable_dpi: Option<u8>,
    pub special_keys: Option<u8>,
    pub onboard_profiles: Option<u8>,
    pub color_led_effects: Option<u8>,
    pub rgb_effects: Option<u8>,
    pub report_rate: Option<u8>,
}

impl FeatureMap {
    /// A map without features.
    pub open spec fn empty() -> FeatureMap {
        FeatureMap {
            adjustable_dpi: None,
            special_keys: None,
            onboard_profiles: None,
            color_led_effects: None,
            rgb_effects: None,
            report_rate: None,
        }
    }

    /// The index of a feature page.
    pub open spec fn index_of(self, page: u16) -> Option<u8> {
        if page == PAGE_ADJUSTABLE_DPI {
            self.adjustable_dpi
        } else if page == PAGE_SPECIAL_KEYS_BUTTONS {
            self.special_keys
        } else if page == PAGE_ONBOARD_PROFILES {
            self.onboard_profiles
        } else if page == PAGE_COLOR_LED_EFFECTS {
            self.color_led_effects
        } else if page == PAGE_RGB_EFFECTS {
            self.rgb_effects
        } else if page == PAGE_ADJUSTABLE_REPORT_RATE {
            self.report_rate
        } else {
            None
        }
    }

    /// Whether the map has a place for a feature page.
    pub open spec fn knows(page: u16) -> bool {
        page == PAGE_ADJUSTABLE_DPI || page == PAGE_SPECIAL_KEYS_BUTTONS || page
            == PAGE_ONBOARD_PROFILES || page == PAGE_COLOR_LED_EFFECTS || page == PAGE_RGB_EFFECTS
            || page == PAGE_ADJUSTABLE_REPORT_RATE
    }

    /// Records the index of a feature page; other pages are ignored.
    pub fn insert(&mut self, page: u16, index: u8)
        ensures
            forall|p: u16| #[trigger]
                final(self).index_of(p) == (if p == page && FeatureMap::knows(page) {
                    Some(index)
                } else {
                    old(self).index_of(p)
                }),
    {
        if page == PAGE_ADJUSTABLE_DPI {
            self.adjustable_dpi = Some(index);
        } else if page == PAGE_SPECIAL_KEYS_BUTTONS {
            self.special_keys = Some(index);
        } else if page == PAGE_ONBOARD_PROFILES {
            self.onboard_profiles = Some(index);
        } else if page == PAGE_COLOR_LED_EFFECTS {
            self.color_led_effects = Some(index);
        } else if page == PAGE_RGB_EFFECTS {
            self.rgb_effects = Some(index);
        } else if page == PAGE_ADJUSTABLE_REPORT_RATE {
            self.report_rate = Some(index);
        }
    }

    /// The index of a feature page that an operation cannot do without.
    pub open spec fn required(self, page: u16) -> Result<u8, HidppDriverError> {
        match self.index_of(page) {
            Some(i) => Ok(i),
            None => Err(HidppDriverError::UnsupportedFeature(page)),
        }
    }

    /// The index of a feature page that an operation cannot do without.
    pub fn require(&self, page: u16) -> (r: Result<u8, HidppDriverError>)
        ensures
            r == self.required(page),
    {
        let index: Option<u8> = if page == PAGE_ADJUSTABLE_DPI {
            self.adjustable_dpi
        } else if page == PAGE_SPECIAL_KEYS_BUTTONS {
            self.special_keys
        } else if page == PAGE_ONBOARD_PROFILES {
            self.onboard_profiles
        } else if page == PAGE_COLOR_LED_EFFECTS {
            self.color_led_effects
        } else if page == PAGE_RGB_EFFECTS {
            self.rgb_effects
        } else if page == PAGE_ADJUSTABLE_REPORT_RATE {
            self.report_rate
        } else {
            None
        };
        match index {
            Some(i) => Ok(i),
            None => Err(HidppDriverError::UnsupportedFeature(page)),
        }
    }
}

impl Default for FeatureMap {
    fn default() -> (r: Self)
        ensures
            r == FeatureMap::empty(),
    {
        FeatureMap {
            adjustable_dpi: None,
            special_keys: None,
            onboard_profiles: None,
            color_led_effects: None,
            rgb_effects: None,
            report_rate: None,
        }
    }
}

/// The feature pages to look up, in the order of the lookups.
pub fn feature_queries() -> (r: [u16; 6])
    ensures
        r@ == seq![
            PAGE_ADJUSTABLE_DPI,
            PAGE_SPECIAL_KEYS_BUTTONS,
            PAGE_ONBOARD_PROFILES,
            PAGE_COLOR_LED_EFFECTS,
            PAGE_RGB_EFFECTS,
            PAGE_ADJUSTABLE_REPORT_RATE,
        ],
        forall|p: u16| FeatureMap::knows(p) <==> r@.contains(p),
{
    let r: [u16; 6] = [
        PAGE_ADJUSTABLE_DPI,
        PAGE_SPECIAL_KEYS_BUTTONS,
        PAGE_ONBOARD_PROFILES,
        PAGE_COLOR_LED_EFFECTS,
        PAGE_RGB_EFFECTS,
        PAGE_ADJUSTABLE_REPORT_RATE,
    ];
    proof {
        assert(r@ =~= seq![
            PAGE_ADJUSTABLE_DPI,
            PAGE_SPECIAL_KEYS_BUTTONS,
            PAGE_ONBOARD_PROFILES,
            PAGE_COLOR_LED_EFFECTS,
            PAGE_RGB_EFFECTS,
            PAGE_ADJUSTABLE_REPORT_RATE,
        ]);
        assert(r@[0] == PAGE_ADJUSTABLE_DPI);
        assert(r@[1] == PAGE_SPECIAL_KEYS_BUTTONS);
        assert(r@[2] == PAGE_ONBOARD_PROFILES);
        assert(r@[3] == PAGE_COLOR_LED_EFFECTS);
        assert(r@[4] == PAGE_RGB_EFFECTS);
        assert(r@[5] == PAGE_ADJUSTABLE_REPORT_RATE);
        assert forall|p: u16| FeatureMap::knows(p) <==> r@.contains(p) by {
            if r@.contains(p) {
                let i = choose|i: int| 0 <= i < r@.len() && r@[i] == p;
                assert(r@[i] == p);
            }
        }
    }
    r
}

/// A request to a function of a feature.
#[derive(Debug)]
pub struct FeatureRequest {
    pub feature: u8,
    pub function: u8,
    pub params: Vec<u8>,
    /// Whether the request goes out as a short report.
    pub short: bool,
}

/// The contents of a [`FeatureRequest`].
#[verifier::ext_equal]
pub struct RequestModel {
    pub feature: u8,
    pub function: u8,
    pub params: Seq<u8>,
    pub short: bool,
}

impl View for FeatureRequest {
    type V = RequestModel;

    open spec fn view(&self) -> RequestModel {
        RequestModel {
            feature: self.feature,
            function: self.function,
            params: self.params@,
            short: self.short,
        }
    }
}

impl RequestModel {
    pub open spec fn long(feature: u8, function: u8, params: Seq<u8>) -> RequestModel {
        RequestModel { feature, function, params, short: false }
    }

    pub open spec fn brief(feature: u8, function: u8, params: Seq<u8>) -> RequestModel {
        RequestModel { feature, function, params, short: true }
    }

    /// The report that carries the request.
    pub open spec fn wire(self, device: u8) -> Seq<u8> {
        let address = hidpp::function_byte(self.function, SW_ID);
        if self.short {
            hidpp::short_request(device, self.feature, address, self.params)
        } else {
            hidpp::long_request(device, self.feature, address, self.params)
        }
    }
}

impl FeatureRequest {
    pub(crate) fn long(feature: u8, function: u8, params: Vec<u8>) -> (r: Self)
        ensures
            r@ == RequestModel::long(feature, function, params@),
    {
        FeatureRequest { feature, function, params, short: false }
    }

    pub(crate) fn brief(feature: u8, function: u8, params: Vec<u8>) -> (r: Self)
        ensures
            r@ == RequestModel::brief(feature, function, params@),
    {
        FeatureRequest { feature, function, params, short: true }
    }

    /// The report that carries the request.
    pub fn report(&self, device: u8) -> (r: Vec<u8>)
        ensures
            r@ == self@.wire(device),
    {
        let mut r: Vec<u8> = Vec::new();
        if self.short {
            let raw = hidpp::build_hidpp20_short_request_with_params(
                device,
                self.feature,
                self.function,
                SW_ID,
                self.params.as_slice(),
            );
            bytes::extend(&mut r, raw.as_slice());
        } else {
            let raw = hidpp::build_hidpp20_request(
                device,
                self.feature,
                self.function,
                SW_ID,
                self.params.as_slice(),
            );
            bytes::extend(&mut r, raw.as_slice());
        }
        assert(r@ =~= self@.wire(device));
        r
    }

    /// What a report means for this request: the parameters of its answer, the
    /// failure that the device reports, or nothing.
    pub fn match_reply(&self, buf: &[u8], device: u8) -> (r: Option<
        Result<[u8; 16], HidppDriverError>,
    >)
        ensures
            match reply_to(buf@, device, self.feature, self.function) {
                Reply::Unrelated => r is None,
                Reply::Failure(code) => r == Some::<Result<[u8; 16], HidppDriverError>>(
                    Err(
                        HidppDriverError::ProtocolError {
                            code,
                            feature: self.feature,
                            function: self.function,
                        },
                    ),
                ),
                Reply::Answer(params) => r is Some && r->0 is Ok && r->0->Ok_0@ == params,
            },
    {
        match match_feature_reply(buf, device, self.feature, self.function) {
            None => None,
            Some(Ok(p)) => Some(Ok(p)),
            Some(Err(code)) => Some(
                Err(
                    HidppDriverError::ProtocolError {
                        code,
                        feature: self.feature,
                        function: self.function,
                    },
                ),
            ),
        }
    }
}

/// What a report means for a pending request.
pub enum Reply {
    Unrelated,
    Failure(u8),
    Answer(Seq<u8>),
}

/// The error code, if a report says that the given request has failed.
pub open spec fn failure_code(buf: Seq<u8>, device: u8, feature: u8, function: u8) -> Option<u8> {
    if HidppReport::is_report(buf) && buf[1] == device && buf[2] == (if buf[0]
        == hidpp::REPORT_ID_SHORT {
        hidpp::HIDPP10_ERROR
    } else {
        hidpp::HIDPP20_ERROR
    }) && buf[3] == feature && buf[4] == hidpp::function_byte(function, SW_ID) {
        Some(buf[5])
    } else {
        None
    }
}

/// Whether a report answers the given request.
pub open spec fn is_answer(buf: Seq<u8>, device: u8, feature: u8, function: u8) -> bool {
    HidppReport::is_report(buf) && buf[1] == device && buf[2] == feature && buf[3]
        == hidpp::function_byte(function, SW_ID)
}

/// The parameters that a report carries.
pub open spec fn report_params(buf: Seq<u8>) -> Seq<u8> {
    if buf[0] == hidpp::REPORT_ID_SHORT {
        buf.subrange(4, 7)
    } else {
        buf.subrange(4, 20)
    }
}

/// What a report means for a pending request. The three parameters of a short
/// answer are filled up with zeros.
pub open spec fn reply_to(buf: Seq<u8>, device: u8, feature: u8, function: u8) -> Reply {
    match failure_code(buf, device, feature, function) {
        Some(code) => Reply::Failure(code),
        None => if is_answer(buf, device, feature, function) {
            Reply::Answer(bytes::padded(report_params(buf), 16))
        } else {
            Reply::Unrelated
        },
    }
}

proof fn lemma_wire_fields(report: HidppReport, buf: Seq<u8>)
    requires
        report.wire() == buf.subrange(0, report.wire().len() as int),
        HidppReport::is_report(buf),
        report is Short <==> buf[0] == hidpp::REPORT_ID_SHORT,
    ensures
        report.device() == buf[1],
        report.sub() == buf[2],
        report.addr() == buf[3],
        report.payload() == report_params(buf),
{
    let w = report.wire();
    assert(w[1] == buf[1]);
    assert(w[2] == buf[2]);
    assert(w[3] == buf[3]);
    assert(report.payload() =~= w.subrange(4, w.len() as int));
    assert(report_params(buf) =~= w.subrange(4, w.len() as int));
}

/// What a report means for a pending request: the parameters of its answer, an
/// error code, or nothing.
pub fn match_feature_reply(buf: &[u8], device: u8, feature: u8, function: u8) -> (r: Option<
    Result<[u8; 16], u8>,
>)
    ensures
        match reply_to(buf@, device, feature, function) {
            Reply::Unrelated => r is None,
            Reply::Failure(code) => r == Some::<Result<[u8; 16], u8>>(Err(code)),
            Reply::Answer(params) => r is Some && r->0 is Ok && r->0->Ok_0@ == params,
        },
{
    let report = match HidppReport::parse(buf) {
        Some(x) => x,
        None => {
            return None;
        },
    };
    proof {
        lemma_wire_fields(report, buf@);
    }
    match report.hidpp20_error_code(device, feature, hidpp::fn_sw(function, SW_ID)) {
        Some(code) => {
            return Some(Err(code));
        },
        None => {},
    }
    if !report.matches_hidpp20_response(device, feature, function, SW_ID) {
        return None;
    }
    match report {
        HidppReport::Long { params, .. } => {
            assert(params@ =~= bytes::padded(report_params(buf@), 16));
            Some(Ok(params))
        },
        HidppReport::Short { params, .. } => {
            let long: [u8; 16] = [
                params[0],
                params[1],
                params[2],
                0,
                0,
                0,
                0,
                0,
                0,
                0,
                0,
                0,
                0,
                0,
                0,
                0,
            ];
            assert(long@ =~= bytes::padded(report_params(buf@), 16));
            Some(Ok(long))
        },
    }
}

/// The request that looks up a feature page.
pub fn feature_index_request(page: u16) -> (r: FeatureRequest)
    ensures
        r@ == RequestModel::long(
            ROOT_FEATURE_INDEX,
            ROOT_FN_GET_FEATURE,
            bytes::be_bytes(page),
        ),
{
    let params: Vec<u8> = vec![bytes::high_byte(page), bytes::low_byte(page)];
    assert(params@ =~= bytes::be_bytes(page));
    FeatureRequest::long(ROOT_FEATURE_INDEX, ROOT_FN_GET_FEATURE, params)
}

/// The outcome of a lookup that the device has answered: the index of the
/// feature, or nothing where the device does not have it.
pub open spec fn lookup_result(reply: Reply) -> Option<u8> {
    match reply {
        Reply::Answer(params) => if params[0] != 0 {
            Some(params[0])
        } else {
            None
        },
        _ => None,
    }
}

/// What a report means for a pending lookup: `None` if nothing, else the
/// outcome of the lookup. An error means that the device does not have the
/// feature.
pub fn match_feature_index(buf: &[u8], device: u8) -> (r: Option<Option<u8>>)
    ensures
        ({
            let reply = reply_to(buf@, device, ROOT_FEATURE_INDEX, ROOT_FN_GET_FEATURE);
            r == (if reply is Unrelated {
                None
            } else {
                Some(lookup_result(reply))
            })
        }),
{
    match match_feature_reply(buf, device, ROOT_FEATURE_INDEX, ROOT_FN_GET_FEATURE) {
        None => None,
        Some(Err(_)) => Some(None),
        Some(Ok(params)) => if params[0] == 0 {
            Some(None)
        } else {
            Some(Some(params[0]))
        },
    }
}

/// The outcome of a version query at one device index.
#[derive(Debug, Clone, Copy, PartialEq, Eq, Structural)]
pub enum ProbeIndexResult {
    /// The device gave its protocol version.
    Version(u8, u8),
    /// A device is paired at this index, but asleep or powered off.
    Asleep,
    /// No device of this protocol is at this index.
    NoResponse,
}

/// The request that asks a device for its protocol version.
pub fn version_request() -> (r: FeatureRequest)
    ensures
        r@ == RequestModel::long(
            ROOT_FEATURE_INDEX,
            ROOT_FN_GET_PROTOCOL_VERSION,
            Seq::empty(),
        ),
{
    let params: Vec<u8> = Vec::new();
    FeatureRequest::long(ROOT_FEATURE_INDEX, ROOT_FN_GET_PROTOCOL_VERSION, params)
}

/// What a report means for a pending version query. Only a long report carries
/// a version; only the receiver, which sends short error reports, can tell
/// that a device is asleep.
pub open spec fn probe_reply(buf: Seq<u8>, device: u8) -> Option<ProbeIndexResult> {
    match reply_to(buf, device, ROOT_FEATURE_INDEX, ROOT_FN_GET_PROTOCOL_VERSION) {
        Reply::Unrelated => None,
        Reply::Failure(code) => if buf[0] == hidpp::REPORT_ID_SHORT && code
            == HIDPP10_ERR_RESOURCE_ERROR {
            Some(ProbeIndexResult::Asleep)
        } else {
            Some(ProbeIndexResult::NoResponse)
        },
        Reply::Answer(params) => if buf[0] == hidpp::REPORT_ID_LONG {
            Some(ProbeIndexResult::Version(params[0], params[1]))
        } else {
            None
        },
    }
}

/// What a report means for a pending version query.
pub fn match_probe_reply(buf: &[u8], device: u8) -> (r: Option<ProbeIndexResult>)
    ensures
        r == probe_reply(buf@, device),
{
    match match_feature_reply(buf, device, ROOT_FEATURE_INDEX, ROOT_FN_GET_PROTOCOL_VERSION) {
        None => None,
        Some(Err(code)) => if buf[0] == hidpp::REPORT_ID_SHORT && code
            == HIDPP10_ERR_RESOURCE_ERROR {
            Some(ProbeIndexResult::Asleep)
        } else {
            Some(ProbeIndexResult::NoResponse)
        },
        Some(Ok(params)) => if buf[0] == hidpp::REPORT_ID_LONG {
            Some(ProbeIndexResult::Version(params[0], params[1]))
        } else {
            None
        },
    }
}

/// What to do after a version query.
#[derive(Debug)]
pub enum ProbeStep {
    /// The device is at this index.
    Found(u8),
    /// The device is asleep: give up now and wait for it to wake.
    Asleep,
    /// Query the device at this index.
    Query(u8),
    /// No device answered at any index.
    Failed(HidppDriverError),
}

/// The index at which a probe begins: the one of a cabled device, which
/// answers at once if it is there.
pub fn first_probe_index() -> (r: u8)
    ensures
        r == DEVICE_IDX_CORDED,
{
    DEVICE_IDX_CORDED
}

/// Decides what follows a version query at `index`.
pub fn probe_step(index: u8, result: ProbeIndexResult) -> (r: ProbeStep)
    ensures
        match result {
            ProbeIndexResult::Version(_, _) => r == ProbeStep::Found(index),
            ProbeIndexResult::Asleep => r is Asleep,
            ProbeIndexResult::NoResponse => if index == DEVICE_IDX_CORDED {
                r == ProbeStep::Query(DEVICE_IDX_RECEIVER)
            } else {
                r matches ProbeStep::Failed(HidppDriverError::ProbeFailed(tried)) && tried@ == seq![
                    DEVICE_IDX_CORDED,
                    DEVICE_IDX_RECEIVER,
                ]
            },
        },
{
    match result {
        ProbeIndexResult::Version(_, _) => ProbeStep::Found(index),
        ProbeIndexResult::Asleep => ProbeStep::Asleep,
        ProbeIndexResult::NoResponse => if index == DEVICE_IDX_CORDED {
            ProbeStep::Query(DEVICE_IDX_RECEIVER)
        } else {
            let tried: Vec<u8> = vec![DEVICE_IDX_CORDED, DEVICE_IDX_RECEIVER];
            assert(tried@ =~= seq![DEVICE_IDX_CORDED, DEVICE_IDX_RECEIVER]);
            ProbeStep::Failed(HidppDriverError::ProbeFailed(tried))
        },
    }
}

/// Turns the outcome of the special-keys count query into a count. A failure
/// that may pass is handed on; a rejection means that there are none.
pub fn special_keys_count(reply: Result<[u8; 16], HidppDriverError>) -> (r: Result<
    usize,
    HidppDriverError,
>)
    ensures
        match reply {
            Ok(params) => r == Ok::<usize, HidppDriverError>(params[0] as usize),
            Err(e) => if e.transient() {
                r == Err::<usize, HidppDriverError>(e)
            } else {
                r == Ok::<usize, HidppDriverError>(0)
            },
        },
{
    match reply {
        Ok(params) => Ok(params[0] as usize),
        Err(e) => if e.is_transient() {
            Err(e)
        } else {
            Ok(0)
        },
    }
}

/// An answer to a request is recognised as such: whatever parameters the device
/// sends back under the header of the request are handed to the caller.
pub proof fn reply_carries_its_parameters(
    device: u8,
    feature: u8,
    function: u8,
    params: Seq<u8>,
)
    requires
        params.len() == 16,
        feature != hidpp::HIDPP20_ERROR,
    ensures
        reply_to(
            hidpp::long_request(
                device,
                feature,
                hidpp::function_byte(function, SW_ID),
                params,
            ),
            device,
            feature,
            function,
        ) == Reply::Answer(params),
{
    let buf = hidpp::long_request(
        device,
        feature,
        hidpp::function_byte(function, SW_ID),
        params,
    );
    assert(buf.len() == 20);
    assert(bytes::padded(report_params(buf), 16) =~= params);
}

/// A report with the header of another device, feature or function is never
/// taken for the answer to a request.
pub proof fn unrelated_reports_are_not_answers(
    buf: Seq<u8>,
    device: u8,
    feature: u8,
    function: u8,
)
    requires
        buf.len() >= 4,
        buf[1] != device || buf[2] != feature || buf[3] != hidpp::function_byte(function, SW_ID),
    ensures
        !(reply_to(buf, device, feature, function) is Answer),
{
}

} // verus!
