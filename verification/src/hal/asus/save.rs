//! Writing the profiles that have changed.

use crate::engine::device::{
    ActionType, ButtonInfo, ButtonModel, DeviceInfo, Dpi, LedInfo, LedMode, LedModel, ProfileInfo,
    ProfileModel, ResolutionInfo, ResolutionModel,
};
use crate::hal::asus::driver::AsusDriver;
use crate::hal::asus::load;
use crate::hal::asus::load::{
    ASUS_ACTION_TYPE_BUTTON, ASUS_ACTION_TYPE_KEY, ASUS_BUTTON_CODE_DISABLED,
    ASUS_CMD_GET_PROFILE_DATA, ASUS_CMD_SET_PROFILE,
};
use crate::hal::asus::packet;
use crate::hal::asus::packet::{AsusBinding, AsusRequest, AsusResponse, parse_profile_info};
use crate::hal::asus::settings;
use crate::hal::asus::settings::{
    ASUS_QUIRK_RAW_BRIGHTNESS, ASUS_QUIRK_STRIX_PROFILE, brightness_to_asus, debounce_index,
    dpi_to_stored, polling_rate_index,
};
use crate::hal::asus::table;
use crate::hal::asus::table::{find_button_by_action, find_key_code, is_joystick_code};
use vstd::prelude::*;

verus! {

pub const ASUS_CMD_SET_LED: u16 = 0x2851;

pub const ASUS_CMD_SET_SETTING: u16 = 0x3151;

pub const ASUS_CMD_SET_BUTTON: u16 = 0x2151;

pub const ASUS_CMD_SAVE: u16 = 0x0350;

/// The place of the polling rate behind the resolutions.
pub const ASUS_FIELD_RATE: u8 = 0;

/// The place of the response time behind the resolutions.
pub const ASUS_FIELD_RESPONSE: u8 = 1;

/// The place of angle snapping behind the resolutions.
pub const ASUS_FIELD_SNAPPING: u8 = 2;

/// Why a profile cannot be written.
#[derive(Debug, Clone, Copy, PartialEq, Eq, Structural)]
pub enum AsusSaveError {
    UnsupportedRate { hz: u32 },
    UnsupportedDebounce { ms: u32 },
}

/// What writing comes to: requests to send in order, and the error that comes
/// after them, if one does.
#[verifier::ext_equal]
pub struct PlanModel {
    pub sent: Seq<Seq<u8>>,
    pub error: Option<AsusSaveError>,
}

impl PlanModel {
    /// This plan, then another unless an error comes first.
    pub open spec fn and(self, next: PlanModel) -> PlanModel {
        if self.error is Some {
            self
        } else {
            PlanModel { sent: self.sent + next.sent, error: next.error }
        }
    }
}

/// A plan of requests only.
pub open spec fn requests(sent: Seq<Seq<u8>>) -> PlanModel {
    PlanModel { sent, error: None }
}

/// The request that binds a button to an action.
pub open spec fn button_request(src: u8, dst: u8, kind: u8) -> Seq<u8> {
    packet::with_param(
        packet::with_param(
            packet::with_param(
                packet::with_param(packet::bare_request(ASUS_CMD_SET_BUTTON), 2, src),
                3,
                ASUS_ACTION_TYPE_BUTTON,
            ),
            4,
            dst,
        ),
        5,
        kind,
    )
}

/// The code that a button with code `src` is bound to for an action of type
/// button or special. A joystick axis prefers the codes of axes.
pub open spec fn bound_code(src: u8, action: ActionType, value: u32) -> Option<u8> {
    let axis = table::code_for_action(action, value, true);
    if table::joystick(src) && axis is Some {
        axis
    } else {
        table::code_for_action(action, value, false)
    }
}

/// The request that writes a button; `None` for one that cannot be written.
pub open spec fn written_button(d: AsusDriver, b: ButtonModel) -> Option<Seq<u8>> {
    if b.index >= 34 || d.button_indices[b.index as int] is None
        || d.button_indices[b.index as int]->0 >= 34
        || d.button_mapping[d.button_indices[b.index as int]->0 as int] is None {
        None
    } else {
        let src = d.button_mapping[d.button_indices[b.index as int]->0 as int]->0;
        match b.action_type {
            ActionType::NoAction => Some(
                button_request(src, ASUS_BUTTON_CODE_DISABLED, ASUS_ACTION_TYPE_BUTTON),
            ),
            ActionType::Key => match table::asus_key(b.mapping_value) {
                Some(key) => Some(button_request(src, key, ASUS_ACTION_TYPE_KEY)),
                None => None,
            },
            ActionType::Button | ActionType::Special => match bound_code(
                src,
                b.action_type,
                b.mapping_value,
            ) {
                Some(code) => Some(button_request(src, code, ASUS_ACTION_TYPE_BUTTON)),
                None => None,
            },
            _ => None,
        }
    }
}

/// The requests that write the first `n` buttons.
pub open spec fn button_requests(d: AsusDriver, buttons: Seq<ButtonModel>, n: nat) -> Seq<Seq<u8>>
    decreases n,
{
    if n == 0 {
        Seq::empty()
    } else {
        let earlier = button_requests(d, buttons, (n - 1) as nat);
        match written_button(d, buttons[n - 1]) {
            Some(q) => earlier.push(q),
            None => earlier,
        }
    }
}

/// The request that sets one field of the settings.
pub open spec fn setting_request(field: u8, value: u8) -> Seq<u8> {
    packet::with_param(
        packet::with_param(packet::bare_request(ASUS_CMD_SET_SETTING), 0, field),
        2,
        value,
    )
}

/// The number of resolutions as the device counts them.
pub open spec fn field_base(p: ProfileModel) -> u8 {
    p.resolutions.len() as usize as u8
}

/// The writing of the polling rate.
pub open spec fn rate_plan(p: ProfileModel) -> PlanModel {
    if p.report_rate == 0 {
        requests(Seq::empty())
    } else if settings::polling_rates().contains(p.report_rate) {
        requests(
            seq![
                setting_request(
                    field_base(p),
                    settings::polling_rates().index_of(p.report_rate) as u8,
                ),
            ],
        )
    } else {
        PlanModel {
            sent: Seq::empty(),
            error: Some(AsusSaveError::UnsupportedRate { hz: p.report_rate }),
        }
    }
}

/// The writing of angle snapping.
pub open spec fn snapping_plan(p: ProfileModel) -> PlanModel {
    if p.angle_snapping < 0 {
        requests(Seq::empty())
    } else {
        requests(
            seq![
                setting_request(
                    (field_base(p) + ASUS_FIELD_SNAPPING) as u8,
                    if p.angle_snapping != 0 {
                        1
                    } else {
                        0
                    },
                ),
            ],
        )
    }
}

/// The writing of the response time.
pub open spec fn debounce_plan(p: ProfileModel) -> PlanModel {
    if p.debounce <= 0 {
        requests(Seq::empty())
    } else if settings::debounce_times().contains(p.debounce as u32) {
        requests(
            seq![
                setting_request(
                    (field_base(p) + ASUS_FIELD_RESPONSE) as u8,
                    settings::debounce_times().index_of(p.debounce as u32) as u8,
                ),
            ],
        )
    } else {
        PlanModel {
            sent: Seq::empty(),
            error: Some(AsusSaveError::UnsupportedDebounce { ms: p.debounce as u32 }),
        }
    }
}

/// The request that writes a resolution; `None` for one that is not known. Of
/// two axes the first is written.
pub open spec fn written_resolution(d: AsusDriver, r: ResolutionModel) -> Option<Seq<u8>> {
    match r.dpi {
        Dpi::Unified(v) => Some(
            setting_request(r.index as u8, settings::stored_of_dpi(v, d.quirks) as u8),
        ),
        Dpi::Separate { x, y } => Some(
            setting_request(r.index as u8, settings::stored_of_dpi(x, d.quirks) as u8),
        ),
        Dpi::Unknown => None,
    }
}

/// The requests that write the first `n` resolutions.
pub open spec fn resolution_requests(d: AsusDriver, resolutions: Seq<ResolutionModel>, n: nat) -> Seq<
    Seq<u8>,
>
    decreases n,
{
    if n == 0 {
        Seq::empty()
    } else {
        let earlier = resolution_requests(d, resolutions, (n - 1) as nat);
        match written_resolution(d, resolutions[n - 1]) {
            Some(q) => earlier.push(q),
            None => earlier,
        }
    }
}

/// The first number from `i` on that stands for an LED mode; 0 if none does.
pub open spec fn mode_number(modes: Seq<LedMode>, mode: LedMode, i: int) -> int
    decreases modes.len() - i,
{
    if i < 0 || i >= modes.len() {
        0
    } else if modes[i] == mode {
        i
    } else {
        mode_number(modes, mode, i + 1)
    }
}

/// The request that writes an LED.
pub open spec fn written_led(d: AsusDriver, l: LedModel) -> Seq<u8> {
    let base = packet::with_param(packet::bare_request(ASUS_CMD_SET_LED), 0, l.index as u8);
    let lit = packet::with_param(
        packet::with_param(base, 2, mode_number(d.led_modes@, l.mode, 0) as u8),
        3,
        settings::raw_of_brightness(l.brightness, d.quirks) as u8,
    );
    packet::with_param(
        packet::with_param(packet::with_param(lit, 4, l.color.rgb().r), 5, l.color.rgb().g),
        6,
        l.color.rgb().b,
    )
}

/// The requests that write the first `n` LEDs.
pub open spec fn led_requests(d: AsusDriver, leds: Seq<LedModel>, n: nat) -> Seq<Seq<u8>> {
    Seq::new(n, |i: int| written_led(d, leds[i]))
}

/// What is written before the resolutions.
pub open spec fn settings_plan(d: AsusDriver, p: ProfileModel) -> PlanModel {
    requests(button_requests(d, p.buttons, p.buttons.len())).and(rate_plan(p)).and(
        snapping_plan(p),
    ).and(debounce_plan(p))
}

/// The writing of a profile: buttons, rate, angle snapping, response time,
/// resolutions, LEDs.
pub open spec fn profile_plan(d: AsusDriver, p: ProfileModel) -> PlanModel {
    settings_plan(d, p).and(
        requests(resolution_requests(d, p.resolutions, p.resolutions.len())),
    ).and(requests(led_requests(d, p.leds, p.leds.len())))
}

/// Whether the numbers in a profile fit where they are written.
pub open spec fn profile_fits(d: AsusDriver, p: ProfileModel) -> bool {
    &&& rate_plan(p).error is None && p.angle_snapping >= 0 ==> field_base(p) <= 253
    &&& rate_plan(p).error is None && p.debounce > 0 && debounce_plan(p).error is None
        ==> field_base(p) <= 254
    &&& settings_plan(d, p).error is None && !settings::quirky(d.quirks, ASUS_QUIRK_RAW_BRIGHTNESS)
        ==> forall|i: int|
        0 <= i < p.leds.len() ==> (#[trigger] p.leds[i]).brightness + 32 <= u32::MAX
}

/// The request that makes a profile active.
pub open spec fn switch_request(index: u32) -> Seq<u8> {
    packet::with_param(packet::bare_request(ASUS_CMD_SET_PROFILE), 0, index as u8)
}

/// The writing of one profile of a device: it is made active if it is not,
/// written, and saved. A profile that has not changed is passed over.
pub open spec fn save_plan(d: AsusDriver, p: ProfileModel, several: bool, active: u32) -> PlanModel {
    if !p.is_dirty {
        requests(Seq::empty())
    } else {
        requests(
            if several && p.index != active {
                seq![switch_request(p.index)]
            } else {
                Seq::empty()
            },
        ).and(profile_plan(d, p)).and(requests(seq![packet::bare_request(ASUS_CMD_SAVE)]))
    }
}

/// The writing of the first `n` profiles of a device.
pub open spec fn profiles_plan(d: AsusDriver, profiles: Seq<ProfileModel>, active: u32, n: nat) -> PlanModel
    decreases n,
{
    if n == 0 {
        requests(Seq::empty())
    } else {
        profiles_plan(d, profiles, active, (n - 1) as nat).and(
            save_plan(d, profiles[n - 1], profiles.len() > 1, active),
        )
    }
}

/// Whether the numbers of every profile that is written fit where they are
/// written; what comes after an error is not.
pub open spec fn device_fits(d: AsusDriver, profiles: Seq<ProfileModel>, active: u32) -> bool {
    forall|i: int|
        0 <= i < profiles.len() && profiles[i].is_dirty && profiles_plan(
            d,
            profiles,
            active,
            i as nat,
        ).error is None ==> profile_fits(d, #[trigger] profiles[i])
}

/// The writing of a device: its profiles, then, if there are several, the
/// request that makes the one active again that was so at first.
pub open spec fn device_plan(d: AsusDriver, profiles: Seq<ProfileModel>, active: u32) -> PlanModel {
    profiles_plan(d, profiles, active, profiles.len()).and(
        requests(
            if profiles.len() > 1 {
                seq![switch_request(active)]
            } else {
                Seq::empty()
            },
        ),
    )
}

proof fn lemma_error_stays(d: AsusDriver, profiles: Seq<ProfileModel>, active: u32, n: nat)
    requires
        profiles_plan(d, profiles, active, n).error is Some,
    ensures
        forall|k: nat| n <= k ==> (#[trigger] profiles_plan(d, profiles, active, k)).error is Some,
{
    assert forall|k: nat| n <= k implies (#[trigger] profiles_plan(
        d,
        profiles,
        active,
        k,
    )).error is Some by {
        lemma_error_stays_until(d, profiles, active, n, k);
    }
}

proof fn lemma_error_stays_until(
    d: AsusDriver,
    profiles: Seq<ProfileModel>,
    active: u32,
    n: nat,
    k: nat,
)
    requires
        n <= k,
        profiles_plan(d, profiles, active, n).error is Some,
    ensures
        profiles_plan(d, profiles, active, k).error is Some,
    decreases k,
{
    if n < k {
        lemma_error_stays_until(d, profiles, active, n, (k - 1) as nat);
    }
}

/// Requests to send in order, and the error that comes after them, if one
/// does.
#[derive(Debug)]
pub struct AsusPlan {
    pub sent: Vec<AsusRequest>,
    pub error: Option<AsusSaveError>,
}

/// The bytes of a list of requests.
pub open spec fn request_bytes(s: Seq<AsusRequest>) -> Seq<Seq<u8>> {
    s.map_values(|q: AsusRequest| q.buf@)
}

impl View for AsusPlan {
    type V = PlanModel;

    open spec fn view(&self) -> PlanModel {
        PlanModel { sent: request_bytes(self.sent@), error: self.error }
    }
}

impl AsusPlan {
    fn push(&mut self, q: AsusRequest)
        ensures
            final(self)@ == (PlanModel {
                sent: old(self)@.sent.push(q.buf@),
                error: old(self)@.error,
            }),
    {
        self.sent.push(q);
        assert(self@.sent =~= old(self)@.sent.push(q.buf@));
    }
}

fn set_button_action(src: u8, dst: u8, kind: u8) -> (r: AsusRequest)
    ensures
        r.buf@ == button_request(src, dst, kind),
{
    let mut q = AsusRequest::new(ASUS_CMD_SET_BUTTON);
    q.set_param(2, src);
    q.set_param(3, ASUS_ACTION_TYPE_BUTTON);
    q.set_param(4, dst);
    q.set_param(5, kind);
    q
}

fn set_setting(field: u8, value: u8) -> (r: AsusRequest)
    ensures
        r.buf@ == setting_request(field, value),
{
    let mut q = AsusRequest::new(ASUS_CMD_SET_SETTING);
    q.set_param(0, field);
    q.set_param(2, value);
    q
}

fn set_profile(index: u32) -> (r: AsusRequest)
    ensures
        r.buf@ == switch_request(index),
{
    let mut q = AsusRequest::new(ASUS_CMD_SET_PROFILE);
    q.set_param(0, index as u8);
    q
}

proof fn lemma_and_nothing(p: PlanModel)
    ensures
        p.and(requests(Seq::empty())) == p,
{
    assert(p.sent + Seq::<Seq<u8>>::empty() =~= p.sent);
}

proof fn lemma_and_one(p: PlanModel, q: Seq<u8>)
    requires
        p.error is None,
    ensures
        p.and(requests(seq![q])) == (PlanModel { sent: p.sent.push(q), error: None }),
{
    assert(p.sent + seq![q] =~= p.sent.push(q));
}

proof fn lemma_and_associates(a: PlanModel, b: PlanModel, c: PlanModel)
    ensures
        a.and(b).and(c) == a.and(b.and(c)),
{
    assert((a.sent + b.sent) + c.sent =~= a.sent + (b.sent + c.sent));
}

impl AsusDriver {
    fn save_button(&self, b: &ButtonInfo) -> (r: Option<AsusRequest>)
        ensures
            match r {
                Some(q) => written_button(*self, b@) == Some(q.buf@),
                None => written_button(*self, b@) is None,
            },
    {
        if b.index >= 34 {
            return None;
        }
        let at: usize = match self.button_indices[b.index as usize] {
            Some(at) => at,
            None => {
                return None;
            },
        };
        if at >= 34 {
            return None;
        }
        let src: u8 = match self.button_mapping[at] {
            Some(code) => code,
            None => {
                return None;
            },
        };
        match b.action_type {
            ActionType::NoAction => Some(
                set_button_action(src, ASUS_BUTTON_CODE_DISABLED, ASUS_ACTION_TYPE_BUTTON),
            ),
            ActionType::Key => match find_key_code(b.mapping_value) {
                Some(key) => Some(set_button_action(src, key, ASUS_ACTION_TYPE_KEY)),
                None => None,
            },
            ActionType::Button | ActionType::Special => {
                let axis = if is_joystick_code(src) {
                    find_button_by_action(b.action_type, b.mapping_value, true)
                } else {
                    None
                };
                let entry = match axis {
                    Some(e) => Some(e),
                    None => find_button_by_action(b.action_type, b.mapping_value, false),
                };
                match entry {
                    Some(e) => Some(
                        set_button_action(src, e.asus_code, ASUS_ACTION_TYPE_BUTTON),
                    ),
                    None => None,
                }
            },
            _ => None,
        }
    }

    fn save_buttons(&self, p: &ProfileInfo, plan: &mut AsusPlan)
        requires
            old(plan)@.error is None,
        ensures
            final(plan)@ == old(plan)@.and(
                requests(button_requests(*self, p@.buttons, p@.buttons.len())),
            ),
    {
        proof {
            lemma_and_nothing(plan@);
        }
        assert(p@.buttons.len() == p.buttons@.len());
        let mut i: usize = 0;
        while i < p.buttons.len()
            invariant
                i <= p.buttons@.len(),
                p@.buttons.len() == p.buttons@.len(),
                old(plan)@.error is None,
                plan@ == old(plan)@.and(requests(button_requests(*self, p@.buttons, i as nat))),
            decreases p.buttons@.len() - i,
        {
            assert(p@.buttons[i as int] == p.buttons@[i as int]@);
            let ghost before = plan@;
            let ghost earlier = button_requests(*self, p@.buttons, i as nat);
            if let Some(q) = self.save_button(&p.buttons[i]) {
                plan.push(q);
                assert(old(plan)@.sent + earlier.push(q.buf@) =~= (old(plan)@.sent + earlier).push(
                    q.buf@,
                ));
            }
            i += 1;
        }
    }

    fn save_resolution(&self, r: &ResolutionInfo) -> (q: Option<AsusRequest>)
        ensures
            match q {
                Some(x) => written_resolution(*self, r@) == Some(x.buf@),
                None => written_resolution(*self, r@) is None,
            },
    {
        let dpi: u32 = match r.dpi {
            Dpi::Unified(v) => v,
            Dpi::Separate { x, y: _ } => x,
            Dpi::Unknown => {
                return None;
            },
        };
        Some(set_setting(r.index as u8, dpi_to_stored(dpi, self.quirks)))
    }

    fn save_resolutions(&self, p: &ProfileInfo, plan: &mut AsusPlan)
        requires
            old(plan)@.error is None,
        ensures
            final(plan)@ == old(plan)@.and(
                requests(resolution_requests(*self, p@.resolutions, p@.resolutions.len())),
            ),
    {
        proof {
            lemma_and_nothing(plan@);
        }
        assert(p@.resolutions.len() == p.resolutions@.len());
        let mut i: usize = 0;
        while i < p.resolutions.len()
            invariant
                i <= p.resolutions@.len(),
                p@.resolutions.len() == p.resolutions@.len(),
                old(plan)@.error is None,
                plan@ == old(plan)@.and(
                    requests(resolution_requests(*self, p@.resolutions, i as nat)),
                ),
            decreases p.resolutions@.len() - i,
        {
            assert(p@.resolutions[i as int] == p.resolutions@[i as int]@);
            let ghost earlier = resolution_requests(*self, p@.resolutions, i as nat);
            if let Some(q) = self.save_resolution(&p.resolutions[i]) {
                plan.push(q);
                assert(old(plan)@.sent + earlier.push(q.buf@) =~= (old(plan)@.sent + earlier).push(
                    q.buf@,
                ));
            }
            i += 1;
        }
    }

    fn find_mode(&self, mode: LedMode) -> (r: u8)
        ensures
            r == mode_number(self.led_modes@, mode, 0) as u8,
    {
        let mut i: usize = 0;
        while i < 7
            invariant
                i <= 7,
                mode_number(self.led_modes@, mode, 0) == mode_number(
                    self.led_modes@,
                    mode,
                    i as int,
                ),
            decreases 7 - i,
        {
            if self.led_modes[i] == mode {
                return i as u8;
            }
            i += 1;
        }
        0
    }

    fn save_led(&self, l: &LedInfo) -> (q: AsusRequest)
        requires
            !settings::quirky(self.quirks, ASUS_QUIRK_RAW_BRIGHTNESS) ==> l.brightness + 32
                <= u32::MAX,
        ensures
            q.buf@ == written_led(*self, l@),
    {
        let rgb = l.color.to_rgb();
        let mut q = AsusRequest::new(ASUS_CMD_SET_LED);
        q.set_param(0, l.index as u8);
        q.set_param(2, self.find_mode(l.mode));
        q.set_param(3, brightness_to_asus(l.brightness, self.quirks));
        q.set_param(4, rgb.r);
        q.set_param(5, rgb.g);
        q.set_param(6, rgb.b);
        q
    }

    fn save_leds(&self, p: &ProfileInfo, plan: &mut AsusPlan)
        requires
            old(plan)@.error is None,
            !settings::quirky(self.quirks, ASUS_QUIRK_RAW_BRIGHTNESS) ==> forall|i: int|
                0 <= i < p@.leds.len() ==> (#[trigger] p@.leds[i]).brightness + 32 <= u32::MAX,
        ensures
            final(plan)@ == old(plan)@.and(requests(led_requests(*self, p@.leds, p@.leds.len()))),
    {
        proof {
            lemma_and_nothing(plan@);
            assert(led_requests(*self, p@.leds, 0) =~= Seq::empty());
        }
        assert(p@.leds.len() == p.leds@.len());
        let mut i: usize = 0;
        while i < p.leds.len()
            invariant
                i <= p.leds@.len(),
                p@.leds.len() == p.leds@.len(),
                old(plan)@.error is None,
                !settings::quirky(self.quirks, ASUS_QUIRK_RAW_BRIGHTNESS) ==> forall|i: int|
                    0 <= i < p@.leds.len() ==> (#[trigger] p@.leds[i]).brightness + 32 <= u32::MAX,
                plan@ == old(plan)@.and(requests(led_requests(*self, p@.leds, i as nat))),
            decreases p.leds@.len() - i,
        {
            assert(p@.leds[i as int] == p.leds@[i as int]@);
            let q = self.save_led(&p.leds[i]);
            plan.push(q);
            assert(plan@.sent =~= old(plan)@.sent + led_requests(*self, p@.leds, (i + 1) as nat));
            i += 1;
        }
    }

    fn save_settings(&self, p: &ProfileInfo, plan: &mut AsusPlan)
        requires
            old(plan)@.error is None,
            profile_fits(*self, p@),
        ensures
            final(plan)@ == old(plan)@.and(settings_plan(*self, p@)),
    {
        let ghost start = plan@;
        let ghost buttons = requests(button_requests(*self, p@.buttons, p@.buttons.len()));
        assert(p@.resolutions.len() == p.resolutions@.len());
        let base: u8 = p.resolutions.len() as u8;
        assert(base == field_base(p@));
        proof {
            lemma_and_associates(start, buttons, rate_plan(p@));
            lemma_and_associates(start, buttons.and(rate_plan(p@)), snapping_plan(p@));
            lemma_and_associates(
                start,
                buttons.and(rate_plan(p@)).and(snapping_plan(p@)),
                debounce_plan(p@),
            );
            lemma_and_nothing(start.and(buttons));
            lemma_and_nothing(start.and(buttons).and(rate_plan(p@)));
            lemma_and_nothing(start.and(buttons).and(rate_plan(p@)).and(snapping_plan(p@)));
        }
        self.save_buttons(p, plan);
        let ghost a = plan@;
        if p.report_rate > 0 {
            match polling_rate_index(p.report_rate) {
                Some(idx) => {
                    proof {
                        let rates = settings::polling_rates();
                        assert(rates[0] == 125 && rates[1] == 250 && rates[2] == 500 && rates[3]
                            == 1000);
                        assert(rates[rates.index_of(p.report_rate)] == p.report_rate);
                        assert(rates.index_of(p.report_rate) == idx);
                        lemma_and_one(a, setting_request(base, idx));
                    }
                    plan.push(set_setting(base + ASUS_FIELD_RATE, idx));
                },
                None => {
                    plan.error = Some(AsusSaveError::UnsupportedRate { hz: p.report_rate });
                    assert(plan@.sent =~= a.sent);
                    assert(plan@ == a.and(rate_plan(p@)));
                    return;
                },
            }
        }
        let ghost b = plan@;
        assert(b == a.and(rate_plan(p@)));
        if p.angle_snapping >= 0 {
            let on: u8 = if p.angle_snapping != 0 {
                1
            } else {
                0
            };
            proof {
                lemma_and_one(b, setting_request((base + ASUS_FIELD_SNAPPING) as u8, on));
            }
            plan.push(set_setting(base + ASUS_FIELD_SNAPPING, on));
        }
        let ghost c = plan@;
        assert(c == b.and(snapping_plan(p@)));
        if p.debounce > 0 {
            match debounce_index(p.debounce as u32) {
                Some(idx) => {
                    proof {
                        let times = settings::debounce_times();
                        assert(times[0] == 4 && times[1] == 8 && times[2] == 12 && times[3] == 16
                            && times[4] == 20 && times[5] == 24 && times[6] == 28 && times[7]
                            == 32);
                        let ms = p.debounce as u32;
                        assert(times[times.index_of(ms)] == ms);
                        assert(times.index_of(ms) == idx);
                        lemma_and_one(c, setting_request((base + ASUS_FIELD_RESPONSE) as u8, idx));
                    }
                    plan.push(set_setting(base + ASUS_FIELD_RESPONSE, idx));
                },
                None => {
                    plan.error = Some(
                        AsusSaveError::UnsupportedDebounce { ms: p.debounce as u32 },
                    );
                    assert(plan@.sent =~= c.sent);
                },
            }
        }
        assert(plan@ == c.and(debounce_plan(p@)));
    }

    /// Adds the writing of a profile to a plan.
    fn save_single_profile(&self, p: &ProfileInfo, plan: &mut AsusPlan)
        requires
            old(plan)@.error is None,
            profile_fits(*self, p@),
        ensures
            final(plan)@ == old(plan)@.and(profile_plan(*self, p@)),
    {
        let ghost start = plan@;
        let ghost first = settings_plan(*self, p@);
        let ghost second = requests(
            resolution_requests(*self, p@.resolutions, p@.resolutions.len()),
        );
        let ghost third = requests(led_requests(*self, p@.leds, p@.leds.len()));
        proof {
            lemma_and_associates(start, first, second);
            lemma_and_associates(start, first.and(second), third);
        }
        self.save_settings(p, plan);
        if plan.error.is_none() {
            self.save_resolutions(p, plan);
            self.save_leds(p, plan);
        }
    }

    /// Whether the device has the settings of a profile.
    fn accepts(&self, p: &ProfileInfo) -> (r: bool)
        ensures
            r == (settings_plan(*self, p@).error is None),
    {
        (p.report_rate == 0 || polling_rate_index(p.report_rate).is_some()) && (p.debounce <= 0
            || debounce_index(p.debounce as u32).is_some())
    }

    fn profile_fits(&self, p: &ProfileInfo) -> (r: bool)
        ensures
            r == profile_fits(*self, p@),
    {
        assert(p@.resolutions.len() == p.resolutions@.len());
        let base: u8 = p.resolutions.len() as u8;
        assert(base == field_base(p@));
        let rate: bool = p.report_rate == 0 || polling_rate_index(p.report_rate).is_some();
        if rate && p.angle_snapping >= 0 && base > 253 {
            return false;
        }
        if rate && p.debounce > 0 && debounce_index(p.debounce as u32).is_some() && base > 254 {
            return false;
        }
        if !self.accepts(p) || self.quirks & ASUS_QUIRK_RAW_BRIGHTNESS != 0 {
            return true;
        }
        assert(p@.leds.len() == p.leds@.len());
        let mut i: usize = 0;
        while i < p.leds.len()
            invariant
                i <= p.leds@.len(),
                p@.leds.len() == p.leds@.len(),
                settings_plan(*self, p@).error is None,
                !settings::quirky(self.quirks, ASUS_QUIRK_RAW_BRIGHTNESS),
                forall|k: int|
                    0 <= k < i ==> (#[trigger] p@.leds[k]).brightness + 32 <= u32::MAX,
            decreases p.leds@.len() - i,
        {
            assert(p@.leds[i as int] == p.leds@[i as int]@);
            if p.leds[i].brightness > u32::MAX - 32 {
                assert(!profile_fits(*self, p@));
                return false;
            }
            i += 1;
        }
        true
    }

    /// Whether the numbers of every profile that is written fit where they are
    /// written.
    pub fn fits(&self, info: &DeviceInfo, active: u32) -> (r: bool)
        ensures
            r == device_fits(*self, info@.profiles, active),
    {
        let ghost profiles = info@.profiles;
        assert(profiles.len() == info.profiles@.len());
        let mut i: usize = 0;
        while i < info.profiles.len()
            invariant
                i <= info.profiles@.len(),
                profiles == info@.profiles,
                profiles.len() == info.profiles@.len(),
                profiles_plan(*self, profiles, active, i as nat).error is None,
                forall|k: int|
                    0 <= k < i && profiles[k].is_dirty ==> profile_fits(
                        *self,
                        #[trigger] profiles[k],
                    ),
            decreases info.profiles@.len() - i,
        {
            let ghost p = profiles[i as int];
            assert(p == info.profiles@[i as int]@);
            if info.profiles[i].is_dirty {
                if !self.profile_fits(&info.profiles[i]) {
                    assert(!device_fits(*self, profiles, active));
                    return false;
                }
                if !self.accepts(&info.profiles[i]) {
                    proof {
                        lemma_error_stays(*self, profiles, active, (i + 1) as nat);
                    }
                    return true;
                }
            }
            i += 1;
        }
        true
    }

    /// What writing a device comes to, if the profile `active` is active in it.
    pub fn plan_save(&self, info: &DeviceInfo, active: u32) -> (r: AsusPlan)
        requires
            device_fits(*self, info@.profiles, active),
        ensures
            r@ == device_plan(*self, info@.profiles, active),
    {
        let ghost profiles = info@.profiles;
        let mut plan = AsusPlan { sent: Vec::new(), error: None };
        assert(plan@ =~~= requests(Seq::empty()));
        assert(profiles.len() == info.profiles.len());
        let several = info.profiles.len() > 1;
        let mut i: usize = 0;
        while i < info.profiles.len()
            invariant
                i <= info.profiles@.len(),
                profiles == info@.profiles,
                profiles.len() == info.profiles.len(),
                several == (profiles.len() > 1),
                plan@ == profiles_plan(*self, profiles, active, i as nat),
                device_fits(*self, profiles, active),
            decreases info.profiles@.len() - i,
        {
            let ghost before = plan@;
            let ghost p = profiles[i as int];
            assert(p == info.profiles@[i as int]@);
            assert(profiles_plan(*self, profiles, active, (i + 1) as nat) == before.and(
                save_plan(*self, p, several, active),
            ));
            proof {
                lemma_and_nothing(before);
            }
            if info.profiles[i].is_dirty && plan.error.is_none() {
                assert(profile_fits(*self, p));
                let ghost switch = requests(
                    if several && p.index != active {
                        seq![switch_request(p.index)]
                    } else {
                        Seq::empty()
                    },
                );
                let ghost store = requests(seq![packet::bare_request(ASUS_CMD_SAVE)]);
                proof {
                    lemma_and_associates(before, switch, profile_plan(*self, p));
                    lemma_and_associates(before, switch.and(profile_plan(*self, p)), store);
                    lemma_and_one(before, switch_request(p.index));
                }
                if several && info.profiles[i].index != active {
                    plan.push(set_profile(info.profiles[i].index));
                }
                assert(plan@ == before.and(switch));
                self.save_single_profile(&info.profiles[i], &mut plan);
                if plan.error.is_none() {
                    proof {
                        lemma_and_one(plan@, packet::bare_request(ASUS_CMD_SAVE));
                    }
                    plan.push(AsusRequest::new(ASUS_CMD_SAVE));
                }
            }
            i += 1;
        }
        proof {
            lemma_and_nothing(plan@);
        }
        if several && plan.error.is_none() {
            proof {
                lemma_and_one(plan@, switch_request(active));
            }
            plan.push(set_profile(active));
        }
        plan
    }

    /// The request for the active profile, which writing a device with several
    /// profiles begins with; `None` for other devices.
    pub fn active_profile_request(&self, info: &DeviceInfo) -> (r: Option<AsusRequest>)
        ensures
            match r {
                Some(q) => info@.profiles.len() > 1 && q.buf@ == packet::bare_request(
                    ASUS_CMD_GET_PROFILE_DATA,
                ),
                None => info@.profiles.len() <= 1,
            },
    {
        assert(info@.profiles.len() == info.profiles.len());
        if info.profiles.len() > 1 {
            Some(AsusRequest::new(ASUS_CMD_GET_PROFILE_DATA))
        } else {
            None
        }
    }

    /// The active profile that an answer names.
    pub fn active_profile(&self, reply: &AsusResponse) -> (r: u32)
        ensures
            r == packet::profile_info(
                reply.buf@,
                settings::quirky(self.quirks, ASUS_QUIRK_STRIX_PROFILE),
            ).profile_id,
    {
        parse_profile_info(reply, self.has_quirk(ASUS_QUIRK_STRIX_PROFILE)).profile_id
    }
}

/// What committing to a device begins with.
#[derive(Debug, Clone, Copy, PartialEq, Eq, Structural)]
pub enum AsusCommitStep {
    /// Write the profiles.
    Save,
    /// Read the device, and write nothing.
    Recover,
}

/// Why nothing was written.
#[derive(Debug, Clone, Copy, PartialEq, Eq, Structural)]
pub enum AsusCommitError {
    RecoveryFailed,
    AbortedAfterRecovery,
}

impl AsusDriver {
    /// What committing to the device begins with: a device that did not answer
    /// is read again first.
    pub fn commit_step(&self) -> (r: AsusCommitStep)
        ensures
            r == if self.is_ready {
                AsusCommitStep::Save
            } else {
                AsusCommitStep::Recover
            },
    {
        if self.is_ready {
            AsusCommitStep::Save
        } else {
            AsusCommitStep::Recover
        }
    }

    /// Takes note of whether the device could be read again. The commit fails
    /// in either case.
    pub fn recovered(&mut self, read: bool) -> (r: AsusCommitError)
        requires
            !old(self).is_ready,
        ensures
            *final(self) == (AsusDriver { is_ready: read, ..*old(self) }),
            r == if read {
                AsusCommitError::AbortedAfterRecovery
            } else {
                AsusCommitError::RecoveryFailed
            },
    {
        self.is_ready = read;
        if read {
            AsusCommitError::AbortedAfterRecovery
        } else {
            AsusCommitError::RecoveryFailed
        }
    }
}

/// A device with several profiles and no change is asked for one thing only:
/// to keep its active profile active.
pub proof fn clean_device_is_left_alone(d: AsusDriver, profiles: Seq<ProfileModel>, active: u32)
    requires
        forall|i: int| 0 <= i < profiles.len() ==> !(#[trigger] profiles[i]).is_dirty,
    ensures
        device_plan(d, profiles, active) == requests(
            if profiles.len() > 1 {
                seq![switch_request(active)]
            } else {
                Seq::empty()
            },
        ),
{
    lemma_clean_profiles(d, profiles, active, profiles.len());
    let tail = if profiles.len() > 1 {
        seq![switch_request(active)]
    } else {
        Seq::empty()
    };
    assert(Seq::<Seq<u8>>::empty() + tail =~= tail);
}

proof fn lemma_clean_profiles(d: AsusDriver, profiles: Seq<ProfileModel>, active: u32, n: nat)
    requires
        n <= profiles.len(),
        forall|i: int| 0 <= i < profiles.len() ==> !(#[trigger] profiles[i]).is_dirty,
    ensures
        profiles_plan(d, profiles, active, n) == requests(Seq::empty()),
    decreases n,
{
    if n > 0 {
        lemma_clean_profiles(d, profiles, active, (n - 1) as nat);
        assert(!profiles[n - 1].is_dirty);
        lemma_and_nothing(requests(Seq::empty()));
    }
}

/// A plan without an error ends by making the profile active again that was so
/// at first, where a device has several.
pub proof fn saving_restores_profile(d: AsusDriver, profiles: Seq<ProfileModel>, active: u32)
    requires
        profiles.len() > 1,
        device_plan(d, profiles, active).error is None,
    ensures
        device_plan(d, profiles, active).sent.last() == switch_request(active),
{
}

/// A button that was written is read back as it was.
pub proof fn button_reads_back(b: ButtonModel, src: u8)
    ensures
        b.action_type is NoAction ==> load::bound_button(
            b,
            (AsusBinding { action: ASUS_BUTTON_CODE_DISABLED, type_: ASUS_ACTION_TYPE_BUTTON }),
        ) == b,
        b.action_type is Key ==> (table::asus_key(b.mapping_value) matches Some(key)
            ==> load::bound_button(
            b,
            (AsusBinding { action: key, type_: ASUS_ACTION_TYPE_KEY }),
        ) == b),
        b.action_type is Button || b.action_type is Special ==> (bound_code(
            src,
            b.action_type,
            b.mapping_value,
        ) matches Some(code) ==> load::bound_button(
            b,
            (AsusBinding { action: code, type_: ASUS_ACTION_TYPE_BUTTON }),
        ) == b),
{
    table::linux_key_round_trip(b.mapping_value);
    table::code_for_action_performs(b.action_type, b.mapping_value, true);
    table::code_for_action_performs(b.action_type, b.mapping_value, false);
}

} // verus!
