//! What a driver knows of its device, and how registers and onboard profiles
//! become the profiles of the device.

use crate::bytes;
use crate::engine::device;
use crate::engine::device::{
    ActionType, ButtonInfo, ButtonModel, Color, DeviceInfo, DeviceModel, Dpi, LedMode, LedModel,
    ProfileInfo, ProfileModel, ResolutionInfo, ResolutionModel, RgbColor,
};
use crate::hal::hidpp::{DEVICE_IDX_CORDED, DEVICE_IDX_RECEIVER};
use crate::hal::hidpp10::binding::Hidpp10ButtonBinding;
use crate::hal::hidpp10::profile;
use crate::hal::hidpp10::profile::{DpiModeModel, Hidpp10Profile, OnboardModel};
use crate::hal::hidpp10::register::{
    Hidpp10Request, REG_CURRENT_RESOLUTION, REG_HIDPP_NOTIFICATIONS, REG_LED_COLOR,
    REG_USB_REFRESH_RATE, RequestModel, SUB_ID_GET_LONG_REGISTER, SUB_ID_SET_LONG_REGISTER,
};
use crate::hal::hidpp10::table;
use crate::hal::hidpp10::table::{DpiMapping, dpi_from_raw, hidpp10_special_from_code, raw_from_dpi};
use crate::hal::hidpp10::types::{
    Hidpp10LedColorPayload, Hidpp10ProfileType, Hidpp10RefreshRatePayload,
    Hidpp10ResolutionLongPayload,
};
use vstd::prelude::*;

verus! {

/// The version of the protocol that a device speaks.
#[derive(Debug, Clone, Copy, PartialEq, Eq, Structural)]
pub struct ProtocolVersion {
    pub major: u8,
    pub minor: u8,
}

/// Driver of devices that speak HID++ 1.0.
#[derive(Debug)]
pub struct Hidpp10Driver {
    pub device_index: u8,
    pub version: ProtocolVersion,
    pub profile_type: Hidpp10ProfileType,
    pub dpi_table: Vec<DpiMapping>,
    pub dpi_table_is_range: bool,
    pub onboard_profiles: Vec<Hidpp10Profile>,
    pub profile_count: usize,
}

/// The contents of a [`Hidpp10Driver`].
#[verifier::ext_equal]
pub struct DriverModel {
    pub device_index: u8,
    pub version: ProtocolVersion,
    pub profile_type: Hidpp10ProfileType,
    pub dpi_table: Seq<DpiMapping>,
    pub dpi_table_is_range: bool,
    pub onboard_profiles: Seq<OnboardModel>,
    pub profile_count: int,
}

impl View for Hidpp10Driver {
    type V = DriverModel;

    open spec fn view(&self) -> DriverModel {
        DriverModel {
            device_index: self.device_index,
            version: self.version,
            profile_type: self.profile_type,
            dpi_table: self.dpi_table@,
            dpi_table_is_range: self.dpi_table_is_range,
            onboard_profiles: profile::onboard_view(self.onboard_profiles@),
            profile_count: self.profile_count as int,
        }
    }
}

/// The index that is probed at an attempt: that of a device behind a receiver,
/// then that of one on a cable.
pub fn probe_index(attempt: usize) -> (r: Option<u8>)
    ensures
        r == if attempt == 0 {
            Some(DEVICE_IDX_RECEIVER)
        } else if attempt == 1 {
            Some(DEVICE_IDX_CORDED)
        } else {
            None
        },
{
    if attempt == 0 {
        Some(DEVICE_IDX_RECEIVER)
    } else if attempt == 1 {
        Some(DEVICE_IDX_CORDED)
    } else {
        None
    }
}

/// The request that a device at an index answers.
pub fn probe_request(index: u8) -> (r: Hidpp10Request)
    ensures
        r@ == RequestModel::get(index, REG_HIDPP_NOTIFICATIONS, seq![0u8, 0u8, 0u8]),
{
    let params: [u8; 3] = [0, 0, 0];
    assert(params@ =~= seq![0u8, 0u8, 0u8]);
    Hidpp10Request::get_register(index, REG_HIDPP_NOTIFICATIONS, &params)
}

/// How many of the entries of a directory from `i` on are in use.
pub open spec fn directory_length(page: Seq<u8>, count: int, i: int) -> int
    decreases count - i,
{
    if i < 0 || i >= count || 3 * i + 2 >= page.len() || page[3 * i] == 0xFF {
        i
    } else {
        directory_length(page, count, i + 1)
    }
}

/// The profile that an entry of a directory names.
pub open spec fn directory_entry(page: Seq<u8>, i: int) -> OnboardModel {
    OnboardModel {
        page: page[3 * i],
        offset: page[3 * i + 1],
        enabled: true,
        ..OnboardModel::empty()
    }
}

/// The profiles that a directory names, filled up to `count`.
pub open spec fn directory_profiles(page: Seq<u8>, count: int) -> Seq<OnboardModel> {
    Seq::new(
        count as nat,
        |i: int|
            if i < directory_length(page, count, 0) {
                directory_entry(page, i)
            } else {
                OnboardModel::empty()
            },
    )
}

/// The profiles that a directory names.
pub fn read_directory(page: &[u8], count: usize) -> (r: Vec<Hidpp10Profile>)
    requires
        page@.len() == 512,
    ensures
        profile::onboard_view(r@) == directory_profiles(page@, count as int),
{
    let mut r: Vec<Hidpp10Profile> = Vec::new();
    let mut i: usize = 0;
    while i < count && 3 * i + 2 < 512 && page[3 * i] != 0xFF
        invariant
            i <= count,
            i <= 171,
            page@.len() == 512,
            directory_length(page@, count as int, 0) == directory_length(
                page@,
                count as int,
                i as int,
            ),
            r@.len() == i,
            forall|k: int| 0 <= k < i ==> (#[trigger] r@[k])@ == directory_entry(page@, k),
        decreases count - i,
    {
        let mut p = Hidpp10Profile::default();
        p.page = page[3 * i];
        p.offset = page[3 * i + 1];
        p.enabled = true;
        assert(p@ =~= directory_entry(page@, i as int));
        r.push(p);
        i += 1;
    }
    let ghost n = directory_length(page@, count as int, 0);
    assert(n == i);
    while i < count
        invariant
            n <= i <= count,
            n == directory_length(page@, count as int, 0),
            r@.len() == i,
            forall|k: int|
                0 <= k < i ==> (#[trigger] r@[k])@ == directory_profiles(page@, count as int)[k],
        decreases count - i,
    {
        r.push(Hidpp10Profile::default());
        i += 1;
    }
    assert(profile::onboard_view(r@) =~= directory_profiles(page@, count as int));
    r
}

/// The LEDs that show the profile at place `i` of a directory.
pub open spec fn profile_leds(i: int) -> u8 {
    if i == 0 {
        1
    } else if i == 1 {
        3
    } else if i == 2 {
        7
    } else if i == 3 {
        6
    } else if i == 4 {
        4
    } else {
        0
    }
}

/// How many of the first `n` profiles are enabled.
pub open spec fn enabled_count(profiles: Seq<OnboardModel>, n: nat) -> nat
    decreases n,
{
    if n == 0 {
        0
    } else {
        enabled_count(profiles, (n - 1) as nat) + if profiles[n - 1].enabled {
            1nat
        } else {
            0
        }
    }
}

/// A page with the enabled ones of the first `n` profiles written into it.
pub open spec fn directory_body(profiles: Seq<OnboardModel>, n: nat) -> Seq<u8>
    decreases n,
{
    if n == 0 {
        bytes::filled(512, 0xFF)
    } else {
        let earlier = directory_body(profiles, (n - 1) as nat);
        let at = enabled_count(profiles, (n - 1) as nat) as int;
        let p = profiles[n - 1];
        if p.enabled {
            bytes::spliced(earlier, 3 * at, seq![p.page, p.offset, profile_leds(at)])
        } else {
            earlier
        }
    }
}

proof fn lemma_enabled_grows(profiles: Seq<OnboardModel>, m: nat, n: nat)
    requires
        m <= n,
    ensures
        enabled_count(profiles, m) <= enabled_count(profiles, n) <= n,
    decreases n,
{
    if n > 0 {
        if m < n {
            lemma_enabled_grows(profiles, m, (n - 1) as nat);
        } else {
            lemma_enabled_grows(profiles, (n - 1) as nat, (n - 1) as nat);
        }
    }
}

fn leds_of_profile(i: usize) -> (r: u8)
    ensures
        r == profile_leds(i as int),
{
    match i {
        0 => 1,
        1 => 3,
        2 => 7,
        3 => 6,
        4 => 4,
        _ => 0,
    }
}

/// The page that lists the enabled profiles, with its check sum. There is room
/// in it for the LEDs of eight.
pub fn build_directory(profiles: &Vec<Hidpp10Profile>) -> (r: Vec<u8>)
    requires
        enabled_count(profile::onboard_view(profiles@), profiles@.len()) <= 8,
    ensures
        r@ == profile::sealed_page(
            directory_body(profile::onboard_view(profiles@), profiles@.len()),
        ),
        r@.len() == 512,
{
    let ghost models = profile::onboard_view(profiles@);
    let mut page: Vec<u8> = bytes::fill(512, 0xFF);
    let mut at: usize = 0;
    let mut i: usize = 0;
    while i < profiles.len()
        invariant
            i <= profiles@.len(),
            models == profile::onboard_view(profiles@),
            enabled_count(models, profiles@.len()) <= 8,
            at == enabled_count(models, i as nat),
            at <= 8,
            page@.len() == 512,
            page@ == directory_body(models, i as nat),
        decreases profiles@.len() - i,
    {
        assert(models[i as int] == profiles@[i as int]@);
        proof {
            lemma_enabled_grows(models, (i + 1) as nat, profiles@.len());
        }
        if profiles[i].enabled {
            let entry: [u8; 3] = [profiles[i].page, profiles[i].offset, leds_of_profile(at)];
            assert(entry@ =~= seq![
                models[i as int].page,
                models[i as int].offset,
                profile_leds(at as int),
            ]);
            bytes::put(&mut page, 3 * at, entry.as_slice());
            at += 1;
        }
        i += 1;
    }
    profile::seal_page(&mut page);
    page
}

proof fn lemma_directory_body(profiles: Seq<OnboardModel>, n: nat, i: int)
    requires
        n <= profiles.len(),
        enabled_count(profiles, n) <= 8,
        0 <= i < n,
        profiles[i].enabled,
    ensures
        directory_body(profiles, n).len() == 512,
        ({
            let at = enabled_count(profiles, i as nat) as int;
            &&& at < enabled_count(profiles, n)
            &&& directory_body(profiles, n)[3 * at] == profiles[i].page
            &&& directory_body(profiles, n)[3 * at + 1] == profiles[i].offset
        }),
    decreases n,
{
    lemma_enabled_grows(profiles, (n - 1) as nat, n);
    if i == n - 1 {
        lemma_directory_size(profiles, (n - 1) as nat);
    } else {
        lemma_directory_body(profiles, (n - 1) as nat, i);
        let at = enabled_count(profiles, i as nat);
        let last = enabled_count(profiles, (n - 1) as nat);
        assert(at < last);
    }
}

proof fn lemma_directory_size(profiles: Seq<OnboardModel>, n: nat)
    ensures
        directory_body(profiles, n).len() == 512,
    decreases n,
{
    if n > 0 {
        lemma_directory_size(profiles, (n - 1) as nat);
    }
}

/// An enabled profile is found in the directory that was written, at its place
/// among the enabled ones.
pub proof fn directory_names_profiles(profiles: Seq<OnboardModel>, i: int)
    requires
        enabled_count(profiles, profiles.len()) <= 8,
        0 <= i < profiles.len(),
        profiles[i].enabled,
    ensures
        ({
            let page = profile::sealed_page(directory_body(profiles, profiles.len()));
            let at = enabled_count(profiles, i as nat) as int;
            &&& directory_entry(page, at).page == profiles[i].page
            &&& directory_entry(page, at).offset == profiles[i].offset
        }),
{
    lemma_directory_body(profiles, profiles.len(), i);
}

/// A resolution as a mode of an onboard profile describes it.
pub open spec fn applied_resolution(
    r: ResolutionModel,
    m: DpiModeModel,
    j: int,
    default_mode: u8,
    profile_active: bool,
) -> ResolutionModel {
    let is_default = j as u8 == default_mode;
    ResolutionModel {
        dpi: axes_dpi(m.xres, m.yres),
        is_default,
        is_active: r.is_active || (profile_active && is_default),
        ..r
    }
}

/// One value where both axes are equal, two otherwise.
pub open spec fn axes_dpi(x: u32, y: u32) -> Dpi {
    if x == y {
        Dpi::Unified(x)
    } else {
        Dpi::Separate { x, y }
    }
}

fn join_axes(x: u32, y: u32) -> (r: Dpi)
    ensures
        r == axes_dpi(x, y),
{
    if x == y {
        Dpi::Unified(x)
    } else {
        Dpi::Separate { x, y }
    }
}

/// A button as a binding of an onboard profile describes it.
pub open spec fn applied_button(b: ButtonModel, binding: Hidpp10ButtonBinding) -> ButtonModel {
    match binding {
        Hidpp10ButtonBinding::Button { button } => ButtonModel {
            action_type: ActionType::Button,
            mapping_value: button as u32,
            ..b
        },
        Hidpp10ButtonBinding::Keys { modifier_flags, key } => ButtonModel {
            action_type: ActionType::Key,
            mapping_value: key as u32,
            ..b
        },
        Hidpp10ButtonBinding::Special { code } => ButtonModel {
            action_type: ActionType::Special,
            mapping_value: table::special_of_code(bytes::lo8(code)),
            ..b
        },
        Hidpp10ButtonBinding::ConsumerControl { usage } => ButtonModel {
            action_type: ActionType::Key,
            mapping_value: usage as u32,
            ..b
        },
        Hidpp10ButtonBinding::Disabled => ButtonModel { action_type: ActionType::NoAction, ..b },
        Hidpp10ButtonBinding::Macro { page, offset } => ButtonModel {
            action_type: ActionType::Macro,
            ..b
        },
        Hidpp10ButtonBinding::Unknown { type_byte } => ButtonModel {
            action_type: ActionType::Unknown,
            ..b
        },
    }
}

/// A profile as an onboard profile describes it. A profile without a name keeps
/// the one it has, and the G700 has no colour.
pub open spec fn applied_profile(
    p: ProfileModel,
    o: OnboardModel,
    active: bool,
    t: Hidpp10ProfileType,
) -> ProfileModel {
    ProfileModel {
        is_active: active,
        is_enabled: o.enabled,
        name: if o.name.len() > 0 {
            o.name
        } else {
            p.name
        },
        report_rate: o.refresh_rate as u32,
        resolutions: Seq::new(
            p.resolutions.len(),
            |j: int|
                if j < o.dpi_modes.len() {
                    applied_resolution(
                        p.resolutions[j],
                        o.dpi_modes[j],
                        j,
                        o.default_dpi_mode,
                        active,
                    )
                } else {
                    p.resolutions[j]
                },
        ),
        buttons: Seq::new(
            p.buttons.len(),
            |j: int|
                if j < o.buttons.len() {
                    applied_button(p.buttons[j], o.buttons[j])
                } else {
                    p.buttons[j]
                },
        ),
        leds: if p.leds.len() > 0 && !(t is G700) {
            p.leds.update(
                0,
                LedModel {
                    color: Color::of_rgb(RgbColor { r: o.red, g: o.green, b: o.blue }),
                    mode: LedMode::Solid,
                    ..p.leds[0]
                },
            )
        } else {
            p.leds
        },
        ..p
    }
}

/// The profiles of a device as its onboard profiles describe them.
pub open spec fn applied_profiles(
    profiles: Seq<ProfileModel>,
    onboard: Seq<OnboardModel>,
    active: u32,
    t: Hidpp10ProfileType,
) -> Seq<ProfileModel> {
    Seq::new(
        profiles.len(),
        |i: int|
            if i < onboard.len() {
                applied_profile(profiles[i], onboard[i], i as u32 == active, t)
            } else {
                profiles[i]
            },
    )
}

fn apply_modes(p: &mut ProfileInfo, o: &Hidpp10Profile)
    ensures
        final(p)@ == (ProfileModel {
            resolutions: applied_profile(
                old(p)@,
                o@,
                old(p)@.is_active,
                Hidpp10ProfileType::Unknown,
            ).resolutions,
            ..old(p)@
        }),
{
    let ghost target = applied_profile(
        old(p)@,
        o@,
        old(p)@.is_active,
        Hidpp10ProfileType::Unknown,
    ).resolutions;
    let active = p.is_active;
    let mut j: usize = 0;
    while j < o.dpi_modes.len() && j < p.resolutions.len()
        invariant
            j <= p.resolutions@.len(),
            j <= o.dpi_modes@.len(),
            active == old(p)@.is_active,
            target == applied_profile(
                old(p)@,
                o@,
                old(p)@.is_active,
                Hidpp10ProfileType::Unknown,
            ).resolutions,
            p@ == (ProfileModel { resolutions: p@.resolutions, ..old(p)@ }),
            p@.resolutions.len() == old(p)@.resolutions.len(),
            forall|k: int| 0 <= k < j ==> #[trigger] p@.resolutions[k] == target[k],
            forall|k: int|
                j <= k < p@.resolutions.len() ==> #[trigger] p@.resolutions[k] == old(
                    p,
                )@.resolutions[k],
        decreases p.resolutions@.len() - j,
    {
        proof {
            device::lemma_resolutions_view_update(p.resolutions@, j as int);
        }
        assert(p@.resolutions[j as int] == p.resolutions@[j as int]@);
        let ghost before = p@.resolutions[j as int];
        assert(o@.dpi_modes[j as int] == o.dpi_modes@[j as int]@);
        let is_default = j as u8 == o.default_dpi_mode;
        let is_active = p.resolutions[j].is_active || (active && is_default);
        let dpi = join_axes(o.dpi_modes[j].xres, o.dpi_modes[j].yres);
        let res = ResolutionInfo {
            index: p.resolutions[j].index,
            dpi,
            dpi_list: p.resolutions[j].dpi_list.clone(),
            capabilities: p.resolutions[j].capabilities.clone(),
            is_active,
            is_default,
            is_disabled: p.resolutions[j].is_disabled,
        };
        assert(res@ =~= target[j as int]);
        p.resolutions[j] = res;
        j += 1;
    }
    assert(p@.resolutions =~= target);
}

fn apply_binding(btn: &mut ButtonInfo, binding: Hidpp10ButtonBinding)
    ensures
        final(btn)@ == applied_button(old(btn)@, binding),
{
    match binding {
        Hidpp10ButtonBinding::Button { button } => {
            btn.action_type = ActionType::Button;
            btn.mapping_value = button as u32;
        },
        Hidpp10ButtonBinding::Keys { modifier_flags: _, key } => {
            btn.action_type = ActionType::Key;
            btn.mapping_value = key as u32;
        },
        Hidpp10ButtonBinding::Special { code } => {
            btn.action_type = ActionType::Special;
            btn.mapping_value = hidpp10_special_from_code(bytes::low_byte(code));
        },
        Hidpp10ButtonBinding::ConsumerControl { usage } => {
            btn.action_type = ActionType::Key;
            btn.mapping_value = usage as u32;
        },
        Hidpp10ButtonBinding::Disabled => {
            btn.action_type = ActionType::NoAction;
        },
        Hidpp10ButtonBinding::Macro { page: _, offset: _ } => {
            btn.action_type = ActionType::Macro;
        },
        Hidpp10ButtonBinding::Unknown { type_byte: _ } => {
            btn.action_type = ActionType::Unknown;
        },
    }
}

fn apply_bindings(p: &mut ProfileInfo, o: &Hidpp10Profile)
    ensures
        final(p)@ == (ProfileModel {
            buttons: applied_profile(
                old(p)@,
                o@,
                false,
                Hidpp10ProfileType::Unknown,
            ).buttons,
            ..old(p)@
        }),
{
    let ghost target = applied_profile(old(p)@, o@, false, Hidpp10ProfileType::Unknown).buttons;
    let mut j: usize = 0;
    while j < o.buttons.len() && j < p.buttons.len()
        invariant
            j <= p.buttons@.len(),
            j <= o.buttons@.len(),
            target == applied_profile(old(p)@, o@, false, Hidpp10ProfileType::Unknown).buttons,
            p@ == (ProfileModel { buttons: p@.buttons, ..old(p)@ }),
            p@.buttons.len() == old(p)@.buttons.len(),
            forall|k: int| 0 <= k < j ==> #[trigger] p@.buttons[k] == target[k],
            forall|k: int|
                j <= k < p@.buttons.len() ==> #[trigger] p@.buttons[k] == old(p)@.buttons[k],
        decreases p.buttons@.len() - j,
    {
        proof {
            device::lemma_buttons_view_update(p.buttons@, j as int);
        }
        assert(p@.buttons[j as int] == p.buttons@[j as int]@);
        let binding = o.buttons[j];
        apply_binding(&mut p.buttons[j], binding);
        j += 1;
    }
    assert(p@.buttons =~= target);
}

/// Takes over what an onboard profile says of a profile.
pub fn apply_onboard_profile(
    p: &mut ProfileInfo,
    o: &Hidpp10Profile,
    active: bool,
    t: Hidpp10ProfileType,
)
    ensures
        final(p)@ == applied_profile(old(p)@, o@, active, t),
{
    p.is_active = active;
    p.is_enabled = o.enabled;
    if !crate::text::str_eq(o.name.as_str(), "") {
        p.name = o.name.clone();
    }
    proof {
        reveal_strlit("");
        assert(o@.name.len() == 0 <==> o@.name =~= ""@);
    }
    p.report_rate = o.refresh_rate as u32;
    apply_modes(p, o);
    apply_bindings(p, o);
    assert(p@.leds.len() == p.leds.len());
    if p.leds.len() > 0 && t != Hidpp10ProfileType::G700 {
        proof {
            device::lemma_leds_view_update(p.leds@, 0);
        }
        assert(p@.leds[0] == p.leds@[0]@);
        p.leds[0].color = Color::from_rgb(RgbColor { r: o.red, g: o.green, b: o.blue });
        proof {
            device::lemma_leds_view_update(p.leds@, 0);
        }
        assert(p@.leds[0] == p.leds@[0]@);
        p.leds[0].mode = LedMode::Solid;
    }
    assert(p@ =~= applied_profile(old(p)@, o@, active, t));
}

/// A profile with the resolution that its register holds: one byte on the G9,
/// one for each axis on others.
pub open spec fn with_register_resolution(d: DriverModel, p: ProfileModel, reply: Seq<u8>) -> ProfileModel {
    if p.resolutions.len() == 0 {
        p
    } else {
        let dpi = if d.profile_type is G9 {
            Dpi::Unified(table::dpi_of_raw(d.dpi_table, reply[0]))
        } else {
            axes_dpi(
                table::dpi_of_raw(d.dpi_table, reply[0]),
                table::dpi_of_raw(d.dpi_table, reply[2]),
            )
        };
        ProfileModel {
            resolutions: p.resolutions.update(0, ResolutionModel { dpi, ..p.resolutions[0] }),
            ..p
        }
    }
}

/// A profile with the rate that its register holds; 0 changes nothing.
pub open spec fn with_register_rate(p: ProfileModel, reply: Seq<u8>) -> ProfileModel {
    if reply[0] > 0 {
        ProfileModel { report_rate: (1000int / reply[0] as int) as u32, ..p }
    } else {
        p
    }
}

/// A profile with every LED in the colour that its register holds.
pub open spec fn with_register_color(p: ProfileModel, reply: Seq<u8>) -> ProfileModel {
    ProfileModel {
        leds: p.leds.map_values(
            |l: LedModel|
                LedModel {
                    color: Color::of_rgb(RgbColor { r: reply[0], g: reply[1], b: reply[2] }),
                    mode: LedMode::Solid,
                    ..l
                },
        ),
        ..p
    }
}

/// How many bytes the resolution register has.
pub open spec fn resolution_size(d: DriverModel) -> nat {
    if d.profile_type is G9 {
        3
    } else {
        16
    }
}

/// The request for the resolution register.
pub open spec fn resolution_query(d: DriverModel) -> RequestModel {
    if d.profile_type is G9 {
        RequestModel::get(d.device_index, REG_CURRENT_RESOLUTION, seq![0u8, 0u8, 0u8])
    } else {
        RequestModel::long(
            d.device_index,
            SUB_ID_GET_LONG_REGISTER,
            REG_CURRENT_RESOLUTION,
            bytes::filled(16, 0),
        )
    }
}

/// Whether `i` is the first active resolution.
pub open spec fn first_active(resolutions: Seq<ResolutionModel>, i: int) -> bool {
    &&& 0 <= i < resolutions.len()
    &&& resolutions[i].is_active
    &&& forall|j: int| 0 <= j < i ==> !(#[trigger] resolutions[j]).is_active
}

/// The values of both axes; `None` if they are not known.
pub open spec fn axes_of(dpi: Dpi) -> Option<(u32, u32)> {
    match dpi {
        Dpi::Unified(v) => Some((v, v)),
        Dpi::Separate { x, y } => Some((x, y)),
        Dpi::Unknown => None,
    }
}

/// The request that sets the resolution register to the active resolution;
/// `None` if there is none, or it is not known.
pub open spec fn resolution_write(d: DriverModel, p: ProfileModel) -> Option<RequestModel> {
    if exists|i: int| first_active(p.resolutions, i) {
        let r = p.resolutions[choose|i: int| first_active(p.resolutions, i)];
        match axes_of(r.dpi) {
            None => None,
            Some((x, y)) => {
                let x_raw = table::raw_of_dpi(d.dpi_table, x);
                let y_raw = table::raw_of_dpi(d.dpi_table, y);
                if d.profile_type is G9 {
                    Some(
                        RequestModel::set(
                            d.device_index,
                            REG_CURRENT_RESOLUTION,
                            seq![x_raw, 0u8, 0u8],
                        ),
                    )
                } else {
                    Some(
                        RequestModel::long(
                            d.device_index,
                            SUB_ID_SET_LONG_REGISTER,
                            REG_CURRENT_RESOLUTION,
                            bytes::padded(seq![x_raw, 0u8, y_raw, 0u8], 16),
                        ),
                    )
                }
            },
        }
    } else {
        None
    }
}

/// The byte of the rate register.
pub open spec fn rate_byte(rate: u32) -> u8 {
    if 1000int / rate as int > 255 {
        255
    } else {
        (1000int / rate as int) as u8
    }
}

/// The request that sets the rate register; `None` if the rate is 0.
pub open spec fn rate_write(d: DriverModel, p: ProfileModel) -> Option<RequestModel> {
    if p.report_rate > 0 {
        Some(
            RequestModel::set(
                d.device_index,
                REG_USB_REFRESH_RATE,
                seq![rate_byte(p.report_rate), 0u8, 0u8],
            ),
        )
    } else {
        None
    }
}

/// The request that sets the colour register to that of the first LED.
pub open spec fn color_write(d: DriverModel, p: ProfileModel) -> Option<RequestModel> {
    if p.leds.len() > 0 {
        let c = p.leds[0].color.rgb();
        Some(RequestModel::set(d.device_index, REG_LED_COLOR, seq![c.r, c.g, c.b]))
    } else {
        None
    }
}

/// The contents of an optional request.
pub open spec fn request_view(r: Option<Hidpp10Request>) -> Option<RequestModel> {
    match r {
        Some(q) => Some(q@),
        None => None,
    }
}

impl Hidpp10Driver {
    pub fn new() -> (r: Self)
        ensures
            r@ == (DriverModel {
                device_index: DEVICE_IDX_RECEIVER,
                version: ProtocolVersion { major: 0, minor: 0 },
                profile_type: Hidpp10ProfileType::Unknown,
                dpi_table: Seq::empty(),
                dpi_table_is_range: false,
                onboard_profiles: Seq::empty(),
                profile_count: 1,
            }),
    {
        let r = Hidpp10Driver {
            device_index: DEVICE_IDX_RECEIVER,
            version: ProtocolVersion { major: 0, minor: 0 },
            profile_type: Hidpp10ProfileType::Unknown,
            dpi_table: Vec::new(),
            dpi_table_is_range: false,
            onboard_profiles: Vec::new(),
            profile_count: 1,
        };
        assert(r@.onboard_profiles =~= Seq::empty());
        r
    }

    /// Takes note of a device that answered.
    pub fn probed(&mut self, index: u8, params: &[u8; 3])
        ensures
            final(self)@ == (DriverModel {
                device_index: index,
                version: ProtocolVersion { major: params[0], minor: params[1] },
                ..old(self)@
            }),
    {
        self.device_index = index;
        self.version = ProtocolVersion { major: params[0], minor: params[1] };
    }

    /// Takes over what the onboard profiles say of the profiles of a device.
    pub fn apply_onboard_profiles_to_device_info(&self, info: &mut DeviceInfo, active_idx: u32)
        ensures
            final(info)@ == (DeviceModel {
                profiles: applied_profiles(
                    old(info)@.profiles,
                    self@.onboard_profiles,
                    active_idx,
                    self.profile_type,
                ),
                ..old(info)@
            }),
    {
        let ghost target = applied_profiles(
            old(info)@.profiles,
            self@.onboard_profiles,
            active_idx,
            self.profile_type,
        );
        let mut i: usize = 0;
        while i < self.onboard_profiles.len() && i < info.profiles.len()
            invariant
                i <= info.profiles@.len(),
                i <= self.onboard_profiles@.len(),
                target == applied_profiles(
                    old(info)@.profiles,
                    self@.onboard_profiles,
                    active_idx,
                    self.profile_type,
                ),
                info@ == (DeviceModel { profiles: info@.profiles, ..old(info)@ }),
                info@.profiles.len() == old(info)@.profiles.len(),
                forall|k: int| 0 <= k < i ==> #[trigger] info@.profiles[k] == target[k],
                forall|k: int|
                    i <= k < info@.profiles.len() ==> #[trigger] info@.profiles[k] == old(
                        info,
                    )@.profiles[k],
            decreases info.profiles@.len() - i,
        {
            proof {
                device::lemma_profiles_view_update(info.profiles@, i as int);
            }
            assert(info@.profiles[i as int] == info.profiles@[i as int]@);
            assert(self@.onboard_profiles[i as int] == self.onboard_profiles@[i as int]@);
            apply_onboard_profile(
                &mut info.profiles[i],
                &self.onboard_profiles[i],
                i as u32 == active_idx,
                self.profile_type,
            );
            i += 1;
        }
        assert(info@.profiles =~= target);
    }

    /// The request for the resolution register.
    pub fn resolution_request(&self) -> (r: Hidpp10Request)
        ensures
            r@ == resolution_query(self@),
    {
        if self.profile_type == Hidpp10ProfileType::G9 {
            let params: [u8; 3] = [0, 0, 0];
            assert(params@ =~= seq![0u8, 0u8, 0u8]);
            Hidpp10Request::get_register(self.device_index, REG_CURRENT_RESOLUTION, &params)
        } else {
            let payload: [u8; 16] = [0u8; 16];
            assert(payload@ =~= bytes::filled(16, 0));
            Hidpp10Request::long(
                self.device_index,
                SUB_ID_GET_LONG_REGISTER,
                REG_CURRENT_RESOLUTION,
                &payload,
            )
        }
    }

    /// Sets the first resolution of a profile to what its register holds.
    pub fn read_resolution(&self, p: &mut ProfileInfo, reply: &Vec<u8>)
        requires
            reply@.len() == resolution_size(self@),
        ensures
            final(p)@ == with_register_resolution(self@, old(p)@, reply@),
    {
        assert(p@.resolutions.len() == p.resolutions.len());
        if p.resolutions.len() == 0 {
            return;
        }
        let dpi = if self.profile_type == Hidpp10ProfileType::G9 {
            Dpi::Unified(dpi_from_raw(&self.dpi_table, reply[0]))
        } else {
            let payload: [u8; 16] = [
                reply[0],
                reply[1],
                reply[2],
                reply[3],
                reply[4],
                reply[5],
                reply[6],
                reply[7],
                reply[8],
                reply[9],
                reply[10],
                reply[11],
                reply[12],
                reply[13],
                reply[14],
                reply[15],
            ];
            let rp = Hidpp10ResolutionLongPayload::from_bytes(&payload);
            let x: u16 = rp.xres();
            let y: u16 = rp.yres();
            assert(bytes::lo8(x) == reply[0] && bytes::lo8(y) == reply[2]) by {
                bytes::bytes_round_trip(0, reply[1], reply[0]);
                bytes::bytes_round_trip(0, reply[3], reply[2]);
            }
            join_axes(
                dpi_from_raw(&self.dpi_table, bytes::low_byte(x)),
                dpi_from_raw(&self.dpi_table, bytes::low_byte(y)),
            )
        };
        proof {
            device::lemma_resolutions_view_update(p.resolutions@, 0);
        }
        assert(p@.resolutions[0] == p.resolutions@[0]@);
        p.resolutions[0].dpi = dpi;
    }

    /// The request that sets the resolution register to the active resolution.
    pub fn write_resolution(&self, p: &ProfileInfo) -> (r: Option<Hidpp10Request>)
        ensures
            request_view(r) == resolution_write(self@, p@),
    {
        assert(p@.resolutions.len() == p.resolutions.len());
        let mut i: usize = 0;
        while i < p.resolutions.len() && !p.resolutions[i].is_active
            invariant
                i <= p.resolutions@.len(),
                p@.resolutions.len() == p.resolutions.len(),
                forall|j: int| 0 <= j < i ==> !(#[trigger] p@.resolutions[j]).is_active,
            decreases p.resolutions@.len() - i,
        {
            assert(p@.resolutions[i as int] == p.resolutions@[i as int]@);
            i += 1;
        }
        if i == p.resolutions.len() {
            return None;
        }
        assert(p@.resolutions[i as int] == p.resolutions@[i as int]@);
        proof {
            assert(first_active(p@.resolutions, i as int));
            let k = choose|k: int| first_active(p@.resolutions, k);
            assert(k == i);
        }
        let (x, y): (u32, u32) = match p.resolutions[i].dpi {
            Dpi::Unified(v) => (v, v),
            Dpi::Separate { x, y } => (x, y),
            Dpi::Unknown => {
                return None;
            },
        };
        let x_raw: u8 = raw_from_dpi(&self.dpi_table, x);
        if self.profile_type == Hidpp10ProfileType::G9 {
            let params: [u8; 3] = [x_raw, 0, 0];
            assert(params@ =~= seq![x_raw, 0u8, 0u8]);
            return Some(
                Hidpp10Request::set_register(self.device_index, REG_CURRENT_RESOLUTION, &params),
            );
        }
        let y_raw: u8 = raw_from_dpi(&self.dpi_table, y);
        let mut payload = Hidpp10ResolutionLongPayload::default();
        payload.set_xres(x_raw as u16);
        payload.set_yres(y_raw as u16);
        let wire = payload.to_bytes();
        assert(wire@ =~= bytes::padded(seq![x_raw, 0u8, y_raw, 0u8], 16));
        Some(
            Hidpp10Request::long(
                self.device_index,
                SUB_ID_SET_LONG_REGISTER,
                REG_CURRENT_RESOLUTION,
                &wire,
            ),
        )
    }

    /// The request that sets the rate register.
    pub fn write_refresh_rate(&self, p: &ProfileInfo) -> (r: Option<Hidpp10Request>)
        ensures
            request_view(r) == rate_write(self@, p@),
    {
        if p.report_rate == 0 {
            return None;
        }
        let q: u32 = 1000 / p.report_rate;
        let rate: u8 = if q > 255 {
            255
        } else {
            q as u8
        };
        let params: [u8; 3] = [rate, 0, 0];
        assert(params@ =~= seq![rate_byte(p.report_rate), 0u8, 0u8]);
        Some(Hidpp10Request::set_register(self.device_index, REG_USB_REFRESH_RATE, &params))
    }

    /// The request that sets the colour register.
    pub fn write_led_color(&self, p: &ProfileInfo) -> (r: Option<Hidpp10Request>)
        ensures
            request_view(r) == color_write(self@, p@),
    {
        assert(p@.leds.len() == p.leds.len());
        if p.leds.len() == 0 {
            return None;
        }
        assert(p@.leds[0] == p.leds@[0]@);
        let rgb = p.leds[0].color.to_rgb();
        let params: [u8; 3] = [rgb.r, rgb.g, rgb.b];
        assert(params@ =~= seq![rgb.r, rgb.g, rgb.b]);
        Some(Hidpp10Request::set_register(self.device_index, REG_LED_COLOR, &params))
    }
}

/// Sets the rate of a profile to what its register holds.
pub fn read_refresh_rate(p: &mut ProfileInfo, reply: &[u8; 3])
    ensures
        final(p)@ == with_register_rate(old(p)@, reply@),
{
    let payload = Hidpp10RefreshRatePayload::from_bytes(reply);
    if payload.rate > 0 {
        p.report_rate = 1000 / payload.rate as u32;
    }
}

/// Sets the LEDs of a profile to the colour that its register holds.
pub fn read_led_color(p: &mut ProfileInfo, reply: &[u8; 3])
    ensures
        final(p)@ == with_register_color(old(p)@, reply@),
{
    let c = Hidpp10LedColorPayload::from_bytes(reply);
    let ghost target = with_register_color(old(p)@, reply@).leds;
    let mut i: usize = 0;
    while i < p.leds.len()
        invariant
            i <= p.leds@.len(),
            c == (Hidpp10LedColorPayload { r: reply[0], g: reply[1], b: reply[2] }),
            target == with_register_color(old(p)@, reply@).leds,
            p@ == (ProfileModel { leds: p@.leds, ..old(p)@ }),
            p@.leds.len() == old(p)@.leds.len(),
            forall|k: int| 0 <= k < i ==> #[trigger] p@.leds[k] == target[k],
            forall|k: int| i <= k < p@.leds.len() ==> #[trigger] p@.leds[k] == old(p)@.leds[k],
        decreases p.leds@.len() - i,
    {
        proof {
            device::lemma_leds_view_update(p.leds@, i as int);
        }
        assert(p@.leds[i as int] == p.leds@[i as int]@);
        p.leds[i].color = Color::from_rgb(RgbColor { r: c.r, g: c.g, b: c.b });
        proof {
            device::lemma_leds_view_update(p.leds@, i as int);
        }
        assert(p@.leds[i as int] == p.leds@[i as int]@);
        p.leds[i].mode = LedMode::Solid;
        i += 1;
    }
    assert(p@.leds =~= target);
}

/// A resolution that is set is the one that is read, if the device has it: what
/// the long register is set to stands for the same resolution.
pub proof fn resolution_register_round_trip(d: DriverModel, p: ProfileModel, x: u32, y: u32)
    requires
        !(d.profile_type is G9),
        p.resolutions.len() > 0,
        table::dpi_of_raw(d.dpi_table, table::raw_of_dpi(d.dpi_table, x)) == x,
        table::dpi_of_raw(d.dpi_table, table::raw_of_dpi(d.dpi_table, y)) == y,
    ensures
        with_register_resolution(
            d,
            p,
            bytes::padded(
                seq![
                    table::raw_of_dpi(d.dpi_table, x),
                    0u8,
                    table::raw_of_dpi(d.dpi_table, y),
                    0u8,
                ],
                16,
            ),
        ).resolutions[0].dpi == axes_dpi(x, y),
{
}

} // verus!
