//! What the answers of a device mean for its profiles.

use crate::bytes;
use crate::engine::device;
use crate::engine::device::{
    ButtonInfo, ButtonModel, DeviceInfo, DeviceModel, Dpi, LedInfo, ProfileInfo, ProfileModel,
    ResolutionInfo, ResolutionModel,
};
use crate::hal::hidpp20::binding;
use crate::hal::hidpp20::eeprom::{EepromModel, EepromProfile};
use crate::hal::hidpp20::led;
use crate::hal::hidpp20::sensor;
use vstd::prelude::*;

verus! {

/// The action types that a button can be mapped to.
pub open spec fn button_action_types() -> Seq<u32> {
    seq![1u32, 3, 2, 4]
}

fn action_type_list() -> (r: Vec<u32>)
    ensures
        r@ == button_action_types(),
{
    let r: Vec<u32> = vec![1, 3, 2, 4];
    assert(r@ =~= button_action_types());
    r
}

/// A button of which nothing is known.
pub open spec fn blank_button() -> ButtonModel {
    ButtonModel {
        index: 0,
        action_type: crate::engine::device::ActionType::NoAction,
        action_types: Seq::empty(),
        mapping_value: 0,
        macro_entries: Seq::empty(),
    }
}

/// The buttons cut or extended to `n`, numbered in order.
pub open spec fn sized_buttons(buttons: Seq<ButtonModel>, n: nat) -> Seq<ButtonModel> {
    Seq::new(
        n,
        |b: int|
            ButtonModel {
                index: b as u32,
                action_types: button_action_types(),
                ..if b < buttons.len() {
                    buttons[b]
                } else {
                    blank_button()
                }
            },
    )
}

/// A profile with `n` buttons.
pub open spec fn with_button_count(p: ProfileModel, n: nat) -> ProfileModel {
    ProfileModel { buttons: sized_buttons(p.buttons, n), ..p }
}

/// Cuts or extends the buttons of a profile to `n`, and numbers them.
pub fn size_buttons(p: &mut ProfileInfo, n: usize)
    ensures
        final(p)@ == with_button_count(old(p)@, n as nat),
{
    let mut buttons: Vec<ButtonInfo> = Vec::new();
    let mut i: usize = 0;
    while i < n
        invariant
            i <= n,
            *p == *old(p),
            buttons@.len() == i,
            forall|k: int|
                0 <= k < i ==> (#[trigger] buttons@[k])@ == sized_buttons(
                    old(p)@.buttons,
                    n as nat,
                )[k],
        decreases n - i,
    {
        let mut b: ButtonInfo = if i < p.buttons.len() {
            p.buttons[i].clone()
        } else {
            ButtonInfo::default()
        };
        b.index = i as u32;
        b.action_types = action_type_list();
        assert(b@ =~= sized_buttons(old(p)@.buttons, n as nat)[i as int]);
        buttons.push(b);
        i += 1;
    }
    p.buttons = buttons;
    assert(p@.buttons =~= sized_buttons(old(p)@.buttons, n as nat));
}

/// The profiles cut or extended to `count`, numbered in order, each with `n`
/// buttons.
pub open spec fn sized_profiles(profiles: Seq<ProfileModel>, count: nat, n: nat) -> Seq<
    ProfileModel,
> {
    Seq::new(
        count,
        |i: int|
            ProfileModel {
                index: i as u32,
                ..with_button_count(
                    if i < profiles.len() {
                        profiles[i]
                    } else {
                        ProfileModel::empty()
                    },
                    n,
                )
            },
    )
}

/// Cuts or extends the profiles to `count`, numbers them, and gives each `n`
/// buttons.
pub fn size_profiles(info: &mut DeviceInfo, count: usize, n: usize)
    ensures
        final(info)@ == (DeviceModel {
            profiles: sized_profiles(old(info)@.profiles, count as nat, n as nat),
            ..old(info)@
        }),
{
    let mut profiles: Vec<ProfileInfo> = Vec::new();
    let mut i: usize = 0;
    while i < count
        invariant
            i <= count,
            *info == *old(info),
            profiles@.len() == i,
            forall|k: int|
                0 <= k < i ==> (#[trigger] profiles@[k])@ == sized_profiles(
                    old(info)@.profiles,
                    count as nat,
                    n as nat,
                )[k],
        decreases count - i,
    {
        let mut p: ProfileInfo = if i < info.profiles.len() {
            info.profiles[i].clone()
        } else {
            ProfileInfo::default()
        };
        size_buttons(&mut p, n);
        p.index = i as u32;
        assert(p@ =~= sized_profiles(old(info)@.profiles, count as nat, n as nat)[i as int]);
        profiles.push(p);
        i += 1;
    }
    info.profiles = profiles;
    assert(info@.profiles =~= sized_profiles(old(info)@.profiles, count as nat, n as nat));
}

/// Gives every profile `n` buttons.
pub fn size_all_buttons(info: &mut DeviceInfo, n: usize)
    ensures
        final(info)@ == (DeviceModel {
            profiles: old(info)@.profiles.map_values(
                |p: ProfileModel| with_button_count(p, n as nat),
            ),
            ..old(info)@
        }),
{
    let mut i: usize = 0;
    while i < info.profiles.len()
        invariant
            i <= info.profiles@.len(),
            info.profiles@.len() == old(info).profiles@.len(),
            info@ == (DeviceModel { profiles: info@.profiles, ..old(info)@ }),
            forall|j: int|
                0 <= j < i ==> info@.profiles[j] == with_button_count(
                    old(info)@.profiles[j],
                    n as nat,
                ),
            forall|j: int|
                i <= j < info.profiles@.len() ==> info@.profiles[j] == old(info)@.profiles[j],
        decreases info.profiles@.len() - i,
    {
        proof {
            device::lemma_profiles_view_update(info.profiles@, i as int);
        }
        size_buttons(&mut info.profiles[i], n);
        i += 1;
    }
    assert(info@.profiles =~= old(info)@.profiles.map_values(
        |p: ProfileModel| with_button_count(p, n as nat),
    ));
}

/// The resolution that a stored DPI value stands for. The values 0 and 0xFFFF
/// mark a slot that is not in use.
pub open spec fn stored_resolution(index: int, raw: u16, default_index: u8) -> ResolutionModel {
    let disabled = raw == 0 || raw == 0xFFFF;
    ResolutionModel {
        index: index as u32,
        dpi: Dpi::Unified(
            if disabled {
                0
            } else {
                raw as u32
            },
        ),
        dpi_list: Seq::empty(),
        capabilities: Seq::empty(),
        is_active: !disabled && index == default_index,
        is_default: !disabled && index == default_index,
        is_disabled: disabled,
    }
}

/// A profile with the contents of a sector. The report rate stays if the sector
/// has none; buttons beyond the slots of a sector stay as they are.
pub open spec fn with_sector(p: ProfileModel, e: EepromModel, enabled: bool) -> ProfileModel {
    ProfileModel {
        is_enabled: enabled,
        report_rate: if e.report_interval > 0 {
            (1000int / e.report_interval as int) as u32
        } else {
            p.report_rate
        },
        resolutions: e.dpis.map(
            |i: int, raw: u16| stored_resolution(i, raw, e.default_dpi_index),
        ),
        buttons: p.buttons.map(
            |i: int, b: ButtonModel|
                if i < e.buttons.len() {
                    ButtonModel {
                        action_type: binding::action_of_wire(e.buttons[i]),
                        mapping_value: binding::mapping_of_wire(e.buttons[i]),
                        ..b
                    }
                } else {
                    b
                },
        ),
        leds: e.leds.map(|i: int, l: Seq<u8>| led::led_of_bytes(l, i)),
        ..p
    }
}

/// Takes the contents of a sector over into a profile.
pub fn apply_sector(p: &mut ProfileInfo, e: &EepromProfile, enabled: bool)
    requires
        e@.dpis.len() > 0,
        e@.buttons.len() <= old(p)@.buttons.len(),
    ensures
        final(p)@ == with_sector(old(p)@, e@, enabled),
{
    let ghost target = with_sector(old(p)@, e@, enabled);
    p.is_enabled = enabled;
    if e.report_interval > 0 {
        p.report_rate = 1000 / (e.report_interval as u32);
    }
    let mut resolutions: Vec<ResolutionInfo> = Vec::new();
    let mut i: usize = 0;
    while i < e.dpis.len()
        invariant
            i <= e.dpis@.len(),
            resolutions@.len() == i,
            forall|k: int|
                0 <= k < i ==> (#[trigger] resolutions@[k])@ == stored_resolution(
                    k,
                    e.dpis@[k],
                    e.default_dpi_index,
                ),
        decreases e.dpis@.len() - i,
    {
        let raw: u16 = e.dpis[i];
        let disabled: bool = raw == 0 || raw == 0xFFFF;
        let x = ResolutionInfo {
            index: i as u32,
            dpi: Dpi::Unified(
                if disabled {
                    0
                } else {
                    raw as u32
                },
            ),
            dpi_list: Vec::new(),
            capabilities: Vec::new(),
            is_active: !disabled && i == e.default_dpi_index as usize,
            is_default: !disabled && i == e.default_dpi_index as usize,
            is_disabled: disabled,
        };
        assert(x@ =~= stored_resolution(i as int, raw, e.default_dpi_index));
        resolutions.push(x);
        i += 1;
    }
    p.resolutions = resolutions;
    assert(p@.resolutions =~= target.resolutions);
    let mut b: usize = 0;
    let ghost before = p@;
    while b < e.buttons.len()
        invariant
            b <= e.buttons@.len() <= p.buttons@.len(),
            p.buttons@.len() == old(p).buttons@.len(),
            target == with_sector(old(p)@, e@, enabled),
            p@ == (ProfileModel { buttons: p@.buttons, ..before }),
            forall|j: int| 0 <= j < b ==> p@.buttons[j] == target.buttons[j],
            forall|j: int| b <= j < p.buttons@.len() ==> p@.buttons[j] == old(p)@.buttons[j],
        decreases e.buttons@.len() - b,
    {
        proof {
            device::lemma_buttons_view_update(p.buttons@, b as int);
            assert(e@.buttons[b as int] == e.buttons@[b as int].wire());
        }
        p.buttons[b].action_type = e.buttons[b].to_action();
        proof {
            device::lemma_buttons_view_update(p.buttons@, b as int);
        }
        p.buttons[b].mapping_value = e.buttons[b].mapping_value();
        b += 1;
    }
    assert(p@.buttons =~= target.buttons);
    let mut leds: Vec<LedInfo> = Vec::new();
    let mut l: usize = 0;
    while l < e.leds.len()
        invariant
            l <= e.leds@.len(),
            leds@.len() == l,
            forall|k: int|
                0 <= k < l ==> (#[trigger] leds@[k])@ == led::led_of_bytes(e.leds@[k]@, k),
        decreases e.leds@.len() - l,
    {
        leds.push(led::parse_eeprom_led(e.leds[l].as_slice(), l));
        l += 1;
    }
    p.leds = leds;
    assert(p@.leds =~= target.leds);
    assert(p@ =~= target);
}

/// The place of the first active profile.
pub open spec fn is_first_active(profiles: Seq<ProfileModel>, i: int) -> bool {
    &&& 0 <= i < profiles.len()
    &&& profiles[i].is_active
    &&& forall|j: int| 0 <= j < i ==> !(#[trigger] profiles[j]).is_active
}

/// Finds the first active profile.
pub fn find_active_profile(info: &DeviceInfo) -> (r: Option<usize>)
    ensures
        r is Some ==> is_first_active(info@.profiles, r->0 as int),
        r is None ==> forall|j: int|
            0 <= j < info@.profiles.len() ==> !(#[trigger] info@.profiles[j]).is_active,
{
    let mut i: usize = 0;
    while i < info.profiles.len()
        invariant
            i <= info.profiles@.len(),
            forall|j: int| 0 <= j < i ==> !(#[trigger] info@.profiles[j]).is_active,
        decreases info.profiles@.len() - i,
    {
        if info.profiles[i].is_active {
            assert(info@.profiles[i as int] == info.profiles@[i as int]@);
            return Some(i);
        }
        assert(info@.profiles[i as int] == info.profiles@[i as int]@);
        i += 1;
    }
    None
}

/// The profiles with those of one index active; where none has that index, the
/// first profile is active.
pub open spec fn with_active_index(profiles: Seq<ProfileModel>, index: u32) -> Seq<ProfileModel> {
    let found = exists|j: int| 0 <= j < profiles.len() && (#[trigger] profiles[j]).index == index;
    profiles.map(
        |i: int, p: ProfileModel|
            ProfileModel { is_active: p.index == index || (!found && i == 0), ..p },
    )
}

/// Makes the profiles of one index the active ones; where none has that index,
/// makes the first profile active.
pub fn set_active_index(info: &mut DeviceInfo, index: u32)
    ensures
        final(info)@ == (DeviceModel {
            profiles: with_active_index(old(info)@.profiles, index),
            ..old(info)@
        }),
{
    let ghost orig = old(info)@.profiles;
    let mut found: bool = false;
    let mut i: usize = 0;
    while i < info.profiles.len()
        invariant
            i <= info.profiles@.len(),
            orig == old(info)@.profiles,
            info.profiles@.len() == orig.len(),
            info@ == (DeviceModel { profiles: info@.profiles, ..old(info)@ }),
            found <==> exists|j: int| 0 <= j < i && (#[trigger] orig[j]).index == index,
            forall|j: int|
                0 <= j < i ==> info@.profiles[j] == (ProfileModel {
                    is_active: orig[j].index == index,
                    ..orig[j]
                }),
            forall|j: int| i <= j < info.profiles@.len() ==> info@.profiles[j] == orig[j],
        decreases info.profiles@.len() - i,
    {
        let active: bool = info.profiles[i].index == index;
        proof {
            device::lemma_profiles_view_update(info.profiles@, i as int);
            assert(info@.profiles[i as int] == orig[i as int]);
        }
        info.profiles[i].is_active = active;
        if active {
            found = true;
        }
        i += 1;
    }
    let ghost any = exists|j: int| 0 <= j < orig.len() && (#[trigger] orig[j]).index == index;
    assert(found == any);
    if !found && info.profiles.len() > 0 {
        proof {
            device::lemma_profiles_view_update(info.profiles@, 0);
            assert(info@.profiles[0] == info.profiles@[0]@);
        }
        info.profiles[0].is_active = true;
    }
    assert forall|j: int| 0 <= j < orig.len() implies info@.profiles[j] == with_active_index(
        orig,
        index,
    )[j] by {
        assert(orig[j].index == index ==> any);
    }
    assert(info@.profiles =~= with_active_index(orig, index));
}

/// Once a profile index has been made active, some profile is active if there
/// is any profile at all, and every active profile either has that index or is
/// the first where none has it.
pub proof fn active_index_leaves_one_active(profiles: Seq<ProfileModel>, index: u32)
    requires
        profiles.len() > 0,
    ensures
        exists|i: int|
            0 <= i < profiles.len() && (#[trigger] with_active_index(
                profiles,
                index,
            )[i]).is_active,
        (forall|i: int, j: int|
            0 <= i < j < profiles.len() ==> (#[trigger] profiles[i]).index != (
            #[trigger] profiles[j]).index) ==> forall|i: int, j: int|
            0 <= i < j < profiles.len() ==> !((#[trigger] with_active_index(
                profiles,
                index,
            )[i]).is_active && (#[trigger] with_active_index(profiles, index)[j]).is_active),
{
    let w = with_active_index(profiles, index);
    if exists|j: int| 0 <= j < profiles.len() && (#[trigger] profiles[j]).index == index {
        let j = choose|j: int| 0 <= j < profiles.len() && (#[trigger] profiles[j]).index == index;
        assert(w[j].is_active);
    } else {
        assert(w[0].is_active);
    }
}

/// The resolutions with those of one index active.
pub open spec fn with_active_resolution_index(p: ProfileModel, index: int) -> ProfileModel {
    ProfileModel {
        resolutions: p.resolutions.map_values(
            |r: ResolutionModel| ResolutionModel { is_active: r.index == index, ..r },
        ),
        ..p
    }
}

/// Makes the resolutions of one index the active ones, and says whether that
/// changed anything.
pub fn set_active_resolution(p: &mut ProfileInfo, index: u32) -> (changed: bool)
    ensures
        final(p)@ == with_active_resolution_index(old(p)@, index as int),
        changed == (final(p)@ != old(p)@),
{
    let ghost target = with_active_resolution_index(old(p)@, index as int).resolutions;
    let mut changed: bool = false;
    let mut i: usize = 0;
    while i < p.resolutions.len()
        invariant
            i <= p.resolutions@.len(),
            target == with_active_resolution_index(old(p)@, index as int).resolutions,
            p.resolutions@.len() == old(p).resolutions@.len(),
            p@ == (ProfileModel { resolutions: p@.resolutions, ..old(p)@ }),
            changed <==> exists|j: int|
                0 <= j < i && (#[trigger] target[j]) != old(p)@.resolutions[j],
            forall|j: int| 0 <= j < i ==> p@.resolutions[j] == target[j],
            forall|j: int|
                i <= j < p.resolutions@.len() ==> p@.resolutions[j] == old(p)@.resolutions[j],
        decreases p.resolutions@.len() - i,
    {
        let wanted: bool = p.resolutions[i].index == index;
        proof {
            device::lemma_resolutions_view_update(p.resolutions@, i as int);
            assert(p@.resolutions[i as int] == old(p)@.resolutions[i as int]);
            assert(p@.resolutions[i as int] == p.resolutions@[i as int]@);
        }
        if p.resolutions[i].is_active != wanted {
            p.resolutions[i].is_active = wanted;
            changed = true;
            assert(target[i as int].is_active != old(p)@.resolutions[i as int].is_active);
        } else {
            assert(target[i as int] =~= old(p)@.resolutions[i as int]);
        }
        i += 1;
    }
    proof {
        assert(p@.resolutions =~= target);
        if changed {
            let j = choose|j: int|
                0 <= j < target.len() && (#[trigger] target[j]) != old(p)@.resolutions[j];
            assert(p@.resolutions[j] != old(p)@.resolutions[j]);
        } else {
            assert(p@.resolutions =~= old(p)@.resolutions);
        }
    }
    changed
}

/// A profile whose resolutions offer the DPI values of the sensor, and which
/// offers the report rates of the device, as far as these are known.
pub open spec fn with_capabilities(
    p: ProfileModel,
    dpis: Option<Seq<u32>>,
    rates: Option<Seq<u32>>,
) -> ProfileModel {
    ProfileModel {
        resolutions: match dpis {
            Some(list) => p.resolutions.map_values(
                |r: ResolutionModel| ResolutionModel { dpi_list: list, ..r },
            ),
            None => p.resolutions,
        },
        report_rates: match rates {
            Some(list) => list,
            None => p.report_rates,
        },
        ..p
    }
}

pub open spec fn list_view(v: Option<Vec<u32>>) -> Option<Seq<u32>> {
    match v {
        Some(list) => Some(list@),
        None => None,
    }
}

fn set_dpi_lists(p: &mut ProfileInfo, list: &Vec<u32>)
    ensures
        final(p)@ == with_capabilities(old(p)@, Some(list@), None),
{
    let ghost target = with_capabilities(old(p)@, Some(list@), None);
    let mut i: usize = 0;
    while i < p.resolutions.len()
        invariant
            i <= p.resolutions@.len(),
            target == with_capabilities(old(p)@, Some(list@), None),
            p.resolutions@.len() == old(p).resolutions@.len(),
            p@ == (ProfileModel { resolutions: p@.resolutions, ..old(p)@ }),
            forall|j: int| 0 <= j < i ==> p@.resolutions[j] == target.resolutions[j],
            forall|j: int|
                i <= j < p.resolutions@.len() ==> p@.resolutions[j] == old(p)@.resolutions[j],
        decreases p.resolutions@.len() - i,
    {
        proof {
            device::lemma_resolutions_view_update(p.resolutions@, i as int);
            assert(p@.resolutions[i as int] == p.resolutions@[i as int]@);
        }
        p.resolutions[i].dpi_list = list.clone();
        assert(p@.resolutions[i as int] =~= target.resolutions[i as int]);
        i += 1;
    }
    assert(p@.resolutions =~= target.resolutions);
    assert(p@ =~= target);
}

fn apply_capabilities_to(p: &mut ProfileInfo, dpis: &Option<Vec<u32>>, rates: &Option<Vec<u32>>)
    ensures
        final(p)@ == with_capabilities(old(p)@, list_view(*dpis), list_view(*rates)),
{
    match dpis {
        Some(list) => set_dpi_lists(p, list),
        None => {},
    }
    match rates {
        Some(list) => {
            p.report_rates = list.clone();
        },
        None => {},
    }
    assert(p@ =~= with_capabilities(old(p)@, list_view(*dpis), list_view(*rates)));
}

/// Makes the capabilities of the device known to every profile.
pub fn apply_capabilities(info: &mut DeviceInfo, dpis: &Option<Vec<u32>>, rates: &Option<Vec<u32>>)
    ensures
        final(info)@ == (DeviceModel {
            profiles: old(info)@.profiles.map_values(|p: ProfileModel| with_capabilities(p, list_view(*dpis), list_view(*rates))),
            ..old(info)@
        }),
{
    let ghost target = old(info)@.profiles.map_values(|p: ProfileModel| with_capabilities(p, list_view(*dpis), list_view(*rates)));
    let mut i: usize = 0;
    while i < info.profiles.len()
        invariant
            i <= info.profiles@.len(),
            info.profiles@.len() == old(info).profiles@.len(),
            info@ == (DeviceModel { profiles: info@.profiles, ..old(info)@ }),
            target == old(info)@.profiles.map_values(|p: ProfileModel| with_capabilities(p, list_view(*dpis), list_view(*rates))),
            forall|j: int| 0 <= j < i ==> info@.profiles[j] == target[j],
            forall|j: int|
                i <= j < info.profiles@.len() ==> info@.profiles[j] == old(info)@.profiles[j],
        decreases info.profiles@.len() - i,
    {
        proof {
            device::lemma_profiles_view_update(info.profiles@, i as int);
        }
        apply_capabilities_to(&mut info.profiles[i], dpis, rates);
        i += 1;
    }
    assert(info@.profiles =~= target);
}

/// The DPI values that an answer to the list query holds; the first byte is the
/// index of the sensor.
pub open spec fn dpis_of_reply(reply: Seq<u8>) -> Seq<u32> {
    sensor::dpi_list_of(reply.skip(1))
}

/// Reads the answer to the DPI list query.
pub fn dpi_list_from_reply(reply: &[u8; 16]) -> (r: Vec<u32>)
    ensures
        r@ == dpis_of_reply(reply@),
{
    let tail = vstd::slice::slice_subrange(reply.as_slice(), 1, 16);
    assert(tail@ =~= reply@.skip(1));
    sensor::parse_dpi_list(tail)
}

/// What is known of the DPI values after the list query: nothing if the list is
/// empty.
pub fn sensor_range(reply: &[u8; 16]) -> (r: Option<Vec<u32>>)
    ensures
        list_view(r) == (if dpis_of_reply(reply@).len() == 0 {
            None
        } else {
            Some(dpis_of_reply(reply@))
        }),
{
    let list = dpi_list_from_reply(reply);
    if list.is_empty() {
        None
    } else {
        Some(list)
    }
}

/// What is known of the report rates after the list query: nothing if the list
/// is empty.
pub fn rate_list(reply: &[u8; 16]) -> (r: Option<Vec<u32>>)
    ensures
        list_view(r) == (if sensor::rates_of_bitmap(reply[0]).len() == 0 {
            None
        } else {
            Some(sensor::rates_of_bitmap(reply[0]))
        }),
{
    let list = sensor::parse_rate_bitmap(reply[0]);
    if list.is_empty() {
        None
    } else {
        Some(list)
    }
}

/// A profile with the DPI values of the sensor and, in its active resolutions,
/// the value that the sensor uses now.
pub open spec fn with_sensor_state(p: ProfileModel, list: Seq<u32>, current: u16) -> ProfileModel {
    ProfileModel {
        resolutions: p.resolutions.map_values(
            |r: ResolutionModel|
                ResolutionModel {
                    dpi_list: if list.len() > 0 {
                        list
                    } else {
                        r.dpi_list
                    },
                    dpi: if r.is_active {
                        Dpi::Unified(current as u32)
                    } else {
                        r.dpi
                    },
                    ..r
                },
        ),
        ..p
    }
}

/// Takes the answers of the sensor over into a profile.
pub fn apply_dpi_info(p: &mut ProfileInfo, list_reply: &[u8; 16], dpi_reply: &[u8; 16])
    ensures
        final(p)@ == with_sensor_state(
            old(p)@,
            dpis_of_reply(list_reply@),
            bytes::be16(dpi_reply[1], dpi_reply[2]),
        ),
{
    let list: Vec<u32> = dpi_list_from_reply(list_reply);
    let current: u16 = bytes::u16_from(dpi_reply[1], dpi_reply[2]);
    let ghost target = with_sensor_state(old(p)@, list@, current);
    let mut i: usize = 0;
    while i < p.resolutions.len()
        invariant
            i <= p.resolutions@.len(),
            target == with_sensor_state(old(p)@, list@, current),
            p.resolutions@.len() == old(p).resolutions@.len(),
            p@ == (ProfileModel { resolutions: p@.resolutions, ..old(p)@ }),
            forall|j: int| 0 <= j < i ==> p@.resolutions[j] == target.resolutions[j],
            forall|j: int|
                i <= j < p.resolutions@.len() ==> p@.resolutions[j] == old(p)@.resolutions[j],
        decreases p.resolutions@.len() - i,
    {
        proof {
            assert(p@.resolutions[i as int] == p.resolutions@[i as int]@);
            device::lemma_resolutions_view_update(p.resolutions@, i as int);
        }
        if !list.is_empty() {
            p.resolutions[i].dpi_list = list.clone();
        }
        proof {
            device::lemma_resolutions_view_update(p.resolutions@, i as int);
        }
        if p.resolutions[i].is_active {
            p.resolutions[i].dpi = Dpi::Unified(current as u32);
        }
        assert(p@.resolutions[i as int] =~= target.resolutions[i as int]);
        i += 1;
    }
    assert(p@.resolutions =~= target.resolutions);
    assert(p@ =~= target);
}

/// Takes the list of report rates over into a profile.
pub fn apply_rate_list(p: &mut ProfileInfo, reply: &[u8; 16])
    ensures
        final(p)@ == (ProfileModel {
            report_rates: sensor::rates_of_bitmap(reply[0]),
            ..old(p)@
        }),
{
    p.report_rates = sensor::parse_rate_bitmap(reply[0]);
    assert(p@ =~= (ProfileModel { report_rates: sensor::rates_of_bitmap(reply[0]), ..old(p)@ }));
}

/// The report rate for an interval in ms, if that is not zero.
pub open spec fn rate_of_interval(ms: u8) -> Option<u32> {
    if ms > 0 {
        Some((1000int / ms as int) as u32)
    } else {
        None
    }
}

/// Takes the report rate in use over into a profile, and returns it. An
/// interval of zero changes nothing.
pub fn apply_report_rate(p: &mut ProfileInfo, reply: &[u8; 16]) -> (r: Option<u32>)
    ensures
        r == rate_of_interval(reply[0]),
        final(p)@ == (match r {
            Some(hz) => ProfileModel { report_rate: hz, ..old(p)@ },
            None => old(p)@,
        }),
{
    let ms: u32 = reply[0] as u32;
    if ms > 0 {
        p.report_rate = 1000 / ms;
        Some(p.report_rate)
    } else {
        None
    }
}

/// Takes the answer of an LED zone over into a profile. The answer of another
/// zone changes nothing.
pub fn apply_led_reply(p: &mut ProfileInfo, at: usize, reply: &[u8; 16])
    requires
        at < old(p).leds@.len(),
    ensures
        final(p)@ == (if reply[0] == old(p)@.leds[at as int].index as u8 {
            ProfileModel {
                leds: old(p)@.leds.update(
                    at as int,
                    led::led_of_bytes(
                        reply@.subrange(1, 12),
                        old(p)@.leds[at as int].index as usize as int,
                    ),
                ),
                ..old(p)@
            }
        } else {
            old(p)@
        }),
{
    let index: u32 = p.leds[at].index;
    assert(p@.leds[at as int] == p.leds@[at as int]@);
    if reply[0] == index as u8 {
        let record = vstd::slice::slice_subrange(reply.as_slice(), 1, 12);
        proof {
            device::lemma_leds_view_update(p.leds@, at as int);
        }
        p.leds[at] = led::parse_eeprom_led(record, index as usize);
    }
}

/// The address in entry `i` of a directory; the end mark where the directory
/// does not reach that far.
pub open spec fn directory_entry(root: Seq<u8>, i: int) -> u16 {
    if 4 * i + 4 <= root.len() {
        bytes::be16(root[4 * i], root[4 * i + 1])
    } else {
        0xFFFF
    }
}

/// Whether the directory has an entry for profile `i`: no entry up to there is
/// the end mark.
pub open spec fn in_directory(root: Seq<u8>, i: int) -> bool {
    forall|j: int| 0 <= j <= i ==> #[trigger] directory_entry(root, j) != 0xFFFF
}

/// The sector addresses in a directory; 0 for a profile without an entry.
pub open spec fn directory_addresses(root: Seq<u8>, count: nat) -> Seq<u16> {
    Seq::new(
        count,
        |i: int|
            if in_directory(root, i) {
                directory_entry(root, i)
            } else {
                0
            },
    )
}

/// Which profiles a directory enables.
pub open spec fn directory_enabled(root: Seq<u8>, count: nat) -> Seq<bool> {
    Seq::new(count, |i: int| in_directory(root, i) && root[4 * i + 2] != 0)
}

/// Reads the directory of the onboard profiles.
pub fn read_directory(root: &Vec<u8>, count: usize) -> (r: (Vec<u16>, Vec<bool>))
    requires
        count <= 5,
    ensures
        r.0@ == directory_addresses(root@, count as nat),
        r.1@ == directory_enabled(root@, count as nat),
{
    let mut addrs: Vec<u16> = Vec::new();
    let mut enabled: Vec<bool> = Vec::new();
    let mut open: bool = true;
    let mut i: usize = 0;
    while i < count
        invariant
            i <= count <= 5,
            open <==> in_directory(root@, i - 1),
            addrs@.len() == i,
            enabled@.len() == i,
            forall|k: int|
                0 <= k < i ==> addrs@[k] == directory_addresses(root@, count as nat)[k],
            forall|k: int|
                0 <= k < i ==> enabled@[k] == directory_enabled(root@, count as nat)[k],
        decreases count - i,
    {
        if open && 4 * i + 4 <= root.len() {
            let addr: u16 = bytes::u16_from(root[4 * i], root[4 * i + 1]);
            assert(addr == directory_entry(root@, i as int));
            open = addr != 0xFFFF;
        } else {
            assert(open ==> directory_entry(root@, i as int) == 0xFFFF);
            open = false;
        }
        assert(open <==> in_directory(root@, i as int));
        if open {
            addrs.push(bytes::u16_from(root[4 * i], root[4 * i + 1]));
            enabled.push(root[4 * i + 2] != 0);
        } else {
            addrs.push(0);
            enabled.push(false);
        }
        i += 1;
    }
    assert(addrs@ =~= directory_addresses(root@, count as nat));
    assert(enabled@ =~= directory_enabled(root@, count as nat));
    (addrs, enabled)
}

/// The address of the factory copy of profile `i`, of which there are `num_rom`;
/// the first serves for every profile beyond them.
pub open spec fn rom_address(i: int, num_rom: int) -> u16 {
    (0x0100 + (if i < num_rom {
        i
    } else {
        0
    }) + 1) as u16
}

/// The address of the factory copy of profile `i`.
pub fn rom_sector(i: usize, num_rom: u8) -> (r: u16)
    requires
        i < 5,
    ensures
        r == rom_address(i as int, num_rom as int),
{
    let at: u16 = if i < num_rom as usize {
        i as u16
    } else {
        0
    };
    0x0100 + at + 1
}

} // verus!
