//! Writing the profiles of a device.
//!
//! A [`ProfileCommit`] goes from phase to phase like a load. A device with
//! onboard memory gets its sectors rewritten; any other device gets the
//! settings of its active profile live.

use crate::bytes;
use crate::engine::device::{
    ButtonModel, DeviceInfo, DeviceModel, Dpi, LedModel, ProfileInfo, ProfileModel,
    ResolutionModel,
};
use crate::hal::hidpp20::apply;
use crate::hal::hidpp20::binding;
use crate::hal::hidpp20::binding::Hidpp20ButtonBinding;
use crate::hal::hidpp20::driver;
use crate::hal::hidpp20::driver::{
    DriverModel, Hidpp20Driver, ONBOARD_MODE_HOST, ONBOARD_MODE_ONBOARD,
    PROFILES_FN_SET_CURRENT_DPI_INDEX, PROFILES_FN_SET_CURRENT_PROFILE, PROFILES_FN_SET_MODE,
};
use crate::hal::hidpp20::eeprom;
use crate::hal::hidpp20::eeprom::{EepromModel, EepromProfile};
use crate::hal::hidpp20::error::HidppDriverError;
use crate::hal::hidpp20::feature::{FeatureRequest, RequestModel};
use crate::hal::hidpp20::led;
use vstd::prelude::*;

verus! {

/// The place of the first default resolution.
pub open spec fn is_first_default(s: Seq<ResolutionModel>, i: int) -> bool {
    &&& 0 <= i < s.len()
    &&& s[i].is_default
    &&& forall|j: int| 0 <= j < i ==> !(#[trigger] s[j]).is_default
}

/// The stored index of the default resolution; `old` where there is none.
pub open spec fn default_slot(s: Seq<ResolutionModel>, old: u8) -> u8 {
    if exists|i: int| is_first_default(s, i) {
        (choose|i: int| is_first_default(s, i)) as u8
    } else {
        old
    }
}

/// The button slots once the buttons are stored in order, each in the slot of
/// its index, if there is one.
pub open spec fn stored_buttons(slots: Seq<Seq<u8>>, buttons: Seq<ButtonModel>) -> Seq<Seq<u8>>
    decreases buttons.len(),
{
    if buttons.len() == 0 {
        slots
    } else {
        let s = stored_buttons(slots, buttons.drop_last());
        let b = buttons.last();
        if b.index < s.len() {
            s.update(
                b.index as int,
                Hidpp20ButtonBinding::wire_of_action(b.action_type, b.mapping_value),
            )
        } else {
            s
        }
    }
}

/// The LED slots once the LEDs are stored in order, each in the slot of its
/// index, if there is one.
pub open spec fn stored_leds(slots: Seq<Seq<u8>>, leds: Seq<LedModel>) -> Seq<Seq<u8>>
    decreases leds.len(),
{
    if leds.len() == 0 {
        slots
    } else {
        let s = stored_leds(slots, leds.drop_last());
        let l = leds.last();
        if l.index < s.len() {
            s.update(l.index as int, led::bytes_of_led(l))
        } else {
            s
        }
    }
}

/// The contents of a sector once the settings of a profile are put in. What the
/// profile does not determine stays.
pub open spec fn patched(e: EepromModel, p: ProfileModel) -> EepromModel {
    EepromModel {
        report_interval: if p.report_rate > 0 {
            driver::interval_of_rate(p.report_rate)
        } else {
            e.report_interval
        },
        default_dpi_index: default_slot(p.resolutions, e.default_dpi_index),
        dpis: e.dpis.map(
            |i: int, d: u16|
                if i < p.resolutions.len() {
                    match p.resolutions[i].dpi {
                        Dpi::Unified(v) => driver::limit16(v),
                        _ => d,
                    }
                } else {
                    d
                },
        ),
        buttons: stored_buttons(e.buttons, p.buttons),
        leds: stored_leds(e.leds, p.leds),
    }
}

/// The LEDs that have a slot can be stored.
pub open spec fn storable(p: ProfileModel) -> bool {
    forall|l: int|
        0 <= l < p.leds.len() && (#[trigger] p.leds[l]).index < eeprom::EEPROM_LED_COUNT
            ==> led::writable(p.leds[l])
}

fn find_default(p: &ProfileInfo) -> (r: Option<usize>)
    ensures
        r is Some ==> is_first_default(p@.resolutions, r->0 as int),
        r is None ==> forall|j: int|
            0 <= j < p@.resolutions.len() ==> !(#[trigger] p@.resolutions[j]).is_default,
{
    let mut i: usize = 0;
    while i < p.resolutions.len()
        invariant
            i <= p.resolutions@.len(),
            forall|j: int| 0 <= j < i ==> !(#[trigger] p@.resolutions[j]).is_default,
        decreases p.resolutions@.len() - i,
    {
        assert(p@.resolutions[i as int] == p.resolutions@[i as int]@);
        if p.resolutions[i].is_default {
            return Some(i);
        }
        i += 1;
    }
    None
}

/// Puts the settings of a profile into the contents of a sector.
pub fn patch_sector(e: &mut EepromProfile, p: &ProfileInfo)
    requires
        old(e)@.leds.len() <= eeprom::EEPROM_LED_COUNT,
        storable(p@),
    ensures
        final(e)@ == patched(old(e)@, p@),
{
    let ghost target = patched(old(e)@, p@);
    if p.report_rate > 0 {
        e.report_interval = driver::rate_to_interval(p.report_rate);
    }
    match find_default(p) {
        Some(at) => {
            proof {
                let k = choose|k: int| is_first_default(p@.resolutions, k);
                assert(is_first_default(p@.resolutions, at as int));
                assert(k == at);
            }
            e.default_dpi_index = at as u8;
        },
        None => {},
    }
    let ghost base = *e;
    let mut i: usize = 0;
    while i < p.resolutions.len() && i < e.dpis.len()
        invariant
            i <= p.resolutions@.len(),
            i <= e.dpis@.len(),
            e.dpis@.len() == base.dpis@.len(),
            base.dpis@ == old(e).dpis@,
            *e == (EepromProfile { dpis: e.dpis, ..base }),
            target == patched(old(e)@, p@),
            forall|k: int| 0 <= k < i ==> e.dpis@[k] == target.dpis[k],
            forall|k: int| i <= k < e.dpis@.len() ==> e.dpis@[k] == old(e).dpis@[k],
        decreases p.resolutions@.len() - i,
    {
        assert(p@.resolutions[i as int] == p.resolutions@[i as int]@);
        match p.resolutions[i].dpi {
            Dpi::Unified(v) => {
                e.dpis[i] = if v > 0xFFFF {
                    0xFFFF
                } else {
                    v as u16
                };
            },
            _ => {},
        }
        i += 1;
    }
    assert(e.dpis@ =~= target.dpis);
    let ghost base = *e;
    let mut b: usize = 0;
    let ghost slots = old(e)@.buttons;
    assert(p@.buttons.subrange(0, 0) =~= Seq::empty());
    while b < p.buttons.len()
        invariant
            b <= p.buttons@.len(),
            *e == (EepromProfile { buttons: e.buttons, ..base }),
            e@.buttons == stored_buttons(slots, p@.buttons.subrange(0, b as int)),
        decreases p.buttons@.len() - b,
    {
        let ghost next = p@.buttons.subrange(0, b + 1);
        proof {
            assert(next.drop_last() =~= p@.buttons.subrange(0, b as int));
            assert(next.last() == p.buttons@[b as int]@);
        }
        let at: usize = p.buttons[b].index as usize;
        if at < e.buttons.len() {
            let w = Hidpp20ButtonBinding::from_action(
                p.buttons[b].action_type,
                p.buttons[b].mapping_value,
            );
            let ghost before = e@.buttons;
            e.buttons[at] = w;
            assert(e@.buttons =~= before.update(at as int, w.wire()));
        }
        b += 1;
    }
    assert(p@.buttons.subrange(0, b as int) =~= p@.buttons);
    let ghost base = *e;
    let mut l: usize = 0;
    let ghost slots = old(e)@.leds;
    assert(p@.leds.subrange(0, 0) =~= Seq::empty());
    while l < p.leds.len()
        invariant
            l <= p.leds@.len(),
            storable(p@),
            e.leds@.len() <= 2,
            *e == (EepromProfile { leds: e.leds, ..base }),
            e@.leds == stored_leds(slots, p@.leds.subrange(0, l as int)),
        decreases p.leds@.len() - l,
    {
        let ghost next = p@.leds.subrange(0, l + 1);
        proof {
            assert(next.drop_last() =~= p@.leds.subrange(0, l as int));
            assert(next.last() == p.leds@[l as int]@);
            assert(p@.leds[l as int] == p.leds@[l as int]@);
        }
        let at: usize = p.leds[l].index as usize;
        if at < e.leds.len() {
            let w: [u8; 11] = led::serialize_eeprom_led(&p.leds[l]);
            let ghost before = e@.leds;
            e.leds[at] = w;
            assert(e@.leds =~= before.update(at as int, w@));
        }
        l += 1;
    }
    assert(p@.leds.subrange(0, l as int) =~= p@.leds);
    assert(e@ =~= target);
}

/// A buffer brought to at least `size` bytes.
pub open spec fn extended(data: Seq<u8>, size: nat) -> Seq<u8> {
    if data.len() < size {
        data + bytes::filled((size - data.len()) as nat, 0xFF)
    } else {
        data
    }
}

/// The sector that holds the settings of a profile, made from what the sector
/// held before.
pub open spec fn profile_sector(base: Seq<u8>, button_count: int, p: ProfileModel) -> Seq<u8> {
    eeprom::sealed(patched(EepromModel::read(base, button_count), p).written(base))
}

/// Builds the sector that holds the settings of a profile. A sector that is too
/// short for them is an error.
pub fn build_profile_sector(base: Vec<u8>, button_count: u8, p: &ProfileInfo) -> (r: Result<
    Vec<u8>,
    HidppDriverError,
>)
    requires
        storable(p@),
    ensures
        r is Ok <==> base@.len() >= eeprom::EEPROM_PROFILE_MIN_LEN,
        r is Ok ==> r->Ok_0@ == profile_sector(base@, button_count as int, p@),
        r is Err ==> r->Err_0 == (HidppDriverError::BufferUnderflow {
            expected: eeprom::EEPROM_PROFILE_MIN_LEN,
            received: base.len(),
        }),
{
    let mut data: Vec<u8> = base;
    match EepromProfile::from_bytes(data.as_slice(), button_count as usize) {
        Err(e) => Err(e),
        Ok(mut e) => {
            patch_sector(&mut e, p);
            match e.write_into(&mut data) {
                Err(x) => Err(x),
                Ok(_) => {
                    eeprom::seal_sector(&mut data);
                    Ok(data)
                },
            }
        },
    }
}

/// What is stored is read back: the sector of a profile passes its check and
/// holds the settings of the profile.
pub proof fn profile_sector_reads_back(base: Seq<u8>, button_count: int, p: ProfileModel)
    requires
        0 <= button_count,
        base.len() >= eeprom::EEPROM_PROFILE_MIN_LEN + 2,
    ensures
        ({
            let s = profile_sector(base, button_count, p);
            &&& s.len() == base.len()
            &&& eeprom::stored_crc(s) == eeprom::body_crc(s)
            &&& EepromModel::read(s, button_count) == patched(
                EepromModel::read(base, button_count),
                p,
            )
            &&& forall|i: int|
                0 <= i < s.len() - 2 && eeprom::unmanaged(i) ==> #[trigger] s[i] == base[i]
        }),
{
    let m = patched(EepromModel::read(base, button_count), p);
    let w = m.written(base);
    let s = eeprom::sealed(w);
    lemma_patched_fills(base, button_count, p);
    eeprom::eeprom_read_gives_back_write(m, base, button_count);
    eeprom::sealed_sector_is_valid(w);
    let a = EepromModel::read(w, button_count);
    let b = EepromModel::read(s, button_count);
    assert(forall|i: int| 0 <= i < 230 ==> #[trigger] s[i] == w[i]);
    assert(a.dpis =~= b.dpis);
    assert forall|k: int| 0 <= k < a.buttons.len() implies a.buttons[k] == b.buttons[k] by {
        assert(a.buttons[k] =~= b.buttons[k]);
    }
    assert(a.buttons =~= b.buttons);
    assert forall|k: int| 0 <= k < 2 implies a.leds[k] == b.leds[k] by {
        assert(a.leds[k] =~= b.leds[k]);
    }
    assert(a.leds =~= b.leds);
    assert(a =~= b);
}

pub(crate) proof fn lemma_stored_buttons_hold(slots: Seq<Seq<u8>>, buttons: Seq<ButtonModel>)
    requires
        forall|b: int| 0 <= b < buttons.len() ==> (#[trigger] buttons[b]).index == b,
    ensures
        stored_buttons(slots, buttons).len() == slots.len(),
        forall|b: int|
            0 <= b < buttons.len() && b < slots.len() ==> #[trigger] stored_buttons(
                slots,
                buttons,
            )[b] == Hidpp20ButtonBinding::wire_of_action(
                buttons[b].action_type,
                buttons[b].mapping_value,
            ),
    decreases buttons.len(),
{
    if buttons.len() > 0 {
        let rest = buttons.drop_last();
        assert forall|b: int| 0 <= b < rest.len() implies (#[trigger] rest[b]).index == b by {
            assert(rest[b] == buttons[b]);
        }
        lemma_stored_buttons_hold(slots, rest);
        assert forall|b: int| 0 <= b < buttons.len() && b < slots.len() implies #[trigger] stored_buttons(
            slots,
            buttons,
        )[b] == Hidpp20ButtonBinding::wire_of_action(
            buttons[b].action_type,
            buttons[b].mapping_value,
        ) by {
            if b < rest.len() {
                assert(rest[b] == buttons[b]);
                assert(stored_buttons(slots, rest)[b] == Hidpp20ButtonBinding::wire_of_action(
                    rest[b].action_type,
                    rest[b].mapping_value,
                ));
            }
        }
    }
}

/// Whether a DPI value can stand in a slot that is in use.
pub open spec fn in_use(dpi: Dpi) -> bool {
    dpi matches Dpi::Unified(v) && 0 < v < 0xFFFF
}

/// What is set is what a later load shows: from the sector of a profile `p`,
/// whatever the profile `q` held before, come the DPI values, the report rate
/// and the buttons of `p` that have a slot, each button with its action and
/// mapping value. The rate is one that divides 1000 and is not below 4 Hz, and
/// the DPI values are those of slots in use.
pub proof fn committed_profile_is_loaded(
    base: Seq<u8>,
    button_count: int,
    p: ProfileModel,
    q: ProfileModel,
    enabled: bool,
)
    requires
        0 <= button_count,
        base.len() >= eeprom::EEPROM_PROFILE_MIN_LEN + 2,
        forall|b: int| 0 <= b < p.buttons.len() ==> (#[trigger] p.buttons[b]).index == b,
    ensures
        ({
            let s = profile_sector(base, button_count, p);
            let loaded = apply::with_sector(q, EepromModel::read(s, button_count), enabled);
            &&& loaded.is_enabled == enabled
            &&& 4 <= p.report_rate <= 1000 && 1000int % p.report_rate as int == 0
                ==> loaded.report_rate == p.report_rate
            &&& loaded.resolutions.len() == 5
            &&& forall|i: int|
                0 <= i < 5 && i < p.resolutions.len() && in_use((#[trigger] p.resolutions[i]).dpi)
                    ==> loaded.resolutions[i].dpi == p.resolutions[i].dpi
                    && !loaded.resolutions[i].is_disabled
            &&& loaded.buttons.len() == q.buttons.len()
            &&& forall|b: int|
                0 <= b < eeprom::button_slots(button_count) && b < p.buttons.len() && b
                    < q.buttons.len() && binding::bindable(
                    (#[trigger] p.buttons[b]).action_type,
                    p.buttons[b].mapping_value,
                ) ==> loaded.buttons[b].action_type == p.buttons[b].action_type
                    && loaded.buttons[b].mapping_value == p.buttons[b].mapping_value
        }),
{
    let s = profile_sector(base, button_count, p);
    let e = EepromModel::read(base, button_count);
    let m = patched(e, p);
    let loaded = apply::with_sector(q, EepromModel::read(s, button_count), enabled);
    profile_sector_reads_back(base, button_count, p);
    lemma_stored_buttons_hold(e.buttons, p.buttons);
    if 4 <= p.report_rate <= 1000 && 1000int % p.report_rate as int == 0 {
        lemma_interval_keeps_rate(p.report_rate);
    }
    assert forall|i: int|
        0 <= i < 5 && i < p.resolutions.len() && in_use((#[trigger] p.resolutions[i]).dpi) implies
        loaded.resolutions[i].dpi == p.resolutions[i].dpi && !loaded.resolutions[i].is_disabled by {
        assert(m.dpis[i] == driver::limit16(p.resolutions[i].dpi->Unified_0));
    }
    assert forall|b: int|
        0 <= b < eeprom::button_slots(button_count) && b < p.buttons.len() && b < q.buttons.len()
            && binding::bindable(
            (#[trigger] p.buttons[b]).action_type,
            p.buttons[b].mapping_value,
        ) implies loaded.buttons[b].action_type == p.buttons[b].action_type
        && loaded.buttons[b].mapping_value == p.buttons[b].mapping_value by {
        binding::binding_keeps_action(p.buttons[b].action_type, p.buttons[b].mapping_value);
        binding::binding_keeps_mapping(p.buttons[b].action_type, p.buttons[b].mapping_value);
    }
}

pub(crate) proof fn lemma_interval_keeps_rate(rate: u32)
    requires
        4 <= rate <= 1000,
        1000int % rate as int == 0,
    ensures
        1 <= driver::interval_of_rate(rate),
        1000int / (driver::interval_of_rate(rate) as int) == rate,
{
    let r = rate as int;
    let q = 1000int / r;
    assert(1 <= q <= 250 && q * r == 1000) by (nonlinear_arith)
        requires
            4 <= r <= 1000,
            q == 1000int / r,
            1000int % r == 0,
    ;
    assert(1000int / q == r) by (nonlinear_arith)
        requires
            q * r == 1000,
            1 <= q,
    ;
}

proof fn lemma_patched_fills(base: Seq<u8>, button_count: int, p: ProfileModel)
    requires
        0 <= button_count,
        base.len() >= eeprom::EEPROM_PROFILE_MIN_LEN,
    ensures
        patched(EepromModel::read(base, button_count), p).fills(button_count),
{
    let e = EepromModel::read(base, button_count);
    lemma_stored_buttons_shape(e.buttons, p.buttons);
    lemma_stored_leds_shape(e.leds, p.leds);
}

proof fn lemma_stored_buttons_shape(slots: Seq<Seq<u8>>, buttons: Seq<ButtonModel>)
    requires
        forall|b: int| 0 <= b < slots.len() ==> (#[trigger] slots[b]).len() == 4,
    ensures
        stored_buttons(slots, buttons).len() == slots.len(),
        forall|b: int|
            0 <= b < slots.len() ==> (#[trigger] stored_buttons(slots, buttons)[b]).len() == 4,
    decreases buttons.len(),
{
    if buttons.len() > 0 {
        lemma_stored_buttons_shape(slots, buttons.drop_last());
    }
}

proof fn lemma_stored_leds_shape(slots: Seq<Seq<u8>>, leds: Seq<LedModel>)
    requires
        forall|l: int| 0 <= l < slots.len() ==> (#[trigger] slots[l]).len() == 11,
    ensures
        stored_leds(slots, leds).len() == slots.len(),
        forall|l: int|
            0 <= l < slots.len() ==> (#[trigger] stored_leds(slots, leds)[l]).len() == 11,
    decreases leds.len(),
{
    if leds.len() > 0 {
        lemma_stored_leds_shape(slots, leds.drop_last());
    }
}

/// How many profiles a directory of `size` bytes can list.
pub open spec fn directory_room(size: int) -> int {
    (size - 2) / 4
}

/// The byte at position `i` of the directory, before its checksum is put in.
pub open spec fn directory_byte(profiles: Seq<ProfileModel>, size: int, i: int) -> u8 {
    let listed = if profiles.len() < directory_room(size) {
        profiles.len() as int
    } else {
        directory_room(size)
    };
    let k = i / 4;
    if k < listed {
        if i % 4 == 1 {
            (profiles[k].index + 1) as u8
        } else if i % 4 == 2 {
            if profiles[k].is_enabled {
                1
            } else {
                0
            }
        } else {
            0
        }
    } else if k == listed && k < directory_room(size) && i % 4 >= 2 {
        0
    } else {
        0xFF
    }
}

/// The directory of the profiles: four bytes for each, then an end mark.
pub open spec fn directory_sector(profiles: Seq<ProfileModel>, size: int) -> Seq<u8> {
    eeprom::sealed(Seq::new(size as nat, |i: int| directory_byte(profiles, size, i)))
}

/// Builds the directory of the profiles.
pub fn build_directory(info: &DeviceInfo, size: usize) -> (r: Vec<u8>)
    requires
        size >= 2,
        forall|i: int| 0 <= i < info@.profiles.len() ==> (#[trigger] info@.profiles[i]).index
            < u32::MAX,
    ensures
        r@ == directory_sector(info@.profiles, size as int),
{
    let ghost target = Seq::new(
        size as nat,
        |i: int| directory_byte(info@.profiles, size as int, i),
    );
    let mut dir: Vec<u8> = bytes::fill(size, 0xFF);
    let room: usize = (size - 2) / 4;
    let mut k: usize = 0;
    while k < info.profiles.len() && k < room
        invariant
            k <= info.profiles@.len(),
            k <= room,
            room == (size - 2) / 4,
            size >= 2,
            dir@.len() == size,
            target == Seq::new(
                size as nat,
                |i: int| directory_byte(info@.profiles, size as int, i),
            ),
            forall|i: int| 0 <= i < info@.profiles.len() ==> (#[trigger] info@.profiles[i]).index
                < u32::MAX,
            forall|i: int| 0 <= i < 4 * k ==> dir@[i] == #[trigger] target[i],
            forall|i: int| 4 * k <= i < size ==> dir@[i] == 0xFF,
        decreases info.profiles@.len() - k,
    {
        assert(info@.profiles[k as int] == info.profiles@[k as int]@);
        let pos: usize = 4 * k;
        dir[pos] = 0;
        dir[pos + 1] = (info.profiles[k].index + 1) as u8;
        dir[pos + 2] = if info.profiles[k].is_enabled {
            1
        } else {
            0
        };
        dir[pos + 3] = 0;
        k += 1;
    }
    if k < room {
        let pos: usize = 4 * k;
        dir[pos] = 0xFF;
        dir[pos + 1] = 0xFF;
        dir[pos + 2] = 0;
        dir[pos + 3] = 0;
    }
    assert(dir@ =~= target);
    eeprom::seal_sector(&mut dir);
    dir
}

/// The directory that a commit writes is the one that a load reads: it passes
/// its check, and every listed profile is found at the sector after its index,
/// enabled as it was. Indices from 255 on do not fit an entry.
pub proof fn directory_reads_back(profiles: Seq<ProfileModel>, size: int, i: int)
    requires
        0 <= i < profiles.len() <= directory_room(size),
        forall|k: int| 0 <= k < profiles.len() ==> (#[trigger] profiles[k]).index < 255,
    ensures
        ({
            let d = directory_sector(profiles, size);
            &&& eeprom::stored_crc(d) == eeprom::body_crc(d)
            &&& apply::directory_addresses(d, profiles.len())[i] == profiles[i].index + 1
            &&& apply::directory_enabled(d, profiles.len())[i] == profiles[i].is_enabled
        }),
{
    let raw = Seq::new(size as nat, |j: int| directory_byte(profiles, size, j));
    let d = directory_sector(profiles, size);
    eeprom::sealed_sector_is_valid(raw);
    assert forall|j: int| 0 <= j <= i implies #[trigger] apply::directory_entry(d, j)
        == profiles[j].index + 1 by {
        assert(d[4 * j] == raw[4 * j]);
        assert(d[4 * j + 1] == raw[4 * j + 1]);
    }
    assert(apply::in_directory(d, i));
    assert(d[4 * i + 2] == raw[4 * i + 2]);
}

/// How far a commit has come: what it waits for.
#[derive(Debug)]
pub enum CommitPhase {
    /// The settings of a profile, written live.
    Live(usize),
    /// The switch to host mode, without which the memory cannot be written.
    HostMode,
    /// The sector of a profile as it is.
    Read(usize),
    /// The sector of a profile as it is to be.
    Write(usize),
    /// The directory of the profiles.
    Directory,
    /// The switch back to onboard mode.
    OnboardMode,
    /// The switch to the active profile.
    SetProfile(usize),
    /// The switch to the active resolution, by the places of its profile and of
    /// itself.
    SetDpi(usize, usize),
    /// Nothing: the commit is complete.
    Finished,
    /// Nothing: the commit has failed.
    Failed(HidppDriverError),
}

/// What a commit wants done.
#[derive(Debug)]
pub enum CommitAction {
    /// Write the settings of the profile at this place live.
    WriteLive(usize),
    Ask(FeatureRequest),
    ReadSector { feature: u8, sector: u16, size: u16 },
    WriteSector { feature: u8, sector: u16, data: Vec<u8> },
    Stop,
}

/// The contents of a [`CommitAction`].
pub enum CommitActionModel {
    WriteLive(usize),
    Ask(RequestModel),
    ReadSector { feature: u8, sector: u16, size: u16 },
    WriteSector { feature: u8, sector: u16, data: Seq<u8> },
    Stop,
}

impl View for CommitAction {
    type V = CommitActionModel;

    open spec fn view(&self) -> CommitActionModel {
        match self {
            CommitAction::WriteLive(i) => CommitActionModel::WriteLive(*i),
            CommitAction::Ask(r) => CommitActionModel::Ask(r@),
            CommitAction::ReadSector { feature, sector, size } => CommitActionModel::ReadSector {
                feature: *feature,
                sector: *sector,
                size: *size,
            },
            CommitAction::WriteSector { feature, sector, data } => CommitActionModel::WriteSector {
                feature: *feature,
                sector: *sector,
                data: data@,
            },
            CommitAction::Stop => CommitActionModel::Stop,
        }
    }
}

/// A commit under way.
#[derive(Debug)]
pub struct ProfileCommit {
    pub phase: CommitPhase,
    /// Whether every sector is rewritten from scratch.
    pub force_repair: bool,
    pub any_written: bool,
    pub last_error: Option<HidppDriverError>,
    /// The sector to be written.
    pub data: Vec<u8>,
}

/// The contents of a [`ProfileCommit`].
#[verifier::ext_equal]
pub struct CommitModel {
    pub phase: CommitPhase,
    pub force_repair: bool,
    pub any_written: bool,
    pub last_error: Option<HidppDriverError>,
    pub data: Seq<u8>,
}

impl View for ProfileCommit {
    type V = CommitModel;

    open spec fn view(&self) -> CommitModel {
        CommitModel {
            phase: self.phase,
            force_repair: self.force_repair,
            any_written: self.any_written,
            last_error: self.last_error,
            data: self.data@,
        }
    }
}

/// A commit together with its driver and device.
#[verifier::ext_equal]
pub struct Committing {
    pub commit: CommitModel,
    pub driver: DriverModel,
    pub info: DeviceModel,
}

/// The sector of a profile: the one after its index.
pub open spec fn sector_of(p: ProfileModel) -> u16 {
    (p.index + 1) as u16
}

impl Committing {
    pub open spec fn at(self, phase: CommitPhase) -> Committing {
        Committing { commit: CommitModel { phase, ..self.commit }, ..self }
    }

    pub open spec fn feature(self) -> u8 {
        self.driver.features.onboard_profiles->0
    }

    pub open spec fn size(self) -> u16 {
        self.driver.onboard->0.sector_size
    }

    pub open spec fn repairing(self, repair: bool) -> Committing {
        Committing { driver: DriverModel { needs_eeprom_repair: repair, ..self.driver }, ..self }
    }

    pub open spec fn with_error(self, e: HidppDriverError) -> Committing {
        Committing { commit: CommitModel { last_error: Some(e), ..self.commit }, ..self }
    }

    /// The settings of the first active profile are written live, if there is
    /// one.
    pub open spec fn live(self) -> Committing {
        if exists|i: int| apply::is_first_active(self.info.profiles, i) {
            self.at(
                CommitPhase::Live(
                    (choose|i: int| apply::is_first_active(self.info.profiles, i)) as usize,
                ),
            )
        } else {
            self.at(CommitPhase::Finished)
        }
    }

    /// The sector of profile `i` is made from `base` and written; a sector that
    /// is too short is passed over.
    pub open spec fn prepared(self, i: int, base: Seq<u8>) -> Committing {
        Committing {
            commit: CommitModel {
                data: profile_sector(
                    base,
                    self.driver.onboard->0.button_count as int,
                    self.info.profiles[i],
                ),
                ..self.commit
            },
            ..self
        }.at(CommitPhase::Write(i as usize))
    }

    pub open spec fn underflow(self, len: nat) -> Committing {
        self.with_error(
            HidppDriverError::BufferUnderflow {
                expected: eeprom::EEPROM_PROFILE_MIN_LEN,
                received: len as usize,
            },
        )
    }

    /// The first profile from `i` on that is to be written comes next. A repair
    /// makes each sector from scratch; otherwise its present contents are read.
    pub open spec fn at_profile(self, i: int) -> Committing
        decreases self.info.profiles.len() - i,
    {
        if i < 0 || i >= self.info.profiles.len() {
            if self.commit.any_written {
                self.at(CommitPhase::Directory)
            } else {
                self.at(CommitPhase::OnboardMode)
            }
        } else if !self.info.profiles[i].is_dirty && !self.commit.force_repair {
            self.at_profile(i + 1)
        } else if !self.commit.force_repair {
            self.at(CommitPhase::Read(i as usize))
        } else if self.size() < eeprom::EEPROM_PROFILE_MIN_LEN {
            self.underflow(self.size() as nat).at_profile(i + 1)
        } else {
            self.prepared(i, bytes::filled(self.size() as nat, 0xFF))
        }
    }

    /// The end of the onboard writes: a failure is reported and leaves the
    /// memory to be repaired; otherwise the active profile is selected.
    pub open spec fn concluded(self) -> Committing {
        match self.commit.last_error {
            Some(e) => Committing {
                commit: CommitModel { last_error: None, ..self.commit },
                ..self
            }.repairing(true).at(CommitPhase::Failed(e)),
            None => {
                let s = self.repairing(false);
                if exists|i: int| apply::is_first_active(self.info.profiles, i) {
                    s.at(
                        CommitPhase::SetProfile(
                            (choose|i: int| apply::is_first_active(self.info.profiles, i)) as usize,
                        ),
                    )
                } else {
                    s.at(CommitPhase::Finished)
                }
            },
        }
    }

    /// After the active profile, its active resolution is selected.
    pub open spec fn at_resolution(self, i: int) -> Committing {
        let rs = self.info.profiles[i].resolutions;
        if exists|k: int| driver::is_first_active_resolution(rs, k) {
            self.at(
                CommitPhase::SetDpi(
                    i as usize,
                    (choose|k: int| driver::is_first_active_resolution(rs, k)) as usize,
                ),
            )
        } else {
            self.at(CommitPhase::Finished)
        }
    }

    /// What is wanted in the present phase.
    pub open spec fn action(self) -> CommitActionModel {
        match self.commit.phase {
            CommitPhase::Live(i) => CommitActionModel::WriteLive(i),
            CommitPhase::HostMode => CommitActionModel::Ask(
                RequestModel::long(self.feature(), PROFILES_FN_SET_MODE, seq![ONBOARD_MODE_HOST]),
            ),
            CommitPhase::Read(i) => CommitActionModel::ReadSector {
                feature: self.feature(),
                sector: sector_of(self.info.profiles[i as int]),
                size: self.size(),
            },
            CommitPhase::Write(i) => CommitActionModel::WriteSector {
                feature: self.feature(),
                sector: sector_of(self.info.profiles[i as int]),
                data: self.commit.data,
            },
            CommitPhase::Directory => CommitActionModel::WriteSector {
                feature: self.feature(),
                sector: 0x0000,
                data: directory_sector(self.info.profiles, self.size() as int),
            },
            CommitPhase::OnboardMode => CommitActionModel::Ask(
                RequestModel::long(
                    self.feature(),
                    PROFILES_FN_SET_MODE,
                    seq![ONBOARD_MODE_ONBOARD],
                ),
            ),
            CommitPhase::SetProfile(i) => CommitActionModel::Ask(
                RequestModel::brief(
                    self.feature(),
                    PROFILES_FN_SET_CURRENT_PROFILE,
                    seq![0u8, (self.info.profiles[i as int].index + 1) as u8],
                ),
            ),
            CommitPhase::SetDpi(i, k) => CommitActionModel::Ask(
                RequestModel::brief(
                    self.feature(),
                    PROFILES_FN_SET_CURRENT_DPI_INDEX,
                    seq![self.info.profiles[i as int].resolutions[k as int].index as u8],
                ),
            ),
            CommitPhase::Finished => CommitActionModel::Stop,
            CommitPhase::Failed(_) => CommitActionModel::Stop,
        }
    }

    /// The state after a request, a write or a live write was done, or failed.
    pub open spec fn after(self, result: Result<(), HidppDriverError>) -> Committing {
        match self.commit.phase {
            CommitPhase::Live(_) => match result {
                Ok(_) => self.at(CommitPhase::Finished),
                Err(e) => self.at(CommitPhase::Failed(e)),
            },
            CommitPhase::HostMode => self.at_profile(0),
            CommitPhase::Write(i) => match result {
                Ok(_) => Committing {
                    commit: CommitModel { any_written: true, ..self.commit },
                    ..self
                }.at_profile(i + 1),
                Err(e) => self.with_error(e).at_profile(i + 1),
            },
            CommitPhase::Directory => match result {
                Ok(_) => self.at(CommitPhase::OnboardMode),
                Err(e) => self.with_error(e).at(CommitPhase::OnboardMode),
            },
            CommitPhase::OnboardMode => self.concluded(),
            CommitPhase::SetProfile(i) => self.at_resolution(i as int),
            CommitPhase::SetDpi(_, _) => self.at(CommitPhase::Finished),
            _ => self,
        }
    }

    /// The state after the sector of a profile was read; one that cannot be
    /// read is made from scratch.
    pub open spec fn after_sector(self, data: Result<Vec<u8>, HidppDriverError>) -> Committing {
        match self.commit.phase {
            CommitPhase::Read(i) => {
                let base = match data {
                    Ok(d) => extended(d@, self.size() as nat),
                    Err(_) => bytes::filled(self.size() as nat, 0xFF),
                };
                if base.len() < eeprom::EEPROM_PROFILE_MIN_LEN {
                    self.underflow(base.len()).at_profile(i + 1)
                } else {
                    self.prepared(i as int, base)
                }
            },
            _ => self,
        }
    }

    /// Whether the commit, the driver and the device fit together.
    pub open spec fn consistent(self) -> bool {
        let n = self.info.profiles.len();
        match self.commit.phase {
            CommitPhase::Live(i) => i < n,
            CommitPhase::HostMode => self.writing(),
            CommitPhase::Read(i) => self.writing() && i < n && storable(
                self.info.profiles[i as int],
            ),
            CommitPhase::Write(i) => self.writing() && i < n && self.size()
                >= eeprom::EEPROM_PROFILE_MIN_LEN,
            CommitPhase::Directory => self.writing() && self.commit.any_written,
            CommitPhase::OnboardMode => self.writing(),
            CommitPhase::SetProfile(i) => self.writing() && i < n,
            CommitPhase::SetDpi(i, k) => self.writing() && i < n && k
                < self.info.profiles[i as int].resolutions.len(),
            CommitPhase::Finished => true,
            CommitPhase::Failed(_) => true,
        }
    }

    pub open spec fn writing(self) -> bool {
        &&& self.driver.features.onboard_profiles is Some
        &&& self.driver.onboard is Some
        &&& self.size() > 0
        &&& self.commit.any_written ==> self.size() >= eeprom::EEPROM_PROFILE_MIN_LEN
        &&& committable(self.info, self.commit.force_repair)
    }
}

/// Whether the indices of the profiles leave room for a sector number, and the
/// LEDs of the profiles to be written can be stored.
pub open spec fn committable(info: DeviceModel, repair: bool) -> bool {
    forall|i: int|
        0 <= i < info.profiles.len() ==> (#[trigger] info.profiles[i]).index < u32::MAX && (
        info.profiles[i].is_dirty || repair ==> storable(info.profiles[i]))
}

/// Whether the profiles are written to memory, and not live.
pub open spec fn writes_memory(d: DriverModel) -> bool {
    d.features.onboard_profiles is Some && d.onboard is Some && d.onboard->0.sector_size > 0
}

/// The state of a commit, its driver and its device.
pub open spec fn committing(c: ProfileCommit, d: Hidpp20Driver, i: DeviceInfo) -> Committing {
    Committing { commit: c@, driver: d@, info: i@ }
}

impl ProfileCommit {
    /// Begins to write the profiles of a device.
    pub fn begin(driver: &mut Hidpp20Driver, info: &DeviceInfo) -> (r: Self)
        requires
            writes_memory(old(driver)@) ==> committable(info@, old(driver)@.needs_eeprom_repair),
        ensures
            committing(r, *final(driver), *info).consistent(),
            ({
                let d = old(driver)@;
                let fresh = Committing {
                    commit: CommitModel {
                        phase: CommitPhase::Finished,
                        force_repair: d.needs_eeprom_repair,
                        any_written: false,
                        last_error: None,
                        data: Seq::empty(),
                    },
                    driver: d,
                    info: info@,
                };
                committing(r, *final(driver), *info) == (if d.features.onboard_profiles is None {
                    fresh.live()
                } else if d.onboard is None {
                    fresh
                } else if d.onboard->0.sector_size == 0 {
                    fresh.repairing(false).live()
                } else {
                    fresh.at(CommitPhase::HostMode)
                })
            }),
    {
        let mut r = ProfileCommit {
            phase: CommitPhase::Finished,
            force_repair: driver.needs_eeprom_repair,
            any_written: false,
            last_error: None,
            data: Vec::new(),
        };
        if driver.features.onboard_profiles.is_none() {
            r.enter_live(driver, info);
            return r;
        }
        match driver.cached_onboard_info {
            None => {},
            Some(d) => {
                if d.sector_size() == 0 {
                    driver.needs_eeprom_repair = false;
                    r.enter_live(driver, info);
                } else {
                    r.phase = CommitPhase::HostMode;
                }
            },
        }
        r
    }

    fn enter_live(&mut self, driver: &Hidpp20Driver, info: &DeviceInfo)
        ensures
            committing(*final(self), *driver, *info) == committing(
                *old(self),
                *driver,
                *info,
            ).live(),
            committing(*final(self), *driver, *info).consistent(),
    {
        match apply::find_active_profile(info) {
            Some(at) => {
                proof {
                    let k = choose|k: int| apply::is_first_active(info@.profiles, k);
                    assert(apply::is_first_active(info@.profiles, at as int));
                    assert(k == at);
                }
                self.phase = CommitPhase::Live(at);
            },
            None => {
                self.phase = CommitPhase::Finished;
            },
        }
    }

    fn prepare(&mut self, driver: &Hidpp20Driver, info: &DeviceInfo, i: usize, base: Vec<u8>) -> (ok:
        bool)
        requires
            committing(*old(self), *driver, *info).writing(),
            i < info@.profiles.len(),
            storable(info@.profiles[i as int]),
            base@.len() == driver@.onboard->0.sector_size,
        ensures
            ok == (base@.len() >= eeprom::EEPROM_PROFILE_MIN_LEN),
            ok ==> committing(*final(self), *driver, *info) == committing(
                *old(self),
                *driver,
                *info,
            ).prepared(i as int, base@),
            !ok ==> committing(*final(self), *driver, *info) == committing(
                *old(self),
                *driver,
                *info,
            ).underflow(base@.len()),
            committing(*final(self), *driver, *info).writing(),
    {
        let button_count: u8 = match driver.cached_onboard_info {
            Some(d) => d.button_count,
            None => 0,
        };
        assert(info@.profiles[i as int] == info.profiles@[i as int]@);
        match build_profile_sector(base, button_count, &info.profiles[i]) {
            Ok(data) => {
                self.data = data;
                self.phase = CommitPhase::Write(i);
                true
            },
            Err(e) => {
                self.last_error = Some(e);
                false
            },
        }
    }

    fn enter_profile(&mut self, driver: &Hidpp20Driver, info: &DeviceInfo, start: usize)
        requires
            committing(*old(self), *driver, *info).writing(),
            start <= info@.profiles.len(),
        ensures
            committing(*final(self), *driver, *info) == committing(
                *old(self),
                *driver,
                *info,
            ).at_profile(start as int),
            committing(*final(self), *driver, *info).consistent(),
    {
        let size: u16 = match driver.cached_onboard_info {
            Some(d) => d.sector_size(),
            None => 0,
        };
        let mut i: usize = start;
        while i < info.profiles.len()
            invariant
                i <= info.profiles@.len(),
                size == driver@.onboard->0.sector_size,
                committing(*self, *driver, *info).writing(),
                committing(*self, *driver, *info).at_profile(i as int) == committing(
                    *old(self),
                    *driver,
                    *info,
                ).at_profile(start as int),
            decreases info.profiles@.len() - i,
        {
            assert(info@.profiles[i as int] == info.profiles@[i as int]@);
            if info.profiles[i].is_dirty || self.force_repair {
                if !self.force_repair {
                    self.phase = CommitPhase::Read(i);
                    return ;
                }
                let base: Vec<u8> = bytes::fill(size as usize, 0xFF);
                if self.prepare(driver, info, i, base) {
                    return ;
                }
            }
            i += 1;
        }
        if self.any_written {
            self.phase = CommitPhase::Directory;
        } else {
            self.phase = CommitPhase::OnboardMode;
        }
    }

    /// What is wanted in the present phase.
    pub fn action(&self, driver: &Hidpp20Driver, info: &DeviceInfo) -> (r: CommitAction)
        requires
            committing(*self, *driver, *info).consistent(),
        ensures
            r@ == committing(*self, *driver, *info).action(),
    {
        let feature: u8 = match driver.features.onboard_profiles {
            Some(f) => f,
            None => 0,
        };
        let size: u16 = match driver.cached_onboard_info {
            Some(d) => d.sector_size(),
            None => 0,
        };
        match self.phase {
            CommitPhase::Live(i) => CommitAction::WriteLive(i),
            CommitPhase::HostMode => {
                let mode: Vec<u8> = vec![ONBOARD_MODE_HOST];
                assert(mode@ =~= seq![ONBOARD_MODE_HOST]);
                CommitAction::Ask(FeatureRequest::long(feature, PROFILES_FN_SET_MODE, mode))
            },
            CommitPhase::Read(i) => {
                assert(info@.profiles[i as int] == info.profiles@[i as int]@);
                CommitAction::ReadSector {
                    feature,
                    sector: (info.profiles[i].index + 1) as u16,
                    size,
                }
            },
            CommitPhase::Write(i) => {
                assert(info@.profiles[i as int] == info.profiles@[i as int]@);
                let data: Vec<u8> = bytes::slice(self.data.as_slice(), 0, self.data.len());
                assert(data@ =~= self.data@);
                CommitAction::WriteSector {
                    feature,
                    sector: (info.profiles[i].index + 1) as u16,
                    data,
                }
            },
            CommitPhase::Directory => CommitAction::WriteSector {
                feature,
                sector: 0x0000,
                data: build_directory(info, size as usize),
            },
            CommitPhase::OnboardMode => {
                let mode: Vec<u8> = vec![ONBOARD_MODE_ONBOARD];
                assert(mode@ =~= seq![ONBOARD_MODE_ONBOARD]);
                CommitAction::Ask(FeatureRequest::long(feature, PROFILES_FN_SET_MODE, mode))
            },
            CommitPhase::SetProfile(i) => {
                assert(info@.profiles[i as int] == info.profiles@[i as int]@);
                let params: Vec<u8> = vec![0, (info.profiles[i].index + 1) as u8];
                assert(params@ =~= seq![0u8, (info@.profiles[i as int].index + 1) as u8]);
                CommitAction::Ask(
                    FeatureRequest::brief(feature, PROFILES_FN_SET_CURRENT_PROFILE, params),
                )
            },
            CommitPhase::SetDpi(i, k) => {
                assert(info@.profiles[i as int] == info.profiles@[i as int]@);
                assert(info@.profiles[i as int].resolutions[k as int]
                    == info.profiles@[i as int].resolutions@[k as int]@);
                let params: Vec<u8> = vec![info.profiles[i].resolutions[k].index as u8];
                assert(params@ =~= seq![
                    info@.profiles[i as int].resolutions[k as int].index as u8,
                ]);
                CommitAction::Ask(
                    FeatureRequest::brief(feature, PROFILES_FN_SET_CURRENT_DPI_INDEX, params),
                )
            },
            CommitPhase::Finished => CommitAction::Stop,
            CommitPhase::Failed(_) => CommitAction::Stop,
        }
    }

    /// Takes in that what was wanted was done, or failed.
    pub fn done(
        &mut self,
        driver: &mut Hidpp20Driver,
        info: &DeviceInfo,
        result: Result<(), HidppDriverError>,
    )
        requires
            committing(*old(self), *old(driver), *info).consistent(),
        ensures
            committing(*final(self), *final(driver), *info).consistent(),
            committing(*final(self), *final(driver), *info) == committing(
                *old(self),
                *old(driver),
                *info,
            ).after(result),
    {
        assert(info@.profiles.len() == info.profiles.len());
        match self.phase {
            CommitPhase::Live(_) => match result {
                Ok(_) => {
                    self.phase = CommitPhase::Finished;
                },
                Err(e) => {
                    self.phase = CommitPhase::Failed(e);
                },
            },
            CommitPhase::HostMode => self.enter_profile(driver, info, 0),
            CommitPhase::Write(i) => {
                match result {
                    Ok(_) => {
                        self.any_written = true;
                    },
                    Err(e) => {
                        self.last_error = Some(e);
                    },
                }
                self.enter_profile(driver, info, i + 1);
            },
            CommitPhase::Directory => {
                match result {
                    Ok(_) => {},
                    Err(e) => {
                        self.last_error = Some(e);
                    },
                }
                self.phase = CommitPhase::OnboardMode;
            },
            CommitPhase::OnboardMode => match self.last_error.take() {
                Some(e) => {
                    driver.needs_eeprom_repair = true;
                    self.phase = CommitPhase::Failed(e);
                },
                None => {
                    driver.needs_eeprom_repair = false;
                    match apply::find_active_profile(info) {
                        Some(at) => {
                            proof {
                                let k = choose|k: int| apply::is_first_active(info@.profiles, k);
                                assert(apply::is_first_active(info@.profiles, at as int));
                                assert(k == at);
                            }
                            self.phase = CommitPhase::SetProfile(at);
                        },
                        None => {
                            self.phase = CommitPhase::Finished;
                        },
                    }
                },
            },
            CommitPhase::SetProfile(i) => {
                assert(info@.profiles[i as int] == info.profiles@[i as int]@);
                match driver::find_active_resolution(&info.profiles[i]) {
                    Some(k) => {
                        proof {
                            let rs = info@.profiles[i as int].resolutions;
                            let j = choose|j: int| driver::is_first_active_resolution(rs, j);
                            assert(driver::is_first_active_resolution(rs, k as int));
                            assert(j == k);
                        }
                        self.phase = CommitPhase::SetDpi(i, k);
                    },
                    None => {
                        self.phase = CommitPhase::Finished;
                    },
                }
            },
            CommitPhase::SetDpi(_, _) => {
                self.phase = CommitPhase::Finished;
            },
            _ => {},
        }
    }

    /// Takes in the sector that was wanted, or the failure to read it. What was
    /// read is no longer than a sector.
    pub fn sector_read(
        &mut self,
        driver: &Hidpp20Driver,
        info: &DeviceInfo,
        data: Result<Vec<u8>, HidppDriverError>,
    )
        requires
            committing(*old(self), *driver, *info).consistent(),
            data is Ok && driver@.onboard is Some ==> data->Ok_0@.len()
                <= driver@.onboard->0.sector_size,
        ensures
            committing(*final(self), *driver, *info).consistent(),
            committing(*final(self), *driver, *info) == committing(
                *old(self),
                *driver,
                *info,
            ).after_sector(data),
    {
        assert(info@.profiles.len() == info.profiles.len());
        match self.phase {
            CommitPhase::Read(i) => {
                let size: usize = match driver.cached_onboard_info {
                    Some(d) => d.sector_size() as usize,
                    None => 0,
                };
                let base: Vec<u8> = match data {
                    Ok(d) => {
                        let mut base: Vec<u8> = d;
                        if base.len() < size {
                            let rest: Vec<u8> = bytes::fill(size - base.len(), 0xFF);
                            bytes::extend(&mut base, rest.as_slice());
                        }
                        assert(base@ =~= extended(d@, size as nat));
                        base
                    },
                    Err(_) => bytes::fill(size, 0xFF),
                };
                let ok: bool = self.prepare(driver, info, i, base);
                if !ok {
                    self.enter_profile(driver, info, i + 1);
                }
            },
            _ => {},
        }
    }
}

/// Where a phase stands in the order of a commit.
pub open spec fn commit_stage(phase: CommitPhase) -> int {
    match phase {
        CommitPhase::HostMode => 0,
        CommitPhase::Read(_) => 1,
        CommitPhase::Write(_) => 1,
        CommitPhase::Directory => 2,
        CommitPhase::OnboardMode => 3,
        CommitPhase::SetProfile(_) => 4,
        CommitPhase::SetDpi(_, _) => 5,
        CommitPhase::Live(_) => 5,
        CommitPhase::Finished => 6,
        CommitPhase::Failed(_) => 6,
    }
}

/// Where a phase stands among those that read and write sectors.
pub open spec fn sector_step(phase: CommitPhase) -> int {
    match phase {
        CommitPhase::Read(i) => 2 * i,
        CommitPhase::Write(i) => 2 * i + 1,
        _ => 0,
    }
}

/// Whether a phase comes after another.
pub open spec fn comes_after(q: CommitPhase, p: CommitPhase) -> bool {
    commit_stage(q) > commit_stage(p) || (commit_stage(q) == commit_stage(p) && sector_step(q)
        > sector_step(p))
}

impl Committing {
    /// Whether a profile whose sector is read or written has changed, unless
    /// the memory is repaired.
    pub open spec fn spares_unchanged(self) -> bool {
        self.commit.force_repair || match self.commit.phase {
            CommitPhase::Read(i) => self.info.profiles[i as int].is_dirty,
            CommitPhase::Write(i) => self.info.profiles[i as int].is_dirty,
            _ => true,
        }
    }
}

proof fn lemma_at_profile(s: Committing, i: int)
    requires
        0 <= i,
        s.info.profiles.len() <= usize::MAX,
    ensures
        ({
            let t = s.at_profile(i);
            &&& t.info == s.info
            &&& t.driver == s.driver
            &&& t.commit.force_repair == s.commit.force_repair
            &&& t.spares_unchanged()
            &&& match t.commit.phase {
                CommitPhase::Read(j) => j >= i,
                CommitPhase::Write(j) => j >= i,
                CommitPhase::Directory => true,
                CommitPhase::OnboardMode => true,
                _ => false,
            }
        }),
    decreases s.info.profiles.len() - i,
{
    if i < s.info.profiles.len() {
        if !s.info.profiles[i].is_dirty && !s.commit.force_repair {
            lemma_at_profile(s, i + 1);
        } else if s.commit.force_repair && s.size() < eeprom::EEPROM_PROFILE_MIN_LEN {
            lemma_at_profile(s.underflow(s.size() as nat), i + 1);
        }
    }
}

/// Each thing done brings a commit nearer to its end.
pub proof fn committing_makes_progress(s: Committing, result: Result<(), HidppDriverError>)
    requires
        s.consistent(),
        s.info.profiles.len() <= usize::MAX,
        !(s.action() is Stop),
        !(s.action() is ReadSector),
    ensures
        comes_after(s.after(result).commit.phase, s.commit.phase),
{
    match s.commit.phase {
        CommitPhase::HostMode => {
            lemma_at_profile(s, 0);
        },
        CommitPhase::Write(i) => match result {
            Ok(_) => {
                let t = Committing {
                    commit: CommitModel { any_written: true, ..s.commit },
                    ..s
                };
                lemma_at_profile(t, i + 1);
            },
            Err(e) => {
                lemma_at_profile(s.with_error(e), i + 1);
            },
        },
        _ => {},
    }
}

/// Each sector read brings a commit nearer to its end.
pub proof fn reading_a_sector_makes_progress(s: Committing, data: Result<Vec<u8>, HidppDriverError>)
    requires
        s.consistent(),
        s.info.profiles.len() <= usize::MAX,
        s.action() is ReadSector,
    ensures
        comes_after(s.after_sector(data).commit.phase, s.commit.phase),
{
    if let CommitPhase::Read(i) = s.commit.phase {
        let base = match data {
            Ok(d) => extended(d@, s.size() as nat),
            Err(_) => bytes::filled(s.size() as nat, 0xFF),
        };
        lemma_at_profile(s.underflow(base.len()), i + 1);
    }
}

/// A commit reads and writes the sectors of changed profiles only, unless it
/// repairs the memory.
pub proof fn unchanged_profiles_are_spared(
    s: Committing,
    result: Result<(), HidppDriverError>,
    data: Result<Vec<u8>, HidppDriverError>,
)
    requires
        s.consistent(),
        s.info.profiles.len() <= usize::MAX,
        s.spares_unchanged(),
    ensures
        s.after(result).spares_unchanged(),
        s.after_sector(data).spares_unchanged(),
{
    match s.commit.phase {
        CommitPhase::HostMode => {
            lemma_at_profile(s, 0);
        },
        CommitPhase::Write(i) => match result {
            Ok(_) => {
                let t = Committing {
                    commit: CommitModel { any_written: true, ..s.commit },
                    ..s
                };
                lemma_at_profile(t, i + 1);
            },
            Err(e) => {
                lemma_at_profile(s.with_error(e), i + 1);
            },
        },
        CommitPhase::Read(i) => {
            let base = match data {
                Ok(d) => extended(d@, s.size() as nat),
                Err(_) => bytes::filled(s.size() as nat, 0xFF),
            };
            lemma_at_profile(s.underflow(base.len()), i + 1);
        },
        _ => {},
    }
}

/// A commit whose onboard writes fail anywhere ends in that failure and leaves
/// the memory to be repaired by the next one; one whose writes succeed leaves
/// nothing to repair.
pub proof fn failed_commit_is_repaired_later(s: Committing, result: Result<(), HidppDriverError>)
    requires
        s.commit.phase is OnboardMode,
    ensures
        s.commit.last_error is Some <==> s.after(result).commit.phase is Failed,
        s.commit.last_error is Some <==> s.after(result).driver.needs_eeprom_repair,
{
}

} // verus!
