//! What a driver knows of its device, and how the device database configures
//! it.

use crate::engine::device;
use crate::engine::device::{
    DeviceInfo, DeviceModel, LedInfo, LedMode, LedModel, ProfileInfo, ProfileModel,
};
use crate::engine::device_database::{DriverConfig, DriverConfigModel};
use crate::hal::asus::settings;
use crate::hal::asus::settings::{
    ASUS_QUIRK_BUTTONS_SECONDARY, debounce_time_list, parse_led_mode_str, parse_quirks,
    polling_rate_list,
};
use crate::hal::asus::table;
use crate::hal::asus::table::button_code_list;
use vstd::prelude::*;

verus! {

/// Driver of Asus ROG mice.
#[derive(Debug, Clone, Copy)]
pub struct AsusDriver {
    /// Whether the last exchange with the device succeeded.
    pub is_ready: bool,
    /// The code of each button slot: the first group at 0 to 16, the second at
    /// 17 to 33. `None` for a slot that is not used.
    pub button_mapping: [Option<u8>; 34],
    /// The slot of each button. `None` for a button that has none.
    pub button_indices: [Option<usize>; 34],
    /// The LED mode that each mode number of the device stands for.
    pub led_modes: [LedMode; 7],
    /// The quirks of the device.
    pub quirks: u32,
}

/// The codes of the button slots that a device has if nothing else is known.
pub open spec fn default_codes() -> Seq<u8> {
    seq![0xf0u8, 0xf1, 0xf2, 0xe4, 0xe5, 0xe6, 0xe8, 0xe9]
}

/// The LED modes that a device has if nothing else is known.
pub open spec fn default_led_modes() -> Seq<LedMode> {
    seq![
        LedMode::Solid,
        LedMode::Breathing,
        LedMode::Cycle,
        LedMode::Solid,
        LedMode::Solid,
        LedMode::Solid,
        LedMode::Solid,
    ]
}

/// The code of each button slot: those of the configuration, then the default
/// ones. The second group is used with the `BUTTONS_SECONDARY` quirk only.
pub open spec fn configured_slots(config: DriverConfigModel) -> Seq<Option<u8>> {
    Seq::new(
        34,
        |i: int|
            if i < 17 && i < config.button_mapping.len() {
                Some(config.button_mapping[i])
            } else if 17 <= i && settings::names_quirk(config.quirks, ASUS_QUIRK_BUTTONS_SECONDARY)
                && i - 17 < config.button_mapping_secondary.len() {
                Some(config.button_mapping_secondary[i - 17])
            } else if i < 8 {
                Some(default_codes()[i])
            } else {
                None
            },
    )
}

/// Whether `at` is the first slot with a code.
pub open spec fn first_slot(slots: Seq<Option<u8>>, code: u8, at: int) -> bool {
    &&& 0 <= at < slots.len()
    &&& slots[at] == Some(code)
    &&& forall|j: int| 0 <= j < at ==> slots[j] != Some(code)
}

/// Whether some slot has a code.
pub open spec fn in_use(slots: Seq<Option<u8>>, code: u8) -> bool {
    exists|at: int| first_slot(slots, code, at)
}

/// The slots of the first `n` known codes, in the order of the codes, without
/// the codes that no slot has.
pub open spec fn used_slots(slots: Seq<Option<u8>>, n: nat) -> Seq<int>
    decreases n,
{
    if n == 0 {
        Seq::empty()
    } else {
        let code = table::button_codes()[n - 1];
        if in_use(slots, code) {
            used_slots(slots, (n - 1) as nat).push(choose|at: int| first_slot(slots, code, at))
        } else {
            used_slots(slots, (n - 1) as nat)
        }
    }
}

/// The slot of each button.
pub open spec fn slot_of_button(slots: Seq<Option<u8>>, button: int) -> Option<int> {
    if button < used_slots(slots, 25).len() {
        Some(used_slots(slots, 25)[button])
    } else {
        None
    }
}

/// The LED modes: those of the configuration, then the default ones.
pub open spec fn configured_led_modes(config: DriverConfigModel) -> Seq<LedMode> {
    Seq::new(
        7,
        |i: int|
            if i < config.led_modes.len() {
                settings::led_mode_named(config.led_modes[i])
            } else {
                default_led_modes()[i]
            },
    )
}

/// Whether a driver is configured as the database says.
pub open spec fn configured(d: AsusDriver, config: DriverConfigModel) -> bool {
    &&& d.quirks < 128
    &&& forall|bit: u32|
        settings::is_quirk(bit) ==> #[trigger] settings::quirky(d.quirks, bit)
            == settings::names_quirk(config.quirks, bit)
    &&& d.button_mapping@ == configured_slots(config)
    &&& forall|k: int|
        0 <= k < 34 ==> match #[trigger] d.button_indices[k] {
            Some(at) => slot_of_button(configured_slots(config), k) == Some(at as int),
            None => slot_of_button(configured_slots(config), k) is None,
        }
    &&& d.led_modes@ == configured_led_modes(config)
}

proof fn lemma_used_slots_bounded(slots: Seq<Option<u8>>, n: nat)
    ensures
        used_slots(slots, n).len() <= n,
    decreases n,
{
    if n > 0 {
        lemma_used_slots_bounded(slots, (n - 1) as nat);
    }
}

proof fn lemma_used_slots_are_used(slots: Seq<Option<u8>>, n: nat, k: int)
    requires
        n <= 25,
        0 <= k < used_slots(slots, n).len(),
    ensures
        exists|c: int|
            0 <= c < n && first_slot(
                slots,
                #[trigger] table::button_codes()[c],
                used_slots(slots, n)[k],
            ),
    decreases n,
{
    let earlier = used_slots(slots, (n - 1) as nat);
    if k < earlier.len() {
        lemma_used_slots_are_used(slots, (n - 1) as nat, k);
        let c = choose|c: int|
            0 <= c < n - 1 && first_slot(slots, #[trigger] table::button_codes()[c], earlier[k]);
        assert(first_slot(slots, table::button_codes()[c], used_slots(slots, n)[k]));
    } else {
        let code = table::button_codes()[n - 1];
        assert(first_slot(slots, code, used_slots(slots, n)[k]));
    }
}

/// Every button that has a slot has one with a known code.
pub proof fn buttons_have_known_codes(config: DriverConfigModel, button: int)
    requires
        0 <= button,
        slot_of_button(configured_slots(config), button) is Some,
    ensures
        ({
            let at = slot_of_button(configured_slots(config), button)->0;
            &&& 0 <= at < 34
            &&& configured_slots(config)[at] matches Some(code) && table::button_codes().contains(
                code,
            )
        }),
{
    let slots = configured_slots(config);
    lemma_used_slots_are_used(slots, 25, button);
    let c = choose|c: int|
        0 <= c < 25 && first_slot(
            slots,
            #[trigger] table::button_codes()[c],
            used_slots(slots, 25)[button],
        );
    assert(table::button_codes().contains(table::button_codes()[c]));
}

fn default_mapping() -> (r: [Option<u8>; 34])
    ensures
        forall|i: int|
            0 <= i < 34 ==> #[trigger] r[i] == (if i < 8 {
                Some(default_codes()[i])
            } else {
                None
            }),
{
    let mut r: [Option<u8>; 34] = [None; 34];
    r[0] = Some(0xf0);
    r[1] = Some(0xf1);
    r[2] = Some(0xf2);
    r[3] = Some(0xe4);
    r[4] = Some(0xe5);
    r[5] = Some(0xe6);
    r[6] = Some(0xe8);
    r[7] = Some(0xe9);
    r
}

fn default_modes() -> (r: [LedMode; 7])
    ensures
        r@ == default_led_modes(),
{
    let r: [LedMode; 7] = [
        LedMode::Solid,
        LedMode::Breathing,
        LedMode::Cycle,
        LedMode::Solid,
        LedMode::Solid,
        LedMode::Solid,
        LedMode::Solid,
    ];
    assert(r@ =~= default_led_modes());
    r
}

fn find_slot(slots: &[Option<u8>; 34], code: u8) -> (r: Option<usize>)
    ensures
        match r {
            Some(at) => first_slot(slots@, code, at as int),
            None => !in_use(slots@, code),
        },
{
    let mut i: usize = 0;
    while i < 34
        invariant
            i <= 34,
            forall|j: int| 0 <= j < i ==> slots@[j] != Some(code),
        decreases 34 - i,
    {
        if let Some(c) = slots[i] {
            if c == code {
                return Some(i);
            }
        }
        i += 1;
    }
    None
}

/// The state of an LED before anything is read: three colour bytes, and the
/// modes of the driver.
pub open spec fn prepared_led(modes: Seq<LedMode>, l: LedModel) -> LedModel {
    LedModel { color_depth: 3, modes, ..l }
}

/// A profile with what is known of it before anything is read.
pub open spec fn prepared_profile(modes: Seq<LedMode>, p: ProfileModel) -> ProfileModel {
    ProfileModel {
        report_rates: settings::polling_rates(),
        debounces: settings::debounce_times(),
        leds: p.leds.map_values(|l: LedModel| prepared_led(modes, l)),
        ..p
    }
}

impl AsusDriver {
    pub fn new() -> (r: Self)
        ensures
            !r.is_ready,
            r.quirks == 0,
            r.led_modes@ == default_led_modes(),
            forall|i: int| 0 <= i < 34 ==> #[trigger] r.button_mapping[i] is None,
            forall|i: int| 0 <= i < 34 ==> #[trigger] r.button_indices[i] is None,
    {
        AsusDriver {
            is_ready: false,
            button_mapping: [None; 34],
            button_indices: [None; 34],
            led_modes: default_modes(),
            quirks: 0,
        }
    }

    pub fn has_quirk(&self, quirk: u32) -> (r: bool)
        ensures
            r == settings::quirky(self.quirks, quirk),
    {
        self.quirks & quirk != 0
    }

    /// Takes over what the device database says of the device.
    pub fn init_from_config(&mut self, config: &DriverConfig)
        ensures
            configured(*final(self), config@),
            final(self).is_ready == old(self).is_ready,
    {
        self.quirks = parse_quirks(&config.quirks);
        let secondary = self.has_quirk(ASUS_QUIRK_BUTTONS_SECONDARY);
        let mut mapping: [Option<u8>; 34] = default_mapping();
        let mut i: usize = 0;
        while i < 17
            invariant
                i <= 17,
                secondary == settings::names_quirk(config@.quirks, ASUS_QUIRK_BUTTONS_SECONDARY),
                forall|j: int|
                    0 <= j < i ==> #[trigger] mapping[j] == configured_slots(config@)[j],
                forall|j: int|
                    0 <= j < i ==> #[trigger] mapping[17 + j] == configured_slots(config@)[17 + j],
                forall|j: int|
                    i <= j < 17 ==> #[trigger] mapping[j] == (if j < 8 {
                        Some(default_codes()[j])
                    } else {
                        None
                    }),
                forall|j: int| 17 + i <= j < 34 ==> #[trigger] mapping[j] is None,
            decreases 17 - i,
        {
            if i < config.button_mapping.len() {
                mapping[i] = Some(config.button_mapping[i]);
            }
            if secondary && i < config.button_mapping_secondary.len() {
                mapping[17 + i] = Some(config.button_mapping_secondary[i]);
            }
            i += 1;
        }
        assert forall|j: int| 0 <= j < 34 implies mapping[j] == configured_slots(config@)[j] by {
            if j >= 17 {
                assert(mapping[17 + (j - 17)] == configured_slots(config@)[17 + (j - 17)]);
            }
        }
        assert(mapping@ =~= configured_slots(config@));
        self.button_mapping = mapping;

        let codes = button_code_list();
        let mut indices: [Option<usize>; 34] = [None; 34];
        let mut next: usize = 0;
        let mut c: usize = 0;
        while c < 25
            invariant
                c <= 25,
                codes@ == table::button_codes(),
                codes@.len() == 25,
                mapping@ == configured_slots(config@),
                next == used_slots(mapping@, c as nat).len(),
                next <= c,
                forall|k: int|
                    0 <= k < next ==> (#[trigger] indices[k] matches Some(at) && at
                        == used_slots(mapping@, c as nat)[k]),
                forall|k: int| next <= k < 34 ==> #[trigger] indices[k] is None,
            decreases 25 - c,
        {
            let found = find_slot(&mapping, codes[c]);
            assert(used_slots(mapping@, (c + 1) as nat) == if in_use(mapping@, codes@[c as int]) {
                used_slots(mapping@, c as nat).push(
                    choose|at: int| first_slot(mapping@, codes@[c as int], at),
                )
            } else {
                used_slots(mapping@, c as nat)
            });
            if let Some(at) = found {
                proof {
                    let chosen = choose|x: int| first_slot(mapping@, codes@[c as int], x);
                    assert(first_slot(mapping@, codes@[c as int], at as int));
                    assert(chosen == at);
                }
                indices[next] = Some(at);
                next += 1;
            }
            c += 1;
        }
        self.button_indices = indices;

        let mut modes: [LedMode; 7] = default_modes();
        let mut m: usize = 0;
        while m < 7
            invariant
                m <= 7,
                forall|j: int|
                    0 <= j < m ==> #[trigger] modes[j] == configured_led_modes(config@)[j],
                forall|j: int| m <= j < 7 ==> #[trigger] modes[j] == default_led_modes()[j],
            decreases 7 - m,
        {
            if m < config.led_modes.len() {
                assert(config@.led_modes[m as int] == config.led_modes@[m as int]@);
                modes[m] = parse_led_mode_str(config.led_modes[m].as_str());
            }
            m += 1;
        }
        assert(modes@ =~= configured_led_modes(config@));
        self.led_modes = modes;
    }

    fn prepare_profile(&self, p: &mut ProfileInfo)
        ensures
            final(p)@ == prepared_profile(self.led_modes@, old(p)@),
    {
        p.report_rates = polling_rate_list();
        p.debounces = debounce_time_list();
        let mut i: usize = 0;
        while i < p.leds.len()
            invariant
                i <= p.leds@.len(),
                p@ == (ProfileModel {
                    report_rates: settings::polling_rates(),
                    debounces: settings::debounce_times(),
                    leds: p@.leds,
                    ..old(p)@
                }),
                p@.leds.len() == old(p)@.leds.len(),
                forall|j: int|
                    0 <= j < i ==> #[trigger] p@.leds[j] == prepared_led(
                        self.led_modes@,
                        old(p)@.leds[j],
                    ),
                forall|j: int|
                    i <= j < p@.leds.len() ==> #[trigger] p@.leds[j] == old(p)@.leds[j],
            decreases p.leds@.len() - i,
        {
            let modes: Vec<LedMode> = vec![
                self.led_modes[0],
                self.led_modes[1],
                self.led_modes[2],
                self.led_modes[3],
                self.led_modes[4],
                self.led_modes[5],
                self.led_modes[6],
            ];
            assert(modes@ =~= self.led_modes@);
            proof {
                device::lemma_leds_view_update(p.leds@, i as int);
            }
            assert(p@.leds[i as int] == p.leds@[i as int]@);
            let led = LedInfo {
                color_depth: 3,
                modes,
                index: p.leds[i].index,
                mode: p.leds[i].mode,
                color: p.leds[i].color,
                secondary_color: p.leds[i].secondary_color,
                tertiary_color: p.leds[i].tertiary_color,
                effect_duration: p.leds[i].effect_duration,
                brightness: p.leds[i].brightness,
            };
            assert(led@ =~= prepared_led(self.led_modes@, old(p)@.leds[i as int]));
            p.leds[i] = led;
            i += 1;
        }
        assert(p@.leds =~= prepared_profile(self.led_modes@, old(p)@).leds);
    }

    /// Sets what is known of a device before anything is read from it.
    pub fn prepare(&self, info: &mut DeviceInfo)
        ensures
            final(info)@ == (DeviceModel {
                profiles: old(info)@.profiles.map_values(
                    |p: ProfileModel| prepared_profile(self.led_modes@, p),
                ),
                ..old(info)@
            }),
    {
        let mut i: usize = 0;
        while i < info.profiles.len()
            invariant
                i <= info.profiles@.len(),
                info@ == (DeviceModel { profiles: info@.profiles, ..old(info)@ }),
                info@.profiles.len() == old(info)@.profiles.len(),
                forall|j: int|
                    0 <= j < i ==> #[trigger] info@.profiles[j] == prepared_profile(
                        self.led_modes@,
                        old(info)@.profiles[j],
                    ),
                forall|j: int|
                    i <= j < info@.profiles.len() ==> #[trigger] info@.profiles[j]
                        == old(info)@.profiles[j],
            decreases info.profiles@.len() - i,
        {
            proof {
                device::lemma_profiles_view_update(info.profiles@, i as int);
            }
            assert(info@.profiles[i as int] == info.profiles@[i as int]@);
            self.prepare_profile(&mut info.profiles[i]);
            i += 1;
        }
        assert(info@.profiles =~= old(info)@.profiles.map_values(
            |p: ProfileModel| prepared_profile(self.led_modes@, p),
        ));
    }

    /// Takes note of whether the device answered.
    pub fn set_ready(&mut self, ready: bool)
        ensures
            *final(self) == (AsusDriver { is_ready: ready, ..*old(self) }),
    {
        self.is_ready = ready;
    }
}

} // verus!
