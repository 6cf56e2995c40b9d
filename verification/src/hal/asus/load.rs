//! Reading every profile of a device.

use crate::engine::device;
use crate::engine::device::{
    ActionType, ButtonInfo, ButtonModel, Color, Dpi, LedInfo, LedMode, LedModel, ProfileInfo,
    ProfileModel, ResolutionModel,
};
use crate::hal::asus::driver::AsusDriver;
use crate::hal::asus::packet;
use crate::hal::asus::packet::{
    AsusBinding, AsusBindingData, AsusDpi2Data, AsusDpi4Data, AsusDpiXyData, AsusLedData,
    AsusLedEntry, AsusResponse,
};
use crate::hal::asus::settings;
use crate::hal::asus::settings::{brightness_to_ratbag, dpi_from_stored};
use crate::hal::asus::table;
use crate::hal::asus::table::{AsusButtonKind, find_button_by_code, get_linux_key_code};
use vstd::prelude::*;
use vstd::string::*;

verus! {

pub const ASUS_CMD_GET_LED_DATA: u16 = 0x0312;

pub const ASUS_CMD_GET_SETTINGS: u16 = 0x0412;

pub const ASUS_CMD_GET_BUTTON_DATA: u16 = 0x0512;

pub const ASUS_CMD_GET_PROFILE_DATA: u16 = 0x0012;

pub const ASUS_CMD_SET_PROFILE: u16 = 0x0250;

/// The type of a key press.
pub const ASUS_ACTION_TYPE_KEY: u8 = 0;

/// The type of a button press.
pub const ASUS_ACTION_TYPE_BUTTON: u8 = 1;

/// The code of no action.
pub const ASUS_BUTTON_CODE_DISABLED: u8 = 0xff;

/// A button with the action that a binding describes. A binding that stands
/// for nothing known leaves it as it is.
pub open spec fn bound_button(b: ButtonModel, wire: AsusBinding) -> ButtonModel {
    if wire.action == ASUS_BUTTON_CODE_DISABLED {
        ButtonModel { action_type: ActionType::NoAction, ..b }
    } else if wire.type_ == ASUS_ACTION_TYPE_KEY {
        if table::linux_key(wire.action) != 0 {
            ButtonModel {
                action_type: ActionType::Key,
                mapping_value: table::linux_key(wire.action),
                ..b
            }
        } else {
            b
        }
    } else if wire.type_ == ASUS_ACTION_TYPE_BUTTON {
        match table::kind_of_code(wire.action) {
            Some(AsusButtonKind::Button(n)) => ButtonModel {
                action_type: ActionType::Button,
                mapping_value: n,
                ..b
            },
            Some(AsusButtonKind::Special(n)) => ButtonModel {
                action_type: ActionType::Special,
                mapping_value: n,
                ..b
            },
            Some(AsusButtonKind::Joystick) => ButtonModel {
                action_type: ActionType::Special,
                mapping_value: 0,
                ..b
            },
            Some(AsusButtonKind::Unassigned) => ButtonModel {
                action_type: ActionType::NoAction,
                ..b
            },
            None => b,
        }
    } else {
        b
    }
}

/// The binding of a button in the answers for the two groups of buttons.
pub open spec fn binding_of(d: AsusDriver, button: u32, primary: Seq<u8>, secondary: Option<Seq<u8>>) -> Option<
    AsusBinding,
> {
    if button >= 34 {
        None
    } else {
        match d.button_indices[button as int] {
            None => None,
            Some(at) => if at < 17 {
                Some(packet::binding_at(primary, at as int))
            } else {
                match secondary {
                    Some(s) => Some(packet::binding_at(s, at as int % 17)),
                    None => None,
                }
            },
        }
    }
}

/// A button as the answers for the two groups of buttons describe it.
pub open spec fn loaded_button(d: AsusDriver, b: ButtonModel, primary: Seq<u8>, secondary: Option<
    Seq<u8>,
>) -> ButtonModel {
    match binding_of(d, b.index, primary, secondary) {
        Some(wire) => bound_button(b, wire),
        None => b,
    }
}

/// A profile with its buttons as the answers describe them.
pub open spec fn with_buttons(d: AsusDriver, p: ProfileModel, primary: Seq<u8>, secondary: Option<
    Seq<u8>,
>) -> ProfileModel {
    ProfileModel {
        buttons: p.buttons.map_values(|b: ButtonModel| loaded_button(d, b, primary, secondary)),
        ..p
    }
}

/// What is stored for the resolution at `i`.
pub open spec fn stored_dpi(buf: Seq<u8>, count: nat, i: int) -> u16 {
    if i < (if count <= 2 {
        2int
    } else {
        4
    }) {
        packet::result_word(buf, 2 + 2 * i)
    } else {
        0
    }
}

/// The DPI value of the resolution at `i`: one for each axis where the device
/// gave those, one for both otherwise.
pub open spec fn built_dpi(quirks: u32, i: int, stored: u16, xy: Option<Seq<u8>>) -> Dpi {
    if xy is Some && i < 4 {
        Dpi::Separate {
            x: settings::dpi_of_stored(packet::result_word(xy->0, 2 + i * 4), quirks) as u32,
            y: settings::dpi_of_stored(packet::result_word(xy->0, 4 + i * 4), quirks) as u32,
        }
    } else {
        Dpi::Unified(settings::dpi_of_stored(stored, quirks) as u32)
    }
}

/// A resolution as the answers for the settings describe it.
pub open spec fn loaded_resolution(
    d: AsusDriver,
    r: ResolutionModel,
    count: nat,
    buf: Seq<u8>,
    xy: Option<Seq<u8>>,
    preset: Option<u32>,
) -> ResolutionModel {
    ResolutionModel {
        dpi: built_dpi(d.quirks, r.index as int, stored_dpi(buf, count, r.index as int), xy),
        is_active: match preset {
            Some(active) => r.index == active,
            None => r.is_active,
        },
        ..r
    }
}

/// A profile with its settings as the answers describe them. The rate,
/// response time and angle snapping follow the resolutions in the answer; an
/// unknown rate is 1000 Hz, and an unknown response time changes nothing.
pub open spec fn with_settings(
    d: AsusDriver,
    p: ProfileModel,
    buf: Seq<u8>,
    xy: Option<Seq<u8>>,
    preset: Option<u32>,
) -> ProfileModel {
    let at: int = if p.resolutions.len() <= 2 {
        6
    } else {
        10
    };
    let rate = packet::result_word(buf, at);
    let response = packet::result_word(buf, at + 2);
    ProfileModel {
        report_rate: if rate < 4 {
            settings::polling_rates()[rate as int]
        } else {
            1000
        },
        debounce: if response < 8 {
            settings::debounce_times()[response as int] as i32
        } else {
            p.debounce
        },
        angle_snapping: packet::result_word(buf, at + 4) as i32,
        resolutions: p.resolutions.map_values(
            |r: ResolutionModel| loaded_resolution(d, r, p.resolutions.len(), buf, xy, preset),
        ),
        ..p
    }
}

/// An LED as its entry describes it.
pub open spec fn loaded_led(d: AsusDriver, l: LedModel, entry: AsusLedEntry) -> LedModel {
    LedModel {
        mode: if entry.mode < 7 {
            d.led_modes[entry.mode as int]
        } else {
            LedMode::Solid
        },
        brightness: settings::brightness_of_raw(entry.brightness, d.quirks) as u32,
        color: Color { red: entry.r as u32, green: entry.g as u32, blue: entry.b as u32 },
        ..l
    }
}

/// The entry of an LED in the answer for all of them.
pub open spec fn entry_of(buf: Seq<u8>, led: u32) -> AsusLedEntry {
    if led < 3 {
        packet::led_at(buf, led as int)
    } else {
        AsusLedEntry { mode: 0, brightness: 0, r: 0, g: 0, b: 0 }
    }
}

/// A profile with its LEDs as the answer for all of them describes them.
pub open spec fn with_leds(d: AsusDriver, p: ProfileModel, buf: Seq<u8>) -> ProfileModel {
    ProfileModel {
        leds: p.leds.map_values(|l: LedModel| loaded_led(d, l, entry_of(buf, l.index))),
        ..p
    }
}

/// A profile with one LED as the answer for it describes it.
pub open spec fn with_led(d: AsusDriver, p: ProfileModel, led: int, buf: Seq<u8>) -> ProfileModel {
    ProfileModel {
        leds: p.leds.update(led, loaded_led(d, p.leds[led], packet::led_at(buf, 0))),
        ..p
    }
}

fn bind_button(btn: &mut ButtonInfo, wire: AsusBinding)
    ensures
        final(btn)@ == bound_button(old(btn)@, wire),
{
    if wire.action == ASUS_BUTTON_CODE_DISABLED {
        btn.action_type = ActionType::NoAction;
    } else if wire.type_ == ASUS_ACTION_TYPE_KEY {
        if let Some(key) = get_linux_key_code(wire.action) {
            btn.action_type = ActionType::Key;
            btn.mapping_value = key;
        }
    } else if wire.type_ == ASUS_ACTION_TYPE_BUTTON {
        if let Some(entry) = find_button_by_code(wire.action) {
            match entry.kind {
                AsusButtonKind::Button(n) => {
                    btn.action_type = ActionType::Button;
                    btn.mapping_value = n;
                },
                AsusButtonKind::Special(n) => {
                    btn.action_type = ActionType::Special;
                    btn.mapping_value = n;
                },
                AsusButtonKind::Joystick => {
                    btn.action_type = ActionType::Special;
                    btn.mapping_value = 0;
                },
                AsusButtonKind::Unassigned => {
                    btn.action_type = ActionType::NoAction;
                },
            }
        }
    }
}

/// The bytes of an answer, if there is one.
pub open spec fn reply_bytes(reply: Option<AsusResponse>) -> Option<Seq<u8>> {
    match reply {
        Some(r) => Some(r.buf@),
        None => None,
    }
}

impl AsusDriver {
    fn find_binding(&self, button: u32, primary: &AsusBindingData, secondary: &Option<
        AsusBindingData,
    >, Ghost(p): Ghost<Seq<u8>>, Ghost(s): Ghost<Option<Seq<u8>>>) -> (r: Option<AsusBinding>)
        requires
            forall|k: int| 0 <= k < 17 ==> #[trigger] primary.bindings[k] == packet::binding_at(p, k),
            secondary is Some <==> s is Some,
            secondary matches Some(data) ==> forall|k: int|
                0 <= k < 17 ==> #[trigger] data.bindings[k] == packet::binding_at(s->0, k),
        ensures
            r == binding_of(*self, button, p, s),
    {
        if button >= 34 {
            return None;
        }
        match self.button_indices[button as usize] {
            None => None,
            Some(at) => if at < 17 {
                Some(primary.bindings[at])
            } else {
                match secondary {
                    Some(data) => Some(data.bindings[at % 17]),
                    None => None,
                }
            },
        }
    }

    /// Sets the buttons of a profile from the answers for the two groups.
    pub fn load_buttons(&self, p: &mut ProfileInfo, primary: &AsusResponse, secondary: &Option<
        AsusResponse,
    >)
        ensures
            final(p)@ == with_buttons(*self, old(p)@, primary.buf@, reply_bytes(*secondary)),
    {
        let ghost first = primary.buf@;
        let ghost second = reply_bytes(*secondary);
        let data = AsusBindingData::from_response(primary);
        let extra: Option<AsusBindingData> = match secondary {
            Some(resp) => Some(AsusBindingData::from_response(resp)),
            None => None,
        };
        let mut i: usize = 0;
        while i < p.buttons.len()
            invariant
                i <= p.buttons@.len(),
                p@ == (ProfileModel { buttons: p@.buttons, ..old(p)@ }),
                p@.buttons.len() == old(p)@.buttons.len(),
                forall|k: int|
                    0 <= k < 17 ==> #[trigger] data.bindings[k] == packet::binding_at(first, k),
                extra is Some <==> second is Some,
                extra matches Some(e) ==> forall|k: int|
                    0 <= k < 17 ==> #[trigger] e.bindings[k] == packet::binding_at(second->0, k),
                forall|j: int|
                    0 <= j < i ==> #[trigger] p@.buttons[j] == loaded_button(
                        *self,
                        old(p)@.buttons[j],
                        first,
                        second,
                    ),
                forall|j: int|
                    i <= j < p@.buttons.len() ==> #[trigger] p@.buttons[j] == old(p)@.buttons[j],
            decreases p.buttons@.len() - i,
        {
            proof {
                device::lemma_buttons_view_update(p.buttons@, i as int);
            }
            assert(p@.buttons[i as int] == p.buttons@[i as int]@);
            let wire = self.find_binding(
                p.buttons[i].index,
                &data,
                &extra,
                Ghost(first),
                Ghost(second),
            );
            if let Some(w) = wire {
                bind_button(&mut p.buttons[i], w);
            }
            i += 1;
        }
        assert(p@.buttons =~= with_buttons(*self, old(p)@, first, second).buttons);
    }

    /// The DPI value of the resolution at `i`: one for each axis where the
    /// device gave those, one for both otherwise.
    pub fn build_dpi(&self, i: usize, stored: u16, xy: &Option<AsusResponse>) -> (r: Dpi)
        ensures
            r == built_dpi(self.quirks, i as int, stored, reply_bytes(*xy)),
    {
        if let Some(resp) = xy {
            if i < 4 {
                let data = AsusDpiXyData::from_response(resp);
                let pair = data.dpi[i];
                assert(pair == data.dpi@[i as int]);
                return Dpi::Separate {
                    x: dpi_from_stored(pair.0, self.quirks),
                    y: dpi_from_stored(pair.1, self.quirks),
                };
            }
        }
        Dpi::Unified(dpi_from_stored(stored, self.quirks))
    }

    fn load_resolutions(
        &self,
        p: &mut ProfileInfo,
        stored: &Vec<u16>,
        xy: &Option<AsusResponse>,
        preset: Option<u32>,
        Ghost(buf): Ghost<Seq<u8>>,
    )
        requires
            stored@ == Seq::new(
                if old(p)@.resolutions.len() <= 2 {
                    2
                } else {
                    4
                },
                |i: int| stored_dpi(buf, old(p)@.resolutions.len(), i),
            ),
        ensures
            final(p)@ == (ProfileModel {
                resolutions: old(p)@.resolutions.map_values(
                    |r: ResolutionModel|
                        loaded_resolution(
                            *self,
                            r,
                            old(p)@.resolutions.len(),
                            buf,
                            reply_bytes(*xy),
                            preset,
                        ),
                ),
                ..old(p)@
            }),
    {
        let ghost count = p@.resolutions.len();
        let mut i: usize = 0;
        while i < p.resolutions.len()
            invariant
                i <= p.resolutions@.len(),
                count == old(p)@.resolutions.len(),
                stored@ == Seq::new(
                    if count <= 2 {
                        2
                    } else {
                        4
                    },
                    |i: int| stored_dpi(buf, count, i),
                ),
                p@ == (ProfileModel { resolutions: p@.resolutions, ..old(p)@ }),
                p@.resolutions.len() == count,
                forall|j: int|
                    0 <= j < i ==> #[trigger] p@.resolutions[j] == loaded_resolution(
                        *self,
                        old(p)@.resolutions[j],
                        count,
                        buf,
                        reply_bytes(*xy),
                        preset,
                    ),
                forall|j: int|
                    i <= j < p@.resolutions.len() ==> #[trigger] p@.resolutions[j] == old(
                        p,
                    )@.resolutions[j],
            decreases p.resolutions@.len() - i,
        {
            proof {
                device::lemma_resolutions_view_update(p.resolutions@, i as int);
            }
            assert(p@.resolutions[i as int] == p.resolutions@[i as int]@);
            let at: usize = p.resolutions[i].index as usize;
            let raw: u16 = if at < stored.len() {
                stored[at]
            } else {
                0
            };
            assert(raw == stored_dpi(buf, count, at as int));
            let index = p.resolutions[i].index;
            let dpi = self.build_dpi(at, raw, xy);
            p.resolutions[i].dpi = dpi;
            if let Some(active) = preset {
                proof {
                    device::lemma_resolutions_view_update(p.resolutions@, i as int);
                }
                assert(p@.resolutions[i as int] == p.resolutions@[i as int]@);
                p.resolutions[i].is_active = index == active;
            }
            assert(p@.resolutions[i as int] == p.resolutions@[i as int]@);
            i += 1;
        }
        assert(p@.resolutions =~= old(p)@.resolutions.map_values(
            |r: ResolutionModel|
                loaded_resolution(*self, r, count, buf, reply_bytes(*xy), preset),
        ));
    }

    /// Sets the resolutions, rate, response time and angle snapping of a
    /// profile from the answers for the settings.
    pub fn load_settings(
        &self,
        p: &mut ProfileInfo,
        resp: &AsusResponse,
        xy: &Option<AsusResponse>,
        preset: Option<u32>,
    )
        ensures
            final(p)@ == with_settings(
                *self,
                old(p)@,
                resp.buf@,
                reply_bytes(*xy),
                preset,
            ),
    {
        let ghost buf = resp.buf@;
        let ghost count = p@.resolutions.len();
        assert(p.resolutions@.len() == count);
        let stored: Vec<u16>;
        let rate: u16;
        let response: u16;
        let snapping: u16;
        if p.resolutions.len() <= 2 {
            let d = AsusDpi2Data::from_response(resp);
            stored = vec![d.dpi[0], d.dpi[1]];
            rate = d.rate_idx;
            response = d.response_idx;
            snapping = d.snapping;
            assert(stored@ =~= Seq::new(2, |i: int| stored_dpi(buf, count, i)));
        } else {
            let d = AsusDpi4Data::from_response(resp);
            stored = vec![d.dpi[0], d.dpi[1], d.dpi[2], d.dpi[3]];
            rate = d.rate_idx;
            response = d.response_idx;
            snapping = d.snapping;
            assert(stored@ =~= Seq::new(4, |i: int| stored_dpi(buf, count, i)));
        }
        let rates = settings::polling_rate_list();
        p.report_rate = if (rate as usize) < rates.len() {
            rates[rate as usize]
        } else {
            1000
        };
        let times = settings::debounce_time_list();
        if (response as usize) < times.len() {
            p.debounce = times[response as usize] as i32;
        }
        p.angle_snapping = snapping as i32;
        self.load_resolutions(p, &stored, xy, preset, Ghost(buf));
    }

    fn load_led(&self, led: &mut LedInfo, entry: AsusLedEntry)
        ensures
            final(led)@ == loaded_led(*self, old(led)@, entry),
    {
        led.mode = if entry.mode < 7 {
            self.led_modes[entry.mode as usize]
        } else {
            LedMode::Solid
        };
        led.brightness = brightness_to_ratbag(entry.brightness, self.quirks);
        led.color = Color { red: entry.r as u32, green: entry.g as u32, blue: entry.b as u32 };
    }

    /// Sets the LEDs of a profile from the answer for all of them.
    pub fn load_leds(&self, p: &mut ProfileInfo, resp: &AsusResponse)
        ensures
            final(p)@ == with_leds(*self, old(p)@, resp.buf@),
    {
        let data = AsusLedData::from_response(resp);
        let mut i: usize = 0;
        while i < p.leds.len()
            invariant
                i <= p.leds@.len(),
                forall|k: int| 0 <= k < 3 ==> #[trigger] data.leds[k] == packet::led_at(resp.buf@, k),
                p@ == (ProfileModel { leds: p@.leds, ..old(p)@ }),
                p@.leds.len() == old(p)@.leds.len(),
                forall|j: int|
                    0 <= j < i ==> #[trigger] p@.leds[j] == loaded_led(
                        *self,
                        old(p)@.leds[j],
                        entry_of(resp.buf@, old(p)@.leds[j].index),
                    ),
                forall|j: int|
                    i <= j < p@.leds.len() ==> #[trigger] p@.leds[j] == old(p)@.leds[j],
            decreases p.leds@.len() - i,
        {
            proof {
                device::lemma_leds_view_update(p.leds@, i as int);
            }
            assert(p@.leds[i as int] == p.leds@[i as int]@);
            let entry: AsusLedEntry = if p.leds[i].index < 3 {
                data.leds[p.leds[i].index as usize]
            } else {
                AsusLedEntry { mode: 0, brightness: 0, r: 0, g: 0, b: 0 }
            };
            assert(entry == entry_of(resp.buf@, old(p)@.leds[i as int].index));
            self.load_led(&mut p.leds[i], entry);
            i += 1;
        }
        assert(p@.leds =~= with_leds(*self, old(p)@, resp.buf@).leds);
    }

    /// Sets one LED of a profile from the answer for it.
    pub fn load_single_led(&self, p: &mut ProfileInfo, led: usize, resp: &AsusResponse)
        requires
            led < old(p).leds@.len(),
        ensures
            final(p)@ == with_led(*self, old(p)@, led as int, resp.buf@),
    {
        let data = AsusLedData::from_response(resp);
        let entry = data.leds[0];
        assert(entry == data.leds@[0]);
        proof {
            device::lemma_leds_view_update(p.leds@, led as int);
        }
        assert(p@.leds[led as int] == p.leds@[led as int]@);
        self.load_led(&mut p.leds[led], entry);
    }
}

} // verus!
