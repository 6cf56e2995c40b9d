//! The reports that hold a profile and the active profile.

use vstd::prelude::*;

verus! {

pub const REPORT_SIZE_PROFILE: usize = 154;

/// One button of a profile report.
#[derive(Debug, Clone, Copy, PartialEq, Eq, Structural)]
pub struct ButtonEntry {
    /// 0x01 to 0x05 for a button, 0x11 to 0x17 for a special action, 0 for a
    /// key.
    pub code: u8,
    /// The modifiers of a key.
    pub modifier: u8,
    pub key: u8,
}

impl Default for ButtonEntry {
    fn default() -> (r: Self)
        ensures
            r == blank_entry(),
    {
        ButtonEntry { code: 0, modifier: 0, key: 0 }
    }
}

/// A button that does nothing.
pub open spec fn blank_entry() -> ButtonEntry {
    ButtonEntry { code: 0, modifier: 0, key: 0 }
}

/// A profile as the device stores it.
#[derive(Debug, Clone, Copy)]
pub struct ProfileReport {
    pub id: u8,
    pub led_red: u8,
    pub led_green: u8,
    pub led_blue: u8,
    pub led_effect: u8,
    /// The duration of the LED effect in seconds, at most 15.
    pub led_duration: u8,
    pub unknown1: [u8; 5],
    /// The polling rate is 1000 / (frequency + 1) Hz.
    pub frequency: u8,
    pub dpi_shift: u8,
    /// The default DPI slot, counted from 1.
    pub dpi_default: u8,
    /// The DPI slots in units of 50; 0 for one that is disabled.
    pub dpi: [u8; 4],
    pub unknown2: [u8; 13],
    pub buttons: [ButtonEntry; 20],
    /// The LED colour while G-Shift is held.
    pub g_shift_color: [u8; 3],
    /// The buttons while G-Shift is held.
    pub g_shift_buttons: [ButtonEntry; 20],
}

/// The contents of a [`ProfileReport`].
#[verifier::ext_equal]
pub struct ReportModel {
    pub id: u8,
    pub led_red: u8,
    pub led_green: u8,
    pub led_blue: u8,
    pub led_effect: u8,
    pub led_duration: u8,
    pub unknown1: Seq<u8>,
    pub frequency: u8,
    pub dpi_shift: u8,
    pub dpi_default: u8,
    pub dpi: Seq<u8>,
    pub unknown2: Seq<u8>,
    pub buttons: Seq<ButtonEntry>,
    pub g_shift_color: Seq<u8>,
    pub g_shift_buttons: Seq<ButtonEntry>,
}

impl View for ProfileReport {
    type V = ReportModel;

    open spec fn view(&self) -> ReportModel {
        ReportModel {
            id: self.id,
            led_red: self.led_red,
            led_green: self.led_green,
            led_blue: self.led_blue,
            led_effect: self.led_effect,
            led_duration: self.led_duration,
            unknown1: self.unknown1@,
            frequency: self.frequency,
            dpi_shift: self.dpi_shift,
            dpi_default: self.dpi_default,
            dpi: self.dpi@,
            unknown2: self.unknown2@,
            buttons: self.buttons@,
            g_shift_color: self.g_shift_color@,
            g_shift_buttons: self.g_shift_buttons@,
        }
    }
}

/// The button whose three bytes begin at `at`.
pub open spec fn entry_at(b: Seq<u8>, at: int) -> ButtonEntry {
    ButtonEntry { code: b[at], modifier: b[at + 1], key: b[at + 2] }
}

/// The byte at place `i` of a list of buttons.
pub open spec fn entry_byte(entries: Seq<ButtonEntry>, i: int) -> u8 {
    if i % 3 == 0 {
        entries[i / 3].code
    } else if i % 3 == 1 {
        entries[i / 3].modifier
    } else {
        entries[i / 3].key
    }
}

impl ReportModel {
    /// Whether every list has its size.
    pub open spec fn well_sized(self) -> bool {
        &&& self.unknown1.len() == 5
        &&& self.dpi.len() == 4
        &&& self.unknown2.len() == 13
        &&& self.buttons.len() == 20
        &&& self.g_shift_color.len() == 3
        &&& self.g_shift_buttons.len() == 20
    }

    /// A report with every byte zero but the default DPI slot, which is the
    /// first.
    pub open spec fn blank(id: u8) -> ReportModel {
        ReportModel {
            id,
            led_red: 0,
            led_green: 0,
            led_blue: 0,
            led_effect: 0,
            led_duration: 0,
            unknown1: Seq::new(5, |i: int| 0u8),
            frequency: 0,
            dpi_shift: 0,
            dpi_default: 1,
            dpi: Seq::new(4, |i: int| 0u8),
            unknown2: Seq::new(13, |i: int| 0u8),
            buttons: Seq::new(20, |i: int| blank_entry()),
            g_shift_color: Seq::new(3, |i: int| 0u8),
            g_shift_buttons: Seq::new(20, |i: int| blank_entry()),
        }
    }

    /// The report that bytes hold.
    pub open spec fn of_bytes(b: Seq<u8>) -> ReportModel {
        ReportModel {
            id: b[0],
            led_red: b[1],
            led_green: b[2],
            led_blue: b[3],
            led_effect: b[4],
            led_duration: b[5],
            unknown1: b.subrange(6, 11),
            frequency: b[11],
            dpi_shift: b[12],
            dpi_default: b[13],
            dpi: b.subrange(14, 18),
            unknown2: b.subrange(18, 31),
            buttons: Seq::new(20, |k: int| entry_at(b, 31 + 3 * k)),
            g_shift_color: b.subrange(91, 94),
            g_shift_buttons: Seq::new(20, |k: int| entry_at(b, 94 + 3 * k)),
        }
    }

    /// The byte at place `i` of the report.
    pub open spec fn byte(self, i: int) -> u8 {
        if i == 0 {
            self.id
        } else if i == 1 {
            self.led_red
        } else if i == 2 {
            self.led_green
        } else if i == 3 {
            self.led_blue
        } else if i == 4 {
            self.led_effect
        } else if i == 5 {
            self.led_duration
        } else if i < 11 {
            self.unknown1[i - 6]
        } else if i == 11 {
            self.frequency
        } else if i == 12 {
            self.dpi_shift
        } else if i == 13 {
            self.dpi_default
        } else if i < 18 {
            self.dpi[i - 14]
        } else if i < 31 {
            self.unknown2[i - 18]
        } else if i < 91 {
            entry_byte(self.buttons, i - 31)
        } else if i < 94 {
            self.g_shift_color[i - 91]
        } else {
            entry_byte(self.g_shift_buttons, i - 94)
        }
    }

    /// The bytes of the report.
    pub open spec fn bytes(self) -> Seq<u8> {
        Seq::new(154, |i: int| self.byte(i))
    }
}

/// The bytes of a report hold that report.
pub proof fn report_reads_back(m: ReportModel)
    requires
        m.well_sized(),
    ensures
        ReportModel::of_bytes(m.bytes()) == m,
{
    let b = m.bytes();
    let r = ReportModel::of_bytes(b);
    assert forall|k: int| 0 <= k < 20 implies r.buttons[k] == m.buttons[k] && r.g_shift_buttons[k]
        == m.g_shift_buttons[k] by {
        assert(3 * k / 3 == k && (3 * k) % 3 == 0);
        assert((3 * k + 1) / 3 == k && (3 * k + 1) % 3 == 1);
        assert((3 * k + 2) / 3 == k && (3 * k + 2) % 3 == 2);
    }
    assert(r =~= m);
}

/// A report that was read is written as it was.
pub proof fn report_bytes_are_kept(b: Seq<u8>)
    requires
        b.len() == 154,
    ensures
        ReportModel::of_bytes(b).bytes() == b,
{
    let m = ReportModel::of_bytes(b);
    assert forall|i: int| 0 <= i < 154 implies m.byte(i) == b[i] by {
        if 31 <= i < 91 {
            let k = (i - 31) / 3;
            assert(m.buttons[k] == entry_at(b, 31 + 3 * k));
        } else if 94 <= i {
            let k = (i - 94) / 3;
            assert(m.g_shift_buttons[k] == entry_at(b, 94 + 3 * k));
        }
    }
    assert(m.bytes() =~= b);
}

impl ProfileReport {
    pub fn new() -> (r: Self)
        ensures
            r@ == ReportModel::blank(0),
    {
        let r = ProfileReport {
            id: 0,
            led_red: 0,
            led_green: 0,
            led_blue: 0,
            led_effect: 0,
            led_duration: 0,
            unknown1: [0; 5],
            frequency: 0,
            dpi_shift: 0,
            dpi_default: 1,
            dpi: [0; 4],
            unknown2: [0; 13],
            buttons: [ButtonEntry { code: 0, modifier: 0, key: 0 }; 20],
            g_shift_color: [0; 3],
            g_shift_buttons: [ButtonEntry { code: 0, modifier: 0, key: 0 }; 20],
        };
        assert(r@ =~= ReportModel::blank(0));
        r
    }

    pub fn from_bytes(b: &[u8; 154]) -> (r: Self)
        ensures
            r@ == ReportModel::of_bytes(b@),
    {
        let mut s = ProfileReport::new();
        s.id = b[0];
        s.led_red = b[1];
        s.led_green = b[2];
        s.led_blue = b[3];
        s.led_effect = b[4];
        s.led_duration = b[5];
        s.unknown1 = [b[6], b[7], b[8], b[9], b[10]];
        s.frequency = b[11];
        s.dpi_shift = b[12];
        s.dpi_default = b[13];
        s.dpi = [b[14], b[15], b[16], b[17]];
        s.unknown2 = [
            b[18],
            b[19],
            b[20],
            b[21],
            b[22],
            b[23],
            b[24],
            b[25],
            b[26],
            b[27],
            b[28],
            b[29],
            b[30],
        ];
        s.g_shift_color = [b[91], b[92], b[93]];
        let mut buttons: [ButtonEntry; 20] = [ButtonEntry { code: 0, modifier: 0, key: 0 }; 20];
        let mut shifted: [ButtonEntry; 20] = [ButtonEntry { code: 0, modifier: 0, key: 0 }; 20];
        let mut k: usize = 0;
        while k < 20
            invariant
                k <= 20,
                forall|j: int| 0 <= j < k ==> #[trigger] buttons[j] == entry_at(b@, 31 + 3 * j),
                forall|j: int| 0 <= j < k ==> #[trigger] shifted[j] == entry_at(b@, 94 + 3 * j),
            decreases 20 - k,
        {
            let at: usize = 31 + 3 * k;
            buttons[k] = ButtonEntry { code: b[at], modifier: b[at + 1], key: b[at + 2] };
            let at: usize = 94 + 3 * k;
            shifted[k] = ButtonEntry { code: b[at], modifier: b[at + 1], key: b[at + 2] };
            k += 1;
        }
        s.buttons = buttons;
        s.g_shift_buttons = shifted;
        assert(s@ =~= ReportModel::of_bytes(b@));
        s
    }

    pub fn into_bytes(&self) -> (r: [u8; 154])
        ensures
            r@ == self@.bytes(),
    {
        let mut b: [u8; 154] = [0u8; 154];
        b[0] = self.id;
        b[1] = self.led_red;
        b[2] = self.led_green;
        b[3] = self.led_blue;
        b[4] = self.led_effect;
        b[5] = self.led_duration;
        let mut i: usize = 6;
        while i < 11
            invariant
                6 <= i <= 11,
                forall|j: int| 0 <= j < i ==> #[trigger] b[j] == self@.byte(j),
            decreases 11 - i,
        {
            b[i] = self.unknown1[i - 6];
            i += 1;
        }
        b[11] = self.frequency;
        b[12] = self.dpi_shift;
        b[13] = self.dpi_default;
        i = 14;
        while i < 18
            invariant
                14 <= i <= 18,
                forall|j: int| 0 <= j < i ==> #[trigger] b[j] == self@.byte(j),
            decreases 18 - i,
        {
            b[i] = self.dpi[i - 14];
            i += 1;
        }
        while i < 31
            invariant
                18 <= i <= 31,
                forall|j: int| 0 <= j < i ==> #[trigger] b[j] == self@.byte(j),
            decreases 31 - i,
        {
            b[i] = self.unknown2[i - 18];
            i += 1;
        }
        let mut k: usize = 0;
        while k < 20
            invariant
                k <= 20,
                forall|j: int| 0 <= j < 31 + 3 * k ==> #[trigger] b[j] == self@.byte(j),
            decreases 20 - k,
        {
            let at: usize = 31 + 3 * k;
            assert(3 * k / 3 == k && (3 * k) % 3 == 0);
            assert((3 * k + 1) / 3 == k as int && (3 * k + 1) % 3 == 1);
            assert((3 * k + 2) / 3 == k as int && (3 * k + 2) % 3 == 2);
            b[at] = self.buttons[k].code;
            b[at + 1] = self.buttons[k].modifier;
            b[at + 2] = self.buttons[k].key;
            k += 1;
        }
        b[91] = self.g_shift_color[0];
        b[92] = self.g_shift_color[1];
        b[93] = self.g_shift_color[2];
        k = 0;
        while k < 20
            invariant
                k <= 20,
                forall|j: int| 0 <= j < 94 + 3 * k ==> #[trigger] b[j] == self@.byte(j),
            decreases 20 - k,
        {
            let at: usize = 94 + 3 * k;
            assert(3 * k / 3 == k && (3 * k) % 3 == 0);
            assert((3 * k + 1) / 3 == k as int && (3 * k + 1) % 3 == 1);
            assert((3 * k + 2) / 3 == k as int && (3 * k + 2) % 3 == 2);
            b[at] = self.g_shift_buttons[k].code;
            b[at + 1] = self.g_shift_buttons[k].modifier;
            b[at + 2] = self.g_shift_buttons[k].key;
            k += 1;
        }
        assert(b@ =~= self@.bytes());
        b
    }
}

/// Which profile and resolution are active.
#[derive(Debug, Clone, Copy, PartialEq, Eq, Structural)]
pub struct ActiveProfileReport {
    pub id: u8,
    /// The profile in the upper four bits, the resolution in bits 1 and 2.
    pub packed: u8,
    pub unknown3: u8,
    pub unknown4: u8,
}

impl Default for ActiveProfileReport {
    fn default() -> (r: Self)
        ensures
            r == (ActiveProfileReport { id: 0, packed: 0, unknown3: 0, unknown4: 0 }),
    {
        ActiveProfileReport { id: 0, packed: 0, unknown3: 0, unknown4: 0 }
    }
}

impl ActiveProfileReport {
    /// The active profile, counted from 0.
    pub fn profile(&self) -> (r: u8)
        ensures
            r == self.packed / 16,
    {
        self.packed / 16
    }

    /// The active resolution, counted from 0.
    pub fn resolution(&self) -> (r: u8)
        ensures
            r == self.packed / 2 % 4,
    {
        self.packed / 2 % 4
    }

    pub fn from_bytes(b: &[u8; 4]) -> (r: Self)
        ensures
            r == (ActiveProfileReport { id: b[0], packed: b[1], unknown3: b[2], unknown4: b[3] }),
    {
        ActiveProfileReport { id: b[0], packed: b[1], unknown3: b[2], unknown4: b[3] }
    }
}

} // verus!
