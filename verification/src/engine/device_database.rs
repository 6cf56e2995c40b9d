//! What the device database says about a supported device.

use crate::text;
use vstd::prelude::*;

verus! {

/// An evenly spaced range of DPI values.
#[derive(Debug, Clone, Copy, PartialEq, Eq, Structural)]
pub struct DpiRange {
    pub min: u32,
    pub max: u32,
    pub step: u32,
}

/// How a SinoWealth mouse orders the colour bytes of its LED.
#[derive(Debug, Clone, Copy, PartialEq, Eq, Structural)]
pub enum SinowealthLedType {
    Absent,
    Rgb,
    Rbg,
}

/// One mouse of the SinoWealth family, told apart by its firmware version.
#[derive(Debug)]
pub struct SinowealthDevice {
    pub firmware_version: String,
    pub device_name: String,
    pub buttons: u32,
    pub sensor_type: String,
    pub led_type: SinowealthLedType,
    pub profiles: u32,
}

/// The contents of a [`SinowealthDevice`].
#[verifier::ext_equal]
pub struct SinowealthDeviceModel {
    pub firmware_version: Seq<char>,
    pub device_name: Seq<char>,
    pub buttons: u32,
    pub sensor_type: Seq<char>,
    pub led_type: SinowealthLedType,
    pub profiles: u32,
}

impl View for SinowealthDevice {
    type V = SinowealthDeviceModel;

    open spec fn view(&self) -> SinowealthDeviceModel {
        SinowealthDeviceModel {
            firmware_version: self.firmware_version@,
            device_name: self.device_name@,
            buttons: self.buttons,
            sensor_type: self.sensor_type@,
            led_type: self.led_type,
            profiles: self.profiles,
        }
    }
}

impl Clone for SinowealthDevice {
    fn clone(&self) -> (r: Self)
        ensures
            r@ == self@,
    {
        SinowealthDevice {
            firmware_version: self.firmware_version.clone(),
            device_name: self.device_name.clone(),
            buttons: self.buttons,
            sensor_type: self.sensor_type.clone(),
            led_type: self.led_type,
            profiles: self.profiles,
        }
    }
}

/// Per-device settings handed to a driver.
#[derive(Debug)]
pub struct DriverConfig {
    pub profiles: Option<u32>,
    pub buttons: Option<u32>,
    pub leds: Option<u32>,
    pub dpis: Option<u32>,
    pub dpi_range: Option<DpiRange>,
    pub quirks: Vec<String>,
    pub button_mapping: Vec<u8>,
    pub button_mapping_secondary: Vec<u8>,
    pub led_modes: Vec<String>,
    pub device_version: Option<u32>,
    pub macro_length: Option<u32>,
    pub sinowealth_devices: Vec<SinowealthDevice>,
}

/// The contents of a [`DriverConfig`].
#[verifier::ext_equal]
pub struct DriverConfigModel {
    pub profiles: Option<u32>,
    pub buttons: Option<u32>,
    pub leds: Option<u32>,
    pub dpis: Option<u32>,
    pub dpi_range: Option<DpiRange>,
    pub quirks: Seq<Seq<char>>,
    pub button_mapping: Seq<u8>,
    pub button_mapping_secondary: Seq<u8>,
    pub led_modes: Seq<Seq<char>>,
    pub device_version: Option<u32>,
    pub macro_length: Option<u32>,
    pub sinowealth_devices: Seq<SinowealthDeviceModel>,
}

impl DriverConfigModel {
    /// The settings of a device that the database says nothing about.
    pub open spec fn empty() -> DriverConfigModel {
        DriverConfigModel {
            profiles: None,
            buttons: None,
            leds: None,
            dpis: None,
            dpi_range: None,
            quirks: Seq::empty(),
            button_mapping: Seq::empty(),
            button_mapping_secondary: Seq::empty(),
            led_modes: Seq::empty(),
            device_version: None,
            macro_length: None,
            sinowealth_devices: Seq::empty(),
        }
    }
}

/// The contents of a list of SinoWealth devices.
pub open spec fn sinowealth_devices_view(s: Seq<SinowealthDevice>) -> Seq<SinowealthDeviceModel> {
    s.map_values(|d: SinowealthDevice| d@)
}

impl View for DriverConfig {
    type V = DriverConfigModel;

    open spec fn view(&self) -> DriverConfigModel {
        DriverConfigModel {
            profiles: self.profiles,
            buttons: self.buttons,
            leds: self.leds,
            dpis: self.dpis,
            dpi_range: self.dpi_range,
            quirks: text::strings_view(self.quirks@),
            button_mapping: self.button_mapping@,
            button_mapping_secondary: self.button_mapping_secondary@,
            led_modes: text::strings_view(self.led_modes@),
            device_version: self.device_version,
            macro_length: self.macro_length,
            sinowealth_devices: sinowealth_devices_view(self.sinowealth_devices@),
        }
    }
}

impl Default for DriverConfig {
    fn default() -> (r: Self)
        ensures
            r@ == DriverConfigModel::empty(),
    {
        let r = DriverConfig {
            profiles: None,
            buttons: None,
            leds: None,
            dpis: None,
            dpi_range: None,
            quirks: Vec::new(),
            button_mapping: Vec::new(),
            button_mapping_secondary: Vec::new(),
            led_modes: Vec::new(),
            device_version: None,
            macro_length: None,
            sinowealth_devices: Vec::new(),
        };
        assert(r@ =~~= DriverConfigModel::empty());
        r
    }
}

impl Clone for DriverConfig {
    fn clone(&self) -> (r: Self)
        ensures
            r@ == self@,
    {
        let r = DriverConfig {
            profiles: self.profiles,
            buttons: self.buttons,
            leds: self.leds,
            dpis: self.dpis,
            dpi_range: self.dpi_range,
            quirks: self.quirks.clone(),
            button_mapping: self.button_mapping.clone(),
            button_mapping_secondary: self.button_mapping_secondary.clone(),
            led_modes: self.led_modes.clone(),
            device_version: self.device_version,
            macro_length: self.macro_length,
            sinowealth_devices: self.sinowealth_devices.clone(),
        };
        assert(r@ =~~= self@);
        r
    }
}

/// An entry of the device database.
#[derive(Debug)]
pub struct DeviceEntry {
    pub name: String,
    pub driver: String,
    pub device_type: String,
    pub matches: Vec<String>,
    pub driver_config: Option<DriverConfig>,
}

impl DeviceEntry {
    /// The driver settings of the entry, or those of an undescribed device.
    pub open spec fn config(&self) -> DriverConfigModel {
        match self.driver_config {
            Some(c) => c@,
            None => DriverConfigModel::empty(),
        }
    }
}

/// The bus a device is attached to.
#[derive(Debug, Clone, Copy, PartialEq, Eq, Structural)]
pub enum BusType {
    Usb,
    Bluetooth,
    Unknown,
}

impl BusType {
    /// The bus that a kernel bus number stands for.
    pub open spec fn of(bus: u16) -> BusType {
        if bus == 0x03 {
            BusType::Usb
        } else if bus == 0x05 {
            BusType::Bluetooth
        } else {
            BusType::Unknown
        }
    }

    /// The name used in model strings.
    pub open spec fn text(self) -> Seq<char> {
        match self {
            BusType::Usb => "usb"@,
            BusType::Bluetooth => "bluetooth"@,
            BusType::Unknown => "unknown"@,
        }
    }

    pub fn from_u16(bus: u16) -> (r: BusType)
        ensures
            r == BusType::of(bus),
    {
        match bus {
            0x03 => BusType::Usb,
            0x05 => BusType::Bluetooth,
            _ => BusType::Unknown,
        }
    }

    pub fn name(&self) -> (r: &'static str)
        ensures
            r@ == self.text(),
    {
        match self {
            BusType::Usb => "usb",
            BusType::Bluetooth => "bluetooth",
            BusType::Unknown => "unknown",
        }
    }
}

} // verus!
