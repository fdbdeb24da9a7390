//! The device-state snapshot: a mutable record of everything a device has
//! reported about itself, every field optional.

use vstd::prelude::*;

verus! {

/// Mathematical model of a device-state record: each field is `None` until a
/// report carrying it has been observed.
pub struct LightModel {
    pub label: Option<Seq<char>>,
    pub firmware_version: Option<Seq<char>>,
    pub power: Option<u16>,
    pub hue: Option<u16>,
    pub saturation: Option<u16>,
    pub brightness: Option<u16>,
    pub kelvin: Option<u16>,
}

impl LightModel {
    /// The record of a device that is known but has reported nothing yet.
    pub open spec fn empty() -> LightModel {
        LightModel {
            label: None,
            firmware_version: None,
            power: None,
            hue: None,
            saturation: None,
            brightness: None,
            kelvin: None,
        }
    }

    /// This record with only its label replaced.
    pub open spec fn with_label(self, label: Seq<char>) -> LightModel {
        LightModel { label: Some(label), ..self }
    }

    /// This record with only its firmware version replaced.
    pub open spec fn with_firmware_version(self, version: Seq<char>) -> LightModel {
        LightModel { firmware_version: Some(version), ..self }
    }

    /// This record with only its power level replaced.
    pub open spec fn with_power(self, level: u16) -> LightModel {
        LightModel { power: Some(level), ..self }
    }

    /// This record with only its four color channels replaced.
    pub open spec fn with_color(self, hue: u16, saturation: u16, brightness: u16, kelvin: u16) -> LightModel {
        LightModel {
            hue: Some(hue),
            saturation: Some(saturation),
            brightness: Some(brightness),
            kelvin: Some(kelvin),
            ..self
        }
    }

    /// This record after a full light-state report: color channels, power
    /// and label all replaced in one merge; the firmware version is the one
    /// field such a report does not carry, and it alone is kept.
    pub open spec fn with_light_state(
        self,
        hue: u16,
        saturation: u16,
        brightness: u16,
        kelvin: u16,
        power: u16,
        label: Seq<char>,
    ) -> LightModel {
        LightModel {
            label: Some(label),
            firmware_version: self.firmware_version,
            power: Some(power),
            hue: Some(hue),
            saturation: Some(saturation),
            brightness: Some(brightness),
            kelvin: Some(kelvin),
        }
    }
}

/// The last-known state of one device. A record is only ever created or
/// updated in response to an inbound report (or a control-surface write)
/// attributed to its address; fields update independently, so a report
/// carrying only a subset of fields never clears the rest.
#[derive(Debug)]
pub struct Light {
    pub label: Option<String>,
    pub firmware_version: Option<String>,
    pub power: Option<u16>,
    pub hue: Option<u16>,
    pub saturation: Option<u16>,
    pub brightness: Option<u16>,
    pub kelvin: Option<u16>,
}

impl View for Light {
    type V = LightModel;

    open spec fn view(&self) -> LightModel {
        LightModel {
            label: match self.label {
                Some(s) => Some(s@),
                None => None,
            },
            firmware_version: match self.firmware_version {
                Some(s) => Some(s@),
                None => None,
            },
            power: self.power,
            hue: self.hue,
            saturation: self.saturation,
            brightness: self.brightness,
            kelvin: self.kelvin,
        }
    }
}

impl Clone for Light {
    /// A field-for-field copy: the clone models the same record.
    fn clone(&self) -> (r: Self)
        ensures
            r@ == self@,
    {
        Light {
            label: match &self.label {
                Some(s) => Some(s.clone()),
                None => None,
            },
            firmware_version: match &self.firmware_version {
                Some(s) => Some(s.clone()),
                None => None,
            },
            power: self.power,
            hue: self.hue,
            saturation: self.saturation,
            brightness: self.brightness,
            kelvin: self.kelvin,
        }
    }
}

impl Default for Light {
    /// A record with no field observed yet.
    fn default() -> (r: Light)
        ensures
            r@ == LightModel::empty(),
    {
        Light {
            label: None,
            firmware_version: None,
            power: None,
            hue: None,
            saturation: None,
            brightness: None,
            kelvin: None,
        }
    }
}

} // verus!
