//! Camera model names, used to pick decoding branches: GPS layout and
//! sensor orientation differ between device generations.

use vstd::prelude::*;

use crate::chars::{trim_spaces, trimmed};
use crate::data_types::str_eq;

verus! {

/// A camera model known to emit this telemetry format.
#[derive(Debug, Clone, Copy, PartialEq, Eq, Structural)]
pub enum DeviceName {
    Hero5Black,
    Hero6Black,
    Hero7Black,
    Hero8Black,
    Hero9Black,
    Hero10Black,
    Hero11Black,
    Fusion,
    GoProMax,
    GoProKarma,
}

/// The model a display-name string names, if any; the very first model
/// identified itself only as a camera.
pub open spec fn known_device(s: Seq<char>) -> Option<DeviceName> {
    if s == "Camera"@ || s == "Hero5 Black"@ || s == "HERO5 Black"@ {
        Some(DeviceName::Hero5Black)
    } else if s == "Hero6 Black"@ || s == "HERO6 Black"@ {
        Some(DeviceName::Hero6Black)
    } else if s == "Hero7 Black"@ || s == "HERO7 Black"@ {
        Some(DeviceName::Hero7Black)
    } else if s == "Hero8 Black"@ || s == "HERO8 Black"@ {
        Some(DeviceName::Hero8Black)
    } else if s == "Hero9 Black"@ || s == "HERO9 Black"@ {
        Some(DeviceName::Hero9Black)
    } else if s == "Hero10 Black"@ || s == "HERO10 Black"@ {
        Some(DeviceName::Hero10Black)
    } else if s == "Hero11 Black"@ || s == "HERO11 Black"@ {
        Some(DeviceName::Hero11Black)
    } else if s == "Fusion"@ || s == "FUSION"@ {
        Some(DeviceName::Fusion)
    } else if s == "GoPro Max"@ {
        Some(DeviceName::GoProMax)
    } else if s == "GoPro Karma v1.0"@ {
        Some(DeviceName::GoProKarma)
    } else {
        None
    }
}

/// The model a three-character firmware prefix names, if any.
pub open spec fn known_firmware(c0: char, c1: char, c2: char) -> Option<DeviceName> {
    if c0 == 'H' && c1 == 'D' && c2 == '5' {
        Some(DeviceName::Hero5Black)
    } else if c0 == 'H' && c1 == 'D' && c2 == '6' {
        Some(DeviceName::Hero6Black)
    } else if c0 == 'F' && c1 == 'S' && c2 == '1' {
        Some(DeviceName::Fusion)
    } else if c0 == 'H' && c1 == 'D' && c2 == '7' {
        Some(DeviceName::Hero7Black)
    } else if c0 == 'H' && c1 == 'D' && c2 == '8' {
        Some(DeviceName::Hero8Black)
    } else if c0 == 'H' && c1 == 'D' && c2 == '9' {
        Some(DeviceName::Hero9Black)
    } else if c0 == 'H' && c1 == '1' && c2 == '9' {
        Some(DeviceName::GoProMax)
    } else if c0 == 'H' && c1 == '2' && c2 == '0' {
        Some(DeviceName::Hero9Black)
    } else if c0 == 'H' && c1 == '2' && c2 == '1' {
        Some(DeviceName::Hero10Black)
    } else if c0 == 'H' && c1 == '2' && c2 == '2' {
        Some(DeviceName::Hero11Black)
    } else {
        None
    }
}

impl DeviceName {
    /// The model a firmware identifier names, decided by its first three
    /// characters.
    pub fn from_firmware_id(id: &str) -> (r: Option<DeviceName>)
        requires
            id@.len() >= 3,
        ensures
            r == known_firmware(id@[0], id@[1], id@[2]),
    {
        let c0 = id.get_char(0);
        let c1 = id.get_char(1);
        let c2 = id.get_char(2);
        if c0 == 'H' && c1 == 'D' && c2 == '5' {
            Some(DeviceName::Hero5Black)
        } else if c0 == 'H' && c1 == 'D' && c2 == '6' {
            Some(DeviceName::Hero6Black)
        } else if c0 == 'F' && c1 == 'S' && c2 == '1' {
            Some(DeviceName::Fusion)
        } else if c0 == 'H' && c1 == 'D' && c2 == '7' {
            Some(DeviceName::Hero7Black)
        } else if c0 == 'H' && c1 == 'D' && c2 == '8' {
            Some(DeviceName::Hero8Black)
        } else if c0 == 'H' && c1 == 'D' && c2 == '9' {
            Some(DeviceName::Hero9Black)
        } else if c0 == 'H' && c1 == '1' && c2 == '9' {
            Some(DeviceName::GoProMax)
        } else if c0 == 'H' && c1 == '2' && c2 == '0' {
            Some(DeviceName::Hero9Black)
        } else if c0 == 'H' && c1 == '2' && c2 == '1' {
            Some(DeviceName::Hero10Black)
        } else if c0 == 'H' && c1 == '2' && c2 == '2' {
            Some(DeviceName::Hero11Black)
        } else {
            None
        }
    }

    /// The model a display name (as logged in a device-name record) names,
    /// with surrounding whitespace ignored.
    pub fn from_str(model: &str) -> (r: Option<DeviceName>)
        ensures
            r == known_device(trimmed(model@)),
    {
        let m = trim_spaces(model);
        if str_eq(m, "Camera") || str_eq(m, "Hero5 Black") || str_eq(m, "HERO5 Black") {
            Some(DeviceName::Hero5Black)
        } else if str_eq(m, "Hero6 Black") || str_eq(m, "HERO6 Black") {
            Some(DeviceName::Hero6Black)
        } else if str_eq(m, "Hero7 Black") || str_eq(m, "HERO7 Black") {
            Some(DeviceName::Hero7Black)
        } else if str_eq(m, "Hero8 Black") || str_eq(m, "HERO8 Black") {
            Some(DeviceName::Hero8Black)
        } else if str_eq(m, "Hero9 Black") || str_eq(m, "HERO9 Black") {
            Some(DeviceName::Hero9Black)
        } else if str_eq(m, "Hero10 Black") || str_eq(m, "HERO10 Black") {
            Some(DeviceName::Hero10Black)
        } else if str_eq(m, "Hero11 Black") || str_eq(m, "HERO11 Black") {
            Some(DeviceName::Hero11Black)
        } else if str_eq(m, "Fusion") || str_eq(m, "FUSION") {
            Some(DeviceName::Fusion)
        } else if str_eq(m, "GoPro Max") {
            Some(DeviceName::GoProMax)
        } else if str_eq(m, "GoPro Karma v1.0") {
            Some(DeviceName::GoProKarma)
        } else {
            None
        }
    }

    /// The model's display name.
    pub open spec fn spec_render(&self) -> Seq<char> {
        match self {
            DeviceName::Hero5Black => "Hero5 Black"@,
            DeviceName::Hero6Black => "Hero6 Black"@,
            DeviceName::Hero7Black => "Hero7 Black"@,
            DeviceName::Hero8Black => "Hero8 Black"@,
            DeviceName::Hero9Black => "Hero9 Black"@,
            DeviceName::Hero10Black => "Hero10 Black"@,
            DeviceName::Hero11Black => "Hero11 Black"@,
            DeviceName::Fusion => "Fusion"@,
            DeviceName::GoProMax => "GoPro Max"@,
            DeviceName::GoProKarma => "GoPro Karma v1.0"@,
        }
    }

    /// The model's display name.
    pub fn to_str(&self) -> (r: &str)
        ensures
            r@ == self.spec_render(),
    {
        match self {
            DeviceName::Hero5Black => "Hero5 Black",
            DeviceName::Hero6Black => "Hero6 Black",
            DeviceName::Hero7Black => "Hero7 Black",
            DeviceName::Hero8Black => "Hero8 Black",
            DeviceName::Hero9Black => "Hero9 Black",
            DeviceName::Hero10Black => "Hero10 Black",
            DeviceName::Hero11Black => "Hero11 Black",
            DeviceName::Fusion => "Fusion",
            DeviceName::GoProMax => "GoPro Max",
            DeviceName::GoProKarma => "GoPro Karma v1.0",
        }
    }
}

impl Default for DeviceName {
    /// The first model that emitted this format.
    fn default() -> (r: Self)
        ensures
            r == DeviceName::Hero5Black,
    {
        DeviceName::Hero5Black
    }
}

} // verus!
