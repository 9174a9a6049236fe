//! Content types: the free-text stream names that identify what kind of
//! telemetry a named sub-stream holds. Devices can only be told apart by
//! this free text, which differs between models for the same kind of data.

use vstd::prelude::*;

verus! {

/// A known content type, or any other stream name kept verbatim.
#[derive(Debug, Clone)]
pub enum DataType {
    Accelerometer,
    AccelerometerUrf,
    AgcAudioLevel,
    AverageLuminance,
    CameraOrientation,
    ExposureTime,
    FaceCoordinates,
    Gps5,
    Gps9,
    GravityVector,
    Gyroscope,
    GyroscopeZxy,
    ImageUniformity,
    ImageOrientation,
    LrvFrameSkip,
    MicrophoneWet,
    MrvFrameSkip,
    PredominantHue,
    SceneClassification,
    SensorGain,
    SensorIso,
    SensorReadOutTime,
    WhiteBalanceRgbGains,
    WhiteBalanceTemperature,
    WindProcessing,
    Other(String),
}

/// The known content type a stream name maps to, if any. One renamed
/// entry maps from a longer historical name than it renders to.
pub open spec fn known_datatype(s: Seq<char>) -> Option<DataType> {
    if s == "Accelerometer"@ {
        Some(DataType::Accelerometer)
    } else if s == "Accelerometer (up/down, right/left, forward/back)"@ {
        Some(DataType::AccelerometerUrf)
    } else if s == "AGC audio level[rms_level ,peak_level]"@ {
        Some(DataType::AgcAudioLevel)
    } else if s == "Average luminance"@ {
        Some(DataType::AverageLuminance)
    } else if s == "CameraOrientation"@ {
        Some(DataType::CameraOrientation)
    } else if s == "Exposure time (shutter speed)"@ {
        Some(DataType::ExposureTime)
    } else if s == "Face Coordinates and details"@ {
        Some(DataType::FaceCoordinates)
    } else if s == "GPS (Lat., Long., Alt., 2D speed, 3D speed)"@ {
        Some(DataType::Gps5)
    } else if s == "GPS (Lat., Long., Alt., 2D, 3D, days, secs, DOP, fix)"@ {
        Some(DataType::Gps9)
    } else if s == "Gravity Vector"@ {
        Some(DataType::GravityVector)
    } else if s == "Gyroscope"@ {
        Some(DataType::Gyroscope)
    } else if s == "Gyroscope (z,x,y)"@ {
        Some(DataType::GyroscopeZxy)
    } else if s == "Image uniformity"@ {
        Some(DataType::ImageUniformity)
    } else if s == "ImageOrientation"@ {
        Some(DataType::ImageOrientation)
    } else if s == "LRV Frame Skip"@ {
        Some(DataType::LrvFrameSkip)
    } else if s == "Microphone Wet[mic_wet, all_mics, confidence]"@ {
        Some(DataType::MicrophoneWet)
    } else if s == "MRV Frame Skip"@ {
        Some(DataType::MrvFrameSkip)
    } else if s == "Predominant hue[[hue, weight], ...]"@ {
        Some(DataType::PredominantHue)
    } else if s == "Scene classification[[CLASSIFIER_FOUR_CC,prob], ...]"@ {
        Some(DataType::SceneClassification)
    } else if s == "Sensor gain (ISO x100)"@ {
        Some(DataType::SensorGain)
    } else if s == "Sensor ISO"@ {
        Some(DataType::SensorIso)
    } else if s == "Sensor read out time"@ {
        Some(DataType::SensorReadOutTime)
    } else if s == "White Balance RGB gains"@ {
        Some(DataType::WhiteBalanceRgbGains)
    } else if s == "White Balance temperature (Kelvin)"@ {
        Some(DataType::WhiteBalanceTemperature)
    } else if s == "Wind Processing[wind_enable, meter_value(0 - 100)]"@ {
        Some(DataType::WindProcessing)
    } else {
        None
    }
}

/// What parsing a stream name must yield.
pub open spec fn parsed_datatype(r: DataType, s: Seq<char>) -> bool {
    match known_datatype(s) {
        Some(d) => r == d,
        None => r matches DataType::Other(o) && o@ == s,
    }
}

/// Whether two strings spell the same characters.
pub fn str_eq(a: &str, b: &str) -> (r: bool)
    ensures
        r == (a@ == b@),
{
    let x = a.to_owned();
    let y = b.to_owned();
    x.eq(&y)
}

impl DataType {
    /// The stream name this content type renders to.
    pub open spec fn spec_render(&self) -> Seq<char> {
        match self {
            DataType::Accelerometer => "Accelerometer"@,
            DataType::AccelerometerUrf => "Accelerometer (up/down, right/left, forward/back)"@,
            DataType::AgcAudioLevel => "AGC audio level[rms_level ,peak_level]"@,
            DataType::AverageLuminance => "Average luminance"@,
            DataType::CameraOrientation => "CameraOrientation"@,
            DataType::ExposureTime => "Exposure time (shutter speed)"@,
            DataType::FaceCoordinates => "Face Coordinates and details"@,
            DataType::Gps5 => "GPS (Lat., Long., Alt., 2D speed, 3D speed)"@,
            DataType::Gps9 => "GPS (Lat., Long., Alt., 2D, 3D, days, secs, DOP, fix)"@,
            DataType::GravityVector => "Gravity Vector"@,
            DataType::Gyroscope => "Gyroscope"@,
            DataType::GyroscopeZxy => "Gyroscope (z,x,y)"@,
            DataType::ImageUniformity => "Image uniformity"@,
            DataType::ImageOrientation => "ImageOrientation"@,
            DataType::LrvFrameSkip => "LRV Frame Skip"@,
            DataType::MicrophoneWet => "Microphone Wet[mic_wet, all_mics, confidence]"@,
            DataType::MrvFrameSkip => "MRV Frame Skip"@,
            DataType::PredominantHue => "Predominant hue[[hue, weight], ...]"@,
            DataType::SceneClassification => "Scene classification[[CLASSIFIER_FOUR_CC,prob], ...]"@,
            DataType::SensorGain => "Sensor gain"@,
            DataType::SensorIso => "Sensor ISO"@,
            DataType::SensorReadOutTime => "Sensor read out time"@,
            DataType::WhiteBalanceRgbGains => "White Balance RGB gains"@,
            DataType::WhiteBalanceTemperature => "White Balance temperature (Kelvin)"@,
            DataType::WindProcessing => "Wind Processing[wind_enable, meter_value(0 - 100)]"@,
            DataType::Other(s) => s@,
        }
    }

    /// The stream name as specified inside the telemetry.
    pub fn to_str(&self) -> (r: &str)
        ensures
            r@ == self.spec_render(),
    {
        match self {
            DataType::Accelerometer => "Accelerometer",
            DataType::AccelerometerUrf => "Accelerometer (up/down, right/left, forward/back)",
            DataType::AgcAudioLevel => "AGC audio level[rms_level ,peak_level]",
            DataType::AverageLuminance => "Average luminance",
            DataType::CameraOrientation => "CameraOrientation",
            DataType::ExposureTime => "Exposure time (shutter speed)",
            DataType::FaceCoordinates => "Face Coordinates and details",
            DataType::Gps5 => "GPS (Lat., Long., Alt., 2D speed, 3D speed)",
            DataType::Gps9 => "GPS (Lat., Long., Alt., 2D, 3D, days, secs, DOP, fix)",
            DataType::GravityVector => "Gravity Vector",
            DataType::Gyroscope => "Gyroscope",
            DataType::GyroscopeZxy => "Gyroscope (z,x,y)",
            DataType::ImageUniformity => "Image uniformity",
            DataType::ImageOrientation => "ImageOrientation",
            DataType::LrvFrameSkip => "LRV Frame Skip",
            DataType::MicrophoneWet => "Microphone Wet[mic_wet, all_mics, confidence]",
            DataType::MrvFrameSkip => "MRV Frame Skip",
            DataType::PredominantHue => "Predominant hue[[hue, weight], ...]",
            DataType::SceneClassification => "Scene classification[[CLASSIFIER_FOUR_CC,prob], ...]",
            DataType::SensorGain => "Sensor gain",
            DataType::SensorIso => "Sensor ISO",
            DataType::SensorReadOutTime => "Sensor read out time",
            DataType::WhiteBalanceRgbGains => "White Balance RGB gains",
            DataType::WhiteBalanceTemperature => "White Balance temperature (Kelvin)",
            DataType::WindProcessing => "Wind Processing[wind_enable, meter_value(0 - 100)]",
            DataType::Other(s) => s.as_str(),
        }
    }

    /// The content type a stream name names; an unknown name is kept
    /// verbatim.
    pub fn from_str(stream_type: &str) -> (r: DataType)
        ensures
            parsed_datatype(r, stream_type@),
    {
        if str_eq(stream_type, "Accelerometer") {
            DataType::Accelerometer
        } else if str_eq(stream_type, "Accelerometer (up/down, right/left, forward/back)") {
            DataType::AccelerometerUrf
        } else if str_eq(stream_type, "AGC audio level[rms_level ,peak_level]") {
            DataType::AgcAudioLevel
        } else if str_eq(stream_type, "Average luminance") {
            DataType::AverageLuminance
        } else if str_eq(stream_type, "CameraOrientation") {
            DataType::CameraOrientation
        } else if str_eq(stream_type, "Exposure time (shutter speed)") {
            DataType::ExposureTime
        } else if str_eq(stream_type, "Face Coordinates and details") {
            DataType::FaceCoordinates
        } else if str_eq(stream_type, "GPS (Lat., Long., Alt., 2D speed, 3D speed)") {
            DataType::Gps5
        } else if str_eq(stream_type, "GPS (Lat., Long., Alt., 2D, 3D, days, secs, DOP, fix)") {
            DataType::Gps9
        } else if str_eq(stream_type, "Gravity Vector") {
            DataType::GravityVector
        } else if str_eq(stream_type, "Gyroscope") {
            DataType::Gyroscope
        } else if str_eq(stream_type, "Gyroscope (z,x,y)") {
            DataType::GyroscopeZxy
        } else if str_eq(stream_type, "Image uniformity") {
            DataType::ImageUniformity
        } else if str_eq(stream_type, "ImageOrientation") {
            DataType::ImageOrientation
        } else if str_eq(stream_type, "LRV Frame Skip") {
            DataType::LrvFrameSkip
        } else if str_eq(stream_type, "Microphone Wet[mic_wet, all_mics, confidence]") {
            DataType::MicrophoneWet
        } else if str_eq(stream_type, "MRV Frame Skip") {
            DataType::MrvFrameSkip
        } else if str_eq(stream_type, "Predominant hue[[hue, weight], ...]") {
            DataType::PredominantHue
        } else if str_eq(stream_type, "Scene classification[[CLASSIFIER_FOUR_CC,prob], ...]") {
            DataType::SceneClassification
        } else if str_eq(stream_type, "Sensor gain (ISO x100)") {
            DataType::SensorGain
        } else if str_eq(stream_type, "Sensor ISO") {
            DataType::SensorIso
        } else if str_eq(stream_type, "Sensor read out time") {
            DataType::SensorReadOutTime
        } else if str_eq(stream_type, "White Balance RGB gains") {
            DataType::WhiteBalanceRgbGains
        } else if str_eq(stream_type, "White Balance temperature (Kelvin)") {
            DataType::WhiteBalanceTemperature
        } else if str_eq(stream_type, "Wind Processing[wind_enable, meter_value(0 - 100)]") {
            DataType::WindProcessing
        } else {
            DataType::Other(stream_type.to_owned())
        }
    }
}

} // verus!
