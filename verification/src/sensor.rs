//! Three-axis sensor extraction: accelerometer, gyroscope and gravity
//! readings remapped from the physical mounting order into canonical
//! x, y, z and descaled against the shared scale record.

use vstd::prelude::*;

use crate::data_types::DataType;
use crate::device_name::DeviceName;
use crate::fourcc::FourCC;
use crate::gps::{firsts_of, rows_of, Ratio};
use crate::stream::{Matched, Stream, StreamType};
use crate::timestamp::Timestamp;
use crate::value::{spec_string_of, Value};

verus! {

/// Physical orientation of the sensor module inside the camera: the order
/// in which the three logged numbers stand for the x, y and z axes.
#[derive(Debug, Clone, Copy, PartialEq, Eq, Structural)]
pub enum Orientation {
    XYZ,
    XZY,
    YZX,
    YXZ,
    ZXY,
    ZYX,
    /// An orientation record that names no known order.
    Invalid,
}

/// A sensor kind with a named stream per chunk.
#[derive(Debug, Clone, Copy, PartialEq, Eq, Structural)]
pub enum SensorType {
    Accelerometer,
    GravityVector,
    Gyroscope,
    Unknown,
}

/// The physical quantity a sensor kind measures.
#[derive(Debug, Clone, Copy, PartialEq, Eq, Structural)]
pub enum SensorQuantifier {
    Acceleration,
    Rotation,
    GravityDirection,
    Unknown,
}

/// An ASCII letter folded to lower case.
pub open spec fn lower(c: char) -> char {
    if 'A' <= c && c <= 'Z' {
        ((c as u8) + 32) as char
    } else {
        c
    }
}

/// The orientation three characters name, case-insensitively.
pub open spec fn spec_orientation_from(s: Seq<char>) -> Orientation {
    if s.len() != 3 {
        Orientation::Invalid
    } else {
        let a = lower(s[0]);
        let b = lower(s[1]);
        let c = lower(s[2]);
        if a == 'x' && b == 'y' && c == 'z' {
            Orientation::XYZ
        } else if a == 'x' && b == 'z' && c == 'y' {
            Orientation::XZY
        } else if a == 'y' && b == 'z' && c == 'x' {
            Orientation::YZX
        } else if a == 'y' && b == 'x' && c == 'z' {
            Orientation::YXZ
        } else if a == 'z' && b == 'x' && c == 'y' {
            Orientation::ZXY
        } else if a == 'z' && b == 'y' && c == 'x' {
            Orientation::ZYX
        } else {
            Orientation::Invalid
        }
    }
}

fn lower_char(c: char) -> (r: char)
    ensures
        r == lower(c),
{
    if c >= 'A' && c <= 'Z' {
        ((c as u8) + 32) as char
    } else {
        c
    }
}

impl Orientation {
    /// The orientation a string names, case-insensitively; anything else
    /// is the invalid orientation.
    pub fn from_str(value: &str) -> (r: Orientation)
        ensures
            r == spec_orientation_from(value@),
    {
        if value.unicode_len() != 3 {
            return Orientation::Invalid;
        }
        let a = lower_char(value.get_char(0));
        let b = lower_char(value.get_char(1));
        let c = lower_char(value.get_char(2));
        if a == 'x' && b == 'y' && c == 'z' {
            Orientation::XYZ
        } else if a == 'x' && b == 'z' && c == 'y' {
            Orientation::XZY
        } else if a == 'y' && b == 'z' && c == 'x' {
            Orientation::YZX
        } else if a == 'y' && b == 'x' && c == 'z' {
            Orientation::YXZ
        } else if a == 'z' && b == 'x' && c == 'y' {
            Orientation::ZXY
        } else if a == 'z' && b == 'y' && c == 'x' {
            Orientation::ZYX
        } else {
            Orientation::Invalid
        }
    }
}

/// A raw triplet remapped into canonical order: which logged slot each of
/// x, y and z comes from, by the named mounting order. The invalid
/// orientation maps nothing.
pub open spec fn spec_remap(o: Orientation, raw: Seq<i128>) -> Option<(i128, i128, i128)> {
    if raw.len() < 3 {
        None
    } else {
        match o {
            Orientation::XYZ => Some((raw[0], raw[1], raw[2])),
            Orientation::XZY => Some((raw[0], raw[2], raw[1])),
            Orientation::YZX => Some((raw[2], raw[0], raw[1])),
            Orientation::YXZ => Some((raw[1], raw[0], raw[2])),
            Orientation::ZXY => Some((raw[1], raw[2], raw[0])),
            Orientation::ZYX => Some((raw[2], raw[1], raw[0])),
            Orientation::Invalid => None,
        }
    }
}

/// One reading: the remapped triplet, each component an exact ratio of its
/// raw value over the shared scale.
#[derive(Debug, Clone, Copy, PartialEq, Eq, Structural)]
pub struct SensorField {
    pub x: Ratio,
    pub y: Ratio,
    pub z: Ratio,
}

impl SensorField {
    /// One reading from one raw triplet: remap by the mounting order, then
    /// put each raw component over the scale. A short tuple or the invalid
    /// orientation yields nothing.
    pub fn new(xyz: &Vec<i128>, scale: i128, orientation: &Orientation) -> (r: Option<
        SensorField,
    >)
        ensures
            match spec_remap(*orientation, xyz@) {
                Some(t) => r == Some(
                    SensorField {
                        x: Ratio { num: t.0, den: scale },
                        y: Ratio { num: t.1, den: scale },
                        z: Ratio { num: t.2, den: scale },
                    },
                ),
                None => r is None,
            },
    {
        if xyz.len() < 3 {
            return None;
        }
        let (x, y, z): (i128, i128, i128) = match orientation {
            Orientation::XYZ => (xyz[0], xyz[1], xyz[2]),
            Orientation::XZY => (xyz[0], xyz[2], xyz[1]),
            Orientation::YZX => (xyz[2], xyz[0], xyz[1]),
            Orientation::YXZ => (xyz[1], xyz[0], xyz[2]),
            Orientation::ZXY => (xyz[1], xyz[2], xyz[0]),
            Orientation::ZYX => (xyz[2], xyz[1], xyz[0]),
            Orientation::Invalid => {
                return None;
            },
        };
        Some(
            SensorField {
                x: Ratio { num: x, den: scale },
                y: Ratio { num: y, den: scale },
                z: Ratio { num: z, den: scale },
            },
        )
    }
}

impl SensorType {
    /// The content-type name a sensor kind's stream carries on the given
    /// device: the earliest generations label their accelerometer and
    /// gyroscope streams differently.
    pub fn as_datatype(&self, device: &DeviceName) -> (r: DataType)
        ensures
            !(self matches SensorType::Unknown) ==> r == spec_sensor_datatype(*self, *device),
            self matches SensorType::Unknown ==> r matches DataType::Other(s) && s@ == "Unkown"@,
    {
        match self {
            SensorType::Accelerometer => match device {
                DeviceName::Hero5Black => DataType::AccelerometerUrf,
                DeviceName::Hero6Black => DataType::AccelerometerUrf,
                _ => DataType::Accelerometer,
            },
            SensorType::GravityVector => DataType::GravityVector,
            SensorType::Gyroscope => match device {
                DeviceName::Hero5Black => DataType::GyroscopeZxy,
                DeviceName::Hero6Black => DataType::GyroscopeZxy,
                _ => DataType::Gyroscope,
            },
            SensorType::Unknown => DataType::Other(String::from_str("Unkown")),
        }
    }

    /// The sensor kind behind a content type.
    pub fn from_datatype(data_type: &DataType) -> (r: SensorType)
        ensures
            r == spec_sensor_of_datatype(data_type),
    {
        match data_type {
            DataType::Accelerometer => SensorType::Accelerometer,
            DataType::AccelerometerUrf => SensorType::Accelerometer,
            DataType::GravityVector => SensorType::GravityVector,
            DataType::Gyroscope => SensorType::Gyroscope,
            DataType::GyroscopeZxy => SensorType::Gyroscope,
            _ => SensorType::Unknown,
        }
    }

    /// The unit the sensor kind's readings are stated in.
    pub fn units(&self) -> (r: &str)
        ensures
            r@ == spec_sensor_units(*self),
    {
        match self {
            SensorType::Accelerometer => "m/s\u{b2}",
            SensorType::GravityVector => "N/A",
            SensorType::Gyroscope => "rad/s",
            SensorType::Unknown => "N/A",
        }
    }

    /// The name of the physical quantity the sensor kind measures.
    pub fn quantifier(&self) -> (r: &str)
        ensures
            r@ == spec_sensor_quantifier_name(*self),
    {
        match self {
            SensorType::Accelerometer => "Acceleration",
            SensorType::GravityVector => "N/A",
            SensorType::Gyroscope => "Rotation",
            SensorType::Unknown => "N/A",
        }
    }

    /// The tag of the raw data record this sensor kind reads.
    pub fn fourcc(&self) -> (r: Option<FourCC>)
        ensures
            match self {
                SensorType::Accelerometer => r == Some(FourCC::ACCL),
                SensorType::Gyroscope => r == Some(FourCC::GYRO),
                SensorType::GravityVector => r == Some(FourCC::GRAV),
                SensorType::Unknown => r is None,
            },
    {
        match self {
            SensorType::Accelerometer => Some(FourCC::ACCL),
            SensorType::Gyroscope => Some(FourCC::GYRO),
            SensorType::GravityVector => Some(FourCC::GRAV),
            SensorType::Unknown => None,
        }
    }
}

/// The content-type name a sensor kind's stream carries on a device.
pub open spec fn spec_sensor_datatype(s: SensorType, device: DeviceName) -> DataType {
    match s {
        SensorType::Accelerometer => if device == DeviceName::Hero5Black || device
            == DeviceName::Hero6Black {
            DataType::AccelerometerUrf
        } else {
            DataType::Accelerometer
        },
        SensorType::GravityVector => DataType::GravityVector,
        SensorType::Gyroscope => if device == DeviceName::Hero5Black || device
            == DeviceName::Hero6Black {
            DataType::GyroscopeZxy
        } else {
            DataType::Gyroscope
        },
        SensorType::Unknown => arbitrary(),
    }
}

/// The sensor kind behind a content type.
pub open spec fn spec_sensor_of_datatype(d: &DataType) -> SensorType {
    match d {
        DataType::Accelerometer => SensorType::Accelerometer,
        DataType::AccelerometerUrf => SensorType::Accelerometer,
        DataType::GravityVector => SensorType::GravityVector,
        DataType::Gyroscope => SensorType::Gyroscope,
        DataType::GyroscopeZxy => SensorType::Gyroscope,
        _ => SensorType::Unknown,
    }
}

/// The unit a sensor kind's readings are stated in.
pub open spec fn spec_sensor_units(s: SensorType) -> Seq<char> {
    match s {
        SensorType::Accelerometer => "m/s\u{b2}"@,
        SensorType::GravityVector => "N/A"@,
        SensorType::Gyroscope => "rad/s"@,
        SensorType::Unknown => "N/A"@,
    }
}

/// The name of the physical quantity a sensor kind measures.
pub open spec fn spec_sensor_quantifier_name(s: SensorType) -> Seq<char> {
    match s {
        SensorType::Accelerometer => "Acceleration"@,
        SensorType::GravityVector => "N/A"@,
        SensorType::Gyroscope => "Rotation"@,
        SensorType::Unknown => "N/A"@,
    }
}

impl SensorQuantifier {
    /// The quantity a sensor kind measures.
    pub fn from_sensor(value: &SensorType) -> (r: SensorQuantifier)
        ensures
            r == spec_quantifier_of(*value),
    {
        match value {
            SensorType::Accelerometer => SensorQuantifier::Acceleration,
            SensorType::GravityVector => SensorQuantifier::GravityDirection,
            SensorType::Gyroscope => SensorQuantifier::Rotation,
            SensorType::Unknown => SensorQuantifier::Unknown,
        }
    }
}

/// The quantity a sensor kind measures.
pub open spec fn spec_quantifier_of(s: SensorType) -> SensorQuantifier {
    match s {
        SensorType::Accelerometer => SensorQuantifier::Acceleration,
        SensorType::GravityVector => SensorQuantifier::GravityDirection,
        SensorType::Gyroscope => SensorQuantifier::Rotation,
        SensorType::Unknown => SensorQuantifier::Unknown,
    }
}

/// The shared scale of a named sensor stream: the leading number of the
/// scale record's first value.
pub open spec fn spec_scale_of(s: Stream) -> Option<i128> {
    match s.spec_find(&FourCC::SCAL) {
        Some(sc) => match sc.streams {
            StreamType::Values(svals) => match firsts_of(svals@) {
                Some(hs) => if hs.len() > 0 {
                    Some(hs[0])
                } else {
                    None
                },
                None => None,
            },
            StreamType::Nested(_) => None,
        },
        None => None,
    }
}

/// The orientation record's string, if one is present.
pub open spec fn spec_orin_of(s: Stream) -> Option<Seq<char>> {
    match s.spec_find(&FourCC::ORIN) {
        Some(o) => match o.spec_first_value() {
            Some(v) => spec_string_of(&v),
            None => None,
        },
        None => None,
    }
}

/// The unit record's string, if one is present.
pub open spec fn spec_units_of(s: Stream) -> Option<Seq<char>> {
    match s.spec_find(&FourCC::SIUN) {
        Some(o) => match o.spec_first_value() {
            Some(v) => spec_string_of(&v),
            None => None,
        },
        None => None,
    }
}

/// The total-samples record's count.
pub open spec fn spec_total_of(s: Stream) -> Option<u32> {
    match s.spec_find(&FourCC::TSMP) {
        Some(o) => match o.spec_first_value() {
            Some(v) => match v {
                Value::Uint32(ns) => if ns@.len() > 0 {
                    Some(ns@[0])
                } else {
                    None
                },
                _ => None,
            },
            None => None,
        },
        None => None,
    }
}

/// The mounting order in effect: the orientation record's, or the default
/// order the earliest generations used when no record is present.
pub open spec fn spec_sensor_orientation(s: Stream) -> Orientation {
    match spec_orin_of(s) {
        Some(txt) => spec_orientation_from(txt),
        None => Orientation::ZXY,
    }
}

/// The integer rows of the raw data record with the given tag.
pub open spec fn spec_sensor_rows(s: Stream, tag: FourCC) -> Option<Seq<Seq<i128>>> {
    match s.spec_find(&tag) {
        Some(g) => match g.streams {
            StreamType::Values(vals) => rows_of(vals@),
            StreamType::Nested(_) => None,
        },
        None => None,
    }
}

/// What a named sensor stream must provide: its scale, its sample total,
/// and its raw rows.
pub open spec fn sensor_ready(s: Stream, tag: FourCC) -> Option<(i128, u32, Seq<Seq<i128>>)> {
    match spec_scale_of(s) {
        Some(scale) => match spec_total_of(s) {
            Some(total) => match spec_sensor_rows(s, tag) {
                Some(rows) => Some((scale, total, rows)),
                None => None,
            },
            None => None,
        },
        None => None,
    }
}

/// The readings of the raw rows: each at-least-three-wide row remapped and
/// descaled; rows the mounting order cannot map are dropped.
pub open spec fn spec_sensor_fields(
    rows: Seq<Seq<i128>>,
    scale: i128,
    o: Orientation,
) -> Seq<SensorField>
    decreases rows.len(),
{
    if rows.len() == 0 {
        Seq::empty()
    } else {
        let rest = spec_sensor_fields(rows.drop_last(), scale, o);
        match spec_remap(o, rows.last()) {
            Some(tr) => rest.push(
                SensorField {
                    x: Ratio { num: tr.0, den: scale },
                    y: Ratio { num: tr.1, den: scale },
                    z: Ratio { num: tr.2, den: scale },
                },
            ),
            None => rest,
        }
    }
}

/// The sensor readings of one named stream: one reading per raw triplet,
/// with the stream's unit, sample total, mounting order, and the parent
/// chunk's timing.
#[derive(Debug)]
pub struct SensorData {
    /// The device the readings come from.
    pub device: DeviceName,
    /// The sensor kind.
    pub sensor: SensorType,
    /// The unit record's text, if any.
    pub units: Option<String>,
    /// The physical quantity measured.
    pub quantifier: SensorQuantifier,
    /// Samples delivered since recording start, as the stream counts them.
    pub total: u32,
    /// The mounting order applied to the raw triplets.
    pub orientation: Orientation,
    /// The readings, in order.
    pub fields: Vec<SensorField>,
    /// Milliseconds from recording start, from the parent chunk.
    pub timestamp_ms: Option<i64>,
    /// The parent chunk's duration in milliseconds.
    pub duration_ms: Option<i64>,
}

/// What one extracted sensor record must hold, given what its stream
/// provides.
pub open spec fn sensor_data_ok(
    sd: &SensorData,
    s: Stream,
    time: Option<Timestamp>,
    sensor: SensorType,
    device: DeviceName,
    scale: i128,
    total: u32,
    rows: Seq<Seq<i128>>,
) -> bool {
    &&& sd.device == device
    &&& sd.sensor == sensor
    &&& sd.quantifier == spec_quantifier_of(sensor)
    &&& sd.total == total
    &&& sd.orientation == spec_sensor_orientation(s)
    &&& sd.fields@ == spec_sensor_fields(rows, scale, spec_sensor_orientation(s))
    &&& match spec_units_of(s) {
        Some(u) => sd.units matches Some(x) && x@ == u,
        None => sd.units is None,
    }
    &&& sd.timestamp_ms == match time {
        Some(t) => Some(t.relative),
        None => None::<i64>,
    }
    &&& sd.duration_ms == match time {
        Some(t) => Some(t.duration),
        None => None::<i64>,
    }
}

impl SensorData {
    /// The readings of one matched named stream. Nothing comes out for the
    /// unknown sensor kind, or when the scale, sample-total or raw data
    /// record is missing or not integer-valued.
    pub fn new(m: &Matched<'_>, sensor: &SensorType, device: &DeviceName) -> (r: Option<
        SensorData,
    >)
        ensures
            match sensor.fourcc_spec() {
                Some(tag) => match sensor_ready(*m.stream, tag) {
                    Some(ready) => r matches Some(sd) && sensor_data_ok(
                        &sd,
                        *m.stream,
                        m.time,
                        *sensor,
                        *device,
                        ready.0,
                        ready.1,
                        ready.2,
                    ),
                    None => r is None,
                },
                None => r is None,
            },
    {
        let s = m.stream;
        let tag = match sensor.fourcc() {
            Some(t) => t,
            None => {
                return None;
            },
        };
        let scale: i128 = match s.find(&FourCC::SCAL) {
            Some(sc) => match sc.values() {
                Some(svals) => match crate::gps::firsts_of_values(svals) {
                    Some(hs) => if hs.len() > 0 {
                        hs[0]
                    } else {
                        return None;
                    },
                    None => {
                        return None;
                    },
                },
                None => {
                    return None;
                },
            },
            None => {
                return None;
            },
        };
        let orientation: Orientation = match s.find(&FourCC::ORIN) {
            Some(o) => match o.first_value() {
                Some(Value::Ascii(txt)) => Orientation::from_str(txt.as_str()),
                Some(Value::Datetime(txt)) => Orientation::from_str(txt.as_str()),
                Some(Value::FourCC(txt)) => Orientation::from_str(txt.as_str()),
                Some(Value::Utf8(txt)) => Orientation::from_str(txt.as_str()),
                _ => Orientation::ZXY,
            },
            None => Orientation::ZXY,
        };
        proof {
            assert(orientation == spec_sensor_orientation(*m.stream));
        }
        let units: Option<String> = match s.find(&FourCC::SIUN) {
            Some(o) => match o.first_value() {
                Some(Value::Ascii(txt)) => Some(txt.clone()),
                Some(Value::Datetime(txt)) => Some(txt.clone()),
                Some(Value::FourCC(txt)) => Some(txt.clone()),
                Some(Value::Utf8(txt)) => Some(txt.clone()),
                _ => None,
            },
            None => None,
        };
        let total: u32 = match s.find(&FourCC::TSMP) {
            Some(o) => match o.first_value() {
                Some(Value::Uint32(ns)) => if ns.len() > 0 {
                    ns[0]
                } else {
                    return None;
                },
                _ => {
                    return None;
                },
            },
            None => {
                return None;
            },
        };
        let g = match s.find(&tag) {
            Some(g) => g,
            None => {
                return None;
            },
        };
        let vals = match g.values() {
            Some(v) => v,
            None => {
                return None;
            },
        };
        let rows = match crate::gps::rows_of_values(vals) {
            Some(x) => x,
            None => {
                return None;
            },
        };
        let ghost rr = rows@.map_values(|v: Vec<i128>| v@);
        let mut fields: Vec<SensorField> = Vec::new();
        let m2 = rows.len();
        let mut i: usize = 0;
        while i < m2
            invariant
                m2 == rows@.len() == rr.len(),
                rr == rows@.map_values(|v: Vec<i128>| v@),
                i <= m2,
                fields@ == spec_sensor_fields(rr.take(i as int), scale, orientation),
            decreases m2 - i,
        {
            proof {
                assert(rr.take(i as int + 1).drop_last() =~= rr.take(i as int));
                assert(rr.take(i as int + 1).last() == rr[i as int]);
                assert(rr[i as int] == rows@[i as int]@);
            }
            match SensorField::new(&rows[i], scale, &orientation) {
                Some(f) => fields.push(f),
                None => {},
            }
            i = i + 1;
        }
        proof {
            assert(rr.take(m2 as int) =~= rr);
        }
        let (timestamp_ms, duration_ms): (Option<i64>, Option<i64>) = match &m.time {
            Some(t) => (Some(t.relative), Some(t.duration)),
            None => (None, None),
        };
        Some(
            SensorData {
                device: *device,
                sensor: *sensor,
                units,
                quantifier: SensorQuantifier::from_sensor(sensor),
                total,
                orientation,
                fields,
                timestamp_ms,
                duration_ms,
            },
        )
    }

    /// Number of readings.
    pub fn len(&self) -> (r: usize)
        ensures
            r == self.fields@.len(),
    {
        self.fields.len()
    }

    /// The first-axis component of every reading, in order.
    pub fn x(&self) -> (r: Vec<Ratio>)
        ensures
            r@ == self.fields@.map_values(|f: SensorField| f.x),
    {
        let mut out: Vec<Ratio> = Vec::new();
        let m = self.fields.len();
        let mut i: usize = 0;
        while i < m
            invariant
                m == self.fields@.len(),
                i <= m,
                out@.len() == i,
                forall|j: int|
                    0 <= j < i ==> out@[j] == self.fields@.map_values(|f: SensorField| f.x)[j],
            decreases m - i,
        {
            out.push(self.fields[i].x);
            i = i + 1;
        }
        proof {
            assert(out@ =~= self.fields@.map_values(|f: SensorField| f.x));
        }
        out
    }

    /// The second-axis component of every reading, in order.
    pub fn y(&self) -> (r: Vec<Ratio>)
        ensures
            r@ == self.fields@.map_values(|f: SensorField| f.y),
    {
        let mut out: Vec<Ratio> = Vec::new();
        let m = self.fields.len();
        let mut i: usize = 0;
        while i < m
            invariant
                m == self.fields@.len(),
                i <= m,
                out@.len() == i,
                forall|j: int|
                    0 <= j < i ==> out@[j] == self.fields@.map_values(|f: SensorField| f.y)[j],
            decreases m - i,
        {
            out.push(self.fields[i].y);
            i = i + 1;
        }
        proof {
            assert(out@ =~= self.fields@.map_values(|f: SensorField| f.y));
        }
        out
    }

    /// The third-axis component of every reading, in order.
    pub fn z(&self) -> (r: Vec<Ratio>)
        ensures
            r@ == self.fields@.map_values(|f: SensorField| f.z),
    {
        let mut out: Vec<Ratio> = Vec::new();
        let m = self.fields.len();
        let mut i: usize = 0;
        while i < m
            invariant
                m == self.fields@.len(),
                i <= m,
                out@.len() == i,
                forall|j: int|
                    0 <= j < i ==> out@[j] == self.fields@.map_values(|f: SensorField| f.z)[j],
            decreases m - i,
        {
            out.push(self.fields[i].z);
            i = i + 1;
        }
        proof {
            assert(out@ =~= self.fields@.map_values(|f: SensorField| f.z));
        }
        out
    }

    /// Every reading as a component triple, in order.
    pub fn xyz(&self) -> (r: Vec<(Ratio, Ratio, Ratio)>)
        ensures
            r@ == self.fields@.map_values(|f: SensorField| (f.x, f.y, f.z)),
    {
        let mut out: Vec<(Ratio, Ratio, Ratio)> = Vec::new();
        let m = self.fields.len();
        let mut i: usize = 0;
        while i < m
            invariant
                m == self.fields@.len(),
                i <= m,
                out@.len() == i,
                forall|j: int|
                    0 <= j < i ==> out@[j] == self.fields@.map_values(
                        |f: SensorField| (f.x, f.y, f.z),
                    )[j],
            decreases m - i,
        {
            let f = &self.fields[i];
            out.push((f.x, f.y, f.z));
            i = i + 1;
        }
        proof {
            assert(out@ =~= self.fields@.map_values(|f: SensorField| (f.x, f.y, f.z)));
        }
        out
    }
}

impl SensorType {
    /// The tag of the raw data record this sensor kind reads.
    pub open spec fn fourcc_spec(&self) -> Option<FourCC> {
        match self {
            SensorType::Accelerometer => Some(FourCC::ACCL),
            SensorType::Gyroscope => Some(FourCC::GYRO),
            SensorType::GravityVector => Some(FourCC::GRAV),
            SensorType::Unknown => None,
        }
    }
}

} // verus!
