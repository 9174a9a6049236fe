//! GPS and sensor extraction, identifiers and helpers on concrete values.

use gpmf_rs::data_types::DataType;
use gpmf_rs::device_name::DeviceName;
use gpmf_rs::errors::GpmfError;
use gpmf_rs::fourcc::FourCC;
use gpmf_rs::gpmf::Gpmf;
use gpmf_rs::gps::{from_gps5, parse_gpsu, Ratio};
use gpmf_rs::header::Header;
use gpmf_rs::sensor::{Orientation, SensorData, SensorField, SensorQuantifier, SensorType};
use gpmf_rs::stream::{Matched, Stream, StreamType};
use gpmf_rs::timestamp::Timestamp;
use gpmf_rs::util::ends_with_one;
use gpmf_rs::value::Value;

fn terminal(tag: FourCC, basetype: u8, values: Vec<Value>) -> Stream {
    Stream {
        header: Header { fourcc: tag, basetype, basesize: 0, repeats: values.len() as u16, pad: 0 },
        streams: StreamType::Values(values),
        time: None,
    }
}

fn container(tag: FourCC, children: Vec<Stream>) -> Stream {
    Stream {
        header: Header { fourcc: tag, basetype: 0, basesize: 0, repeats: 0, pad: 0 },
        streams: StreamType::Nested(children),
        time: None,
    }
}

fn gps5_strm() -> Stream {
    container(
        FourCC::STRM,
        vec![
            terminal(
                FourCC::GPS5,
                b'l',
                vec![
                    Value::Sint32(vec![10, 20, 0, 1, 1]),
                    Value::Sint32(vec![12, 22, 0, 3, 3]),
                ],
            ),
            terminal(
                FourCC::SCAL,
                b'l',
                vec![
                    Value::Sint32(vec![1]),
                    Value::Sint32(vec![1]),
                    Value::Sint32(vec![1]),
                    Value::Sint32(vec![1]),
                    Value::Sint32(vec![1]),
                ],
            ),
            terminal(FourCC::GPSU, b'U', vec![Value::Datetime("241001120000.000".to_string())]),
            terminal(FourCC::GPSF, b'L', vec![Value::Uint32(vec![3])]),
            terminal(FourCC::GPSP, b'S', vec![Value::Uint16(vec![100])]),
        ],
    )
}

fn assert_ratio_is(r: Ratio, whole: i128) {
    assert_ne!(r.den, 0);
    assert_eq!(r.num, whole * r.den);
}

#[test]
fn gps5_cluster_averages_to_one_point() {
    let strm = gps5_strm();
    let m = Matched { stream: &strm, time: Some(Timestamp { relative: 500, duration: 1000 }) };
    let p = from_gps5(&m).unwrap();
    assert_ratio_is(p.latitude, 11);
    assert_ratio_is(p.longitude, 21);
    assert_ratio_is(p.altitude, 0);
    assert_ratio_is(p.speed2d, 2);
    assert_ratio_is(p.speed3d, 2);
    assert_eq!(p.fix, 3);
    assert_eq!(p.dop.num, 100);
    assert_eq!(p.dop.den, 100);
    assert_eq!(p.time_ms, 500);
    // 2024-10-01 noon, in milliseconds since the start of 2000.
    assert_eq!(p.datetime.ms, 9040i64 * 86_400_000 + 12 * 3_600_000);
}

#[test]
fn gps5_missing_fix_yields_nothing() {
    let strm = container(
        FourCC::STRM,
        vec![terminal(FourCC::GPS5, b'l', vec![Value::Sint32(vec![10, 20, 0, 1, 1])])],
    );
    let m = Matched { stream: &strm, time: None };
    assert!(from_gps5(&m).is_none());
}

#[test]
fn gpsu_text_parses() {
    let dt = parse_gpsu("181007105554.644").unwrap();
    assert_eq!(
        dt.ms,
        6854i64 * 86_400_000 + 10 * 3_600_000 + 55 * 60_000 + 54 * 1000 + 644
    );
    assert!(parse_gpsu("181307105554.644").is_none()); // month 13
    assert!(parse_gpsu("too short").is_none());
}

#[test]
fn sensor_remap_before_scale() {
    // The mounting order that stores logical x in the second slot, y in the
    // third and z in the first: raw (1, 2, 3) reads back as (2, 3, 1).
    let f = SensorField::new(&vec![1, 2, 3], 1, &Orientation::ZXY).unwrap();
    assert_eq!((f.x.num, f.y.num, f.z.num), (2, 3, 1));
    assert_eq!((f.x.den, f.y.den, f.z.den), (1, 1, 1));
    let g = SensorField::new(&vec![1, 2, 3], 4, &Orientation::XYZ).unwrap();
    assert_eq!((g.x.num, g.x.den), (1, 4));
    assert!(SensorField::new(&vec![1, 2], 1, &Orientation::XYZ).is_none());
    assert!(SensorField::new(&vec![1, 2, 3], 1, &Orientation::Invalid).is_none());
}

#[test]
fn orientation_names() {
    assert_eq!(Orientation::from_str("ZXY"), Orientation::ZXY);
    assert_eq!(Orientation::from_str("zxy"), Orientation::ZXY);
    assert_eq!(Orientation::from_str("XYZ"), Orientation::XYZ);
    assert_eq!(Orientation::from_str("abc"), Orientation::Invalid);
    assert_eq!(Orientation::from_str(""), Orientation::Invalid);
}

fn gyro_strm() -> Stream {
    container(
        FourCC::STRM,
        vec![
            terminal(FourCC::SCAL, b'l', vec![Value::Sint32(vec![2])]),
            terminal(FourCC::TSMP, b'L', vec![Value::Uint32(vec![6])]),
            terminal(FourCC::ORIN, b'c', vec![Value::Ascii("zxy".to_string())]),
            terminal(FourCC::SIUN, b'c', vec![Value::Ascii("rad/s".to_string())]),
            terminal(
                FourCC::GYRO,
                b's',
                vec![Value::Sint16(vec![1, 2, 3]), Value::Sint16(vec![4, 5, 6])],
            ),
        ],
    )
}

#[test]
fn sensor_data_extracts_readings() {
    let strm = gyro_strm();
    let m = Matched { stream: &strm, time: Some(Timestamp { relative: 0, duration: 1000 }) };
    let sd = SensorData::new(&m, &SensorType::Gyroscope, &DeviceName::Hero9Black).unwrap();
    assert_eq!(sd.sensor, SensorType::Gyroscope);
    assert_eq!(sd.quantifier, SensorQuantifier::Rotation);
    assert_eq!(sd.total, 6);
    assert_eq!(sd.orientation, Orientation::ZXY);
    assert_eq!(sd.units.as_deref(), Some("rad/s"));
    assert_eq!(sd.fields.len(), 2);
    assert_eq!((sd.fields[0].x.num, sd.fields[0].y.num, sd.fields[0].z.num), (2, 3, 1));
    assert_eq!(sd.fields[0].x.den, 2);
    assert_eq!((sd.fields[1].x.num, sd.fields[1].y.num, sd.fields[1].z.num), (5, 6, 4));
    assert_eq!(sd.timestamp_ms, Some(0));
    assert_eq!(sd.duration_ms, Some(1000));
}

#[test]
fn sensor_kind_tables() {
    assert_eq!(
        SensorType::Gyroscope.as_datatype(&DeviceName::Hero5Black).to_str(),
        "Gyroscope (z,x,y)"
    );
    assert_eq!(
        SensorType::Gyroscope.as_datatype(&DeviceName::Hero9Black).to_str(),
        "Gyroscope"
    );
    assert_eq!(
        SensorType::Accelerometer.as_datatype(&DeviceName::Hero6Black).to_str(),
        "Accelerometer (up/down, right/left, forward/back)"
    );
    assert_eq!(SensorType::from_datatype(&DataType::GyroscopeZxy), SensorType::Gyroscope);
    assert_eq!(SensorType::from_datatype(&DataType::Gps5), SensorType::Unknown);
    assert_eq!(SensorType::Gyroscope.units(), "rad/s");
    assert_eq!(SensorType::Accelerometer.quantifier(), "Acceleration");
}

fn devc_with(children: Vec<Stream>, time: Option<Timestamp>) -> Stream {
    let mut s = container(FourCC::DEVC, children);
    s.time = time;
    s
}

#[test]
fn aggregate_filter_inherits_parent_time() {
    let name = terminal(
        FourCC::STNM,
        b'c',
        vec![Value::Ascii("GPS (Lat., Long., Alt., 2D speed, 3D speed)".to_string())],
    );
    let mut strm = gps5_strm();
    if let StreamType::Nested(children) = &mut strm.streams {
        children.insert(0, name);
    }
    let g = Gpmf {
        streams: vec![devc_with(vec![strm], Some(Timestamp { relative: 750, duration: 100 }))],
        source: Vec::new(),
    };
    let matches = g.filter(&DataType::Gps5);
    assert_eq!(matches.len(), 1);
    assert_eq!(matches[0].time, Some(Timestamp { relative: 750, duration: 100 }));
    let gps = g.gps5();
    assert_eq!(gps.len(), 1);
    assert_eq!(gps.0[0].time_ms, 750);

    let names = g.types();
    assert_eq!(names, vec!["GPS (Lat., Long., Alt., 2D speed, 3D speed)".to_string()]);
}

#[test]
fn aggregate_device_names_sorted_unique() {
    let a = devc_with(
        vec![terminal(FourCC::DVNM, b'c', vec![Value::Ascii("Hero9 Black".to_string())])],
        None,
    );
    let b = devc_with(
        vec![terminal(FourCC::DVNM, b'c', vec![Value::Ascii("GoPro Karma v1.0".to_string())])],
        None,
    );
    let c = devc_with(
        vec![terminal(FourCC::DVNM, b'c', vec![Value::Ascii("Hero9 Black".to_string())])],
        None,
    );
    let g = Gpmf { streams: vec![a, b, c], source: Vec::new() };
    assert_eq!(
        g.device_name(),
        vec!["GoPro Karma v1.0".to_string(), "Hero9 Black".to_string()]
    );
}

#[test]
fn aggregate_find_one_level_down() {
    let dvid = terminal(FourCC::DVID, b'L', vec![Value::Uint32(vec![1001])]);
    let g = Gpmf { streams: vec![devc_with(vec![dvid], None)], source: Vec::new() };
    let found = g.find(&FourCC::DVID).unwrap();
    assert_eq!(found.header.fourcc, FourCC::DVID);
    assert!(g.find(&FourCC::GYRO).is_none());
    match g.device_id() {
        Some(gpmf_rs::device_id::Dvid::Uint32(n)) => assert_eq!(n, 1001),
        other => panic!("expected a numeric identifier, got {other:?}"),
    }
}

#[test]
fn gps_prune_drops_weak_fixes() {
    let strm = gps5_strm();
    let m = Matched { stream: &strm, time: None };
    let p3 = from_gps5(&m).unwrap();
    let mut p0 = p3;
    p0.fix = 0;
    let track = gpmf_rs::gps::Gps(vec![p0, p3, p0]);
    let pruned = track.prune(2);
    assert_eq!(pruned.0.len(), 1);
    assert_eq!(pruned.0[0].fix, 3);
    let mut track2 = gpmf_rs::gps::Gps(vec![p0, p3, p0]);
    let removed = track2.prune_mut(2);
    assert_eq!(removed, 2);
    assert_eq!(track2.0.len(), 1);
    let t0 = track2.t0(None).unwrap();
    assert_eq!(t0.ms, p3.datetime.ms - p3.time_ms);
}

#[test]
fn muid_words_and_alignment() {
    let data = [1u8, 0, 0, 0, 0xD2, 4, 0, 0];
    let words = gpmf_rs::gopro::muid_from_bytes(&data).unwrap();
    assert_eq!(words, vec![1, 1234]);
    match gpmf_rs::gopro::muid_from_bytes(&data[..5]) {
        Err(GpmfError::MisalignedLength { len }) => assert_eq!(len, 5),
        other => panic!("expected a misaligned length, got {other:?}"),
    }
}

#[test]
fn fingerprint_digests_and_folds() {
    let a = gpmf_rs::gopro::fingerprint(b"abc");
    let b = gpmf_rs::gopro::fingerprint(b"abd");
    let a2 = gpmf_rs::gopro::fingerprint(b"abc");
    assert_eq!(a.len(), 32);
    assert_eq!(a, a2);
    assert_ne!(a, b);
    assert!(a.iter().all(|&x| !(65..=90).contains(&x)));
}

#[test]
fn decimal_endings() {
    assert!(ends_with_one(1));
    assert!(ends_with_one(21));
    assert!(!ends_with_one(10));
    assert!(!ends_with_one(0));
}

#[test]
fn camera_name_formatting() {
    assert_eq!(gpmf_rs::util::format_camera_name("Hero11 Black"), "Hero11");
    assert_eq!(gpmf_rs::util::format_camera_name("GoPro Karma v1.0"), "GoPro_Karma_v1.0");
    assert_eq!(gpmf_rs::util::format_camera_name("X HEROY"), "X_Y");
}

#[test]
fn replace_all_scans_left_to_right() {
    assert_eq!(gpmf_rs::util::replace_all("aaa", "aa", "b"), "ba");
    assert_eq!(gpmf_rs::util::replace_all("abc", "", "x"), "abc");
    assert_eq!(gpmf_rs::util::replace_all("abcabc", "b", "BB"), "aBBcaBBc");
}

fn complex9(vals: [i32; 9]) -> Value {
    Value::Complex(vals.iter().map(|&v| Value::Sint32(vec![v])).collect())
}

fn gps9_strm() -> Stream {
    container(
        FourCC::STRM,
        vec![
            terminal(
                FourCC::GPS9,
                b'?',
                vec![
                    complex9([100, 200, 30, 4, 5, 9040, 43200, 120, 3]),
                    complex9([110, 210, 31, 6, 7, 9040, 43201, 130, 3]),
                ],
            ),
            terminal(
                FourCC::SCAL,
                b'l',
                (0..9)
                    .map(|i| Value::Sint32(vec![if i == 7 { 100 } else { 1 }]))
                    .collect(),
            ),
        ],
    )
}

#[test]
fn gps9_points_logged_individually() {
    let strm = gps9_strm();
    let m = Matched { stream: &strm, time: Some(Timestamp { relative: 1000, duration: 500 }) };
    let pts = gpmf_rs::gps::from_gps9(&m).unwrap();
    assert_eq!(pts.len(), 2);
    assert_ratio_is(pts[0].latitude, 100);
    assert_ratio_is(pts[1].longitude, 210);
    assert_eq!(pts[0].fix, 3);
    assert_eq!((pts[0].dop.num, pts[0].dop.den), (120, 100));
    assert_eq!(pts[0].datetime.ms, 9040i64 * 86_400_000 + 43_200_000);
    // The first point anchors the cluster: its relative time is the chunk's,
    // the next point is one logged second later.
    assert_eq!(pts[0].time_ms, 1000);
    assert_eq!(pts[1].time_ms, 2000);
}

#[test]
fn gps9_width_mismatch_yields_nothing() {
    let strm = container(
        FourCC::STRM,
        vec![
            terminal(FourCC::GPS9, b'?', vec![complex9([1, 2, 3, 4, 5, 6, 7, 8, 9])]),
            terminal(FourCC::SCAL, b'l', vec![Value::Sint32(vec![1])]),
        ],
    );
    let m = Matched { stream: &strm, time: None };
    assert!(gpmf_rs::gps::from_gps9(&m).is_none());
}

#[test]
fn gps_dispatch_follows_device() {
    let name9 = terminal(FourCC::DVNM, b'c', vec![Value::Ascii("Hero11 Black".to_string())]);
    let stnm9 = terminal(
        FourCC::STNM,
        b'c',
        vec![Value::Ascii("GPS (Lat., Long., Alt., 2D, 3D, days, secs, DOP, fix)".to_string())],
    );
    let mut strm9 = gps9_strm();
    if let StreamType::Nested(children) = &mut strm9.streams {
        children.insert(0, stnm9);
    }
    let g9 = Gpmf {
        streams: vec![devc_with(
            vec![name9, strm9],
            Some(Timestamp { relative: 0, duration: 100 }),
        )],
        source: Vec::new(),
    };
    // A device of the newer generation gets the per-point layout: two points.
    assert_eq!(g9.gps().len(), 2);

    let name5 = terminal(FourCC::DVNM, b'c', vec![Value::Ascii("Hero9 Black".to_string())]);
    let stnm5 = terminal(
        FourCC::STNM,
        b'c',
        vec![Value::Ascii("GPS (Lat., Long., Alt., 2D speed, 3D speed)".to_string())],
    );
    let mut strm5 = gps5_strm();
    if let StreamType::Nested(children) = &mut strm5.streams {
        children.insert(0, stnm5);
    }
    let g5 = Gpmf {
        streams: vec![devc_with(
            vec![name5, strm5],
            Some(Timestamp { relative: 0, duration: 100 }),
        )],
        source: Vec::new(),
    };
    // An older device gets the averaged layout: one point per cluster.
    assert_eq!(g5.gps().len(), 1);
}

#[test]
fn sensor_uses_first_parseable_device_name() {
    // The lexicographically first name is no known model; the next one is.
    // The readings still come out, decoded for the known model.
    let rig = devc_with(
        vec![terminal(FourCC::DVNM, b'c', vec![Value::Ascii("Aero Rig".to_string())])],
        None,
    );
    let stnm = terminal(FourCC::STNM, b'c', vec![Value::Ascii("Gyroscope".to_string())]);
    let mut strm = gyro_strm();
    if let StreamType::Nested(children) = &mut strm.streams {
        children.insert(0, stnm);
    }
    let cam = devc_with(
        vec![
            terminal(FourCC::DVNM, b'c', vec![Value::Ascii("Hero9 Black".to_string())]),
            strm,
        ],
        Some(Timestamp { relative: 0, duration: 1000 }),
    );
    let g = Gpmf { streams: vec![rig, cam], source: Vec::new() };
    let readings = g.sensor(&SensorType::Gyroscope);
    assert_eq!(readings.len(), 1);
    assert_eq!(readings[0].device, DeviceName::Hero9Black);
    assert_eq!(readings[0].fields.len(), 2);

    // With no parseable name at all, no readings and no error.
    let only_rig = Gpmf {
        streams: vec![devc_with(
            vec![terminal(FourCC::DVNM, b'c', vec![Value::Ascii("Aero Rig".to_string())])],
            None,
        )],
        source: Vec::new(),
    };
    assert!(only_rig.sensor(&SensorType::Gyroscope).is_empty());
    assert!(g.sensor(&SensorType::Unknown).is_empty());
}

#[test]
fn sensor_axis_projections() {
    let strm = gyro_strm();
    let m = Matched { stream: &strm, time: None };
    let sd = SensorData::new(&m, &SensorType::Gyroscope, &DeviceName::Hero9Black).unwrap();
    let xs = sd.x();
    let ys = sd.y();
    let zs = sd.z();
    assert_eq!((xs[0].num, ys[0].num, zs[0].num), (2, 3, 1));
    let triples = sd.xyz();
    assert_eq!(triples.len(), 2);
    assert_eq!((triples[1].0.num, triples[1].1.num, triples[1].2.num), (5, 6, 4));
}

#[test]
fn gpsu_rejects_impossible_dates() {
    // A 31st of a 30-day month, a 29th of February outside a leap year.
    assert!(parse_gpsu("240431120000.000").is_none());
    assert!(parse_gpsu("230229120000.000").is_none());
    // The leap day of a leap year is fine.
    assert!(parse_gpsu("240229120000.000").is_some());
}

#[test]
fn fingerprint_hex_renders_two_digits_per_byte() {
    let hex = gpmf_rs::gopro::fingerprint_hex(&vec![0x00, 0xAB, 0x5F]);
    assert_eq!(hex, "00ab5f");
    let digest = gpmf_rs::gopro::fingerprint(b"abc");
    assert_eq!(gpmf_rs::gopro::fingerprint_hex(&digest).len(), 64);
}
