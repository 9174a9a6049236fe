//! Tag registry, content types and device names on concrete values.

use gpmf_rs::data_types::DataType;
use gpmf_rs::device_name::DeviceName;
use gpmf_rs::fourcc::FourCC;

fn known_tags() -> Vec<FourCC> {
    vec![
        FourCC::DEVC,
        FourCC::DVID,
        FourCC::DVNM,
        FourCC::STRM,
        FourCC::STNM,
        FourCC::RMRK,
        FourCC::SCAL,
        FourCC::SIUN,
        FourCC::UNIT,
        FourCC::TYPE,
        FourCC::TSMP,
        FourCC::TIMO,
        FourCC::EMPT,
        FourCC::AALP,
        FourCC::ACCL,
        FourCC::ALLD,
        FourCC::CORI,
        FourCC::DISP,
        FourCC::FACE,
        FourCC::FCNM,
        FourCC::GPS5,
        FourCC::GPS9,
        FourCC::GPSF,
        FourCC::GPSP,
        FourCC::GPSU,
        FourCC::GPSA,
        FourCC::GRAV,
        FourCC::GYRO,
        FourCC::HUES,
        FourCC::IORI,
        FourCC::ISOE,
        FourCC::ISOG,
        FourCC::LSKP,
        FourCC::MAGN,
        FourCC::MSKP,
        FourCC::MWET,
        FourCC::ORIN,
        FourCC::ORIO,
        FourCC::MTRX,
        FourCC::SCEN,
        FourCC::SHUT,
        FourCC::SROT,
        FourCC::STMP,
        FourCC::UNIF,
        FourCC::WBAL,
        FourCC::WNDM,
        FourCC::WRGB,
        FourCC::YAVG,
        FourCC::MSLV,
        FourCC::SNOW,
        FourCC::URBA,
        FourCC::INDO,
        FourCC::WATR,
        FourCC::VEGE,
        FourCC::BEAC,
        FourCC::FIRM,
        FourCC::LENS,
        FourCC::CAME,
        FourCC::SETT,
        FourCC::AMBA,
        FourCC::MUID,
        FourCC::HMMT,
        FourCC::BCID,
        FourCC::GUMI,
        FourCC::MINF,
    ]
}

#[test]
fn tag_round_trip_all_known() {
    for tag in known_tags() {
        let rendered = tag.to_str().to_string();
        assert_eq!(rendered.chars().count(), 4);
        let parsed = FourCC::from_str(&rendered);
        assert_eq!(parsed, tag);
    }
}

#[test]
fn tag_unknown_preserved() {
    let parsed = FourCC::from_str("XKCD");
    assert_eq!(parsed, FourCC::Other("XKCD".to_string()));
    assert_eq!(parsed.to_str(), "XKCD");
    let reparsed = FourCC::from_str(parsed.to_str());
    assert_eq!(reparsed, parsed);
}

#[test]
fn tag_zero_bytes_are_sentinel() {
    let parsed = FourCC::from_slice(&[0, 0, 0, 0]);
    assert_eq!(parsed, FourCC::Invalid);
    assert!(parsed.is_invalid());
    let by_str = FourCC::from_str("\0\0\0\0");
    assert_eq!(by_str, FourCC::Invalid);
}

#[test]
fn tag_from_slice_high_bytes() {
    let parsed = FourCC::from_slice(&[0xC4, 0x01, 0x41, 0x42]);
    match parsed {
        FourCC::Other(s) => {
            let cs: Vec<char> = s.chars().collect();
            assert_eq!(cs, vec!['\u{c4}', '\u{1}', 'A', 'B']);
        }
        other => panic!("expected an unknown tag, got {other:?}"),
    }
}

#[test]
fn tag_window_read_zero_extends() {
    let data = [b'D', b'E'];
    let parsed = FourCC::new(&data, 0);
    match parsed {
        FourCC::Other(s) => {
            let cs: Vec<char> = s.chars().collect();
            assert_eq!(cs, vec!['D', 'E', '\0', '\0']);
        }
        other => panic!("expected an unknown tag, got {other:?}"),
    }
    assert!(FourCC::new(&data, 2).is_invalid());
}

#[test]
fn datatype_names_round() {
    assert_eq!(DataType::Gps5.to_str(), "GPS (Lat., Long., Alt., 2D speed, 3D speed)");
    assert_eq!(
        DataType::Gps9.to_str(),
        "GPS (Lat., Long., Alt., 2D, 3D, days, secs, DOP, fix)"
    );
    match DataType::from_str("Gyroscope") {
        DataType::Gyroscope => {}
        other => panic!("expected the gyroscope type, got {other:?}"),
    }
    match DataType::from_str("something else entirely") {
        DataType::Other(s) => assert_eq!(s, "something else entirely"),
        other => panic!("expected a verbatim name, got {other:?}"),
    }
    // The gain entry historically parses from a longer name than it renders.
    match DataType::from_str("Sensor gain (ISO x100)") {
        DataType::SensorGain => {}
        other => panic!("expected the sensor gain type, got {other:?}"),
    }
    assert_eq!(DataType::SensorGain.to_str(), "Sensor gain");
}

#[test]
fn device_names_parse() {
    assert_eq!(DeviceName::from_str("Hero11 Black"), Some(DeviceName::Hero11Black));
    assert_eq!(DeviceName::from_str("HERO11 Black"), Some(DeviceName::Hero11Black));
    assert_eq!(DeviceName::from_str("  Hero8 Black  "), Some(DeviceName::Hero8Black));
    assert_eq!(DeviceName::from_str("Camera"), Some(DeviceName::Hero5Black));
    assert_eq!(DeviceName::from_str("GoPro Karma v1.0"), Some(DeviceName::GoProKarma));
    assert_eq!(DeviceName::from_str("Some Phone"), None);
    assert_eq!(DeviceName::Hero9Black.to_str(), "Hero9 Black");
}

#[test]
fn device_firmware_prefixes() {
    assert_eq!(DeviceName::from_firmware_id("HD8.01.01.60.00"), Some(DeviceName::Hero8Black));
    assert_eq!(DeviceName::from_firmware_id("H22.01"), Some(DeviceName::Hero11Black));
    assert_eq!(DeviceName::from_firmware_id("FS1.04"), Some(DeviceName::Fusion));
    assert_eq!(DeviceName::from_firmware_id("ZZZ"), None);
}
