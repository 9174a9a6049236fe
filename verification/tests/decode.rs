//! Header codec, value decoder, tree builder, timestamp synthesis and
//! merging on concrete byte windows.

use gpmf_rs::errors::GpmfError;
use gpmf_rs::fourcc::FourCC;
use gpmf_rs::gpmf::{timestamps_for, Chunk, Gpmf};
use gpmf_rs::header::Header;
use gpmf_rs::stream::{Stream, StreamType};
use gpmf_rs::timestamp::Timestamp;
use gpmf_rs::value::Value;

fn header_bytes(tag: &[u8; 4], basetype: u8, size: u8, repeats: u16) -> Vec<u8> {
    let mut v = tag.to_vec();
    v.push(basetype);
    v.push(size);
    v.extend_from_slice(&repeats.to_be_bytes());
    v
}

#[test]
fn header_decodes_fields_and_pad() {
    let data = header_bytes(b"ACCL", b's', 6, 3);
    let h = Header::new(&data, 0).unwrap();
    assert_eq!(h.fourcc, FourCC::ACCL);
    assert_eq!(h.basetype, b's');
    assert_eq!(h.basesize, 6);
    assert_eq!(h.repeats, 3);
    assert_eq!(h.pad, 2); // 18 bytes of payload, 2 bytes to the next multiple of four
    assert_eq!(h.size(false), 18);
    assert_eq!(h.size(true), 20);
}

#[test]
fn header_string_swap_rule() {
    // Older devices store a string as unit size one with the length in the
    // repeat field; the two fields swap so the string reads as one value.
    let data = header_bytes(b"STNM", b'c', 1, 9);
    let h = Header::new(&data, 0).unwrap();
    assert_eq!(h.basesize, 9);
    assert_eq!(h.repeats, 1);
    // A string already stored as size N, repeat 1 stays as it is.
    let data2 = header_bytes(b"STNM", b'c', 9, 1);
    let h2 = Header::new(&data2, 0).unwrap();
    assert_eq!(h2.basesize, 9);
    assert_eq!(h2.repeats, 1);
}

#[test]
fn header_total_length_always_aligned() {
    for &(bt, size, repeats) in
        &[(b'b', 1u8, 1u16), (b'L', 4, 3), (b's', 6, 3), (b'c', 1, 9), (b'd', 8, 2), (b'B', 5, 5)]
    {
        let data = header_bytes(b"YAVG", bt, size, repeats);
        let h = Header::new(&data, 0).unwrap();
        assert_eq!((8 + h.size(true)) % 4, 0);
    }
}

#[test]
fn header_sentinel_and_short_tail() {
    let zeros = [0u8; 8];
    let h = Header::new(&zeros, 0).unwrap();
    assert!(h.is_invalid());
    // Four identifier bytes but nothing after them: a short read.
    let short = *b"ACCL";
    match Header::new(&short, 0) {
        Err(GpmfError::ReadMismatch { got, expected }) => {
            assert_eq!(got, 4);
            assert_eq!(expected, 8);
        }
        other => panic!("expected a short read, got {other:?}"),
    }
}

#[test]
fn value_numeric_decode() {
    let h = Header { fourcc: FourCC::ACCL, basetype: b's', basesize: 6, repeats: 3, pad: 2 };
    let payload = [0u8, 1, 0xFF, 0xFF, 0x80, 0x00];
    let (v, end) = Value::new(&payload, 0, &h, None).unwrap();
    match v {
        Value::Sint16(xs) => assert_eq!(xs, vec![1, -1, -32768]),
        other => panic!("expected signed 16-bit values, got {other:?}"),
    }
    assert_eq!(end, 6);
}

#[test]
fn value_string_strips_zero_bytes() {
    let h = Header { fourcc: FourCC::STNM, basetype: b'c', basesize: 6, repeats: 1, pad: 2 };
    let payload = [b'G', b'y', b'r', b'o', 0, 0];
    let (v, _) = Value::new(&payload, 0, &h, None).unwrap();
    match v {
        Value::Ascii(s) => assert_eq!(s, "Gyro"),
        other => panic!("expected a string, got {other:?}"),
    }
}

#[test]
fn value_complex_decode() {
    // Type descriptor "bLL": one signed byte, two unsigned 32-bit words.
    let descriptor = vec![b'b', b'L', b'L'];
    let h = Header { fourcc: FourCC::GPS9, basetype: b'?', basesize: 9, repeats: 1, pad: 3 };
    let payload = [0xFBu8, 0, 0, 1, 2, 0, 0, 3, 0xE8];
    let (v, end) = Value::new(&payload, 0, &h, Some(&descriptor)).unwrap();
    assert_eq!(end, 9);
    match v {
        Value::Complex(parts) => {
            assert_eq!(parts.len(), 3);
            match &parts[0] {
                Value::Sint8(x) => assert_eq!(x, &vec![-5i8]),
                other => panic!("expected a signed byte, got {other:?}"),
            }
            match &parts[1] {
                Value::Uint32(x) => assert_eq!(x, &vec![258u32]),
                other => panic!("expected an unsigned word, got {other:?}"),
            }
            match &parts[2] {
                Value::Uint32(x) => assert_eq!(x, &vec![1000u32]),
                other => panic!("expected an unsigned word, got {other:?}"),
            }
        }
        other => panic!("expected a complex value, got {other:?}"),
    }
}

#[test]
fn value_q_number_decode() {
    let h = Header { fourcc: FourCC::SHUT, basetype: b'q', basesize: 4, repeats: 1, pad: 0 };
    let payload = 98304u32.to_be_bytes();
    let (v, _) = Value::new(&payload, 0, &h, None).unwrap();
    match v {
        Value::Qint32(xs) => {
            assert_eq!(xs, vec![98304]);
            let ratio = gpmf_rs::gps::q32_to_ratio(xs[0]);
            assert_eq!(ratio.num, 98304);
            assert_eq!(ratio.den, 32768);
            assert_eq!(ratio.num as f64 / ratio.den as f64, 3.0);
        }
        other => panic!("expected a fixed-point value, got {other:?}"),
    }
}

#[test]
fn value_errors() {
    let unknown = Header { fourcc: FourCC::YAVG, basetype: b'x', basesize: 4, repeats: 1, pad: 0 };
    match Value::new(&[0u8; 4], 0, &unknown, None) {
        Err(GpmfError::UnknownBaseType(b)) => assert_eq!(b, b'x'),
        other => panic!("expected an unknown base type, got {other:?}"),
    }

    let complex = Header { fourcc: FourCC::GPS9, basetype: b'?', basesize: 9, repeats: 1, pad: 3 };
    match Value::new(&[0u8; 9], 0, &complex, None) {
        Err(GpmfError::MissingComplexType) => {}
        other => panic!("expected a missing descriptor, got {other:?}"),
    }

    let uneven = Header { fourcc: FourCC::GPS5, basetype: b'l', basesize: 5, repeats: 1, pad: 3 };
    match Value::new(&[0u8; 8], 0, &uneven, None) {
        Err(GpmfError::SizeMismatch { basesize, width }) => {
            assert_eq!((basesize, width), (5, 4));
        }
        other => panic!("expected a size mismatch, got {other:?}"),
    }

    let long = Header { fourcc: FourCC::GPS5, basetype: b'l', basesize: 8, repeats: 1, pad: 0 };
    match Value::new(&[0u8; 4], 0, &long, None) {
        Err(GpmfError::ReadMismatch { got, expected }) => {
            assert_eq!((got, expected), (4, 8));
        }
        other => panic!("expected a short read, got {other:?}"),
    }

    let utf8 = Header { fourcc: FourCC::RMRK, basetype: b'u', basesize: 2, repeats: 1, pad: 2 };
    match Value::new(&[0xFFu8, 0xFE], 0, &utf8, None) {
        Err(GpmfError::Utf8Error) => {}
        other => panic!("expected invalid text, got {other:?}"),
    }
}

fn devc_with_name() -> Vec<u8> {
    // One chunk container holding a four-character device name record,
    // then four bytes of zero padding that end its inner scan.
    let mut data = header_bytes(b"DEVC", 0, 1, 16);
    data.extend_from_slice(&header_bytes(b"DVNM", b'c', 4, 1));
    data.extend_from_slice(b"GoPr");
    data.extend_from_slice(&[0, 0, 0, 0]);
    data
}

#[test]
fn stream_parses_nested_container() {
    let data = devc_with_name();
    let (forest, end) = Stream::new(&data, 0, data.len(), 8, None).unwrap();
    // The inner scan stops at the zero padding, so the whole scan ends there.
    assert_eq!(end, 20);
    assert_eq!(forest.len(), 1);
    let devc = &forest[0];
    assert_eq!(devc.header.fourcc, FourCC::DEVC);
    match &devc.streams {
        StreamType::Nested(children) => {
            assert_eq!(children.len(), 1);
            assert_eq!(children[0].header.fourcc, FourCC::DVNM);
            match &children[0].streams {
                StreamType::Values(vals) => match &vals[0] {
                    Value::Ascii(s) => assert_eq!(s, "GoPr"),
                    other => panic!("expected a string, got {other:?}"),
                },
                StreamType::Nested(_) => panic!("expected a terminal node"),
            }
        }
        StreamType::Values(_) => panic!("expected a container"),
    }
    assert_eq!(devc.device_name(), Some("GoPr".to_string()));
}

#[test]
fn stream_sentinel_stops_scan_without_error() {
    // A window that begins with the all-zero identifier parses to nothing.
    let zeros = [0u8; 16];
    let (forest, end) = Stream::new(&zeros, 0, zeros.len(), 8, None).unwrap();
    assert!(forest.is_empty());
    assert_eq!(end, 0);

    // A record followed by zero padding: the record comes out, the zeros
    // end the scan with no error, wherever they stand.
    let mut data = header_bytes(b"YAVG", b'B', 1, 1);
    data.extend_from_slice(&[42, 0, 0, 0]);
    data.extend_from_slice(&[0u8; 12]);
    let (forest2, _) = Stream::new(&data, 0, data.len(), 8, None).unwrap();
    assert_eq!(forest2.len(), 1);
    assert_eq!(forest2[0].header.fourcc, FourCC::YAVG);
}

#[test]
fn stream_type_descriptor_feeds_complex() {
    // A TYPE record leaves "bLL" in scope; the complex record after it
    // decodes against that descriptor.
    let mut data = header_bytes(b"TYPE", b'c', 3, 1);
    data.extend_from_slice(b"bLL");
    data.push(0);
    data.extend_from_slice(&header_bytes(b"GPS9", b'?', 9, 1));
    data.extend_from_slice(&[5u8, 0, 0, 0, 7, 0, 0, 0, 9]);
    data.extend_from_slice(&[0, 0, 0]);
    let (forest, _) = Stream::new(&data, 0, data.len(), 8, None).unwrap();
    assert_eq!(forest.len(), 2);
    match &forest[1].streams {
        StreamType::Values(vals) => match &vals[0] {
            Value::Complex(parts) => assert_eq!(parts.len(), 3),
            other => panic!("expected a complex value, got {other:?}"),
        },
        StreamType::Nested(_) => panic!("expected a terminal node"),
    }
}

#[test]
fn stream_depth_ceiling() {
    let data = header_bytes(b"DEVC", 0, 1, 8);
    match Stream::new(&data, 0, data.len(), 0, None) {
        Err(GpmfError::RecurseDepthExceeded) => {}
        other => panic!("expected the depth ceiling, got {other:?}"),
    }
}

#[test]
fn timestamps_accumulate_durations() {
    let ts = timestamps_for(&vec![1000, 2000, 500]);
    assert_eq!(ts.len(), 3);
    assert_eq!((ts[0].relative, ts[0].duration), (0, 1000));
    assert_eq!((ts[1].relative, ts[1].duration), (1000, 2000));
    assert_eq!((ts[2].relative, ts[2].duration), (3000, 500));
}

#[test]
fn chunks_parse_with_synthesized_times() {
    let chunk = devc_with_name();
    let chunks = vec![
        Chunk { data: chunk.clone(), duration_ms: 1001 },
        Chunk { data: chunk, duration_ms: 999 },
    ];
    let g = Gpmf::from_chunks(&chunks).unwrap();
    assert_eq!(g.len(), 2);
    assert_eq!(g.streams[0].time, Some(Timestamp { relative: 0, duration: 1001 }));
    assert_eq!(g.streams[1].time, Some(Timestamp { relative: 1001, duration: 999 }));
    assert_eq!(g.first_timestamp(), Some(Timestamp { relative: 0, duration: 1001 }));
    assert_eq!(g.last_timestamp(), Some(Timestamp { relative: 1001, duration: 999 }));
}

fn bare_devc(time: Option<Timestamp>) -> Stream {
    Stream {
        header: Header {
            fourcc: FourCC::DEVC,
            basetype: 0,
            basesize: 0,
            repeats: 0,
            pad: 0,
        },
        streams: StreamType::Nested(Vec::new()),
        time,
    }
}

#[test]
fn merge_rebases_timestamps() {
    let mut a = Gpmf {
        streams: vec![bare_devc(Some(Timestamp { relative: 10_000, duration: 2_000 }))],
        source: vec!["first".to_string()],
    };
    let b = Gpmf {
        streams: vec![bare_devc(Some(Timestamp { relative: 0, duration: 1_000 }))],
        source: vec!["second".to_string()],
    };
    a.merge_mut(b);
    assert_eq!(a.streams.len(), 2);
    assert_eq!(a.streams[1].time, Some(Timestamp { relative: 10_000, duration: 1_000 }));
    assert_eq!(a.source, vec!["first".to_string(), "second".to_string()]);
}

#[test]
fn offset_time_shifts_all_nodes() {
    let mut g = Gpmf {
        streams: vec![
            bare_devc(Some(Timestamp { relative: 0, duration: 500 })),
            bare_devc(None),
        ],
        source: Vec::new(),
    };
    g.offset_time(&Timestamp { relative: 250, duration: 0 });
    assert_eq!(g.streams[0].time, Some(Timestamp { relative: 250, duration: 500 }));
    assert_eq!(g.streams[1].time, None);
}

#[test]
fn stream_empty_payload_yields_empty_value() {
    let mut data = header_bytes(b"EMPT", b'L', 0, 0);
    data.extend_from_slice(&[0u8; 4]);
    let (forest, _) = Stream::new(&data, 0, 8, 8, None).unwrap();
    assert_eq!(forest.len(), 1);
    match &forest[0].streams {
        StreamType::Values(vals) => {
            assert_eq!(vals.len(), 1);
            assert!(matches!(vals[0], Value::Empty));
        }
        StreamType::Nested(_) => panic!("expected a terminal node"),
    }
}

#[test]
fn stream_fails_fast_with_first_error() {
    // A good record followed by a record with an unknown base type: the
    // parse fails with that record's error and returns no partial forest.
    let mut data = header_bytes(b"YAVG", b'B', 1, 1);
    data.extend_from_slice(&[42, 0, 0, 0]);
    data.extend_from_slice(&header_bytes(b"SHUT", b'x', 4, 1));
    data.extend_from_slice(&[0u8; 4]);
    match Stream::new(&data, 0, data.len(), 8, None) {
        Err(GpmfError::UnknownBaseType(b)) => assert_eq!(b, b'x'),
        other => panic!("expected the unknown base type to surface, got {other:?}"),
    }

    // The same window through the aggregate: the first failing chunk's
    // error comes back.
    let chunks = vec![Chunk { data, duration_ms: 40 }];
    match Gpmf::from_chunks(&chunks) {
        Err(GpmfError::UnknownBaseType(_)) => {}
        other => panic!("expected the chunk's own error, got {other:?}"),
    }
}
