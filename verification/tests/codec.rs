//! Tests of the codec: the serializer and decoder against each other,
//! the constrained-integer range checks, the enumeration round trip,
//! and the exact byte layout of the wire format.

use ptp::derived::{ClockQuality, PortIdentity, Timestamp};
use ptp::enums::values;
use ptp::enums::Enumeration;
use ptp::message::{body, Body, Header, Message};
use ptp::parser::{
    parse_clock_quality, parse_port_identity, parse_ptp_header, parse_ptp_message,
    parse_timestamp, DecodeError,
};
use ptp::primitive::{Int, TryFrom, I16, I64, I8, U16, U32, U4, U48, U8};
use ptp::serialize::{serialize_message, BitSerialize};
use ptp::writer::BitSink;

fn sample_announce_message() -> Message {
    Message {
        header: Header {
            transportSpecific: Int::new(0).unwrap(),
            messageType: Enumeration::Enum(values::MessageType::Announce),
            _reserved1: Int::new(0).unwrap(),
            versionPTP: Int::new(2).unwrap(),
            messageLength: Int::new(64).unwrap(),
            domainNumber: Int::new(0).unwrap(),
            _reserved2: Int::new(0).unwrap(),
            flagField: [Int::new(0).unwrap(), Int::new(0).unwrap()],
            correctionField: Int::new(0).unwrap(),
            _reserved3: [
                Int::new(0).unwrap(),
                Int::new(0).unwrap(),
                Int::new(0).unwrap(),
                Int::new(0).unwrap(),
            ],
            sourcePortIdentity: PortIdentity {
                clockIdentity: [
                    Int::new(184).unwrap(),
                    Int::new(39).unwrap(),
                    Int::new(235).unwrap(),
                    Int::new(255).unwrap(),
                    Int::new(254).unwrap(),
                    Int::new(146).unwrap(),
                    Int::new(177).unwrap(),
                    Int::new(166).unwrap(),
                ],
                portNumber: Int::new(1).unwrap(),
            },
            sequenceId: Int::new(13123).unwrap(),
            controlField: Int::new(5).unwrap(),
            logMessageInterval: Int::new(1).unwrap(),
        },
        body: Body::Announce(body::Announce {
            originTimestamp: Timestamp {
                secondsField: Int::new(0).unwrap(),
                nanosecondsField: Int::new(0).unwrap(),
            },
            currentUtcOffset: Int::new(37).unwrap(),
            _reserved: Int::new(0).unwrap(),
            grandmasterPriority1: Int::new(128).unwrap(),
            grandmasterClockQuality: ClockQuality {
                clockClass: Int::new(248).unwrap(),
                clockAccuracy: Enumeration::Unknown(Int::new(254).unwrap()),
                offsetScaledLogVariance: Int::new(65535).unwrap(),
            },
            grandmasterPriority2: Int::new(128).unwrap(),
            grandmasterIdentity: [
                Int::new(184).unwrap(),
                Int::new(39).unwrap(),
                Int::new(235).unwrap(),
                Int::new(255).unwrap(),
                Int::new(254).unwrap(),
                Int::new(146).unwrap(),
                Int::new(177).unwrap(),
                Int::new(166).unwrap(),
            ],
            stepsRemoved: Int::new(0).unwrap(),
            timeSource: Enumeration::Enum(values::TimeSource::INTERNAL_OSCILLATOR),
        }),
    }
}

#[test]
fn test_bit_serialize() {
    let mut writer = BitSink::new();
    let ts = Timestamp {
        secondsField: Int::new(23).unwrap(),
        nanosecondsField: Int::new(19).unwrap(),
    };
    let pi = PortIdentity {
        clockIdentity: [Int::new(15).unwrap(); 8],
        portNumber: Int::new(98).unwrap(),
    };
    ts.bit_serialize(&mut writer).unwrap();
    pi.bit_serialize(&mut writer).unwrap();
    let wwriter = writer.into_bytes();
    let pts = parse_timestamp(&wwriter).unwrap();
    let ppi = parse_port_identity(pts.0).unwrap();
    assert_eq!(ppi.1, pi);
    assert_eq!(pts.1, ts);
}

#[test]
fn test_bit_serialize2() {
    let msg = sample_announce_message();
    let mut writer = BitSink::new();
    msg.bit_serialize(&mut writer).unwrap();
    let wwriter = writer.into_bytes();
    let msg2 = parse_ptp_message(&wwriter).unwrap();
    assert_eq!(msg2.0.len(), 0);
    assert_eq!(msg, msg2.1);
}

#[test]
fn int_stores_exactly_the_value_inside_the_range() {
    for v in 0..=15i128 {
        assert_eq!(Int::<U4>::new(v).unwrap().into_inner(), v);
    }
    for v in 0..=255i128 {
        assert_eq!(Int::<U8>::new(v).unwrap().into_inner(), v);
    }
    assert_eq!(Int::<I8>::new(-128).unwrap().into_inner(), -128);
    assert_eq!(Int::<I8>::new(127).unwrap().into_inner(), 127);
    assert_eq!(Int::<U48>::new(0xFFFF_FFFF_FFFF).unwrap().into_inner(), 0xFFFF_FFFF_FFFF);
    assert_eq!(Int::<I64>::new(i64::MIN as i128).unwrap().into_inner(), i64::MIN as i128);
}

#[test]
fn int_rejects_every_value_outside_the_range() {
    assert!(Int::<U4>::new(16).is_err());
    assert!(Int::<U4>::new(-1).is_err());
    assert!(Int::<U8>::new(256).is_err());
    assert!(Int::<I8>::new(128).is_err());
    assert!(Int::<I8>::new(-129).is_err());
    assert!(Int::<U16>::new(65536).is_err());
    assert!(Int::<U32>::new(0x1_0000_0000).is_err());
    assert!(Int::<U48>::new(0x1_0000_0000_0000).is_err());
    assert!(Int::<I16>::new(0x8000).is_err());
    assert!(Int::<I64>::new((i64::MAX as i128) + 1).is_err());
}

#[test]
fn int_arithmetic_revalidates_the_range() {
    let three = Int::<U8>::new(3).unwrap();
    let four = Int::<U8>::new(4).unwrap();
    assert_eq!(three.add(four).unwrap().into_inner(), 7);
    let big = Int::<U8>::new(200).unwrap();
    assert!(big.add(big).is_err());
    assert_eq!(three.shl(2).unwrap().into_inner(), 12);
    assert!(big.shl(1).is_err());
    assert_eq!(Int::<U8>::new(13).unwrap().shr(2).into_inner(), 3);
    // arithmetic right shift of a negative value floors toward minus infinity
    assert_eq!(Int::<I8>::new(-3).unwrap().shr(1).into_inner(), -2);
    let mut acc = Int::<U16>::new(1000).unwrap();
    acc.add_assign(Int::<U16>::new(23).unwrap()).unwrap();
    assert_eq!(acc.into_inner(), 1023);
}

#[test]
fn enumeration_from_raw_is_total_and_round_trips() {
    for v in 0..=255i128 {
        let raw = Int::<U8>::new(v).unwrap();
        let ts: ptp::enums::TimeSource = Enumeration::from_raw(raw);
        assert_eq!(ts.to_raw().into_inner(), v);
        let ca: ptp::enums::ClockAcurracy = Enumeration::from_raw(raw);
        assert_eq!(ca.to_raw().into_inner(), v);
    }
    for v in 0..=15i128 {
        let raw = Int::<U4>::new(v).unwrap();
        let mt: ptp::enums::MessageType = Enumeration::from_raw(raw);
        assert_eq!(mt.to_raw().into_inner(), v);
    }
}

#[test]
fn enumeration_maps_catalog_values_to_symbols() {
    let gps: ptp::enums::TimeSource = Enumeration::from_raw(Int::new(0x20).unwrap());
    assert_eq!(gps, Enumeration::Enum(values::TimeSource::GPS));
    let sync: ptp::enums::MessageType = Enumeration::from_raw(Int::new(0x0).unwrap());
    assert_eq!(sync, Enumeration::Enum(values::MessageType::Sync));
    let announce: ptp::enums::MessageType = Enumeration::from_raw(Int::new(0xB).unwrap());
    assert_eq!(announce, Enumeration::Enum(values::MessageType::Announce));
}

#[test]
fn clock_accuracy_with_no_mapping_stays_unknown() {
    let raw = Int::<U8>::new(0xFE).unwrap();
    let acc: ptp::enums::ClockAcurracy = Enumeration::from_raw(raw);
    assert_eq!(acc, Enumeration::Unknown(Int::new(0xFE).unwrap()));
    assert_eq!(acc.to_raw().into_inner(), 0xFE);
    // and it crosses the wire unchanged inside a clock quality
    let q = ClockQuality {
        clockClass: Int::new(6).unwrap(),
        clockAccuracy: acc,
        offsetScaledLogVariance: Int::new(100).unwrap(),
    };
    let mut writer = BitSink::new();
    q.bit_serialize(&mut writer).unwrap();
    let bytes = writer.into_bytes();
    assert_eq!(bytes[1], 0xFE);
    let parsed = parse_clock_quality(&bytes).unwrap();
    assert_eq!(parsed.1, q);
}

#[test]
fn unknown_message_type_decodes_to_empty_body() {
    // messageType raw value 0x2 is Pdelay_Req: defined but without a
    // decoded body layout
    let mut buf = vec![0u8; 34];
    buf[0] = 0x02;
    let (rest, m) = parse_ptp_message(&buf).unwrap();
    assert_eq!(rest.len(), 0);
    assert_eq!(m.body, Body::Empty);
    assert_eq!(
        m.header.messageType,
        Enumeration::Enum(values::MessageType::Pdelay_Req)
    );
    // a raw value with no symbolic mapping at all is kept as Unknown
    let mut buf2 = vec![0u8; 40];
    buf2[0] = 0x07;
    let (rest2, m2) = parse_ptp_message(&buf2).unwrap();
    assert_eq!(rest2.len(), 6);
    assert_eq!(m2.body, Body::Empty);
    assert_eq!(
        m2.header.messageType,
        Enumeration::Unknown(Int::new(7).unwrap())
    );
}

#[test]
fn short_buffers_fail_with_incomplete_data() {
    for len in 0..34usize {
        let buf = vec![0u8; len];
        match parse_ptp_message(&buf) {
            Err(DecodeError::IncompleteData(_)) => (),
            other => panic!("expected IncompleteData on {} bytes, got {:?}", len, other),
        }
        assert!(parse_ptp_header(&buf).is_err());
    }
    assert_eq!(
        parse_ptp_message(&[]),
        Err(DecodeError::IncompleteData(1))
    );
    assert_eq!(
        parse_ptp_message(&[0u8; 2]),
        Err(DecodeError::IncompleteData(2))
    );
    // a sync message needs ten body bytes after the header
    let buf = vec![0u8; 38];
    assert_eq!(parse_ptp_message(&buf), Err(DecodeError::IncompleteData(6)));
}

#[test]
fn announce_scenario_round_trips_exactly() {
    let msg = sample_announce_message();
    let bytes = serialize_message(&msg);
    assert_eq!(bytes.len(), 64);
    let (rest, decoded) = parse_ptp_message(&bytes).unwrap();
    assert_eq!(rest.len(), 0);
    assert_eq!(decoded, msg);
    assert_eq!(decoded.header.sequenceId.into_inner(), 13123);
}

#[test]
fn announce_scenario_byte_layout_is_exact() {
    let msg = sample_announce_message();
    let bytes = serialize_message(&msg);
    assert_eq!(bytes[0], 0x0B); // transportSpecific 0, messageType Announce
    assert_eq!(bytes[1], 0x02); // reserved 0, versionPTP 2
    assert_eq!(&bytes[2..4], &[0x00, 0x40]); // messageLength 64
    assert_eq!(
        &bytes[20..28],
        &[184, 39, 235, 255, 254, 146, 177, 166]
    ); // source clock identity
    assert_eq!(&bytes[28..30], &[0x00, 0x01]); // port number 1
    assert_eq!(&bytes[30..32], &[0x33, 0x43]); // sequenceId 13123
    assert_eq!(bytes[32], 5); // controlField
    assert_eq!(bytes[33], 1); // logMessageInterval
    assert_eq!(&bytes[44..46], &[0x00, 0x25]); // currentUtcOffset 37
    assert_eq!(bytes[47], 128); // grandmasterPriority1
    assert_eq!(bytes[48], 248); // clockClass
    assert_eq!(bytes[49], 0xFE); // clockAccuracy, unknown value
    assert_eq!(&bytes[50..52], &[0xFF, 0xFF]); // offsetScaledLogVariance
    assert_eq!(bytes[63], 0xA0); // timeSource INTERNAL_OSCILLATOR
}

#[test]
fn negative_fields_cross_the_wire_in_twos_complement() {
    let mut msg = sample_announce_message();
    msg.header.correctionField = Int::new(-2).unwrap();
    msg.header.logMessageInterval = Int::new(-1).unwrap();
    if let Body::Announce(ref mut a) = msg.body {
        a.currentUtcOffset = Int::new(-37).unwrap();
    }
    let bytes = serialize_message(&msg);
    assert_eq!(
        &bytes[8..16],
        &[0xFF, 0xFF, 0xFF, 0xFF, 0xFF, 0xFF, 0xFF, 0xFE]
    ); // correctionField -2
    assert_eq!(bytes[33], 0xFF); // logMessageInterval -1
    assert_eq!(&bytes[44..46], &[0xFF, 0xDB]); // currentUtcOffset -37
    let (rest, decoded) = parse_ptp_message(&bytes).unwrap();
    assert_eq!(rest.len(), 0);
    assert_eq!(decoded, msg);
}

#[test]
fn every_body_variant_round_trips() {
    let ts = Timestamp {
        secondsField: Int::new(23).unwrap(),
        nanosecondsField: Int::new(19).unwrap(),
    };
    let pi = PortIdentity {
        clockIdentity: [Int::new(15).unwrap(); 8],
        portNumber: Int::new(98).unwrap(),
    };
    let base = sample_announce_message();
    let cases: Vec<(ptp::enums::MessageType, Body)> = vec![
        (
            Enumeration::Enum(values::MessageType::Sync),
            Body::Sync(body::Sync { originTimestamp: ts }),
        ),
        (
            Enumeration::Enum(values::MessageType::Delay_Req),
            Body::Delay_Req(body::Delay_Req { originTimestamp: ts }),
        ),
        (
            Enumeration::Enum(values::MessageType::Follow_Up),
            Body::Follow_Up(body::Follow_Up {
                preciseOriginTimestamp: ts,
            }),
        ),
        (
            Enumeration::Enum(values::MessageType::Delay_Resp),
            Body::Delay_Resp(body::Delay_Resp {
                receiveTimestamp: ts,
                requestingPortIdentity: pi,
            }),
        ),
        (
            Enumeration::Enum(values::MessageType::Signaling),
            Body::Empty,
        ),
    ];
    for (mt, b) in cases {
        let msg = Message {
            header: Header {
                messageType: mt,
                ..base.header
            },
            body: b,
        };
        let bytes = serialize_message(&msg);
        let (rest, decoded) = parse_ptp_message(&bytes).unwrap();
        assert_eq!(rest.len(), 0);
        assert_eq!(decoded, msg);
    }
}

#[test]
fn timestamp_bytes_are_big_endian_and_exact() {
    let ts = Timestamp {
        secondsField: Int::new(23).unwrap(),
        nanosecondsField: Int::new(19).unwrap(),
    };
    let mut writer = BitSink::new();
    ts.bit_serialize(&mut writer).unwrap();
    let bytes = writer.into_bytes();
    assert_eq!(bytes, vec![0, 0, 0, 0, 0, 23, 0, 0, 0, 19]);
    let big = Timestamp {
        secondsField: Int::new(0x0102_0304_0506).unwrap(),
        nanosecondsField: Int::new(0x0708_090A).unwrap(),
    };
    let mut writer2 = BitSink::new();
    big.bit_serialize(&mut writer2).unwrap();
    let bytes2 = writer2.into_bytes();
    assert_eq!(bytes2, vec![1, 2, 3, 4, 5, 6, 7, 8, 9, 10]);
}

#[test]
fn checked_conversions_validate_the_range() {
    assert_eq!(
        <Int<U4> as TryFrom<i128>>::try_from(7).map(|i| i.into_inner()),
        Some(7)
    );
    assert!(<Int<U4> as TryFrom<i128>>::try_from(20).is_none());
    assert!(<Int<U8> as TryFrom<i128>>::try_from(-1).is_none());
}

#[test]
fn width_conversions_widen_freely_and_narrow_checked() {
    let nibble = Int::<U4>::new(9).unwrap();
    let widened: Int<U16> = nibble.convert().unwrap();
    assert_eq!(widened.into_inner(), 9);
    let word = Int::<U16>::new(300).unwrap();
    assert!(word.convert::<U8>().is_err());
    let small = Int::<U16>::new(200).unwrap();
    assert_eq!(small.convert::<U8>().unwrap().into_inner(), 200);
    assert!(Int::<U8>::new(200).unwrap().convert::<I8>().is_err());
}

#[test]
fn enumeration_arithmetic_goes_through_the_raw_value() {
    let a: ptp::enums::TimeSource = Enumeration::from_raw(Int::new(0x10).unwrap());
    let sum = a.add(a).unwrap();
    assert_eq!(sum, Enumeration::Enum(values::TimeSource::GPS));
    let shifted = a.shl(1).unwrap();
    assert_eq!(shifted, Enumeration::Enum(values::TimeSource::GPS));
    let back = shifted.shr(1);
    assert_eq!(back, Enumeration::Enum(values::TimeSource::ATOMIC_CLOCK));
    let overflow: ptp::enums::TimeSource = Enumeration::from_raw(Int::new(0xFF).unwrap());
    assert!(overflow.add(overflow).is_err());
}
