use bytes::BytesMut;
use open_enum::encoding::{decode_varint, encode_varint, encoded_len_varint};
use open_enum::{DecodeError, OpenEnum, WireType};

#[derive(Copy, Clone, Debug, PartialEq, Eq)]
enum Color {
    Unspecified,
    Red,
    Green,
}

impl Default for Color {
    fn default() -> Color {
        Color::Unspecified
    }
}

impl From<Color> for i32 {
    fn from(c: Color) -> i32 {
        match c {
            Color::Unspecified => 0,
            Color::Red => 1,
            Color::Green => 2,
        }
    }
}

impl TryFrom<i32> for Color {
    type Error = i32;

    fn try_from(raw: i32) -> Result<Color, i32> {
        match raw {
            0 => Ok(Color::Unspecified),
            1 => Ok(Color::Red),
            2 => Ok(Color::Green),
            other => Err(other),
        }
    }
}

/// A symbolic type with no variant for the code `0`.
#[derive(Copy, Clone, Debug, PartialEq, Eq)]
enum Level {
    Low,
    High,
}

impl From<Level> for i32 {
    fn from(l: Level) -> i32 {
        match l {
            Level::Low => 10,
            Level::High => 20,
        }
    }
}

impl TryFrom<i32> for Level {
    type Error = ();

    fn try_from(raw: i32) -> Result<Level, ()> {
        match raw {
            10 => Ok(Level::Low),
            20 => Ok(Level::High),
            _ => Err(()),
        }
    }
}

fn encoded(e: &OpenEnum<Color>) -> Vec<u8> {
    let mut buf = BytesMut::new();
    e.encode_raw(&mut buf);
    buf.to_vec()
}

#[test]
fn from_raw_known_code() {
    assert_eq!(OpenEnum::<Color>::from_raw(2), OpenEnum::Known(Color::Green));
    assert_eq!(OpenEnum::<Color>::from_raw(0), OpenEnum::Known(Color::Unspecified));
}

#[test]
fn from_raw_unknown_code_is_kept() {
    assert_eq!(OpenEnum::<Color>::from_raw(999), OpenEnum::Unknown(999));
    assert_eq!(OpenEnum::<Color>::from_raw(-7), OpenEnum::Unknown(-7));
}

#[test]
fn known_round_trip() {
    for c in [Color::Unspecified, Color::Red, Color::Green] {
        let e = OpenEnum::Known(c);
        assert_eq!(OpenEnum::<Color>::from_raw(e.to_raw()), e);
        assert_eq!(OpenEnum::<Color>::from_raw(e.into_raw()), e);
    }
}

#[test]
fn unknown_round_trip() {
    for r in [3, 999, -1, i32::MIN, i32::MAX] {
        let e = OpenEnum::<Color>::from_raw(r);
        assert_eq!(e, OpenEnum::Unknown(r));
        assert_eq!(e.to_raw(), r);
        assert_eq!(e.into_raw(), r);
    }
}

#[test]
fn raw_of_known_is_its_code() {
    assert_eq!(OpenEnum::Known(Color::Red).into_raw(), 1);
    assert_eq!(OpenEnum::Known(Color::Green).to_raw(), 2);
    assert_eq!(OpenEnum::Known(Level::High).to_raw(), 20);
}

#[test]
fn default_is_from_raw_zero() {
    let d: OpenEnum<Color> = OpenEnum::default();
    assert_eq!(d, OpenEnum::Known(Color::Unspecified));
    assert_eq!(d, OpenEnum::<Color>::from_raw(0));
}

#[test]
fn from_wraps_known() {
    assert_eq!(OpenEnum::from(Color::Red), OpenEnum::Known(Color::Red));
}

#[test]
fn clear_twice_is_clear_once() {
    let mut a = OpenEnum::<Color>::Unknown(42);
    a.clear();
    let once = a;
    a.clear();
    assert_eq!(a, once);
    assert_eq!(a, OpenEnum::<Color>::from_raw(0));
    assert_eq!(a, OpenEnum::Known(Color::Unspecified));
}

#[test]
fn clear_without_zero_variant_gives_unknown_zero() {
    let mut a = OpenEnum::Known(Level::High);
    a.clear();
    assert_eq!(a, OpenEnum::Unknown(0));
    a.clear();
    assert_eq!(a, OpenEnum::Unknown(0));
}

#[test]
fn extraction_on_known() {
    let k = OpenEnum::Known(Color::Red);
    assert_eq!(k.unwrap(), Color::Red);
    assert_eq!(k.unwrap_or(Color::Green), Color::Red);
    assert_eq!(k.unwrap_or_else(|_| Color::Green), Color::Red);
    assert_eq!(k.unwrap_or_default(), Color::Red);
    assert_eq!(k.known(), Some(Color::Red));
    assert_eq!(k.known_or("unknown"), Ok(Color::Red));
    assert_eq!(k.known_or_else(|r| r + 1), Ok(Color::Red));
}

#[test]
fn extraction_on_unknown() {
    let u = OpenEnum::<Color>::Unknown(7);
    assert_eq!(u.unwrap_or(Color::Green), Color::Green);
    assert_eq!(
        u.unwrap_or_else(|r| if r == 7 { Color::Red } else { Color::Green }),
        Color::Red
    );
    assert_eq!(u.unwrap_or_default(), Color::Unspecified);
    assert_eq!(u.known(), None);
    assert_eq!(u.known_or("unknown"), Err("unknown"));
    assert_eq!(u.known_or_else(|r| r * 10), Err::<Color, i32>(70));
}

#[test]
fn encoded_len_matches_bytes() {
    for e in [
        OpenEnum::Known(Color::Green),
        OpenEnum::Unknown(0),
        OpenEnum::Unknown(127),
        OpenEnum::Unknown(128),
        OpenEnum::Unknown(999),
        OpenEnum::Unknown(i32::MAX),
        OpenEnum::Unknown(-1),
    ] {
        assert_eq!(e.encoded_len(), encoded(&e).len());
    }
    assert_eq!(OpenEnum::Known(Color::Green).encoded_len(), 1);
    assert_eq!(OpenEnum::<Color>::Unknown(999).encoded_len(), 2);
    assert_eq!(OpenEnum::<Color>::Unknown(i32::MAX).encoded_len(), 5);
    assert_eq!(OpenEnum::<Color>::Unknown(-1).encoded_len(), 10);
}

#[test]
fn encode_writes_varint_bytes() {
    assert_eq!(encoded(&OpenEnum::Known(Color::Green)), vec![0x02]);
    assert_eq!(encoded(&OpenEnum::Unknown(300)), vec![0xAC, 0x02]);
    assert_eq!(encoded(&OpenEnum::Unknown(999)), vec![0xE7, 0x07]);
    assert_eq!(
        encoded(&OpenEnum::Unknown(-1)),
        vec![0xFF, 0xFF, 0xFF, 0xFF, 0xFF, 0xFF, 0xFF, 0xFF, 0xFF, 0x01]
    );
}

#[test]
fn encode_appends_after_existing_bytes() {
    let mut buf = BytesMut::new();
    buf.extend_from_slice(&[0x08]);
    OpenEnum::<Color>::Unknown(300).encode_raw(&mut buf);
    assert_eq!(buf.to_vec(), vec![0x08, 0xAC, 0x02]);
}

#[test]
fn wire_round_trip_known_and_unknown() {
    for e in [OpenEnum::Known(Color::Green), OpenEnum::<Color>::Unknown(999)] {
        let mut buf = BytesMut::new();
        e.encode_raw(&mut buf);
        let mut got = OpenEnum::<Color>::Unknown(5);
        assert_eq!(got.merge_field(WireType::Varint, &mut buf), Ok(()));
        assert_eq!(got, e);
        assert!(buf.is_empty());
    }
}

#[test]
fn wire_round_trip_negative() {
    let mut buf = BytesMut::new();
    OpenEnum::<Color>::Unknown(i32::MIN).encode_raw(&mut buf);
    let mut got = OpenEnum::<Color>::default();
    assert_eq!(got.merge_field(WireType::Varint, &mut buf), Ok(()));
    assert_eq!(got, OpenEnum::Unknown(i32::MIN));
}

#[test]
fn merge_last_write_wins() {
    let mut buf = BytesMut::new();
    OpenEnum::Known(Color::Red).encode_raw(&mut buf);
    OpenEnum::<Color>::Unknown(999).encode_raw(&mut buf);
    let mut e = OpenEnum::Known(Color::Green);
    assert_eq!(e.merge_field(WireType::Varint, &mut buf), Ok(()));
    assert_eq!(e, OpenEnum::Known(Color::Red));
    assert_eq!(e.merge_field(WireType::Varint, &mut buf), Ok(()));
    assert_eq!(e, OpenEnum::Unknown(999));
    assert!(buf.is_empty());
}

#[test]
fn merge_wrong_wire_type_is_refused() {
    let mut buf = BytesMut::new();
    buf.extend_from_slice(&[0x02]);
    let mut e = OpenEnum::Known(Color::Red);
    assert_eq!(
        e.merge_field(WireType::LengthDelimited, &mut buf),
        Err(DecodeError::InvalidWireType {
            actual: WireType::LengthDelimited,
            expected: WireType::Varint,
        })
    );
    assert_eq!(e, OpenEnum::Known(Color::Red));
    assert_eq!(buf.to_vec(), vec![0x02]);
}

#[test]
fn merge_truncated_varint_is_refused() {
    let mut e = OpenEnum::Known(Color::Red);
    let mut empty = BytesMut::new();
    assert_eq!(e.merge_field(WireType::Varint, &mut empty), Err(DecodeError::InvalidVarint));
    let mut buf = BytesMut::new();
    buf.extend_from_slice(&[0x80, 0x80]);
    assert_eq!(e.merge_field(WireType::Varint, &mut buf), Err(DecodeError::InvalidVarint));
    assert_eq!(e, OpenEnum::Known(Color::Red));
}

#[test]
fn merge_overlong_varint_is_refused() {
    let mut e = OpenEnum::<Color>::Unknown(3);
    let mut buf = BytesMut::new();
    buf.extend_from_slice(&[0xFF; 11]);
    assert_eq!(e.merge_field(WireType::Varint, &mut buf), Err(DecodeError::InvalidVarint));
    let mut buf = BytesMut::new();
    buf.extend_from_slice(&[0xFF, 0xFF, 0xFF, 0xFF, 0xFF, 0xFF, 0xFF, 0xFF, 0xFF, 0x02]);
    assert_eq!(e.merge_field(WireType::Varint, &mut buf), Err(DecodeError::InvalidVarint));
    assert_eq!(e, OpenEnum::Unknown(3));
}

#[test]
fn merge_ten_byte_varint_truncates_to_32_bits() {
    let mut e = OpenEnum::<Color>::Unknown(3);
    let mut buf = BytesMut::new();
    buf.extend_from_slice(&[0xFF, 0xFF, 0xFF, 0xFF, 0xFF, 0xFF, 0xFF, 0xFF, 0xFF, 0x01, 0x07]);
    assert_eq!(e.merge_field(WireType::Varint, &mut buf), Ok(()));
    assert_eq!(e, OpenEnum::Unknown(-1));
    assert_eq!(buf.to_vec(), vec![0x07]);
}

#[test]
fn varint_u64_round_trip() {
    for v in [0u64, 1, 127, 128, 16383, 16384, u32::MAX as u64, u64::MAX] {
        let mut buf = BytesMut::new();
        encode_varint(v, &mut buf);
        assert_eq!(buf.len(), encoded_len_varint(v));
        assert_eq!(decode_varint(&mut buf), Ok(v));
        assert!(buf.is_empty());
    }
    assert_eq!(encoded_len_varint(u64::MAX), 10);
}
