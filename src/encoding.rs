//! The wire encoding of a 32-bit signed integer field: a base-128 varint of
//! the value sign-extended to 64 bits.
use vstd::prelude::*;

use crate::buf::{bytes_of, get_u8, put_u8, remaining};

verus! {

/// How a field's payload is framed on the wire.
#[derive(Copy, Clone, Debug, PartialEq, Eq, Structural)]
pub enum WireType {
    Varint,
    SixtyFourBit,
    LengthDelimited,
    StartGroup,
    EndGroup,
    ThirtyTwoBit,
}

/// Why a field could not be decoded.
#[derive(Copy, Clone, Debug, PartialEq, Eq, Structural)]
pub enum DecodeError {
    /// The varint ran past the end of the buffer, past ten bytes, or past
    /// 64 bits.
    InvalidVarint,
    /// The field came with a wire type other than the one its value needs.
    InvalidWireType { actual: WireType, expected: WireType },
}

/// `128` to the power `k`.
pub open spec fn pow128(k: nat) -> nat
    decreases k,
{
    if k == 0 {
        1
    } else {
        128 * pow128((k - 1) as nat)
    }
}

/// The varint bytes of `x`: seven bits to a byte, least significant first,
/// the high bit set on every byte but the last.
pub open spec fn varint(x: nat) -> Seq<u8>
    decreases x,
{
    if x < 128 {
        seq![x as u8]
    } else {
        seq![(x % 128 + 128) as u8] + varint(x / 128)
    }
}

/// Reads a varint at the start of `b` from at most `budget` bytes: its value
/// and the number of bytes it takes, or `None` where no byte below `128`
/// ends it in time.
pub open spec fn varint_parse(b: Seq<u8>, budget: nat) -> Option<(nat, nat)>
    decreases budget,
{
    if budget == 0 || b.len() == 0 {
        None
    } else if b[0] < 128 {
        Some((b[0] as nat, 1))
    } else {
        match varint_parse(b.drop_first(), (budget - 1) as nat) {
            Some((v, n)) => Some(((b[0] - 128) as nat + 128 * v, n + 1)),
            None => None,
        }
    }
}

/// A varint of at most ten bytes whose value fits in 64 bits, at the start of
/// `b`: its value and its length.
pub open spec fn spec_decode_varint(b: Seq<u8>) -> Option<(u64, nat)> {
    match varint_parse(b, 10) {
        Some((v, n)) => if v <= u64::MAX {
            Some((v as u64, n))
        } else {
            None
        },
        None => None,
    }
}

/// The 64 bits that a 32-bit signed value is encoded from: the value
/// sign-extended.
pub open spec fn int32_bits(value: i32) -> u64 {
    value as u64
}

/// The varint bytes of a 32-bit signed value.
pub open spec fn int32_varint(value: i32) -> Seq<u8> {
    varint(int32_bits(value) as nat)
}

/// Decoding a 32-bit signed value framed as `wire_type` from the start of
/// `b`: the value and the number of bytes read.
pub open spec fn spec_decode_int32(wire_type: WireType, b: Seq<u8>) -> Result<(i32, nat), DecodeError> {
    if wire_type != WireType::Varint {
        Err(DecodeError::InvalidWireType { actual: wire_type, expected: WireType::Varint })
    } else {
        match spec_decode_varint(b) {
            Some((v, n)) => Ok((v as i32, n)),
            None => Err(DecodeError::InvalidVarint),
        }
    }
}

proof fn lemma_pow128_mono(a: nat, b: nat)
    requires
        a <= b,
    ensures
        pow128(a) <= pow128(b),
    decreases b,
{
    if a < b {
        lemma_pow128_mono(a, (b - 1) as nat);
    }
}

proof fn lemma_pow128_bounds()
    ensures
        pow128(8) == 0x100_0000_0000_0000,
        pow128(9) == 0x8000_0000_0000_0000,
        pow128(10) > u64::MAX,
{
    reveal_with_fuel(pow128, 11);
}

/// A value below `128` to the power `k` takes at most `k` varint bytes.
proof fn lemma_varint_len(x: nat, k: nat)
    requires
        k >= 1,
        x < pow128(k),
    ensures
        1 <= varint(x).len() <= k,
    decreases x,
{
    reveal_with_fuel(pow128, 2);
    if x >= 128 {
        assert(k >= 2);
        let p = pow128((k - 1) as nat);
        assert(x / 128 < p) by (nonlinear_arith)
            requires
                x < 128 * p,
        ;
        lemma_varint_len(x / 128, (k - 1) as nat);
    }
}

/// A 64-bit value takes at most ten varint bytes.
pub proof fn lemma_varint_len_u64(x: u64)
    ensures
        1 <= varint(x as nat).len() <= 10,
{
    lemma_pow128_bounds();
    lemma_varint_len(x as nat, 10);
}

/// Reading back the varint bytes of `x`, whatever follows them, gives `x`
/// and their length, within any budget that lets `x` fit.
proof fn lemma_parse_varint(x: nat, k: nat, rest: Seq<u8>)
    requires
        k >= 1,
        x < pow128(k),
    ensures
        varint_parse(varint(x) + rest, k) == Some((x, varint(x).len())),
    decreases x,
{
    let b = varint(x) + rest;
    reveal_with_fuel(pow128, 2);
    if x < 128 {
        assert(b[0] == x as u8);
        assert(b[0] as nat == x);
    } else {
        assert(k >= 2);
        let p = pow128((k - 1) as nat);
        assert(x / 128 < p) by (nonlinear_arith)
            requires
                x < 128 * p,
        ;
        lemma_parse_varint(x / 128, (k - 1) as nat, rest);
        assert(b.drop_first() =~= varint(x / 128) + rest);
        assert(b[0] == (x % 128 + 128) as u8);
        assert(b[0] as nat == x % 128 + 128);
        assert((b[0] - 128) as nat + 128 * (x / 128) == x);
    }
}

/// Decoding the varint bytes of a 64-bit value, whatever follows them, gives
/// the value back and consumes exactly those bytes.
pub proof fn lemma_decode_varint_of(x: u64, rest: Seq<u8>)
    ensures
        spec_decode_varint(varint(x as nat) + rest) == Some((x, varint(x as nat).len())),
{
    lemma_pow128_bounds();
    lemma_parse_varint(x as nat, 10, rest);
}

/// The number of bytes that the varint of `value` takes.
pub fn encoded_len_varint(value: u64) -> (r: usize)
    ensures
        r == varint(value as nat).len(),
        1 <= r <= 10,
{
    proof {
        lemma_varint_len_u64(value);
    }
    let mut v: u64 = value;
    let mut n: usize = 1;
    while v >= 128
        invariant
            n >= 1,
            n + varint(v as nat).len() == varint(value as nat).len() + 1,
            varint(value as nat).len() <= 10,
        decreases v,
    {
        proof {
            lemma_varint_len_u64(v / 128);
        }
        v = v / 128;
        n = n + 1;
    }
    n
}

/// Appends the varint bytes of `value` to `buf`.
pub fn encode_varint(value: u64, buf: &mut bytes::BytesMut)
    requires
        bytes_of(*old(buf)).len() + 10 <= isize::MAX,
    ensures
        bytes_of(*final(buf)) == bytes_of(*old(buf)) + varint(value as nat),
{
    proof {
        lemma_varint_len_u64(value);
    }
    let mut v: u64 = value;
    while v >= 128
        invariant
            bytes_of(*buf) + varint(v as nat) == bytes_of(*old(buf)) + varint(value as nat),
            varint(value as nat).len() <= 10,
            bytes_of(*old(buf)).len() + 10 <= isize::MAX,
        decreases v,
    {
        let b: u8 = (v % 128 + 128) as u8;
        assert(bytes_of(*buf).push(b) + varint((v / 128) as nat) =~= bytes_of(*buf) + varint(v as nat));
        put_u8(buf, b);
        v = v / 128;
    }
    assert(bytes_of(*buf).push(v as u8) =~= bytes_of(*buf) + varint(v as nat));
    put_u8(buf, v as u8);
}

proof fn lemma_step(value: int, mult: int, b: int, v: int)
    ensures
        value + mult * ((b - 128) + 128 * v) == (value + (b - 128) * mult) + (mult * 128) * v,
{
    assert(value + mult * ((b - 128) + 128 * v) == (value + (b - 128) * mult) + (mult * 128) * v)
        by (nonlinear_arith);
}

/// Reads a varint from the front of `buf`. On success the bytes of the
/// varint are consumed.
pub fn decode_varint(buf: &mut bytes::BytesMut) -> (r: Result<u64, DecodeError>)
    ensures
        match spec_decode_varint(bytes_of(*old(buf))) {
            Some((v, n)) => r == Ok::<u64, DecodeError>(v) && bytes_of(*final(buf)) == bytes_of(
                *old(buf),
            ).skip(n as int),
            None => r == Err::<u64, DecodeError>(DecodeError::InvalidVarint),
        },
{
    let ghost orig = bytes_of(*buf);
    proof {
        lemma_pow128_bounds();
    }
    let mut value: u64 = 0;
    let mut mult: u64 = 1;
    let mut count: usize = 0;
    loop
        invariant
            orig == bytes_of(*old(buf)),
            count <= 9,
            mult == pow128(count as nat),
            value < mult,
            count <= orig.len(),
            bytes_of(*buf) == orig.skip(count as int),
            pow128(8) == 0x100_0000_0000_0000,
            pow128(9) == 0x8000_0000_0000_0000,
            varint_parse(orig, 10) == match varint_parse(bytes_of(*buf), (10 - count) as nat) {
                Some((v, n)) => Some(((value + mult * v) as nat, (n + count) as nat)),
                None => None,
            },
        decreases 10 - count,
    {
        let ghost cur = bytes_of(*buf);
        if remaining(buf) == 0 {
            return Err(DecodeError::InvalidVarint);
        }
        let byte = get_u8(buf);
        proof {
            lemma_pow128_mono(count as nat, 9);
            if count < 9 {
                lemma_pow128_mono(count as nat, 8);
            }
        }
        if count == 9 && byte >= 2 {
            proof {
                if byte < 128 {
                    assert(value + mult * byte >= 2 * 0x8000_0000_0000_0000) by (nonlinear_arith)
                        requires
                            mult == 0x8000_0000_0000_0000,
                            byte >= 2,
                            value >= 0,
                    ;
                }
            }
            return Err(DecodeError::InvalidVarint);
        }
        let digit: u64 = (byte % 128) as u64;
        assert(value + digit * mult < 128 * mult) by (nonlinear_arith)
            requires
                value < mult,
                digit < 128,
        ;
        assert(count == 9 ==> value + digit * mult <= u64::MAX) by (nonlinear_arith)
            requires
                count == 9 ==> (mult == 0x8000_0000_0000_0000 && digit < 2),
                value < mult,
        ;
        value = value + digit * mult;
        if byte < 128 {
            assert(orig.skip(count + 1) =~= cur.drop_first());
            assert(varint_parse(cur, (10 - count) as nat) == Some((byte as nat, 1nat)));
            assert(mult * byte == digit * mult) by (nonlinear_arith)
                requires
                    digit == byte,
            ;
            return Ok(value);
        }
        proof {
            let ghost old_value = value - digit * mult;
            match varint_parse(cur.drop_first(), (10 - count - 1) as nat) {
                Some((v, n)) => {
                    lemma_step(old_value, mult as int, byte as int, v as int);
                },
                None => {},
            }
            assert(orig.skip(count + 1) =~= cur.drop_first());
        }
        mult = mult * 128;
        count = count + 1;
    }
}

/// Fails unless a field came with the wire type that its value needs.
pub fn check_wire_type(expected: WireType, actual: WireType) -> (r: Result<(), DecodeError>)
    ensures
        r == if expected == actual {
            Ok::<(), DecodeError>(())
        } else {
            Err(DecodeError::InvalidWireType { actual, expected })
        },
{
    if expected == actual {
        Ok(())
    } else {
        Err(DecodeError::InvalidWireType { actual, expected })
    }
}

/// The number of bytes that a 32-bit signed value takes on the wire.
pub fn encoded_len_int32(value: i32) -> (r: usize)
    ensures
        r == int32_varint(value).len(),
        1 <= r <= 10,
{
    encoded_len_varint(value as u64)
}

/// Appends the wire bytes of a 32-bit signed value to `buf`.
pub fn encode_int32(value: i32, buf: &mut bytes::BytesMut)
    requires
        bytes_of(*old(buf)).len() + 10 <= isize::MAX,
    ensures
        bytes_of(*final(buf)) == bytes_of(*old(buf)) + int32_varint(value),
{
    encode_varint(value as u64, buf)
}

/// Reads a 32-bit signed value framed as `wire_type` from the front of `buf`.
/// On success its bytes are consumed; a wrong wire type leaves `buf` as it
/// was.
pub fn decode_int32(wire_type: WireType, buf: &mut bytes::BytesMut) -> (r: Result<i32, DecodeError>)
    ensures
        match spec_decode_int32(wire_type, bytes_of(*old(buf))) {
            Ok((v, n)) => r == Ok::<i32, DecodeError>(v) && bytes_of(*final(buf)) == bytes_of(
                *old(buf),
            ).skip(n as int),
            Err(e) => r == Err::<i32, DecodeError>(e),
        },
        wire_type != WireType::Varint ==> bytes_of(*final(buf)) == bytes_of(*old(buf)),
{
    match check_wire_type(WireType::Varint, wire_type) {
        Ok(()) => {},
        Err(e) => {
            return Err(e);
        },
    }
    match decode_varint(buf) {
        Ok(v) => Ok(v as i32),
        Err(e) => Err(e),
    }
}

/// A 32-bit signed value read back from its own wire bytes, whatever follows
/// them, is the value itself, and exactly its bytes are consumed.
pub proof fn lemma_decode_int32_of(value: i32, rest: Seq<u8>)
    ensures
        spec_decode_int32(WireType::Varint, int32_varint(value) + rest) == Ok::<(i32, nat), DecodeError>(
            (value, int32_varint(value).len()),
        ),
{
    lemma_decode_varint_of(int32_bits(value), rest);
    assert((value as u64) as i32 == value) by (bit_vector);
}

} // verus!
