use vstd::prelude::*;
use vstd::pervasive::strictly_cloned;
use vstd::std_specs::convert::{IntoSpec, TryIntoSpec};

use crate::buf::bytes_of;
use crate::encoding::{
    decode_int32, encode_int32, encoded_len_int32, int32_varint, lemma_decode_int32_of,
    spec_decode_int32, DecodeError, WireType,
};

verus! {

/// A symbolic value of type `T`, or the raw code of a value that `T` does not
/// recognise.
#[derive(Copy, Clone, Debug, PartialEq, Eq, PartialOrd, Ord)]
pub enum OpenEnum<T> {
    Known(T),
    Unknown(i32),
}

/// The raw code of a symbolic value, as `T`'s conversion into `i32` gives it.
pub open spec fn code_of<T: Into<i32>>(v: T) -> i32 {
    v.into_spec()
}

/// The symbolic value for a raw code, as `i32`'s conversion into `T` gives it.
pub open spec fn variant_of<T>(raw: i32) -> Option<T>
    where i32: TryInto<T>,
{
    match raw.try_into_spec() {
        Ok(v) => Some(v),
        Err(_) => None,
    }
}

/// Cloning a `T` yields a value equal to the original: the type can be
/// duplicated without side effects.
pub open spec fn clone_is_copy<T: Clone>() -> bool {
    forall|a: T, b: T| #[trigger] strictly_cloned(a, b) ==> a == b
}

/// `T`'s conversions to and from `i32` have specifications, and every
/// symbolic value reads back as itself from its own code.
pub open spec fn codes_round_trip<T: Into<i32>>() -> bool
    where i32: TryInto<T>,
{
    &&& <T as IntoSpec<i32>>::obeys_into_spec()
    &&& <i32 as TryIntoSpec<T>>::obeys_try_into_spec()
    &&& forall|v: T| #[trigger] variant_of::<T>(code_of(v)) == Some(v)
}

impl<T> OpenEnum<T> {
    /// The value that a raw code decodes to.
    pub open spec fn spec_from_raw(raw: i32) -> Self
        where i32: TryInto<T>,
    {
        match variant_of::<T>(raw) {
            Some(v) => OpenEnum::Known(v),
            None => OpenEnum::Unknown(raw),
        }
    }

    /// The raw code that a value encodes to.
    pub open spec fn spec_raw(self) -> i32
        where T: Into<i32>,
    {
        match self {
            OpenEnum::Known(v) => code_of(v),
            OpenEnum::Unknown(raw) => raw,
        }
    }

    /// `to_raw` gives `spec_raw` on this value: it holds no symbolic value,
    /// or `T`'s conversion into `i32` has a specification and cloning a `T`
    /// yields an equal value.
    pub open spec fn raw_is_exact(self) -> bool
        where T: Clone + Into<i32>,
    {
        self is Unknown || (<T as IntoSpec<i32>>::obeys_into_spec() && clone_is_copy::<T>())
    }

    /// Decoding one occurrence of the field framed as `wire_type` from the
    /// front of `b`: the new value and the result. The value read replaces the
    /// old one whole; on an error the old value stays.
    pub open spec fn spec_merge_field(self, wire_type: WireType, b: Seq<u8>) -> (Self, Result<(), DecodeError>)
        where i32: TryInto<T>,
    {
        match spec_decode_int32(wire_type, b) {
            Ok((raw, _)) => (Self::spec_from_raw(raw), Ok(())),
            Err(e) => (self, Err(e)),
        }
    }

    /// The value for a raw code: `Known` where `T` has a variant for it,
    /// else `Unknown` holding the code unchanged.
    pub fn from_raw(value: i32) -> (r: Self)
        where i32: TryInto<T>,
        ensures
            <i32 as TryIntoSpec<T>>::obeys_try_into_spec() ==> r == Self::spec_from_raw(value),
            r matches OpenEnum::Unknown(u) ==> u == value,
    {
        match value.try_into() {
            Ok(v) => OpenEnum::Known(v),
            Err(_) => OpenEnum::Unknown(value),
        }
    }

    /// The raw code of the value: a symbolic value's code, or the unknown
    /// code as it was.
    pub fn into_raw(self) -> (r: i32)
        where T: Into<i32>,
        ensures
            <T as IntoSpec<i32>>::obeys_into_spec() ==> r == self.spec_raw(),
            self matches OpenEnum::Unknown(u) ==> r == u,
    {
        match self {
            OpenEnum::Known(v) => v.into(),
            OpenEnum::Unknown(v) => v,
        }
    }

    /// The raw code of the value, as `into_raw` gives it, without consuming
    /// the value.
    pub fn to_raw(&self) -> (r: i32)
        where T: Clone + Into<i32>,
        ensures
            self.raw_is_exact() ==> r == self.spec_raw(),
    {
        match self {
            OpenEnum::Known(v) => {
                let c = v.clone();
                assert(strictly_cloned(*v, c));
                c.into()
            },
            OpenEnum::Unknown(v) => *v,
        }
    }
}

impl<T> OpenEnum<T> {
    /// The symbolic value; the caller must know that it is there.
    pub fn unwrap(self) -> (r: T)
        requires
            self is Known,
        ensures
            self == OpenEnum::Known(r),
    {
        match self {
            OpenEnum::Known(v) => v,
            OpenEnum::Unknown(_) => vstd::pervasive::unreached(),
        }
    }

    /// The symbolic value, or `default` for an unknown code.
    pub fn unwrap_or(self, default: T) -> (r: T)
        ensures
            r == match self {
                OpenEnum::Known(v) => v,
                OpenEnum::Unknown(_) => default,
            },
    {
        match self {
            OpenEnum::Known(v) => v,
            OpenEnum::Unknown(_) => default,
        }
    }

    /// The symbolic value, or what `f` makes of the unknown code.
    pub fn unwrap_or_else<F>(self, f: F) -> (r: T)
        where F: FnOnce(i32) -> T,
        requires
            self matches OpenEnum::Unknown(u) ==> f.requires((u,)),
        ensures
            self matches OpenEnum::Known(v) ==> r == v,
            self matches OpenEnum::Unknown(u) ==> f.ensures((u,), r),
    {
        match self {
            OpenEnum::Known(v) => v,
            OpenEnum::Unknown(v) => f(v),
        }
    }

    /// The symbolic value, or `T`'s default for an unknown code.
    pub fn unwrap_or_default(self) -> (r: T)
        where T: Default,
        ensures
            self matches OpenEnum::Known(v) ==> r == v,
            self is Unknown ==> call_ensures(T::default, (), r),
    {
        match self {
            OpenEnum::Known(v) => v,
            OpenEnum::Unknown(_) => T::default(),
        }
    }

    /// The symbolic value, if there is one.
    pub fn known(self) -> (r: Option<T>)
        ensures
            r == match self {
                OpenEnum::Known(v) => Some(v),
                OpenEnum::Unknown(_) => None::<T>,
            },
    {
        match self {
            OpenEnum::Known(v) => Some(v),
            OpenEnum::Unknown(_) => None,
        }
    }

    /// The symbolic value, or `err` for an unknown code.
    pub fn known_or<E>(self, err: E) -> (r: Result<T, E>)
        ensures
            r == match self {
                OpenEnum::Known(v) => Ok(v),
                OpenEnum::Unknown(_) => Err::<T, E>(err),
            },
    {
        match self {
            OpenEnum::Known(v) => Ok(v),
            OpenEnum::Unknown(_) => Err(err),
        }
    }

    /// The symbolic value, or the error that `err` makes of the unknown code.
    pub fn known_or_else<E, F>(self, err: F) -> (r: Result<T, E>)
        where F: FnOnce(i32) -> E,
        requires
            self matches OpenEnum::Unknown(u) ==> err.requires((u,)),
        ensures
            self matches OpenEnum::Known(v) ==> r == Ok::<T, E>(v),
            self matches OpenEnum::Unknown(u) ==> (r matches Err(e) && err.ensures((u,), e)),
    {
        match self {
            OpenEnum::Known(v) => Ok(v),
            OpenEnum::Unknown(v) => Err(err(v)),
        }
    }
}

impl<T> OpenEnum<T> {
    /// The number of bytes that `encode_raw` writes.
    pub fn encoded_len(&self) -> (r: usize)
        where T: Clone + Into<i32>,
        ensures
            self.raw_is_exact() ==> r == int32_varint(self.spec_raw()).len(),
            1 <= r <= 10,
    {
        encoded_len_int32(self.to_raw())
    }

    /// Appends the raw code, as a varint of its value sign-extended to 64
    /// bits, to `buf`.
    pub fn encode_raw(&self, buf: &mut bytes::BytesMut)
        where T: Clone + Into<i32>,
        requires
            bytes_of(*old(buf)).len() + 10 <= isize::MAX,
        ensures
            self.raw_is_exact() ==> bytes_of(*final(buf)) == bytes_of(*old(buf)) + int32_varint(
                self.spec_raw(),
            ),
    {
        encode_int32(self.to_raw(), buf)
    }

    /// Decodes one occurrence of the field framed as `wire_type` from the
    /// front of `buf` and replaces the whole value with it. A decode error is
    /// handed back as it came and leaves the value as it was.
    pub fn merge_field(&mut self, wire_type: WireType, buf: &mut bytes::BytesMut) -> (r: Result<(), DecodeError>)
        where i32: TryInto<T>,
        ensures
            <i32 as TryIntoSpec<T>>::obeys_try_into_spec() ==> (*final(self), r) == old(
                self,
            ).spec_merge_field(wire_type, bytes_of(*old(buf))),
            match spec_decode_int32(wire_type, bytes_of(*old(buf))) {
                Ok((raw, n)) => {
                    &&& r is Ok
                    &&& bytes_of(*final(buf)) == bytes_of(*old(buf)).skip(n as int)
                    &&& *final(self) matches OpenEnum::Unknown(u) ==> u == raw
                },
                Err(e) => r == Err::<(), DecodeError>(e) && *final(self) == *old(self),
            },
    {
        match decode_int32(wire_type, buf) {
            Ok(raw) => {
                *self = OpenEnum::from_raw(raw);
                Ok(())
            },
            Err(e) => Err(e),
        }
    }

    /// Resets the value to what the code `0` decodes to, whatever it held.
    pub fn clear(&mut self)
        where i32: TryInto<T>,
        ensures
            <i32 as TryIntoSpec<T>>::obeys_try_into_spec() ==> *final(self) == Self::spec_from_raw(0),
            *final(self) matches OpenEnum::Unknown(u) ==> u == 0,
    {
        *self = OpenEnum::from_raw(0);
    }
}

impl<T: Default> Default for OpenEnum<T> {
    fn default() -> (r: Self)
        ensures
            r matches OpenEnum::Known(v) && call_ensures(T::default, (), v),
    {
        OpenEnum::Known(T::default())
    }
}

impl<T> From<T> for OpenEnum<T> {
    fn from(value: T) -> (r: Self)
        ensures
            r == OpenEnum::Known(value),
    {
        OpenEnum::Known(value)
    }
}

impl<T> vstd::std_specs::convert::FromSpecImpl<T> for OpenEnum<T> {
    open spec fn obeys_from_spec() -> bool {
        true
    }

    open spec fn from_spec(v: T) -> Self {
        OpenEnum::Known(v)
    }
}

/// A symbolic value turned into its code and back is the same value.
pub proof fn lemma_known_round_trip<T: Into<i32>>(v: T)
    where i32: TryInto<T>,
    requires
        codes_round_trip::<T>(),
    ensures
        OpenEnum::<T>::spec_from_raw(OpenEnum::Known(v).spec_raw()) == OpenEnum::Known(v),
{
    assert(variant_of::<T>(code_of(v)) == Some(v));
}

/// A code that names no symbolic value is kept as it is, and is its own raw
/// code.
pub proof fn lemma_unknown_round_trip<T: Into<i32>>(raw: i32)
    where i32: TryInto<T>,
    requires
        <i32 as TryIntoSpec<T>>::obeys_try_into_spec(),
        variant_of::<T>(raw) is None,
    ensures
        OpenEnum::<T>::spec_from_raw(raw) == OpenEnum::<T>::Unknown(raw),
        OpenEnum::<T>::Unknown(raw).spec_raw() == raw,
{
}

/// Where the code `0` names `T`'s default value `d`, the default open value
/// `Known(d)` is what the code `0` decodes to.
pub proof fn lemma_default_is_zero<T: Default>(d: T)
    where i32: TryInto<T>,
    requires
        <i32 as TryIntoSpec<T>>::obeys_try_into_spec(),
        call_ensures(T::default, (), d),
        variant_of::<T>(0) == Some(d),
    ensures
        OpenEnum::Known(d) == OpenEnum::<T>::spec_from_raw(0),
{
}

/// The bytes that a value encodes to, decoded into any value, whatever
/// follows them, give the value back and consume exactly those bytes.
pub proof fn lemma_wire_round_trip<T: Into<i32>>(e: OpenEnum<T>, any: OpenEnum<T>, rest: Seq<u8>)
    where i32: TryInto<T>,
    requires
        codes_round_trip::<T>(),
        e matches OpenEnum::Unknown(raw) ==> variant_of::<T>(raw) is None,
    ensures
        spec_decode_int32(WireType::Varint, int32_varint(e.spec_raw()) + rest) == Ok::<
            (i32, nat),
            DecodeError,
        >((e.spec_raw(), int32_varint(e.spec_raw()).len())),
        any.spec_merge_field(WireType::Varint, int32_varint(e.spec_raw()) + rest) == (
            e,
            Ok::<(), DecodeError>(()),
        ),
{
    lemma_decode_int32_of(e.spec_raw(), rest);
    match e {
        OpenEnum::Known(v) => lemma_known_round_trip(v),
        OpenEnum::Unknown(raw) => lemma_unknown_round_trip::<T>(raw),
    }
}

/// Two occurrences of the field decoded in turn from one buffer: the first is
/// consumed, and the value ends as the second one decodes to, whatever it held
/// before and whatever the first one was.
pub proof fn lemma_merge_last_wins<T>(e: OpenEnum<T>, first: i32, second: i32, rest: Seq<u8>)
    where i32: TryInto<T>,
    ensures
        ({
            let b = int32_varint(first) + int32_varint(second) + rest;
            let (e1, r1) = e.spec_merge_field(WireType::Varint, b);
            let n1 = int32_varint(first).len();
            &&& spec_decode_int32(WireType::Varint, b) == Ok::<(i32, nat), DecodeError>((first, n1))
            &&& r1 is Ok
            &&& b.skip(n1 as int) == int32_varint(second) + rest
            &&& e1.spec_merge_field(WireType::Varint, b.skip(n1 as int)) == (
                OpenEnum::<T>::spec_from_raw(second),
                Ok::<(), DecodeError>(()),
            )
        }),
{
    let b = int32_varint(first) + int32_varint(second) + rest;
    assert(b =~= int32_varint(first) + (int32_varint(second) + rest));
    lemma_decode_int32_of(first, int32_varint(second) + rest);
    lemma_decode_int32_of(second, rest);
    assert(b.skip(int32_varint(first).len() as int) =~= int32_varint(second) + rest);
}

} // verus!
