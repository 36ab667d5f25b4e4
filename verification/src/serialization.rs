//! Canonical serialization of data.
//!
//! A serialization of values of type `T` is canonical when it is
//! deterministic (a value always has the same serialization) and stable
//! (it does not change across space or time). [`CanonicalSerialize`] gives
//! each value a fixed-size byte representation; [`SequenceSerializer`] and
//! [`SequenceDeserializer`] (de)serialize sequences of values, possibly
//! statefully. [`ByteElementSerializer`] and [`ByteElementDeserializer`]
//! simply concatenate the byte representations.
use vstd::prelude::*;
use core::marker::PhantomData;
use crate::block::U8x16;

verus! {

/// An error with no inhabitants, for values that cannot fail to
/// deserialize: its invariant cannot hold, so no value of it can be made.
#[derive(Clone, Copy, Debug)]
pub struct BytesDeserializationCannotFail {
    never: (),
}

impl BytesDeserializationCannotFail {
    /// No value satisfies this invariant.
    #[verifier::type_invariant]
    spec fn uninhabited(self) -> bool {
        false
    }
}

/// Types with a canonical, fixed-size byte representation.
pub trait CanonicalSerialize: Sized {
    /// The error that decoding an invalid byte sequence gives.
    type FromBytesError;

    /// The number of bytes of the representation.
    spec fn byte_repr_len() -> nat;

    /// The byte representation of a value.
    spec fn spec_to_bytes(self) -> Seq<u8>;

    /// The number of bytes of the representation.
    fn byte_len() -> (n: usize)
        ensures
            n == Self::byte_repr_len(),
    ;

    /// The byte representation of `self`.
    fn to_bytes(&self) -> (b: Vec<u8>)
        ensures
            b@ == self.spec_to_bytes(),
            b@.len() == Self::byte_repr_len(),
    ;

    /// Whether `bytes` (of the representation's length) is the
    /// representation of a value.
    spec fn spec_decodes(bytes: Seq<u8>) -> bool;

    /// The value whose representation is `bytes`, if any. For security, each
    /// value is decoded from exactly one byte sequence.
    fn from_bytes(bytes: &[u8]) -> (r: core::result::Result<Self, Self::FromBytesError>)
        requires
            bytes@.len() == Self::byte_repr_len(),
        ensures
            r is Ok <==> Self::spec_decodes(bytes@),
            r matches Ok(v) ==> v.spec_to_bytes() == bytes@,
    ;

    /// Different values have different representations.
    proof fn lemma_to_bytes_injective(a: Self, b: Self)
        requires
            a.spec_to_bytes() == b.spec_to_bytes(),
        ensures
            a == b,
    ;

    /// The representation of a value has the fixed length and decodes.
    proof fn lemma_to_bytes_decodes(v: Self)
        ensures
            v.spec_to_bytes().len() == Self::byte_repr_len(),
            Self::spec_decodes(v.spec_to_bytes()),
    ;
}

/// The 8 little-endian bytes of `x`.
pub open spec fn u64_le_bytes(x: u64) -> Seq<u8> {
    seq![
        x as u8,
        (x >> 8u64) as u8,
        (x >> 16u64) as u8,
        (x >> 24u64) as u8,
        (x >> 32u64) as u8,
        (x >> 40u64) as u8,
        (x >> 48u64) as u8,
        (x >> 56u64) as u8,
    ]
}

/// The 4 little-endian bytes of `x`.
pub open spec fn u32_le_bytes(x: u32) -> Seq<u8> {
    seq![x as u8, (x >> 8u32) as u8, (x >> 16u32) as u8, (x >> 24u32) as u8]
}

impl CanonicalSerialize for () {
    type FromBytesError = BytesDeserializationCannotFail;

    open spec fn byte_repr_len() -> nat {
        0
    }

    open spec fn spec_to_bytes(self) -> Seq<u8> {
        Seq::empty()
    }

    fn byte_len() -> (n: usize) {
        0
    }

    fn to_bytes(&self) -> (b: Vec<u8>) {
        Vec::new()
    }

    /// Every byte sequence of the right length decodes.
    open spec fn spec_decodes(bytes: Seq<u8>) -> bool {
        true
    }

    fn from_bytes(bytes: &[u8]) -> (r: core::result::Result<(), BytesDeserializationCannotFail>) {
        proof {
            assert(bytes@ =~= Seq::<u8>::empty());
        }
        Ok(())
    }

    proof fn lemma_to_bytes_injective(a: (), b: ()) {
    }

    proof fn lemma_to_bytes_decodes(v: ()) {
    }
}

impl CanonicalSerialize for u8 {
    type FromBytesError = BytesDeserializationCannotFail;

    open spec fn byte_repr_len() -> nat {
        1
    }

    open spec fn spec_to_bytes(self) -> Seq<u8> {
        seq![self]
    }

    fn byte_len() -> (n: usize) {
        1
    }

    fn to_bytes(&self) -> (b: Vec<u8>) {
        let mut v: Vec<u8> = Vec::new();
        v.push(*self);
        proof {
            assert(v@ =~= seq![*self]);
        }
        v
    }

    /// Every byte sequence of the right length decodes.
    open spec fn spec_decodes(bytes: Seq<u8>) -> bool {
        true
    }

    fn from_bytes(bytes: &[u8]) -> (r: core::result::Result<u8, BytesDeserializationCannotFail>) {
        proof {
            assert(bytes@ =~= seq![bytes@[0]]);
        }
        Ok(bytes[0])
    }

    proof fn lemma_to_bytes_injective(a: u8, b: u8) {
        assert(a.spec_to_bytes()[0] == a);
        assert(b.spec_to_bytes()[0] == b);
    }

    proof fn lemma_to_bytes_decodes(v: u8) {
    }
}

impl CanonicalSerialize for u32 {
    type FromBytesError = BytesDeserializationCannotFail;

    open spec fn byte_repr_len() -> nat {
        4
    }

    open spec fn spec_to_bytes(self) -> Seq<u8> {
        u32_le_bytes(self)
    }

    fn byte_len() -> (n: usize) {
        4
    }

    fn to_bytes(&self) -> (b: Vec<u8>) {
        let x = *self;
        let mut v: Vec<u8> = Vec::new();
        v.push(x as u8);
        v.push((x >> 8u32) as u8);
        v.push((x >> 16u32) as u8);
        v.push((x >> 24u32) as u8);
        proof {
            assert(v@ =~= u32_le_bytes(x));
        }
        v
    }

    /// Every byte sequence of the right length decodes.
    open spec fn spec_decodes(bytes: Seq<u8>) -> bool {
        true
    }

    fn from_bytes(bytes: &[u8]) -> (r: core::result::Result<u32, BytesDeserializationCannotFail>) {
        let b0 = bytes[0];
        let b1 = bytes[1];
        let b2 = bytes[2];
        let b3 = bytes[3];
        let x: u32 = (b0 as u32) | ((b1 as u32) << 8u32) | ((b2 as u32) << 16u32) | ((b3 as u32)
            << 24u32);
        assert(x as u8 == b0 && (x >> 8u32) as u8 == b1 && (x >> 16u32) as u8 == b2 && (x
            >> 24u32) as u8 == b3) by (bit_vector)
            requires
                x == (b0 as u32) | ((b1 as u32) << 8u32) | ((b2 as u32) << 16u32) | ((b3 as u32)
                    << 24u32),
        ;
        proof {
            assert(u32_le_bytes(x) =~= bytes@);
        }
        Ok(x)
    }

    proof fn lemma_to_bytes_injective(a: u32, b: u32) {
        let sa = a.spec_to_bytes();
        let sb = b.spec_to_bytes();
        assert(sa[0] == sb[0] && sa[1] == sb[1] && sa[2] == sb[2] && sa[3] == sb[3]);
        assert(a == b) by (bit_vector)
            requires
                a as u8 == b as u8,
                (a >> 8u32) as u8 == (b >> 8u32) as u8,
                (a >> 16u32) as u8 == (b >> 16u32) as u8,
                (a >> 24u32) as u8 == (b >> 24u32) as u8,
        ;
    }

    proof fn lemma_to_bytes_decodes(v: u32) {
    }
}

impl CanonicalSerialize for u64 {
    type FromBytesError = BytesDeserializationCannotFail;

    open spec fn byte_repr_len() -> nat {
        8
    }

    open spec fn spec_to_bytes(self) -> Seq<u8> {
        u64_le_bytes(self)
    }

    fn byte_len() -> (n: usize) {
        8
    }

    fn to_bytes(&self) -> (b: Vec<u8>) {
        let x = *self;
        let mut v: Vec<u8> = Vec::new();
        v.push(x as u8);
        v.push((x >> 8u64) as u8);
        v.push((x >> 16u64) as u8);
        v.push((x >> 24u64) as u8);
        v.push((x >> 32u64) as u8);
        v.push((x >> 40u64) as u8);
        v.push((x >> 48u64) as u8);
        v.push((x >> 56u64) as u8);
        proof {
            assert(v@ =~= u64_le_bytes(x));
        }
        v
    }

    /// Every byte sequence of the right length decodes.
    open spec fn spec_decodes(bytes: Seq<u8>) -> bool {
        true
    }

    fn from_bytes(bytes: &[u8]) -> (r: core::result::Result<u64, BytesDeserializationCannotFail>) {
        let b0 = bytes[0];
        let b1 = bytes[1];
        let b2 = bytes[2];
        let b3 = bytes[3];
        let b4 = bytes[4];
        let b5 = bytes[5];
        let b6 = bytes[6];
        let b7 = bytes[7];
        let x: u64 = (b0 as u64) | ((b1 as u64) << 8u64) | ((b2 as u64) << 16u64) | ((b3 as u64)
            << 24u64) | ((b4 as u64) << 32u64) | ((b5 as u64) << 40u64) | ((b6 as u64) << 48u64)
            | ((b7 as u64) << 56u64);
        assert(x as u8 == b0 && (x >> 8u64) as u8 == b1 && (x >> 16u64) as u8 == b2 && (x
            >> 24u64) as u8 == b3 && (x >> 32u64) as u8 == b4 && (x >> 40u64) as u8 == b5 && (x
            >> 48u64) as u8 == b6 && (x >> 56u64) as u8 == b7) by (bit_vector)
            requires
                x == (b0 as u64) | ((b1 as u64) << 8u64) | ((b2 as u64) << 16u64) | ((b3 as u64)
                    << 24u64) | ((b4 as u64) << 32u64) | ((b5 as u64) << 40u64) | ((b6 as u64)
                    << 48u64) | ((b7 as u64) << 56u64),
        ;
        proof {
            assert(u64_le_bytes(x) =~= bytes@);
        }
        Ok(x)
    }

    proof fn lemma_to_bytes_injective(a: u64, b: u64) {
        let sa = a.spec_to_bytes();
        let sb = b.spec_to_bytes();
        assert(sa[0] == sb[0] && sa[1] == sb[1] && sa[2] == sb[2] && sa[3] == sb[3] && sa[4]
            == sb[4] && sa[5] == sb[5] && sa[6] == sb[6] && sa[7] == sb[7]);
        assert(a == b) by (bit_vector)
            requires
                a as u8 == b as u8,
                (a >> 8u64) as u8 == (b >> 8u64) as u8,
                (a >> 16u64) as u8 == (b >> 16u64) as u8,
                (a >> 24u64) as u8 == (b >> 24u64) as u8,
                (a >> 32u64) as u8 == (b >> 32u64) as u8,
                (a >> 40u64) as u8 == (b >> 40u64) as u8,
                (a >> 48u64) as u8 == (b >> 48u64) as u8,
                (a >> 56u64) as u8 == (b >> 56u64) as u8,
        ;
    }

    proof fn lemma_to_bytes_decodes(v: u64) {
    }
}

impl CanonicalSerialize for U8x16 {
    type FromBytesError = BytesDeserializationCannotFail;

    open spec fn byte_repr_len() -> nat {
        16
    }

    open spec fn spec_to_bytes(self) -> Seq<u8> {
        self@
    }

    fn byte_len() -> (n: usize) {
        16
    }

    fn to_bytes(&self) -> (b: Vec<u8>) {
        let mut v: Vec<u8> = Vec::new();
        let mut i: usize = 0;
        while i < 16
            invariant
                i <= 16,
                v@ == self@.take(i as int),
            decreases 16 - i,
        {
            v.push(self[i]);
            proof {
                assert(v@ =~= self@.take(i + 1));
            }
            i = i + 1;
        }
        proof {
            assert(self@.take(16) =~= self@);
        }
        v
    }

    /// Every byte sequence of the right length decodes.
    open spec fn spec_decodes(bytes: Seq<u8>) -> bool {
        true
    }

    fn from_bytes(bytes: &[u8]) -> (r: core::result::Result<U8x16, BytesDeserializationCannotFail>) {
        let mut out: U8x16 = [0u8; 16];
        let mut i: usize = 0;
        while i < 16
            invariant
                i <= 16,
                bytes@.len() == 16,
                forall|j: int| 0 <= j < i ==> out@[j] == bytes@[j],
            decreases 16 - i,
        {
            out[i] = bytes[i];
            i = i + 1;
        }
        proof {
            assert(out@ =~= bytes@);
        }
        Ok(out)
    }

    proof fn lemma_to_bytes_injective(a: U8x16, b: U8x16) {
        assert(a@ =~= b@);
    }

    proof fn lemma_to_bytes_decodes(v: U8x16) {
    }
}

/// A way to serialize a sequence of values into a byte buffer.
pub trait SequenceSerializer<E>: Sized {
    /// Whether the size of `n` serialized values fits in a `usize`.
    spec fn size_fits(n: usize) -> bool;

    /// The exact number of bytes written when `n` values are serialized.
    fn serialized_size(n: usize) -> (s: usize)
        requires
            Self::size_fits(n),
    ;

    /// A new serializer writing into `dst`.
    fn new(dst: &mut Vec<u8>) -> Self;

    /// Write one value.
    fn write(&mut self, dst: &mut Vec<u8>, e: E);

    /// Write out all outstanding values; this must be called last.
    fn finish(self, dst: &mut Vec<u8>);
}

/// Why reading a value failed.
#[derive(Clone, Copy, Debug, PartialEq, Eq, Structural)]
pub enum ReadError {
    /// The bytes ran out before a whole value was read.
    UnexpectedEof,
    /// The bytes read are the representation of no value.
    InvalidData,
}

/// A way to deserialize a sequence of values from a byte buffer.
pub trait SequenceDeserializer<E>: Sized {
    /// A new deserializer.
    fn new() -> Self;

    /// Read the next value from `src`, starting at `*pos`; `*pos` moves past
    /// the bytes read.
    fn read(&mut self, src: &[u8], pos: &mut usize) -> core::result::Result<E, ReadError>;
}

/// The serializer that concatenates the byte representations of the values.
pub struct ByteElementSerializer<E> {
    element: PhantomData<E>,
}

/// The deserializer that reads the byte representations of the values one
/// after the other.
pub struct ByteElementDeserializer<E> {
    element: PhantomData<E>,
}

impl<E: CanonicalSerialize> SequenceSerializer<E> for ByteElementSerializer<E> {
    open spec fn size_fits(n: usize) -> bool {
        E::byte_repr_len() * n <= usize::MAX
    }

    fn serialized_size(n: usize) -> (s: usize)
        ensures
            s == E::byte_repr_len() * n,
    {
        E::byte_len() * n
    }

    fn new(dst: &mut Vec<u8>) -> (s: Self)
        ensures
            final(dst)@ == old(dst)@,
    {
        ByteElementSerializer { element: PhantomData }
    }

    fn write(&mut self, dst: &mut Vec<u8>, e: E)
        ensures
            final(dst)@ == old(dst)@ + e.spec_to_bytes(),
    {
        let b = e.to_bytes();
        dst.extend_from_slice(b.as_slice());
    }

    fn finish(self, dst: &mut Vec<u8>)
        ensures
            final(dst)@ == old(dst)@,
    {
    }
}

impl<E: CanonicalSerialize> SequenceDeserializer<E> for ByteElementDeserializer<E> {
    fn new() -> (d: Self) {
        ByteElementDeserializer { element: PhantomData }
    }

    /// Reads the bytes of one value. When fewer remain, all that remain are
    /// consumed and the read fails with [`ReadError::UnexpectedEof`]; bytes
    /// that decode to no value are consumed and the read fails with
    /// [`ReadError::InvalidData`].
    fn read(&mut self, src: &[u8], pos: &mut usize) -> (r: core::result::Result<E, ReadError>)
        ensures
            old(pos) + E::byte_repr_len() > src@.len() ==> r == core::result::Result::<
                E,
                ReadError,
            >::Err(ReadError::UnexpectedEof) && *final(pos) == if *old(pos) <= src@.len() {
                src@.len() as int
            } else {
                *old(pos) as int
            },
            old(pos) + E::byte_repr_len() <= src@.len() ==> {
                let bytes = src@.subrange(*old(pos) as int, *old(pos) + E::byte_repr_len());
                &&& *final(pos) == *old(pos) + E::byte_repr_len()
                &&& r is Ok <==> E::spec_decodes(bytes)
                &&& r matches Ok(v) ==> v.spec_to_bytes() == bytes
                &&& r is Err ==> r == core::result::Result::<E, ReadError>::Err(
                    ReadError::InvalidData,
                )
            },
    {
        let n = E::byte_len();
        let len = src.len();
        if *pos > len {
            return Err(ReadError::UnexpectedEof);
        }
        if n > len - *pos {
            *pos = len;
            return Err(ReadError::UnexpectedEof);
        }
        let start = *pos;
        let mut buf: Vec<u8> = Vec::new();
        let mut i: usize = 0;
        while i < n
            invariant
                i <= n,
                start + n <= src@.len(),
                len == src@.len(),
                buf@ == src@.subrange(start as int, start + i),
            decreases n - i,
        {
            buf.push(src[start + i]);
            proof {
                assert(buf@ =~= src@.subrange(start as int, start + i + 1));
            }
            i = i + 1;
        }
        *pos = start + n;
        match E::from_bytes(buf.as_slice()) {
            Ok(v) => Ok(v),
            Err(_) => Err(ReadError::InvalidData),
        }
    }
}

/// The representations of `vs`, one after the other: what a
/// [`ByteElementSerializer`] writes for them.
pub open spec fn reprs<E: CanonicalSerialize>(vs: Seq<E>) -> Seq<u8>
    decreases vs.len(),
{
    if vs.len() == 0 {
        Seq::empty()
    } else {
        reprs(vs.drop_last()) + vs.last().spec_to_bytes()
    }
}

/// The bytes written for `vs` (by a new [`ByteElementSerializer`], one
/// `write` per value and `finish`, which add only the values'
/// representations) number `vs.len()` times the fixed length: what
/// `serialized_size(vs.len())` gives.
pub proof fn lemma_reprs_len<E: CanonicalSerialize>(vs: Seq<E>)
    ensures
        reprs(vs).len() == vs.len() * E::byte_repr_len(),
    decreases vs.len(),
{
    if vs.len() > 0 {
        lemma_reprs_len(vs.drop_last());
        E::lemma_to_bytes_decodes(vs.last());
        let n = vs.len() as int;
        let l = E::byte_repr_len() as int;
        assert((n - 1) * l + l == n * l) by (nonlinear_arith);
    }
}

/// What is written is read back: in the representations of `vs` written
/// one after the other, the `i`-th window of the fixed length is the
/// representation of `vs[i]`, which decodes, and to `vs[i]` alone.
pub proof fn written_values_read_back<E: CanonicalSerialize>(vs: Seq<E>, i: int)
    requires
        0 <= i < vs.len(),
    ensures
        reprs(vs).len() == vs.len() * E::byte_repr_len(),
        reprs(vs).subrange(i * E::byte_repr_len(), i * E::byte_repr_len() + E::byte_repr_len())
            == vs[i].spec_to_bytes(),
        E::spec_decodes(vs[i].spec_to_bytes()),
        forall|w: E| #[trigger] w.spec_to_bytes() == vs[i].spec_to_bytes() ==> w == vs[i],
    decreases vs.len(),
{
    let n = vs.len() as int;
    let l = E::byte_repr_len() as int;
    let p = vs.drop_last();
    lemma_reprs_len(vs);
    lemma_reprs_len(p);
    E::lemma_to_bytes_decodes(vs.last());
    E::lemma_to_bytes_decodes(vs[i]);
    assert((n - 1) * l + l == n * l) by (nonlinear_arith);
    if i == n - 1 {
        assert(reprs(vs).subrange(i * l, i * l + l) =~= vs.last().spec_to_bytes());
    } else {
        written_values_read_back(p, i);
        assert(i * l + l <= (n - 1) * l) by (nonlinear_arith)
            requires
                0 <= i < n - 1,
                l >= 0,
        ;
        assert(0 <= i * l) by (nonlinear_arith)
            requires
                0 <= i,
                l >= 0,
        ;
        assert(reprs(vs).subrange(i * l, i * l + l) =~= reprs(p).subrange(i * l, i * l + l));
    }
    assert forall|w: E| #[trigger] w.spec_to_bytes() == vs[i].spec_to_bytes() implies w == vs[i] by {
        E::lemma_to_bytes_injective(w, vs[i]);
    }
}

} // verus!
