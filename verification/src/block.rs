//! 128- and 256-bit blocks of data.
use vstd::prelude::*;
use vstd::slice::slice_subrange;

verus! {

/// A 128-bit block of data, as 16 bytes.
pub type U8x16 = [u8; 16];

/// A 128-bit block of data.
pub type Block = U8x16;

/// The byte-wise XOR of two byte sequences (as long as the first one).
pub open spec fn xor_bytes(a: Seq<u8>, b: Seq<u8>) -> Seq<u8> {
    Seq::new(a.len(), |i: int| a[i] ^ b[i])
}

/// The 16 little-endian bytes of `t`.
pub open spec fn u128_le_bytes(t: u128) -> Seq<u8> {
    Seq::new(16, |i: int| (t >> ((8 * i) as u128)) as u8)
}

/// The byte-wise XOR of two blocks.
pub fn xor_u8x16(a: &U8x16, b: &U8x16) -> (r: U8x16)
    ensures
        r@ == xor_bytes(a@, b@),
{
    let mut r: U8x16 = *a;
    let mut i: usize = 0;
    while i < 16
        invariant
            i <= 16,
            forall|j: int| 0 <= j < i ==> r@[j] == a@[j] ^ b@[j],
            forall|j: int| i <= j < 16 ==> r@[j] == a@[j],
        decreases 16 - i,
    {
        r[i] = a[i] ^ b[i];
        i = i + 1;
    }
    proof {
        assert(r@ =~= xor_bytes(a@, b@));
    }
    r
}

/// The block holding the 16 little-endian bytes of `t`.
pub fn u8x16_from_u128(t: u128) -> (r: U8x16)
    ensures
        r@ == u128_le_bytes(t),
{
    let mut r: U8x16 = [0u8; 16];
    let mut i: usize = 0;
    while i < 16
        invariant
            i <= 16,
            forall|j: int| 0 <= j < i ==> r@[j] == (t >> ((8 * j) as u128)) as u8,
        decreases 16 - i,
    {
        r[i] = (t >> ((8 * i) as u128)) as u8;
        i = i + 1;
    }
    proof {
        assert(r@ =~= u128_le_bytes(t));
    }
    r
}

/// A 256-bit block of data.
#[derive(Clone, Copy, Default, Debug, PartialEq, Eq, Hash)]
pub struct Block256([u8; 32]);

/// A mutable reference to the first `n` bytes of an array (`&mut a[..n]`).
#[verifier::external_body]
fn array_prefix_mut<'a>(a: &'a mut [u8; 32], n: usize) -> (r: &'a mut [u8])
    requires
        n <= 32,
    ensures
        r@ == old(a)@.take(n as int),
        final(r)@.len() == n,
        final(a)@ == final(r)@ + old(a)@.skip(n as int),
{
    &mut a[..n]
}

impl Block256 {
    /// The 32 bytes of the block.
    pub closed spec fn bytes(&self) -> Seq<u8> {
        self.0@
    }

    /// A block has 32 bytes.
    pub proof fn lemma_bytes_len(&self)
        ensures
            self.bytes().len() == 32,
    {
    }

    /// The block whose bytes are `bytes`.
    pub fn from_bytes(bytes: [u8; 32]) -> (b: Block256)
        ensures
            b.bytes() == bytes@,
    {
        Block256(bytes)
    }

    /// The bytes of the block.
    pub fn to_bytes(&self) -> (bytes: [u8; 32])
        ensures
            bytes@ == self.bytes(),
    {
        self.0
    }

    /// The block made of two 128-bit blocks, the first one first.
    pub fn from_blocks(blocks: [Block; 2]) -> (b: Block256)
        ensures
            b.bytes() == blocks@[0]@ + blocks@[1]@,
    {
        let mut bytes = [0u8; 32];
        let mut i: usize = 0;
        while i < 16
            invariant
                i <= 16,
                forall|j: int| 0 <= j < i ==> bytes@[j] == blocks@[0]@[j],
                forall|j: int| 0 <= j < i ==> bytes@[16 + j] == blocks@[1]@[j],
            decreases 16 - i,
        {
            bytes[i] = blocks[0][i];
            bytes[16 + i] = blocks[1][i];
            i = i + 1;
        }
        proof {
            assert(bytes@ =~= blocks@[0]@ + blocks@[1]@);
        }
        Block256(bytes)
    }

    /// The two 128-bit blocks of the block, the first one first.
    pub fn to_blocks(&self) -> (blocks: [Block; 2])
        ensures
            blocks@[0]@ == self.bytes().take(16),
            blocks@[1]@ == self.bytes().skip(16),
    {
        let mut b0 = [0u8; 16];
        let mut b1 = [0u8; 16];
        let mut i: usize = 0;
        while i < 16
            invariant
                i <= 16,
                forall|j: int| 0 <= j < i ==> b0@[j] == self.0@[j],
                forall|j: int| 0 <= j < i ==> b1@[j] == self.0@[16 + j],
            decreases 16 - i,
        {
            b0[i] = self.0[i];
            b1[i] = self.0[16 + i];
            i = i + 1;
        }
        proof {
            assert(b0@ =~= self.bytes().take(16));
            assert(b1@ =~= self.bytes().skip(16));
        }
        [b0, b1]
    }

    /// The first `n` bytes, where `n <= 32`.
    pub fn prefix(&self, n: usize) -> (p: &[u8])
        requires
            n <= 32,
        ensures
            p@ == self.bytes().take(n as int),
            p@.len() == n,
    {
        let s = slice_subrange(self.0.as_slice(), 0, n);
        proof {
            assert(s@ =~= self.bytes().take(n as int));
        }
        s
    }

    /// The first `n` bytes as mutable, where `n <= 32`; the other bytes are
    /// left as they are.
    pub fn prefix_mut(&mut self, n: usize) -> (p: &mut [u8])
        requires
            n <= 32,
        ensures
            p@ == old(self).bytes().take(n as int),
            p@.len() == n,
            final(self).bytes() == final(p)@ + old(self).bytes().skip(n as int),
    {
        array_prefix_mut(&mut self.0, n)
    }

    /// The byte-wise XOR of two blocks.
    pub fn xor(&self, rhs: &Block256) -> (r: Block256)
        ensures
            r.bytes() == xor_bytes(self.bytes(), rhs.bytes()),
    {
        let mut bytes = self.0;
        let mut i: usize = 0;
        while i < 32
            invariant
                i <= 32,
                forall|j: int| 0 <= j < i ==> bytes@[j] == self.0@[j] ^ rhs.0@[j],
            decreases 32 - i,
        {
            bytes[i] = self.0[i] ^ rhs.0[i];
            i = i + 1;
        }
        proof {
            assert(bytes@ =~= xor_bytes(self.bytes(), rhs.bytes()));
        }
        Block256(bytes)
    }

    /// The block read from a 32-byte slice; any other length is refused.
    pub fn try_from_slice(u: &[u8]) -> (r: Option<Block256>)
        ensures
            r is Some <==> u@.len() == 32,
            r matches Some(b) ==> b.bytes() == u@,
    {
        if u.len() != 32 {
            return None;
        }
        let mut bytes = [0u8; 32];
        let mut i: usize = 0;
        while i < 32
            invariant
                i <= 32,
                u@.len() == 32,
                forall|j: int| 0 <= j < i ==> bytes@[j] == u@[j],
            decreases 32 - i,
        {
            bytes[i] = u[i];
            i = i + 1;
        }
        proof {
            assert(bytes@ =~= u@);
        }
        Some(Block256(bytes))
    }
}

} // verus!
