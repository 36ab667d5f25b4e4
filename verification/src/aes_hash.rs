//! AES-128 block ciphers and correlation-robust hashing based on
//! fixed-key AES.
//!
//! A correlation-robust hash function `H` is one whose outputs
//! `H(x ^ R)`, for a fixed `R` unknown to the adversary, cannot be told
//! apart from those of a random function. [`CorrelationRobustHash`]
//! computes `π(x) ^ x` and [`TweakableCircularCorrelationRobustHash`]
//! computes `π(π(x) ^ t) ^ π(x)` for a tweak `t`, where `π` is AES-128
//! encryption under a fixed key (Guo, Katz, Wang, Yu, "Efficient and Secure
//! Multiparty Computation from Fixed-Key Block Ciphers", IEEE S&P 2020,
//! §7.2 and §7.4).
use vstd::prelude::*;
use aes::cipher::{BlockCipherDecrypt, BlockCipherEncrypt, KeyInit};
use crate::block::{U8x16, xor_bytes, u128_le_bytes, xor_u8x16, u8x16_from_u128};

verus! {

/// The AES-128 encryption of `block` under `key`, as the `aes` crate
/// computes it.
pub uninterp spec fn aes128_encrypt(key: Seq<u8>, block: Seq<u8>) -> Seq<u8>;

/// The AES-128 decryption of `block` under `key`, as the `aes` crate
/// computes it.
pub uninterp spec fn aes128_decrypt(key: Seq<u8>, block: Seq<u8>) -> Seq<u8>;

/// Encrypts one block with `aes::Aes128` keyed by `key`
/// (`KeyInit::new` then `BlockCipherEncrypt::encrypt_block`).
///
/// Claims: the result is `aes128_encrypt(key, block)`, a function of the
/// key and the block alone.
#[verifier::external_body]
fn aes128_encrypt_block(key: &U8x16, block: U8x16) -> (r: U8x16)
    ensures
        r@ == aes128_encrypt(key@, block@),
{
    let cipher = aes::Aes128::new(&aes::cipher::Array::from(*key));
    let mut b = aes::Block::from(block);
    cipher.encrypt_block(&mut b);
    b.into()
}

/// Decrypts one block with `aes::Aes128` keyed by `key`
/// (`KeyInit::new` then `BlockCipherDecrypt::decrypt_block`).
///
/// Claims: the result is `aes128_decrypt(key, block)`, and encrypting the
/// result under the same key gives `block` back (AES is a permutation whose
/// inverse is decryption).
#[verifier::external_body]
fn aes128_decrypt_block(key: &U8x16, block: U8x16) -> (r: U8x16)
    ensures
        r@ == aes128_decrypt(key@, block@),
        aes128_encrypt(key@, r@) == block@,
{
    let cipher = aes::Aes128::new(&aes::cipher::Array::from(*key));
    let mut b = aes::Block::from(block);
    cipher.decrypt_block(&mut b);
    b.into()
}

/// An AES block cipher with a fixed key.
pub trait AesBlockCipher: Sized {
    /// The key type.
    type Key;

    /// What encrypting `block` gives.
    spec fn spec_encrypt(&self, block: Seq<u8>) -> Seq<u8>;

    /// A cipher keyed with `key`.
    fn new_with_key(key: Self::Key) -> Self;

    /// Encrypt one block.
    fn encrypt(&self, block: U8x16) -> (r: U8x16)
        ensures
            r@ == self.spec_encrypt(block@),
    ;

    /// Encrypt each of the blocks.
    fn encrypt_many<const N: usize>(&self, blocks: [U8x16; N]) -> (r: [U8x16; N])
        ensures
            forall|i: int| 0 <= i < N ==> #[trigger] r@[i]@ == self.spec_encrypt(blocks@[i]@),
    ;
}

/// An AES block cipher with a fixed key that can also decrypt.
pub trait AesBlockCipherDecrypt: AesBlockCipher {
    /// What decrypting `block` gives.
    spec fn spec_decrypt(&self, block: Seq<u8>) -> Seq<u8>;

    /// Decrypt one block; encrypting the result gives `block` back.
    fn decrypt(&self, block: U8x16) -> (r: U8x16)
        ensures
            r@ == self.spec_decrypt(block@),
            self.spec_encrypt(r@) == block@,
    ;

    /// Decrypt each of the blocks.
    fn decrypt_many<const N: usize>(&self, blocks: [U8x16; N]) -> (r: [U8x16; N])
        ensures
            forall|i: int| 0 <= i < N ==> #[trigger] r@[i]@ == self.spec_decrypt(blocks@[i]@),
    ;
}

/// AES-128, encryption only.
#[derive(Clone, Debug)]
pub struct Aes128EncryptOnly {
    key: U8x16,
}

/// AES-128, encryption and decryption.
#[derive(Clone, Debug)]
pub struct Aes128 {
    key: U8x16,
}

impl Aes128EncryptOnly {
    /// The key.
    pub closed spec fn spec_key(&self) -> Seq<u8> {
        self.key@
    }
}

impl Aes128 {
    /// The key.
    pub closed spec fn spec_key(&self) -> Seq<u8> {
        self.key@
    }
}

impl AesBlockCipher for Aes128EncryptOnly {
    type Key = U8x16;

    open spec fn spec_encrypt(&self, block: Seq<u8>) -> Seq<u8> {
        aes128_encrypt(self.spec_key(), block)
    }

    fn new_with_key(key: U8x16) -> (c: Self)
        ensures
            c.spec_key() == key@,
    {
        Aes128EncryptOnly { key }
    }

    fn encrypt(&self, block: U8x16) -> (r: U8x16) {
        aes128_encrypt_block(&self.key, block)
    }

    fn encrypt_many<const N: usize>(&self, blocks: [U8x16; N]) -> (r: [U8x16; N]) {
        let mut out = blocks;
        let mut i: usize = 0;
        while i < N
            invariant
                i <= N,
                out@.len() == N,
                blocks@.len() == N,
                forall|j: int| 0 <= j < i ==> #[trigger] out@[j]@ == self.spec_encrypt(blocks@[j]@),
                forall|j: int| i <= j < N ==> #[trigger] out@[j] == blocks@[j],
            decreases N - i,
        {
            let e = self.encrypt(blocks[i]);
            out[i] = e;
            i = i + 1;
        }
        out
    }
}

impl AesBlockCipher for Aes128 {
    type Key = U8x16;

    open spec fn spec_encrypt(&self, block: Seq<u8>) -> Seq<u8> {
        aes128_encrypt(self.spec_key(), block)
    }

    fn new_with_key(key: U8x16) -> (c: Self)
        ensures
            c.spec_key() == key@,
    {
        Aes128 { key }
    }

    fn encrypt(&self, block: U8x16) -> (r: U8x16) {
        aes128_encrypt_block(&self.key, block)
    }

    fn encrypt_many<const N: usize>(&self, blocks: [U8x16; N]) -> (r: [U8x16; N]) {
        let mut out = blocks;
        let mut i: usize = 0;
        while i < N
            invariant
                i <= N,
                out@.len() == N,
                blocks@.len() == N,
                forall|j: int| 0 <= j < i ==> #[trigger] out@[j]@ == self.spec_encrypt(blocks@[j]@),
                forall|j: int| i <= j < N ==> #[trigger] out@[j] == blocks@[j],
            decreases N - i,
        {
            let e = self.encrypt(blocks[i]);
            out[i] = e;
            i = i + 1;
        }
        out
    }
}

impl AesBlockCipherDecrypt for Aes128 {
    open spec fn spec_decrypt(&self, block: Seq<u8>) -> Seq<u8> {
        aes128_decrypt(self.spec_key(), block)
    }

    fn decrypt(&self, block: U8x16) -> (r: U8x16) {
        aes128_decrypt_block(&self.key, block)
    }

    fn decrypt_many<const N: usize>(&self, blocks: [U8x16; N]) -> (r: [U8x16; N]) {
        let mut out = blocks;
        let mut i: usize = 0;
        while i < N
            invariant
                i <= N,
                out@.len() == N,
                blocks@.len() == N,
                forall|j: int| 0 <= j < i ==> #[trigger] out@[j]@ == self.spec_decrypt(blocks@[j]@),
                forall|j: int| i <= j < N ==> #[trigger] out@[j] == blocks@[j],
            decreases N - i,
        {
            let d = self.decrypt(blocks[i]);
            out[i] = d;
            i = i + 1;
        }
        out
    }
}

/// The fixed key `b"Aes' 16 byte key"`.
pub open spec fn fixed_key_bytes() -> Seq<u8> {
    seq![65u8, 101, 115, 39, 32, 49, 54, 32, 98, 121, 116, 101, 32, 107, 101, 121]
}

/// The fixed key is the ASCII text `Aes' 16 byte key`: one byte per
/// character, each byte the character's code.
pub proof fn fixed_key_is_ascii_text()
    ensures
        fixed_key_bytes().len() == "Aes' 16 byte key"@.len(),
        forall|i: int|
            0 <= i < fixed_key_bytes().len() ==> #[trigger] fixed_key_bytes()[i] as int
                == "Aes' 16 byte key"@[i] as int,
{
    reveal_strlit("Aes' 16 byte key");
}

/// The fixed key `b"Aes' 16 byte key"`.
fn fixed_key_block() -> (k: U8x16)
    ensures
        k@ == fixed_key_bytes(),
{
    let k: U8x16 = [65u8, 101, 115, 39, 32, 49, 54, 32, 98, 121, 116, 101, 32, 107, 101, 121];
    proof {
        assert(k@ =~= fixed_key_bytes());
    }
    k
}

/// What [`CorrelationRobustHash::hash`] computes under `key`: `π(x) ^ x`.
pub open spec fn cr_hash(key: Seq<u8>, input: Seq<u8>) -> Seq<u8> {
    xor_bytes(aes128_encrypt(key, input), input)
}

/// What [`TweakableCircularCorrelationRobustHash::hash`] computes under
/// `key`: `π(π(x) ^ t) ^ π(x)`, with `t` as its 16 little-endian bytes.
pub open spec fn tccr_hash(key: Seq<u8>, input: Seq<u8>, tweak: u128) -> Seq<u8> {
    let permutation = aes128_encrypt(key, input);
    xor_bytes(permutation, aes128_encrypt(key, xor_bytes(permutation, u128_le_bytes(tweak))))
}

/// Correlation-robust hash function for 128-bit inputs: `π(x) ^ x`, where
/// `π` is AES-128 encryption.
#[derive(Clone, Debug)]
pub struct CorrelationRobustHash(Aes128EncryptOnly);

impl CorrelationRobustHash {
    /// The AES key of this hash.
    pub closed spec fn spec_key(&self) -> Seq<u8> {
        self.0.spec_key()
    }

    /// The hash with the fixed key `b"Aes' 16 byte key"`.
    pub fn fixed_key() -> (h: Self)
        ensures
            h.spec_key() == fixed_key_bytes(),
    {
        Self::new(fixed_key_block())
    }

    /// The hash with the given AES-128 key.
    pub fn new(key: U8x16) -> (h: Self)
        ensures
            h.spec_key() == key@,
    {
        CorrelationRobustHash(Aes128EncryptOnly::new_with_key(key))
    }

    /// The hash of `input`.
    pub fn hash(&self, input: U8x16) -> (r: U8x16)
        ensures
            r@ == cr_hash(self.spec_key(), input@),
    {
        let p = self.0.encrypt(input);
        xor_u8x16(&p, &input)
    }

    /// The hashes of a batch of inputs.
    pub fn hash_many<const N: usize>(&self, inputs: [U8x16; N]) -> (r: [U8x16; N])
        ensures
            forall|i: int| 0 <= i < N ==> #[trigger] r@[i]@ == cr_hash(self.spec_key(), inputs@[i]@),
    {
        let permutations = self.0.encrypt_many(inputs);
        let mut out = permutations;
        let mut i: usize = 0;
        while i < N
            invariant
                i <= N,
                out@.len() == N,
                inputs@.len() == N,
                permutations@.len() == N,
                forall|j: int| 0 <= j < N ==> #[trigger] permutations@[j]@ == aes128_encrypt(self.spec_key(), inputs@[j]@),
                forall|j: int| 0 <= j < i ==> #[trigger] out@[j]@ == cr_hash(self.spec_key(), inputs@[j]@),
            decreases N - i,
        {
            let h = xor_u8x16(&permutations[i], &inputs[i]);
            out[i] = h;
            i = i + 1;
        }
        out
    }
}

/// Tweakable circular correlation-robust hash function for 128-bit inputs:
/// `π(π(x) ^ t) ^ π(x)`, where `π` is AES-128 encryption and `t` the tweak.
#[derive(Clone, Debug)]
pub struct TweakableCircularCorrelationRobustHash(Aes128EncryptOnly);

impl TweakableCircularCorrelationRobustHash {
    /// The AES key of this hash.
    pub closed spec fn spec_key(&self) -> Seq<u8> {
        self.0.spec_key()
    }

    /// The hash with the fixed key `b"Aes' 16 byte key"`.
    pub fn fixed_key() -> (h: Self)
        ensures
            h.spec_key() == fixed_key_bytes(),
    {
        Self::new(fixed_key_block())
    }

    /// The hash with the given AES-128 key.
    pub fn new(key: U8x16) -> (h: Self)
        ensures
            h.spec_key() == key@,
    {
        TweakableCircularCorrelationRobustHash(Aes128EncryptOnly::new_with_key(key))
    }

    /// The hash of `input` under `tweak`.
    pub fn hash(&self, input: U8x16, tweak: u128) -> (r: U8x16)
        ensures
            r@ == tccr_hash(self.spec_key(), input@, tweak),
    {
        let permutation = self.0.encrypt(input);
        let t = u8x16_from_u128(tweak);
        let tweaked_permutation = self.0.encrypt(xor_u8x16(&permutation, &t));
        xor_u8x16(&permutation, &tweaked_permutation)
    }

    /// The hashes of a batch of inputs under the same tweak.
    pub fn hash_many<const N: usize>(&self, inputs: [U8x16; N], tweak: u128) -> (r: [U8x16; N])
        ensures
            forall|i: int| 0 <= i < N ==> #[trigger] r@[i]@ == tccr_hash(self.spec_key(), inputs@[i]@, tweak),
    {
        let permutations = self.0.encrypt_many(inputs);
        let t = u8x16_from_u128(tweak);
        let mut tweaked = permutations;
        let mut i: usize = 0;
        while i < N
            invariant
                i <= N,
                tweaked@.len() == N,
                permutations@.len() == N,
                t@ == u128_le_bytes(tweak),
                forall|j: int| 0 <= j < i ==> #[trigger] tweaked@[j]@ == xor_bytes(permutations@[j]@, t@),
            decreases N - i,
        {
            let x = xor_u8x16(&permutations[i], &t);
            tweaked[i] = x;
            i = i + 1;
        }
        let tweaked_permutations = self.0.encrypt_many(tweaked);
        let mut out = permutations;
        let mut i: usize = 0;
        while i < N
            invariant
                i <= N,
                out@.len() == N,
                inputs@.len() == N,
                permutations@.len() == N,
                tweaked@.len() == N,
                tweaked_permutations@.len() == N,
                t@ == u128_le_bytes(tweak),
                forall|j: int| 0 <= j < N ==> #[trigger] permutations@[j]@ == aes128_encrypt(self.spec_key(), inputs@[j]@),
                forall|j: int| 0 <= j < N ==> #[trigger] tweaked@[j]@ == xor_bytes(permutations@[j]@, t@),
                forall|j: int| 0 <= j < N ==> #[trigger] tweaked_permutations@[j]@ == aes128_encrypt(self.spec_key(), tweaked@[j]@),
                forall|j: int| 0 <= j < i ==> #[trigger] out@[j]@ == tccr_hash(self.spec_key(), inputs@[j]@, tweak),
            decreases N - i,
        {
            let h = xor_u8x16(&permutations[i], &tweaked_permutations[i]);
            out[i] = h;
            i = i + 1;
        }
        out
    }
}

} // verus!
