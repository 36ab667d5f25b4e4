use aes::cipher::{BlockCipherEncrypt, KeyInit};
use swanky::aes_hash::{
    Aes128, Aes128EncryptOnly, AesBlockCipher, AesBlockCipherDecrypt, CorrelationRobustHash,
    TweakableCircularCorrelationRobustHash,
};
use swanky::block::{u8x16_from_u128, xor_u8x16, Block256, U8x16};

fn hex16(s: &str) -> U8x16 {
    let mut out = [0u8; 16];
    for i in 0..16 {
        out[i] = u8::from_str_radix(&s[2 * i..2 * i + 2], 16).unwrap();
    }
    out
}

fn aes_direct(key: &U8x16, block: U8x16) -> U8x16 {
    let cipher = aes::Aes128::new(&aes::cipher::Array::from(*key));
    let mut b = aes::Block::from(block);
    cipher.encrypt_block(&mut b);
    b.into()
}

#[test]
fn aes128_known_answer() {
    let key = hex16("000102030405060708090a0b0c0d0e0f");
    let pt = hex16("00112233445566778899aabbccddeeff");
    let ct = hex16("69c4e0d86a7b0430d8cdb78070b4c55a");
    assert_eq!(Aes128::new_with_key(key).encrypt(pt), ct);
    assert_eq!(Aes128EncryptOnly::new_with_key(key).encrypt(pt), ct);
    assert_eq!(Aes128::new_with_key(key).decrypt(ct), pt);
}

#[test]
fn aes128_many_matches_one_by_one() {
    let key = [7u8; 16];
    let c = Aes128::new_with_key(key);
    let blocks = [[0u8; 16], [1u8; 16], hex16("00112233445566778899aabbccddeeff")];
    let many = c.encrypt_many(blocks);
    for i in 0..3 {
        assert_eq!(many[i], c.encrypt(blocks[i]));
    }
    let back = c.decrypt_many(many);
    assert_eq!(back, blocks);
}

#[test]
fn cr_hash_is_permutation_xor_input() {
    let key = [0x42u8; 16];
    let h = CorrelationRobustHash::new(key);
    let x = hex16("0f0e0d0c0b0a09080706050403020100");
    let expected = xor_u8x16(&aes_direct(&key, x), &x);
    assert_eq!(h.hash(x), expected);
    assert_ne!(h.hash(x), aes_direct(&key, x));
    let many = h.hash_many([x, [0u8; 16]]);
    assert_eq!(many[0], expected);
    assert_eq!(many[1], h.hash([0u8; 16]));
}

#[test]
fn fixed_key_hash_uses_the_fixed_key() {
    let key: U8x16 = *b"Aes' 16 byte key";
    let x = [0x5au8; 16];
    assert_eq!(
        CorrelationRobustHash::fixed_key().hash(x),
        CorrelationRobustHash::new(key).hash(x)
    );
    assert_eq!(
        TweakableCircularCorrelationRobustHash::fixed_key().hash(x, 9),
        TweakableCircularCorrelationRobustHash::new(key).hash(x, 9)
    );
}

#[test]
fn tccr_hash_matches_definition() {
    let key = [3u8; 16];
    let h = TweakableCircularCorrelationRobustHash::new(key);
    let x = hex16("00112233445566778899aabbccddeeff");
    let tweak: u128 = 0x0102_0304_0506_0708_090a_0b0c_0d0e_0f10;
    let p = aes_direct(&key, x);
    let expected = xor_u8x16(&p, &aes_direct(&key, xor_u8x16(&p, &tweak.to_le_bytes())));
    assert_eq!(h.hash(x, tweak), expected);
    assert_ne!(h.hash(x, tweak), h.hash(x, tweak + 1));
    let many = h.hash_many([x, [9u8; 16]], tweak);
    assert_eq!(many[0], expected);
    assert_eq!(many[1], h.hash([9u8; 16], tweak));
}

#[test]
fn u128_blocks_are_little_endian() {
    let t: u128 = 0x0f0e_0d0c_0b0a_0908_0706_0504_0302_0100;
    assert_eq!(u8x16_from_u128(t), hex16("000102030405060708090a0b0c0d0e0f"));
}

#[test]
fn block256_conversions() {
    let mut bytes = [0u8; 32];
    for i in 0..32 {
        bytes[i] = i as u8;
    }
    let b = Block256::from_bytes(bytes);
    assert_eq!(b.to_bytes(), bytes);
    let halves = b.to_blocks();
    assert_eq!(halves[0][0], 0);
    assert_eq!(halves[1][0], 16);
    assert_eq!(Block256::from_blocks(halves).to_bytes(), bytes);
    assert_eq!(b.prefix(3), &[0u8, 1, 2][..]);
    assert_eq!(b.prefix(0).len(), 0);
    let x = b.xor(&Block256::from_bytes([0xffu8; 32]));
    assert_eq!(x.to_bytes()[5], 0xff ^ 5);
    assert_eq!(x.xor(&Block256::from_bytes([0xffu8; 32])).to_bytes(), bytes);
    let mut m = b;
    m.prefix_mut(2)[1] = 99;
    assert_eq!(m.to_bytes()[1], 99);
    assert_eq!(m.to_bytes()[2], 2);
    assert!(Block256::try_from_slice(&bytes[..31]).is_none());
    assert_eq!(Block256::try_from_slice(&bytes).unwrap().to_bytes(), bytes);
}
