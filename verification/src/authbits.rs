//! Authenticated bits and their local operations.
//!
//! An authenticated bit `[b]` is a relation `M = K ^ b·Δ` between a MAC `M`
//! and the bit `b`, held by `Party0` (the prover), and a key `K` and a
//! global `Δ`, held by `Party1` (the verifier). The prover cannot change the
//! bit without knowing `Δ`, and the verifier does not learn the bit until
//! the prover opens it by sending `(b, M)`.
//!
//! XOR of authenticated bits and XOR with a public constant are local
//! operations that keep the relation.
use vstd::prelude::*;
use core::marker::PhantomData;
use crate::block::{U8x16, xor_bytes, xor_u8x16};
use crate::error::{ErrorKind, format_err};
use crate::party::{GenericParty, GenericWhichParty, Prover, Verifier};

verus! {

/// `b·Δ`: `Δ` when `b` holds, sixteen zero bytes otherwise.
pub open spec fn scaled(b: bool, delta: Seq<u8>) -> Seq<u8> {
    if b {
        delta
    } else {
        Seq::new(16, |i: int| 0u8)
    }
}

/// The relation of an authenticated bit: `mac = key ^ bit·Δ`.
pub open spec fn authenticated(mac: Seq<u8>, bit: bool, key: Seq<u8>, delta: Seq<u8>) -> bool {
    &&& mac.len() == 16
    &&& key.len() == 16
    &&& delta.len() == 16
    &&& mac == xor_bytes(key, scaled(bit, delta))
}

/// The least-significant bit of a 128-bit value (bit 0 of byte 0).
pub open spec fn spec_lsb(x: Seq<u8>) -> bool {
    x[0] & 1u8 != 0
}

/// The least-significant bit of a 128-bit value.
pub fn lsb(input: &U8x16) -> (b: bool)
    ensures
        b == spec_lsb(input@),
{
    (input[0] & 1) != 0
}

/// `b·Δ` as a block.
pub(crate) fn scale(b: bool, delta: &U8x16) -> (r: U8x16)
    ensures
        r@ == scaled(b, delta@),
{
    if b {
        *delta
    } else {
        let z = [0u8; 16];
        proof {
            assert(z@ =~= scaled(false, delta@));
        }
        z
    }
}

/// One party's share of an authenticated bit.
#[derive(Clone, Copy)]
pub enum AuthBitShare {
    /// The prover's share: the MAC and the bit.
    Party0 { mac: U8x16, bit: bool },
    /// The verifier's share: the key.
    Party1 { key: U8x16 },
}

/// An authenticated bit, as seen by party `P`.
pub struct AuthBit<P: GenericParty> {
    share: AuthBitShare,
    party: PhantomData<P>,
}

impl<P: GenericParty> Clone for AuthBit<P> {
    fn clone(&self) -> (r: Self)
        ensures
            r == *self,
    {
        AuthBit { share: self.share, party: PhantomData }
    }
}

impl<P: GenericParty> Copy for AuthBit<P> {}

impl<P: GenericParty> AuthBit<P> {
    /// The share held.
    pub closed spec fn spec_share(&self) -> AuthBitShare {
        self.share
    }

    /// The share fits the party: `Party0` holds a MAC and a bit, `Party1`
    /// a key.
    pub open spec fn wf(&self) -> bool {
        match self.spec_share() {
            AuthBitShare::Party0 { .. } => P::spec_which() == GenericWhichParty::Party0,
            AuthBitShare::Party1 { .. } => P::spec_which() == GenericWhichParty::Party1,
        }
    }

    /// The prover's share of an authenticated bit.
    pub fn from_party0(mac: U8x16, bit: bool) -> (a: Self)
        requires
            P::spec_which() == GenericWhichParty::Party0,
        ensures
            a.wf(),
            a.spec_share() == (AuthBitShare::Party0 { mac, bit }),
    {
        AuthBit { share: AuthBitShare::Party0 { mac, bit }, party: PhantomData }
    }

    /// The verifier's share of an authenticated bit.
    pub fn from_party1(key: U8x16) -> (a: Self)
        requires
            P::spec_which() == GenericWhichParty::Party1,
        ensures
            a.wf(),
            a.spec_share() == (AuthBitShare::Party1 { key }),
    {
        AuthBit { share: AuthBitShare::Party1 { key }, party: PhantomData }
    }

    /// `Party1`'s key, if `P` is `Party1`.
    pub fn key(&self) -> (k: Option<U8x16>)
        ensures
            match self.spec_share() {
                AuthBitShare::Party1 { key } => k == Some(key),
                _ => k is None,
            },
    {
        match self.share {
            AuthBitShare::Party1 { key } => Some(key),
            _ => None,
        }
    }

    /// `Party0`'s MAC, if `P` is `Party0`.
    pub fn mac(&self) -> (m: Option<U8x16>)
        ensures
            match self.spec_share() {
                AuthBitShare::Party0 { mac, .. } => m == Some(mac),
                _ => m is None,
            },
    {
        match self.share {
            AuthBitShare::Party0 { mac, .. } => Some(mac),
            _ => None,
        }
    }

    /// `Party0`'s bit, if `P` is `Party0`.
    pub fn bit(&self) -> (b: Option<bool>)
        ensures
            match self.spec_share() {
                AuthBitShare::Party0 { bit, .. } => b == Some(bit),
                _ => b is None,
            },
    {
        match self.share {
            AuthBitShare::Party0 { bit, .. } => Some(bit),
            _ => None,
        }
    }

    /// XOR of two authenticated bits: the prover XORs MACs and bits, the
    /// verifier XORs keys.
    pub fn xor(&self, rhs: &Self) -> (r: Self)
        requires
            self.wf(),
            rhs.wf(),
        ensures
            r.wf(),
            match (self.spec_share(), rhs.spec_share()) {
                (AuthBitShare::Party0 { mac: m1, bit: b1 }, AuthBitShare::Party0 { mac: m2, bit: b2 }) =>
                    r.spec_share() matches AuthBitShare::Party0 { mac, bit } && mac@ == xor_bytes(
                    m1@,
                    m2@,
                ) && bit == (b1 != b2),
                (AuthBitShare::Party1 { key: k1 }, AuthBitShare::Party1 { key: k2 }) =>
                    r.spec_share() matches AuthBitShare::Party1 { key } && key@ == xor_bytes(
                    k1@,
                    k2@,
                ),
                _ => false,
            },
    {
        match (&self.share, &rhs.share) {
            (AuthBitShare::Party0 { mac: m1, bit: b1 }, AuthBitShare::Party0 { mac: m2, bit: b2 }) => {
                AuthBit {
                    share: AuthBitShare::Party0 { mac: xor_u8x16(m1, m2), bit: *b1 != *b2 },
                    party: PhantomData,
                }
            },
            (AuthBitShare::Party1 { key: k1 }, AuthBitShare::Party1 { key: k2 }) => {
                AuthBit { share: AuthBitShare::Party1 { key: xor_u8x16(k1, k2) }, party: PhantomData }
            },
            (AuthBitShare::Party0 { .. }, AuthBitShare::Party1 { .. }) => { *self },
            (AuthBitShare::Party1 { .. }, AuthBitShare::Party0 { .. }) => { *self },
        }
    }
}

/// Whether `Party1`'s share `a` accepts the opening `(bit, mac)` under `Δ`.
pub open spec fn opens_to<P: GenericParty>(a: AuthBit<P>, mac: Seq<u8>, bit: bool, delta: Seq<u8>) -> bool {
    match a.spec_share() {
        AuthBitShare::Party1 { key } => authenticated(mac, bit, key@, delta),
        _ => false,
    }
}

/// The generator-side state of authenticated bits: `Party1`'s global `Δ`.
///
/// Bits must be opened with the `Δ` they were made under.
pub struct AuthBitGenerator<P: GenericParty> {
    delta: Option<U8x16>,
    party: PhantomData<P>,
}

impl<P: GenericParty> AuthBitGenerator<P> {
    /// `Party1`'s `Δ` (meaningful when `P` is `Party1`).
    pub closed spec fn spec_delta(&self) -> Seq<u8> {
        self.delta->0@
    }

    /// `Party1` holds a `Δ`, `Party0` none.
    pub closed spec fn wf(&self) -> bool {
        self.delta is Some <==> P::spec_which() == GenericWhichParty::Party1
    }

    /// A generator with `Party1`'s `Δ`; `Party0` ignores `delta`.
    pub fn new_with_delta(delta: U8x16) -> (g: Self)
        ensures
            g.wf(),
            P::spec_which() == GenericWhichParty::Party1 ==> g.spec_delta() == delta@,
    {
        match P::generic_which() {
            GenericWhichParty::Party0 => AuthBitGenerator { delta: None, party: PhantomData },
            GenericWhichParty::Party1 => AuthBitGenerator { delta: Some(delta), party: PhantomData },
        }
    }

    /// `Party1`'s `Δ`, if `P` is `Party1`.
    pub fn delta(&self) -> (d: Option<U8x16>)
        requires
            self.wf(),
        ensures
            d is Some <==> P::spec_which() == GenericWhichParty::Party1,
            d matches Some(x) ==> x@ == self.spec_delta(),
    {
        self.delta
    }

    /// `[b] ^ c` for a public bit `c`: the prover's bit becomes `b ^ c` (the
    /// MAC is kept), the verifier's key becomes `K ^ c·Δ`.
    pub fn xor_with_const(&self, authbit: &AuthBit<P>, bit: bool) -> (r: AuthBit<P>)
        requires
            self.wf(),
            authbit.wf(),
        ensures
            r.wf(),
            match authbit.spec_share() {
                AuthBitShare::Party0 { mac: m, bit: b } => r.spec_share() matches AuthBitShare::Party0 { mac, bit: b2 }
                    && mac == m && b2 == (b != bit),
                AuthBitShare::Party1 { key: k } => r.spec_share() matches AuthBitShare::Party1 { key }
                    && key@ == xor_bytes(k@, scaled(bit, self.spec_delta())),
            },
    {
        match (&authbit.share, &self.delta) {
            (AuthBitShare::Party0 { mac, bit: b }, _) => {
                AuthBit { share: AuthBitShare::Party0 { mac: *mac, bit: *b != bit }, party: PhantomData }
            },
            (AuthBitShare::Party1 { key }, Some(delta)) => {
                let s = scale(bit, delta);
                AuthBit { share: AuthBitShare::Party1 { key: xor_u8x16(key, &s) }, party: PhantomData }
            },
            (AuthBitShare::Party1 { .. }, None) => { *authbit },
        }
    }

    /// What `Party0` sends to open its authenticated bits: the bits, then
    /// the MACs, in order.
    pub fn open_messages(&self, authbits: &[AuthBit<P>]) -> (r: (Vec<bool>, Vec<U8x16>))
        requires
            P::spec_which() == GenericWhichParty::Party0,
            forall|i: int| 0 <= i < authbits@.len() ==> (#[trigger] authbits@[i]).wf(),
        ensures
            r.0@.len() == authbits@.len(),
            r.1@.len() == authbits@.len(),
            forall|i: int|
                0 <= i < authbits@.len() ==> (#[trigger] authbits@[i]).spec_share()
                    == (AuthBitShare::Party0 { mac: r.1@[i], bit: r.0@[i] }),
    {
        let mut bits: Vec<bool> = Vec::new();
        let mut macs: Vec<U8x16> = Vec::new();
        let mut i: usize = 0;
        while i < authbits.len()
            invariant
                P::spec_which() == GenericWhichParty::Party0,
                i <= authbits@.len(),
                forall|j: int| 0 <= j < authbits@.len() ==> (#[trigger] authbits@[j]).wf(),
                bits@.len() == i,
                macs@.len() == i,
                forall|j: int|
                    0 <= j < i ==> (#[trigger] authbits@[j]).spec_share() == (AuthBitShare::Party0 {
                        mac: macs@[j],
                        bit: bits@[j],
                    }),
            decreases authbits@.len() - i,
        {
            match authbits[i].share {
                AuthBitShare::Party0 { mac, bit } => {
                    bits.push(bit);
                    macs.push(mac);
                },
                AuthBitShare::Party1 { .. } => {
                    assert(false);
                },
            }
            i = i + 1;
        }
        (bits, macs)
    }

    /// `Party1`'s check of opened bits: each received MAC must equal the
    /// key XOR the received bit times `Δ`. When every bit checks out the bits
    /// are appended to `outputs`; otherwise `outputs` is left as it was and
    /// the check fails.
    pub fn validate_open(
        &self,
        authbits: &[AuthBit<P>],
        bits: &[bool],
        macs: &[U8x16],
        outputs: &mut Vec<bool>,
    ) -> (r: crate::error::Result<()>)
        requires
            self.wf(),
            P::spec_which() == GenericWhichParty::Party1,
            forall|i: int| 0 <= i < authbits@.len() ==> (#[trigger] authbits@[i]).wf(),
            bits@.len() == authbits@.len(),
            macs@.len() == authbits@.len(),
        ensures
            r is Ok <==> forall|i: int|
                0 <= i < authbits@.len() ==> opens_to(#[trigger] authbits@[i], macs@[i]@, bits@[i], self.spec_delta()),
            r is Ok ==> final(outputs)@ == old(outputs)@ + bits@,
            r is Err ==> final(outputs)@ == old(outputs)@,
            r matches Err(e) ==> e.spec_kind() == ErrorKind::OtherError && e.spec_message()
                == "Validation check failed"@,
    {
        let delta = self.delta.unwrap();
        let mut valid = true;
        let mut i: usize = 0;
        while i < authbits.len()
            invariant
                P::spec_which() == GenericWhichParty::Party1,
                delta@ == self.spec_delta(),
                i <= authbits@.len(),
                bits@.len() == authbits@.len(),
                macs@.len() == authbits@.len(),
                forall|j: int| 0 <= j < authbits@.len() ==> (#[trigger] authbits@[j]).wf(),
                valid <==> forall|j: int|
                    0 <= j < i ==> opens_to(#[trigger] authbits@[j], macs@[j]@, bits@[j], self.spec_delta()),
            decreases authbits@.len() - i,
        {
            match authbits[i].share {
                AuthBitShare::Party1 { key } => {
                    let s = scale(bits[i], &delta);
                    let expected = xor_u8x16(&key, &s);
                    let mut same = true;
                    let mut k: usize = 0;
                    while k < 16
                        invariant
                            k <= 16,
                            i < macs@.len(),
                            same <==> forall|t: int| 0 <= t < k ==> expected@[t] == macs@[i as int]@[t],
                        decreases 16 - k,
                    {
                        if expected[k] != macs[i][k] {
                            same = false;
                        }
                        k = k + 1;
                    }
                    proof {
                        if same {
                            assert(expected@ =~= macs@[i as int]@);
                        }
                    }
                    valid = valid && same;
                },
                AuthBitShare::Party0 { .. } => {
                    assert(false);
                },
            }
            i = i + 1;
        }
        if !valid {
            return Err(format_err(ErrorKind::OtherError, "Validation check failed"));
        }
        let mut j: usize = 0;
        let ghost start = outputs@;
        while j < bits.len()
            invariant
                j <= bits@.len(),
                outputs@ == start + bits@.take(j as int),
            decreases bits@.len() - j,
        {
            outputs.push(bits[j]);
            proof {
                assert(outputs@ =~= start + bits@.take(j + 1));
            }
            j = j + 1;
        }
        proof {
            assert(bits@.take(bits@.len() as int) =~= bits@);
        }
        Ok(())
    }
}

/// Opening honest authenticated bits succeeds: when each prover bit's MAC
/// authenticates it under the verifier's key and `Δ`, every bit and MAC the
/// prover sends (its own shares) passes the verifier's check.
pub proof fn honest_bits_open(
    prover: Seq<AuthBit<Prover>>,
    verifier: Seq<AuthBit<Verifier>>,
    delta: Seq<u8>,
)
    requires
        prover.len() == verifier.len(),
        forall|i: int|
            0 <= i < prover.len() ==> match ((#[trigger] prover[i]).spec_share(), verifier[i].spec_share()) {
                (AuthBitShare::Party0 { mac, bit }, AuthBitShare::Party1 { key }) => authenticated(
                    mac@,
                    bit,
                    key@,
                    delta,
                ),
                _ => false,
            },
    ensures
        forall|i: int|
            0 <= i < prover.len() ==> match (#[trigger] prover[i]).spec_share() {
                AuthBitShare::Party0 { mac, bit } => opens_to(verifier[i], mac@, bit, delta),
                _ => false,
            },
{
}

/// XOR keeps the relation of authenticated bits under the same `Δ`: from
/// `[b1]` and `[b2]` the XORed MACs, bits and keys form `[b1 ^ b2]`.
pub proof fn xor_keeps_authentication(
    m1: Seq<u8>,
    b1: bool,
    k1: Seq<u8>,
    m2: Seq<u8>,
    b2: bool,
    k2: Seq<u8>,
    delta: Seq<u8>,
)
    requires
        authenticated(m1, b1, k1, delta),
        authenticated(m2, b2, k2, delta),
    ensures
        authenticated(xor_bytes(m1, m2), b1 != b2, xor_bytes(k1, k2), delta),
{
    let s1 = scaled(b1, delta);
    let s2 = scaled(b2, delta);
    let s = scaled(b1 != b2, delta);
    assert forall|i: int| 0 <= i < 16 implies #[trigger] xor_bytes(m1, m2)[i] == xor_bytes(
        xor_bytes(k1, k2),
        s,
    )[i] by {
        let (a, b, c, d, e): (u8, u8, u8, u8, u8) = (k1[i], k2[i], s1[i], s2[i], delta[i]);
        if b1 && b2 {
            assert(s[i] == 0u8);
            assert((a ^ e) ^ (b ^ e) == (a ^ b) ^ 0u8) by (bit_vector);
        } else if b1 {
            assert((a ^ e) ^ (b ^ 0u8) == (a ^ b) ^ e) by (bit_vector);
        } else if b2 {
            assert((a ^ 0u8) ^ (b ^ e) == (a ^ b) ^ e) by (bit_vector);
        } else {
            assert((a ^ 0u8) ^ (b ^ 0u8) == (a ^ b) ^ 0u8) by (bit_vector);
        }
    }
    assert(xor_bytes(m1, m2) =~= xor_bytes(xor_bytes(k1, k2), s));
}

/// XOR with a public bit keeps the relation: if `[b]` is `(M, b)` and `K`,
/// then `(M, b ^ c)` and `K ^ c·Δ` form `[b ^ c]`.
pub proof fn xor_with_const_keeps_authentication(
    mac: Seq<u8>,
    bit: bool,
    key: Seq<u8>,
    c: bool,
    delta: Seq<u8>,
)
    requires
        authenticated(mac, bit, key, delta),
    ensures
        authenticated(mac, bit != c, xor_bytes(key, scaled(c, delta)), delta),
{
    let k2 = xor_bytes(key, scaled(c, delta));
    let s = scaled(bit != c, delta);
    assert forall|i: int| 0 <= i < 16 implies #[trigger] mac[i] == xor_bytes(k2, s)[i] by {
        let (a, e): (u8, u8) = (key[i], delta[i]);
        if bit && c {
            assert(a ^ e == (a ^ e) ^ 0u8) by (bit_vector);
        } else if bit {
            assert(a ^ e == (a ^ 0u8) ^ e) by (bit_vector);
        } else if c {
            assert(a ^ 0u8 == (a ^ e) ^ e) by (bit_vector);
        } else {
            assert(a ^ 0u8 == (a ^ 0u8) ^ 0u8) by (bit_vector);
        }
    }
    assert(mac =~= xor_bytes(k2, s));
}

/// One party's view of an authenticated share: `(bit, MAC, key)`.
pub type ShareView = (bool, Seq<u8>, Seq<u8>);

/// What [`AuthShareGenerator::xor_with_const`] makes of a share for party
/// `P`: `Party0` XORs its key with `c·Δ`, `Party1` XORs its bit with `c`.
pub open spec fn xor_const_view<P: GenericParty>(s: ShareView, c: bool, delta: Seq<u8>) -> ShareView {
    if P::spec_which() == GenericWhichParty::Party0 {
        (s.0, s.1, xor_bytes(s.2, scaled(c, delta)))
    } else {
        (s.0 != c, s.1, s.2)
    }
}

/// An authenticated share `<x> = <x1 | x2>` as one party holds it: its own
/// bit and MAC (of the bit it proves) and its key (for the bit the other
/// party proves). The shared value is the XOR of both parties' bits.
pub struct AuthShare<P: GenericParty> {
    bit: bool,
    mac: U8x16,
    key: U8x16,
    party: PhantomData<P>,
}

impl<P: GenericParty> Clone for AuthShare<P> {
    fn clone(&self) -> (r: Self)
        ensures
            r == *self,
    {
        AuthShare { bit: self.bit, mac: self.mac, key: self.key, party: PhantomData }
    }
}

impl<P: GenericParty> Copy for AuthShare<P> {}

impl<P: GenericParty> View for AuthShare<P> {
    /// `(bit, MAC, key)`.
    type V = ShareView;

    open spec fn view(&self) -> ShareView {
        (self.spec_bit(), self.spec_mac(), self.spec_key())
    }
}

impl<P: GenericParty> AuthShare<P> {
    /// This party's bit.
    pub closed spec fn spec_bit(&self) -> bool {
        self.bit
    }

    /// This party's MAC.
    pub closed spec fn spec_mac(&self) -> Seq<u8> {
        self.mac@
    }

    /// This party's key.
    pub closed spec fn spec_key(&self) -> Seq<u8> {
        self.key@
    }

    /// A share from this party's bit, MAC and key.
    pub fn new(bit: bool, mac: U8x16, key: U8x16) -> (s: Self)
        ensures
            s.spec_bit() == bit,
            s.spec_mac() == mac@,
            s.spec_key() == key@,
    {
        AuthShare { bit, mac, key, party: PhantomData }
    }

    /// This party's bit.
    pub fn bit(&self) -> (b: bool)
        ensures
            b == self.spec_bit(),
    {
        self.bit
    }

    /// This party's key.
    pub fn key(&self) -> (k: U8x16)
        ensures
            k@ == self.spec_key(),
    {
        self.key
    }

    /// This party's MAC.
    pub fn mac(&self) -> (m: U8x16)
        ensures
            m@ == self.spec_mac(),
    {
        self.mac
    }

    /// XOR of two shares: bits, MACs and keys are XORed.
    pub fn xor(&self, rhs: &Self) -> (r: Self)
        ensures
            r.spec_bit() == (self.spec_bit() != rhs.spec_bit()),
            r.spec_mac() == xor_bytes(self.spec_mac(), rhs.spec_mac()),
            r.spec_key() == xor_bytes(self.spec_key(), rhs.spec_key()),
    {
        AuthShare {
            bit: self.bit != rhs.bit,
            mac: xor_u8x16(&self.mac, &rhs.mac),
            key: xor_u8x16(&self.key, &rhs.key),
            party: PhantomData,
        }
    }

}

/// The generator-side state of authenticated shares: this party's `Δ`,
/// with which it checks the bits the other party proves.
pub struct AuthShareGenerator<P: GenericParty> {
    delta: U8x16,
    party: PhantomData<P>,
}

impl<P: GenericParty> AuthShareGenerator<P> {
    /// This party's `Δ`.
    pub closed spec fn spec_delta(&self) -> Seq<u8> {
        self.delta@
    }

    /// A generator with the given `Δ`.
    pub fn new_with_delta(delta: U8x16) -> (g: Self)
        ensures
            g.spec_delta() == delta@,
    {
        AuthShareGenerator { delta, party: PhantomData }
    }

    /// This party's `Δ`.
    pub fn delta(&self) -> (d: U8x16)
        ensures
            d@ == self.spec_delta(),
    {
        self.delta
    }

    /// `<x> ^ c` for a public bit `c`, applied to the bit the verifier
    /// proves: the prover (`Party0`) XORs its key for that bit with `c·Δ`,
    /// the verifier (`Party1`) XORs that bit with `c`. The MAC is kept.
    pub fn xor_with_const(&self, share: &AuthShare<P>, c: bool) -> (r: AuthShare<P>)
        ensures
            r@ == xor_const_view::<P>(share@, c, self.spec_delta()),
            r.spec_mac() == share.spec_mac(),
            P::spec_which() == GenericWhichParty::Party0 ==> r.spec_bit() == share.spec_bit()
                && r.spec_key() == xor_bytes(share.spec_key(), scaled(c, self.spec_delta())),
            P::spec_which() == GenericWhichParty::Party1 ==> r.spec_bit() == (share.spec_bit()
                != c) && r.spec_key() == share.spec_key(),
    {
        match P::generic_which() {
            GenericWhichParty::Party0 => {
                let s = scale(c, &self.delta);
                AuthShare {
                    bit: share.bit,
                    mac: share.mac,
                    key: xor_u8x16(&share.key, &s),
                    party: PhantomData,
                }
            },
            GenericWhichParty::Party1 => {
                AuthShare { bit: share.bit != c, mac: share.mac, key: share.key, party: PhantomData }
            },
        }
    }
}

/// The bits of a sequence of shares, in order.
pub open spec fn share_bits<P: GenericParty>(shares: Seq<AuthShare<P>>) -> Seq<bool> {
    Seq::new(shares.len(), |i: int| shares[i].spec_bit())
}

/// The MACs of a sequence of shares, in order.
pub open spec fn share_macs<P: GenericParty>(shares: Seq<AuthShare<P>>) -> Seq<Seq<u8>> {
    Seq::new(shares.len(), |i: int| shares[i].spec_mac())
}

/// Whether the opened `bits` and `macs` check out against the keys that
/// this party holds in `shares`, under its `Δ`.
pub open spec fn shares_open_to<P: GenericParty>(
    shares: Seq<AuthShare<P>>,
    bits: Seq<bool>,
    macs: Seq<Seq<u8>>,
    delta: Seq<u8>,
) -> bool {
    &&& bits.len() == shares.len()
    &&& macs.len() == shares.len()
    &&& forall|i: int|
        0 <= i < shares.len() ==> authenticated(
            #[trigger] macs[i],
            bits[i],
            shares[i].spec_key(),
            delta,
        )
}

/// The shared values `x1 ^ x2`: the other party's opened bits XOR this
/// party's own bits.
pub open spec fn opened_values<P: GenericParty>(shares: Seq<AuthShare<P>>, bits: Seq<bool>) -> Seq<
    bool,
> {
    Seq::new(shares.len(), |i: int| bits[i] != shares[i].spec_bit())
}

/// The views of a sequence of blocks.
pub open spec fn block_views(blocks: Seq<U8x16>) -> Seq<Seq<u8>> {
    Seq::new(blocks.len(), |i: int| blocks[i]@)
}

impl<P: GenericParty> AuthShareGenerator<P> {
    /// What this party sends to open its side of `shares`: its bits, then
    /// its MACs, in order.
    pub fn open_messages(&self, shares: &[AuthShare<P>]) -> (r: (Vec<bool>, Vec<U8x16>))
        ensures
            r.0@ == share_bits(shares@),
            block_views(r.1@) == share_macs(shares@),
    {
        let mut bits: Vec<bool> = Vec::new();
        let mut macs: Vec<U8x16> = Vec::new();
        let mut i: usize = 0;
        while i < shares.len()
            invariant
                i <= shares@.len(),
                bits@.len() == i,
                macs@.len() == i,
                forall|j: int| 0 <= j < i ==> bits@[j] == (#[trigger] shares@[j]).spec_bit(),
                forall|j: int| 0 <= j < i ==> macs@[j]@ == (#[trigger] shares@[j]).spec_mac(),
            decreases shares@.len() - i,
        {
            bits.push(shares[i].bit);
            macs.push(shares[i].mac);
            i = i + 1;
        }
        proof {
            assert(bits@ =~= share_bits(shares@));
            assert(block_views(macs@) =~= share_macs(shares@));
        }
        (bits, macs)
    }

    /// The check of the other party's opened side of `shares`: each received
    /// MAC must equal this party's key XOR the received bit times `Δ`. When
    /// every bit checks out, the shared values (received bit XOR own bit)
    /// are appended to `outputs`; otherwise `outputs` is left as it was and
    /// the check fails.
    pub fn validate_open(
        &self,
        shares: &[AuthShare<P>],
        bits: &[bool],
        macs: &[U8x16],
        outputs: &mut Vec<bool>,
    ) -> (r: crate::error::Result<()>)
        requires
            bits@.len() == shares@.len(),
            macs@.len() == shares@.len(),
        ensures
            r is Ok <==> shares_open_to(shares@, bits@, block_views(macs@), self.spec_delta()),
            r is Ok ==> final(outputs)@ == old(outputs)@ + opened_values(shares@, bits@),
            r is Err ==> final(outputs)@ == old(outputs)@,
            r matches Err(e) ==> e.spec_kind() == ErrorKind::OtherError && e.spec_message()
                == "Validation check failed"@,
    {
        let mut valid = true;
        let mut i: usize = 0;
        while i < shares.len()
            invariant
                i <= shares@.len(),
                bits@.len() == shares@.len(),
                macs@.len() == shares@.len(),
                self.delta@ == self.spec_delta(),
                valid <==> forall|j: int|
                    0 <= j < i ==> authenticated(
                        #[trigger] block_views(macs@)[j],
                        bits@[j],
                        shares@[j].spec_key(),
                        self.spec_delta(),
                    ),
            decreases shares@.len() - i,
        {
            let s = scale(bits[i], &self.delta);
            let expected = xor_u8x16(&shares[i].key, &s);
            let mut same = true;
            let mut k: usize = 0;
            while k < 16
                invariant
                    k <= 16,
                    i < macs@.len(),
                    same <==> forall|t: int| 0 <= t < k ==> expected@[t] == macs@[i as int]@[t],
                decreases 16 - k,
            {
                if expected[k] != macs[i][k] {
                    same = false;
                }
                k = k + 1;
            }
            proof {
                assert(block_views(macs@)[i as int] == macs@[i as int]@);
                if same {
                    assert(expected@ =~= macs@[i as int]@);
                }
            }
            valid = valid && same;
            i = i + 1;
        }
        if !valid {
            return Err(format_err(ErrorKind::OtherError, "Validation check failed"));
        }
        let ghost start = outputs@;
        let mut j: usize = 0;
        while j < shares.len()
            invariant
                j <= shares@.len(),
                bits@.len() == shares@.len(),
                outputs@ == start + opened_values(shares@, bits@).take(j as int),
            decreases shares@.len() - j,
        {
            outputs.push(bits[j] != shares[j].bit);
            proof {
                assert(outputs@ =~= start + opened_values(shares@, bits@).take(j + 1));
            }
            j = j + 1;
        }
        proof {
            assert(opened_values(shares@, bits@).take(shares@.len() as int) =~= opened_values(
                shares@,
                bits@,
            ));
        }
        Ok(())
    }
}

/// The smaller of two lengths.
pub open spec fn zip_len(a: nat, b: nat) -> nat {
    if a < b {
        a
    } else {
        b
    }
}

impl<P: GenericParty> AuthBitGenerator<P> {
    /// `Party0`'s authenticated bits from its bits and the MACs the
    /// correlated OT gave it, paired in order (as many as the shorter list),
    /// appended to `out`.
    pub fn pack_party0(&self, bits: &[bool], macs: &[U8x16], out: &mut Vec<AuthBit<P>>)
        requires
            P::spec_which() == GenericWhichParty::Party0,
        ensures
            final(out)@.len() == old(out)@.len() + zip_len(bits@.len(), macs@.len()),
            forall|i: int| 0 <= i < old(out)@.len() ==> final(out)@[i] == old(out)@[i],
            forall|i: int|
                0 <= i < zip_len(bits@.len(), macs@.len()) ==> (#[trigger] final(out)@[old(
                    out,
                )@.len() + i]).spec_share() == (AuthBitShare::Party0 { mac: macs@[i], bit: bits@[i] })
                    && final(out)@[old(out)@.len() + i].wf(),
    {
        let n = if bits.len() < macs.len() {
            bits.len()
        } else {
            macs.len()
        };
        let ghost start = out@;
        let mut i: usize = 0;
        while i < n
            invariant
                P::spec_which() == GenericWhichParty::Party0,
                n == zip_len(bits@.len(), macs@.len()),
                i <= n,
                out@.len() == start.len() + i,
                forall|j: int| 0 <= j < start.len() ==> out@[j] == start[j],
                forall|j: int|
                    0 <= j < i ==> (#[trigger] out@[start.len() + j]).spec_share()
                        == (AuthBitShare::Party0 { mac: macs@[j], bit: bits@[j] }) && out@[start.len()
                        + j].wf(),
            decreases n - i,
        {
            out.push(AuthBit::from_party0(macs[i], bits[i]));
            i = i + 1;
        }
    }

    /// `Party1`'s authenticated bits from the keys the correlated OT gave it,
    /// in order, appended to `out`.
    pub fn pack_party1(&self, keys: &[U8x16], out: &mut Vec<AuthBit<P>>)
        requires
            P::spec_which() == GenericWhichParty::Party1,
        ensures
            final(out)@.len() == old(out)@.len() + keys@.len(),
            forall|i: int| 0 <= i < old(out)@.len() ==> final(out)@[i] == old(out)@[i],
            forall|i: int|
                0 <= i < keys@.len() ==> (#[trigger] final(out)@[old(out)@.len() + i]).spec_share()
                    == (AuthBitShare::Party1 { key: keys@[i] }) && final(out)@[old(out)@.len()
                    + i].wf(),
    {
        let ghost start = out@;
        let mut i: usize = 0;
        while i < keys.len()
            invariant
                P::spec_which() == GenericWhichParty::Party1,
                i <= keys@.len(),
                out@.len() == start.len() + i,
                forall|j: int| 0 <= j < start.len() ==> out@[j] == start[j],
                forall|j: int|
                    0 <= j < i ==> (#[trigger] out@[start.len() + j]).spec_share()
                        == (AuthBitShare::Party1 { key: keys@[j] }) && out@[start.len() + j].wf(),
            decreases keys@.len() - i,
        {
            out.push(AuthBit::from_party1(keys[i]));
            i = i + 1;
        }
    }
}

impl<P: GenericParty> AuthShareGenerator<P> {
    /// Pair this party's authenticated bits into shares, in order (as many
    /// as the shorter list), appended to `out`: from `proven[i]` (a bit this
    /// party proves, with its MAC) and `verified[i]` (the key for a bit the
    /// other party proves).
    pub fn pack_shares(
        &self,
        proven: &[AuthBit<Prover>],
        verified: &[AuthBit<Verifier>],
        out: &mut Vec<AuthShare<P>>,
    )
        requires
            forall|i: int| 0 <= i < proven@.len() ==> (#[trigger] proven@[i]).wf(),
            forall|i: int| 0 <= i < verified@.len() ==> (#[trigger] verified@[i]).wf(),
        ensures
            final(out)@.len() == old(out)@.len() + zip_len(proven@.len(), verified@.len()),
            forall|i: int| 0 <= i < old(out)@.len() ==> final(out)@[i] == old(out)@[i],
            forall|i: int|
                0 <= i < zip_len(proven@.len(), verified@.len()) ==> match (
                    proven@[i].spec_share(),
                    verified@[i].spec_share(),
                ) {
                    (AuthBitShare::Party0 { mac, bit }, AuthBitShare::Party1 { key }) => (
                    #[trigger] final(out)@[old(out)@.len() + i])@ == (bit, mac@, key@),
                    _ => false,
                },
    {
        let n = if proven.len() < verified.len() {
            proven.len()
        } else {
            verified.len()
        };
        let ghost start = out@;
        let mut i: usize = 0;
        while i < n
            invariant
                n == zip_len(proven@.len(), verified@.len()),
                i <= n,
                forall|j: int| 0 <= j < proven@.len() ==> (#[trigger] proven@[j]).wf(),
                forall|j: int| 0 <= j < verified@.len() ==> (#[trigger] verified@[j]).wf(),
                out@.len() == start.len() + i,
                forall|j: int| 0 <= j < start.len() ==> out@[j] == start[j],
                forall|j: int|
                    0 <= j < i ==> match (proven@[j].spec_share(), verified@[j].spec_share()) {
                        (AuthBitShare::Party0 { mac, bit }, AuthBitShare::Party1 { key }) => (
                        #[trigger] out@[start.len() + j])@ == (bit, mac@, key@),
                        _ => false,
                    },
            decreases n - i,
        {
            assert(proven@[i as int].wf());
            assert(verified@[i as int].wf());
            match (proven[i].share, verified[i].share) {
                (AuthBitShare::Party0 { mac, bit }, AuthBitShare::Party1 { key }) => {
                    out.push(AuthShare { bit, mac, key, party: PhantomData });
                },
                _ => {
                    assert(false);
                },
            }
            i = i + 1;
        }
    }
}

/// Opening authenticated shares is consistent: when each party's MAC
/// authenticates its bit under the other party's key and `Δ`, each party's
/// check of what the other sends succeeds, and both parties obtain the same
/// shared values `x1 ^ x2`.
pub proof fn shares_open_consistently(
    a: Seq<AuthShare<Prover>>,
    b: Seq<AuthShare<Verifier>>,
    delta_a: Seq<u8>,
    delta_b: Seq<u8>,
)
    requires
        a.len() == b.len(),
        forall|i: int|
            0 <= i < a.len() ==> authenticated(
                (#[trigger] a[i]).spec_mac(),
                a[i].spec_bit(),
                b[i].spec_key(),
                delta_b,
            ),
        forall|i: int|
            0 <= i < b.len() ==> authenticated(
                (#[trigger] b[i]).spec_mac(),
                b[i].spec_bit(),
                a[i].spec_key(),
                delta_a,
            ),
    ensures
        shares_open_to(b, share_bits(a), share_macs(a), delta_b),
        shares_open_to(a, share_bits(b), share_macs(b), delta_a),
        opened_values(a, share_bits(b)) == opened_values(b, share_bits(a)),
        opened_values(a, share_bits(b)) == Seq::new(
            a.len(),
            |i: int| a[i].spec_bit() != b[i].spec_bit(),
        ),
{
    assert(opened_values(a, share_bits(b)) =~= Seq::new(
        a.len(),
        |i: int| a[i].spec_bit() != b[i].spec_bit(),
    ));
    assert(opened_values(a, share_bits(b)) =~= opened_values(b, share_bits(a)));
}

} // verus!
