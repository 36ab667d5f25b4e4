//! Leaky authenticated AND triples.
//!
//! An AND triple `(<x>, <y>, <z>)` of authenticated shares has `z = x·y`. A
//! *leaky* AND triple is one where an adversarial Party A may guess `x`: a
//! right guess goes unnoticed, a wrong one is caught. Buckets of leaky
//! triples are combined into AND triples.
//!
//! Generation (two parties, `Δ_A` with least-significant bit 1, `Δ_B` with
//! least-significant bit 0) starts from random shares `(<x>, <y>, <r>)`:
//! 1. each party computes `C := y·Δ ^ K[y] ^ M[y]`;
//! 2. each party sends `G := H(K[x] ^ Δ) ^ H(K[x]) ^ C` and computes, from
//!    the `G` it receives, `E := x·G ^ H(M[x]) ^ x·C`;
//! 3. each party computes `S := H(K[x]) ^ E ^ (r·Δ ^ K[r] ^ M[r])` and sends
//!    the least-significant bit of `S`;
//! 4. with `d` the XOR of both least-significant bits, `<z> := <r> ^ d`.
//!
//! The functions here compute each step; moving the messages is the
//! caller's.
use vstd::prelude::*;
use crate::aes_hash::{CorrelationRobustHash, cr_hash, fixed_key_bytes};
use crate::authbits::{
    AuthShare, AuthShareGenerator, ShareView, authenticated, lsb, scale, scaled, spec_lsb,
    xor_const_view, xor_with_const_keeps_authentication,
};
use crate::block::{U8x16, xor_bytes, xor_u8x16};
use crate::party::{GenericParty, GenericWhichParty};

verus! {

/// One party's view of a triple `(<x>, <y>, <z>)`.
pub type TripleView = (ShareView, ShareView, ShareView);

/// A leaky AND triple `(<x>, <y>, <z>)` as one party holds it.
pub struct LeakyAndTriple<P: GenericParty> {
    x: AuthShare<P>,
    y: AuthShare<P>,
    z: AuthShare<P>,
}

impl<P: GenericParty> Clone for LeakyAndTriple<P> {
    fn clone(&self) -> (r: Self)
        ensures
            r == *self,
    {
        LeakyAndTriple { x: self.x, y: self.y, z: self.z }
    }
}

impl<P: GenericParty> Copy for LeakyAndTriple<P> {}

impl<P: GenericParty> LeakyAndTriple<P> {
    /// The share `<x>`.
    pub closed spec fn spec_x(&self) -> AuthShare<P> {
        self.x
    }

    /// The share `<y>`.
    pub closed spec fn spec_y(&self) -> AuthShare<P> {
        self.y
    }

    /// The share `<z>`.
    pub closed spec fn spec_z(&self) -> AuthShare<P> {
        self.z
    }

    /// The triple of the given shares.
    pub fn new(x: AuthShare<P>, y: AuthShare<P>, z: AuthShare<P>) -> (t: Self)
        ensures
            t.spec_x() == x,
            t.spec_y() == y,
            t.spec_z() == z,
    {
        LeakyAndTriple { x, y, z }
    }

    /// The share `<x>`.
    pub fn x(&self) -> (s: AuthShare<P>)
        ensures
            s == self.spec_x(),
    {
        self.x
    }

    /// The share `<y>`.
    pub fn y(&self) -> (s: AuthShare<P>)
        ensures
            s == self.spec_y(),
    {
        self.y
    }

    /// The share `<z>`.
    pub fn z(&self) -> (s: AuthShare<P>)
        ensures
            s == self.spec_z(),
    {
        self.z
    }
}

impl<P: GenericParty> View for LeakyAndTriple<P> {
    type V = TripleView;

    open spec fn view(&self) -> TripleView {
        (self.spec_x()@, self.spec_y()@, self.spec_z()@)
    }
}

/// The views of a sequence of triples.
pub open spec fn triple_views<P: GenericParty>(ts: Seq<LeakyAndTriple<P>>) -> Seq<TripleView> {
    Seq::new(ts.len(), |i: int| ts[i]@)
}

/// The hash `H` of the protocol: the correlation-robust hash under the
/// fixed key, as a 16-byte block.
pub open spec fn triple_hash(v: Seq<u8>) -> Seq<u8> {
    Seq::new(16, |i: int| cr_hash(fixed_key_bytes(), v)[i])
}

/// `H(v)`.
fn hash(input: &U8x16) -> (r: U8x16)
    ensures
        r@ == triple_hash(input@),
{
    let r = CorrelationRobustHash::fixed_key().hash(*input);
    proof {
        assert(r@ =~= triple_hash(input@));
    }
    r
}

/// `C := y·Δ ^ K[y] ^ M[y]`.
pub open spec fn correlation(y: ShareView, delta: Seq<u8>) -> Seq<u8> {
    xor_bytes(xor_bytes(scaled(y.0, delta), y.2), y.1)
}

/// `G := H(K[x] ^ Δ) ^ H(K[x]) ^ C`, what a party sends.
pub open spec fn g_message(x: ShareView, c: Seq<u8>, delta: Seq<u8>) -> Seq<u8> {
    xor_bytes(xor_bytes(triple_hash(xor_bytes(x.2, delta)), triple_hash(x.2)), c)
}

/// `E := x·G ^ H(M[x]) ^ x·C`, from the `G` the other party sent.
pub open spec fn e_value(x: ShareView, g: Seq<u8>, c: Seq<u8>) -> Seq<u8> {
    xor_bytes(xor_bytes(scaled(x.0, g), triple_hash(x.1)), scaled(x.0, c))
}

/// `S := H(K[x]) ^ E ^ (r·Δ ^ K[r] ^ M[r])`.
pub open spec fn s_value(x: ShareView, e: Seq<u8>, r: ShareView, delta: Seq<u8>) -> Seq<u8> {
    xor_bytes(xor_bytes(triple_hash(x.2), e), correlation(r, delta))
}

/// `C` as a block.
fn correlation_block<P: GenericParty>(y: &AuthShare<P>, delta: &U8x16) -> (c: U8x16)
    ensures
        c@ == correlation(y@, delta@),
{
    let s = scale(y.bit(), delta);
    let k = y.key();
    let m = y.mac();
    xor_u8x16(&xor_u8x16(&s, &k), &m)
}

/// A generator of leaky AND triples, holding this party's `Δ`.
pub struct LeakyAndTripleGenerator<P: GenericParty> {
    auth_share_generator: AuthShareGenerator<P>,
}

impl<P: GenericParty> LeakyAndTripleGenerator<P> {
    /// This party's `Δ`.
    pub closed spec fn spec_delta(&self) -> Seq<u8> {
        self.auth_share_generator.spec_delta()
    }

    /// The least-significant bit `Δ` must have: 1 for Party A (`Party0`),
    /// 0 for Party B (`Party1`).
    pub open spec fn required_lsb() -> bool {
        P::spec_which() == GenericWhichParty::Party0
    }

    /// A random `Δ` with its least-significant bit set to what this party
    /// needs.
    pub open spec fn adjusted_delta(delta: Seq<u8>) -> Seq<u8> {
        if spec_lsb(delta) == Self::required_lsb() {
            delta
        } else {
            delta.update(0, delta[0] ^ 1u8)
        }
    }

    /// A generator whose `Δ` is `random_delta` with its least-significant
    /// bit set to what this party needs.
    pub fn new(random_delta: U8x16) -> (g: Self)
        ensures
            g.spec_delta() == Self::adjusted_delta(random_delta@),
            spec_lsb(g.spec_delta()) == Self::required_lsb(),
    {
        let want = match P::generic_which() {
            GenericWhichParty::Party0 => true,
            GenericWhichParty::Party1 => false,
        };
        let mut delta = random_delta;
        if lsb(&delta) != want {
            let b = delta[0];
            delta[0] = b ^ 1;
            proof {
                assert(((b ^ 1u8) & 1u8 != 0) == !(b & 1u8 != 0)) by (bit_vector);
                assert(delta@ =~= random_delta@.update(0, b ^ 1u8));
            }
        }
        Self::new_with_delta(delta)
    }

    /// A generator with the given `Δ`, whose least-significant bit must be
    /// what this party needs.
    pub fn new_with_delta(delta: U8x16) -> (g: Self)
        requires
            spec_lsb(delta@) == Self::required_lsb(),
        ensures
            g.spec_delta() == delta@,
    {
        LeakyAndTripleGenerator { auth_share_generator: AuthShareGenerator::new_with_delta(delta) }
    }

    /// This party's `Δ`.
    pub fn delta(&self) -> (d: U8x16)
        ensures
            d@ == self.spec_delta(),
    {
        self.auth_share_generator.delta()
    }

    /// Step 1: `C` for the `<y>` of each random triple `(<x>, <y>, <r>)`.
    pub fn correlations(&self, raw: &[LeakyAndTriple<P>]) -> (cs: Vec<U8x16>)
        ensures
            cs@.len() == raw@.len(),
            forall|i: int|
                0 <= i < raw@.len() ==> (#[trigger] cs@[i])@ == correlation(
                    raw@[i]@.1,
                    self.spec_delta(),
                ),
    {
        let delta = self.delta();
        let mut cs: Vec<U8x16> = Vec::new();
        let mut i: usize = 0;
        while i < raw.len()
            invariant
                i <= raw@.len(),
                delta@ == self.spec_delta(),
                cs@.len() == i,
                forall|j: int|
                    0 <= j < i ==> (#[trigger] cs@[j])@ == correlation(raw@[j]@.1, self.spec_delta()),
            decreases raw@.len() - i,
        {
            let y = raw[i].y;
            cs.push(correlation_block(&y, &delta));
            i = i + 1;
        }
        cs
    }

    /// Step 2, sending: `G` for the `<x>` of each random triple, with `cs`
    /// from step 1.
    pub fn g_messages(&self, raw: &[LeakyAndTriple<P>], cs: &[U8x16]) -> (gs: Vec<U8x16>)
        requires
            cs@.len() == raw@.len(),
        ensures
            gs@.len() == raw@.len(),
            forall|i: int|
                0 <= i < raw@.len() ==> (#[trigger] gs@[i])@ == g_message(
                    raw@[i]@.0,
                    cs@[i]@,
                    self.spec_delta(),
                ),
    {
        let delta = self.delta();
        let mut gs: Vec<U8x16> = Vec::new();
        let mut i: usize = 0;
        while i < raw.len()
            invariant
                i <= raw@.len(),
                cs@.len() == raw@.len(),
                delta@ == self.spec_delta(),
                gs@.len() == i,
                forall|j: int|
                    0 <= j < i ==> (#[trigger] gs@[j])@ == g_message(
                        raw@[j]@.0,
                        cs@[j]@,
                        self.spec_delta(),
                    ),
            decreases raw@.len() - i,
        {
            let k = raw[i].x.key();
            let h1 = hash(&xor_u8x16(&k, &delta));
            let h2 = hash(&k);
            gs.push(xor_u8x16(&xor_u8x16(&h1, &h2), &cs[i]));
            i = i + 1;
        }
        gs
    }

    /// Step 2, receiving: `E` for the `<x>` of each random triple, from the
    /// `gs` the other party sent and `cs` from step 1.
    pub fn e_values(&self, raw: &[LeakyAndTriple<P>], cs: &[U8x16], gs: &[U8x16]) -> (es: Vec<
        U8x16,
    >)
        requires
            cs@.len() == raw@.len(),
            gs@.len() == raw@.len(),
        ensures
            es@.len() == raw@.len(),
            forall|i: int|
                0 <= i < raw@.len() ==> (#[trigger] es@[i])@ == e_value(
                    raw@[i]@.0,
                    gs@[i]@,
                    cs@[i]@,
                ),
    {
        let mut es: Vec<U8x16> = Vec::new();
        let mut i: usize = 0;
        while i < raw.len()
            invariant
                i <= raw@.len(),
                cs@.len() == raw@.len(),
                gs@.len() == raw@.len(),
                es@.len() == i,
                forall|j: int|
                    0 <= j < i ==> (#[trigger] es@[j])@ == e_value(raw@[j]@.0, gs@[j]@, cs@[j]@),
            decreases raw@.len() - i,
        {
            let x = raw[i].x;
            let b = x.bit();
            let m = x.mac();
            let sg = scale(b, &gs[i]);
            let sc = scale(b, &cs[i]);
            let hm = hash(&m);
            es.push(xor_u8x16(&xor_u8x16(&sg, &hm), &sc));
            i = i + 1;
        }
        es
    }

    /// Step 3: `S` for each random triple, with `es` from step 2.
    pub fn s_values(&self, raw: &[LeakyAndTriple<P>], es: &[U8x16]) -> (ss: Vec<U8x16>)
        requires
            es@.len() == raw@.len(),
        ensures
            ss@.len() == raw@.len(),
            forall|i: int|
                0 <= i < raw@.len() ==> (#[trigger] ss@[i])@ == s_value(
                    raw@[i]@.0,
                    es@[i]@,
                    raw@[i]@.2,
                    self.spec_delta(),
                ),
    {
        let delta = self.delta();
        let mut ss: Vec<U8x16> = Vec::new();
        let mut i: usize = 0;
        while i < raw.len()
            invariant
                i <= raw@.len(),
                es@.len() == raw@.len(),
                delta@ == self.spec_delta(),
                ss@.len() == i,
                forall|j: int|
                    0 <= j < i ==> (#[trigger] ss@[j])@ == s_value(
                        raw@[j]@.0,
                        es@[j]@,
                        raw@[j]@.2,
                        self.spec_delta(),
                    ),
            decreases raw@.len() - i,
        {
            let k = raw[i].x.key();
            let r = raw[i].z;
            let hk = hash(&k);
            let c = correlation_block(&r, &delta);
            ss.push(xor_u8x16(&xor_u8x16(&hk, &es[i]), &c));
            i = i + 1;
        }
        ss
    }

    /// Step 4: the triples `(<x>, <y>, <r> ^ d)` with `d` the XOR of the
    /// least-significant bit of this party's `S` and the one the other
    /// party sent, appended to `out` in order.
    pub fn finish(
        &self,
        raw: &[LeakyAndTriple<P>],
        ss: &[U8x16],
        other_lsbs: &[bool],
        out: &mut Vec<LeakyAndTriple<P>>,
    )
        requires
            ss@.len() == raw@.len(),
            other_lsbs@.len() == raw@.len(),
        ensures
            final(out)@.len() == old(out)@.len() + raw@.len(),
            forall|i: int| 0 <= i < old(out)@.len() ==> final(out)@[i] == old(out)@[i],
            forall|i: int|
                0 <= i < raw@.len() ==> {
                    let t = #[trigger] final(out)@[old(out)@.len() + i];
                    let d = spec_lsb(ss@[i]@) != other_lsbs@[i];
                    &&& t.spec_x() == raw@[i].spec_x()
                    &&& t.spec_y() == raw@[i].spec_y()
                    &&& t.spec_z()@ == xor_const_view::<P>(
                        raw@[i].spec_z()@,
                        d,
                        self.spec_delta(),
                    )
                },
    {
        let ghost start = out@;
        let mut i: usize = 0;
        while i < raw.len()
            invariant
                i <= raw@.len(),
                ss@.len() == raw@.len(),
                other_lsbs@.len() == raw@.len(),
                out@.len() == start.len() + i,
                forall|j: int| 0 <= j < start.len() ==> out@[j] == start[j],
                forall|j: int|
                    0 <= j < i ==> {
                        let t = #[trigger] out@[start.len() + j];
                        let d = spec_lsb(ss@[j]@) != other_lsbs@[j];
                        &&& t.spec_x() == raw@[j].spec_x()
                        &&& t.spec_y() == raw@[j].spec_y()
                        &&& t.spec_z()@ == xor_const_view::<P>(
                            raw@[j].spec_z()@,
                            d,
                            self.spec_delta(),
                        )
                    },
            decreases raw@.len() - i,
        {
            let d = lsb(&ss[i]) != other_lsbs[i];
            let t = raw[i];
            let z = self.auth_share_generator.xor_with_const(&t.z, d);
            out.push(LeakyAndTriple { x: t.x, y: t.y, z });
            i = i + 1;
        }
    }
}

/// The XOR of two share views.
pub open spec fn xor_view(a: ShareView, b: ShareView) -> ShareView {
    (a.0 != b.0, xor_bytes(a.1, b.1), xor_bytes(a.2, b.2))
}

/// One combining step: `<x''> = <x> ^ <x'>`, `<y''> = <y>`,
/// `<z''> = <z> ^ <z'> ^ d·<x'>`.
pub open spec fn combine_step_view(acc: TripleView, next: TripleView, d: bool) -> TripleView {
    let zz = xor_view(acc.2, next.2);
    (xor_view(acc.0, next.0), acc.1, if d {
        xor_view(zz, next.0)
    } else {
        zz
    })
}

/// A bucket combined: the steps folded from the first triple, `ds[i]` the
/// opened `d` of the step with `bucket[i + 1]`.
pub open spec fn combine_view(bucket: Seq<TripleView>, ds: Seq<bool>) -> TripleView
    decreases bucket.len(),
{
    if bucket.len() <= 1 {
        bucket[0]
    } else {
        combine_step_view(
            combine_view(bucket.drop_last(), ds.drop_last()),
            bucket.last(),
            ds.last(),
        )
    }
}

/// One combining step on the shared bits `(x, y, z)`.
pub open spec fn combine_step_bits(acc: (bool, bool, bool), next: (bool, bool, bool), d: bool) -> (
    bool,
    bool,
    bool,
) {
    (acc.0 != next.0, acc.1, (acc.2 != next.2) != (d && next.0))
}

/// A bucket of shared bits combined.
pub open spec fn combine_bits(bucket: Seq<(bool, bool, bool)>, ds: Seq<bool>) -> (bool, bool, bool)
    decreases bucket.len(),
{
    if bucket.len() <= 1 {
        bucket[0]
    } else {
        combine_step_bits(
            combine_bits(bucket.drop_last(), ds.drop_last()),
            bucket.last(),
            ds.last(),
        )
    }
}

/// The shared bits `(x1 ^ x2, y1 ^ y2, z1 ^ z2)` of the two parties' views
/// of a triple.
pub open spec fn shared_bits(a: TripleView, b: TripleView) -> (bool, bool, bool) {
    (a.0.0 != b.0.0, a.1.0 != b.1.0, a.2.0 != b.2.0)
}

/// Whether shared bits form an AND triple.
pub open spec fn is_and(t: (bool, bool, bool)) -> bool {
    t.2 == (t.0 && t.1)
}

impl<P: GenericParty> LeakyAndTripleGenerator<P> {
    /// The shares to open to combine `bucket`: `<y_0> ^ <y_i>` for each
    /// triple after the first.
    pub fn combine_openings(&self, bucket: &[LeakyAndTriple<P>]) -> (ds: Vec<AuthShare<P>>)
        requires
            bucket@.len() > 0,
        ensures
            ds@.len() + 1 == bucket@.len(),
            forall|i: int|
                0 <= i < ds@.len() ==> (#[trigger] ds@[i])@ == xor_view(
                    bucket@[0]@.1,
                    bucket@[i + 1]@.1,
                ),
    {
        let y0 = bucket[0].y;
        let mut ds: Vec<AuthShare<P>> = Vec::new();
        let mut i: usize = 1;
        while i < bucket.len()
            invariant
                1 <= i <= bucket@.len(),
                y0 == bucket@[0].spec_y(),
                ds@.len() + 1 == i,
                forall|j: int|
                    0 <= j < ds@.len() ==> (#[trigger] ds@[j])@ == xor_view(
                        bucket@[0]@.1,
                        bucket@[j + 1]@.1,
                    ),
            decreases bucket@.len() - i,
        {
            let yi = bucket[i].y;
            ds.push(y0.xor(&yi));
            i = i + 1;
        }
        ds
    }

    /// Combine a bucket of leaky triples into one, given the opened values
    /// `ds` of [`Self::combine_openings`].
    pub fn combine(&self, bucket: &[LeakyAndTriple<P>], ds: &[bool]) -> (t: LeakyAndTriple<P>)
        requires
            bucket@.len() > 0,
            ds@.len() + 1 == bucket@.len(),
        ensures
            t@ == combine_view(triple_views(bucket@), ds@),
    {
        let mut acc = bucket[0];
        let mut i: usize = 1;
        proof {
            assert(triple_views(bucket@.take(1)) =~= seq![bucket@[0]@]);
        }
        while i < bucket.len()
            invariant
                1 <= i <= bucket@.len(),
                ds@.len() + 1 == bucket@.len(),
                acc@ == combine_view(triple_views(bucket@.take(i as int)), ds@.take(i - 1)),
            decreases bucket@.len() - i,
        {
            let next = bucket[i];
            let d = ds[i - 1];
            let zz = acc.z.xor(&next.z);
            let z = if d {
                zz.xor(&next.x)
            } else {
                zz
            };
            let ghost prev = acc@;
            acc = LeakyAndTriple { x: acc.x.xor(&next.x), y: acc.y, z };
            proof {
                let v = triple_views(bucket@.take(i + 1));
                assert(v.drop_last() =~= triple_views(bucket@.take(i as int)));
                assert(ds@.take(i as int).drop_last() =~= ds@.take(i - 1));
                assert(v.last() == next@);
                assert(ds@.take(i as int).last() == d);
                assert(acc@ == combine_step_view(prev, next@, d));
            }
            i = i + 1;
        }
        proof {
            assert(bucket@.take(bucket@.len() as int) =~= bucket@);
            assert(ds@.take(ds@.len() as int) =~= ds@);
        }
        acc
    }
}

/// Combining commutes with sharing: combining each party's bucket with the
/// same opened values and then XORing the two parties' bits gives the
/// bucket of shared bits combined.
pub proof fn combine_shared_values(a: Seq<TripleView>, b: Seq<TripleView>, ds: Seq<bool>)
    requires
        a.len() > 0,
        b.len() == a.len(),
        ds.len() + 1 == a.len(),
    ensures
        shared_bits(combine_view(a, ds), combine_view(b, ds)) == combine_bits(
            Seq::new(a.len(), |i: int| shared_bits(a[i], b[i])),
            ds,
        ),
    decreases a.len(),
{
    let t = Seq::new(a.len(), |i: int| shared_bits(a[i], b[i]));
    if a.len() > 1 {
        combine_shared_values(a.drop_last(), b.drop_last(), ds.drop_last());
        assert(t.drop_last() =~= Seq::new(
            a.drop_last().len(),
            |i: int| shared_bits(a.drop_last()[i], b.drop_last()[i]),
        ));
    }
}

/// Combining keeps the AND relation: when every triple of a bucket of
/// shared bits is an AND triple and each opened `d` is `y_0 ^ y_i`, the
/// combined triple is an AND triple, with the `y` of the first.
pub proof fn combine_keeps_and_relation(t: Seq<(bool, bool, bool)>, ds: Seq<bool>)
    requires
        t.len() > 0,
        ds.len() + 1 == t.len(),
        forall|i: int| 0 <= i < t.len() ==> is_and(#[trigger] t[i]),
        forall|i: int| 0 <= i < ds.len() ==> #[trigger] ds[i] == (t[0].1 != t[i + 1].1),
    ensures
        is_and(combine_bits(t, ds)),
        combine_bits(t, ds).1 == t[0].1,
    decreases t.len(),
{
    if t.len() > 1 {
        let p = t.drop_last();
        let q = ds.drop_last();
        assert forall|i: int| 0 <= i < q.len() implies #[trigger] q[i] == (p[0].1 != p[i + 1].1) by {
            assert(ds[i] == (t[0].1 != t[i + 1].1));
        }
        combine_keeps_and_relation(p, q);
        assert(is_and(t[t.len() - 1]));
        assert(ds[ds.len() - 1] == (t[0].1 != t[t.len() - 1].1));
    }
}

/// The bit-level heart of generation, on byte 0 of every value: with
/// `lsb(Δ_A) = 1` and `lsb(Δ_B) = 0`, the least-significant bits of the two
/// `S` values differ exactly by `x·y ^ r`.
proof fn lemma_lsb_of_s(
    x1: bool,
    x2: bool,
    y1: bool,
    y2: bool,
    r1: bool,
    r2: bool,
    da: u8,
    db: u8,
    ky1: u8,
    ky2: u8,
    my1: u8,
    my2: u8,
    kr1: u8,
    kr2: u8,
    mr1: u8,
    mr2: u8,
    ha1: u8,
    ha2: u8,
    hb1: u8,
    hb2: u8,
    hma: u8,
    hmb: u8,
    ca: u8,
    cb: u8,
    ga: u8,
    gb: u8,
    ea: u8,
    eb: u8,
    sa: u8,
    sb: u8,
)
    by (bit_vector)
    requires
        da & 1u8 == 1u8,
        db & 1u8 == 0u8,
        my1 == ky1 ^ (if y1 { db } else { 0u8 }),
        my2 == ky2 ^ (if y2 { da } else { 0u8 }),
        mr1 == kr1 ^ (if r1 { db } else { 0u8 }),
        mr2 == kr2 ^ (if r2 { da } else { 0u8 }),
        hma == (if x1 { hb1 } else { hb2 }),
        hmb == (if x2 { ha1 } else { ha2 }),
        ca == ((if y1 { da } else { 0u8 }) ^ ky2) ^ my1,
        cb == ((if y2 { db } else { 0u8 }) ^ ky1) ^ my2,
        ga == (ha1 ^ ha2) ^ ca,
        gb == (hb1 ^ hb2) ^ cb,
        ea == ((if x1 { gb } else { 0u8 }) ^ hma) ^ (if x1 { ca } else { 0u8 }),
        eb == ((if x2 { ga } else { 0u8 }) ^ hmb) ^ (if x2 { cb } else { 0u8 }),
        sa == (ha2 ^ ea) ^ (((if r1 { da } else { 0u8 }) ^ kr2) ^ mr1),
        sb == (hb2 ^ eb) ^ (((if r2 { db } else { 0u8 }) ^ kr1) ^ mr2),
    ensures
        ((sa & 1u8 != 0u8) != (sb & 1u8 != 0u8)) == ((((x1 != x2) && (y1 != y2)) != r1) != r2),
{
}

/// `H(M)` for a MAC that authenticates `bit` under `key` and `Δ`: `H(K ^ Δ)`
/// for a set bit, `H(K)` otherwise.
proof fn lemma_hash_of_mac(mac: Seq<u8>, bit: bool, key: Seq<u8>, delta: Seq<u8>)
    requires
        authenticated(mac, bit, key, delta),
    ensures
        triple_hash(mac) == (if bit {
            triple_hash(xor_bytes(key, delta))
        } else {
            triple_hash(key)
        }),
{
    if !bit {
        assert forall|i: int| 0 <= i < 16 implies mac[i] == key[i] by {
            let k = key[i];
            assert(k ^ 0u8 == k) by (bit_vector);
        }
        assert(mac =~= key);
    }
}

/// Byte 0 of a scaled value.
proof fn lemma_scaled_0(b: bool, v: Seq<u8>)
    requires
        v.len() == 16,
    ensures
        scaled(b, v).len() == 16,
        scaled(b, v)[0] == (if b {
            v[0]
        } else {
            0u8
        }),
{
}

/// Generation yields AND triples: when Party A (with `lsb(Δ_A) = 1`) and
/// Party B (with `lsb(Δ_B) = 0`) start from authenticated random shares
/// `<x>`, `<y>`, `<r>` and each runs the steps on what the other sent, the
/// `d` they both obtain turns `<r>` into `<z>` with `z = x·y`, and Party B's
/// bit of `<z>` stays authenticated under Party A's updated key.
pub proof fn generation_yields_and_triples(
    xa: ShareView,
    ya: ShareView,
    ra: ShareView,
    xb: ShareView,
    yb: ShareView,
    rb: ShareView,
    delta_a: Seq<u8>,
    delta_b: Seq<u8>,
)
    requires
        delta_a.len() == 16,
        delta_b.len() == 16,
        spec_lsb(delta_a),
        !spec_lsb(delta_b),
        authenticated(xa.1, xa.0, xb.2, delta_b),
        authenticated(xb.1, xb.0, xa.2, delta_a),
        authenticated(ya.1, ya.0, yb.2, delta_b),
        authenticated(yb.1, yb.0, ya.2, delta_a),
        authenticated(ra.1, ra.0, rb.2, delta_b),
        authenticated(rb.1, rb.0, ra.2, delta_a),
    ensures
        ({
            let ca = correlation(ya, delta_a);
            let cb = correlation(yb, delta_b);
            let ga = g_message(xa, ca, delta_a);
            let gb = g_message(xb, cb, delta_b);
            let sa = s_value(xa, e_value(xa, gb, ca), ra, delta_a);
            let sb = s_value(xb, e_value(xb, ga, cb), rb, delta_b);
            let d = spec_lsb(sa) != spec_lsb(sb);
            &&& ((xa.0 != xb.0) && (ya.0 != yb.0)) == (ra.0 != (rb.0 != d))
            &&& authenticated(rb.1, rb.0 != d, xor_bytes(ra.2, scaled(d, delta_a)), delta_a)
        }),
{
    let ca = correlation(ya, delta_a);
    let cb = correlation(yb, delta_b);
    let ga = g_message(xa, ca, delta_a);
    let gb = g_message(xb, cb, delta_b);
    let ea = e_value(xa, gb, ca);
    let eb = e_value(xb, ga, cb);
    let sa = s_value(xa, ea, ra, delta_a);
    let sb = s_value(xb, eb, rb, delta_b);
    let d = spec_lsb(sa) != spec_lsb(sb);
    let ha1 = triple_hash(xor_bytes(xa.2, delta_a));
    let ha2 = triple_hash(xa.2);
    let hb1 = triple_hash(xor_bytes(xb.2, delta_b));
    let hb2 = triple_hash(xb.2);
    lemma_hash_of_mac(xa.1, xa.0, xb.2, delta_b);
    lemma_hash_of_mac(xb.1, xb.0, xa.2, delta_a);
    lemma_scaled_0(ya.0, delta_a);
    lemma_scaled_0(yb.0, delta_b);
    lemma_scaled_0(ya.0, delta_b);
    lemma_scaled_0(yb.0, delta_a);
    lemma_scaled_0(ra.0, delta_a);
    lemma_scaled_0(rb.0, delta_b);
    lemma_scaled_0(ra.0, delta_b);
    lemma_scaled_0(rb.0, delta_a);
    assert(ca.len() == 16 && cb.len() == 16);
    assert(ga.len() == 16 && gb.len() == 16);
    lemma_scaled_0(xa.0, gb);
    lemma_scaled_0(xa.0, ca);
    lemma_scaled_0(xb.0, ga);
    lemma_scaled_0(xb.0, cb);
    let hma = triple_hash(xa.1)[0];
    let hmb = triple_hash(xb.1)[0];
    assert(hma == (if xa.0 { hb1[0] } else { hb2[0] }));
    assert(hmb == (if xb.0 { ha1[0] } else { ha2[0] }));
    let a0 = delta_a[0];
    assert(a0 & 1u8 != 0u8 ==> a0 & 1u8 == 1u8) by (bit_vector);
    lemma_lsb_of_s(
        xa.0,
        xb.0,
        ya.0,
        yb.0,
        ra.0,
        rb.0,
        delta_a[0],
        delta_b[0],
        yb.2[0],
        ya.2[0],
        ya.1[0],
        yb.1[0],
        rb.2[0],
        ra.2[0],
        ra.1[0],
        rb.1[0],
        ha1[0],
        ha2[0],
        hb1[0],
        hb2[0],
        hma,
        hmb,
        ca[0],
        cb[0],
        ga[0],
        gb[0],
        ea[0],
        eb[0],
        sa[0],
        sb[0],
    );
    xor_with_const_keeps_authentication(rb.1, rb.0, ra.2, d, delta_a);
}

/// The least-significant bits of the `S` values, what a party sends in
/// step 3.
pub fn lsbs(ss: &[U8x16]) -> (bits: Vec<bool>)
    ensures
        bits@.len() == ss@.len(),
        forall|i: int| 0 <= i < ss@.len() ==> bits@[i] == spec_lsb(#[trigger] ss@[i]@),
{
    let mut bits: Vec<bool> = Vec::new();
    let mut i: usize = 0;
    while i < ss.len()
        invariant
            i <= ss@.len(),
            bits@.len() == i,
            forall|j: int| 0 <= j < i ==> bits@[j] == spec_lsb(#[trigger] ss@[j]@),
        decreases ss@.len() - i,
    {
        bits.push(lsb(&ss[i]));
        i = i + 1;
    }
    bits
}

/// The hash of the protocol is the correlation-robust hash under the fixed
/// key `b"Aes' 16 byte key"` (what `CorrelationRobustHash::fixed_key()`
/// computes), byte for byte.
pub proof fn triple_hash_is_fixed_key_hash(v: Seq<u8>)
    ensures
        triple_hash(v).len() == 16,
        forall|i: int| 0 <= i < 16 ==> #[trigger] triple_hash(v)[i] == cr_hash(fixed_key_bytes(), v)[i],
{
}

/// The message a party sends: byte for byte, the fixed-key hash of its key
/// XOR `Δ`, XOR the fixed-key hash of its key, XOR `C`.
pub proof fn g_message_uses_fixed_key_hash(x: ShareView, c: Seq<u8>, delta: Seq<u8>)
    requires
        x.2.len() == 16,
        delta.len() == 16,
        c.len() == 16,
    ensures
        g_message(x, c, delta).len() == 16,
        forall|i: int|
            0 <= i < 16 ==> #[trigger] g_message(x, c, delta)[i] == (cr_hash(
                fixed_key_bytes(),
                xor_bytes(x.2, delta),
            )[i] ^ cr_hash(fixed_key_bytes(), x.2)[i]) ^ c[i],
{
}

} // verus!
