//! Authenticated AND triples.
//!
//! An AND triple `(<x>, <y>, <z>)` of authenticated shares has `z = x·y`.
//! They are made from leaky AND triples: the parties generate `B·N` leaky
//! triples, put them in the order of a permutation drawn from a jointly
//! chosen seed ([`shuffle_with`]; drawing the permutation is the caller's),
//! cut them into buckets of `B` ([`buckets`]) and combine each bucket into
//! one AND triple ([`AndTripleGenerator::combine`]). The bucket size `B`
//! depends on the number `N` of triples wanted ([`bucket_size`], for 40
//! bits of statistical security).
use vstd::prelude::*;
use crate::authbits::AuthShare;
use crate::block::U8x16;
use crate::leaky_and_triples::{
    LeakyAndTriple, LeakyAndTripleGenerator, TripleView, combine_view, triple_views, xor_view,
};
use crate::party::GenericParty;

verus! {

/// An AND triple: a leaky AND triple that no adversary could have guessed.
pub struct AndTriple<P: GenericParty>(LeakyAndTriple<P>);

impl<P: GenericParty> Clone for AndTriple<P> {
    fn clone(&self) -> (r: Self)
        ensures
            r == *self,
    {
        AndTriple(self.0)
    }
}

impl<P: GenericParty> Copy for AndTriple<P> {}

impl<P: GenericParty> AndTriple<P> {
    /// The leaky triple this triple is.
    pub closed spec fn spec_inner(&self) -> LeakyAndTriple<P> {
        self.0
    }

    /// The share `<x>`.
    pub fn x(&self) -> (s: AuthShare<P>)
        ensures
            s == self.spec_inner().spec_x(),
    {
        self.0.x()
    }

    /// The share `<y>`.
    pub fn y(&self) -> (s: AuthShare<P>)
        ensures
            s == self.spec_inner().spec_y(),
    {
        self.0.y()
    }

    /// The share `<z>`, with `z = x·y`.
    pub fn z(&self) -> (s: AuthShare<P>)
        ensures
            s == self.spec_inner().spec_z(),
    {
        self.0.z()
    }
}

impl<P: GenericParty> View for AndTriple<P> {
    type V = TripleView;

    open spec fn view(&self) -> TripleView {
        self.spec_inner()@
    }
}

impl<P: GenericParty> From<LeakyAndTriple<P>> for AndTriple<P> {
    fn from(value: LeakyAndTriple<P>) -> (r: Self) {
        AndTriple(value)
    }
}

impl<P: GenericParty> vstd::std_specs::convert::FromSpecImpl<LeakyAndTriple<P>> for AndTriple<P> {
    open spec fn obeys_from_spec() -> bool {
        true
    }

    closed spec fn from_spec(v: LeakyAndTriple<P>) -> Self {
        AndTriple(v)
    }
}

/// The bucket size for `ntriples` AND triples: 3 from 280,000 on, 4 from
/// 3,100 on, 5 from 320 on.
pub open spec fn spec_bucket_size(ntriples: nat) -> nat {
    if ntriples >= 280000 {
        3
    } else if ntriples >= 3100 {
        4
    } else {
        5
    }
}

/// The bucket size for `ntriples` AND triples; at least 320 triples must
/// be asked for.
pub fn bucket_size(ntriples: usize) -> (b: usize)
    requires
        ntriples >= 320,
    ensures
        b == spec_bucket_size(ntriples as nat),
{
    if ntriples >= 280000 {
        3
    } else if ntriples >= 3100 {
        4
    } else {
        5
    }
}

/// A generator of AND triples.
pub struct AndTripleGenerator<P: GenericParty> {
    leaky_generator: LeakyAndTripleGenerator<P>,
}

impl<P: GenericParty> AndTripleGenerator<P> {
    /// This party's `Δ`.
    pub closed spec fn spec_delta(&self) -> Seq<u8> {
        self.leaky_generator.spec_delta()
    }

    /// The generator of the leaky triples.
    pub closed spec fn spec_leaky(&self) -> LeakyAndTripleGenerator<P> {
        self.leaky_generator
    }

    /// A generator whose `Δ` is `random_delta` with its least-significant
    /// bit set to what this party needs.
    pub fn new(random_delta: U8x16) -> (g: Self)
        ensures
            g.spec_delta() == LeakyAndTripleGenerator::<P>::adjusted_delta(random_delta@),
            g.spec_leaky().spec_delta() == g.spec_delta(),
    {
        AndTripleGenerator { leaky_generator: LeakyAndTripleGenerator::new(random_delta) }
    }

    /// A generator with the given `Δ`, whose least-significant bit must be
    /// what this party needs.
    pub fn new_with_delta(delta: U8x16) -> (g: Self)
        requires
            crate::authbits::spec_lsb(delta@) == LeakyAndTripleGenerator::<P>::required_lsb(),
        ensures
            g.spec_delta() == delta@,
            g.spec_leaky().spec_delta() == g.spec_delta(),
    {
        AndTripleGenerator { leaky_generator: LeakyAndTripleGenerator::new_with_delta(delta) }
    }

    /// The generator of the leaky triples.
    pub fn leaky_generator(&self) -> (g: &LeakyAndTripleGenerator<P>)
        ensures
            *g == self.spec_leaky(),
    {
        &self.leaky_generator
    }

    /// This party's `Δ`.
    pub fn delta(&self) -> (d: U8x16)
        ensures
            d@ == self.spec_delta(),
    {
        self.leaky_generator.delta()
    }

    /// The shares to open to combine `bucket`: `<y_0> ^ <y_i>` for each
    /// triple after the first.
    pub fn combine_openings(&self, bucket: &[LeakyAndTriple<P>]) -> (ds: Vec<AuthShare<P>>)
        requires
            bucket@.len() > 0,
        ensures
            ds@.len() + 1 == bucket@.len(),
            forall|i: int|
                0 <= i < ds@.len() ==> (#[trigger] ds@[i])@ == xor_view(
                    bucket@[0]@.1,
                    bucket@[i + 1]@.1,
                ),
    {
        self.leaky_generator.combine_openings(bucket)
    }

    /// The AND triple of a bucket of leaky triples, given the opened values
    /// `ds` of [`Self::combine_openings`].
    pub fn combine(&self, bucket: &[LeakyAndTriple<P>], ds: &[bool]) -> (t: AndTriple<P>)
        requires
            bucket@.len() > 0,
            ds@.len() + 1 == bucket@.len(),
        ensures
            t@ == combine_view(triple_views(bucket@), ds@),
    {
        AndTriple(self.leaky_generator.combine(bucket, ds))
    }
}

/// Whether `perm` lists each index of `0..n` exactly once.
pub open spec fn is_permutation(perm: Seq<usize>, n: nat) -> bool {
    &&& perm.len() == n
    &&& forall|i: int| 0 <= i < n ==> #[trigger] perm[i] < n
    &&& forall|i: int, j: int| 0 <= i < j < n ==> #[trigger] perm[i] != #[trigger] perm[j]
}

/// The items in the order `perm` gives: `out[i] = items[perm[i]]`, where
/// `perm` is a permutation (drawn from the jointly chosen seed).
pub fn shuffle_with<T: Copy>(items: &[T], perm: &[usize]) -> (out: Vec<T>)
    requires
        is_permutation(perm@, items@.len()),
    ensures
        out@.len() == items@.len(),
        forall|i: int| 0 <= i < items@.len() ==> #[trigger] out@[i] == items@[perm@[i] as int],
{
    let mut out: Vec<T> = Vec::new();
    let mut i: usize = 0;
    while i < perm.len()
        invariant
            i <= perm@.len(),
            is_permutation(perm@, items@.len()),
            out@.len() == i,
            forall|j: int| 0 <= j < i ==> #[trigger] out@[j] == items@[perm@[j] as int],
        decreases perm@.len() - i,
    {
        let k = perm[i];
        assert(perm@[i as int] < items@.len());
        out.push(items[k]);
        i = i + 1;
    }
    out
}

/// The sequences one after the other.
pub open spec fn joined<T>(parts: Seq<Seq<T>>) -> Seq<T>
    decreases parts.len(),
{
    if parts.len() == 0 {
        Seq::empty()
    } else {
        joined(parts.drop_last()) + parts.last()
    }
}

/// The views of a sequence of vectors.
pub open spec fn vec_views<T>(vs: Seq<Vec<T>>) -> Seq<Seq<T>> {
    Seq::new(vs.len(), |i: int| vs[i]@)
}

/// Cut `items` into consecutive buckets of `bucket_size` (the last one may
/// be shorter): the buckets, one after the other, are `items`, every bucket
/// but the last has `bucket_size` items, and the last has between one and
/// `bucket_size`.
pub fn buckets<T: Copy>(items: &[T], bucket_size: usize) -> (bs: Vec<Vec<T>>)
    requires
        bucket_size > 0,
    ensures
        joined(vec_views(bs@)) == items@,
        forall|k: int| 0 <= k < bs@.len() ==> 0 < (#[trigger] bs@[k])@.len() <= bucket_size,
        forall|k: int| 0 <= k < bs@.len() - 1 ==> (#[trigger] bs@[k])@.len() == bucket_size,
{
    let n = items.len();
    let mut bs: Vec<Vec<T>> = Vec::new();
    let mut start: usize = 0;
    proof {
        assert(joined(vec_views(bs@)) =~= items@.take(0));
    }
    while start < n
        invariant
            start <= n,
            n == items@.len(),
            bucket_size > 0,
            joined(vec_views(bs@)) == items@.take(start as int),
            forall|k: int| 0 <= k < bs@.len() ==> 0 < (#[trigger] bs@[k])@.len() <= bucket_size,
            start < n ==> forall|k: int| 0 <= k < bs@.len() ==> (#[trigger] bs@[k])@.len() == bucket_size,
            forall|k: int| 0 <= k < bs@.len() - 1 ==> (#[trigger] bs@[k])@.len() == bucket_size,
        decreases n - start,
    {
        let end = if n - start < bucket_size {
            n
        } else {
            start + bucket_size
        };
        let mut b: Vec<T> = Vec::new();
        let mut i: usize = start;
        while i < end
            invariant
                start <= i <= end,
                end <= n,
                n == items@.len(),
                b@ == items@.subrange(start as int, i as int),
            decreases end - i,
        {
            b.push(items[i]);
            proof {
                assert(b@ =~= items@.subrange(start as int, i + 1));
            }
            i = i + 1;
        }
        let ghost before = bs@;
        bs.push(b);
        proof {
            assert(vec_views(bs@).drop_last() =~= vec_views(before));
            assert(vec_views(bs@).last() == items@.subrange(start as int, end as int));
            assert(items@.take(start as int) + items@.subrange(start as int, end as int) =~= items@.take(end as int));
        }
        start = end;
    }
    proof {
        assert(items@.take(n as int) =~= items@);
    }
    bs
}

} // verus!
