//! Parties of a two-party protocol, and values private to one of them.
//!
//! A [`PartySystem`] is a pair of parties, `Party0` and `Party1`. Each
//! [`GenericParty`] knows which of the two it is ([`GenericWhichParty`]).
//! [`PartyPrivate`] holds a value that only one party (`PrivateTo`) knows:
//! when the running party `P` is `PrivateTo` it is full, otherwise it is
//! empty.
use vstd::prelude::*;
use core::marker::PhantomData;
use vstd::std_specs::cmp::{PartialEqSpec, PartialEqSpecImpl};

verus! {

/// Which party of its system a party is: `Party0` or `Party1`.
#[derive(Clone, Copy, Debug, PartialEq, Eq, Hash, PartialOrd, Ord, Structural)]
pub enum GenericWhichParty {
    /// The party is `Party0` of its system.
    Party0,
    /// The party is `Party1` of its system.
    Party1,
}

/// A pair of parties that operate opposite each other.
pub trait PartySystem: Sized {
    /// The 0-th party of the pair.
    type Party0: GenericParty;
    /// The 1-st party of the pair.
    type Party1: GenericParty;
}

/// A party in a two-party computation.
pub trait GenericParty: Sized {
    /// The party system this party belongs to.
    type PartySystem;

    /// Which party of its system `Self` is.
    spec fn spec_which() -> GenericWhichParty;

    /// Which party of its system `Self` is.
    fn generic_which() -> (w: GenericWhichParty)
        ensures
            w == Self::spec_which(),
    ;
}

/// Parties that are `Party0` of their system.
pub trait TheParty0: GenericParty {}

/// Parties that are `Party1` of their system.
pub trait TheParty1: GenericParty {}

/// The party that proves (`Party0` of [`ProverVerifier`]).
#[derive(Clone, Copy, Debug, PartialEq, Eq, Hash, PartialOrd, Ord, Default)]
pub struct Prover;

/// The party that verifies (`Party1` of [`ProverVerifier`]).
#[derive(Clone, Copy, Debug, PartialEq, Eq, Hash, PartialOrd, Ord, Default)]
pub struct Verifier;

/// The party system made of [`Prover`] and [`Verifier`].
#[derive(Clone, Copy, Debug, PartialEq, Eq, Hash, PartialOrd, Ord, Default)]
pub struct ProverVerifier;

impl PartySystem for ProverVerifier {
    type Party0 = Prover;
    type Party1 = Verifier;
}

impl GenericParty for Prover {
    type PartySystem = ProverVerifier;

    open spec fn spec_which() -> GenericWhichParty {
        GenericWhichParty::Party0
    }

    fn generic_which() -> (w: GenericWhichParty) {
        GenericWhichParty::Party0
    }
}

impl GenericParty for Verifier {
    type PartySystem = ProverVerifier;

    open spec fn spec_which() -> GenericWhichParty {
        GenericWhichParty::Party1
    }

    fn generic_which() -> (w: GenericWhichParty) {
        GenericWhichParty::Party1
    }
}

impl TheParty0 for Prover {}

impl TheParty1 for Verifier {}

/// A zero-sized value standing for data that is private to the other party.
#[derive(Clone, Copy, PartialEq, Eq, PartialOrd, Ord, Hash, Debug, Default)]
pub struct PrivateToOtherParty;

/// Hands out a mutable reference to the boxed value that lives for the rest
/// of the program (`Box::leak`).
#[verifier::external_body]
fn leak_box<'a, T>(b: Box<T>) -> (r: &'a mut T)
    ensures
        *r == *b,
{
    Box::leak(b)
}

impl PrivateToOtherParty {
    /// Get a `&'a mut PrivateToOtherParty` for any `'a`.
    ///
    /// Boxing a zero-sized value allocates nothing, so nothing leaks.
    pub fn ref_mut<'a>() -> (r: &'a mut Self)
        ensures
            *r == PrivateToOtherParty,
    {
        leak_box(Box::new(PrivateToOtherParty))
    }
}

/// Evidence that a [`PartyPrivate`] is either full or empty.
#[derive(Clone, Copy, Debug)]
pub enum PrivateWhich<Full, Empty> {
    /// The value is private to the running party (`PrivateTo == P`).
    Full(Full),
    /// The value is private to the other party.
    Empty(Empty),
}

/// Whether a value private to `PrivateTo` is known to the running party `P`.
pub open spec fn is_full<PrivateTo: GenericParty, P: GenericParty>() -> bool {
    PrivateTo::spec_which() == P::spec_which()
}

/// Decide whether a [`PartyPrivate<PrivateTo, P, _>`](PartyPrivate) is
/// full (`PrivateTo` and `P` are the same party) or empty.
pub fn private_which<PrivateTo: GenericParty, P: GenericParty>() -> (w: PrivateWhich<(), ()>)
    ensures
        w is Full <==> is_full::<PrivateTo, P>(),
{
    match (PrivateTo::generic_which(), P::generic_which()) {
        (GenericWhichParty::Party0, GenericWhichParty::Party0) => PrivateWhich::Full(()),
        (GenericWhichParty::Party1, GenericWhichParty::Party1) => PrivateWhich::Full(()),
        _ => PrivateWhich::Empty(()),
    }
}

/// A value that only `PrivateTo` knows, as seen by the running party `P`.
///
/// It holds the value when `P` is `PrivateTo`, and nothing otherwise.
pub struct PartyPrivate<PrivateTo: GenericParty, P: GenericParty, T> {
    value: Option<T>,
    parties: PhantomData<(PrivateTo, P)>,
}

impl<PrivateTo: GenericParty, P: GenericParty, T> PartyPrivate<PrivateTo, P, T> {
    /// The value held, if any.
    pub closed spec fn spec_value(&self) -> Option<T> {
        self.value
    }

    /// Holds a value exactly when full.
    pub open spec fn wf(&self) -> bool {
        self.spec_value() is Some <==> is_full::<PrivateTo, P>()
    }

    /// A `PartyPrivate` holding `t` when `P == PrivateTo`, empty otherwise.
    pub fn new(t: T) -> (r: Self)
        ensures
            r.wf(),
            is_full::<PrivateTo, P>() ==> r.spec_value() == Some(t),
    {
        match private_which::<PrivateTo, P>() {
            PrivateWhich::Full(_) => PartyPrivate { value: Some(t), parties: PhantomData },
            PrivateWhich::Empty(_) => PartyPrivate { value: None, parties: PhantomData },
        }
    }

    /// An empty `PartyPrivate`, for a party other than `PrivateTo`.
    pub fn empty() -> (r: Self)
        requires
            !is_full::<PrivateTo, P>(),
        ensures
            r.wf(),
            r.spec_value() is None,
    {
        PartyPrivate { value: None, parties: PhantomData }
    }

    /// The value, given that `P == PrivateTo`.
    pub fn into_inner(self) -> (t: T)
        requires
            self.wf(),
            is_full::<PrivateTo, P>(),
        ensures
            self.spec_value() == Some(t),
    {
        self.value.unwrap()
    }

    /// The value if `P == PrivateTo`, `None` otherwise.
    pub fn into_option(self) -> (o: Option<T>)
        requires
            self.wf(),
        ensures
            o == self.spec_value(),
            o is Some <==> is_full::<PrivateTo, P>(),
    {
        self.value
    }

    /// Pair two private values.
    pub fn zip<U>(self, other: PartyPrivate<PrivateTo, P, U>) -> (r: PartyPrivate<
        PrivateTo,
        P,
        (T, U),
    >)
        requires
            self.wf(),
            other.wf(),
        ensures
            r.wf(),
            is_full::<PrivateTo, P>() ==> r.spec_value() == Some(
                (self.spec_value()->0, other.spec_value()->0),
            ),
    {
        match (self.value, other.value) {
            (Some(t), Some(u)) => PartyPrivate { value: Some((t, u)), parties: PhantomData },
            _ => PartyPrivate { value: None, parties: PhantomData },
        }
    }

    /// Combine with another private value through `mapper`, when
    /// `P == PrivateTo`; empty otherwise.
    pub fn zip_with<Tx, U, F: FnOnce(T, Tx) -> U>(
        self,
        other: PartyPrivate<PrivateTo, P, Tx>,
        mapper: F,
    ) -> (r: PartyPrivate<PrivateTo, P, U>)
        requires
            self.wf(),
            other.wf(),
            is_full::<PrivateTo, P>() ==> mapper.requires(
                (self.spec_value()->0, other.spec_value()->0),
            ),
        ensures
            r.wf(),
            is_full::<PrivateTo, P>() ==> mapper.ensures(
                (self.spec_value()->0, other.spec_value()->0),
                r.spec_value()->0,
            ),
    {
        match (self.value, other.value) {
            (Some(t), Some(u)) => PartyPrivate { value: Some(mapper(t, u)), parties: PhantomData },
            _ => PartyPrivate { value: None, parties: PhantomData },
        }
    }

    /// Borrow the value mutably, when `P == PrivateTo`; empty otherwise.
    /// Writing through the borrow changes the value held.
    pub fn as_mut<'a>(&'a mut self) -> (r: PartyPrivate<PrivateTo, P, &'a mut T>)
        requires
            old(self).wf(),
        ensures
            r.wf(),
            is_full::<PrivateTo, P>() ==> (r.spec_value() matches Some(m) && *m == old(
                self,
            ).spec_value()->0 && final(self).spec_value() == Some(*final(m))),
            !is_full::<PrivateTo, P>() ==> final(self).spec_value() == old(self).spec_value(),
    {
        match &mut self.value {
            Some(t) => PartyPrivate { value: Some(t), parties: PhantomData },
            None => PartyPrivate { value: None, parties: PhantomData },
        }
    }

    /// The value if `P == PrivateTo`, otherwise `default`.
    pub fn unwrap_or(self, default: T) -> (t: T)
        requires
            self.wf(),
        ensures
            is_full::<PrivateTo, P>() ==> Some(t) == self.spec_value(),
            !is_full::<PrivateTo, P>() ==> t == default,
    {
        match self.value {
            Some(t) => t,
            None => default,
        }
    }
}

impl<PrivateTo: GenericParty, P: GenericParty, T, E> PartyPrivate<PrivateTo, P, core::result::Result<T, E>> {
    /// Turn a private result into a result of a private value: an empty
    /// value is `Ok`, a full one is `Ok` or `Err` as the value held.
    pub fn lift_result(self) -> (r: core::result::Result<PartyPrivate<PrivateTo, P, T>, E>)
        requires
            self.wf(),
        ensures
            !is_full::<PrivateTo, P>() ==> (r matches Ok(p) && p.wf() && p.spec_value() is None),
            is_full::<PrivateTo, P>() ==> match self.spec_value()->0 {
                Ok(t) => r matches Ok(p) && p.wf() && p.spec_value() == Some(t),
                Err(e) => r == core::result::Result::<PartyPrivate<PrivateTo, P, T>, E>::Err(e),
            },
    {
        match self.value {
            Some(Ok(t)) => Ok(PartyPrivate { value: Some(t), parties: PhantomData }),
            Some(Err(e)) => Err(e),
            None => Ok(PartyPrivate { value: None, parties: PhantomData }),
        }
    }
}

impl<PrivateTo: GenericParty, P: GenericParty, T: PartialEq> PartialEq for PartyPrivate<PrivateTo, P, T> {
    /// Two private values are equal when both are empty, or both hold equal
    /// values.
    fn eq(&self, other: &Self) -> (r: bool) {
        match (&self.value, &other.value) {
            (Some(a), Some(b)) => a == b,
            (None, None) => true,
            _ => false,
        }
    }
}

impl<PrivateTo: GenericParty, P: GenericParty, T: PartialEq> PartialEqSpecImpl for PartyPrivate<PrivateTo, P, T> {
    open spec fn obeys_eq_spec() -> bool {
        <T as PartialEqSpec>::obeys_eq_spec()
    }

    open spec fn eq_spec(&self, other: &Self) -> bool {
        match (self.spec_value(), other.spec_value()) {
            (Some(a), Some(b)) => PartialEqSpec::eq_spec(&a, &b),
            (None, None) => true,
            _ => false,
        }
    }
}

} // verus!
