//! Interfaces of circuit back ends, and small binary circuits built on them.
//!
//! A back end evaluates (or garbles, or analyses) a circuit gate by gate:
//! [`Fancy`] gives constants and outputs, [`FancyInput`] the input wires,
//! [`FancyBinary`] the gates of binary circuits and [`FancyReveal`] the
//! revealing of a wire. [`OrMany`] and [`PairwiseOr`] are circuits written
//! against any binary back end.
use vstd::prelude::*;

verus! {

/// A circuit back end: the wires it produces, the errors it may report,
/// constants and outputs.
pub trait Fancy {
    /// The wires this back end produces.
    type Item;
    /// The errors this back end may report.
    type Error;

    /// A wire holding the constant `val` modulo `q`.
    fn constant(&mut self, val: u16, q: u16) -> core::result::Result<Self::Item, Self::Error>;

    /// Output the value of wire `x`, if this back end learns it.
    fn output(&mut self, x: &Self::Item) -> core::result::Result<Option<u16>, Self::Error>;
}

/// A back end that can take circuit inputs.
pub trait FancyInput: Fancy {
    /// Receive the other party's input wires, of the given moduli.
    fn receive_many(&mut self, moduli: &[u16]) -> core::result::Result<
        Vec<Self::Item>,
        Self::Error,
    >;

    /// Encode this party's input `values`, of the given moduli.
    fn encode_many(&mut self, values: &[u16], moduli: &[u16]) -> core::result::Result<
        Vec<Self::Item>,
        Self::Error,
    >;
}

/// A back end for binary circuits.
pub trait FancyBinary: Fancy + Sized {
    /// The effect of an OR of wires `x` and `y`: the new state, and the
    /// wire it gives (`None` on failure).
    spec fn spec_or(&self, x: Self::Item, y: Self::Item) -> (Self, Option<Self::Item>);

    /// XOR of two wires.
    fn xor(&mut self, x: &Self::Item, y: &Self::Item) -> core::result::Result<
        Self::Item,
        Self::Error,
    >;

    /// AND of two wires.
    fn and(&mut self, x: &Self::Item, y: &Self::Item) -> core::result::Result<
        Self::Item,
        Self::Error,
    >;

    /// Negation of a wire.
    fn negate(&mut self, x: &Self::Item) -> core::result::Result<Self::Item, Self::Error>;

    /// OR of two wires, as [`Self::spec_or`] describes it.
    fn or(&mut self, x: &Self::Item, y: &Self::Item) -> (r: core::result::Result<
        Self::Item,
        Self::Error,
    >)
        ensures
            *final(self) == old(self).spec_or(*x, *y).0,
            r is Ok <==> old(self).spec_or(*x, *y).1 is Some,
            r matches Ok(z) ==> old(self).spec_or(*x, *y).1 == Some(z),
    ;

    /// Full adder: the sum and the carry of `x`, `y` and an optional carry.
    fn adder(
        &mut self,
        x: &Self::Item,
        y: &Self::Item,
        carry_in: Option<&Self::Item>,
    ) -> core::result::Result<(Self::Item, Self::Item), Self::Error>;

    /// AND of all the wires (at least one).
    fn and_many(&mut self, args: &[Self::Item]) -> core::result::Result<Self::Item, Self::Error>
        requires
            args@.len() > 0,
    ;

    /// OR of all the wires (at least one).
    fn or_many(&mut self, args: &[Self::Item]) -> core::result::Result<Self::Item, Self::Error>
        requires
            args@.len() > 0,
    ;

    /// XOR of all the wires (at least one).
    fn xor_many(&mut self, args: &[Self::Item]) -> core::result::Result<Self::Item, Self::Error>
        requires
            args@.len() > 0,
    ;

    /// `b1` if `x` is zero, `b2` otherwise.
    fn mux_constant_bits(&mut self, x: &Self::Item, b1: bool, b2: bool) -> core::result::Result<
        Self::Item,
        Self::Error,
    >;

    /// `x` if `b` is zero, `y` otherwise.
    fn mux(&mut self, b: &Self::Item, x: &Self::Item, y: &Self::Item) -> core::result::Result<
        Self::Item,
        Self::Error,
    >;
}

/// A back end that can reveal the value of a wire to both parties.
pub trait FancyReveal: Fancy {
    /// Reveal the value of wire `x`.
    fn reveal_wire(&mut self, x: &Self::Item) -> core::result::Result<u16, Self::Error>;
}

/// The circuit that is `true` when any input is `true`.
///
/// It needs at least one input.
pub struct OrMany {}

impl OrMany {
    /// A new [`OrMany`] circuit.
    pub fn new() -> (c: Self) {
        OrMany {  }
    }

    /// Evaluate the circuit on `backend`: the OR of the inputs, folded left
    /// to right with [`FancyBinary::or`] (one gate per input after the
    /// first); a single input is handed back as a clone. The first error of
    /// the back end is returned.
    pub fn execute<F: FancyBinary>(&self, backend: &mut F, inputs: &[F::Item]) -> (r:
        core::result::Result<F::Item, F::Error>) where F::Item: Clone
        requires
            inputs@.len() > 0,
        ensures
            inputs@.len() == 1 ==> *final(backend) == *old(backend) && (r matches Ok(z) && vstd::pervasive::cloned(
                inputs@[0],
                z,
            )),
            inputs@.len() >= 2 ==> {
                let run = or_many_run(*old(backend), inputs@, inputs@.len());
                &&& *final(backend) == run.0
                &&& r is Ok <==> run.1 is Some
                &&& r matches Ok(z) ==> run.1 == Some(z)
            },
    {
        if inputs.len() == 1 {
            return Ok(inputs[0].clone());
        }
        let mut acc = match backend.or(&inputs[0], &inputs[1]) {
            Ok(z) => z,
            Err(e) => {
                proof {
                    lemma_or_many_run_stops(*old(backend), inputs@, 2, inputs@.len());
                }
                return Err(e);
            },
        };
        let mut i: usize = 2;
        while i < inputs.len()
            invariant
                2 <= i <= inputs@.len(),
                (*backend, Some(acc)) == or_many_run(*old(backend), inputs@, i as nat),
            decreases inputs.len() - i,
        {
            match backend.or(&acc, &inputs[i]) {
                Ok(z) => {
                    acc = z;
                },
                Err(e) => {
                    proof {
                        lemma_or_many_run_stops(*old(backend), inputs@, (i + 1) as nat, inputs@.len());
                    }
                    return Err(e);
                },
            }
            i = i + 1;
        }
        Ok(acc)
    }
}

/// What [`OrMany::execute`] does to `backend` on the first `n` (at least
/// two) inputs: the back end after the gates, and the OR wire (`None` once
/// a gate has failed; no gate runs after that).
pub open spec fn or_many_run<F: FancyBinary>(backend: F, inputs: Seq<F::Item>, n: nat) -> (
    F,
    Option<F::Item>,
)
    decreases n,
{
    if n <= 2 {
        backend.spec_or(inputs[0], inputs[1])
    } else {
        let prev = or_many_run(backend, inputs, (n - 1) as nat);
        match prev.1 {
            None => prev,
            Some(acc) => prev.0.spec_or(acc, inputs[n - 1]),
        }
    }
}

/// Once a gate has failed, no further gate runs.
proof fn lemma_or_many_run_stops<F: FancyBinary>(backend: F, inputs: Seq<F::Item>, i: nat, n: nat)
    requires
        2 <= i <= n,
        or_many_run(backend, inputs, i).1 is None,
    ensures
        or_many_run(backend, inputs, n) == or_many_run(backend, inputs, i),
    decreases n,
{
    if n > i {
        lemma_or_many_run_stops(backend, inputs, i, (n - 1) as nat);
    }
}

/// The circuit computing the pairwise OR of two bit vectors.
///
/// The output is as long as the shorter input.
pub struct PairwiseOr {}

impl PairwiseOr {
    /// A new [`PairwiseOr`] circuit.
    pub fn new() -> (c: Self) {
        PairwiseOr {  }
    }

    /// Evaluate the circuit on `backend`: one [`FancyBinary::or`] gate per
    /// pair `(x[i], y[i])`, in order. The first error of the back end is
    /// returned; otherwise the output has one wire per pair.
    pub fn execute<F: FancyBinary>(&self, backend: &mut F, x: &Vec<F::Item>, y: &Vec<F::Item>) -> (r:
        core::result::Result<Vec<F::Item>, F::Error>)
        ensures
            ({
                let run = pairwise_or_run(*old(backend), x@, y@, min_len(x@.len(), y@.len()));
                &&& *final(backend) == run.0
                &&& r is Ok <==> run.1 is Some
                &&& r matches Ok(out) ==> run.1 == Some(out@)
            }),
            r matches Ok(out) ==> out@.len() == min_len(x@.len(), y@.len()),
    {
        let n = if x.len() < y.len() {
            x.len()
        } else {
            y.len()
        };
        let mut out: Vec<F::Item> = Vec::new();
        let mut i: usize = 0;
        while i < n
            invariant
                i <= n,
                n == min_len(x@.len(), y@.len()),
                (*backend, Some(out@)) == pairwise_or_run(*old(backend), x@, y@, i as nat),
                out@.len() == i,
            decreases n - i,
        {
            match backend.or(&x[i], &y[i]) {
                Ok(z) => {
                    out.push(z);
                },
                Err(e) => {
                    proof {
                        lemma_pairwise_or_run_stops(*old(backend), x@, y@, (i + 1) as nat, n as nat);
                    }
                    return Err(e);
                },
            }
            i = i + 1;
        }
        Ok(out)
    }
}

/// The smaller of two lengths.
pub open spec fn min_len(a: nat, b: nat) -> nat {
    if a < b {
        a
    } else {
        b
    }
}

/// What [`PairwiseOr::execute`] does to `backend` on the first `n` pairs:
/// the back end after the gates, and the output wires (`None` once a gate
/// has failed; no gate runs after that).
pub open spec fn pairwise_or_run<F: FancyBinary>(
    backend: F,
    x: Seq<F::Item>,
    y: Seq<F::Item>,
    n: nat,
) -> (F, Option<Seq<F::Item>>)
    decreases n,
{
    if n == 0 {
        (backend, Some(Seq::empty()))
    } else {
        let prev = pairwise_or_run(backend, x, y, (n - 1) as nat);
        match prev.1 {
            None => prev,
            Some(out) => {
                let step = prev.0.spec_or(x[n - 1], y[n - 1]);
                match step.1 {
                    None => (step.0, None),
                    Some(z) => (step.0, Some(out.push(z))),
                }
            },
        }
    }
}

/// Once a gate has failed, no further gate runs.
proof fn lemma_pairwise_or_run_stops<F: FancyBinary>(
    backend: F,
    x: Seq<F::Item>,
    y: Seq<F::Item>,
    i: nat,
    n: nat,
)
    requires
        i <= n,
        pairwise_or_run(backend, x, y, i).1 is None,
    ensures
        pairwise_or_run(backend, x, y, n) == pairwise_or_run(backend, x, y, i),
    decreases n,
{
    if n > i {
        lemma_pairwise_or_run_stops(backend, x, y, i, (n - 1) as nat);
    }
}

} // verus!
