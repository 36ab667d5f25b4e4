//! A back end that counts the gates of a binary circuit instead of
//! evaluating it.
use vstd::prelude::*;
use crate::fancy::{Fancy, FancyBinary, FancyInput, FancyReveal};

verus! {

/// The wire that [`Analyzer`] hands out: it only records the wire's modulus.
#[derive(Clone, Debug)]
pub struct AnalyzerItem {
    modulus: u16,
}

impl AnalyzerItem {
    /// The modulus of the wire.
    pub closed spec fn spec_modulus(&self) -> u16 {
        self.modulus
    }

    /// A wire with the modulus of this one.
    pub closed spec fn with_modulus(&self) -> AnalyzerItem {
        AnalyzerItem { modulus: self.modulus }
    }

    /// The modulus of the wire.
    pub fn modulus(&self) -> (q: u16)
        ensures
            q == self.spec_modulus(),
    {
        self.modulus
    }
}

/// Errors from the [`Analyzer`].
#[derive(Debug)]
pub enum AnalyzerError {
    /// An error of the underlying computation, with its message.
    Underlying(String),
}

/// A back end which counts the inputs, ANDs, XORs, negations and constants
/// of a binary circuit.
///
/// Each operation is counted as the basic gates it is made of: an OR is one
/// AND and three negations, an adder two ANDs and five XORs, a multiplexer
/// one AND and two XORs, a constant-bit multiplexer one negation and two
/// constants. A count that would exceed `usize::MAX` makes the operation
/// fail.
#[derive(Clone, Debug, PartialEq, Eq, PartialOrd, Ord, Structural)]
pub struct Analyzer {
    ninputs: usize,
    nands: usize,
    nxors: usize,
    nnegs: usize,
    nconstants: usize,
}

/// Gate counts, ordered `(inputs, ands, xors, negations, constants)`.
pub type GateCounts = (nat, nat, nat, nat, nat);

/// Whether `c + d` still fits in a `usize`, component by component.
pub open spec fn counts_fit(c: GateCounts, d: GateCounts) -> bool {
    &&& c.0 + d.0 <= usize::MAX
    &&& c.1 + d.1 <= usize::MAX
    &&& c.2 + d.2 <= usize::MAX
    &&& c.3 + d.3 <= usize::MAX
    &&& c.4 + d.4 <= usize::MAX
}

/// The component-wise sum of two counts.
pub open spec fn counts_add(c: GateCounts, d: GateCounts) -> GateCounts {
    (c.0 + d.0, c.1 + d.1, c.2 + d.2, c.3 + d.3, c.4 + d.4)
}

/// The gates counted for an OR of `n` wires.
pub open spec fn or_cost(n: nat) -> GateCounts {
    (0, n, 0, 3 * n, 0)
}

/// The gates counted for one adder.
pub open spec fn adder_cost() -> GateCounts {
    (0, 2, 5, 0, 0)
}

/// The gates counted for one multiplexer.
pub open spec fn mux_cost() -> GateCounts {
    (0, 1, 2, 0, 0)
}

/// The gates counted for one multiplexer between two constant bits.
pub open spec fn mux_constant_bits_cost() -> GateCounts {
    (0, 0, 0, 1, 2)
}

/// An analyzer whose counts are `counts` after a step that adds `cost` to
/// the counts of `before` (or fails, leaving them, when they would not fit).
pub open spec fn counted(
    before: Analyzer,
    after: Analyzer,
    cost: GateCounts,
    ok: bool,
) -> bool {
    &&& ok == counts_fit(before.counts(), cost)
    &&& ok ==> after.counts() == counts_add(before.counts(), cost)
    &&& !ok ==> after == before
}

impl Analyzer {
    /// The counts `(inputs, ands, xors, negations, constants)`.
    pub closed spec fn counts(&self) -> GateCounts {
        (
            self.ninputs as nat,
            self.nands as nat,
            self.nxors as nat,
            self.nnegs as nat,
            self.nconstants as nat,
        )
    }

    /// An analyzer with the given counts (each fitting in a `usize`).
    pub closed spec fn with_counts(&self, c: GateCounts) -> Analyzer {
        Analyzer {
            ninputs: c.0 as usize,
            nands: c.1 as usize,
            nxors: c.2 as usize,
            nnegs: c.3 as usize,
            nconstants: c.4 as usize,
        }
    }

    /// An analyzer made with counts that fit in a `usize` has those counts.
    pub proof fn lemma_with_counts(&self, c: GateCounts)
        requires
            c.0 <= usize::MAX,
            c.1 <= usize::MAX,
            c.2 <= usize::MAX,
            c.3 <= usize::MAX,
            c.4 <= usize::MAX,
        ensures
            self.with_counts(c).counts() == c,
    {
    }

    /// A new analyzer with all counts 0.
    pub fn new() -> (a: Analyzer)
        ensures
            a.counts() == (0nat, 0nat, 0nat, 0nat, 0nat),
    {
        Analyzer { ninputs: 0, nands: 0, nxors: 0, nnegs: 0, nconstants: 0 }
    }

    /// What preprocessing a counted circuit needs: one AND triple per AND
    /// gate, and one authenticated share per AND gate and per input.
    pub fn preprocessing_sizes(&self) -> (r: (usize, usize))
        requires
            self.counts().1 + self.counts().0 <= usize::MAX,
        ensures
            r.0 == self.counts().1,
            r.1 == self.counts().1 + self.counts().0,
    {
        (self.nands, self.nands + self.ninputs)
    }

    /// The number of AND gates counted.
    pub fn nands(&self) -> (n: usize)
        ensures
            n == self.counts().1,
    {
        self.nands
    }

    /// The number of input wires counted.
    pub fn ninputs(&self) -> (n: usize)
        ensures
            n == self.counts().0,
    {
        self.ninputs
    }

    /// The number of XOR gates counted.
    pub fn nxors(&self) -> (n: usize)
        ensures
            n == self.counts().2,
    {
        self.nxors
    }

    /// The number of negations counted.
    pub fn nnegs(&self) -> (n: usize)
        ensures
            n == self.counts().3,
    {
        self.nnegs
    }

    /// The number of constants counted.
    pub fn nconstants(&self) -> (n: usize)
        ensures
            n == self.counts().4,
    {
        self.nconstants
    }

    /// Add `cost` to the counts, or fail (changing nothing) when a count
    /// would exceed `usize::MAX`.
    fn count(&mut self, inputs: usize, ands: usize, xors: usize, negs: usize, constants: usize) -> (ok: bool)
        ensures
            counted(*old(self), *final(self), (inputs as nat, ands as nat, xors as nat, negs as nat, constants as nat), ok),
    {
        if inputs > usize::MAX - self.ninputs || ands > usize::MAX - self.nands || xors > usize::MAX
            - self.nxors || negs > usize::MAX - self.nnegs || constants > usize::MAX
            - self.nconstants {
            return false;
        }
        self.ninputs = self.ninputs + inputs;
        self.nands = self.nands + ands;
        self.nxors = self.nxors + xors;
        self.nnegs = self.nnegs + negs;
        self.nconstants = self.nconstants + constants;
        true
    }
}

/// The error an [`Analyzer`] reports when a count would overflow.
fn overflow() -> (e: AnalyzerError)
    ensures
        e matches AnalyzerError::Underlying(m) && m@ == "gate count overflow"@,
{
    AnalyzerError::Underlying(String::from_str("gate count overflow"))
}

impl Fancy for Analyzer {
    type Item = AnalyzerItem;

    type Error = AnalyzerError;

    /// Counts one constant; the wire has modulus `q`.
    fn constant(&mut self, val: u16, q: u16) -> (r: core::result::Result<AnalyzerItem, AnalyzerError>)
        ensures
            counted(*old(self), *final(self), (0, 0, 0, 0, 1), r is Ok),
            r matches Ok(w) ==> w.spec_modulus() == q,
    {
        if self.count(0, 0, 0, 0, 1) {
            Ok(AnalyzerItem { modulus: q })
        } else {
            Err(overflow())
        }
    }

    /// The analyzer learns no output.
    fn output(&mut self, x: &AnalyzerItem) -> (r: core::result::Result<Option<u16>, AnalyzerError>)
        ensures
            r == core::result::Result::<Option<u16>, AnalyzerError>::Ok(None),
            *final(self) == *old(self),
    {
        Ok(None)
    }
}

impl FancyInput for Analyzer {
    /// Counts one input per modulus; the wires have those moduli.
    fn receive_many(&mut self, moduli: &[u16]) -> (r: core::result::Result<
        Vec<AnalyzerItem>,
        AnalyzerError,
    >)
        ensures
            counted(*old(self), *final(self), (moduli@.len(), 0, 0, 0, 0), r is Ok),
            r matches Ok(ws) ==> ws@.len() == moduli@.len() && forall|i: int|
                0 <= i < moduli@.len() ==> #[trigger] ws@[i].spec_modulus() == moduli@[i],
    {
        if !self.count(moduli.len(), 0, 0, 0, 0) {
            return Err(overflow());
        }
        let mut out: Vec<AnalyzerItem> = Vec::new();
        let mut i: usize = 0;
        while i < moduli.len()
            invariant
                i <= moduli@.len(),
                out@.len() == i,
                forall|j: int| 0 <= j < i ==> #[trigger] out@[j].spec_modulus() == moduli@[j],
            decreases moduli@.len() - i,
        {
            out.push(AnalyzerItem { modulus: moduli[i] });
            i = i + 1;
        }
        Ok(out)
    }

    /// As [`FancyInput::receive_many`]: the values are not used.
    fn encode_many(&mut self, values: &[u16], moduli: &[u16]) -> (r: core::result::Result<
        Vec<AnalyzerItem>,
        AnalyzerError,
    >)
        ensures
            counted(*old(self), *final(self), (moduli@.len(), 0, 0, 0, 0), r is Ok),
            r matches Ok(ws) ==> ws@.len() == moduli@.len() && forall|i: int|
                0 <= i < moduli@.len() ==> #[trigger] ws@[i].spec_modulus() == moduli@[i],
    {
        self.receive_many(moduli)
    }
}

impl FancyBinary for Analyzer {
    /// An OR counts one AND and three negations, or fails (counting
    /// nothing) when a count would overflow; the wire has the modulus of
    /// `x`.
    open spec fn spec_or(&self, x: AnalyzerItem, y: AnalyzerItem) -> (Analyzer, Option<AnalyzerItem>) {
        if counts_fit(self.counts(), or_cost(1)) {
            (self.with_counts(counts_add(self.counts(), or_cost(1))), Some(x.with_modulus()))
        } else {
            (*self, None)
        }
    }

    /// Counts one XOR.
    fn xor(&mut self, x: &AnalyzerItem, y: &AnalyzerItem) -> (r: core::result::Result<
        AnalyzerItem,
        AnalyzerError,
    >)
        ensures
            counted(*old(self), *final(self), (0, 0, 1, 0, 0), r is Ok),
            r matches Ok(w) ==> w.spec_modulus() == x.spec_modulus(),
    {
        if self.count(0, 0, 1, 0, 0) {
            Ok(AnalyzerItem { modulus: x.modulus })
        } else {
            Err(overflow())
        }
    }

    /// Counts one AND.
    fn and(&mut self, x: &AnalyzerItem, y: &AnalyzerItem) -> (r: core::result::Result<
        AnalyzerItem,
        AnalyzerError,
    >)
        ensures
            counted(*old(self), *final(self), (0, 1, 0, 0, 0), r is Ok),
            r matches Ok(w) ==> w.spec_modulus() == x.spec_modulus(),
    {
        if self.count(0, 1, 0, 0, 0) {
            Ok(AnalyzerItem { modulus: x.modulus })
        } else {
            Err(overflow())
        }
    }

    /// Counts one negation.
    fn negate(&mut self, x: &AnalyzerItem) -> (r: core::result::Result<AnalyzerItem, AnalyzerError>)
        ensures
            counted(*old(self), *final(self), (0, 0, 0, 1, 0), r is Ok),
            r matches Ok(w) ==> w.spec_modulus() == x.spec_modulus(),
    {
        if self.count(0, 0, 0, 1, 0) {
            Ok(AnalyzerItem { modulus: x.modulus })
        } else {
            Err(overflow())
        }
    }

    /// Counts one AND and three negations.
    fn or(&mut self, x: &AnalyzerItem, y: &AnalyzerItem) -> (r: core::result::Result<
        AnalyzerItem,
        AnalyzerError,
    >)
        ensures
            counted(*old(self), *final(self), or_cost(1), r is Ok),
            r matches Ok(w) ==> w.spec_modulus() == x.spec_modulus(),
    {
        if self.count(0, 1, 0, 3, 0) {
            Ok(AnalyzerItem { modulus: x.modulus })
        } else {
            Err(overflow())
        }
    }

    /// Counts two ANDs and five XORs.
    fn adder(&mut self, x: &AnalyzerItem, y: &AnalyzerItem, carry_in: Option<&AnalyzerItem>) -> (r:
        core::result::Result<(AnalyzerItem, AnalyzerItem), AnalyzerError>)
        ensures
            counted(*old(self), *final(self), adder_cost(), r is Ok),
            r matches Ok(w) ==> w.0.spec_modulus() == x.spec_modulus() && w.1.spec_modulus()
                == x.spec_modulus(),
    {
        if self.count(0, 2, 5, 0, 0) {
            Ok((AnalyzerItem { modulus: x.modulus }, AnalyzerItem { modulus: x.modulus }))
        } else {
            Err(overflow())
        }
    }

    /// Counts one AND per wire.
    fn and_many(&mut self, args: &[AnalyzerItem]) -> (r: core::result::Result<
        AnalyzerItem,
        AnalyzerError,
    >)
        ensures
            counted(*old(self), *final(self), (0, args@.len(), 0, 0, 0), r is Ok),
            r matches Ok(w) ==> w.spec_modulus() == args@[0].spec_modulus(),
    {
        if self.count(0, args.len(), 0, 0, 0) {
            Ok(AnalyzerItem { modulus: args[0].modulus })
        } else {
            Err(overflow())
        }
    }

    /// Counts one AND and three negations per wire.
    fn or_many(&mut self, args: &[AnalyzerItem]) -> (r: core::result::Result<
        AnalyzerItem,
        AnalyzerError,
    >)
        ensures
            counted(*old(self), *final(self), or_cost(args@.len()), r is Ok),
            r matches Ok(w) ==> w.spec_modulus() == args@[0].spec_modulus(),
    {
        let n = args.len();
        if n > usize::MAX / 3 {
            proof {
                assert(3 * n > usize::MAX - self.nnegs) by (nonlinear_arith)
                    requires n > usize::MAX / 3, self.nnegs >= 0;
            }
            return Err(overflow());
        }
        if self.count(0, n, 0, 3 * n, 0) {
            Ok(AnalyzerItem { modulus: args[0].modulus })
        } else {
            Err(overflow())
        }
    }

    /// Counts one XOR per wire.
    fn xor_many(&mut self, args: &[AnalyzerItem]) -> (r: core::result::Result<
        AnalyzerItem,
        AnalyzerError,
    >)
        ensures
            counted(*old(self), *final(self), (0, 0, args@.len(), 0, 0), r is Ok),
            r matches Ok(w) ==> w.spec_modulus() == args@[0].spec_modulus(),
    {
        if self.count(0, 0, args.len(), 0, 0) {
            Ok(AnalyzerItem { modulus: args[0].modulus })
        } else {
            Err(overflow())
        }
    }

    /// Counts one negation and two constants.
    fn mux_constant_bits(&mut self, x: &AnalyzerItem, b1: bool, b2: bool) -> (r:
        core::result::Result<AnalyzerItem, AnalyzerError>)
        ensures
            counted(*old(self), *final(self), mux_constant_bits_cost(), r is Ok),
            r matches Ok(w) ==> w.spec_modulus() == x.spec_modulus(),
    {
        if self.count(0, 0, 0, 1, 2) {
            Ok(AnalyzerItem { modulus: x.modulus })
        } else {
            Err(overflow())
        }
    }

    /// Counts one AND and two XORs; the wire has the modulus of `x`.
    fn mux(&mut self, b: &AnalyzerItem, x: &AnalyzerItem, y: &AnalyzerItem) -> (r:
        core::result::Result<AnalyzerItem, AnalyzerError>)
        ensures
            counted(*old(self), *final(self), mux_cost(), r is Ok),
            r matches Ok(w) ==> w.spec_modulus() == x.spec_modulus(),
    {
        if self.count(0, 1, 2, 0, 0) {
            Ok(AnalyzerItem { modulus: x.modulus })
        } else {
            Err(overflow())
        }
    }
}

impl FancyReveal for Analyzer {
    /// The analyzer reveals nothing: the value is always 0.
    fn reveal_wire(&mut self, x: &AnalyzerItem) -> (r: core::result::Result<u16, AnalyzerError>)
        ensures
            r == core::result::Result::<u16, AnalyzerError>::Ok(0),
            *final(self) == *old(self),
    {
        Ok(0)
    }
}

} // verus!
