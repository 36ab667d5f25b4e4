//! The shape of Intel's intrinsics guide (an XML document): a list of
//! intrinsics, each with its name, whether it is an instruction sequence,
//! the CPU features it needs and the instructions it may compile to.
use vstd::prelude::*;

verus! {

/// The root of the intrinsics document.
pub struct Root {
    /// The intrinsics listed.
    pub intrinsic: Vec<Intrinsic>,
}

/// One intrinsic of the document.
pub struct Intrinsic {
    /// The intrinsic's name.
    pub name: String,
    /// Whether the intrinsic is an instruction sequence, if the document
    /// says.
    pub sequence: Option<bool>,
    /// The CPU features the intrinsic needs, if listed.
    pub cpuid: Option<Vec<String>>,
    /// The instructions the intrinsic may compile to, if listed.
    pub instruction: Option<Vec<Instruction>>,
}

/// An instruction an intrinsic may compile to.
pub struct Instruction {
    /// The instruction's mnemonic.
    pub name: String,
    /// The instruction's operand form, if given.
    pub form: Option<String>,
}

} // verus!
