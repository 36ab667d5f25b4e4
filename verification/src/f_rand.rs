//! Agreeing on a random seed by coin tossing.
//!
//! The prover commits to its seed with BLAKE3 and sends the commitment; the
//! verifier sends its seed; the prover opens its seed. The verifier checks
//! the opening against the commitment, and both take the XOR of the two
//! seeds.
use vstd::prelude::*;
use crate::block::{U8x16, xor_bytes, xor_u8x16};
use crate::error::{ErrorKind, format_err};

verus! {

/// The BLAKE3 hash of `data`.
pub uninterp spec fn blake3(data: Seq<u8>) -> Seq<u8>;

/// Hashes `data` with BLAKE3 (`Hasher::new`, `update`, `finalize`).
///
/// Claims: the 32-byte result is `blake3(data)`, a function of `data`
/// alone.
#[verifier::external_body]
fn blake3_hash(data: &[u8]) -> (r: [u8; 32])
    ensures
        r@ == blake3(data@),
{
    let mut hasher = blake3::Hasher::new();
    hasher.update(data);
    (*hasher.finalize().as_bytes())
}

/// The commitment to a seed that the prover sends first.
pub fn commit_seed(seed: &U8x16) -> (c: [u8; 32])
    ensures
        c@ == blake3(seed@),
{
    blake3_hash(seed.as_slice())
}

/// The verifier's check of the prover's opened seed against the commitment
/// it received.
pub fn check_seed(commitment: &[u8; 32], seed_theirs: &U8x16) -> (r: crate::error::Result<()>)
    ensures
        r is Ok <==> commitment@ == blake3(seed_theirs@),
        r matches Err(e) ==> e.spec_kind() == ErrorKind::CorrelationFailure && e.spec_message()
            == "Commitment check failed"@,
{
    let c = commit_seed(seed_theirs);
    let mut i: usize = 0;
    while i < 32
        invariant
            i <= 32,
            c@ == blake3(seed_theirs@),
            forall|j: int| 0 <= j < i ==> c@[j] == commitment@[j],
        decreases 32 - i,
    {
        if c[i] != commitment[i] {
            assert(c@[i as int] != commitment@[i as int]);
            return Err(format_err(ErrorKind::CorrelationFailure, "Commitment check failed"));
        }
        i = i + 1;
    }
    proof {
        assert(c@ =~= commitment@);
    }
    Ok(())
}

/// The agreed seed: the XOR of this party's seed and the other party's.
pub fn combine_seeds(seed_mine: &U8x16, seed_theirs: &U8x16) -> (s: U8x16)
    ensures
        s@ == xor_bytes(seed_mine@, seed_theirs@),
{
    xor_u8x16(seed_mine, seed_theirs)
}

/// Both parties agree on the seed: what each computes from its own seed and
/// the other's is the same.
pub proof fn seeds_agree(prover_seed: Seq<u8>, verifier_seed: Seq<u8>)
    requires
        prover_seed.len() == 16,
        verifier_seed.len() == 16,
    ensures
        xor_bytes(prover_seed, verifier_seed) == xor_bytes(verifier_seed, prover_seed),
{
    assert forall|i: int| 0 <= i < 16 implies #[trigger] xor_bytes(prover_seed, verifier_seed)[i]
        == xor_bytes(verifier_seed, prover_seed)[i] by {
        let a = prover_seed[i];
        let b = verifier_seed[i];
        assert(a ^ b == b ^ a) by (bit_vector);
    }
    assert(xor_bytes(prover_seed, verifier_seed) =~= xor_bytes(verifier_seed, prover_seed));
}

} // verus!
