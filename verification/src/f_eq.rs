//! An equality check between the inputs of two parties.
//!
//! Both parties hash their input with SHA-256. The prover commits to its
//! digest with a random salt and sends the commitment; the verifier sends
//! its digest; the prover sends its salt. Each party accepts when the
//! commitment equals the salted hash of the verifier's digest.
use vstd::prelude::*;
use sha2::Digest;
use crate::error::{Error, ErrorKind, format_err};
use crate::party::{GenericParty, PartyPrivate, Prover, is_full};

verus! {

#[verifier::external_type_specification]
#[verifier::external_body]
pub struct ExSha256(sha2::Sha256);

/// The SHA-256 digest of `data`.
pub uninterp spec fn sha256(data: Seq<u8>) -> Seq<u8>;

/// The bytes a SHA-256 hasher has absorbed so far.
pub uninterp spec fn sha256_absorbed(h: sha2::Sha256) -> Seq<u8>;

/// A fresh hasher (`Digest::new`).
///
/// Claims: it has absorbed nothing.
#[verifier::external_body]
fn sha256_new() -> (h: sha2::Sha256)
    ensures
        sha256_absorbed(h) == Seq::<u8>::empty(),
{
    sha2::Sha256::new()
}

/// Feed bytes to a hasher (`Digest::update`).
///
/// Claims: the hasher has absorbed `data` after what it absorbed before.
#[verifier::external_body]
fn sha256_update(h: &mut sha2::Sha256, data: &[u8])
    ensures
        sha256_absorbed(*final(h)) == sha256_absorbed(*old(h)) + data@,
{
    h.update(data)
}

/// The digest of what a hasher absorbed (`Digest::finalize`).
///
/// Claims: it is `sha256` of all the absorbed bytes, in order.
#[verifier::external_body]
fn sha256_finalize(h: sha2::Sha256) -> (r: [u8; 32])
    ensures
        r@ == sha256(sha256_absorbed(h)),
{
    h.finalize().into()
}

/// The commitment to `digest` under `salt`: the hash of the digest followed
/// by the salt.
pub open spec fn salted(digest: Seq<u8>, salt: Seq<u8>) -> Seq<u8> {
    sha256(digest + salt)
}

/// The hash of `digest` followed by `salt`.
pub fn salted_hash(digest: &[u8; 32], salt: &[u8; 32]) -> (r: [u8; 32])
    ensures
        r@ == salted(digest@, salt@),
{
    let mut h = sha256_new();
    sha256_update(&mut h, digest.as_slice());
    sha256_update(&mut h, salt.as_slice());
    proof {
        assert(sha256_absorbed(h) =~= digest@ + salt@);
    }
    sha256_finalize(h)
}

/// Whether two 32-byte strings are equal.
fn bytes32_eq(a: &[u8; 32], b: &[u8; 32]) -> (r: bool)
    ensures
        r == (a@ == b@),
{
    let mut i: usize = 0;
    while i < 32
        invariant
            i <= 32,
            forall|j: int| 0 <= j < i ==> a@[j] == b@[j],
        decreases 32 - i,
    {
        if a[i] != b[i] {
            return false;
        }
        i = i + 1;
    }
    proof {
        assert(a@ =~= b@);
    }
    true
}

/// The outcome of the final check: accept when `commitment` is the salted
/// hash of `digest` under `salt`.
pub fn check_commitment(commitment: &[u8; 32], digest: &[u8; 32], salt: &[u8; 32]) -> (r:
    crate::error::Result<()>)
    ensures
        r is Ok <==> commitment@ == salted(digest@, salt@),
        r matches Err(e) ==> e.spec_kind() == ErrorKind::OtherError && e.spec_message()
            == "Validation check failed"@,
{
    let expected = salted_hash(digest, salt);
    if bytes32_eq(commitment, &expected) {
        Ok(())
    } else {
        Err(format_err(ErrorKind::OtherError, "Validation check failed"))
    }
}

/// The state of one party of the equality check: the hash of its inputs
/// so far and (for the prover) its commitment salt.
pub struct EqualityFunctionality<P: GenericParty> {
    hash: sha2::Sha256,
    commitment_salt: PartyPrivate<Prover, P, [u8; 32]>,
}

impl<P: GenericParty> EqualityFunctionality<P> {
    /// The inputs absorbed so far.
    pub closed spec fn spec_input(&self) -> Seq<u8> {
        sha256_absorbed(self.hash)
    }

    /// The prover's commitment salt.
    pub closed spec fn spec_salt(&self) -> Seq<u8> {
        self.commitment_salt.spec_value()->0@
    }

    /// The state is consistent.
    pub closed spec fn wf(&self) -> bool {
        self.commitment_salt.wf()
    }

    /// A fresh check with no input. The prover keeps `salt` (which must be
    /// random) as its commitment salt; the verifier ignores it.
    pub fn new(salt: [u8; 32]) -> (f: Self)
        ensures
            f.wf(),
            f.spec_input() == Seq::<u8>::empty(),
            is_full::<Prover, P>() ==> f.spec_salt() == salt@,
    {
        EqualityFunctionality { hash: sha256_new(), commitment_salt: PartyPrivate::new(salt) }
    }

    /// Add `value` to the input being compared.
    pub fn input(&mut self, value: &[u8])
        requires
            old(self).wf(),
        ensures
            final(self).wf(),
            final(self).spec_input() == old(self).spec_input() + value@,
            final(self).spec_salt() == old(self).spec_salt(),
    {
        sha256_update(&mut self.hash, value);
    }

    /// The digest of the input; the verifier sends it to the prover.
    pub fn digest(self) -> (d: [u8; 32])
        ensures
            d@ == sha256(self.spec_input()),
    {
        sha256_finalize(self.hash)
    }

    /// The prover's first message, its commitment to its digest, together
    /// with its salt (its third message).
    pub fn prover_commit(self) -> (r: ([u8; 32], [u8; 32]))
        requires
            self.wf(),
            is_full::<Prover, P>(),
        ensures
            r.1@ == self.spec_salt(),
            r.0@ == salted(sha256(self.spec_input()), self.spec_salt()),
    {
        let salt = self.commitment_salt.into_inner();
        let d = sha256_finalize(self.hash);
        (salted_hash(&d, &salt), salt)
    }
}

/// An honest run with equal inputs is accepted by both parties: the
/// prover, checking its commitment against the verifier's digest and its
/// own salt, and the verifier, checking the commitment it received against
/// its digest and the salt it received, compute the same comparison.
pub proof fn equal_inputs_accept(prover_input: Seq<u8>, verifier_input: Seq<u8>, salt: Seq<u8>)
    requires
        prover_input == verifier_input,
    ensures
        salted(sha256(prover_input), salt) == salted(sha256(verifier_input), salt),
{
}

} // verus!
