use swanky::party::{
    private_which, GenericParty, GenericWhichParty, PartyPrivate, PrivateToOtherParty, PrivateWhich,
    Prover, Verifier,
};

#[test]
fn private_to_other_party_ref_mut_doesnt_leak() {
    assert_eq!(
        PrivateToOtherParty::ref_mut(),
        PrivateToOtherParty::ref_mut()
    );
    // A leaked zero-sized box is never allocated: its address is the
    // type's alignment, the dangling address.
    assert_eq!(
        format!("{:p}", PrivateToOtherParty::ref_mut()),
        format!("{:#x}", std::mem::align_of::<PrivateToOtherParty>())
    );
}

#[test]
fn private_which_exhaustive() {
    assert!(matches!(private_which::<Prover, Prover>(), PrivateWhich::Full(())));
    assert!(matches!(private_which::<Verifier, Verifier>(), PrivateWhich::Full(())));
    assert!(matches!(private_which::<Prover, Verifier>(), PrivateWhich::Empty(())));
    assert!(matches!(private_which::<Verifier, Prover>(), PrivateWhich::Empty(())));
}

#[test]
fn generic_which_of_parties() {
    assert_eq!(Prover::generic_which(), GenericWhichParty::Party0);
    assert_eq!(Verifier::generic_which(), GenericWhichParty::Party1);
}

#[test]
fn zip_full() {
    let p1: PartyPrivate<Prover, Prover, i32> = PartyPrivate::new(17);
    let p2: PartyPrivate<Prover, Prover, i32> = PartyPrivate::new(17);
    assert_eq!(p1.zip(p2).into_option(), Some((17, 17)));
}

#[test]
fn zip_empty() {
    let p1: PartyPrivate<Prover, Verifier, i32> = PartyPrivate::empty();
    let p2: PartyPrivate<Prover, Verifier, i32> = PartyPrivate::empty();
    assert_eq!(p1.zip(p2).into_option(), None);
}

#[test]
fn into_option_full() {
    assert!(PartyPrivate::<Prover, Prover, _>::new(17).into_option().is_some());
}

#[test]
fn into_option_empty() {
    assert!(PartyPrivate::<Prover, Verifier, _>::new(17).into_option().is_none());
}

#[test]
fn lift_result_full() {
    let p: PartyPrivate<Prover, Prover, Result<i32, ()>> = PartyPrivate::new(Ok(17));
    assert!(p.lift_result().is_ok());

    let p: PartyPrivate<Prover, Prover, Result<i32, ()>> = PartyPrivate::new(Err(()));
    assert!(p.lift_result().is_err());
}

#[test]
fn lift_result_empty() {
    let p: PartyPrivate<Prover, Verifier, Result<i32, ()>> = PartyPrivate::new(Err(()));
    assert!(p.lift_result().is_ok());
}

#[test]
fn private_to_option() {
    assert!(PartyPrivate::<Prover, Prover, i32>::new(17).into_option().is_some());
    assert!(PartyPrivate::<Prover, Verifier, i32>::new(17).into_option().is_none());
}

#[test]
fn into_inner_and_unwrap_or() {
    assert_eq!(PartyPrivate::<Verifier, Verifier, u8>::new(5).into_inner(), 5);
    assert_eq!(PartyPrivate::<Verifier, Verifier, u8>::new(5).unwrap_or(9), 5);
    assert_eq!(PartyPrivate::<Verifier, Prover, u8>::new(5).unwrap_or(9), 9);
}

#[test]
fn as_mut_full() {
    let mut p = PartyPrivate::<Prover, Prover, i32>::new(17);
    *p.as_mut().into_option().unwrap() = 71;
    assert_eq!(p.into_option(), Some(71));
}

#[test]
fn as_mut_empty() {
    let mut p = PartyPrivate::<Prover, Verifier, i32>::empty();
    let mut other = 0;
    *p.as_mut().unwrap_or(&mut other) = 13;
    assert_eq!(other, 13);
    assert!(p.into_option().is_none());
}

#[test]
fn zip_with_full() {
    let p1 = PartyPrivate::<Prover, Prover, i32>::new(17);
    let p2 = PartyPrivate::<Prover, Prover, i32>::new(71);
    let p3 = PartyPrivate::<Prover, Prover, i32>::new(88);
    assert!(p1.zip_with(p2, |n1, n2| n1 + n2) == p3);
}

#[test]
fn zip_with_empty() {
    let p1 = PartyPrivate::<Prover, Verifier, i32>::new(17);
    let p2 = PartyPrivate::<Prover, Verifier, i32>::new(71);
    assert!(p1.zip_with(p2, |n1, n2| n1 + n2) == PartyPrivate::<Prover, Verifier, i32>::empty());
}

#[test]
fn private_equality() {
    let a = PartyPrivate::<Prover, Prover, i32>::new(17);
    assert!(a == PartyPrivate::<Prover, Prover, i32>::new(17));
    assert!(a != PartyPrivate::<Prover, Prover, i32>::new(18));
    let e = PartyPrivate::<Prover, Verifier, i32>::new(17);
    assert!(e == PartyPrivate::<Prover, Verifier, i32>::new(18));
}

#[test]
fn mut_ref_private_to_private_mut_ref() {
    let mut p = PartyPrivate::<Prover, Prover, i32>::new(17);
    *p.as_mut().into_inner() = 71;
    assert_eq!(p.into_inner(), 71);
}

#[test]
fn private_mut_ref_to_mut_ref_private() {
    let mut x = 17;
    let p = PartyPrivate::<Prover, Prover, &mut i32>::new(&mut x);
    assert_eq!(*p.into_inner(), 17);
    let q = PartyPrivate::<Prover, Verifier, &mut i32>::empty();
    let mut other = 17;
    assert_eq!(*q.unwrap_or(&mut other), 17);
}
