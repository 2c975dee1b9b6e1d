use poe::{AccountId, Error, Event, Pallet};

const ALICE: AccountId = 1;
const BOB: AccountId = 2;
const CAROL: AccountId = 3;

fn abc() -> Vec<u8> {
    b"abc".to_vec()
}

/// The registry after Alice claimed "abc" at sequence 10.
fn claimed_by_alice() -> Pallet {
    let mut p = Pallet::new();
    assert_eq!(p.create_claim(ALICE, abc(), 10), Ok(Event::ClaimCreated(ALICE, abc())));
    p
}

#[test]
fn create_records_caller_and_sequence() {
    let p = claimed_by_alice();
    assert_eq!(p.len(), 1);
    assert_eq!(p.proofs(&abc()), Some((ALICE, 10)));
}

#[test]
fn transfer_keeps_creation_sequence() {
    let mut p = claimed_by_alice();
    assert_eq!(
        p.transfer_claim(ALICE, abc(), BOB),
        Ok(Event::ClaimOwnerChanged(ALICE, BOB, abc()))
    );
    assert_eq!(p.len(), 1);
    assert_eq!(p.proofs(&abc()), Some((BOB, 10)));
}

#[test]
fn former_owner_cannot_transfer() {
    let mut p = claimed_by_alice();
    p.transfer_claim(ALICE, abc(), BOB).unwrap();
    assert_eq!(p.transfer_claim(ALICE, abc(), CAROL), Err(Error::Unauthorized));
    assert_eq!(p.len(), 1);
    assert_eq!(p.proofs(&abc()), Some((BOB, 10)));
}

#[test]
fn owner_removes_claim() {
    let mut p = claimed_by_alice();
    p.transfer_claim(ALICE, abc(), BOB).unwrap();
    assert_eq!(p.remove_claim(BOB, abc()), Ok(Event::ClaimRemoved(BOB, abc())));
    assert_eq!(p.len(), 0);
    assert_eq!(p.proofs(&abc()), None);
}

#[test]
fn second_removal_not_found() {
    let mut p = claimed_by_alice();
    p.transfer_claim(ALICE, abc(), BOB).unwrap();
    p.remove_claim(BOB, abc()).unwrap();
    assert_eq!(p.remove_claim(BOB, abc()), Err(Error::NotFound));
    assert_eq!(p.len(), 0);
}

#[test]
fn create_on_claimed_fails_for_anyone() {
    let mut p = claimed_by_alice();
    assert_eq!(p.create_claim(ALICE, abc(), 11), Err(Error::AlreadyExists));
    assert_eq!(p.create_claim(BOB, abc(), 12), Err(Error::AlreadyExists));
    assert_eq!(p.len(), 1);
    assert_eq!(p.proofs(&abc()), Some((ALICE, 10)));
}

#[test]
fn unclaimed_not_found() {
    let mut p = claimed_by_alice();
    let other = b"abd".to_vec();
    assert_eq!(p.remove_claim(ALICE, other.clone()), Err(Error::NotFound));
    assert_eq!(p.transfer_claim(ALICE, other.clone(), BOB), Err(Error::NotFound));
    assert_eq!(p.len(), 1);
    assert_eq!(p.proofs(&other), None);
    assert_eq!(p.proofs(&abc()), Some((ALICE, 10)));
}

#[test]
fn non_owner_unauthorized() {
    let mut p = claimed_by_alice();
    assert_eq!(p.remove_claim(BOB, abc()), Err(Error::Unauthorized));
    assert_eq!(p.transfer_claim(BOB, abc(), BOB), Err(Error::Unauthorized));
    assert_eq!(p.len(), 1);
    assert_eq!(p.proofs(&abc()), Some((ALICE, 10)));
}

#[test]
fn create_transfer_remove_round_trip() {
    let mut p = Pallet::new();
    let f = vec![0u8, 255, 7];
    assert!(p.create_claim(ALICE, f.clone(), 5).is_ok());
    assert!(p.transfer_claim(ALICE, f.clone(), BOB).is_ok());
    assert!(p.remove_claim(BOB, f.clone()).is_ok());
    assert_eq!(p.proofs(&f), None);
    assert_eq!(p.len(), 0);
}

#[test]
fn removed_fingerprint_can_be_claimed_again() {
    let mut p = claimed_by_alice();
    p.remove_claim(ALICE, abc()).unwrap();
    assert_eq!(p.create_claim(CAROL, abc(), 99), Ok(Event::ClaimCreated(CAROL, abc())));
    assert_eq!(p.proofs(&abc()), Some((CAROL, 99)));
}

#[test]
fn fingerprints_compared_byte_for_byte() {
    let mut p = Pallet::new();
    assert!(p.create_claim(ALICE, b"ab".to_vec(), 1).is_ok());
    assert!(p.create_claim(BOB, b"abc".to_vec(), 2).is_ok());
    assert!(p.create_claim(CAROL, Vec::new(), 3).is_ok());
    assert_eq!(p.create_claim(CAROL, Vec::new(), 4), Err(Error::AlreadyExists));
    assert_eq!(p.len(), 3);
    assert_eq!(p.proofs(&b"ab".to_vec()), Some((ALICE, 1)));
    assert_eq!(p.proofs(&b"abc".to_vec()), Some((BOB, 2)));
    assert_eq!(p.proofs(&Vec::new()), Some((CAROL, 3)));
    assert_eq!(p.proofs(&b"a".to_vec()), None);
}

#[test]
fn removal_keeps_other_claims() {
    let mut p = Pallet::new();
    for (i, f) in [b"x".to_vec(), b"y".to_vec(), b"z".to_vec()].into_iter().enumerate() {
        assert!(p.create_claim(ALICE, f, i as u64).is_ok());
    }
    assert!(p.remove_claim(ALICE, b"x".to_vec()).is_ok());
    assert_eq!(p.proofs(&b"y".to_vec()), Some((ALICE, 1)));
    assert_eq!(p.proofs(&b"z".to_vec()), Some((ALICE, 2)));
    assert!(p.transfer_claim(ALICE, b"z".to_vec(), BOB).is_ok());
    assert_eq!(p.proofs(&b"z".to_vec()), Some((BOB, 2)));
    assert_eq!(p.proofs(&b"y".to_vec()), Some((ALICE, 1)));
    assert_eq!(p.len(), 2);
}

#[test]
fn largest_sequence_and_account() {
    let mut p = Pallet::new();
    assert!(p.create_claim(u64::MAX, abc(), u64::MAX).is_ok());
    assert_eq!(p.proofs(&abc()), Some((u64::MAX, u64::MAX)));
}
