use vstd::prelude::*;

verus! {

/// An account identity; opaque to the registry apart from equality.
pub type AccountId = u64;

/// A value of the externally supplied sequence counter (a block height).
pub type BlockNumber = u64;

/// Why an operation on the registry was rejected. A rejected operation
/// changes nothing.
#[derive(Clone, Copy, Debug, PartialEq, Eq, Structural)]
pub enum Error {
    /// The fingerprint is already claimed.
    AlreadyExists,
    /// The fingerprint is not claimed.
    NotFound,
    /// The caller is not the claim's owner.
    Unauthorized,
}

/// What a successful operation reports to observers.
#[derive(Debug, PartialEq, Eq)]
pub enum Event {
    /// `(owner, fingerprint)`
    ClaimCreated(AccountId, Vec<u8>),
    /// `(owner, fingerprint)`
    ClaimRemoved(AccountId, Vec<u8>),
    /// `(old_owner, new_owner, fingerprint)`
    ClaimOwnerChanged(AccountId, AccountId, Vec<u8>),
}

/// The mathematical value of an [`Event`]: fingerprints as byte sequences.
pub ghost enum EventModel {
    ClaimCreated(AccountId, Seq<u8>),
    ClaimRemoved(AccountId, Seq<u8>),
    ClaimOwnerChanged(AccountId, AccountId, Seq<u8>),
}

impl View for Event {
    type V = EventModel;

    open spec fn view(&self) -> EventModel {
        match self {
            Event::ClaimCreated(o, f) => EventModel::ClaimCreated(*o, f@),
            Event::ClaimRemoved(o, f) => EventModel::ClaimRemoved(*o, f@),
            Event::ClaimOwnerChanged(a, b, f) => EventModel::ClaimOwnerChanged(*a, *b, f@),
        }
    }
}

/// The model of an operation's result.
pub open spec fn outcome(r: Result<Event, Error>) -> Result<EventModel, Error> {
    match r {
        Ok(e) => Ok(e@),
        Err(x) => Err(x),
    }
}

/// Byte-wise equality of two fingerprints.
pub fn bytes_eq(a: &Vec<u8>, b: &Vec<u8>) -> (r: bool)
    ensures
        r == (a@ == b@),
{
    if a.len() != b.len() {
        return false;
    }
    let mut i: usize = 0;
    while i < a.len()
        invariant
            a.len() == b.len(),
            i <= a.len(),
            forall|j: int| 0 <= j < i ==> a@[j] == b@[j],
        decreases a.len() - i,
    {
        if a[i] != b[i] {
            return false;
        }
        i += 1;
    }
    assert(a@ =~= b@);
    true
}

} // verus!
