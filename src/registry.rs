//! The claim table and its three operations. Each operation is all or
//! nothing: a rejected request leaves the table as it was. The sequence
//! recorded with a claim is the one current when it was created; a transfer
//! keeps it.

use vstd::prelude::*;

use crate::types::{bytes_eq, outcome, AccountId, BlockNumber, Error, Event, EventModel};

verus! {

/// The logical table: fingerprint to `(owner, sequence)`.
pub type Table = Map<Seq<u8>, (AccountId, BlockNumber)>;

/// Creating a claim on `f` for `caller` at sequence `now`: the new table and
/// the operation's result.
pub open spec fn create_step(t: Table, caller: AccountId, f: Seq<u8>, now: BlockNumber) -> (
    Table,
    Result<EventModel, Error>,
) {
    if t.contains_key(f) {
        (t, Err(Error::AlreadyExists))
    } else {
        (t.insert(f, (caller, now)), Ok(EventModel::ClaimCreated(caller, f)))
    }
}

/// Removing the claim on `f` at the request of `caller`.
pub open spec fn remove_step(t: Table, caller: AccountId, f: Seq<u8>) -> (
    Table,
    Result<EventModel, Error>,
) {
    if !t.contains_key(f) {
        (t, Err(Error::NotFound))
    } else if t[f].0 != caller {
        (t, Err(Error::Unauthorized))
    } else {
        (t.remove(f), Ok(EventModel::ClaimRemoved(caller, f)))
    }
}

/// Handing the claim on `f` from `caller` to `new_owner`. The recorded
/// sequence is kept: a claim's age is fixed when it is created.
pub open spec fn transfer_step(t: Table, caller: AccountId, f: Seq<u8>, new_owner: AccountId) -> (
    Table,
    Result<EventModel, Error>,
) {
    if !t.contains_key(f) {
        (t, Err(Error::NotFound))
    } else if t[f].0 != caller {
        (t, Err(Error::Unauthorized))
    } else {
        (
            t.insert(f, (new_owner, t[f].1)),
            Ok(EventModel::ClaimOwnerChanged(t[f].0, new_owner, f)),
        )
    }
}

/// The claim registry. Entry `i` binds `keys[i]` to `records[i]`; no
/// fingerprint occurs twice.
pub struct Pallet {
    keys: Vec<Vec<u8>>,
    records: Vec<(AccountId, BlockNumber)>,
    table: Ghost<Table>,
}

impl View for Pallet {
    type V = Table;

    closed spec fn view(&self) -> Table {
        self.table@
    }
}

impl Pallet {
    /// The stored entries and the table agree, and fingerprints are unique.
    pub closed spec fn wf(&self) -> bool {
        &&& self.keys.len() == self.records.len()
        &&& self.table@.dom().finite()
        &&& self.table@.len() == self.keys.len()
        &&& forall|i: int, j: int|
            0 <= i < j < self.keys.len() ==> self.keys[i]@ != self.keys[j]@
        &&& forall|i: int|
            0 <= i < self.keys.len() ==> #[trigger] self.table@.contains_key(self.keys[i]@)
                && self.table@[self.keys[i]@] == self.records[i]
        &&& forall|k: Seq<u8>|
            #[trigger] self.table@.contains_key(k) ==> exists|i: int|
                0 <= i < self.keys.len() && self.keys[i]@ == k
    }

    /// An empty registry.
    pub fn new() -> (r: Self)
        ensures
            r.wf(),
            r@ == Table::empty(),
    {
        Pallet { keys: Vec::new(), records: Vec::new(), table: Ghost(Map::empty()) }
    }

    /// The number of claims.
    pub fn len(&self) -> (r: usize)
        requires
            self.wf(),
        ensures
            r == self@.len(),
    {
        self.keys.len()
    }

    /// The index at which `claim` is stored, if any.
    fn find(&self, claim: &Vec<u8>) -> (r: Option<usize>)
        requires
            self.wf(),
        ensures
            match r {
                Some(i) => i < self.keys.len() && self.keys[i as int]@ == claim@,
                None => !self@.contains_key(claim@),
            },
    {
        let mut i: usize = 0;
        while i < self.keys.len()
            invariant
                self.wf(),
                i <= self.keys.len(),
                forall|j: int| 0 <= j < i ==> self.keys[j]@ != claim@,
            decreases self.keys.len() - i,
        {
            if bytes_eq(&self.keys[i], claim) {
                return Some(i);
            }
            i += 1;
        }
        None
    }

    /// The owner and sequence recorded for `claim`, if it is claimed.
    pub fn proofs(&self, claim: &Vec<u8>) -> (r: Option<(AccountId, BlockNumber)>)
        requires
            self.wf(),
        ensures
            r == (if self@.contains_key(claim@) {
                Some(self@[claim@])
            } else {
                None
            }),
    {
        match self.find(claim) {
            Some(i) => Some(self.records[i]),
            None => None,
        }
    }
    /// Claims `claim` for `caller`, recording the current sequence `now`.
    /// Fails with `AlreadyExists`, changing nothing, if `claim` is claimed.
    pub fn create_claim(&mut self, caller: AccountId, claim: Vec<u8>, now: BlockNumber) -> (r:
        Result<Event, Error>)
        requires
            old(self).wf(),
        ensures
            final(self).wf(),
            (final(self)@, outcome(r)) == create_step(old(self)@, caller, claim@, now),
    {
        if self.find(&claim).is_some() {
            return Err(Error::AlreadyExists);
        }
        let key = claim.clone();
        proof {
            self.table@ = self.table@.insert(claim@, (caller, now));
        }
        self.keys.push(key);
        self.records.push((caller, now));
        proof {
            let n = self.keys.len() - 1;
            assert forall|k: Seq<u8>| #[trigger] self.table@.contains_key(k) implies exists|i: int|
                0 <= i < self.keys.len() && self.keys[i]@ == k by {
                if k == claim@ {
                    assert(self.keys[n]@ == k);
                } else {
                    assert(old(self).table@.contains_key(k));
                    let i = choose|i: int| 0 <= i < old(self).keys.len() && old(self).keys[i]@ == k;
                    assert(self.keys[i]@ == k);
                }
            }
        }
        Ok(Event::ClaimCreated(caller, claim))
    }
    /// Removes the claim on `claim`, which `caller` must own. Fails with
    /// `NotFound` if it is not claimed and with `Unauthorized` if another
    /// account owns it; either failure changes nothing.
    pub fn remove_claim(&mut self, caller: AccountId, claim: Vec<u8>) -> (r: Result<Event, Error>)
        requires
            old(self).wf(),
        ensures
            final(self).wf(),
            (final(self)@, outcome(r)) == remove_step(old(self)@, caller, claim@),
    {
        let i = match self.find(&claim) {
            Some(i) => i,
            None => {
                return Err(Error::NotFound);
            },
        };
        let (owner, _) = self.records[i];
        if owner != caller {
            return Err(Error::Unauthorized);
        }
        proof {
            self.table@ = self.table@.remove(claim@);
        }
        self.keys.remove(i);
        self.records.remove(i);
        proof {
            let ok = old(self).keys@;
            assert forall|j: int| 0 <= j < self.keys.len() implies self.keys[j]@ != claim@ by {
                if j < i {
                    assert(ok[j]@ != ok[i as int]@);
                } else {
                    assert(ok[i as int]@ != ok[j + 1]@);
                }
            }
            assert forall|k: Seq<u8>| #[trigger] self.table@.contains_key(k) implies exists|j: int|
                0 <= j < self.keys.len() && self.keys[j]@ == k by {
                assert(old(self).table@.contains_key(k));
                let j = choose|j: int| 0 <= j < ok.len() && ok[j]@ == k;
                if j < i {
                    assert(self.keys[j]@ == k);
                } else {
                    assert(j != i);
                    assert(self.keys[j - 1]@ == k);
                }
            }
        }
        Ok(Event::ClaimRemoved(caller, claim))
    }

    /// Hands the claim on `claim` from `caller` to `new_owner`, keeping the
    /// sequence recorded when it was created. Fails as `remove_claim` does.
    pub fn transfer_claim(&mut self, caller: AccountId, claim: Vec<u8>, new_owner: AccountId) -> (r:
        Result<Event, Error>)
        requires
            old(self).wf(),
        ensures
            final(self).wf(),
            (final(self)@, outcome(r)) == transfer_step(old(self)@, caller, claim@, new_owner),
    {
        let i = match self.find(&claim) {
            Some(i) => i,
            None => {
                return Err(Error::NotFound);
            },
        };
        let (owner, sequence) = self.records[i];
        if owner != caller {
            return Err(Error::Unauthorized);
        }
        proof {
            self.table@ = self.table@.insert(claim@, (new_owner, sequence));
        }
        self.records.set(i, (new_owner, sequence));
        proof {
            assert forall|k: Seq<u8>| #[trigger] self.table@.contains_key(k) implies exists|j: int|
                0 <= j < self.keys.len() && self.keys[j]@ == k by {
                if k == claim@ {
                    assert(self.keys[i as int]@ == k);
                } else {
                    assert(old(self).table@.contains_key(k));
                }
            }
            assert forall|j: int| 0 <= j < self.keys.len() implies #[trigger] self.table@.contains_key(
                self.keys[j]@) && self.table@[self.keys[j]@] == self.records[j] by {
                if j != i {
                    assert(self.keys[j]@ != self.keys[i as int]@);
                }
            }
            assert(self.table@.dom() =~= old(self).table@.dom());
        }
        Ok(Event::ClaimOwnerChanged(owner, new_owner, claim))
    }
}

} // verus!
