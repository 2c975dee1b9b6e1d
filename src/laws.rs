//! The general laws of the registry, stated over the model of its
//! operations that their contracts use.

use vstd::prelude::*;

use crate::registry::{create_step, remove_step, transfer_step, Table};
use crate::types::{AccountId, BlockNumber, Error, EventModel};

verus! {

/// Claiming an unclaimed fingerprint always succeeds: afterwards it is bound
/// to the caller and the sequence current at the call, and nothing else
/// changes.
pub proof fn lemma_create_unclaimed(t: Table, caller: AccountId, f: Seq<u8>, now: BlockNumber)
    requires
        !t.contains_key(f),
    ensures
        create_step(t, caller, f, now).1 == Ok::<EventModel, Error>(
            EventModel::ClaimCreated(caller, f),
        ),
        create_step(t, caller, f, now).0 == t.insert(f, (caller, now)),
        create_step(t, caller, f, now).0[f] == (caller, now),
{
}

/// Claiming a fingerprint that is already claimed fails with
/// `AlreadyExists`, whoever asks, and leaves the table as it was.
pub proof fn lemma_create_claimed(t: Table, caller: AccountId, f: Seq<u8>, now: BlockNumber)
    requires
        t.contains_key(f),
    ensures
        create_step(t, caller, f, now) == (t, Err::<EventModel, Error>(Error::AlreadyExists)),
{
}

/// Removing or transferring an unclaimed fingerprint fails with `NotFound`
/// and leaves the table as it was.
pub proof fn lemma_unclaimed_not_found(
    t: Table,
    caller: AccountId,
    f: Seq<u8>,
    new_owner: AccountId,
)
    requires
        !t.contains_key(f),
    ensures
        remove_step(t, caller, f) == (t, Err::<EventModel, Error>(Error::NotFound)),
        transfer_step(t, caller, f, new_owner) == (t, Err::<EventModel, Error>(Error::NotFound)),
{
}

/// Only the owner may change a claim: removing or transferring it at the
/// request of any other account fails with `Unauthorized` and leaves the
/// table as it was.
pub proof fn lemma_non_owner_unauthorized(
    t: Table,
    caller: AccountId,
    f: Seq<u8>,
    new_owner: AccountId,
)
    requires
        t.contains_key(f),
        t[f].0 != caller,
    ensures
        remove_step(t, caller, f) == (t, Err::<EventModel, Error>(Error::Unauthorized)),
        transfer_step(t, caller, f, new_owner) == (t, Err::<EventModel, Error>(
            Error::Unauthorized,
        )),
{
}

/// A transfer never changes a recorded sequence: whatever its outcome, each
/// fingerprint that is claimed afterwards was claimed before with the same
/// sequence, and the set of claimed fingerprints is unchanged.
pub proof fn lemma_transfer_keeps_sequence(
    t: Table,
    caller: AccountId,
    f: Seq<u8>,
    new_owner: AccountId,
)
    ensures
        transfer_step(t, caller, f, new_owner).0.dom() == t.dom(),
        forall|k: Seq<u8>| #[trigger]
            transfer_step(t, caller, f, new_owner).0.contains_key(k) ==> transfer_step(
                t,
                caller,
                f,
                new_owner,
            ).0[k].1 == t[k].1,
{
    let t2 = transfer_step(t, caller, f, new_owner).0;
    assert(t2.dom() =~= t.dom());
}

/// A claim's sequence is the one current when it was created, however many
/// transfers follow.
pub proof fn lemma_sequence_fixed_at_creation(
    t: Table,
    owner: AccountId,
    f: Seq<u8>,
    now: BlockNumber,
    caller: AccountId,
    new_owner: AccountId,
)
    requires
        !t.contains_key(f),
    ensures
        transfer_step(create_step(t, owner, f, now).0, caller, f, new_owner).0[f].1 == now,
{
}

/// Creating a claim, transferring it to another account and having that
/// account remove it all succeed, and leave the table as it was before.
pub proof fn lemma_create_transfer_remove(
    t: Table,
    a: AccountId,
    f: Seq<u8>,
    now: BlockNumber,
    b: AccountId,
)
    requires
        !t.contains_key(f),
    ensures
        ({
            let (t1, r1) = create_step(t, a, f, now);
            let (t2, r2) = transfer_step(t1, a, f, b);
            let (t3, r3) = remove_step(t2, b, f);
            &&& r1 == Ok::<EventModel, Error>(EventModel::ClaimCreated(a, f))
            &&& r2 == Ok::<EventModel, Error>(EventModel::ClaimOwnerChanged(a, b, f))
            &&& r3 == Ok::<EventModel, Error>(EventModel::ClaimRemoved(b, f))
            &&& !t3.contains_key(f)
            &&& t3 == t
        }),
{
    let t1 = t.insert(f, (a, now));
    let t2 = t1.insert(f, (b, now));
    assert(t2.remove(f) =~= t);
}

} // verus!
