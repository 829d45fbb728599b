use crate::state::{Call, ProxyError, ProxyState};
use vstd::prelude::*;

verus! {

/// An account that never registers has no worker record: after any sequence
/// of calls from a fresh state in which it never registers, looking it up
/// fails with `NotFound`.
pub proof fn lemma_unregistered_not_found(owner: Seq<char>, calls: Seq<Call>, account: Seq<char>)
    requires
        forall|k: int|
            0 <= k < calls.len() ==> !(#[trigger] calls[k] matches Call::Register { caller, .. }
                && caller == account),
    ensures
        ProxyState::initial(owner).run(calls).worker(account) == Err::<Seq<char>, ProxyError>(
            ProxyError::NotFound,
        ),
    decreases calls.len(),
{
    if calls.len() > 0 {
        let prefix = calls.drop_last();
        assert forall|k: int| 0 <= k < prefix.len() implies !(#[trigger] prefix[k] matches Call::Register {
            caller,
            ..
        } && caller == account) by {
            assert(prefix[k] == calls[k]);
        }
        lemma_unregistered_not_found(owner, prefix, account);
        assert(calls[calls.len() - 1] == calls.last());
    }
}

/// Once the owner approves a code hash it is in the approved set, and a
/// second approval of it by the owner leaves the state as it is.
pub proof fn lemma_approve_idempotent(s: ProxyState, codehash: Seq<char>)
    ensures
        s.owner_check(s.owner) == Ok::<(), ProxyError>(()),
        s.approve(s.owner, codehash).approved.contains(codehash),
        s.approve(s.owner, codehash).approve(s.owner, codehash) == s.approve(s.owner, codehash),
{
    let once = s.approve(s.owner, codehash);
    assert(once.approved.insert(codehash) =~= once.approved);
}

/// Any account other than the owner is refused with `NotAuthorized` when it
/// tries to approve, and the state, approved set included, stays as it was.
pub proof fn lemma_non_owner_cannot_approve(s: ProxyState, caller: Seq<char>, codehash: Seq<char>)
    requires
        caller != s.owner,
    ensures
        s.owner_check(caller) == Err::<(), ProxyError>(ProxyError::NotAuthorized),
        s.approve(caller, codehash) == s,
        s.approve(caller, codehash).approved == s.approved,
{
}

/// Registering twice keeps only the later code hash.
pub proof fn lemma_last_registration_wins(
    s: ProxyState,
    account: Seq<char>,
    first: Seq<char>,
    second: Seq<char>,
)
    ensures
        s.register(account, first).register(account, second).worker(account) == Ok::<
            Seq<char>,
            ProxyError,
        >(second),
{
}

/// A signature request is let through exactly when the caller has
/// registered a code hash that is currently approved; otherwise it is refused
/// with `NotFound` (never registered) or `NotApproved`.
pub proof fn lemma_signature_gate(s: ProxyState, caller: Seq<char>)
    ensures
        s.gate(caller) is Ok <==> (s.workers.contains_key(caller) && s.approved.contains(
            s.workers[caller],
        )),
        !s.workers.contains_key(caller) ==> s.gate(caller) == Err::<(), ProxyError>(
            ProxyError::NotFound,
        ),
        s.workers.contains_key(caller) && !s.approved.contains(s.workers[caller]) ==> s.gate(
            caller,
        ) == Err::<(), ProxyError>(ProxyError::NotApproved),
{
}

} // verus!
