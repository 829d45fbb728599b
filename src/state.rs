use vstd::prelude::*;

verus! {

/// Why an operation was refused.
#[derive(Clone, Copy, Debug, PartialEq, Eq, Structural)]
pub enum ProxyError {
    /// An owner-only operation was invoked by another account.
    NotAuthorized,
    /// The account has never registered as a worker.
    NotFound,
    /// The worker's registered code hash is not in the approved set.
    NotApproved,
}

/// Abstract state of the proxy: who owns it, which code hashes are approved,
/// and the code hash each registered account declared last.
pub ghost struct ProxyState {
    pub owner: Seq<char>,
    pub approved: Set<Seq<char>>,
    pub workers: Map<Seq<char>, Seq<char>>,
}

/// A state-changing call, as issued by `caller`.
pub ghost enum Call {
    Approve { caller: Seq<char>, codehash: Seq<char> },
    Register { caller: Seq<char>, codehash: Seq<char> },
}

impl ProxyState {
    /// The state right after initialisation.
    pub open spec fn initial(owner: Seq<char>) -> ProxyState {
        ProxyState { owner, approved: Set::empty(), workers: Map::empty() }
    }

    /// Outcome of an owner-only call made by `caller`.
    pub open spec fn owner_check(self, caller: Seq<char>) -> Result<(), ProxyError> {
        if caller == self.owner {
            Ok(())
        } else {
            Err(ProxyError::NotAuthorized)
        }
    }

    /// State after `caller` asks to approve `codehash`: unchanged unless the
    /// caller is the owner.
    pub open spec fn approve(self, caller: Seq<char>, codehash: Seq<char>) -> ProxyState {
        if caller == self.owner {
            ProxyState { approved: self.approved.insert(codehash), ..self }
        } else {
            self
        }
    }

    /// State after `caller` registers with `codehash`: any earlier record of
    /// the caller is replaced.
    pub open spec fn register(self, caller: Seq<char>, codehash: Seq<char>) -> ProxyState {
        ProxyState { workers: self.workers.insert(caller, codehash), ..self }
    }

    /// The code hash registered by `account`, or `NotFound`.
    pub open spec fn worker(self, account: Seq<char>) -> Result<Seq<char>, ProxyError> {
        if self.workers.contains_key(account) {
            Ok(self.workers[account])
        } else {
            Err(ProxyError::NotFound)
        }
    }

    /// Whether `caller` may request a signature now.
    pub open spec fn gate(self, caller: Seq<char>) -> Result<(), ProxyError> {
        match self.worker(caller) {
            Err(e) => Err(e),
            Ok(codehash) => if self.approved.contains(codehash) {
                Ok(())
            } else {
                Err(ProxyError::NotApproved)
            },
        }
    }

    /// State after one call.
    pub open spec fn apply(self, call: Call) -> ProxyState {
        match call {
            Call::Approve { caller, codehash } => self.approve(caller, codehash),
            Call::Register { caller, codehash } => self.register(caller, codehash),
        }
    }

    /// State after a sequence of calls, in order.
    pub open spec fn run(self, calls: Seq<Call>) -> ProxyState
        decreases calls.len(),
    {
        if calls.len() == 0 {
            self
        } else {
            self.run(calls.drop_last()).apply(calls.last())
        }
    }
}

} // verus!
