use crate::state::{ProxyError, ProxyState};
use vstd::prelude::*;

verus! {

/// The key version of the signing service that every request selects.
pub const KEY_VERSION: u32 = 0;

/// A registered worker: the code hash it declared when registering.
pub struct Worker {
    pub codehash: String,
}

/// The one outbound call that a granted signature request makes to the
/// signing service.
pub struct SignRequest {
    pub payload: Vec<u8>,
    pub path: String,
    pub key_version: u32,
}

/// Owner, approved code hashes and registered workers.
pub struct Contract {
    owner_id: String,
    approved_codehashes: Vec<String>,
    worker_by_account_id: Vec<(String, Worker)>,
}

impl View for Contract {
    type V = ProxyState;

    closed spec fn view(&self) -> ProxyState {
        ProxyState {
            owner: self.owner_id@,
            approved: self.approved_codehashes@.map_values(|s: String| s@).to_set(),
            workers: Map::new(
                |k: Seq<char>| self.accounts().contains(k),
                |k: Seq<char>| self.worker_by_account_id@[self.accounts().index_of(k)].1.codehash@,
            ),
        }
    }
}

impl Contract {
    /// The registered accounts, in storage order.
    closed spec fn accounts(&self) -> Seq<Seq<char>> {
        self.worker_by_account_id@.map_values(|e: (String, Worker)| e.0@)
    }

    /// Each account has at most one worker record.
    pub closed spec fn wf(&self) -> bool {
        self.accounts().no_duplicates()
    }

    /// A fresh contract owned by `owner_id`, with nothing approved and no
    /// worker registered.
    pub fn init(owner_id: String) -> (r: Contract)
        ensures
            r.wf(),
            r@ == ProxyState::initial(owner_id@),
    {
        let r = Contract {
            owner_id,
            approved_codehashes: Vec::new(),
            worker_by_account_id: Vec::new(),
        };
        assert(r@.approved =~= Set::empty());
        assert(r@.workers =~= Map::empty());
        r
    }

    /// Succeeds exactly when `caller` is the owner.
    pub fn require_owner(&self, caller: &String) -> (r: Result<(), ProxyError>)
        ensures
            r == self@.owner_check(caller@),
    {
        if *caller == self.owner_id {
            Ok(())
        } else {
            Err(ProxyError::NotAuthorized)
        }
    }

    /// Whether `codehash` is in the approved set.
    pub fn contains_codehash(&self, codehash: &String) -> (r: bool)
        ensures
            r == self@.approved.contains(codehash@),
    {
        let ghost hashes = self.approved_codehashes@.map_values(|s: String| s@);
        let mut i: usize = 0;
        while i < self.approved_codehashes.len()
            invariant
                i <= self.approved_codehashes.len(),
                hashes == self.approved_codehashes@.map_values(|s: String| s@),
                forall|j: int| 0 <= j < i ==> hashes[j] != codehash@,
            decreases self.approved_codehashes.len() - i,
        {
            if self.approved_codehashes[i] == *codehash {
                assert(hashes[i as int] == codehash@);
                return true;
            }
            i = i + 1;
        }
        assert(!hashes.contains(codehash@));
        false
    }

    /// The owner adds `codehash` to the approved set; adding it again changes
    /// nothing. Any other caller is refused and nothing changes.
    pub fn approve_codehash(&mut self, caller: &String, codehash: String) -> (r: Result<
        (),
        ProxyError,
    >)
        requires
            old(self).wf(),
        ensures
            final(self).wf(),
            r == old(self)@.owner_check(caller@),
            final(self)@ == old(self)@.approve(caller@, codehash@),
    {
        match self.require_owner(caller) {
            Err(e) => Err(e),
            Ok(()) => {
                let ghost before = self.approved_codehashes@.map_values(|s: String| s@);
                if !self.contains_codehash(&codehash) {
                    self.approved_codehashes.push(codehash);
                    let ghost after = self.approved_codehashes@.map_values(|s: String| s@);
                    assert(after =~= before.push(codehash@));
                    assert(after.to_set() =~= before.to_set().insert(codehash@)) by {
                        assert forall|x: Seq<char>| after.contains(x) implies before.contains(x)
                            || x == codehash@ by {
                            let j = choose|j: int| 0 <= j < after.len() && after[j] == x;
                            if j < before.len() {
                                assert(before[j] == x);
                            }
                        }
                        assert forall|x: Seq<char>| before.contains(x) implies after.contains(
                            x,
                        ) by {
                            let j = choose|j: int| 0 <= j < before.len() && before[j] == x;
                            assert(after[j] == x);
                        }
                        assert(after[before.len() as int] == codehash@);
                    }
                } else {
                    assert(self@.approved.insert(codehash@) =~= self@.approved);
                }
                assert(self@.workers =~= old(self)@.workers);
                Ok(())
            },
        }
    }
    /// Position of `account`'s worker record, if it has one.
    fn find_worker(&self, account: &String) -> (r: Option<usize>)
        ensures
            match r {
                Some(i) => i < self.worker_by_account_id.len() && self.accounts()[i as int]
                    == account@,
                None => !self.accounts().contains(account@),
            },
    {
        let mut i: usize = 0;
        while i < self.worker_by_account_id.len()
            invariant
                i <= self.worker_by_account_id.len(),
                forall|j: int| 0 <= j < i ==> self.accounts()[j] != account@,
            decreases self.worker_by_account_id.len() - i,
        {
            if self.worker_by_account_id[i].0 == *account {
                return Some(i);
            }
            i = i + 1;
        }
        None
    }

    /// Records `codehash` as the worker code hash of `caller`, replacing any
    /// earlier record of that account. Always succeeds.
    pub fn register_worker(&mut self, caller: &String, codehash: String) -> (r: bool)
        requires
            old(self).wf(),
        ensures
            r,
            final(self).wf(),
            final(self)@ == old(self)@.register(caller@, codehash@),
    {
        let ghost old_accounts = self.accounts();
        let ghost old_entries = self.worker_by_account_id@;
        let entry = (caller.clone(), Worker { codehash });
        match self.find_worker(caller) {
            Some(i) => {
                self.worker_by_account_id.set(i, entry);
                assert(self.accounts() =~= old_accounts);
            },
            None => {
                self.worker_by_account_id.push(entry);
                assert(self.accounts() =~= old_accounts.push(caller@));
            },
        }
        proof {
            let accounts = self.accounts();
            let entries = self.worker_by_account_id@;
            assert forall|k: Seq<char>| #[trigger] accounts.contains(k) implies
                entries[accounts.index_of(k)].1.codehash@ == (if k == caller@ {
                    codehash@
                } else {
                    old_entries[old_accounts.index_of(k)].1.codehash@
                }) by {
                let j = accounts.index_of(k);
                assert(accounts[j] == k);
                if k != caller@ {
                    assert(old_accounts.contains(k)) by {
                        assert(old_accounts[j] == k);
                    }
                    let oj = old_accounts.index_of(k);
                    assert(old_accounts[oj] == k);
                    assert(accounts[oj] == k);
                }
            }
            assert forall|k: Seq<char>| accounts.contains(k) <==> (old_accounts.contains(k) || k
                == caller@) by {
                if old_accounts.contains(k) {
                    let oj = old_accounts.index_of(k);
                    assert(accounts[oj] == k);
                }
                if k == caller@ && !old_accounts.contains(k) {
                    assert(accounts[old_accounts.len() as int] == k);
                }
                if accounts.contains(k) && k != caller@ {
                    let j = accounts.index_of(k);
                    assert(old_accounts[j] == k);
                }
            }
            assert(self@.workers =~= old(self)@.workers.insert(caller@, codehash@));
        }
        true
    }

    /// The worker record of `account_id`, or `NotFound` if it never
    /// registered.
    pub fn get_worker(&self, account_id: &String) -> (r: Result<Worker, ProxyError>)
        requires
            self.wf(),
        ensures
            match r {
                Ok(w) => self@.worker(account_id@) == Ok::<Seq<char>, ProxyError>(w.codehash@),
                Err(e) => self@.worker(account_id@) == Err::<Seq<char>, ProxyError>(e),
            },
    {
        match self.find_worker(account_id) {
            Some(i) => {
                let w = Worker { codehash: self.worker_by_account_id[i].1.codehash.clone() };
                proof {
                    let accounts = self.accounts();
                    assert(accounts.contains(account_id@));
                    assert(accounts[accounts.index_of(account_id@)] == account_id@);
                }
                Ok(w)
            },
            None => Err(ProxyError::NotFound),
        }
    }

    /// Succeeds exactly when `caller` has registered and its code hash is
    /// approved; otherwise `NotFound` or `NotApproved`.
    pub fn require_approved_codehash(&self, caller: &String) -> (r: Result<(), ProxyError>)
        requires
            self.wf(),
        ensures
            r == self@.gate(caller@),
    {
        match self.get_worker(caller) {
            Err(e) => Err(e),
            Ok(worker) => if self.contains_codehash(&worker.codehash) {
                Ok(())
            } else {
                Err(ProxyError::NotApproved)
            },
        }
    }

    /// Checks that `caller` is an approved worker and, if so, builds the
    /// single signing request to issue: the payload and derivation path
    /// unchanged, with the default key version. A refused caller gets the
    /// error of `require_approved_codehash` and no request.
    pub fn get_signature(&self, caller: &String, payload: Vec<u8>, path: String) -> (r: Result<
        SignRequest,
        ProxyError,
    >)
        requires
            self.wf(),
        ensures
            match r {
                Ok(req) => self@.gate(caller@) is Ok && req.payload@ == payload@ && req.path@
                    == path@ && req.key_version == KEY_VERSION,
                Err(e) => self@.gate(caller@) == Err::<(), ProxyError>(e),
            },
    {
        match self.require_approved_codehash(caller) {
            Err(e) => Err(e),
            Ok(()) => Ok(SignRequest { payload, path, key_version: KEY_VERSION }),
        }
    }
    /// The owner's account.
    pub fn owner_id(&self) -> (r: &String)
        ensures
            r@ == self@.owner,
    {
        &self.owner_id
    }

    /// The approved code hashes, each once.
    pub fn approved_codehashes(&self) -> (r: &Vec<String>)
        ensures
            r@.map_values(|s: String| s@).to_set() == self@.approved,
    {
        &self.approved_codehashes
    }

    /// The worker records as (account, worker) pairs, one per registered
    /// account.
    pub fn worker_entries(&self) -> (r: &Vec<(String, Worker)>)
        requires
            self.wf(),
        ensures
            r@.map_values(|e: (String, Worker)| e.0@).no_duplicates(),
            r@.map_values(|e: (String, Worker)| e.0@).to_set() == self@.workers.dom(),
            forall|i: int|
                0 <= i < r.len() ==> self@.workers[#[trigger] r@[i].0@] == r@[i].1.codehash@,
    {
        proof {
            let accounts = self.accounts();
            assert(accounts.to_set() =~= self@.workers.dom());
            assert forall|i: int| 0 <= i < self.worker_by_account_id.len() implies self@.workers[
                #[trigger] self.worker_by_account_id@[i].0@] == self.worker_by_account_id@[i].1.codehash@ by {
                let k = accounts[i];
                assert(accounts.contains(k));
                assert(accounts[accounts.index_of(k)] == k);
            }
        }
        &self.worker_by_account_id
    }
}

} // verus!
