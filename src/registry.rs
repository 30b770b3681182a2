//! The registry of admitted workers: an owner fixed at initialisation and,
//! for each admitted account, the worker record it registered last.
use vstd::prelude::*;

use crate::attestation::{
    collateral_of, decode_hex, hex_bytes, is_hex, quote_accepted, resolve_collateral, verify_quote,
};
use crate::clock::{now_seconds, seconds_of};

verus! {

/// The identity a worker is bound to once admitted.
#[derive(Clone, Debug)]
pub struct Worker {
    checksum: String,
    codehash: String,
}

/// What a worker record holds.
pub struct WorkerView {
    pub checksum: Seq<char>,
    pub codehash: Seq<char>,
}

impl View for Worker {
    type V = WorkerView;

    closed spec fn view(&self) -> WorkerView {
        WorkerView { checksum: self.checksum@, codehash: self.codehash@ }
    }
}

impl Worker {
    pub fn new(checksum: String, codehash: String) -> (r: Worker)
        ensures
            r@.checksum == checksum@,
            r@.codehash == codehash@,
    {
        Worker { checksum, codehash }
    }

    pub fn checksum(&self) -> (r: &String)
        ensures
            r@ == self@.checksum,
    {
        &self.checksum
    }

    pub fn codehash(&self) -> (r: &String)
        ensures
            r@ == self@.codehash,
    {
        &self.codehash
    }
}

/// Why registration could not be attempted.
#[derive(Clone, Copy, Debug, PartialEq, Eq, Structural)]
pub enum RegisterError {
    /// The collateral selector names no collateral bundle.
    UnresolvableCollateral,
    /// The quote is not hexadecimal text.
    MalformedQuote,
}

/// Why a guard refused its caller.
#[derive(Clone, Copy, Debug, PartialEq, Eq, Structural)]
pub enum AccessError {
    /// The caller is not the owner.
    NotOwner,
    /// The caller has no worker record.
    UnknownWorker,
    /// The caller's worker record carries another code-hash.
    CodehashMismatch,
}

/// The registry in the abstract: its owner, and the record of each
/// admitted account.
pub struct ContractView {
    pub owner: Seq<char>,
    pub workers: Map<Seq<char>, WorkerView>,
}

impl ContractView {
    /// The registry after `account` is admitted with `worker`: its record is
    /// replaced whole, everything else stays.
    pub open spec fn admitted(self, account: Seq<char>, worker: WorkerView) -> ContractView {
        ContractView { owner: self.owner, workers: self.workers.insert(account, worker) }
    }
}

/// Admitting an account a second time with the same worker leaves the
/// registry exactly as the first admission left it.
pub proof fn readmission_is_idempotent(v: ContractView, account: Seq<char>, worker: WorkerView)
    ensures
        v.admitted(account, worker).admitted(account, worker) == v.admitted(account, worker),
{
    assert(v.admitted(account, worker).admitted(account, worker).workers =~= v.admitted(
        account,
        worker,
    ).workers);
}

/// Admitting an account with one worker and then with another leaves only
/// the second: the registry is as if the first admission never happened.
pub proof fn readmission_replaces(
    v: ContractView,
    account: Seq<char>,
    first: WorkerView,
    second: WorkerView,
)
    ensures
        v.admitted(account, first).admitted(account, second) == v.admitted(account, second),
        v.admitted(account, first).admitted(account, second).workers[account] == second,
{
    assert(v.admitted(account, first).admitted(account, second).workers =~= v.admitted(
        account,
        second,
    ).workers);
}

/// An admission never changes the owner.
pub proof fn admission_keeps_owner(v: ContractView, account: Seq<char>, worker: WorkerView)
    ensures
        v.admitted(account, worker).owner == v.owner,
{
}

/// The registry after each (account, worker) admission of `admissions`, in
/// order. Every call either leaves the registry as it is or makes one such
/// admission, so this is the registry after any sequence of calls.
pub open spec fn admitted_all(v: ContractView, admissions: Seq<(Seq<char>, WorkerView)>) -> ContractView
    decreases admissions.len(),
{
    if admissions.len() == 0 {
        v
    } else {
        admitted_all(v, admissions.drop_last()).admitted(
            admissions.last().0,
            admissions.last().1,
        )
    }
}

/// No sequence of admissions changes the owner: the owner stays the one the
/// registry was initialised with, whatever calls follow.
pub proof fn owner_fixed_over_admissions(v: ContractView, admissions: Seq<(Seq<char>, WorkerView)>)
    ensures
        admitted_all(v, admissions).owner == v.owner,
    decreases admissions.len(),
{
    if admissions.len() > 0 {
        owner_fixed_over_admissions(v, admissions.drop_last());
    }
}

/// The records that a list of (account, worker) entries holds, a later entry
/// taking precedence over an earlier one of the same account.
pub open spec fn entries_map(s: Seq<(String, Worker)>) -> Map<Seq<char>, WorkerView>
    decreases s.len(),
{
    if s.len() == 0 {
        Map::empty()
    } else {
        entries_map(s.drop_last()).insert(s.last().0@, s.last().1@)
    }
}

/// No account appears in two entries.
pub open spec fn keys_unique(s: Seq<(String, Worker)>) -> bool {
    forall|i: int, j: int|
        0 <= i < s.len() && 0 <= j < s.len() && i != j ==> #[trigger] s[i].0@ != #[trigger] s[j].0@
}

/// An account that no entry names has no record.
proof fn lemma_absent_key(s: Seq<(String, Worker)>, k: Seq<char>)
    requires
        forall|j: int| 0 <= j < s.len() ==> #[trigger] s[j].0@ != k,
    ensures
        !entries_map(s).contains_key(k),
    decreases s.len(),
{
    if s.len() > 0 {
        assert(s.last().0@ != k);
        lemma_absent_key(s.drop_last(), k);
    }
}

/// With unique accounts, the record of an entry's account is that entry's
/// worker.
proof fn lemma_entry_lookup(s: Seq<(String, Worker)>, i: int)
    requires
        keys_unique(s),
        0 <= i < s.len(),
    ensures
        entries_map(s).contains_key(s[i].0@),
        entries_map(s)[s[i].0@] == s[i].1@,
    decreases s.len(),
{
    if i < s.len() - 1 {
        let t = s.drop_last();
        assert(s[i].0@ != s[s.len() - 1].0@);
        assert(t[i] == s[i]);
        assert(keys_unique(t)) by {
            assert forall|a: int, b: int|
                0 <= a < t.len() && 0 <= b < t.len() && a != b implies #[trigger] t[a].0@
                != #[trigger] t[b].0@ by {
                assert(t[a] == s[a] && t[b] == s[b]);
            }
        }
        lemma_entry_lookup(t, i);
    }
}

/// Overwriting an entry with one of the same account replaces that
/// account's record and keeps the accounts unique.
proof fn lemma_entry_update(s: Seq<(String, Worker)>, i: int, e: (String, Worker))
    requires
        keys_unique(s),
        0 <= i < s.len(),
        e.0@ == s[i].0@,
    ensures
        keys_unique(s.update(i, e)),
        entries_map(s.update(i, e)) == entries_map(s).insert(e.0@, e.1@),
    decreases s.len(),
{
    let u = s.update(i, e);
    assert(keys_unique(u)) by {
        assert forall|a: int, b: int|
            0 <= a < u.len() && 0 <= b < u.len() && a != b implies #[trigger] u[a].0@
            != #[trigger] u[b].0@ by {
            assert(u[a].0@ == s[a].0@ && u[b].0@ == s[b].0@);
        }
    }
    let t = s.drop_last();
    if i == s.len() - 1 {
        assert(u.drop_last() =~= t);
        assert(entries_map(u) =~= entries_map(s).insert(e.0@, e.1@));
    } else {
        assert(keys_unique(t)) by {
            assert forall|a: int, b: int|
                0 <= a < t.len() && 0 <= b < t.len() && a != b implies #[trigger] t[a].0@
                != #[trigger] t[b].0@ by {
                assert(t[a] == s[a] && t[b] == s[b]);
            }
        }
        lemma_entry_update(t, i, e);
        assert(u.drop_last() =~= t.update(i, e));
        assert(s[s.len() - 1].0@ != s[i].0@);
        assert(u.last() == s.last());
        assert(entries_map(u) =~= entries_map(s).insert(e.0@, e.1@));
    }
}

/// The worker registry.
pub struct Contract {
    owner_id: String,
    worker_by_account_id: Vec<(String, Worker)>,
}

impl View for Contract {
    type V = ContractView;

    closed spec fn view(&self) -> ContractView {
        ContractView {
            owner: self.owner_id@,
            workers: entries_map(self.worker_by_account_id@),
        }
    }
}

impl Contract {
    /// The registry's internal invariant: one entry per account.
    pub closed spec fn wf(&self) -> bool {
        keys_unique(self.worker_by_account_id@)
    }

    /// A registry owned by `owner_id`, with no worker admitted yet.
    pub fn init(owner_id: String) -> (r: Contract)
        ensures
            r.wf(),
            r@.owner == owner_id@,
            r@.workers == Map::<Seq<char>, WorkerView>::empty(),
    {
        Contract { owner_id, worker_by_account_id: Vec::new() }
    }

    /// A registry rebuilt from its owner and its (account, worker) entries,
    /// as a host keeps them between calls; `None` when two entries name the
    /// same account.
    pub fn from_entries(owner_id: String, entries: Vec<(String, Worker)>) -> (r: Option<Contract>)
        ensures
            match r {
                Some(c) => c.wf() && c@.owner == owner_id@ && c@.workers == entries_map(entries@),
                None => !keys_unique(entries@),
            },
    {
        let n = entries.len();
        let mut i: usize = 0;
        while i < n
            invariant
                n == entries@.len(),
                i <= n,
                forall|a: int, b: int|
                    0 <= a < i && 0 <= b < n && a != b ==> #[trigger] entries@[a].0@
                        != #[trigger] entries@[b].0@,
            decreases n - i,
        {
            let mut j: usize = 0;
            while j < n
                invariant
                    n == entries@.len(),
                    i < n,
                    j <= n,
                    forall|a: int, b: int|
                        0 <= a < i && 0 <= b < n && a != b ==> #[trigger] entries@[a].0@
                            != #[trigger] entries@[b].0@,
                    forall|b: int|
                        0 <= b < j && i != b ==> entries@[i as int].0@ != #[trigger] entries@[b].0@,
                decreases n - j,
            {
                if i != j && entries[i].0 == entries[j].0 {
                    return None;
                }
                j += 1;
            }
            i += 1;
        }
        Some(Contract { owner_id, worker_by_account_id: entries })
    }

    /// The owner and the (account, worker) entries, one per admitted
    /// account, for a host to keep between calls.
    pub fn into_entries(self) -> (r: (String, Vec<(String, Worker)>))
        requires
            self.wf(),
        ensures
            r.0@ == self@.owner,
            keys_unique(r.1@),
            entries_map(r.1@) == self@.workers,
    {
        (self.owner_id, self.worker_by_account_id)
    }

    /// The owner.
    pub fn owner_id(&self) -> (r: &String)
        ensures
            r@ == self@.owner,
    {
        &self.owner_id
    }

    /// Where the entry of `account_id` stands, if it has one.
    fn find(&self, account_id: &String) -> (r: Option<usize>)
        requires
            self.wf(),
        ensures
            match r {
                Some(i) => i < self.worker_by_account_id@.len()
                    && self.worker_by_account_id@[i as int].0@ == account_id@
                    && self@.workers.contains_key(account_id@)
                    && self@.workers[account_id@] == self.worker_by_account_id@[i as int].1@,
                None => !self@.workers.contains_key(account_id@),
            },
    {
        let mut i: usize = 0;
        while i < self.worker_by_account_id.len()
            invariant
                self.wf(),
                i <= self.worker_by_account_id@.len(),
                forall|j: int| 0 <= j < i ==> #[trigger] self.worker_by_account_id@[j].0@ != account_id@,
            decreases self.worker_by_account_id@.len() - i,
        {
            if self.worker_by_account_id[i].0 == *account_id {
                proof {
                    lemma_entry_lookup(self.worker_by_account_id@, i as int);
                }
                return Some(i);
            }
            i += 1;
        }
        proof {
            lemma_absent_key(self.worker_by_account_id@, account_id@);
        }
        None
    }

    /// Succeeds exactly when `caller` is the owner.
    pub fn require_owner(&self, caller: &String) -> (r: Result<(), AccessError>)
        ensures
            r == (if caller@ == self@.owner {
                Ok::<(), AccessError>(())
            } else {
                Err(AccessError::NotOwner)
            }),
    {
        if *caller == self.owner_id {
            Ok(())
        } else {
            Err(AccessError::NotOwner)
        }
    }

    /// Succeeds exactly when `caller` has a worker record whose code-hash is
    /// `codehash`.
    pub fn require_worker(&self, caller: &String, codehash: String) -> (r: Result<(), AccessError>)
        requires
            self.wf(),
        ensures
            r == (if !self@.workers.contains_key(caller@) {
                Err(AccessError::UnknownWorker)
            } else if self@.workers[caller@].codehash != codehash@ {
                Err(AccessError::CodehashMismatch)
            } else {
                Ok::<(), AccessError>(())
            }),
    {
        match self.find(caller) {
            None => Err(AccessError::UnknownWorker),
            Some(i) => {
                if self.worker_by_account_id[i].1.codehash == codehash {
                    Ok(())
                } else {
                    Err(AccessError::CodehashMismatch)
                }
            },
        }
    }

    /// A copy of the record of `account_id`, if it has one.
    pub fn get_worker(&self, account_id: &String) -> (r: Option<Worker>)
        requires
            self.wf(),
        ensures
            match r {
                Some(w) => self@.workers.contains_key(account_id@) && w@ == self@.workers[account_id@],
                None => !self@.workers.contains_key(account_id@),
            },
    {
        match self.find(account_id) {
            None => None,
            Some(i) => {
                let w = &self.worker_by_account_id[i].1;
                Some(Worker { checksum: w.checksum.clone(), codehash: w.codehash.clone() })
            },
        }
    }

    /// Records the outcome of verifying `caller`'s quote: when it was
    /// accepted, `caller`'s record becomes the given checksum and code-hash,
    /// whatever it was before; when not, nothing changes. Returns whether
    /// the worker was admitted.
    pub fn record_verdict(&mut self, caller: String, accepted: bool, checksum: String, codehash: String) -> (r: bool)
        requires
            old(self).wf(),
        ensures
            final(self).wf(),
            r == accepted,
            final(self)@ == (if accepted {
                old(self)@.admitted(caller@, WorkerView { checksum: checksum@, codehash: codehash@ })
            } else {
                old(self)@
            }),
    {
        if !accepted {
            return false;
        }
        let ghost k = caller@;
        let ghost w = WorkerView { checksum: checksum@, codehash: codehash@ };
        let worker = Worker { checksum, codehash };
        match self.find(&caller) {
            Some(i) => {
                proof {
                    lemma_entry_update(self.worker_by_account_id@, i as int, (caller, worker));
                }
                self.worker_by_account_id.set(i, (caller, worker));
            },
            None => {
                let ghost s = self.worker_by_account_id@;
                proof {
                    assert forall|j: int| 0 <= j < s.len() implies #[trigger] s[j].0@ != k by {
                        if s[j].0@ == k {
                            lemma_entry_lookup(s, j);
                        }
                    }
                }
                self.worker_by_account_id.push((caller, worker));
                assert(self.worker_by_account_id@.drop_last() =~= s);
            },
        }
        assert(self@.workers =~= old(self)@.admitted(k, w).workers);
        true
    }

    /// Registers `caller` with the given checksum and code-hash if its quote
    /// verifies. The collateral bundle is resolved from `collateral`, the
    /// quote is decoded from `quote_hex`, and the quote is checked against the
    /// bundle at the whole second of the host clock's `now_nanos`. Either
    /// input failing to decode is an error and changes nothing; otherwise the
    /// result tells whether the quote was accepted and the worker recorded,
    /// replacing any record `caller` had. A rejected quote changes nothing.
    pub fn register_worker(
        &mut self,
        caller: String,
        quote_hex: String,
        collateral: String,
        checksum: String,
        codehash: String,
        now_nanos: u64,
    ) -> (r: Result<bool, RegisterError>)
        requires
            old(self).wf(),
        ensures
            final(self).wf(),
            final(self)@.owner == old(self)@.owner,
            collateral_of(collateral@) is None ==> r == Err::<bool, RegisterError>(
                RegisterError::UnresolvableCollateral,
            ),
            collateral_of(collateral@) is Some && !is_hex(quote_hex@) ==> r == Err::<
                bool,
                RegisterError,
            >(RegisterError::MalformedQuote),
            collateral_of(collateral@) is Some && is_hex(quote_hex@) ==> r == Ok::<
                bool,
                RegisterError,
            >(
                quote_accepted(
                    hex_bytes(quote_hex@),
                    collateral_of(collateral@)->Some_0,
                    seconds_of(now_nanos),
                ),
            ),
            r == Ok::<bool, RegisterError>(true) ==> final(self)@ == old(self)@.admitted(
                caller@,
                WorkerView { checksum: checksum@, codehash: codehash@ },
            ),
            r != Ok::<bool, RegisterError>(true) ==> final(self)@ == old(self)@,
    {
        let bundle = match resolve_collateral(&collateral) {
            Ok(b) => b,
            Err(_) => return Err(RegisterError::UnresolvableCollateral),
        };
        let quote = match decode_hex(&quote_hex) {
            Ok(q) => q,
            Err(_) => return Err(RegisterError::MalformedQuote),
        };
        let now = now_seconds(now_nanos);
        let accepted = verify_quote(&quote, bundle, now);
        Ok(self.record_verdict(caller, accepted, checksum, codehash))
    }
}

} // verus!
