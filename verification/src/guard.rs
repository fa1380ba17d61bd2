//! The guard that keeps a resource to one outbound transfer at a time.

use vstd::prelude::*;
use crate::persistent_map::PersistentMap;
use crate::types::ContractError;

verus! {

/// Which resources have a transfer pending: the contract as a whole, and single accounts.
/// A resource is idle until an operation enters it, and pending until the callback of that
/// operation leaves it.
pub struct TransferGuard {
    /// A contract-wide query is pending.
    pub contract_pending: bool,
    /// The accounts with a transfer pending.
    pub accounts: PersistentMap<bool>,
}

/// The two states of a guarded resource.
#[derive(Clone, Copy, Debug, PartialEq, Eq, Structural)]
pub enum GuardPhase {
    /// No transfer is under way: an operation may enter.
    Idle,
    /// A transfer was sent and its outcome is not known yet: operations are refused.
    Pending,
}

/// The guard's state as a set of pending resources.
#[verifier::ext_equal]
pub struct GuardState {
    pub contract_pending: bool,
    pub pending_accounts: Set<Seq<char>>,
}

impl GuardState {
    /// No resource is pending.
    pub open spec fn idle(self) -> bool {
        !self.contract_pending && self.pending_accounts =~= Set::<Seq<char>>::empty()
    }

    /// Neither `account_id` nor the contract as a whole is pending.
    pub open spec fn account_idle(self, account_id: Seq<char>) -> bool {
        !self.contract_pending && !self.pending_accounts.contains(account_id)
    }

    /// The state of the account `account_id` taken by itself.
    pub open spec fn account_phase(self, account_id: Seq<char>) -> GuardPhase {
        if self.pending_accounts.contains(account_id) {
            GuardPhase::Pending
        } else {
            GuardPhase::Idle
        }
    }

    /// The state of the contract as a whole.
    pub open spec fn contract_phase(self) -> GuardPhase {
        if self.contract_pending {
            GuardPhase::Pending
        } else {
            GuardPhase::Idle
        }
    }

    /// The state in which no resource is pending.
    pub open spec fn all_idle() -> GuardState {
        GuardState { contract_pending: false, pending_accounts: Set::empty() }
    }
}

impl View for TransferGuard {
    type V = GuardState;

    open spec fn view(&self) -> GuardState {
        GuardState { contract_pending: self.contract_pending, pending_accounts: self.accounts@.dom() }
    }
}

impl TransferGuard {
    /// The table of pending accounts is sound.
    pub open spec fn wf(&self) -> bool {
        self.accounts.wf()
    }

    /// A guard with every resource idle.
    pub fn new() -> (guard: TransferGuard)
        ensures
            guard.wf(),
            guard@ == GuardState::all_idle(),
    {
        let mut prefix: Vec<u8> = Vec::new();
        prefix.push(71u8);
        let guard = TransferGuard { contract_pending: false, accounts: PersistentMap::new(prefix) };
        assert(guard@.pending_accounts =~= Set::<Seq<char>>::empty());
        guard
    }

    /// The state of the account `account_id` taken by itself.
    pub fn account_phase(&self, account_id: &String) -> (phase: GuardPhase)
        requires
            self.wf(),
        ensures
            phase == self@.account_phase(account_id@),
    {
        if self.accounts.contains_key(account_id) {
            GuardPhase::Pending
        } else {
            GuardPhase::Idle
        }
    }

    /// The state of the contract as a whole.
    pub fn contract_phase(&self) -> (phase: GuardPhase)
        ensures
            phase == self@.contract_phase(),
    {
        if self.contract_pending {
            GuardPhase::Pending
        } else {
            GuardPhase::Idle
        }
    }

    /// Whether no resource is pending.
    pub fn is_idle(&self) -> (idle: bool)
        requires
            self.wf(),
        ensures
            idle == self@.idle(),
    {
        let n: u64 = self.accounts.len();
        proof {
            self.accounts.lemma_keys();
            if n == 0 {
                assert(self.accounts@.dom().len() == 0);
                assert(self.accounts@.dom() =~= Set::<Seq<char>>::empty());
            } else {
                assert(self.accounts@.dom().len() != 0);
            }
        }
        !self.contract_pending && n == 0
    }

    /// Whether an operation on `account_id` may go ahead.
    pub fn is_account_idle(&self, account_id: &String) -> (idle: bool)
        requires
            self.wf(),
        ensures
            idle == self@.account_idle(account_id@),
    {
        !self.contract_pending && !self.accounts.contains_key(account_id)
    }

    /// Marks `account_id` pending. Fails, and changes nothing, where it or the contract
    /// as a whole is pending already.
    pub fn enter_account(&mut self, account_id: &String) -> (res: Result<(), ContractError>)
        requires
            old(self).wf(),
        ensures
            final(self).wf(),
            old(self)@.account_idle(account_id@) ==> res.is_ok() && final(self)@ == (GuardState {
                pending_accounts: old(self)@.pending_accounts.insert(account_id@),
                ..old(self)@
            }),
            !old(self)@.account_idle(account_id@) ==> res == Err::<(), ContractError>(
                ContractError::GuardBusy,
            ) && final(self)@ == old(self)@,
    {
        if !self.is_account_idle(account_id) {
            return Err(ContractError::GuardBusy);
        }
        self.accounts.insert(account_id, &true);
        Ok(())
    }

    /// Returns `account_id` to idle.
    pub fn leave_account(&mut self, account_id: &String)
        requires
            old(self).wf(),
        ensures
            final(self).wf(),
            final(self)@ == (GuardState {
                pending_accounts: old(self)@.pending_accounts.remove(account_id@),
                ..old(self)@
            }),
    {
        self.accounts.remove(account_id);
    }

    /// Marks the contract as a whole pending. Fails, and changes nothing, where any
    /// resource is pending already.
    pub fn enter_contract(&mut self) -> (res: Result<(), ContractError>)
        requires
            old(self).wf(),
        ensures
            final(self).wf(),
            old(self)@.idle() ==> res.is_ok() && final(self)@ == (GuardState {
                contract_pending: true,
                ..old(self)@
            }),
            !old(self)@.idle() ==> res == Err::<(), ContractError>(ContractError::GuardBusy)
                && final(self)@ == old(self)@,
    {
        if !self.is_idle() {
            return Err(ContractError::GuardBusy);
        }
        self.contract_pending = true;
        Ok(())
    }

    /// Returns the contract as a whole to idle.
    pub fn leave_contract(&mut self)
        requires
            old(self).wf(),
        ensures
            final(self).wf(),
            final(self)@ == (GuardState { contract_pending: false, ..old(self)@ }),
    {
        self.contract_pending = false;
    }

    /// Returns every resource to idle, whatever was pending, and reports whether
    /// anything was.
    pub fn clear(&mut self) -> (was_pending: bool)
        requires
            old(self).wf(),
        ensures
            final(self).wf(),
            final(self)@ == GuardState::all_idle(),
            was_pending == !old(self)@.idle(),
    {
        let idle: bool = self.is_idle();
        *self = TransferGuard::new();
        !idle
    }
}

} // verus!
