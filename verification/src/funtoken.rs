//! The debt token as a fungible token: transfers between holders, and transfers to a
//! contract that may hand tokens back.

use vstd::prelude::*;
use crate::contract::{State, UsdNearStableCoin};
use crate::types::ContractError;
use crate::utils::{min, min_spec};

verus! {

/// Symbol of the debt token.
pub const USDNEAR: &'static str = "USDNEAR";

/// Accepts a call that carries exactly one unit of attached deposit.
pub fn assert_one_yocto(attached_deposit: u128) -> (res: Result<(), ContractError>)
    ensures
        res == if attached_deposit == 1 {
            Ok::<(), ContractError>(())
        } else {
            Err::<(), ContractError>(ContractError::DepositRequired)
        },
{
    if attached_deposit == 1 {
        Ok(())
    } else {
        Err(ContractError::DepositRequired)
    }
}

impl State {
    /// A transfer of `amount` of the debt token from `caller` to `receiver`, accepted
    /// with one unit of attached deposit.
    pub open spec fn ft_transfer(
        self,
        caller: Seq<char>,
        receiver: Seq<char>,
        amount: u128,
        attached_deposit: u128,
    ) -> Result<State, ContractError> {
        if attached_deposit != 1 {
            Err(ContractError::DepositRequired)
        } else {
            self.usdnear_transfer(caller, receiver, amount)
        }
    }

    /// What is handed back to `sender` once the receiving contract has answered a
    /// transfer of `amount`: all of it where the call failed, else the tokens the
    /// receiver reports unused, and never more than `amount`.
    pub open spec fn amount_to_undo(amount: u128, unused_tokens: u128, success: bool) -> u128 {
        if !success {
            amount
        } else {
            min_spec(amount, unused_tokens)
        }
    }

    /// The state after the answer of the receiving contract, and the amount handed back.
    pub open spec fn after_ft_on_transfer_usdnear(
        self,
        sender: Seq<char>,
        receiver: Seq<char>,
        amount: u128,
        unused_tokens: u128,
        success: bool,
    ) -> Result<(State, u128), ContractError> {
        let undo = State::amount_to_undo(amount, unused_tokens, success);
        if undo == 0 {
            Ok((self, 0))
        } else {
            match self.usdnear_transfer(receiver, sender, undo) {
                Ok(state) => Ok((state, undo)),
                Err(e) => Err(e),
            }
        }
    }
}

impl UsdNearStableCoin {
    /// Transfers `amount` of the debt token from `caller` to `receiver_id`.
    /// `_msg` and `_memo` are not read.
    pub fn ft_transfer(
        &mut self,
        caller: &String,
        attached_deposit: u128,
        receiver_id: &String,
        amount: u128,
        _msg: &String,
        _memo: &String,
    ) -> (res: Result<(), ContractError>)
        requires
            old(self).wf(),
        ensures
            final(self).wf(),
            match old(self)@.ft_transfer(caller@, receiver_id@, amount, attached_deposit) {
                Ok(state) => res.is_ok() && final(self)@ == state,
                Err(e) => res == Err::<(), ContractError>(e) && final(self)@ == old(self)@,
            },
    {
        match assert_one_yocto(attached_deposit) {
            Ok(()) => self.usdnear_transfer(caller, receiver_id, amount),
            Err(e) => Err(e),
        }
    }

    /// Transfers `amount` of the debt token from `caller` to the contract `receiver_id`.
    /// The receiver is then to be notified, and
    /// [`after_ft_on_transfer_usdnear`](Self::after_ft_on_transfer_usdnear) called with its
    /// answer. `_msg` is passed on by the caller of this function; `_memo` is not read.
    pub fn ft_transfer_call(
        &mut self,
        caller: &String,
        attached_deposit: u128,
        receiver_id: &String,
        amount: u128,
        _msg: &String,
        _memo: &String,
    ) -> (res: Result<(), ContractError>)
        requires
            old(self).wf(),
        ensures
            final(self).wf(),
            match old(self)@.ft_transfer(caller@, receiver_id@, amount, attached_deposit) {
                Ok(state) => res.is_ok() && final(self)@ == state,
                Err(e) => res == Err::<(), ContractError>(e) && final(self)@ == old(self)@,
            },
    {
        match assert_one_yocto(attached_deposit) {
            Ok(()) => self.usdnear_transfer(caller, receiver_id, amount),
            Err(e) => Err(e),
        }
    }

    /// Settles a transfer to a contract once it has answered: hands back to `sender_id`
    /// the whole `amount` where the call failed, else the tokens reported unused, at most
    /// `amount`. Returns the amount handed back. Fails, and changes nothing, where the
    /// receiver no longer holds it.
    pub fn after_ft_on_transfer_usdnear(
        &mut self,
        sender_id: &String,
        receiver_id: &String,
        amount: u128,
        unused_tokens: u128,
        success: bool,
    ) -> (res: Result<u128, ContractError>)
        requires
            old(self).wf(),
        ensures
            final(self).wf(),
            match old(self)@.after_ft_on_transfer_usdnear(
                sender_id@,
                receiver_id@,
                amount,
                unused_tokens,
                success,
            ) {
                Ok((state, undone)) => res == Ok::<u128, ContractError>(undone) && final(self)@
                    == state,
                Err(e) => res == Err::<u128, ContractError>(e) && final(self)@ == old(self)@,
            },
    {
        let undo_amt: u128 = if !success {
            amount
        } else {
            min(amount, unused_tokens)
        };
        if undo_amt == 0 {
            return Ok(0);
        }
        match self.usdnear_transfer(receiver_id, sender_id, undo_amt) {
            Ok(()) => Ok(undo_amt),
            Err(e) => Err(e),
        }
    }
}

} // verus!
