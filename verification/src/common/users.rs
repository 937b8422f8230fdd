//! The registry of accounts and the custody of their balances.

use vstd::prelude::*;
use vstd::string::StringSliceAdditionalSpecFns;

use crate::amount::BigUint;
use crate::common::common_types::Address;
use crate::common::signature::{
    check_register_signature, register_signature_valid, Nonce, Signature, FIRST_NONCE,
};
use crate::common::unique_payments::{
    deduct_all, deduct_from, is_bag, merged, payments_view, EsdtTokenPayment, PaymentView,
    PaymentsVec, UniquePayments,
};
use crate::error::Error;
use crate::seq_util::lemma_first_index;
use crate::state::{has_address, Account, AccountAbstraction, AccountView, AddressId, StateView};

verus! {

/// The identifier under which the native coin is held and paid.
pub open spec fn egld_token_id() -> Seq<u8> {
    "EGLD".spec_bytes()
}

/// The identifier under which the native coin is held and paid.
pub fn egld_token_identifier() -> (r: Vec<u8>)
    ensures
        r@ == egld_token_id(),
{
    let mut r: Vec<u8> = Vec::new();
    crate::bytes::append_bytes(&mut r, "EGLD".as_bytes());
    assert(r@ =~= egld_token_id());
    r
}

/// What comes with a request: the token payments, followed by the amount
/// of native coin as one more payment if it is not zero.
pub open spec fn incoming_payments(esdt_transfers: Seq<PaymentView>, egld_value: nat) -> Seq<PaymentView> {
    if egld_value > 0 {
        esdt_transfers.push(
            PaymentView { token_identifier: egld_token_id(), token_nonce: 0, amount: egld_value },
        )
    } else {
        esdt_transfers
    }
}

/// The payments that come with a request, as one list.
pub fn get_esdt_and_egld_payments(esdt_transfers: PaymentsVec, egld_value: BigUint) -> (r:
    PaymentsVec)
    ensures
        payments_view(r@) == incoming_payments(payments_view(esdt_transfers@), egld_value@),
{
    let mut payments = esdt_transfers;
    if !egld_value.is_zero() {
        payments.push(EsdtTokenPayment::new(egld_token_identifier(), 0, egld_value));
        assert(payments_view(payments@) =~= incoming_payments(
            payments_view(esdt_transfers@),
            egld_value@,
        ));
    }
    payments
}

/// Whether every payment of the list is of amount zero.
pub open spec fn all_zero(payments: Seq<PaymentView>) -> bool {
    forall|i: int| 0 <= i < payments.len() ==> (#[trigger] payments[i]).amount == 0
}

/// Deducts every payment of an action from a balance, or fails and leaves
/// the balance as it was where one of them is not covered.
pub fn deduct_payments(action_payments: &PaymentsVec, user_tokens: &mut UniquePayments) -> (r: Result<
    (),
    Error,
>)
    requires
        old(user_tokens).wf(),
    ensures
        final(user_tokens).wf(),
        match deduct_all(old(user_tokens)@, payments_view(action_payments@)) {
            Some(rest) => r is Ok && final(user_tokens)@ == rest,
            None => r == Err::<(), Error>(Error::InsufficientFunds) && final(user_tokens)@ == old(
                user_tokens,
            )@,
        },
{
    let ghost all = payments_view(action_payments@);
    let mut remaining = user_tokens.duplicate();
    let mut i: usize = 0;
    while i < action_payments.len()
        invariant
            i <= action_payments@.len(),
            all == payments_view(action_payments@),
            remaining.wf(),
            user_tokens@ == old(user_tokens)@,
            user_tokens.wf(),
            deduct_all(old(user_tokens)@, all.take(i as int)) == Some(remaining@),
        decreases action_payments@.len() - i,
    {
        assert(all.take(i + 1).drop_last() =~= all.take(i as int));
        let deduct_result = remaining.deduct_payment(&action_payments[i]);
        if deduct_result.is_err() {
            proof {
                lemma_deduct_all_prefix(old(user_tokens)@, all, i + 1);
            }
            return Err(Error::InsufficientFunds);
        }
        i += 1;
    }
    assert(all.take(all.len() as int) =~= all);
    *user_tokens = remaining;
    Ok(())
}

/// Where the deductions of a prefix are not covered, those of the whole
/// list are not covered.
pub proof fn lemma_deduct_all_prefix(s: Seq<PaymentView>, payments: Seq<PaymentView>, n: int)
    requires
        0 <= n <= payments.len(),
        deduct_all(s, payments.take(n)) is None,
    ensures
        deduct_all(s, payments) is None,
    decreases payments.len() - n,
{
    if n < payments.len() {
        assert(payments.take(n + 1).drop_last() =~= payments.take(n));
        lemma_deduct_all_prefix(s, payments, n + 1);
    } else {
        assert(payments.take(n) =~= payments);
    }
}

impl StateView {
    /// What a registration leads to, given whether the signature under it
    /// is valid: the new account comes last, with sequence number 0 and an
    /// empty balance.
    pub open spec fn register_result(self, user_address: Seq<u8>, signature_valid: bool) -> Result<
        StateView,
        Error,
    > {
        if self.is_registered(user_address) {
            Err(Error::AlreadyRegistered)
        } else if !signature_valid {
            Err(Error::SignatureInvalid)
        } else {
            Ok(
                StateView {
                    users: self.users.push(
                        AccountView { address: user_address, nonce: FIRST_NONCE, tokens: Seq::empty() },
                    ),
                    ..self
                },
            )
        }
    }

    /// What a deposit leads to: the payments are merged into the balance
    /// of the account.
    pub open spec fn deposit_result(self, user_address: Seq<u8>, payments: Seq<PaymentView>) -> Result<
        StateView,
        Error,
    > {
        if !self.is_registered(user_address) {
            Err(Error::UnknownAccount)
        } else if all_zero(payments) {
            Err(Error::NoPayments)
        } else {
            let user = self.user(user_address);
            Ok(self.with_account(self.user_index(user_address), user.nonce, merged(user.tokens, payments)))
        }
    }

    /// What the deduction of one payment from an account leads to.
    pub open spec fn deduct_single_result(self, user_id: u64, payment: PaymentView) -> Result<
        StateView,
        Error,
    > {
        if user_id == 0 || user_id > self.users.len() {
            Err(Error::UnknownAccount)
        } else {
            let user = self.users[user_id - 1];
            match deduct_from(user.tokens, payment) {
                Some(rest) => Ok(self.with_account(user_id - 1, user.nonce, rest)),
                None => Err(Error::InsufficientFunds),
            }
        }
    }
}

/// Whether a list holds a payment that is not of amount zero.
pub fn has_payment(payments: &PaymentsVec) -> (r: bool)
    ensures
        r == !all_zero(payments_view(payments@)),
{
    let mut i: usize = 0;
    while i < payments.len()
        invariant
            i <= payments@.len(),
            forall|j: int| 0 <= j < i ==> (#[trigger] payments_view(payments@)[j]).amount == 0,
        decreases payments@.len() - i,
    {
        if !payments[i].amount.is_zero() {
            assert(payments_view(payments@)[i as int].amount != 0);
            return true;
        }
        i += 1;
    }
    false
}

impl AccountAbstraction {
    /// Fails with `AlreadyRegistered` where the identity has an account.
    pub fn require_not_registered(&self, user_address: &Address) -> (r: Result<(), Error>)
        requires
            self.wf(),
        ensures
            r == if self@.is_registered(user_address@) {
                Err::<(), Error>(Error::AlreadyRegistered)
            } else {
                Ok(())
            },
    {
        if self.find_user(user_address) < self.users.len() {
            Err(Error::AlreadyRegistered)
        } else {
            Ok(())
        }
    }

    /// Registers an identity, given whether its signature under the
    /// registration is valid.
    pub fn register_user_checked(&mut self, user_address: &Address, signature_valid: bool) -> (r: Result<
        (),
        Error,
    >)
        requires
            old(self).wf(),
        ensures
            final(self).wf(),
            old(self)@.sequences_kept(final(self)@),
            match old(self)@.register_result(user_address@, signature_valid) {
                Ok(state) => r is Ok && final(self)@ == state,
                Err(e) => r == Err::<(), Error>(e) && final(self)@ == old(self)@,
            },
    {
        match self.require_not_registered(user_address) {
            Err(e) => {
                return Err(e);
            },
            Ok(_) => {},
        }
        if !signature_valid {
            return Err(Error::SignatureInvalid);
        }
        proof {
            lemma_first_index(self@.users, has_address(user_address@));
        }
        let account = Account { address: *user_address, nonce: FIRST_NONCE, tokens: UniquePayments::new() };
        self.users.push(account);
        proof {
            assert(self@.users =~= old(self)@.users.push(account@));
            assert(self@.whitelist_addresses =~= old(self)@.whitelist_addresses);
            assert(self@.grants =~= old(self)@.grants);
            assert(self@.intents =~= old(self)@.intents);
            assert forall|i: int, j: int| 0 <= i < j < self@.users.len() implies (
            #[trigger] self@.users[i]).address != (#[trigger] self@.users[j]).address by {
                if j == self@.users.len() - 1 {
                    assert(!has_address(user_address@)(old(self)@.users[i]));
                } else {
                    assert(old(self)@.users[i].address != old(self)@.users[j].address);
                }
            }
            assert forall|i: int| 0 <= i < self@.users.len() implies is_bag(
                (#[trigger] self@.users[i]).tokens,
            ) by {
                if i < old(self)@.users.len() {
                    assert(is_bag(old(self)@.users[i].tokens));
                }
            }
            assert(self@.users.len() == self.users.len());
            assert(self@.accounts_wf());
            assert(self@.grants_wf()) by {
                assert forall|i: int| 0 <= i < self@.grants.len() implies 1 <= (
                #[trigger] self@.grants[i]).user_id <= self@.users.len() by {
                    assert(old(self)@.grants[i].user_id <= old(self)@.users.len());
                }
            }
            assert(self@.intents_wf()) by {
                assert forall|i: int| 0 <= i < self@.intents.len() implies 1 <= (
                #[trigger] self@.intents[i]).user_id <= self@.users.len() by {
                    assert(old(self)@.intents[i].user_id <= old(self)@.users.len());
                }
            }
        }
        Ok(())
    }

    /// Registers an identity. The signature must be the identity's own,
    /// over the registration with this engine.
    pub fn register_user(&mut self, user_address: &Address, signature: &Signature) -> (r: Result<
        (),
        Error,
    >)
        requires
            old(self).wf(),
        ensures
            final(self).wf(),
            old(self)@.sequences_kept(final(self)@),
            match old(self)@.register_result(
                user_address@,
                register_signature_valid(user_address@, old(self)@.own_sc_address, signature@),
            ) {
                Ok(state) => r is Ok && final(self)@ == state,
                Err(e) => r == Err::<(), Error>(e) && final(self)@ == old(self)@,
            },
    {
        let signature_valid = check_register_signature(user_address, &self.own_sc_address, signature);
        self.register_user_checked(user_address, signature_valid)
    }

    /// Adds the payments that came with the request to the balance of an
    /// account.
    pub fn deposit_for_user(&mut self, user_address: &Address, payments: PaymentsVec) -> (r: Result<
        (),
        Error,
    >)
        requires
            old(self).wf(),
        ensures
            final(self).wf(),
            old(self)@.sequences_kept(final(self)@),
            match old(self)@.deposit_result(user_address@, payments_view(payments@)) {
                Ok(state) => r is Ok && final(self)@ == state,
                Err(e) => r == Err::<(), Error>(e) && final(self)@ == old(self)@,
            },
    {
        let i = self.find_user(user_address);
        if i >= self.users.len() {
            return Err(Error::UnknownAccount);
        }
        if !has_payment(&payments) {
            return Err(Error::NoPayments);
        }
        let account = &mut self.users[i];
        account.tokens.add_payments(&payments);
        proof {
            let user = old(self)@.user(user_address@);
            let state = old(self)@.with_account(
                i as int,
                user.nonce,
                merged(user.tokens, payments_view(payments@)),
            );
            assert(self@.users =~= state.users);
            assert(self@.whitelist_addresses =~= state.whitelist_addresses);
            assert(self@.grants =~= state.grants);
            assert(self@.intents =~= state.intents);
            lemma_with_account_wf(old(self)@, i as int, user.nonce, self@.users[i as int].tokens);
        }
        Ok(())
    }

    /// The balance of an account.
    pub fn get_user_tokens(&self, user_address: &Address) -> (r: Result<PaymentsVec, Error>)
        requires
            self.wf(),
        ensures
            match r {
                Ok(tokens) => self@.is_registered(user_address@) && payments_view(tokens@) == self@.user(
                    user_address@,
                ).tokens,
                Err(e) => !self@.is_registered(user_address@) && e == Error::UnknownAccount,
            },
    {
        let i = self.find_user(user_address);
        if i >= self.users.len() {
            return Err(Error::UnknownAccount);
        }
        Ok(self.users[i].tokens.duplicate().into_payments())
    }

    /// The sequence number of an account: the number of its actions that
    /// were accepted.
    pub fn get_user_nonce(&self, user_address: &Address) -> (r: Result<Nonce, Error>)
        requires
            self.wf(),
        ensures
            match r {
                Ok(nonce) => self@.is_registered(user_address@) && nonce == self@.user(
                    user_address@,
                ).nonce,
                Err(e) => !self@.is_registered(user_address@) && e == Error::UnknownAccount,
            },
    {
        let i = self.find_user(user_address);
        if i >= self.users.len() {
            return Err(Error::UnknownAccount);
        }
        Ok(self.users[i].nonce)
    }

    /// Deducts one payment from the balance of the account with the given
    /// handle.
    pub fn deduct_single_payment(&mut self, user_id: AddressId, tokens: &EsdtTokenPayment) -> (r: Result<
        (),
        Error,
    >)
        requires
            old(self).wf(),
        ensures
            final(self).wf(),
            old(self)@.sequences_kept(final(self)@),
            match old(self)@.deduct_single_result(user_id, tokens@) {
                Ok(state) => r is Ok && final(self)@ == state,
                Err(e) => r == Err::<(), Error>(e) && final(self)@ == old(self)@,
            },
    {
        if user_id == 0 || user_id > self.users.len() as u64 {
            return Err(Error::UnknownAccount);
        }
        let i = (user_id - 1) as usize;
        let account = &mut self.users[i];
        let deduct_result = account.tokens.deduct_payment(tokens);
        proof {
            let user = old(self)@.users[i as int];
            assert(self@.whitelist_addresses =~= old(self)@.whitelist_addresses);
            assert(self@.grants =~= old(self)@.grants);
            assert(self@.intents =~= old(self)@.intents);
            if deduct_result.is_ok() {
                let state = old(self)@.with_account(i as int, user.nonce, self@.users[i as int].tokens);
                assert(self@.users =~= state.users);
                lemma_with_account_wf(old(self)@, i as int, user.nonce, self@.users[i as int].tokens);
            } else {
                assert(self@.users =~= old(self)@.users);
            }
        }
        if deduct_result.is_err() {
            return Err(Error::InsufficientFunds);
        }
        Ok(())
    }
}

/// A state stays well formed when one account gets another sequence
/// number and a balance that is a bag.
pub proof fn lemma_with_account_wf(state: StateView, index: int, nonce: u64, tokens: Seq<PaymentView>)
    requires
        state.wf(),
        0 <= index < state.users.len(),
        is_bag(tokens),
    ensures
        state.with_account(index, nonce, tokens).wf(),
{
    let next = state.with_account(index, nonce, tokens);
    assert forall|i: int, j: int| 0 <= i < j < next.users.len() implies (#[trigger] next.users[i]).address
        != (#[trigger] next.users[j]).address by {
        assert(state.users[i].address != state.users[j].address);
    }
    assert forall|i: int| 0 <= i < next.users.len() implies is_bag((#[trigger] next.users[i]).tokens) by {
        if i != index {
            assert(is_bag(state.users[i].tokens));
        }
    }
}

} // verus!
