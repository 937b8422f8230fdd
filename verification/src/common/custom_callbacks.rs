//! The completion of asynchronous calls: what was received is credited,
//! or what was sent is refunded.

use vstd::prelude::*;

use crate::common::common_types::Address;
use crate::common::unique_payments::{merged, payments_view, PaymentView, PaymentsVec};
use crate::common::users::lemma_with_account_wf;
use crate::error::Error;
use crate::seq_util::{lemma_first_index, lemma_first_index_is};
use crate::state::{
    is_intent, AccountAbstraction, IntentId, IntentType, IntentView, StateView, StoredIntentView,
};

verus! {

/// How an asynchronous call ended.
#[derive(Clone, Debug, PartialEq, Eq)]
pub enum AsyncCallOutcome {
    /// The call succeeded; these payments came back with its completion.
    Success(PaymentsVec),
    /// The call failed.
    Failure,
}

impl AsyncCallOutcome {
    /// The payments that came back, or `None` for a failed call.
    pub open spec fn received(&self) -> Option<Seq<PaymentView>> {
        match self {
            AsyncCallOutcome::Success(payments) => Some(payments_view(payments@)),
            AsyncCallOutcome::Failure => None,
        }
    }
}

impl StateView {
    /// What crediting payments to an account leads to.
    pub open spec fn credit_result(self, user_address: Seq<u8>, payments: Seq<PaymentView>) -> Result<
        StateView,
        Error,
    > {
        if !self.is_registered(user_address) {
            Err(Error::UnknownAccount)
        } else {
            let user = self.user(user_address);
            Ok(self.with_account(self.user_index(user_address), user.nonce, merged(user.tokens, payments)))
        }
    }

    /// The state without the given intent, if it is there.
    pub open spec fn without_intent(self, user_id: u64, intent_id: u64) -> StateView {
        if self.has_intent(user_id, intent_id) {
            StateView { intents: self.intents.remove(self.intent_index(user_id, intent_id)), ..self }
        } else {
            self
        }
    }

    /// The state in which the given intent, if it is there, stands as
    /// `intent_type`.
    pub open spec fn with_intent_type(self, user_id: u64, intent_id: u64, intent_type: IntentType) -> StateView {
        if self.has_intent(user_id, intent_id) {
            let index = self.intent_index(user_id, intent_id);
            StateView {
                intents: self.intents.update(
                    index,
                    StoredIntentView {
                        intent: IntentView { intent_type, ..self.intents[index].intent },
                        ..self.intents[index]
                    },
                ),
                ..self
            }
        } else {
            self
        }
    }

    /// What the completion of an asynchronous call leads to. After a
    /// success the account is credited with what came back, and the
    /// intent that the call came from, if any, is gone. After a failure
    /// the account gets back the payments that were sent, and the intent
    /// awaits execution again.
    pub open spec fn callback_result(
        self,
        original_user: Seq<u8>,
        original_payments: Seq<PaymentView>,
        opt_intent_id: Option<u64>,
        received: Option<Seq<PaymentView>>,
    ) -> Result<StateView, Error> {
        let credited = match received {
            Some(payments) => payments,
            None => original_payments,
        };
        match self.credit_result(original_user, credited) {
            Err(e) => Err(e),
            Ok(state) => match opt_intent_id {
                None => Ok(state),
                Some(intent_id) => if received is Some {
                    Ok(state.without_intent(self.user_id(original_user), intent_id))
                } else {
                    Ok(
                        state.with_intent_type(
                            self.user_id(original_user),
                            intent_id,
                            IntentType::AwaitingExecution,
                        ),
                    )
                },
            },
        }
    }
}

/// Removing an intent keeps the invariant of the engine.
pub proof fn lemma_without_intent_wf(state: StateView, user_id: u64, intent_id: u64)
    requires
        state.wf(),
    ensures
        state.without_intent(user_id, intent_id).wf(),
{
    if state.has_intent(user_id, intent_id) {
        lemma_first_index(state.intents, is_intent(user_id, intent_id));
        let index = state.intent_index(user_id, intent_id);
        let next = state.without_intent(user_id, intent_id);
        assert forall|i: int| 0 <= i < next.intents.len() implies {
            &&& 1 <= (#[trigger] next.intents[i]).user_id <= next.users.len()
            &&& 1 <= next.intents[i].intent_id <= next.last_intent_id
        } by {
            let i0 = if i < index { i } else { i + 1 };
            assert(next.intents[i] == state.intents[i0]);
        }
        assert forall|i: int, j: int| 0 <= i < j < next.intents.len() implies (
        #[trigger] next.intents[i]).intent_id != (#[trigger] next.intents[j]).intent_id by {
            let i0 = if i < index { i } else { i + 1 };
            let j0 = if j < index { j } else { j + 1 };
            assert(next.intents[i] == state.intents[i0]);
            assert(next.intents[j] == state.intents[j0]);
        }
    }
}

/// Changing where an intent stands keeps the invariant of the engine.
pub proof fn lemma_with_intent_type_wf(state: StateView, user_id: u64, intent_id: u64, intent_type: IntentType)
    requires
        state.wf(),
    ensures
        state.with_intent_type(user_id, intent_id, intent_type).wf(),
{
    if state.has_intent(user_id, intent_id) {
        lemma_first_index(state.intents, is_intent(user_id, intent_id));
        let next = state.with_intent_type(user_id, intent_id, intent_type);
        assert forall|i: int| 0 <= i < next.intents.len() implies {
            &&& 1 <= (#[trigger] next.intents[i]).user_id <= next.users.len()
            &&& 1 <= next.intents[i].intent_id <= next.last_intent_id
        } by {
            assert(next.intents[i].user_id == state.intents[i].user_id);
        }
        assert forall|i: int, j: int| 0 <= i < j < next.intents.len() implies (
        #[trigger] next.intents[i]).intent_id != (#[trigger] next.intents[j]).intent_id by {
            assert(next.intents[i].intent_id == state.intents[i].intent_id);
            assert(next.intents[j].intent_id == state.intents[j].intent_id);
        }
    }
}

impl AccountAbstraction {
    /// The position of the intent of the given owner and number, or the
    /// number of intents if there is none.
    pub(crate) fn find_intent(&self, user_id: u64, intent_id: IntentId) -> (i: usize)
        ensures
            i == self@.intent_index(user_id, intent_id),
            i <= self.intents@.len(),
            self@.intents.len() == self.intents@.len(),
    {
        let mut i: usize = 0;
        while i < self.intents.len()
            invariant
                i <= self.intents@.len(),
                forall|j: int| 0 <= j < i ==> !is_intent(user_id, intent_id)(#[trigger] self@.intents[j]),
            decreases self.intents@.len() - i,
        {
            if self.intents[i].user_id == user_id && self.intents[i].intent_id == intent_id {
                proof {
                    lemma_first_index_is(self@.intents, is_intent(user_id, intent_id), i as int);
                }
                return i;
            }
            i += 1;
        }
        proof {
            lemma_first_index_is(self@.intents, is_intent(user_id, intent_id), i as int);
        }
        i
    }

    /// Gives an account back the payments of a call that failed.
    pub fn refund_user(&mut self, user: &Address, original_payments: &PaymentsVec) -> (r: Result<(), Error>)
        requires
            old(self).wf(),
        ensures
            final(self).wf(),
            old(self)@.sequences_kept(final(self)@),
            match old(self)@.credit_result(user@, payments_view(original_payments@)) {
                Ok(state) => r is Ok && final(self)@ == state,
                Err(e) => r == Err::<(), Error>(e) && final(self)@ == old(self)@,
            },
    {
        let i = self.find_user(user);
        if i >= self.users.len() {
            return Err(Error::UnknownAccount);
        }
        let account = &mut self.users[i];
        account.tokens.add_payments(original_payments);
        proof {
            let before = old(self)@.user(user@);
            let state = old(self)@.with_account(
                i as int,
                before.nonce,
                merged(before.tokens, payments_view(original_payments@)),
            );
            assert(self@.users =~= state.users);
            assert(self@.whitelist_addresses =~= state.whitelist_addresses);
            assert(self@.grants =~= state.grants);
            assert(self@.intents =~= state.intents);
            lemma_with_account_wf(old(self)@, i as int, before.nonce, self@.users[i as int].tokens);
        }
        Ok(())
    }

    /// Credits an account with the payments that a call brought back.
    pub fn add_user_funds(&mut self, user: &Address, payments: &PaymentsVec) -> (r: Result<(), Error>)
        requires
            old(self).wf(),
        ensures
            final(self).wf(),
            old(self)@.sequences_kept(final(self)@),
            match old(self)@.credit_result(user@, payments_view(payments@)) {
                Ok(state) => r is Ok && final(self)@ == state,
                Err(e) => r == Err::<(), Error>(e) && final(self)@ == old(self)@,
            },
    {
        self.refund_user(user, payments)
    }

    /// Settles an asynchronous call that has ended. `original_user`,
    /// `original_payments` and `opt_intent_id` are the callback arguments
    /// that were handed out with the call.
    pub fn user_action_cb(
        &mut self,
        original_user: &Address,
        original_payments: &PaymentsVec,
        opt_intent_id: Option<IntentId>,
        call_result: AsyncCallOutcome,
    ) -> (r: Result<(), Error>)
        requires
            old(self).wf(),
        ensures
            final(self).wf(),
            old(self)@.sequences_kept(final(self)@),
            match old(self)@.callback_result(
                original_user@,
                payments_view(original_payments@),
                opt_intent_id,
                call_result.received(),
            ) {
                Ok(state) => r is Ok && final(self)@ == state,
                Err(e) => r == Err::<(), Error>(e) && final(self)@ == old(self)@,
            },
    {
        let user_id = self.get_user_id(original_user);
        match call_result {
            AsyncCallOutcome::Success(payments) => {
                match self.add_user_funds(original_user, &payments) {
                    Err(e) => {
                        return Err(e);
                    },
                    Ok(_) => {},
                }
                if let Some(intent_id) = opt_intent_id {
                    let ghost credited = self@;
                    let index = self.find_intent(user_id, intent_id);
                    if index < self.intents.len() {
                        let _ = self.intents.remove(index);
                        proof {
                            let state = credited.without_intent(user_id, intent_id);
                            assert(self@.intents =~= state.intents);
                            assert(self@.users =~= state.users);
                            assert(self@.whitelist_addresses =~= state.whitelist_addresses);
                            assert(self@.grants =~= state.grants);
                        }
                    }
                    proof {
                        lemma_without_intent_wf(credited, user_id, intent_id);
                    }
                }
            },
            AsyncCallOutcome::Failure => {
                match self.refund_user(original_user, original_payments) {
                    Err(e) => {
                        return Err(e);
                    },
                    Ok(_) => {},
                }
                if let Some(intent_id) = opt_intent_id {
                    let ghost credited = self@;
                    let index = self.find_intent(user_id, intent_id);
                    if index < self.intents.len() {
                        let stored = &mut self.intents[index];
                        stored.intent.intent_type = IntentType::AwaitingExecution;
                        proof {
                            let state = credited.with_intent_type(
                                user_id,
                                intent_id,
                                IntentType::AwaitingExecution,
                            );
                            assert(self@.intents =~= state.intents);
                            assert(self@.users =~= state.users);
                            assert(self@.whitelist_addresses =~= state.whitelist_addresses);
                            assert(self@.grants =~= state.grants);
                        }
                    }
                    proof {
                        lemma_with_intent_type_wf(
                            credited,
                            user_id,
                            intent_id,
                            IntentType::AwaitingExecution,
                        );
                    }
                }
            },
        }
        Ok(())
    }
}

} // verus!
