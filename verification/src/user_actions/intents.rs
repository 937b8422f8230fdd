//! Intents: asynchronous actions that are validated and saved, and
//! triggered later by anyone.

use vstd::prelude::*;

use crate::common::common_types::{
    actions_view, ActionMultiValue, ActionStruct, ActionStructView, Address, CallType,
    GeneralActionData,
};
use crate::common::custom_callbacks::lemma_with_intent_type_wf;
use crate::common::signature::{
    check_execution_signature, execution_signature_outcome, CheckExecutionSignatureArgs, Nonce,
};

use crate::common::users::lemma_with_account_wf;
use crate::error::Error;
use crate::seq_util::lemma_first_index;
use crate::state::{
    has_address, AccountAbstraction, AccountView, Intent, IntentId, IntentType, IntentView,
    StateView, StoredIntent, StoredIntentView,
};
use crate::user_actions::execution::{
    accounts_view, action_values_view, check_can_execute_action, clone_accounts, clone_action,
    debit_and_dispatch, debit_and_dispatch_action, lemma_room_for_batch, lemma_room_left_step,
    lemma_with_account_keeps_index, multi_user_args_view, require_non_empty_actions,
    validate_action, Dispatch, DispatchView,
};

verus! {

impl Intent {
    /// The intent that stands as `intent_type` and will do `intent_data`.
    pub fn new(intent_type: IntentType, intent_data: GeneralActionData) -> (r: Self)
        ensures
            r.intent_type == intent_type,
            r.intent_data == intent_data,
    {
        Self { intent_type, intent_data }
    }
}

/// Steps 1 to 5 for one signed action: `validate_action` with the outcome
/// of the check of its signature.
#[verifier::opaque]
pub open spec fn signed_validation(
    own_sc_address: Seq<u8>,
    user_address: Seq<u8>,
    user_nonce: u64,
    action_struct: ActionStructView,
) -> Result<(), Error> {
    validate_action(
        own_sc_address,
        user_nonce,
        action_struct,
        execution_signature_outcome(
            user_address,
            own_sc_address,
            user_nonce,
            action_struct.action,
            action_struct.signature,
        ),
    )
}

/// Steps 1 to 5 for each action of a batch in turn: the sequence number
/// after the last action, or the failure of the first action that fails.
pub open spec fn validate_batch(
    own_sc_address: Seq<u8>,
    user_address: Seq<u8>,
    user_nonce: u64,
    actions: Seq<ActionStructView>,
) -> Result<u64, Error>
    decreases actions.len(),
{
    if actions.len() == 0 {
        Ok(user_nonce)
    } else {
        match validate_batch(own_sc_address, user_address, user_nonce, actions.drop_last()) {
            Err(e) => Err(e),
            Ok(nonce) => match signed_validation(own_sc_address, user_address, nonce, actions.last()) {
                Err(e) => Err(e),
                Ok(_) => Ok((nonce + 1) as u64),
            },
        }
    }
}

/// Where the validation of a prefix of a batch fails, that of the batch
/// fails in the same way.
pub proof fn lemma_validate_prefix_fails(
    own_sc_address: Seq<u8>,
    user_address: Seq<u8>,
    user_nonce: u64,
    actions: Seq<ActionStructView>,
    n: int,
)
    requires
        0 <= n <= actions.len(),
        validate_batch(own_sc_address, user_address, user_nonce, actions.take(n)) is Err,
    ensures
        validate_batch(own_sc_address, user_address, user_nonce, actions) == validate_batch(
            own_sc_address,
            user_address,
            user_nonce,
            actions.take(n),
        ),
    decreases actions.len() - n,
{
    if n < actions.len() {
        assert(actions.take(n + 1).drop_last() =~= actions.take(n));
        lemma_validate_prefix_fails(own_sc_address, user_address, user_nonce, actions, n + 1);
    } else {
        assert(actions.take(n) =~= actions);
    }
}

/// The number of actions in a request for several accounts.
pub open spec fn total_actions(args: Seq<(Seq<u8>, Seq<ActionStructView>)>) -> nat
    decreases args.len(),
{
    if args.len() == 0 {
        0
    } else {
        total_actions(args.drop_last()) + args.last().1.len()
    }
}

/// A prefix of a request holds no more actions than the request.
pub proof fn lemma_total_actions_take(args: Seq<(Seq<u8>, Seq<ActionStructView>)>, n: int)
    requires
        0 <= n <= args.len(),
    ensures
        total_actions(args.take(n)) <= total_actions(args),
    decreases args.len() - n,
{
    if n < args.len() {
        assert(args.take(n + 1).drop_last() =~= args.take(n));
        lemma_total_actions_take(args, n + 1);
    } else {
        assert(args.take(n) =~= args);
    }
}

/// Where saving a prefix of a request for several accounts fails, saving
/// the request fails in the same way.
pub proof fn lemma_multi_save_prefix_fails(
    state: StateView,
    args: Seq<(Seq<u8>, Seq<ActionStructView>)>,
    n: int,
)
    requires
        0 <= n <= args.len(),
        state.multi_save_result(args.take(n)) is Err,
    ensures
        state.multi_save_result(args) == state.multi_save_result(args.take(n)),
    decreases args.len() - n,
{
    if n < args.len() {
        assert(args.take(n + 1).drop_last() =~= args.take(n));
        lemma_multi_save_prefix_fails(state, args, n + 1);
    } else {
        assert(args.take(n) =~= args);
    }
}

/// Whether every action of the batch is an asynchronous call.
pub open spec fn all_async(actions: Seq<ActionStructView>) -> bool {
    forall|i: int| 0 <= i < actions.len() ==> (#[trigger] actions[i]).action.call_type == CallType::Async
}

/// The intents that saving a batch adds: one for each action, in order,
/// numbered from the number after the last one given out.
pub open spec fn new_intents(user_id: u64, last_intent_id: u64, actions: Seq<ActionStructView>) -> Seq<
    StoredIntentView,
> {
    Seq::new(
        actions.len(),
        |k: int|
            StoredIntentView {
                user_id,
                intent_id: (last_intent_id + 1 + k) as u64,
                intent: IntentView {
                    intent_type: IntentType::AwaitingExecution,
                    intent_data: actions[k].action,
                },
            },
    )
}

impl StateView {
    /// What saving a batch of intents leads to. Every action is
    /// validated as if it were executed, and must be asynchronous; the
    /// sequence number advances by one for each, and nothing is deducted.
    pub open spec fn save_intents_common_result(self, user_address: Seq<u8>, actions: Seq<ActionStructView>) -> Result<
        StateView,
        Error,
    > {
        if !self.is_registered(user_address) {
            Err(Error::UnknownAccount)
        } else {
            let index = self.user_index(user_address);
            let user = self.users[index];
            match validate_batch(self.own_sc_address, user_address, user.nonce, actions) {
                Err(e) => Err(e),
                Ok(nonce) => if !all_async(actions) {
                    Err(Error::OnlyAsyncSupported)
                } else {
                    Ok(
                        StateView {
                            users: self.users.update(index, AccountView { nonce, ..user }),
                            intents: self.intents + new_intents(
                                self.user_id(user_address),
                                self.last_intent_id,
                                actions,
                            ),
                            last_intent_id: (self.last_intent_id + actions.len()) as u64,
                            ..self
                        },
                    )
                },
            }
        }
    }

    /// What a request to save intents leads to; a request without actions
    /// is refused.
    pub open spec fn save_intents_result(self, user_address: Seq<u8>, actions: Seq<ActionStructView>) -> Result<
        StateView,
        Error,
    > {
        if actions.len() == 0 {
            Err(Error::NoActions)
        } else {
            self.save_intents_common_result(user_address, actions)
        }
    }

    /// What saving the batches of several accounts leads to, one after
    /// the other; or the first failure.
    pub open spec fn multi_save_result(self, args: Seq<(Seq<u8>, Seq<ActionStructView>)>) -> Result<
        StateView,
        Error,
    >
        decreases args.len(),
    {
        if args.len() == 0 {
            Ok(self)
        } else {
            match self.multi_save_result(args.drop_last()) {
                Err(e) => Err(e),
                Ok(state) => state.save_intents_common_result(args.last().0, args.last().1),
            }
        }
    }

    /// What a request to save intents of several accounts leads to; a
    /// request without batches is refused.
    pub open spec fn multi_user_save_intents_result(self, args: Seq<(Seq<u8>, Seq<ActionStructView>)>) -> Result<
        StateView,
        Error,
    > {
        if args.len() == 0 {
            Err(Error::NoActions)
        } else {
            self.multi_save_result(args)
        }
    }

    /// What triggering an intent leads to: its payments are deducted, it
    /// is in progress, and its call is to be sent.
    pub open spec fn execute_intent_result(self, user_address: Seq<u8>, intent_id: u64) -> Result<
        (StateView, DispatchView),
        Error,
    > {
        let user_id = self.user_id(user_address);
        if !self.is_registered(user_address) {
            Err(Error::UnknownAccount)
        } else if !self.has_intent(user_id, intent_id) {
            Err(Error::IntentNotFound)
        } else {
            let stored = self.intents[self.intent_index(user_id, intent_id)];
            let user = self.user(user_address);
            if stored.intent.intent_type != IntentType::AwaitingExecution {
                Err(Error::ExecutionInProgress)
            } else {
                match debit_and_dispatch(
                    user_address,
                    user.tokens,
                    stored.intent.intent_data,
                    Some(intent_id),
                ) {
                    Err(e) => Err(e),
                    Ok((rest, dispatch)) => Ok(
                        (
                            self.with_account(
                                self.user_index(user_address),
                                user.nonce,
                                rest,
                            ).with_intent_type(user_id, intent_id, IntentType::InProgress),
                            dispatch,
                        ),
                    ),
                }
            }
        }
    }
}

/// Steps 1 to 5 for one signed action: checks its signature and the rest.
pub fn check_can_execute_signed_action(
    own_sc_address: &Address,
    user_address: &Address,
    user_nonce: Nonce,
    action_struct: &ActionStruct,
) -> (r: Result<(), Error>)
    ensures
        r == signed_validation(own_sc_address@, user_address@, user_nonce, action_struct@),
{
    reveal(signed_validation);
    let args = CheckExecutionSignatureArgs {
        own_sc_address,
        user_address,
        user_nonce,
        action: &action_struct.action,
        signature: &action_struct.signature,
    };
    let signature_check = check_execution_signature(args);
    check_can_execute_action(own_sc_address, user_nonce, action_struct, signature_check)
}

/// Steps 1 to 5 for each action of a batch in turn.
pub fn check_can_execute_actions(
    own_sc_address: &Address,
    user_address: &Address,
    user_nonce: Nonce,
    actions: &Vec<ActionStruct>,
) -> (r: Result<Nonce, Error>)
    requires
        user_nonce + actions@.len() <= u64::MAX,
    ensures
        r == validate_batch(own_sc_address@, user_address@, user_nonce, actions_view(actions@)),
        r is Ok ==> r->Ok_0 == user_nonce + actions@.len(),
{
    let ghost all = actions_view(actions@);
    let mut nonce = user_nonce;
    let mut k: usize = 0;
    while k < actions.len()
        invariant
            k <= actions@.len(),
            all == actions_view(actions@),
            nonce == user_nonce + k,
            user_nonce + actions@.len() <= u64::MAX,
            validate_batch(own_sc_address@, user_address@, user_nonce, all.take(k as int)) == Ok::<u64, Error>(
                nonce,
            ),
        decreases actions@.len() - k,
    {
        assert(all.take(k + 1).drop_last() =~= all.take(k as int));
        match check_can_execute_signed_action(own_sc_address, user_address, nonce, &actions[k]) {
            Err(e) => {
                proof {
                    lemma_validate_prefix_fails(own_sc_address@, user_address@, user_nonce, all, k + 1);
                }
                return Err(e);
            },
            Ok(_) => {},
        }
        nonce += 1;
        k += 1;
    }
    assert(all.take(all.len() as int) =~= all);
    Ok(nonce)
}

/// Whether every action of the batch is an asynchronous call.
pub fn only_async_calls(actions: &Vec<ActionStruct>) -> (r: bool)
    ensures
        r == all_async(actions_view(actions@)),
{
    let mut k: usize = 0;
    while k < actions.len()
        invariant
            k <= actions@.len(),
            forall|j: int| 0 <= j < k ==> (#[trigger] actions_view(actions@)[j]).action.call_type
                == CallType::Async,
        decreases actions@.len() - k,
    {
        match actions[k].action.call_type {
            CallType::Async => {},
            _ => {
                assert(actions_view(actions@)[k as int].action.call_type != CallType::Async);
                return false;
            },
        }
        k += 1;
    }
    true
}

/// Saving intents keeps the invariant of the engine.
pub proof fn lemma_save_intents_wf(state: StateView, user_address: Seq<u8>, actions: Seq<ActionStructView>)
    requires
        state.wf(),
        state.last_intent_id + actions.len() <= u64::MAX,
        state.save_intents_common_result(user_address, actions) is Ok,
    ensures
        state.save_intents_common_result(user_address, actions)->Ok_0.wf(),
{
    let next = state.save_intents_common_result(user_address, actions)->Ok_0;
    lemma_first_index(state.users, has_address(user_address));
    assert forall|i: int, j: int| 0 <= i < j < next.users.len() implies (#[trigger] next.users[i]).address
        != (#[trigger] next.users[j]).address by {
        assert(state.users[i].address != state.users[j].address);
    }
    assert forall|i: int| 0 <= i < next.users.len() implies crate::common::unique_payments::is_bag(
        (#[trigger] next.users[i]).tokens,
    ) by {
        assert(crate::common::unique_payments::is_bag(state.users[i].tokens));
    }
    assert(next.grants_wf());
    let added = new_intents(state.user_id(user_address), state.last_intent_id, actions);
    assert forall|i: int| 0 <= i < next.intents.len() implies {
        &&& 1 <= (#[trigger] next.intents[i]).user_id <= next.users.len()
        &&& 1 <= next.intents[i].intent_id <= next.last_intent_id
    } by {
        if i < state.intents.len() {
            assert(next.intents[i] == state.intents[i]);
        } else {
            assert(next.intents[i] == added[i - state.intents.len()]);
        }
    }
    assert forall|i: int, j: int| 0 <= i < j < next.intents.len() implies (
    #[trigger] next.intents[i]).intent_id != (#[trigger] next.intents[j]).intent_id by {
        if j < state.intents.len() {
            assert(next.intents[i] == state.intents[i]);
            assert(next.intents[j] == state.intents[j]);
        } else if i < state.intents.len() {
            assert(next.intents[i] == state.intents[i]);
            assert(next.intents[j] == added[j - state.intents.len()]);
            assert(state.intents[i].intent_id <= state.last_intent_id);
        } else {
            assert(next.intents[i] == added[i - state.intents.len()]);
            assert(next.intents[j] == added[j - state.intents.len()]);
        }
    }
}

impl AccountAbstraction {
    /// Validates a batch of signed actions of one account and saves them
    /// as intents. Where an action fails, the request fails as that
    /// action does and nothing has changed.
    pub fn save_intents_common(&mut self, user_address: &Address, actions: &Vec<ActionStruct>) -> (r: Result<
        (),
        Error,
    >)
        requires
            old(self).wf(),
            old(self)@.is_registered(user_address@) ==> old(self)@.user(user_address@).nonce
                + actions@.len() <= u64::MAX,
            old(self)@.last_intent_id + actions@.len() <= u64::MAX,
        ensures
            final(self).wf(),
            old(self)@.sequences_kept(final(self)@),
            match old(self)@.save_intents_common_result(user_address@, actions_view(actions@)) {
                Ok(state) => r is Ok && final(self)@ == state,
                Err(e) => r == Err::<(), Error>(e) && final(self)@ == old(self)@,
            },
            r is Ok ==> final(self)@.user(user_address@).nonce == old(self)@.user(user_address@).nonce
                + actions@.len(),
    {
        let i = self.find_user(user_address);
        if i >= self.users.len() {
            return Err(Error::UnknownAccount);
        }
        let nonce = match check_can_execute_actions(
            &self.own_sc_address,
            user_address,
            self.users[i].nonce,
            actions,
        ) {
            Ok(nonce) => nonce,
            Err(e) => {
                return Err(e);
            },
        };
        if !only_async_calls(actions) {
            return Err(Error::OnlyAsyncSupported);
        }
        let user_id = (i + 1) as u64;
        let ghost all = actions_view(actions@);
        let ghost state = old(self)@.save_intents_common_result(user_address@, all)->Ok_0;
        let ghost added = new_intents(user_id, old(self)@.last_intent_id, all);
        let first_intent_id = self.last_intent_id;
        let mut k: usize = 0;
        assert(self@.intents =~= old(self)@.intents + added.take(0));
        while k < actions.len()
            invariant
                k <= actions@.len(),
                all == actions_view(actions@),
                added == new_intents(user_id, first_intent_id, all),
                first_intent_id + actions@.len() <= u64::MAX,
                self@ == (StateView { intents: self@.intents, ..old(self)@ }),
                self@.intents == old(self)@.intents + added.take(k as int),
                i < self.users@.len(),
            decreases actions@.len() - k,
        {
            let stored = StoredIntent {
                user_id,
                intent_id: first_intent_id + 1 + k as u64,
                intent: Intent::new(IntentType::AwaitingExecution, clone_action(&actions[k].action)),
            };
            let ghost before = self@;
            self.intents.push(stored);
            proof {
                assert(stored@ == added[k as int]);
                assert(self@.intents =~= before.intents.push(stored@));
                assert(added.take(k + 1) =~= added.take(k as int).push(added[k as int]));
                assert(self@.intents =~= old(self)@.intents + added.take(k + 1));
                assert(self@.users =~= before.users);
                assert(self@.whitelist_addresses =~= before.whitelist_addresses);
                assert(self@.grants =~= before.grants);
            }
            k += 1;
        }
        assert(added.take(added.len() as int) =~= added);
        self.last_intent_id = first_intent_id + actions.len() as u64;
        let account = &mut self.users[i];
        account.nonce = nonce;
        proof {
            assert(self@.users =~= state.users);
            assert(self@.intents =~= state.intents);
            assert(self@.whitelist_addresses =~= state.whitelist_addresses);
            assert(self@.grants =~= state.grants);
            assert(self@ == state);
            lemma_save_intents_wf(old(self)@, user_address@, all);
            let user = old(self)@.users[i as int];
            lemma_with_account_keeps_index(old(self)@, i as int, nonce, user.tokens, user_address@);
            assert(old(self)@.with_account(i as int, nonce, user.tokens).users =~= state.users);
        }
        Ok(())
    }

    /// Saves the signed actions of one account as intents; see
    /// `save_intents_common`. A request without actions fails with
    /// `NoActions`.
    pub fn save_intents(&mut self, user_address: &Address, actions: Vec<ActionMultiValue>) -> (r: Result<
        (),
        Error,
    >)
        requires
            old(self).wf(),
            old(self)@.is_registered(user_address@) ==> old(self)@.user(user_address@).nonce
                + actions@.len() <= u64::MAX,
            old(self)@.last_intent_id + actions@.len() <= u64::MAX,
        ensures
            final(self).wf(),
            old(self)@.sequences_kept(final(self)@),
            match old(self)@.save_intents_result(user_address@, action_values_view(actions@)) {
                Ok(state) => r is Ok && final(self)@ == state,
                Err(e) => r == Err::<(), Error>(e) && final(self)@ == old(self)@,
            },
            r is Ok ==> final(self)@.user(user_address@).nonce == old(self)@.user(user_address@).nonce
                + actions@.len(),
    {
        match require_non_empty_actions(&actions) {
            Err(e) => {
                return Err(e);
            },
            Ok(_) => {},
        }
        let mut actions_vec: Vec<ActionStruct> = Vec::new();
        let mut i: usize = 0;
        while i < actions.len()
            invariant
                i <= actions@.len(),
                actions_vec@.len() == i,
                forall|j: int| 0 <= j < i ==> (#[trigger] actions_vec@[j])@ == action_values_view(actions@)[j],
            decreases actions@.len() - i,
        {
            let action_struct = ActionStruct {
                action: clone_action(&actions[i].0),
                user_nonce: actions[i].1,
                signature: actions[i].2,
            };
            actions_vec.push(action_struct);
            i += 1;
        }
        assert(actions_view(actions_vec@) =~= action_values_view(actions@));
        self.save_intents_common(user_address, &actions_vec)
    }

    /// Saves the batches of several accounts as intents, one after the
    /// other; see `save_intents_common`. Where any action fails, the
    /// whole request fails as that action does and nothing has changed.
    pub fn multi_user_save_intents(&mut self, args: &Vec<(Address, Vec<ActionStruct>)>) -> (r: Result<
        (),
        Error,
    >)
        requires
            old(self).wf(),
            old(self)@.nonces_leave_room(multi_user_args_view(args@)),
            old(self)@.last_intent_id + total_actions(multi_user_args_view(args@)) <= u64::MAX,
        ensures
            final(self).wf(),
            old(self)@.sequences_kept(final(self)@),
            match old(self)@.multi_user_save_intents_result(multi_user_args_view(args@)) {
                Ok(state) => r is Ok && final(self)@ == state,
                Err(e) => r == Err::<(), Error>(e) && final(self)@ == old(self)@,
            },
    {
        match require_non_empty_actions(args) {
            Err(e) => {
                return Err(e);
            },
            Ok(_) => {},
        }
        let ghost all = multi_user_args_view(args@);
        let backup = clone_accounts(&self.users);
        let saved_before = self.intents.len();
        let last_before = self.last_intent_id;
        let mut k: usize = 0;
        assert(all.take(0) =~= Seq::empty());
        assert(self@.intents.take(saved_before as int) =~= old(self)@.intents);
        while k < args.len()
            invariant
                k <= args@.len(),
                all == multi_user_args_view(args@),
                old(self).wf(),
                self.wf(),
                accounts_view(backup@) == old(self)@.users,
                old(self)@.sequences_kept(self@),
                saved_before == old(self)@.intents.len(),
                last_before == old(self)@.last_intent_id,
                self@ == (StateView {
                    users: self@.users,
                    intents: self@.intents,
                    last_intent_id: self@.last_intent_id,
                    ..old(self)@
                }),
                self@.intents.len() >= saved_before,
                self@.intents.len() == self.intents@.len(),
                self@.intents.take(saved_before as int) == old(self)@.intents,
                old(self)@.multi_save_result(all.take(k as int)) == Ok::<StateView, Error>(self@),
                total_actions(all.take(k as int)) <= total_actions(all),
                self@.room_left(all, k as int),
                self@.last_intent_id + (total_actions(all) - total_actions(all.take(k as int))) <= u64::MAX,
            decreases args@.len() - k,
        {
            assert(all.take(k + 1).drop_last() =~= all.take(k as int));
            proof {
                lemma_total_actions_take(all, k + 1);
                if self@.is_registered(args@[k as int].0@) {
                    lemma_room_for_batch(self@, all, k as int);
                }
            }
            let ghost before = self@;
            match self.save_intents_common(&args[k].0, &args[k].1) {
                Err(e) => {
                    self.users = backup;
                    self.intents.truncate(saved_before);
                    self.last_intent_id = last_before;
                    proof {
                        lemma_multi_save_prefix_fails(old(self)@, all, k + 1);
                        assert(self@.users =~= old(self)@.users);
                        assert(self@.intents =~= before.intents.take(saved_before as int));
                        assert(self@ == old(self)@);
                    }
                    return Err(e);
                },
                Ok(_) => {
                    proof {
                        let address = args@[k as int].0@;
                        let index = before.user_index(address);
                        assert forall|i: int| 0 <= i < old(self)@.users.len() implies (
                        #[trigger] self@.users[i]).address == old(self)@.users[i].address
                            && self@.users[i].nonce >= old(self)@.users[i].nonce by {
                            assert(before.users[i].address == old(self)@.users[i].address);
                            assert(before.users[i].nonce >= old(self)@.users[i].nonce);
                        }
                        lemma_first_index(before.users, has_address(address));
                        assert(self@.intents.take(saved_before as int) =~= before.intents.take(
                            saved_before as int,
                        ));
                        let user = before.users[index];
                        lemma_with_account_keeps_index(
                            before,
                            index,
                            self@.users[index].nonce,
                            user.tokens,
                            address,
                        );
                        assert(before.with_account(index, self@.users[index].nonce, user.tokens).users
                            =~= self@.users);
                        lemma_room_left_step(before, self@, all, k as int);
                    }
                },
            }
            k += 1;
        }
        assert(all.take(all.len() as int) =~= all);
        Ok(())
    }

    /// Triggers a saved intent: deducts its payments from the balance of
    /// its owner, marks it as in progress and returns the call that is to
    /// be sent. On failure nothing has changed.
    pub fn execute_intent(&mut self, user_address: &Address, intent_id: IntentId) -> (r: Result<
        Dispatch,
        Error,
    >)
        requires
            old(self).wf(),
        ensures
            final(self).wf(),
            old(self)@.sequences_kept(final(self)@),
            match old(self)@.execute_intent_result(user_address@, intent_id) {
                Ok((state, dispatch)) => r is Ok && final(self)@ == state && r->Ok_0@ == dispatch,
                Err(e) => r is Err && r->Err_0 == e && final(self)@ == old(self)@,
            },
    {
        let i = self.find_user(user_address);
        if i >= self.users.len() {
            return Err(Error::UnknownAccount);
        }
        let user_id = (i + 1) as u64;
        let index = self.find_intent(user_id, intent_id);
        if index >= self.intents.len() {
            return Err(Error::IntentNotFound);
        }
        match self.intents[index].intent.intent_type {
            IntentType::AwaitingExecution => {},
            IntentType::InProgress => {
                return Err(Error::ExecutionInProgress);
            },
        }
        let action = clone_action(&self.intents[index].intent.intent_data);
        let account = &mut self.users[i];
        let dispatched = debit_and_dispatch_action(user_address, &mut account.tokens, &action, Some(intent_id));
        proof {
            assert(self@.whitelist_addresses =~= old(self)@.whitelist_addresses);
            assert(self@.grants =~= old(self)@.grants);
            assert(self@.intents =~= old(self)@.intents);
        }
        let dispatch = match dispatched {
            Err(e) => {
                assert(self@.users =~= old(self)@.users);
                return Err(e);
            },
            Ok(dispatch) => dispatch,
        };
        let ghost debited = self@;
        proof {
            let user = old(self)@.users[i as int];
            let state = old(self)@.with_account(i as int, user.nonce, self@.users[i as int].tokens);
            assert(self@.users =~= state.users);
            lemma_with_account_wf(old(self)@, i as int, user.nonce, self@.users[i as int].tokens);
        }
        let stored = &mut self.intents[index];
        stored.intent.intent_type = IntentType::InProgress;
        proof {
            let state = debited.with_intent_type(user_id, intent_id, IntentType::InProgress);
            assert(self@.intents =~= state.intents);
            assert(self@.users =~= state.users);
            assert(self@.whitelist_addresses =~= state.whitelist_addresses);
            assert(self@.grants =~= state.grants);
            lemma_with_intent_type_wf(debited, user_id, intent_id, IntentType::InProgress);
        }
        Ok(dispatch)
    }
}

} // verus!
