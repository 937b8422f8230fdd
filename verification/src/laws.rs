//! What holds of the engine as a whole: how sequence numbers move, and
//! what registration and a wrong sequence number lead to.

use vstd::prelude::*;

use crate::common::common_types::ActionStructView;
use crate::common::unique_payments::{deduct_all, PaymentView};
use crate::common::unique_payments_laws::law_deduct_all_in_turn;
use crate::error::Error;
use crate::seq_util::{lemma_first_index, lemma_first_index_is};
use crate::state::{has_address, StateView};
use crate::user_actions::execution::{
    batch_result, dispatch_for, lemma_batch_prefix_fails, signed_action_result,
};
use crate::user_actions::intents::{lemma_validate_prefix_fails, signed_validation, validate_batch};

verus! {

/// A batch that is accepted advances the sequence number by exactly one
/// for each of its actions.
pub proof fn law_batch_advances_sequence(
    own_sc_address: Seq<u8>,
    user_address: Seq<u8>,
    user_nonce: u64,
    user_tokens: Seq<PaymentView>,
    actions: Seq<ActionStructView>,
)
    requires
        user_nonce + actions.len() <= u64::MAX,
        batch_result(own_sc_address, user_address, user_nonce, user_tokens, actions) is Ok,
    ensures
        batch_result(own_sc_address, user_address, user_nonce, user_tokens, actions)->Ok_0.0 == user_nonce
            + actions.len(),
        batch_result(own_sc_address, user_address, user_nonce, user_tokens, actions)->Ok_0.2.len()
            == actions.len(),
    decreases actions.len(),
{
    if actions.len() > 0 {
        law_batch_advances_sequence(
            own_sc_address,
            user_address,
            user_nonce,
            user_tokens,
            actions.drop_last(),
        );
    }
}

/// The payments of all actions of a batch, in order.
pub open spec fn batch_payments(actions: Seq<ActionStructView>) -> Seq<PaymentView>
    decreases actions.len(),
{
    if actions.len() == 0 {
        Seq::empty()
    } else {
        batch_payments(actions.drop_last()) + actions.last().action.payments
    }
}

/// Whether something can be sent for every action of a batch: no action
/// pays in the native coin more than once or in the coin and in tokens,
/// and every call names an operation.
pub open spec fn all_dispatchable(user_address: Seq<u8>, actions: Seq<ActionStructView>) -> bool {
    forall|i: int|
        0 <= i < actions.len() ==> dispatch_for(user_address, (#[trigger] actions[i]).action, None) is Ok
}

/// A batch succeeds where each of its actions carries the sequence number
/// that the account has reached at its turn and passes the checks of the
/// target, the operation name, the signature and the shape of the
/// invocation, where the balance covers the payments of all actions, and
/// where something can be sent for each. The sequence number then goes up
/// by exactly one for each action, whatever the call types are, and the
/// balance loses exactly what the actions pay.
pub proof fn law_valid_batch_succeeds(
    own_sc_address: Seq<u8>,
    user_address: Seq<u8>,
    user_nonce: u64,
    user_tokens: Seq<PaymentView>,
    actions: Seq<ActionStructView>,
)
    requires
        user_nonce + actions.len() <= u64::MAX,
        validate_batch(own_sc_address, user_address, user_nonce, actions) is Ok,
        deduct_all(user_tokens, batch_payments(actions)) is Some,
        all_dispatchable(user_address, actions),
    ensures
        batch_result(own_sc_address, user_address, user_nonce, user_tokens, actions) is Ok,
        batch_result(own_sc_address, user_address, user_nonce, user_tokens, actions)->Ok_0.0 == user_nonce
            + actions.len(),
        batch_result(own_sc_address, user_address, user_nonce, user_tokens, actions)->Ok_0.1 == deduct_all(
            user_tokens,
            batch_payments(actions),
        )->0,
        batch_result(own_sc_address, user_address, user_nonce, user_tokens, actions)->Ok_0.2.len()
            == actions.len(),
    decreases actions.len(),
{
    if actions.len() > 0 {
        reveal(signed_validation);
        reveal(signed_action_result);
        let init = actions.drop_last();
        let last = actions.last();
        law_deduct_all_in_turn(user_tokens, batch_payments(init), last.action.payments);
        assert forall|i: int| 0 <= i < init.len() implies dispatch_for(
            user_address,
            (#[trigger] init[i]).action,
            None,
        ) is Ok by {
            assert(init[i] == actions[i]);
        }
        law_validation_advances_sequence(own_sc_address, user_address, user_nonce, init);
        law_valid_batch_succeeds(own_sc_address, user_address, user_nonce, user_tokens, init);
        assert(dispatch_for(user_address, actions[actions.len() - 1].action, None) is Ok);
    }
}

/// A request of an account succeeds where its batch meets the conditions
/// of `law_valid_batch_succeeds`; the sequence number of the account then
/// goes up by the number of actions.
pub proof fn law_valid_request_succeeds(state: StateView, user_address: Seq<u8>, actions: Seq<ActionStructView>)
    requires
        state.is_registered(user_address),
        state.user(user_address).nonce + actions.len() <= u64::MAX,
        validate_batch(state.own_sc_address, user_address, state.user(user_address).nonce, actions) is Ok,
        deduct_all(state.user(user_address).tokens, batch_payments(actions)) is Some,
        all_dispatchable(user_address, actions),
    ensures
        state.multi_action_result(user_address, actions) is Ok,
        state.multi_action_result(user_address, actions)->Ok_0.0.users[state.user_index(
            user_address,
        )].nonce == state.user(user_address).nonce + actions.len(),
        state.multi_action_result(user_address, actions)->Ok_0.1.len() == actions.len(),
{
    let user = state.user(user_address);
    lemma_first_index(state.users, has_address(user_address));
    law_valid_batch_succeeds(state.own_sc_address, user_address, user.nonce, user.tokens, actions);
}

/// A batch of intents that passes validation advances the sequence
/// number by exactly one for each of its actions.
pub proof fn law_validation_advances_sequence(
    own_sc_address: Seq<u8>,
    user_address: Seq<u8>,
    user_nonce: u64,
    actions: Seq<ActionStructView>,
)
    requires
        user_nonce + actions.len() <= u64::MAX,
        validate_batch(own_sc_address, user_address, user_nonce, actions) is Ok,
    ensures
        validate_batch(own_sc_address, user_address, user_nonce, actions)->Ok_0 == user_nonce
            + actions.len(),
    decreases actions.len(),
{
    if actions.len() > 0 {
        law_validation_advances_sequence(own_sc_address, user_address, user_nonce, actions.drop_last());
    }
}

/// An action that does not carry the sequence number that the account
/// has reached when its turn comes fails the batch with `InvalidNonce`.
pub proof fn law_wrong_sequence_fails(
    own_sc_address: Seq<u8>,
    user_address: Seq<u8>,
    user_nonce: u64,
    user_tokens: Seq<PaymentView>,
    actions: Seq<ActionStructView>,
    k: int,
)
    requires
        0 <= k < actions.len(),
        batch_result(own_sc_address, user_address, user_nonce, user_tokens, actions.take(k)) is Ok,
        actions[k].user_nonce != batch_result(
            own_sc_address,
            user_address,
            user_nonce,
            user_tokens,
            actions.take(k),
        )->Ok_0.0,
    ensures
        batch_result(own_sc_address, user_address, user_nonce, user_tokens, actions) == Err::<
            (u64, Seq<PaymentView>, Seq<crate::user_actions::execution::DispatchView>),
            Error,
        >(Error::InvalidNonce),
{
    reveal(signed_action_result);
    assert(actions.take(k + 1).drop_last() =~= actions.take(k));
    assert(actions.take(k + 1).last() == actions[k]);
    lemma_batch_prefix_fails(own_sc_address, user_address, user_nonce, user_tokens, actions, k + 1);
}

/// A request with an action that does not carry the sequence number that
/// the account has reached at its turn, after actions that all succeed,
/// fails with `InvalidNonce`, whatever else that action holds.
pub proof fn law_invalid_nonce_at(
    state: StateView,
    user_address: Seq<u8>,
    actions: Seq<ActionStructView>,
    k: int,
)
    requires
        state.is_registered(user_address),
        0 <= k < actions.len(),
        state.user(user_address).nonce + k <= u64::MAX,
        state.multi_action_result(user_address, actions.take(k)) is Ok,
        actions[k].user_nonce != state.user(user_address).nonce + k,
    ensures
        state.multi_action_result(user_address, actions) is Err,
        state.multi_action_result(user_address, actions)->Err_0 == Error::InvalidNonce,
{
    let user = state.user(user_address);
    law_batch_advances_sequence(state.own_sc_address, user_address, user.nonce, user.tokens, actions.take(k));
    law_wrong_sequence_fails(state.own_sc_address, user_address, user.nonce, user.tokens, actions, k);
}

/// A batch that succeeds advances the sequence number of its account by
/// the number of its actions, and leaves every other account, the grants
/// and the intents as they were.
pub proof fn law_batch_touches_one_account(
    state: StateView,
    user_address: Seq<u8>,
    actions: Seq<ActionStructView>,
)
    requires
        state.is_registered(user_address),
        state.user(user_address).nonce + actions.len() <= u64::MAX,
        state.multi_action_result(user_address, actions) is Ok,
    ensures
        ({
            let next = state.multi_action_result(user_address, actions)->Ok_0.0;
            let index = state.user_index(user_address);
            &&& next.users.len() == state.users.len()
            &&& next.users[index].address == user_address
            &&& next.users[index].nonce == state.users[index].nonce + actions.len()
            &&& forall|i: int|
                0 <= i < state.users.len() && i != index ==> #[trigger] next.users[i] == state.users[i]
            &&& next.whitelist_addresses == state.whitelist_addresses
            &&& next.grants == state.grants
            &&& next.intents == state.intents
            &&& next.last_intent_id == state.last_intent_id
        }),
{
    let user = state.user(user_address);
    lemma_first_index(state.users, has_address(user_address));
    law_batch_advances_sequence(state.own_sc_address, user_address, user.nonce, user.tokens, actions);
}

/// A request whose first action does not carry the account's current
/// sequence number fails with `InvalidNonce`.
pub proof fn law_invalid_nonce(state: StateView, user_address: Seq<u8>, actions: Seq<ActionStructView>)
    requires
        state.is_registered(user_address),
        actions.len() > 0,
        actions[0].user_nonce != state.user(user_address).nonce,
    ensures
        state.multi_action_result(user_address, actions) is Err,
        state.multi_action_result(user_address, actions)->Err_0 == Error::InvalidNonce,
{
    let user = state.user(user_address);
    assert(actions.take(0) =~= Seq::empty());
    law_wrong_sequence_fails(state.own_sc_address, user_address, user.nonce, user.tokens, actions, 0);
}

/// A batch of intents whose first action does not carry the account's
/// current sequence number fails with `InvalidNonce`.
pub proof fn law_invalid_nonce_for_intents(
    state: StateView,
    user_address: Seq<u8>,
    actions: Seq<ActionStructView>,
)
    requires
        state.is_registered(user_address),
        actions.len() > 0,
        actions[0].user_nonce != state.user(user_address).nonce,
    ensures
        state.save_intents_common_result(user_address, actions) == Err::<StateView, Error>(
            Error::InvalidNonce,
        ),
{
    reveal(signed_validation);
    let user = state.user(user_address);
    assert(actions.take(0) =~= Seq::empty());
    assert(validate_batch(state.own_sc_address, user_address, user.nonce, actions.take(0)) == Ok::<
        u64,
        Error,
    >(user.nonce));
    assert(actions.take(1).drop_last() =~= actions.take(0));
    assert(actions.take(1).last() == actions[0]);
    lemma_validate_prefix_fails(state.own_sc_address, user_address, user.nonce, actions, 1);
}

/// An identity that was registered cannot be registered again.
pub proof fn law_register_twice(
    state: StateView,
    user_address: Seq<u8>,
    signature_valid: bool,
    second_signature_valid: bool,
)
    requires
        state.register_result(user_address, signature_valid) is Ok,
    ensures
        state.register_result(user_address, signature_valid)->Ok_0.register_result(
            user_address,
            second_signature_valid,
        ) == Err::<StateView, Error>(Error::AlreadyRegistered),
{
    let next = state.register_result(user_address, signature_valid)->Ok_0;
    lemma_first_index(state.users, has_address(user_address));
    lemma_first_index(next.users, has_address(user_address));
    let k = next.user_index(user_address);
    if k >= next.users.len() {
        assert(has_address(user_address)(next.users[state.users.len() as int]));
    }
}

/// Registration gives the new account the next handle, sequence number
/// 0 and an empty balance, and leaves the handles of all others as they
/// were.
pub proof fn law_register_assigns_next_id(state: StateView, user_address: Seq<u8>, other: Seq<u8>)
    requires
        state.wf(),
        state.users.len() < usize::MAX,
        state.register_result(user_address, true) is Ok,
    ensures
        state.register_result(user_address, true)->Ok_0.user_id(user_address) == state.users.len() + 1,
        state.register_result(user_address, true)->Ok_0.user(user_address).nonce == 0,
        state.register_result(user_address, true)->Ok_0.user(user_address).tokens.len() == 0,
        state.is_registered(other) ==> state.register_result(user_address, true)->Ok_0.user_id(other)
            == state.user_id(other),
{
    let next = state.register_result(user_address, true)->Ok_0;
    lemma_first_index(state.users, has_address(user_address));
    assert forall|j: int| 0 <= j < state.users.len() implies !has_address(user_address)(
        #[trigger] next.users[j],
    ) by {
        assert(!has_address(user_address)(state.users[j]));
    }
    lemma_first_index_is(next.users, has_address(user_address), state.users.len() as int);
    if state.is_registered(other) {
        lemma_first_index(state.users, has_address(other));
        let i = state.user_index(other);
        assert forall|j: int| 0 <= j < i implies !has_address(other)(#[trigger] next.users[j]) by {
            assert(!has_address(other)(state.users[j]));
        }
        assert(next.users[i] == state.users[i]);
        lemma_first_index_is(next.users, has_address(other), i);
    }
}

/// The completion of an asynchronous call, however it ended, leaves
/// every sequence number as it was.
pub proof fn law_callback_keeps_sequences(
    state: StateView,
    original_user: Seq<u8>,
    original_payments: Seq<PaymentView>,
    opt_intent_id: Option<u64>,
    received: Option<Seq<PaymentView>>,
)
    requires
        state.callback_result(original_user, original_payments, opt_intent_id, received) is Ok,
    ensures
        state.callback_result(original_user, original_payments, opt_intent_id, received)->Ok_0.users.len()
            == state.users.len(),
        forall|i: int|
            0 <= i < state.users.len() ==> (#[trigger] state.callback_result(
                original_user,
                original_payments,
                opt_intent_id,
                received,
            )->Ok_0.users[i]).nonce == state.users[i].nonce,
{
    lemma_first_index(state.users, has_address(original_user));
}

} // verus!
