//! The execution of signed actions.
//!
//! The actions of a batch are processed in order. Each one goes through
//! these steps, and the first failure fails the whole batch:
//!
//! 1. its sequence number must be the one that the account has reached;
//! 2. its target must not be the engine itself;
//! 3. the operation it names, if any, must not be empty, too long or
//!    denylisted;
//! 4. the signature must be the account's own, over this engine, the
//!    sequence number and the action;
//! 5. a target that is no contract may not be given an operation;
//! 6. its payments are deducted from the balance of the account, all or
//!    none;
//! 7. what is to be sent is made up according to the call type: a
//!    transfer, a call whose outcome is awaited, or a call that ends
//!    later.
//!
//! After the last step the sequence number of the account goes up by one.
//!
//! The engine does not reach its targets itself. It hands back what is
//! to be sent, in order, as a list of [`Dispatch`] values. Whoever runs
//! the engine sends them: a transfer cannot fail; where a call whose
//! outcome is awaited fails, the request has failed and the state of the
//! engine from before the request is to be kept; when a call that ends
//! later has ended, its outcome is handed to `user_action_cb`, which
//! credits what came back or refunds what was sent.

use vstd::prelude::*;

use crate::amount::BigUint;
use crate::bytes::{bytes_clone, bytes_eq};
use crate::common::common_types::{
    actions_view, args_view, is_contract_address, ActionMultiValue, ActionStruct, ActionStructView,
    ActionView, Address, CallType, GasLimit, GeneralActionData, ScExecutionData,
};
use crate::common::signature::{
    check_execution_signature, execution_signature_outcome, CheckExecutionSignatureArgs, Nonce,
};
use crate::common::unique_payments::{
    clone_payments, deduct_all, payments_view, PaymentView, PaymentsVec, UniquePayments,
};
use crate::common::users::{
    deduct_payments, egld_token_id, egld_token_identifier, lemma_with_account_wf,
};
use crate::error::Error;
use crate::seq_util::{first_index, lemma_first_index, lemma_first_index_is};
use crate::state::{Account, AccountAbstraction, AccountView, IntentId, StateView};

verus! {

/// A call of an operation on a contract.
#[derive(Clone, Debug, PartialEq, Eq)]
pub struct ContractCall {
    pub to: Address,
    pub egld_value: BigUint,
    pub payments: PaymentsVec,
    pub endpoint_name: Vec<u8>,
    pub args: Vec<Vec<u8>>,
    pub gas_limit: GasLimit,
}

/// What a call says.
pub struct ContractCallView {
    pub to: Seq<u8>,
    pub egld_value: nat,
    pub payments: Seq<PaymentView>,
    pub endpoint_name: Seq<u8>,
    pub args: Seq<Seq<u8>>,
    pub gas_limit: u64,
}

impl View for ContractCall {
    type V = ContractCallView;

    open spec fn view(&self) -> ContractCallView {
        ContractCallView {
            to: self.to@,
            egld_value: self.egld_value@,
            payments: payments_view(self.payments@),
            endpoint_name: self.endpoint_name@,
            args: args_view(self.args@),
            gas_limit: self.gas_limit,
        }
    }
}

/// What the engine must be told, besides the outcome, when an
/// asynchronous call has ended.
#[derive(Clone, Debug, PartialEq, Eq)]
pub struct CallbackArgs {
    pub original_user: Address,
    pub original_payments: PaymentsVec,
    pub opt_intent_id: Option<IntentId>,
}

/// What callback arguments say.
pub struct CallbackView {
    pub original_user: Seq<u8>,
    pub original_payments: Seq<PaymentView>,
    pub opt_intent_id: Option<u64>,
}

impl View for CallbackArgs {
    type V = CallbackView;

    open spec fn view(&self) -> CallbackView {
        CallbackView {
            original_user: self.original_user@,
            original_payments: payments_view(self.original_payments@),
            opt_intent_id: self.opt_intent_id,
        }
    }
}

/// What is to be sent for one accepted action.
#[derive(Clone, Debug, PartialEq, Eq)]
pub enum Dispatch {
    /// Move the coin or the tokens to the target.
    Transfer { to: Address, egld_value: BigUint, payments: PaymentsVec },
    /// Call the target and wait for the outcome; a failure fails the
    /// whole request.
    SyncCall(ContractCall),
    /// Call the target without waiting; when the call has ended, hand
    /// its outcome and the callback arguments to `user_action_cb`.
    AsyncCall(ContractCall, CallbackArgs),
}

/// What a dispatch says.
pub enum DispatchView {
    Transfer { to: Seq<u8>, egld_value: nat, payments: Seq<PaymentView> },
    SyncCall(ContractCallView),
    AsyncCall(ContractCallView, CallbackView),
}

impl View for Dispatch {
    type V = DispatchView;

    open spec fn view(&self) -> DispatchView {
        match self {
            Dispatch::Transfer { to, egld_value, payments } => DispatchView::Transfer {
                to: to@,
                egld_value: egld_value@,
                payments: payments_view(payments@),
            },
            Dispatch::SyncCall(call) => DispatchView::SyncCall(call@),
            Dispatch::AsyncCall(call, callback) => DispatchView::AsyncCall(call@, callback@),
        }
    }
}

/// The views of a list of dispatches, in order.
pub open spec fn dispatches_view(dispatches: Seq<Dispatch>) -> Seq<DispatchView> {
    dispatches.map_values(|d: Dispatch| d@)
}

/// The payments in the native coin.
pub open spec fn is_egld() -> spec_fn(PaymentView) -> bool {
    |payment: PaymentView| payment.token_identifier == egld_token_id()
}

/// The amount of native coin that an action pays, and its remaining
/// payments. An action pays in the native coin at most once, and then in
/// nothing else.
pub open spec fn egld_split(payments: Seq<PaymentView>) -> Result<(nat, Seq<PaymentView>), Error> {
    let i = first_index(payments, is_egld());
    if i >= payments.len() {
        Ok((0, payments))
    } else if first_index(payments.skip(i + 1), is_egld()) < payments.len() - (i + 1) {
        Err(Error::MultipleEgldPayments)
    } else if payments.len() > 1 {
        Err(Error::MixedEgldAndEsdt)
    } else {
        Ok((payments[i].amount, Seq::empty()))
    }
}

/// Steps 1 to 5 for one action: the sequence number, the target, the
/// operation name, the signature (given as the outcome of its check) and
/// the shape of the invocation.
pub open spec fn validate_action(
    own_sc_address: Seq<u8>,
    user_nonce: u64,
    action_struct: ActionStructView,
    signature_check: Result<(), Error>,
) -> Result<(), Error> {
    let action = action_struct.action;
    if action_struct.user_nonce != user_nonce {
        Err(Error::InvalidNonce)
    } else if action.dest_address == own_sc_address {
        Err(Error::InvalidDestination)
    } else if action.is_banned_endpoint_name() {
        Err(Error::BannedOperation)
    } else if signature_check is Err {
        signature_check
    } else {
        exec_args_check(action)
    }
}

/// A target that is no contract may not be given an operation.
pub open spec fn exec_args_check(action: ActionView) -> Result<(), Error> {
    if !is_contract_address(action.dest_address) && action.opt_execution is Some {
        Err(Error::InvocationNotAllowed)
    } else {
        Ok(())
    }
}

/// The call that an action makes, or `InvalidTxData` where it names no
/// operation.
pub open spec fn contract_call(action: ActionView, egld_value: nat, payments: Seq<PaymentView>) -> Result<
    ContractCallView,
    Error,
> {
    match action.opt_execution {
        Some(execution) => Ok(
            ContractCallView {
                to: action.dest_address,
                egld_value,
                payments,
                endpoint_name: execution.endpoint_name,
                args: execution.args,
                gas_limit: execution.gas_limit,
            },
        ),
        None => Err(Error::InvalidTxData),
    }
}

/// What is sent for an action whose payments were split into native coin
/// and the rest. `original_payments` are the payments as they were
/// deducted: an asynchronous call carries them to its callback.
pub open spec fn dispatch_by_type(
    user_address: Seq<u8>,
    egld_value: nat,
    action: ActionView,
    original_payments: Seq<PaymentView>,
    opt_intent_id: Option<u64>,
) -> Result<DispatchView, Error> {
    let payments = if egld_value == 0 {
        action.payments
    } else {
        Seq::empty()
    };
    match action.call_type {
        CallType::Transfer => Ok(
            DispatchView::Transfer { to: action.dest_address, egld_value, payments },
        ),
        CallType::Sync => match contract_call(action, egld_value, payments) {
            Ok(call) => Ok(DispatchView::SyncCall(call)),
            Err(e) => Err(e),
        },
        CallType::Async => match contract_call(action, egld_value, payments) {
            Ok(call) => Ok(
                DispatchView::AsyncCall(
                    call,
                    CallbackView { original_user: user_address, original_payments, opt_intent_id },
                ),
            ),
            Err(e) => Err(e),
        },
    }
}

/// What is sent for an action.
pub open spec fn dispatch_for(user_address: Seq<u8>, action: ActionView, opt_intent_id: Option<u64>) -> Result<
    DispatchView,
    Error,
> {
    match egld_split(action.payments) {
        Ok((egld_value, payments)) => dispatch_by_type(
            user_address,
            egld_value,
            ActionView { payments, ..action },
            action.payments,
            opt_intent_id,
        ),
        Err(e) => Err(e),
    }
}

/// Steps 6 and 7 for one action: the custody debit and the dispatch. The
/// result is the balance that is left and what is to be sent.
pub open spec fn debit_and_dispatch(
    user_address: Seq<u8>,
    user_tokens: Seq<PaymentView>,
    action: ActionView,
    opt_intent_id: Option<u64>,
) -> Result<(Seq<PaymentView>, DispatchView), Error> {
    match deduct_all(user_tokens, action.payments) {
        None => Err(Error::InsufficientFunds),
        Some(rest) => match dispatch_for(user_address, action, opt_intent_id) {
            Ok(dispatch) => Ok((rest, dispatch)),
            Err(e) => Err(e),
        },
    }
}

/// What one action leads to, given the outcome of the check of its
/// signature.
pub open spec fn action_result(
    own_sc_address: Seq<u8>,
    user_address: Seq<u8>,
    user_nonce: u64,
    user_tokens: Seq<PaymentView>,
    action_struct: ActionStructView,
    signature_check: Result<(), Error>,
) -> Result<(Seq<PaymentView>, DispatchView), Error> {
    match validate_action(own_sc_address, user_nonce, action_struct, signature_check) {
        Err(e) => Err(e),
        Ok(_) => debit_and_dispatch(user_address, user_tokens, action_struct.action, None),
    }
}

/// What one signed action leads to: `action_result` with the outcome of
/// the check of its signature.
#[verifier::opaque]
pub open spec fn signed_action_result(
    own_sc_address: Seq<u8>,
    user_address: Seq<u8>,
    user_nonce: u64,
    user_tokens: Seq<PaymentView>,
    action_struct: ActionStructView,
) -> Result<(Seq<PaymentView>, DispatchView), Error> {
    action_result(
        own_sc_address,
        user_address,
        user_nonce,
        user_tokens,
        action_struct,
        execution_signature_outcome(
            user_address,
            own_sc_address,
            user_nonce,
            action_struct.action,
            action_struct.signature,
        ),
    )
}

/// What a batch of actions of one account leads to: the sequence number
/// and the balance after the last action, and what is to be sent, in
/// order; or the failure of the first action that fails.
pub open spec fn batch_result(
    own_sc_address: Seq<u8>,
    user_address: Seq<u8>,
    user_nonce: u64,
    user_tokens: Seq<PaymentView>,
    actions: Seq<ActionStructView>,
) -> Result<(u64, Seq<PaymentView>, Seq<DispatchView>), Error>
    decreases actions.len(),
{
    if actions.len() == 0 {
        Ok((user_nonce, user_tokens, Seq::empty()))
    } else {
        match batch_result(own_sc_address, user_address, user_nonce, user_tokens, actions.drop_last()) {
            Err(e) => Err(e),
            Ok((nonce, tokens, dispatches)) => {
                match signed_action_result(own_sc_address, user_address, nonce, tokens, actions.last()) {
                    Err(e) => Err(e),
                    Ok((rest, dispatch)) => Ok(((nonce + 1) as u64, rest, dispatches.push(dispatch))),
                }
            },
        }
    }
}

/// Where a prefix of a batch fails, the batch fails in the same way.
pub proof fn lemma_batch_prefix_fails(
    own_sc_address: Seq<u8>,
    user_address: Seq<u8>,
    user_nonce: u64,
    user_tokens: Seq<PaymentView>,
    actions: Seq<ActionStructView>,
    n: int,
)
    requires
        0 <= n <= actions.len(),
        batch_result(own_sc_address, user_address, user_nonce, user_tokens, actions.take(n)) is Err,
    ensures
        batch_result(own_sc_address, user_address, user_nonce, user_tokens, actions) == batch_result(
            own_sc_address,
            user_address,
            user_nonce,
            user_tokens,
            actions.take(n),
        ),
    decreases actions.len() - n,
{
    if n < actions.len() {
        assert(actions.take(n + 1).drop_last() =~= actions.take(n));
        lemma_batch_prefix_fails(own_sc_address, user_address, user_nonce, user_tokens, actions, n + 1);
    } else {
        assert(actions.take(n) =~= actions);
    }
}

/// A copy of a list of arguments.
pub fn clone_args(args: &Vec<Vec<u8>>) -> (r: Vec<Vec<u8>>)
    ensures
        args_view(r@) == args_view(args@),
{
    let mut r: Vec<Vec<u8>> = Vec::new();
    let mut i: usize = 0;
    while i < args.len()
        invariant
            i <= args@.len(),
            r@.len() == i,
            forall|j: int| 0 <= j < i ==> r@[j]@ == args@[j]@,
        decreases args@.len() - i,
    {
        r.push(bytes_clone(&args[i]));
        i += 1;
    }
    assert(args_view(r@) =~= args_view(args@));
    r
}

/// Fails with `NoActions` where a request carries nothing to do.
pub fn require_non_empty_actions<T>(actions: &Vec<T>) -> (r: Result<(), Error>)
    ensures
        r == if actions@.len() == 0 {
            Err::<(), Error>(Error::NoActions)
        } else {
            Ok(())
        },
{
    if actions.len() == 0 {
        Err(Error::NoActions)
    } else {
        Ok(())
    }
}

/// Fails with `InvocationNotAllowed` where an action for a target that is
/// no contract carries an operation.
pub fn check_exec_args(action: &GeneralActionData) -> (r: Result<(), Error>)
    ensures
        r == exec_args_check(action@),
{
    if !action.dest_address.is_smart_contract_address() {
        if action.opt_execution.is_some() {
            return Err(Error::InvocationNotAllowed);
        }
    }
    Ok(())
}

/// Takes the payment in the native coin, if there is one, out of the
/// payments of an action and returns its amount; zero if there is none.
/// On failure the payments are as before.
pub fn get_egld_value(payments: &mut PaymentsVec) -> (r: Result<BigUint, Error>)
    ensures
        match egld_split(payments_view(old(payments)@)) {
            Ok((egld_value, rest)) => r is Ok && r->Ok_0@ == egld_value && payments_view(
                final(payments)@,
            ) == rest,
            Err(e) => r is Err && r->Err_0 == e && payments_view(final(payments)@) == payments_view(
                old(payments)@,
            ),
        },
{
    let egld_id = egld_token_identifier();
    let ghost all = payments_view(payments@);
    let mut opt_egld_index: Option<usize> = None;
    let mut i: usize = 0;
    while i < payments.len()
        invariant
            i <= payments@.len(),
            payments@ == old(payments)@,
            all == payments_view(payments@),
            egld_id@ == egld_token_id(),
            match opt_egld_index {
                Some(index) => index < i && is_egld()(all[index as int]) && (forall|j: int|
                    0 <= j < i && j != index ==> !is_egld()(#[trigger] all[j])),
                None => forall|j: int| 0 <= j < i ==> !is_egld()(#[trigger] all[j]),
            },
        decreases payments@.len() - i,
    {
        if bytes_eq(&payments[i].token_identifier, &egld_id) {
            assert(is_egld()(all[i as int]));
            match opt_egld_index {
                Some(index) => {
                    proof {
                        lemma_first_index_is(all, is_egld(), index as int);
                        let rest = all.skip(index + 1);
                        lemma_first_index(rest, is_egld());
                        let k = first_index(rest, is_egld());
                        if k >= rest.len() {
                            assert(rest[i - index - 1] == all[i as int]);
                            assert(!is_egld()(rest[i - index - 1]));
                        }
                    }
                    return Err(Error::MultipleEgldPayments);
                },
                None => {
                    opt_egld_index = Some(i);
                },
            }
        }
        i += 1;
    }
    match opt_egld_index {
        Some(index) => {
            proof {
                lemma_first_index_is(all, is_egld(), index as int);
                let rest = all.skip(index + 1);
                assert forall|j: int| 0 <= j < rest.len() implies !is_egld()(#[trigger] rest[j]) by {
                    assert(rest[j] == all[index + 1 + j]);
                }
                lemma_first_index_is(rest, is_egld(), rest.len() as int);
            }
            if payments.len() > 1 {
                return Err(Error::MixedEgldAndEsdt);
            }
            let payment = payments.remove(index);
            assert(payments_view(payments@) =~= Seq::<PaymentView>::empty());
            Ok(payment.amount)
        },
        None => {
            proof {
                lemma_first_index_is(all, is_egld(), all.len() as int);
            }
            Ok(BigUint::zero())
        },
    }
}

/// The call of an action that pays in the native coin.
pub fn build_egld_tx(egld_value: BigUint, action_data: GeneralActionData) -> (r: Result<
    ContractCall,
    Error,
>)
    ensures
        match contract_call(action_data@, egld_value@, Seq::empty()) {
            Ok(call) => r is Ok && r->Ok_0@ == call,
            Err(e) => r is Err && r->Err_0 == e,
        },
{
    match action_data.opt_execution {
        Some(sc_exec_data) => {
            let call = ContractCall {
                to: action_data.dest_address,
                egld_value,
                payments: Vec::new(),
                endpoint_name: sc_exec_data.endpoint_name,
                args: sc_exec_data.args,
                gas_limit: sc_exec_data.gas_limit,
            };
            assert(call@.payments =~= Seq::empty());
            Ok(call)
        },
        None => Err(Error::InvalidTxData),
    }
}

/// The call of an action that pays in tokens, or in nothing.
pub fn build_esdt_tx(action_data: GeneralActionData) -> (r: Result<ContractCall, Error>)
    ensures
        match contract_call(action_data@, 0, action_data@.payments) {
            Ok(call) => r is Ok && r->Ok_0@ == call,
            Err(e) => r is Err && r->Err_0 == e,
        },
{
    match action_data.opt_execution {
        Some(sc_exec_data) => Ok(
            ContractCall {
                to: action_data.dest_address,
                egld_value: BigUint::zero(),
                payments: action_data.payments,
                endpoint_name: sc_exec_data.endpoint_name,
                args: sc_exec_data.args,
                gas_limit: sc_exec_data.gas_limit,
            },
        ),
        None => Err(Error::InvalidTxData),
    }
}

/// What is to be sent for an action whose payments were deducted and
/// split. `original_payments` are the payments as they were deducted.
pub fn execute_action_by_type(
    user_address: Address,
    egld_value: BigUint,
    action: GeneralActionData,
    original_payments: PaymentsVec,
    opt_intent_id: Option<IntentId>,
) -> (r: Result<Dispatch, Error>)
    ensures
        match dispatch_by_type(
            user_address@,
            egld_value@,
            action@,
            payments_view(original_payments@),
            opt_intent_id,
        ) {
            Ok(dispatch) => r is Ok && r->Ok_0@ == dispatch,
            Err(e) => r is Err && r->Err_0 == e,
        },
{
    let is_egld_payment = !egld_value.is_zero();
    match action.call_type {
        CallType::Transfer => {
            let payments = if is_egld_payment {
                Vec::new()
            } else {
                action.payments
            };
            let dispatch = Dispatch::Transfer { to: action.dest_address, egld_value, payments };
            assert(is_egld_payment ==> dispatch@->Transfer_payments =~= Seq::empty());
            Ok(dispatch)
        },
        CallType::Sync => {
            let built = if is_egld_payment {
                build_egld_tx(egld_value, action)
            } else {
                build_esdt_tx(action)
            };
            match built {
                Ok(tx) => Ok(Dispatch::SyncCall(tx)),
                Err(e) => Err(e),
            }
        },
        CallType::Async => {
            let built = if is_egld_payment {
                build_egld_tx(egld_value, action)
            } else {
                build_esdt_tx(action)
            };
            match built {
                Ok(tx) => Ok(
                    Dispatch::AsyncCall(
                        tx,
                        CallbackArgs { original_user: user_address, original_payments, opt_intent_id },
                    ),
                ),
                Err(e) => Err(e),
            }
        },
    }
}

/// A copy of an action.
pub fn clone_action(action: &GeneralActionData) -> (r: GeneralActionData)
    ensures
        r@ == action@,
{
    let opt_execution = match &action.opt_execution {
        Some(execution) => Some(
            ScExecutionData {
                endpoint_name: bytes_clone(&execution.endpoint_name),
                args: clone_args(&execution.args),
                gas_limit: execution.gas_limit,
            },
        ),
        None => None,
    };
    GeneralActionData {
        call_type: action.call_type,
        dest_address: action.dest_address,
        payments: clone_payments(&action.payments),
        opt_execution,
    }
}

/// Step 7 for one action: what is to be sent for it.
pub fn dispatch_action(user_address: &Address, action: &GeneralActionData, opt_intent_id: Option<IntentId>) -> (r:
    Result<Dispatch, Error>)
    ensures
        match dispatch_for(user_address@, action@, opt_intent_id) {
            Ok(dispatch) => r is Ok && r->Ok_0@ == dispatch,
            Err(e) => r is Err && r->Err_0 == e,
        },
{
    let mut action_data = clone_action(action);
    let original_payments = clone_payments(&action.payments);
    let egld_value = match get_egld_value(&mut action_data.payments) {
        Ok(value) => value,
        Err(e) => {
            return Err(e);
        },
    };
    assert(action_data@ == (ActionView { payments: action_data@.payments, ..action@ }));
    execute_action_by_type(*user_address, egld_value, action_data, original_payments, opt_intent_id)
}

/// Steps 6 and 7 for one action: deducts its payments from the balance
/// and returns what is to be sent. On failure the balance is as before.
pub fn debit_and_dispatch_action(
    user_address: &Address,
    user_tokens: &mut UniquePayments,
    action: &GeneralActionData,
    opt_intent_id: Option<IntentId>,
) -> (r: Result<Dispatch, Error>)
    requires
        old(user_tokens).wf(),
    ensures
        final(user_tokens).wf(),
        match debit_and_dispatch(user_address@, old(user_tokens)@, action@, opt_intent_id) {
            Ok((rest, dispatch)) => r is Ok && r->Ok_0@ == dispatch && final(user_tokens)@ == rest,
            Err(e) => r is Err && r->Err_0 == e && final(user_tokens)@ == old(user_tokens)@,
        },
{
    let mut remaining = user_tokens.duplicate();
    match deduct_payments(&action.payments, &mut remaining) {
        Err(e) => {
            return Err(e);
        },
        Ok(_) => {},
    }
    match dispatch_action(user_address, action, opt_intent_id) {
        Ok(dispatch) => {
            *user_tokens = remaining;
            Ok(dispatch)
        },
        Err(e) => Err(e),
    }
}

/// Steps 1 to 5 for one action, given the outcome of the check of its
/// signature.
pub fn check_can_execute_action(
    own_sc_address: &Address,
    user_nonce: Nonce,
    action_struct: &ActionStruct,
    signature_check: Result<(), Error>,
) -> (r: Result<(), Error>)
    ensures
        r == validate_action(own_sc_address@, user_nonce, action_struct@, signature_check),
{
    let action = &action_struct.action;
    if action_struct.user_nonce != user_nonce {
        return Err(Error::InvalidNonce);
    }
    if action.dest_address.same_as(own_sc_address) {
        return Err(Error::InvalidDestination);
    }
    if action.is_banned_endpoint_name() {
        return Err(Error::BannedOperation);
    }
    match signature_check {
        Err(e) => {
            return Err(e);
        },
        Ok(_) => {},
    }
    check_exec_args(action)
}

/// Processes one action of an account, given the outcome of the check of
/// its signature: steps 1 to 7. On failure the balance is as before.
pub fn execute_action(
    own_sc_address: &Address,
    user_address: &Address,
    user_nonce: Nonce,
    user_tokens: &mut UniquePayments,
    action_struct: &ActionStruct,
    signature_check: Result<(), Error>,
) -> (r: Result<Dispatch, Error>)
    requires
        old(user_tokens).wf(),
    ensures
        final(user_tokens).wf(),
        match action_result(
            own_sc_address@,
            user_address@,
            user_nonce,
            old(user_tokens)@,
            action_struct@,
            signature_check,
        ) {
            Ok((rest, dispatch)) => r is Ok && r->Ok_0@ == dispatch && final(user_tokens)@ == rest,
            Err(e) => r is Err && r->Err_0 == e && final(user_tokens)@ == old(user_tokens)@,
        },
{
    match check_can_execute_action(own_sc_address, user_nonce, action_struct, signature_check) {
        Err(e) => {
            return Err(e);
        },
        Ok(_) => {},
    }
    debit_and_dispatch_action(user_address, user_tokens, &action_struct.action, None)
}

/// Processes one signed action of an account: checks its signature and
/// goes through steps 1 to 7. On failure the balance is as before.
pub fn execute_signed_action(
    own_sc_address: &Address,
    user_address: &Address,
    user_nonce: Nonce,
    user_tokens: &mut UniquePayments,
    action_struct: &ActionStruct,
) -> (r: Result<Dispatch, Error>)
    requires
        old(user_tokens).wf(),
    ensures
        final(user_tokens).wf(),
        match signed_action_result(
            own_sc_address@,
            user_address@,
            user_nonce,
            old(user_tokens)@,
            action_struct@,
        ) {
            Ok((rest, dispatch)) => r is Ok && r->Ok_0@ == dispatch && final(user_tokens)@ == rest,
            Err(e) => r is Err && r->Err_0 == e && final(user_tokens)@ == old(user_tokens)@,
        },
{
    reveal(signed_action_result);
    let args = CheckExecutionSignatureArgs {
        own_sc_address,
        user_address,
        user_nonce,
        action: &action_struct.action,
        signature: &action_struct.signature,
    };
    let signature_check = check_execution_signature(args);
    execute_action(
        own_sc_address,
        user_address,
        user_nonce,
        user_tokens,
        action_struct,
        signature_check,
    )
}

/// The number of actions that a request for several accounts holds for
/// the account with the given address.
pub open spec fn actions_for(args: Seq<(Seq<u8>, Seq<ActionStructView>)>, address: Seq<u8>) -> nat
    decreases args.len(),
{
    if args.len() == 0 {
        0
    } else {
        actions_for(args.drop_last(), address) + if args.last().0 == address {
            args.last().1.len()
        } else {
            0
        }
    }
}

impl StateView {
    /// What a batch of actions of one account leads to: the account's
    /// sequence number has advanced by the number of actions and its
    /// balance has lost what they pay; or the first failure.
    pub open spec fn multi_action_result(self, user_address: Seq<u8>, actions: Seq<ActionStructView>) -> Result<
        (StateView, Seq<DispatchView>),
        Error,
    > {
        if !self.is_registered(user_address) {
            Err(Error::UnknownAccount)
        } else {
            let user = self.user(user_address);
            match batch_result(self.own_sc_address, user_address, user.nonce, user.tokens, actions) {
                Ok((nonce, tokens, dispatches)) => Ok(
                    (self.with_account(self.user_index(user_address), nonce, tokens), dispatches),
                ),
                Err(e) => Err(e),
            }
        }
    }

    /// What a request of one account leads to; a request without actions
    /// is refused.
    pub open spec fn multi_action_for_user_result(
        self,
        user_address: Seq<u8>,
        actions: Seq<ActionStructView>,
    ) -> Result<(StateView, Seq<DispatchView>), Error> {
        if actions.len() == 0 {
            Err(Error::NoActions)
        } else {
            self.multi_action_result(user_address, actions)
        }
    }

    /// What the batches of several accounts lead to, one after the other;
    /// or the first failure.
    pub open spec fn multi_users_result(self, args: Seq<(Seq<u8>, Seq<ActionStructView>)>) -> Result<
        (StateView, Seq<DispatchView>),
        Error,
    >
        decreases args.len(),
    {
        if args.len() == 0 {
            Ok((self, Seq::empty()))
        } else {
            match self.multi_users_result(args.drop_last()) {
                Err(e) => Err(e),
                Ok((state, dispatches)) => match state.multi_action_result(args.last().0, args.last().1) {
                    Err(e) => Err(e),
                    Ok((next, more)) => Ok((next, dispatches + more)),
                },
            }
        }
    }

    /// What a request for several accounts leads to; a request without
    /// batches is refused.
    pub open spec fn multi_action_for_multi_users_result(
        self,
        args: Seq<(Seq<u8>, Seq<ActionStructView>)>,
    ) -> Result<(StateView, Seq<DispatchView>), Error> {
        if args.len() == 0 {
            Err(Error::NoActions)
        } else {
            self.multi_users_result(args)
        }
    }

    /// The sequence number of every account can advance by the number of
    /// actions that the request holds for it.
    pub open spec fn nonces_leave_room(self, args: Seq<(Seq<u8>, Seq<ActionStructView>)>) -> bool {
        forall|i: int|
            0 <= i < self.users.len() ==> (#[trigger] self.users[i]).nonce + actions_for(
                args,
                self.users[i].address,
            ) <= u64::MAX
    }

    /// The sequence number of every account can advance by the number of
    /// actions that the request holds for it after its first `done`
    /// batches.
    pub open spec fn room_left(self, args: Seq<(Seq<u8>, Seq<ActionStructView>)>, done: int) -> bool {
        forall|i: int|
            0 <= i < self.users.len() ==> (#[trigger] self.users[i]).nonce + actions_for(
                args,
                self.users[i].address,
            ) - actions_for(args.take(done), self.users[i].address) <= u64::MAX
    }
}

/// The views of the batches of a request for several accounts.
pub open spec fn multi_user_args_view(args: Seq<(Address, Vec<ActionStruct>)>) -> Seq<
    (Seq<u8>, Seq<ActionStructView>),
> {
    args.map_values(|pair: (Address, Vec<ActionStruct>)| (pair.0@, actions_view(pair.1@)))
}

impl AccountAbstraction {
    /// Processes a batch of signed actions of one account, in order. Each
    /// action must carry the account's current sequence number and its
    /// signature; its payments are deducted from the balance, and what is
    /// to be sent for it is returned. Where an action fails, the request
    /// fails as that action does and nothing has changed.
    pub fn multi_action_for_user_common(&mut self, user_address: &Address, actions: &Vec<ActionStruct>) -> (r:
        Result<Vec<Dispatch>, Error>)
        requires
            old(self).wf(),
            old(self)@.is_registered(user_address@) ==> old(self)@.user(user_address@).nonce
                + actions@.len() <= u64::MAX,
        ensures
            final(self).wf(),
            old(self)@.sequences_kept(final(self)@),
            match old(self)@.multi_action_result(user_address@, actions_view(actions@)) {
                Ok((state, dispatches)) => r is Ok && final(self)@ == state && dispatches_view(r->Ok_0@)
                    == dispatches,
                Err(e) => r is Err && r->Err_0 == e && final(self)@ == old(self)@,
            },
            r is Ok ==> final(self)@.user(user_address@).nonce == old(self)@.user(user_address@).nonce
                + actions@.len(),
    {
        let i = self.find_user(user_address);
        if i >= self.users.len() {
            return Err(Error::UnknownAccount);
        }
        let ghost all = actions_view(actions@);
        let ghost own = self@.own_sc_address;
        let ghost first_nonce = self@.users[i as int].nonce;
        let ghost first_tokens = self@.users[i as int].tokens;
        let mut user_nonce = self.users[i].nonce;
        let mut user_tokens = self.users[i].tokens.duplicate();
        let mut dispatches: Vec<Dispatch> = Vec::new();
        let mut k: usize = 0;
        assert(dispatches_view(dispatches@) =~= Seq::empty());
        while k < actions.len()
            invariant
                k <= actions@.len(),
                all == actions_view(actions@),
                *self == *old(self),
                self.wf(),
                own == self@.own_sc_address,
                i == self@.user_index(user_address@),
                i < self.users@.len(),
                self@.users.len() == self.users@.len(),
                first_nonce == self@.users[i as int].nonce,
                first_tokens == self@.users[i as int].tokens,
                user_tokens.wf(),
                user_nonce == first_nonce + k,
                first_nonce + actions@.len() <= u64::MAX,
                batch_result(own, user_address@, first_nonce, first_tokens, all.take(k as int)) == Ok::<
                    (u64, Seq<PaymentView>, Seq<DispatchView>),
                    Error,
                >((user_nonce, user_tokens@, dispatches_view(dispatches@))),
            decreases actions@.len() - k,
        {
            assert(all.take(k + 1).drop_last() =~= all.take(k as int));
            match execute_signed_action(
                &self.own_sc_address,
                user_address,
                user_nonce,
                &mut user_tokens,
                &actions[k],
            ) {
                Err(e) => {
                    proof {
                        lemma_batch_prefix_fails(
                            own,
                            user_address@,
                            first_nonce,
                            first_tokens,
                            all,
                            k + 1,
                        );
                    }
                    return Err(e);
                },
                Ok(dispatch) => {
                    let ghost before = dispatches_view(dispatches@);
                    dispatches.push(dispatch);
                    assert(dispatches_view(dispatches@) =~= before.push(dispatch@));
                },
            }
            user_nonce += 1;
            k += 1;
        }
        assert(all.take(all.len() as int) =~= all);
        let account = &mut self.users[i];
        account.nonce = user_nonce;
        account.tokens = user_tokens;
        proof {
            let state = old(self)@.with_account(i as int, user_nonce, user_tokens@);
            assert(self@.users =~= state.users);
            assert(self@.whitelist_addresses =~= state.whitelist_addresses);
            assert(self@.grants =~= state.grants);
            assert(self@.intents =~= state.intents);
            lemma_with_account_wf(old(self)@, i as int, user_nonce, user_tokens@);
            lemma_with_account_keeps_index(old(self)@, i as int, user_nonce, user_tokens@, user_address@);
        }
        Ok(dispatches)
    }

    /// Whether the sequence number of every account can advance by the
    /// number of actions that the request holds for it.
    pub fn nonces_leave_room(&self, args: &Vec<(Address, Vec<ActionStruct>)>) -> (r: bool)
        ensures
            r == self@.nonces_leave_room(multi_user_args_view(args@)),
    {
        let ghost all = multi_user_args_view(args@);
        let mut i: usize = 0;
        while i < self.users.len()
            invariant
                i <= self.users@.len(),
                self@.users.len() == self.users@.len(),
                all == multi_user_args_view(args@),
                forall|j: int|
                    0 <= j < i ==> (#[trigger] self@.users[j]).nonce + actions_for(
                        all,
                        self@.users[j].address,
                    ) <= u64::MAX,
            decreases self.users@.len() - i,
        {
            let address = &self.users[i].address;
            let limit = u64::MAX - self.users[i].nonce;
            let ghost account = self@.users[i as int];
            let mut count: u64 = 0;
            let mut k: usize = 0;
            while k < args.len()
                invariant
                    k <= args@.len(),
                    all == multi_user_args_view(args@),
                    i < self.users@.len(),
                    self@.users.len() == self.users@.len(),
                    account == self@.users[i as int],
                    address@ == account.address,
                    limit == u64::MAX - account.nonce,
                    count == actions_for(all.take(k as int), account.address),
                    count <= limit,
                decreases args@.len() - k,
            {
                assert(all.take(k + 1).drop_last() =~= all.take(k as int));
                if args[k].0.same_as(address) {
                    let len = args[k].1.len();
                    if len as u64 > limit - count {
                        proof {
                            lemma_actions_for_take(all, k + 1, account.address);
                            assert(self@.users[i as int].nonce + actions_for(all, account.address)
                                > u64::MAX);
                        }
                        return false;
                    }
                    count += len as u64;
                }
                k += 1;
            }
            assert(all.take(all.len() as int) =~= all);
            i += 1;
        }
        true
    }

    /// Processes the batches of several accounts, one after the other;
    /// see `multi_action_for_user_common`. Where any action fails, the
    /// whole request fails as that action does and nothing has changed,
    /// for any of the accounts.
    pub fn multi_action_for_multi_users(&mut self, args: &Vec<(Address, Vec<ActionStruct>)>) -> (r: Result<
        Vec<Dispatch>,
        Error,
    >)
        requires
            old(self).wf(),
            old(self)@.nonces_leave_room(multi_user_args_view(args@)),
        ensures
            final(self).wf(),
            old(self)@.sequences_kept(final(self)@),
            match old(self)@.multi_action_for_multi_users_result(multi_user_args_view(args@)) {
                Ok((state, dispatches)) => r is Ok && final(self)@ == state && dispatches_view(r->Ok_0@)
                    == dispatches,
                Err(e) => r is Err && r->Err_0 == e && final(self)@ == old(self)@,
            },
    {
        match require_non_empty_actions(args) {
            Err(e) => {
                return Err(e);
            },
            Ok(_) => {},
        }
        let ghost all = multi_user_args_view(args@);
        let backup = clone_accounts(&self.users);
        let mut dispatches: Vec<Dispatch> = Vec::new();
        let mut k: usize = 0;
        assert(dispatches_view(dispatches@) =~= Seq::empty());
        assert(all.take(0) =~= Seq::empty());
        while k < args.len()
            invariant
                k <= args@.len(),
                all == multi_user_args_view(args@),
                old(self).wf(),
                self.wf(),
                accounts_view(backup@) == old(self)@.users,
                old(self)@.sequences_kept(self@),
                self@ == (StateView { users: self@.users, ..old(self)@ }),
                old(self)@.multi_users_result(all.take(k as int)) == Ok::<(StateView, Seq<DispatchView>), Error>(
                    (self@, dispatches_view(dispatches@)),
                ),
                self@.room_left(all, k as int),
            decreases args@.len() - k,
        {
            assert(all.take(k + 1).drop_last() =~= all.take(k as int));
            proof {
                if self@.is_registered(args@[k as int].0@) {
                    lemma_room_for_batch(self@, all, k as int);
                }
            }
            let ghost before = self@;
            match self.multi_action_for_user_common(&args[k].0, &args[k].1) {
                Err(e) => {
                    self.users = backup;
                    proof {
                        lemma_multi_users_prefix_fails(old(self)@, all, k + 1);
                        assert(self@.users =~= old(self)@.users);
                        assert(self@ == old(self)@);
                    }
                    return Err(e);
                },
                Ok(mut more) => {
                    let ghost so_far = dispatches_view(dispatches@);
                    let ghost added = dispatches_view(more@);
                    dispatches.append(&mut more);
                    assert(dispatches_view(dispatches@) =~= so_far + added);
                    proof {
                        let address = args@[k as int].0@;
                        let index = before.user_index(address);
                        assert forall|i: int| 0 <= i < old(self)@.users.len() implies (
                        #[trigger] self@.users[i]).address == old(self)@.users[i].address
                            && self@.users[i].nonce >= old(self)@.users[i].nonce by {
                            assert(before.users[i].address == old(self)@.users[i].address);
                            assert(before.users[i].nonce >= old(self)@.users[i].nonce);
                        }
                        let batch = batch_result(
                            before.own_sc_address,
                            address,
                            before.user(address).nonce,
                            before.user(address).tokens,
                            all[k as int].1,
                        );
                        assert(batch is Ok);
                        assert(self@ == before.with_account(index, batch->Ok_0.0, batch->Ok_0.1));
                        lemma_first_index(before.users, crate::state::has_address(address));
                        lemma_with_account_keeps_index(
                            before,
                            index,
                            batch->Ok_0.0,
                            batch->Ok_0.1,
                            address,
                        );
                        lemma_room_left_step(before, self@, all, k as int);
                    }
                },
            }
            k += 1;
        }
        assert(all.take(all.len() as int) =~= all);
        Ok(dispatches)
    }

    /// Processes the signed actions of one account; see
    /// `multi_action_for_user_common`. A request without actions fails
    /// with `NoActions`.
    pub fn multi_action_for_user(&mut self, user_address: &Address, actions: Vec<ActionMultiValue>) -> (r:
        Result<Vec<Dispatch>, Error>)
        requires
            old(self).wf(),
            old(self)@.is_registered(user_address@) ==> old(self)@.user(user_address@).nonce
                + actions@.len() <= u64::MAX,
        ensures
            final(self).wf(),
            old(self)@.sequences_kept(final(self)@),
            match old(self)@.multi_action_for_user_result(user_address@, action_values_view(actions@)) {
                Ok((state, dispatches)) => r is Ok && final(self)@ == state && dispatches_view(r->Ok_0@)
                    == dispatches,
                Err(e) => r is Err && r->Err_0 == e && final(self)@ == old(self)@,
            },
            r is Ok ==> final(self)@.user(user_address@).nonce == old(self)@.user(user_address@).nonce
                + actions@.len(),
    {
        match require_non_empty_actions(&actions) {
            Err(e) => {
                return Err(e);
            },
            Ok(_) => {},
        }
        let mut actions_vec: Vec<ActionStruct> = Vec::new();
        let mut i: usize = 0;
        while i < actions.len()
            invariant
                i <= actions@.len(),
                actions_vec@.len() == i,
                forall|j: int| 0 <= j < i ==> (#[trigger] actions_vec@[j])@ == action_values_view(actions@)[j],
            decreases actions@.len() - i,
        {
            let action_struct = ActionStruct {
                action: clone_action(&actions[i].0),
                user_nonce: actions[i].1,
                signature: actions[i].2,
            };
            actions_vec.push(action_struct);
            i += 1;
        }
        assert(actions_view(actions_vec@) =~= action_values_view(actions@));
        self.multi_action_for_user_common(user_address, &actions_vec)
    }
}

/// The views of a list of accounts, in order.
pub open spec fn accounts_view(accounts: Seq<Account>) -> Seq<AccountView> {
    accounts.map_values(|a: Account| a@)
}

/// A copy of a list of accounts.
pub fn clone_accounts(accounts: &Vec<Account>) -> (r: Vec<Account>)
    ensures
        accounts_view(r@) == accounts_view(accounts@),
{
    let mut r: Vec<Account> = Vec::new();
    let mut i: usize = 0;
    while i < accounts.len()
        invariant
            i <= accounts@.len(),
            r@.len() == i,
            forall|j: int| 0 <= j < i ==> r@[j]@ == accounts@[j]@,
        decreases accounts@.len() - i,
    {
        let account = Account {
            address: accounts[i].address,
            nonce: accounts[i].nonce,
            tokens: accounts[i].tokens.duplicate(),
        };
        r.push(account);
        i += 1;
    }
    assert(accounts_view(r@) =~= accounts_view(accounts@));
    r
}

/// A prefix of a request holds no more actions for an account than the
/// request.
pub proof fn lemma_actions_for_take(args: Seq<(Seq<u8>, Seq<ActionStructView>)>, n: int, address: Seq<u8>)
    requires
        0 <= n <= args.len(),
    ensures
        actions_for(args.take(n), address) <= actions_for(args, address),
    decreases args.len() - n,
{
    if n < args.len() {
        assert(args.take(n + 1).drop_last() =~= args.take(n));
        lemma_actions_for_take(args, n + 1, address);
    } else {
        assert(args.take(n) =~= args);
    }
}

/// Where room is left for the rest of a request, the sequence number of
/// the account of the next batch can advance by the length of that batch.
pub proof fn lemma_room_for_batch(state: StateView, args: Seq<(Seq<u8>, Seq<ActionStructView>)>, k: int)
    requires
        0 <= k < args.len(),
        state.room_left(args, k),
        state.is_registered(args[k].0),
    ensures
        state.user(args[k].0).nonce + args[k].1.len() <= u64::MAX,
{
    let address = args[k].0;
    lemma_first_index(state.users, crate::state::has_address(address));
    let account = state.users[state.user_index(address)];
    assert(account.address == address);
    assert(args.take(k + 1).drop_last() =~= args.take(k));
    assert(args.take(k + 1).last() == args[k]);
    lemma_actions_for_take(args, k + 1, address);
}

/// Where room is left for the rest of a request, and the next batch
/// advances the sequence number of its account by its length and leaves
/// the others as they were, room is left for what then remains.
pub proof fn lemma_room_left_step(
    before: StateView,
    after: StateView,
    args: Seq<(Seq<u8>, Seq<ActionStructView>)>,
    k: int,
)
    requires
        before.wf(),
        0 <= k < args.len(),
        before.room_left(args, k),
        before.is_registered(args[k].0),
        after.users.len() == before.users.len(),
        forall|i: int|
            0 <= i < before.users.len() ==> (#[trigger] after.users[i]).address
                == before.users[i].address && after.users[i].nonce == before.users[i].nonce + if i
                == before.user_index(args[k].0) {
                args[k].1.len()
            } else {
                0
            },
    ensures
        after.room_left(args, k + 1),
{
    let address = args[k].0;
    let index = before.user_index(address);
    lemma_first_index(before.users, crate::state::has_address(address));
    assert(before.users[index].address == address);
    assert(args.take(k + 1).drop_last() =~= args.take(k));
    assert(args.take(k + 1).last() == args[k]);
    assert forall|i: int| 0 <= i < after.users.len() implies (#[trigger] after.users[i]).nonce
        + actions_for(args, after.users[i].address) - actions_for(
        args.take(k + 1),
        after.users[i].address,
    ) <= u64::MAX by {
        let account = before.users[i];
        assert(account.nonce + actions_for(args, account.address) - actions_for(
            args.take(k),
            account.address,
        ) <= u64::MAX);
        if i != index {
            if i < index {
                assert(before.users[i].address != before.users[index].address);
            } else {
                assert(before.users[index].address != before.users[i].address);
            }
        }
    }
}

/// Where a prefix of a request for several accounts fails, the request
/// fails in the same way.
pub proof fn lemma_multi_users_prefix_fails(
    state: StateView,
    args: Seq<(Seq<u8>, Seq<ActionStructView>)>,
    n: int,
)
    requires
        0 <= n <= args.len(),
        state.multi_users_result(args.take(n)) is Err,
    ensures
        state.multi_users_result(args) == state.multi_users_result(args.take(n)),
    decreases args.len() - n,
{
    if n < args.len() {
        assert(args.take(n + 1).drop_last() =~= args.take(n));
        lemma_multi_users_prefix_fails(state, args, n + 1);
    } else {
        assert(args.take(n) =~= args);
    }
}

/// Giving an account another sequence number and balance moves no
/// account.
pub proof fn lemma_with_account_keeps_index(
    state: StateView,
    index: int,
    nonce: u64,
    tokens: Seq<PaymentView>,
    address: Seq<u8>,
)
    requires
        0 <= index < state.users.len(),
    ensures
        state.with_account(index, nonce, tokens).user_index(address) == state.user_index(address),
{
    let next = state.with_account(index, nonce, tokens);
    let pred = crate::state::has_address(address);
    lemma_first_index(state.users, pred);
    let i = state.user_index(address);
    assert forall|j: int| 0 <= j < i implies !pred(#[trigger] next.users[j]) by {
        assert(!pred(state.users[j]));
    }
    lemma_first_index_is(next.users, pred, i);
}

/// The views of a list of actions given as triples.
pub open spec fn action_values_view(actions: Seq<ActionMultiValue>) -> Seq<ActionStructView> {
    actions.map_values(
        |a: ActionMultiValue| ActionStructView { action: a.0@, user_nonce: a.1, signature: a.2@ },
    )
}

} // verus!
