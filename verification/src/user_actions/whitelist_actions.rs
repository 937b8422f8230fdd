//! Delegation: an account lets a delegate trigger chosen operations on
//! chosen targets in its name.

use vstd::prelude::*;

use crate::bytes::{bytes_clone, bytes_eq};
use crate::common::common_types::{
    args_view, ActionView, Address, CallType, ExecutionView, GasLimit, GeneralActionData,
    ScExecutionData,
};
use crate::common::unique_payments::{
    deduct_from, is_bag, EsdtTokenPayment, PaymentView, PaymentsVec,
};
use crate::common::users::lemma_with_account_wf;
use crate::error::Error;
use crate::seq_util::{first_index, lemma_first_index, lemma_first_index_is};
use crate::state::{
    is_bytes, is_grant, AccountAbstraction, Grant, GrantView, StateView, WhitelistAction,
    WhitelistActionView,
};
use crate::user_actions::execution::{
    check_exec_args, dispatch_action, dispatch_for, exec_args_check, Dispatch, DispatchView,
};

verus! {

/// The gas that is kept back when a delegate triggers a call.
pub const GAS_TO_SAVE: GasLimit = 100_000;

impl WhitelistAction {
    /// The operation `endpoint_name` on the target `sc_address`.
    pub fn new(sc_address: Address, endpoint_name: Vec<u8>) -> (r: Self)
        ensures
            r.sc_address == sc_address,
            r.endpoint_name == endpoint_name,
    {
        Self { sc_address, endpoint_name }
    }
}

/// The views of a list of grants, in order.
pub open spec fn grants_view(grants: Seq<Grant>) -> Seq<GrantView> {
    grants.map_values(|g: Grant| g@)
}

/// The views of a list of pairs of a target and an operation name.
pub open spec fn action_types_view(action_types: Seq<(Address, Vec<u8>)>) -> Seq<WhitelistActionView> {
    action_types.map_values(
        |pair: (Address, Vec<u8>)| WhitelistActionView { sc_address: pair.0@, endpoint_name: pair.1@ },
    )
}

/// The gas that a delegated call gets, given the gas that is left.
pub open spec fn gas_for_promise(gas_left: u64) -> Result<u64, Error> {
    if gas_left > GAS_TO_SAVE {
        Ok((gas_left - GAS_TO_SAVE) as u64)
    } else {
        Err(Error::NotEnoughGas)
    }
}

/// The gas that a delegated call gets: what is left but for
/// `GAS_TO_SAVE`; it fails with `NotEnoughGas` where no more than that
/// is left.
pub fn get_gas_for_promise(gas_left: GasLimit) -> (r: Result<GasLimit, Error>)
    ensures
        r == gas_for_promise(gas_left),
{
    if gas_left > GAS_TO_SAVE {
        Ok(gas_left - GAS_TO_SAVE)
    } else {
        Err(Error::NotEnoughGas)
    }
}

/// Fails with `NoWhitelistActions` where a request names no action.
pub fn require_non_empty_action_types<T>(action_types: &Vec<T>) -> (r: Result<(), Error>)
    ensures
        r == if action_types@.len() == 0 {
            Err::<(), Error>(Error::NoWhitelistActions)
        } else {
            Ok(())
        },
{
    if action_types.len() == 0 {
        Err(Error::NoWhitelistActions)
    } else {
        Ok(())
    }
}

/// The grants after each of the actions was granted in turn; an action
/// that is granted already adds nothing.
pub open spec fn with_grants(
    grants: Seq<GrantView>,
    user_id: u64,
    whitelist_id: u64,
    actions: Seq<WhitelistActionView>,
) -> Seq<GrantView>
    decreases actions.len(),
{
    if actions.len() == 0 {
        grants
    } else {
        let before = with_grants(grants, user_id, whitelist_id, actions.drop_last());
        let grant = GrantView { user_id, whitelist_id, action: actions.last() };
        if first_index(before, is_grant(grant)) < before.len() {
            before
        } else {
            before.push(grant)
        }
    }
}

/// The grants after each of the actions was withdrawn in turn, or `None`
/// where one of them is not granted when its turn comes.
pub open spec fn without_grants(
    grants: Seq<GrantView>,
    user_id: u64,
    whitelist_id: u64,
    actions: Seq<WhitelistActionView>,
) -> Option<Seq<GrantView>>
    decreases actions.len(),
{
    if actions.len() == 0 {
        Some(grants)
    } else {
        match without_grants(grants, user_id, whitelist_id, actions.drop_last()) {
            None => None,
            Some(before) => {
                let grant = GrantView { user_id, whitelist_id, action: actions.last() };
                let i = first_index(before, is_grant(grant));
                if i < before.len() {
                    Some(before.remove(i))
                } else {
                    None
                }
            },
        }
    }
}

/// Where the withdrawal of a prefix fails, the withdrawal of the whole
/// list fails.
pub proof fn lemma_without_grants_prefix(
    grants: Seq<GrantView>,
    user_id: u64,
    whitelist_id: u64,
    actions: Seq<WhitelistActionView>,
    n: int,
)
    requires
        0 <= n <= actions.len(),
        without_grants(grants, user_id, whitelist_id, actions.take(n)) is None,
    ensures
        without_grants(grants, user_id, whitelist_id, actions) is None,
    decreases actions.len() - n,
{
    if n < actions.len() {
        assert(actions.take(n + 1).drop_last() =~= actions.take(n));
        lemma_without_grants_prefix(grants, user_id, whitelist_id, actions, n + 1);
    } else {
        assert(actions.take(n) =~= actions);
    }
}

/// The grants are distinct and name accounts and delegates below the
/// given bounds.
pub open spec fn grants_valid(grants: Seq<GrantView>, users: nat, delegates: nat) -> bool {
    &&& forall|i: int|
        0 <= i < grants.len() ==> {
            &&& 1 <= (#[trigger] grants[i]).user_id <= users
            &&& 1 <= grants[i].whitelist_id <= delegates
        }
    &&& forall|i: int, j: int| 0 <= i < j < grants.len() ==> (#[trigger] grants[i]) != (#[trigger] grants[j])
}

/// Granting keeps the grants valid.
pub proof fn lemma_push_grant_valid(grants: Seq<GrantView>, grant: GrantView, users: nat, delegates: nat)
    requires
        grants_valid(grants, users, delegates),
        1 <= grant.user_id <= users,
        1 <= grant.whitelist_id <= delegates,
        first_index(grants, is_grant(grant)) >= grants.len(),
    ensures
        grants_valid(grants.push(grant), users, delegates),
{
    lemma_first_index(grants, is_grant(grant));
    let next = grants.push(grant);
    assert forall|i: int, j: int| 0 <= i < j < next.len() implies (#[trigger] next[i]) != (
    #[trigger] next[j]) by {
        if j < grants.len() {
            assert(grants[i] != grants[j]);
        } else {
            assert(!is_grant(grant)(grants[i]));
        }
    }
    assert forall|i: int| 0 <= i < next.len() implies {
        &&& 1 <= (#[trigger] next[i]).user_id <= users
        &&& 1 <= next[i].whitelist_id <= delegates
    } by {
        if i < grants.len() {
            assert(next[i] == grants[i]);
        }
    }
}

/// Withdrawing keeps the grants valid.
pub proof fn lemma_remove_grant_valid(grants: Seq<GrantView>, index: int, users: nat, delegates: nat)
    requires
        grants_valid(grants, users, delegates),
        0 <= index < grants.len(),
    ensures
        grants_valid(grants.remove(index), users, delegates),
{
    let next = grants.remove(index);
    assert forall|i: int, j: int| 0 <= i < j < next.len() implies (#[trigger] next[i]) != (
    #[trigger] next[j]) by {
        let i0 = if i < index { i } else { i + 1 };
        let j0 = if j < index { j } else { j + 1 };
        assert(next[i] == grants[i0]);
        assert(next[j] == grants[j0]);
    }
    assert forall|i: int| 0 <= i < next.len() implies {
        &&& 1 <= (#[trigger] next[i]).user_id <= users
        &&& 1 <= next[i].whitelist_id <= delegates
    } by {
        let i0 = if i < index { i } else { i + 1 };
        assert(next[i] == grants[i0]);
    }
}

/// The view of a payment that may be absent.
pub open spec fn opt_payment_view(opt_payment: Option<EsdtTokenPayment>) -> Option<PaymentView> {
    match opt_payment {
        Some(payment) => Some(payment@),
        None => None,
    }
}

/// The action that a delegate triggers: an asynchronous call of the
/// operation, with the payment if there is one.
pub open spec fn delegated_action(
    sc_address: Seq<u8>,
    endpoint_name: Seq<u8>,
    endpoint_args: Seq<Seq<u8>>,
    opt_user_tokens: Option<PaymentView>,
    gas_limit: u64,
) -> ActionView {
    ActionView {
        call_type: CallType::Async,
        dest_address: sc_address,
        payments: match opt_user_tokens {
            Some(payment) => seq![payment],
            None => Seq::empty(),
        },
        opt_execution: Some(ExecutionView { endpoint_name, args: endpoint_args, gas_limit }),
    }
}

impl StateView {
    /// What granting actions to a delegate leads to. A delegate that is
    /// named for the first time gets the next handle.
    pub open spec fn whitelist_result(
        self,
        caller: Seq<u8>,
        whitelist_address: Seq<u8>,
        actions: Seq<WhitelistActionView>,
    ) -> Result<StateView, Error> {
        if actions.len() == 0 {
            Err(Error::NoWhitelistActions)
        } else if !self.is_registered(caller) {
            Err(Error::UnknownAccount)
        } else {
            let addresses = if self.is_known_delegate(whitelist_address) {
                self.whitelist_addresses
            } else {
                self.whitelist_addresses.push(whitelist_address)
            };
            let whitelist_id = (self.whitelist_index(whitelist_address) + 1) as u64;
            Ok(
                StateView {
                    whitelist_addresses: addresses,
                    grants: with_grants(self.grants, self.user_id(caller), whitelist_id, actions),
                    ..self
                },
            )
        }
    }

    /// What withdrawing actions from a delegate leads to. An address that
    /// was never named as a delegate holds no grant, so nothing can be
    /// withdrawn from it.
    pub open spec fn remove_whitelist_result(
        self,
        caller: Seq<u8>,
        whitelist_address: Seq<u8>,
        actions: Seq<WhitelistActionView>,
    ) -> Result<StateView, Error> {
        if actions.len() == 0 {
            Err(Error::NoWhitelistActions)
        } else if !self.is_registered(caller) {
            Err(Error::UnknownAccount)
        } else if !self.is_known_delegate(whitelist_address) {
            Err(Error::NotWhitelisted)
        } else {
            match without_grants(
                self.grants,
                self.user_id(caller),
                self.whitelist_id(whitelist_address),
                actions,
            ) {
                Some(grants) => Ok(StateView { grants, ..self }),
                None => Err(Error::NotWhitelisted),
            }
        }
    }

    /// Whether `user_address` lets `caller` trigger the action.
    pub open spec fn is_whitelisted(self, user_address: Seq<u8>, caller: Seq<u8>, action: WhitelistActionView) -> bool {
        &&& self.is_registered(user_address)
        &&& self.is_known_delegate(caller)
        &&& self.has_grant(
            GrantView {
                user_id: self.user_id(user_address),
                whitelist_id: self.whitelist_id(caller),
                action,
            },
        )
    }

    /// What a delegate's call in the name of an account leads to. The
    /// delegate must hold the grant for exactly this target and
    /// operation; a caller without it, named as a delegate before or not,
    /// fails with `NotWhitelisted`. The payment, if there is one, is
    /// deducted first. The call is asynchronous; it goes through the
    /// checks of the target, of the operation name and of the shape of
    /// the invocation, and through the same dispatch, as a signed action.
    /// The account's sequence number stays as it is.
    pub open spec fn take_action_result(
        self,
        caller: Seq<u8>,
        user_address: Seq<u8>,
        sc_address: Seq<u8>,
        endpoint_name: Seq<u8>,
        endpoint_args: Seq<Seq<u8>>,
        opt_user_tokens: Option<PaymentView>,
        gas_left: u64,
    ) -> Result<(StateView, DispatchView), Error> {
        if !self.is_registered(user_address) {
            Err(Error::UnknownAccount)
        } else if !self.is_whitelisted(
            user_address,
            caller,
            WhitelistActionView { sc_address, endpoint_name },
        ) {
            Err(Error::NotWhitelisted)
        } else {
            let user = self.user(user_address);
            let debited = match opt_user_tokens {
                Some(payment) => deduct_from(user.tokens, payment),
                None => Some(user.tokens),
            };
            match debited {
                None => Err(Error::InsufficientFunds),
                Some(rest) => match gas_for_promise(gas_left) {
                    Err(e) => Err(e),
                    Ok(gas_limit) => {
                        let action = delegated_action(
                            sc_address,
                            endpoint_name,
                            endpoint_args,
                            opt_user_tokens,
                            gas_limit,
                        );
                        if sc_address == self.own_sc_address {
                            Err(Error::InvalidDestination)
                        } else if action.is_banned_endpoint_name() {
                            Err(Error::BannedOperation)
                        } else if exec_args_check(action) is Err {
                            Err(Error::InvocationNotAllowed)
                        } else {
                            match dispatch_for(user_address, action, None) {
                                Err(e) => Err(e),
                                Ok(dispatch) => Ok(
                                    (
                                        self.with_account(self.user_index(user_address), user.nonce, rest),
                                        dispatch,
                                    ),
                                ),
                            }
                        }
                    },
                },
            }
        }
    }
}

/// The position of a grant in a list, or the length of the list if it is
/// not there.
pub fn find_grant_in(
    grants: &Vec<Grant>,
    user_id: u64,
    whitelist_id: u64,
    sc_address: &Address,
    endpoint_name: &Vec<u8>,
) -> (i: usize)
    ensures
        i == first_index(
            grants_view(grants@),
            is_grant(
                GrantView {
                    user_id,
                    whitelist_id,
                    action: WhitelistActionView {
                        sc_address: sc_address@,
                        endpoint_name: endpoint_name@,
                    },
                },
            ),
        ),
        i <= grants@.len(),
{
    let ghost grant = GrantView {
        user_id,
        whitelist_id,
        action: WhitelistActionView { sc_address: sc_address@, endpoint_name: endpoint_name@ },
    };
    let mut i: usize = 0;
    while i < grants.len()
        invariant
            i <= grants@.len(),
            grant == (GrantView {
                user_id,
                whitelist_id,
                action: WhitelistActionView { sc_address: sc_address@, endpoint_name: endpoint_name@ },
            }),
            forall|j: int| 0 <= j < i ==> !is_grant(grant)(#[trigger] grants_view(grants@)[j]),
        decreases grants@.len() - i,
    {
        if grants[i].user_id == user_id && grants[i].whitelist_id == whitelist_id
            && grants[i].action.sc_address.same_as(sc_address) && bytes_eq(
            &grants[i].action.endpoint_name,
            endpoint_name,
        ) {
            proof {
                assert(grants_view(grants@)[i as int] == grant);
                lemma_first_index_is(grants_view(grants@), is_grant(grant), i as int);
            }
            return i;
        }
        assert(grants_view(grants@)[i as int] != grant);
        i += 1;
    }
    proof {
        lemma_first_index_is(grants_view(grants@), is_grant(grant), i as int);
    }
    i
}

/// A copy of a list of grants.
pub fn clone_grants(grants: &Vec<Grant>) -> (r: Vec<Grant>)
    ensures
        grants_view(r@) == grants_view(grants@),
{
    let mut r: Vec<Grant> = Vec::new();
    let mut i: usize = 0;
    while i < grants.len()
        invariant
            i <= grants@.len(),
            r@.len() == i,
            forall|j: int| 0 <= j < i ==> r@[j]@ == grants@[j]@,
        decreases grants@.len() - i,
    {
        let grant = Grant {
            user_id: grants[i].user_id,
            whitelist_id: grants[i].whitelist_id,
            action: WhitelistAction {
                sc_address: grants[i].action.sc_address,
                endpoint_name: bytes_clone(&grants[i].action.endpoint_name),
            },
        };
        r.push(grant);
        i += 1;
    }
    assert(grants_view(r@) =~= grants_view(grants@));
    r
}

impl AccountAbstraction {
    /// The position of a delegate in the order in which delegates were
    /// first named, or the number of delegates if it never was.
    pub(crate) fn find_delegate(&self, address: &Address) -> (i: usize)
        ensures
            i == self@.whitelist_index(address@),
            i <= self.whitelist_addresses@.len(),
            self@.whitelist_addresses.len() == self.whitelist_addresses@.len(),
    {
        let mut i: usize = 0;
        while i < self.whitelist_addresses.len()
            invariant
                i <= self.whitelist_addresses@.len(),
                forall|j: int| 0 <= j < i ==> !is_bytes(address@)(#[trigger] self@.whitelist_addresses[j]),
            decreases self.whitelist_addresses@.len() - i,
        {
            if self.whitelist_addresses[i].same_as(address) {
                proof {
                    lemma_first_index_is(self@.whitelist_addresses, is_bytes(address@), i as int);
                }
                return i;
            }
            i += 1;
        }
        proof {
            lemma_first_index_is(self@.whitelist_addresses, is_bytes(address@), i as int);
        }
        i
    }

    /// Lets the delegate `whitelist_address` trigger each of the given
    /// pairs of a target and an operation name in the name of `caller`.
    pub fn whitelist(&mut self, caller: &Address, whitelist_address: &Address, action_types: &Vec<(Address, Vec<u8>)>) -> (r:
        Result<(), Error>)
        requires
            old(self).wf(),
        ensures
            final(self).wf(),
            old(self)@.sequences_kept(final(self)@),
            match old(self)@.whitelist_result(caller@, whitelist_address@, action_types_view(action_types@)) {
                Ok(state) => r is Ok && final(self)@ == state,
                Err(e) => r == Err::<(), Error>(e) && final(self)@ == old(self)@,
            },
    {
        match require_non_empty_action_types(action_types) {
            Err(e) => {
                return Err(e);
            },
            Ok(_) => {},
        }
        let caller_index = self.find_user(caller);
        if caller_index >= self.users.len() {
            return Err(Error::UnknownAccount);
        }
        let caller_id = (caller_index + 1) as u64;
        let whitelist_index = self.find_delegate(whitelist_address);
        if whitelist_index >= self.whitelist_addresses.len() {
            proof {
                lemma_first_index(old(self)@.whitelist_addresses, is_bytes(whitelist_address@));
            }
            self.whitelist_addresses.push(*whitelist_address);
            proof {
                assert(self@.whitelist_addresses =~= old(self)@.whitelist_addresses.push(
                    whitelist_address@,
                ));
                assert(self@.users =~= old(self)@.users);
                assert(self@.grants =~= old(self)@.grants);
                assert(self@.intents =~= old(self)@.intents);
                assert forall|i: int, j: int|
                    0 <= i < j < self@.whitelist_addresses.len() implies (
                #[trigger] self@.whitelist_addresses[i]) != (#[trigger] self@.whitelist_addresses[j]) by {
                    if j < old(self)@.whitelist_addresses.len() {
                        assert(old(self)@.whitelist_addresses[i] != old(self)@.whitelist_addresses[j]);
                    } else {
                        assert(!is_bytes(whitelist_address@)(old(self)@.whitelist_addresses[i]));
                    }
                }
                assert(self@.whitelist_addresses.len() == self.whitelist_addresses.len());
                assert forall|i: int| 0 <= i < self@.grants.len() implies 1 <= (
                #[trigger] self@.grants[i]).whitelist_id <= self@.whitelist_addresses.len() by {
                    assert(old(self)@.grants[i].whitelist_id <= old(self)@.whitelist_addresses.len());
                }
            }
        }
        let whitelist_id = (whitelist_index + 1) as u64;
        let ghost all = action_types_view(action_types@);
        let ghost addresses = self@.whitelist_addresses;
        let mut k: usize = 0;
        while k < action_types.len()
            invariant
                k <= action_types@.len(),
                all == action_types_view(action_types@),
                self.wf(),
                1 <= caller_id <= self@.users.len(),
                1 <= whitelist_id <= self@.whitelist_addresses.len(),
                self@ == (StateView {
                    whitelist_addresses: addresses,
                    grants: with_grants(old(self)@.grants, caller_id, whitelist_id, all.take(k as int)),
                    ..old(self)@
                }),
            decreases action_types@.len() - k,
        {
            assert(all.take(k + 1).drop_last() =~= all.take(k as int));
            let ghost before = self@;
            assert(grants_view(self.grants@) =~= self@.grants);
            let index = find_grant_in(
                &self.grants,
                caller_id,
                whitelist_id,
                &action_types[k].0,
                &action_types[k].1,
            );
            if index >= self.grants.len() {
                let grant = Grant {
                    user_id: caller_id,
                    whitelist_id,
                    action: WhitelistAction::new(action_types[k].0, bytes_clone(&action_types[k].1)),
                };
                self.grants.push(grant);
                proof {
                    assert(grant@.action == all[k as int]);
                    assert(self@.grants =~= before.grants.push(grant@));
                    assert(self@.users =~= before.users);
                    assert(self@.whitelist_addresses =~= before.whitelist_addresses);
                    assert(self@.intents =~= before.intents);
                    lemma_push_grant_valid(
                        before.grants,
                        grant@,
                        before.users.len(),
                        before.whitelist_addresses.len(),
                    );
                }
            }
            k += 1;
        }
        assert(all.take(all.len() as int) =~= all);
        Ok(())
    }

    /// Withdraws each of the given pairs of a target and an operation
    /// name from what the delegate may trigger in the name of `caller`.
    /// Where one of them is not granted, the request fails with
    /// `NotWhitelisted` and nothing has changed.
    pub fn remove_whitelist(&mut self, caller: &Address, whitelist_address: &Address, action_types: &Vec<(Address, Vec<u8>)>) -> (r:
        Result<(), Error>)
        requires
            old(self).wf(),
        ensures
            final(self).wf(),
            old(self)@.sequences_kept(final(self)@),
            match old(self)@.remove_whitelist_result(
                caller@,
                whitelist_address@,
                action_types_view(action_types@),
            ) {
                Ok(state) => r is Ok && final(self)@ == state,
                Err(e) => r == Err::<(), Error>(e) && final(self)@ == old(self)@,
            },
    {
        match require_non_empty_action_types(action_types) {
            Err(e) => {
                return Err(e);
            },
            Ok(_) => {},
        }
        let caller_index = self.find_user(caller);
        if caller_index >= self.users.len() {
            return Err(Error::UnknownAccount);
        }
        let caller_id = (caller_index + 1) as u64;
        let whitelist_index = self.find_delegate(whitelist_address);
        if whitelist_index >= self.whitelist_addresses.len() {
            return Err(Error::NotWhitelisted);
        }
        let whitelist_id = (whitelist_index + 1) as u64;
        let ghost all = action_types_view(action_types@);
        let ghost users = self@.users.len();
        let ghost delegates = self@.whitelist_addresses.len();
        let mut remaining = clone_grants(&self.grants);
        assert(grants_view(self.grants@) =~= self@.grants);
        let mut k: usize = 0;
        while k < action_types.len()
            invariant
                k <= action_types@.len(),
                all == action_types_view(action_types@),
                *self == *old(self),
                self.wf(),
                action_types@.len() > 0,
                self@.is_registered(caller@),
                self@.is_known_delegate(whitelist_address@),
                caller_id == self@.user_id(caller@),
                whitelist_id == self@.whitelist_id(whitelist_address@),
                users == self@.users.len(),
                delegates == self@.whitelist_addresses.len(),
                grants_valid(grants_view(remaining@), users, delegates),
                without_grants(old(self)@.grants, caller_id, whitelist_id, all.take(k as int)) == Some(
                    grants_view(remaining@),
                ),
            decreases action_types@.len() - k,
        {
            assert(all.take(k + 1).drop_last() =~= all.take(k as int));
            let ghost before = grants_view(remaining@);
            let index = find_grant_in(
                &remaining,
                caller_id,
                whitelist_id,
                &action_types[k].0,
                &action_types[k].1,
            );
            if index >= remaining.len() {
                proof {
                    lemma_without_grants_prefix(old(self)@.grants, caller_id, whitelist_id, all, k + 1);
                }
                return Err(Error::NotWhitelisted);
            }
            let _ = remaining.remove(index);
            proof {
                assert(grants_view(remaining@) =~= before.remove(index as int));
                lemma_remove_grant_valid(before, index as int, users, delegates);
            }
            k += 1;
        }
        assert(all.take(all.len() as int) =~= all);
        self.grants = remaining;
        proof {
            assert(self@.grants =~= grants_view(remaining@));
            assert(self@.users =~= old(self)@.users);
            assert(self@.whitelist_addresses =~= old(self)@.whitelist_addresses);
            assert(self@.intents =~= old(self)@.intents);
        }
        Ok(())
    }

    /// Triggers, for the delegate `caller` and in the name of
    /// `user_address`, the operation `endpoint_name` on `sc_address`,
    /// with the payment from the account's balance if one is given.
    /// `gas_left` is the gas that the request has left. Returns the call
    /// that is to be sent. On failure nothing has changed.
    pub fn take_action(
        &mut self,
        caller: &Address,
        user_address: &Address,
        sc_address: Address,
        endpoint_name: Vec<u8>,
        endpoint_args: Vec<Vec<u8>>,
        opt_user_tokens: Option<EsdtTokenPayment>,
        gas_left: GasLimit,
    ) -> (r: Result<Dispatch, Error>)
        requires
            old(self).wf(),
        ensures
            final(self).wf(),
            old(self)@.sequences_kept(final(self)@),
            match old(self)@.take_action_result(
                caller@,
                user_address@,
                sc_address@,
                endpoint_name@,
                args_view(endpoint_args@),
                opt_payment_view(opt_user_tokens),
                gas_left,
            ) {
                Ok((state, dispatch)) => r is Ok && final(self)@ == state && r->Ok_0@ == dispatch,
                Err(e) => r is Err && r->Err_0 == e && final(self)@ == old(self)@,
            },
    {
        let user_index = self.find_user(user_address);
        if user_index >= self.users.len() {
            return Err(Error::UnknownAccount);
        }
        let user_id = (user_index + 1) as u64;
        let caller_index = self.find_delegate(caller);
        if caller_index >= self.whitelist_addresses.len() {
            return Err(Error::NotWhitelisted);
        }
        let caller_id = (caller_index + 1) as u64;
        assert(grants_view(self.grants@) =~= self@.grants);
        if find_grant_in(&self.grants, user_id, caller_id, &sc_address, &endpoint_name) >= self.grants.len() {
            return Err(Error::NotWhitelisted);
        }
        assert(is_bag(self@.users[user_index as int].tokens));
        let mut remaining = self.users[user_index].tokens.duplicate();
        let ghost opt_payment = opt_payment_view(opt_user_tokens);
        let action_payments: PaymentsVec = match opt_user_tokens {
            Some(user_tokens) => {
                if remaining.deduct_payment(&user_tokens).is_err() {
                    return Err(Error::InsufficientFunds);
                }
                let mut payments: PaymentsVec = Vec::new();
                payments.push(user_tokens);
                payments
            },
            None => Vec::new(),
        };
        let gas_limit = match get_gas_for_promise(gas_left) {
            Ok(gas_limit) => gas_limit,
            Err(e) => {
                return Err(e);
            },
        };
        let ghost action = delegated_action(
            sc_address@,
            endpoint_name@,
            args_view(endpoint_args@),
            opt_payment,
            gas_limit,
        );
        let action_data = GeneralActionData {
            call_type: CallType::Async,
            dest_address: sc_address,
            payments: action_payments,
            opt_execution: Some(ScExecutionData { endpoint_name, args: endpoint_args, gas_limit }),
        };
        proof {
            assert(action_data@.payments =~= action.payments);
            assert(action_data@ == action);
        }
        if sc_address.same_as(&self.own_sc_address) {
            return Err(Error::InvalidDestination);
        }
        if action_data.is_banned_endpoint_name() {
            return Err(Error::BannedOperation);
        }
        match check_exec_args(&action_data) {
            Err(e) => {
                return Err(e);
            },
            Ok(_) => {},
        }
        let dispatch = match dispatch_action(user_address, &action_data, None) {
            Ok(dispatch) => dispatch,
            Err(e) => {
                return Err(e);
            },
        };
        let account = &mut self.users[user_index];
        account.tokens = remaining;
        proof {
            let user = old(self)@.users[user_index as int];
            let state = old(self)@.with_account(user_index as int, user.nonce, remaining@);
            assert(self@.users =~= state.users);
            assert(self@.whitelist_addresses =~= state.whitelist_addresses);
            assert(self@.grants =~= state.grants);
            assert(self@.intents =~= state.intents);
            lemma_with_account_wf(old(self)@, user_index as int, user.nonce, remaining@);
        }
        Ok(dispatch)
    }
}

} // verus!
