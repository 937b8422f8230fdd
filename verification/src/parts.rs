//! Taking the state of an engine apart, so that it can be kept
//! somewhere, and putting an engine together again from what was kept.

use vstd::prelude::*;

use crate::bytes::bytes_eq;
use crate::common::common_types::Address;
use crate::common::unique_payments::is_bag;
use crate::state::{
    Account, AccountAbstraction, Grant, Intent, IntentId, StateView, StoredIntent, StoredIntentView,
};
use crate::user_actions::execution::{accounts_view, clone_accounts, clone_action};
use crate::user_actions::views::addresses_view;
use crate::user_actions::whitelist_actions::{clone_grants, grants_view};

verus! {

/// The views of a list of saved intents, in order.
pub open spec fn stored_intents_view(intents: Seq<StoredIntent>) -> Seq<StoredIntentView> {
    intents.map_values(|i: StoredIntent| i@)
}

/// What an engine is made of.
#[derive(Clone, Debug, PartialEq, Eq)]
pub struct EngineParts {
    pub own_sc_address: Address,
    pub users: Vec<Account>,
    pub whitelist_addresses: Vec<Address>,
    pub grants: Vec<Grant>,
    pub intents: Vec<StoredIntent>,
    pub last_intent_id: IntentId,
}

impl View for EngineParts {
    type V = StateView;

    open spec fn view(&self) -> StateView {
        StateView {
            own_sc_address: self.own_sc_address@,
            users: accounts_view(self.users@),
            whitelist_addresses: addresses_view(self.whitelist_addresses@),
            grants: grants_view(self.grants@),
            intents: stored_intents_view(self.intents@),
            last_intent_id: self.last_intent_id,
        }
    }
}

/// Whether no address occurs twice in the list.
pub fn addresses_are_distinct(addresses: &Vec<Address>) -> (r: bool)
    ensures
        r == forall|i: int, j: int|
            0 <= i < j < addresses@.len() ==> (#[trigger] addresses_view(addresses@)[i]) != (
            #[trigger] addresses_view(addresses@)[j]),
{
    let ghost all = addresses_view(addresses@);
    let mut j: usize = 0;
    while j < addresses.len()
        invariant
            j <= addresses@.len(),
            all == addresses_view(addresses@),
            forall|a: int, b: int| 0 <= a < b < j ==> (#[trigger] all[a]) != (#[trigger] all[b]),
        decreases addresses@.len() - j,
    {
        let mut i: usize = 0;
        while i < j
            invariant
                i <= j < addresses@.len(),
                all == addresses_view(addresses@),
                forall|a: int| 0 <= a < i ==> (#[trigger] all[a]) != all[j as int],
            decreases j - i,
        {
            if addresses[i].same_as(&addresses[j]) {
                assert(all[i as int] == all[j as int]);
                return false;
            }
            i += 1;
        }
        j += 1;
    }
    true
}

/// Whether no identity has two of the accounts and every balance is a bag.
pub fn accounts_are_valid(users: &Vec<Account>) -> (r: bool)
    ensures
        r == {
            &&& forall|i: int, j: int|
                0 <= i < j < users@.len() ==> (#[trigger] accounts_view(users@)[i]).address != (
                #[trigger] accounts_view(users@)[j]).address
            &&& forall|i: int| 0 <= i < users@.len() ==> is_bag((#[trigger] accounts_view(users@)[i]).tokens)
        },
{
    let ghost all = accounts_view(users@);
    let mut j: usize = 0;
    while j < users.len()
        invariant
            j <= users@.len(),
            all == accounts_view(users@),
            forall|a: int, b: int| 0 <= a < b < j ==> (#[trigger] all[a]).address != (#[trigger] all[b]).address,
            forall|a: int| 0 <= a < j ==> is_bag((#[trigger] all[a]).tokens),
        decreases users@.len() - j,
    {
        if !users[j].tokens.is_well_formed() {
            assert(!is_bag(all[j as int].tokens));
            return false;
        }
        let mut i: usize = 0;
        while i < j
            invariant
                i <= j < users@.len(),
                all == accounts_view(users@),
                forall|a: int| 0 <= a < i ==> (#[trigger] all[a]).address != all[j as int].address,
            decreases j - i,
        {
            if users[i].address.same_as(&users[j].address) {
                assert(all[i as int].address == all[j as int].address);
                return false;
            }
            i += 1;
        }
        j += 1;
    }
    true
}

/// Whether two grants are the same.
pub fn same_grant(a: &Grant, b: &Grant) -> (r: bool)
    ensures
        r == (a@ == b@),
{
    a.user_id == b.user_id && a.whitelist_id == b.whitelist_id && a.action.sc_address.same_as(
        &b.action.sc_address,
    ) && bytes_eq(&a.action.endpoint_name, &b.action.endpoint_name)
}

/// Whether every grant names one of `users` accounts and one of
/// `delegates` delegates, and no grant occurs twice.
pub fn grants_are_valid(grants: &Vec<Grant>, users: usize, delegates: usize) -> (r: bool)
    ensures
        r == crate::user_actions::whitelist_actions::grants_valid(
            grants_view(grants@),
            users as nat,
            delegates as nat,
        ),
{
    let ghost all = grants_view(grants@);
    let mut j: usize = 0;
    while j < grants.len()
        invariant
            j <= grants@.len(),
            all == grants_view(grants@),
            forall|a: int|
                0 <= a < j ==> {
                    &&& 1 <= (#[trigger] all[a]).user_id <= users
                    &&& 1 <= all[a].whitelist_id <= delegates
                },
            forall|a: int, b: int| 0 <= a < b < j ==> (#[trigger] all[a]) != (#[trigger] all[b]),
        decreases grants@.len() - j,
    {
        let grant = &grants[j];
        assert(grant@ == all[j as int]);
        if grant.user_id == 0 || grant.user_id > users as u64 || grant.whitelist_id == 0
            || grant.whitelist_id > delegates as u64 {
            return false;
        }
        let mut i: usize = 0;
        while i < j
            invariant
                i <= j < grants@.len(),
                all == grants_view(grants@),
                forall|a: int| 0 <= a < i ==> (#[trigger] all[a]) != all[j as int],
            decreases j - i,
        {
            if same_grant(&grants[i], &grants[j]) {
                assert(all[i as int] == all[j as int]);
                return false;
            }
            i += 1;
        }
        j += 1;
    }
    true
}

/// Whether every intent belongs to one of `users` accounts and has a
/// number from 1 to `last_intent_id`, and no number occurs twice.
pub fn intents_are_valid(intents: &Vec<StoredIntent>, users: usize, last_intent_id: IntentId) -> (r: bool)
    ensures
        r == {
            &&& forall|i: int|
                0 <= i < intents@.len() ==> {
                    &&& 1 <= (#[trigger] stored_intents_view(intents@)[i]).user_id <= users
                    &&& 1 <= stored_intents_view(intents@)[i].intent_id <= last_intent_id
                }
            &&& forall|i: int, j: int|
                0 <= i < j < intents@.len() ==> (#[trigger] stored_intents_view(intents@)[i]).intent_id
                    != (#[trigger] stored_intents_view(intents@)[j]).intent_id
        },
{
    let ghost all = stored_intents_view(intents@);
    let mut j: usize = 0;
    while j < intents.len()
        invariant
            j <= intents@.len(),
            all == stored_intents_view(intents@),
            forall|a: int|
                0 <= a < j ==> {
                    &&& 1 <= (#[trigger] all[a]).user_id <= users
                    &&& 1 <= all[a].intent_id <= last_intent_id
                },
            forall|a: int, b: int|
                0 <= a < b < j ==> (#[trigger] all[a]).intent_id != (#[trigger] all[b]).intent_id,
        decreases intents@.len() - j,
    {
        let stored = &intents[j];
        assert(stored@ == all[j as int]);
        if stored.user_id == 0 || stored.user_id > users as u64 || stored.intent_id == 0
            || stored.intent_id > last_intent_id {
            return false;
        }
        let mut i: usize = 0;
        while i < j
            invariant
                i <= j < intents@.len(),
                all == stored_intents_view(intents@),
                forall|a: int| 0 <= a < i ==> (#[trigger] all[a]).intent_id != all[j as int].intent_id,
            decreases j - i,
        {
            if intents[i].intent_id == intents[j].intent_id {
                assert(all[i as int].intent_id == all[j as int].intent_id);
                return false;
            }
            i += 1;
        }
        j += 1;
    }
    true
}

/// A copy of a list of addresses.
pub fn clone_addresses(addresses: &Vec<Address>) -> (r: Vec<Address>)
    ensures
        addresses_view(r@) == addresses_view(addresses@),
{
    let mut r: Vec<Address> = Vec::new();
    let mut i: usize = 0;
    while i < addresses.len()
        invariant
            i <= addresses@.len(),
            r@.len() == i,
            forall|j: int| 0 <= j < i ==> r@[j]@ == addresses@[j]@,
        decreases addresses@.len() - i,
    {
        r.push(addresses[i]);
        i += 1;
    }
    assert(addresses_view(r@) =~= addresses_view(addresses@));
    r
}

/// A copy of a list of saved intents.
pub fn clone_intents(intents: &Vec<StoredIntent>) -> (r: Vec<StoredIntent>)
    ensures
        stored_intents_view(r@) == stored_intents_view(intents@),
{
    let mut r: Vec<StoredIntent> = Vec::new();
    let mut i: usize = 0;
    while i < intents.len()
        invariant
            i <= intents@.len(),
            r@.len() == i,
            forall|j: int| 0 <= j < i ==> r@[j]@ == intents@[j]@,
        decreases intents@.len() - i,
    {
        let stored = StoredIntent {
            user_id: intents[i].user_id,
            intent_id: intents[i].intent_id,
            intent: Intent::new(
                intents[i].intent.intent_type,
                clone_action(&intents[i].intent.intent_data),
            ),
        };
        r.push(stored);
        i += 1;
    }
    assert(stored_intents_view(r@) =~= stored_intents_view(intents@));
    r
}

impl AccountAbstraction {
    /// A copy of the engine. Whoever runs the engine can take one before
    /// a request and go back to it where the request fails after the
    /// engine has done its part.
    pub fn duplicate(&self) -> (r: Self)
        ensures
            r@ == self@,
    {
        let r = AccountAbstraction {
            own_sc_address: self.own_sc_address,
            users: clone_accounts(&self.users),
            whitelist_addresses: clone_addresses(&self.whitelist_addresses),
            grants: clone_grants(&self.grants),
            intents: clone_intents(&self.intents),
            last_intent_id: self.last_intent_id,
        };
        assert(r@.users =~= self@.users);
        assert(r@.whitelist_addresses =~= self@.whitelist_addresses);
        assert(r@.grants =~= self@.grants);
        assert(r@.intents =~= self@.intents);
        r
    }

    /// The engine that is made of the given parts, or `None` where they
    /// do not meet the invariant of an engine.
    pub fn from_parts(parts: EngineParts) -> (r: Option<Self>)
        ensures
            match r {
                Some(engine) => engine.wf() && engine@ == parts@,
                None => !parts@.wf(),
            },
    {
        if !accounts_are_valid(&parts.users) {
            return None;
        }
        if !addresses_are_distinct(&parts.whitelist_addresses) {
            return None;
        }
        if !grants_are_valid(&parts.grants, parts.users.len(), parts.whitelist_addresses.len()) {
            proof {
                if parts@.grants_wf() {
                    assert(crate::user_actions::whitelist_actions::grants_valid(
                        parts@.grants,
                        parts@.users.len(),
                        parts@.whitelist_addresses.len(),
                    ));
                }
            }
            return None;
        }
        if !intents_are_valid(&parts.intents, parts.users.len(), parts.last_intent_id) {
            return None;
        }
        let engine = AccountAbstraction {
            own_sc_address: parts.own_sc_address,
            users: parts.users,
            whitelist_addresses: parts.whitelist_addresses,
            grants: parts.grants,
            intents: parts.intents,
            last_intent_id: parts.last_intent_id,
        };
        Some(engine)
    }

    /// The parts that the engine is made of.
    pub fn into_parts(self) -> (r: EngineParts)
        ensures
            r@ == self@,
    {
        EngineParts {
            own_sc_address: self.own_sc_address,
            users: self.users,
            whitelist_addresses: self.whitelist_addresses,
            grants: self.grants,
            intents: self.intents,
            last_intent_id: self.last_intent_id,
        }
    }
}

} // verus!
