//! What can be asked of the engine without changing it.

use vstd::prelude::*;

use crate::bytes::bytes_clone;
use crate::common::common_types::Address;
use crate::error::Error;

use crate::state::{
    AccountAbstraction, GrantView, Intent, IntentId, StateView, WhitelistAction,
    WhitelistActionView,
};
use crate::user_actions::intent_storage::intent_ids_of;

verus! {

/// The handles of the accounts that hold a grant for the delegate, each
/// once, in the order of their first grant.
pub open spec fn grantors(grants: Seq<GrantView>, whitelist_id: u64) -> Seq<u64>
    decreases grants.len(),
{
    if grants.len() == 0 {
        Seq::empty()
    } else {
        let before = grantors(grants.drop_last(), whitelist_id);
        let last = grants.last();
        if last.whitelist_id == whitelist_id && !before.contains(last.user_id) {
            before.push(last.user_id)
        } else {
            before
        }
    }
}

/// What the account lets the delegate trigger, in the order in which it
/// was granted.
pub open spec fn granted_actions(grants: Seq<GrantView>, user_id: u64, whitelist_id: u64) -> Seq<
    WhitelistActionView,
>
    decreases grants.len(),
{
    if grants.len() == 0 {
        Seq::empty()
    } else {
        let before = granted_actions(grants.drop_last(), user_id, whitelist_id);
        let last = grants.last();
        if last.user_id == user_id && last.whitelist_id == whitelist_id {
            before.push(last.action)
        } else {
            before
        }
    }
}

/// The views of a list of addresses, in order.
pub open spec fn addresses_view(addresses: Seq<Address>) -> Seq<Seq<u8>> {
    addresses.map_values(|a: Address| a@)
}

/// The views of a list of actions that may be triggered, in order.
pub open spec fn whitelist_actions_view(actions: Seq<WhitelistAction>) -> Seq<WhitelistActionView> {
    actions.map_values(|a: WhitelistAction| a@)
}

/// The views of a list of such lists, in order.
pub open spec fn whitelist_types_view(types: Seq<Vec<WhitelistAction>>) -> Seq<Seq<WhitelistActionView>> {
    types.map_values(|t: Vec<WhitelistAction>| whitelist_actions_view(t@))
}

impl StateView {
    /// The addresses of the accounts that hold a grant for the delegate.
    pub open spec fn all_whitelisted_users(self, whitelist_address: Seq<u8>) -> Result<Seq<Seq<u8>>, Error> {
        if !self.is_known_delegate(whitelist_address) {
            Err(Error::UnknownAccount)
        } else {
            Ok(
                grantors(self.grants, self.whitelist_id(whitelist_address)).map_values(
                    |user_id: u64| self.users[user_id - 1].address,
                ),
            )
        }
    }

    /// Whether every address of the list is that of an account.
    pub open spec fn all_registered(self, users: Seq<Seq<u8>>) -> bool {
        forall|i: int| 0 <= i < users.len() ==> self.is_registered(#[trigger] users[i])
    }

    /// For each of the accounts, what it lets the delegate trigger.
    pub open spec fn whitelist_types(self, whitelist_address: Seq<u8>, users: Seq<Seq<u8>>) -> Result<
        Seq<Seq<WhitelistActionView>>,
        Error,
    > {
        if !self.is_known_delegate(whitelist_address) || !self.all_registered(users) {
            Err(Error::UnknownAccount)
        } else {
            Ok(
                Seq::new(
                    users.len(),
                    |k: int|
                        granted_actions(
                            self.grants,
                            self.user_id(users[k]),
                            self.whitelist_id(whitelist_address),
                        ),
                ),
            )
        }
    }
}

/// Whether a list of handles holds the given one.
fn contains_id(ids: &Vec<u64>, id: u64) -> (r: bool)
    ensures
        r == ids@.contains(id),
{
    let mut i: usize = 0;
    while i < ids.len()
        invariant
            i <= ids@.len(),
            forall|j: int| 0 <= j < i ==> ids@[j] != id,
        decreases ids@.len() - i,
    {
        if ids[i] == id {
            return true;
        }
        i += 1;
    }
    false
}

impl AccountAbstraction {
    /// The addresses of the accounts that hold a grant for the delegate,
    /// each once, in the order of their first grant.
    pub fn get_all_whitelisted_users(&self, whitelist_address: &Address) -> (r: Result<Vec<Address>, Error>)
        requires
            self.wf(),
        ensures
            match self@.all_whitelisted_users(whitelist_address@) {
                Ok(users) => r is Ok && addresses_view(r->Ok_0@) == users,
                Err(e) => r is Err && r->Err_0 == e,
            },
    {
        let whitelist_index = self.find_delegate(whitelist_address);
        if whitelist_index >= self.whitelist_addresses.len() {
            return Err(Error::UnknownAccount);
        }
        let whitelist_id = (whitelist_index + 1) as u64;
        let ghost all = self@.grants;
        let mut ids: Vec<u64> = Vec::new();
        let mut result: Vec<Address> = Vec::new();
        let mut k: usize = 0;
        assert(all.take(0) =~= Seq::empty());
        while k < self.grants.len()
            invariant
                k <= self.grants@.len(),
                self.wf(),
                all == self@.grants,
                all.len() == self.grants@.len(),
                ids@ == grantors(all.take(k as int), whitelist_id),
                result@.len() == ids@.len(),
                forall|j: int|
                    0 <= j < ids@.len() ==> 1 <= #[trigger] ids@[j] <= self@.users.len() && result@[j]@
                        == self@.users[ids@[j] - 1].address,
            decreases self.grants@.len() - k,
        {
            assert(all.take(k + 1).drop_last() =~= all.take(k as int));
            let grant = &self.grants[k];
            assert(grant@ == all[k as int]);
            if grant.whitelist_id == whitelist_id && !contains_id(&ids, grant.user_id) {
                assert(1 <= all[k as int].user_id <= self@.users.len());
                assert(self@.users.len() == self.users@.len());
                let user = &self.users[(grant.user_id - 1) as usize];
                assert(user@ == self@.users[grant.user_id - 1]);
                ids.push(grant.user_id);
                result.push(user.address);
            }
            k += 1;
        }
        assert(all.take(all.len() as int) =~= all);
        assert(addresses_view(result@) =~= self@.all_whitelisted_users(whitelist_address@)->Ok_0);
        Ok(result)
    }

    /// What one account lets a delegate trigger.
    fn granted_to(&self, user_id: u64, whitelist_id: u64) -> (r: Vec<WhitelistAction>)
        ensures
            whitelist_actions_view(r@) == granted_actions(self@.grants, user_id, whitelist_id),
    {
        let ghost all = self@.grants;
        let mut r: Vec<WhitelistAction> = Vec::new();
        let mut k: usize = 0;
        assert(all.take(0) =~= Seq::empty());
        assert(whitelist_actions_view(r@) =~= Seq::empty());
        while k < self.grants.len()
            invariant
                k <= self.grants@.len(),
                all == self@.grants,
                all.len() == self.grants@.len(),
                whitelist_actions_view(r@) == granted_actions(all.take(k as int), user_id, whitelist_id),
            decreases self.grants@.len() - k,
        {
            assert(all.take(k + 1).drop_last() =~= all.take(k as int));
            let grant = &self.grants[k];
            assert(grant@ == all[k as int]);
            if grant.user_id == user_id && grant.whitelist_id == whitelist_id {
                let ghost before = whitelist_actions_view(r@);
                let action = WhitelistAction::new(
                    grant.action.sc_address,
                    bytes_clone(&grant.action.endpoint_name),
                );
                r.push(action);
                assert(whitelist_actions_view(r@) =~= before.push(action@));
            }
            k += 1;
        }
        assert(all.take(all.len() as int) =~= all);
        r
    }

    /// For each of the given accounts, what it lets the delegate trigger.
    pub fn get_whitelist_types(&self, whitelist_address: &Address, users: &Vec<Address>) -> (r: Result<
        Vec<Vec<WhitelistAction>>,
        Error,
    >)
        requires
            self.wf(),
        ensures
            match self@.whitelist_types(whitelist_address@, addresses_view(users@)) {
                Ok(types) => r is Ok && whitelist_types_view(r->Ok_0@) == types,
                Err(e) => r is Err && r->Err_0 == e,
            },
    {
        let whitelist_index = self.find_delegate(whitelist_address);
        if whitelist_index >= self.whitelist_addresses.len() {
            return Err(Error::UnknownAccount);
        }
        let whitelist_id = (whitelist_index + 1) as u64;
        let ghost all = addresses_view(users@);
        let mut result: Vec<Vec<WhitelistAction>> = Vec::new();
        let mut k: usize = 0;
        while k < users.len()
            invariant
                k <= users@.len(),
                all == addresses_view(users@),
                self@.is_known_delegate(whitelist_address@),
                whitelist_id == self@.whitelist_id(whitelist_address@),
                result@.len() == k,
                forall|j: int| 0 <= j < k ==> self@.is_registered(#[trigger] all[j]),
                forall|j: int|
                    0 <= j < k ==> whitelist_actions_view((#[trigger] result@[j])@) == granted_actions(
                        self@.grants,
                        self@.user_id(all[j]),
                        whitelist_id,
                    ),
            decreases users@.len() - k,
        {
            let user_index = self.find_user(&users[k]);
            if user_index >= self.users.len() {
                assert(!self@.is_registered(all[k as int]));
                return Err(Error::UnknownAccount);
            }
            let user_id = (user_index + 1) as u64;
            result.push(self.granted_to(user_id, whitelist_id));
            k += 1;
        }
        assert(whitelist_types_view(result@) =~= self@.whitelist_types(whitelist_address@, all)->Ok_0);
        Ok(result)
    }

    /// The numbers of the intents of an account.
    pub fn get_all_user_intent_ids(&self, user_address: &Address) -> (r: Result<Vec<IntentId>, Error>)
        requires
            self.wf(),
        ensures
            match r {
                Ok(ids) => self@.is_registered(user_address@) && ids@ == intent_ids_of(
                    self@.intents,
                    self@.user_id(user_address@),
                ),
                Err(e) => !self@.is_registered(user_address@) && e == Error::UnknownAccount,
            },
    {
        let user_index = self.find_user(user_address);
        if user_index >= self.users.len() {
            return Err(Error::UnknownAccount);
        }
        let user_id = (user_index + 1) as u64;
        Ok(self.all_user_intents(user_id))
    }

    /// An intent of an account: where it stands and what it will do.
    pub fn get_intent_info(&self, user_address: &Address, intent_id: IntentId) -> (r: Result<Intent, Error>)
        requires
            self.wf(),
        ensures
            match r {
                Ok(intent) => self@.is_registered(user_address@) && self@.has_intent(
                    self@.user_id(user_address@),
                    intent_id,
                ) && intent@ == self@.intents[self@.intent_index(
                    self@.user_id(user_address@),
                    intent_id,
                )].intent,
                Err(e) => if !self@.is_registered(user_address@) {
                    e == Error::UnknownAccount
                } else {
                    !self@.has_intent(self@.user_id(user_address@), intent_id) && e
                        == Error::IntentNotFound
                },
            },
    {
        let user_index = self.find_user(user_address);
        if user_index >= self.users.len() {
            return Err(Error::UnknownAccount);
        }
        let user_id = (user_index + 1) as u64;
        match self.user_intent(user_id, intent_id) {
            Some(intent) => Ok(intent),
            None => Err(Error::IntentNotFound),
        }
    }
}

} // verus!
