//! The engine and the state it keeps: the registered accounts with their
//! sequence numbers and balances, the grants given to delegates, and the
//! saved intents.

use vstd::prelude::*;

use crate::common::common_types::{ActionView, Address, GeneralActionData};
use crate::common::signature::Nonce;
use crate::common::unique_payments::{is_bag, PaymentView, UniquePayments};
use crate::error::Error;
use crate::seq_util::{first_index, lemma_first_index_is};

verus! {

/// The handle of a registered identity: its position in the order of
/// registration, counted from 1.
pub type AddressId = u64;

/// The handle that stands for "unknown".
pub const NULL_ID: AddressId = 0;

/// The number of a saved intent. Numbers are given out from 1 upwards,
/// across all accounts.
pub type IntentId = u64;

/// A registered account.
#[derive(Clone, Debug, PartialEq, Eq)]
pub struct Account {
    pub address: Address,
    /// The sequence number: how many actions of the account were accepted.
    pub nonce: Nonce,
    /// The balance.
    pub tokens: UniquePayments,
}

/// What an account says.
pub struct AccountView {
    pub address: Seq<u8>,
    pub nonce: u64,
    pub tokens: Seq<PaymentView>,
}

impl View for Account {
    type V = AccountView;

    open spec fn view(&self) -> AccountView {
        AccountView { address: self.address@, nonce: self.nonce, tokens: self.tokens@ }
    }
}

/// A target and an operation on it that a delegate may trigger.
#[derive(Clone, Debug, PartialEq, Eq)]
pub struct WhitelistAction {
    pub sc_address: Address,
    pub endpoint_name: Vec<u8>,
}

/// What an action that may be triggered says.
pub struct WhitelistActionView {
    pub sc_address: Seq<u8>,
    pub endpoint_name: Seq<u8>,
}

impl View for WhitelistAction {
    type V = WhitelistActionView;

    open spec fn view(&self) -> WhitelistActionView {
        WhitelistActionView { sc_address: self.sc_address@, endpoint_name: self.endpoint_name@ }
    }
}

/// One granted action: account `user_id` lets delegate `whitelist_id`
/// trigger `action`.
#[derive(Clone, Debug, PartialEq, Eq)]
pub struct Grant {
    pub user_id: AddressId,
    pub whitelist_id: AddressId,
    pub action: WhitelistAction,
}

/// What a grant says.
pub struct GrantView {
    pub user_id: u64,
    pub whitelist_id: u64,
    pub action: WhitelistActionView,
}

impl View for Grant {
    type V = GrantView;

    open spec fn view(&self) -> GrantView {
        GrantView { user_id: self.user_id, whitelist_id: self.whitelist_id, action: self.action@ }
    }
}

/// Where a saved intent stands.
#[derive(Clone, Copy, Debug, PartialEq, Eq, Structural)]
pub enum IntentType {
    AwaitingExecution,
    InProgress,
}

/// An asynchronous action that was saved to be triggered later.
#[derive(Clone, Debug, PartialEq, Eq)]
pub struct Intent {
    pub intent_type: IntentType,
    pub intent_data: GeneralActionData,
}

/// What an intent says.
pub struct IntentView {
    pub intent_type: IntentType,
    pub intent_data: ActionView,
}

impl View for Intent {
    type V = IntentView;

    open spec fn view(&self) -> IntentView {
        IntentView { intent_type: self.intent_type, intent_data: self.intent_data@ }
    }
}

/// A saved intent with its owner and its number.
#[derive(Clone, Debug, PartialEq, Eq)]
pub struct StoredIntent {
    pub user_id: AddressId,
    pub intent_id: IntentId,
    pub intent: Intent,
}

/// What a saved intent says.
pub struct StoredIntentView {
    pub user_id: u64,
    pub intent_id: u64,
    pub intent: IntentView,
}

impl View for StoredIntent {
    type V = StoredIntentView;

    open spec fn view(&self) -> StoredIntentView {
        StoredIntentView { user_id: self.user_id, intent_id: self.intent_id, intent: self.intent@ }
    }
}

/// The engine.
#[derive(Clone, Debug, PartialEq, Eq)]
pub struct AccountAbstraction {
    pub(crate) own_sc_address: Address,
    pub(crate) users: Vec<Account>,
    pub(crate) whitelist_addresses: Vec<Address>,
    pub(crate) grants: Vec<Grant>,
    pub(crate) intents: Vec<StoredIntent>,
    pub(crate) last_intent_id: IntentId,
}

/// What the engine holds.
pub struct StateView {
    /// The engine's own identity.
    pub own_sc_address: Seq<u8>,
    /// The accounts, in the order of their registration.
    pub users: Seq<AccountView>,
    /// The delegates that were ever named in a grant, in that order.
    pub whitelist_addresses: Seq<Seq<u8>>,
    pub grants: Seq<GrantView>,
    pub intents: Seq<StoredIntentView>,
    /// The number of the intent that was saved last; 0 before the first.
    pub last_intent_id: u64,
}

/// The accounts with the given address.
pub open spec fn has_address(address: Seq<u8>) -> spec_fn(AccountView) -> bool {
    |account: AccountView| account.address == address
}

/// The byte strings equal to the given one.
pub open spec fn is_bytes(bytes: Seq<u8>) -> spec_fn(Seq<u8>) -> bool {
    |other: Seq<u8>| other == bytes
}

/// The grants equal to the given one.
pub open spec fn is_grant(grant: GrantView) -> spec_fn(GrantView) -> bool {
    |other: GrantView| other == grant
}

/// The saved intents with the given owner and number.
pub open spec fn is_intent(user_id: u64, intent_id: u64) -> spec_fn(StoredIntentView) -> bool {
    |stored: StoredIntentView| stored.user_id == user_id && stored.intent_id == intent_id
}

impl StateView {
    /// The position of the account with the given address, or the number
    /// of accounts if there is none.
    pub open spec fn user_index(self, address: Seq<u8>) -> int {
        first_index(self.users, has_address(address))
    }

    /// Whether the address is that of an account.
    pub open spec fn is_registered(self, address: Seq<u8>) -> bool {
        self.user_index(address) < self.users.len()
    }

    /// The handle of the account with the given address; `NULL_ID` if
    /// there is none.
    pub open spec fn user_id(self, address: Seq<u8>) -> u64 {
        if self.is_registered(address) {
            (self.user_index(address) + 1) as u64
        } else {
            NULL_ID
        }
    }

    /// The account with the given address.
    pub open spec fn user(self, address: Seq<u8>) -> AccountView
        recommends
            self.is_registered(address),
    {
        self.users[self.user_index(address)]
    }

    /// The state in which the account at `index` has another sequence
    /// number and balance, and all else is as before.
    pub open spec fn with_account(self, index: int, nonce: u64, tokens: Seq<PaymentView>) -> StateView {
        StateView {
            users: self.users.update(
                index,
                AccountView { address: self.users[index].address, nonce, tokens },
            ),
            ..self
        }
    }

    /// The position of a delegate in the order in which delegates were
    /// first named, or the number of delegates if it never was.
    pub open spec fn whitelist_index(self, address: Seq<u8>) -> int {
        first_index(self.whitelist_addresses, is_bytes(address))
    }

    /// Whether the address was ever named as a delegate.
    pub open spec fn is_known_delegate(self, address: Seq<u8>) -> bool {
        self.whitelist_index(address) < self.whitelist_addresses.len()
    }

    /// The handle of a delegate; `NULL_ID` if it was never named.
    pub open spec fn whitelist_id(self, address: Seq<u8>) -> u64 {
        if self.is_known_delegate(address) {
            (self.whitelist_index(address) + 1) as u64
        } else {
            NULL_ID
        }
    }

    /// Whether the grant is held.
    pub open spec fn has_grant(self, grant: GrantView) -> bool {
        first_index(self.grants, is_grant(grant)) < self.grants.len()
    }

    /// The position of the intent of the given owner and number, or the
    /// number of intents if there is none.
    pub open spec fn intent_index(self, user_id: u64, intent_id: u64) -> int {
        first_index(self.intents, is_intent(user_id, intent_id))
    }

    /// Whether the account holds an intent of that number.
    pub open spec fn has_intent(self, user_id: u64, intent_id: u64) -> bool {
        self.intent_index(user_id, intent_id) < self.intents.len()
    }

    /// Every account of this state is an account of `next`, at the same
    /// place, and its sequence number is no lower there.
    pub open spec fn sequences_kept(self, next: StateView) -> bool {
        &&& self.users.len() <= next.users.len()
        &&& forall|i: int|
            0 <= i < self.users.len() ==> (#[trigger] next.users[i]).address == self.users[i].address
                && next.users[i].nonce >= self.users[i].nonce
    }

    /// No identity has two accounts, and every balance is a bag.
    pub open spec fn accounts_wf(self) -> bool {
        &&& self.users.len() <= usize::MAX
        &&& forall|i: int, j: int|
            0 <= i < j < self.users.len() ==> (#[trigger] self.users[i]).address != (
            #[trigger] self.users[j]).address
        &&& forall|i: int| 0 <= i < self.users.len() ==> is_bag((#[trigger] self.users[i]).tokens)
    }

    /// No delegate is held twice; every grant names an account and a
    /// delegate that exist, and no grant is held twice.
    pub open spec fn grants_wf(self) -> bool {
        &&& self.whitelist_addresses.len() <= usize::MAX
        &&& forall|i: int, j: int|
            0 <= i < j < self.whitelist_addresses.len() ==> (#[trigger] self.whitelist_addresses[i])
                != (#[trigger] self.whitelist_addresses[j])
        &&& forall|i: int|
            0 <= i < self.grants.len() ==> {
                &&& 1 <= (#[trigger] self.grants[i]).user_id <= self.users.len()
                &&& 1 <= self.grants[i].whitelist_id <= self.whitelist_addresses.len()
            }
        &&& forall|i: int, j: int|
            0 <= i < j < self.grants.len() ==> (#[trigger] self.grants[i]) != (#[trigger] self.grants[j])
    }

    /// Every intent belongs to an account; no number of an intent is used
    /// twice or lies beyond the last one given out.
    pub open spec fn intents_wf(self) -> bool {
        &&& forall|i: int|
            0 <= i < self.intents.len() ==> {
                &&& 1 <= (#[trigger] self.intents[i]).user_id <= self.users.len()
                &&& 1 <= self.intents[i].intent_id <= self.last_intent_id
            }
        &&& forall|i: int, j: int|
            0 <= i < j < self.intents.len() ==> (#[trigger] self.intents[i]).intent_id != (
            #[trigger] self.intents[j]).intent_id
    }

    /// The invariant of the engine: no identity is registered twice and
    /// every balance is a bag; no delegate or grant is held twice and every
    /// grant names an account and a delegate that exist; every intent
    /// belongs to an account, and no number of an intent is used twice or
    /// lies beyond the last one given out.
    pub open spec fn wf(self) -> bool {
        self.accounts_wf() && self.grants_wf() && self.intents_wf()
    }
}

impl AccountAbstraction {
    /// What the engine holds.
    pub open(crate) spec fn view(&self) -> StateView {
        StateView {
            own_sc_address: self.own_sc_address@,
            users: self.users@.map_values(|a: Account| a@),
            whitelist_addresses: self.whitelist_addresses@.map_values(|a: Address| a@),
            grants: self.grants@.map_values(|g: Grant| g@),
            intents: self.intents@.map_values(|i: StoredIntent| i@),
            last_intent_id: self.last_intent_id,
        }
    }

    /// The invariant of the engine; see [`StateView::wf`].
    pub open spec fn wf(&self) -> bool {
        self@.wf()
    }

    /// A new engine with the given identity: no accounts, no grants, no
    /// intents.
    pub fn init(own_sc_address: Address) -> (r: Self)
        ensures
            r.wf(),
            r@ == (StateView {
                own_sc_address: own_sc_address@,
                users: Seq::empty(),
                whitelist_addresses: Seq::empty(),
                grants: Seq::empty(),
                intents: Seq::empty(),
                last_intent_id: 0,
            }),
    {
        let r = AccountAbstraction {
            own_sc_address,
            users: Vec::new(),
            whitelist_addresses: Vec::new(),
            grants: Vec::new(),
            intents: Vec::new(),
            last_intent_id: 0,
        };
        assert(r@.users =~= Seq::empty());
        assert(r@.whitelist_addresses =~= Seq::empty());
        assert(r@.grants =~= Seq::empty());
        assert(r@.intents =~= Seq::empty());
        r
    }

    /// The engine's own identity.
    pub fn own_address(&self) -> (r: Address)
        ensures
            r@ == self@.own_sc_address,
    {
        self.own_sc_address
    }

    /// The position of the account with the given address, or the number
    /// of accounts if there is none.
    pub(crate) fn find_user(&self, address: &Address) -> (i: usize)
        ensures
            i == self@.user_index(address@),
            i <= self.users@.len(),
            self@.users.len() == self.users@.len(),
    {
        let mut i: usize = 0;
        while i < self.users.len()
            invariant
                i <= self.users@.len(),
                forall|j: int| 0 <= j < i ==> !has_address(address@)(#[trigger] self@.users[j]),
            decreases self.users@.len() - i,
        {
            if self.users[i].address.same_as(address) {
                proof {
                    lemma_first_index_is(self@.users, has_address(address@), i as int);
                }
                return i;
            }
            i += 1;
        }
        proof {
            lemma_first_index_is(self@.users, has_address(address@), i as int);
        }
        i
    }

    /// The handle of the account with the given address, or
    /// `UnknownAccount` if there is none.
    pub fn get_user_id_non_zero(&self, address: &Address) -> (r: Result<AddressId, Error>)
        requires
            self.wf(),
        ensures
            match r {
                Ok(id) => self@.is_registered(address@) && id == self@.user_id(address@) && id != NULL_ID,
                Err(e) => !self@.is_registered(address@) && e == Error::UnknownAccount,
            },
    {
        let i = self.find_user(address);
        if i < self.users.len() {
            Ok((i + 1) as u64)
        } else {
            Err(Error::UnknownAccount)
        }
    }

    /// The handle of the account with the given address; `NULL_ID` if
    /// there is none.
    pub fn get_user_id(&self, address: &Address) -> (id: AddressId)
        requires
            self.wf(),
        ensures
            id == self@.user_id(address@),
    {
        let i = self.find_user(address);
        if i < self.users.len() {
            (i + 1) as u64
        } else {
            NULL_ID
        }
    }
}

} // verus!
