//! What the engine keeps of intents: the intents of each account and the
//! number of the intent that was saved last.

use vstd::prelude::*;

use crate::state::{AccountAbstraction, AddressId, Intent, IntentId, StoredIntentView};
use crate::user_actions::execution::clone_action;

verus! {

/// The numbers of the intents of an account, in the order in which they
/// are kept.
pub open spec fn intent_ids_of(intents: Seq<StoredIntentView>, user_id: u64) -> Seq<u64>
    decreases intents.len(),
{
    if intents.len() == 0 {
        Seq::empty()
    } else {
        let before = intent_ids_of(intents.drop_last(), user_id);
        if intents.last().user_id == user_id {
            before.push(intents.last().intent_id)
        } else {
            before
        }
    }
}

impl AccountAbstraction {
    /// The numbers of the intents of the account with the given handle.
    pub fn all_user_intents(&self, user_id: AddressId) -> (r: Vec<IntentId>)
        ensures
            r@ == intent_ids_of(self@.intents, user_id),
    {
        let ghost all = self@.intents;
        let mut r: Vec<IntentId> = Vec::new();
        let mut k: usize = 0;
        assert(all.take(0) =~= Seq::empty());
        while k < self.intents.len()
            invariant
                k <= self.intents@.len(),
                all == self@.intents,
                all.len() == self.intents@.len(),
                r@ == intent_ids_of(all.take(k as int), user_id),
            decreases self.intents@.len() - k,
        {
            assert(all.take(k + 1).drop_last() =~= all.take(k as int));
            if self.intents[k].user_id == user_id {
                r.push(self.intents[k].intent_id);
            }
            k += 1;
        }
        assert(all.take(all.len() as int) =~= all);
        r
    }

    /// The intent of the given owner and number, if there is one.
    pub fn user_intent(&self, user_id: AddressId, intent_id: IntentId) -> (r: Option<Intent>)
        ensures
            match r {
                Some(intent) => self@.has_intent(user_id, intent_id) && intent@ == self@.intents[self@.intent_index(
                    user_id,
                    intent_id,
                )].intent,
                None => !self@.has_intent(user_id, intent_id),
            },
    {
        let index = self.find_intent(user_id, intent_id);
        if index >= self.intents.len() {
            return None;
        }
        let stored = &self.intents[index];
        Some(Intent::new(stored.intent.intent_type, clone_action(&stored.intent.intent_data)))
    }

    /// The number of the intent that was saved last; 0 before the first.
    pub fn last_intent_id(&self) -> (r: IntentId)
        ensures
            r == self@.last_intent_id,
    {
        self.last_intent_id
    }
}

} // verus!
