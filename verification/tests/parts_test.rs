use account_abstraction::common::common_types::{
    Address, CallType, EsdtTokenPayment, GeneralActionData, ScExecutionData, UniquePayments,
};
use account_abstraction::error::Error;
use account_abstraction::parts::{
    accounts_are_valid, addresses_are_distinct, clone_addresses, clone_intents, grants_are_valid,
    intents_are_valid, same_grant, EngineParts,
};
use account_abstraction::state::{
    Account, AccountAbstraction, Grant, Intent, IntentType, StoredIntent, WhitelistAction,
};
use account_abstraction::amount::BigUint;

fn address(tag: u8) -> Address {
    Address::new([tag; 32])
}

fn payment(token: &[u8], amount: u64) -> EsdtTokenPayment {
    EsdtTokenPayment::new(token.to_vec(), 0, BigUint::from_u64(amount))
}

fn account(tag: u8, nonce: u64, tokens: Vec<EsdtTokenPayment>) -> Account {
    Account { address: address(tag), nonce, tokens: UniquePayments::new_from_payments(tokens) }
}

fn grant(user_id: u64, whitelist_id: u64, name: &[u8]) -> Grant {
    Grant { user_id, whitelist_id, action: WhitelistAction::new(address(9), name.to_vec()) }
}

fn intent(user_id: u64, intent_id: u64) -> StoredIntent {
    let action = GeneralActionData {
        call_type: CallType::Async,
        dest_address: address(0),
        payments: vec![payment(b"EGLD", 3)],
        opt_execution: Some(ScExecutionData { endpoint_name: b"op".to_vec(), args: vec![vec![1]], gas_limit: 5 }),
    };
    StoredIntent { user_id, intent_id, intent: Intent::new(IntentType::InProgress, action) }
}

fn parts() -> EngineParts {
    EngineParts {
        own_sc_address: address(0),
        users: vec![account(1, 4, vec![payment(b"EGLD", 10)]), account(2, 0, Vec::new())],
        whitelist_addresses: vec![address(3)],
        grants: vec![grant(1, 1, b"op"), grant(2, 1, b"op"), grant(1, 1, b"other")],
        intents: vec![intent(1, 2), intent(2, 5)],
        last_intent_id: 5,
    }
}

#[test]
fn engine_is_put_together_and_taken_apart() {
    let engine = AccountAbstraction::from_parts(parts()).unwrap();
    assert_eq!(engine.get_user_id(&address(2)), 2);
    assert_eq!(engine.get_user_id_non_zero(&address(2)), Ok(2));
    assert_eq!(engine.get_user_id_non_zero(&address(7)), Err(Error::UnknownAccount));
    assert_eq!(engine.get_user_nonce(&address(1)), Ok(4));
    assert_eq!(engine.get_user_tokens(&address(1)), Ok(vec![payment(b"EGLD", 10)]));
    assert_eq!(engine.get_all_whitelisted_users(&address(3)), Ok(vec![address(1), address(2)]));
    assert_eq!(engine.get_all_user_intent_ids(&address(2)), Ok(vec![5]));
    assert_eq!(engine.last_intent_id(), 5);
    assert_eq!(engine.own_address(), address(0));
    assert_eq!(engine.duplicate(), engine);
    assert_eq!(engine.into_parts(), parts());
}

#[test]
fn new_engine_has_empty_parts() {
    let engine = AccountAbstraction::init(address(0));
    let parts = engine.into_parts();
    assert_eq!(parts.own_sc_address, address(0));
    assert!(parts.users.is_empty() && parts.whitelist_addresses.is_empty());
    assert!(parts.grants.is_empty() && parts.intents.is_empty());
    assert_eq!(parts.last_intent_id, 0);
    assert!(AccountAbstraction::from_parts(parts).is_some());
}

#[test]
fn parts_that_break_the_invariant_are_refused() {
    let mut twice = parts();
    twice.users.push(account(1, 0, Vec::new()));
    assert_eq!(AccountAbstraction::from_parts(twice), None);

    let mut delegates = parts();
    delegates.whitelist_addresses.push(address(3));
    assert_eq!(AccountAbstraction::from_parts(delegates), None);

    let mut stray_grant = parts();
    stray_grant.grants.push(grant(3, 1, b"op"));
    assert_eq!(AccountAbstraction::from_parts(stray_grant), None);

    let mut stray_delegate = parts();
    stray_delegate.grants.push(grant(1, 2, b"op"));
    assert_eq!(AccountAbstraction::from_parts(stray_delegate), None);

    let mut double_grant = parts();
    double_grant.grants.push(grant(2, 1, b"op"));
    assert_eq!(AccountAbstraction::from_parts(double_grant), None);

    let mut late_intent = parts();
    late_intent.intents.push(intent(1, 6));
    assert_eq!(AccountAbstraction::from_parts(late_intent), None);

    let mut double_intent = parts();
    double_intent.intents.push(intent(1, 5));
    assert_eq!(AccountAbstraction::from_parts(double_intent), None);

    let mut stray_intent = parts();
    stray_intent.intents.push(intent(0, 1));
    assert_eq!(AccountAbstraction::from_parts(stray_intent), None);
}

#[test]
fn validity_checks_answer_for_each_part() {
    assert!(addresses_are_distinct(&vec![address(1), address(2), address(3)]));
    assert!(!addresses_are_distinct(&vec![address(1), address(2), address(1)]));
    assert!(addresses_are_distinct(&Vec::new()));
    assert!(accounts_are_valid(&parts().users));
    assert!(!accounts_are_valid(&vec![account(1, 0, Vec::new()), account(1, 1, Vec::new())]));
    assert!(grants_are_valid(&parts().grants, 2, 1));
    assert!(!grants_are_valid(&parts().grants, 1, 1));
    assert!(!grants_are_valid(&parts().grants, 2, 0));
    assert!(!grants_are_valid(&vec![grant(0, 1, b"op")], 2, 1));
    assert!(intents_are_valid(&parts().intents, 2, 5));
    assert!(!intents_are_valid(&parts().intents, 2, 4));
    assert!(!intents_are_valid(&parts().intents, 1, 5));
    assert!(!intents_are_valid(&vec![intent(1, 0)], 2, 5));
    assert!(same_grant(&grant(1, 1, b"op"), &grant(1, 1, b"op")));
    assert!(!same_grant(&grant(1, 1, b"op"), &grant(1, 1, b"po")));
    assert!(!same_grant(&grant(1, 1, b"op"), &grant(2, 1, b"op")));
    assert!(!same_grant(&grant(1, 1, b"op"), &grant(1, 2, b"op")));
}

#[test]
fn copies_are_equal() {
    assert_eq!(clone_addresses(&vec![address(1), address(2)]), vec![address(1), address(2)]);
    assert_eq!(clone_intents(&parts().intents), parts().intents);
}

#[test]
fn balances_made_by_the_bag_are_well_formed() {
    assert!(UniquePayments::new().is_well_formed());
    let bag = UniquePayments::new_from_payments(vec![payment(b"A", 1), payment(b"B", 0), payment(b"A", 2)]);
    assert!(bag.is_well_formed());
    assert_eq!(bag.into_payments(), vec![payment(b"A", 3)]);
}
