use account_abstraction::common::common_types::{
    ActionStruct, Address, CallType, EsdtTokenPayment, GeneralActionData, ScExecutionData,
};
use account_abstraction::common::custom_callbacks::AsyncCallOutcome;
use account_abstraction::common::signature::{
    build_execution_signature_data, build_register_signature_data, Signature,
};
use account_abstraction::error::Error;
use account_abstraction::state::{AccountAbstraction, Intent, IntentType, WhitelistAction};
use account_abstraction::user_actions::execution::{
    build_egld_tx, build_esdt_tx, check_can_execute_action, check_exec_args, execute_action,
    execute_action_by_type, get_egld_value, require_non_empty_actions, CallbackArgs, ContractCall,
    Dispatch,
};
use account_abstraction::common::common_types::UniquePayments;
use account_abstraction::user_actions::whitelist_actions::{
    get_gas_for_promise, require_non_empty_action_types, GAS_TO_SAVE,
};
use ed25519_dalek::{Signer, SigningKey};
use account_abstraction::amount::BigUint;

const EGLD: &[u8] = b"EGLD";
const TOKEN_X: &[u8] = b"XTOK-123456";

struct User {
    key: SigningKey,
    address: Address,
}

fn user_from_seed(seed: u8) -> User {
    let key = SigningKey::from_bytes(&[seed; 32]);
    let address = Address::new(key.verifying_key().to_bytes());
    User { key, address }
}

fn sc_address(tag: u8) -> Address {
    let mut bytes = [0u8; 32];
    bytes[31] = tag;
    Address::new(bytes)
}

fn payment(token: &[u8], nonce: u64, amount: u64) -> EsdtTokenPayment {
    EsdtTokenPayment::new(token.to_vec(), nonce, BigUint::from_u64(amount))
}

fn register(sc: &mut AccountAbstraction, user: &User) {
    let data = build_register_signature_data(&user.address, &sc.own_address());
    let signature = Signature::new_from_bytes(&user.key.sign(&data).to_bytes());
    assert_eq!(sc.register_user(&user.address, &signature), Ok(()));
}

fn signed(sc: &AccountAbstraction, user: &User, nonce: u64, action: GeneralActionData) -> ActionStruct {
    let data = build_execution_signature_data(&user.address, &sc.own_address(), nonce, &action).unwrap();
    let signature = Signature::new_from_bytes(&user.key.sign(&data).to_bytes());
    ActionStruct { action, user_nonce: nonce, signature }
}

fn transfer(dest: Address, token: &[u8], amount: u64) -> GeneralActionData {
    GeneralActionData {
        call_type: CallType::Transfer,
        dest_address: dest,
        payments: vec![payment(token, 0, amount)],
        opt_execution: None,
    }
}

fn call(call_type: CallType, dest: Address, name: &[u8], payments: Vec<EsdtTokenPayment>) -> GeneralActionData {
    GeneralActionData {
        call_type,
        dest_address: dest,
        payments,
        opt_execution: Some(ScExecutionData {
            endpoint_name: name.to_vec(),
            args: vec![vec![1, 2]],
            gas_limit: 77,
        }),
    }
}

/// An engine with account A (500 native, 1000 X) and account B (nothing).
fn engine() -> (AccountAbstraction, User, User) {
    let mut sc = AccountAbstraction::init(sc_address(1));
    let a = user_from_seed(1);
    let b = user_from_seed(2);
    register(&mut sc, &a);
    register(&mut sc, &b);
    assert_eq!(
        sc.deposit_for_user(&a.address, vec![payment(EGLD, 0, 500), payment(TOKEN_X, 0, 1000)]),
        Ok(())
    );
    (sc, a, b)
}

fn balance(sc: &AccountAbstraction, user: &User) -> Vec<EsdtTokenPayment> {
    sc.get_user_tokens(&user.address).unwrap()
}

#[test]
fn transfer_scenario() {
    let (mut sc, a, b) = engine();
    let action = signed(&sc, &a, 0, transfer(b.address, EGLD, 100));
    let dispatches = sc.multi_action_for_user_common(&a.address, &vec![action]).unwrap();
    assert_eq!(balance(&sc, &a), vec![payment(EGLD, 0, 400), payment(TOKEN_X, 0, 1000)]);
    assert_eq!(sc.get_user_nonce(&a.address), Ok(1));
    assert_eq!(
        dispatches,
        vec![Dispatch::Transfer { to: b.address, egld_value: BigUint::from_u64(100), payments: Vec::new() }]
    );
    assert_eq!(sc.get_user_nonce(&b.address), Ok(0));
}

#[test]
fn failed_async_call_is_refunded() {
    let (mut sc, a, _b) = engine();
    let contract = sc_address(9);
    let action = signed(&sc, &a, 0, call(CallType::Async, contract, b"willFail", vec![payment(TOKEN_X, 0, 100)]));
    let dispatches = sc.multi_action_for_user_common(&a.address, &vec![action]).unwrap();
    assert_eq!(balance(&sc, &a), vec![payment(EGLD, 0, 500), payment(TOKEN_X, 0, 900)]);
    assert_eq!(sc.get_user_nonce(&a.address), Ok(1));
    let expected_call = ContractCall {
        to: contract,
        egld_value: BigUint::from_u64(0),
        payments: vec![payment(TOKEN_X, 0, 100)],
        endpoint_name: b"willFail".to_vec(),
        args: vec![vec![1, 2]],
        gas_limit: 77,
    };
    let expected_callback = CallbackArgs {
        original_user: a.address,
        original_payments: vec![payment(TOKEN_X, 0, 100)],
        opt_intent_id: None,
    };
    assert_eq!(dispatches, vec![Dispatch::AsyncCall(expected_call, expected_callback.clone())]);

    assert_eq!(
        sc.user_action_cb(
            &expected_callback.original_user,
            &expected_callback.original_payments,
            expected_callback.opt_intent_id,
            AsyncCallOutcome::Failure,
        ),
        Ok(())
    );
    assert_eq!(balance(&sc, &a), vec![payment(EGLD, 0, 500), payment(TOKEN_X, 0, 1000)]);
    assert_eq!(sc.get_user_nonce(&a.address), Ok(1));
}

#[test]
fn failed_async_call_that_spent_all_is_refunded() {
    let (mut sc, a, _b) = engine();
    let contract = sc_address(9);
    let action = signed(&sc, &a, 0, call(CallType::Async, contract, b"willFail", vec![payment(EGLD, 0, 500)]));
    sc.multi_action_for_user_common(&a.address, &vec![action]).unwrap();
    assert_eq!(balance(&sc, &a), vec![payment(TOKEN_X, 0, 1000)]);
    assert_eq!(
        sc.user_action_cb(&a.address, &vec![payment(EGLD, 0, 500)], None, AsyncCallOutcome::Failure),
        Ok(())
    );
    assert_eq!(balance(&sc, &a), vec![payment(TOKEN_X, 0, 1000), payment(EGLD, 0, 500)]);
}

#[test]
fn successful_async_call_credits_what_came_back() {
    let (mut sc, a, _b) = engine();
    let contract = sc_address(9);
    let action = signed(&sc, &a, 0, call(CallType::Async, contract, b"claim", vec![payment(TOKEN_X, 0, 100)]));
    sc.multi_action_for_user_common(&a.address, &vec![action]).unwrap();
    let received = vec![payment(b"REWARD-abcdef", 0, 7), payment(TOKEN_X, 0, 1)];
    assert_eq!(
        sc.user_action_cb(&a.address, &vec![payment(TOKEN_X, 0, 100)], None, AsyncCallOutcome::Success(received)),
        Ok(())
    );
    assert_eq!(
        balance(&sc, &a),
        vec![payment(EGLD, 0, 500), payment(TOKEN_X, 0, 901), payment(b"REWARD-abcdef", 0, 7)]
    );
    assert_eq!(sc.get_user_nonce(&a.address), Ok(1));
}

#[test]
fn callback_for_unknown_account_fails() {
    let (mut sc, _a, _b) = engine();
    let before = sc.clone();
    let stranger = user_from_seed(9);
    assert_eq!(
        sc.user_action_cb(&stranger.address, &vec![payment(EGLD, 0, 1)], None, AsyncCallOutcome::Failure),
        Err(Error::UnknownAccount)
    );
    assert_eq!(sc.refund_user(&stranger.address, &vec![payment(EGLD, 0, 1)]), Err(Error::UnknownAccount));
    assert_eq!(sc.add_user_funds(&stranger.address, &vec![payment(EGLD, 0, 1)]), Err(Error::UnknownAccount));
    assert_eq!(sc, before);
}

#[test]
fn wrong_sequence_number_fails_and_changes_nothing() {
    let (mut sc, a, b) = engine();
    let before = sc.clone();
    for nonce in [1u64, 2, u64::MAX] {
        let action = signed(&sc, &a, nonce, transfer(b.address, EGLD, 100));
        assert_eq!(sc.multi_action_for_user_common(&a.address, &vec![action]), Err(Error::InvalidNonce));
        assert_eq!(sc, before);
    }
    assert_eq!(sc.get_user_nonce(&a.address), Ok(0));
}

#[test]
fn sequence_number_cannot_be_replayed() {
    let (mut sc, a, b) = engine();
    let action = signed(&sc, &a, 0, transfer(b.address, EGLD, 100));
    assert!(sc.multi_action_for_user_common(&a.address, &vec![action.clone()]).is_ok());
    let before = sc.clone();
    assert_eq!(sc.multi_action_for_user_common(&a.address, &vec![action]), Err(Error::InvalidNonce));
    assert_eq!(sc, before);
}

#[test]
fn batch_takes_consecutive_sequence_numbers() {
    let (mut sc, a, b) = engine();
    let actions = vec![
        signed(&sc, &a, 0, transfer(b.address, EGLD, 100)),
        signed(&sc, &a, 1, transfer(b.address, TOKEN_X, 1)),
        signed(&sc, &a, 2, transfer(b.address, EGLD, 50)),
    ];
    let dispatches = sc.multi_action_for_user_common(&a.address, &actions).unwrap();
    assert_eq!(dispatches.len(), 3);
    assert_eq!(sc.get_user_nonce(&a.address), Ok(3));
    assert_eq!(balance(&sc, &a), vec![payment(EGLD, 0, 350), payment(TOKEN_X, 0, 999)]);
}

#[test]
fn each_action_advances_the_sequence_whatever_its_call_type() {
    let (mut sc, a, b) = engine();
    let contract = sc_address(9);
    let actions = vec![
        signed(&sc, &a, 0, transfer(b.address, EGLD, 10)),
        signed(&sc, &a, 1, call(CallType::Sync, contract, b"op", vec![payment(TOKEN_X, 0, 20)])),
        signed(&sc, &a, 2, call(CallType::Async, contract, b"op", vec![payment(EGLD, 0, 30)])),
        signed(&sc, &a, 3, call(CallType::Async, contract, b"op", Vec::new())),
    ];
    let dispatches = sc.multi_action_for_user_common(&a.address, &actions).unwrap();
    assert_eq!(dispatches.len(), 4);
    assert!(matches!(dispatches[0], Dispatch::Transfer { .. }));
    assert!(matches!(dispatches[1], Dispatch::SyncCall(_)));
    assert!(matches!(dispatches[2], Dispatch::AsyncCall(_, _)));
    assert_eq!(sc.get_user_nonce(&a.address), Ok(4));
    assert_eq!(sc.get_user_nonce(&b.address), Ok(0));
    assert_eq!(balance(&sc, &a), vec![payment(EGLD, 0, 460), payment(TOKEN_X, 0, 980)]);
}

#[test]
fn wrong_sequence_number_fails_before_any_other_check() {
    let (mut sc, a, _b) = engine();
    let before = sc.clone();
    let own = sc.own_address();
    let mut bad = signed(&sc, &a, 5, call(CallType::Sync, own, b"ESDTLocalMint", vec![payment(EGLD, 0, 9999)]));
    bad.signature = Signature::new_from_bytes(&[0u8; 64]);
    assert_eq!(sc.multi_action_for_user_common(&a.address, &vec![bad]), Err(Error::InvalidNonce));
    assert_eq!(sc, before);
}

#[test]
fn room_is_asked_of_the_accounts_in_the_request_only() {
    let (sc, a, b) = engine();
    let mut parts = sc.into_parts();
    parts.users[0].nonce = u64::MAX - 1;
    let mut sc = AccountAbstraction::from_parts(parts).unwrap();
    let by_a = |nonce: u64| signed(&sc, &a, nonce, transfer(b.address, EGLD, 1));
    let one_of_a = vec![(a.address, vec![by_a(u64::MAX - 1)])];
    let two_of_a = vec![(a.address, vec![by_a(u64::MAX - 1)]), (a.address, vec![by_a(u64::MAX)])];
    let of_b = vec![(b.address, vec![signed(&sc, &b, 0, transfer(a.address, EGLD, 1)); 3])];
    let of_both = vec![of_b[0].clone(), one_of_a[0].clone()];
    assert!(sc.nonces_leave_room(&one_of_a));
    assert!(!sc.nonces_leave_room(&two_of_a));
    assert!(sc.nonces_leave_room(&of_b));
    assert!(sc.nonces_leave_room(&of_both));
    assert!(sc.nonces_leave_room(&Vec::new()));
    assert_eq!(sc.multi_action_for_multi_users(&one_of_a).map(|d| d.len()), Ok(1));
    assert_eq!(sc.get_user_nonce(&a.address), Ok(u64::MAX));
}

#[test]
fn batch_with_a_gap_fails_as_a_whole() {
    let (mut sc, a, b) = engine();
    let before = sc.clone();
    let actions = vec![
        signed(&sc, &a, 0, transfer(b.address, EGLD, 100)),
        signed(&sc, &a, 2, transfer(b.address, EGLD, 50)),
    ];
    assert_eq!(sc.multi_action_for_user_common(&a.address, &actions), Err(Error::InvalidNonce));
    assert_eq!(sc, before);
}

#[test]
fn batch_that_overdraws_fails_as_a_whole() {
    let (mut sc, a, b) = engine();
    let before = sc.clone();
    let actions = vec![
        signed(&sc, &a, 0, transfer(b.address, EGLD, 300)),
        signed(&sc, &a, 1, transfer(b.address, EGLD, 300)),
    ];
    assert_eq!(sc.multi_action_for_user_common(&a.address, &actions), Err(Error::InsufficientFunds));
    assert_eq!(sc, before);
}

#[test]
fn action_for_unknown_account_fails() {
    let (mut sc, _a, b) = engine();
    let stranger = user_from_seed(9);
    let action = signed(&sc, &stranger, 0, transfer(b.address, EGLD, 1));
    assert_eq!(sc.multi_action_for_user_common(&stranger.address, &vec![action]), Err(Error::UnknownAccount));
}

#[test]
fn request_without_actions_fails() {
    let (mut sc, a, _b) = engine();
    assert_eq!(sc.multi_action_for_user(&a.address, Vec::new()), Err(Error::NoActions));
    assert_eq!(sc.multi_action_for_multi_users(&Vec::new()), Err(Error::NoActions));
    assert_eq!(sc.save_intents(&a.address, Vec::new()), Err(Error::NoActions));
    assert_eq!(sc.multi_user_save_intents(&Vec::new()), Err(Error::NoActions));
    assert_eq!(require_non_empty_actions::<u8>(&Vec::new()), Err(Error::NoActions));
    assert_eq!(require_non_empty_actions(&vec![1u8]), Ok(()));
    assert_eq!(sc.multi_action_for_user_common(&a.address, &Vec::new()), Ok(Vec::new()));
}

#[test]
fn action_that_targets_the_engine_fails() {
    let (mut sc, a, _b) = engine();
    let own = sc.own_address();
    let action = signed(&sc, &a, 0, transfer(own, EGLD, 1));
    assert_eq!(sc.multi_action_for_user_common(&a.address, &vec![action]), Err(Error::InvalidDestination));
}

#[test]
fn action_with_banned_operation_fails() {
    let (mut sc, a, _b) = engine();
    let action = signed(&sc, &a, 0, call(CallType::Sync, sc_address(9), b"ESDTLocalMint", Vec::new()));
    assert_eq!(sc.multi_action_for_user_common(&a.address, &vec![action]), Err(Error::BannedOperation));
    let action = signed(&sc, &a, 0, call(CallType::Sync, sc_address(9), b"", Vec::new()));
    assert_eq!(sc.multi_action_for_user_common(&a.address, &vec![action]), Err(Error::BannedOperation));
}

#[test]
fn action_with_bad_signature_fails() {
    let (mut sc, a, b) = engine();
    let before = sc.clone();
    let mut action = signed(&sc, &a, 0, transfer(b.address, EGLD, 100));
    action.signature = Signature::new_from_bytes(&[0u8; 64]);
    assert_eq!(sc.multi_action_for_user_common(&a.address, &vec![action]), Err(Error::SignatureInvalid));
    let by_b = signed(&sc, &b, 0, transfer(b.address, EGLD, 100));
    assert_eq!(sc.multi_action_for_user_common(&a.address, &vec![by_b]), Err(Error::SignatureInvalid));
    let mut changed = signed(&sc, &a, 0, transfer(b.address, EGLD, 100));
    changed.action.payments = vec![payment(EGLD, 0, 101)];
    assert_eq!(sc.multi_action_for_user_common(&a.address, &vec![changed]), Err(Error::SignatureInvalid));
    assert_eq!(sc, before);
}

#[test]
fn operation_for_a_plain_account_fails() {
    let (mut sc, a, b) = engine();
    let action = signed(&sc, &a, 0, call(CallType::Sync, b.address, b"op", Vec::new()));
    assert_eq!(sc.multi_action_for_user_common(&a.address, &vec![action]), Err(Error::InvocationNotAllowed));
    assert_eq!(check_exec_args(&call(CallType::Sync, b.address, b"op", Vec::new())), Err(Error::InvocationNotAllowed));
    assert_eq!(check_exec_args(&call(CallType::Sync, sc_address(9), b"op", Vec::new())), Ok(()));
    assert_eq!(check_exec_args(&transfer(b.address, EGLD, 1)), Ok(()));
    assert_eq!(check_exec_args(&transfer(sc_address(9), EGLD, 1)), Ok(()));
}

#[test]
fn call_without_operation_fails() {
    let (mut sc, a, _b) = engine();
    for call_type in [CallType::Sync, CallType::Async] {
        let action = GeneralActionData { call_type, ..transfer(sc_address(9), EGLD, 1) };
        let action = signed(&sc, &a, 0, action);
        assert_eq!(sc.multi_action_for_user_common(&a.address, &vec![action]), Err(Error::InvalidTxData));
    }
    assert_eq!(get_balance_after_failures(&sc, &a), vec![payment(EGLD, 0, 500), payment(TOKEN_X, 0, 1000)]);
}

fn get_balance_after_failures(sc: &AccountAbstraction, user: &User) -> Vec<EsdtTokenPayment> {
    assert_eq!(sc.get_user_nonce(&user.address), Ok(0));
    balance(sc, user)
}

#[test]
fn native_coin_is_paid_once_and_alone() {
    let (mut sc, a, b) = engine();
    let twice = GeneralActionData {
        payments: vec![payment(EGLD, 0, 1), payment(EGLD, 0, 2)],
        ..transfer(b.address, EGLD, 0)
    };
    let action = signed(&sc, &a, 0, twice);
    assert_eq!(sc.multi_action_for_user_common(&a.address, &vec![action]), Err(Error::MultipleEgldPayments));
    let mixed = GeneralActionData {
        payments: vec![payment(TOKEN_X, 0, 1), payment(EGLD, 0, 2)],
        ..transfer(b.address, EGLD, 0)
    };
    let action = signed(&sc, &a, 0, mixed);
    assert_eq!(sc.multi_action_for_user_common(&a.address, &vec![action]), Err(Error::MixedEgldAndEsdt));
    assert_eq!(get_balance_after_failures(&sc, &a), vec![payment(EGLD, 0, 500), payment(TOKEN_X, 0, 1000)]);
}

#[test]
fn egld_value_is_taken_out_of_the_payments() {
    let mut payments = vec![payment(EGLD, 0, 9)];
    assert_eq!(get_egld_value(&mut payments), Ok(BigUint::from_u64(9)));
    assert_eq!(payments, Vec::new());

    let mut payments = vec![payment(TOKEN_X, 0, 9), payment(b"Y-000000", 1, 2)];
    assert_eq!(get_egld_value(&mut payments), Ok(BigUint::from_u64(0)));
    assert_eq!(payments, vec![payment(TOKEN_X, 0, 9), payment(b"Y-000000", 1, 2)]);

    let mut payments: Vec<EsdtTokenPayment> = Vec::new();
    assert_eq!(get_egld_value(&mut payments), Ok(BigUint::from_u64(0)));

    let mut payments = vec![payment(EGLD, 0, 9), payment(TOKEN_X, 0, 1), payment(EGLD, 0, 9)];
    assert_eq!(get_egld_value(&mut payments), Err(Error::MultipleEgldPayments));
    assert_eq!(payments.len(), 3);

    let mut payments = vec![payment(TOKEN_X, 0, 1), payment(EGLD, 0, 9)];
    assert_eq!(get_egld_value(&mut payments), Err(Error::MixedEgldAndEsdt));
    assert_eq!(payments.len(), 2);
}

#[test]
fn calls_are_built_from_the_action() {
    let action = call(CallType::Sync, sc_address(9), b"op", vec![payment(TOKEN_X, 0, 5)]);
    let expected = ContractCall {
        to: sc_address(9),
        egld_value: BigUint::from_u64(0),
        payments: vec![payment(TOKEN_X, 0, 5)],
        endpoint_name: b"op".to_vec(),
        args: vec![vec![1, 2]],
        gas_limit: 77,
    };
    assert_eq!(build_esdt_tx(action), Ok(expected));
    let action = call(CallType::Sync, sc_address(9), b"op", Vec::new());
    let expected = ContractCall {
        to: sc_address(9),
        egld_value: BigUint::from_u64(3),
        payments: Vec::new(),
        endpoint_name: b"op".to_vec(),
        args: vec![vec![1, 2]],
        gas_limit: 77,
    };
    assert_eq!(build_egld_tx(BigUint::from_u64(3), action), Ok(expected));
    assert_eq!(build_esdt_tx(transfer(sc_address(9), TOKEN_X, 1)), Err(Error::InvalidTxData));
    assert_eq!(build_egld_tx(BigUint::from_u64(3), transfer(sc_address(9), EGLD, 3)), Err(Error::InvalidTxData));
}

#[test]
fn dispatch_follows_the_call_type() {
    let user = user_from_seed(1).address;
    let action = GeneralActionData { payments: vec![payment(TOKEN_X, 0, 5)], ..transfer(sc_address(9), TOKEN_X, 5) };
    assert_eq!(
        execute_action_by_type(user, BigUint::from_u64(0), action, vec![payment(TOKEN_X, 0, 5)], None),
        Ok(Dispatch::Transfer {
            to: sc_address(9),
            egld_value: BigUint::from_u64(0),
            payments: vec![payment(TOKEN_X, 0, 5)]
        })
    );
    let action = call(CallType::Async, sc_address(9), b"op", Vec::new());
    let dispatch =
        execute_action_by_type(user, BigUint::from_u64(4), action, vec![payment(EGLD, 0, 4)], Some(6)).unwrap();
    match dispatch {
        Dispatch::AsyncCall(call, callback) => {
            assert_eq!(call.egld_value, BigUint::from_u64(4));
            assert_eq!(call.payments, Vec::new());
            assert_eq!(callback.original_payments, vec![payment(EGLD, 0, 4)]);
            assert_eq!(callback.opt_intent_id, Some(6));
            assert_eq!(callback.original_user, user);
        }
        _ => panic!("an asynchronous call was expected"),
    }
    let action = call(CallType::Sync, sc_address(9), b"op", vec![payment(TOKEN_X, 0, 5)]);
    let dispatch =
        execute_action_by_type(user, BigUint::from_u64(0), action, vec![payment(TOKEN_X, 0, 5)], None).unwrap();
    assert!(matches!(dispatch, Dispatch::SyncCall(_)));
}

#[test]
fn single_action_follows_the_given_signature_check() {
    let own = sc_address(1);
    let a = user_from_seed(1);
    let action = ActionStruct {
        action: transfer(user_from_seed(2).address, EGLD, 10),
        user_nonce: 4,
        signature: Signature::new_from_bytes(&[0u8; 64]),
    };
    assert_eq!(check_can_execute_action(&own, 4, &action, Ok(())), Ok(()));
    assert_eq!(check_can_execute_action(&own, 5, &action, Ok(())), Err(Error::InvalidNonce));
    assert_eq!(
        check_can_execute_action(&own, 4, &action, Err(Error::SignatureInvalid)),
        Err(Error::SignatureInvalid)
    );
    assert_eq!(
        check_can_execute_action(&own, 4, &action, Err(Error::EncodingError)),
        Err(Error::EncodingError)
    );
    assert_eq!(check_can_execute_action(&own, 5, &action, Err(Error::SignatureInvalid)), Err(Error::InvalidNonce));

    let mut tokens = UniquePayments::new_from_payments(vec![payment(EGLD, 0, 30)]);
    let dispatch = execute_action(&own, &a.address, 4, &mut tokens, &action, Ok(())).unwrap();
    assert!(matches!(dispatch, Dispatch::Transfer { .. }));
    assert_eq!(tokens.clone().into_payments(), vec![payment(EGLD, 0, 20)]);
    assert_eq!(
        execute_action(&own, &a.address, 4, &mut tokens, &action, Err(Error::SignatureInvalid)),
        Err(Error::SignatureInvalid)
    );
    assert_eq!(tokens.clone().into_payments(), vec![payment(EGLD, 0, 20)]);
    assert!(execute_action(&own, &a.address, 4, &mut tokens, &action, Ok(())).is_ok());
    assert!(execute_action(&own, &a.address, 4, &mut tokens, &action, Ok(())).is_ok());
    assert_eq!(
        execute_action(&own, &a.address, 4, &mut tokens, &action, Ok(())),
        Err(Error::InsufficientFunds)
    );
    assert!(tokens.is_empty());
}

#[test]
fn several_accounts_are_processed_in_turn() {
    let (mut sc, a, b) = engine();
    assert_eq!(sc.deposit_for_user(&b.address, vec![payment(TOKEN_X, 0, 20)]), Ok(()));
    let args = vec![
        (a.address, vec![signed(&sc, &a, 0, transfer(b.address, EGLD, 100))]),
        (b.address, vec![signed(&sc, &b, 0, transfer(a.address, TOKEN_X, 5))]),
        (a.address, vec![signed(&sc, &a, 1, transfer(b.address, EGLD, 1))]),
    ];
    let dispatches = sc.multi_action_for_multi_users(&args).unwrap();
    assert_eq!(dispatches.len(), 3);
    assert_eq!(sc.get_user_nonce(&a.address), Ok(2));
    assert_eq!(sc.get_user_nonce(&b.address), Ok(1));
    assert_eq!(balance(&sc, &a), vec![payment(EGLD, 0, 399), payment(TOKEN_X, 0, 1000)]);
    assert_eq!(balance(&sc, &b), vec![payment(TOKEN_X, 0, 15)]);
}

#[test]
fn one_failing_account_fails_the_whole_request() {
    let (mut sc, a, b) = engine();
    let before = sc.clone();
    let args = vec![
        (a.address, vec![signed(&sc, &a, 0, transfer(b.address, EGLD, 100))]),
        (b.address, vec![signed(&sc, &b, 0, transfer(a.address, TOKEN_X, 5))]),
    ];
    assert_eq!(sc.multi_action_for_multi_users(&args), Err(Error::InsufficientFunds));
    assert_eq!(sc, before);
}

fn save_one(sc: &mut AccountAbstraction, user: &User, nonce: u64, action: GeneralActionData) -> Result<(), Error> {
    let action = signed(sc, user, nonce, action);
    sc.save_intents_common(&user.address, &vec![action])
}

#[test]
fn intent_cannot_be_executed_twice_at_once() {
    let (mut sc, a, _b) = engine();
    let contract = sc_address(9);
    let action = call(CallType::Async, contract, b"op", vec![payment(EGLD, 0, 100)]);
    assert_eq!(save_one(&mut sc, &a, 0, action.clone()), Ok(()));
    assert_eq!(sc.get_user_nonce(&a.address), Ok(1));
    assert_eq!(balance(&sc, &a), vec![payment(EGLD, 0, 500), payment(TOKEN_X, 0, 1000)]);
    assert_eq!(sc.get_all_user_intent_ids(&a.address), Ok(vec![1]));
    assert_eq!(
        sc.get_intent_info(&a.address, 1),
        Ok(Intent::new(IntentType::AwaitingExecution, action.clone()))
    );

    let dispatch = sc.execute_intent(&a.address, 1).unwrap();
    match &dispatch {
        Dispatch::AsyncCall(call, callback) => {
            assert_eq!(call.to, contract);
            assert_eq!(call.egld_value, BigUint::from_u64(100));
            assert_eq!(callback.opt_intent_id, Some(1));
            assert_eq!(callback.original_payments, vec![payment(EGLD, 0, 100)]);
        }
        _ => panic!("an asynchronous call was expected"),
    }
    assert_eq!(balance(&sc, &a), vec![payment(EGLD, 0, 400), payment(TOKEN_X, 0, 1000)]);
    assert_eq!(sc.get_intent_info(&a.address, 1), Ok(Intent::new(IntentType::InProgress, action.clone())));

    let before = sc.clone();
    assert_eq!(sc.execute_intent(&a.address, 1), Err(Error::ExecutionInProgress));
    assert_eq!(sc, before);
    assert_eq!(sc.get_user_nonce(&a.address), Ok(1));
}

#[test]
fn failed_intent_awaits_execution_again() {
    let (mut sc, a, _b) = engine();
    let action = call(CallType::Async, sc_address(9), b"op", vec![payment(EGLD, 0, 100)]);
    assert_eq!(save_one(&mut sc, &a, 0, action.clone()), Ok(()));
    sc.execute_intent(&a.address, 1).unwrap();
    assert_eq!(
        sc.user_action_cb(&a.address, &vec![payment(EGLD, 0, 100)], Some(1), AsyncCallOutcome::Failure),
        Ok(())
    );
    assert_eq!(balance(&sc, &a), vec![payment(EGLD, 0, 500), payment(TOKEN_X, 0, 1000)]);
    assert_eq!(sc.get_intent_info(&a.address, 1), Ok(Intent::new(IntentType::AwaitingExecution, action)));
    assert!(sc.execute_intent(&a.address, 1).is_ok());
}

#[test]
fn completed_intent_is_removed() {
    let (mut sc, a, _b) = engine();
    let action = call(CallType::Async, sc_address(9), b"op", vec![payment(EGLD, 0, 100)]);
    assert_eq!(save_one(&mut sc, &a, 0, action), Ok(()));
    sc.execute_intent(&a.address, 1).unwrap();
    assert_eq!(
        sc.user_action_cb(&a.address, &vec![payment(EGLD, 0, 100)], Some(1), AsyncCallOutcome::Success(Vec::new())),
        Ok(())
    );
    assert_eq!(sc.get_all_user_intent_ids(&a.address), Ok(Vec::new()));
    assert_eq!(sc.get_intent_info(&a.address, 1), Err(Error::IntentNotFound));
    assert_eq!(sc.execute_intent(&a.address, 1), Err(Error::IntentNotFound));
    assert_eq!(balance(&sc, &a), vec![payment(EGLD, 0, 400), payment(TOKEN_X, 0, 1000)]);
}

#[test]
fn intents_are_numbered_across_accounts() {
    let (mut sc, a, b) = engine();
    let action = call(CallType::Async, sc_address(9), b"op", Vec::new());
    assert_eq!(sc.last_intent_id(), 0);
    let batch = vec![signed(&sc, &a, 0, action.clone()), signed(&sc, &a, 1, action.clone())];
    assert_eq!(sc.save_intents_common(&a.address, &batch), Ok(()));
    assert_eq!(save_one(&mut sc, &b, 0, action.clone()), Ok(()));
    assert_eq!(save_one(&mut sc, &a, 2, action.clone()), Ok(()));
    assert_eq!(sc.last_intent_id(), 4);
    assert_eq!(sc.get_all_user_intent_ids(&a.address), Ok(vec![1, 2, 4]));
    assert_eq!(sc.get_all_user_intent_ids(&b.address), Ok(vec![3]));
    assert_eq!(sc.all_user_intents(2), vec![3]);
    assert_eq!(sc.user_intent(2, 3), Some(Intent::new(IntentType::AwaitingExecution, action)));
    assert_eq!(sc.user_intent(2, 1), None);
    assert_eq!(sc.get_user_nonce(&a.address), Ok(3));
    assert_eq!(sc.execute_intent(&b.address, 1), Err(Error::IntentNotFound));
    assert_eq!(sc.execute_intent(&user_from_seed(9).address, 1), Err(Error::UnknownAccount));
    assert_eq!(sc.get_all_user_intent_ids(&user_from_seed(9).address), Err(Error::UnknownAccount));
    assert_eq!(sc.get_intent_info(&user_from_seed(9).address, 1), Err(Error::UnknownAccount));
}

#[test]
fn only_asynchronous_calls_become_intents() {
    let (mut sc, a, b) = engine();
    let before = sc.clone();
    assert_eq!(save_one(&mut sc, &a, 0, transfer(b.address, EGLD, 1)), Err(Error::OnlyAsyncSupported));
    assert_eq!(
        save_one(&mut sc, &a, 0, call(CallType::Sync, sc_address(9), b"op", Vec::new())),
        Err(Error::OnlyAsyncSupported)
    );
    assert_eq!(sc, before);
}

#[test]
fn intents_are_validated_when_saved() {
    let (mut sc, a, _b) = engine();
    let before = sc.clone();
    let action = call(CallType::Async, sc_address(9), b"op", Vec::new());
    assert_eq!(save_one(&mut sc, &a, 1, action.clone()), Err(Error::InvalidNonce));
    let own = sc.own_address();
    assert_eq!(
        save_one(&mut sc, &a, 0, call(CallType::Async, own, b"op", Vec::new())),
        Err(Error::InvalidDestination)
    );
    assert_eq!(
        save_one(&mut sc, &a, 0, call(CallType::Async, sc_address(9), b"upgradeContract", Vec::new())),
        Err(Error::BannedOperation)
    );
    let mut forged = signed(&sc, &a, 0, action);
    forged.signature = Signature::new_from_bytes(&[1u8; 64]);
    assert_eq!(sc.save_intents_common(&a.address, &vec![forged]), Err(Error::SignatureInvalid));
    assert_eq!(sc, before);
}

#[test]
fn intent_that_is_not_covered_fails_when_executed() {
    let (mut sc, a, _b) = engine();
    let action = call(CallType::Async, sc_address(9), b"op", vec![payment(EGLD, 0, 501)]);
    assert_eq!(save_one(&mut sc, &a, 0, action), Ok(()));
    let before = sc.clone();
    assert_eq!(sc.execute_intent(&a.address, 1), Err(Error::InsufficientFunds));
    assert_eq!(sc, before);
}

#[test]
fn intents_of_several_accounts_are_saved_or_none() {
    let (mut sc, a, b) = engine();
    let action = call(CallType::Async, sc_address(9), b"op", Vec::new());
    let before = sc.clone();
    let args = vec![
        (a.address, vec![signed(&sc, &a, 0, action.clone())]),
        (b.address, vec![signed(&sc, &b, 1, action.clone())]),
    ];
    assert_eq!(sc.multi_user_save_intents(&args), Err(Error::InvalidNonce));
    assert_eq!(sc, before);
    let args = vec![
        (a.address, vec![signed(&sc, &a, 0, action.clone())]),
        (b.address, vec![signed(&sc, &b, 0, action.clone())]),
    ];
    assert_eq!(sc.multi_user_save_intents(&args), Ok(()));
    assert_eq!(sc.get_all_user_intent_ids(&a.address), Ok(vec![1]));
    assert_eq!(sc.get_all_user_intent_ids(&b.address), Ok(vec![2]));
}

fn grant(action: &[u8]) -> Vec<(Address, Vec<u8>)> {
    vec![(sc_address(9), action.to_vec())]
}

#[test]
fn delegate_needs_the_exact_grant() {
    let (mut sc, a, _b) = engine();
    let d = user_from_seed(3);
    let c = sc_address(9);
    assert_eq!(sc.whitelist(&a.address, &d.address, &grant(b"op")), Ok(()));
    let before = sc.clone();
    assert_eq!(
        sc.take_action(&d.address, &a.address, c, b"other".to_vec(), Vec::new(), None, 1_000_000),
        Err(Error::NotWhitelisted)
    );
    assert_eq!(
        sc.take_action(&d.address, &a.address, sc_address(8), b"op".to_vec(), Vec::new(), None, 1_000_000),
        Err(Error::NotWhitelisted)
    );
    assert_eq!(sc, before);

    let dispatch = sc
        .take_action(&d.address, &a.address, c, b"op".to_vec(), vec![vec![5]], Some(payment(TOKEN_X, 0, 30)), 1_000_000)
        .unwrap();
    let expected_call = ContractCall {
        to: c,
        egld_value: BigUint::from_u64(0),
        payments: vec![payment(TOKEN_X, 0, 30)],
        endpoint_name: b"op".to_vec(),
        args: vec![vec![5]],
        gas_limit: 900_000,
    };
    let expected_callback =
        CallbackArgs { original_user: a.address, original_payments: vec![payment(TOKEN_X, 0, 30)], opt_intent_id: None };
    assert_eq!(dispatch, Dispatch::AsyncCall(expected_call, expected_callback));
    assert_eq!(balance(&sc, &a), vec![payment(EGLD, 0, 500), payment(TOKEN_X, 0, 970)]);
    assert_eq!(sc.get_user_nonce(&a.address), Ok(0));
}

#[test]
fn delegated_call_without_payment_deducts_nothing() {
    let (mut sc, a, _b) = engine();
    let d = user_from_seed(3);
    assert_eq!(sc.whitelist(&a.address, &d.address, &grant(b"op")), Ok(()));
    let dispatch =
        sc.take_action(&d.address, &a.address, sc_address(9), b"op".to_vec(), Vec::new(), None, 100_001).unwrap();
    match dispatch {
        Dispatch::AsyncCall(call, callback) => {
            assert_eq!(call.gas_limit, 1);
            assert_eq!(call.payments, Vec::new());
            assert_eq!(callback.original_payments, Vec::new());
        }
        _ => panic!("an asynchronous call was expected"),
    }
    assert_eq!(balance(&sc, &a), vec![payment(EGLD, 0, 500), payment(TOKEN_X, 0, 1000)]);
}

#[test]
fn delegated_call_fails_as_a_signed_one_would() {
    let (mut sc, a, b) = engine();
    let d = user_from_seed(3);
    let own = sc.own_address();
    let grants = vec![
        (sc_address(9), b"op".to_vec()),
        (sc_address(9), b"ESDTTransfer".to_vec()),
        (own, b"op".to_vec()),
        (b.address, b"op".to_vec()),
    ];
    assert_eq!(sc.whitelist(&a.address, &d.address, &grants), Ok(()));
    let before = sc.clone();
    let mut take = |target: Address, name: &[u8], amount: u64, gas: u64| {
        sc.take_action(&d.address, &a.address, target, name.to_vec(), Vec::new(), Some(payment(EGLD, 0, amount)), gas)
    };
    assert_eq!(take(sc_address(9), b"op", 501, 1_000_000), Err(Error::InsufficientFunds));
    assert_eq!(take(sc_address(9), b"op", 501, 100_000), Err(Error::InsufficientFunds));
    assert_eq!(take(sc_address(9), b"ESDTTransfer", 501, 1_000_000), Err(Error::InsufficientFunds));
    assert_eq!(take(own, b"op", 501, 1_000_000), Err(Error::InsufficientFunds));
    assert_eq!(take(b.address, b"op", 501, 1_000_000), Err(Error::InsufficientFunds));
    assert_eq!(take(sc_address(9), b"op", 1, 100_000), Err(Error::NotEnoughGas));
    assert_eq!(take(sc_address(9), b"ESDTTransfer", 1, 100_000), Err(Error::NotEnoughGas));
    assert_eq!(take(sc_address(9), b"ESDTTransfer", 1, 1_000_000), Err(Error::BannedOperation));
    assert_eq!(take(own, b"op", 1, 1_000_000), Err(Error::InvalidDestination));
    assert_eq!(take(b.address, b"op", 1, 1_000_000), Err(Error::InvocationNotAllowed));
    assert_eq!(sc, before);
}

#[test]
fn delegate_needs_a_grant_and_account_must_be_known() {
    let (mut sc, a, b) = engine();
    let d = user_from_seed(3);
    let stranger = user_from_seed(9);
    let before = sc.clone();
    assert_eq!(
        sc.take_action(&d.address, &a.address, sc_address(9), b"op".to_vec(), Vec::new(), None, 1_000_000),
        Err(Error::NotWhitelisted)
    );
    assert_eq!(
        sc.take_action(
            &b.address,
            &a.address,
            sc_address(9),
            b"op".to_vec(),
            Vec::new(),
            Some(payment(EGLD, 0, 100)),
            1_000_000
        ),
        Err(Error::NotWhitelisted)
    );
    assert_eq!(sc.remove_whitelist(&a.address, &d.address, &grant(b"op")), Err(Error::NotWhitelisted));
    assert_eq!(sc, before);
    assert_eq!(sc.whitelist(&stranger.address, &d.address, &grant(b"op")), Err(Error::UnknownAccount));
    assert_eq!(sc.whitelist(&b.address, &d.address, &grant(b"op")), Ok(()));
    assert_eq!(
        sc.take_action(&d.address, &stranger.address, sc_address(9), b"op".to_vec(), Vec::new(), None, 1_000_000),
        Err(Error::UnknownAccount)
    );
    assert_eq!(
        sc.take_action(&d.address, &a.address, sc_address(9), b"op".to_vec(), Vec::new(), None, 1_000_000),
        Err(Error::NotWhitelisted)
    );
    assert_eq!(sc.remove_whitelist(&a.address, &stranger.address, &grant(b"op")), Err(Error::NotWhitelisted));
    assert_eq!(sc.remove_whitelist(&stranger.address, &d.address, &grant(b"op")), Err(Error::UnknownAccount));
}

#[test]
fn grants_can_be_listed() {
    let (mut sc, a, b) = engine();
    let d = user_from_seed(3);
    let e = user_from_seed(4);
    let c = sc_address(9);
    assert_eq!(sc.whitelist(&b.address, &d.address, &grant(b"op")), Ok(()));
    assert_eq!(
        sc.whitelist(&a.address, &d.address, &vec![(c, b"op".to_vec()), (c, b"other".to_vec()), (c, b"op".to_vec())]),
        Ok(())
    );
    assert_eq!(sc.whitelist(&a.address, &e.address, &grant(b"third")), Ok(()));
    assert_eq!(sc.whitelist(&a.address, &d.address, &grant(b"op")), Ok(()));

    assert_eq!(sc.get_all_whitelisted_users(&d.address), Ok(vec![b.address, a.address]));
    assert_eq!(sc.get_all_whitelisted_users(&e.address), Ok(vec![a.address]));
    assert_eq!(sc.get_all_whitelisted_users(&a.address), Err(Error::UnknownAccount));
    assert_eq!(
        sc.get_whitelist_types(&d.address, &vec![a.address, b.address]),
        Ok(vec![
            vec![WhitelistAction::new(c, b"op".to_vec()), WhitelistAction::new(c, b"other".to_vec())],
            vec![WhitelistAction::new(c, b"op".to_vec())],
        ])
    );
    assert_eq!(sc.get_whitelist_types(&e.address, &vec![b.address]), Ok(vec![Vec::new()]));
    assert_eq!(sc.get_whitelist_types(&e.address, &Vec::new()), Ok(Vec::new()));
    assert_eq!(sc.get_whitelist_types(&a.address, &vec![b.address]), Err(Error::UnknownAccount));
    assert_eq!(sc.get_whitelist_types(&d.address, &vec![a.address, d.address]), Err(Error::UnknownAccount));
}

#[test]
fn grantor_leaves_the_list_with_its_last_grant() {
    let (mut sc, a, b) = engine();
    let d = user_from_seed(3);
    let c = sc_address(9);
    assert_eq!(sc.whitelist(&a.address, &d.address, &vec![(c, b"op".to_vec()), (c, b"other".to_vec())]), Ok(()));
    assert_eq!(sc.whitelist(&b.address, &d.address, &grant(b"op")), Ok(()));
    assert_eq!(sc.remove_whitelist(&a.address, &d.address, &grant(b"op")), Ok(()));
    assert_eq!(sc.get_all_whitelisted_users(&d.address), Ok(vec![a.address, b.address]));
    assert_eq!(sc.remove_whitelist(&a.address, &d.address, &grant(b"other")), Ok(()));
    assert_eq!(sc.get_all_whitelisted_users(&d.address), Ok(vec![b.address]));
    assert_eq!(sc.get_whitelist_types(&d.address, &vec![a.address]), Ok(vec![Vec::new()]));
}

#[test]
fn removing_what_was_not_granted_fails_as_a_whole() {
    let (mut sc, a, b) = engine();
    let d = user_from_seed(3);
    let c = sc_address(9);
    assert_eq!(sc.whitelist(&a.address, &d.address, &vec![(c, b"op".to_vec()), (c, b"other".to_vec())]), Ok(()));
    let before = sc.clone();
    assert_eq!(
        sc.remove_whitelist(&a.address, &d.address, &vec![(c, b"op".to_vec()), (c, b"never".to_vec())]),
        Err(Error::NotWhitelisted)
    );
    assert_eq!(
        sc.remove_whitelist(&a.address, &d.address, &vec![(c, b"op".to_vec()), (c, b"op".to_vec())]),
        Err(Error::NotWhitelisted)
    );
    assert_eq!(sc.remove_whitelist(&b.address, &d.address, &grant(b"op")), Err(Error::NotWhitelisted));
    assert_eq!(sc, before);
}

#[test]
fn grants_must_name_an_action() {
    let (mut sc, a, _b) = engine();
    let d = user_from_seed(3);
    assert_eq!(sc.whitelist(&a.address, &d.address, &Vec::new()), Err(Error::NoWhitelistActions));
    assert_eq!(sc.remove_whitelist(&a.address, &d.address, &Vec::new()), Err(Error::NoWhitelistActions));
    assert_eq!(require_non_empty_action_types::<u8>(&Vec::new()), Err(Error::NoWhitelistActions));
    assert_eq!(require_non_empty_action_types(&vec![1u8]), Ok(()));
}

#[test]
fn gas_for_a_delegated_call_keeps_some_back() {
    assert_eq!(GAS_TO_SAVE, 100_000);
    assert_eq!(get_gas_for_promise(0), Err(Error::NotEnoughGas));
    assert_eq!(get_gas_for_promise(100_000), Err(Error::NotEnoughGas));
    assert_eq!(get_gas_for_promise(100_001), Ok(1));
    assert_eq!(get_gas_for_promise(u64::MAX), Ok(u64::MAX - 100_000));
}

#[test]
fn single_payment_is_deducted_by_handle() {
    let (mut sc, a, _b) = engine();
    assert_eq!(sc.deduct_single_payment(1, &payment(EGLD, 0, 200)), Ok(()));
    assert_eq!(balance(&sc, &a), vec![payment(EGLD, 0, 300), payment(TOKEN_X, 0, 1000)]);
    let before = sc.clone();
    assert_eq!(sc.deduct_single_payment(1, &payment(EGLD, 0, 301)), Err(Error::InsufficientFunds));
    assert_eq!(sc.deduct_single_payment(2, &payment(EGLD, 0, 1)), Err(Error::InsufficientFunds));
    assert_eq!(sc.deduct_single_payment(0, &payment(EGLD, 0, 1)), Err(Error::UnknownAccount));
    assert_eq!(sc.deduct_single_payment(3, &payment(EGLD, 0, 1)), Err(Error::UnknownAccount));
    assert_eq!(sc, before);
}

#[test]
fn sequence_numbers_never_fall() {
    let (mut sc, a, b) = engine();
    let d = user_from_seed(3);
    let mut last = 0u64;
    let mut check = |sc: &AccountAbstraction| {
        let now = sc.get_user_nonce(&a.address).unwrap();
        assert!(now >= last);
        last = now;
    };
    let first = signed(&sc, &a, 0, transfer(b.address, EGLD, 1));
    sc.multi_action_for_user_common(&a.address, &vec![first]).unwrap();
    check(&sc);
    assert!(sc.deposit_for_user(&a.address, vec![payment(EGLD, 0, 1)]).is_ok());
    check(&sc);
    let async_call = call(CallType::Async, sc_address(9), b"op", vec![payment(EGLD, 0, 1)]);
    let second = signed(&sc, &a, 1, async_call.clone());
    sc.multi_action_for_user_common(&a.address, &vec![second]).unwrap();
    check(&sc);
    assert!(sc.user_action_cb(&a.address, &vec![payment(EGLD, 0, 1)], None, AsyncCallOutcome::Failure).is_ok());
    check(&sc);
    assert!(save_one(&mut sc, &a, 2, async_call).is_ok());
    check(&sc);
    assert!(sc.execute_intent(&a.address, 1).is_ok());
    check(&sc);
    assert!(sc.whitelist(&a.address, &d.address, &grant(b"op")).is_ok());
    assert!(sc.take_action(&d.address, &a.address, sc_address(9), b"op".to_vec(), Vec::new(), None, 200_000).is_ok());
    check(&sc);
    let wrong = signed(&sc, &a, 0, transfer(b.address, EGLD, 1));
    assert!(sc.multi_action_for_user_common(&a.address, &vec![wrong]).is_err());
    check(&sc);
    assert_eq!(sc.get_user_nonce(&a.address), Ok(3));
}
