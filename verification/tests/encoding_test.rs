use account_abstraction::bytes::{append_bytes, bytes_clone, bytes_eq, bytes_eq_slice};
use account_abstraction::common::common_types::{
    name_is_denylisted, Address, CallType, EsdtTokenPayment, GeneralActionData, ScExecutionData,
};
use account_abstraction::common::signature::{
    build_execution_signature_data, build_register_signature_data, check_execution_signature,
    check_register_signature, CheckExecutionSignatureArgs, Signature,
};
use account_abstraction::error::Error;
use ed25519_dalek::{Signer, SigningKey};
use multiversx_sc::codec::top_encode_to_vec_u8;
use account_abstraction::amount::BigUint;

type EncodedPayment = (Vec<u8>, u64, Vec<u8>);
type EncodedExecution = (Vec<u8>, Vec<Vec<u8>>, u64);

fn address(first: u8) -> Address {
    let mut bytes = [7u8; 32];
    bytes[0] = first;
    Address::new(bytes)
}

fn sample_action() -> GeneralActionData {
    GeneralActionData {
        call_type: CallType::Async,
        dest_address: address(9),
        payments: vec![
            EsdtTokenPayment::new(b"EGLD".to_vec(), 0, BigUint::from_u64(100)),
            EsdtTokenPayment::new(b"MYTOK-123456".to_vec(), 3, BigUint::from_u64(0x0102_0304)),
            EsdtTokenPayment::new(b"ZERO-000000".to_vec(), 0, BigUint::from_u64(0)),
        ],
        opt_execution: Some(ScExecutionData {
            endpoint_name: b"depositForUser".to_vec(),
            args: vec![vec![1, 2, 3], Vec::new(), vec![0xff]],
            gas_limit: 10_000,
        }),
    }
}

/// The same action as the plain values that the codec of the chain
/// encodes field by field.
fn codec_encoding(action: &GeneralActionData) -> Vec<u8> {
    let call_type: u8 = match action.call_type {
        CallType::Transfer => 0,
        CallType::Sync => 1,
        CallType::Async => 2,
    };
    let payments: Vec<EncodedPayment> = action
        .payments
        .iter()
        .map(|p| {
            (p.token_identifier.clone(), p.token_nonce, p.amount.to_bytes_be())
        })
        .collect();
    let execution: Option<EncodedExecution> =
        action.opt_execution.as_ref().map(|e| (e.endpoint_name.clone(), e.args.clone(), e.gas_limit));
    top_encode_to_vec_u8(&(call_type, action.dest_address.bytes, payments, execution)).unwrap()
}

#[test]
fn transfer_without_payments_encodes_to_its_fields() {
    let action = GeneralActionData {
        call_type: CallType::Transfer,
        dest_address: address(9),
        payments: Vec::new(),
        opt_execution: None,
    };
    let mut expected = vec![0u8];
    expected.extend_from_slice(&address(9).bytes);
    expected.extend_from_slice(&[0, 0, 0, 0]);
    expected.push(0);
    assert_eq!(action.top_encode(), Ok(expected));
}

#[test]
fn action_encodes_to_exact_bytes() {
    let action = GeneralActionData {
        call_type: CallType::Sync,
        dest_address: address(1),
        payments: vec![EsdtTokenPayment::new(b"AB".to_vec(), 0x0102, BigUint::from_u64(0x01_00))],
        opt_execution: Some(ScExecutionData {
            endpoint_name: b"op".to_vec(),
            args: vec![vec![9]],
            gas_limit: 0x0a0b,
        }),
    };
    let mut expected = vec![1u8];
    expected.extend_from_slice(&address(1).bytes);
    expected.extend_from_slice(&[0, 0, 0, 1]);
    expected.extend_from_slice(&[0, 0, 0, 2, b'A', b'B']);
    expected.extend_from_slice(&[0, 0, 0, 0, 0, 0, 1, 2]);
    expected.extend_from_slice(&[0, 0, 0, 2, 1, 0]);
    expected.push(1);
    expected.extend_from_slice(&[0, 0, 0, 2, b'o', b'p']);
    expected.extend_from_slice(&[0, 0, 0, 1]);
    expected.extend_from_slice(&[0, 0, 0, 1, 9]);
    expected.extend_from_slice(&[0, 0, 0, 0, 0, 0, 0x0a, 0x0b]);
    assert_eq!(action.top_encode(), Ok(expected));
}

#[test]
fn zero_amount_encodes_as_empty() {
    let action = GeneralActionData {
        call_type: CallType::Transfer,
        dest_address: address(1),
        payments: vec![EsdtTokenPayment::new(b"T".to_vec(), 0, BigUint::from_u64(0))],
        opt_execution: None,
    };
    let mut expected = vec![0u8];
    expected.extend_from_slice(&address(1).bytes);
    expected.extend_from_slice(&[0, 0, 0, 1]);
    expected.extend_from_slice(&[0, 0, 0, 1, b'T']);
    expected.extend_from_slice(&[0; 8]);
    expected.extend_from_slice(&[0, 0, 0, 0]);
    expected.push(0);
    assert_eq!(action.top_encode(), Ok(expected));
}

#[test]
fn encoding_agrees_with_the_codec() {
    let action = sample_action();
    assert_eq!(action.top_encode().unwrap(), codec_encoding(&action));
    let transfer = GeneralActionData { call_type: CallType::Transfer, opt_execution: None, ..sample_action() };
    assert_eq!(transfer.top_encode().unwrap(), codec_encoding(&transfer));
    let big = GeneralActionData {
        payments: vec![EsdtTokenPayment::new(
            b"BIG-aaaaaa".to_vec(),
            u64::MAX,
            BigUint::from_bytes_be(&[
                0xff, 0xff, 0xff, 0xff, 0xff, 0xff, 0xff, 0xfe, 0, 0, 0, 0, 0, 0, 0, 1,
            ]),
        )],
        ..sample_action()
    };
    assert_eq!(big.top_encode().unwrap(), codec_encoding(&big));
}

#[test]
fn call_types_have_their_bytes() {
    assert_eq!(CallType::Transfer.discriminant(), 0);
    assert_eq!(CallType::Sync.discriminant(), 1);
    assert_eq!(CallType::Async.discriminant(), 2);
}

#[test]
fn register_signature_data_is_the_fields_in_order() {
    let user = address(3);
    let own = address(4);
    let mut expected = b"registerUser@".to_vec();
    expected.extend_from_slice(&user.bytes);
    expected.push(b'@');
    expected.extend_from_slice(&own.bytes);
    expected.push(b'@');
    expected.extend_from_slice(&[0u8; 8]);
    assert_eq!(build_register_signature_data(&user, &own), expected);
}

#[test]
fn execution_signature_data_is_the_fields_in_order() {
    let user = address(3);
    let own = address(4);
    let action = sample_action();
    let mut expected = user.bytes.to_vec();
    expected.push(b'@');
    expected.extend_from_slice(&own.bytes);
    expected.push(b'@');
    expected.extend_from_slice(&[0, 0, 0, 0, 0, 0, 0x01, 0x02]);
    expected.push(b'@');
    expected.extend_from_slice(&codec_encoding(&action));
    assert_eq!(build_execution_signature_data(&user, &own, 0x0102, &action), Ok(expected));
}

#[test]
fn register_signature_is_checked() {
    let key = SigningKey::from_bytes(&[5u8; 32]);
    let user = Address::new(key.verifying_key().to_bytes());
    let own = address(0);
    let data = build_register_signature_data(&user, &own);
    let good = Signature::new_from_bytes(&key.sign(&data).to_bytes());
    assert!(check_register_signature(&user, &own, &good));
    assert!(!check_register_signature(&user, &address(1), &good));
    assert!(!check_register_signature(&user, &own, &Signature::new_from_bytes(&[0u8; 64])));
    let other_key = SigningKey::from_bytes(&[6u8; 32]);
    let forged = Signature::new_from_bytes(&other_key.sign(&data).to_bytes());
    assert!(!check_register_signature(&user, &own, &forged));
}

#[test]
fn execution_signature_is_checked() {
    let key = SigningKey::from_bytes(&[5u8; 32]);
    let user = Address::new(key.verifying_key().to_bytes());
    let own = address(0);
    let action = sample_action();
    let data = build_execution_signature_data(&user, &own, 4, &action).unwrap();
    let good = Signature::new_from_bytes(&key.sign(&data).to_bytes());
    let check = |nonce: u64, action: &GeneralActionData, signature: &Signature| {
        check_execution_signature(CheckExecutionSignatureArgs {
            own_sc_address: &own,
            user_address: &user,
            user_nonce: nonce,
            action,
            signature,
        })
    };
    assert_eq!(check(4, &action, &good), Ok(()));
    assert_eq!(check(5, &action, &good), Err(Error::SignatureInvalid));
    let other = GeneralActionData { call_type: CallType::Sync, ..sample_action() };
    assert_eq!(check(4, &other, &good), Err(Error::SignatureInvalid));
    assert_eq!(check(4, &action, &Signature::new_from_bytes(&[0u8; 64])), Err(Error::SignatureInvalid));
}

#[test]
fn contract_addresses_start_with_eight_zero_bytes() {
    let mut bytes = [1u8; 32];
    assert!(!Address::new(bytes).is_smart_contract_address());
    for i in 0..8 {
        bytes[i] = 0;
    }
    assert!(Address::new(bytes).is_smart_contract_address());
    bytes[7] = 1;
    assert!(!Address::new(bytes).is_smart_contract_address());
    assert!(Address::new([0u8; 32]).is_smart_contract_address());
}

#[test]
fn addresses_compare_by_their_bytes() {
    assert!(address(1).same_as(&address(1)));
    assert!(!address(1).same_as(&address(2)));
    let mut bytes = [7u8; 32];
    bytes[31] = 8;
    assert!(!Address::new([7u8; 32]).same_as(&Address::new(bytes)));
}

fn action_named(name: &[u8]) -> GeneralActionData {
    GeneralActionData {
        call_type: CallType::Sync,
        dest_address: address(0),
        payments: Vec::new(),
        opt_execution: Some(ScExecutionData { endpoint_name: name.to_vec(), args: Vec::new(), gas_limit: 1 }),
    }
}

#[test]
fn banned_endpoint_names_are_rejected() {
    for name in [
        &b"ESDTLocalMint"[..],
        b"ESDTLocalBurn",
        b"MultiESDTNFTTransfer",
        b"ESDTNFTTransfer",
        b"ESDTNFTCreate",
        b"ESDTNFTAddQuantity",
        b"ESDTNFTAddURI",
        b"ESDTNFTUpdateAttributes",
        b"ESDTNFTBurn",
        b"ESDTTransfer",
        b"ChangeOwnerAddress",
        b"ClaimDeveloperRewards",
        b"SetUserName",
        b"migrateUserName",
        b"DeleteUserName",
        b"upgradeContract",
    ] {
        assert!(name_is_denylisted(&name.to_vec()));
        assert!(action_named(name).is_banned_endpoint_name());
    }
}

#[test]
fn other_endpoint_names_are_accepted() {
    for name in [&b"depositForUser"[..], b"esdttransfer", b"ESDTTransfe", b"ESDTTransfer2", b"x"] {
        assert!(!name_is_denylisted(&name.to_vec()));
        assert!(!action_named(name).is_banned_endpoint_name());
    }
}

#[test]
fn empty_and_long_endpoint_names_are_rejected() {
    assert!(action_named(b"").is_banned_endpoint_name());
    assert!(!action_named(&[b'a'; 100]).is_banned_endpoint_name());
    assert!(action_named(&[b'a'; 101]).is_banned_endpoint_name());
}

#[test]
fn action_without_operation_has_no_banned_name() {
    let action = GeneralActionData {
        call_type: CallType::Transfer,
        dest_address: address(0),
        payments: Vec::new(),
        opt_execution: None,
    };
    assert!(!action.is_banned_endpoint_name());
}

#[test]
fn byte_helpers_compare_copy_and_append() {
    let a = vec![1u8, 2, 3];
    assert!(bytes_eq(&a, &vec![1, 2, 3]));
    assert!(!bytes_eq(&a, &vec![1, 2]));
    assert!(!bytes_eq(&a, &vec![1, 2, 4]));
    assert!(bytes_eq_slice(&a, &[1, 2, 3]));
    assert!(!bytes_eq_slice(&a, &[3, 2, 1]));
    assert_eq!(bytes_clone(&a), a);
    let mut buffer = vec![9u8];
    append_bytes(&mut buffer, &[8, 7]);
    assert_eq!(buffer, vec![9, 8, 7]);
}
