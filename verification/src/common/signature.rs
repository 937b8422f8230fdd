//! What an account signs, and the check of its signature.

use vstd::prelude::*;
use vstd::string::StringSliceAdditionalSpecFns;

use crate::bytes::{append_bytes, be_bytes, u64_to_be_bytes};
use crate::common::common_types::{ActionView, Address, GeneralActionData};
use crate::common::encoding::{encodable, encode_action};
use crate::error::Error;

verus! {

/// The number of bytes of a signature.
pub const SIGNATURE_LEN: usize = 64;

/// A sequence number.
pub type Nonce = u64;

/// The sequence number of an account that has not acted yet.
pub const FIRST_NONCE: Nonce = 0;

/// The byte `@`, which separates the fields of what is signed.
pub const FIELDS_SEPARATOR_CHAR: u8 = 64;

/// An ed25519 signature: 64 bytes.
#[derive(Clone, Copy, Debug, PartialEq, Eq)]
pub struct Signature {
    pub bytes: [u8; 64],
}

impl View for Signature {
    type V = Seq<u8>;

    open spec fn view(&self) -> Seq<u8> {
        self.bytes@
    }
}

impl Signature {
    /// The signature with the given bytes.
    pub fn new_from_bytes(bytes: &[u8; 64]) -> (r: Self)
        ensures
            r@ == bytes@,
    {
        Signature { bytes: *bytes }
    }
}

/// Whether `signature` is a valid ed25519 signature of `message` under the
/// public key `key`.
pub uninterp spec fn ed25519_valid(key: Seq<u8>, message: Seq<u8>, signature: Seq<u8>) -> bool;

/// `multiversx_chain_vm::crypto_functions::verify_ed25519`: whether the
/// signature verifies; it returns `false` for a key that is no curve point.
#[verifier::external_body]
fn verify_ed25519(key: &[u8; 32], message: &Vec<u8>, signature: &[u8; 64]) -> (r: bool)
    ensures
        r == ed25519_valid(key@, message@, signature@),
{
    multiversx_chain_vm::crypto_functions::verify_ed25519(key, message, signature)
}

/// What an account signs to register with the engine `own_sc_address`.
pub open spec fn register_signature_data(user_address: Seq<u8>, own_sc_address: Seq<u8>) -> Seq<u8> {
    "registerUser".spec_bytes() + seq![FIELDS_SEPARATOR_CHAR] + user_address
        + seq![FIELDS_SEPARATOR_CHAR] + own_sc_address + seq![FIELDS_SEPARATOR_CHAR] + be_bytes(
        FIRST_NONCE as nat,
        8,
    )
}

/// What an account signs to authorize `action` as its action number `user_nonce`.
pub open spec fn execution_signature_data(
    user_address: Seq<u8>,
    own_sc_address: Seq<u8>,
    user_nonce: u64,
    action: ActionView,
) -> Seq<u8> {
    user_address + seq![FIELDS_SEPARATOR_CHAR] + own_sc_address + seq![FIELDS_SEPARATOR_CHAR]
        + be_bytes(user_nonce as nat, 8) + seq![FIELDS_SEPARATOR_CHAR] + encode_action(action)
}

/// Whether `signature` is the account's signature under its registration.
pub open spec fn register_signature_valid(
    user_address: Seq<u8>,
    own_sc_address: Seq<u8>,
    signature: Seq<u8>,
) -> bool {
    ed25519_valid(user_address, register_signature_data(user_address, own_sc_address), signature)
}

/// Whether `signature` is the account's signature under the action.
pub open spec fn execution_signature_valid(
    user_address: Seq<u8>,
    own_sc_address: Seq<u8>,
    user_nonce: u64,
    action: ActionView,
    signature: Seq<u8>,
) -> bool {
    ed25519_valid(
        user_address,
        execution_signature_data(user_address, own_sc_address, user_nonce, action),
        signature,
    )
}

/// What `check_execution_signature` is given.
pub struct CheckExecutionSignatureArgs<'a> {
    pub own_sc_address: &'a Address,
    pub user_address: &'a Address,
    pub user_nonce: Nonce,
    pub action: &'a GeneralActionData,
    pub signature: &'a Signature,
}

/// The bytes that an account signs to register.
pub fn build_register_signature_data(user_address: &Address, own_sc_address: &Address) -> (r: Vec<u8>)
    ensures
        r@ == register_signature_data(user_address@, own_sc_address@),
{
    let mut signature_data: Vec<u8> = Vec::new();
    append_bytes(&mut signature_data, "registerUser".as_bytes());
    signature_data.push(FIELDS_SEPARATOR_CHAR);
    append_bytes(&mut signature_data, user_address.bytes.as_slice());
    signature_data.push(FIELDS_SEPARATOR_CHAR);
    append_bytes(&mut signature_data, own_sc_address.bytes.as_slice());
    signature_data.push(FIELDS_SEPARATOR_CHAR);
    let nonce_bytes = u64_to_be_bytes(FIRST_NONCE);
    append_bytes(&mut signature_data, nonce_bytes.as_slice());
    assert(signature_data@ =~= register_signature_data(user_address@, own_sc_address@));
    signature_data
}

/// Whether `signature` is the signature of `user_address` under its
/// registration with the engine `own_sc_address`.
pub fn check_register_signature(
    user_address: &Address,
    own_sc_address: &Address,
    signature: &Signature,
) -> (valid: bool)
    ensures
        valid == register_signature_valid(user_address@, own_sc_address@, signature@),
{
    let signature_data = build_register_signature_data(user_address, own_sc_address);
    verify_ed25519(&user_address.bytes, &signature_data, &signature.bytes)
}

/// The bytes that an account signs to authorize an action, or
/// `EncodingError` where the action cannot be encoded.
pub fn build_execution_signature_data(
    user_address: &Address,
    own_sc_address: &Address,
    user_nonce: Nonce,
    action: &GeneralActionData,
) -> (r: Result<Vec<u8>, Error>)
    ensures
        match r {
            Ok(data) => encodable(action@) && data@ == execution_signature_data(
                user_address@,
                own_sc_address@,
                user_nonce,
                action@,
            ),
            Err(e) => !encodable(action@) && e == Error::EncodingError,
        },
{
    let serialized_action = match action.top_encode() {
        Ok(bytes) => bytes,
        Err(e) => {
            return Err(e);
        },
    };
    let mut signature_data: Vec<u8> = Vec::new();
    append_bytes(&mut signature_data, user_address.bytes.as_slice());
    signature_data.push(FIELDS_SEPARATOR_CHAR);
    append_bytes(&mut signature_data, own_sc_address.bytes.as_slice());
    signature_data.push(FIELDS_SEPARATOR_CHAR);
    let nonce_bytes = u64_to_be_bytes(user_nonce);
    append_bytes(&mut signature_data, nonce_bytes.as_slice());
    signature_data.push(FIELDS_SEPARATOR_CHAR);
    append_bytes(&mut signature_data, serialized_action.as_slice());
    assert(signature_data@ =~= execution_signature_data(
        user_address@,
        own_sc_address@,
        user_nonce,
        action@,
    ));
    Ok(signature_data)
}

/// Checks the account's signature under an action. It fails with
/// `EncodingError` where the action cannot be encoded, and with
/// `SignatureInvalid` where the signature does not verify.
pub fn check_execution_signature(args: CheckExecutionSignatureArgs) -> (r: Result<(), Error>)
    ensures
        r == execution_signature_outcome(
            args.user_address@,
            args.own_sc_address@,
            args.user_nonce,
            args.action@,
            args.signature@,
        ),
{
    let signature_data = match build_execution_signature_data(
        args.user_address,
        args.own_sc_address,
        args.user_nonce,
        args.action,
    ) {
        Ok(data) => data,
        Err(e) => {
            return Err(e);
        },
    };
    if verify_ed25519(&args.user_address.bytes, &signature_data, &args.signature.bytes) {
        Ok(())
    } else {
        Err(Error::SignatureInvalid)
    }
}

/// What the check of the signature under an action returns.
pub open spec fn execution_signature_outcome(
    user_address: Seq<u8>,
    own_sc_address: Seq<u8>,
    user_nonce: u64,
    action: ActionView,
    signature: Seq<u8>,
) -> Result<(), Error> {
    if !encodable(action) {
        Err(Error::EncodingError)
    } else if !execution_signature_valid(user_address, own_sc_address, user_nonce, action, signature) {
        Err(Error::SignatureInvalid)
    } else {
        Ok(())
    }
}

} // verus!
