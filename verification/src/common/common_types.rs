//! The data that actions are made of, and their canonical byte encoding.

use vstd::prelude::*;
use vstd::string::StringSliceAdditionalSpecFns;

use crate::bytes::bytes_eq_slice;
pub use crate::common::unique_payments::{
    clone_payment, clone_payments, payments_view, EsdtTokenPayment, PaymentView, PaymentsVec,
    UniquePayments,
};
use crate::common::signature::{Nonce, Signature};

verus! {

/// An amount of gas.
pub type GasLimit = u64;

/// A signed action as a triple: the action, the sequence number it is
/// meant for, and the signature.
pub type ActionMultiValue = (GeneralActionData, Nonce, Signature);

/// The longest operation name that an action may carry.
pub const MAX_ENDPOINT_NAME_LEN: usize = 100;

/// The number of bytes of an address.
pub const ADDRESS_LEN: usize = 32;

/// The identity of an account or of a contract: 32 bytes.
#[derive(Clone, Copy, Debug, PartialEq, Eq, Hash)]
pub struct Address {
    pub bytes: [u8; 32],
}

impl View for Address {
    type V = Seq<u8>;

    open spec fn view(&self) -> Seq<u8> {
        self.bytes@
    }
}

/// Whether an address is that of a contract: its first eight bytes are zero.
pub open spec fn is_contract_address(address: Seq<u8>) -> bool {
    forall|i: int| 0 <= i < 8 ==> address[i] == 0
}

/// `Address::is_smart_contract_address` of `multiversx-sc`: whether the
/// first eight bytes of the address are all zero.
#[verifier::external_body]
fn address_is_smart_contract(bytes: [u8; 32]) -> (r: bool)
    ensures
        r == is_contract_address(bytes@),
{
    multiversx_sc::types::Address::new(bytes).is_smart_contract_address()
}

impl Address {
    /// The address with the given bytes.
    pub fn new(bytes: [u8; 32]) -> (r: Self)
        ensures
            r.bytes == bytes,
            r@ == bytes@,
    {
        Address { bytes }
    }

    /// Whether two addresses are the same.
    pub fn same_as(&self, other: &Address) -> (r: bool)
        ensures
            r == (self@ == other@),
    {
        let mut i: usize = 0;
        while i < 32
            invariant
                i <= 32,
                forall|j: int| 0 <= j < i ==> self.bytes@[j] == other.bytes@[j],
            decreases 32 - i,
        {
            if self.bytes[i] != other.bytes[i] {
                return false;
            }
            i += 1;
        }
        assert(self.bytes@ =~= other.bytes@);
        true
    }

    /// Whether the address is that of a contract.
    pub fn is_smart_contract_address(&self) -> (r: bool)
        ensures
            r == is_contract_address(self@),
    {
        address_is_smart_contract(self.bytes)
    }
}

/// How an action reaches its target.
#[derive(Clone, Copy, Debug, PartialEq, Eq, Structural)]
pub enum CallType {
    Transfer,
    Sync,
    Async,
}

/// The operation that an action invokes on its target.
#[derive(Clone, Debug, PartialEq, Eq)]
pub struct ScExecutionData {
    pub endpoint_name: Vec<u8>,
    pub args: Vec<Vec<u8>>,
    pub gas_limit: GasLimit,
}

/// What an operation says: its name, its arguments and its gas.
pub struct ExecutionView {
    pub endpoint_name: Seq<u8>,
    pub args: Seq<Seq<u8>>,
    pub gas_limit: u64,
}

/// The views of a list of arguments, in order.
pub open spec fn args_view(args: Seq<Vec<u8>>) -> Seq<Seq<u8>> {
    args.map_values(|a: Vec<u8>| a@)
}

impl View for ScExecutionData {
    type V = ExecutionView;

    open spec fn view(&self) -> ExecutionView {
        ExecutionView {
            endpoint_name: self.endpoint_name@,
            args: args_view(self.args@),
            gas_limit: self.gas_limit,
        }
    }
}

/// One action: what to send, where, and how.
#[derive(Clone, Debug, PartialEq, Eq)]
pub struct GeneralActionData {
    pub call_type: CallType,
    pub dest_address: Address,
    pub payments: PaymentsVec,
    pub opt_execution: Option<ScExecutionData>,
}

/// What an action says.
pub struct ActionView {
    pub call_type: CallType,
    pub dest_address: Seq<u8>,
    pub payments: Seq<PaymentView>,
    pub opt_execution: Option<ExecutionView>,
}

impl View for GeneralActionData {
    type V = ActionView;

    open spec fn view(&self) -> ActionView {
        ActionView {
            call_type: self.call_type,
            dest_address: self.dest_address@,
            payments: payments_view(self.payments@),
            opt_execution: match self.opt_execution {
                Some(execution) => Some(execution@),
                None => None,
            },
        }
    }
}

/// An action together with the sequence number it is meant for and the
/// account's signature over both.
#[derive(Clone, Debug, PartialEq, Eq)]
pub struct ActionStruct {
    pub action: GeneralActionData,
    pub user_nonce: Nonce,
    pub signature: Signature,
}

/// What a signed action says.
pub struct ActionStructView {
    pub action: ActionView,
    pub user_nonce: u64,
    pub signature: Seq<u8>,
}

impl View for ActionStruct {
    type V = ActionStructView;

    open spec fn view(&self) -> ActionStructView {
        ActionStructView {
            action: self.action@,
            user_nonce: self.user_nonce,
            signature: self.signature@,
        }
    }
}

/// The views of a list of signed actions, in order.
pub open spec fn actions_view(actions: Seq<ActionStruct>) -> Seq<ActionStructView> {
    actions.map_values(|a: ActionStruct| a@)
}

/// The operation names that no action may invoke: they would let an action
/// mint, burn or move tokens by itself, or take over the engine.
pub open spec fn is_denylisted(name: Seq<u8>) -> bool {
    ||| name == "ESDTLocalMint".spec_bytes()
    ||| name == "ESDTLocalBurn".spec_bytes()
    ||| name == "MultiESDTNFTTransfer".spec_bytes()
    ||| name == "ESDTNFTTransfer".spec_bytes()
    ||| name == "ESDTNFTCreate".spec_bytes()
    ||| name == "ESDTNFTAddQuantity".spec_bytes()
    ||| name == "ESDTNFTAddURI".spec_bytes()
    ||| name == "ESDTNFTUpdateAttributes".spec_bytes()
    ||| name == "ESDTNFTBurn".spec_bytes()
    ||| name == "ESDTTransfer".spec_bytes()
    ||| name == "ChangeOwnerAddress".spec_bytes()
    ||| name == "ClaimDeveloperRewards".spec_bytes()
    ||| name == "SetUserName".spec_bytes()
    ||| name == "migrateUserName".spec_bytes()
    ||| name == "DeleteUserName".spec_bytes()
    ||| name == "upgradeContract".spec_bytes()
}

/// Whether an operation name is rejected: it is empty, too long, or denylisted.
pub open spec fn is_rejected_name(name: Seq<u8>) -> bool {
    name.len() == 0 || name.len() > MAX_ENDPOINT_NAME_LEN || is_denylisted(name)
}

impl ActionView {
    /// Whether the action carries an operation whose name is rejected.
    pub open spec fn is_banned_endpoint_name(self) -> bool {
        match self.opt_execution {
            Some(execution) => is_rejected_name(execution.endpoint_name),
            None => false,
        }
    }
}

/// Whether an operation name is on the denylist.
pub fn name_is_denylisted(name: &Vec<u8>) -> (r: bool)
    ensures
        r == is_denylisted(name@),
{
    bytes_eq_slice(name, "ESDTLocalMint".as_bytes())
        || bytes_eq_slice(name, "ESDTLocalBurn".as_bytes())
        || bytes_eq_slice(name, "MultiESDTNFTTransfer".as_bytes())
        || bytes_eq_slice(name, "ESDTNFTTransfer".as_bytes())
        || bytes_eq_slice(name, "ESDTNFTCreate".as_bytes())
        || bytes_eq_slice(name, "ESDTNFTAddQuantity".as_bytes())
        || bytes_eq_slice(name, "ESDTNFTAddURI".as_bytes())
        || bytes_eq_slice(name, "ESDTNFTUpdateAttributes".as_bytes())
        || bytes_eq_slice(name, "ESDTNFTBurn".as_bytes())
        || bytes_eq_slice(name, "ESDTTransfer".as_bytes())
        || bytes_eq_slice(name, "ChangeOwnerAddress".as_bytes())
        || bytes_eq_slice(name, "ClaimDeveloperRewards".as_bytes())
        || bytes_eq_slice(name, "SetUserName".as_bytes())
        || bytes_eq_slice(name, "migrateUserName".as_bytes())
        || bytes_eq_slice(name, "DeleteUserName".as_bytes())
        || bytes_eq_slice(name, "upgradeContract".as_bytes())
}

impl GeneralActionData {
    /// Whether the action carries an operation whose name is rejected: an
    /// empty name, one of more than 100 bytes, or a denylisted one.
    pub fn is_banned_endpoint_name(&self) -> (r: bool)
        ensures
            r == self@.is_banned_endpoint_name(),
    {
        match &self.opt_execution {
            Some(execution) => {
                let name_len = execution.endpoint_name.len();
                if name_len == 0 {
                    return true;
                }
                if name_len > MAX_ENDPOINT_NAME_LEN {
                    return true;
                }
                name_is_denylisted(&execution.endpoint_name)
            },
            None => false,
        }
    }
}

} // verus!
