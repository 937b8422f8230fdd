//! The ways in which a request can fail.

use vstd::prelude::*;

verus! {

/// Why a request failed.
#[derive(Clone, Copy, Debug, PartialEq, Eq, Structural)]
pub enum Error {
    /// The identity is registered already.
    AlreadyRegistered,
    /// The identity is not known to the engine.
    UnknownAccount,
    /// The sequence number of an action is not the account's current one.
    InvalidNonce,
    /// An action targets the engine itself.
    InvalidDestination,
    /// An action names an operation that may not be invoked.
    BannedOperation,
    /// An action for a target that is no contract carries an operation.
    InvocationNotAllowed,
    /// A signature does not verify.
    SignatureInvalid,
    /// The balance does not cover a payment.
    InsufficientFunds,
    /// The caller holds no grant for the action.
    NotWhitelisted,
    /// There is no such intent.
    IntentNotFound,
    /// The intent is being executed.
    ExecutionInProgress,
    /// An action cannot be encoded.
    EncodingError,
    /// A deposit carries no payment.
    NoPayments,
    /// A request carries no action.
    NoActions,
    /// A grant or its removal names no action.
    NoWhitelistActions,
    /// A call carries no operation.
    InvalidTxData,
    /// An action pays in the native coin more than once.
    MultipleEgldPayments,
    /// An action pays in the native coin and in tokens.
    MixedEgldAndEsdt,
    /// Only asynchronous calls can be saved as intents.
    OnlyAsyncSupported,
    /// Too little gas is left to set some aside.
    NotEnoughGas,
}

} // verus!
