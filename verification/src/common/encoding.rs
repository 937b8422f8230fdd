//! The canonical encoding of an action: the bytes that its signature covers.
//!
//! Fields follow each other without padding. A number takes its full width,
//! most significant byte first. A byte string, an amount and a list are
//! preceded by their length or count as a 32-bit number; an amount is
//! written with no leading zero bytes, so zero is the empty string. An
//! absent operation is the byte 0, a present one the byte 1 and its fields.

use vstd::prelude::*;

use crate::amount::minimal_be_bytes;
use crate::bytes::{append_bytes, be_bytes, u32_to_be_bytes, u64_to_be_bytes};
use crate::common::common_types::{
    args_view, ActionView, CallType, ExecutionView, GeneralActionData, ScExecutionData,
};
use crate::common::unique_payments::{payments_view, EsdtTokenPayment, PaymentView};
use crate::error::Error;

verus! {

/// The largest length or count that the encoding can express.
pub const MAX_ENCODED_LEN: usize = 0xffff_ffff;

/// A byte string with its length in front.
pub open spec fn encode_bytes(bytes: Seq<u8>) -> Seq<u8> {
    be_bytes(bytes.len(), 4) + bytes
}

/// The byte that stands for a call type.
pub open spec fn call_type_byte(call_type: CallType) -> u8 {
    match call_type {
        CallType::Transfer => 0,
        CallType::Sync => 1,
        CallType::Async => 2,
    }
}

/// The encoding of a payment: the token identifier with its length in
/// front, the nonce, and the amount with its length in front.
pub open spec fn encode_payment(payment: PaymentView) -> Seq<u8> {
    encode_bytes(payment.token_identifier) + be_bytes(payment.token_nonce as nat, 8) + encode_bytes(
        minimal_be_bytes(payment.amount),
    )
}

/// The encodings of the payments, one after the other.
pub open spec fn encode_payment_items(payments: Seq<PaymentView>) -> Seq<u8>
    decreases payments.len(),
{
    if payments.len() == 0 {
        Seq::empty()
    } else {
        encode_payment_items(payments.drop_last()) + encode_payment(payments.last())
    }
}

/// The arguments, each with its length in front, one after the other.
pub open spec fn encode_arg_items(args: Seq<Seq<u8>>) -> Seq<u8>
    decreases args.len(),
{
    if args.len() == 0 {
        Seq::empty()
    } else {
        encode_arg_items(args.drop_last()) + encode_bytes(args.last())
    }
}

/// The encoding of an operation: its name, the number of its arguments,
/// the arguments, and its gas.
pub open spec fn encode_execution(execution: ExecutionView) -> Seq<u8> {
    encode_bytes(execution.endpoint_name) + be_bytes(execution.args.len(), 4) + encode_arg_items(
        execution.args,
    ) + be_bytes(execution.gas_limit as nat, 8)
}

/// The encoding of an operation that may be absent.
pub open spec fn encode_opt_execution(opt_execution: Option<ExecutionView>) -> Seq<u8> {
    match opt_execution {
        Some(execution) => seq![1u8] + encode_execution(execution),
        None => seq![0u8],
    }
}

/// The canonical encoding of an action.
pub open spec fn encode_action(action: ActionView) -> Seq<u8> {
    seq![call_type_byte(action.call_type)] + action.dest_address + be_bytes(
        action.payments.len(),
        4,
    ) + encode_payment_items(action.payments) + encode_opt_execution(action.opt_execution)
}

/// Whether the lengths in a payment fit 32 bits.
pub open spec fn payment_encodable(payment: PaymentView) -> bool {
    payment.token_identifier.len() <= MAX_ENCODED_LEN && minimal_be_bytes(payment.amount).len()
        <= MAX_ENCODED_LEN
}

/// Whether the lengths and the count in an operation fit 32 bits.
pub open spec fn execution_encodable(execution: ExecutionView) -> bool {
    &&& execution.endpoint_name.len() <= MAX_ENCODED_LEN
    &&& execution.args.len() <= MAX_ENCODED_LEN
    &&& forall|i: int| 0 <= i < execution.args.len() ==> (#[trigger] execution.args[i]).len() <= MAX_ENCODED_LEN
}

/// Whether every length and count in the action fits the 32 bits that the
/// encoding gives it.
pub open spec fn encodable(action: ActionView) -> bool {
    &&& action.payments.len() <= MAX_ENCODED_LEN
    &&& forall|i: int| 0 <= i < action.payments.len() ==> payment_encodable(#[trigger] action.payments[i])
    &&& match action.opt_execution {
        Some(execution) => execution_encodable(execution),
        None => true,
    }
}

/// Appends a length or count as a 32-bit number; `false`, with nothing
/// appended, where it does not fit.
fn append_len(buffer: &mut Vec<u8>, len: usize) -> (fits: bool)
    ensures
        fits == (len <= MAX_ENCODED_LEN),
        fits ==> final(buffer)@ == old(buffer)@ + be_bytes(len as nat, 4),
        !fits ==> final(buffer)@ == old(buffer)@,
{
    if len > MAX_ENCODED_LEN {
        return false;
    }
    let len_bytes = u32_to_be_bytes(len as u32);
    append_bytes(buffer, len_bytes.as_slice());
    true
}

/// Appends a byte string with its length in front; `false` where the
/// length does not fit.
fn append_encoded_bytes(buffer: &mut Vec<u8>, bytes: &[u8]) -> (fits: bool)
    ensures
        fits == (bytes@.len() <= MAX_ENCODED_LEN),
        fits ==> final(buffer)@ == old(buffer)@ + encode_bytes(bytes@),
{
    if !append_len(buffer, bytes.len()) {
        return false;
    }
    append_bytes(buffer, bytes);
    assert(buffer@ =~= old(buffer)@ + encode_bytes(bytes@));
    true
}

fn append_payment(buffer: &mut Vec<u8>, payment: &EsdtTokenPayment) -> (fits: bool)
    ensures
        fits == payment_encodable(payment@),
        fits ==> final(buffer)@ == old(buffer)@ + encode_payment(payment@),
{
    if !append_encoded_bytes(buffer, payment.token_identifier.as_slice()) {
        return false;
    }
    let nonce_bytes = u64_to_be_bytes(payment.token_nonce);
    append_bytes(buffer, nonce_bytes.as_slice());
    let amount = payment.amount.to_bytes_be();
    if !append_encoded_bytes(buffer, amount.as_slice()) {
        return false;
    }
    assert(buffer@ =~= old(buffer)@ + encode_payment(payment@));
    true
}

fn append_execution(buffer: &mut Vec<u8>, execution: &ScExecutionData) -> (fits: bool)
    ensures
        fits == execution_encodable(execution@),
        fits ==> final(buffer)@ == old(buffer)@ + encode_execution(execution@),
{
    if !append_encoded_bytes(buffer, execution.endpoint_name.as_slice()) {
        return false;
    }
    if !append_len(buffer, execution.args.len()) {
        return false;
    }
    let ghost start = buffer@;
    let ghost args = execution@.args;
    let mut i: usize = 0;
    while i < execution.args.len()
        invariant
            i <= execution.args@.len(),
            args == args_view(execution.args@),
            buffer@ == start + encode_arg_items(args.take(i as int)),
            forall|j: int| 0 <= j < i ==> (#[trigger] args[j]).len() <= MAX_ENCODED_LEN,
        decreases execution.args@.len() - i,
    {
        assert(args.take(i + 1).drop_last() =~= args.take(i as int));
        if !append_encoded_bytes(buffer, execution.args[i].as_slice()) {
            assert(args[i as int].len() > MAX_ENCODED_LEN);
            return false;
        }
        assert(buffer@ =~= start + encode_arg_items(args.take(i + 1)));
        i += 1;
    }
    assert(args.take(args.len() as int) =~= args);
    let gas_bytes = u64_to_be_bytes(execution.gas_limit);
    append_bytes(buffer, gas_bytes.as_slice());
    assert(buffer@ =~= old(buffer)@ + encode_execution(execution@));
    true
}

impl CallType {
    /// The byte that stands for the call type in the encoding.
    pub fn discriminant(&self) -> (r: u8)
        ensures
            r == call_type_byte(*self),
    {
        match self {
            CallType::Transfer => 0,
            CallType::Sync => 1,
            CallType::Async => 2,
        }
    }
}

impl GeneralActionData {
    /// The canonical encoding of the action, or `EncodingError` where a
    /// length in it does not fit 32 bits.
    pub fn top_encode(&self) -> (r: Result<Vec<u8>, Error>)
        ensures
            match r {
                Ok(bytes) => encodable(self@) && bytes@ == encode_action(self@),
                Err(e) => !encodable(self@) && e == Error::EncodingError,
            },
    {
        let mut buffer: Vec<u8> = Vec::new();
        buffer.push(self.call_type.discriminant());
        append_bytes(&mut buffer, self.dest_address.bytes.as_slice());
        if !append_len(&mut buffer, self.payments.len()) {
            return Err(Error::EncodingError);
        }
        let ghost start = buffer@;
        let ghost payments = self@.payments;
        let mut i: usize = 0;
        while i < self.payments.len()
            invariant
                i <= self.payments@.len(),
                payments == payments_view(self.payments@),
                buffer@ == start + encode_payment_items(payments.take(i as int)),
                forall|j: int| 0 <= j < i ==> payment_encodable(#[trigger] payments[j]),
            decreases self.payments@.len() - i,
        {
            assert(payments.take(i + 1).drop_last() =~= payments.take(i as int));
            if !append_payment(&mut buffer, &self.payments[i]) {
                assert(!payment_encodable(payments[i as int]));
                return Err(Error::EncodingError);
            }
            assert(buffer@ =~= start + encode_payment_items(payments.take(i + 1)));
            i += 1;
        }
        assert(payments.take(payments.len() as int) =~= payments);
        match &self.opt_execution {
            Some(execution) => {
                buffer.push(1);
                if !append_execution(&mut buffer, execution) {
                    return Err(Error::EncodingError);
                }
                assert(buffer@ =~= encode_action(self@));
            },
            None => {
                buffer.push(0);
                assert(buffer@ =~= encode_action(self@));
            },
        }
        Ok(buffer)
    }
}

} // verus!
