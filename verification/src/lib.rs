//! A custodial engine for delegated execution.
//!
//! Accounts register with a signature, deposit assets, and authorize
//! actions on their balance with signatures and strictly increasing
//! sequence numbers. The engine validates each action, deducts what it
//! pays, and hands back what is to be sent: a transfer, a call whose
//! outcome is awaited, or a call that ends later and is settled by a
//! callback. Asynchronous calls can be saved as intents and triggered
//! later, and an account can let a delegate trigger chosen operations in
//! its name.
//!
//! Every function is verified against a contract over a mathematical
//! view of the state ([`state::StateView`]). What is taken on trust is
//! the arithmetic of `num-bigint`, the ed25519 verification and the
//! address format of the chain, and two byte conversions of the standard
//! library; each such item says so where it is declared.

pub mod amount;
pub mod bytes;
pub mod common;
pub mod error;
pub mod laws;
pub mod parts;
pub mod seq_util;
pub mod state;
pub mod user_actions;
