pub mod execution;
pub mod intent_storage;
pub mod intents;
pub mod views;
pub mod whitelist_actions;
