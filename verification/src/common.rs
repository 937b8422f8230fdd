pub mod common_types;
pub mod custom_callbacks;
pub mod encoding;
pub mod signature;
pub mod unique_payments;
pub mod unique_payments_laws;
pub mod users;
