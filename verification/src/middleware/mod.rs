pub mod auth;
pub mod validate;
