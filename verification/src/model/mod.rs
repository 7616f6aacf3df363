pub mod category;
pub mod user;
