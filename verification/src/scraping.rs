pub mod login;
pub mod models;
