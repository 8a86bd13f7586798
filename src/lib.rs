pub mod auth;
pub mod audit;
pub mod driver;
pub mod error;
pub mod header;
pub mod hex;
pub mod model;
pub mod password;
pub mod token;
pub mod user;
pub mod method;
pub mod user_api;
