pub mod types;
pub mod error_text;
pub mod errors;
pub mod cli;
pub mod client_cli;
pub mod server_cli;
pub mod mocks;
pub mod auth;
pub mod constants;
pub mod ip;
