pub mod accept;
pub mod client;
pub mod legacy;
pub mod connection;
pub mod open_connections;
pub mod protocol;
pub mod query;
pub mod serialization;
pub mod utils;
