pub mod base_types;
pub mod constants;
pub mod db;
pub mod encoding;
pub mod index;
pub mod errors;
pub mod io;
pub mod iterator;
pub mod methods;
pub mod objects;
pub mod scyfi;
pub mod server;
pub mod types;

