pub mod errors;
pub mod runtime;
