pub mod indexing;
