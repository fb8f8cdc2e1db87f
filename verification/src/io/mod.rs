pub mod file_image;
pub mod read;
pub mod update_ptrs;
pub mod write;
