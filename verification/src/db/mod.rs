pub mod db;
pub mod db_methods;
pub mod init_files;
