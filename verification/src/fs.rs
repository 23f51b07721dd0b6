pub mod file;
pub mod file_system;
pub mod inode;
pub mod open_file_manager;
pub mod file_manager;
