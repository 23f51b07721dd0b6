pub mod mutex;
pub mod super_cell;
