pub mod constants;
pub mod dev;
pub mod mm;
pub mod tty;
pub mod fs;
pub mod interrupt;
pub mod proc;
pub mod compat;
pub mod kernel;
pub mod machine;
pub mod serial;
pub mod loader;
pub mod sync;
