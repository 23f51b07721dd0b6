pub mod diagnose;
pub mod splash;
pub mod syscall;
pub mod utility;
