pub mod context;
pub mod handler;
pub mod plic;
pub mod system_call;
pub mod time;
