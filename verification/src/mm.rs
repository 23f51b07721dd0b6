pub mod allocator;
pub mod kstack;
pub mod swapper_manager;
pub mod zone;
