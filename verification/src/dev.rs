pub mod ata_driver;
pub mod block_device;
pub mod buffer;
pub mod buffer_manager;
pub mod char_device;
pub mod device_manager;
pub mod dma;
pub mod virtio_blk;
