//! The storage resource model: block devices, partitions, loop devices,
//! encrypted containers, filesystems and the ordered mount ledger.

pub mod crypt;
pub mod filesystem;
pub mod loop_device;
pub mod markers;
pub mod mount_stack;
pub mod mount_table;
pub mod partition;
pub mod storage_device;
pub(crate) mod sys;

pub use crypt::is_encrypted_device;
pub use crypt::EncryptedDevice;
pub use filesystem::Filesystem;
pub use loop_device::LoopDevice;
pub use markers::BlockDevice;
pub use mount_stack::MountStack;
pub use storage_device::StorageDevice;
