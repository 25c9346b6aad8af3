//! The library's error type.
//!
//! Construction-time validation failures (unsafe target, missing
//! partition, missing tool) abort a pipeline before anything was
//! mounted; mid-pipeline failures (format, mount) are reported while
//! teardown still runs; unmount failures during teardown are collected
//! rather than fatal on first.

use vstd::prelude::*;

verus! {

/// Everything that can go wrong inside the storage core.
#[derive(Debug, Clone)]
pub enum AlmaError {
    /// The target device is neither removable nor a loop device and the
    /// caller did not explicitly allow non-removable targets.
    UnsafeTarget { device: String },
    /// A device path could not be resolved to a usable device name.
    InvalidDevice { path: String },
    /// An expected partition node is absent after partitioning.
    PartitionNotFound { index: u8 },
    /// A required external tool is not installed.
    ToolMissing { name: String, hint: String },
    /// An external command exited unsuccessfully.
    ProcessFailed { description: String },
    /// A single mount operation failed with the given errno.
    MountFailed { target: String, errno: i32 },
    /// One or more unmounts failed during teardown; every target was
    /// still attempted and the failing ones are listed in attempt order.
    UnmountFailed { failed: Vec<String> },
    /// Creating a directory inside the mounted tree failed.
    CreateDirFailed { path: String, errno: i32 },
    /// Encryption was requested in a mode where no passphrase can be
    /// supplied.
    EncryptionUnsupported,
    /// Probing a partition for an encryption header was inconclusive
    /// (unreadable device or I/O error).
    EncryptionHeaderMismatch { device: String },
    /// Preset files name environment variables that are not set.
    MissingEnvironment { variables: Vec<String> },
    /// A requested combination of options is not supported.
    Unsupported { message: String },
    /// A size argument could not be parsed or does not fit.
    InvalidSize { input: String },
    /// A preset shared directory does not exist or is not a directory.
    SharedDirMissing { path: String },
    /// A preset source string could not be classified.
    InvalidPresetsPath { input: String },
}

} // verus!
