//! Verified core of a bootable-system provisioning tool.
//!
//! The library models the storage resources that a provisioning run
//! manages — block devices, partitions, loop devices, encrypted
//! containers, filesystems and the ordered mount ledger — and proves
//! the ordering, naming and safety rules that tie them together.
//! Everything that touches the outside world (subprocesses, prompts,
//! file trees) lives in the surrounding application; the library either
//! performs the call through a small trusted wrapper or hands the
//! caller an exact description of the command to run.

use vstd::prelude::*;

mod error;
pub mod args;
pub mod aur;
pub mod constants;
pub mod create;
pub mod initcpio;
pub mod install;
pub mod interactive;
pub mod presets;
pub mod process;
pub mod storage;
pub mod text;
pub mod tool;

pub use error::AlmaError;
