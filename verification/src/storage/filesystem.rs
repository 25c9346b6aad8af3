//! Filesystem types and the binding of a type to a block device.

use vstd::prelude::*;

use crate::args::RootFilesystemType;
use crate::error::AlmaError;
use crate::process::CommandLine;
use crate::storage::markers::BlockDevice;
use crate::tool::Tool;

verus! {

/// The closed set of filesystem families the pipeline can produce.
#[derive(Debug, Clone, Copy, PartialEq, Eq, Structural)]
pub enum FilesystemType {
    Ext4,
    Btrfs,
    Vfat,
}

impl FilesystemType {
    /// The filesystem-type string handed to the mount call.
    pub open spec fn spec_mount_type(self) -> Seq<char> {
        match self {
            FilesystemType::Ext4 => "ext4"@,
            FilesystemType::Btrfs => "btrfs"@,
            FilesystemType::Vfat => "vfat"@,
        }
    }

    /// Maps the type tag to the mount-call filesystem-type string.
    pub fn to_mount_type(self) -> (r: &'static str)
        ensures
            r@ == self.spec_mount_type(),
    {
        match self {
            FilesystemType::Ext4 => "ext4",
            FilesystemType::Btrfs => "btrfs",
            FilesystemType::Vfat => "vfat",
        }
    }

    /// The force flag each family's format tool takes.
    pub open spec fn spec_format_flag(self) -> Seq<char> {
        match self {
            FilesystemType::Ext4 => "-F"@,
            FilesystemType::Btrfs => "-f"@,
            FilesystemType::Vfat => "-F32"@,
        }
    }

    /// The format tool's force flag for this family.
    pub fn format_flag(self) -> (r: &'static str)
        ensures
            r@ == self.spec_format_flag(),
    {
        match self {
            FilesystemType::Ext4 => "-F",
            FilesystemType::Btrfs => "-f",
            FilesystemType::Vfat => "-F32",
        }
    }
}

impl From<RootFilesystemType> for FilesystemType {
    /// The concrete filesystem family a root-filesystem choice selects.
    fn from(fs: RootFilesystemType) -> (r: FilesystemType) {
        match fs {
            RootFilesystemType::Ext4 => FilesystemType::Ext4,
            RootFilesystemType::Btrfs => FilesystemType::Btrfs,
        }
    }
}

impl vstd::std_specs::convert::FromSpecImpl<RootFilesystemType> for FilesystemType {
    open spec fn obeys_from_spec() -> bool {
        true
    }

    open spec fn from_spec(fs: RootFilesystemType) -> FilesystemType {
        match fs {
            RootFilesystemType::Ext4 => FilesystemType::Ext4,
            RootFilesystemType::Btrfs => FilesystemType::Btrfs,
        }
    }
}

/// A concrete filesystem type bound to the block device that carries it.
pub struct Filesystem<'a, B: BlockDevice> {
    fs_type: FilesystemType,
    block: &'a B,
}

impl<'a, B: BlockDevice> Filesystem<'a, B> {
    /// The filesystem's type tag.
    pub closed spec fn spec_fs_type(&self) -> FilesystemType {
        self.fs_type
    }

    /// The device the filesystem describes.
    pub closed spec fn spec_block(&self) -> &'a B {
        self.block
    }

    /// The path of the device the filesystem describes.
    pub open spec fn spec_block_path(&self) -> Seq<char> {
        self.spec_block().spec_path()
    }

    /// The command that formats `block` as `fs_type`: the family's force
    /// flag followed by the device path.
    pub fn format_command(block: &'a B, fs_type: FilesystemType, mkfs: &Tool) -> (c: CommandLine)
        ensures
            c.program == mkfs.exec_path,
            c.args.deep_view() =~= seq![fs_type.spec_format_flag(), block.spec_path()],
    {
        let mut args: Vec<String> = Vec::new();
        args.push(fs_type.format_flag().to_owned());
        args.push(block.path().to_owned());
        proof {
            assert(args.deep_view() =~~= seq![fs_type.spec_format_flag(), block.spec_path()]);
        }
        mkfs.command(args)
    }

    /// Binds `block` to `fs_type` once the caller has run the format
    /// command (`format_command`) and reports whether it succeeded; in
    /// dry-run mode the command is only printed and counts as successful.
    pub fn format(block: &'a B, fs_type: FilesystemType, run_ok: bool) -> (r: Result<
        Filesystem<'a, B>,
        AlmaError,
    >)
        ensures
            run_ok ==> (r matches Ok(f) && f.spec_fs_type() == fs_type && f.spec_block()
                == block),
            !run_ok ==> (r matches Err(e) && e matches AlmaError::ProcessFailed { .. }),
    {
        if run_ok {
            Ok(Filesystem { fs_type, block })
        } else {
            let mut description = String::new();
            description.append("Error formatting the device ");
            description.append(block.path());
            Err(AlmaError::ProcessFailed { description })
        }
    }

    /// Binds an already-formatted device to its type; pure, no I/O.
    pub fn from_partition(block: &'a B, fs_type: FilesystemType) -> (r: Filesystem<'a, B>)
        ensures
            r.spec_fs_type() == fs_type,
            r.spec_block() == block,
    {
        Filesystem { fs_type, block }
    }

    /// The device the filesystem describes.
    pub fn block(&self) -> (r: &'a B)
        ensures
            r == self.spec_block(),
    {
        self.block
    }

    /// The filesystem's type tag.
    pub fn fs_type(&self) -> (r: FilesystemType)
        ensures
            r == self.spec_fs_type(),
    {
        self.fs_type
    }
}

} // verus!
