//! External tools: locating them on the search path and describing
//! their invocations.

use vstd::prelude::*;

use crate::error::AlmaError;
use crate::process::CommandLine;

pub mod chroot;
pub mod mount;

verus! {

/// A located external tool, together with the pipeline's dry-run flag.
#[derive(Debug)]
pub struct Tool {
    pub exec_path: String,
    pub dryrun: bool,
}

/// Relies on `which::which`: resolves an executable name against the
/// search path.  What it finds depends on the environment, so nothing is
/// claimed about the returned path.
#[verifier::external_body]
fn which_lookup(name: &str) -> (r: Option<String>) {
    match which::which(name) {
        Ok(p) => p.to_str().map(|s| s.to_owned()),
        Err(_) => None,
    }
}

/// Locates `name`, reporting `hint` in the error when it is absent.
pub fn find_tool(name: &str, hint: &str, dryrun: bool) -> (r: Result<Tool, AlmaError>)
    ensures
        r matches Ok(t) ==> t.dryrun == dryrun,
        r matches Err(e) ==> e matches AlmaError::ToolMissing { name: n, hint: h } && n@ == name@
            && h@ == hint@,
{
    match which_lookup(name) {
        Some(exec_path) => Ok(Tool { exec_path, dryrun }),
        None => Err(
            AlmaError::ToolMissing { name: name.to_owned(), hint: hint.to_owned() },
        ),
    }
}

impl Tool {
    /// Locates `name` on the search path.
    pub fn find(name: &str, dryrun: bool) -> (r: Result<Tool, AlmaError>)
        ensures
            r matches Ok(t) ==> t.dryrun == dryrun,
            r matches Err(e) ==> e matches AlmaError::ToolMissing { name: n, hint: h } && n@
                == name@ && h@.len() == 0,
    {
        let r = find_tool(name, "", dryrun);
        proof {
            reveal_strlit("");
        }
        r
    }

    /// Describes an invocation of this tool with the given arguments.
    pub fn command(&self, args: Vec<String>) -> (c: CommandLine)
        ensures
            c.program == self.exec_path,
            c.args == args,
    {
        CommandLine { program: self.exec_path.clone(), args }
    }
}

/// The name/hint pairs `Tools::new` can report: each tool it looks up,
/// with the package that provides it.
pub open spec fn spec_tool_hint(name: Seq<char>, hint: Seq<char>) -> bool {
    ||| (name == "sgdisk"@ && hint
        == "sgdisk is required for partitioning the disk. Please install the 'gptfdisk' package."@)
    ||| (name == "pacstrap"@ && hint
        == "pacstrap is required for installing the base system. Please install the 'arch-install-scripts' package."@)
    ||| (name == "arch-chroot"@ && hint
        == "arch-chroot is required for changing root into the new system. Please install the 'arch-install-scripts' package."@)
    ||| (name == "genfstab"@ && hint
        == "genfstab is required for generating fstab. Please install the 'arch-install-scripts' package."@)
    ||| (name == "mkfs.fat"@ && hint
        == "mkfs.fat is required for creating FAT filesystems. Please install the 'dosfstools' package."@)
    ||| (name == "mkfs.ext4"@ && hint
        == "mkfs.ext4 is required for creating ext4 filesystems. Please install the 'e2fsprogs' package."@)
    ||| (name == "mkfs.btrfs"@ && hint
        == "mkfs.btrfs is required for creating btrfs filesystems. Please install the 'btrfs-progs' package."@)
    ||| (name == "btrfs"@ && hint
        == "btrfs is required for creating btrfs filesystems. Please install the 'btrfs-progs' package."@)
    ||| (name == "git"@ && hint
        == "git is required for using ALMA. Please install the 'git' package."@)
    ||| (name == "cryptsetup"@ && hint
        == "cryptsetup is required for setting up encrypted filesystems. Please install the 'cryptsetup' package."@)
    ||| (name == "blkid"@ && hint
        == "blkid is required for setting up encrypted filesystems. Please install the 'util-linux' package."@)
}

/// The set of external tools a provisioning run needs; the optional ones
/// are located only when the run's options call for them.
pub struct Tools {
    pub sgdisk: Tool,
    pub pacstrap: Tool,
    pub arch_chroot: Tool,
    pub genfstab: Tool,
    pub mkfat: Tool,
    pub mkext4: Tool,
    pub mkbtrfs: Option<Tool>,
    pub btrfs: Option<Tool>,
    pub git: Tool,
    pub cryptsetup: Option<Tool>,
    pub blkid: Option<Tool>,
}

impl Tools {
    /// Locates every tool the run will need.  The btrfs tools are looked
    /// up only for a btrfs root, the encryption tools only for an
    /// encrypted root; a missing tool is reported with the package that
    /// provides it.
    pub fn new(dryrun: bool, encrypted: bool, is_btrfs: bool) -> (r: Result<Tools, AlmaError>)
        ensures
            r matches Ok(t) ==> {
                &&& t.sgdisk.dryrun == dryrun
                &&& t.pacstrap.dryrun == dryrun
                &&& t.arch_chroot.dryrun == dryrun
                &&& t.genfstab.dryrun == dryrun
                &&& t.mkfat.dryrun == dryrun
                &&& t.mkext4.dryrun == dryrun
                &&& t.git.dryrun == dryrun
                &&& (t.mkbtrfs is Some <==> is_btrfs)
                &&& (t.btrfs is Some <==> is_btrfs)
                &&& (t.cryptsetup is Some <==> encrypted)
                &&& (t.blkid is Some <==> encrypted)
                &&& (is_btrfs ==> t.mkbtrfs->Some_0.dryrun == dryrun)
                &&& (is_btrfs ==> t.btrfs->Some_0.dryrun == dryrun)
                &&& (encrypted ==> t.cryptsetup->Some_0.dryrun == dryrun)
                &&& (encrypted ==> t.blkid->Some_0.dryrun == dryrun)
            },
            r matches Err(e) ==> (e matches AlmaError::ToolMissing { name, hint }
                && spec_tool_hint(name@, hint@)),
    {
        let sgdisk = find_tool(
            "sgdisk",
            "sgdisk is required for partitioning the disk. Please install the 'gptfdisk' package.",
            dryrun,
        )?;
        let pacstrap = find_tool(
            "pacstrap",
            "pacstrap is required for installing the base system. Please install the 'arch-install-scripts' package.",
            dryrun,
        )?;
        let arch_chroot = find_tool(
            "arch-chroot",
            "arch-chroot is required for changing root into the new system. Please install the 'arch-install-scripts' package.",
            dryrun,
        )?;
        let genfstab = find_tool(
            "genfstab",
            "genfstab is required for generating fstab. Please install the 'arch-install-scripts' package.",
            dryrun,
        )?;
        let mkfat = find_tool(
            "mkfs.fat",
            "mkfs.fat is required for creating FAT filesystems. Please install the 'dosfstools' package.",
            dryrun,
        )?;
        let mkext4 = find_tool(
            "mkfs.ext4",
            "mkfs.ext4 is required for creating ext4 filesystems. Please install the 'e2fsprogs' package.",
            dryrun,
        )?;
        let mkbtrfs = if is_btrfs {
            Some(
                find_tool(
                    "mkfs.btrfs",
                    "mkfs.btrfs is required for creating btrfs filesystems. Please install the 'btrfs-progs' package.",
                    dryrun,
                )?,
            )
        } else {
            None
        };
        let btrfs = if is_btrfs {
            Some(
                find_tool(
                    "btrfs",
                    "btrfs is required for creating btrfs filesystems. Please install the 'btrfs-progs' package.",
                    dryrun,
                )?,
            )
        } else {
            None
        };
        let git = find_tool(
            "git",
            "git is required for using ALMA. Please install the 'git' package.",
            dryrun,
        )?;
        let cryptsetup = if encrypted {
            Some(
                find_tool(
                    "cryptsetup",
                    "cryptsetup is required for setting up encrypted filesystems. Please install the 'cryptsetup' package.",
                    dryrun,
                )?,
            )
        } else {
            None
        };
        let blkid = if encrypted {
            Some(
                find_tool(
                    "blkid",
                    "blkid is required for setting up encrypted filesystems. Please install the 'util-linux' package.",
                    dryrun,
                )?,
            )
        } else {
            None
        };
        Ok(
            Tools {
                sgdisk,
                pacstrap,
                arch_chroot,
                genfstab,
                mkfat,
                mkext4,
                mkbtrfs,
                btrfs,
                git,
                cryptsetup,
                blkid,
            },
        )
    }
}

} // verus!
