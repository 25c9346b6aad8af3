//! Mounting the full filesystem layout of a run.
//!
//! For a btrfs root the canonical subvolume layout is mounted: the root
//! subvolume `@` first, directly at the target, then `@home`, `@log`
//! and `@pkg` at paths nested inside that now-mounted root.  Because
//! the root is ledgered first, the last-in-first-out teardown detaches
//! the nested subvolumes before the root.  A single-subvolume
//! filesystem takes one mount.  The boot filesystem, when present, is
//! mounted at `boot` inside the target last.

use vstd::prelude::*;

use crate::error::AlmaError;
use crate::storage::filesystem::Filesystem;
use crate::storage::filesystem::FilesystemType;
use crate::storage::markers::BlockDevice;
use crate::storage::mount_stack::spec_mount_targets;
use crate::storage::mount_stack::MountFlags;
use crate::storage::mount_stack::MountOp;
use crate::storage::mount_stack::MountStack;
use crate::storage::sys;
use crate::text;

verus! {

/// The mounts that install the root filesystem at `mount_path`: the
/// four-subvolume btrfs layout, or one plain mount for any other type.
pub open spec fn spec_root_mount_ops(
    root_dev: Seq<char>,
    root_type: FilesystemType,
    mount_path: Seq<char>,
) -> Seq<MountOp> {
    if root_type is Btrfs {
        seq![
            MountOp::Mount {
                source: root_dev,
                target: mount_path,
                fstype: Some("btrfs"@),
                flags: MountFlags::NoAtime,
                data: Some("compress=zstd:3,subvol=@"@),
            },
            MountOp::Mount {
                source: root_dev,
                target: text::spec_join_path(mount_path, "home"@),
                fstype: Some("btrfs"@),
                flags: MountFlags::NoAtime,
                data: Some("compress=zstd:3,subvol=@home"@),
            },
            MountOp::Mount {
                source: root_dev,
                target: text::spec_join_path(mount_path, "var/log"@),
                fstype: Some("btrfs"@),
                flags: MountFlags::NoAtime,
                data: Some("compress=zstd:3,subvol=@log"@),
            },
            MountOp::Mount {
                source: root_dev,
                target: text::spec_join_path(mount_path, "var/cache/pacman/pkg"@),
                fstype: Some("btrfs"@),
                flags: MountFlags::NoAtime,
                data: Some("compress=zstd:3,subvol=@pkg"@),
            },
        ]
    } else {
        seq![
            MountOp::Mount {
                source: root_dev,
                target: mount_path,
                fstype: Some(root_type.spec_mount_type()),
                flags: MountFlags::NoAtime,
                data: None,
            },
        ]
    }
}

/// The mount that installs the boot filesystem at `boot` inside the
/// target.
pub open spec fn spec_boot_mount_op(
    boot_dev: Seq<char>,
    boot_type: FilesystemType,
    mount_path: Seq<char>,
) -> MountOp {
    MountOp::Mount {
        source: boot_dev,
        target: text::spec_join_path(mount_path, "boot"@),
        fstype: Some(boot_type.spec_mount_type()),
        flags: MountFlags::NoAtime,
        data: None,
    }
}

/// Creates `path` if no node exists there yet.
fn ensure_dir(path: &str) -> (r: Result<(), AlmaError>)
    ensures
        r matches Err(e) ==> e matches AlmaError::CreateDirFailed { .. },
{
    if sys::path_exists(path) {
        return Ok(());
    }
    match sys::sys_mkdir(path) {
        Ok(_) => Ok(()),
        Err(errno) => Err(AlmaError::CreateDirFailed { path: path.to_owned(), errno }),
    }
}

/// Mounts the root filesystem (and the boot filesystem, when given) at
/// `mount_path` and returns the ledger holding the layout.  On success
/// the ledger's record is exactly the planned mount sequence and its
/// targets are their mount points in mount order; tearing the ledger
/// down therefore unmounts them in exact reverse.  If a step fails, the
/// mounts already made are unwound before the error is returned.
pub fn mount<'a, B1: BlockDevice, B2: BlockDevice>(
    mount_path: &str,
    boot_filesystem: &Option<Filesystem<'a, B1>>,
    root_filesystem: &Filesystem<'a, B2>,
    dryrun: bool,
) -> (r: Result<MountStack, AlmaError>)
    ensures
        r matches Ok(stack) ==> ({
            let plan = spec_root_mount_ops(
                root_filesystem.spec_block_path(),
                root_filesystem.spec_fs_type(),
                mount_path@,
            ) + (match boot_filesystem {
                Some(b) => seq![
                    spec_boot_mount_op(b.spec_block_path(), b.spec_fs_type(), mount_path@),
                ],
                None => Seq::<MountOp>::empty(),
            });
            &&& stack.spec_history() == plan
            &&& stack.spec_targets() == spec_mount_targets(plan)
            &&& stack.spec_dryrun() == dryrun
        }),
        r matches Err(e) ==> (e matches AlmaError::MountFailed { .. } || e
            matches AlmaError::CreateDirFailed { .. }),
        dryrun ==> r is Ok,
{
    broadcast use vstd::seq_lib::group_seq_lib_default;

    let mut stack = MountStack::new(dryrun);
    let root_dev = root_filesystem.block().path().to_owned();
    let is_btrfs = matches!(root_filesystem.fs_type(), FilesystemType::Btrfs);
    if is_btrfs {
        match stack.mount_single(
            root_dev.as_str(),
            mount_path,
            Some("btrfs"),
            MountFlags::NoAtime,
            Some("compress=zstd:3,subvol=@"),
        ) {
            Ok(_) => {},
            Err(e) => {
                let _ = stack.umount();
                return Err(e);
            },
        }
        let home_target = text::join_path(mount_path, "home");
        let log_target = text::join_path(mount_path, "var/log");
        let pkg_target = text::join_path(mount_path, "var/cache/pacman/pkg");
        if !dryrun {
            // the directories for the nested subvolumes are created
            // inside the just-mounted root, one level at a time
            let step1 = ensure_dir(home_target.as_str());
            let step2 = match step1 {
                Ok(_) => ensure_dir(text::join_path(mount_path, "var").as_str()),
                Err(e) => Err(e),
            };
            let step3 = match step2 {
                Ok(_) => ensure_dir(log_target.as_str()),
                Err(e) => Err(e),
            };
            let step4 = match step3 {
                Ok(_) => ensure_dir(text::join_path(mount_path, "var/cache").as_str()),
                Err(e) => Err(e),
            };
            let step5 = match step4 {
                Ok(_) => ensure_dir(
                    text::join_path(mount_path, "var/cache/pacman").as_str(),
                ),
                Err(e) => Err(e),
            };
            let step6 = match step5 {
                Ok(_) => ensure_dir(pkg_target.as_str()),
                Err(e) => Err(e),
            };
            match step6 {
                Ok(_) => {},
                Err(e) => {
                    let _ = stack.umount();
                    return Err(e);
                },
            }
        }
        match stack.mount_single(
            root_dev.as_str(),
            home_target.as_str(),
            Some("btrfs"),
            MountFlags::NoAtime,
            Some("compress=zstd:3,subvol=@home"),
        ) {
            Ok(_) => {},
            Err(e) => {
                let _ = stack.umount();
                return Err(e);
            },
        }
        match stack.mount_single(
            root_dev.as_str(),
            log_target.as_str(),
            Some("btrfs"),
            MountFlags::NoAtime,
            Some("compress=zstd:3,subvol=@log"),
        ) {
            Ok(_) => {},
            Err(e) => {
                let _ = stack.umount();
                return Err(e);
            },
        }
        match stack.mount_single(
            root_dev.as_str(),
            pkg_target.as_str(),
            Some("btrfs"),
            MountFlags::NoAtime,
            Some("compress=zstd:3,subvol=@pkg"),
        ) {
            Ok(_) => {},
            Err(e) => {
                let _ = stack.umount();
                return Err(e);
            },
        }
    } else {
        match stack.mount(root_filesystem, mount_path, MountFlags::NoAtime) {
            Ok(_) => {},
            Err(e) => {
                let _ = stack.umount();
                return Err(e);
            },
        }
    }
    let ghost root_plan = spec_root_mount_ops(
        root_filesystem.spec_block_path(),
        root_filesystem.spec_fs_type(),
        mount_path@,
    );
    proof {
        assert(stack.spec_history() =~= root_plan);
        reveal_with_fuel(Seq::<MountOp>::filter, 6);
        assert(stack.spec_targets() =~= spec_mount_targets(root_plan));
    }
    match boot_filesystem {
        Some(boot_fs) => {
            let boot_target = text::join_path(mount_path, "boot");
            if !dryrun {
                match ensure_dir(boot_target.as_str()) {
                    Ok(_) => {},
                    Err(e) => {
                        let _ = stack.umount();
                        return Err(e);
                    },
                }
            }
            match stack.mount(boot_fs, boot_target.as_str(), MountFlags::Empty) {
                Ok(_) => {},
                Err(e) => {
                    let _ = stack.umount();
                    return Err(e);
                },
            }
            proof {
                let plan = root_plan + seq![
                    spec_boot_mount_op(
                        boot_fs.spec_block_path(),
                        boot_fs.spec_fs_type(),
                        mount_path@,
                    ),
                ];
                assert(stack.spec_history() =~= plan);
                reveal_with_fuel(Seq::<MountOp>::filter, 7);
                assert(stack.spec_targets() =~= spec_mount_targets(plan));
            }
        },
        None => {
            proof {
                assert(root_plan + Seq::<MountOp>::empty() =~= root_plan);
            }
        },
    }
    Ok(stack)
}

} // verus!
