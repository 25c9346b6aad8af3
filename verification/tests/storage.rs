use alma::storage::mount_stack::{MountEvent, MountFlags, MountStack};
use alma::storage::BlockDevice;
use alma::storage::partition::Partition;
use alma::storage::storage_device::{DeviceQuery, StorageDevice};
use alma::storage::Filesystem;
use alma::storage::filesystem::FilesystemType;
use alma::AlmaError;

fn dryrun_device(path: &str) -> StorageDevice {
    let query = DeviceQuery { removable: false, is_loop: false };
    StorageDevice::from_path(path, false, true, None, &query, "").expect("dry-run device")
}

#[test]
fn partition_naming_plain_name() {
    let dev = dryrun_device("/dev/sda");
    let part = dev.get_partition(1).expect("partition");
    assert_eq!(part.path(), "/dev/sda1");
}

#[test]
fn partition_naming_digit_name() {
    let dev = dryrun_device("/dev/nvme0n1");
    let part = dev.get_partition(1).expect("partition");
    assert_eq!(part.path(), "/dev/nvme0n1p1");
}

#[test]
fn partition_naming_higher_index() {
    let dev = dryrun_device("/dev/mmcblk0");
    let part = dev.get_partition(3).expect("partition");
    assert_eq!(part.path(), "/dev/mmcblk0p3");
    let dev2 = dryrun_device("/dev/sdb");
    let part2 = dev2.get_partition(12).expect("partition");
    assert_eq!(part2.path(), "/dev/sdb12");
}

#[test]
fn partition_missing_node_is_reported() {
    let query = DeviceQuery { removable: false, is_loop: false };
    let dev = StorageDevice::from_path(
        "/dev/alma-test-absent-device",
        true,
        false,
        Some("/dev/alma-test-absent-device"),
        &query,
        "",
    )
    .expect("allowed device");
    match dev.get_partition(1) {
        Err(AlmaError::PartitionNotFound { index }) => assert_eq!(index, 1),
        other => panic!("expected PartitionNotFound, got {other:?}"),
    }
}

#[test]
fn safety_gate_rejects_non_removable() {
    let query = DeviceQuery { removable: false, is_loop: false };
    let r = StorageDevice::from_path(
        "/dev/sdz",
        false,
        false,
        Some("/dev/sdz"),
        &query,
        "",
    );
    match r {
        Err(AlmaError::UnsafeTarget { device }) => assert_eq!(device, "sdz"),
        other => panic!("expected UnsafeTarget, got {other:?}"),
    }
}

#[test]
fn safety_gate_respects_override_and_attributes() {
    let query = DeviceQuery { removable: false, is_loop: false };
    assert!(StorageDevice::from_path("/dev/sdz", true, false, Some("/dev/sdz"), &query, "")
        .is_ok());
    let removable = DeviceQuery { removable: true, is_loop: false };
    assert!(StorageDevice::from_path("/dev/sdz", false, false, Some("/dev/sdz"), &removable, "")
        .is_ok());
    let lo = DeviceQuery { removable: false, is_loop: true };
    assert!(StorageDevice::from_path("/dev/loop9", false, false, Some("/dev/loop9"), &lo, "")
        .is_ok());
}

#[test]
fn invalid_device_paths_are_rejected() {
    let query = DeviceQuery { removable: true, is_loop: false };
    match StorageDevice::from_path("/", false, true, None, &query, "") {
        Err(AlmaError::InvalidDevice { .. }) => {}
        other => panic!("expected InvalidDevice, got {other:?}"),
    }
    // outside dry-run the path must have been resolved
    match StorageDevice::from_path("/dev/sda", false, false, None, &query, "") {
        Err(AlmaError::InvalidDevice { .. }) => {}
        other => panic!("expected InvalidDevice, got {other:?}"),
    }
}

#[test]
fn mount_table_rows_are_tracked_and_cleared() {
    let mounts = "/dev/sdz1 /mnt ext4 rw,relatime 0 0\n\
                  /dev/sdz2 /boot vfat rw 0 0\n\
                  tmpfs /tmp tmpfs rw 0 0\n";
    let query = DeviceQuery { removable: true, is_loop: false };
    let mut dev =
        StorageDevice::from_path("/dev/sdz", false, true, None, &query, mounts).expect("device");
    assert!(dev.is_mounted());
    let points: Vec<String> =
        dev.mounts().iter().map(|m| m.mount_point.clone()).collect();
    assert_eq!(points, vec!["/mnt".to_string(), "/boot".to_string()]);
    // the pre-flight sweep attempts exactly one unmount per tracked
    // point, in tracking order; dry-run attempts always succeed
    let attempts = dev.umount_if_needed();
    let attempted: Vec<(String, bool)> = attempts
        .iter()
        .map(|e| match e {
            MountEvent::Unmount { target, ok } => (target.clone(), *ok),
            other => panic!("expected an unmount attempt, got {other:?}"),
        })
        .collect();
    assert_eq!(
        attempted,
        vec![("/mnt".to_string(), true), ("/boot".to_string(), true)]
    );
    assert!(!dev.is_mounted());
    // a second sweep has nothing left to attempt
    assert!(dev.umount_if_needed().is_empty());
}

#[test]
fn mount_order_is_reversed_on_unmount() {
    let mut stack = MountStack::new(true);
    stack
        .mount_single("/dev/x", "/a", Some("ext4"), MountFlags::NoAtime, None)
        .expect("mount a");
    stack
        .mount_single("/dev/x", "/a/b", None, MountFlags::NoAtime, None)
        .expect("mount b");
    stack
        .bind_mount("/srv", "/a/b/c", None)
        .expect("bind c");
    assert_eq!(stack.depth(), 3);
    stack.umount().expect("dry-run unmount");
    assert_eq!(stack.depth(), 0);
    let history = stack.history();
    assert_eq!(history.len(), 6);
    let unmount_targets: Vec<&str> = history
        .iter()
        .filter_map(|e| match e {
            MountEvent::Unmount { target, ok } => {
                assert!(*ok);
                Some(target.as_str())
            }
            _ => None,
        })
        .collect();
    assert_eq!(unmount_targets, vec!["/a/b/c", "/a/b", "/a"]);
    let mount_targets: Vec<&str> = history
        .iter()
        .filter_map(|e| match e {
            MountEvent::Mount { target, .. } => Some(target.as_str()),
            _ => None,
        })
        .collect();
    assert_eq!(mount_targets, vec!["/a", "/a/b", "/a/b/c"]);
}

#[test]
fn btrfs_layout_mounts_and_unmounts_in_order() {
    let part = Partition::new("/dev/sda3".to_string(), true);
    let root = Filesystem::from_partition(&part, FilesystemType::Btrfs);
    let mut stack = alma::tool::mount::mount(
        "/mnt/target",
        &None::<Filesystem<Partition>>,
        &root,
        true,
    )
    .expect("dry-run btrfs mount");
    let mounts: Vec<(String, Option<String>)> = stack
        .history()
        .iter()
        .filter_map(|e| match e {
            MountEvent::Mount { target, data, .. } => Some((target.clone(), data.clone())),
            _ => None,
        })
        .collect();
    assert_eq!(
        mounts,
        vec![
            (
                "/mnt/target".to_string(),
                Some("compress=zstd:3,subvol=@".to_string())
            ),
            (
                "/mnt/target/home".to_string(),
                Some("compress=zstd:3,subvol=@home".to_string())
            ),
            (
                "/mnt/target/var/log".to_string(),
                Some("compress=zstd:3,subvol=@log".to_string())
            ),
            (
                "/mnt/target/var/cache/pacman/pkg".to_string(),
                Some("compress=zstd:3,subvol=@pkg".to_string())
            ),
        ]
    );
    stack.umount().expect("dry-run unmount");
    let unmounts: Vec<String> = stack
        .history()
        .iter()
        .filter_map(|e| match e {
            MountEvent::Unmount { target, .. } => Some(target.clone()),
            _ => None,
        })
        .collect();
    assert_eq!(
        unmounts,
        vec![
            "/mnt/target/var/cache/pacman/pkg".to_string(),
            "/mnt/target/var/log".to_string(),
            "/mnt/target/home".to_string(),
            "/mnt/target".to_string(),
        ]
    );
}

#[test]
fn ext4_layout_with_boot_partition() {
    let part = Partition::new("/dev/sda3".to_string(), true);
    let boot_part = Partition::new("/dev/sda1".to_string(), true);
    let root = Filesystem::from_partition(&part, FilesystemType::Ext4);
    let boot = Some(Filesystem::from_partition(&boot_part, FilesystemType::Vfat));
    let stack =
        alma::tool::mount::mount("/mnt/target", &boot, &root, true).expect("dry-run mount");
    let mounts: Vec<(String, String, Option<String>)> = stack
        .history()
        .iter()
        .filter_map(|e| match e {
            MountEvent::Mount { source, target, fstype, .. } => {
                Some((source.clone(), target.clone(), fstype.clone()))
            }
            _ => None,
        })
        .collect();
    assert_eq!(
        mounts,
        vec![
            (
                "/dev/sda3".to_string(),
                "/mnt/target".to_string(),
                Some("ext4".to_string())
            ),
            (
                "/dev/sda1".to_string(),
                "/mnt/target/boot".to_string(),
                Some("vfat".to_string())
            ),
        ]
    );
}

#[test]
fn real_mount_failure_reports_target() {
    let mut stack = MountStack::new(false);
    let r = stack.mount_single(
        "tmpfs",
        "/alma-test-no-such-mountpoint-xyz",
        Some("tmpfs"),
        MountFlags::Empty,
        None,
    );
    match r {
        Err(AlmaError::MountFailed { target, .. }) => {
            assert_eq!(target, "/alma-test-no-such-mountpoint-xyz");
        }
        other => panic!("expected MountFailed, got {other:?}"),
    }
    assert_eq!(stack.depth(), 0);
    assert!(stack.history().is_empty());
}

#[test]
fn failed_unmount_still_attempts_the_rest() {
    // A real scenario: three tmpfs mounts, the middle one unmounted
    // behind the ledger's back so its own attempt fails.  Skipped in
    // environments where mounting is not permitted.
    let t1 = tempfile::tempdir().expect("tempdir");
    let t2 = tempfile::tempdir().expect("tempdir");
    let t3 = tempfile::tempdir().expect("tempdir");
    let p1 = t1.path().to_str().unwrap().to_string();
    let p2 = t2.path().to_str().unwrap().to_string();
    let p3 = t3.path().to_str().unwrap().to_string();

    let mut stack = MountStack::new(false);
    if stack
        .mount_single("tmpfs", &p1, Some("tmpfs"), MountFlags::Empty, None)
        .is_err()
    {
        // mounting is not permitted here; nothing to observe
        return;
    }
    stack
        .mount_single("tmpfs", &p2, Some("tmpfs"), MountFlags::Empty, None)
        .expect("second mount");
    stack
        .mount_single("tmpfs", &p3, Some("tmpfs"), MountFlags::Empty, None)
        .expect("third mount");
    // unmount the middle target manually, so the ledger's own attempt
    // at it fails
    nix::mount::umount(t2.path()).expect("manual unmount");
    match stack.umount() {
        Err(AlmaError::UnmountFailed { failed }) => {
            assert_eq!(failed, vec![p2.clone()]);
        }
        other => panic!("expected UnmountFailed, got {other:?}"),
    }
    // every target was still attempted, in exact reverse order
    let attempts: Vec<(String, bool)> = stack
        .history()
        .iter()
        .filter_map(|e| match e {
            MountEvent::Unmount { target, ok } => Some((target.clone(), *ok)),
            _ => None,
        })
        .collect();
    assert_eq!(
        attempts,
        vec![(p3, true), (p2, false), (p1, true)]
    );
}
