use std::io::Write;

use alma::storage::crypt::{is_encrypted_device, EncryptedDevice};
use alma::storage::mount_stack::{MountEvent, MountFlags};
use alma::storage::BlockDevice;
use alma::storage::filesystem::FilesystemType;
use alma::storage::loop_device::LoopDevice;
use alma::storage::mount_stack::render_event;
use alma::storage::partition::Partition;
use alma::storage::Filesystem;
use alma::tool::Tool;
use alma::AlmaError;

fn dry_tool(name: &str) -> Tool {
    Tool { exec_path: name.to_string(), dryrun: true }
}

#[test]
fn loop_device_dry_run_uses_placeholder() {
    let losetup = dry_tool("losetup");
    let cmd = LoopDevice::attach_command(&losetup, "/tmp/image.img");
    assert_eq!(cmd.render(), "losetup --find -P --show /tmp/image.img");
    let dev = LoopDevice::create(&losetup, "/tmp/image.img", "");
    assert_eq!(dev.path(), "/dev/loop1337");
}

#[test]
fn loop_device_real_mode_trims_tool_output() {
    let losetup = Tool { exec_path: "losetup".to_string(), dryrun: false };
    let dev = LoopDevice::create(&losetup, "/tmp/image.img", "/dev/loop4\n");
    assert_eq!(dev.path(), "/dev/loop4");
}

#[test]
fn loop_device_detaches_exactly_once() {
    let losetup = dry_tool("losetup");
    let mut dev = LoopDevice::create(&losetup, "/tmp/image.img", "");
    let first = dev.detach_command().expect("first detach command");
    assert_eq!(first.render(), "losetup -d /dev/loop1337");
    assert!(dev.detach_command().is_none());
    assert!(dev.detach_command().is_none());
}

#[test]
fn loop_device_detached_once_even_after_failed_step() {
    // the scope-exit scenario: a later pipeline step fails, the guard
    // still asks for the detach command exactly once
    let losetup = dry_tool("losetup");
    let mut dev = LoopDevice::create(&losetup, "/tmp/image.img", "");
    let failing_step: Result<(), AlmaError> =
        Filesystem::format(&Partition::new("/dev/loop1337p3".to_string(), true), FilesystemType::Ext4, false)
            .map(|_| ());
    assert!(failing_step.is_err());
    let mut detaches = 0;
    if dev.detach_command().is_some() {
        detaches += 1;
    }
    if dev.detach_command().is_some() {
        detaches += 1;
    }
    assert_eq!(detaches, 1);
}

#[test]
fn encrypted_device_commands_and_lifecycle() {
    let cryptsetup = dry_tool("cryptsetup");
    let part = Partition::new("/dev/sda3".to_string(), true);
    let prep = EncryptedDevice::prepare_command(&cryptsetup, &part);
    assert_eq!(prep.render(), "cryptsetup luksFormat /dev/sda3");
    assert!(EncryptedDevice::prepare(&part, true).is_ok());
    match EncryptedDevice::prepare(&part, false) {
        Err(AlmaError::ProcessFailed { .. }) => {}
        other => panic!("expected ProcessFailed, got {other:?}"),
    }
    let open_cmd = EncryptedDevice::open_command(&cryptsetup, &part, "alma_root");
    assert_eq!(open_cmd.render(), "cryptsetup open /dev/sda3 alma_root");
    let mut dev = EncryptedDevice::open(&cryptsetup, "alma_root", true).expect("open");
    assert_eq!(dev.path(), "/dev/mapper/alma_root");
    let close = dev.close_command().expect("close command");
    assert_eq!(close.render(), "cryptsetup close alma_root");
    assert!(dev.close_command().is_none());
}

#[test]
fn encryption_detection_matches_header_exactly() {
    // the exact magic: Ok(true)
    let mut good = tempfile::NamedTempFile::new().expect("tempfile");
    good.write_all(&[0x4c, 0x55, 0x4b, 0x53, 0xba, 0xbe, 0x00, 0x01])
        .unwrap();
    good.flush().unwrap();
    let part = Partition::new(good.path().to_str().unwrap().to_string(), false);
    assert_eq!(is_encrypted_device(&part).expect("probe"), true);

    // one byte off: Ok(false)
    let mut off = tempfile::NamedTempFile::new().expect("tempfile");
    off.write_all(&[0x4c, 0x55, 0x4b, 0x53, 0xba, 0xbf, 0x00, 0x01])
        .unwrap();
    off.flush().unwrap();
    let part_off = Partition::new(off.path().to_str().unwrap().to_string(), false);
    assert_eq!(is_encrypted_device(&part_off).expect("probe"), false);

    // truncated: never a false positive
    let mut short = tempfile::NamedTempFile::new().expect("tempfile");
    short.write_all(&[0x4c, 0x55, 0x4b]).unwrap();
    short.flush().unwrap();
    let part_short = Partition::new(short.path().to_str().unwrap().to_string(), false);
    assert_eq!(is_encrypted_device(&part_short).expect("probe"), false);

    // unreadable: inconclusive, reported as an error
    let part_absent = Partition::new("/alma-test-absent-file-xyz".to_string(), false);
    match is_encrypted_device(&part_absent) {
        Err(AlmaError::EncryptionHeaderMismatch { .. }) => {}
        other => panic!("expected EncryptionHeaderMismatch, got {other:?}"),
    }

    // dry-run probes nothing
    let part_dry = Partition::new("/dev/loop1337p3".to_string(), true);
    assert_eq!(is_encrypted_device(&part_dry).expect("probe"), false);
}

#[test]
fn dry_run_pipeline_prints_deterministic_commands() {
    let run = || -> Vec<String> {
        let mut printed: Vec<String> = Vec::new();
        let losetup = dry_tool("losetup");
        // create the loop device
        printed.push(LoopDevice::attach_command(&losetup, "/tmp/image.img").render());
        let mut loop_dev = LoopDevice::create(&losetup, "/tmp/image.img", "");
        // format its root partition
        let mkfs = dry_tool("mkfs.ext4");
        let part = Partition::new("/dev/loop1337p3".to_string(), true);
        printed.push(Filesystem::format_command(&part, FilesystemType::Ext4, &mkfs).render());
        let root = Filesystem::format(&part, FilesystemType::Ext4, true).expect("dry format");
        // mount, then unmount
        let mut stack = alma::tool::mount::mount(
            "/mnt/target",
            &None::<Filesystem<Partition>>,
            &root,
            true,
        )
        .expect("dry mount");
        let mount_count = stack.history().len();
        stack.umount().expect("dry unmount");
        for e in stack.history().iter() {
            printed.push(render_event(e));
        }
        assert_eq!(stack.history().len(), 2 * mount_count);
        // detach on scope exit
        if let Some(cmd) = loop_dev.detach_command() {
            printed.push(cmd.render());
        }
        printed
    };
    let first = run();
    let second = run();
    assert!(!first.is_empty());
    assert_eq!(first, second);
    assert_eq!(
        first,
        vec![
            "losetup --find -P --show /tmp/image.img".to_string(),
            "mkfs.ext4 -F /dev/loop1337p3".to_string(),
            "mount -t ext4 -o noatime /dev/loop1337p3 /mnt/target".to_string(),
            "umount /mnt/target".to_string(),
            "losetup -d /dev/loop1337".to_string(),
        ]
    );
}

#[test]
fn render_event_formats() {
    let m = MountEvent::Mount {
        source: "/dev/sda3".to_string(),
        target: "/mnt".to_string(),
        fstype: Some("btrfs".to_string()),
        flags: MountFlags::NoAtime,
        data: Some("compress=zstd:3,subvol=@".to_string()),
    };
    assert_eq!(
        render_event(&m),
        "mount -t btrfs -o noatime,compress=zstd:3,subvol=@ /dev/sda3 /mnt"
    );
    let plain = MountEvent::Mount {
        source: "/dev/sda1".to_string(),
        target: "/mnt/boot".to_string(),
        fstype: Some("vfat".to_string()),
        flags: MountFlags::Empty,
        data: None,
    };
    assert_eq!(render_event(&plain), "mount -t vfat /dev/sda1 /mnt/boot");
    let bind = MountEvent::Mount {
        source: "/srv/shared".to_string(),
        target: "/mnt/shared".to_string(),
        fstype: None,
        flags: MountFlags::BindNoAtime,
        data: None,
    };
    assert_eq!(render_event(&bind), "mount --bind /srv/shared /mnt/shared");
    let u = MountEvent::Unmount { target: "/mnt".to_string(), ok: true };
    assert_eq!(render_event(&u), "umount /mnt");
}

#[test]
fn format_command_flags_per_family() {
    let part = Partition::new("/dev/sda1".to_string(), true);
    let mkfs = dry_tool("mkfs.fat");
    assert_eq!(
        Filesystem::format_command(&part, FilesystemType::Vfat, &mkfs).render(),
        "mkfs.fat -F32 /dev/sda1"
    );
    let mkbtrfs = dry_tool("mkfs.btrfs");
    assert_eq!(
        Filesystem::format_command(&part, FilesystemType::Btrfs, &mkbtrfs).render(),
        "mkfs.btrfs -f /dev/sda1"
    );
    assert_eq!(FilesystemType::Ext4.to_mount_type(), "ext4");
    assert_eq!(FilesystemType::Btrfs.to_mount_type(), "btrfs");
    assert_eq!(FilesystemType::Vfat.to_mount_type(), "vfat");
}
