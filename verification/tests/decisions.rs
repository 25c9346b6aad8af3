use alma::args::{parse_bytes, Manifest, RootFilesystemType, Source, SystemVariant};
use alma::aur::AurHelper;
use alma::create::FilesystemAdjustment;
use alma::create;
use alma::initcpio::Initcpio;
use alma::install::preset_baked_paths;
use alma::interactive::{
    selected_font_packages, selected_video_packages, validate_username, UserSettings,
};
use alma::presets::{check_environment, ArchiveType, Preset, PresetsPath, Script};
use alma::storage::mount_table::{mount_points_for, root_mount_source};
use alma::storage::storage_device::device_name;
use alma::text;
use alma::tool::chroot::{classify_partitions, parse_partition_list, PartitionScan};
use alma::tool::Tool;
use alma::storage::filesystem::FilesystemType;
use alma::AlmaError;

#[test]
fn text_helpers_behave() {
    assert_eq!(
        text::split_char("a,b,,c", ','),
        vec!["a".to_string(), "b".to_string(), "".to_string(), "c".to_string()]
    );
    assert_eq!(
        text::lines_of("one\ntwo\n"),
        vec!["one".to_string(), "two".to_string()]
    );
    assert_eq!(text::lines_of(""), Vec::<String>::new());
    assert_eq!(
        text::ws_fields(" a  b\tc "),
        vec!["a".to_string(), "b".to_string(), "c".to_string()]
    );
    assert!(text::starts_with_str("https://x", "https://"));
    assert!(!text::starts_with_str("http", "https://"));
    assert!(text::ends_with_str("a.tar.gz", ".tar.gz"));
    assert!(text::contains_str("/dev/sda2 none swap sw", "swap"));
    assert!(!text::contains_str("/dev/sda1 / ext4", "swap"));
    assert_eq!(text::trim_str("  /dev/loop0\n"), "/dev/loop0");
    assert_eq!(text::u64_dec(0), "0");
    assert_eq!(text::u64_dec(507), "507");
    assert_eq!(text::join_path("/mnt", "boot"), "/mnt/boot");
    assert_eq!(text::parse_u128_decimal("500"), Some(500));
    assert_eq!(text::parse_u128_decimal("12a"), None);
    assert_eq!(text::parse_u128_decimal(""), None);
}

#[test]
fn device_names_from_paths() {
    assert_eq!(device_name("/dev/sda"), Some("sda".to_string()));
    assert_eq!(device_name("/dev/nvme0n1/"), Some("nvme0n1".to_string()));
    assert_eq!(device_name("sda"), Some("sda".to_string()));
    assert_eq!(device_name("/"), None);
    assert_eq!(device_name(""), None);
}

#[test]
fn mount_table_parsing() {
    let table = "/dev/sdb1 /mnt/usb vfat rw 0 0\n\
                 /dev/sda2 / ext4 rw 0 0\n\
                 /dev/sdb2 /mnt/data ext4 rw 0 0\n\
                 malformed-line\n";
    assert_eq!(
        mount_points_for("/dev/sdb", table),
        vec!["/mnt/usb".to_string(), "/mnt/data".to_string()]
    );
    assert_eq!(mount_points_for("/dev/sdc", table), Vec::<String>::new());
    assert_eq!(root_mount_source(table), Some("/dev/sda2".to_string()));
    assert_eq!(root_mount_source("tmpfs /tmp tmpfs rw 0 0\n"), None);
}

#[test]
fn sfdisk_output_parsing() {
    let out = "Device\n/dev/sda1\n/dev/sda2\n\n  /dev/sda3  \n";
    assert_eq!(
        parse_partition_list(out),
        vec![
            "/dev/sda1".to_string(),
            "/dev/sda2".to_string(),
            "/dev/sda3".to_string()
        ]
    );
    assert_eq!(parse_partition_list(""), Vec::<String>::new());
}

fn scan(path: &str, encrypted: bool, fs: &str) -> PartitionScan {
    PartitionScan { path: path.to_string(), encrypted, fs_type: fs.to_string() }
}

#[test]
fn partition_classification() {
    let entries = vec![
        scan("/dev/sda1", false, "vfat"),
        scan("/dev/sda2", false, ""),
        scan("/dev/sda3", false, "btrfs"),
    ];
    let layout = classify_partitions(&entries).expect("layout");
    assert_eq!(layout.boot_path, Some("/dev/sda1".to_string()));
    assert_eq!(layout.root_path, "/dev/sda3");
    assert_eq!(layout.root_fs, Some(FilesystemType::Btrfs));

    let encrypted = vec![scan("/dev/sda1", false, "vfat"), scan("/dev/sda2", true, "")];
    let layout2 = classify_partitions(&encrypted).expect("layout");
    assert_eq!(layout2.root_path, "/dev/sda2");
    assert_eq!(layout2.root_fs, None);

    let ambiguous = vec![
        scan("/dev/sda2", false, "ext4"),
        scan("/dev/sda3", false, "btrfs"),
    ];
    assert!(matches!(
        classify_partitions(&ambiguous),
        Err(AlmaError::Unsupported { .. })
    ));

    let rootless = vec![scan("/dev/sda1", false, "vfat")];
    assert!(matches!(
        classify_partitions(&rootless),
        Err(AlmaError::Unsupported { .. })
    ));
}

#[test]
fn fstab_is_stripped_of_comments_and_swap() {
    let fstab = "# generated\n\
                 UUID=1 / ext4 rw 0 1\n\
                 UUID=2 none swap defaults 0 0\n\
                 UUID=3 /boot vfat rw 0 2";
    assert_eq!(
        create::fix_fstab(fstab),
        "UUID=1 / ext4 rw 0 1\nUUID=3 /boot vfat rw 0 2"
    );
    assert_eq!(create::fix_fstab(""), "");
}

#[test]
fn size_parsing_rules() {
    // a bare number counts mebibytes
    assert_eq!(parse_bytes("500").expect("bytes"), 500 * 1024 * 1024);
    assert_eq!(parse_bytes("+500").expect("bytes"), 500 * 1024 * 1024);
    // a unit is honoured, case-insensitively
    assert_eq!(parse_bytes("500MiB").expect("bytes"), 524288000);
    assert_eq!(parse_bytes("500mb").expect("bytes"), 500000000);
    // garbage is rejected
    assert!(matches!(
        parse_bytes("five hundred"),
        Err(AlmaError::InvalidSize { .. })
    ));
}

#[test]
fn command_validation() {
    assert!(create::validate_command(SystemVariant::Arch, false, false).is_ok());
    assert!(create::validate_command(SystemVariant::Arch, true, false).is_ok());
    assert!(matches!(
        create::validate_command(SystemVariant::Omarchy, false, true),
        Err(AlmaError::Unsupported { .. })
    ));
    assert!(matches!(
        create::validate_command(SystemVariant::Arch, true, true),
        Err(AlmaError::EncryptionUnsupported)
    ));
}

#[test]
fn boot_size_decisions() {
    assert_eq!(create::default_boot_size_mb(SystemVariant::Arch), 300);
    assert_eq!(create::default_boot_size_mb(SystemVariant::Omarchy), 512);
    assert_eq!(create::boot_size_mb(None, SystemVariant::Arch), 300);
    assert_eq!(
        create::boot_size_mb(Some(500 * 1024 * 1024), SystemVariant::Arch),
        500
    );
    assert!(!create::boot_size_needs_confirmation(SystemVariant::Arch, 300));
    assert!(create::boot_size_needs_confirmation(SystemVariant::Arch, 100));
    assert!(create::boot_size_needs_confirmation(SystemVariant::Arch, 4096));
    assert!(create::boot_size_needs_confirmation(SystemVariant::Omarchy, 300));
    assert!(!create::boot_size_needs_confirmation(SystemVariant::Omarchy, 512));
}

#[test]
fn filesystem_adjustment_for_variants() {
    assert_eq!(
        create::adjust_filesystem_for_system(SystemVariant::Arch, RootFilesystemType::Ext4, true),
        FilesystemAdjustment::Keep
    );
    assert_eq!(
        create::adjust_filesystem_for_system(
            SystemVariant::Omarchy,
            RootFilesystemType::Ext4,
            true
        ),
        FilesystemAdjustment::ConfirmExt4
    );
    assert_eq!(
        create::adjust_filesystem_for_system(
            SystemVariant::Omarchy,
            RootFilesystemType::Ext4,
            false
        ),
        FilesystemAdjustment::ForceBtrfs
    );
    assert_eq!(
        create::default_aur_helper_for(SystemVariant::Omarchy, false),
        Some(AurHelper::Yay)
    );
    assert_eq!(create::default_aur_helper_for(SystemVariant::Omarchy, true), None);
    assert_eq!(create::default_aur_helper_for(SystemVariant::Arch, false), None);
}

#[test]
fn partitioning_command_line() {
    let sgdisk = Tool { exec_path: "sgdisk".to_string(), dryrun: true };
    let cmd = create::repartition_command(&sgdisk, "/dev/sda", 300);
    assert_eq!(
        cmd.render(),
        "sgdisk -Z -o --new=1::+300M --new=2::+1M --largest-new=3 --typecode=1:EF00 --typecode=2:EF02 /dev/sda"
    );
    let mkbtrfs = Tool { exec_path: "mkfs.btrfs".to_string(), dryrun: true };
    assert_eq!(
        create::mkbtrfs_command(&mkbtrfs, "/dev/sda3").render(),
        "mkfs.btrfs -f -L alma-root /dev/sda3"
    );
    let btrfs = Tool { exec_path: "btrfs".to_string(), dryrun: true };
    assert_eq!(
        create::btrfs_subvolume_create_command(&btrfs, "/mnt/@home").render(),
        "btrfs subvolume create /mnt/@home"
    );
    assert_eq!(
        create::btrfs_subvolumes(),
        vec!["@".to_string(), "@home".to_string(), "@log".to_string(), "@pkg".to_string()]
    );
}

#[test]
fn package_collection_is_a_union_without_duplicates() {
    let graphics = vec!["mesa".to_string(), "git".to_string()];
    let fonts = vec!["noto-fonts".to_string()];
    let presets = vec!["rsync".to_string(), "htop".to_string()];
    let packages = create::collect_packages(
        SystemVariant::Omarchy,
        RootFilesystemType::Btrfs,
        &graphics,
        &fonts,
        &presets,
    );
    // no duplicates
    for (i, a) in packages.iter().enumerate() {
        for b in packages.iter().skip(i + 1) {
            assert_ne!(a, b);
        }
    }
    for expected in [
        "base", "mesa", "git", "noto-fonts", "htop", "pipewire", "btrfs-progs", "sudo",
    ] {
        assert!(packages.iter().any(|p| p == expected), "missing {expected}");
    }
    let plain = create::collect_packages(
        SystemVariant::Arch,
        RootFilesystemType::Ext4,
        &Vec::new(),
        &Vec::new(),
        &Vec::new(),
    );
    assert!(!plain.iter().any(|p| p == "btrfs-progs"));
    assert!(!plain.iter().any(|p| p == "pipewire"));
}

#[test]
fn aur_helper_commands() {
    assert_eq!(AurHelper::Paru.get_package_name(), "paru-bin");
    assert_eq!(AurHelper::Yay.get_package_name(), "yay-bin");
    assert_eq!(
        AurHelper::Paru.get_install_command(),
        vec![
            "paru",
            "-S",
            "--skipreview",
            "--noupgrademenu",
            "--useask",
            "--removemake",
            "--norebuild",
            "--nocleanafter",
            "--noredownload",
            "--mflags",
            "",
            "--noconfirm",
            "--batchinstall",
        ]
        .into_iter()
        .map(String::from)
        .collect::<Vec<String>>()
    );
    assert_eq!(
        AurHelper::Yay.get_install_command(),
        vec![
            "yay",
            "-S",
            "--useask",
            "--removemake",
            "--norebuild",
            "--answeredit",
            "None",
            "--answerclean",
            "None",
            "--answerdiff",
            "None",
            "--mflags",
            "--noconfirm",
        ]
        .into_iter()
        .map(String::from)
        .collect::<Vec<String>>()
    );
    assert!(matches!(AurHelper::from_name("paru"), Ok(AurHelper::Paru)));
    assert!(matches!(AurHelper::from_name("yay"), Ok(AurHelper::Yay)));
    assert!(matches!(
        AurHelper::from_name("apt"),
        Err(AlmaError::Unsupported { .. })
    ));
    assert_eq!(
        create::aur_clone_url("paru-bin"),
        "https://aur.archlinux.org/paru-bin.git"
    );
    assert_eq!(
        create::aur_package_list(
            &vec!["alpha".to_string()],
            &vec!["beta".to_string()]
        ),
        vec!["shim-signed".to_string(), "alpha".to_string(), "beta".to_string()]
    );
}

#[test]
fn initcpio_configurations() {
    let base = "MODULES=()\nBINARIES=()\nFILES=()\nHOOKS=(base udev keyboard microcode modconf keymap consolefont block ";
    assert_eq!(
        Initcpio::new(false, false).to_config(),
        format!("{base}filesystems fsck)\n")
    );
    assert_eq!(
        Initcpio::new(true, false).to_config(),
        format!("{base}encrypt filesystems fsck)\n")
    );
    assert_eq!(
        Initcpio::new(false, true).to_config(),
        format!("{base}kms plymouthfilesystems fsck)\n")
    );
    assert_eq!(
        Initcpio::new(true, true).to_config(),
        format!("{base}encrypt kms plymouthfilesystems fsck)\n")
    );
}

#[test]
fn username_validation() {
    assert!(validate_username("alice"));
    assert!(validate_username("a_b"));
    assert!(!validate_username(""));
    assert!(!validate_username("Alice"));
    assert!(!validate_username("al1ce"));
    assert!(!validate_username(
        "aaaaaaaaaaaaaaaaaaaaaaaaaaaaaaaaa" // 33 characters
    ));
}

#[test]
fn setup_script_text() {
    let settings = UserSettings {
        username: "alice".to_string(),
        hostname: "alma-linux".to_string(),
        user_password: Some("secret".to_string()),
        passwordless_sudo: false,
        timezone: "UTC".to_string(),
        graphics_packages: Vec::new(),
        font_packages: Vec::new(),
    };
    let script = settings.generate_setup_script();
    assert_eq!(
        script,
        "set -eux\n\
         echo alma-linux > /etc/hostname\n\
         ln -sf /usr/share/zoneinfo/UTC /etc/localtime\n\
         useradd -m -G wheel alice || echo \"User alice already exists\"\n\
         echo \"alice:secret\" | chpasswd\n\
         echo '%wheel ALL=(ALL) ALL' > /etc/sudoers.d/wheel\n\
         sudo -u alice xdg-user-dirs-update || true\n"
    );
    let nopass = UserSettings {
        user_password: None,
        passwordless_sudo: true,
        ..settings
    };
    let script2 = nopass.generate_setup_script();
    assert!(script2.contains("NOPASSWD"));
    assert!(!script2.contains("chpasswd"));
}

#[test]
fn package_selection_meaning() {
    assert_eq!(
        selected_video_packages(&vec![0]),
        vec!["mesa".to_string()]
    );
    assert_eq!(
        selected_video_packages(&vec![0, 1]),
        vec!["mesa".to_string(), "nvidia-dkms".to_string(), "nvidia-utils".to_string()]
    );
    assert_eq!(
        selected_video_packages(&vec![2]),
        vec!["nvidia-open-dkms".to_string(), "nvidia-utils".to_string()]
    );
    assert_eq!(
        selected_font_packages(&vec![0, 2]),
        vec![
            "noto-fonts".to_string(),
            "noto-fonts-extra".to_string(),
            "noto-fonts-cjk".to_string(),
            "noto-fonts-emoji".to_string(),
            "ttf-dejavu".to_string()
        ]
    );
}

#[test]
fn presets_path_classification() {
    assert!(matches!(
        PresetsPath::parse("https://example.com/x.zip"),
        Ok(PresetsPath::UrlArchive(u, ArchiveType::Zip)) if u == "https://example.com/x.zip"
    ));
    assert!(matches!(
        PresetsPath::parse("http://example.com/x.tar.gz"),
        Ok(PresetsPath::UrlArchive(_, ArchiveType::TarGz))
    ));
    assert!(matches!(
        PresetsPath::parse("https://example.com/repo.git"),
        Ok(PresetsPath::GitHttp(_))
    ));
    assert!(matches!(
        PresetsPath::parse("git@example.com:me/repo.git"),
        Ok(PresetsPath::GitSSH(_))
    ));
    assert!(matches!(
        PresetsPath::parse("/path/test"),
        Ok(PresetsPath::LocalDir(p)) if p == "/path/test"
    ));
    assert!(matches!(
        PresetsPath::parse("bundle.zip"),
        Ok(PresetsPath::LocalArchive(_, ArchiveType::Zip))
    ));
    assert!(matches!(
        PresetsPath::parse("bundle.tar.gz"),
        Ok(PresetsPath::LocalArchive(_, ArchiveType::TarGz))
    ));
    // a web source that is not an archive or repository is refused
    assert!(matches!(
        PresetsPath::parse("https://example.com/plain"),
        Err(AlmaError::InvalidPresetsPath { .. })
    ));
    // a malformed URL is refused
    assert!(matches!(
        PresetsPath::parse("http://exa mple/x.zip"),
        Err(AlmaError::InvalidPresetsPath { .. })
    ));
}

#[test]
fn preset_merging_and_shared_dirs() {
    let preset = Preset {
        packages: Some(vec!["git".to_string(), "htop".to_string()]),
        script: Some("echo hi".to_string()),
        environment_variables: Some(vec!["HOME".to_string()]),
        shared_directories: Some(vec!["shared".to_string()]),
        aur_packages: Some(vec!["paru-bin".to_string()]),
    };
    let mut packages = vec!["git".to_string()];
    let mut scripts: Vec<Script> = Vec::new();
    let mut env: Vec<String> = Vec::new();
    let mut aur: Vec<String> = Vec::new();
    preset
        .process(
            &mut packages,
            &mut scripts,
            &mut env,
            "/presets/one.toml",
            &mut aur,
            &vec![true],
        )
        .expect("process");
    assert_eq!(packages, vec!["git".to_string(), "htop".to_string()]);
    assert_eq!(env, vec!["HOME".to_string()]);
    assert_eq!(aur, vec!["paru-bin".to_string()]);
    assert_eq!(scripts.len(), 1);
    assert_eq!(scripts[0].script_text, "echo hi");
    assert_eq!(
        scripts[0].shared_dirs,
        Some(vec!["/presets/shared".to_string()])
    );

    // a missing shared directory is a hard error
    let mut scripts2: Vec<Script> = Vec::new();
    let r = preset.process(
        &mut packages,
        &mut scripts2,
        &mut env,
        "/presets/one.toml",
        &mut aur,
        &vec![false],
    );
    assert!(matches!(r, Err(AlmaError::SharedDirMissing { path }) if path == "/presets/shared"));
    assert!(scripts2.is_empty());
}

#[test]
fn environment_check() {
    assert!(check_environment(Vec::new()).is_ok());
    match check_environment(vec!["MY_VAR".to_string()]) {
        Err(AlmaError::MissingEnvironment { variables }) => {
            assert_eq!(variables, vec!["MY_VAR".to_string()]);
        }
        other => panic!("expected MissingEnvironment, got {other:?}"),
    }
}

#[test]
fn manifest_preset_paths() {
    let manifest = Manifest {
        alma_version: "0.1.0".to_string(),
        system_variant: SystemVariant::Arch,
        filesystem: RootFilesystemType::Ext4,
        encrypted_root: false,
        aur_helper: "paru".to_string(),
        original_command: "alma create".to_string(),
        sources: vec![
            Source {
                source_type: "preset".to_string(),
                origin: "https://example.com/a.zip".to_string(),
                baked_path: "/usr/share/alma/baked_sources/preset_0".to_string(),
            },
            Source {
                source_type: "system".to_string(),
                origin: "https://example.com/os.git".to_string(),
                baked_path: "/usr/share/omarchy".to_string(),
            },
            Source {
                source_type: "preset".to_string(),
                origin: "/local".to_string(),
                baked_path: "/usr/share/alma/baked_sources/preset_1".to_string(),
            },
        ],
    };
    assert_eq!(
        preset_baked_paths(&manifest),
        vec![
            "/usr/share/alma/baked_sources/preset_0".to_string(),
            "/usr/share/alma/baked_sources/preset_1".to_string()
        ]
    );
}

#[test]
fn tool_lookup() {
    assert!(Tool::find("sh", false).is_ok());
    match Tool::find("alma-test-no-such-tool-xyz", false) {
        Err(AlmaError::ToolMissing { name, .. }) => {
            assert_eq!(name, "alma-test-no-such-tool-xyz");
        }
        other => panic!("expected ToolMissing, got {other:?}"),
    }
    // locating the whole tool set either succeeds or names the missing
    // tool with the package that provides it
    match alma::tool::Tools::new(true, false, false) {
        Ok(tools) => assert!(tools.mkbtrfs.is_none() && tools.cryptsetup.is_none()),
        Err(AlmaError::ToolMissing { hint, .. }) => assert!(!hint.is_empty()),
        Err(other) => panic!("expected ToolMissing, got {other:?}"),
    }
}

#[test]
fn replace_all_rewrites_every_occurrence() {
    assert_eq!(text::replace_all("aXbXc", "X", "--"), "a--b--c");
    assert_eq!(text::replace_all("aaa", "aa", "b"), "ba");
    assert_eq!(text::replace_all("none here", "X", "Y"), "none here");
    assert_eq!(text::replace_all("ab", "abc", "Y"), "ab");
}

#[test]
fn os_prober_configuration_rewrite() {
    assert_eq!(
        create::enable_os_prober("GRUB_TIMEOUT=5\nGRUB_DISABLE_OS_PROBER=true\n"),
        "GRUB_TIMEOUT=5\nGRUB_DISABLE_OS_PROBER=false\n\nGRUB_CMDLINE_LINUX=\"\"\n"
    );
    assert_eq!(
        create::enable_os_prober("GRUB_CMDLINE_LINUX=\"quiet\"\n"),
        "GRUB_CMDLINE_LINUX=\"quiet\"\n"
    );
}

#[test]
fn omarchy_chroot_patching_fragments() {
    let cmd = create::omarchy_patch_command("alice");
    assert!(cmd.starts_with("find /home/alice/.local/share/omarchy"));
    assert!(cmd.contains("sed -i"));
    let script = create::ufw_wrapper_script();
    assert!(script.starts_with("#!/bin/bash\n"));
    assert!(script.ends_with("exit 0\n"));
    assert!(script.contains("systemctl enable ufw.service"));
}

#[test]
fn image_text_fragments() {
    assert_eq!(
        create::grub_cryptdevice_line("1234-abcd"),
        "GRUB_CMDLINE_LINUX=\"cryptdevice=UUID=1234-abcd:luks_root\""
    );
    assert_eq!(
        create::os_prober_wrapper_script("/dev/sda"),
        "#!/bin/sh\nexport OS_PROBER_DEVICES=\"/dev/sda\"\nexec /usr/bin/os-prober.real \"$@\"\n"
    );
    assert_eq!(
        create::grub_install_script("/dev/sda"),
        "grub-install --target=i386-pc --boot-directory /boot /dev/sda && \
         grub-install --target=x86_64-efi --efi-directory /boot --boot-directory /boot --removable /dev/sda && \
         grub-mkconfig -o /boot/grub/grub.cfg"
    );
    assert_eq!(
        create::baked_sources_dir("/mnt/target"),
        "/mnt/target/usr/share/alma/baked_sources"
    );
    assert_eq!(
        create::baked_preset_dest("/mnt/target/usr/share/alma/baked_sources", 2),
        "/mnt/target/usr/share/alma/baked_sources/preset_2"
    );
}
