//! The decisions of the create pipeline: option validation, boot
//! partition sizing, the partitioning and formatting command lines,
//! the package set, and the text fragments written into the image.
//!
//! The pipeline's prompts, subprocesses and file I/O live in the
//! surrounding application; it asks these functions what to do and
//! what to run.

use vstd::prelude::*;

use crate::args::RootFilesystemType;
use crate::args::SystemVariant;
use crate::aur::AurHelper;
use crate::constants;
use crate::error::AlmaError;
use crate::process::CommandLine;
use crate::text;
use crate::tool::Tool;

verus! {

/// Rejects the option combinations that cannot work: the Omarchy
/// variant needs interaction, and an encrypted root needs a passphrase
/// typed in — neither survives a fully non-interactive run.
pub fn validate_command(system: SystemVariant, encrypted_root: bool, noconfirm: bool) -> (r:
    Result<(), AlmaError>)
    ensures
        system == SystemVariant::Omarchy && noconfirm ==> (r matches Err(e) && e
            matches AlmaError::Unsupported { .. }),
        system != SystemVariant::Omarchy && encrypted_root && noconfirm ==> (r matches Err(e)
            && e matches AlmaError::EncryptionUnsupported),
        !noconfirm ==> r is Ok,
        r is Ok <==> !(noconfirm && (system == SystemVariant::Omarchy || encrypted_root)),
{
    if matches!(system, SystemVariant::Omarchy) && noconfirm {
        return Err(
            AlmaError::Unsupported {
                message:
                    "Non-interactive installation (--noconfirm) is not supported for Omarchy."
                        .to_owned(),
            },
        );
    }
    if encrypted_root && noconfirm {
        return Err(AlmaError::EncryptionUnsupported);
    }
    Ok(())
}

/// What to do about the root filesystem choice for a system variant.
#[derive(Debug, Clone, Copy, PartialEq, Eq, Structural)]
pub enum FilesystemAdjustment {
    /// Keep what the caller chose.
    Keep,
    /// Override the choice to btrfs, as the variant expects.
    ForceBtrfs,
    /// The caller insists on ext4 for a variant designed for btrfs:
    /// keep it only after an explicit confirmation.
    ConfirmExt4,
}

/// Decides the filesystem adjustment: Omarchy is designed for btrfs,
/// so an unstated choice is overridden and a stated ext4 choice needs
/// confirmation.
pub fn adjust_filesystem_for_system(
    system: SystemVariant,
    filesystem: RootFilesystemType,
    user_set_fs: bool,
) -> (r: FilesystemAdjustment)
    ensures
        system != SystemVariant::Omarchy ==> r == FilesystemAdjustment::Keep,
        system == SystemVariant::Omarchy && user_set_fs && filesystem
            == RootFilesystemType::Ext4 ==> r == FilesystemAdjustment::ConfirmExt4,
        system == SystemVariant::Omarchy && !(user_set_fs && filesystem
            == RootFilesystemType::Ext4) ==> r == FilesystemAdjustment::ForceBtrfs,
{
    if matches!(system, SystemVariant::Omarchy) {
        if user_set_fs && matches!(filesystem, RootFilesystemType::Ext4) {
            FilesystemAdjustment::ConfirmExt4
        } else {
            FilesystemAdjustment::ForceBtrfs
        }
    } else {
        FilesystemAdjustment::Keep
    }
}

/// The helper to default to when the caller named none: Omarchy
/// defaults to `yay`, everything else keeps the general default.
pub fn default_aur_helper_for(system: SystemVariant, user_set_aur_helper: bool) -> (r: Option<
    AurHelper,
>)
    ensures
        r == (if system == SystemVariant::Omarchy && !user_set_aur_helper {
            Some(AurHelper::Yay)
        } else {
            None::<AurHelper>
        }),
{
    if matches!(system, SystemVariant::Omarchy) && !user_set_aur_helper {
        Some(AurHelper::Yay)
    } else {
        None
    }
}

/// The default boot partition size for a variant, in MiB.
pub fn default_boot_size_mb(system: SystemVariant) -> (r: u32)
    ensures
        r == (if system == SystemVariant::Omarchy {
            constants::OMARCHY_DEFAULT_BOOT_MB as u32
        } else {
            constants::DEFAULT_BOOT_MB as u32
        }),
{
    if matches!(system, SystemVariant::Omarchy) {
        constants::OMARCHY_DEFAULT_BOOT_MB
    } else {
        constants::DEFAULT_BOOT_MB
    }
}

/// The boot partition size in MiB: the caller's size in bytes taken
/// down to whole MiB (truncated to the 32-bit range the partitioning
/// tool accepts), or the variant's default.
pub fn boot_size_mb(boot_size_bytes: Option<u128>, system: SystemVariant) -> (r: u32)
    ensures
        r as int == (match boot_size_bytes {
            Some(b) => (b as int / constants::spec_mib()) % 0x1_0000_0000,
            None => if system == SystemVariant::Omarchy {
                constants::OMARCHY_DEFAULT_BOOT_MB as int
            } else {
                constants::DEFAULT_BOOT_MB as int
            },
        }),
{
    match boot_size_bytes {
        Some(b) => {
            let mib: u128 = b / 1048576;
            let truncated: u128 = mib % 0x1_0000_0000;
            truncated as u32
        },
        None => default_boot_size_mb(system),
    }
}

/// Whether the chosen boot partition size is outside the recommended
/// range and so needs an explicit confirmation before proceeding.
pub fn boot_size_needs_confirmation(system: SystemVariant, size_mb: u32) -> (r: bool)
    ensures
        r == (if system == SystemVariant::Omarchy {
            size_mb < constants::OMARCHY_MIN_BOOT_MB
        } else {
            size_mb < constants::MIN_BOOT_MB || size_mb > constants::MAX_BOOT_MB
        }),
{
    if matches!(system, SystemVariant::Omarchy) {
        size_mb < constants::OMARCHY_MIN_BOOT_MB
    } else {
        size_mb < constants::MIN_BOOT_MB || size_mb > constants::MAX_BOOT_MB
    }
}

/// Whether an fstab line survives: comments and swap entries are
/// dropped.
pub open spec fn spec_keep_fstab_line(l: Seq<char>) -> bool {
    !text::spec_contains_sub(l, "swap"@) && !(l.len() > 0 && l[0] == '#')
}

/// The surviving lines, in order.
pub open spec fn spec_fstab_kept(ls: Seq<Seq<char>>) -> Seq<Seq<char>>
    decreases ls.len(),
{
    if ls.len() == 0 {
        Seq::<Seq<char>>::empty()
    } else {
        let rest = spec_fstab_kept(ls.drop_last());
        if spec_keep_fstab_line(ls.last()) {
            rest.push(ls.last())
        } else {
            rest
        }
    }
}

/// Lines joined back with single newlines (and nothing else).
pub open spec fn spec_join_lines(ls: Seq<Seq<char>>) -> Seq<char>
    decreases ls.len(),
{
    if ls.len() == 0 {
        Seq::<char>::empty()
    } else if ls.len() == 1 {
        ls[0]
    } else {
        spec_join_lines(ls.drop_last()) + seq!['\n'] + ls.last()
    }
}

/// The generated fstab with comments and swap entries removed.
pub open spec fn spec_fix_fstab(s: Seq<char>) -> Seq<char> {
    spec_join_lines(spec_fstab_kept(text::spec_lines(s)))
}

/// Strips the generated fstab of comment lines and swap entries.
pub fn fix_fstab(fstab: &str) -> (r: String)
    ensures
        r@ == spec_fix_fstab(fstab@),
{
    let ls = text::lines_of(fstab);
    let total = ls.len();
    let mut kept: Vec<String> = Vec::new();
    let mut i: usize = 0;
    proof {
        assert(ls.deep_view().take(0) =~= Seq::<Seq<char>>::empty());
        assert(kept.deep_view() =~= spec_fstab_kept(ls.deep_view().take(0)));
    }
    while i < total
        invariant
            total == ls.deep_view().len(),
            total == ls@.len(),
            0 <= i <= total,
            ls.deep_view() == text::spec_lines(fstab@),
            kept.deep_view() == spec_fstab_kept(ls.deep_view().take(i as int)),
        decreases total - i,
    {
        proof {
            let dv = ls.deep_view();
            assert(dv.take(i + 1).drop_last() =~= dv.take(i as int));
            assert(dv.take(i + 1).last() == dv[i as int]);
            assert(ls@[i as int]@ == dv[i as int]);
        }
        let line = &ls[i];
        let has_swap = text::contains_str(line.as_str(), "swap");
        let is_comment = if line.as_str().unicode_len() > 0 {
            line.as_str().get_char(0) == '#'
        } else {
            false
        };
        if !has_swap && !is_comment {
            let ghost kdv = kept.deep_view();
            kept.push(line.clone());
            proof {
                assert(kept.deep_view() =~~= kdv.push(ls.deep_view()[i as int]));
            }
        }
        i = i + 1;
    }
    proof {
        assert(ls.deep_view().take(total as int) =~= ls.deep_view());
    }
    let mut out = String::new();
    let kcount = kept.len();
    let mut j: usize = 0;
    proof {
        assert(kept.deep_view().take(0) =~= Seq::<Seq<char>>::empty());
    }
    while j < kcount
        invariant
            kcount == kept.deep_view().len(),
            kcount == kept@.len(),
            0 <= j <= kcount,
            out@ == spec_join_lines(kept.deep_view().take(j as int)),
        decreases kcount - j,
    {
        proof {
            let dv = kept.deep_view();
            assert(dv.take(j + 1).drop_last() =~= dv.take(j as int));
            assert(dv.take(j + 1).last() == dv[j as int]);
            assert(kept@[j as int]@ == dv[j as int]);
            reveal_strlit("\n");
            assert("\n"@ =~= seq!['\n']);
        }
        if j > 0 {
            out.append("\n");
        }
        out.append(kept[j].as_str());
        proof {
            let dv = kept.deep_view();
            if j == 0 {
                assert(out@ =~= spec_join_lines(dv.take(1)));
            } else {
                assert(out@ =~= spec_join_lines(dv.take(j + 1)));
            }
        }
        j = j + 1;
    }
    proof {
        assert(kept.deep_view().take(kcount as int) =~= kept.deep_view());
        assert(out@ == spec_fix_fstab(fstab@));
    }
    out
}

/// The partitioning invocation: wipe, then a boot partition of the
/// given size, a small BIOS-boot partition, and the rest as root.
pub fn repartition_command(sgdisk: &Tool, device_path: &str, boot_size_mb: u32) -> (c:
    CommandLine)
    ensures
        c.program == sgdisk.exec_path,
        c.args.deep_view() =~= seq![
            "-Z"@,
            "-o"@,
            "--new=1::+"@ + text::spec_udec(boot_size_mb as nat) + "M"@,
            "--new=2::+1M"@,
            "--largest-new=3"@,
            "--typecode=1:EF00"@,
            "--typecode=2:EF02"@,
            device_path@,
        ],
{
    let mut boot_arg = "--new=1::+".to_owned();
    let num = text::u64_dec(boot_size_mb as u64);
    boot_arg.append(num.as_str());
    boot_arg.append("M");
    let mut args: Vec<String> = Vec::new();
    args.push("-Z".to_owned());
    args.push("-o".to_owned());
    args.push(boot_arg);
    args.push("--new=2::+1M".to_owned());
    args.push("--largest-new=3".to_owned());
    args.push("--typecode=1:EF00".to_owned());
    args.push("--typecode=2:EF02".to_owned());
    args.push(device_path.to_owned());
    proof {
        assert(args.deep_view() =~~= seq![
            "-Z"@,
            "-o"@,
            "--new=1::+"@ + text::spec_udec(boot_size_mb as nat) + "M"@,
            "--new=2::+1M"@,
            "--largest-new=3"@,
            "--typecode=1:EF00"@,
            "--typecode=2:EF02"@,
            device_path@,
        ]);
    }
    sgdisk.command(args)
}

/// The command that formats a device as the labelled btrfs root.
pub fn mkbtrfs_command(mkbtrfs: &Tool, device_path: &str) -> (c: CommandLine)
    ensures
        c.program == mkbtrfs.exec_path,
        c.args.deep_view() =~= seq!["-f"@, "-L"@, "alma-root"@, device_path@],
{
    let mut args: Vec<String> = Vec::new();
    args.push("-f".to_owned());
    args.push("-L".to_owned());
    args.push("alma-root".to_owned());
    args.push(device_path.to_owned());
    proof {
        assert(args.deep_view() =~~= seq!["-f"@, "-L"@, "alma-root"@, device_path@]);
    }
    mkbtrfs.command(args)
}

/// The subvolumes of the canonical btrfs layout, in creation order.
pub open spec fn spec_btrfs_subvolumes() -> Seq<Seq<char>> {
    seq!["@"@, "@home"@, "@log"@, "@pkg"@]
}

/// The subvolumes of the canonical btrfs layout, in creation order.
pub fn btrfs_subvolumes() -> (r: Vec<String>)
    ensures
        r.deep_view() == spec_btrfs_subvolumes(),
{
    let mut v: Vec<String> = Vec::new();
    v.push("@".to_owned());
    v.push("@home".to_owned());
    v.push("@log".to_owned());
    v.push("@pkg".to_owned());
    proof {
        assert(v.deep_view() =~~= spec_btrfs_subvolumes());
    }
    v
}

/// The command that creates one btrfs subvolume.
pub fn btrfs_subvolume_create_command(btrfs: &Tool, vol_path: &str) -> (c: CommandLine)
    ensures
        c.program == btrfs.exec_path,
        c.args.deep_view() =~= seq!["subvolume"@, "create"@, vol_path@],
{
    let mut args: Vec<String> = Vec::new();
    args.push("subvolume".to_owned());
    args.push("create".to_owned());
    args.push(vol_path.to_owned());
    proof {
        assert(args.deep_view() =~~= seq!["subvolume"@, "create"@, vol_path@]);
    }
    btrfs.command(args)
}

/// Whether the string list holds `s`.
pub fn contains_string(v: &Vec<String>, s: &String) -> (r: bool)
    ensures
        r == v.deep_view().contains(s@),
{
    let total = v.len();
    let mut i: usize = 0;
    while i < total
        invariant
            total == v@.len(),
            0 <= i <= total,
            forall|k: int| 0 <= k < i ==> v.deep_view()[k] != s@,
        decreases total - i,
    {
        if v[i] == *s {
            proof {
                assert(v.deep_view()[i as int] == s@);
            }
            return true;
        }
        proof {
            assert(v.deep_view()[i as int] == v@[i as int]@);
        }
        i = i + 1;
    }
    proof {
        assert(!v.deep_view().contains(s@)) by {
            if v.deep_view().contains(s@) {
                let w = choose|w: int| 0 <= w < v.deep_view().len() && v.deep_view()[w] == s@;
            }
        }
    }
    false
}

/// Membership in a pushed sequence.
proof fn lemma_contains_push(s: Seq<Seq<char>>, x: Seq<char>, y: Seq<char>)
    ensures
        s.push(x).contains(y) <==> (s.contains(y) || y == x),
{
    if s.push(x).contains(y) {
        let w = choose|w: int| 0 <= w < s.push(x).len() && s.push(x)[w] == y;
        if w < s.len() {
            assert(s[w] == y);
        }
    }
    if s.contains(y) {
        let w = choose|w: int| 0 <= w < s.len() && s[w] == y;
        assert(s.push(x)[w] == y);
    }
    if y == x {
        assert(s.push(x)[s.len() as int] == y);
    }
}

/// Appends to `v` every entry of `items` it does not already hold,
/// in order; what `v` holds afterwards is exactly the union, and no
/// duplicates are introduced.
pub fn extend_unique(v: &mut Vec<String>, items: &Vec<String>)
    ensures
        old(v).deep_view().no_duplicates() ==> final(v).deep_view().no_duplicates(),
        forall|x: Seq<char>|
            #[trigger] final(v).deep_view().contains(x) <==> (old(v).deep_view().contains(x)
                || items.deep_view().contains(x)),
{
    let total = items.len();
    let mut i: usize = 0;
    proof {
        assert(forall|x: Seq<char>|
            #[trigger] items.deep_view().take(0).contains(x) == false) by {
            assert(items.deep_view().take(0) =~= Seq::<Seq<char>>::empty());
        }
    }
    while i < total
        invariant
            total == items@.len(),
            total == items.deep_view().len(),
            0 <= i <= total,
            old(v).deep_view().no_duplicates() ==> v.deep_view().no_duplicates(),
            forall|x: Seq<char>|
                #[trigger] v.deep_view().contains(x) <==> (old(v).deep_view().contains(x)
                    || items.deep_view().take(i as int).contains(x)),
        decreases total - i,
    {
        let ghost pre = v.deep_view();
        let item = &items[i];
        proof {
            assert(items.deep_view()[i as int] == items@[i as int]@);
        }
        if !contains_string(v, item) {
            v.push(item.clone());
            proof {
                assert(v.deep_view() =~~= pre.push(items.deep_view()[i as int]));
                if old(v).deep_view().no_duplicates() {
                    assert(v.deep_view().no_duplicates()) by {
                        let dv = v.deep_view();
                        assert forall|a: int, b: int|
                            0 <= a < b < dv.len() implies dv[a] != dv[b] by {
                            if b < pre.len() {
                                assert(pre[a] != pre[b]);
                            } else {
                                assert(dv[b] == items.deep_view()[i as int]);
                                if dv[a] == dv[b] {
                                    assert(pre.contains(items.deep_view()[i as int]));
                                }
                            }
                        }
                    }
                }
            }
        }
        proof {
            let cur = items.deep_view().take(i + 1);
            assert(cur.drop_last() =~= items.deep_view().take(i as int));
            assert(cur =~= items.deep_view().take(i as int).push(items.deep_view()[i as int]));
            assert forall|x: Seq<char>|
                #[trigger] v.deep_view().contains(x) <==> (old(v).deep_view().contains(x)
                    || cur.contains(x)) by {
                lemma_contains_push(
                    items.deep_view().take(i as int),
                    items.deep_view()[i as int],
                    x,
                );
                if !pre.contains(items.deep_view()[i as int]) {
                    lemma_contains_push(pre, items.deep_view()[i as int], x);
                } else {
                }
            }
        }
        i = i + 1;
    }
    proof {
        assert(items.deep_view().take(total as int) =~= items.deep_view());
    }
}

/// Assembles the package set for a run, without duplicates: the base
/// packages, the interactive selections, the variant's extras, the
/// btrfs tools when the root is btrfs, the presets' packages, and what
/// the user-repository install step needs.
pub fn collect_packages(
    system: SystemVariant,
    filesystem: RootFilesystemType,
    graphics_packages: &Vec<String>,
    font_packages: &Vec<String>,
    preset_packages: &Vec<String>,
) -> (r: Vec<String>)
    ensures
        r.deep_view().no_duplicates(),
        forall|x: Seq<char>|
            #[trigger] r.deep_view().contains(x) <==> {
                ||| constants::spec_base_packages().contains(x)
                ||| graphics_packages.deep_view().contains(x)
                ||| font_packages.deep_view().contains(x)
                ||| (system == SystemVariant::Omarchy && constants::spec_omarchy_packages()
                    .contains(x))
                ||| (filesystem == RootFilesystemType::Btrfs && x == "btrfs-progs"@)
                ||| preset_packages.deep_view().contains(x)
                ||| constants::spec_aur_dependencies().contains(x)
            },
{
    let mut v: Vec<String> = Vec::new();
    proof {
        assert(v.deep_view() =~= Seq::<Seq<char>>::empty());
        assert(v.deep_view().no_duplicates());
    }
    let base = constants::base_packages();
    extend_unique(&mut v, &base);
    extend_unique(&mut v, graphics_packages);
    extend_unique(&mut v, font_packages);
    if matches!(system, SystemVariant::Omarchy) {
        let extras = constants::omarchy_packages();
        extend_unique(&mut v, &extras);
    }
    if matches!(filesystem, RootFilesystemType::Btrfs) {
        let mut btrfs_tools: Vec<String> = Vec::new();
        btrfs_tools.push("btrfs-progs".to_owned());
        proof {
            assert(btrfs_tools.deep_view() =~~= seq!["btrfs-progs"@]);
            assert(forall|x: Seq<char>|
                #[trigger] btrfs_tools.deep_view().contains(x) <==> x == "btrfs-progs"@) by {
                assert(btrfs_tools.deep_view()[0] == "btrfs-progs"@);
            }
        }
        extend_unique(&mut v, &btrfs_tools);
    }
    extend_unique(&mut v, preset_packages);
    let aur_deps = constants::aur_dependencies();
    extend_unique(&mut v, &aur_deps);
    v
}

/// The packages handed to the user-repository helper: the signed shim
/// first, then the presets' and the caller's requests, in order.
pub fn aur_package_list(preset_aur: &Vec<String>, extra_aur: &Vec<String>) -> (r: Vec<String>)
    ensures
        r.deep_view() =~= seq!["shim-signed"@] + preset_aur.deep_view() + extra_aur.deep_view(),
{
    let mut v: Vec<String> = Vec::new();
    v.push("shim-signed".to_owned());
    let total = preset_aur.len();
    let mut i: usize = 0;
    while i < total
        invariant
            total == preset_aur@.len(),
            0 <= i <= total,
            v.deep_view() == seq!["shim-signed"@] + preset_aur.deep_view().take(i as int),
        decreases total - i,
    {
        let ghost pre = v.deep_view();
        v.push(preset_aur[i].clone());
        proof {
            assert(v.deep_view() =~~= pre.push(preset_aur.deep_view()[i as int]));
            assert(v.deep_view() =~~= seq!["shim-signed"@] + preset_aur.deep_view().take(i + 1));
        }
        i = i + 1;
    }
    proof {
        assert(preset_aur.deep_view().take(total as int) =~= preset_aur.deep_view());
    }
    let total2 = extra_aur.len();
    let mut j: usize = 0;
    while j < total2
        invariant
            total2 == extra_aur@.len(),
            0 <= j <= total2,
            v.deep_view() == seq!["shim-signed"@] + preset_aur.deep_view()
                + extra_aur.deep_view().take(j as int),
        decreases total2 - j,
    {
        let ghost pre = v.deep_view();
        v.push(extra_aur[j].clone());
        proof {
            assert(v.deep_view() =~~= pre.push(extra_aur.deep_view()[j as int]));
            assert(v.deep_view() =~~= seq!["shim-signed"@] + preset_aur.deep_view()
                + extra_aur.deep_view().take(j + 1));
        }
        j = j + 1;
    }
    proof {
        assert(extra_aur.deep_view().take(total2 as int) =~= extra_aur.deep_view());
    }
    v
}

/// The clone URL of a user-repository package.
pub fn aur_clone_url(package_name: &str) -> (r: String)
    ensures
        r@ == "https://aur.archlinux.org/"@ + package_name@ + ".git"@,
{
    let mut url = "https://aur.archlinux.org/".to_owned();
    url.append(package_name);
    url.append(".git");
    url
}

/// The kernel command line that unlocks the encrypted root at boot.
pub fn grub_cryptdevice_line(uuid_trimmed: &str) -> (r: String)
    ensures
        r@ == "GRUB_CMDLINE_LINUX=\"cryptdevice=UUID="@ + uuid_trimmed@ + ":luks_root\""@,
{
    let mut line = "GRUB_CMDLINE_LINUX=\"cryptdevice=UUID=".to_owned();
    line.append(uuid_trimmed);
    line.append(":luks_root\"");
    line
}

/// The wrapper script that limits the other-system probe to the target
/// disk while the bootloader configuration is generated.
pub fn os_prober_wrapper_script(disk_path: &str) -> (r: String)
    ensures
        r@ == "#!/bin/sh\nexport OS_PROBER_DEVICES=\""@ + disk_path@
            + "\"\nexec /usr/bin/os-prober.real \"$@\"\n"@,
{
    let mut script = "#!/bin/sh\nexport OS_PROBER_DEVICES=\"".to_owned();
    script.append(disk_path);
    script.append("\"\nexec /usr/bin/os-prober.real \"$@\"\n");
    script
}

/// The shell payload that installs the bootloader for both firmware
/// kinds and generates its configuration.
pub fn grub_install_script(disk_path: &str) -> (r: String)
    ensures
        r@ == "grub-install --target=i386-pc --boot-directory /boot "@ + disk_path@
            + " && grub-install --target=x86_64-efi --efi-directory /boot --boot-directory /boot --removable "@
            + disk_path@ + " && grub-mkconfig -o /boot/grub/grub.cfg"@,
{
    let mut script = "grub-install --target=i386-pc --boot-directory /boot ".to_owned();
    script.append(disk_path);
    script.append(
        " && grub-install --target=x86_64-efi --efi-directory /boot --boot-directory /boot --removable ",
    );
    script.append(disk_path);
    script.append(" && grub-mkconfig -o /boot/grub/grub.cfg");
    script
}

/// A bootloader configuration with the other-system probe switched on:
/// the disabling line, wherever it occurs, is flipped to `false`, and a
/// kernel command line entry is appended when none is present.
pub open spec fn spec_enable_os_prober(conf: Seq<char>) -> Seq<char> {
    let flipped = text::spec_replace_all(
        conf,
        "GRUB_DISABLE_OS_PROBER=true"@,
        "GRUB_DISABLE_OS_PROBER=false"@,
    );
    if text::spec_contains_sub(flipped, "GRUB_CMDLINE_LINUX"@) {
        flipped
    } else {
        flipped + "\nGRUB_CMDLINE_LINUX=\"\"\n"@
    }
}

/// Rewrites the bootloader configuration to enable the other-system
/// probe.
pub fn enable_os_prober(conf: &str) -> (r: String)
    ensures
        r@ == spec_enable_os_prober(conf@),
{
    proof {
        reveal_strlit("GRUB_DISABLE_OS_PROBER=true");
    }
    let mut flipped = text::replace_all(
        conf,
        "GRUB_DISABLE_OS_PROBER=true",
        "GRUB_DISABLE_OS_PROBER=false",
    );
    if !text::contains_str(flipped.as_str(), "GRUB_CMDLINE_LINUX") {
        flipped.append("\nGRUB_CMDLINE_LINUX=\"\"\n");
    }
    flipped
}

/// The shell payload that rewrites the Omarchy install scripts so they
/// can run inside a chroot: services are enabled without being started,
/// and reboots and firewall reloads are commented out.
pub fn omarchy_patch_command(username: &str) -> (r: String)
    ensures
        r@ == "find /home/"@ + username@
            + "/.local/share/omarchy -type f -name '*.sh' -print0 | xargs -0 sed -i -e 's/enable --now/enable/g' -e 's/sudo ufw enable/sudo systemctl enable ufw.service/g' -e 's/^reboot/# reboot (disabled in chroot)/g' -e 's/sudo ufw reload/# sudo ufw reload (disabled in chroot)/g'"@,
{
    let mut cmd = "find /home/".to_owned();
    cmd.append(username);
    cmd.append(
        "/.local/share/omarchy -type f -name '*.sh' -print0 | xargs -0 sed -i -e 's/enable --now/enable/g' -e 's/sudo ufw enable/sudo systemctl enable ufw.service/g' -e 's/^reboot/# reboot (disabled in chroot)/g' -e 's/sudo ufw reload/# sudo ufw reload (disabled in chroot)/g'",
    );
    cmd
}

/// The wrapper that makes the firewall tool chroot-safe: enabling turns
/// into a service enablement, everything else is suppressed.
pub fn ufw_wrapper_script() -> (r: &'static str)
    ensures
        r@
            == "#!/bin/bash\necho \"[alma wrapper] Intercepted ufw command: ufw $@\" >&2\nif [[ \"$1\" == \"enable\" ]]; then\n  echo \"[alma wrapper] Executing 'systemctl enable ufw.service' instead.\" >&2\n  systemctl enable ufw.service\nelse\n  echo \"[alma wrapper] Suppressing stateful ufw command in chroot.\" >&2\nfi\nexit 0\n"@,
{
    "#!/bin/bash\necho \"[alma wrapper] Intercepted ufw command: ufw $@\" >&2\nif [[ \"$1\" == \"enable\" ]]; then\n  echo \"[alma wrapper] Executing 'systemctl enable ufw.service' instead.\" >&2\n  systemctl enable ufw.service\nelse\n  echo \"[alma wrapper] Suppressing stateful ufw command in chroot.\" >&2\nfi\nexit 0\n"
}

/// Where acquired sources are baked inside the image.
pub fn baked_sources_dir(mount_path: &str) -> (r: String)
    ensures
        r@ == text::spec_join_path(mount_path@, "usr/share/alma/baked_sources"@),
{
    text::join_path(mount_path, "usr/share/alma/baked_sources")
}

/// Where the `i`-th preset is baked inside the image.
pub fn baked_preset_dest(baked_dir: &str, i: usize) -> (r: String)
    ensures
        r@ == text::spec_join_path(baked_dir@, "preset_"@ + text::spec_udec(i as nat)),
{
    let mut name = "preset_".to_owned();
    let num = text::usize_dec(i);
    name.append(num.as_str());
    let r = text::join_path(baked_dir, name.as_str());
    proof {
        assert(r@ =~= text::spec_join_path(baked_dir@, "preset_"@ + text::spec_udec(i as nat)));
    }
    r
}

} // verus!
