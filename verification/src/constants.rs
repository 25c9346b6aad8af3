//! Fixed values of the provisioning pipeline: partition indexes, boot
//! partition size limits, package sets and configuration payloads.

use vstd::prelude::*;

verus! {

/// The boot partition's index in the generated layout.
pub const BOOT_PARTITION_INDEX: u8 = 1;

/// The root partition's index in the generated layout.
pub const ROOT_PARTITION_INDEX: u8 = 3;

/// Smallest recommended boot partition, in MiB.
pub const MIN_BOOT_MB: u32 = 200;

/// Default boot partition size, in MiB.
pub const DEFAULT_BOOT_MB: u32 = 300;

/// Largest recommended boot partition, in MiB.
pub const MAX_BOOT_MB: u32 = 2048;

/// Default boot partition size for the Omarchy variant, in MiB.
pub const OMARCHY_DEFAULT_BOOT_MB: u32 = 512;

/// Smallest recommended boot partition for the Omarchy variant, in MiB.
pub const OMARCHY_MIN_BOOT_MB: u32 = 512;

/// Smallest recommended total size for the Omarchy variant, in GiB.
pub const OMARCHY_MIN_TOTAL_GIB: u64 = 15;

/// How many bytes a mebibyte holds.
pub open spec fn spec_mib() -> int {
    1048576
}

/// The journald configuration written into the image.
pub fn journald_conf() -> (r: &'static str)
    ensures
        r@ == "\n[Journal]\nStorage=volatile\nSystemMaxUse=16M\n"@,
{
    "\n[Journal]\nStorage=volatile\nSystemMaxUse=16M\n"
}

/// The default upstream repository for the Omarchy variant.
pub fn omarchy_default_repo() -> (r: &'static str)
    ensures
        r@ == "https://github.com/basecamp/omarchy.git"@,
{
    "https://github.com/basecamp/omarchy.git"
}

/// The default branch for the Omarchy repository.
pub fn omarchy_default_branch() -> (r: &'static str)
    ensures
        r@ == "master"@,
{
    "master"
}

/// The packages every installation starts from.
pub open spec fn spec_base_packages() -> Seq<Seq<char>> {
    seq![
        "base"@,
        "linux"@,
        "linux-firmware"@,
        "grub"@,
        "efibootmgr"@,
        "intel-ucode"@,
        "amd-ucode"@,
        "networkmanager"@,
        "broadcom-wl"@,
        "rsync"@,
        "os-prober"@,
        "git"@,
        "base-devel"@,
    ]
}

/// The packages every installation starts from.
pub fn base_packages() -> (r: Vec<String>)
    ensures
        r.deep_view() == spec_base_packages(),
{
    let mut v: Vec<String> = Vec::new();
    v.push("base".to_owned());
    v.push("linux".to_owned());
    v.push("linux-firmware".to_owned());
    v.push("grub".to_owned());
    v.push("efibootmgr".to_owned());
    v.push("intel-ucode".to_owned());
    v.push("amd-ucode".to_owned());
    v.push("networkmanager".to_owned());
    v.push("broadcom-wl".to_owned());
    v.push("rsync".to_owned());
    v.push("os-prober".to_owned());
    v.push("git".to_owned());
    v.push("base-devel".to_owned());
    proof {
        assert(v.deep_view() =~~= spec_base_packages());
    }
    v
}

/// What installing packages from the user repository needs.
pub open spec fn spec_aur_dependencies() -> Seq<Seq<char>> {
    seq!["sudo"@]
}

/// What installing packages from the user repository needs.
pub fn aur_dependencies() -> (r: Vec<String>)
    ensures
        r.deep_view() == spec_aur_dependencies(),
{
    let mut v: Vec<String> = Vec::new();
    v.push("sudo".to_owned());
    proof {
        assert(v.deep_view() =~~= spec_aur_dependencies());
    }
    v
}

/// The extra packages the Omarchy variant needs (audio, bluetooth and
/// firewall plumbing).
pub open spec fn spec_omarchy_packages() -> Seq<Seq<char>> {
    seq![
        "wget"@,
        "gum"@,
        "pipewire"@,
        "pipewire-alsa"@,
        "pipewire-jack"@,
        "pipewire-pulse"@,
        "gst-plugin-pipewire"@,
        "libpulse"@,
        "wireplumber"@,
        "bluez"@,
        "bluez-utils"@,
        "python"@,
        "python-gobject"@,
        "ufw"@,
    ]
}

/// The extra packages the Omarchy variant needs.
pub fn omarchy_packages() -> (r: Vec<String>)
    ensures
        r.deep_view() == spec_omarchy_packages(),
{
    let mut v: Vec<String> = Vec::new();
    v.push("wget".to_owned());
    v.push("gum".to_owned());
    v.push("pipewire".to_owned());
    v.push("pipewire-alsa".to_owned());
    v.push("pipewire-jack".to_owned());
    v.push("pipewire-pulse".to_owned());
    v.push("gst-plugin-pipewire".to_owned());
    v.push("libpulse".to_owned());
    v.push("wireplumber".to_owned());
    v.push("bluez".to_owned());
    v.push("bluez-utils".to_owned());
    v.push("python".to_owned());
    v.push("python-gobject".to_owned());
    v.push("ufw".to_owned());
    proof {
        assert(v.deep_view() =~~= spec_omarchy_packages());
    }
    v
}

} // verus!
