//! The plain data behind the command-line surface: system variants,
//! filesystem choices, the per-command option records, the manifest a
//! finished image carries, and size parsing.
//!
//! The interactive argument parser itself lives in the surrounding
//! application; these are the values it produces and the library
//! computes with.

use vstd::prelude::*;

use crate::error::AlmaError;
use crate::text;

verus! {

/// The Linux system variant to install.
#[derive(Debug, Clone, Copy, PartialEq, Eq, Structural)]
pub enum SystemVariant {
    Arch,
    Omarchy,
}

impl SystemVariant {
    /// The variant's lowercase name.
    pub open spec fn spec_name(self) -> Seq<char> {
        match self {
            SystemVariant::Arch => "arch"@,
            SystemVariant::Omarchy => "omarchy"@,
        }
    }

    /// The variant's lowercase name.
    pub fn name(&self) -> (r: &'static str)
        ensures
            r@ == self.spec_name(),
    {
        match self {
            SystemVariant::Arch => "arch",
            SystemVariant::Omarchy => "omarchy",
        }
    }
}

impl Default for SystemVariant {
    /// The default variant.
    fn default() -> (r: SystemVariant)
        ensures
            r == SystemVariant::Arch,
    {
        SystemVariant::Arch
    }
}

/// The filesystem for the root partition.
#[derive(Debug, Clone, Copy, PartialEq, Eq, Structural)]
pub enum RootFilesystemType {
    Ext4,
    Btrfs,
}

impl RootFilesystemType {
    /// The type's lowercase name.
    pub open spec fn spec_name(self) -> Seq<char> {
        match self {
            RootFilesystemType::Ext4 => "ext4"@,
            RootFilesystemType::Btrfs => "btrfs"@,
        }
    }

    /// The type's lowercase name.
    pub fn name(&self) -> (r: &'static str)
        ensures
            r@ == self.spec_name(),
    {
        match self {
            RootFilesystemType::Ext4 => "ext4",
            RootFilesystemType::Btrfs => "btrfs",
        }
    }
}

impl Default for RootFilesystemType {
    /// The default root filesystem.
    fn default() -> (r: RootFilesystemType)
        ensures
            r == RootFilesystemType::Ext4,
    {
        RootFilesystemType::Ext4
    }
}

/// Options of the install-to-another-disk command.
#[derive(Debug, Clone)]
pub struct InstallCommand {
    pub target_device: Option<String>,
    pub root_partition: Option<String>,
    pub boot_partition: Option<String>,
    pub allow_non_removable: bool,
    pub noconfirm: bool,
}

/// Options of the enter-an-existing-system command.
#[derive(Debug, Clone)]
pub struct ChrootCommand {
    pub block_device: String,
    pub allow_non_removable: bool,
    pub command: Vec<String>,
}

/// Options of the boot-under-an-emulator command.
#[derive(Debug, Clone)]
pub struct QemuCommand {
    pub block_device: String,
    pub args: Vec<String>,
}

/// One acquired source baked into the image, as the manifest records
/// it.
#[derive(Debug, Clone)]
pub struct Source {
    /// `preset` or `system`.
    pub source_type: String,
    /// The URL or original local path it came from.
    pub origin: String,
    /// Where it was baked inside the image.
    pub baked_path: String,
}

/// The manifest describing an installed system, written into the image
/// and read back by the install command.
#[derive(Debug, Clone)]
pub struct Manifest {
    pub alma_version: String,
    pub system_variant: SystemVariant,
    pub filesystem: RootFilesystemType,
    pub encrypted_root: bool,
    pub aur_helper: String,
    pub original_command: String,
    pub sources: Vec<Source>,
}

/// How many bytes a mebibyte holds.
pub const MIB: u128 = 1048576;

/// What a size string with an explicit unit denotes in bytes; sizes are
/// parsed case-insensitively by the size library, and this names its
/// answer.
pub uninterp spec fn spec_parse_size(s: Seq<char>) -> Option<u128>;

/// Relies on `byte_unit::Byte::parse_str` (case-insensitive) and
/// `Byte::as_u128`: parses a size string with a unit into its byte
/// count; the answer depends on the characters alone.
#[verifier::external_body]
fn parse_size_with_unit(s: &str) -> (r: Option<u128>)
    ensures
        r == spec_parse_size(s@),
{
    byte_unit::Byte::parse_str(s, true).ok().map(|b| b.as_u128())
}

/// The digit part a size string is read as when it carries no unit: the
/// whole string, with one leading plus sign stripped.
pub open spec fn spec_size_digits(s: Seq<char>) -> Seq<char> {
    if s.len() > 0 && s[0] == '+' {
        s.drop_first()
    } else {
        s
    }
}

/// Parses a size argument into bytes.  A bare number is treated as a
/// count of mebibytes; anything else is read as a size with a unit.  A
/// value too large to count in bytes, or an unreadable string, is
/// rejected.
pub fn parse_bytes(src: &str) -> (r: Result<u128, AlmaError>)
    ensures
        ({
            let digits = spec_size_digits(src@);
            if text::spec_all_digits(digits) && digits.len() > 0 && text::spec_digits_value(
                digits,
            ) <= u128::MAX as int {
                if text::spec_digits_value(digits) * MIB as int <= u128::MAX as int {
                    r == Result::<u128, AlmaError>::Ok(
                        (text::spec_digits_value(digits) * MIB as int) as u128,
                    )
                } else {
                    r matches Err(e) && e matches AlmaError::InvalidSize { .. }
                }
            } else {
                match spec_parse_size(src@) {
                    Some(v) => r == Result::<u128, AlmaError>::Ok(v),
                    None => r matches Err(e) && e matches AlmaError::InvalidSize { .. },
                }
            }
        }),
{
    let n = src.unicode_len();
    let digits: &str = if n > 0 && src.get_char(0) == '+' {
        let rest = src.substring_char(1, n);
        proof {
            assert(rest@ =~= src@.drop_first());
        }
        rest
    } else {
        src
    };
    match text::parse_u128_decimal(digits) {
        Some(val) => {
            let limit = u128::MAX / MIB;
            proof {
                vstd::arithmetic::div_mod::lemma_fundamental_div_mod(u128::MAX as int, MIB as int);
            }
            if val > limit {
                proof {
                    vstd::arithmetic::mul::lemma_mul_inequality(
                        limit as int + 1,
                        val as int,
                        MIB as int,
                    );
                }
                return Err(AlmaError::InvalidSize { input: src.to_owned() });
            }
            proof {
                vstd::arithmetic::mul::lemma_mul_inequality(val as int, limit as int, MIB as int);
            }
            Ok(val * MIB)
        },
        None => {
            match parse_size_with_unit(src) {
                Some(v) => Ok(v),
                None => Err(AlmaError::InvalidSize { input: src.to_owned() }),
            }
        },
    }
}

} // verus!
