//! Decisions for entering an existing system: reading the partition
//! listing tool's output, and classifying the partitions found into a
//! boot/root layout.
//!
//! The subprocesses (the listing tool, the filesystem prober) and the
//! chroot itself are the application's work.

use vstd::prelude::*;

use crate::error::AlmaError;
use crate::storage::filesystem::FilesystemType;
use crate::text;

verus! {

/// The partition paths in a listing: all lines after the header, each
/// trimmed, empty ones dropped.
pub open spec fn spec_partition_lines(ls: Seq<Seq<char>>) -> Seq<Seq<char>>
    decreases ls.len(),
{
    if ls.len() == 0 {
        Seq::<Seq<char>>::empty()
    } else {
        let rest = spec_partition_lines(ls.drop_last());
        if text::spec_trim(ls.last()).len() > 0 {
            rest.push(text::spec_trim(ls.last()))
        } else {
            rest
        }
    }
}

/// The partition paths a listing tool's output names.
pub open spec fn spec_partition_list(output: Seq<char>) -> Seq<Seq<char>> {
    let ls = text::spec_lines(output);
    if ls.len() == 0 {
        Seq::<Seq<char>>::empty()
    } else {
        spec_partition_lines(ls.drop_first())
    }
}

/// Extracts the partition paths from a listing tool's output: the
/// header line is skipped, the rest are trimmed, blank lines dropped.
pub fn parse_partition_list(output: &str) -> (r: Vec<String>)
    ensures
        r.deep_view() == spec_partition_list(output@),
{
    let ls = text::lines_of(output);
    let total = ls.len();
    let mut out: Vec<String> = Vec::new();
    if total == 0 {
        proof {
            assert(out.deep_view() =~= spec_partition_list(output@));
        }
        return out;
    }
    let mut i: usize = 1;
    proof {
        let body = ls.deep_view().drop_first();
        assert(body.take(0) =~= Seq::<Seq<char>>::empty());
        assert(out.deep_view() =~= spec_partition_lines(body.take(0)));
    }
    while i < total
        invariant
            total == ls.deep_view().len(),
            total == ls@.len(),
            total >= 1,
            1 <= i <= total,
            ls.deep_view() == text::spec_lines(output@),
            out.deep_view() == spec_partition_lines(ls.deep_view().drop_first().take(i - 1)),
        decreases total - i,
    {
        proof {
            let body = ls.deep_view().drop_first();
            assert(body.take(i as int).drop_last() =~= body.take(i - 1));
            assert(body.take(i as int).last() == body[i - 1]);
            assert(body[i - 1] == ls.deep_view()[i as int]);
            assert(ls@[i as int]@ == ls.deep_view()[i as int]);
        }
        let trimmed = text::trim_str(ls[i].as_str());
        if trimmed.as_str().unicode_len() > 0 {
            let ghost odv = out.deep_view();
            out.push(trimmed);
            proof {
                assert(out.deep_view() =~~= odv.push(
                    text::spec_trim(ls.deep_view()[i as int]),
                ));
            }
        }
        i = i + 1;
    }
    proof {
        let body = ls.deep_view().drop_first();
        assert(body.take(total - 1) =~= body);
    }
    out
}

/// What probing one partition reported: its path, whether its header
/// carries the encryption magic, and the filesystem type the prober
/// printed (trimmed; empty when unknown).
#[derive(Debug, Clone)]
pub struct PartitionScan {
    pub path: String,
    pub encrypted: bool,
    pub fs_type: String,
}

/// The boot/root layout detected on a device.
#[derive(Debug, Clone)]
pub struct DetectedLayout {
    /// The boot partition's path, when one was found.
    pub boot_path: Option<String>,
    /// The root partition's path.
    pub root_path: String,
    /// The root filesystem's type; not yet known when the root is
    /// encrypted.
    pub root_fs: Option<FilesystemType>,
}

/// One classification step: how one probed partition updates the
/// (boot, root) candidates; ambiguity — a second candidate for a slot —
/// yields nothing.
pub open spec fn spec_classify_step(
    state: (Option<Seq<char>>, Option<(Seq<char>, Option<FilesystemType>)>),
    e: PartitionScan,
) -> Option<(Option<Seq<char>>, Option<(Seq<char>, Option<FilesystemType>)>)> {
    let (boot, root) = state;
    if e.encrypted {
        if root is Some {
            None
        } else {
            Some((boot, Some((e.path@, None))))
        }
    } else if e.fs_type@ == "vfat"@ {
        if boot is Some {
            None
        } else {
            Some((Some(e.path@), root))
        }
    } else if e.fs_type@ == "ext4"@ {
        if root is Some {
            None
        } else {
            Some((boot, Some((e.path@, Some(FilesystemType::Ext4)))))
        }
    } else if e.fs_type@ == "btrfs"@ {
        if root is Some {
            None
        } else {
            Some((boot, Some((e.path@, Some(FilesystemType::Btrfs)))))
        }
    } else {
        Some((boot, root))
    }
}

/// The classification of a partition list, processed in order; `None`
/// is an ambiguous layout.
pub open spec fn spec_classify(entries: Seq<PartitionScan>) -> Option<
    (Option<Seq<char>>, Option<(Seq<char>, Option<FilesystemType>)>),
>
    decreases entries.len(),
{
    if entries.len() == 0 {
        Some((None, None))
    } else {
        match spec_classify(entries.drop_last()) {
            None => None,
            Some(state) => spec_classify_step(state, entries.last()),
        }
    }
}

/// An ambiguity found in a prefix never goes away.
proof fn lemma_classify_none_persists(s: Seq<PartitionScan>, j: int)
    requires
        0 <= j <= s.len(),
        spec_classify(s.take(j)) is None,
    ensures
        spec_classify(s) is None,
    decreases s.len() - j,
{
    if j == s.len() {
        assert(s.take(j) =~= s);
    } else {
        assert(s.take(j + 1).drop_last() =~= s.take(j));
        lemma_classify_none_persists(s, j + 1);
    }
}

/// Classifies the probed partitions of a device into a boot/root
/// layout: an encrypted partition or one carrying ext4 or btrfs is the
/// root, a vfat one is the boot, anything else is ignored; a second
/// candidate for either slot, or no root at all, is an error.
pub fn classify_partitions(entries: &Vec<PartitionScan>) -> (r: Result<
    DetectedLayout,
    AlmaError,
>)
    ensures
        match spec_classify(entries@) {
            None => r matches Err(e) && e matches AlmaError::Unsupported { .. },
            Some(state) => {
                let (boot, root) = state;
                match root {
                    None => r matches Err(e) && e matches AlmaError::Unsupported { .. },
                    Some(root_info) => r matches Ok(layout) && {
                        let (rp, ft) = root_info;
                        &&& (match layout.boot_path {
                            Some(b) => boot == Some(b@),
                            None => boot is None,
                        })
                        &&& layout.root_path@ == rp
                        &&& layout.root_fs == ft
                    },
                }
            },
        },
{
    let mut boot: Option<String> = None;
    let mut root: Option<(String, Option<FilesystemType>)> = None;
    let total = entries.len();
    let mut i: usize = 0;
    proof {
        assert(entries@.take(0) =~= Seq::<PartitionScan>::empty());
    }
    while i < total
        invariant
            total == entries@.len(),
            0 <= i <= total,
            spec_classify(entries@.take(i as int)) == Some(
                (
                    match boot {
                        Some(b) => Some(b@),
                        None => None::<Seq<char>>,
                    },
                    match root {
                        Some(rp) => Some((rp.0@, rp.1)),
                        None => None::<(Seq<char>, Option<FilesystemType>)>,
                    },
                ),
            ),
        decreases total - i,
    {
        proof {
            assert(entries@.take(i + 1).drop_last() =~= entries@.take(i as int));
            assert(entries@.take(i + 1).last() == entries@[i as int]);
        }
        let e = &entries[i];
        if e.encrypted {
            if root.is_some() {
                proof {
                    assert(spec_classify(entries@.take(i + 1)) is None);
                    lemma_classify_none_persists(entries@, i + 1);
                }
                return Err(
                    AlmaError::Unsupported {
                        message: "Found multiple potential root partitions. Ambiguous layout."
                            .to_owned(),
                    },
                );
            }
            root = Some((e.path.clone(), None));
        } else if text::eq_str(e.fs_type.as_str(), "vfat") {
            if boot.is_some() {
                proof {
                    assert(spec_classify(entries@.take(i + 1)) is None);
                    lemma_classify_none_persists(entries@, i + 1);
                }
                return Err(
                    AlmaError::Unsupported {
                        message: "Found multiple potential boot partitions. Ambiguous layout."
                            .to_owned(),
                    },
                );
            }
            boot = Some(e.path.clone());
        } else if text::eq_str(e.fs_type.as_str(), "ext4") {
            if root.is_some() {
                proof {
                    assert(spec_classify(entries@.take(i + 1)) is None);
                    lemma_classify_none_persists(entries@, i + 1);
                }
                return Err(
                    AlmaError::Unsupported {
                        message: "Found multiple potential root partitions. Ambiguous layout."
                            .to_owned(),
                    },
                );
            }
            root = Some((e.path.clone(), Some(FilesystemType::Ext4)));
        } else if text::eq_str(e.fs_type.as_str(), "btrfs") {
            if root.is_some() {
                proof {
                    assert(spec_classify(entries@.take(i + 1)) is None);
                    lemma_classify_none_persists(entries@, i + 1);
                }
                return Err(
                    AlmaError::Unsupported {
                        message: "Found multiple potential root partitions. Ambiguous layout."
                            .to_owned(),
                    },
                );
            }
            root = Some((e.path.clone(), Some(FilesystemType::Btrfs)));
        }
        i = i + 1;
    }
    proof {
        assert(entries@.take(total as int) =~= entries@);
    }
    match root {
        Some(root_info) => {
            let (root_path, root_fs) = root_info;
            Ok(DetectedLayout { boot_path: boot, root_path, root_fs })
        },
        None => Err(
            AlmaError::Unsupported {
                message: "Could not find a suitable root partition.".to_owned(),
            },
        ),
    }
}

} // verus!
