//! A physical or loop block device: naming, partition enumeration, the
//! removability safety gate, and pre-flight unmounting.

use vstd::prelude::*;

use crate::error::AlmaError;
use crate::storage::markers::BlockDevice;
use crate::storage::mount_stack::is_failed_unmount;
use crate::storage::mount_stack::is_unmount_of;
use crate::storage::mount_stack::MountEvent;
use crate::storage::mount_stack::MountOp;
use crate::storage::mount_table;
use crate::storage::partition::Partition;
use crate::storage::sys;
use crate::text;

verus! {

/// One mount point currently recorded for a device.
#[derive(Debug)]
pub struct MountConfig {
    pub mount_point: String,
}

impl View for MountConfig {
    type V = Seq<char>;

    open spec fn view(&self) -> Seq<char> {
        self.mount_point@
    }
}

impl DeepView for MountConfig {
    type V = Seq<char>;

    open spec fn deep_view(&self) -> Seq<char> {
        self.view()
    }
}

/// What the platform reports about a device, gathered by the caller
/// from the per-device attributes: whether it is marked removable, and
/// whether it is a loop device.
#[derive(Debug, Clone, Copy)]
pub struct DeviceQuery {
    pub removable: bool,
    pub is_loop: bool,
}

/// `s` with every trailing path separator removed.
pub open spec fn spec_strip_trailing_slashes(s: Seq<char>) -> Seq<char>
    decreases s.len(),
{
    if s.len() > 0 && s.last() == '/' {
        spec_strip_trailing_slashes(s.drop_last())
    } else {
        s
    }
}

/// The maximal run of non-separator characters at the end of `s`.
pub open spec fn spec_last_segment(s: Seq<char>) -> Seq<char>
    decreases s.len(),
{
    if s.len() == 0 {
        Seq::<char>::empty()
    } else if s.last() == '/' {
        Seq::<char>::empty()
    } else {
        spec_last_segment(s.drop_last()).push(s.last())
    }
}

/// The device name a path denotes: its final path segment, with
/// trailing separators ignored; a path with no final segment (such as
/// the root) has no device name.
pub open spec fn spec_device_name(path: Seq<char>) -> Option<Seq<char>> {
    let seg = spec_last_segment(spec_strip_trailing_slashes(path));
    if seg.len() == 0 {
        None
    } else {
        Some(seg)
    }
}

/// The bounds of the final path segment: after ignoring trailing
/// separators the path ends at `end`, and the segment (possibly empty)
/// runs from `start` to `end`.
pub fn segment_bounds(path: &str) -> (r: (usize, usize))
    ensures
        ({
            let (start, end) = r;
            &&& 0 <= start <= end <= path@.len()
            &&& spec_strip_trailing_slashes(path@) == path@.take(end as int)
            &&& spec_last_segment(path@.take(end as int)) == path@.subrange(
                start as int,
                end as int,
            )
            &&& (start > 0 ==> path@[start as int - 1] == '/')
        }),
{
    let n = path.unicode_len();
    let mut end: usize = n;
    proof {
        assert(path@.take(n as int) =~= path@);
    }
    loop
        invariant
            n == path@.len(),
            0 <= end <= n,
            spec_strip_trailing_slashes(path@) == spec_strip_trailing_slashes(
                path@.take(end as int),
            ),
        ensures
            end == 0 || path@[end - 1] != '/',
        decreases end,
    {
        if end == 0 {
            break;
        }
        let c = path.get_char(end - 1);
        if c != '/' {
            break;
        }
        proof {
            let cur = path@.take(end as int);
            assert(cur.len() > 0);
            assert(cur.last() == path@[end - 1]);
            assert(cur.drop_last() =~= path@.take(end - 1));
        }
        end = end - 1;
    }
    proof {
        let cur = path@.take(end as int);
        if end > 0 {
            assert(cur.last() == path@[end - 1]);
        }
        assert(spec_strip_trailing_slashes(path@) == cur);
    }
    let mut start: usize = end;
    loop
        invariant
            n == path@.len(),
            0 <= start <= end <= n,
            spec_strip_trailing_slashes(path@) == path@.take(end as int),
            spec_last_segment(path@.take(end as int)) == spec_last_segment(
                path@.take(start as int),
            ) + path@.subrange(start as int, end as int),
        ensures
            start == 0 || path@[start - 1] == '/',
        decreases start,
    {
        if start == 0 {
            break;
        }
        let c = path.get_char(start - 1);
        if c == '/' {
            break;
        }
        proof {
            let cur = path@.take(start as int);
            assert(cur.len() > 0);
            assert(cur.last() == path@[start - 1]);
            assert(cur.drop_last() =~= path@.take(start - 1));
            assert(spec_last_segment(path@.take(start - 1)).push(path@[start - 1])
                + path@.subrange(start as int, end as int) =~= spec_last_segment(
                path@.take(start - 1),
            ) + path@.subrange(start - 1, end as int));
        }
        start = start - 1;
    }
    proof {
        let cur = path@.take(start as int);
        if start > 0 {
            assert(cur.last() == path@[start - 1]);
        }
        assert(spec_last_segment(path@.take(start as int)) =~= Seq::<char>::empty());
        assert(spec_last_segment(path@.take(end as int)) =~= path@.subrange(
            start as int,
            end as int,
        ));
    }
    (start, end)
}

/// Derives the short device name from a device path.
pub fn device_name(path: &str) -> (r: Option<String>)
    ensures
        match r {
            Some(s) => spec_device_name(path@) == Some(s@),
            None => spec_device_name(path@) is None,
        },
{
    let (start, end) = segment_bounds(path);
    if start == end {
        return None;
    }
    let seg = path.substring_char(start, end).to_owned();
    Some(seg)
}

/// The sysfs content that marks a device as removable: the two bytes
/// of `1` and a newline.
pub open spec fn spec_removable_marker() -> Seq<u8> {
    seq![49u8, 10u8]
}

/// Whether the first `n` bytes of a read attribute say "removable".
pub fn removable_marker(buf: &Vec<u8>, n: usize) -> (r: bool)
    requires
        n <= buf@.len(),
    ensures
        r == (buf@.take(n as int) == spec_removable_marker()),
{
    if n != 2 {
        proof {
            assert(buf@.take(n as int).len() != 2);
        }
        return false;
    }
    let b0 = buf[0];
    let b1 = buf[1];
    // `1` then newline
    let r = b0 == 49u8 && b1 == 10u8;
    proof {
        assert(buf@.take(2)[0] == buf@[0]);
        assert(buf@.take(2)[1] == buf@[1]);
        if r {
            assert(buf@.take(2) =~= spec_removable_marker());
        } else {
            assert(buf@.take(2) != spec_removable_marker());
        }
    }
    r
}

/// A physical or loop block device the pipeline provisions onto.
#[derive(Debug)]
pub struct StorageDevice {
    name: String,
    path: String,
    mount_config: Vec<MountConfig>,
    dryrun: bool,
}

impl StorageDevice {
    /// The short device name (the final path segment).
    pub closed spec fn spec_name(&self) -> Seq<char> {
        self.name@
    }

    /// The device path the pipeline works against.
    pub closed spec fn spec_device_path(&self) -> Seq<char> {
        self.path@
    }

    /// The mount points discovered for this device at construction.
    pub closed spec fn spec_mounts(&self) -> Seq<Seq<char>> {
        self.mount_config.deep_view()
    }

    /// Whether this run only prints the commands it would execute.
    pub closed spec fn spec_dryrun(&self) -> bool {
        self.dryrun
    }

    /// Builds the device from its path and what the platform reports
    /// about it.  Outside dry-run the caller passes the canonicalized
    /// path as `resolved` (`None` when resolving failed).  The mount
    /// table's text supplies the device's current mount points.  This is
    /// the single safety gate: a device that is neither removable nor a
    /// loop device is rejected unless explicitly allowed or in dry-run.
    pub fn from_path(
        path: &str,
        allow_non_removable: bool,
        dryrun: bool,
        resolved: Option<&str>,
        query: &DeviceQuery,
        mounts_text: &str,
    ) -> (r: Result<StorageDevice, AlmaError>)
        ensures
            ({
                let eff = if dryrun {
                    path@
                } else {
                    match resolved {
                        Some(p) => p@,
                        None => path@,
                    }
                };
                if !dryrun && resolved is None {
                    r matches Err(e) && e matches AlmaError::InvalidDevice { .. }
                } else if spec_device_name(eff) is None {
                    r matches Err(e) && e matches AlmaError::InvalidDevice { .. }
                } else if !(allow_non_removable || query.removable || query.is_loop || dryrun) {
                    r matches Err(e) && (e matches AlmaError::UnsafeTarget { device } && Some(
                        device@,
                    ) == spec_device_name(eff))
                } else {
                    r matches Ok(d) && Some(d.spec_name()) == spec_device_name(eff)
                        && d.spec_device_path() == eff && d.spec_mounts()
                        == mount_table::spec_mount_points(eff, mounts_text@) && d.spec_dryrun()
                        == dryrun
                }
            }),
    {
        let effective: String = if dryrun {
            path.to_owned()
        } else {
            match resolved {
                Some(p) => p.to_owned(),
                None => {
                    return Err(AlmaError::InvalidDevice { path: path.to_owned() });
                },
            }
        };
        let name = match device_name(effective.as_str()) {
            Some(n) => n,
            None => {
                return Err(AlmaError::InvalidDevice { path: path.to_owned() });
            },
        };
        let points = mount_table::mount_points_for(effective.as_str(), mounts_text);
        let mut mount_config: Vec<MountConfig> = Vec::new();
        let total = points.len();
        let mut i: usize = 0;
        while i < total
            invariant
                total == points@.len(),
                0 <= i <= total,
                mount_config.deep_view() == points.deep_view().take(i as int),
            decreases total - i,
        {
            let point = points[i].clone();
            let ghost mdv = mount_config.deep_view();
            mount_config.push(MountConfig { mount_point: point });
            proof {
                assert(mount_config.deep_view() =~= mdv.push(points.deep_view()[i as int]));
                assert(mount_config.deep_view() =~= points.deep_view().take(i + 1));
            }
            i = i + 1;
        }
        proof {
            assert(points.deep_view().take(total as int) =~= points.deep_view());
        }
        if !(allow_non_removable || query.removable || query.is_loop || dryrun) {
            return Err(AlmaError::UnsafeTarget { device: name });
        }
        Ok(StorageDevice { name, path: effective, mount_config, dryrun })
    }

    /// The sysfs directory describing this device.
    pub fn sys_path(&self) -> (r: String)
        ensures
            r@ == "/sys/block/"@ + self.spec_name(),
    {
        let mut p = "/sys/block/".to_owned();
        p.append(self.name.as_str());
        p
    }

    /// Whether the platform marks this device as removable: its sysfs
    /// `removable` attribute reads `1`.  Unreadable attributes count as
    /// not removable.
    pub fn is_removable_device(&self) -> bool {
        let mut p = self.sys_path();
        p.append("/removable");
        match sys::read_prefix(p.as_str(), 8) {
            Some((buf, n)) => removable_marker(&buf, n),
            None => false,
        }
    }

    /// Whether this is a loop device: its sysfs directory has a `loop`
    /// entry.
    pub fn is_loop_device(&self) -> bool {
        let mut p = self.sys_path();
        p.append("/loop");
        sys::path_exists(p.as_str())
    }

    /// The partition path the kernel naming rule gives `index` on the
    /// device called `name`: a name ending in a digit takes a `p`
    /// before the number, any other name takes the number directly.
    pub open spec fn spec_partition_path(name: Seq<char>, index: u8) -> Seq<char> {
        if name.len() > 0 && text::is_ascii_digit_char(name.last()) {
            "/dev/"@ + name + seq!['p'] + text::spec_udec(index as nat)
        } else {
            "/dev/"@ + name + text::spec_udec(index as nat)
        }
    }

    /// The handle for partition `index` of this device, named by the
    /// kernel rule.  Outside dry-run the partition's node must exist.
    pub fn get_partition(&self, index: u8) -> (r: Result<Partition, AlmaError>)
        ensures
            r matches Ok(p) ==> p.spec_partition_path() == Self::spec_partition_path(
                self.spec_name(),
                index,
            ) && p.spec_dryrun() == self.spec_dryrun(),
            r matches Err(e) ==> (e matches AlmaError::PartitionNotFound { index: i } && i
                == index && !self.spec_dryrun()),
    {
        let mut p = "/dev/".to_owned();
        p.append(self.name.as_str());
        let name_len = self.name.as_str().unicode_len();
        if name_len > 0 {
            let last = self.name.as_str().get_char(name_len - 1);
            let lastu = last as u32;
            // an ASCII digit: `0` through `9`
            if 48 <= lastu && lastu <= 57 {
                proof {
                    assert(text::is_ascii_digit_char(self.spec_name().last()));
                }
                p.append("p");
                proof {
                    reveal_strlit("p");
                    assert("p"@ =~= seq!['p']);
                }
            } else {
                proof {
                    assert(!text::is_ascii_digit_char(self.spec_name().last()));
                }
            }
        }
        let num = text::u64_dec(index as u64);
        p.append(num.as_str());
        proof {
            assert(p@ =~= Self::spec_partition_path(self.spec_name(), index));
        }
        if !self.dryrun && !sys::path_exists(p.as_str()) {
            return Err(AlmaError::PartitionNotFound { index });
        }
        Ok(Partition::new(p, self.dryrun))
    }

    /// Whether any mount points are still tracked for this device.
    pub fn is_mounted(&self) -> (r: bool)
        ensures
            r == (self.spec_mounts().len() != 0),
    {
        self.mount_config.len() != 0
    }

    /// The mount points tracked for this device, for display.
    pub fn mounts(&self) -> (r: &Vec<MountConfig>)
        ensures
            r.deep_view() == self.spec_mounts(),
    {
        &self.mount_config
    }

    /// Unmounts every tracked mount point, best effort, and clears the
    /// tracked list: a pre-flight safety action before repartitioning,
    /// distinct from the mount ledger's managed teardown.  The returned
    /// record holds exactly one unmount attempt per tracked point, in
    /// tracking order; individual failures are recorded and otherwise
    /// ignored.  In dry-run mode nothing touches the kernel, every
    /// attempt is recorded as successful, and the caller prints the
    /// record as the intended commands.
    pub fn umount_if_needed(&mut self) -> (r: Vec<MountEvent>)
        ensures
            final(self).spec_mounts().len() == 0,
            final(self).spec_name() == old(self).spec_name(),
            final(self).spec_device_path() == old(self).spec_device_path(),
            final(self).spec_dryrun() == old(self).spec_dryrun(),
            r.deep_view().len() == old(self).spec_mounts().len(),
            forall|i: int|
                0 <= i < r.deep_view().len() ==> is_unmount_of(
                    #[trigger] r.deep_view()[i],
                    old(self).spec_mounts()[i],
                ),
            old(self).spec_dryrun() ==> forall|i: int|
                0 <= i < r.deep_view().len() ==> !is_failed_unmount(#[trigger] r.deep_view()[i]),
    {
        let total = self.mount_config.len();
        let mut attempts: Vec<MountEvent> = Vec::new();
        let mut i: usize = 0;
        while i < total
            invariant
                total == self.mount_config@.len(),
                0 <= i <= total,
                self.spec_name() == old(self).spec_name(),
                self.spec_device_path() == old(self).spec_device_path(),
                self.spec_dryrun() == old(self).spec_dryrun(),
                self.spec_mounts() == old(self).spec_mounts(),
                attempts.deep_view().len() == i,
                forall|k: int|
                    0 <= k < i ==> is_unmount_of(
                        #[trigger] attempts.deep_view()[k],
                        old(self).spec_mounts()[k],
                    ),
                self.spec_dryrun() ==> forall|k: int|
                    0 <= k < i ==> !is_failed_unmount(#[trigger] attempts.deep_view()[k]),
            decreases total - i,
        {
            let target = self.mount_config[i].mount_point.clone();
            let ok_flag: bool = if self.dryrun {
                true
            } else {
                // best effort: a failure here is acceptable, the point is
                // only to clear what can be cleared before repartitioning
                match sys::sys_umount(target.as_str()) {
                    Ok(_) => true,
                    Err(_) => false,
                }
            };
            let ghost adv = attempts.deep_view();
            attempts.push(MountEvent::Unmount { target, ok: ok_flag });
            proof {
                assert(attempts.deep_view() =~= adv.push(
                    MountOp::Unmount {
                        target: old(self).spec_mounts()[i as int],
                        ok: ok_flag,
                    },
                ));
            }
            i = i + 1;
        }
        self.mount_config = Vec::new();
        proof {
            assert(self.spec_mounts() =~= Seq::<Seq<char>>::empty());
        }
        attempts
    }
}

impl BlockDevice for StorageDevice {
    open spec fn spec_path(&self) -> Seq<char> {
        self.spec_device_path()
    }

    fn path(&self) -> (r: &str) {
        self.path.as_str()
    }
}

} // verus!
