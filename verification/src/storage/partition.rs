//! A handle to one partition of a storage device.
//!
//! A partition is a plain value — a path computed once by the naming
//! rule, plus the run's dry-run flag — not a live reference back to its
//! parent device.

use vstd::prelude::*;

use crate::storage::markers::BlockDevice;

verus! {

/// One partition of a block device.
#[derive(Debug)]
pub struct Partition {
    path: String,
    dryrun: bool,
}

impl Partition {
    /// The partition's device path.
    pub closed spec fn spec_partition_path(&self) -> Seq<char> {
        self.path@
    }

    /// The run's dry-run flag, inherited from the context that made the
    /// partition.
    pub closed spec fn spec_dryrun(&self) -> bool {
        self.dryrun
    }

    /// Wraps a partition path computed elsewhere.
    pub fn new(path: String, dryrun: bool) -> (r: Partition)
        ensures
            r.spec_partition_path() == path@,
            r.spec_dryrun() == dryrun,
    {
        Partition { path, dryrun }
    }

    /// Whether this run only prints the commands it would execute.
    pub fn is_dryrun(&self) -> (r: bool)
        ensures
            r == self.spec_dryrun(),
    {
        self.dryrun
    }
}

impl BlockDevice for Partition {
    open spec fn spec_path(&self) -> Seq<char> {
        self.spec_partition_path()
    }

    fn path(&self) -> (r: &str) {
        self.path.as_str()
    }
}

} // verus!
