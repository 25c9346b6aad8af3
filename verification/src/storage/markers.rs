//! The capability every device-like entity offers: a filesystem path.

use vstd::prelude::*;

verus! {

/// Anything with a device path: a whole storage device, one partition of
/// it, or an opened encrypted mapping.  Filesystems and the mount ledger
/// work purely against this capability, never against concrete types.
pub trait BlockDevice {
    /// The device path as a character sequence.
    spec fn spec_path(&self) -> Seq<char>;

    /// The device path.
    fn path(&self) -> (r: &str)
        ensures
            r@ == self.spec_path(),
    ;
}

} // verus!
