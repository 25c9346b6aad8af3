//! Trusted wrappers around the kernel-facing calls of the `nix` crate.
//!
//! Every outcome here depends on the live system, so the contracts only
//! state what holds of any outcome; the logic around these calls is
//! verified against that.

use vstd::prelude::*;

use crate::storage::mount_stack::MountFlags;

verus! {

/// Relies on `nix::mount::mount`: performs the mount syscall with the
/// given source, target, filesystem type, flags and data string.
/// Success depends on the live system; a failure carries the raw errno.
#[verifier::external_body]
pub(crate) fn sys_mount(
    source: &str,
    target: &str,
    fstype: Option<&str>,
    flags: &MountFlags,
    data: Option<&str>,
) -> (r: Result<(), i32>) {
    let ms = match flags {
        MountFlags::Empty => nix::mount::MsFlags::empty(),
        MountFlags::NoAtime => nix::mount::MsFlags::MS_NOATIME,
        MountFlags::BindNoAtime => nix::mount::MsFlags::MS_BIND.union(
            nix::mount::MsFlags::MS_NOATIME,
        ),
    };
    nix::mount::mount(Some(source), target, fstype, ms, data).map_err(|e| e as i32)
}

/// Relies on `nix::mount::umount`: unmounts the target.  Success depends
/// on the live system; a failure carries the raw errno.
#[verifier::external_body]
pub(crate) fn sys_umount(target: &str) -> (r: Result<(), i32>) {
    nix::mount::umount(target).map_err(|e| e as i32)
}

/// Relies on `nix::unistd::mkdir`: creates one directory with mode 0755.
/// Success depends on the live system; a failure carries the raw errno.
#[verifier::external_body]
pub(crate) fn sys_mkdir(path: &str) -> (r: Result<(), i32>) {
    nix::unistd::mkdir(path, nix::sys::stat::Mode::from_bits_truncate(0o755)).map_err(
        |e| e as i32,
    )
}

/// Relies on `nix::sys::stat::stat`: whether the path currently names an
/// existing filesystem node.  Depends on the live system.
#[verifier::external_body]
pub(crate) fn path_exists(path: &str) -> bool {
    nix::sys::stat::stat(path).is_ok()
}

/// Relies on `nix::fcntl::open` with `O_RDONLY`: opens the file for
/// reading and returns the raw descriptor, or the errno on failure.
#[verifier::external_body]
pub(crate) fn fd_open_read(path: &str) -> (r: Result<i32, i32>) {
    nix::fcntl::open(path, nix::fcntl::OFlag::O_RDONLY, nix::sys::stat::Mode::empty())
        .map_err(|e| e as i32)
}

/// Relies on `nix::unistd::read`: fills a prefix of the buffer from the
/// descriptor and says how long that prefix is.  What the bytes hold
/// depends on the file read.
#[verifier::external_body]
pub(crate) fn fd_read(fd: i32, buf: &mut Vec<u8>) -> (r: Result<usize, i32>)
    ensures
        final(buf)@.len() == old(buf)@.len(),
        r matches Ok(n) ==> n <= final(buf)@.len(),
{
    nix::unistd::read(fd, buf.as_mut_slice()).map_err(|e| e as i32)
}

/// Relies on `nix::unistd::close`: releases the descriptor.
#[verifier::external_body]
pub(crate) fn fd_close(fd: i32) {
    let _ = nix::unistd::close(fd);
}

/// Reads up to `cap` bytes from the start of the file at `path`.
/// `None` means the file could not be opened or read; otherwise the
/// buffer holds `cap` bytes of which the first `n` were filled.
pub(crate) fn read_prefix(path: &str, cap: usize) -> (r: Option<(Vec<u8>, usize)>)
    ensures
        r matches Some((buf, n)) ==> n <= buf@.len() && buf@.len() == cap,
{
    let fd = match fd_open_read(path) {
        Ok(fd) => fd,
        Err(_) => {
            return None;
        },
    };
    let mut buf: Vec<u8> = Vec::new();
    let mut i: usize = 0;
    while i < cap
        invariant
            buf@.len() == i,
            0 <= i <= cap,
        decreases cap - i,
    {
        buf.push(0u8);
        i = i + 1;
    }
    let res = fd_read(fd, &mut buf);
    fd_close(fd);
    match res {
        Ok(n) => Some((buf, n)),
        Err(_) => None,
    }
}

} // verus!
