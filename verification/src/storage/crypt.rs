//! Encrypted containers: detection by header inspection, and the
//! commands that prepare, open and close a mapping.
//!
//! Opening yields a new block device under the mapper directory; the
//! mapping must be closed exactly once at end of scope, mirroring the
//! loop device's teardown guarantee.

use vstd::prelude::*;

use crate::error::AlmaError;
use crate::process::CommandLine;
use crate::storage::markers::BlockDevice;
use crate::storage::partition::Partition;
use crate::storage::sys;
use crate::tool::Tool;

verus! {

/// The magic signature that opens an encrypted container's header: the
/// bytes of `L`, `U`, `K`, `S`, then 0xBA, 0xBE.
pub open spec fn spec_luks_magic() -> Seq<u8> {
    seq![76u8, 85u8, 75u8, 83u8, 0xbau8, 0xbeu8]
}

/// Whether the first `n` read bytes of a partition header match the
/// known magic signature exactly.  Anything shorter than the signature
/// — a truncated device — never matches.
pub fn luks_header_matches(buf: &Vec<u8>, n: usize) -> (r: bool)
    requires
        n <= buf@.len(),
    ensures
        r == (n >= 6 && buf@.take(6) == spec_luks_magic()),
{
    if n < 6 {
        return false;
    }
    let r = buf[0] == 76u8 && buf[1] == 85u8 && buf[2] == 75u8 && buf[3] == 83u8 && buf[4]
        == 0xbau8 && buf[5] == 0xbeu8;
    proof {
        assert(buf@.take(6)[0] == buf@[0]);
        assert(buf@.take(6)[1] == buf@[1]);
        assert(buf@.take(6)[2] == buf@[2]);
        assert(buf@.take(6)[3] == buf@[3]);
        assert(buf@.take(6)[4] == buf@[4]);
        assert(buf@.take(6)[5] == buf@[5]);
        if r {
            assert(buf@.take(6) =~= spec_luks_magic());
        } else {
            assert(buf@.take(6) != spec_luks_magic());
        }
    }
    r
}

/// Reads the partition's leading bytes and reports whether they carry
/// the encryption magic.  Nothing is mutated or opened.  An unreadable
/// device is an inconclusive probe, reported as an error — never as a
/// false positive.  In dry-run mode nothing is probed and the answer is
/// no.
pub fn is_encrypted_device(partition: &Partition) -> (r: Result<bool, AlmaError>)
    ensures
        partition.spec_dryrun() ==> r == Result::<bool, AlmaError>::Ok(false),
        r matches Err(e) ==> e matches AlmaError::EncryptionHeaderMismatch { .. },
{
    if partition.is_dryrun() {
        return Ok(false);
    }
    match sys::read_prefix(partition.path(), 6) {
        Some((buf, n)) => Ok(luks_header_matches(&buf, n)),
        None => Err(
            AlmaError::EncryptionHeaderMismatch { device: partition.path().to_owned() },
        ),
    }
}

/// The directory where opened mappings appear.
pub open spec fn spec_mapper_prefix() -> Seq<char> {
    "/dev/mapper/"@
}

/// An opened encrypted mapping over one partition.
#[derive(Debug)]
pub struct EncryptedDevice {
    name: String,
    path: String,
    cryptsetup_path: String,
    dryrun: bool,
    closed_out: bool,
}

impl EncryptedDevice {
    /// The mapped name the container was opened under.
    pub closed spec fn spec_name(&self) -> Seq<char> {
        self.name@
    }

    /// The path of the opened mapping.
    pub closed spec fn spec_mapping_path(&self) -> Seq<char> {
        self.path@
    }

    /// The encryption tool the mapping was opened with.
    pub closed spec fn spec_cryptsetup_path(&self) -> Seq<char> {
        self.cryptsetup_path@
    }

    /// Whether this run only prints the commands it would execute.
    pub closed spec fn spec_dryrun(&self) -> bool {
        self.dryrun
    }

    /// Whether the close command has already been handed out.
    pub closed spec fn spec_closed(&self) -> bool {
        self.closed_out
    }

    /// The command that destructively writes encryption metadata onto
    /// the partition.  Passphrase entry is interactive and belongs to
    /// the tool itself.
    pub fn prepare_command(cryptsetup: &Tool, partition: &Partition) -> (c: CommandLine)
        ensures
            c.program == cryptsetup.exec_path,
            c.args.deep_view() =~= seq!["luksFormat"@, partition.spec_partition_path()],
    {
        let mut args: Vec<String> = Vec::new();
        args.push("luksFormat".to_owned());
        args.push(partition.path().to_owned());
        proof {
            assert(args.deep_view() =~~= seq![
                "luksFormat"@,
                partition.spec_partition_path(),
            ]);
        }
        cryptsetup.command(args)
    }

    /// Judges the outcome of the prepare command: failure is propagated,
    /// never skipped.
    pub fn prepare(partition: &Partition, run_ok: bool) -> (r: Result<(), AlmaError>)
        ensures
            run_ok <==> r is Ok,
            !run_ok ==> (r matches Err(e) && e matches AlmaError::ProcessFailed { .. }),
    {
        if run_ok {
            Ok(())
        } else {
            let mut description = "Error formatting the encrypted container on ".to_owned();
            description.append(partition.path());
            Err(AlmaError::ProcessFailed { description })
        }
    }

    /// The command that opens the container on `partition` under
    /// `name`.
    pub fn open_command(cryptsetup: &Tool, partition: &Partition, name: &str) -> (c: CommandLine)
        ensures
            c.program == cryptsetup.exec_path,
            c.args.deep_view() =~= seq!["open"@, partition.spec_partition_path(), name@],
    {
        let mut args: Vec<String> = Vec::new();
        args.push("open".to_owned());
        args.push(partition.path().to_owned());
        args.push(name.to_owned());
        proof {
            assert(args.deep_view() =~~= seq![
                "open"@,
                partition.spec_partition_path(),
                name@,
            ]);
        }
        cryptsetup.command(args)
    }

    /// Wraps the outcome of the open command: on success the mapping is
    /// a block device under the mapper directory, named as requested.
    pub fn open(cryptsetup: &Tool, name: &str, run_ok: bool) -> (r: Result<
        EncryptedDevice,
        AlmaError,
    >)
        ensures
            run_ok ==> (r matches Ok(d) && d.spec_name() == name@ && d.spec_mapping_path()
                == spec_mapper_prefix() + name@ && d.spec_cryptsetup_path()
                == cryptsetup.exec_path@ && d.spec_dryrun() == cryptsetup.dryrun
                && !d.spec_closed()),
            !run_ok ==> (r matches Err(e) && e matches AlmaError::ProcessFailed { .. }),
    {
        if run_ok {
            let mut path = "/dev/mapper/".to_owned();
            path.append(name);
            Ok(
                EncryptedDevice {
                    name: name.to_owned(),
                    path,
                    cryptsetup_path: cryptsetup.exec_path.clone(),
                    dryrun: cryptsetup.dryrun,
                    closed_out: false,
                },
            )
        } else {
            let mut description = "Error opening the encrypted container ".to_owned();
            description.append(name);
            Err(AlmaError::ProcessFailed { description })
        }
    }

    /// Hands out the close command exactly once, mirroring the loop
    /// device's detach: the first call yields it and marks the mapping
    /// closed, every later call yields nothing.  The surrounding
    /// application runs it on scope exit, best effort.
    pub fn close_command(&mut self) -> (r: Option<CommandLine>)
        ensures
            final(self).spec_closed(),
            final(self).spec_name() == old(self).spec_name(),
            final(self).spec_mapping_path() == old(self).spec_mapping_path(),
            final(self).spec_cryptsetup_path() == old(self).spec_cryptsetup_path(),
            final(self).spec_dryrun() == old(self).spec_dryrun(),
            old(self).spec_closed() ==> r is None,
            !old(self).spec_closed() ==> (r matches Some(c) && c.program@ == old(
                self,
            ).spec_cryptsetup_path() && c.args.deep_view() =~= seq![
                "close"@,
                old(self).spec_name(),
            ]),
    {
        if self.closed_out {
            return None;
        }
        self.closed_out = true;
        let mut args: Vec<String> = Vec::new();
        args.push("close".to_owned());
        args.push(self.name.clone());
        proof {
            assert(args.deep_view() =~~= seq!["close"@, self.spec_name()]);
        }
        Some(CommandLine { program: self.cryptsetup_path.clone(), args })
    }
}

impl BlockDevice for EncryptedDevice {
    open spec fn spec_path(&self) -> Seq<char> {
        self.spec_mapping_path()
    }

    fn path(&self) -> (r: &str) {
        self.path.as_str()
    }
}

} // verus!
