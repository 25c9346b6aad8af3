//! A kernel loop device backing a regular file.
//!
//! Attaching runs the loop-setup tool; the kernel chooses the node and
//! the tool prints its path.  Every successfully created loop device
//! must be detached exactly once, whatever else fails: the detach
//! command is handed out once and only once, and the surrounding
//! application issues it on every exit path.

use vstd::prelude::*;

use crate::process::CommandLine;
use crate::text;
use crate::tool::Tool;

verus! {

/// The placeholder node used in dry-run mode, so downstream code can
/// proceed deterministically without a real attachment.
pub open spec fn spec_dryrun_loop_path() -> Seq<char> {
    "/dev/loop1337"@
}

/// An attached loop device.
#[derive(Debug)]
pub struct LoopDevice {
    path: String,
    file: String,
    losetup_path: String,
    dryrun: bool,
    detached: bool,
}

impl LoopDevice {
    /// The loop node's device path.
    pub closed spec fn spec_loop_path(&self) -> Seq<char> {
        self.path@
    }

    /// The backing file's path.
    pub closed spec fn spec_file(&self) -> Seq<char> {
        self.file@
    }

    /// The loop-setup tool this device was attached with.
    pub closed spec fn spec_losetup_path(&self) -> Seq<char> {
        self.losetup_path@
    }

    /// Whether this run only prints the commands it would execute.
    pub closed spec fn spec_dryrun(&self) -> bool {
        self.dryrun
    }

    /// Whether the detach command has already been handed out.
    pub closed spec fn spec_detached(&self) -> bool {
        self.detached
    }

    /// The command that attaches `file` to the next free loop node and
    /// prints the chosen path.
    pub fn attach_command(losetup: &Tool, file: &str) -> (c: CommandLine)
        ensures
            c.program == losetup.exec_path,
            c.args.deep_view() =~= seq!["--find"@, "-P"@, "--show"@, file@],
    {
        let mut args: Vec<String> = Vec::new();
        args.push("--find".to_owned());
        args.push("-P".to_owned());
        args.push("--show".to_owned());
        args.push(file.to_owned());
        proof {
            assert(args.deep_view() =~~= seq!["--find"@, "-P"@, "--show"@, file@]);
        }
        losetup.command(args)
    }

    /// Wraps the outcome of the attach command: in real mode the node
    /// path is the tool's output, trimmed; in dry-run mode it is the
    /// fixed placeholder.  The device starts attached.
    pub fn create(losetup: &Tool, file: &str, attach_output: &str) -> (r: LoopDevice)
        ensures
            r.spec_file() == file@,
            r.spec_losetup_path() == losetup.exec_path@,
            r.spec_dryrun() == losetup.dryrun,
            !r.spec_detached(),
            losetup.dryrun ==> r.spec_loop_path() == spec_dryrun_loop_path(),
            !losetup.dryrun ==> r.spec_loop_path() == text::spec_trim(attach_output@),
    {
        let path: String = if losetup.dryrun {
            "/dev/loop1337".to_owned()
        } else {
            text::trim_str(attach_output)
        };
        LoopDevice {
            path,
            file: file.to_owned(),
            losetup_path: losetup.exec_path.clone(),
            dryrun: losetup.dryrun,
            detached: false,
        }
    }

    /// The loop node's path.
    pub fn path(&self) -> (r: &str)
        ensures
            r@ == self.spec_loop_path(),
    {
        self.path.as_str()
    }

    /// Whether this run only prints the commands it would execute.
    pub fn is_dryrun(&self) -> (r: bool)
        ensures
            r == self.spec_dryrun(),
    {
        self.dryrun
    }

    /// Hands out the detach command exactly once: the first call yields
    /// it and marks the device detached, every later call yields
    /// nothing.  The surrounding application calls this on scope exit —
    /// normal or error path alike — and runs the command, ignoring its
    /// outcome, so teardown never becomes a new source of failure.
    pub fn detach_command(&mut self) -> (r: Option<CommandLine>)
        ensures
            final(self).spec_detached(),
            final(self).spec_loop_path() == old(self).spec_loop_path(),
            final(self).spec_file() == old(self).spec_file(),
            final(self).spec_losetup_path() == old(self).spec_losetup_path(),
            final(self).spec_dryrun() == old(self).spec_dryrun(),
            old(self).spec_detached() ==> r is None,
            !old(self).spec_detached() ==> (r matches Some(c) && c.program@ == old(
                self,
            ).spec_losetup_path() && c.args.deep_view() =~= seq![
                "-d"@,
                old(self).spec_loop_path(),
            ]),
    {
        if self.detached {
            return None;
        }
        self.detached = true;
        let mut args: Vec<String> = Vec::new();
        args.push("-d".to_owned());
        args.push(self.path.clone());
        proof {
            assert(args.deep_view() =~~= seq!["-d"@, self.spec_loop_path()]);
        }
        Some(CommandLine { program: self.losetup_path.clone(), args })
    }
}

} // verus!
