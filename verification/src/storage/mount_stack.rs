//! The ordered mount ledger.
//!
//! A `MountStack` records every target it mounts, in order, and tears
//! them down strictly last-in-first-out: later mounts are frequently
//! nested inside earlier mount points, so unmounting must proceed in
//! exact reverse.  Every operation performed — mount or unmount, real or
//! dry-run — is also appended to an operation record, which is what the
//! ordering guarantees are stated over and what dry-run mode prints.

use vstd::prelude::*;

use crate::error::AlmaError;
use crate::storage::filesystem::Filesystem;
use crate::storage::markers::BlockDevice;
use crate::storage::sys;

verus! {

/// The mount-flag combinations the pipeline uses: no flags, the
/// "no access-time update" performance flag, or a bind mount (which
/// always keeps no-atime as well).
#[derive(Debug, Clone, Copy, PartialEq, Eq, Structural)]
pub enum MountFlags {
    Empty,
    NoAtime,
    BindNoAtime,
}

impl MountFlags {
    /// These flags with the no-atime flag added.
    pub open spec fn spec_with_noatime(self) -> MountFlags {
        match self {
            MountFlags::Empty => MountFlags::NoAtime,
            MountFlags::NoAtime => MountFlags::NoAtime,
            MountFlags::BindNoAtime => MountFlags::BindNoAtime,
        }
    }

    /// Adds the no-atime flag.
    pub fn with_noatime(self) -> (r: MountFlags)
        ensures
            r == self.spec_with_noatime(),
    {
        match self {
            MountFlags::Empty => MountFlags::NoAtime,
            MountFlags::NoAtime => MountFlags::NoAtime,
            MountFlags::BindNoAtime => MountFlags::BindNoAtime,
        }
    }

    /// Whether the no-atime flag is set.
    pub open spec fn spec_has_noatime(self) -> bool {
        self != MountFlags::Empty
    }
}

/// The mathematical model of one recorded operation.
pub enum MountOp {
    Mount {
        source: Seq<char>,
        target: Seq<char>,
        fstype: Option<Seq<char>>,
        flags: MountFlags,
        data: Option<Seq<char>>,
    },
    Unmount { target: Seq<char>, ok: bool },
}

/// One recorded operation: a mount that succeeded (or was printed in
/// dry-run mode), or an unmount attempt together with whether it
/// succeeded.
#[derive(Debug)]
pub enum MountEvent {
    Mount {
        source: String,
        target: String,
        fstype: Option<String>,
        flags: MountFlags,
        data: Option<String>,
    },
    Unmount { target: String, ok: bool },
}

impl View for MountEvent {
    type V = MountOp;

    open spec fn view(&self) -> MountOp {
        match self {
            MountEvent::Mount { source, target, fstype, flags, data } => MountOp::Mount {
                source: source@,
                target: target@,
                fstype: match fstype {
                    Some(t) => Some(t@),
                    None => None,
                },
                flags: *flags,
                data: match data {
                    Some(d) => Some(d@),
                    None => None,
                },
            },
            MountEvent::Unmount { target, ok } => MountOp::Unmount { target: target@, ok: *ok },
        }
    }
}

impl DeepView for MountEvent {
    type V = MountOp;

    open spec fn deep_view(&self) -> MountOp {
        self.view()
    }
}

/// The view of an optional borrowed string.
pub open spec fn opt_str_view(o: Option<&str>) -> Option<Seq<char>> {
    match o {
        Some(s) => Some(s@),
        None => None,
    }
}

/// Whether `op` records an unmount attempt of exactly `target`.
pub open spec fn is_unmount_of(op: MountOp, target: Seq<char>) -> bool {
    op matches MountOp::Unmount { target: t, .. } && t == target
}

/// Whether `op` records an unmount attempt that failed.
pub open spec fn is_failed_unmount(op: MountOp) -> bool {
    op matches MountOp::Unmount { ok: false, .. }
}

/// Whether `op` records a mount.
pub open spec fn is_mount_op(op: MountOp) -> bool {
    op matches MountOp::Mount { .. }
}

/// The target of a recorded operation.
pub open spec fn op_target(op: MountOp) -> Seq<char> {
    match op {
        MountOp::Mount { target, .. } => target,
        MountOp::Unmount { target, .. } => target,
    }
}

/// The failed-unmount predicate as a single function value.
pub open spec fn failed_pred() -> spec_fn(MountOp) -> bool {
    |op: MountOp| is_failed_unmount(op)
}

/// The target projection as a single function value.
pub open spec fn target_of_fn() -> spec_fn(MountOp) -> Seq<char> {
    |op: MountOp| op_target(op)
}

/// The targets of the failed unmount attempts in `h`, in attempt order.
pub open spec fn spec_failed_targets(h: Seq<MountOp>) -> Seq<Seq<char>> {
    h.filter(failed_pred()).map_values(target_of_fn())
}

/// The mount predicate as a single function value.
pub open spec fn mount_pred() -> spec_fn(MountOp) -> bool {
    |op: MountOp| is_mount_op(op)
}

/// The unmount predicate as a single function value.
pub open spec fn unmount_pred() -> spec_fn(MountOp) -> bool {
    |op: MountOp| !is_mount_op(op)
}

/// The targets mounted in `h`, in call order.
pub open spec fn spec_mount_targets(h: Seq<MountOp>) -> Seq<Seq<char>> {
    h.filter(mount_pred()).map_values(target_of_fn())
}

/// The targets of the unmount attempts in `h`, in call order.
pub open spec fn spec_unmount_targets(h: Seq<MountOp>) -> Seq<Seq<char>> {
    h.filter(unmount_pred()).map_values(target_of_fn())
}

/// A filter keeps everything when the predicate holds everywhere.
proof fn lemma_filter_all(h: Seq<MountOp>, pred: spec_fn(MountOp) -> bool)
    requires
        forall|i: int| 0 <= i < h.len() ==> pred(#[trigger] h[i]),
    ensures
        h.filter(pred) == h,
    decreases h.len(),
{
    reveal_with_fuel(Seq::<MountOp>::filter, 2);
    if h.len() > 0 {
        lemma_filter_all(h.drop_last(), pred);
        assert(h.filter(pred) =~= h.drop_last().push(h.last()));
        assert(h.drop_last().push(h.last()) =~= h);
    }
}

/// A filter keeps nothing when the predicate holds nowhere.
proof fn lemma_filter_none(h: Seq<MountOp>, pred: spec_fn(MountOp) -> bool)
    requires
        forall|i: int| 0 <= i < h.len() ==> !pred(#[trigger] h[i]),
    ensures
        h.filter(pred) == Seq::<MountOp>::empty(),
    decreases h.len(),
{
    reveal_with_fuel(Seq::<MountOp>::filter, 2);
    if h.len() > 0 {
        lemma_filter_none(h.drop_last(), pred);
    } else {
        assert(h.filter(pred) =~= Seq::<MountOp>::empty());
    }
}

/// LAW: for any sequence of mount operations followed by one teardown,
/// the unmount attempts are made in exactly the reverse order of the
/// mounts.  `h0` is the operation record of the mounting phase (mounts
/// only, their targets in order being the ledger `ts`); `h1` is the
/// record after `umount`, as its contract describes it.
pub proof fn lemma_umount_reverses_mount_order(
    h0: Seq<MountOp>,
    ts: Seq<Seq<char>>,
    h1: Seq<MountOp>,
)
    requires
        forall|i: int| 0 <= i < h0.len() ==> is_mount_op(#[trigger] h0[i]),
        spec_mount_targets(h0) == ts,
        h1.len() == h0.len() + ts.len(),
        h1.take(h0.len() as int) == h0,
        forall|i: int|
            0 <= i < ts.len() ==> is_unmount_of(
                #[trigger] h1.skip(h0.len() as int)[i],
                ts[ts.len() - 1 - i],
            ),
    ensures
        spec_mount_targets(h1) == ts,
        spec_unmount_targets(h1) == ts.reverse(),
        spec_unmount_targets(h1) == spec_mount_targets(h1).reverse(),
{
    broadcast use vstd::seq_lib::group_seq_lib_default;

    let tail = h1.skip(h0.len() as int);
    assert(h1 =~= h0 + tail);
    assert(forall|i: int| 0 <= i < tail.len() ==> !is_mount_op(#[trigger] tail[i]));
    Seq::<MountOp>::filter_distributes_over_add(h0, tail, mount_pred());
    Seq::<MountOp>::filter_distributes_over_add(h0, tail, unmount_pred());
    assert(forall|i: int| 0 <= i < h0.len() ==> mount_pred()(#[trigger] h0[i]));
    assert(forall|i: int| 0 <= i < h0.len() ==> !unmount_pred()(#[trigger] h0[i]));
    assert(forall|i: int| 0 <= i < tail.len() ==> unmount_pred()(#[trigger] tail[i]));
    assert(forall|i: int| 0 <= i < tail.len() ==> !mount_pred()(#[trigger] tail[i]));
    lemma_filter_all(h0, mount_pred());
    lemma_filter_none(tail, mount_pred());
    lemma_filter_all(tail, unmount_pred());
    lemma_filter_none(h0, unmount_pred());
    assert(h1.filter(mount_pred()) =~= h0);
    assert(h1.filter(unmount_pred()) =~= tail);
    assert(spec_mount_targets(h1) =~= spec_mount_targets(h0));
    assert(spec_unmount_targets(h1) =~= tail.map_values(target_of_fn()));
    assert(spec_unmount_targets(h1) =~= ts.reverse()) by {
        assert(forall|i: int|
            0 <= i < tail.len() ==> op_target(#[trigger] tail[i]) == ts[ts.len() - 1 - i]);
    }
    assert(spec_mount_targets(h1).reverse() =~= ts.reverse());
}

/// LAW: if the `k`-th unmount attempt of a teardown fails, every later
/// target is still attempted, and the aggregate error names the `k`-th
/// target.  `tail` is what `umount` appended to the operation record and
/// `failed` the list its error carries.
pub proof fn lemma_failed_unmount_still_attempts_rest(
    tail: Seq<MountOp>,
    ts: Seq<Seq<char>>,
    failed: Seq<Seq<char>>,
    k: int,
)
    requires
        tail.len() == ts.len(),
        forall|i: int|
            0 <= i < tail.len() ==> is_unmount_of(#[trigger] tail[i], ts[ts.len() - 1 - i]),
        failed == spec_failed_targets(tail),
        0 <= k < tail.len(),
        is_failed_unmount(tail[k]),
    ensures
        // the later attempts are in the record: one for every remaining target
        forall|i: int|
            k < i < tail.len() ==> is_unmount_of(#[trigger] tail[i], ts[ts.len() - 1 - i]),
        // and the failing target is named in the aggregate error
        failed.contains(op_target(tail[k])),
{
    broadcast use vstd::seq_lib::group_seq_lib_default;

    let kept = tail.filter(failed_pred());
    assert(failed_pred()(tail[k]));
    assert(kept.contains(tail[k])) by {
        tail.lemma_filter_contains(failed_pred(), k);
    }
    let w = choose|w: int| 0 <= w < kept.len() && kept[w] == tail[k];
    assert(failed[w] == op_target(tail[k]));
}

/// The command line a recorded operation stands for, as dry-run mode
/// prints it.
pub open spec fn spec_render_op(op: MountOp) -> Seq<char> {
    match op {
        MountOp::Unmount { target, .. } => "umount "@ + target,
        MountOp::Mount { source, target, fstype, flags, data } => {
            if flags == MountFlags::BindNoAtime {
                "mount --bind "@ + source + seq![' '] + target
            } else {
                "mount"@ + (match fstype {
                    Some(t) => " -t "@ + t,
                    None => Seq::<char>::empty(),
                }) + (if flags.spec_has_noatime() {
                    match data {
                        Some(d) => " -o noatime,"@ + d,
                        None => " -o noatime"@,
                    }
                } else {
                    match data {
                        Some(d) => " -o "@ + d,
                        None => Seq::<char>::empty(),
                    }
                }) + seq![' '] + source + seq![' '] + target
            }
        },
    }
}

/// Renders one recorded operation as the command line it stands for;
/// dry-run mode prints these instead of touching the kernel.
pub fn render_event(e: &MountEvent) -> (r: String)
    ensures
        r@ == spec_render_op(e@),
{
    proof {
        reveal_strlit(" ");
    }
    match e {
        MountEvent::Unmount { target, .. } => {
            let mut out = "umount ".to_owned();
            out.append(target.as_str());
            out
        },
        MountEvent::Mount { source, target, fstype, flags, data } => {
            if matches!(flags, MountFlags::BindNoAtime) {
                let mut out = "mount --bind ".to_owned();
                out.append(source.as_str());
                out.append(" ");
                out.append(target.as_str());
                proof {
                    assert(" "@ =~= seq![' ']);
                    assert(out@ =~= spec_render_op(e@));
                }
                out
            } else {
                let mut out = "mount".to_owned();
                match fstype {
                    Some(t) => {
                        out.append(" -t ");
                        out.append(t.as_str());
                    },
                    None => {},
                }
                let has_noatime = !matches!(flags, MountFlags::Empty);
                if has_noatime {
                    match data {
                        Some(d) => {
                            out.append(" -o noatime,");
                            out.append(d.as_str());
                        },
                        None => {
                            out.append(" -o noatime");
                        },
                    }
                } else {
                    match data {
                        Some(d) => {
                            out.append(" -o ");
                            out.append(d.as_str());
                        },
                        None => {},
                    }
                }
                out.append(" ");
                out.append(source.as_str());
                out.append(" ");
                out.append(target.as_str());
                proof {
                    assert(" "@ =~= seq![' ']);
                    assert(out@ =~= spec_render_op(e@));
                }
                out
            }
        },
    }
}

/// The ordered ledger of active mount targets, together with the record
/// of every operation performed.
pub struct MountStack {
    targets: Vec<String>,
    history: Vec<MountEvent>,
    dryrun: bool,
}

impl MountStack {
    /// The active mount targets, oldest first.
    pub closed spec fn spec_targets(&self) -> Seq<Seq<char>> {
        self.targets.deep_view()
    }

    /// Every operation performed so far, in order.
    pub closed spec fn spec_history(&self) -> Seq<MountOp> {
        self.history.deep_view()
    }

    /// Whether this ledger only prints the commands it would run.
    pub closed spec fn spec_dryrun(&self) -> bool {
        self.dryrun
    }

    /// A fresh, empty ledger.
    pub fn new(dryrun: bool) -> (r: MountStack)
        ensures
            r.spec_targets() == Seq::<Seq<char>>::empty(),
            r.spec_history() == Seq::<MountOp>::empty(),
            r.spec_dryrun() == dryrun,
    {
        let r = MountStack { targets: Vec::new(), history: Vec::new(), dryrun };
        proof {
            assert(r.spec_targets() =~= Seq::<Seq<char>>::empty());
            assert(r.spec_history() =~= Seq::<MountOp>::empty());
        }
        r
    }

    /// How many targets are currently mounted.
    pub fn depth(&self) -> (r: usize)
        ensures
            r == self.spec_targets().len(),
    {
        self.targets.len()
    }

    /// The operation record so far, for display or inspection.
    pub fn history(&self) -> (r: &Vec<MountEvent>)
        ensures
            r.deep_view() == self.spec_history(),
    {
        &self.history
    }

    /// Whether this ledger only prints the commands it would run.
    pub fn is_dryrun(&self) -> (r: bool)
        ensures
            r == self.spec_dryrun(),
    {
        self.dryrun
    }

    /// Mounts `source` at `target` with the literal type, flags and data
    /// given (no type lets the kernel auto-detect).  In dry-run mode
    /// nothing touches the kernel and the operation always succeeds.  On
    /// success the target is appended to the ledger and the operation to
    /// the record; on failure nothing changes and the failing target is
    /// reported.
    pub fn mount_single(
        &mut self,
        source: &str,
        target: &str,
        fstype: Option<&str>,
        flags: MountFlags,
        data: Option<&str>,
    ) -> (r: Result<(), AlmaError>)
        ensures
            final(self).spec_dryrun() == old(self).spec_dryrun(),
            r is Ok ==> (final(self).spec_targets() == old(self).spec_targets().push(target@)
                && final(self).spec_history() == old(self).spec_history().push(
                MountOp::Mount {
                    source: source@,
                    target: target@,
                    fstype: opt_str_view(fstype),
                    flags,
                    data: opt_str_view(data),
                },
            )),
            r matches Err(e) ==> (final(self).spec_targets() == old(self).spec_targets()
                && final(self).spec_history() == old(self).spec_history() && !old(
                self,
            ).spec_dryrun() && (e matches AlmaError::MountFailed { target: t, .. } && t@
                == target@)),
            old(self).spec_dryrun() ==> r is Ok,
    {
        let outcome: Result<(), i32> = if self.dryrun {
            Ok(())
        } else {
            sys::sys_mount(source, target, fstype, &flags, data)
        };
        match outcome {
            Ok(_) => {
                let ghost old_targets = self.targets.deep_view();
                let ghost old_history = self.history.deep_view();
                self.targets.push(target.to_owned());
                let event_fstype: Option<String> = match fstype {
                    Some(t) => Some(t.to_owned()),
                    None => None,
                };
                let event_data: Option<String> = match data {
                    Some(d) => Some(d.to_owned()),
                    None => None,
                };
                let event = MountEvent::Mount {
                    source: source.to_owned(),
                    target: target.to_owned(),
                    fstype: event_fstype,
                    flags,
                    data: event_data,
                };
                proof {
                    assert(event@ == MountOp::Mount {
                        source: source@,
                        target: target@,
                        fstype: opt_str_view(fstype),
                        flags,
                        data: opt_str_view(data),
                    });
                }
                self.history.push(event);
                proof {
                    assert(self.targets.deep_view() =~= old_targets.push(target@));
                    assert(self.history.deep_view() =~= old_history.push(
                        MountOp::Mount {
                            source: source@,
                            target: target@,
                            fstype: opt_str_view(fstype),
                            flags,
                            data: opt_str_view(data),
                        },
                    ));
                }
                Ok(())
            },
            Err(errno) => Err(AlmaError::MountFailed { target: target.to_owned(), errno }),
        }
    }

    /// Mounts a filesystem at `target`, deriving the mount type from the
    /// filesystem's tag and always adding the no-atime performance flag
    /// to whatever the caller supplies.
    pub fn mount<'a, B: BlockDevice>(
        &mut self,
        filesystem: &Filesystem<'a, B>,
        target: &str,
        extra_flags: MountFlags,
    ) -> (r: Result<(), AlmaError>)
        ensures
            final(self).spec_dryrun() == old(self).spec_dryrun(),
            r is Ok ==> (final(self).spec_targets() == old(self).spec_targets().push(target@)
                && final(self).spec_history() == old(self).spec_history().push(
                MountOp::Mount {
                    source: filesystem.spec_block_path(),
                    target: target@,
                    fstype: Some(filesystem.spec_fs_type().spec_mount_type()),
                    flags: extra_flags.spec_with_noatime(),
                    data: None,
                },
            )),
            r matches Err(e) ==> (final(self).spec_targets() == old(self).spec_targets()
                && final(self).spec_history() == old(self).spec_history() && !old(
                self,
            ).spec_dryrun() && (e matches AlmaError::MountFailed { target: t, .. } && t@
                == target@)),
            old(self).spec_dryrun() ==> r is Ok,
    {
        self.mount_single(
            filesystem.block().path(),
            target,
            Some(filesystem.fs_type().to_mount_type()),
            extra_flags.with_noatime(),
            None,
        )
    }

    /// Bind-mounts `source` onto `target` (always with no-atime), used to
    /// share host directories into the mounted tree.
    pub fn bind_mount(&mut self, source: &str, target: &str, options: Option<&str>) -> (r: Result<
        (),
        AlmaError,
    >)
        ensures
            final(self).spec_dryrun() == old(self).spec_dryrun(),
            r is Ok ==> (final(self).spec_targets() == old(self).spec_targets().push(target@)
                && final(self).spec_history() == old(self).spec_history().push(
                MountOp::Mount {
                    source: source@,
                    target: target@,
                    fstype: None,
                    flags: MountFlags::BindNoAtime,
                    data: opt_str_view(options),
                },
            )),
            r matches Err(e) ==> (final(self).spec_targets() == old(self).spec_targets()
                && final(self).spec_history() == old(self).spec_history() && !old(
                self,
            ).spec_dryrun() && (e matches AlmaError::MountFailed { target: t, .. } && t@
                == target@)),
            old(self).spec_dryrun() ==> r is Ok,
    {
        self.mount_single(source, target, None, MountFlags::BindNoAtime, options)
    }

    /// Unmounts every ledgered target, strictly last-in-first-out.  An
    /// individual failure never abandons the sweep: every remaining
    /// target is still attempted (leaving outer mounts attached would be
    /// worse than one reported failure), and only afterwards is an
    /// aggregate error returned, listing exactly the targets whose
    /// attempt failed.  In dry-run mode every attempt succeeds.
    pub fn umount(&mut self) -> (r: Result<(), AlmaError>)
        ensures
            final(self).spec_dryrun() == old(self).spec_dryrun(),
            final(self).spec_targets().len() == 0,
            final(self).spec_history().len() == old(self).spec_history().len() + old(
                self,
            ).spec_targets().len(),
            final(self).spec_history().take(old(self).spec_history().len() as int) == old(
                self,
            ).spec_history(),
            ({
                let tail = final(self).spec_history().skip(old(self).spec_history().len() as int);
                let ts = old(self).spec_targets();
                forall|i: int|
                    0 <= i < tail.len() ==> is_unmount_of(#[trigger] tail[i], ts[ts.len() - 1 - i])
            }),
            ({
                let tail = final(self).spec_history().skip(old(self).spec_history().len() as int);
                old(self).spec_dryrun() ==> spec_failed_targets(tail).len() == 0
            }),
            ({
                let tail = final(self).spec_history().skip(old(self).spec_history().len() as int);
                r is Ok <==> spec_failed_targets(tail).len() == 0
            }),
            r matches Err(e) ==> ({
                let tail = final(self).spec_history().skip(old(self).spec_history().len() as int);
                e matches AlmaError::UnmountFailed { failed } && failed.deep_view()
                    == spec_failed_targets(tail) && failed.deep_view().len() >= 1
            }),
    {
        let ghost ts = old(self).spec_targets();
        let ghost h0 = old(self).spec_history();
        let ghost n = ts.len();
        let mut failed: Vec<String> = Vec::new();
        proof {
            assert(self.spec_targets() =~= ts.take(self.spec_targets().len() as int));
            assert(self.spec_history().take(h0.len() as int) =~= h0);
            assert(self.spec_history().skip(h0.len() as int) =~= Seq::<MountOp>::empty());
            reveal_with_fuel(Seq::<MountOp>::filter, 2);
            assert(failed.deep_view() =~= spec_failed_targets(
                self.spec_history().skip(h0.len() as int),
            ));
        }
        loop
            invariant
                self.spec_dryrun() == old(self).spec_dryrun(),
                ts == old(self).spec_targets(),
                h0 == old(self).spec_history(),
                n == ts.len(),
                self.spec_targets().len() <= n,
                self.spec_targets() == ts.take(self.spec_targets().len() as int),
                self.spec_history().len() == h0.len() + n - self.spec_targets().len(),
                self.spec_history().take(h0.len() as int) == h0,
                ({
                    let tail = self.spec_history().skip(h0.len() as int);
                    forall|i: int|
                        0 <= i < tail.len() ==> is_unmount_of(
                            #[trigger] tail[i],
                            ts[ts.len() - 1 - i],
                        )
                }),
                ({
                    let tail = self.spec_history().skip(h0.len() as int);
                    old(self).spec_dryrun() ==> spec_failed_targets(tail).len() == 0
                }),
                failed.deep_view() == spec_failed_targets(
                    self.spec_history().skip(h0.len() as int),
                ),
            ensures
                self.spec_targets().len() == 0,
            decreases self.spec_targets().len(),
        {
            let ghost pre_targets = self.spec_targets();
            let ghost pre_tail = self.spec_history().skip(h0.len() as int);
            let ghost pre_failed = failed.deep_view();
            let target = match self.targets.pop() {
                Some(t) => t,
                None => { break },
            };
            proof {
                assert(pre_targets.len() > 0);
                assert(self.spec_targets() =~= pre_targets.drop_last());
                assert(self.spec_targets() =~= ts.take(self.spec_targets().len() as int));
                assert(target@ == pre_targets[pre_targets.len() - 1]);
                assert(pre_targets[pre_targets.len() - 1] == ts[pre_targets.len() - 1]);
                assert(target@ == ts[self.spec_targets().len() as int]);
            }
            let ok_flag: bool = if self.dryrun {
                true
            } else {
                match sys::sys_umount(target.as_str()) {
                    Ok(_) => true,
                    Err(_) => false,
                }
            };
            if !ok_flag {
                failed.push(target.clone());
                proof {
                    assert(failed.deep_view() =~= pre_failed.push(target@));
                }
            }
            let event = MountEvent::Unmount { target, ok: ok_flag };
            proof {
                assert(event@ matches MountOp::Unmount { target: t, ok: o } && t == ts[
                    self.spec_targets().len() as int
                ] && o == ok_flag);
            }
            let ghost pre_history = self.spec_history();
            self.history.push(event);
            proof {
                assert(self.spec_history() =~= pre_history.push(event@));
                assert(self.spec_history().take(h0.len() as int) =~= h0);
                let tail = self.spec_history().skip(h0.len() as int);
                assert(tail =~= pre_tail.push(event@));
                let m = self.spec_targets().len() as int;
                assert(is_unmount_of(tail[tail.len() - 1], ts[m]));
                assert(ts.len() - 1 - (tail.len() - 1) == m);
                assert(forall|i: int|
                    0 <= i < pre_tail.len() ==> tail[i] == #[trigger] pre_tail[i]);
                // one step of the failure record: the new attempt is kept
                // exactly when it failed
                reveal_with_fuel(Seq::<MountOp>::filter, 2);
                assert(tail.drop_last() =~= pre_tail);
                assert(failed_pred()(event@) == is_failed_unmount(event@));
                if ok_flag {
                    assert(tail.filter(failed_pred()) == pre_tail.filter(failed_pred()));
                    assert(spec_failed_targets(tail) =~= spec_failed_targets(pre_tail));
                } else {
                    assert(tail.filter(failed_pred()) == pre_tail.filter(failed_pred()).push(
                        event@,
                    ));
                    assert(target_of_fn()(event@) == target@);
                    assert(spec_failed_targets(tail) =~= spec_failed_targets(pre_tail).push(
                        target@,
                    ));
                }
            }
        }
        let ghost tail = self.spec_history().skip(h0.len() as int);
        if failed.len() == 0 {
            proof {
                assert(spec_failed_targets(tail).len() == 0);
            }
            Ok(())
        } else {
            proof {
                assert(failed.deep_view() == spec_failed_targets(tail));
            }
            Err(AlmaError::UnmountFailed { failed })
        }
    }
}

} // verus!
