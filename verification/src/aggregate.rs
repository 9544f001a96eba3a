use vstd::prelude::*;

use crate::errors::AdsysMountError;

verus! {

/// The status returned by a successful mount attempt. `Asked` only marks
/// that anonymous access was granted once while a challenge was answered;
/// a completed attempt reports `Done`.
#[derive(Debug, Clone, Copy, PartialEq, Eq, Structural)]
#[non_exhaustive]
pub enum MountStatus {
    Done,
    Asked,
}

/// What the external mount provider reports about one failed attempt, as
/// far as this logic reads it: whether the failure only says the location
/// is already mounted, and the diagnostic message for the log.
#[derive(Debug, PartialEq)]
pub struct ErrorDescriptor {
    pub already_mounted: bool,
    pub message: String,
}

/// Mathematical model of an `ErrorDescriptor`.
pub struct ErrorDescriptorView {
    pub already_mounted: bool,
    pub message: Seq<char>,
}

impl View for ErrorDescriptor {
    type V = ErrorDescriptorView;

    open spec fn view(&self) -> ErrorDescriptorView {
        ErrorDescriptorView { already_mounted: self.already_mounted, message: self.message@ }
    }
}

/// The result of one mount attempt.
pub type MountResult = Result<MountStatus, ErrorDescriptor>;

/// The message one mount task sends to the aggregator when its attempt
/// completes: the location it worked on and how the attempt ended.
#[derive(Debug)]
pub struct Msg {
    pub path: String,
    pub status: MountResult,
}

/// Mathematical model of a `Msg`.
pub struct MsgView {
    pub path: Seq<char>,
    pub status: Result<MountStatus, ErrorDescriptorView>,
}

impl View for Msg {
    type V = MsgView;

    open spec fn view(&self) -> MsgView {
        MsgView {
            path: self.path@,
            status: match self.status {
                Ok(st) => Ok(st),
                Err(e) => Err(e@),
            },
        }
    }
}

/// One recorded failure: the location and what the provider reported.
#[derive(Debug)]
pub struct MountError {
    pub path: String,
    pub error: ErrorDescriptor,
}

/// Mathematical model of one recorded failure.
pub struct MountErrorView {
    pub path: Seq<char>,
    pub error: ErrorDescriptorView,
}

impl View for MountError {
    type V = MountErrorView;

    open spec fn view(&self) -> MountErrorView {
        MountErrorView { path: self.path@, error: self.error@ }
    }
}

/// A completion that does not force an aggregate failure: a success, or a
/// failure that only reports the location as already mounted.
pub open spec fn msg_ignorable(m: MsgView) -> bool {
    m.status is Err ==> m.status->Err_0.already_mounted
}

/// The aggregate verdict over all completions of one run: success unless
/// some attempt failed for a reason other than the location being already
/// mounted.
pub open spec fn mounts_verdict(msgs: Seq<MsgView>) -> Result<(), AdsysMountError> {
    if forall|i: int| 0 <= i < msgs.len() ==> msg_ignorable(#[trigger] msgs[i]) {
        Ok(())
    } else {
        Err(AdsysMountError::MountError)
    }
}

/// A recorded failure that does not force an aggregate failure.
pub open spec fn failure_ignorable(e: MountErrorView) -> bool {
    e.error.already_mounted
}

/// The verdict computed from the recorded failures alone.
pub open spec fn verdict_of_failures(failures: Seq<MountErrorView>) -> Result<
    (),
    AdsysMountError,
> {
    if forall|i: int| 0 <= i < failures.len() ==> failure_ignorable(#[trigger] failures[i]) {
        Ok(())
    } else {
        Err(AdsysMountError::MountError)
    }
}

/// The failures among a sequence of completions, in arrival order.
pub open spec fn failures_of(msgs: Seq<MsgView>) -> Seq<MountErrorView> {
    msgs.filter(|m: MsgView| m.status is Err).map_values(
        |m: MsgView| MountErrorView { path: m.path, error: m.status->Err_0 },
    )
}

/// The verdict over the recorded failures of a run equals the verdict over
/// all its completions: successes record nothing and decide nothing.
pub proof fn lemma_verdict_via_failures(msgs: Seq<MsgView>)
    ensures
        verdict_of_failures(failures_of(msgs)) == mounts_verdict(msgs),
{
    broadcast use Seq::lemma_filter_pred;
    broadcast use Seq::lemma_filter_contains;
    broadcast use Seq::lemma_filter_contains_rev;

    let pred = |m: MsgView| m.status is Err;
    let mk = |m: MsgView| MountErrorView { path: m.path, error: m.status->Err_0 };
    let flt = msgs.filter(pred);
    if forall|i: int| 0 <= i < msgs.len() ==> msg_ignorable(#[trigger] msgs[i]) {
        assert forall|k: int| 0 <= k < failures_of(msgs).len() implies failure_ignorable(
            #[trigger] failures_of(msgs)[k],
        ) by {
            assert(failures_of(msgs)[k] == mk(flt[k]));
            assert(flt.contains(flt[k]));
            assert(msgs.contains(flt[k]));
            let j = choose|j: int| 0 <= j < msgs.len() && msgs[j] == flt[k];
            assert(msg_ignorable(msgs[j]));
        }
    } else {
        let i = choose|i: int| 0 <= i < msgs.len() && !msg_ignorable(msgs[i]);
        assert(pred(msgs[i]));
        assert(flt.contains(msgs[i]));
        let k = choose|k: int| 0 <= k < flt.len() && flt[k] == msgs[i];
        assert(failures_of(msgs)[k] == mk(msgs[i]));
        assert(!failure_ignorable(failures_of(msgs)[k]));
    }
}

/// Collects completions and decides the aggregate outcome: the count of
/// outstanding attempts and the failures recorded so far. Owned by the
/// event loop alone; mount tasks never touch it directly.
pub struct AggregateState {
    mounts_left: usize,
    errors: Vec<MountError>,
}

/// Mathematical model of the aggregation state.
pub struct AggregateStateView {
    pub pending: nat,
    pub failures: Seq<MountErrorView>,
}

impl View for AggregateState {
    type V = AggregateStateView;

    closed spec fn view(&self) -> AggregateStateView {
        AggregateStateView {
            pending: self.mounts_left as nat,
            failures: self.errors@.map_values(|e: MountError| e@),
        }
    }
}

impl AggregateState {
    /// A fresh aggregator expecting one completion per dispatched request.
    pub fn new(pending: usize) -> (s: Self)
        ensures
            s@.pending == pending,
            s@.failures == Seq::<MountErrorView>::empty(),
    {
        let s = AggregateState { mounts_left: pending, errors: Vec::new() };
        proof {
            assert(s.errors@.map_values(|e: MountError| e@) =~= Seq::<MountErrorView>::empty());
        }
        s
    }

    /// True once every outstanding attempt has completed.
    pub fn is_done(&self) -> (done: bool)
        ensures
            done == (self@.pending == 0),
    {
        self.mounts_left == 0
    }

    /// Consumes one completion: the outstanding count falls by exactly one,
    /// a failure is recorded, a success is recorded nowhere. Returns whether
    /// the event loop must keep running — false exactly when this was the
    /// last outstanding attempt.
    pub fn process_msg(&mut self, msg: Msg) -> (keep_running: bool)
        requires
            old(self)@.pending > 0,
        ensures
            final(self)@.pending == old(self)@.pending - 1,
            final(self)@.failures == (if msg@.status is Err {
                old(self)@.failures.push(
                    MountErrorView { path: msg@.path, error: msg@.status->Err_0 },
                )
            } else {
                old(self)@.failures
            }),
            keep_running == (final(self)@.pending != 0),
    {
        let ghost before = self.errors@;
        let Msg { path, status } = msg;
        match status {
            Err(error) => {
                self.errors.push(MountError { path, error });
                proof {
                    assert(self.errors@.map_values(|e: MountError| e@) =~= before.map_values(
                        |e: MountError| e@,
                    ).push(MountErrorView { path: msg@.path, error: msg@.status->Err_0 }));
                }
            },
            Ok(MountStatus::Done) => {},
            _ => {},
        }
        self.mounts_left = self.mounts_left - 1;
        self.mounts_left != 0
    }

    /// The final decision once the loop has stopped: success unless some
    /// recorded failure reports more than an already-mounted location. Every
    /// failure was recorded in arrival order and stays available here for
    /// diagnostics.
    pub fn verdict(&self) -> (r: Result<(), AdsysMountError>)
        ensures
            r == verdict_of_failures(self@.failures),
    {
        let n = self.errors.len();
        let mut i: usize = 0;
        while i < n
            invariant
                n == self.errors.len(),
                i <= n,
                forall|k: int| 0 <= k < i ==> failure_ignorable(#[trigger] self@.failures[k]),
            decreases n - i,
        {
            if !self.errors[i].error.already_mounted {
                proof {
                    assert(!failure_ignorable(self@.failures[i as int]));
                }
                return Err(AdsysMountError::MountError);
            }
            i = i + 1;
        }
        Ok(())
    }
}

/// Builds the completion message a mount task sends for its location: the
/// provider's raw completion with a unit success mapped to
/// `MountStatus::Done`.
pub fn completion_to_msg(path: String, completion: Result<(), ErrorDescriptor>) -> (m: Msg)
    ensures
        m@.path == path@,
        completion is Ok ==> m@.status == Ok::<MountStatus, ErrorDescriptorView>(
            MountStatus::Done,
        ),
        completion is Err ==> m@.status == Err::<MountStatus, ErrorDescriptorView>(
            completion->Err_0@,
        ),
{
    match completion {
        Ok(()) => Msg { path, status: Ok(MountStatus::Done) },
        Err(e) => Msg { path, status: Err(e) },
    }
}

/// Law: a manifest with no non-empty line dispatches nothing, so its run has
/// no completions, and the aggregate verdict over them is success.
pub proof fn lemma_empty_manifest_success(content: Seq<char>, msgs: Seq<MsgView>)
    requires
        crate::parser::entries_of(content).len() == 0,
        msgs.len() == crate::parser::entries_of(content).len(),
    ensures
        mounts_verdict(msgs) == Ok::<(), AdsysMountError>(()),
{
}

/// Law (idempotence): if every completion reports a failure whose only
/// complaint is that the location is already mounted, the aggregate verdict
/// is success — re-running against an already-satisfied mount state is not
/// an error.
pub proof fn lemma_already_mounted_is_success(msgs: Seq<MsgView>)
    requires
        forall|i: int|
            0 <= i < msgs.len() ==> (#[trigger] msgs[i]).status is Err
                && msgs[i].status->Err_0.already_mounted,
    ensures
        mounts_verdict(msgs) == Ok::<(), AdsysMountError>(()),
{
}

/// Law: one failure of any other kind decides the run as `MountError`, no
/// matter how many successes or already-mounted failures accompany it.
pub proof fn lemma_real_failure_is_mount_error(msgs: Seq<MsgView>, i: int)
    requires
        0 <= i < msgs.len(),
        msgs[i].status is Err,
        !msgs[i].status->Err_0.already_mounted,
    ensures
        mounts_verdict(msgs) == Err::<(), AdsysMountError>(AdsysMountError::MountError),
{
    assert(!msg_ignorable(msgs[i]));
}

proof fn lemma_bad_msg_transfers(a: Seq<MsgView>, b: Seq<MsgView>, i: int)
    requires
        a.to_multiset() == b.to_multiset(),
        0 <= i < a.len(),
        !msg_ignorable(a[i]),
    ensures
        exists|j: int| 0 <= j < b.len() && !msg_ignorable(#[trigger] b[j]),
{
    a.to_multiset_ensures();
    b.to_multiset_ensures();
    assert(a.contains(a[i]));
    assert(b.to_multiset().count(a[i]) > 0);
    assert(b.contains(a[i]));
    let j = choose|j: int| 0 <= j < b.len() && b[j] == a[i];
    assert(!msg_ignorable(b[j]));
}

/// Law (commutativity): the aggregate verdict does not depend on the order
/// in which completions arrive — two arrival orders of the same multiset of
/// completions yield the same verdict.
pub proof fn lemma_verdict_permutation_invariant(msgs1: Seq<MsgView>, msgs2: Seq<MsgView>)
    requires
        msgs1.to_multiset() == msgs2.to_multiset(),
    ensures
        mounts_verdict(msgs1) == mounts_verdict(msgs2),
{
    if mounts_verdict(msgs1) is Err && mounts_verdict(msgs2) is Ok {
        let i = choose|i: int| 0 <= i < msgs1.len() && !msg_ignorable(#[trigger] msgs1[i]);
        lemma_bad_msg_transfers(msgs1, msgs2, i);
        assert(false);
    }
    if mounts_verdict(msgs2) is Err && mounts_verdict(msgs1) is Ok {
        let i = choose|i: int| 0 <= i < msgs2.len() && !msg_ignorable(#[trigger] msgs2[i]);
        lemma_bad_msg_transfers(msgs2, msgs1, i);
        assert(false);
    }
}

} // verus!
