use crate::block::BlockItem;
use crate::error::ErrorCode;
use std::sync::Arc;
use tokio::sync::mpsc::Receiver;
use tokio::sync::mpsc::Sender;
use vstd::pervasive::VecAdditionalExecFns;
use vstd::prelude::*;
use vstd::rwlock::RwLock;
use vstd::rwlock::RwLockPredicate;

verus! {

/// Largest capacity a bounded channel accepts (tokio's semaphore limit);
/// the worker keeps its input list below this bound so that a channel with
/// one slot of headroom per upstream can always be built.
pub const MAX_CHANNEL_CAPACITY: usize = usize::MAX / 8;

#[verifier::external_type_specification]
#[verifier::external_body]
#[verifier::reject_recursive_types(T)]
pub struct ExSender<T>(Sender<T>);

#[verifier::external_type_specification]
#[verifier::external_body]
#[verifier::reject_recursive_types(T)]
pub struct ExReceiver<T>(Receiver<T>);

/// Relies on tokio::sync::mpsc::channel: builds one bounded channel of the
/// given capacity. The call panics only on a zero capacity or one above the
/// semaphore limit, both of which the precondition excludes.
#[verifier::external_body]
fn block_channel(capacity: usize) -> (r: (Sender<BlockItem>, Receiver<BlockItem>))
    requires
        1 <= capacity <= MAX_CHANNEL_CAPACITY,
{
    tokio::sync::mpsc::channel(capacity)
}

/// Relies on Arc::clone: the clone is a new reference to the same
/// allocation, hence to the same value.
#[verifier::external_body]
fn share_arc<T>(v: &Arc<T>) -> (r: Arc<T>)
    ensures
        r == *v,
{
    Arc::clone(v)
}

/// Whether slot `index` of an output-slot table still holds its reserved
/// receiving end.
pub open spec fn slot_available(slots: Seq<Option<Receiver<BlockItem>>>, index: int) -> bool {
    0 <= index < slots.len() && slots[index] is Some
}

/// The shared engine behind all handles of one mixing stage: it owns the
/// upstream list, the one-shot start flag, the handle counter, and the
/// single-use receiving ends of the `n` output slots.
pub struct MixedWorker<T> {
    /// Registered upstream stages, in registration order.
    pub inputs: Vec<T>,
    /// Fan-out width, fixed at creation.
    pub n: usize,
    /// How many handles (creator plus shares) have been issued.
    pub shared_num: usize,
    /// Whether the pumping apparatus has been built.
    pub started: bool,
    /// Slot `i` holds the receiving end reserved for handle `i` until that
    /// handle's first execution consumes it; empty before the start.
    pub receivers: Vec<Option<Receiver<BlockItem>>>,
}

impl<T> MixedWorker<T> {
    /// The structural invariant of every worker reachable through a handle.
    pub open spec fn wf(&self) -> bool {
        &&& 1 <= self.n
        &&& self.shared_num <= self.n
        &&& self.inputs.len() <= MAX_CHANNEL_CAPACITY
        &&& self.receivers.len() == if self.started {
            self.n as int
        } else {
            0
        }
    }

    /// A fresh worker of fan-out width `n`: no upstream registered, nothing
    /// started, no handle issued yet.
    pub fn new(n: usize) -> (w: Self)
        requires
            1 <= n,
        ensures
            w.wf(),
            w.n == n,
            w.shared_num == 0,
            !w.started,
            w.inputs.len() == 0,
    {
        MixedWorker {
            inputs: Vec::new(),
            n,
            shared_num: 0,
            started: false,
            receivers: Vec::new(),
        }
    }

    /// Whether a request for one more handle is granted in this state.
    pub open spec fn share_granted(&self) -> bool {
        self.shared_num < self.n
    }

    /// The outcome of one request for a handle: the slot index granted, or
    /// the overflow error.
    pub open spec fn share_outcome(&self) -> Result<usize, ErrorCode> {
        if self.share_granted() {
            Ok(self.shared_num)
        } else {
            Err(ErrorCode::LogicalError)
        }
    }

    /// The worker state after one request for a handle: the counter has
    /// advanced exactly when the request was granted.
    pub open spec fn share_state(&self) -> MixedWorker<T> {
        if self.share_granted() {
            MixedWorker {
                inputs: self.inputs,
                n: self.n,
                shared_num: (self.shared_num + 1) as usize,
                started: self.started,
                receivers: self.receivers,
            }
        } else {
            *self
        }
    }

    /// Grants the next free output-slot index, or fails with the overflow
    /// error once all `n` slots are spoken for. A failed request changes
    /// nothing, so a retry fails the same way; a granted request returns an
    /// index below the width that no earlier request returned.
    pub fn issue_share_index(&mut self) -> (r: Result<usize, ErrorCode>)
        requires
            old(self).wf(),
        ensures
            final(self).wf(),
            r == old(self).share_outcome(),
            *final(self) == old(self).share_state(),
    {
        if self.shared_num < self.n {
            let index = self.shared_num;
            self.shared_num = self.shared_num + 1;
            Ok(index)
        } else {
            Err(ErrorCode::LogicalError)
        }
    }

    /// Registers one upstream. Fails with the programming error only when
    /// the list has reached the widest channel the fan-in could mirror.
    pub fn push_input(&mut self, input: T) -> (r: Result<(), ErrorCode>)
        requires
            old(self).wf(),
        ensures
            final(self).wf(),
            old(self).inputs.len() < MAX_CHANNEL_CAPACITY ==> r == Ok::<(), ErrorCode>(())
                && final(self).inputs@ == old(self).inputs@.push(input),
            old(self).inputs.len() >= MAX_CHANNEL_CAPACITY ==> r == Err::<(), ErrorCode>(
                ErrorCode::TooManyInputs,
            ) && *final(self) == *old(self),
            final(self).n == old(self).n,
            final(self).shared_num == old(self).shared_num,
            final(self).started == old(self).started,
            final(self).receivers == old(self).receivers,
    {
        if self.inputs.len() < MAX_CHANNEL_CAPACITY {
            self.inputs.push(input);
            Ok(())
        } else {
            Err(ErrorCode::TooManyInputs)
        }
    }

    /// Builds the fan-in channel: one bounded channel with one slot of
    /// buffering headroom per upstream. Fails with the configuration error
    /// exactly when no upstream is registered. The caller hands each
    /// upstream's pump task a clone of the sending end and reads the merged
    /// arrival-order stream from the receiving end.
    pub fn prepare_inputstream(&self) -> (r: Result<
        (Sender<BlockItem>, Receiver<BlockItem>),
        ErrorCode,
    >)
        requires
            self.inputs.len() <= MAX_CHANNEL_CAPACITY,
        ensures
            r is Ok <==> self.inputs.len() > 0,
            self.inputs.len() == 0 ==> r == Err::<
                (Sender<BlockItem>, Receiver<BlockItem>),
                ErrorCode,
            >(ErrorCode::IllegalTransformConnectionState),
    {
        if self.inputs.len() == 0 {
            Err(ErrorCode::IllegalTransformConnectionState)
        } else {
            Ok(block_channel(self.inputs.len()))
        }
    }

    /// Whether a call of `start` in this state is the one that builds and
    /// spawns the pumping apparatus.
    pub open spec fn start_spawns(&self) -> bool {
        !self.started && self.inputs.len() > 0
    }


    /// The outcome of consuming slot `index`: the reserved receiving end,
    /// or the programming error when the slot was already consumed.
    pub open spec fn take_outcome(&self, index: int) -> Result<Receiver<BlockItem>, ErrorCode> {
        if slot_available(self.receivers@, index) {
            Ok(self.receivers@[index]->0)
        } else {
            Err(ErrorCode::ReceiverAlreadyTaken)
        }
    }

    /// The slot table after consuming slot `index`.
    pub open spec fn take_post_slots(&self, index: int) -> Seq<Option<Receiver<BlockItem>>> {
        if slot_available(self.receivers@, index) {
            self.receivers@.update(index, None)
        } else {
            self.receivers@
        }
    }

    /// Consumes the receiving end reserved for slot `index`: hands it out
    /// the first time, and fails with the programming error — a handle
    /// executed twice — once the slot is empty. Either way the slot is
    /// empty afterwards, and no other slot changes.
    pub fn take_receiver(&mut self, index: usize) -> (r: Result<Receiver<BlockItem>, ErrorCode>)
        requires
            old(self).wf(),
            index < old(self).receivers.len(),
        ensures
            final(self).wf(),
            r == old(self).take_outcome(index as int),
            final(self).receivers@ == old(self).take_post_slots(index as int),
            !slot_available(final(self).receivers@, index as int),
            final(self).n == old(self).n,
            final(self).inputs == old(self).inputs,
            final(self).shared_num == old(self).shared_num,
            final(self).started == old(self).started,
    {
        let mut slot: Option<Receiver<BlockItem>> = None;
        self.receivers.set_and_swap(index, &mut slot);
        match slot {
            Some(receiver) => Ok(receiver),
            None => {
                proof {
                    assert(self.receivers@ =~= old(self).receivers@);
                }
                Err(ErrorCode::ReceiverAlreadyTaken)
            },
        }
    }
}

impl<T: Clone> MixedWorker<T> {
    /// Builds the pumping apparatus at most once, committing only on a
    /// successful spawn. Already started: nothing happens. Not started and
    /// no upstream registered: the configuration error, with nothing
    /// changed. Otherwise this is the one starting call: the channel ends
    /// are built, the given spawner launches the branch pumps and the
    /// distributor from them inside the same critical section, and only if
    /// it succeeds does the worker keep the filled slot table and the
    /// started mark — a failed spawn rolls everything back and hands its
    /// error up, so a later call may attempt the start again.
    pub fn start<F: FnOnce(StartPlan<T>) -> Result<(), ErrorCode>>(&mut self, spawner: F) -> (r:
        Result<(), ErrorCode>)
        requires
            old(self).wf(),
            forall|plan: StartPlan<T>| #[trigger] spawner.requires((plan,)),
        ensures
            final(self).wf(),
            final(self).n == old(self).n,
            final(self).inputs == old(self).inputs,
            final(self).shared_num == old(self).shared_num,
            (final(self).started <==> (old(self).started || (old(self).start_spawns() && r
                is Ok))),
            old(self).started ==> r == Ok::<(), ErrorCode>(()) && *final(self) == *old(self),
            !old(self).started && old(self).inputs.len() == 0 ==> r == Err::<(), ErrorCode>(
                ErrorCode::IllegalTransformConnectionState,
            ) && *final(self) == *old(self),
            old(self).start_spawns() && r is Ok ==> {
                &&& final(self).receivers.len() == old(self).n
                &&& forall|i: int| 0 <= i < old(self).n ==> slot_available(final(self).receivers@, i)
            },
            old(self).start_spawns() && r is Err ==> final(self).receivers@ == old(
                self,
            ).receivers@,
            old(self).start_spawns() ==> (exists|plan: StartPlan<T>, out: Result<(), ErrorCode>|
                #[trigger] spawner.ensures((plan,), out) && out == r && plan.out_senders@.len()
                    == old(self).n && plan.inputs@.len() == old(self).inputs@.len()),
    {
        if self.started {
            return Ok(());
        }
        let fan_in = match self.prepare_inputstream() {
            Err(e) => {
                return Err(e);
            },
            Ok(pair) => pair,
        };
        let ghost w0 = *self;
        let mut out_senders: Vec<Sender<BlockItem>> = Vec::new();
        let mut i: usize = 0;
        while i < self.n
            invariant
                self.n == w0.n,
                self.inputs == w0.inputs,
                self.shared_num == w0.shared_num,
                self.started == w0.started,
                !w0.started,
                w0.shared_num <= w0.n,
                1 <= w0.n,
                1 <= w0.inputs.len() <= MAX_CHANNEL_CAPACITY,
                i <= w0.n,
                out_senders.len() == i,
                self.receivers.len() == i,
                forall|k: int| 0 <= k < i ==> slot_available(self.receivers@, k),
            decreases w0.n - i,
        {
            let (sender, receiver) = block_channel(self.inputs.len());
            out_senders.push(sender);
            let ghost pre = self.receivers@;
            self.receivers.push(Some(receiver));
            proof {
                assert forall|k: int| 0 <= k < i + 1 implies slot_available(
                    self.receivers@,
                    k,
                ) by {
                    if k < i {
                        assert(slot_available(pre, k));
                        assert(self.receivers@[k] == pre[k]);
                    } else {
                        assert(self.receivers@[k] == Some(receiver));
                    }
                }
            }
            i += 1;
        }
        let plan = StartPlan {
            inputs: self.inputs.clone(),
            fan_in_sender: fan_in.0,
            merged: fan_in.1,
            out_senders,
        };
        let ghost issued_plan = plan;
        let outcome = spawner(plan);
        proof {
            // The call's own guarantee is the witness for the spawner
            // clauses of the contract.
            assert(spawner.ensures((issued_plan,), outcome));
        }
        match outcome {
            Ok(unit) => {
                self.started = true;
                Ok(unit)
            },
            Err(e) => {
                // Roll the slot table back: the channel ends just built
                // drop with the plan, and the worker is startable again.
                self.receivers = Vec::new();
                proof {
                    assert(self.receivers@ =~= old(self).receivers@);
                }
                Err(e)
            },
        }
    }
}

/// However many handles race through the lock to start the shared worker,
/// only the first successful start builds and spawns the task graph: every
/// state a successful start leaves behind is marked started, and a started
/// worker never spawns again.
pub proof fn lemma_start_spawns_at_most_once<T>(w: MixedWorker<T>)
    requires
        w.started,
    ensures
        !w.start_spawns(),
{
}

/// Share overflow is deterministic: once the issued-handle counter has
/// reached the fan-out width, a share request fails with the overflow
/// error and changes nothing, so every retry fails the same way.
pub proof fn lemma_share_overflow_is_sticky<T>(w: MixedWorker<T>)
    requires
        w.shared_num >= w.n,
    ensures
        w.share_outcome() == Err::<usize, ErrorCode>(ErrorCode::LogicalError),
        w.share_state() == w,
        w.share_state().share_outcome() == Err::<usize, ErrorCode>(ErrorCode::LogicalError),
{
}

/// Granted slot indexes never collide and never leave the width: a grant
/// returns the current counter value, below `n`, and advances the counter
/// past it, so no later grant can repeat it.
pub proof fn lemma_granted_index_fresh<T>(w: MixedWorker<T>)
    requires
        w.share_granted(),
    ensures
        w.share_outcome() == Ok::<usize, ErrorCode>(w.shared_num),
        w.shared_num < w.n,
        w.share_state().shared_num == w.shared_num + 1,
{
}

/// An output slot is single use: whatever state a consume of slot `index`
/// leaves behind — the receiving end handed out, or the slot found already
/// empty — the slot is empty there, and consuming it again fails with the
/// programming error.
pub proof fn lemma_slot_single_use<T>(w: MixedWorker<T>, w2: MixedWorker<T>, index: int)
    requires
        0 <= index < w.receivers@.len(),
        w2.receivers@ == w.take_post_slots(index),
    ensures
        !slot_available(w2.receivers@, index),
        w2.take_outcome(index) == Err::<Receiver<BlockItem>, ErrorCode>(
            ErrorCode::ReceiverAlreadyTaken,
        ),
{
}

/// The lock invariant every handle maintains on its shared worker: the
/// worker is well formed and keeps the fan-out width fixed at creation.
pub struct MixedPred {
    pub n: usize,
}

impl<T> RwLockPredicate<MixedWorker<T>> for MixedPred {
    open spec fn inv(self, w: MixedWorker<T>) -> bool {
        w.wf() && w.n == self.n
    }
}

/// One consumer-facing front of a shared mixing worker: a shared reference
/// to the worker, and the output slot this handle owns. The creator and
/// all shares issued from it drive the same worker; structural changes go
/// through the worker's lock, one handle at a time.
pub struct MixedProcessor<T> {
    worker: Arc<RwLock<MixedWorker<T>, MixedPred>>,
    index: usize,
}

impl<T> MixedProcessor<T> {
    /// The fan-out width the shared worker was created with.
    pub closed spec fn width(&self) -> usize {
        self.worker.pred().n
    }

    /// The output slot this handle owns.
    pub closed spec fn slot(&self) -> usize {
        self.index
    }

    /// A handle is well formed when its slot lies inside the fan-out width.
    pub open spec fn wf(&self) -> bool {
        self.slot() < self.width()
    }

    /// Whether two handles front the same worker.
    pub closed spec fn shares_worker_with(&self, other: &Self) -> bool {
        self.worker == other.worker
    }

    /// The slot index this handle owns, as a value.
    pub fn slot_index(&self) -> (i: usize)
        ensures
            i == self.slot(),
    {
        self.index
    }

    /// The stage's diagnostic name.
    pub fn name(&self) -> (r: &'static str)
        ensures
            r@ == "MixedProcessor"@,
    {
        "MixedProcessor"
    }

    /// Creates a fresh worker of fan-out width `n` together with the
    /// creator handle, which owns slot 0; the worker then counts one handle
    /// issued.
    pub fn create(n: usize) -> (h: Self)
        requires
            1 <= n,
        ensures
            h.wf(),
            h.slot() == 0,
            h.width() == n,
    {
        let mut worker = MixedWorker::new(n);
        let issued = worker.issue_share_index();
        let index = match issued {
            Ok(i) => i,
            Err(_) => 0,
        };
        let lock = RwLock::new(worker, Ghost(MixedPred { n }));
        MixedProcessor { worker: Arc::new(lock), index }
    }

    /// Issues one more handle against the same worker, owning the next
    /// free slot. Fails with the overflow error once all `n` slots are
    /// issued; a failed request leaves the worker's bookkeeping unchanged,
    /// so a retry fails the same way.
    pub fn share(&self) -> (r: Result<Self, ErrorCode>)
        requires
            self.wf(),
        ensures
            (r matches Ok(h) ==> h.wf() && h.width() == self.width() && self.shares_worker_with(
                &h,
            )),
            (r matches Err(e) ==> e == ErrorCode::LogicalError),
    {
        let (mut w, wh) = self.worker.acquire_write();
        let issued = w.issue_share_index();
        wh.release_write(w);
        match issued {
            Ok(index) => Ok(MixedProcessor { worker: share_arc(&self.worker), index }),
            Err(e) => Err(e),
        }
    }

    /// Registers one upstream with the shared worker; every handle of the
    /// worker sees it. Fails with the programming error only when the
    /// upstream list has reached the widest channel the fan-in could
    /// mirror.
    pub fn connect_to(&self, input: T) -> (r: Result<(), ErrorCode>)
        requires
            self.wf(),
        ensures
            (r matches Err(e) ==> e == ErrorCode::TooManyInputs),
    {
        let (mut w, wh) = self.worker.acquire_write();
        let pushed = w.push_input(input);
        wh.release_write(w);
        pushed
    }

}

impl<T: Clone> MixedProcessor<T> {
    /// Starts the shared worker if no handle has yet — the given spawner
    /// launches the task plan inside the same critical section, and the
    /// worker counts as started only once a spawn succeeded — then
    /// consumes this handle's reserved receiving end. Fails with the
    /// configuration error when no upstream is registered, with the
    /// spawner's own error when the runtime rejected the tasks (the start
    /// is then rolled back and can be attempted again), and with the
    /// programming error when this handle already executed and its slot is
    /// empty. On success the caller reads this handle's output from the
    /// receiving end.
    pub fn execute<F: FnOnce(StartPlan<T>) -> Result<(), ErrorCode>>(&self, spawner: F) -> (r:
        Result<Receiver<BlockItem>, ErrorCode>)
        requires
            self.wf(),
            forall|plan: StartPlan<T>| #[trigger] spawner.requires((plan,)),
        ensures
            (r matches Err(e) ==> e == ErrorCode::IllegalTransformConnectionState || e
                == ErrorCode::ReceiverAlreadyTaken || (exists|
                plan: StartPlan<T>,
                out: Result<(), ErrorCode>,
            |
                #[trigger] spawner.ensures((plan,), out) && out == Err::<(), ErrorCode>(e))),
    {
        let (mut w, wh) = self.worker.acquire_write();
        match w.start(spawner) {
            Err(e) => {
                wh.release_write(w);
                return Err(e);
            },
            Ok(()) => {},
        }
        let taken = w.take_receiver(self.index);
        wh.release_write(w);
        taken
    }

    /// A snapshot of the registered upstreams, in registration order. The
    /// lock hides the worker's current list from contracts, but the list
    /// never outgrows the widest channel the fan-in could mirror.
    pub fn inputs(&self) -> (r: Vec<T>)
        ensures
            r@.len() <= MAX_CHANNEL_CAPACITY,
    {
        let handle = self.worker.acquire_read();
        let snapshot = handle.borrow().inputs.clone();
        handle.release_read();
        snapshot
    }
}

/// The channel ends and upstream list the one starting call hands to its
/// spawner: one pump task per upstream around a clone of `fan_in_sender`,
/// and one distributor task that routes `merged` round-robin into
/// `out_senders`.
pub struct StartPlan<T> {
    /// Clones of the registered upstreams, in registration order.
    pub inputs: Vec<T>,
    /// Sending end of the fan-in channel, cloned once per branch pump.
    pub fan_in_sender: Sender<BlockItem>,
    /// Receiving end of the fan-in channel: the merged stream.
    pub merged: Receiver<BlockItem>,
    /// Sending ends of the `n` output channels, in slot order.
    pub out_senders: Vec<Sender<BlockItem>>,
}

} // verus!
