use vstd::prelude::*;

use crate::command::{command_of, Command, DeviceRequest, Operation, Output, Reply};
use crate::deadline::{due_spec, Deadline};
use crate::error::ErrorKind;
use crate::gate::{fires_spec, next_state, seeded_state, ProbabilisticGate, RATIO_ONE};
use crate::lump::{zeros, LumpData, LumpDataView, MAX_SIZE};
use crate::queue::{elapsed, scheduled_before, DeadlineQueue, OverloadDetector, QueueEntry};
use crate::storage::{
    has_id, ids_in, ids_of, misaligned, stored_after_delete, stored_after_put, usage_after_put,
    usage_in, without, id_limit, LumpHeader, Storage, StorageView,
};

verus! {

/// The lifecycle state of a device: starting, then running, then stopped.
#[derive(Clone, Copy, Debug, PartialEq, Eq, Structural, Hash)]
pub enum DeviceStatus {
    /// The storage is being initialised.
    Starting,
    /// Requests are being served.
    Running,
    /// The device has exited, normally or not.
    Stopped,
}

/// Position of a status in the lifecycle; it never decreases.
pub open spec fn stage(s: DeviceStatus) -> int {
    match s {
        DeviceStatus::Starting => 0,
        DeviceStatus::Running => 1,
        DeviceStatus::Stopped => 2,
    }
}

impl DeviceStatus {
    /// The numeric code of the status: stopped 0, starting 1, running 2.
    pub fn code(&self) -> (r: u8)
        ensures
            r == match *self {
                DeviceStatus::Stopped => 0u8,
                DeviceStatus::Starting => 1u8,
                DeviceStatus::Running => 2u8,
            },
    {
        match self {
            DeviceStatus::Stopped => 0,
            DeviceStatus::Starting => 1,
            DeviceStatus::Running => 2,
        }
    }
}

/// What a device does when its queue stays long.
///
/// Ratios are probabilities in parts per million (`RATIO_ONE` is certainty).
#[derive(Clone, Copy, Debug, PartialEq, Eq, Structural, Hash)]
pub enum LongQueuePolicy {
    /// Refuse new requests at admission with the given probability.
    RefuseNewRequests { ratio: u32 },
    /// Stop the device.
    Stop,
    /// Drop requests at dispatch with the given probability.
    Drop { ratio: u32 },
}

impl LongQueuePolicy {
    /// The default policy: refuse every new request while overloaded.
    pub fn default_policy() -> (r: LongQueuePolicy)
        ensures
            r == (LongQueuePolicy::RefuseNewRequests { ratio: RATIO_ONE }),
    {
        LongQueuePolicy::RefuseNewRequests { ratio: RATIO_ONE }
    }
}

impl Default for LongQueuePolicy {
    fn default() -> (r: LongQueuePolicy)
        ensures
            r == (LongQueuePolicy::RefuseNewRequests { ratio: RATIO_ONE }),
    {
        LongQueuePolicy::default_policy()
    }
}

/// Configuration of a device.
#[derive(Clone, Copy, Debug, PartialEq, Eq, Structural)]
pub struct DeviceBuilder {
    pub busy_threshold: usize,
    /// Milliseconds the queue must stay busy before the policy reacts.
    pub max_keep_busy_duration: u64,
    pub long_queue_policy: LongQueuePolicy,
    /// A hard cap on the queue length for requests that are not prioritized.
    pub max_queue_len: Option<usize>,
    pub seed: u64,
}

impl DeviceBuilder {
    /// The default configuration: the overload detector never reports
    /// overload, the policy is to refuse, and there is no hard cap.
    pub fn new() -> (r: DeviceBuilder)
        ensures
            r == (DeviceBuilder {
                busy_threshold: usize::MAX,
                max_keep_busy_duration: 0,
                long_queue_policy: LongQueuePolicy::RefuseNewRequests { ratio: RATIO_ONE },
                max_queue_len: None,
                seed: 0,
            }),
    {
        DeviceBuilder {
            busy_threshold: usize::MAX,
            max_keep_busy_duration: 0,
            long_queue_policy: LongQueuePolicy::default_policy(),
            max_queue_len: None,
            seed: 0,
        }
    }

    pub fn busy_threshold(self, n: usize) -> (r: DeviceBuilder)
        ensures
            r == (DeviceBuilder { busy_threshold: n, ..self }),
    {
        DeviceBuilder { busy_threshold: n, ..self }
    }

    pub fn max_keep_busy_duration(self, ms: u64) -> (r: DeviceBuilder)
        ensures
            r == (DeviceBuilder { max_keep_busy_duration: ms, ..self }),
    {
        DeviceBuilder { max_keep_busy_duration: ms, ..self }
    }

    pub fn long_queue_policy(self, policy: LongQueuePolicy) -> (r: DeviceBuilder)
        ensures
            r == (DeviceBuilder { long_queue_policy: policy, ..self }),
    {
        DeviceBuilder { long_queue_policy: policy, ..self }
    }

    pub fn max_queue_len(self, n: usize) -> (r: DeviceBuilder)
        ensures
            r == (DeviceBuilder { max_queue_len: Some(n), ..self }),
    {
        DeviceBuilder { max_queue_len: Some(n), ..self }
    }

    pub fn seed(self, seed: u64) -> (r: DeviceBuilder)
        ensures
            r == (DeviceBuilder { seed, ..self }),
    {
        DeviceBuilder { seed, ..self }
    }

    /// A device with this configuration, in the starting state.
    pub fn spawn(self) -> (r: Device)
        ensures
            r.wf(),
            r.status() == DeviceStatus::Starting,
            r.config() == self,
            r.queue().len() == 0,
            r.held().len() == 0,
            r.busy_since() is None,
            r.next_ticket() == 0,
            r.next_seq() == 0,
            r.gate_state() == seeded_state(self.seed),
            r.exit() is None,
            r.storage_view() is None,
    {
        Device::new(self)
    }
}

/// What clients can observe of a device.
#[derive(Clone, Copy, Debug, PartialEq, Eq, Structural)]
pub struct DeviceMetrics {
    pub status: DeviceStatus,
    /// The storage's block size, once the storage is running.
    pub block_size: Option<u16>,
    pub queue_len: usize,
}

/// A client's view of a device: builds requests and allocates lump data.
#[derive(Clone, Copy, Debug, PartialEq, Eq, Structural)]
pub struct DeviceHandle {
    metrics: DeviceMetrics,
}

impl DeviceHandle {
    pub closed spec fn metrics_spec(&self) -> DeviceMetrics {
        self.metrics
    }

    /// A handle that sees the device as `metrics` describes it.
    pub fn from_metrics(metrics: DeviceMetrics) -> (r: DeviceHandle)
        ensures
            r.metrics_spec() == metrics,
    {
        DeviceHandle { metrics }
    }

    /// A request builder with default settings.
    pub fn request(&self) -> (r: DeviceRequest)
        ensures
            r == (DeviceRequest {
                deadline: Deadline::Infinity,
                prioritized: false,
                wait_for_running: false,
                journal_sync: false,
            }),
    {
        DeviceRequest::new()
    }

    pub fn metrics(&self) -> (r: &DeviceMetrics)
        ensures
            *r == self.metrics_spec(),
    {
        &self.metrics
    }

    /// `size` zero bytes, aligned to the storage's blocks when the device runs.
    ///
    /// While the device starts or after it stopped no block size is known, and
    /// the data is plain.
    pub fn allocate_lump_data(&self, size: usize) -> (r: Result<LumpData, ErrorKind>)
        ensures
            size <= MAX_SIZE <==> r is Ok,
            r is Err ==> r->Err_0 == ErrorKind::InvalidInput,
            r is Ok ==> r->Ok_0@ == (LumpDataView {
                bytes: zeros(size as nat),
                embedded: false,
                block_size: self.metrics_spec().block_size,
            }),
    {
        match self.metrics.block_size {
            Some(bs) => LumpData::aligned_allocate(size, bs),
            None => {
                if size > MAX_SIZE {
                    return Err(ErrorKind::InvalidInput);
                }
                let mut bytes: Vec<u8> = Vec::new();
                let mut i: usize = 0;
                while i < size
                    invariant
                        0 <= i <= size,
                        bytes@ == zeros(i as nat),
                    decreases size - i,
                {
                    bytes.push(0u8);
                    i = i + 1;
                    assert(bytes@ =~= zeros(i as nat));
                }
                LumpData::new(bytes)
            },
        }
    }

    /// Like `allocate_lump_data`, with the bytes of `bytes`.
    pub fn allocate_lump_data_with_bytes(&self, bytes: &[u8]) -> (r: Result<LumpData, ErrorKind>)
        ensures
            bytes@.len() <= MAX_SIZE <==> r is Ok,
            r is Err ==> r->Err_0 == ErrorKind::InvalidInput,
            r is Ok ==> r->Ok_0@ == (LumpDataView {
                bytes: bytes@,
                embedded: false,
                block_size: self.metrics_spec().block_size,
            }),
    {
        let mut data = match self.allocate_lump_data(bytes.len()) {
            Ok(d) => d,
            Err(e) => return Err(e),
        };
        data.copy_from(bytes);
        Ok(data)
    }
}

/// A submitted command with the ticket its result is reported under.
pub struct Pending {
    pub ticket: u64,
    pub command: Command,
}

/// The queue is overloaded at `len` and `now`: busy since an earlier
/// observation, for at least `duration` milliseconds.
pub open spec fn overloaded(busy_since: Option<u64>, threshold: usize, duration: u64, len: nat, now: u64) -> bool {
    len >= threshold && busy_since is Some && elapsed(now, busy_since->Some_0) >= duration
}

/// The detector's record after observing `len` at `now`.
pub open spec fn observed(busy_since: Option<u64>, threshold: usize, len: nat, now: u64) -> Option<u64> {
    if len < threshold {
        None
    } else if busy_since is None {
        Some(now)
    } else {
        busy_since
    }
}

/// A device: one storage, a deadline queue, and the rules that accept,
/// order, drop and execute requests, one at a time.
pub struct Device {
    config: DeviceBuilder,
    status: DeviceStatus,
    storage: Option<Storage>,
    queue: DeadlineQueue<Pending>,
    held: Vec<Pending>,
    detector: OverloadDetector,
    gate: ProbabilisticGate,
    next_ticket: u64,
    exit: Option<Result<(), ErrorKind>>,
}

} // verus!

verus! {

/// `res` is what `op` returns on a storage in state `v`, and `w` the state it
/// leaves; with `sync` a mutating operation also flushes the journal.
pub open spec fn executed(
    v: StorageView,
    w: StorageView,
    op: Operation,
    sync: bool,
    res: Result<Output, ErrorKind>,
) -> bool {
    match op {
        Operation::Put { id, data } => if misaligned(v, data@) {
            res == Err::<Output, ErrorKind>(ErrorKind::InvalidInput) && w == v
        } else if usage_after_put(v, id.id, data@) > v.capacity {
            res == Err::<Output, ErrorKind>(ErrorKind::StorageFull) && w == v
        } else {
            &&& res == Ok::<Output, ErrorKind>(Output::Put(!has_id(v.lumps, id.id)))
            &&& stored_after_put(v, w, id.id, data@)
            &&& w.block_size == v.block_size
            &&& w.capacity == v.capacity
            &&& w.dirty == !sync
        },
        Operation::Get { id } => w == v && match res {
            Ok(Output::Get(o)) => {
                &&& (o is Some <==> has_id(v.lumps, id.id))
                &&& o is Some ==> exists|k: int|
                    0 <= k < v.lumps.len() && v.lumps[k].id == id.id && o->Some_0@ == v.lumps[k].data.bytes
            },
            _ => false,
        },
        Operation::Head { id } => w == v && match res {
            Ok(Output::Head(o)) => {
                &&& (o is Some <==> has_id(v.lumps, id.id))
                &&& o is Some ==> exists|k: int|
                    0 <= k < v.lumps.len() && v.lumps[k].id == id.id && o->Some_0 == (LumpHeader {
                        data_size: v.lumps[k].data.bytes.len() as u64,
                        embedded: v.lumps[k].data.embedded,
                    })
            },
            _ => false,
        },
        Operation::Delete { id } => {
            &&& res == Ok::<Output, ErrorKind>(Output::Delete(has_id(v.lumps, id.id)))
            &&& stored_after_delete(v, w, id.id)
            &&& w.block_size == v.block_size
            &&& w.capacity == v.capacity
            &&& w.dirty == (!sync && (v.dirty || has_id(v.lumps, id.id)))
        },
        Operation::DeleteRange { start, end } => match res {
            Ok(Output::DeleteRange(ids)) => {
                &&& ids_of(ids@) == ids_in(v.lumps, start.id as int, end.id as int)
                &&& w.lumps == without(v.lumps, start.id as int, end.id as int)
                &&& w.block_size == v.block_size
                &&& w.capacity == v.capacity
                &&& w.dirty == (!sync && (v.dirty || ids@.len() > 0))
            },
            _ => false,
        },
        Operation::List => w == v && match res {
            Ok(Output::List(ids)) => ids_of(ids@) == ids_in(v.lumps, 0, id_limit()),
            _ => false,
        },
        Operation::ListRange { start, end } => w == v && match res {
            Ok(Output::List(ids)) => ids_of(ids@) == ids_in(v.lumps, start.id as int, end.id as int),
            _ => false,
        },
        Operation::UsageRange { start, end } => w == v && match res {
            Ok(Output::Usage(u)) => u == usage_in(v.lumps, start.id as int, end.id as int, v.block_size as nat),
            _ => false,
        },
        Operation::JournalSync => res == Ok::<Output, ErrorKind>(Output::Done) && w == (StorageView {
            dirty: false,
            ..v
        }),
        Operation::WaitForRunning => res == Ok::<Output, ErrorKind>(Output::Done) && w == v,
        Operation::Stop => res == Ok::<Output, ErrorKind>(Output::Done) && w == (StorageView {
            dirty: false,
            ..v
        }),
    }
}

/// Runs `op` on `storage`.
fn execute(storage: &mut Storage, op: Operation, sync: bool) -> (r: Result<Output, ErrorKind>)
    requires
        old(storage).wf(),
    ensures
        final(storage).wf(),
        executed(old(storage)@, final(storage)@, op, sync, r),
{
    match op {
        Operation::Put { id, data } => {
            match storage.put(id, data) {
                Ok(fresh) => {
                    if sync {
                        storage.journal_sync();
                    }
                    Ok(Output::Put(fresh))
                },
                Err(e) => Err(e),
            }
        },
        Operation::Get { id } => Ok(Output::Get(storage.get(id))),
        Operation::Head { id } => Ok(Output::Head(storage.head(id))),
        Operation::Delete { id } => {
            let removed = storage.delete(id);
            if sync {
                storage.journal_sync();
            }
            Ok(Output::Delete(removed))
        },
        Operation::DeleteRange { start, end } => {
            let ids = storage.delete_range(start, end);
            if sync {
                storage.journal_sync();
            }
            Ok(Output::DeleteRange(ids))
        },
        Operation::List => Ok(Output::List(storage.list())),
        Operation::ListRange { start, end } => Ok(Output::List(storage.list_range(start, end))),
        Operation::UsageRange { start, end } => Ok(Output::Usage(storage.usage_range(start, end))),
        Operation::JournalSync => {
            storage.journal_sync();
            Ok(Output::Done)
        },
        Operation::WaitForRunning => Ok(Output::Done),
        Operation::Stop => {
            storage.journal_sync();
            Ok(Output::Done)
        },
    }
}

} // verus!

verus! {

impl Device {
    pub closed spec fn config(&self) -> DeviceBuilder {
        self.config
    }

    pub closed spec fn status(&self) -> DeviceStatus {
        self.status
    }

    pub closed spec fn storage_view(&self) -> Option<StorageView> {
        match self.storage {
            Some(s) => Some(s@),
            None => None,
        }
    }

    /// The queued commands.
    pub closed spec fn queue(&self) -> Seq<QueueEntry<Pending>> {
        self.queue.entries()
    }

    pub closed spec fn next_seq(&self) -> u64 {
        self.queue.next_seq()
    }

    /// Commands submitted with `wait_for_running` while the device starts.
    pub closed spec fn held(&self) -> Seq<Pending> {
        self.held@
    }

    pub closed spec fn busy_since(&self) -> Option<u64> {
        self.detector.busy_since()
    }

    pub closed spec fn gate_state(&self) -> u64 {
        self.gate.state()
    }

    pub closed spec fn next_ticket(&self) -> u64 {
        self.next_ticket
    }

    /// How the device exited, once it has.
    pub closed spec fn exit(&self) -> Option<Result<(), ErrorKind>> {
        self.exit
    }

    pub closed spec fn inv(&self) -> bool {
        &&& self.queue.wf()
        &&& self.detector.busy_threshold() == self.config.busy_threshold
        &&& self.detector.max_keep_busy_duration() == self.config.max_keep_busy_duration
        &&& self.storage matches Some(s) ==> s.wf()
    }

    /// Well-formedness: a running device has a storage, a stopped device
    /// holds no commands, only a running device queues them, and a device
    /// has an exit result exactly when it stopped.
    pub open spec fn wf(&self) -> bool {
        &&& self.inv()
        &&& (self.status() is Running ==> self.storage_view() is Some)
        &&& (self.status() is Starting ==> self.storage_view() is None)
        &&& (!(self.status() is Running) ==> self.queue().len() == 0)
        &&& (self.status() is Stopped ==> self.held().len() == 0)
        &&& (self.status() is Stopped <==> self.exit() is Some)
    }

    /// The error with which a running device turns away `cmd` at time `now`, if any.
    pub open spec fn rejection(&self, cmd: Command, now: u64) -> Option<ErrorKind> {
        let len = self.queue().len();
        if !cmd.prioritized && self.config().max_queue_len is Some && len >= self.config().max_queue_len->Some_0 {
            Some(ErrorKind::DeviceBusy)
        } else if self.next_seq() == u64::MAX {
            Some(ErrorKind::DeviceBusy)
        } else if self.refuses(cmd, now) {
            Some(ErrorKind::RequestRefused)
        } else {
            None
        }
    }

    /// The refuse policy turns `cmd` away: the queue is overloaded and the draw fires.
    pub open spec fn refuses(&self, cmd: Command, now: u64) -> bool {
        match self.config().long_queue_policy {
            LongQueuePolicy::RefuseNewRequests { ratio } => {
                &&& !cmd.prioritized
                &&& overloaded(
                    self.busy_since(),
                    self.config().busy_threshold,
                    self.config().max_keep_busy_duration,
                    self.queue().len(),
                    now,
                )
                &&& fires_spec(self.gate_state(), ratio)
            },
            _ => false,
        }
    }

    /// Whether `rejection` draws a random number for `cmd`.
    pub open spec fn admission_draws(&self, cmd: Command, now: u64) -> bool {
        &&& !cmd.prioritized
        &&& self.config().long_queue_policy is RefuseNewRequests
        &&& overloaded(
            self.busy_since(),
            self.config().busy_threshold,
            self.config().max_keep_busy_duration,
            self.queue().len(),
            now,
        )
    }

    /// Admission of `p` into the queue of a running device, from state `self` to `next`.
    pub open spec fn admitted(&self, next: &Device, p: Pending, now: u64, r: Option<Reply>) -> bool {
        let cmd = p.command;
        let len = self.queue().len();
        let capped = !cmd.prioritized && self.config().max_queue_len is Some && len
            >= self.config().max_queue_len->Some_0;
        &&& next.status() == self.status()
        &&& next.storage_view() == self.storage_view()
        &&& next.config() == self.config()
        &&& next.exit() == self.exit()
        &&& (r is Some <==> self.rejection(cmd, now) is Some)
        &&& r is Some ==> r == Some(Reply { ticket: p.ticket, result: Err(self.rejection(cmd, now)->Some_0) })
        &&& r is Some ==> next.queue() == self.queue() && next.next_seq() == self.next_seq()
        &&& r is None ==> next.queue() == self.queue().push(
            QueueEntry { due: due_spec(cmd.deadline, now), seq: self.next_seq(), item: p },
        ) && next.next_seq() == self.next_seq() + 1
        &&& if capped || self.next_seq() == u64::MAX {
            next.busy_since() == self.busy_since() && next.gate_state() == self.gate_state()
        } else {
            &&& next.busy_since() == observed(self.busy_since(), self.config().busy_threshold, len, now)
            &&& next.gate_state() == if self.admission_draws(cmd, now) {
                next_state(self.gate_state())
            } else {
                self.gate_state()
            }
        }
    }

    /// A device with configuration `config`, in the starting state.
    pub fn new(config: DeviceBuilder) -> (r: Device)
        ensures
            r.wf(),
            r.status() == DeviceStatus::Starting,
            r.config() == config,
            r.queue().len() == 0,
            r.held().len() == 0,
            r.busy_since() is None,
            r.next_ticket() == 0,
            r.next_seq() == 0,
            r.gate_state() == seeded_state(config.seed),
            r.exit() is None,
            r.storage_view() is None,
    {
        Device {
            config,
            status: DeviceStatus::Starting,
            storage: None,
            queue: DeadlineQueue::new(),
            held: Vec::new(),
            detector: OverloadDetector::new(config.busy_threshold, config.max_keep_busy_duration),
            gate: ProbabilisticGate::new(config.seed),
            next_ticket: 0,
            exit: None,
        }
    }

    /// A device with the default configuration, in the starting state.
    pub fn spawn() -> (r: Device)
        ensures
            r.wf(),
            r.status() == DeviceStatus::Starting,
            r.config() == (DeviceBuilder {
                busy_threshold: usize::MAX,
                max_keep_busy_duration: 0,
                long_queue_policy: LongQueuePolicy::RefuseNewRequests { ratio: RATIO_ONE },
                max_queue_len: None,
                seed: 0,
            }),
            r.queue().len() == 0,
            r.held().len() == 0,
            r.busy_since() is None,
            r.next_ticket() == 0,
            r.next_seq() == 0,
            r.gate_state() == seeded_state(0),
            r.exit() is None,
            r.storage_view() is None,
    {
        DeviceBuilder::new().spawn()
    }

    /// A handle that sees the device as it is now.
    pub fn handle(&self) -> (r: DeviceHandle)
        requires
            self.wf(),
        ensures
            r.metrics_spec() == (DeviceMetrics {
                status: self.status(),
                block_size: match self.storage_view() {
                    Some(v) => if self.status() is Running { Some(v.block_size) } else { None },
                    None => None,
                },
                queue_len: self.queue().len() as usize,
            }),
    {
        let block_size = match &self.storage {
            Some(s) => if self.status == DeviceStatus::Running { Some(s.block_size()) } else { None },
            None => None,
        };
        DeviceHandle {
            metrics: DeviceMetrics { status: self.status, block_size, queue_len: self.queue.len() },
        }
    }

    /// The ticket the next submitted command receives.
    pub fn ticket(&self) -> (r: u64)
        ensures
            r == self.next_ticket(),
    {
        self.next_ticket
    }

    pub fn current_status(&self) -> (r: DeviceStatus)
        ensures
            r == self.status(),
    {
        self.status
    }

    pub fn queue_len(&self) -> (r: usize)
        ensures
            r == self.queue().len(),
    {
        self.queue.len()
    }

    /// The storage, while the device holds one.
    pub fn storage(&self) -> (r: Option<&Storage>)
        ensures
            match r {
                Some(s) => self.storage_view() == Some(s@),
                None => self.storage_view() is None,
            },
    {
        match &self.storage {
            Some(s) => Some(s),
            None => None,
        }
    }

    fn enqueue(&mut self, p: Pending, now: u64) -> (r: Option<Reply>)
        requires
            old(self).wf(),
            old(self).status() is Running,
        ensures
            final(self).wf(),
            final(self).next_ticket() == old(self).next_ticket(),
            final(self).held() == old(self).held(),
            old(self).admitted(final(self), p, now, r),
    {
        let prioritized = p.command.prioritized;
        let len = self.queue.len();
        if !prioritized {
            if let Some(cap) = self.config.max_queue_len {
                if len >= cap {
                    return Some(Reply { ticket: p.ticket, result: Err(ErrorKind::DeviceBusy) });
                }
            }
        }
        if !self.queue.can_push() {
            return Some(Reply { ticket: p.ticket, result: Err(ErrorKind::DeviceBusy) });
        }
        let overloaded = self.detector.check_overload(len, now);
        if !prioritized && overloaded {
            if let LongQueuePolicy::RefuseNewRequests { ratio } = self.config.long_queue_policy {
                if self.gate.fires(ratio) {
                    return Some(Reply { ticket: p.ticket, result: Err(ErrorKind::RequestRefused) });
                }
            }
        }
        let due = p.command.deadline.due(now);
        self.queue.push(due, p);
        None
    }

    /// Hands `command` to the device at time `now`, under ticket `next_ticket()`.
    ///
    /// Returns the reply at once when the command is turned away; otherwise the
    /// reply comes from a later step. A stopped device turns everything away; a
    /// starting one holds commands that wait for it to run and turns the others
    /// away; a running one admits or refuses them by its overload rules.
    pub fn submit(&mut self, command: Command, now: u64) -> (r: Option<Reply>)
        requires
            old(self).wf(),
        ensures
            final(self).wf(),
            final(self).next_ticket() == old(self).next_ticket().wrapping_add(1),
            old(self).status() is Stopped ==> r == Some(
                Reply { ticket: old(self).next_ticket(), result: Err(ErrorKind::DeviceTerminated) },
            ) && final(self).queue() == old(self).queue() && final(self).held() == old(self).held(),
            old(self).status() is Starting && command.wait_for_running ==> r is None
                && final(self).held() == old(self).held().push(Pending { ticket: old(self).next_ticket(), command }),
            old(self).status() is Starting && !command.wait_for_running ==> r == Some(
                Reply { ticket: old(self).next_ticket(), result: Err(ErrorKind::DeviceBusy) },
            ) && final(self).held() == old(self).held(),
            !(old(self).status() is Running) ==> {
                &&& final(self).status() == old(self).status()
                &&& final(self).storage_view() == old(self).storage_view()
                &&& final(self).queue() == old(self).queue()
                &&& final(self).next_seq() == old(self).next_seq()
                &&& final(self).busy_since() == old(self).busy_since()
                &&& final(self).gate_state() == old(self).gate_state()
                &&& final(self).exit() == old(self).exit()
                &&& final(self).config() == old(self).config()
            },
            old(self).status() is Running ==> final(self).held() == old(self).held(),
            old(self).status() is Running ==> old(self).admitted(
                final(self),
                Pending { ticket: old(self).next_ticket(), command },
                now,
                r,
            ),
    {
        let ticket = self.next_ticket;
        self.next_ticket = ticket.wrapping_add(1);
        match self.status {
            DeviceStatus::Stopped => Some(Reply { ticket, result: Err(ErrorKind::DeviceTerminated) }),
            DeviceStatus::Starting => {
                if command.wait_for_running {
                    self.held.push(Pending { ticket, command });
                    None
                } else {
                    Some(Reply { ticket, result: Err(ErrorKind::DeviceBusy) })
                }
            },
            DeviceStatus::Running => self.enqueue(Pending { ticket, command }, now),
        }
    }
}

} // verus!

verus! {

impl Device {
    /// `k` is the index of the queued entry that is scheduled first.
    pub open spec fn first_due(&self, k: int) -> bool {
        &&& 0 <= k < self.queue().len()
        &&& forall|j: int| 0 <= j < self.queue().len() ==> !scheduled_before(#[trigger] self.queue()[j], self.queue()[k])
    }

    /// Dispatching `cmd` stops the device: it is a stop command, or the stop
    /// policy reacts to an overloaded queue.
    pub open spec fn stops_on(&self, cmd: Command, overloaded: bool) -> bool {
        cmd.op is Stop || (!cmd.prioritized && self.config().long_queue_policy is Stop && overloaded)
    }

    /// The drop policy draws a random number for `cmd`.
    pub open spec fn dispatch_draws(&self, cmd: Command, overloaded: bool) -> bool {
        !cmd.prioritized && self.config().long_queue_policy is Drop && overloaded
    }

    /// The drop policy discards `cmd`.
    pub open spec fn drops_on(&self, cmd: Command, overloaded: bool) -> bool {
        match self.config().long_queue_policy {
            LongQueuePolicy::Drop { ratio } => !cmd.prioritized && overloaded && fires_spec(self.gate_state(), ratio),
            _ => false,
        }
    }

    /// Dispatch of the `k`-th queued entry, from state `self` to `next`, with replies `r`.
    pub open spec fn dispatched(&self, next: &Device, k: int, now: u64, r: Seq<Reply>) -> bool {
        let e = self.queue()[k];
        let rest = self.queue().remove(k);
        let cmd = e.item.command;
        let cfg = self.config();
        let ov = overloaded(self.busy_since(), cfg.busy_threshold, cfg.max_keep_busy_duration, rest.len(), now);
        let v = self.storage_view()->Some_0;
        &&& self.first_due(k)
        &&& next.config() == cfg
        &&& next.next_ticket() == self.next_ticket()
        &&& next.busy_since() == observed(self.busy_since(), cfg.busy_threshold, rest.len(), now)
        &&& if self.stops_on(cmd, ov) {
            &&& next.status() == DeviceStatus::Stopped
            &&& next.exit() == Some(Ok::<(), ErrorKind>(()))
            &&& next.queue().len() == 0
            &&& next.storage_view() == Some(StorageView { dirty: false, ..v })
            &&& next.held().len() == 0
            &&& r.len() == rest.len() + self.held().len() + 1
            &&& r[0] == Reply {
                ticket: e.item.ticket,
                result: if cmd.op is Stop {
                    Ok::<Output, ErrorKind>(Output::Done)
                } else {
                    Err(ErrorKind::DeviceTerminated)
                },
            }
            &&& forall|i: int|
                0 <= i < rest.len() ==> #[trigger] r[i + 1] == (Reply {
                    ticket: rest[i].item.ticket,
                    result: Err(ErrorKind::DeviceTerminated),
                })
            &&& forall|i: int|
                0 <= i < self.held().len() ==> #[trigger] r[rest.len() + 1 + i] == (Reply {
                    ticket: self.held()[i].ticket,
                    result: Err(ErrorKind::DeviceTerminated),
                })
        } else {
            &&& next.held() == self.held()
            &&& next.status() == DeviceStatus::Running
            &&& next.exit() == self.exit()
            &&& next.queue() == rest
            &&& next.next_seq() == self.next_seq()
            &&& r.len() == 1
            &&& r[0].ticket == e.item.ticket
            &&& next.gate_state() == if self.dispatch_draws(cmd, ov) {
                next_state(self.gate_state())
            } else {
                self.gate_state()
            }
            &&& if self.drops_on(cmd, ov) {
                r[0].result == Err::<Output, ErrorKind>(ErrorKind::RequestDropped) && next.storage_view()
                    == self.storage_view()
            } else {
                next.storage_view() is Some && executed(
                    v,
                    next.storage_view()->Some_0,
                    cmd.op,
                    cmd.journal_sync,
                    r[0].result,
                )
            }
        }
    }

    /// Completes initialisation with the storage factory's outcome `init`.
    ///
    /// On success the device runs and its held commands await
    /// `release_held`. On failure it stops with that error, and every held
    /// command is terminated.
    pub fn start(&mut self, init: Result<Storage, ErrorKind>) -> (r: Vec<Reply>)
        requires
            old(self).wf(),
            old(self).status() is Starting,
            init is Ok ==> init->Ok_0.wf(),
        ensures
            final(self).wf(),
            final(self).config() == old(self).config(),
            final(self).next_ticket() == old(self).next_ticket(),
            final(self).busy_since() == old(self).busy_since(),
            final(self).gate_state() == old(self).gate_state(),
            final(self).next_seq() == old(self).next_seq(),
            final(self).queue().len() == 0,
            init is Ok ==> {
                &&& final(self).status() == DeviceStatus::Running
                &&& final(self).storage_view() == Some(init->Ok_0@)
                &&& final(self).held() == old(self).held()
                &&& final(self).exit() is None
                &&& r@.len() == 0
            },
            init is Err ==> {
                &&& final(self).status() == DeviceStatus::Stopped
                &&& final(self).storage_view() is None
                &&& final(self).exit() == Some(Err::<(), ErrorKind>(init->Err_0))
                &&& r@.len() == old(self).held().len()
                &&& forall|i: int|
                    0 <= i < r@.len() ==> #[trigger] r@[i] == (Reply {
                        ticket: old(self).held()[i].ticket,
                        result: Err(ErrorKind::DeviceTerminated),
                    })
            },
    {
        match init {
            Ok(storage) => {
                self.storage = Some(storage);
                self.status = DeviceStatus::Running;
                Vec::new()
            },
            Err(e) => {
                let mut held: Vec<Pending> = Vec::new();
                std::mem::swap(&mut held, &mut self.held);
                self.status = DeviceStatus::Stopped;
                self.exit = Some(Err(e));
                terminate_all_held(&held)
            },
        }
    }

    pub fn held_len(&self) -> (r: usize)
        ensures
            r == self.held().len(),
    {
        self.held.len()
    }

    /// Passes the oldest held command through admission, at time `now`.
    pub fn release_held(&mut self, now: u64) -> (r: Option<Reply>)
        requires
            old(self).wf(),
            old(self).status() is Running,
            old(self).held().len() > 0,
        ensures
            final(self).wf(),
            final(self).next_ticket() == old(self).next_ticket(),
            final(self).held() == old(self).held().drop_first(),
            old(self).admitted(final(self), old(self).held()[0], now, r),
    {
        let p = self.held.remove(0);
        self.enqueue(p, now)
    }

    /// Takes the entry scheduled first and dispatches it at time `now`: stops
    /// the device, drops the entry, or runs its operation on the storage, as
    /// the command and the overload policy say.
    pub fn run_once(&mut self, now: u64) -> (r: Vec<Reply>)
        requires
            old(self).wf(),
        ensures
            final(self).wf(),
            !(old(self).status() is Running) || old(self).queue().len() == 0 ==> {
                &&& r@.len() == 0
                &&& final(self).status() == old(self).status()
                &&& final(self).queue() == old(self).queue()
                &&& final(self).storage_view() == old(self).storage_view()
                &&& final(self).held() == old(self).held()
                &&& final(self).exit() == old(self).exit()
                &&& final(self).config() == old(self).config()
                &&& final(self).next_ticket() == old(self).next_ticket()
                &&& final(self).next_seq() == old(self).next_seq()
                &&& final(self).busy_since() == old(self).busy_since()
                &&& final(self).gate_state() == old(self).gate_state()
            },
            old(self).status() is Running && old(self).queue().len() > 0 ==> exists|k: int|
                old(self).dispatched(final(self), k, now, r@),
    {
        if self.status != DeviceStatus::Running {
            return Vec::new();
        }
        let ghost before = *self;
        let entry = match self.queue.pop() {
            Some(e) => e,
            None => return Vec::new(),
        };
        let ghost k = choose|k: int|
            0 <= k < before.queue().len() && before.queue()[k] == entry && self.queue() == before.queue().remove(k);
        let len = self.queue.len();
        let ov = self.detector.check_overload(len, now);
        let QueueEntry { due, seq, item } = entry;
        let Pending { ticket, command } = item;
        let prioritized = command.prioritized;
        let is_stop = matches!(command.op, Operation::Stop);
        let policy_stops = !prioritized && ov && matches!(self.config.long_queue_policy, LongQueuePolicy::Stop);
        if is_stop || policy_stops {
            let first = if is_stop {
                Reply { ticket, result: Ok(Output::Done) }
            } else {
                Reply { ticket, result: Err(ErrorKind::DeviceTerminated) }
            };
            let r = self.shut_down(first);
            assert(before.dispatched(self, k, now, r@));
            return r;
        }
        let mut r: Vec<Reply> = Vec::new();
        if !prioritized && ov {
            if let LongQueuePolicy::Drop { ratio } = self.config.long_queue_policy {
                if self.gate.fires(ratio) {
                    r.push(Reply { ticket, result: Err(ErrorKind::RequestDropped) });
                    assert(before.dispatched(self, k, now, r@));
                    return r;
                }
            }
        }
        let mut slot: Option<Storage> = None;
        std::mem::swap(&mut slot, &mut self.storage);
        let mut storage = slot.unwrap();
        let result = execute(&mut storage, command.op, command.journal_sync);
        self.storage = Some(storage);
        r.push(Reply { ticket, result });
        assert(before.dispatched(self, k, now, r@));
        r
    }

    /// Replies `first`, terminates every queued command, flushes the journal and stops.
    fn shut_down(&mut self, first: Reply) -> (r: Vec<Reply>)
        requires
            old(self).inv(),
            old(self).status() is Running,
            old(self).storage_view() is Some,
        ensures
            final(self).wf(),
            final(self).config() == old(self).config(),
            final(self).next_ticket() == old(self).next_ticket(),
            final(self).held().len() == 0,
            final(self).busy_since() == old(self).busy_since(),
            final(self).status() == DeviceStatus::Stopped,
            final(self).exit() == Some(Ok::<(), ErrorKind>(())),
            final(self).queue().len() == 0,
            final(self).storage_view() == Some(StorageView { dirty: false, ..old(self).storage_view()->Some_0 }),
            r@.len() == old(self).queue().len() + old(self).held().len() + 1,
            r@[0] == first,
            forall|i: int|
                0 <= i < old(self).queue().len() ==> #[trigger] r@[i + 1] == (Reply {
                    ticket: old(self).queue()[i].item.ticket,
                    result: Err(ErrorKind::DeviceTerminated),
                }),
            forall|i: int|
                0 <= i < old(self).held().len() ==> #[trigger] r@[old(self).queue().len() + 1 + i] == (Reply {
                    ticket: old(self).held()[i].ticket,
                    result: Err(ErrorKind::DeviceTerminated),
                }),
    {
        let entries = self.queue.drain();
        let mut r: Vec<Reply> = Vec::new();
        r.push(first);
        let mut i: usize = 0;
        while i < entries.len()
            invariant
                0 <= i <= entries@.len(),
                r@.len() == i + 1,
                r@[0] == first,
                forall|j: int|
                    0 <= j < i ==> #[trigger] r@[j + 1] == (Reply {
                        ticket: entries@[j].item.ticket,
                        result: Err(ErrorKind::DeviceTerminated),
                    }),
            decreases entries@.len() - i,
        {
            r.push(Reply { ticket: entries[i].item.ticket, result: Err(ErrorKind::DeviceTerminated) });
            i = i + 1;
        }
        let mut held: Vec<Pending> = Vec::new();
        std::mem::swap(&mut held, &mut self.held);
        let mut j: usize = 0;
        while j < held.len()
            invariant
                0 <= j <= held@.len(),
                r@.len() == entries@.len() + 1 + j,
                r@[0] == first,
                forall|m: int|
                    0 <= m < entries@.len() ==> #[trigger] r@[m + 1] == (Reply {
                        ticket: entries@[m].item.ticket,
                        result: Err(ErrorKind::DeviceTerminated),
                    }),
                forall|m: int|
                    0 <= m < j ==> #[trigger] r@[entries@.len() + 1 + m] == (Reply {
                        ticket: held@[m].ticket,
                        result: Err(ErrorKind::DeviceTerminated),
                    }),
            decreases held@.len() - j,
        {
            r.push(Reply { ticket: held[j].ticket, result: Err(ErrorKind::DeviceTerminated) });
            j = j + 1;
        }
        let mut slot: Option<Storage> = None;
        std::mem::swap(&mut slot, &mut self.storage);
        let mut storage = slot.unwrap();
        storage.journal_sync();
        self.storage = Some(storage);
        self.status = DeviceStatus::Stopped;
        self.exit = Some(Ok(()));
        r
    }

    /// Asks the device to stop, as a stop command that waits for the device to
    /// run and is due at `deadline`; returns at once. Completion shows in `poll`.
    pub fn stop(&mut self, deadline: Deadline, now: u64) -> (r: Option<Reply>)
        requires
            old(self).wf(),
        ensures
            final(self).wf(),
            final(self).next_ticket() == old(self).next_ticket().wrapping_add(1),
            old(self).status() is Stopped ==> r == Some(
                Reply { ticket: old(self).next_ticket(), result: Err(ErrorKind::DeviceTerminated) },
            ) && final(self).held() == old(self).held(),
            !(old(self).status() is Running) ==> {
                &&& final(self).status() == old(self).status()
                &&& final(self).storage_view() == old(self).storage_view()
                &&& final(self).queue() == old(self).queue()
                &&& final(self).next_seq() == old(self).next_seq()
                &&& final(self).busy_since() == old(self).busy_since()
                &&& final(self).gate_state() == old(self).gate_state()
                &&& final(self).exit() == old(self).exit()
                &&& final(self).config() == old(self).config()
            },
            old(self).status() is Running ==> final(self).held() == old(self).held(),
            old(self).status() is Starting ==> r is None && final(self).held() == old(self).held().push(
                Pending { ticket: old(self).next_ticket(), command: command_of(
                    DeviceRequest { deadline, prioritized: false, wait_for_running: true, journal_sync: false },
                    Operation::Stop,
                ) },
            ),
            old(self).status() is Running ==> old(self).admitted(
                final(self),
                Pending { ticket: old(self).next_ticket(), command: command_of(
                    DeviceRequest { deadline, prioritized: false, wait_for_running: true, journal_sync: false },
                    Operation::Stop,
                ) },
                now,
                r,
            ),
    {
        let command = self.handle().request().wait_for_running().deadline(deadline).stop();
        self.submit(command, now)
    }

    /// How the device exited, or `None` while it has not.
    pub fn poll(&self) -> (r: Option<Result<(), ErrorKind>>)
        ensures
            r == self.exit(),
    {
        self.exit
    }
}

fn terminate_all_held(held: &Vec<Pending>) -> (r: Vec<Reply>)
    ensures
        r@.len() == held@.len(),
        forall|i: int|
            0 <= i < r@.len() ==> #[trigger] r@[i] == (Reply {
                ticket: held@[i].ticket,
                result: Err(ErrorKind::DeviceTerminated),
            }),
{
    let mut r: Vec<Reply> = Vec::new();
    let mut i: usize = 0;
    while i < held.len()
        invariant
            0 <= i <= held@.len(),
            r@.len() == i,
            forall|j: int|
                0 <= j < i ==> #[trigger] r@[j] == (Reply {
                    ticket: held@[j].ticket,
                    result: Err(ErrorKind::DeviceTerminated),
                }),
        decreases held@.len() - i,
    {
        r.push(Reply { ticket: held[i].ticket, result: Err(ErrorKind::DeviceTerminated) });
        i = i + 1;
    }
    r
}

} // verus!

verus! {

/// A prioritized command bypasses every overload reaction: a running device
/// that can still number commands accepts it whatever its policy and the state
/// of its detector, and at dispatch neither the stop policy nor the drop
/// policy touches it.
pub proof fn law_prioritized_bypass(d: Device, cmd: Command, now: u64, overloaded: bool)
    requires
        cmd.prioritized,
        d.next_seq() < u64::MAX,
    ensures
        d.rejection(cmd, now) is None,
        !(cmd.op is Stop) ==> !d.stops_on(cmd, overloaded),
        !d.drops_on(cmd, overloaded),
{
}

/// Dispatch never moves the lifecycle back: a running device that dispatches
/// an entry is running or stopped afterwards.
pub proof fn law_status_monotonic(d: Device, next: Device, k: int, now: u64, r: Seq<Reply>)
    requires
        d.wf(),
        d.status() is Running,
        d.dispatched(&next, k, now, r),
    ensures
        stage(next.status()) >= stage(d.status()),
{
}

} // verus!
