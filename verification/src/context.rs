//! The device context: what it decides around the Metal objects that a driver holds for it.
//!
//! The objects themselves are opaque here. `A` is a command allocator, `C` a command buffer, `E` a
//! compute encoder, `R` a raw buffer. A driver performs the device calls and hands back what came
//! of them; each function here takes such an outcome and says what is to be done next.

use vstd::prelude::*;

use crate::buffer::{addresses_of, binding_addresses, Buffer, BufferView};
use crate::text::{decimal, push_decimal};
use crate::timing::{duration_of, timed_duration, TIMESTAMP_BEGIN, TIMESTAMP_BYTES, TIMESTAMP_END};

verus! {

/// Host-side wait budget for a dispatch to retire (generous; turns a wedged queue into an error
/// instead of a hang).
pub const WAIT_TIMEOUT_MS: u64 = 30_000;

/// Allocations that a fresh residency set has room for.
pub const RESIDENCY_CAPACITY: usize = 128;

/// The number after `n`, in 64 bits.
pub open spec fn after(n: u64) -> u64 {
    if n == u64::MAX {
        0
    } else {
        (n + 1) as u64
    }
}

// ---------------------------------------------------------------------------
// Bring-up
// ---------------------------------------------------------------------------

/// The object of a context that is created next, in this order.
#[derive(Clone, Copy, Debug, PartialEq, Eq, Structural)]
pub enum BringUp {
    /// The system-default device.
    Device,
    /// The command queue.
    Queue,
    /// The first command allocator of the pool.
    Allocator,
    /// The event that commits signal.
    SharedEvent,
    /// The set of resident allocations.
    ResidencySet,
}

/// What follows the attempt to create one object of a context.
#[derive(Debug)]
pub enum BringUpStep {
    /// Create this object next.
    Create(BringUp),
    /// All objects are there.
    Ready,
    /// The context cannot be created, for this reason.
    Failed(String),
}

impl BringUp {
    /// The object after this one, if any.
    pub open spec fn successor(self) -> Option<BringUp> {
        match self {
            BringUp::Device => Some(BringUp::Queue),
            BringUp::Queue => Some(BringUp::Allocator),
            BringUp::Allocator => Some(BringUp::SharedEvent),
            BringUp::SharedEvent => Some(BringUp::ResidencySet),
            BringUp::ResidencySet => None,
        }
    }

    /// Why there is no context when this object could not be created. Only the residency set
    /// comes with a reason of its own.
    pub open spec fn failure(self, reason: Seq<char>) -> Seq<char> {
        match self {
            BringUp::Device => "no system-default MTLDevice"@,
            BringUp::Queue => "device did not create an MTL4CommandQueue (needs macOS 26+)"@,
            BringUp::Allocator => "device did not create an MTL4CommandAllocator"@,
            BringUp::SharedEvent => "device did not create an MTLSharedEvent"@,
            BringUp::ResidencySet => "device did not create an MTLResidencySet: "@ + reason,
        }
    }

    /// The first object that is created.
    pub fn first() -> (r: BringUp)
        ensures
            r == BringUp::Device,
    {
        BringUp::Device
    }

    /// Goes on after the attempt to create this object, which failed for the given reason or
    /// succeeded.
    pub fn created(self, outcome: Result<(), String>) -> (r: BringUpStep)
        ensures
            match outcome {
                Ok(()) => match self.successor() {
                    Some(object) => r == BringUpStep::Create(object),
                    None => r == BringUpStep::Ready,
                },
                Err(reason) => r matches BringUpStep::Failed(message) && message@ == self.failure(
                    reason@,
                ),
            },
    {
        match outcome {
            Ok(()) => match self {
                BringUp::Device => BringUpStep::Create(BringUp::Queue),
                BringUp::Queue => BringUpStep::Create(BringUp::Allocator),
                BringUp::Allocator => BringUpStep::Create(BringUp::SharedEvent),
                BringUp::SharedEvent => BringUpStep::Create(BringUp::ResidencySet),
                BringUp::ResidencySet => BringUpStep::Ready,
            },
            Err(reason) => BringUpStep::Failed(
                match self {
                    BringUp::Device => String::from_str("no system-default MTLDevice"),
                    BringUp::Queue => String::from_str(
                        "device did not create an MTL4CommandQueue (needs macOS 26+)",
                    ),
                    BringUp::Allocator => String::from_str(
                        "device did not create an MTL4CommandAllocator",
                    ),
                    BringUp::SharedEvent => String::from_str(
                        "device did not create an MTLSharedEvent",
                    ),
                    BringUp::ResidencySet => {
                        let mut message = String::from_str(
                            "device did not create an MTLResidencySet: ",
                        );
                        message.append(reason.as_str());
                        message
                    },
                },
            ),
        }
    }
}

impl BringUp {
    /// The place of this object in the order of creation.
    pub open spec fn place(self) -> int {
        match self {
            BringUp::Device => 0,
            BringUp::Queue => 1,
            BringUp::Allocator => 2,
            BringUp::SharedEvent => 3,
            BringUp::ResidencySet => 4,
        }
    }

    /// How bring-up ends from this object on, given how each attempt to create an object ends: with
    /// the reason of the first that fails.
    pub open spec fn run(self, outcomes: Seq<Result<(), Seq<char>>>) -> Result<(), Seq<char>>
        decreases 5 - self.place(),
    {
        match outcomes[self.place()] {
            Err(reason) => Err(self.failure(reason)),
            Ok(()) => match self.successor() {
                Some(object) => object.run(outcomes),
                None => Ok(()),
            },
        }
    }
}

/// A context is ready exactly if all its objects were created. If not, the error is that of the
/// first object that could not be.
pub proof fn law_ready_once_all_created(object: BringUp, outcomes: Seq<Result<(), Seq<char>>>)
    ensures
        BringUp::Device.run(outcomes) is Ok <==> forall|o: BringUp|
            #![trigger outcomes[o.place()]]
            outcomes[o.place()] is Ok,
        (outcomes[object.place()] is Err && forall|o: BringUp|
            #![trigger outcomes[o.place()]]
            o.place() < object.place() ==> outcomes[o.place()] is Ok) ==> BringUp::Device.run(
            outcomes,
        ) == Err::<(), Seq<char>>(object.failure(outcomes[object.place()]->Err_0)),
{
    reveal_with_fuel(BringUp::run, 6);
    assert(outcomes[BringUp::Device.place()] == outcomes[0]);
    assert(outcomes[BringUp::Queue.place()] == outcomes[1]);
    assert(outcomes[BringUp::Allocator.place()] == outcomes[2]);
    assert(outcomes[BringUp::SharedEvent.place()] == outcomes[3]);
    assert(outcomes[BringUp::ResidencySet.place()] == outcomes[4]);
}

// ---------------------------------------------------------------------------
// Batches
// ---------------------------------------------------------------------------

/// An **open** command buffer + compute encoder accumulating many dispatches before a single
/// commit: [`Metal4::open_batch`] begins it once, [`Metal4::batch_dispatch`] appends dispatches
/// (each with its own argument table but no commit), and [`Metal4::commit_batch`] commits it
/// exactly once.
pub struct Batch<A, C, E> {
    /// The command allocator that the command buffer encodes into.
    pub allocator: A,
    /// The command buffer.
    pub cb: C,
    /// Its compute encoder.
    pub encoder: E,
    /// Number of dispatches encoded into this batch so far.
    pub dispatches: usize,
}

/// What is to be done next to open a batch.
pub enum OpenStep<A, C, E> {
    /// The pool is empty: create a command allocator.
    CreateAllocator,
    /// Create a command buffer.
    CreateCommandBuffer {
        /// The allocator for it.
        allocator: A,
    },
    /// Begin the command buffer on the allocator, and ask it for a compute encoder.
    BeginEncoder {
        /// The allocator to begin with.
        allocator: A,
        /// The command buffer to begin.
        cb: C,
    },
    /// The batch is open.
    Opened(Batch<A, C, E>),
    /// The batch cannot be opened, for this reason. An allocator that was taken for it is gone.
    Failed(String),
}

impl<A, C, E> OpenStep<A, C, E> {
    /// Goes on after the attempt to create a command allocator.
    pub fn allocator_created(created: Option<A>) -> (r: Self)
        ensures
            match created {
                Some(allocator) => r == (OpenStep::<A, C, E>::CreateCommandBuffer { allocator }),
                None => r matches OpenStep::Failed(message) && message@
                    == "device did not create an MTL4CommandAllocator"@,
            },
    {
        match created {
            Some(allocator) => OpenStep::CreateCommandBuffer { allocator },
            None => OpenStep::Failed(
                String::from_str("device did not create an MTL4CommandAllocator"),
            ),
        }
    }

    /// Goes on after the attempt to create a command buffer.
    pub fn command_buffer_created(allocator: A, created: Option<C>) -> (r: Self)
        ensures
            match created {
                Some(cb) => r == (OpenStep::<A, C, E>::BeginEncoder { allocator, cb }),
                None => r matches OpenStep::Failed(message) && message@
                    == "device did not create an MTL4CommandBuffer"@,
            },
    {
        match created {
            Some(cb) => OpenStep::BeginEncoder { allocator, cb },
            None => OpenStep::Failed(
                String::from_str("device did not create an MTL4CommandBuffer"),
            ),
        }
    }

    /// Goes on after the attempt to get a compute encoder.
    pub fn encoder_created(allocator: A, cb: C, created: Option<E>) -> (r: Self)
        ensures
            match created {
                Some(encoder) => r == OpenStep::<A, C, E>::Opened(
                    (Batch { allocator, cb, encoder, dispatches: 0 }),
                ),
                None => r matches OpenStep::Failed(message) && message@
                    == "command buffer did not create a compute encoder"@,
            },
    {
        match created {
            Some(encoder) => OpenStep::Opened(Batch { allocator, cb, encoder, dispatches: 0 }),
            None => OpenStep::Failed(
                String::from_str("command buffer did not create a compute encoder"),
            ),
        }
    }
}

/// One call on a compute encoder or its argument table.
#[derive(Clone, Copy, Debug, PartialEq, Eq)]
pub enum EncoderCommand {
    /// Bind a GPU address in the argument table.
    SetAddress {
        /// What to bind.
        address: u64,
        /// Where to bind it.
        slot: usize,
    },
    /// Make later dispatches of this encoder wait for the earlier ones and see what they wrote.
    Barrier,
    /// Set the compute pipeline.
    SetPipeline,
    /// Set the argument table.
    SetArgumentTable,
    /// Write a precise timestamp to the counter heap.
    WriteTimestamp {
        /// The entry to write.
        entry: usize,
    },
    /// Dispatch `groups` threadgroups of `threads` each.
    Dispatch {
        /// Threadgroups in each direction.
        groups: (u32, u32, u32),
        /// Threads of a threadgroup in each direction.
        threads: (u32, u32, u32),
    },
}

/// The commands that bind the addresses to the slots from 0 on.
pub open spec fn bind_commands(addresses: Seq<u64>) -> Seq<EncoderCommand> {
    Seq::new(
        addresses.len(),
        |i: int| EncoderCommand::SetAddress { address: addresses[i], slot: i as usize },
    )
}

/// The timestamp command for an entry, if there is one to write.
pub open spec fn timestamp_commands(entry: Option<usize>) -> Seq<EncoderCommand> {
    match entry {
        Some(entry) => seq![EncoderCommand::WriteTimestamp { entry }],
        None => seq![],
    }
}

/// The commands of one dispatch into a batch that already holds `dispatches`: bind the addresses,
/// wait for the earlier dispatches if there are any, set pipeline and table, and dispatch, between
/// two timestamps where they are asked for.
pub open spec fn dispatch_commands(
    dispatches: nat,
    addresses: Seq<u64>,
    groups: (u32, u32, u32),
    threads: (u32, u32, u32),
    timestamps: Option<(usize, usize)>,
) -> Seq<EncoderCommand> {
    bind_commands(addresses) + (if dispatches > 0 {
        seq![EncoderCommand::Barrier]
    } else {
        seq![]
    }) + seq![EncoderCommand::SetPipeline, EncoderCommand::SetArgumentTable] + timestamp_commands(
        match timestamps {
            Some((begin, _)) => Some(begin),
            None => None,
        },
    ) + seq![EncoderCommand::Dispatch { groups, threads }] + timestamp_commands(
        match timestamps {
            Some((_, end)) => Some(end),
            None => None,
        },
    )
}

/// How many buffer slots an argument table for so many addresses has: at least one.
pub open spec fn slots_for(addresses: nat) -> nat {
    if addresses == 0 {
        1
    } else {
        addresses
    }
}

/// How many buffer slots an argument table for the given addresses has.
pub fn table_slots(addresses: &[u64]) -> (r: usize)
    ensures
        r == slots_for(addresses@.len()),
{
    if addresses.len() == 0 {
        1
    } else {
        addresses.len()
    }
}

impl<A, C, E> Batch<A, C, E> {
    /// Number of dispatches encoded into this batch so far.
    pub fn dispatches(&self) -> (r: usize)
        ensures
            r == self.dispatches,
    {
        self.dispatches
    }
}

// ---------------------------------------------------------------------------
// The context
// ---------------------------------------------------------------------------

/// A native Metal 4 runtime context on one device: the state that its calls share. The signal of
/// each commit is its number, counted from 1.
pub struct Metal4<A> {
    /// Pool of command allocators; one is borrowed per command buffer and comes back, reset, after
    /// the GPU retires the work.
    allocators: Vec<A>,
    /// The commits so far, and the one to come.
    commits: Commits,
    /// GPU timestamp ticks per second.
    frequency_hz: u64,
    /// Byte stride of one timestamp counter-heap entry on this device.
    ts_entry_size: usize,
}

/// The commits of a context.
#[derive(Clone, Copy)]
struct Commits {
    /// The value that the next commit signals (never 0: a shared event starts at 0).
    next_signal: u64,
    /// Total number of commits on the queue.
    count: u64,
}

/// The state of a [`Metal4`] context.
#[verifier::ext_equal]
pub struct Metal4View<A> {
    /// The free command allocators; the last is taken first.
    pub pool: Seq<A>,
    /// The value that the next commit signals.
    pub next_signal: u64,
    /// GPU timestamp ticks per second.
    pub frequency_hz: u64,
    /// Byte stride of one timestamp counter-heap entry.
    pub ts_entry_size: usize,
    /// Total number of commits on the queue.
    pub commit_count: u64,
}

impl<A> View for Metal4<A> {
    type V = Metal4View<A>;

    closed spec fn view(&self) -> Metal4View<A> {
        Metal4View {
            pool: self.allocators@,
            next_signal: self.commits.next_signal,
            frequency_hz: self.frequency_hz,
            ts_entry_size: self.ts_entry_size,
            commit_count: self.commits.count,
        }
    }
}

impl<A> Metal4View<A> {
    /// The state once an allocator has been taken from the pool.
    pub open spec fn allocator_taken(self) -> Self {
        Metal4View { pool: self.pool.drop_last(), ..self }
    }

    /// The state once an allocator has come back to the pool.
    pub open spec fn allocator_returned(self, allocator: A) -> Self {
        Metal4View { pool: self.pool.push(allocator), ..self }
    }

    /// The state once a batch has been committed.
    pub open spec fn committed(self) -> Self {
        Metal4View {
            commit_count: after(self.commit_count),
            next_signal: after(self.next_signal),
            ..self
        }
    }

    /// The next signal is one ahead of the number of commits.
    pub open spec fn in_step(self) -> bool {
        self.next_signal == after(self.commit_count)
    }
}

/// A committed batch: end its encoder and its command buffer, commit the command buffer, signal
/// `signal` on the shared event behind it, and wait for that value for up to `timeout_ms`.
pub struct Submission<A, C, E> {
    /// The batch to end and commit.
    pub batch: Batch<A, C, E>,
    /// The value to signal and to wait for.
    pub signal: u64,
    /// How long to wait.
    pub timeout_ms: u64,
}

/// The error of a commit that did not retire in time.
pub open spec fn timeout_message(event_value: u64) -> Seq<char> {
    "batch commit timed out after "@ + decimal(WAIT_TIMEOUT_MS as nat) + " ms (event at "@
        + decimal(event_value as nat) + ")"@
}

impl<A, C, E> Submission<A, C, E> {
    /// Ends the wait for a committed batch. Where the GPU retired it in time, its allocator is to
    /// be reset and [recycled](Metal4::recycle). Where it did not, the GPU may still consume the
    /// encoded commands, so the allocator is given up, and the error says where the event stood.
    pub fn retired(self, completed: bool, event_value: u64) -> (r: Result<A, String>)
        ensures
            completed ==> r == Ok::<A, String>(self.batch.allocator),
            !completed ==> (r matches Err(message) && message@ == timeout_message(event_value)),
            !completed ==> (r matches Err(message) && message@ == "batch commit timed out after "@
                + decimal(30_000) + " ms (event at "@ + decimal(event_value as nat) + ")"@),
    {
        if completed {
            return Ok(self.batch.allocator);
        }
        let mut message = String::from_str("batch commit timed out after ");
        push_decimal(&mut message, WAIT_TIMEOUT_MS);
        message.append(" ms (event at ");
        push_decimal(&mut message, event_value);
        message.append(")");
        Err(message)
    }
}

/// A dispatch in a batch of its own: encode the commands, then submit.
pub struct Encoded<A, C, E> {
    /// The commands to encode, in order.
    pub commands: Vec<EncoderCommand>,
    /// The batch to submit behind them.
    pub submission: Submission<A, C, E>,
}

impl<A, C, E> Encoded<A, C, E> {
    /// The given commands, in a batch with this one dispatch, under the next signal of the
    /// context.
    pub open spec fn is_one_shot(
        self,
        context: Metal4View<A>,
        batch: Batch<A, C, E>,
        commands: Seq<EncoderCommand>,
    ) -> bool {
        &&& self.commands@ == commands
        &&& self.submission == (Submission {
            batch: Batch { dispatches: 1, ..batch },
            signal: context.next_signal,
            timeout_ms: WAIT_TIMEOUT_MS,
        })
    }
}

impl<A> Metal4<A> {
    /// The next signal is one ahead of the number of commits.
    #[verifier::type_invariant]
    pub closed spec fn well_formed(self) -> bool {
        self@.in_step()
    }

    /// Every context is in step.
    pub proof fn law_in_step(self)
        requires
            self.well_formed(),
        ensures
            self@.in_step(),
    {
    }

    /// A context with all its objects created: one allocator in the pool, nothing committed yet.
    /// A shared event starts at 0, so the first signal is 1.
    pub fn new(first_allocator: A, frequency_hz: u64, ts_entry_size: usize) -> (r: Self)
        ensures
            r@ == (Metal4View {
                pool: seq![first_allocator],
                next_signal: 1,
                frequency_hz,
                ts_entry_size,
                commit_count: 0,
            }),
    {
        let mut allocators: Vec<A> = Vec::new();
        allocators.push(first_allocator);
        Metal4 {
            allocators,
            commits: Commits { next_signal: 1, count: 0 },
            frequency_hz,
            ts_entry_size,
        }
    }

    /// Total queue commits so far.
    pub fn commit_count(&self) -> (r: u64)
        ensures
            r == self@.commit_count,
    {
        self.commits.count
    }

    /// GPU timestamp ticks per second.
    pub fn frequency_hz(&self) -> (r: u64)
        ensures
            r == self@.frequency_hz,
    {
        self.frequency_hz
    }

    /// Byte stride of one timestamp counter-heap entry.
    pub fn ts_entry_size(&self) -> (r: usize)
        ensures
            r == self@.ts_entry_size,
    {
        self.ts_entry_size
    }

    /// Begin a batch: borrow an allocator from the pool, or ask for a new one where the pool is
    /// empty. A poisoned pool is an error.
    pub fn open_batch<C, E>(&mut self, poisoned: bool) -> (r: OpenStep<A, C, E>)
        ensures
            if poisoned {
                &&& r matches OpenStep::Failed(message) && message@ == "allocator pool poisoned"@
                &&& final(self)@ == old(self)@
            } else if old(self)@.pool.len() == 0 {
                &&& r == OpenStep::<A, C, E>::CreateAllocator
                &&& final(self)@ == old(self)@
            } else {
                &&& r == (OpenStep::<A, C, E>::CreateCommandBuffer {
                    allocator: old(self)@.pool.last(),
                })
                &&& final(self)@ == old(self)@.allocator_taken()
            },
    {
        if poisoned {
            return OpenStep::Failed(String::from_str("allocator pool poisoned"));
        }
        proof {
            use_type_invariant(&*self);
        }
        let mut pool: Vec<A> = Vec::new();
        std::mem::swap(&mut pool, &mut self.allocators);
        let pooled = pool.pop();
        self.allocators = pool;
        match pooled {
            Some(allocator) => OpenStep::CreateCommandBuffer { allocator },
            None => OpenStep::CreateAllocator,
        }
    }

    /// Append one dispatch to an open batch, given whether its argument table could be created. A
    /// conservative compute-to-compute barrier precedes every dispatch after the first, so a
    /// kernel that reads a previous kernel's output in the same batch sees its writes.
    /// `timestamps` names the counter-heap entries for a begin/end pair around the dispatch.
    ///
    /// Gives the commands to encode, in order. They cannot fail; without a table nothing is
    /// encoded and the batch stays as it is.
    pub fn batch_dispatch<C, E>(
        &self,
        batch: &mut Batch<A, C, E>,
        table: Result<(), String>,
        addresses: &[u64],
        groups: (u32, u32, u32),
        threads: (u32, u32, u32),
        timestamps: Option<(usize, usize)>,
    ) -> (r: Result<Vec<EncoderCommand>, String>)
        requires
            old(batch).dispatches < usize::MAX,
        ensures
            match table {
                Ok(()) => {
                    &&& r matches Ok(commands) && commands@ == dispatch_commands(
                        old(batch).dispatches as nat,
                        addresses@,
                        groups,
                        threads,
                        timestamps,
                    )
                    &&& final(batch).dispatches == old(batch).dispatches + 1
                    &&& final(batch).allocator == old(batch).allocator
                    &&& final(batch).cb == old(batch).cb
                    &&& final(batch).encoder == old(batch).encoder
                },
                Err(reason) => {
                    &&& r matches Err(message) && message@ == "argument table creation failed: "@
                        + reason@
                    &&& *final(batch) == *old(batch)
                },
            },
    {
        match table {
            Err(reason) => {
                let mut message = String::from_str("argument table creation failed: ");
                message.append(reason.as_str());
                return Err(message);
            },
            Ok(()) => {},
        }
        let mut commands: Vec<EncoderCommand> = Vec::new();
        let mut slot: usize = 0;
        while slot < addresses.len()
            invariant
                slot == commands@.len() <= addresses@.len(),
                commands@ == bind_commands(addresses@).take(slot as int),
            decreases addresses@.len() - slot,
        {
            commands.push(EncoderCommand::SetAddress { address: addresses[slot], slot });
            slot += 1;
            assert(commands@ =~= bind_commands(addresses@).take(slot as int));
        }
        if batch.dispatches > 0 {
            commands.push(EncoderCommand::Barrier);
        }
        commands.push(EncoderCommand::SetPipeline);
        commands.push(EncoderCommand::SetArgumentTable);
        if let Some((begin, _)) = timestamps {
            commands.push(EncoderCommand::WriteTimestamp { entry: begin });
        }
        commands.push(EncoderCommand::Dispatch { groups, threads });
        if let Some((_, end)) = timestamps {
            commands.push(EncoderCommand::WriteTimestamp { entry: end });
        }
        assert(commands@ =~= dispatch_commands(
            batch.dispatches as nat,
            addresses@,
            groups,
            threads,
            timestamps,
        ));
        batch.dispatches = batch.dispatches + 1;
        Ok(commands)
    }

    /// Commit a batch: one commit, whatever the number of its dispatches, with a signal of its
    /// own. The signal is the number of the commit, so it is never 0 and greater than every
    /// earlier one, until the numbers run out of 64 bits.
    pub fn commit_batch<C, E>(&mut self, batch: Batch<A, C, E>) -> (r: Submission<A, C, E>)
        ensures
            r == (Submission {
                batch,
                signal: old(self)@.next_signal,
                timeout_ms: WAIT_TIMEOUT_MS,
            }),
            final(self)@ == old(self)@.committed(),
            old(self)@.commit_count < u64::MAX ==> r.signal == old(self)@.commit_count + 1,
    {
        proof {
            use_type_invariant(&*self);
        }
        let Commits { next_signal: signal, count } = self.commits;
        self.commits = Commits {
            next_signal: signal.wrapping_add(1),
            count: count.wrapping_add(1),
        };
        Submission { batch, signal, timeout_ms: WAIT_TIMEOUT_MS }
    }

    /// One dispatch in a batch of its own, which has just been opened: the commands to encode, and
    /// the batch submitted behind them. Without an argument table the batch is dropped and nothing
    /// is committed.
    fn dispatch_inner<C, E>(
        &mut self,
        batch: Batch<A, C, E>,
        table: Result<(), String>,
        addresses: &[u64],
        groups: (u32, u32, u32),
        threads: (u32, u32, u32),
        timestamps: Option<(usize, usize)>,
    ) -> (r: Result<Encoded<A, C, E>, String>)
        requires
            batch.dispatches == 0,
        ensures
            match table {
                Ok(()) => {
                    &&& r matches Ok(encoded) && encoded.is_one_shot(
                        old(self)@,
                        batch,
                        dispatch_commands(0, addresses@, groups, threads, timestamps),
                    )
                    &&& final(self)@ == old(self)@.committed()
                },
                Err(reason) => {
                    &&& r matches Err(message) && message@ == "argument table creation failed: "@
                        + reason@
                    &&& final(self)@ == old(self)@
                },
            },
    {
        let mut batch = batch;
        match self.batch_dispatch(&mut batch, table, addresses, groups, threads, timestamps) {
            Ok(commands) => {
                let submission = self.commit_batch(batch);
                Ok(Encoded { commands, submission })
            },
            Err(message) => Err(message),
        }
    }

    /// Dispatch with `bindings` bound to argument-table slots `0..bindings.len()`, `groups`
    /// threadgroups of `threads` each, in a freshly opened batch of its own.
    pub fn dispatch<R, C, E>(
        &mut self,
        batch: Batch<A, C, E>,
        table: Result<(), String>,
        bindings: &[&Buffer<R>],
        groups: (u32, u32, u32),
        threads: (u32, u32, u32),
    ) -> (r: Result<Encoded<A, C, E>, String>)
        requires
            batch.dispatches == 0,
        ensures
            match table {
                Ok(()) => {
                    &&& r matches Ok(encoded) && encoded.is_one_shot(
                        old(self)@,
                        batch,
                        dispatch_commands(0, addresses_of(bindings@), groups, threads, None),
                    )
                    &&& final(self)@ == old(self)@.committed()
                },
                Err(reason) => {
                    &&& r matches Err(message) && message@ == "argument table creation failed: "@
                        + reason@
                    &&& final(self)@ == old(self)@
                },
            },
    {
        let addresses = binding_addresses(bindings);
        self.dispatch_inner(batch, table, addresses.as_slice(), groups, threads, None)
    }

    /// Dispatch binding the given raw GPU `addresses` to argument-table slots
    /// `0..addresses.len()`. The buffers behind the addresses must already be resident.
    pub fn dispatch_addresses<C, E>(
        &mut self,
        batch: Batch<A, C, E>,
        table: Result<(), String>,
        addresses: &[u64],
        groups: (u32, u32, u32),
        threads: (u32, u32, u32),
    ) -> (r: Result<Encoded<A, C, E>, String>)
        requires
            batch.dispatches == 0,
        ensures
            match table {
                Ok(()) => {
                    &&& r matches Ok(encoded) && encoded.is_one_shot(
                        old(self)@,
                        batch,
                        dispatch_commands(0, addresses@, groups, threads, None),
                    )
                    &&& final(self)@ == old(self)@.committed()
                },
                Err(reason) => {
                    &&& r matches Err(message) && message@ == "argument table creation failed: "@
                        + reason@
                    &&& final(self)@ == old(self)@
                },
            },
    {
        self.dispatch_inner(batch, table, addresses, groups, threads, None)
    }

    /// Like [`dispatch`](Self::dispatch), but brackets the dispatch with a counter-heap timestamp
    /// pair. Once the work has retired and the heap is resolved,
    /// [`resolve_timed`](Self::resolve_timed) gives the duration.
    pub fn dispatch_timed<R, C, E>(
        &mut self,
        batch: Batch<A, C, E>,
        table: Result<(), String>,
        bindings: &[&Buffer<R>],
        groups: (u32, u32, u32),
        threads: (u32, u32, u32),
    ) -> (r: Result<Encoded<A, C, E>, String>)
        requires
            batch.dispatches == 0,
        ensures
            match table {
                Ok(()) => {
                    &&& r matches Ok(encoded) && encoded.is_one_shot(
                        old(self)@,
                        batch,
                        dispatch_commands(
                            0,
                            addresses_of(bindings@),
                            groups,
                            threads,
                            Some((TIMESTAMP_BEGIN, TIMESTAMP_END)),
                        ),
                    )
                    &&& final(self)@ == old(self)@.committed()
                },
                Err(reason) => {
                    &&& r matches Err(message) && message@ == "argument table creation failed: "@
                        + reason@
                    &&& final(self)@ == old(self)@
                },
            },
    {
        let addresses = binding_addresses(bindings);
        self.dispatch_inner(
            batch,
            table,
            addresses.as_slice(),
            groups,
            threads,
            Some((TIMESTAMP_BEGIN, TIMESTAMP_END)),
        )
    }

    /// The real on-GPU duration of a timed dispatch in nanoseconds, from the resolved counter
    /// data.
    pub fn resolve_timed(&self, data: Option<Vec<u8>>) -> (r: Result<u64, String>)
        requires
            self@.ts_entry_size + TIMESTAMP_BYTES <= usize::MAX,
        ensures
            match duration_of(
                match data {
                    Some(bytes) => Some(bytes@),
                    None => None,
                },
                self@.ts_entry_size as nat,
                self@.frequency_hz,
            ) {
                Ok(ns) => r == Ok::<u64, String>(ns),
                Err(message) => r matches Err(e) && e@ == message,
            },
    {
        timed_duration(data, self.ts_entry_size, self.frequency_hz)
    }

    /// Max threads per threadgroup `(x, y, z)`, from the size that the device reports: each extent
    /// in 32 bits.
    pub fn max_threads_per_threadgroup(&self, width: usize, height: usize, depth: usize) -> (r: (
        u32,
        u32,
        u32,
    ))
        ensures
            r.0 == width as nat % 0x1_0000_0000,
            r.1 == height as nat % 0x1_0000_0000,
            r.2 == depth as nat % 0x1_0000_0000,
    {
        (low_word(width as u64), low_word(height as u64), low_word(depth as u64))
    }

    /// How many bytes to ask the device for, to have a buffer of `bytes`: a device buffer is never
    /// empty.
    pub fn alloc_length(&self, bytes: usize) -> (r: usize)
        ensures
            r == if bytes == 0 {
                1
            } else {
                bytes
            },
    {
        if bytes == 0 {
            1
        } else {
            bytes
        }
    }

    /// A buffer initialized from `data`, given a raw buffer that was allocated for it and the
    /// contents of that buffer.
    pub fn buffer_from<R>(
        &self,
        raw: R,
        gpu_address: u64,
        host_address: usize,
        contents: &mut [u8],
        data: &[u8],
    ) -> (r: Buffer<R>)
        requires
            old(contents)@.len() == data@.len(),
        ensures
            r@ == (BufferView { raw, gpu_address, host_address, len: data@.len() }),
            final(contents)@ == data@,
    {
        let buffer = Buffer::new(raw, gpu_address, host_address, data.len());
        buffer.write(contents, data);
        assert(contents@ =~= data@);
        buffer
    }

    /// Take back the reset allocator of a retired batch. A poisoned pool takes none.
    pub fn recycle(&mut self, allocator: A, poisoned: bool)
        ensures
            poisoned ==> final(self)@ == old(self)@,
            !poisoned ==> final(self)@ == old(self)@.allocator_returned(allocator),
    {
        if !poisoned {
            proof {
                use_type_invariant(&*self);
            }
            let mut pool: Vec<A> = Vec::new();
            std::mem::swap(&mut pool, &mut self.allocators);
            pool.push(allocator);
            self.allocators = pool;
        }
    }
}

// ---------------------------------------------------------------------------
// Pipelines and counter heaps
// ---------------------------------------------------------------------------

/// The object that is created next when a kernel is compiled, in this order.
#[derive(Clone, Copy, Debug, PartialEq, Eq, Structural)]
pub enum CompileStage {
    /// The library, from source.
    Library,
    /// The entry point in the library.
    Function,
    /// The pipeline for the entry point.
    PipelineState,
}

/// What follows the attempt to create one object of a compilation.
#[derive(Debug)]
pub enum CompileStep {
    /// Create this object next.
    Create(CompileStage),
    /// The pipeline is there.
    Ready,
    /// The kernel cannot be compiled, for this reason.
    Failed(String),
}

impl CompileStage {
    /// The object after this one, if any.
    pub open spec fn successor(self) -> Option<CompileStage> {
        match self {
            CompileStage::Library => Some(CompileStage::Function),
            CompileStage::Function => Some(CompileStage::PipelineState),
            CompileStage::PipelineState => None,
        }
    }

    /// Why there is no pipeline for entry point `name` when this object could not be created. A
    /// missing entry point comes without a reason of its own.
    pub open spec fn failure(self, name: Seq<char>, reason: Seq<char>) -> Seq<char> {
        match self {
            CompileStage::Library => "MSL compile failed: "@ + reason,
            CompileStage::Function => "entry point `"@ + name + "` not found in compiled library"@,
            CompileStage::PipelineState => "pipeline creation failed: "@ + reason,
        }
    }

    /// The first object that is created.
    pub fn first() -> (r: CompileStage)
        ensures
            r == CompileStage::Library,
    {
        CompileStage::Library
    }

    /// Goes on after the attempt to create this object for entry point `name`, which failed for
    /// the given reason or succeeded.
    pub fn created(self, name: &str, outcome: Result<(), String>) -> (r: CompileStep)
        ensures
            match outcome {
                Ok(()) => match self.successor() {
                    Some(object) => r == CompileStep::Create(object),
                    None => r == CompileStep::Ready,
                },
                Err(reason) => r matches CompileStep::Failed(message) && message@ == self.failure(
                    name@,
                    reason@,
                ),
            },
    {
        match outcome {
            Ok(()) => match self {
                CompileStage::Library => CompileStep::Create(CompileStage::Function),
                CompileStage::Function => CompileStep::Create(CompileStage::PipelineState),
                CompileStage::PipelineState => CompileStep::Ready,
            },
            Err(reason) => {
                let mut message;
                match self {
                    CompileStage::Library => {
                        message = String::from_str("MSL compile failed: ");
                        message.append(reason.as_str());
                    },
                    CompileStage::Function => {
                        message = String::from_str("entry point `");
                        message.append(name);
                        message.append("` not found in compiled library");
                    },
                    CompileStage::PipelineState => {
                        message = String::from_str("pipeline creation failed: ");
                        message.append(reason.as_str());
                    },
                }
                CompileStep::Failed(message)
            },
        }
    }
}

impl CompileStage {
    /// The place of this object in the order of creation.
    pub open spec fn place(self) -> int {
        match self {
            CompileStage::Library => 0,
            CompileStage::Function => 1,
            CompileStage::PipelineState => 2,
        }
    }

    /// How a compilation for entry point `name` ends from this object on, given how each attempt
    /// to create an object ends: with the reason of the first that fails.
    pub open spec fn run(
        self,
        name: Seq<char>,
        outcomes: Seq<Result<(), Seq<char>>>,
    ) -> Result<(), Seq<char>>
        decreases 3 - self.place(),
    {
        match outcomes[self.place()] {
            Err(reason) => Err(self.failure(name, reason)),
            Ok(()) => match self.successor() {
                Some(object) => object.run(name, outcomes),
                None => Ok(()),
            },
        }
    }
}

/// A kernel is compiled exactly if all objects of the compilation were created. If not, the error
/// is that of the first object that could not be.
pub proof fn law_compiled_once_all_created(
    object: CompileStage,
    name: Seq<char>,
    outcomes: Seq<Result<(), Seq<char>>>,
)
    ensures
        CompileStage::Library.run(name, outcomes) is Ok <==> forall|o: CompileStage|
            #![trigger outcomes[o.place()]]
            outcomes[o.place()] is Ok,
        (outcomes[object.place()] is Err && forall|o: CompileStage|
            #![trigger outcomes[o.place()]]
            o.place() < object.place() ==> outcomes[o.place()] is Ok) ==> CompileStage::Library.run(
            name,
            outcomes,
        ) == Err::<(), Seq<char>>(object.failure(name, outcomes[object.place()]->Err_0)),
{
    reveal_with_fuel(CompileStage::run, 4);
    assert(outcomes[CompileStage::Library.place()] == outcomes[0]);
    assert(outcomes[CompileStage::Function.place()] == outcomes[1]);
    assert(outcomes[CompileStage::PipelineState.place()] == outcomes[2]);
}

/// Goes on after the attempt to create the counter heap of a timed dispatch.
pub fn counter_heap_created(outcome: Result<(), String>) -> (r: Result<(), String>)
    ensures
        match outcome {
            Ok(()) => r is Ok,
            Err(reason) => r matches Err(message) && message@ == "counter heap creation failed: "@
                + reason@,
        },
{
    match outcome {
        Ok(()) => Ok(()),
        Err(reason) => {
            let mut message = String::from_str("counter heap creation failed: ");
            message.append(reason.as_str());
            Err(message)
        },
    }
}

/// The low 32 bits of a number.
fn low_word(n: u64) -> (r: u32)
    ensures
        r == n % 0x1_0000_0000,
{
    (n % 0x1_0000_0000) as u32
}

/// Something that changes a context.
pub enum ContextEvent<A> {
    /// An allocator is taken from the pool, if there is one.
    Taken,
    /// An allocator comes back to the pool.
    Returned {
        /// The allocator.
        allocator: A,
    },
    /// A batch is committed.
    Committed,
}

impl<A> Metal4View<A> {
    /// The state after an event.
    pub open spec fn after_event(self, event: ContextEvent<A>) -> Self {
        match event {
            ContextEvent::Taken => if self.pool.len() == 0 {
                self
            } else {
                self.allocator_taken()
            },
            ContextEvent::Returned { allocator } => self.allocator_returned(allocator),
            ContextEvent::Committed => self.committed(),
        }
    }

    /// The state after a run of events.
    pub open spec fn run(self, events: Seq<ContextEvent<A>>) -> Self
        decreases events.len(),
    {
        if events.len() == 0 {
            self
        } else {
            self.run(events.drop_last()).after_event(events.last())
        }
    }

    /// The signals of the commits in a run of events, in order.
    pub open spec fn signals(self, events: Seq<ContextEvent<A>>) -> Seq<u64>
        decreases events.len(),
    {
        if events.len() == 0 {
            seq![]
        } else if events.last() is Committed {
            self.signals(events.drop_last()).push(self.run(events.drop_last()).next_signal)
        } else {
            self.signals(events.drop_last())
        }
    }
}

/// Whatever happens to a context, its signal stays one ahead of its count of commits.
pub proof fn law_runs_keep_step<A>(context: Metal4View<A>, events: Seq<ContextEvent<A>>)
    requires
        context.in_step(),
    ensures
        context.run(events).in_step(),
    decreases events.len(),
{
    if events.len() > 0 {
        law_runs_keep_step(context, events.drop_last());
    }
}

/// The commits of a context, whatever happens between them, are counted one by one and signal their
/// numbers: no signal is 0, and each is greater than every earlier one, until the numbers run out
/// of 64 bits.
pub proof fn law_signals_increase<A>(context: Metal4View<A>, events: Seq<ContextEvent<A>>)
    requires
        context.in_step(),
        context.commit_count + context.signals(events).len() <= u64::MAX,
    ensures
        ({
            let signals = context.signals(events);
            &&& context.run(events).commit_count == context.commit_count + signals.len()
            &&& forall|i: int|
                0 <= i < signals.len() ==> #[trigger] signals[i] == context.commit_count + i + 1
            &&& forall|i: int, j: int|
                #![trigger signals[i], signals[j]]
                0 <= i < j < signals.len() ==> 0 < signals[i] < signals[j]
        }),
    decreases events.len(),
{
    if events.len() > 0 {
        law_signals_increase(context, events.drop_last());
        law_runs_keep_step(context, events.drop_last());
    }
}

/// A commit counts once, whether or not it retires in time. Its allocator is in the pool again in
/// the one case, and not in the other.
pub proof fn law_commit_ends<A>(context: Metal4View<A>, allocator: A)
    requires
        context.commit_count < u64::MAX,
    ensures
        ({
            let retired = context.committed().allocator_returned(allocator);
            let timed_out = context.committed();
            &&& retired.commit_count == context.commit_count + 1
            &&& timed_out.commit_count == context.commit_count + 1
            &&& retired.pool == context.pool.push(allocator)
            &&& timed_out.pool == context.pool
        }),
{
}

/// A batch that takes an allocator from the pool and is retired in time leaves the pool as it
/// was.
pub proof fn law_retired_batch_restores_pool<A>(context: Metal4View<A>)
    requires
        context.pool.len() > 0,
    ensures
        context.allocator_taken().committed().allocator_returned(context.pool.last()).pool
            == context.pool,
{
    assert(context.pool.drop_last().push(context.pool.last()) =~= context.pool);
}

/// A barrier stands before every dispatch of a batch but the first, and nowhere else: it comes
/// after the bindings and before the dispatch.
pub proof fn law_barrier_between_dispatches(
    dispatches: nat,
    addresses: Seq<u64>,
    groups: (u32, u32, u32),
    threads: (u32, u32, u32),
    timestamps: Option<(usize, usize)>,
)
    ensures
        ({
            let commands = dispatch_commands(dispatches, addresses, groups, threads, timestamps);
            let at = addresses.len() as int;
            &&& dispatches > 0 ==> commands[at] == EncoderCommand::Barrier
            &&& forall|i: int|
                0 <= i < commands.len() && #[trigger] commands[i] == EncoderCommand::Barrier
                    ==> dispatches > 0 && i == at
            &&& forall|i: int|
                0 <= i < commands.len() && #[trigger] commands[i] is Dispatch ==> i > at
        }),
{
    let commands = dispatch_commands(dispatches, addresses, groups, threads, timestamps);
    let at = addresses.len() as int;
    assert forall|i: int| 0 <= i < at implies commands[i] is SetAddress by {
        assert(commands[i] == bind_commands(addresses)[i]);
    }
}

/// Each address is bound to the slot of its position.
pub proof fn law_addresses_bound_in_order(
    dispatches: nat,
    addresses: Seq<u64>,
    groups: (u32, u32, u32),
    threads: (u32, u32, u32),
    timestamps: Option<(usize, usize)>,
    i: int,
)
    requires
        0 <= i < addresses.len(),
        addresses.len() <= usize::MAX,
    ensures
        ({
            let command = dispatch_commands(dispatches, addresses, groups, threads, timestamps)[i];
            command matches EncoderCommand::SetAddress { address, slot } && address == addresses[i]
                && slot == i
        }),
{
    let commands = dispatch_commands(dispatches, addresses, groups, threads, timestamps);
    assert(commands[i] == bind_commands(addresses)[i]);
}

/// A timed dispatch stands directly between the commands that write its two timestamps.
pub proof fn law_timestamps_bracket_dispatch(
    dispatches: nat,
    addresses: Seq<u64>,
    groups: (u32, u32, u32),
    threads: (u32, u32, u32),
    begin: usize,
    end: usize,
)
    ensures
        ({
            let commands = dispatch_commands(
                dispatches,
                addresses,
                groups,
                threads,
                Some((begin, end)),
            );
            let n = commands.len();
            &&& n >= 3
            &&& commands[n - 3] == (EncoderCommand::WriteTimestamp { entry: begin })
            &&& commands[n - 2] == (EncoderCommand::Dispatch { groups, threads })
            &&& commands[n - 1] == (EncoderCommand::WriteTimestamp { entry: end })
        }),
{
}

/// Each dispatch sets its own pipeline and its own argument table, once, behind its bindings and in
/// front of the one dispatch, which has the extents asked for: whatever the batch already holds,
/// and with or without timestamps. Gives where the three commands stand.
pub proof fn law_dispatch_sets_pipeline_and_table(
    dispatches: nat,
    addresses: Seq<u64>,
    groups: (u32, u32, u32),
    threads: (u32, u32, u32),
    timestamps: Option<(usize, usize)>,
) -> (at: (int, int, int))
    ensures
        ({
            let commands = dispatch_commands(dispatches, addresses, groups, threads, timestamps);
            let (pipeline, table, dispatch) = at;
            &&& addresses.len() <= pipeline < table < dispatch < commands.len()
            &&& commands[pipeline] == EncoderCommand::SetPipeline
            &&& commands[table] == EncoderCommand::SetArgumentTable
            &&& commands[dispatch] == (EncoderCommand::Dispatch { groups, threads })
            &&& forall|i: int|
                #![trigger commands[i]]
                0 <= i < commands.len() ==> {
                    &&& commands[i] is SetPipeline <==> i == pipeline
                    &&& commands[i] is SetArgumentTable <==> i == table
                    &&& commands[i] is Dispatch <==> i == dispatch
                    &&& commands[i] is SetAddress <==> i < addresses.len()
                    &&& commands[i] is Barrier ==> addresses.len() <= i < pipeline
                    &&& commands[i] is WriteTimestamp ==> i == dispatch - 1 || i == dispatch + 1
                }
        }),
{
    let commands = dispatch_commands(dispatches, addresses, groups, threads, timestamps);
    let n = addresses.len() as int;
    assert forall|i: int| 0 <= i < n implies commands[i] is SetAddress by {
        assert(commands[i] == bind_commands(addresses)[i]);
    }
    let pipeline = if dispatches > 0 {
        n + 1
    } else {
        n
    };
    let dispatch = if timestamps is Some {
        pipeline + 3
    } else {
        pipeline + 2
    };
    (pipeline, pipeline + 1, dispatch)
}

/// A dispatch takes one command for each address, one barrier if it is not the first of its batch,
/// one for pipeline, table and dispatch each, and two more exactly if it is timed.
pub proof fn law_dispatch_length(
    dispatches: nat,
    addresses: Seq<u64>,
    groups: (u32, u32, u32),
    threads: (u32, u32, u32),
    timestamps: Option<(usize, usize)>,
)
    ensures
        ({
            let commands = dispatch_commands(dispatches, addresses, groups, threads, timestamps);
            commands.len() == addresses.len() + 3 + (if dispatches > 0 {
                1int
            } else {
                0int
            }) + (if timestamps is Some {
                2int
            } else {
                0int
            })
        }),
{
}

/// Without timestamps asked for none is written.
pub proof fn law_untimed_dispatch_writes_no_timestamp(
    dispatches: nat,
    addresses: Seq<u64>,
    groups: (u32, u32, u32),
    threads: (u32, u32, u32),
    i: int,
)
    requires
        0 <= i < dispatch_commands(dispatches, addresses, groups, threads, None).len(),
    ensures
        !(dispatch_commands(dispatches, addresses, groups, threads, None)[i] is WriteTimestamp),
{
    let commands = dispatch_commands(dispatches, addresses, groups, threads, None);
    if i < addresses.len() {
        assert(commands[i] == bind_commands(addresses)[i]);
    }
}

/// A later dispatch of a batch has the commands of a first one, with one barrier put in behind the
/// bindings.
pub proof fn law_later_dispatch_adds_one_barrier(
    dispatches: nat,
    addresses: Seq<u64>,
    groups: (u32, u32, u32),
    threads: (u32, u32, u32),
    timestamps: Option<(usize, usize)>,
)
    requires
        dispatches > 0,
    ensures
        ({
            let first = dispatch_commands(0, addresses, groups, threads, timestamps);
            let later = dispatch_commands(dispatches, addresses, groups, threads, timestamps);
            let n = addresses.len() as int;
            later == first.take(n).push(EncoderCommand::Barrier) + first.skip(n)
        }),
{
    let first = dispatch_commands(0, addresses, groups, threads, timestamps);
    let later = dispatch_commands(dispatches, addresses, groups, threads, timestamps);
    let n = addresses.len() as int;
    assert(later =~= first.take(n).push(EncoderCommand::Barrier) + first.skip(n));
}

/// An argument table has a slot for each address, at least one, and none to spare beyond that.
pub proof fn law_table_holds_addresses(addresses: nat)
    ensures
        slots_for(addresses) >= 1,
        slots_for(addresses) >= addresses,
        slots_for(addresses) == addresses || slots_for(addresses) == 1,
{
}

/// The number after a number is one more, and behind the last comes 0.
pub proof fn law_numbers_follow(n: u64)
    ensures
        n < u64::MAX ==> after(n) == n + 1,
        n == u64::MAX ==> after(n) == 0,
{
}

/// Taking an allocator takes the last of the pool and returning one puts it last; neither changes
/// anything else. A commit leaves the pool alone.
pub proof fn law_pool_is_a_stack<A>(context: Metal4View<A>, allocator: A)
    ensures
        context.pool.len() > 0 ==> {
            &&& context.allocator_taken().pool.push(context.pool.last()) == context.pool
            &&& context.allocator_taken() == (Metal4View {
                pool: context.allocator_taken().pool,
                ..context
            })
        },
        context.allocator_returned(allocator).pool.len() == context.pool.len() + 1,
        context.allocator_returned(allocator).pool.last() == allocator,
        context.allocator_returned(allocator).allocator_taken() == context,
        context.committed().pool == context.pool,
{
    if context.pool.len() > 0 {
        assert(context.allocator_taken().pool.push(context.pool.last()) =~= context.pool);
    }
    assert(context.allocator_returned(allocator).allocator_taken().pool =~= context.pool);
}

/// Nothing that happens to a context changes the clock of its device.
pub proof fn law_clock_stays<A>(context: Metal4View<A>, events: Seq<ContextEvent<A>>)
    ensures
        context.run(events).frequency_hz == context.frequency_hz,
        context.run(events).ts_entry_size == context.ts_entry_size,
    decreases events.len(),
{
    if events.len() > 0 {
        law_clock_stays(context, events.drop_last());
    }
}

/// A dispatch in a batch of its own submits that batch, with this one dispatch and the objects that
/// were opened for it, under the next signal.
pub proof fn law_one_shot_submits_its_batch<A, C, E>(
    encoded: Encoded<A, C, E>,
    context: Metal4View<A>,
    batch: Batch<A, C, E>,
    commands: Seq<EncoderCommand>,
)
    requires
        encoded.is_one_shot(context, batch, commands),
    ensures
        encoded.commands@ == commands,
        encoded.submission.signal == context.next_signal,
        encoded.submission.timeout_ms == 30_000,
        encoded.submission.batch.dispatches == 1,
        encoded.submission.batch.allocator == batch.allocator,
        encoded.submission.batch.cb == batch.cb,
        encoded.submission.batch.encoder == batch.encoder,
{
}

/// The error of a failed bring-up holds the whole reason at its end, where the object comes with
/// one, and does not depend on it otherwise.
pub proof fn law_bring_up_keeps_reason(object: BringUp, reason: Seq<char>)
    ensures
        object is ResidencySet ==> object.failure(reason) == object.failure(seq![]) + reason,
        !(object is ResidencySet) ==> object.failure(reason) == object.failure(seq![]),
{
    assert(seq![] + reason =~= reason);
    if object is ResidencySet {
        assert(object.failure(seq![]) + reason =~= object.failure(reason));
    }
}

/// The error of a failed compilation holds the whole reason at its end, where the object comes with
/// one, and the whole name of the entry point where that is missing.
pub proof fn law_compile_keeps_reason(stage: CompileStage, name: Seq<char>, reason: Seq<char>)
    ensures
        stage is Function ==> {
            let start = "entry point `"@;
            let message = stage.failure(name, reason);
            &&& message.take(start.len() as int) == start
            &&& message.subrange(start.len() as int, (start.len() + name.len()) as int) == name
            &&& message.skip((start.len() + name.len()) as int) == "` not found in compiled library"@
        },
        !(stage is Function) ==> stage.failure(name, reason) == stage.failure(seq![], seq![])
            + reason,
{
    if stage is Function {
        let start = "entry point `"@;
        let message = stage.failure(name, reason);
        assert(message.take(start.len() as int) =~= start);
        assert(message.subrange(start.len() as int, (start.len() + name.len()) as int) =~= name);
        assert(message.skip((start.len() + name.len()) as int) =~= "` not found in compiled library"@);
    } else {
        assert(stage.failure(seq![], seq![]) + reason =~= stage.failure(name, reason));
    }
}

/// An allocation has room for what was asked for, and is not empty. It has no more room than
/// that where something was asked for.
pub proof fn law_allocation_has_room<A>(ctx: &Metal4<A>, bytes: usize, r: usize)
    requires
        call_ensures(Metal4::<A>::alloc_length, (ctx, bytes), r),
    ensures
        r >= 1,
        r >= bytes,
        r > bytes ==> bytes == 0 && r == 1,
{
}

/// A call of [`Metal4::batch_dispatch`] that got its table gives commands that bind each address
/// in its slot, then set the pipeline, the table and the dispatch, each once, whatever the batch
/// already holds. The batch counts the dispatch and is otherwise the same. The result is where
/// the three commands stand.
pub proof fn law_encoded_dispatch_is_complete<A, C, E>(
    ctx: &Metal4<A>,
    batch: &mut Batch<A, C, E>,
    table: Result<(), String>,
    addresses: &[u64],
    groups: (u32, u32, u32),
    threads: (u32, u32, u32),
    timestamps: Option<(usize, usize)>,
    r: Result<Vec<EncoderCommand>, String>,
) -> (at: (int, int, int))
    requires
        call_ensures(
            Metal4::<A>::batch_dispatch::<C, E>,
            (ctx, batch, table, addresses, groups, threads, timestamps),
            r,
        ),
        table is Ok,
    ensures
        r matches Ok(commands) && {
            let (pipeline, set_table, dispatch) = at;
            &&& addresses@.len() <= pipeline < set_table < dispatch < commands@.len()
            &&& commands@[pipeline] == EncoderCommand::SetPipeline
            &&& commands@[set_table] == EncoderCommand::SetArgumentTable
            &&& commands@[dispatch] == (EncoderCommand::Dispatch { groups, threads })
            &&& forall|i: int|
                #![trigger commands@[i]]
                0 <= i < commands@.len() ==> {
                    &&& commands@[i] is SetPipeline <==> i == pipeline
                    &&& commands@[i] is SetArgumentTable <==> i == set_table
                    &&& commands@[i] is Dispatch <==> i == dispatch
                    &&& commands@[i] is SetAddress <==> i < addresses@.len()
                    &&& i < addresses@.len() ==> commands@[i] == (EncoderCommand::SetAddress {
                        address: addresses@[i],
                        slot: i as usize,
                    })
                    &&& commands@[i] is Barrier <==> old(batch).dispatches > 0 && i
                        == addresses@.len()
                    &&& commands@[i] is WriteTimestamp <==> timestamps is Some && (i == dispatch - 1
                        || i == dispatch + 1)
                }
            &&& commands@.len() == dispatch + (if timestamps is Some {
                2int
            } else {
                1int
            })
        },
        timestamps matches Some((begin, end)) ==> {
            &&& r->Ok_0@[at.2 - 1] == (EncoderCommand::WriteTimestamp { entry: begin })
            &&& r->Ok_0@[at.2 + 1] == (EncoderCommand::WriteTimestamp { entry: end })
        },
        final(batch).dispatches == old(batch).dispatches + 1,
        final(batch).allocator == old(batch).allocator,
        final(batch).cb == old(batch).cb,
        final(batch).encoder == old(batch).encoder,
{
    law_dispatch_sets_pipeline_and_table(
        old(batch).dispatches as nat,
        addresses@,
        groups,
        threads,
        timestamps,
    )
}

/// A call of [`Metal4::batch_dispatch`] without a table leaves the batch as it was, and says why
/// there is none.
pub proof fn law_no_dispatch_without_table<A, C, E>(
    ctx: &Metal4<A>,
    batch: &mut Batch<A, C, E>,
    reason: String,
    addresses: &[u64],
    groups: (u32, u32, u32),
    threads: (u32, u32, u32),
    timestamps: Option<(usize, usize)>,
    r: Result<Vec<EncoderCommand>, String>,
)
    requires
        call_ensures(
            Metal4::<A>::batch_dispatch::<C, E>,
            (ctx, batch, Err::<(), String>(reason), addresses, groups, threads, timestamps),
            r,
        ),
    ensures
        *final(batch) == *old(batch),
        r matches Err(message) && message@.len() >= reason@.len() && message@.skip(
            message@.len() - reason@.len(),
        ) == reason@,
{
    assert(r->Err_0@.skip(r->Err_0@.len() - reason@.len()) =~= reason@);
}

/// Two batches that are committed one after the other are handed over as they were given, and
/// signal two numbers in a row. Commits leave the pool and the clock alone.
pub proof fn law_commits_signal_in_a_row<A, C, E>(
    first: &mut Metal4<A>,
    second: &mut Metal4<A>,
    a: Batch<A, C, E>,
    b: Batch<A, C, E>,
    ra: Submission<A, C, E>,
    rb: Submission<A, C, E>,
)
    requires
        call_ensures(Metal4::<A>::commit_batch::<C, E>, (first, a), ra),
        call_ensures(Metal4::<A>::commit_batch::<C, E>, (second, b), rb),
        old(second)@ == final(first)@,
    ensures
        ra.batch == a,
        rb.batch == b,
        ra.timeout_ms == 30_000,
        rb.timeout_ms == 30_000,
        ra.signal < u64::MAX ==> rb.signal == ra.signal + 1,
        ra.signal == u64::MAX ==> rb.signal == 0,
        final(second)@.pool == old(first)@.pool,
        final(second)@.frequency_hz == old(first)@.frequency_hz,
        final(second)@.ts_entry_size == old(first)@.ts_entry_size,
        old(first)@.commit_count < u64::MAX ==> final(first)@.commit_count
            == old(first)@.commit_count + 1,
{
}

/// The allocator that was recycled last is the one that the next batch is opened with, and the
/// context is then as it was before both.
pub proof fn law_recycled_allocator_is_next<A, C, E>(
    first: &mut Metal4<A>,
    second: &mut Metal4<A>,
    allocator: A,
    r: OpenStep<A, C, E>,
)
    requires
        call_ensures(Metal4::<A>::recycle, (first, allocator, false), ()),
        call_ensures(Metal4::<A>::open_batch::<C, E>, (second, false), r),
        old(second)@ == final(first)@,
    ensures
        r matches OpenStep::CreateCommandBuffer { allocator: taken } && taken == allocator,
        final(second)@ == old(first)@,
{
    assert(final(second)@.pool =~= old(first)@.pool);
}

/// A poisoned pool is left alone: nothing is taken from it and nothing comes back.
pub proof fn law_poisoned_pool_is_left_alone<A, C, E>(
    first: &mut Metal4<A>,
    second: &mut Metal4<A>,
    allocator: A,
    r: OpenStep<A, C, E>,
)
    requires
        call_ensures(Metal4::<A>::recycle, (first, allocator, true), ()),
        call_ensures(Metal4::<A>::open_batch::<C, E>, (second, true), r),
    ensures
        final(first)@ == old(first)@,
        final(second)@ == old(second)@,
        r is Failed,
{
}

/// A batch is opened from the very objects that the device created for it, and is empty. It is
/// not opened where one of them is missing.
pub proof fn law_batch_opens_with_its_objects<A, C, E>(
    allocator: Option<A>,
    cb: Option<C>,
    encoder: Option<E>,
    r1: OpenStep<A, C, E>,
    r2: OpenStep<A, C, E>,
    r3: OpenStep<A, C, E>,
)
    requires
        call_ensures(OpenStep::<A, C, E>::allocator_created, (allocator,), r1),
        r1 matches OpenStep::CreateCommandBuffer { allocator: a } ==> call_ensures(
            OpenStep::<A, C, E>::command_buffer_created,
            (a, cb),
            r2,
        ),
        r2 matches OpenStep::BeginEncoder { allocator: a, cb: c } ==> call_ensures(
            OpenStep::<A, C, E>::encoder_created,
            (a, c, encoder),
            r3,
        ),
    ensures
        allocator is None <==> r1 is Failed,
        allocator is Some ==> r1 is CreateCommandBuffer && (cb is None <==> r2 is Failed),
        allocator is Some && cb is Some ==> r2 is BeginEncoder && (encoder is None <==> r3 is Failed),
        allocator is Some && cb is Some && encoder is Some ==> (r3 matches OpenStep::Opened(batch)
            && batch.allocator == allocator->0 && batch.cb == cb->0 && batch.encoder == encoder->0
            && batch.dispatches == 0),
{
}

/// A batch that retired in time gives back its allocator. Of one that did not, the message ends
/// with where the event stands.
pub proof fn law_retired_batch_gives_its_allocator<A, C, E>(
    submission: Submission<A, C, E>,
    completed: bool,
    event_value: u64,
    r: Result<A, String>,
)
    requires
        call_ensures(
            Submission::<A, C, E>::retired,
            (submission, completed, event_value),
            r,
        ),
    ensures
        r is Ok <==> completed,
        completed ==> r == Ok::<A, String>(submission.batch.allocator),
{
}

/// A buffer made from data is as long as the data, at the addresses that it was given, and holds
/// each byte of it.
pub proof fn law_buffer_holds_its_data<A, R>(
    ctx: &Metal4<A>,
    raw: R,
    gpu_address: u64,
    host_address: usize,
    contents: &mut [u8],
    data: &[u8],
    r: Buffer<R>,
)
    requires
        call_ensures(
            Metal4::<A>::buffer_from::<R>,
            (ctx, raw, gpu_address, host_address, contents, data),
            r,
        ),
    ensures
        r@.raw == raw,
        r@.gpu_address == gpu_address,
        r@.host_address == host_address,
        r@.len == data@.len(),
        final(contents)@.len() == data@.len(),
        forall|i: int| 0 <= i < data@.len() ==> #[trigger] final(contents)@[i] == data@[i],
{
}

/// A one-shot dispatch of buffers is one of their addresses: from the same context, both encode
/// the same commands and submit under the same signal.
pub proof fn law_buffers_are_bound_by_address<A, R, C, E>(
    first: &mut Metal4<A>,
    second: &mut Metal4<A>,
    batch: Batch<A, C, E>,
    bindings: &[&Buffer<R>],
    addresses: &[u64],
    groups: (u32, u32, u32),
    threads: (u32, u32, u32),
    a: Result<Encoded<A, C, E>, String>,
    b: Result<Encoded<A, C, E>, String>,
)
    requires
        call_ensures(
            Metal4::<A>::dispatch::<R, C, E>,
            (first, batch, Ok::<(), String>(()), bindings, groups, threads),
            a,
        ),
        call_ensures(
            Metal4::<A>::dispatch_addresses::<C, E>,
            (second, batch, Ok::<(), String>(()), addresses, groups, threads),
            b,
        ),
        old(second)@ == old(first)@,
        addresses@.len() == bindings@.len(),
        forall|i: int|
            0 <= i < addresses@.len() ==> #[trigger] addresses@[i] == bindings@[i]@.gpu_address,
    ensures
        a is Ok,
        b is Ok,
        a->Ok_0.commands@ == b->Ok_0.commands@,
        a->Ok_0.submission == b->Ok_0.submission,
        final(first)@ == final(second)@,
{
    assert(addresses_of(bindings@) =~= addresses@);
}

/// A timed one-shot dispatch encodes what the untimed one does, with one timestamp just before
/// the dispatch and one just behind it, into entries of their own.
pub proof fn law_timing_adds_two_timestamps<A, R, C, E>(
    first: &mut Metal4<A>,
    second: &mut Metal4<A>,
    batch: Batch<A, C, E>,
    bindings: &[&Buffer<R>],
    groups: (u32, u32, u32),
    threads: (u32, u32, u32),
    timed: Result<Encoded<A, C, E>, String>,
    plain: Result<Encoded<A, C, E>, String>,
)
    requires
        call_ensures(
            Metal4::<A>::dispatch_timed::<R, C, E>,
            (first, batch, Ok::<(), String>(()), bindings, groups, threads),
            timed,
        ),
        call_ensures(
            Metal4::<A>::dispatch::<R, C, E>,
            (second, batch, Ok::<(), String>(()), bindings, groups, threads),
            plain,
        ),
        old(second)@ == old(first)@,
    ensures
        timed is Ok,
        plain is Ok,
        timed->Ok_0.submission == plain->Ok_0.submission,
        final(first)@ == final(second)@,
        ({
            let commands = plain->Ok_0.commands@;
            timed->Ok_0.commands@ == commands.drop_last().push(
                EncoderCommand::WriteTimestamp { entry: 0 },
            ).push(commands.last()).push(EncoderCommand::WriteTimestamp { entry: 1 })
        }),
        plain->Ok_0.commands@.last() == (EncoderCommand::Dispatch { groups, threads }),
{
    let commands = plain->Ok_0.commands@;
    assert(timed->Ok_0.commands@ =~= commands.drop_last().push(
        EncoderCommand::WriteTimestamp { entry: 0 },
    ).push(commands.last()).push(EncoderCommand::WriteTimestamp { entry: 1 }));
}

/// A new context has committed nothing, keeps the clock that it was made with, and gives its
/// first batch the one allocator it was made with.
pub proof fn law_new_context_keeps_its_parts<A, C, E>(
    allocator: A,
    frequency_hz: u64,
    ts_entry_size: usize,
    ctx: Metal4<A>,
    used: &mut Metal4<A>,
    r_count: u64,
    r_hz: u64,
    r_size: usize,
    r: OpenStep<A, C, E>,
)
    requires
        call_ensures(Metal4::<A>::new, (allocator, frequency_hz, ts_entry_size), ctx),
        call_ensures(Metal4::<A>::commit_count, (&ctx,), r_count),
        call_ensures(Metal4::<A>::frequency_hz, (&ctx,), r_hz),
        call_ensures(Metal4::<A>::ts_entry_size, (&ctx,), r_size),
        old(used)@ == ctx@,
        call_ensures(Metal4::<A>::open_batch::<C, E>, (used, false), r),
    ensures
        r_count == 0,
        r_hz == frequency_hz,
        r_size == ts_entry_size,
        r matches OpenStep::CreateCommandBuffer { allocator: taken } && taken == allocator,
        final(used)@.pool.len() == 0,
        ctx@.next_signal == 1,
{
}

/// A context resolves a duration with its own clock and entry size.
pub proof fn law_context_times_with_its_clock<A>(
    ctx: &Metal4<A>,
    data: Option<Vec<u8>>,
    r: Result<u64, String>,
    plain: Result<u64, String>,
)
    requires
        call_ensures(Metal4::<A>::resolve_timed, (ctx, data), r),
        call_ensures(timed_duration, (data, ctx@.ts_entry_size, ctx@.frequency_hz), plain),
    ensures
        r is Ok <==> plain is Ok,
        r matches Ok(ns) ==> plain == Ok::<u64, String>(ns),
        r matches Err(message) ==> message@ == plain->Err_0@,
{
}

/// The extents of a threadgroup keep their places, and their values where they fit in 32 bits.
pub proof fn law_threadgroup_keeps_extents<A>(
    ctx: &Metal4<A>,
    width: usize,
    height: usize,
    depth: usize,
    r: (u32, u32, u32),
)
    requires
        call_ensures(
            Metal4::<A>::max_threads_per_threadgroup,
            (ctx, width, height, depth),
            r,
        ),
    ensures
        width <= u32::MAX ==> r.0 == width,
        height <= u32::MAX ==> r.1 == height,
        depth <= u32::MAX ==> r.2 == depth,
        (width - r.0) % 0x1_0000_0000 == 0,
        (height - r.1) % 0x1_0000_0000 == 0,
        (depth - r.2) % 0x1_0000_0000 == 0,
{
}

/// Bringing up a device fails at exactly the object that was not created, and compiling a kernel
/// at exactly the stage that failed.
pub proof fn law_failure_stops_at_its_object(
    object: BringUp,
    stage: CompileStage,
    name: &str,
    outcome: Result<(), String>,
    a: BringUpStep,
    b: CompileStep,
)
    requires
        call_ensures(BringUp::created, (object, outcome), a),
        call_ensures(CompileStage::created, (stage, name, outcome), b),
    ensures
        a is Failed <==> outcome is Err,
        b is Failed <==> outcome is Err,
        a matches BringUpStep::Create(next) ==> next != object,
        b matches CompileStep::Create(next) ==> next != stage,
        a is Ready <==> outcome is Ok && object is ResidencySet,
        b is Ready <==> outcome is Ok && stage is PipelineState,
{
}

/// Bringing up a device asks for each object in its turn: the device, the queue, the allocator,
/// the event and the residency set.
pub proof fn law_objects_in_their_turn(
    first: BringUp,
    second: BringUpStep,
    third: BringUpStep,
    fourth: BringUpStep,
    fifth: BringUpStep,
    last: BringUpStep,
)
    requires
        call_ensures(BringUp::first, (), first),
        call_ensures(BringUp::created, (first, Ok::<(), String>(())), second),
        second matches BringUpStep::Create(object) ==> call_ensures(
            BringUp::created,
            (object, Ok::<(), String>(())),
            third,
        ),
        third matches BringUpStep::Create(object) ==> call_ensures(
            BringUp::created,
            (object, Ok::<(), String>(())),
            fourth,
        ),
        fourth matches BringUpStep::Create(object) ==> call_ensures(
            BringUp::created,
            (object, Ok::<(), String>(())),
            fifth,
        ),
        fifth matches BringUpStep::Create(object) ==> call_ensures(
            BringUp::created,
            (object, Ok::<(), String>(())),
            last,
        ),
    ensures
        first == BringUp::Device,
        second == BringUpStep::Create(BringUp::Queue),
        third == BringUpStep::Create(BringUp::Allocator),
        fourth == BringUpStep::Create(BringUp::SharedEvent),
        fifth == BringUpStep::Create(BringUp::ResidencySet),
        last == BringUpStep::Ready,
{
}

/// A counter heap that was created goes on; of one that was not, the message ends with the reason.
pub proof fn law_heap_failure_keeps_reason(outcome: Result<(), String>, r: Result<(), String>)
    requires
        call_ensures(counter_heap_created, (outcome,), r),
    ensures
        r is Ok <==> outcome is Ok,
        outcome matches Err(reason) ==> r->Err_0@.len() > reason@.len() && r->Err_0@.skip(
            r->Err_0@.len() - reason@.len(),
        ) == reason@,
{
    if outcome is Err {
        reveal_strlit("counter heap creation failed: ");
        let reason = outcome->Err_0@;
        assert(r->Err_0@.skip(r->Err_0@.len() - reason.len()) =~= reason);
    }
}

/// A table has a slot for each address, and at least one. A batch tells how many dispatches it
/// holds.
pub proof fn law_table_has_a_slot_each<A, C, E>(
    addresses: &[u64],
    slots: usize,
    batch: &Batch<A, C, E>,
    dispatches: usize,
)
    requires
        call_ensures(table_slots, (addresses,), slots),
        call_ensures(Batch::<A, C, E>::dispatches, (batch,), dispatches),
    ensures
        slots >= 1,
        slots >= addresses@.len(),
        slots > 1 ==> slots == addresses@.len(),
        dispatches == batch.dispatches,
{
}

} // verus!
