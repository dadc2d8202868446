//! A stream: the open batch that launches append to, and what it keeps alive until the commit.
//!
//! Launches are encoded one after the other into one open batch, which is committed once, on a
//! flush, a sync or a read. `A`, `C` and `E` are the Metal objects of a batch, `R` is a raw buffer,
//! `P` a compiled pipeline and `M` a binding that keeps a slice of the memory pool reserved.

use vstd::prelude::*;

use crate::buffer::{copy_to_start, law_written_read_back, written, Buffer};
use crate::bytes::{cast_words, words_bytes};
use crate::context::{
    dispatch_commands, slots_for, table_slots, Batch, EncoderCommand, Metal4, Metal4View,
    Submission, WAIT_TIMEOUT_MS,
};
use crate::error::{
    all_say, duplicate_all, law_unhealthy_says_errors, IoError, IoErrorView, ServerError,
    ServerErrorView,
};
use crate::fmt::{execute_text, text_taken, write_execute, write_text};
use crate::storage::Metal4Resource;
use crate::text::{decimal, push_decimal};

verus! {

// ---------------------------------------------------------------------------
// Tasks
// ---------------------------------------------------------------------------

/// Units of a cube in each direction.
#[derive(Clone, Copy, Debug, PartialEq, Eq, Structural)]
pub struct CubeDim {
    /// In the first direction.
    pub x: u32,
    /// In the second direction.
    pub y: u32,
    /// In the third direction.
    pub z: u32,
}

/// Resolved resources for a kernel launch: the buffer bindings (in slot order) plus the packed
/// metadata/scalars (`info`) that come last.
#[derive(Debug)]
pub struct BindingsResource<M> {
    /// The resources, in slot order.
    pub resources: Vec<Metal4Resource>,
    /// The memory-pool bindings backing `resources`. Launches bind raw GPU addresses, so nothing
    /// else keeps these pool slices reserved: they are retained until the batch commits.
    pub handles: Vec<M>,
    /// The packed metadata and scalars.
    pub info: Vec<u64>,
}

/// One scheduled task on a stream.
pub enum ScheduleTask<P, M> {
    /// Host to unified-memory upload into an already-resolved resource.
    Write {
        /// Where to write.
        resource: Metal4Resource,
        /// What to write.
        data: Vec<u8>,
    },
    /// A compiled kernel ready to encode into the open batch.
    Execute {
        /// The compiled kernel.
        pipeline: P,
        /// Units of a cube.
        cube_dim: CubeDim,
        /// Cubes in each direction.
        cube_count: [u32; 3],
        /// What the kernel works on.
        bindings: BindingsResource<M>,
    },
}

/// Three numbers as they are listed between brackets.
pub open spec fn listed(numbers: Seq<u32>) -> Seq<char> {
    "["@ + decimal(numbers[0] as nat) + ", "@ + decimal(numbers[1] as nat) + ", "@ + decimal(
        numbers[2] as nat,
    ) + "]"@
}

impl CubeDim {
    /// The dimensions as text.
    pub open spec fn text(self) -> Seq<char> {
        "CubeDim { x: "@ + decimal(self.x as nat) + ", y: "@ + decimal(self.y as nat) + ", z: "@
            + decimal(self.z as nat) + " }"@
    }

    /// The dimensions as `CubeDim { x: 1, y: 1, z: 1 }`.
    pub fn debug_text(&self) -> (r: String)
        ensures
            r@ == self.text(),
            r@ == "CubeDim { x: "@ + decimal(self.x as nat) + ", y: "@ + decimal(self.y as nat)
                + ", z: "@ + decimal(self.z as nat) + " }"@,
    {
        let mut out = String::from_str("CubeDim { x: ");
        push_decimal(&mut out, self.x as u64);
        out.append(", y: ");
        push_decimal(&mut out, self.y as u64);
        out.append(", z: ");
        push_decimal(&mut out, self.z as u64);
        out.append(" }");
        out
    }
}

impl<P, M> ScheduleTask<P, M> {
    /// The task as text: `Write`, or `Execute` with the dimensions and the count of its cubes.
    pub fn debug_text(&self) -> (r: String)
        ensures
            match self {
                ScheduleTask::Write { .. } => r@ == "Write"@,
                ScheduleTask::Execute { cube_dim, cube_count, .. } => r@
                    == "Execute { cube_dim: "@ + cube_dim.text() + ", cube_count: "@ + listed(
                    cube_count@,
                ) + " }"@,
            },
    {
        match self {
            ScheduleTask::Write { .. } => String::from_str("Write"),
            ScheduleTask::Execute { cube_dim, cube_count, .. } => {
                let mut out = String::from_str("Execute { cube_dim: ");
                out.append(cube_dim.debug_text().as_str());
                out.append(", cube_count: ");
                let ghost before = out@;
                out.append("[");
                push_decimal(&mut out, cube_count[0] as u64);
                out.append(", ");
                push_decimal(&mut out, cube_count[1] as u64);
                out.append(", ");
                push_decimal(&mut out, cube_count[2] as u64);
                out.append("]");
                assert(out@ =~= before + listed(cube_count@));
                out.append(" }");
                out
            },
        }
    }
}

impl<P, M> core::fmt::Debug for ScheduleTask<P, M> {
    /// The task as `Write`, or as `Execute` with the dimensions and the count of its cubes in the
    /// way that the formatter asks for.
    fn fmt(&self, f: &mut core::fmt::Formatter<'_>) -> (r: core::fmt::Result)
        ensures
            r is Ok ==> text_taken(*final(f)) == text_taken(*old(f)) + match *self {
                ScheduleTask::Write { .. } => "Write"@,
                ScheduleTask::Execute { cube_dim, cube_count, .. } => execute_text(
                    *old(f),
                    (cube_dim.x, cube_dim.y, cube_dim.z),
                    cube_count@,
                ),
            },
    {
        match self {
            ScheduleTask::Write { .. } => write_text(f, "Write"),
            ScheduleTask::Execute { cube_dim, cube_count, .. } => write_execute(
                f,
                *cube_dim,
                *cube_count,
            ),
        }
    }
}

// ---------------------------------------------------------------------------
// Launches
// ---------------------------------------------------------------------------

/// A launch on its way into the batch: what it binds and how it is dispatched.
pub struct Launch<P, M> {
    /// The compiled kernel.
    pub pipeline: P,
    /// The GPU addresses, in slot order.
    pub addresses: Vec<u64>,
    /// Threadgroups in each direction.
    pub groups: (u32, u32, u32),
    /// Threads of a threadgroup in each direction.
    pub threads: (u32, u32, u32),
    /// The memory-pool bindings to pin.
    pub handles: Vec<M>,
}

/// What a stream needs done next for a task.
pub enum TaskStep<P, M> {
    /// Nothing: the task is not carried out, or has failed with the error recorded.
    Done,
    /// Copy the data into the bytes of the resource, with [`do_write`].
    Copy {
        /// Where to write.
        resource: Metal4Resource,
        /// What to write.
        data: Vec<u8>,
    },
    /// Allocate a buffer initialized from the bytes, and hand it to
    /// [`Metal4Stream::info_uploaded`].
    UploadInfo {
        /// The launch that it is for.
        launch: Launch<P, M>,
        /// The packed metadata and scalars.
        bytes: Vec<u8>,
    },
    /// Open a batch, and hand it to [`Metal4Stream::batch_opened`].
    OpenBatch {
        /// The launch that it is for.
        launch: Launch<P, M>,
    },
    /// Create an argument table, and go on with [`Metal4Stream::table_created`].
    CreateTable {
        /// The launch that it is for.
        launch: Launch<P, M>,
        /// How many buffer slots the table has.
        slots: usize,
    },
    /// Encode the commands into the open batch.
    Encode {
        /// The compiled kernel.
        pipeline: P,
        /// The commands, in order.
        commands: Vec<EncoderCommand>,
    },
}

/// How many bytes a write of `data` bytes to a resource of `size` bytes copies.
pub open spec fn copied(data: nat, size: nat) -> nat {
    if data <= size {
        data
    } else {
        size
    }
}

/// Writes to a resource, given its bytes: as much of the data as fits takes the place of the first
/// bytes, and the others stay. The batch has not been committed yet, so the device sees these bytes
/// when it runs.
pub fn do_write(contents: &mut [u8], data: &[u8])
    ensures
        final(contents)@ == written(
            old(contents)@,
            data@.take(copied(data@.len(), old(contents)@.len()) as int),
        ),
        final(contents)@.len() == old(contents)@.len(),
        forall|i: int|
            0 <= i < old(contents)@.len() && i < data@.len() ==> #[trigger] final(contents)@[i]
                == data@[i],
        forall|i: int|
            data@.len() <= i < old(contents)@.len() ==> #[trigger] final(contents)@[i] == old(
                contents,
            )@[i],
{
    let size: usize = contents.len();
    let n: usize = if data.len() <= size {
        data.len()
    } else {
        size
    };
    let prefix = &data[0..n];
    assert(prefix@ =~= data@.take(n as int));
    copy_to_start(contents, prefix);
    proof {
        law_written_read_back(old(contents)@, prefix@);
    }
}

/// The GPU addresses of resources, in order.
pub open spec fn resource_addresses(resources: Seq<Metal4Resource>) -> Seq<u64> {
    Seq::new(resources.len(), |i: int| resources[i].gpu_address)
}

impl<P, M> Launch<P, M> {
    /// The launch of a kernel on its resources, without the metadata buffer.
    pub open spec fn is_of(
        self,
        pipeline: P,
        cube_dim: CubeDim,
        cube_count: [u32; 3],
        bindings: BindingsResource<M>,
    ) -> bool {
        &&& self.pipeline == pipeline
        &&& self.addresses@ == resource_addresses(bindings.resources@)
        &&& self.groups == (cube_count@[0], cube_count@[1], cube_count@[2])
        &&& self.threads == (cube_dim.x, cube_dim.y, cube_dim.z)
        &&& self.handles == bindings.handles
    }

    /// The launch once its bindings are pinned, with the given addresses.
    pub open spec fn is_pinned(self, earlier: Self, addresses: Seq<u64>) -> bool {
        &&& self.pipeline == earlier.pipeline
        &&& self.addresses@ == addresses
        &&& self.groups == earlier.groups
        &&& self.threads == earlier.threads
        &&& self.handles@.len() == 0
    }
}

// ---------------------------------------------------------------------------
// The stream
// ---------------------------------------------------------------------------

/// How a flush deals with recorded errors.
#[derive(Clone, Copy, Debug, PartialEq, Eq, Structural)]
pub struct StreamErrorMode {
    /// Do not report errors.
    pub ignore: bool,
    /// Flush the errors.
    pub flush: bool,
}

/// A stream of tasks on one context.
pub struct Metal4Stream<A, C, E, R, M> {
    /// The currently-open batch (lazily opened on the first dispatch, committed on flush). `None`
    /// means no work is pending.
    batch: Option<Batch<A, C, E>>,
    /// Metadata buffers created for in-flight dispatches; kept alive until the batch commits.
    transient: Vec<Buffer<R>>,
    /// Memory-pool bindings referenced by dispatches in the open batch. Held so the pool can't
    /// recycle a slice the uncommitted GPU work still reads; freed on commit.
    in_flight: Vec<M>,
    errors: Vec<ServerError>,
}

/// The state of a [`Metal4Stream`].
#[verifier::ext_equal]
pub struct Metal4StreamView<A, C, E, R, M> {
    /// The open batch, if any.
    pub batch: Option<Batch<A, C, E>>,
    /// The metadata buffers that are kept alive.
    pub transient: Seq<Buffer<R>>,
    /// The memory-pool bindings that are pinned.
    pub in_flight: Seq<M>,
    /// The recorded errors, oldest first.
    pub errors: Seq<ServerErrorView>,
}

impl<A, C, E, R, M> core::fmt::Debug for Metal4Stream<A, C, E, R, M> {
    /// The name alone.
    fn fmt(&self, f: &mut core::fmt::Formatter<'_>) -> (r: core::fmt::Result)
        ensures
            r is Ok ==> text_taken(*final(f)) == text_taken(*old(f)) + "Metal4Stream"@,
    {
        write_text(f, "Metal4Stream")
    }
}

impl<A, C, E, R, M> View for Metal4Stream<A, C, E, R, M> {
    type V = Metal4StreamView<A, C, E, R, M>;

    closed spec fn view(&self) -> Metal4StreamView<A, C, E, R, M> {
        Metal4StreamView {
            batch: self.batch,
            transient: self.transient@,
            in_flight: self.in_flight@,
            errors: all_say(self.errors@),
        }
    }
}

impl<A, C, E, R, M> Metal4StreamView<A, C, E, R, M> {
    /// No error has been recorded.
    pub open spec fn healthy(self) -> bool {
        self.errors.len() == 0
    }

    /// How many dispatches wait for the next commit.
    pub open spec fn pending(self) -> nat {
        match self.batch {
            Some(batch) => batch.dispatches as nat,
            None => 0,
        }
    }

    /// The state with one more recorded error.
    pub open spec fn failed(self, error: ServerErrorView) -> Self {
        Metal4StreamView { errors: self.errors.push(error), ..self }
    }

    /// The state after a failed device call.
    pub open spec fn device_failed(self, description: Seq<char>) -> Self {
        self.failed(ServerErrorView::Io(IoErrorView::Unknown { description }))
    }

    /// The state with more bindings pinned.
    pub open spec fn pinned(self, handles: Seq<M>) -> Self {
        Metal4StreamView { in_flight: self.in_flight + handles, ..self }
    }

    /// The state with one more metadata buffer kept alive.
    pub open spec fn keeping(self, buffer: Buffer<R>) -> Self {
        Metal4StreamView { transient: self.transient.push(buffer), ..self }
    }

    /// The state with a batch open.
    pub open spec fn opened(self, batch: Batch<A, C, E>) -> Self {
        Metal4StreamView { batch: Some(batch), ..self }
    }

    /// The state with one more dispatch in the open batch.
    pub open spec fn dispatched(self) -> Self {
        match self.batch {
            Some(batch) => Metal4StreamView {
                batch: Some(Batch { dispatches: (batch.dispatches + 1) as usize, ..batch }),
                ..self
            },
            None => self,
        }
    }

    /// The state once the batch has been taken to commit it.
    pub open spec fn taken(self) -> Self {
        Metal4StreamView { batch: None, ..self }
    }

    /// How a launch goes on once all its addresses are known: its bindings are pinned; where no
    /// batch is open one is opened, and then it gets an argument table.
    pub open spec fn binds<P>(
        self,
        after: Self,
        step: TaskStep<P, M>,
        launch: Launch<P, M>,
        addresses: Seq<u64>,
    ) -> bool {
        &&& after == self.pinned(launch.handles@)
        &&& match self.batch {
            None => step matches TaskStep::OpenBatch { launch: pinned } && pinned.is_pinned(
                launch,
                addresses,
            ),
            Some(_) => step matches TaskStep::CreateTable { launch: pinned, slots }
                && pinned.is_pinned(launch, addresses) && slots == slots_for(addresses.len()),
        }
    }

    /// How the launch of a kernel begins: its metadata is uploaded, where there is any. Then it
    /// is bound.
    pub open spec fn executes<P>(
        self,
        after: Self,
        step: TaskStep<P, M>,
        pipeline: P,
        cube_dim: CubeDim,
        cube_count: [u32; 3],
        bindings: BindingsResource<M>,
    ) -> bool {
        if bindings.info@.len() > 0 {
            &&& after == self
            &&& step matches TaskStep::UploadInfo { launch, bytes } && launch.is_of(
                pipeline,
                cube_dim,
                cube_count,
                bindings,
            ) && bytes@ == words_bytes(bindings.info@)
        } else {
            exists|launch: Launch<P, M>|
                {
                    &&& #[trigger] launch.is_of(pipeline, cube_dim, cube_count, bindings)
                    &&& self.binds(
                        after,
                        step,
                        launch,
                        resource_addresses(bindings.resources@),
                    )
                }
        }
    }

    /// The state once a commit has ended: a failed one is recorded.
    pub open spec fn commit_ended(self, commit: Result<(), String>) -> Self {
        match commit {
            Ok(()) => self,
            Err(message) => self.device_failed(message@),
        }
    }

    /// The state once nothing is in flight any more.
    pub open spec fn released(self) -> Self {
        Metal4StreamView { transient: seq![], in_flight: seq![], ..self }
    }
}

/// What a commit needs done.
pub enum CommitStep<A, C, E> {
    /// Nothing was pending.
    Idle,
    /// Submit the batch, wait for it, and go on with [`Metal4Stream::commit_retired`].
    Submit(Submission<A, C, E>),
}

impl<A, C, E, R, M> Metal4Stream<A, C, E, R, M> {
    /// A stream without work.
    pub fn new() -> (r: Self)
        ensures
            r@ == (Metal4StreamView::<A, C, E, R, M> {
                batch: None,
                transient: seq![],
                in_flight: seq![],
                errors: seq![],
            }),
    {
        let r = Metal4Stream {
            batch: None,
            transient: Vec::new(),
            in_flight: Vec::new(),
            errors: Vec::new(),
        };
        assert(all_say(r.errors@) =~= seq![]);
        r
    }

    /// Whether no error has been recorded.
    pub fn is_healthy(&self) -> (r: bool)
        ensures
            r == self@.healthy(),
    {
        self.errors.len() == 0
    }

    /// The open batch, if any.
    pub fn open_batch(&self) -> (r: Option<&Batch<A, C, E>>)
        ensures
            match self@.batch {
                Some(batch) => r == Some(&batch),
                None => r is None,
            },
    {
        match &self.batch {
            Some(batch) => Some(batch),
            None => None,
        }
    }

    /// Record an error.
    pub fn error(&mut self, error: ServerError)
        ensures
            final(self)@ == old(self)@.failed(error.says()),
    {
        let ghost before = self.errors@;
        self.errors.push(error);
        assert(all_say(self.errors@) =~= all_say(before).push(error.says()));
    }

    /// Take on a task. An unhealthy stream carries out no more of them.
    pub fn enqueue_task<P>(&mut self, task: ScheduleTask<P, M>) -> (r: TaskStep<P, M>)
        ensures
            match task {
                _ if !old(self)@.healthy() => {
                    &&& r is Done
                    &&& final(self)@ == old(self)@
                },
                ScheduleTask::Write { resource, data } => {
                    &&& r == (TaskStep::<P, M>::Copy { resource, data })
                    &&& final(self)@ == old(self)@
                },
                ScheduleTask::Execute { pipeline, cube_dim, cube_count, bindings } => {
                    old(self)@.executes(final(self)@, r, pipeline, cube_dim, cube_count, bindings)
                },
            },
    {
        if !self.is_healthy() {
            return TaskStep::Done;
        }
        match task {
            ScheduleTask::Write { resource, data } => TaskStep::Copy { resource, data },
            ScheduleTask::Execute { pipeline, cube_dim, cube_count, bindings } => self.do_execute(
                pipeline,
                cube_dim,
                cube_count,
                bindings,
            ),
        }
    }

    /// Launch a kernel. Buffer slots: each binding's GPU address in order, then the appended
    /// metadata buffer.
    fn do_execute<P>(
        &mut self,
        pipeline: P,
        cube_dim: CubeDim,
        cube_count: [u32; 3],
        bindings: BindingsResource<M>,
    ) -> (r: TaskStep<P, M>)
        ensures
            old(self)@.executes(final(self)@, r, pipeline, cube_dim, cube_count, bindings),
    {
        let mut addresses: Vec<u64> = Vec::new();
        let mut i: usize = 0;
        while i < bindings.resources.len()
            invariant
                i == addresses@.len() <= bindings.resources@.len(),
                forall|j: int|
                    0 <= j < i ==> addresses@[j] == bindings.resources@[j].gpu_address,
            decreases bindings.resources@.len() - i,
        {
            addresses.push(bindings.resources[i].gpu_address);
            i += 1;
        }
        assert(addresses@ =~= resource_addresses(bindings.resources@));
        let launch = Launch {
            pipeline,
            addresses,
            groups: (cube_count[0], cube_count[1], cube_count[2]),
            threads: (cube_dim.x, cube_dim.y, cube_dim.z),
            handles: bindings.handles,
        };
        assert(launch.is_of(pipeline, cube_dim, cube_count, bindings));
        if bindings.info.len() > 0 {
            let mut bytes: Vec<u8> = Vec::new();
            bytes.extend_from_slice(cast_words(bindings.info.as_slice()));
            assert(bytes@ =~= words_bytes(bindings.info@));
            TaskStep::UploadInfo { launch, bytes }
        } else {
            self.bind_launch(launch)
        }
    }

    /// Pin the bindings of a launch until the batch commits, and see whether a batch is open.
    fn bind_launch<P>(&mut self, launch: Launch<P, M>) -> (r: TaskStep<P, M>)
        ensures
            old(self)@.binds(final(self)@, r, launch, launch.addresses@),
    {
        let mut launch = launch;
        self.in_flight.append(&mut launch.handles);
        match &self.batch {
            None => TaskStep::OpenBatch { launch },
            Some(_) => {
                let slots = table_slots(launch.addresses.as_slice());
                TaskStep::CreateTable { launch, slots }
            },
        }
    }

    /// Go on with a launch whose metadata buffer has been created: the buffer is bound last, and
    /// kept alive until the batch commits.
    pub fn info_uploaded<P>(&mut self, launch: Launch<P, M>, buffer: Buffer<R>) -> (r: TaskStep<
        P,
        M,
    >)
        ensures
            old(self)@.keeping(buffer).binds(
                final(self)@,
                r,
                launch,
                launch.addresses@.push(buffer@.gpu_address),
            ),
    {
        let mut launch = launch;
        launch.addresses.push(buffer.gpu_address());
        self.transient.push(buffer);
        self.bind_launch(launch)
    }

    /// Go on with a launch for which a batch was opened, or could not be.
    pub fn batch_opened<P>(
        &mut self,
        launch: Launch<P, M>,
        outcome: Result<Batch<A, C, E>, String>,
    ) -> (r: TaskStep<P, M>)
        requires
            old(self)@.batch is None,
        ensures
            match outcome {
                Ok(batch) => {
                    &&& final(self)@ == old(self)@.opened(batch)
                    &&& r matches TaskStep::CreateTable { launch: same, slots } && same == launch
                        && slots == slots_for(launch.addresses@.len())
                },
                Err(message) => {
                    &&& final(self)@ == old(self)@.device_failed(message@)
                    &&& r is Done
                },
            },
    {
        match outcome {
            Ok(batch) => {
                self.batch = Some(batch);
                let slots = table_slots(launch.addresses.as_slice());
                TaskStep::CreateTable { launch, slots }
            },
            Err(message) => {
                self.error(ServerError::unknown(message));
                TaskStep::Done
            },
        }
    }

    /// Go on with a launch for which an argument table was created, or could not be.
    pub fn table_created<P>(
        &mut self,
        ctx: &Metal4<A>,
        launch: Launch<P, M>,
        table: Result<(), String>,
    ) -> (r: TaskStep<P, M>)
        requires
            old(self)@.batch is Some,
            old(self)@.pending() < usize::MAX,
        ensures
            match table {
                Ok(()) => {
                    &&& final(self)@ == old(self)@.dispatched()
                    &&& r matches TaskStep::Encode { pipeline, commands } && pipeline
                        == launch.pipeline && commands@ == dispatch_commands(
                        old(self)@.pending(),
                        launch.addresses@,
                        launch.groups,
                        launch.threads,
                        None,
                    )
                },
                Err(reason) => {
                    &&& final(self)@ == old(self)@.device_failed(
                        "argument table creation failed: "@ + reason@,
                    )
                    &&& r is Done
                },
            },
    {
        match self.batch.take() {
            None => TaskStep::Done,
            Some(batch) => {
                let mut batch = batch;
                let encoded = ctx.batch_dispatch(
                    &mut batch,
                    table,
                    launch.addresses.as_slice(),
                    launch.groups,
                    launch.threads,
                    None,
                );
                self.batch = Some(batch);
                match encoded {
                    Ok(commands) => TaskStep::Encode { pipeline: launch.pipeline, commands },
                    Err(message) => {
                        self.error(ServerError::unknown(message));
                        TaskStep::Done
                    },
                }
            },
        }
    }

    /// Commit the open batch, if it holds any dispatch. Where none waits, all that is kept alive is
    /// let go at once, also what an earlier commit that timed out has left.
    pub fn commit(&mut self, ctx: &mut Metal4<A>) -> (r: CommitStep<A, C, E>)
        ensures
            if old(self)@.pending() > 0 {
                &&& r == CommitStep::Submit(
                    (Submission {
                        batch: old(self)@.batch->0,
                        signal: old(ctx)@.next_signal,
                        timeout_ms: WAIT_TIMEOUT_MS,
                    }),
                )
                &&& final(ctx)@ == old(ctx)@.committed()
                &&& final(self)@ == old(self)@.taken()
            } else {
                &&& r is Idle
                &&& final(ctx)@ == old(ctx)@
                &&& final(self)@ == old(self)@.taken().released()
            },
    {
        match self.batch.take() {
            Some(batch) => {
                if batch.dispatches() > 0 {
                    return CommitStep::Submit(ctx.commit_batch(batch));
                }
            },
            None => {},
        }
        self.transient.clear();
        self.in_flight.clear();
        CommitStep::Idle
    }

    /// End a commit that was submitted. Once the GPU work has retired, what was kept alive is let
    /// go; where it has not, the GPU may still read it.
    pub fn commit_retired(&mut self, outcome: Result<(), String>) -> (r: Result<(), String>)
        ensures
            match outcome {
                Ok(()) => r is Ok && final(self)@ == old(self)@.released(),
                Err(_) => r == outcome && final(self)@ == old(self)@,
            },
    {
        match outcome {
            Ok(()) => {
                self.transient.clear();
                self.in_flight.clear();
                Ok(())
            },
            Err(message) => Err(message),
        }
    }

    /// Flush the stream, given how its commit ended: a failed commit is recorded, and all recorded
    /// errors are reported unless the mode ignores them. Errors stay recorded.
    pub fn flush(&mut self, commit: Result<(), String>, mode: StreamErrorMode) -> (r: Result<
        (),
        ServerError,
    >)
        ensures
            final(self)@ == old(self)@.commit_ended(commit),
            r is Ok == (mode.ignore || old(self)@.commit_ended(commit).healthy()),
            r matches Err(error) ==> error.says() == (ServerErrorView::ServerUnhealthy {
                errors: old(self)@.commit_ended(commit).errors,
            }),
    {
        match commit {
            Ok(()) => {},
            Err(message) => {
                self.error(ServerError::unknown(message));
            },
        }
        if !mode.ignore && !self.is_healthy() {
            let errors = duplicate_all(&self.errors);
            proof {
                law_unhealthy_says_errors(errors);
            }
            return Err(ServerError::ServerUnhealthy { errors });
        }
        Ok(())
    }

    /// Flush the stream and report its errors.
    pub fn sync(&mut self, commit: Result<(), String>) -> (r: Result<(), ServerError>)
        ensures
            final(self)@ == old(self)@.commit_ended(commit),
            r is Ok == old(self)@.commit_ended(commit).healthy(),
            r matches Err(error) ==> error.says() == (ServerErrorView::ServerUnhealthy {
                errors: old(self)@.commit_ended(commit).errors,
            }),
    {
        self.flush(commit, StreamErrorMode { ignore: false, flush: true })
    }

    /// Flush the stream on behalf of the scheduler, which does not look at errors: they stay
    /// recorded for the next sync.
    pub fn flush_scheduled(&mut self, commit: Result<(), String>)
        ensures
            final(self)@ == old(self)@.commit_ended(commit),
    {
        let _ = self.flush(commit, StreamErrorMode { ignore: true, flush: false });
    }
}

/// Whether a synchronous read can go on, given how the commit before it ended. A failed commit is
/// the error of this read alone: the stream does not record it.
pub fn read_sync(commit: Result<(), String>) -> (r: Result<(), IoError>)
    ensures
        match commit {
            Ok(()) => r is Ok,
            Err(message) => r matches Err(error) && error@ == (IoErrorView::Unknown {
                description: message@,
            }),
        },
{
    match commit {
        Ok(()) => Ok(()),
        Err(message) => Err(IoError::Unknown { description: message }),
    }
}

// ---------------------------------------------------------------------------
// Runs of a stream
// ---------------------------------------------------------------------------

/// Something that happens to a stream.
pub enum StreamEvent<A, C, E, R, M> {
    /// A launch that succeeds, with a fresh batch in case none is open.
    Launch {
        /// Its metadata buffer, if it has metadata.
        info: Option<Buffer<R>>,
        /// The bindings to pin.
        handles: Seq<M>,
        /// A batch without dispatches.
        fresh: Batch<A, C, E>,
    },
    /// A launch for which no batch could be opened, or no argument table created.
    FailedLaunch {
        /// Its metadata buffer, if it has metadata.
        info: Option<Buffer<R>>,
        /// The bindings to pin.
        handles: Seq<M>,
        /// The batch that was opened for it, if one was.
        opened: Option<Batch<A, C, E>>,
        /// Why it failed.
        description: Seq<char>,
    },
    /// A commit that retires in time, or that has nothing to submit.
    Commit,
    /// A commit that times out. A flush records why, a read does not.
    TimedOut {
        /// What is recorded, if anything.
        recorded: Option<Seq<char>>,
    },
    /// An error that is recorded from outside.
    Error {
        /// The error.
        error: ServerErrorView,
    },
}

impl<A, C, E, R, M> StreamEvent<A, C, E, R, M> {
    /// A fresh batch holds no dispatch.
    pub open spec fn valid(self) -> bool {
        match self {
            StreamEvent::Launch { fresh, .. } => fresh.dispatches == 0,
            StreamEvent::FailedLaunch { opened: Some(fresh), .. } => fresh.dispatches == 0,
            _ => true,
        }
    }
}

impl<A, C, E, R, M> Metal4StreamView<A, C, E, R, M> {
    /// The state once all that a launch needs is kept alive.
    pub open spec fn holding(self, info: Option<Buffer<R>>, handles: Seq<M>) -> Self {
        match info {
            Some(buffer) => self.keeping(buffer).pinned(handles),
            None => self.pinned(handles),
        }
    }

    /// The state after an event. A launch is kept alive and dispatched into the open batch; one
    /// that fails is kept alive all the same; an unhealthy stream carries out neither. A commit
    /// takes the batch and lets go of what was kept alive; one that times out lets go of nothing,
    /// and where nothing is pending none can time out.
    pub open spec fn after(self, event: StreamEvent<A, C, E, R, M>) -> Self {
        match event {
            StreamEvent::Launch { info, handles, fresh } => {
                let held = self.holding(info, handles);
                if !self.healthy() {
                    self
                } else if self.batch is Some {
                    held.dispatched()
                } else {
                    held.opened(fresh).dispatched()
                }
            },
            StreamEvent::FailedLaunch { info, handles, opened, description } => {
                let held = self.holding(info, handles);
                if !self.healthy() {
                    self
                } else if self.batch is None && opened is Some {
                    held.opened(opened->0).device_failed(description)
                } else {
                    held.device_failed(description)
                }
            },
            StreamEvent::Commit => self.taken().released(),
            StreamEvent::TimedOut { recorded } => if self.pending() == 0 {
                self
            } else {
                match recorded {
                    Some(description) => self.taken().device_failed(description),
                    None => self.taken(),
                }
            },
            StreamEvent::Error { error } => self.failed(error),
        }
    }

    /// The state of the context after an event on this stream: a commit of pending work counts,
    /// in time or not.
    pub open spec fn context_after(
        self,
        context: Metal4View<A>,
        event: StreamEvent<A, C, E, R, M>,
    ) -> Metal4View<A> {
        if (event is Commit || event is TimedOut) && self.pending() > 0 {
            context.committed()
        } else {
            context
        }
    }

    /// Stream and context after a run of events.
    pub open spec fn run(
        self,
        context: Metal4View<A>,
        events: Seq<StreamEvent<A, C, E, R, M>>,
    ) -> (Self, Metal4View<A>)
        decreases events.len(),
    {
        if events.len() == 0 {
            (self, context)
        } else {
            let (stream, context) = self.run(context, events.drop_last());
            (stream.after(events.last()), stream.context_after(context, events.last()))
        }
    }

    /// How a launch gets to its batch: `first` is what [`Metal4Stream::enqueue_task`] asks for and
    /// `enqueued` the state behind it. Where that is an upload, `second` is what
    /// [`Metal4Stream::info_uploaded`] asks for once the upload gave `buffer`, and `bound` the
    /// state behind it; otherwise they are the same.
    pub open spec fn reaches_batch<P>(
        self,
        enqueued: Self,
        first: TaskStep<P, M>,
        buffer: Buffer<R>,
        bound: Self,
        second: TaskStep<P, M>,
        kernel: (P, CubeDim, [u32; 3]),
        bindings: BindingsResource<M>,
    ) -> bool {
        &&& self.healthy()
        &&& self.executes(enqueued, first, kernel.0, kernel.1, kernel.2, bindings)
        &&& match first {
            TaskStep::UploadInfo { launch, .. } => enqueued.keeping(buffer).binds(
                bound,
                second,
                launch,
                launch.addresses@.push(buffer@.gpu_address),
            ),
            _ => bound == enqueued && second == first,
        }
    }
}

impl<M> BindingsResource<M> {
    /// The metadata buffer of a launch, given the one that an upload gives: without metadata there
    /// is none.
    pub open spec fn info_buffer<R>(self, buffer: Buffer<R>) -> Option<Buffer<R>> {
        if self.info@.len() > 0 {
            Some(buffer)
        } else {
            None
        }
    }

    /// The GPU addresses that a launch binds, in slot order: those of the resources, then that of
    /// the metadata buffer, if there is one.
    pub open spec fn bound_addresses<R>(self, buffer: Buffer<R>) -> Seq<u64> {
        match self.info_buffer(buffer) {
            Some(buffer) => resource_addresses(self.resources@).push(buffer@.gpu_address),
            None => resource_addresses(self.resources@),
        }
    }
}

/// How many of the events are launches that succeed.
pub open spec fn launches<A, C, E, R, M>(events: Seq<StreamEvent<A, C, E, R, M>>) -> nat
    decreases events.len(),
{
    if events.len() == 0 {
        0
    } else {
        launches(events.drop_last()) + if events.last() is Launch {
            1nat
        } else {
            0
        }
    }
}

/// A launch that reaches its batch binds its addresses in order, and dispatches as it was asked to.
pub proof fn law_launch_binds_in_order<A, C, E, R, M, P>(
    before: Metal4StreamView<A, C, E, R, M>,
    enqueued: Metal4StreamView<A, C, E, R, M>,
    first: TaskStep<P, M>,
    buffer: Buffer<R>,
    bound: Metal4StreamView<A, C, E, R, M>,
    second: TaskStep<P, M>,
    kernel: (P, CubeDim, [u32; 3]),
    bindings: BindingsResource<M>,
)
    requires
        before.reaches_batch(enqueued, first, buffer, bound, second, kernel, bindings),
    ensures
        match second {
            TaskStep::OpenBatch { launch } | TaskStep::CreateTable { launch, .. } => {
                &&& launch.pipeline == kernel.0
                &&& launch.threads == (kernel.1.x, kernel.1.y, kernel.1.z)
                &&& launch.groups == (kernel.2@[0], kernel.2@[1], kernel.2@[2])
                &&& launch.addresses@ == bindings.bound_addresses(buffer)
            },
            _ => false,
        },
        second matches TaskStep::CreateTable { slots, .. } ==> slots == slots_for(
            bindings.bound_addresses(buffer).len(),
        ),
{
}

/// The steps of a launch that succeeds are a launch: whether or not metadata is uploaded and
/// whether or not a batch is opened, the state behind them is the one after the event.
pub proof fn law_steps_are_a_launch<A, C, E, R, M, P>(
    before: Metal4StreamView<A, C, E, R, M>,
    enqueued: Metal4StreamView<A, C, E, R, M>,
    first: TaskStep<P, M>,
    buffer: Buffer<R>,
    bound: Metal4StreamView<A, C, E, R, M>,
    second: TaskStep<P, M>,
    fresh: Batch<A, C, E>,
    kernel: (P, CubeDim, [u32; 3]),
    bindings: BindingsResource<M>,
)
    requires
        before.reaches_batch(enqueued, first, buffer, bound, second, kernel, bindings),
    ensures
        ({
            let end = before.after(
                StreamEvent::Launch {
                    info: bindings.info_buffer(buffer),
                    handles: bindings.handles@,
                    fresh,
                },
            );
            match second {
                TaskStep::OpenBatch { .. } => bound.opened(fresh).dispatched() == end,
                TaskStep::CreateTable { .. } => bound.dispatched() == end,
                _ => false,
            }
        }),
{
}

/// The steps of a launch that fails are a failed launch: at the batch, or behind it at the argument
/// table.
pub proof fn law_steps_are_a_failed_launch<A, C, E, R, M, P>(
    before: Metal4StreamView<A, C, E, R, M>,
    enqueued: Metal4StreamView<A, C, E, R, M>,
    first: TaskStep<P, M>,
    buffer: Buffer<R>,
    bound: Metal4StreamView<A, C, E, R, M>,
    second: TaskStep<P, M>,
    fresh: Batch<A, C, E>,
    description: Seq<char>,
    kernel: (P, CubeDim, [u32; 3]),
    bindings: BindingsResource<M>,
)
    requires
        before.reaches_batch(enqueued, first, buffer, bound, second, kernel, bindings),
    ensures
        ({
            let info = bindings.info_buffer(buffer);
            let handles = bindings.handles@;
            let at_batch = before.after(
                StreamEvent::FailedLaunch { info, handles, opened: None, description },
            );
            let at_table = before.after(
                StreamEvent::FailedLaunch { info, handles, opened: Some(fresh), description },
            );
            match second {
                TaskStep::OpenBatch { .. } => {
                    &&& bound.device_failed(description) == at_batch
                    &&& bound.opened(fresh).device_failed(description) == at_table
                },
                TaskStep::CreateTable { .. } => bound.device_failed(description) == at_table,
                _ => false,
            }
        }),
{
}

/// The steps of a commit are a commit, or one that timed out: with pending work the batch is taken
/// and the context counts the commit, and then it retires in time or does not; without, all is let
/// go at once.
pub proof fn law_steps_are_a_commit<A, C, E, R, M>(
    before: Metal4StreamView<A, C, E, R, M>,
    context: Metal4View<A>,
    message: String,
)
    ensures
        before.taken().released() == before.after(StreamEvent::Commit),
        before.context_after(context, StreamEvent::Commit) == if before.pending() > 0 {
            context.committed()
        } else {
            context
        },
        before.pending() > 0 ==> {
            &&& before.taken() == before.after(StreamEvent::TimedOut { recorded: None })
            &&& before.taken().commit_ended(Err(message)) == before.after(
                StreamEvent::TimedOut { recorded: Some(message@) },
            )
            &&& before.context_after(context, StreamEvent::TimedOut { recorded: None })
                == context.committed()
        },
{
}

/// A stream that starts without pending work commits no more often than it launches, and the
/// dispatches that still wait for a commit are not counted twice, whatever fails on the way.
pub proof fn law_commits_within_launches<A, C, E, R, M>(
    stream: Metal4StreamView<A, C, E, R, M>,
    context: Metal4View<A>,
    events: Seq<StreamEvent<A, C, E, R, M>>,
)
    requires
        stream.pending() == 0,
        forall|i: int| 0 <= i < events.len() ==> (#[trigger] events[i]).valid(),
        events.len() <= usize::MAX,
        context.commit_count + events.len() <= u64::MAX,
    ensures
        ({
            let (end, after) = stream.run(context, events);
            &&& context.commit_count <= after.commit_count
            &&& after.commit_count - context.commit_count + end.pending() <= launches(events)
        }),
    decreases events.len(),
{
    if events.len() > 0 {
        let earlier = events.drop_last();
        assert(forall|i: int| 0 <= i < earlier.len() ==> #[trigger] earlier[i] == events[i]);
        law_commits_within_launches(stream, context, earlier);
        lemma_launches_bounded(earlier);
        assert(events.last() == events[events.len() - 1]);
        assert(events.last().valid());
    }
}

/// Any number of launches in a row and then one commit is one commit, after which nothing is
/// pending and nothing is in flight.
pub proof fn law_launches_share_one_commit<A, C, E, R, M>(
    stream: Metal4StreamView<A, C, E, R, M>,
    context: Metal4View<A>,
    events: Seq<StreamEvent<A, C, E, R, M>>,
)
    requires
        stream.healthy(),
        stream.pending() == 0,
        0 < events.len() <= usize::MAX,
        forall|i: int| 0 <= i < events.len() ==> (#[trigger] events[i]).valid(),
        forall|i: int| 0 <= i < events.len() ==> (#[trigger] events[i]) is Launch,
    ensures
        ({
            let (end, after) = stream.run(context, events.push(StreamEvent::Commit));
            &&& after == context.committed()
            &&& end.pending() == 0
            &&& end.transient.len() == 0
            &&& end.in_flight.len() == 0
        }),
{
    law_launches_wait_in_batch(stream, context, events);
    let all = events.push(StreamEvent::Commit);
    assert(all.drop_last() =~= events);
}

/// While only launches happen on a healthy stream, nothing is committed, every launch waits in the
/// batch, and the stream stays healthy.
pub proof fn law_launches_wait_in_batch<A, C, E, R, M>(
    stream: Metal4StreamView<A, C, E, R, M>,
    context: Metal4View<A>,
    events: Seq<StreamEvent<A, C, E, R, M>>,
)
    requires
        stream.healthy(),
        stream.pending() + events.len() <= usize::MAX,
        forall|i: int| 0 <= i < events.len() ==> (#[trigger] events[i]).valid(),
        forall|i: int| 0 <= i < events.len() ==> (#[trigger] events[i]) is Launch,
    ensures
        ({
            let (end, after) = stream.run(context, events);
            &&& after == context
            &&& end.pending() == stream.pending() + events.len()
            &&& end.healthy()
        }),
    decreases events.len(),
{
    if events.len() > 0 {
        let earlier = events.drop_last();
        assert(forall|i: int| 0 <= i < earlier.len() ==> #[trigger] earlier[i] == events[i]);
        law_launches_wait_in_batch(stream, context, earlier);
        assert(events.last() == events[events.len() - 1]);
        assert(events.last().valid());
    }
}

/// Until a commit retires or has nothing to submit, all that was kept alive still is, in front of
/// what was added: through launches, failed launches, commits that time out, and errors.
pub proof fn law_pins_stay_until_commit<A, C, E, R, M>(
    stream: Metal4StreamView<A, C, E, R, M>,
    context: Metal4View<A>,
    events: Seq<StreamEvent<A, C, E, R, M>>,
)
    requires
        forall|i: int| 0 <= i < events.len() ==> !((#[trigger] events[i]) is Commit),
    ensures
        ({
            let (end, _) = stream.run(context, events);
            &&& stream.in_flight.is_prefix_of(end.in_flight)
            &&& stream.transient.is_prefix_of(end.transient)
        }),
    decreases events.len(),
{
    if events.len() > 0 {
        let earlier = events.drop_last();
        assert(forall|i: int| 0 <= i < earlier.len() ==> #[trigger] earlier[i] == events[i]);
        law_pins_stay_until_commit(stream, context, earlier);
        assert(events.last() == events[events.len() - 1]);
        let (before, _) = stream.run(context, earlier);
        let (end, _) = stream.run(context, events);
        assert(before.in_flight.is_prefix_of(end.in_flight));
        assert(before.transient.is_prefix_of(end.transient));
    }
}

/// A launch pins its bindings and keeps its metadata alive behind what was there, whether or not it
/// succeeds.
pub proof fn law_launch_pins<A, C, E, R, M>(
    stream: Metal4StreamView<A, C, E, R, M>,
    info: Option<Buffer<R>>,
    handles: Seq<M>,
    fresh: Batch<A, C, E>,
    opened: Option<Batch<A, C, E>>,
    description: Seq<char>,
)
    requires
        stream.healthy(),
    ensures
        ({
            let done = stream.after(StreamEvent::Launch { info, handles, fresh });
            let failed = stream.after(
                StreamEvent::FailedLaunch { info, handles, opened, description },
            );
            let transient = match info {
                Some(buffer) => stream.transient.push(buffer),
                None => stream.transient,
            };
            &&& done.in_flight == stream.in_flight + handles
            &&& failed.in_flight == stream.in_flight + handles
            &&& done.transient == transient
            &&& failed.transient == transient
        }),
{
}

/// Nothing makes a stream healthy again: recorded errors stay, in order, through every run.
pub proof fn law_errors_stay<A, C, E, R, M>(
    stream: Metal4StreamView<A, C, E, R, M>,
    context: Metal4View<A>,
    events: Seq<StreamEvent<A, C, E, R, M>>,
)
    ensures
        stream.errors.is_prefix_of(stream.run(context, events).0.errors),
        !stream.healthy() ==> !stream.run(context, events).0.healthy(),
    decreases events.len(),
{
    if events.len() > 0 {
        let earlier = events.drop_last();
        law_errors_stay(stream, context, earlier);
        let (before, _) = stream.run(context, earlier);
        let (end, _) = stream.run(context, events);
        assert(before.errors.is_prefix_of(end.errors));
    }
}

/// There are no more launches than events.
proof fn lemma_launches_bounded<A, C, E, R, M>(events: Seq<StreamEvent<A, C, E, R, M>>)
    ensures
        launches(events) <= events.len(),
    decreases events.len(),
{
    if events.len() > 0 {
        lemma_launches_bounded(events.drop_last());
    }
}

/// A write copies as much of the data as fits: data that is no longer than the resource whole, and
/// of longer data as much as fills the resource. Behind the data the resource stays as it was.
pub proof fn law_write_copies_what_fits(contents: Seq<u8>, data: Seq<u8>)
    ensures
        ({
            let end = written(contents, data.take(copied(data.len(), contents.len()) as int));
            &&& end.len() == contents.len()
            &&& data.len() <= contents.len() ==> {
                &&& end.take(data.len() as int) == data
                &&& end.skip(data.len() as int) == contents.skip(data.len() as int)
            }
            &&& data.len() >= contents.len() ==> end == data.take(contents.len() as int)
        }),
{
    let n = copied(data.len(), contents.len()) as int;
    let end = written(contents, data.take(n));
    law_written_read_back(contents, data.take(n));
    if data.len() <= contents.len() {
        assert(data.take(n) =~= data);
    }
    if data.len() >= contents.len() {
        assert(end.take(n) =~= end);
        assert(end =~= data.take(contents.len() as int));
    }
}

/// Of two writes of the same data the second changes nothing.
pub proof fn law_write_twice_is_once(contents: Seq<u8>, data: Seq<u8>)
    ensures
        ({
            let part = data.take(copied(data.len(), contents.len()) as int);
            written(written(contents, part), part) == written(contents, part)
        }),
{
    let part = data.take(copied(data.len(), contents.len()) as int);
    crate::buffer::law_last_write_wins(contents, part, part);
}

/// A launch that reaches its batch binds the address of each resource to the slot of its position,
/// and the metadata buffer to the last slot, if there is metadata. There are no other slots.
pub proof fn law_launch_binds_each_resource<A, C, E, R, M, P>(
    before: Metal4StreamView<A, C, E, R, M>,
    enqueued: Metal4StreamView<A, C, E, R, M>,
    first: TaskStep<P, M>,
    buffer: Buffer<R>,
    bound: Metal4StreamView<A, C, E, R, M>,
    second: TaskStep<P, M>,
    kernel: (P, CubeDim, [u32; 3]),
    bindings: BindingsResource<M>,
)
    requires
        before.reaches_batch(enqueued, first, buffer, bound, second, kernel, bindings),
    ensures
        match second {
            TaskStep::OpenBatch { launch } | TaskStep::CreateTable { launch, .. } => {
                let n = bindings.resources@.len();
                &&& forall|i: int|
                    0 <= i < n ==> #[trigger] launch.addresses@[i]
                        == bindings.resources@[i].gpu_address
                &&& bindings.info@.len() == 0 ==> launch.addresses@.len() == n
                &&& bindings.info@.len() > 0 ==> {
                    &&& launch.addresses@.len() == n + 1
                    &&& launch.addresses@.last() == buffer@.gpu_address
                }
            },
            _ => false,
        },
        second is OpenBatch <==> before.batch is None,
{
}

/// The metadata of a launch is uploaded whole, exactly if there is any: each of its words is read
/// back from its place among the bytes.
pub proof fn law_metadata_is_uploaded_whole<A, C, E, R, M, P>(
    before: Metal4StreamView<A, C, E, R, M>,
    enqueued: Metal4StreamView<A, C, E, R, M>,
    first: TaskStep<P, M>,
    kernel: (P, CubeDim, [u32; 3]),
    bindings: BindingsResource<M>,
    i: int,
)
    requires
        before.executes(enqueued, first, kernel.0, kernel.1, kernel.2, bindings),
    ensures
        first is UploadInfo <==> bindings.info@.len() > 0,
        first matches TaskStep::UploadInfo { bytes, .. } ==> {
            &&& bytes@.len() == 8 * bindings.info@.len()
            &&& 0 <= i < bindings.info@.len() ==> crate::bytes::native_word(
                bytes@.subrange(8 * i, 8 * i + 8),
            ) == bindings.info@[i]
        },
{
    if bindings.info@.len() > 0 {
        crate::bytes::law_words_read_back(bindings.info@, 0);
        if 0 <= i < bindings.info@.len() {
            crate::bytes::law_words_read_back(bindings.info@, i);
        }
    }
}

/// A stream is healthy exactly as long as it has recorded no error, and what waits for a commit is
/// what its open batch holds.
pub proof fn law_health_and_pending<A, C, E, R, M>(
    stream: Metal4StreamView<A, C, E, R, M>,
    batch: Batch<A, C, E>,
)
    ensures
        stream.healthy() <==> stream.errors == Seq::<ServerErrorView>::empty(),
        stream.batch is None ==> stream.pending() == 0,
        stream.opened(batch).pending() == batch.dispatches,
{
    assert(stream.errors.len() == 0 ==> stream.errors =~= Seq::<ServerErrorView>::empty());
}

/// Recording an error puts it behind the earlier ones and changes nothing else. A failed device
/// call is recorded in its own words, and a commit is recorded exactly if it failed.
pub proof fn law_error_is_recorded_last<A, C, E, R, M>(
    stream: Metal4StreamView<A, C, E, R, M>,
    error: ServerErrorView,
    message: String,
)
    ensures
        stream.failed(error).errors == stream.errors.push(error),
        stream.failed(error).batch == stream.batch,
        stream.failed(error).transient == stream.transient,
        stream.failed(error).in_flight == stream.in_flight,
        stream.device_failed(message@) == stream.failed(
            ServerErrorView::Io(IoErrorView::Unknown { description: message@ }),
        ),
        stream.commit_ended(Ok(())) == stream,
        stream.commit_ended(Err(message)) == stream.device_failed(message@),
        !stream.failed(error).healthy(),
{
}

/// Pinning, keeping, opening, dispatching, taking and releasing each change one thing alone.
pub proof fn law_stream_operations_keep_the_rest<A, C, E, R, M>(
    stream: Metal4StreamView<A, C, E, R, M>,
    handles: Seq<M>,
    buffer: Buffer<R>,
    batch: Batch<A, C, E>,
)
    ensures
        stream.pinned(handles).in_flight == stream.in_flight + handles,
        stream.pinned(handles) == (Metal4StreamView {
            in_flight: stream.pinned(handles).in_flight,
            ..stream
        }),
        stream.keeping(buffer).transient == stream.transient.push(buffer),
        stream.keeping(buffer) == (Metal4StreamView {
            transient: stream.keeping(buffer).transient,
            ..stream
        }),
        stream.opened(batch) == (Metal4StreamView { batch: Some(batch), ..stream }),
        stream.taken() == (Metal4StreamView { batch: None, ..stream }),
        stream.released().transient.len() == 0,
        stream.released().in_flight.len() == 0,
        stream.released().batch == stream.batch,
        stream.released().errors == stream.errors,
        batch.dispatches < usize::MAX ==> {
            let end = stream.opened(batch).dispatched();
            &&& end.batch == Some(
                Batch { dispatches: (batch.dispatches + 1) as usize, ..batch },
            )
            &&& end.pending() == batch.dispatches + 1
            &&& end.transient == stream.transient
            &&& end.in_flight == stream.in_flight
            &&& end.errors == stream.errors
        },
{
}

/// The text of the dimensions holds each of them in full, in order, behind its name. The text of a
/// count holds its three numbers in full, in order, between brackets.
pub proof fn law_texts_hold_numbers(dim: CubeDim, numbers: Seq<u32>)
    ensures
        dim.text() == "CubeDim { x: "@ + decimal(dim.x as nat) + ", y: "@ + decimal(dim.y as nat)
            + ", z: "@ + decimal(dim.z as nat) + " }"@,
        listed(numbers) == "["@ + decimal(numbers[0] as nat) + ", "@ + decimal(numbers[1] as nat)
            + ", "@ + decimal(numbers[2] as nat) + "]"@,
{
}

/// A call of [`do_write`] gives each byte of the resource the byte of the data at its place, as
/// far as both reach, and leaves the rest as it was.
pub proof fn law_copy_reaches_the_shorter_end(contents: &mut [u8], data: &[u8], i: int)
    requires
        call_ensures(do_write, (contents, data), ()),
        0 <= i < old(contents)@.len(),
    ensures
        final(contents)@.len() == old(contents)@.len(),
        i < data@.len() ==> final(contents)@[i] == data@[i],
        i >= data@.len() ==> final(contents)@[i] == old(contents)@[i],
{
}

/// A stream with a recorded error carries out no task, and no task changes it.
pub proof fn law_unhealthy_stream_does_nothing<A, C, E, R, M, P>(
    stream: &mut Metal4Stream<A, C, E, R, M>,
    task: ScheduleTask<P, M>,
    r: TaskStep<P, M>,
)
    requires
        old(stream)@.errors.len() > 0,
        call_ensures(Metal4Stream::<A, C, E, R, M>::enqueue_task::<P>, (stream, task), r),
    ensures
        r is Done,
        final(stream)@ == old(stream)@,
{
}

/// A healthy stream copies the data of a write into its resource, and stays as it is.
pub proof fn law_healthy_stream_copies<A, C, E, R, M, P>(
    stream: &mut Metal4Stream<A, C, E, R, M>,
    resource: Metal4Resource,
    data: Vec<u8>,
    r: TaskStep<P, M>,
)
    requires
        old(stream)@.errors.len() == 0,
        call_ensures(
            Metal4Stream::<A, C, E, R, M>::enqueue_task::<P>,
            (stream, ScheduleTask::<P, M>::Write { resource, data }),
            r,
        ),
    ensures
        r matches TaskStep::Copy { resource: to, data: what } && to == resource && what == data,
        final(stream)@ == old(stream)@,
{
}

/// A healthy stream launches a task with one thread for each unit of a cube and one group for
/// each cube, on the addresses of the resources in slot order. Where there is metadata it is
/// uploaded first, and nothing is pinned yet; where there is none, the bindings are pinned, and a
/// table follows where a batch is open.
pub proof fn law_healthy_stream_launches<A, C, E, R, M, P>(
    stream: &mut Metal4Stream<A, C, E, R, M>,
    pipeline: P,
    cube_dim: CubeDim,
    cube_count: [u32; 3],
    bindings: BindingsResource<M>,
    r: TaskStep<P, M>,
) -> (launch: Launch<P, M>)
    requires
        old(stream)@.errors.len() == 0,
        call_ensures(
            Metal4Stream::<A, C, E, R, M>::enqueue_task::<P>,
            (stream, ScheduleTask::<P, M>::Execute { pipeline, cube_dim, cube_count, bindings }),
            r,
        ),
    ensures
        launch.pipeline == pipeline,
        launch.threads == (cube_dim.x, cube_dim.y, cube_dim.z),
        launch.groups == (cube_count@[0], cube_count@[1], cube_count@[2]),
        launch.addresses@.len() == bindings.resources@.len(),
        forall|i: int|
            0 <= i < bindings.resources@.len() ==> #[trigger] launch.addresses@[i]
                == bindings.resources@[i].gpu_address,
        match r {
            TaskStep::UploadInfo { launch: l, .. } => bindings.info@.len() > 0 && l == launch
                && launch.handles@ == bindings.handles@,
            TaskStep::OpenBatch { launch: l } => bindings.info@.len() == 0 && old(
                stream,
            )@.batch is None && l == launch,
            TaskStep::CreateTable { launch: l, .. } => bindings.info@.len() == 0 && old(
                stream,
            )@.batch is Some && l == launch,
            _ => false,
        },
        final(stream)@.in_flight == old(stream)@.in_flight + (if bindings.info@.len() > 0 {
            seq![]
        } else {
            bindings.handles@
        }),
        final(stream)@.batch == old(stream)@.batch,
        final(stream)@.transient == old(stream)@.transient,
        final(stream)@.errors == old(stream)@.errors,
{
    assert(old(stream)@.in_flight + Seq::<M>::empty() =~= old(stream)@.in_flight);
    match r {
        TaskStep::UploadInfo { launch, .. } => launch,
        TaskStep::OpenBatch { launch } => launch,
        TaskStep::CreateTable { launch, .. } => launch,
        _ => arbitrary(),
    }
}

/// Uploaded metadata is bound in the slot behind the resources and its buffer kept alive; the
/// bindings of the launch are pinned, and its pipeline and sizes stay.
pub proof fn law_metadata_takes_the_last_slot<A, C, E, R, M, P>(
    stream: &mut Metal4Stream<A, C, E, R, M>,
    launch: Launch<P, M>,
    buffer: Buffer<R>,
    r: TaskStep<P, M>,
)
    requires
        call_ensures(
            Metal4Stream::<A, C, E, R, M>::info_uploaded::<P>,
            (stream, launch, buffer),
            r,
        ),
    ensures
        match r {
            TaskStep::OpenBatch { launch: l } | TaskStep::CreateTable { launch: l, .. } => {
                &&& l.pipeline == launch.pipeline
                &&& l.threads == launch.threads
                &&& l.groups == launch.groups
                &&& l.addresses@.len() == launch.addresses@.len() + 1
                &&& l.addresses@.last() == buffer@.gpu_address
                &&& l.addresses@.drop_last() == launch.addresses@
            },
            _ => false,
        },
        r is OpenBatch <==> old(stream)@.batch is None,
        r matches TaskStep::CreateTable { slots, .. } ==> slots == launch.addresses@.len() + 1,
        final(stream)@.transient.len() == old(stream)@.transient.len() + 1,
        final(stream)@.transient.last() == buffer,
        final(stream)@.transient.drop_last() == old(stream)@.transient,
        final(stream)@.in_flight == old(stream)@.in_flight + launch.handles@,
        final(stream)@.batch == old(stream)@.batch,
        final(stream)@.errors == old(stream)@.errors,
{
    match r {
        TaskStep::OpenBatch { launch: l } => {
            assert(l.addresses@.drop_last() =~= launch.addresses@);
        },
        TaskStep::CreateTable { launch: l, .. } => {
            assert(l.addresses@.drop_last() =~= launch.addresses@);
        },
        _ => {},
    }
    assert(final(stream)@.transient.drop_last() =~= old(stream)@.transient);
}

/// The batch that was opened for a launch becomes the open batch, and the launch goes on as it
/// is, with a table of one slot for each address and at least one. Where none was opened the
/// reason is recorded and nothing else changes.
pub proof fn law_opened_batch_is_kept<A, C, E, R, M, P>(
    stream: &mut Metal4Stream<A, C, E, R, M>,
    launch: Launch<P, M>,
    outcome: Result<Batch<A, C, E>, String>,
    r: TaskStep<P, M>,
)
    requires
        call_ensures(
            Metal4Stream::<A, C, E, R, M>::batch_opened::<P>,
            (stream, launch, outcome),
            r,
        ),
    ensures
        outcome matches Ok(batch) ==> final(stream)@.batch == Some(batch) && final(stream)@.errors
            == old(stream)@.errors && (r matches TaskStep::CreateTable { launch: l, slots } && l
            == launch && slots >= 1 && slots >= launch.addresses@.len() && (slots > 1 ==> slots
            == launch.addresses@.len())),
        outcome matches Err(message) ==> r is Done && final(stream)@.batch == old(stream)@.batch
            && final(stream)@.errors.len() == old(stream)@.errors.len() + 1
            && final(stream)@.errors.drop_last() == old(stream)@.errors
            && final(stream)@.errors.last() == ServerErrorView::Io(
            IoErrorView::Unknown { description: message@ },
        ),
        final(stream)@.transient == old(stream)@.transient,
        final(stream)@.in_flight == old(stream)@.in_flight,
{
    if outcome is Err {
        assert(final(stream)@.errors.drop_last() =~= old(stream)@.errors);
    }
}

/// A launch that got its table is encoded whole: its addresses in their slots, then its pipeline
/// and its table, then one dispatch of its groups and threads and nothing behind it. The open
/// batch counts one dispatch more.
pub proof fn law_launch_is_encoded_whole<A, C, E, R, M, P>(
    stream: &mut Metal4Stream<A, C, E, R, M>,
    ctx: &Metal4<A>,
    launch: Launch<P, M>,
    r: TaskStep<P, M>,
)
    requires
        old(stream)@.batch is Some,
        old(stream)@.batch->0.dispatches < usize::MAX,
        call_ensures(
            Metal4Stream::<A, C, E, R, M>::table_created::<P>,
            (stream, ctx, launch, Ok::<(), String>(())),
            r,
        ),
    ensures
        r matches TaskStep::Encode { pipeline, commands } && {
            let n = commands@.len();
            let bound = launch.addresses@.len();
            &&& pipeline == launch.pipeline
            &&& n == bound + 3 + (if old(stream)@.batch->0.dispatches > 0 {
                1int
            } else {
                0int
            })
            &&& commands@[n - 1] == (EncoderCommand::Dispatch {
                groups: launch.groups,
                threads: launch.threads,
            })
            &&& commands@[n - 2] == EncoderCommand::SetArgumentTable
            &&& commands@[n - 3] == EncoderCommand::SetPipeline
            &&& old(stream)@.batch->0.dispatches > 0 ==> commands@[n - 4]
                == EncoderCommand::Barrier
            &&& forall|i: int|
                0 <= i < bound ==> #[trigger] commands@[i] == (EncoderCommand::SetAddress {
                    address: launch.addresses@[i],
                    slot: i as usize,
                })
        },
        final(stream)@.batch matches Some(batch) && batch.dispatches == old(
            stream,
        )@.batch->0.dispatches + 1 && batch.allocator == old(stream)@.batch->0.allocator && batch.cb
            == old(stream)@.batch->0.cb && batch.encoder == old(stream)@.batch->0.encoder,
        final(stream)@.transient == old(stream)@.transient,
        final(stream)@.in_flight == old(stream)@.in_flight,
        final(stream)@.errors == old(stream)@.errors,
{
}

/// Where a launch gets no table, one error is recorded, and the open batch and what is kept alive
/// stay.
pub proof fn law_no_launch_without_table<A, C, E, R, M, P>(
    stream: &mut Metal4Stream<A, C, E, R, M>,
    ctx: &Metal4<A>,
    launch: Launch<P, M>,
    reason: String,
    r: TaskStep<P, M>,
)
    requires
        call_ensures(
            Metal4Stream::<A, C, E, R, M>::table_created::<P>,
            (stream, ctx, launch, Err::<(), String>(reason)),
            r,
        ),
    ensures
        r is Done,
        final(stream)@.errors.len() == old(stream)@.errors.len() + 1,
        final(stream)@.errors.drop_last() == old(stream)@.errors,
        final(stream)@.batch == old(stream)@.batch,
        final(stream)@.transient == old(stream)@.transient,
        final(stream)@.in_flight == old(stream)@.in_flight,
{
    assert(final(stream)@.errors.drop_last() =~= old(stream)@.errors);
}

/// A commit submits the open batch where it holds a dispatch, and then keeps everything alive
/// until the batch retires. Otherwise nothing is submitted and everything is let go. Either way
/// no batch is open behind it.
pub proof fn law_commit_submits_what_is_pending<A, C, E, R, M>(
    stream: &mut Metal4Stream<A, C, E, R, M>,
    ctx: &mut Metal4<A>,
    r: CommitStep<A, C, E>,
)
    requires
        call_ensures(Metal4Stream::<A, C, E, R, M>::commit, (stream, ctx), r),
    ensures
        r is Submit <==> old(stream)@.batch is Some && old(stream)@.batch->0.dispatches > 0,
        r matches CommitStep::Submit(submission) ==> {
            &&& submission.batch == old(stream)@.batch->0
            &&& submission.signal == old(ctx)@.next_signal
            &&& submission.timeout_ms == 30_000
            &&& final(stream)@.transient == old(stream)@.transient
            &&& final(stream)@.in_flight == old(stream)@.in_flight
            &&& final(ctx)@.next_signal != old(ctx)@.next_signal
        },
        r is Idle ==> {
            &&& final(stream)@.transient.len() == 0
            &&& final(stream)@.in_flight.len() == 0
            &&& final(ctx)@ == old(ctx)@
        },
        final(stream)@.batch is None,
        final(stream)@.errors == old(stream)@.errors,
        final(ctx)@.pool == old(ctx)@.pool,
{
}

/// Once the batch retired, nothing is kept alive. Where it did not, everything is, and the reason
/// comes back as it was given.
pub proof fn law_retired_commit_lets_go<A, C, E, R, M>(
    stream: &mut Metal4Stream<A, C, E, R, M>,
    outcome: Result<(), String>,
    r: Result<(), String>,
)
    requires
        call_ensures(Metal4Stream::<A, C, E, R, M>::commit_retired, (stream, outcome), r),
    ensures
        r is Ok <==> outcome is Ok,
        outcome matches Err(message) ==> r == Err::<(), String>(message) && final(stream)@ == old(
            stream,
        )@,
        outcome is Ok ==> final(stream)@.transient.len() == 0 && final(stream)@.in_flight.len() == 0,
        final(stream)@.batch == old(stream)@.batch,
        final(stream)@.errors == old(stream)@.errors,
{
}

/// A sync fails exactly where an error is recorded, be it an older one or that of the commit, and
/// then gives every recorded error, the oldest first. A flush that ignores errors never fails.
pub proof fn law_sync_gives_every_error<A, C, E, R, M>(
    stream: &mut Metal4Stream<A, C, E, R, M>,
    flushed: &mut Metal4Stream<A, C, E, R, M>,
    commit: Result<(), String>,
    mode: StreamErrorMode,
    r: Result<(), ServerError>,
    f: Result<(), ServerError>,
)
    requires
        call_ensures(Metal4Stream::<A, C, E, R, M>::sync, (stream, commit), r),
        call_ensures(Metal4Stream::<A, C, E, R, M>::flush, (flushed, commit, mode), f),
        old(flushed)@ == old(stream)@,
    ensures
        r is Ok <==> old(stream)@.errors.len() == 0 && commit is Ok,
        r matches Err(error) ==> error.says() == (ServerErrorView::ServerUnhealthy {
            errors: final(stream)@.errors,
        }),
        commit is Ok ==> final(stream)@ == old(stream)@,
        commit matches Err(message) ==> {
            &&& final(stream)@.errors.len() == old(stream)@.errors.len() + 1
            &&& final(stream)@.errors.drop_last() == old(stream)@.errors
            &&& final(stream)@.errors.last() == ServerErrorView::Io(
                IoErrorView::Unknown { description: message@ },
            )
        },
        final(stream)@.batch == old(stream)@.batch,
        final(flushed)@ == final(stream)@,
        mode.ignore ==> f is Ok,
        !mode.ignore ==> (f is Ok <==> r is Ok),
{
    if commit is Err {
        assert(final(stream)@.errors.drop_last() =~= old(stream)@.errors);
    }
}

/// A read goes on where the commit before it ended well, and otherwise fails with its message.
pub proof fn law_read_fails_as_its_commit(commit: Result<(), String>, r: Result<(), IoError>)
    requires
        call_ensures(read_sync, (commit,), r),
    ensures
        r is Ok <==> commit is Ok,
        r matches Err(error) ==> (error@ matches IoErrorView::Unknown { description } && description
            == commit->Err_0@),
{
}

/// A stream is healthy as long as no error was given to it. One that was given is recorded behind
/// the others.
pub proof fn law_given_error_is_recorded<A, C, E, R, M>(
    stream: &mut Metal4Stream<A, C, E, R, M>,
    after: &Metal4Stream<A, C, E, R, M>,
    error: ServerError,
    healthy: bool,
)
    requires
        call_ensures(Metal4Stream::<A, C, E, R, M>::error, (stream, error), ()),
        call_ensures(Metal4Stream::<A, C, E, R, M>::is_healthy, (after,), healthy),
        after@ == final(stream)@,
    ensures
        !healthy,
        after@.errors.len() == old(stream)@.errors.len() + 1,
        after@.errors.last() == error.says(),
        after@.errors.drop_last() == old(stream)@.errors,
        after@.batch == old(stream)@.batch,
        after@.transient == old(stream)@.transient,
        after@.in_flight == old(stream)@.in_flight,
{
    assert(after@.errors.drop_last() =~= old(stream)@.errors);
}

/// A new stream is healthy, has no batch open and keeps nothing alive.
pub proof fn law_new_stream_is_idle<A, C, E, R, M>(
    stream: Metal4Stream<A, C, E, R, M>,
    healthy: bool,
    batch: Option<&Batch<A, C, E>>,
)
    requires
        call_ensures(Metal4Stream::<A, C, E, R, M>::new, (), stream),
        call_ensures(Metal4Stream::<A, C, E, R, M>::is_healthy, (&stream,), healthy),
        call_ensures(Metal4Stream::<A, C, E, R, M>::open_batch, (&stream,), batch),
    ensures
        healthy,
        batch is None,
        stream@.transient.len() == 0,
        stream@.in_flight.len() == 0,
{
}

/// A flush of scheduled work leaves the stream as a sync does: only a failed commit is recorded.
pub proof fn law_scheduled_flush_as_sync<A, C, E, R, M>(
    first: &mut Metal4Stream<A, C, E, R, M>,
    second: &mut Metal4Stream<A, C, E, R, M>,
    commit: Result<(), String>,
    r: Result<(), ServerError>,
)
    requires
        call_ensures(Metal4Stream::<A, C, E, R, M>::flush_scheduled, (first, commit), ()),
        call_ensures(Metal4Stream::<A, C, E, R, M>::sync, (second, commit), r),
        old(second)@ == old(first)@,
    ensures
        final(first)@ == final(second)@,
        commit is Ok ==> final(first)@ == old(first)@,
        final(first)@.in_flight == old(first)@.in_flight,
        final(first)@.transient == old(first)@.transient,
        final(first)@.batch == old(first)@.batch,
{
}

} // verus!
