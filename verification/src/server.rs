//! The compute server: what it decides for launches, reads and writes.
//!
//! Tasks are scheduled per stream. `P` is a compiled pipeline and `M` a binding that keeps a slice
//! of the memory pool reserved.

use std::collections::HashMap;

use vstd::prelude::*;

use crate::buffer::Buffer;
use crate::error::{IoError, IoErrorView, ServerError, ServerErrorView};
use crate::fmt::{text_taken, write_text};
use crate::storage::Metal4Resource;
use crate::stream::{
    law_launch_binds_each_resource, law_launch_binds_in_order, BindingsResource, CubeDim,
    Metal4StreamView, ScheduleTask, TaskStep,
};

verus! {

broadcast use vstd::std_specs::hash::group_hash_axioms;

// ---------------------------------------------------------------------------
// Arguments
// ---------------------------------------------------------------------------

/// Which stream.
#[derive(Clone, Copy, Debug, PartialEq, Eq, Structural, Hash)]
pub struct StreamId {
    /// The number of the stream.
    pub value: u64,
}

/// A sub-range of reserved memory, and the stream that it belongs to.
#[derive(Debug)]
pub struct Binding<M> {
    /// The reserved memory.
    pub memory: M,
    /// Bytes to leave out at the start.
    pub offset_start: Option<u64>,
    /// Bytes to leave out at the end.
    pub offset_end: Option<u64>,
    /// The stream that the memory belongs to.
    pub stream: StreamId,
}

/// A tensor in reserved memory.
#[derive(Debug)]
pub struct CopyDescriptor<M> {
    /// The memory of the tensor.
    pub handle: Binding<M>,
    /// Its extent in each dimension.
    pub shape: Vec<usize>,
    /// How far its elements are apart in each dimension.
    pub strides: Vec<usize>,
}

/// What a kernel is launched on.
#[derive(Debug)]
pub struct KernelArguments<M> {
    /// The buffers, in slot order.
    pub buffers: Vec<Binding<M>>,
    /// The packed metadata and scalars.
    pub info: Vec<u64>,
}

/// How many cubes a kernel is launched with.
#[derive(Debug)]
pub enum CubeCount<M> {
    /// A count that is known at the launch.
    Static(u32, u32, u32),
    /// A count that the device reads from memory.
    Dynamic(Binding<M>),
}

// ---------------------------------------------------------------------------
// Strides
// ---------------------------------------------------------------------------

/// The product of extents.
pub open spec fn product(extents: Seq<usize>) -> nat
    decreases extents.len(),
{
    if extents.len() == 0 {
        1
    } else {
        extents[0] as nat * product(extents.drop_first())
    }
}

/// How far the elements of a contiguous tensor are apart in dimension `i`: as many as there are in
/// the later dimensions.
pub open spec fn contiguous_stride(shape: Seq<usize>, i: int) -> nat {
    product(shape.skip(i + 1))
}

/// Every stride of the contiguous tensor of this shape is a machine number, and there is at least
/// one.
pub open spec fn strides_fit(shape: Seq<usize>) -> bool {
    &&& shape.len() >= 1
    &&& forall|i: int|
        0 <= i < shape.len() ==> #[trigger] contiguous_stride(shape, i) <= usize::MAX
}

/// The strides are those of the contiguous tensor of this shape.
pub open spec fn is_contiguous(shape: Seq<usize>, strides: Seq<usize>) -> bool {
    &&& strides.len() == shape.len()
    &&& forall|i: int|
        0 <= i < shape.len() ==> (#[trigger] strides[i]) as nat == contiguous_stride(shape, i)
}

/// The strides of the contiguous tensor of a shape.
pub fn contiguous_strides(shape: &[usize]) -> (r: Vec<usize>)
    requires
        strides_fit(shape@),
    ensures
        is_contiguous(shape@, r@),
{
    let rank = shape.len();
    let mut strides: Vec<usize> = vec![1usize; rank];
    let mut i: usize = rank - 1;
    proof {
        assert(shape@.skip(rank as int) =~= seq![]);
    }
    while i > 0
        invariant
            rank == shape@.len() == strides@.len(),
            i < rank,
            strides_fit(shape@),
            forall|j: int|
                i <= j < rank ==> (#[trigger] strides@[j]) as nat == contiguous_stride(shape@, j),
        decreases i,
    {
        proof {
            let tail = shape@.skip(i as int);
            assert(tail[0] == shape@[i as int]);
            assert(tail.drop_first() =~= shape@.skip(i + 1));
            assert(strides@[i as int] as nat == contiguous_stride(shape@, i as int));
            assert(contiguous_stride(shape@, i - 1) == shape@[i as int] as nat
                * contiguous_stride(shape@, i as int));
            assert(strides@[i as int] * shape@[i as int] == shape@[i as int]
                * strides@[i as int]) by (nonlinear_arith);
            assert(contiguous_stride(shape@, i - 1) <= usize::MAX);
        }
        strides[i - 1] = strides[i] * shape[i];
        i -= 1;
    }
    strides
}

/// Whether a shape has contiguous strides that are machine numbers.
pub fn shape_fits(shape: &[usize]) -> (r: bool)
    ensures
        r == strides_fit(shape@),
{
    let rank = shape.len();
    if rank == 0 {
        return false;
    }
    let mut stride: usize = 1;
    let mut i: usize = rank - 1;
    proof {
        assert(shape@.skip(rank as int) =~= seq![]);
    }
    while i > 0
        invariant
            rank == shape@.len(),
            i < rank,
            stride == contiguous_stride(shape@, i as int),
            forall|j: int|
                i <= j < rank ==> #[trigger] contiguous_stride(shape@, j) <= usize::MAX,
        decreases i,
    {
        proof {
            let tail = shape@.skip(i as int);
            assert(tail[0] == shape@[i as int]);
            assert(tail.drop_first() =~= shape@.skip(i + 1));
            assert(contiguous_stride(shape@, i - 1) == shape@[i as int] as nat
                * contiguous_stride(shape@, i as int));
            assert(stride * shape@[i as int] == shape@[i as int] * stride) by (nonlinear_arith);
        }
        match stride.checked_mul(shape[i]) {
            Some(next) => {
                stride = next;
            },
            None => {
                assert(contiguous_stride(shape@, i - 1) > usize::MAX);
                return false;
            },
        }
        i -= 1;
    }
    true
}

/// Whether two lists of strides are the same.
fn same_strides(a: &[usize], b: &[usize]) -> (r: bool)
    ensures
        r == (a@ == b@),
{
    if a.len() != b.len() {
        return false;
    }
    let mut i: usize = 0;
    while i < a.len()
        invariant
            i <= a@.len() == b@.len(),
            forall|j: int| 0 <= j < i ==> a@[j] == b@[j],
        decreases a@.len() - i,
    {
        if a[i] != b[i] {
            assert(a@ != b@);
            return false;
        }
        i += 1;
    }
    assert(a@ =~= b@);
    true
}

// ---------------------------------------------------------------------------
// Reads and writes
// ---------------------------------------------------------------------------

/// Staging buffers are not offered.
pub fn staging() -> (r: ServerError)
    ensures
        r.says() == ServerErrorView::Io(IoErrorView::UnsupportedIoOperation),
{
    ServerError::Io(IoError::UnsupportedIoOperation)
}

/// The writes of one call on a stream that are still to be carried out, in order.
pub struct Writes<M> {
    stream: StreamId,
    rest: Vec<(CopyDescriptor<M>, Vec<u8>)>,
}

/// What is to be done next for the writes of one call.
pub enum WriteStep<P, M> {
    /// All writes are done.
    Finished,
    /// Resolve the memory of the next write, and go on with [`Writes::resolved`].
    Resolve {
        /// The memory.
        handle: Binding<M>,
        /// What to write.
        data: Vec<u8>,
    },
    /// Register the task on the stream, and go on with [`Writes::next`].
    Register {
        /// The stream of the call.
        stream: StreamId,
        /// The write.
        task: ScheduleTask<P, M>,
    },
    /// Record the error on the stream. No later write is carried out.
    Refuse {
        /// The stream of the refused write.
        stream: StreamId,
        /// Why it is refused.
        error: ServerError,
    },
}

/// The state of [`Writes`].
#[verifier::ext_equal]
pub struct WritesView<M> {
    /// The stream of the call.
    pub stream: StreamId,
    /// The writes that are still to be carried out, in order.
    pub rest: Seq<(CopyDescriptor<M>, Vec<u8>)>,
}

impl<M> View for Writes<M> {
    type V = WritesView<M>;

    closed spec fn view(&self) -> WritesView<M> {
        WritesView { stream: self.stream, rest: self.rest@ }
    }
}

impl<M> WritesView<M> {
    /// The state once the next write has been taken.
    pub open spec fn advanced(self) -> Self {
        WritesView { rest: self.rest.drop_first(), ..self }
    }

    /// The state once no more writes are carried out.
    pub open spec fn stopped(self) -> Self {
        WritesView { rest: seq![], ..self }
    }

    /// How the next write is taken: only a contiguous tensor can be written. Another is refused,
    /// and with it all later writes.
    pub open spec fn takes<P>(self, after: Self, step: WriteStep<P, M>) -> bool {
        if self.rest.len() == 0 {
            &&& step is Finished
            &&& after == self
        } else if is_contiguous(self.rest[0].0.shape@, self.rest[0].0.strides@) {
            &&& step == (WriteStep::<P, M>::Resolve {
                handle: self.rest[0].0.handle,
                data: self.rest[0].1,
            })
            &&& after == self.advanced()
        } else {
            &&& step matches WriteStep::Refuse { stream, error } && stream
                == self.rest[0].0.handle.stream && error.says() == ServerErrorView::Io(
                IoErrorView::UnsupportedStrides,
            )
            &&& after == self.stopped()
        }
    }

    /// How a write to memory of stream `owner` goes on with what its memory resolved to: it is
    /// registered on the stream of the call, or refused, and with it all later writes.
    pub open spec fn resolves<P>(
        self,
        after: Self,
        step: WriteStep<P, M>,
        owner: StreamId,
        resource: Result<Metal4Resource, IoErrorView>,
        data: Vec<u8>,
    ) -> bool {
        match resource {
            Ok(resource) => {
                &&& step == (WriteStep::<P, M>::Register {
                    stream: self.stream,
                    task: ScheduleTask::Write { resource, data },
                })
                &&& after == self
            },
            Err(error) => {
                &&& step matches WriteStep::Refuse { stream, error: e } && stream == owner
                    && e.says() == ServerErrorView::Io(error)
                &&& after == self.stopped()
            },
        }
    }
}

/// What an attempt to move data gave, with what its error says.
pub open spec fn outcome_says<T>(outcome: Result<T, IoError>) -> Result<T, IoErrorView> {
    match outcome {
        Ok(value) => Ok(value),
        Err(error) => Err(error@),
    }
}

impl<M> Writes<M> {
    /// The writes of one call on a stream.
    pub fn new(stream: StreamId, descriptors: Vec<(CopyDescriptor<M>, Vec<u8>)>) -> (r: Self)
        ensures
            r@ == (WritesView { stream, rest: descriptors@ }),
    {
        Writes { stream, rest: descriptors }
    }

    /// Whether the next write, if there is one, is to a shape that has contiguous strides.
    pub fn next_fits(&self) -> (r: bool)
        ensures
            r == (self@.rest.len() > 0 ==> strides_fit(self@.rest[0].0.shape@)),
    {
        self.rest.len() == 0 || shape_fits(self.rest[0].0.shape.as_slice())
    }

    /// Take the next write. Only a contiguous tensor can be written: another is refused, and with
    /// it all later writes.
    pub fn next<P>(&mut self) -> (r: WriteStep<P, M>)
        requires
            old(self)@.rest.len() > 0 ==> strides_fit(old(self)@.rest[0].0.shape@),
        ensures
            old(self)@.takes(final(self)@, r),
            old(self)@.rest.len() == 0 <==> r is Finished,
            r is Resolve <==> old(self)@.rest.len() > 0 && is_contiguous(
                old(self)@.rest[0].0.shape@,
                old(self)@.rest[0].0.strides@,
            ),
            r matches WriteStep::Resolve { handle, data } ==> handle
                == old(self)@.rest[0].0.handle && data == old(self)@.rest[0].1
                && final(self)@.rest == old(self)@.rest.skip(1),
    {
        if self.rest.len() == 0 {
            return WriteStep::Finished;
        }
        let (descriptor, data) = self.rest.remove(0);
        assert(self.rest@ =~= old(self)@.rest.drop_first());
        let contiguous = contiguous_strides(descriptor.shape.as_slice());
        if same_strides(contiguous.as_slice(), descriptor.strides.as_slice()) {
            WriteStep::Resolve { handle: descriptor.handle, data }
        } else {
            proof {
                if is_contiguous(descriptor.shape@, descriptor.strides@) {
                    law_contiguous_unique(descriptor.shape@, contiguous@, descriptor.strides@);
                }
            }
            self.rest.clear();
            WriteStep::Refuse {
                stream: descriptor.handle.stream,
                error: ServerError::Io(IoError::UnsupportedStrides),
            }
        }
    }

    /// Go on with a write to memory of stream `owner`, given what its memory resolved to. Where it
    /// did not resolve, the write is refused, and with it all later writes.
    pub fn resolved<P>(
        &mut self,
        owner: StreamId,
        resource: Result<Metal4Resource, IoError>,
        data: Vec<u8>,
    ) -> (r: WriteStep<P, M>)
        ensures
            old(self)@.resolves(final(self)@, r, owner, outcome_says(resource), data),
            resource matches Ok(written) ==> r == (WriteStep::<P, M>::Register {
                stream: old(self)@.stream,
                task: ScheduleTask::Write { resource: written, data },
            }) && final(self)@.rest == old(self)@.rest,
            resource matches Err(error) ==> (r matches WriteStep::Refuse { stream, error: e }
                && stream == owner && e.says() == ServerErrorView::Io(error@))
                && final(self)@.rest.len() == 0,
    {
        match resource {
            Ok(resource) => WriteStep::Register {
                stream: self.stream,
                task: ScheduleTask::Write { resource, data },
            },
            Err(error) => {
                self.rest.clear();
                WriteStep::Refuse { stream: owner, error: ServerError::Io(error) }
            },
        }
    }
}

/// The streams of the descriptors, without repeats, behind the given stream: each stream comes
/// where it occurs first.
pub open spec fn streams_read<M>(
    stream_id: StreamId,
    descriptors: Seq<CopyDescriptor<M>>,
) -> Seq<StreamId>
    decreases descriptors.len(),
{
    if descriptors.len() == 0 {
        seq![stream_id]
    } else {
        let earlier = streams_read(stream_id, descriptors.drop_last());
        let stream = descriptors.last().handle.stream;
        if earlier.contains(stream) {
            earlier
        } else {
            earlier.push(stream)
        }
    }
}

/// The streams that are executed before a read: the reading stream, then those that the tensors
/// belong to.
pub fn read_streams<M>(stream_id: StreamId, descriptors: &[CopyDescriptor<M>]) -> (r: Vec<StreamId>)
    ensures
        r@ == streams_read(stream_id, descriptors@),
{
    let mut streams: Vec<StreamId> = Vec::new();
    streams.push(stream_id);
    let mut i: usize = 0;
    assert(descriptors@.take(0) =~= seq![]);
    while i < descriptors.len()
        invariant
            i <= descriptors@.len(),
            streams@ == streams_read(stream_id, descriptors@.take(i as int)),
        decreases descriptors@.len() - i,
    {
        proof {
            let next = descriptors@.take(i + 1);
            assert(next.drop_last() =~= descriptors@.take(i as int));
            assert(next.last() == descriptors@[i as int]);
        }
        let stream = descriptors[i].handle.stream;
        if !contains_stream(streams.as_slice(), stream) {
            streams.push(stream);
        }
        i += 1;
    }
    assert(descriptors@.take(descriptors@.len() as int) =~= descriptors@);
    streams
}

/// Whether a stream is among those given.
fn contains_stream(streams: &[StreamId], stream: StreamId) -> (r: bool)
    ensures
        r == streams@.contains(stream),
{
    let mut i: usize = 0;
    while i < streams.len()
        invariant
            i <= streams@.len(),
            forall|j: int| 0 <= j < i ==> streams@[j] != stream,
        decreases streams@.len() - i,
    {
        if streams[i] == stream {
            assert(streams@[i as int] == stream);
            return true;
        }
        i += 1;
    }
    false
}

/// How one more tensor is read: its bytes come behind those read so far, or its error is given.
pub open spec fn reads_one(
    before: Seq<Vec<u8>>,
    after: Seq<Vec<u8>>,
    r: Result<(), ServerError>,
    tensor: Result<Vec<u8>, IoErrorView>,
) -> bool {
    match tensor {
        Ok(bytes) => r is Ok && after == before.push(bytes),
        Err(error) => {
            &&& r matches Err(e) && e.says() == ServerErrorView::Io(error)
            &&& after == before
        },
    }
}

/// Adds the bytes of one more tensor to those read so far. The first tensor that cannot be read
/// ends the read with its error.
pub fn read_one(out: &mut Vec<Vec<u8>>, tensor: Result<Vec<u8>, IoError>) -> (r: Result<
    (),
    ServerError,
>)
    ensures
        reads_one(old(out)@, final(out)@, r, outcome_says(tensor)),
        tensor matches Ok(bytes) ==> r is Ok && final(out)@ == old(out)@.push(bytes),
        tensor matches Err(error) ==> (r matches Err(e) && e.says() == ServerErrorView::Io(error@))
            && final(out)@ == old(out)@,
{
    match tensor {
        Ok(bytes) => {
            out.push(bytes);
            Ok(())
        },
        Err(error) => Err(ServerError::Io(error)),
    }
}

/// What a read gives, behind what was read so far and given how the read of each further tensor
/// ends.
pub open spec fn read_all(
    out: Seq<Vec<u8>>,
    tensors: Seq<Result<Vec<u8>, IoErrorView>>,
) -> Result<Seq<Vec<u8>>, ServerErrorView>
    decreases tensors.len(),
{
    if tensors.len() == 0 {
        Ok(out)
    } else {
        match tensors[0] {
            Ok(bytes) => read_all(out.push(bytes), tensors.drop_first()),
            Err(error) => Err(ServerErrorView::Io(error)),
        }
    }
}

/// The streams that are executed before a resource is handed out: the asking stream, then the one
/// that the memory belongs to, if it is another.
pub fn get_resource_streams<M>(binding: &Binding<M>, stream_id: StreamId) -> (r: Vec<StreamId>)
    ensures
        r@ == if binding.stream == stream_id {
            seq![stream_id]
        } else {
            seq![stream_id, binding.stream]
        },
{
    let mut streams: Vec<StreamId> = Vec::new();
    streams.push(stream_id);
    if binding.stream != stream_id {
        streams.push(binding.stream);
    }
    streams
}

// ---------------------------------------------------------------------------
// Launches
// ---------------------------------------------------------------------------

/// In which order the scheduler takes tasks from its streams.
#[derive(Clone, Copy, Debug, PartialEq, Eq, Structural)]
pub enum SchedulerStrategy {
    /// From the streams in turn.
    Interleave,
}

/// How the scheduler is set up.
#[derive(Clone, Copy, Debug, PartialEq, Eq, Structural)]
pub struct SchedulerOptions {
    /// How many streams there are at most.
    pub max_streams: u8,
    /// How many tasks wait at most before they are executed.
    pub max_tasks: usize,
    /// In which order tasks are taken.
    pub strategy: SchedulerStrategy,
}

/// How the scheduler of a server is set up. The cap on tasks is generous, so that a decode token
/// (about 200 launches) batches into a handful of commits, not one per dispatch.
pub fn scheduler_options(max_streams: u8) -> (r: SchedulerOptions)
    ensures
        r == (SchedulerOptions {
            max_streams,
            max_tasks: 64,
            strategy: SchedulerStrategy::Interleave,
        }),
{
    SchedulerOptions { max_streams, max_tasks: 64, strategy: SchedulerStrategy::Interleave }
}

/// A kernel as generated source.
#[derive(Debug)]
pub struct CompiledKernel {
    /// The source.
    pub source: String,
    /// Its entry point.
    pub entrypoint_name: String,
    /// Units of a cube.
    pub cube_dim: CubeDim,
}

/// What is to be done next to get the pipeline of a kernel.
pub enum PipelineStep<P> {
    /// The pipeline is there.
    Ready {
        /// The pipeline.
        pipeline: P,
        /// Units of a cube.
        cube_dim: CubeDim,
    },
    /// Generate the source of the kernel.
    Generate,
    /// Compile the source.
    Compile(CompiledKernel),
    /// There is no pipeline, for this reason.
    Failed(String),
}

/// How a launch ends.
pub enum LaunchStep<P, M> {
    /// Register the task on the stream, behind what runs on the other streams.
    Register {
        /// The launching stream.
        stream: StreamId,
        /// The launch.
        task: ScheduleTask<P, M>,
        /// The streams that the buffers belong to, in slot order.
        streams: Vec<StreamId>,
    },
    /// Record the error on the stream. Nothing is launched.
    Refuse {
        /// The launching stream.
        stream: StreamId,
        /// Why there is no pipeline.
        error: ServerError,
    },
}

/// The server: compiled pipelines by kernel id, and the streams of the current launch.
pub struct Metal4Server<P> {
    pipelines: HashMap<u64, (P, CubeDim)>,
    streams_pool: Vec<StreamId>,
}

/// The state of a [`Metal4Server`].
#[verifier::ext_equal]
pub struct Metal4ServerView<P> {
    /// The compiled pipelines, by kernel id.
    pub pipelines: Map<u64, (P, CubeDim)>,
    /// The streams that the buffers of the current launch belong to.
    pub streams_pool: Seq<StreamId>,
}

impl<P> core::fmt::Debug for Metal4Server<P> {
    /// The name alone.
    fn fmt(&self, f: &mut core::fmt::Formatter<'_>) -> (r: core::fmt::Result)
        ensures
            r is Ok ==> text_taken(*final(f)) == text_taken(*old(f)) + "Metal4Server"@,
    {
        write_text(f, "Metal4Server")
    }
}

impl<P> View for Metal4Server<P> {
    type V = Metal4ServerView<P>;

    closed spec fn view(&self) -> Metal4ServerView<P> {
        Metal4ServerView { pipelines: self.pipelines@, streams_pool: self.streams_pool@ }
    }
}

impl<P> Metal4ServerView<P> {
    /// The state with a compiled pipeline under a kernel id.
    pub open spec fn cached(self, id: u64, pipeline: P, cube_dim: CubeDim) -> Self {
        Metal4ServerView { pipelines: self.pipelines.insert(id, (pipeline, cube_dim)), ..self }
    }

    /// The state once a launch has begun.
    pub open spec fn launching(self, streams: Seq<StreamId>) -> Self {
        Metal4ServerView { streams_pool: streams, ..self }
    }

    /// What the cache holds for a kernel id.
    pub open spec fn lookup(self, id: u64) -> PipelineStep<P> {
        if self.pipelines.contains_key(id) {
            PipelineStep::Ready {
                pipeline: self.pipelines[id].0,
                cube_dim: self.pipelines[id].1,
            }
        } else {
            PipelineStep::Generate
        }
    }
}

/// The streams that bindings belong to, in order.
pub open spec fn binding_streams<M>(buffers: Seq<Binding<M>>) -> Seq<StreamId> {
    Seq::new(buffers.len(), |i: int| buffers[i].stream)
}

/// The reserved memory of bindings, in order.
pub open spec fn binding_memory<M>(buffers: Seq<Binding<M>>) -> Seq<M> {
    Seq::new(buffers.len(), |i: int| buffers[i].memory)
}

impl<P: Copy> Metal4Server<P> {
    /// A server without compiled pipelines.
    pub fn new() -> (r: Self)
        ensures
            r@ == (Metal4ServerView::<P> { pipelines: Map::empty(), streams_pool: seq![] }),
    {
        Metal4Server { pipelines: HashMap::new(), streams_pool: Vec::new() }
    }

    /// The streams that the buffers of the current launch belong to.
    pub fn streams_pool(&self) -> (r: &Vec<StreamId>)
        ensures
            r@ == self@.streams_pool,
    {
        &self.streams_pool
    }

    /// Begin a launch: note the streams that its buffers belong to, and give the number of cubes
    /// in each direction. Only a static count can be launched.
    pub fn launch<M>(&mut self, count: &CubeCount<M>, arguments: &KernelArguments<M>) -> (r: [u32;
        3])
        requires
            *count is Static,
        ensures
            final(self)@ == old(self)@.launching(binding_streams(arguments.buffers@)),
            *count matches CubeCount::Static(x, y, z) ==> r@ == seq![x, y, z],
    {
        self.streams_pool.clear();
        let mut i: usize = 0;
        while i < arguments.buffers.len()
            invariant
                i == self.streams_pool@.len() <= arguments.buffers@.len(),
                self.pipelines == old(self).pipelines,
                forall|j: int|
                    0 <= j < i ==> self.streams_pool@[j] == arguments.buffers@[j].stream,
            decreases arguments.buffers@.len() - i,
        {
            self.streams_pool.push(arguments.buffers[i].stream);
            i += 1;
        }
        assert(self.streams_pool@ =~= binding_streams(arguments.buffers@));
        match count {
            CubeCount::Static(x, y, z) => [*x, *y, *z],
            CubeCount::Dynamic(_) => [0, 0, 0],
        }
    }

    /// Fetch the pipeline of a kernel from the cache, or have it generated.
    pub fn pipeline(&self, id: u64) -> (r: PipelineStep<P>)
        ensures
            r == self@.lookup(id),
    {
        match self.pipelines.get(&id) {
            Some(hit) => PipelineStep::Ready { pipeline: hit.0, cube_dim: hit.1 },
            None => PipelineStep::Generate,
        }
    }

    /// Go on with a kernel whose source was generated, or could not be.
    pub fn generated(&self, outcome: Result<CompiledKernel, String>) -> (r: PipelineStep<P>)
        ensures
            match outcome {
                Ok(kernel) => r == PipelineStep::<P>::Compile(kernel),
                Err(reason) => r matches PipelineStep::Failed(message) && message@
                    == "MSL codegen failed: "@ + reason@,
            },
    {
        match outcome {
            Ok(kernel) => PipelineStep::Compile(kernel),
            Err(reason) => {
                let mut message = String::from_str("MSL codegen failed: ");
                message.append(reason.as_str());
                PipelineStep::Failed(message)
            },
        }
    }

    /// Go on with a kernel whose source was compiled, or could not be. A compiled one is cached.
    pub fn compiled(&mut self, id: u64, cube_dim: CubeDim, outcome: Result<P, String>) -> (r:
        PipelineStep<P>)
        ensures
            match outcome {
                Ok(pipeline) => {
                    &&& r == (PipelineStep::Ready { pipeline, cube_dim })
                    &&& final(self)@ == old(self)@.cached(id, pipeline, cube_dim)
                },
                Err(message) => {
                    &&& r == PipelineStep::<P>::Failed(message)
                    &&& final(self)@ == old(self)@
                },
            },
    {
        match outcome {
            Ok(pipeline) => {
                self.pipelines.insert(id, (pipeline, cube_dim));
                PipelineStep::Ready { pipeline, cube_dim }
            },
            Err(message) => PipelineStep::Failed(message),
        }
    }

    /// End a launch on a stream, given its pipeline (`Q`, as a task carries it) or why there is
    /// none, and what its buffers resolved to. With a pipeline the task is registered on the
    /// launching stream, behind the streams of the buffers; without one the error is recorded
    /// there.
    pub fn finish_launch<Q, M>(
        &self,
        stream: StreamId,
        ready: Result<(Q, CubeDim), String>,
        cube_count: [u32; 3],
        arguments: KernelArguments<M>,
        resources: Vec<Metal4Resource>,
    ) -> (r: LaunchStep<Q, M>)
        requires
            self@.streams_pool == binding_streams(arguments.buffers@),
            ready is Ok ==> resources@.len() == arguments.buffers@.len(),
        ensures
            match ready {
                Ok((pipeline, cube_dim)) => {
                    &&& r matches LaunchStep::Register { stream: on, task, streams }
                    &&& on == stream
                    &&& launches(task, pipeline, cube_dim, cube_count, arguments, resources)
                    &&& streams@ == binding_streams(arguments.buffers@)
                },
                Err(message) => {
                    &&& r matches LaunchStep::Refuse { stream: on, error }
                    &&& on == stream
                    &&& error.says() == ServerErrorView::Io(
                        IoErrorView::Unknown { description: message@ },
                    )
                },
            },
    {
        match ready {
            Ok((pipeline, cube_dim)) => {
                let task = launch_task(pipeline, cube_dim, cube_count, arguments, resources);
                let mut streams: Vec<StreamId> = Vec::new();
                streams.extend_from_slice(self.streams_pool.as_slice());
                assert(streams@ =~= self.streams_pool@);
                LaunchStep::Register { stream, task, streams }
            },
            Err(message) => LaunchStep::Refuse { stream, error: ServerError::unknown(message) },
        }
    }
}

/// The resolved resources for a launch, given what each buffer resolved to. The reserved memory is
/// retained beside the resources, so that it stays reserved until the batch commits.
pub fn prepare_bindings<M>(arguments: KernelArguments<M>, resources: Vec<Metal4Resource>) -> (r:
    BindingsResource<M>)
    requires
        resources@.len() == arguments.buffers@.len(),
    ensures
        r.resources == resources,
        r.handles@ == binding_memory(arguments.buffers@),
        r.handles@.len() == arguments.buffers@.len(),
        forall|i: int|
            0 <= i < arguments.buffers@.len() ==> #[trigger] r.handles@[i]
                == arguments.buffers@[i].memory,
        r.info == arguments.info,
{
    let ghost given = arguments.buffers@;
    let mut handles: Vec<M> = Vec::new();
    for binding in it: arguments.buffers
        invariant
            it.seq() == given,
            handles@.len() == it.index(),
            forall|j: int| 0 <= j < handles@.len() ==> handles@[j] == given[j].memory,
    {
        handles.push(binding.memory);
    }
    assert(handles@ =~= binding_memory(given));
    BindingsResource { resources, handles, info: arguments.info }
}

/// The task launches a pipeline on what the buffers of its arguments resolved to.
pub open spec fn launches<P, M>(
    task: ScheduleTask<P, M>,
    pipeline: P,
    cube_dim: CubeDim,
    cube_count: [u32; 3],
    arguments: KernelArguments<M>,
    resources: Vec<Metal4Resource>,
) -> bool {
    task matches ScheduleTask::Execute { pipeline: p, cube_dim: d, cube_count: c, bindings } && p
        == pipeline && d == cube_dim && c == cube_count && bindings.resources == resources
        && bindings.handles@ == binding_memory(arguments.buffers@) && bindings.info
        == arguments.info
}

/// The task for a launch.
pub fn launch_task<P, M>(
    pipeline: P,
    cube_dim: CubeDim,
    cube_count: [u32; 3],
    arguments: KernelArguments<M>,
    resources: Vec<Metal4Resource>,
) -> (r: ScheduleTask<P, M>)
    requires
        resources@.len() == arguments.buffers@.len(),
    ensures
        launches(r, pipeline, cube_dim, cube_count, arguments, resources),
        r matches ScheduleTask::Execute { pipeline: p, cube_dim: d, cube_count: c, .. } && p
            == pipeline && d.x == cube_dim.x && d.y == cube_dim.y && d.z == cube_dim.z && c
            == cube_count,
        r matches ScheduleTask::Execute { bindings, .. } && bindings.resources == resources
            && bindings.info == arguments.info,
{
    let bindings = prepare_bindings(arguments, resources);
    ScheduleTask::Execute { pipeline, cube_dim, cube_count, bindings }
}

// ---------------------------------------------------------------------------
// Laws
// ---------------------------------------------------------------------------

/// The offset of the last element of a tensor.
pub open spec fn last_offset(shape: Seq<usize>, strides: Seq<usize>) -> int
    decreases shape.len(),
{
    if shape.len() == 0 {
        0
    } else {
        (shape[0] - 1) * strides[0] + last_offset(shape.drop_first(), strides.drop_first())
    }
}

/// The elements of a contiguous tensor fill the memory without a gap: the last one lies where the
/// number of elements ends.
pub proof fn law_contiguous_without_gap(shape: Seq<usize>, strides: Seq<usize>)
    requires
        is_contiguous(shape, strides),
    ensures
        last_offset(shape, strides) + 1 == product(shape),
    decreases shape.len(),
{
    if shape.len() > 0 {
        let s = shape.drop_first();
        let t = strides.drop_first();
        assert forall|i: int| 0 <= i < s.len() implies (#[trigger] t[i]) as nat
            == contiguous_stride(s, i) by {
            assert(t[i] == strides[i + 1]);
            assert(s.skip(i + 1) =~= shape.skip(i + 2));
        }
        law_contiguous_without_gap(s, t);
        assert(strides[0] as nat == contiguous_stride(shape, 0));
        assert(shape.skip(1) =~= s);
        let n = shape[0] as int;
        let p = product(s) as int;
        assert((n - 1) * p + p == n * p) by (nonlinear_arith);
    }
}

/// The innermost elements of a contiguous tensor lie next to each other, and each other dimension
/// steps over all of the next.
pub proof fn law_contiguous_steps(shape: Seq<usize>, strides: Seq<usize>, i: int)
    requires
        is_contiguous(shape, strides),
        0 <= i < shape.len(),
    ensures
        i == shape.len() - 1 ==> strides[i] == 1,
        i < shape.len() - 1 ==> strides[i] == shape[i + 1] * strides[i + 1],
{
    assert(strides[i] as nat == contiguous_stride(shape, i));
    if i == shape.len() - 1 {
        assert(shape.skip(i + 1) =~= seq![]);
    } else {
        let tail = shape.skip(i + 1);
        assert(tail[0] == shape[i + 1]);
        assert(tail.drop_first() =~= shape.skip(i + 2));
        assert(strides[i + 1] as nat == contiguous_stride(shape, i + 1));
    }
}

/// Only one list of strides makes a shape contiguous.
pub proof fn law_contiguous_unique(shape: Seq<usize>, a: Seq<usize>, b: Seq<usize>)
    requires
        is_contiguous(shape, a),
        is_contiguous(shape, b),
    ensures
        a == b,
{
    assert forall|i: int| 0 <= i < a.len() implies a[i] == b[i] by {
        assert(a[i] as nat == contiguous_stride(shape, i));
        assert(b[i] as nat == contiguous_stride(shape, i));
    }
    assert(a =~= b);
}

/// How one write of a call ends, given what its memory resolves to: with the resource that is
/// written to, or with why it is refused.
pub open spec fn write_outcome<M>(
    descriptor: CopyDescriptor<M>,
    resource: Result<Metal4Resource, IoErrorView>,
) -> Result<Metal4Resource, ServerErrorView> {
    if !is_contiguous(descriptor.shape@, descriptor.strides@) {
        Err(ServerErrorView::Io(IoErrorView::UnsupportedStrides))
    } else {
        match resource {
            Ok(resource) => Ok(resource),
            Err(error) => Err(ServerErrorView::Io(error)),
        }
    }
}

impl<M> WritesView<M> {
    /// What a call carries out, given what the memory of each write resolves to: the writes that
    /// are registered on its stream, in order, and the error that is recorded with the stream that
    /// it is recorded on, if there is one.
    pub open spec fn carried_out(
        self,
        resources: Seq<Result<Metal4Resource, IoErrorView>>,
    ) -> (Seq<(Metal4Resource, Vec<u8>)>, Option<(StreamId, ServerErrorView)>)
        decreases self.rest.len(),
    {
        if self.rest.len() == 0 {
            (seq![], None)
        } else {
            match write_outcome(self.rest[0].0, resources[0]) {
                Ok(resource) => {
                    let (registered, refused) = self.advanced().carried_out(
                        resources.drop_first(),
                    );
                    (seq![(resource, self.rest[0].1)] + registered, refused)
                },
                Err(error) => (seq![], Some((self.rest[0].0.handle.stream, error))),
            }
        }
    }
}

/// A call carries out exactly the writes before the first that is refused, in order, each with its
/// own data. `n` is how many those are. Where one is refused its error is recorded on the stream
/// that its memory belongs to, and nothing else is.
pub proof fn law_writes_up_to_first_refused<M>(
    writes: WritesView<M>,
    resources: Seq<Result<Metal4Resource, IoErrorView>>,
    n: int,
)
    requires
        resources.len() == writes.rest.len(),
        0 <= n <= writes.rest.len(),
        forall|i: int|
            0 <= i < n ==> write_outcome((#[trigger] writes.rest[i]).0, resources[i]) is Ok,
        n < writes.rest.len() ==> write_outcome(writes.rest[n].0, resources[n]) is Err,
    ensures
        ({
            let (registered, refused) = writes.carried_out(resources);
            &&& registered.len() == n
            &&& forall|i: int|
                #![trigger registered[i]]
                0 <= i < n ==> registered[i].1 == writes.rest[i].1 && write_outcome(
                    writes.rest[i].0,
                    resources[i],
                ) == Ok::<Metal4Resource, ServerErrorView>(registered[i].0)
            &&& n == writes.rest.len() ==> refused is None
            &&& n < writes.rest.len() ==> refused == Some(
                (
                    writes.rest[n].0.handle.stream,
                    write_outcome(writes.rest[n].0, resources[n])->Err_0,
                ),
            )
        }),
    decreases writes.rest.len(),
{
    if n > 0 {
        let later = writes.advanced();
        let rest = resources.drop_first();
        assert(write_outcome(writes.rest[0].0, resources[0]) is Ok);
        assert forall|i: int| 0 <= i < n - 1 implies write_outcome(
            (#[trigger] later.rest[i]).0,
            rest[i],
        ) is Ok by {
            assert(later.rest[i] == writes.rest[i + 1]);
            assert(rest[i] == resources[i + 1]);
        }
        law_writes_up_to_first_refused(later, rest, n - 1);
        let (registered, _) = writes.carried_out(resources);
        let (registered_later, _) = later.carried_out(rest);
        assert forall|i: int|
            #![trigger registered[i]]
            0 <= i < n implies registered[i].1 == writes.rest[i].1 && write_outcome(
            writes.rest[i].0,
            resources[i],
        ) == Ok::<Metal4Resource, ServerErrorView>(registered[i].0) by {
            if i > 0 {
                assert(registered[i] == registered_later[i - 1]);
                assert(later.rest[i - 1] == writes.rest[i]);
                assert(rest[i - 1] == resources[i]);
            }
        }
    }
}

/// The steps of a call are what it carries out: `first` is what [`Writes::next`] asks for and
/// `taken` the state behind it. Where that is to resolve the memory of a write, `second` is what
/// [`Writes::resolved`] asks for, and `after` the state behind it. What is asked for comes first
/// among all that is carried out, and the state behind it carries out the rest.
pub proof fn law_steps_carry_out<P, M>(
    before: WritesView<M>,
    taken: WritesView<M>,
    first: WriteStep<P, M>,
    after: WritesView<M>,
    second: WriteStep<P, M>,
    resources: Seq<Result<Metal4Resource, IoErrorView>>,
)
    requires
        before.takes(taken, first),
        first matches WriteStep::Resolve { handle, data } ==> taken.resolves(
            after,
            second,
            handle.stream,
            resources[0],
            data,
        ),
    ensures
        match first {
            WriteStep::Finished => before.carried_out(resources) == (
                Seq::<(Metal4Resource, Vec<u8>)>::empty(),
                None::<(StreamId, ServerErrorView)>,
            ) && taken == before,
            WriteStep::Refuse { stream, error } => {
                &&& before.carried_out(resources) == (
                    Seq::<(Metal4Resource, Vec<u8>)>::empty(),
                    Some((stream, error.says())),
                )
                &&& taken == before.stopped()
            },
            WriteStep::Resolve { .. } => match second {
                WriteStep::Register {
                    stream,
                    task: ScheduleTask::Write { resource, data },
                } => {
                    let (registered, refused) = after.carried_out(resources.drop_first());
                    &&& stream == before.stream
                    &&& before.carried_out(resources) == (
                        seq![(resource, data)] + registered,
                        refused,
                    )
                    &&& after.stream == before.stream
                },
                WriteStep::Refuse { stream, error } => {
                    &&& before.carried_out(resources) == (
                        Seq::<(Metal4Resource, Vec<u8>)>::empty(),
                        Some((stream, error.says())),
                    )
                    &&& after == before.stopped()
                },
                _ => false,
            },
            _ => false,
        },
{
}

/// A call that was stopped carries out nothing more.
pub proof fn law_stopped_writes_nothing<M>(
    writes: WritesView<M>,
    resources: Seq<Result<Metal4Resource, IoErrorView>>,
)
    ensures
        writes.stopped().carried_out(resources).0.len() == 0,
        writes.stopped().carried_out(resources).1 is None,
{
}

/// Reading one tensor after the other with [`read_one`] is reading all of them: while it succeeds,
/// what is read so far and the further tensors give the same, and its error is that of the read.
pub proof fn law_read_one_after_the_other(
    before: Seq<Vec<u8>>,
    after: Seq<Vec<u8>>,
    r: Result<(), ServerError>,
    tensors: Seq<Result<Vec<u8>, IoErrorView>>,
)
    requires
        tensors.len() > 0,
        reads_one(before, after, r, tensors[0]),
    ensures
        match r {
            Ok(()) => read_all(before, tensors) == read_all(after, tensors.drop_first()),
            Err(error) => read_all(before, tensors) == Err::<Seq<Vec<u8>>, ServerErrorView>(
                error.says(),
            ),
        },
{
}

/// A read gives the bytes of all tensors, in order, or the error of the first that cannot be read.
/// `n` is how many tensors can be read before that one.
pub proof fn law_read_all_or_first_error(
    out: Seq<Vec<u8>>,
    tensors: Seq<Result<Vec<u8>, IoErrorView>>,
    n: int,
)
    requires
        0 <= n <= tensors.len(),
        forall|i: int| 0 <= i < n ==> (#[trigger] tensors[i]) is Ok,
        n < tensors.len() ==> tensors[n] is Err,
    ensures
        n == tensors.len() ==> read_all(out, tensors) == Ok::<Seq<Vec<u8>>, ServerErrorView>(
            out + Seq::new(tensors.len(), |i: int| tensors[i]->Ok_0),
        ),
        n < tensors.len() ==> read_all(out, tensors) == Err::<Seq<Vec<u8>>, ServerErrorView>(
            ServerErrorView::Io(tensors[n]->Err_0),
        ),
    decreases tensors.len(),
{
    if n > 0 {
        let rest = tensors.drop_first();
        let longer = out.push(tensors[0]->Ok_0);
        assert(tensors[0] is Ok);
        assert forall|i: int| 0 <= i < n - 1 implies (#[trigger] rest[i]) is Ok by {
            assert(rest[i] == tensors[i + 1]);
        }
        law_read_all_or_first_error(longer, rest, n - 1);
        assert(longer + Seq::new(rest.len(), |i: int| rest[i]->Ok_0) =~= out + Seq::new(
            tensors.len(),
            |i: int| tensors[i]->Ok_0,
        ));
    } else if tensors.len() == 0 {
        assert(out + Seq::new(tensors.len(), |i: int| tensors[i]->Ok_0) =~= out);
    }
}

/// A read executes its own stream first, every stream that a tensor belongs to, and none twice.
pub proof fn law_read_streams_complete<M>(
    stream_id: StreamId,
    descriptors: Seq<CopyDescriptor<M>>,
)
    ensures
        ({
            let streams = streams_read(stream_id, descriptors);
            &&& streams.len() >= 1
            &&& streams[0] == stream_id
            &&& streams.no_duplicates()
            &&& forall|i: int|
                0 <= i < descriptors.len() ==> streams.contains(
                    (#[trigger] descriptors[i]).handle.stream,
                )
            &&& forall|k: int|
                1 <= k < streams.len() ==> exists|i: int|
                    0 <= i < descriptors.len() && #[trigger] descriptors[i].handle.stream
                        == #[trigger] streams[k]
        }),
    decreases descriptors.len(),
{
    let streams = streams_read(stream_id, descriptors);
    if descriptors.len() > 0 {
        let before = descriptors.drop_last();
        let earlier = streams_read(stream_id, before);
        law_read_streams_complete(stream_id, before);
        let stream = descriptors.last().handle.stream;
        assert(descriptors.last() == descriptors[descriptors.len() - 1]);
        assert(forall|s: StreamId| earlier.contains(s) ==> streams.contains(s)) by {
            assert(earlier.is_prefix_of(streams));
            assert forall|s: StreamId| earlier.contains(s) implies streams.contains(s) by {
                let k = choose|k: int| 0 <= k < earlier.len() && earlier[k] == s;
                assert(streams[k] == s);
            }
        }
        assert(streams.contains(stream)) by {
            if !earlier.contains(stream) {
                assert(streams[earlier.len() as int] == stream);
            }
        }
        assert forall|i: int| 0 <= i < descriptors.len() implies streams.contains(
            (#[trigger] descriptors[i]).handle.stream,
        ) by {
            if i < before.len() {
                assert(before[i] == descriptors[i]);
                assert(earlier.contains(before[i].handle.stream));
            }
        }
        assert forall|k: int| 1 <= k < streams.len() implies exists|i: int|
            0 <= i < descriptors.len() && #[trigger] descriptors[i].handle.stream
                == #[trigger] streams[k] by {
            if k < earlier.len() {
                let i = choose|i: int|
                    0 <= i < before.len() && #[trigger] before[i].handle.stream == earlier[k];
                assert(descriptors[i] == before[i]);
                assert(descriptors[i].handle.stream == streams[k]);
            } else {
                assert(descriptors[descriptors.len() - 1].handle.stream == streams[k]);
            }
        }
    }
}

/// Something that changes a server.
pub enum ServerEvent<P> {
    /// A launch begins.
    Launch {
        /// The streams that its buffers belong to.
        streams: Seq<StreamId>,
    },
    /// A kernel is compiled.
    Compiled {
        /// The kernel.
        id: u64,
        /// Its pipeline.
        pipeline: P,
        /// Units of a cube.
        cube_dim: CubeDim,
    },
}

impl<P> Metal4ServerView<P> {
    /// The state after an event.
    pub open spec fn after_event(self, event: ServerEvent<P>) -> Self {
        match event {
            ServerEvent::Launch { streams } => self.launching(streams),
            ServerEvent::Compiled { id, pipeline, cube_dim } => self.cached(id, pipeline, cube_dim),
        }
    }

    /// The state after a run of events.
    pub open spec fn run(self, events: Seq<ServerEvent<P>>) -> Self
        decreases events.len(),
    {
        if events.len() == 0 {
            self
        } else {
            self.run(events.drop_last()).after_event(events.last())
        }
    }
}

/// Compiling a kernel affects neither another kernel nor the current launch.
pub proof fn law_compiling_affects_one_kernel<P>(
    server: Metal4ServerView<P>,
    id: u64,
    pipeline: P,
    cube_dim: CubeDim,
    other: u64,
)
    requires
        other != id,
    ensures
        server.cached(id, pipeline, cube_dim).lookup(other) == server.lookup(other),
        server.cached(id, pipeline, cube_dim).streams_pool == server.streams_pool,
{
}

/// A compiled pipeline is found in the cache from then on, through all launches and whatever other
/// kernels are compiled.
pub proof fn law_pipeline_stays_cached<P>(
    server: Metal4ServerView<P>,
    id: u64,
    pipeline: P,
    cube_dim: CubeDim,
    events: Seq<ServerEvent<P>>,
)
    requires
        forall|i: int|
            0 <= i < events.len() ==> ((#[trigger] events[i]) matches ServerEvent::Compiled {
                id: other,
                ..
            } ==> other != id),
    ensures
        server.cached(id, pipeline, cube_dim).run(events).lookup(id) == (PipelineStep::Ready {
            pipeline,
            cube_dim,
        }),
    decreases events.len(),
{
    if events.len() > 0 {
        let earlier = events.drop_last();
        assert(forall|i: int| 0 <= i < earlier.len() ==> #[trigger] earlier[i] == events[i]);
        law_pipeline_stays_cached(server, id, pipeline, cube_dim, earlier);
        assert(events.last() == events[events.len() - 1]);
    }
}

/// The task of a launch carries the pipeline, the cube dim of the kernel in all three directions,
/// the count of cubes, every resource, the memory behind each buffer, and all metadata.
pub proof fn law_launched_task_is_as_compiled<P, M>(
    task: ScheduleTask<P, M>,
    pipeline: P,
    cube_dim: CubeDim,
    cube_count: [u32; 3],
    arguments: KernelArguments<M>,
    resources: Vec<Metal4Resource>,
)
    requires
        launches(task, pipeline, cube_dim, cube_count, arguments, resources),
    ensures
        task matches ScheduleTask::Execute { pipeline: p, cube_dim: d, cube_count: c, bindings } && {
            &&& p == pipeline
            &&& d.x == cube_dim.x
            &&& d.y == cube_dim.y
            &&& d.z == cube_dim.z
            &&& c@ == cube_count@
            &&& bindings.resources@ == resources@
            &&& bindings.info@ == arguments.info@
            &&& bindings.handles@.len() == arguments.buffers@.len()
            &&& forall|i: int|
                0 <= i < arguments.buffers@.len() ==> #[trigger] bindings.handles@[i]
                    == arguments.buffers@[i].memory
        },
{
}

/// What is dispatched for a launch has the threads of the kernel and the groups of the cube count,
/// binds each resource in order, and pins the memory behind each buffer: from the task of the
/// launch to the batch of its stream. `first` is what the stream asks for when it takes the task
/// on, and `second` what it asks for once the metadata is uploaded, if there is any.
pub proof fn law_launch_runs_as_compiled<A, C, E, R, P, M>(
    task: ScheduleTask<P, M>,
    cube_dim: CubeDim,
    cube_count: [u32; 3],
    arguments: KernelArguments<M>,
    resources: Vec<Metal4Resource>,
    before: Metal4StreamView<A, C, E, R, M>,
    enqueued: Metal4StreamView<A, C, E, R, M>,
    first: TaskStep<P, M>,
    buffer: Buffer<R>,
    bound: Metal4StreamView<A, C, E, R, M>,
    second: TaskStep<P, M>,
    pipeline: P,
)
    requires
        launches(task, pipeline, cube_dim, cube_count, arguments, resources),
        task matches ScheduleTask::Execute { pipeline: p, cube_dim: d, cube_count: c, bindings }
            && before.reaches_batch(enqueued, first, buffer, bound, second, (p, d, c), bindings),
    ensures
        match second {
            TaskStep::OpenBatch { launch } | TaskStep::CreateTable { launch, .. } => {
                &&& launch.pipeline == pipeline
                &&& launch.threads == (cube_dim.x, cube_dim.y, cube_dim.z)
                &&& launch.groups == (cube_count@[0], cube_count@[1], cube_count@[2])
                &&& forall|i: int|
                    0 <= i < resources@.len() ==> #[trigger] launch.addresses@[i]
                        == resources@[i].gpu_address
            },
            _ => false,
        },
        bound.in_flight.len() == before.in_flight.len() + arguments.buffers@.len(),
        forall|i: int|
            0 <= i < arguments.buffers@.len() ==> #[trigger] bound.in_flight[before.in_flight.len()
                + i] == arguments.buffers@[i].memory,
{
    law_launched_task_is_as_compiled(
        task,
        pipeline,
        cube_dim,
        cube_count,
        arguments,
        resources,
    );
    let kernel = (task->pipeline, task->cube_dim, task->cube_count);
    law_launch_binds_in_order(
        before,
        enqueued,
        first,
        buffer,
        bound,
        second,
        kernel,
        task->bindings,
    );
    law_launch_binds_each_resource(
        before,
        enqueued,
        first,
        buffer,
        bound,
        second,
        kernel,
        task->bindings,
    );
}

/// Each buffer of a launch gives its own stream and its own memory, in order.
pub proof fn law_bindings_in_order<M>(buffers: Seq<Binding<M>>, i: int)
    requires
        0 <= i < buffers.len(),
    ensures
        binding_streams(buffers).len() == buffers.len(),
        binding_streams(buffers)[i] == buffers[i].stream,
        binding_memory(buffers).len() == buffers.len(),
        binding_memory(buffers)[i] == buffers[i].memory,
{
}

/// A kernel that was never compiled is to be generated, and one that was is ready as it was
/// compiled. A launch forgets no pipeline, and a compilation replaces none but its own.
pub proof fn law_lookup_finds_compiled<P>(
    server: Metal4ServerView<P>,
    id: u64,
    pipeline: P,
    cube_dim: CubeDim,
    streams: Seq<StreamId>,
)
    ensures
        !server.pipelines.contains_key(id) ==> server.lookup(id) is Generate,
        server.cached(id, pipeline, cube_dim).lookup(id) == (PipelineStep::Ready {
            pipeline,
            cube_dim,
        }),
        server.cached(id, pipeline, cube_dim).pipelines.dom() == server.pipelines.dom().insert(id),
        server.launching(streams).pipelines == server.pipelines,
        server.launching(streams).streams_pool == streams,
{
    assert(server.cached(id, pipeline, cube_dim).pipelines.dom() =~= server.pipelines.dom().insert(
        id,
    ));
}

/// The contiguous strides of a shape are machine numbers exactly if there are strides that make it
/// contiguous, and it has a dimension.
pub proof fn law_fitting_shape_has_strides(shape: Seq<usize>, strides: Seq<usize>)
    ensures
        shape.len() >= 1 && is_contiguous(shape, strides) ==> strides_fit(shape),
        strides_fit(shape) ==> shape.len() >= 1 && is_contiguous(
            shape,
            Seq::new(shape.len(), |i: int| contiguous_stride(shape, i) as usize),
        ),
{
    if shape.len() >= 1 && is_contiguous(shape, strides) {
        assert forall|i: int| 0 <= i < shape.len() implies #[trigger] contiguous_stride(shape, i)
            <= usize::MAX by {
            assert(strides[i] as nat == contiguous_stride(shape, i));
        }
    }
}

/// A write is carried out exactly if its tensor is contiguous and its memory resolves, and then to
/// what its memory resolves to. Strides are looked at first.
pub proof fn law_write_refused_for_its_reason<M>(
    descriptor: CopyDescriptor<M>,
    resource: Metal4Resource,
    error: IoErrorView,
)
    ensures
        is_contiguous(descriptor.shape@, descriptor.strides@) ==> {
            &&& write_outcome(descriptor, Ok(resource)) == Ok::<Metal4Resource, ServerErrorView>(
                resource,
            )
            &&& write_outcome(descriptor, Err(error)) == Err::<Metal4Resource, ServerErrorView>(
                ServerErrorView::Io(error),
            )
        },
        !is_contiguous(descriptor.shape@, descriptor.strides@) ==> {
            let refused = Err::<Metal4Resource, ServerErrorView>(
                ServerErrorView::Io(IoErrorView::UnsupportedStrides),
            );
            &&& write_outcome(descriptor, Ok(resource)) == refused
            &&& write_outcome(descriptor, Err(error)) == refused
        },
{
}

/// Taking a write takes the first of them, and stopping leaves none; the stream of the call stays.
pub proof fn law_writes_are_taken_in_order<M>(writes: WritesView<M>)
    ensures
        writes.rest.len() > 0 ==> seq![writes.rest[0]] + writes.advanced().rest == writes.rest,
        writes.advanced().stream == writes.stream,
        writes.stopped().rest.len() == 0,
        writes.stopped().stream == writes.stream,
{
    if writes.rest.len() > 0 {
        assert(seq![writes.rest[0]] + writes.advanced().rest =~= writes.rest);
    }
}

/// What moving data gave is what its outcome says: the value, or what the error says.
pub proof fn law_outcome_keeps_value<T>(value: T, error: IoError)
    ensures
        outcome_says(Ok::<T, IoError>(value)) == Ok::<T, IoErrorView>(value),
        outcome_says(Err::<T, IoError>(error)) == Err::<T, IoErrorView>(error@),
{
}

/// Further tensors only add streams behind those that a read already waits for, so each stream
/// comes where it occurs first.
pub proof fn law_read_streams_in_order<M>(
    stream_id: StreamId,
    earlier: Seq<CopyDescriptor<M>>,
    later: Seq<CopyDescriptor<M>>,
)
    ensures
        streams_read(stream_id, earlier).is_prefix_of(streams_read(stream_id, earlier + later)),
    decreases later.len(),
{
    if later.len() == 0 {
        assert(earlier + later =~= earlier);
    } else {
        law_read_streams_in_order(stream_id, earlier, later.drop_last());
        assert((earlier + later).drop_last() =~= earlier + later.drop_last());
        let before = streams_read(stream_id, earlier + later.drop_last());
        let after = streams_read(stream_id, earlier + later);
        assert(before.is_prefix_of(after));
    }
}

/// Strides that step over all of the next dimension each, with the innermost elements next to each
/// other, make a shape contiguous.
pub proof fn law_steps_make_contiguous(shape: Seq<usize>, strides: Seq<usize>)
    requires
        strides.len() == shape.len(),
        shape.len() > 0 ==> strides.last() == 1,
        forall|i: int|
            0 <= i < shape.len() - 1 ==> #[trigger] strides[i] == shape[i + 1] * strides[i + 1],
    ensures
        is_contiguous(shape, strides),
    decreases shape.len(),
{
    if shape.len() > 0 {
        let s = shape.drop_first();
        let t = strides.drop_first();
        assert forall|i: int| 0 <= i < s.len() - 1 implies #[trigger] t[i] == s[i + 1] * t[i
            + 1] by {
            assert(t[i] == strides[i + 1]);
        }
        law_steps_make_contiguous(s, t);
        assert forall|i: int| 0 <= i < shape.len() implies (#[trigger] strides[i]) as nat
            == contiguous_stride(shape, i) by {
            if i > 0 {
                assert(t[i - 1] as nat == contiguous_stride(s, i - 1));
                assert(t[i - 1] == strides[i]);
                assert(s.skip(i) =~= shape.skip(i + 1));
            } else if shape.len() == 1 {
                assert(shape.skip(1) =~= seq![]);
            } else {
                assert(t[0] as nat == contiguous_stride(s, 0));
                assert(strides[0] == shape[1] * strides[1]);
                assert(t[0] == strides[1]);
                assert(shape.skip(1) =~= s);
                assert(s.drop_first() =~= s.skip(1));
                assert(s[0] == shape[1]);
                assert(product(s) == s[0] as nat * product(s.drop_first()));
            }
        }
    }
}

/// A call of [`launch_task`] gives a launch of the compiled kernel: with its cube in all three
/// directions, the cubes that were asked for, the resources as they were resolved, and the memory
/// of each binding in slot order.
pub proof fn law_task_takes_over_its_arguments<P, M>(
    pipeline: P,
    cube_dim: CubeDim,
    cube_count: [u32; 3],
    arguments: KernelArguments<M>,
    resources: Vec<Metal4Resource>,
    r: ScheduleTask<P, M>,
)
    requires
        call_ensures(
            launch_task::<P, M>,
            (pipeline, cube_dim, cube_count, arguments, resources),
            r,
        ),
    ensures
        r matches ScheduleTask::Execute { pipeline: p, cube_dim: d, cube_count: c, bindings } && {
            &&& p == pipeline
            &&& d.x == cube_dim.x
            &&& d.y == cube_dim.y
            &&& d.z == cube_dim.z
            &&& c@ == cube_count@
            &&& bindings.resources@ == resources@
            &&& bindings.info@ == arguments.info@
            &&& bindings.handles@.len() == arguments.buffers@.len()
            &&& forall|i: int|
                0 <= i < arguments.buffers@.len() ==> #[trigger] bindings.handles@[i]
                    == arguments.buffers@[i].memory
        },
{
}

/// A launch notes the stream of each buffer in slot order, takes over a static count of cubes and
/// leaves the pipelines alone. Whatever was noted for the launch before it is gone.
pub proof fn law_launch_notes_its_streams<P: Copy, M>(
    server: &mut Metal4Server<P>,
    count: &CubeCount<M>,
    arguments: &KernelArguments<M>,
    r: [u32; 3],
)
    requires
        call_ensures(Metal4Server::<P>::launch::<M>, (server, count, arguments), r),
    ensures
        *count matches CubeCount::Static(x, y, z) ==> r@[0] == x && r@[1] == y && r@[2] == z,
        final(server)@.streams_pool.len() == arguments.buffers@.len(),
        forall|i: int|
            0 <= i < arguments.buffers@.len() ==> #[trigger] final(server)@.streams_pool[i]
                == arguments.buffers@[i].stream,
        final(server)@.pipelines == old(server)@.pipelines,
{
}

/// A kernel that was compiled is found under its number from then on, with the pipeline and the
/// cube that it was compiled with. What is found under another number stays.
pub proof fn law_compiled_kernel_is_found<P: Copy>(
    before: &Metal4Server<P>,
    server: &mut Metal4Server<P>,
    after: &Metal4Server<P>,
    id: u64,
    other: u64,
    cube_dim: CubeDim,
    pipeline: P,
    r: PipelineStep<P>,
    found: PipelineStep<P>,
    other_before: PipelineStep<P>,
    other_after: PipelineStep<P>,
)
    requires
        call_ensures(
            Metal4Server::<P>::compiled,
            (server, id, cube_dim, Ok::<P, String>(pipeline)),
            r,
        ),
        before@ == old(server)@,
        after@ == final(server)@,
        other != id,
        call_ensures(Metal4Server::<P>::pipeline, (after, id), found),
        call_ensures(Metal4Server::<P>::pipeline, (before, other), other_before),
        call_ensures(Metal4Server::<P>::pipeline, (after, other), other_after),
    ensures
        r matches PipelineStep::Ready { pipeline: p, cube_dim: d } && p == pipeline && d == cube_dim,
        found == r,
        other_after == other_before,
        after@.streams_pool == before@.streams_pool,
{
}

/// A kernel that failed to compile is not there, and the reason comes back as it was given.
pub proof fn law_failed_kernel_is_not_kept<P: Copy>(
    server: &mut Metal4Server<P>,
    id: u64,
    cube_dim: CubeDim,
    message: String,
    r: PipelineStep<P>,
)
    requires
        call_ensures(
            Metal4Server::<P>::compiled,
            (server, id, cube_dim, Err::<P, String>(message)),
            r,
        ),
    ensures
        r == PipelineStep::<P>::Failed(message),
        final(server)@ == old(server)@,
{
}

/// A new server has no pipeline under any number: each kernel is generated first.
pub proof fn law_new_server_has_no_pipeline<P: Copy>(
    server: Metal4Server<P>,
    id: u64,
    r: PipelineStep<P>,
)
    requires
        call_ensures(Metal4Server::<P>::new, (), server),
        call_ensures(Metal4Server::<P>::pipeline, (&server, id), r),
    ensures
        r is Generate,
        server@.streams_pool.len() == 0,
{
}

/// A generated kernel is compiled as it was generated. Of one that was not, the message ends with
/// the reason.
pub proof fn law_generated_kernel_is_compiled<P: Copy>(
    server: &Metal4Server<P>,
    outcome: Result<CompiledKernel, String>,
    r: PipelineStep<P>,
)
    requires
        call_ensures(Metal4Server::<P>::generated, (server, outcome), r),
    ensures
        outcome matches Ok(kernel) ==> r == PipelineStep::<P>::Compile(kernel),
        outcome matches Err(reason) ==> (r matches PipelineStep::Failed(message) && message@.len()
            >= reason@.len() && message@.skip(message@.len() - reason@.len()) == reason@),
{
    if outcome is Err {
        let reason = outcome->Err_0@;
        let message = r->Failed_0@;
        assert(message.skip(message.len() - reason.len()) =~= reason);
    }
}

/// A launch with a pipeline is registered on its own stream, behind the stream of each buffer, and
/// one without is refused there with the reason.
pub proof fn law_launch_is_registered_on_its_stream<P: Copy, Q, M>(
    server: &Metal4Server<P>,
    stream: StreamId,
    ready: Result<(Q, CubeDim), String>,
    cube_count: [u32; 3],
    arguments: KernelArguments<M>,
    resources: Vec<Metal4Resource>,
    r: LaunchStep<Q, M>,
)
    requires
        call_ensures(
            Metal4Server::<P>::finish_launch::<Q, M>,
            (server, stream, ready, cube_count, arguments, resources),
            r,
        ),
    ensures
        ready matches Ok((pipeline, cube_dim)) ==> (r matches LaunchStep::Register {
            stream: on,
            task,
            streams,
        } && {
            &&& on == stream
            &&& streams@.len() == arguments.buffers@.len()
            &&& forall|i: int|
                0 <= i < arguments.buffers@.len() ==> #[trigger] streams@[i]
                    == arguments.buffers@[i].stream
            &&& task matches ScheduleTask::Execute { pipeline: p, cube_dim: d, cube_count: c, bindings }
                && p == pipeline && d.x == cube_dim.x && d.y == cube_dim.y && d.z == cube_dim.z
                && c@ == cube_count@ && bindings.resources@ == resources@ && bindings.info@
                == arguments.info@
        }),
        ready matches Err(message) ==> (r matches LaunchStep::Refuse { stream: on, error } && on
            == stream && error.says() == ServerErrorView::Io(
            IoErrorView::Unknown { description: message@ },
        )),
{
}

/// A resource is resolved on the asking stream and then on that of its memory. No stream occurs
/// twice.
pub proof fn law_resource_is_resolved_on_both_streams<M>(
    binding: &Binding<M>,
    stream_id: StreamId,
    r: Vec<StreamId>,
)
    requires
        call_ensures(get_resource_streams::<M>, (binding, stream_id), r),
    ensures
        r@.len() >= 1,
        r@[0] == stream_id,
        r@.contains(binding.stream),
        r@.no_duplicates(),
        forall|i: int|
            0 <= i < r@.len() ==> #[trigger] r@[i] == stream_id || r@[i] == binding.stream,
{
    if binding.stream == stream_id {
        assert(r@[0] == binding.stream);
    } else {
        assert(r@[1] == binding.stream);
    }
}

/// The streams of a read are the asking one and that of each tensor, none twice and no other.
pub proof fn law_read_takes_each_stream_once<M>(
    stream_id: StreamId,
    descriptors: &[CopyDescriptor<M>],
    r: Vec<StreamId>,
)
    requires
        call_ensures(read_streams::<M>, (stream_id, descriptors), r),
    ensures
        r@.len() >= 1,
        r@[0] == stream_id,
        r@.no_duplicates(),
        forall|i: int|
            0 <= i < descriptors@.len() ==> r@.contains(
                #[trigger] descriptors@[i].handle.stream,
            ),
        forall|k: int|
            1 <= k < r@.len() ==> exists|i: int|
                0 <= i < descriptors@.len() && #[trigger] descriptors@[i].handle.stream
                    == #[trigger] r@[k],
{
    law_read_streams_complete(stream_id, descriptors@);
}

/// A tensor that was read comes behind those before it, which stay; one that was not ends the
/// read with its own error.
pub proof fn law_read_tensor_comes_last(
    out: &mut Vec<Vec<u8>>,
    tensor: Result<Vec<u8>, IoError>,
    r: Result<(), ServerError>,
)
    requires
        call_ensures(read_one, (out, tensor), r),
    ensures
        r is Ok <==> tensor is Ok,
        tensor matches Ok(bytes) ==> {
            &&& final(out)@.len() == old(out)@.len() + 1
            &&& final(out)@.last() == bytes
            &&& forall|i: int|
                0 <= i < old(out)@.len() ==> #[trigger] final(out)@[i] == old(out)@[i]
        },
        tensor matches Err(error) ==> final(out)@ == old(out)@ && r->Err_0.says()
            == ServerErrorView::Io(error@),
{
}

/// The scheduler has as many streams as asked for, and interleaves up to 64 tasks of them.
pub proof fn law_scheduler_has_the_streams(max_streams: u8, r: SchedulerOptions)
    requires
        call_ensures(scheduler_options, (max_streams,), r),
    ensures
        r.max_streams == max_streams,
        r.max_tasks == 64,
        r.strategy == SchedulerStrategy::Interleave,
{
}

/// Contiguous strides end with one, and each is the next one times the extent there.
pub proof fn law_strides_multiply_extents(shape: &[usize], r: Vec<usize>)
    requires
        call_ensures(contiguous_strides, (shape,), r),
    ensures
        r@.len() == shape@.len(),
        shape@.len() > 0 ==> r@.last() == 1,
        forall|i: int| 0 <= i < shape@.len() - 1 ==> #[trigger] r@[i] == shape@[i + 1] * r@[i + 1],
{
    assert forall|i: int| 0 <= i < shape@.len() - 1 implies #[trigger] r@[i] == shape@[i + 1]
        * r@[i + 1] by {
        law_contiguous_steps(shape@, r@, i);
    }
    if shape@.len() > 0 {
        law_contiguous_steps(shape@, r@, shape@.len() - 1);
    }
}

/// A run of writes takes them in the order in which they were given: the next step is about the
/// first of them, which it hands on as it is or refuses on its own stream for its strides.
pub proof fn law_next_write_is_the_first<P, M>(writes: &mut Writes<M>, r: WriteStep<P, M>)
    requires
        call_ensures(Writes::<M>::next::<P>, (writes,), r),
    ensures
        old(writes)@.rest.len() == 0 <==> r is Finished,
        match r {
            WriteStep::Finished => final(writes)@ == old(writes)@,
            WriteStep::Resolve { handle, data } => {
                &&& handle == old(writes)@.rest[0].0.handle
                &&& data == old(writes)@.rest[0].1
                &&& final(writes)@.rest.len() == old(writes)@.rest.len() - 1
                &&& forall|i: int|
                    0 <= i < final(writes)@.rest.len() ==> #[trigger] final(writes)@.rest[i] == old(
                        writes,
                    )@.rest[i + 1]
            },
            WriteStep::Refuse { stream, error } => {
                &&& stream == old(writes)@.rest[0].0.handle.stream
                &&& error.says() == ServerErrorView::Io(IoErrorView::UnsupportedStrides)
                &&& final(writes)@.rest.len() == 0
            },
            WriteStep::Register { .. } => false,
        },
        final(writes)@.stream == old(writes)@.stream,
{
}

/// A write whose memory was resolved is registered on the stream of the call with that memory and
/// its data. One whose memory was not is refused on the stream of the memory, and ends the run.
pub proof fn law_resolved_write_is_registered<P, M>(
    writes: &mut Writes<M>,
    owner: StreamId,
    resource: Result<Metal4Resource, IoError>,
    data: Vec<u8>,
    r: WriteStep<P, M>,
)
    requires
        call_ensures(Writes::<M>::resolved::<P>, (writes, owner, resource, data), r),
    ensures
        resource matches Ok(to) ==> {
            &&& r matches WriteStep::Register { stream, task } && stream == old(writes)@.stream
                && (task matches ScheduleTask::Write { resource: at, data: what } && at == to
                && what == data)
            &&& final(writes)@ == old(writes)@
        },
        resource matches Err(error) ==> {
            &&& r matches WriteStep::Refuse { stream, error: e } && stream == owner && e.says()
                == ServerErrorView::Io(error@)
            &&& final(writes)@.rest.len() == 0
        },
{
}

/// The bindings of a launch are the resources as they were resolved, the memory of each buffer in
/// slot order, and the metadata as it was given.
pub proof fn law_bindings_take_over_arguments<M>(
    arguments: KernelArguments<M>,
    resources: Vec<Metal4Resource>,
    r: BindingsResource<M>,
)
    requires
        call_ensures(prepare_bindings::<M>, (arguments, resources), r),
    ensures
        r.resources@ == resources@,
        r.info@ == arguments.info@,
        r.handles@.len() == arguments.buffers@.len(),
        forall|i: int|
            0 <= i < arguments.buffers@.len() ==> #[trigger] r.handles@[i]
                == arguments.buffers@[i].memory,
{
}

/// A shape fits exactly where it has a dimension and each of its contiguous strides can be written
/// down.
pub proof fn law_shape_fits_with_its_strides(shape: &[usize], r: bool, i: int)
    requires
        call_ensures(shape_fits, (shape,), r),
    ensures
        r ==> shape@.len() >= 1,
        r && 0 <= i < shape@.len() ==> product(shape@.skip(i + 1)) <= usize::MAX,
        !r ==> shape@.len() == 0 || exists|j: int|
            0 <= j < shape@.len() && product(#[trigger] shape@.skip(j + 1)) > usize::MAX,
{
    if r && 0 <= i < shape@.len() {
        assert(contiguous_stride(shape@, i) <= usize::MAX);
    }
}

} // verus!
