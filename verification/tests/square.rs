//! `square_array` end to end, with a host that carries out the encoded commands on its own memory
//! in place of the device.

use cubecl_metal4::buffer::Buffer;
use cubecl_metal4::context::{
    Batch, CompileStage, CompileStep, EncoderCommand, Metal4, OpenStep,
};
use cubecl_metal4::server::{
    Binding, CopyDescriptor, CubeCount, KernelArguments, LaunchStep, Metal4Server, PipelineStep,
    StreamId, WriteStep, Writes,
};
use cubecl_metal4::storage::{Metal4Storage, StorageHandle};
use cubecl_metal4::stream::{do_write, CommitStep, CubeDim, Metal4Stream, ScheduleTask, TaskStep};

const BASE: u64 = 0x10_0000;

/// Memory that host and device address alike, and a kernel that squares its first buffer into its
/// second.
struct Host {
    memory: Vec<u8>,
    table: Vec<u64>,
}

impl Host {
    fn new() -> Self {
        Host { memory: vec![], table: vec![] }
    }

    fn reserve(&mut self, bytes: usize) -> (u64, usize) {
        let at = self.memory.len();
        self.memory.resize(at + bytes, 0);
        (BASE + at as u64, at)
    }

    fn at(&self, address: u64, i: usize) -> usize {
        (address - BASE) as usize + 4 * i
    }

    fn carry_out(&mut self, commands: &[EncoderCommand]) {
        for command in commands {
            match *command {
                EncoderCommand::SetAddress { address, slot } => {
                    assert_eq!(slot, self.table.len());
                    self.table.push(address);
                }
                EncoderCommand::Dispatch { groups, threads } => {
                    let n = (groups.0 * threads.0 * groups.1 * threads.1 * groups.2 * threads.2)
                        as usize;
                    for i in 0..n {
                        let (from, to) = (self.at(self.table[0], i), self.at(self.table[1], i));
                        let x = f32::from_ne_bytes(self.memory[from..from + 4].try_into().unwrap());
                        self.memory[to..to + 4].copy_from_slice(&(x * x).to_ne_bytes());
                    }
                    self.table.clear();
                }
                _ => {}
            }
        }
    }

    fn floats(&self, at: usize, n: usize) -> Vec<f32> {
        self.memory[at..at + 4 * n]
            .chunks(4)
            .map(|bytes| f32::from_ne_bytes(bytes.try_into().unwrap()))
            .collect()
    }
}

fn as_bytes(values: &[f32]) -> Vec<u8> {
    values.iter().flat_map(|x| x.to_ne_bytes()).collect()
}

fn opened(context: &mut Metal4<u8>) -> Batch<u8, (), ()> {
    let mut step: OpenStep<u8, (), ()> = context.open_batch(false);
    loop {
        step = match step {
            OpenStep::CreateAllocator => OpenStep::allocator_created(Some(2)),
            OpenStep::CreateCommandBuffer { allocator } => {
                OpenStep::command_buffer_created(allocator, Some(()))
            }
            OpenStep::BeginEncoder { allocator, cb } => {
                OpenStep::encoder_created(allocator, cb, Some(()))
            }
            OpenStep::Opened(batch) => return batch,
            OpenStep::Failed(message) => panic!("{message}"),
        };
    }
}

fn assert_squares(input: &[f32], out: &[f32]) {
    assert_eq!(input.len(), out.len());
    for (i, &x) in input.iter().enumerate() {
        let expect = x * x;
        assert!(
            (out[i] - expect).abs() <= 1e-3 * (1.0 + expect.abs()),
            "out[{i}] = {} expected {expect}",
            out[i]
        );
    }
}

#[test]
fn square_array() {
    let mut host = Host::new();
    let mut m4 = Metal4::new(1u8, 1_000_000_000, 8);

    let n = 1024usize; // multiple of threadgroup size, so an exact grid
    let input: Vec<f32> = (0..n).map(|i| (i as f32) * 0.5 - 100.0).collect();
    let data = as_bytes(&input);

    let (address, at) = host.reserve(m4.alloc_length(data.len()));
    let contents = &mut host.memory[at..at + data.len()];
    let in_buf = m4.buffer_from((), address, at, contents, &data);
    let bytes = n * core::mem::size_of::<f32>();
    let (address, at) = host.reserve(m4.alloc_length(bytes));
    let out_buf = Buffer::new((), address, at, bytes);
    let mut stage = CompileStage::first();
    while let CompileStep::Create(next) = stage.created("square", Ok(())) {
        stage = next;
    }
    assert!(matches!(stage.created("square", Ok(())), CompileStep::Ready));

    let threads = 256u32;
    let groups = (n as u32) / threads;
    let batch = opened(&mut m4);
    let encoded = m4
        .dispatch(batch, Ok(()), &[&in_buf, &out_buf], (groups, 1, 1), (threads, 1, 1))
        .expect("dispatch");
    host.carry_out(&encoded.commands);
    let signal = encoded.submission.signal;
    let allocator = encoded.submission.retired(true, signal).expect("retired");
    m4.recycle(allocator, false);

    assert_eq!(out_buf.slice_len(4), n);
    let out = host.floats(out_buf.contents_ptr(), out_buf.slice_len(4));
    assert_squares(&input, &out);
}

/// The launch path of the server: write, launch, commit and read back.
#[test]
fn cube_square_array() {
    let mut host = Host::new();
    let mut context = Metal4::new(1u8, 1_000_000_000, 8);
    let mut storage: Metal4Storage<()> = Metal4Storage::new(256);
    let mut server: Metal4Server<u8> = Metal4Server::new();
    let mut stream: Metal4Stream<u8, (), (), (), u64> = Metal4Stream::new();
    let stream_id = StreamId { value: 1 };

    let n = 1024usize;
    let input: Vec<f32> = (0..n).map(|i| (i as f32) * 0.5 - 50.0).collect();
    let mut tensors: Vec<StorageHandle> = vec![];
    for id in 0..2u64 {
        let (address, at) = host.reserve(4 * n);
        tensors.push(storage.allocated(id, Buffer::new((), address, at, 4 * n), 4 * n as u64));
    }
    let binding = |memory: u64| Binding {
        memory,
        offset_start: None,
        offset_end: None,
        stream: stream_id,
    };

    let descriptor = CopyDescriptor { handle: binding(0), shape: vec![n], strides: vec![1] };
    let mut writes = Writes::new(stream_id, vec![(descriptor, as_bytes(&input))]);
    assert!(writes.next_fits());
    let mut step: WriteStep<u8, u64> = writes.next();
    loop {
        step = match step {
            WriteStep::Finished => break,
            WriteStep::Resolve { handle, data } => {
                let resource = storage.get(&tensors[handle.memory as usize]);
                writes.resolved(handle.stream, Ok(resource), data)
            }
            WriteStep::Register { stream: on, task } => {
                assert_eq!(on, stream_id);
                match stream.enqueue_task(task) {
                    TaskStep::Copy { resource, data } => {
                        let to = resource.ptr..resource.ptr + resource.size;
                        do_write(&mut host.memory[to], &data);
                    }
                    _ => panic!("a write is copied"),
                }
                writes.next()
            }
            WriteStep::Refuse { error, .. } => panic!("{error:?}"),
        };
    }

    let count: CubeCount<u64> = CubeCount::Static((n / 256) as u32, 1, 1);
    let arguments = KernelArguments { buffers: vec![binding(0), binding(1)], info: vec![] };
    let cube_count = server.launch(&count, &arguments);
    assert!(matches!(server.pipeline(7), PipelineStep::Generate));
    let ready = match server.compiled(7, CubeDim { x: 256, y: 1, z: 1 }, Ok(5)) {
        PipelineStep::Ready { pipeline, cube_dim } => Ok((pipeline, cube_dim)),
        _ => panic!("the kernel is compiled"),
    };
    let resources = tensors.iter().map(|handle| storage.get(handle)).collect();
    let task: ScheduleTask<u8, u64> =
        match server.finish_launch(stream_id, ready, cube_count, arguments, resources) {
            LaunchStep::Register { stream: on, task, streams } => {
                assert_eq!((on, streams), (stream_id, vec![stream_id, stream_id]));
                task
            }
            LaunchStep::Refuse { error, .. } => panic!("{error:?}"),
        };
    let mut step = stream.enqueue_task(task);
    loop {
        step = match step {
            TaskStep::OpenBatch { launch } => {
                let batch = opened(&mut context);
                stream.batch_opened(launch, Ok(batch))
            }
            TaskStep::CreateTable { launch, slots } => {
                assert_eq!(slots, 2);
                stream.table_created(&context, launch, Ok(()))
            }
            TaskStep::Encode { pipeline, commands } => {
                assert_eq!(pipeline, 5);
                host.carry_out(&commands);
                break;
            }
            _ => panic!("the launch reaches its batch"),
        };
    }
    match stream.commit(&mut context) {
        CommitStep::Submit(submission) => {
            let signal = submission.signal;
            let allocator = submission.retired(true, signal).expect("retired");
            context.recycle(allocator, false);
            assert_eq!(stream.commit_retired(Ok(())), Ok(()));
        }
        CommitStep::Idle => panic!("the launch is pending"),
    }

    let resource = storage.get(&tensors[1]);
    let out = host.floats(resource.ptr, resource.size / 4);
    assert_squares(&input, &out);
}
