use cubecl_metal4::buffer::Buffer;
use cubecl_metal4::context::{EncoderCommand, Metal4, OpenStep};
use cubecl_metal4::error::{duplicate_all, IoError, ServerError};
use cubecl_metal4::storage::Metal4Resource;
use cubecl_metal4::stream::{
    do_write, read_sync, BindingsResource, CommitStep, CubeDim, Metal4Stream, ScheduleTask,
    StreamErrorMode, TaskStep,
};

type Stream = Metal4Stream<u8, (), (), Vec<u8>, std::rc::Rc<()>>;
type Task = ScheduleTask<u8, std::rc::Rc<()>>;

const RESOURCE: Metal4Resource = Metal4Resource { gpu_address: 64, ptr: 0, size: 1024 };

fn launch(info: Vec<u64>, handle: &std::rc::Rc<()>) -> Task {
    ScheduleTask::Execute {
        pipeline: 5,
        cube_dim: CubeDim { x: 256, y: 1, z: 1 },
        cube_count: [1, 1, 1],
        bindings: BindingsResource {
            resources: vec![RESOURCE],
            handles: vec![handle.clone()],
            info,
        },
    }
}

/// A device on which every call succeeds, and which remembers what was encoded and uploaded.
struct HostDevice {
    context: Metal4<u8>,
    encoded: Vec<EncoderCommand>,
    uploads: Vec<Vec<u8>>,
}

impl HostDevice {
    fn new() -> Self {
        HostDevice { context: Metal4::new(1, 1_000_000_000, 8), encoded: vec![], uploads: vec![] }
    }

    fn carry_out(&mut self, stream: &mut Stream, task: Task) {
        let mut step = stream.enqueue_task(task);
        loop {
            step = match step {
                TaskStep::Done | TaskStep::Copy { .. } => return,
                TaskStep::UploadInfo { launch, bytes } => {
                    self.uploads.push(bytes.clone());
                    let len = bytes.len();
                    stream.info_uploaded(launch, Buffer::new(bytes, 9000, 0, len))
                }
                TaskStep::OpenBatch { launch } => {
                    let allocator = match self.context.open_batch(false) as OpenStep<u8, (), ()> {
                        OpenStep::CreateCommandBuffer { allocator } => allocator,
                        _ => 99,
                    };
                    match OpenStep::encoder_created(allocator, (), Some(())) {
                        OpenStep::Opened(batch) => stream.batch_opened(launch, Ok(batch)),
                        _ => panic!("the encoder is there"),
                    }
                }
                TaskStep::CreateTable { launch, slots } => {
                    assert_eq!(slots, launch.addresses.len().max(1));
                    stream.table_created(&self.context, launch, Ok(()))
                }
                TaskStep::Encode { pipeline, commands } => {
                    assert_eq!(pipeline, 5);
                    self.encoded.extend(commands);
                    return;
                }
            };
        }
    }

    fn commit(&mut self, stream: &mut Stream, completed: bool) -> Result<(), String> {
        match stream.commit(&mut self.context) {
            CommitStep::Idle => Ok(()),
            CommitStep::Submit(submission) => {
                let signal = submission.signal;
                match submission.retired(completed, signal - 1) {
                    Ok(allocator) => {
                        self.context.recycle(allocator, false);
                        stream.commit_retired(Ok(()))
                    }
                    Err(message) => stream.commit_retired(Err(message)),
                }
            }
        }
    }
}

fn unknown(error: &ServerError) -> &str {
    match error {
        ServerError::Io(IoError::Unknown { description }) => description,
        _ => panic!("{error:?}"),
    }
}

/// A hundred dependent launches on one stream and one read: each dispatch after the first waits
/// for the one before it, and the queue commits far fewer than a hundred times.
#[test]
fn cube_batching_proof() {
    let mut device = HostDevice::new();
    let mut stream = Stream::new();
    let handle = std::rc::Rc::new(());
    let n = 256usize;
    let base: Vec<f32> = (0..n).map(|i| i as f32).collect();
    let iters = 100u32;
    let commits_before = device.context.commit_count();
    for _ in 0..iters {
        device.carry_out(&mut stream, launch(vec![], &handle));
    }
    assert_eq!(device.commit(&mut stream, true), Ok(()));
    let commits = device.context.commit_count() - commits_before;

    let mut out = base.clone();
    let mut waited = true;
    for command in &device.encoded {
        match command {
            EncoderCommand::Barrier => waited = true,
            EncoderCommand::Dispatch { groups, threads } => {
                assert_eq!((*groups, *threads), ((1, 1, 1), (n as u32, 1, 1)));
                assert!(waited, "dispatch does not wait for the one before it");
                out.iter_mut().for_each(|x| *x += 1.0);
                waited = false;
            }
            _ => {}
        }
    }
    for (i, &b) in base.iter().enumerate() {
        assert_eq!(out[i], b + iters as f32, "elem {i}: dependency/barrier broken");
    }
    assert!(commits < iters as u64, "not batched: {commits} commits for {iters} dispatches");
    assert_eq!(commits, 1);
}

#[test]
fn pinned_memory_is_held_until_the_commit() {
    let mut device = HostDevice::new();
    let mut stream = Stream::new();
    let handle = std::rc::Rc::new(());
    device.carry_out(&mut stream, launch(vec![], &handle));
    device.carry_out(&mut stream, launch(vec![], &handle));
    assert_eq!(std::rc::Rc::strong_count(&handle), 3);
    assert_eq!(stream.open_batch().map(|batch| batch.dispatches()), Some(2));
    assert_eq!(device.commit(&mut stream, true), Ok(()));
    assert_eq!(std::rc::Rc::strong_count(&handle), 1);
    assert!(stream.open_batch().is_none());
}

#[test]
fn timed_out_commit_keeps_memory_pinned() {
    let mut device = HostDevice::new();
    let mut stream = Stream::new();
    let handle = std::rc::Rc::new(());
    device.carry_out(&mut stream, launch(vec![], &handle));
    let ended = device.commit(&mut stream, false);
    assert_eq!(
        ended,
        Err(String::from("batch commit timed out after 30000 ms (event at 0)"))
    );
    assert_eq!(std::rc::Rc::strong_count(&handle), 2);
    assert!(stream.is_healthy());
    match read_sync(ended.clone()) {
        Err(IoError::Unknown { description }) => assert!(description.contains("timed out")),
        _ => panic!("a read after a failed commit fails"),
    }
    match stream.sync(ended) {
        Err(ServerError::ServerUnhealthy { errors }) => {
            assert_eq!(errors.len(), 1);
            assert!(unknown(&errors[0]).starts_with("batch commit timed out"));
        }
        _ => panic!("a failed commit is reported"),
    }
    assert!(read_sync(Ok(())).is_ok());
}

#[test]
fn metadata_is_bound_last() {
    let mut device = HostDevice::new();
    let mut stream = Stream::new();
    let handle = std::rc::Rc::new(());
    let info = vec![0x0102_0304_0506_0708u64, 9];
    device.carry_out(&mut stream, launch(info.clone(), &handle));
    let expected: Vec<u8> = info.iter().flat_map(|word| word.to_ne_bytes()).collect();
    assert_eq!(device.uploads, vec![expected]);
    assert_eq!(
        device.encoded,
        vec![
            EncoderCommand::SetAddress { address: 64, slot: 0 },
            EncoderCommand::SetAddress { address: 9000, slot: 1 },
            EncoderCommand::SetPipeline,
            EncoderCommand::SetArgumentTable,
            EncoderCommand::Dispatch { groups: (1, 1, 1), threads: (256, 1, 1) },
        ]
    );
}

#[test]
fn nothing_pending_commits_nothing() {
    let mut device = HostDevice::new();
    let mut stream = Stream::new();
    assert_eq!(device.commit(&mut stream, true), Ok(()));
    assert_eq!(device.context.commit_count(), 0);
    assert!(stream.sync(Ok(())).is_ok());
}

#[test]
fn failed_table_makes_the_stream_unhealthy() {
    let mut device = HostDevice::new();
    let mut stream = Stream::new();
    let handle = std::rc::Rc::new(());
    let mut step = stream.enqueue_task(launch(vec![], &handle));
    if let TaskStep::OpenBatch { launch } = step {
        match OpenStep::encoder_created(1, (), Some(())) {
            OpenStep::Opened(batch) => step = stream.batch_opened(launch, Ok(batch)),
            _ => panic!("the encoder is there"),
        }
    } else {
        panic!("no batch is open yet");
    }
    match step {
        TaskStep::CreateTable { launch, .. } => {
            let done = stream.table_created(&device.context, launch, Err(String::from("full")));
            assert!(matches!(done, TaskStep::Done));
        }
        _ => panic!("a launch needs a table"),
    }
    assert!(!stream.is_healthy());
    assert!(matches!(stream.enqueue_task(launch(vec![], &handle)), TaskStep::Done));
    assert_eq!(std::rc::Rc::strong_count(&handle), 2);
    assert_eq!(device.commit(&mut stream, true), Ok(()));
    assert_eq!(device.context.commit_count(), 0);
    assert_eq!(std::rc::Rc::strong_count(&handle), 1);
    match stream.sync(Ok(())) {
        Err(ServerError::ServerUnhealthy { errors }) => {
            assert_eq!(unknown(&errors[0]), "argument table creation failed: full");
        }
        _ => panic!("the error is reported"),
    }
}

#[test]
fn failed_batch_makes_the_stream_unhealthy() {
    let mut stream = Stream::new();
    let handle = std::rc::Rc::new(());
    match stream.enqueue_task(launch(vec![], &handle)) {
        TaskStep::OpenBatch { launch } => {
            let failed = Err(String::from("allocator pool poisoned"));
            assert!(matches!(stream.batch_opened(launch, failed), TaskStep::Done));
        }
        _ => panic!("no batch is open yet"),
    }
    assert!(!stream.is_healthy());
    assert!(stream.open_batch().is_none());
    assert_eq!(std::rc::Rc::strong_count(&handle), 2);
}

#[test]
fn errors_are_reported_unless_ignored() {
    let mut stream = Stream::new();
    stream.error(ServerError::Io(IoError::UnsupportedStrides));
    stream.flush_scheduled(Err(String::from("late")));
    let ignoring = StreamErrorMode { ignore: true, flush: true };
    assert!(stream.flush(Ok(()), ignoring).is_ok());
    let reporting = StreamErrorMode { ignore: false, flush: false };
    for _ in 0..2 {
        match stream.flush(Ok(()), reporting) {
            Err(ServerError::ServerUnhealthy { errors }) => {
                assert_eq!(errors.len(), 2);
                assert!(matches!(errors[0], ServerError::Io(IoError::UnsupportedStrides)));
                assert_eq!(unknown(&errors[1]), "late");
            }
            _ => panic!("errors stay recorded"),
        }
    }
}

#[test]
fn writes_are_copied_as_far_as_they_fit() {
    let mut stream = Stream::new();
    let task: Task = ScheduleTask::Write { resource: RESOURCE, data: vec![1, 2, 3, 4, 5, 6] };
    assert_eq!(task.debug_text(), "Write");
    assert_eq!(format!("{task:?} {stream:?}"), "Write Metal4Stream");
    match stream.enqueue_task(task) {
        TaskStep::Copy { resource, data } => {
            assert_eq!(resource, RESOURCE);
            let mut contents = [0u8; 4];
            do_write(&mut contents, &data);
            assert_eq!(contents, [1, 2, 3, 4]);
            do_write(&mut contents, &[9]);
            assert_eq!(contents, [9, 2, 3, 4]);
        }
        _ => panic!("a write is copied"),
    }
}

#[test]
fn unhealthy_reports_can_be_nested() {
    let inner = ServerError::ServerUnhealthy {
        errors: vec![ServerError::unknown(String::from("first"))],
    };
    let errors = vec![inner, ServerError::Io(IoError::UnsupportedIoOperation)];
    let copies = duplicate_all(&errors);
    assert_eq!(copies.len(), 2);
    match &copies[0] {
        ServerError::ServerUnhealthy { errors } => assert_eq!(unknown(&errors[0]), "first"),
        _ => panic!("the report is copied whole"),
    }
    assert!(matches!(copies[1], ServerError::Io(IoError::UnsupportedIoOperation)));
    assert!(matches!(
        IoError::Memory { description: String::from("x") }.duplicate(),
        IoError::Memory { .. }
    ));
}

#[test]
fn next_commit_lets_go_of_what_timed_out() {
    let mut device = HostDevice::new();
    let mut stream = Stream::new();
    let handle = std::rc::Rc::new(());
    device.carry_out(&mut stream, launch(vec![1], &handle));
    assert!(device.commit(&mut stream, false).is_err());
    device.carry_out(&mut stream, launch(vec![], &handle));
    assert_eq!(std::rc::Rc::strong_count(&handle), 3);
    assert_eq!(device.commit(&mut stream, true), Ok(()));
    assert_eq!(std::rc::Rc::strong_count(&handle), 1);
    assert_eq!(device.context.commit_count(), 2);

    device.carry_out(&mut stream, launch(vec![], &handle));
    assert!(device.commit(&mut stream, false).is_err());
    assert_eq!(std::rc::Rc::strong_count(&handle), 2);
    assert_eq!(device.commit(&mut stream, true), Ok(()));
    assert_eq!(std::rc::Rc::strong_count(&handle), 1);
    assert_eq!(device.context.commit_count(), 3);
}
