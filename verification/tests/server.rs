use cubecl_metal4::error::{IoError, ServerError};
use cubecl_metal4::server::{
    contiguous_strides, get_resource_streams, launch_task, prepare_bindings, read_one,
    read_streams, scheduler_options, shape_fits, staging, Binding, CompiledKernel, CopyDescriptor,
    CubeCount, KernelArguments, LaunchStep, Metal4Server, PipelineStep, SchedulerStrategy, StreamId,
    WriteStep, Writes,
};
use cubecl_metal4::storage::Metal4Resource;
use cubecl_metal4::stream::{CubeDim, ScheduleTask};

const RESOURCE: Metal4Resource = Metal4Resource { gpu_address: 64, ptr: 128, size: 4 };
const UNIT: CubeDim = CubeDim { x: 32, y: 1, z: 1 };

fn id(value: u64) -> StreamId {
    StreamId { value }
}

fn binding(memory: char, stream: u64) -> Binding<char> {
    Binding { memory, offset_start: None, offset_end: None, stream: id(stream) }
}

fn descriptor(stream: u64, shape: &[usize], strides: &[usize]) -> CopyDescriptor<char> {
    CopyDescriptor {
        handle: binding('m', stream),
        shape: shape.to_vec(),
        strides: strides.to_vec(),
    }
}

#[test]
fn strides_of_contiguous_shapes() {
    assert_eq!(contiguous_strides(&[2, 3, 4]), vec![12, 4, 1]);
    assert_eq!(contiguous_strides(&[7]), vec![1]);
    assert_eq!(contiguous_strides(&[5, 0, 3]), vec![0, 3, 1]);
    let (shape, strides) = ([2, 3, 4], contiguous_strides(&[2, 3, 4]));
    let last: usize = (0..3).map(|i| (shape[i] - 1) * strides[i]).sum();
    assert_eq!(last + 1, 24);
}

#[test]
fn contiguous_writes_are_registered_in_order() {
    let mut writes = Writes::new(id(8), vec![
        (descriptor(3, &[2, 2], &[2, 1]), vec![1]),
        (descriptor(4, &[4], &[1]), vec![2]),
    ]);
    for (stream, byte) in [(3, 1u8), (4, 2u8)] {
        let step: WriteStep<u8, char> = writes.next();
        let (handle, data) = match step {
            WriteStep::Resolve { handle, data } => (handle, data),
            _ => panic!("the write is admitted"),
        };
        assert_eq!((handle.stream, data.clone()), (id(stream), vec![byte]));
        let step: WriteStep<u8, char> = writes.resolved(handle.stream, Ok(RESOURCE), data);
        match step {
            WriteStep::Register { stream, task: ScheduleTask::Write { resource, data } } => {
                assert_eq!((stream, resource, data), (id(8), RESOURCE, vec![byte]));
            }
            _ => panic!("the write is registered"),
        }
    }
    assert!(matches!(writes.next() as WriteStep<u8, char>, WriteStep::Finished));
}

#[test]
fn strided_write_stops_the_call() {
    let mut writes = Writes::new(id(8), vec![
        (descriptor(3, &[2, 2], &[1, 2]), vec![1]),
        (descriptor(4, &[4], &[1]), vec![2]),
    ]);
    match writes.next() as WriteStep<u8, char> {
        WriteStep::Refuse { stream, error } => {
            assert_eq!(stream, id(3));
            assert!(matches!(error, ServerError::Io(IoError::UnsupportedStrides)));
        }
        _ => panic!("strided tensors are refused"),
    }
    assert!(matches!(writes.next() as WriteStep<u8, char>, WriteStep::Finished));
    let mut short = Writes::new(id(8), vec![(descriptor(3, &[2, 2], &[1]), vec![1])]);
    assert!(matches!(short.next() as WriteStep<u8, char>, WriteStep::Refuse { .. }));
}

#[test]
fn unresolved_write_stops_the_call() {
    let mut writes = Writes::new(id(8), vec![
        (descriptor(3, &[4], &[1]), vec![1]),
        (descriptor(4, &[4], &[1]), vec![2]),
    ]);
    assert!(matches!(writes.next() as WriteStep<u8, char>, WriteStep::Resolve { .. }));
    let missing = IoError::Memory { description: String::from("gone") };
    match writes.resolved(id(3), Err(missing), vec![1]) as WriteStep<u8, char> {
        WriteStep::Refuse { stream, error: ServerError::Io(IoError::Memory { description }) } => {
            assert_eq!((stream, description.as_str()), (id(3), "gone"));
        }
        _ => panic!("the error is passed on"),
    }
    assert!(matches!(writes.next() as WriteStep<u8, char>, WriteStep::Finished));
}

#[test]
fn reads_wait_for_each_stream_once() {
    let descriptors = [5, 3, 5, 1, 3].map(|stream| descriptor(stream, &[1], &[1]));
    assert_eq!(read_streams(id(3), &descriptors), vec![id(3), id(5), id(1)]);
    let none: [CopyDescriptor<char>; 0] = [];
    assert_eq!(read_streams(id(3), &none), vec![id(3)]);
}

#[test]
fn reads_end_at_the_first_error() {
    let mut out = vec![];
    assert!(read_one(&mut out, Ok(vec![1, 2])).is_ok());
    assert!(read_one(&mut out, Ok(vec![3])).is_ok());
    let failed = read_one(&mut out, Err(IoError::Unknown { description: String::from("late") }));
    match failed {
        Err(ServerError::Io(IoError::Unknown { description })) => assert_eq!(description, "late"),
        _ => panic!("the error is passed on"),
    }
    assert_eq!(out, vec![vec![1, 2], vec![3]]);
}

#[test]
fn resources_wait_for_both_streams() {
    assert_eq!(get_resource_streams(&binding('m', 3), id(3)), vec![id(3)]);
    assert_eq!(get_resource_streams(&binding('m', 4), id(3)), vec![id(3), id(4)]);
}

#[test]
fn staging_is_not_offered() {
    assert!(matches!(staging(), ServerError::Io(IoError::UnsupportedIoOperation)));
}

#[test]
fn scheduler_batches_generously() {
    let options = scheduler_options(4);
    assert_eq!((options.max_streams, options.max_tasks), (4, 64));
    assert_eq!(options.strategy, SchedulerStrategy::Interleave);
}

#[test]
fn launch_notes_streams_and_cubes() {
    let mut server: Metal4Server<u8> = Metal4Server::new();
    let arguments = KernelArguments {
        buffers: vec![binding('a', 9), binding('b', 2), binding('c', 9)],
        info: vec![],
    };
    let count: CubeCount<char> = CubeCount::Static(4, 2, 1);
    assert_eq!(server.launch(&count, &arguments), [4, 2, 1]);
    assert_eq!(*server.streams_pool(), vec![id(9), id(2), id(9)]);
    let arguments = KernelArguments { buffers: vec![binding('a', 1)], info: vec![] };
    server.launch(&count, &arguments);
    assert_eq!(*server.streams_pool(), vec![id(1)]);
}

#[test]
fn pipelines_are_compiled_once() {
    let mut server: Metal4Server<u8> = Metal4Server::new();
    assert_eq!(format!("{server:?}"), "Metal4Server");
    assert!(matches!(server.pipeline(7), PipelineStep::Generate));
    let kernel = CompiledKernel {
        source: String::from("kernel"),
        entrypoint_name: String::from("main"),
        cube_dim: UNIT,
    };
    match server.generated(Ok(kernel)) {
        PipelineStep::Compile(kernel) => assert_eq!(kernel.entrypoint_name, "main"),
        _ => panic!("generated source is compiled"),
    }
    let ready = server.compiled(7, UNIT, Ok(3));
    assert!(matches!(ready, PipelineStep::Ready { pipeline: 3, cube_dim: UNIT }));
    assert!(matches!(server.pipeline(7), PipelineStep::Ready { pipeline: 3, cube_dim: UNIT }));
    assert!(matches!(server.pipeline(8), PipelineStep::Generate));
    server.compiled(8, UNIT, Ok(4));
    let arguments = KernelArguments { buffers: vec![binding('a', 1)], info: vec![] };
    server.launch(&CubeCount::Static(1, 1, 1), &arguments);
    assert!(matches!(server.pipeline(7), PipelineStep::Ready { pipeline: 3, cube_dim: UNIT }));
}

#[test]
fn pipeline_failures_are_not_cached() {
    let mut server: Metal4Server<u8> = Metal4Server::new();
    match server.generated(Err(String::from("no lowering"))) {
        PipelineStep::Failed(message) => assert_eq!(message, "MSL codegen failed: no lowering"),
        _ => panic!("codegen failed"),
    }
    match server.compiled(7, UNIT, Err(String::from("bad source"))) {
        PipelineStep::Failed(message) => assert_eq!(message, "bad source"),
        _ => panic!("compilation failed"),
    }
    assert!(matches!(server.pipeline(7), PipelineStep::Generate));
}

#[test]
fn bindings_keep_their_memory() {
    let arguments = || KernelArguments {
        buffers: vec![binding('a', 1), binding('b', 2)],
        info: vec![5, 6],
    };
    let other = Metal4Resource { gpu_address: 7, ..RESOURCE };
    let bindings = prepare_bindings(arguments(), vec![RESOURCE, other]);
    assert_eq!(bindings.handles, vec!['a', 'b']);
    assert_eq!(bindings.resources, vec![RESOURCE, other]);
    assert_eq!(bindings.info, vec![5, 6]);
    let task = launch_task(3u8, UNIT, [1, 2, 3], arguments(), vec![RESOURCE, other]);
    assert_eq!(
        task.debug_text(),
        "Execute { cube_dim: CubeDim { x: 32, y: 1, z: 1 }, cube_count: [1, 2, 3] }"
    );
    assert_eq!(format!("{task:?}"), task.debug_text());
    assert_eq!(
        format!("{task:#?}"),
        "Execute {\n    cube_dim: CubeDim {\n        x: 32,\n        y: 1,\n        z: 1,\n    },\n    \
         cube_count: [\n        1,\n        2,\n        3,\n    ],\n}"
    );
    match task {
        ScheduleTask::Execute { pipeline, cube_dim, cube_count, bindings } => {
            assert_eq!((pipeline, cube_dim, cube_count), (3, UNIT, [1, 2, 3]));
            assert_eq!(bindings.handles, vec!['a', 'b']);
        }
        _ => panic!("a launch is executed"),
    }
}

#[test]
fn shapes_with_representable_strides() {
    assert!(shape_fits(&[2, 3, 4]));
    assert!(shape_fits(&[usize::MAX, 1]));
    assert!(shape_fits(&[7, usize::MAX]));
    assert!(!shape_fits(&[1, 2, usize::MAX]));
    assert!(!shape_fits(&[]));
    let writes = Writes::new(id(8), vec![(descriptor(1, &[], &[]), vec![])]);
    assert!(!writes.next_fits());
    let writes = Writes::new(id(8), vec![(descriptor(1, &[3], &[1]), vec![])]);
    assert!(writes.next_fits());
    assert!(Writes::<char>::new(id(8), vec![]).next_fits());
}

#[test]
fn launches_end_on_the_launching_stream() {
    let mut server: Metal4Server<u8> = Metal4Server::new();
    let arguments = || KernelArguments {
        buffers: vec![binding('a', 9), binding('b', 2)],
        info: vec![5],
    };
    let count: CubeCount<char> = CubeCount::Static(4, 2, 1);
    let cubes = server.launch(&count, &arguments());
    server.compiled(7, UNIT, Ok(3));
    let resources = vec![RESOURCE, RESOURCE];
    match server.finish_launch(id(6), Ok((3u8, UNIT)), cubes, arguments(), resources) {
        LaunchStep::Register { stream, task, streams } => {
            assert_eq!((stream, streams), (id(6), vec![id(9), id(2)]));
            match task {
                ScheduleTask::Execute { pipeline, cube_dim, cube_count, bindings } => {
                    assert_eq!((pipeline, cube_dim, cube_count), (3, UNIT, [4, 2, 1]));
                    assert_eq!(bindings.handles, vec!['a', 'b']);
                    assert_eq!(bindings.info, vec![5]);
                }
                _ => panic!("a launch is executed"),
            }
        }
        _ => panic!("a launch with a pipeline is registered"),
    }
    let missing: Result<(u8, CubeDim), String> = Err(String::from("bad source"));
    match server.finish_launch(id(6), missing, cubes, arguments(), vec![]) {
        LaunchStep::Refuse { stream, error: ServerError::Io(IoError::Unknown { description }) } => {
            assert_eq!((stream, description.as_str()), (id(6), "bad source"));
        }
        _ => panic!("a launch without a pipeline is refused"),
    }
}
