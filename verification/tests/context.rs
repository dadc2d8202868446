use cubecl_metal4::buffer::{binding_addresses, Buffer};
use cubecl_metal4::context::{
    counter_heap_created, table_slots, Batch, BringUp, BringUpStep, CompileStage, CompileStep,
    EncoderCommand, Metal4, OpenStep, Submission, RESIDENCY_CAPACITY, WAIT_TIMEOUT_MS,
};

type Step = OpenStep<u8, char, &'static str>;
type Open = Batch<u8, char, &'static str>;

fn context() -> Metal4<u8> {
    Metal4::new(1, 24_000_000, 8)
}

fn opened(allocator: u8) -> Open {
    match OpenStep::encoder_created(allocator, 'c', Some("enc")) {
        OpenStep::Opened(batch) => batch,
        _ => panic!("an encoder opens the batch"),
    }
}

#[test]
fn bring_up_creates_the_objects_in_order() {
    let mut object = BringUp::first();
    let mut order = vec![object];
    loop {
        match object.created(Ok(())) {
            BringUpStep::Create(next) => {
                object = next;
                order.push(next);
            }
            BringUpStep::Ready => break,
            BringUpStep::Failed(message) => panic!("{message}"),
        }
    }
    assert_eq!(
        order,
        vec![
            BringUp::Device,
            BringUp::Queue,
            BringUp::Allocator,
            BringUp::SharedEvent,
            BringUp::ResidencySet,
        ]
    );
    assert_eq!(RESIDENCY_CAPACITY, 128);
}

#[test]
fn bring_up_failures() {
    let cases = [
        (BringUp::Device, "no system-default MTLDevice"),
        (BringUp::Queue, "device did not create an MTL4CommandQueue (needs macOS 26+)"),
        (BringUp::Allocator, "device did not create an MTL4CommandAllocator"),
        (BringUp::SharedEvent, "device did not create an MTLSharedEvent"),
        (BringUp::ResidencySet, "device did not create an MTLResidencySet: why"),
    ];
    for (object, expected) in cases {
        match object.created(Err(String::from("why"))) {
            BringUpStep::Failed(message) => assert_eq!(message, expected),
            step => panic!("{step:?}"),
        }
    }
}

#[test]
fn pooled_allocator_is_taken_first() {
    let mut context = context();
    assert!(matches!(
        context.open_batch(false) as Step,
        OpenStep::CreateCommandBuffer { allocator: 1 }
    ));
    assert!(matches!(context.open_batch(false) as Step, OpenStep::CreateAllocator));
    context.recycle(8, false);
    context.recycle(9, false);
    assert!(matches!(
        context.open_batch(false) as Step,
        OpenStep::CreateCommandBuffer { allocator: 9 }
    ));
}

#[test]
fn poisoned_pool_neither_gives_nor_takes() {
    let mut context = context();
    match context.open_batch(true) as Step {
        OpenStep::Failed(message) => assert_eq!(message, "allocator pool poisoned"),
        _ => panic!("a poisoned pool opens nothing"),
    }
    context.recycle(5, true);
    assert!(matches!(
        context.open_batch(false) as Step,
        OpenStep::CreateCommandBuffer { allocator: 1 }
    ));
    assert!(matches!(context.open_batch(false) as Step, OpenStep::CreateAllocator));
}

#[test]
fn opening_goes_on_object_by_object() {
    assert!(matches!(
        Step::allocator_created(Some(4)),
        OpenStep::CreateCommandBuffer { allocator: 4 }
    ));
    assert!(matches!(
        Step::command_buffer_created(4, Some('c')),
        OpenStep::BeginEncoder { allocator: 4, cb: 'c' }
    ));
    let batch = opened(4);
    assert_eq!((batch.allocator, batch.cb, batch.encoder), (4, 'c', "enc"));
    assert_eq!(batch.dispatches(), 0);
}

#[test]
fn opening_failures() {
    let failures = [
        (Step::allocator_created(None), "device did not create an MTL4CommandAllocator"),
        (Step::command_buffer_created(4, None), "device did not create an MTL4CommandBuffer"),
        (Step::encoder_created(4, 'c', None), "command buffer did not create a compute encoder"),
    ];
    for (step, expected) in failures {
        match step {
            OpenStep::Failed(message) => assert_eq!(message, expected),
            _ => panic!("{expected}"),
        }
    }
}

#[test]
fn dispatches_are_separated_by_barriers() {
    let context = context();
    let mut batch = opened(1);
    let dispatch = EncoderCommand::Dispatch { groups: (4, 1, 1), threads: (256, 1, 1) };
    let first = context
        .batch_dispatch(&mut batch, Ok(()), &[10, 20], (4, 1, 1), (256, 1, 1), None)
        .unwrap();
    assert_eq!(
        first,
        vec![
            EncoderCommand::SetAddress { address: 10, slot: 0 },
            EncoderCommand::SetAddress { address: 20, slot: 1 },
            EncoderCommand::SetPipeline,
            EncoderCommand::SetArgumentTable,
            dispatch,
        ]
    );
    let second = context
        .batch_dispatch(&mut batch, Ok(()), &[30], (4, 1, 1), (256, 1, 1), Some((0, 1)))
        .unwrap();
    assert_eq!(
        second,
        vec![
            EncoderCommand::SetAddress { address: 30, slot: 0 },
            EncoderCommand::Barrier,
            EncoderCommand::SetPipeline,
            EncoderCommand::SetArgumentTable,
            EncoderCommand::WriteTimestamp { entry: 0 },
            dispatch,
            EncoderCommand::WriteTimestamp { entry: 1 },
        ]
    );
    assert_eq!(batch.dispatches(), 2);
}

#[test]
fn dispatch_without_a_table_leaves_the_batch() {
    let context = context();
    let mut batch = opened(1);
    let refused = context.batch_dispatch(
        &mut batch,
        Err(String::from("no memory")),
        &[10],
        (1, 1, 1),
        (1, 1, 1),
        None,
    );
    assert_eq!(refused, Err(String::from("argument table creation failed: no memory")));
    assert_eq!(batch.dispatches(), 0);
}

#[test]
fn tables_have_at_least_one_slot() {
    assert_eq!(table_slots(&[]), 1);
    assert_eq!(table_slots(&[5]), 1);
    assert_eq!(table_slots(&[5, 6, 7]), 3);
}

#[test]
fn commits_are_counted_and_signalled() {
    let mut context = context();
    assert_eq!(context.commit_count(), 0);
    for n in 1..=3u64 {
        let submission: Submission<u8, char, &'static str> = context.commit_batch(opened(7));
        assert_eq!(submission.signal, n);
        assert_eq!(submission.timeout_ms, WAIT_TIMEOUT_MS);
        assert_eq!(context.commit_count(), n);
        assert_eq!(submission.retired(true, n), Ok(7));
    }
}

#[test]
fn timed_out_commit_gives_up_the_allocator() {
    let mut context = context();
    let submission = context.commit_batch(opened(7));
    assert_eq!(
        submission.retired(false, 41),
        Err(String::from("batch commit timed out after 30000 ms (event at 41)"))
    );
}

#[test]
fn one_shot_dispatches() {
    let mut context = context();
    let a = Buffer::new('a', 100, 0, 16);
    let b = Buffer::new('b', 200, 0, 16);
    assert_eq!(binding_addresses(&[&a, &b]), vec![100, 200]);
    let bound = context
        .dispatch(opened(1), Ok(()), &[&a, &b], (2, 1, 1), (8, 1, 1))
        .unwrap();
    assert_eq!(bound.commands.len(), 5);
    assert_eq!(bound.commands[1], EncoderCommand::SetAddress { address: 200, slot: 1 });
    assert_eq!(bound.submission.batch.dispatches(), 1);
    assert_eq!(bound.submission.signal, 1);

    let raw = context
        .dispatch_addresses(opened(1), Ok(()), &[100, 200], (2, 1, 1), (8, 1, 1))
        .unwrap();
    assert_eq!(raw.commands, bound.commands);
    assert_eq!(raw.submission.signal, 2);

    let timed = context
        .dispatch_timed(opened(1), Ok(()), &[&a], (2, 1, 1), (8, 1, 1))
        .unwrap();
    assert_eq!(timed.commands[3], EncoderCommand::WriteTimestamp { entry: 0 });
    assert_eq!(timed.commands[5], EncoderCommand::WriteTimestamp { entry: 1 });
    assert_eq!(context.commit_count(), 3);

    let refused = context.dispatch(opened(1), Err(String::from("x")), &[&a], (1, 1, 1), (1, 1, 1));
    assert_eq!(refused.err(), Some(String::from("argument table creation failed: x")));
    assert_eq!(context.commit_count(), 3);
}

#[test]
fn timed_dispatch_is_resolved() {
    let context = context();
    assert_eq!((context.frequency_hz(), context.ts_entry_size()), (24_000_000, 8));
    let mut data = 24u64.to_ne_bytes().to_vec();
    data.extend_from_slice(&48u64.to_ne_bytes());
    assert_eq!(context.resolve_timed(Some(data)), Ok(1000));
    assert_eq!(
        context.resolve_timed(None),
        Err(String::from("timestamp resolve returned no data"))
    );
    assert_eq!(counter_heap_created(Ok(())), Ok(()));
    assert_eq!(
        counter_heap_created(Err(String::from("full"))),
        Err(String::from("counter heap creation failed: full"))
    );
}

#[test]
fn compiling_goes_on_stage_by_stage() {
    let mut stage = CompileStage::first();
    let mut order = vec![stage];
    while let CompileStep::Create(next) = stage.created("square", Ok(())) {
        stage = next;
        order.push(next);
    }
    assert_eq!(
        order,
        vec![CompileStage::Library, CompileStage::Function, CompileStage::PipelineState]
    );
    assert!(matches!(stage.created("square", Ok(())), CompileStep::Ready));
}

#[test]
fn compile_failures() {
    let cases = [
        (CompileStage::Library, "MSL compile failed: why"),
        (CompileStage::Function, "entry point `square` not found in compiled library"),
        (CompileStage::PipelineState, "pipeline creation failed: why"),
    ];
    for (stage, expected) in cases {
        match stage.created("square", Err(String::from("why"))) {
            CompileStep::Failed(message) => assert_eq!(message, expected),
            step => panic!("{step:?}"),
        }
    }
}

#[test]
fn device_limits_in_words() {
    assert_eq!(context().max_threads_per_threadgroup(1024, 512, 64), (1024, 512, 64));
}

#[test]
fn buffers_are_filled_from_data() {
    let context = context();
    assert_eq!(context.alloc_length(0), 1);
    assert_eq!(context.alloc_length(12), 12);
    let mut contents = [0u8; 4];
    let buffer = context.buffer_from('r', 4096, 64, &mut contents, &[1, 2, 3, 4]);
    assert_eq!(contents, [1, 2, 3, 4]);
    assert_eq!(*buffer.raw(), 'r');
    assert_eq!((buffer.gpu_address(), buffer.contents_ptr(), buffer.len()), (4096, 64, 4));
    assert!(!buffer.is_empty());
    assert_eq!(buffer.slice_len(4), 1);
    assert!(context.buffer_from('r', 0, 0, &mut [], &[]).is_empty());
}

#[test]
fn buffer_writes_take_the_first_bytes() {
    let buffer = Buffer::new((), 0, 0, 5);
    let mut contents = [9u8; 5];
    buffer.write(&mut contents, &[1, 2]);
    assert_eq!(contents, [1, 2, 9, 9, 9]);
    buffer.write(&mut contents, &[7, 7, 7]);
    assert_eq!(contents, [7, 7, 7, 9, 9]);
    assert_eq!(buffer.write_refusal(5), None);
    assert_eq!(buffer.write_refusal(6), Some(String::from("write 6 > buffer 5")));
    assert_eq!(buffer.slice_len(2), 2);
}
