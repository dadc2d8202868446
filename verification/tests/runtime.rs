use cubecl_metal4::autotune::{AutotuneConfig, AutotuneLevel, AutotuneLogLevel};
use cubecl_metal4::lane::{capture_origin, report, reportable, reporting_active, Origin, Span};
use cubecl_metal4::runtime::{init, DeviceLimits, TimingMethod, ALIGNMENT, PLANE_SIZE};
use cubecl_metal4::text::push_decimal;
use cubecl_metal4::timing::{read_timestamp, ticks_to_ns, timed_duration};
use cubecl_metal4::{DeviceId, Metal4Device, Metal4Runtime, METAL4_MAX_BINDINGS};

fn limits() -> DeviceLimits {
    DeviceLimits {
        max_threads: (1024, 1024, 64),
        max_shared_memory_size: 65536,
        recommended_working_set: 8 << 30,
        matrix_units: true,
    }
}

#[test]
fn hardware_properties_of_a_device() {
    let properties = limits().hardware_properties(16);
    assert_eq!(properties.load_width, 128);
    assert_eq!((properties.plane_size_min, properties.plane_size_max), (32, 32));
    assert_eq!(PLANE_SIZE, 32);
    assert_eq!(properties.max_bindings, METAL4_MAX_BINDINGS);
    assert_eq!(METAL4_MAX_BINDINGS, 1024);
    assert_eq!(properties.max_shared_memory_size, 65536);
    assert_eq!(properties.max_cube_count, (u32::MAX, u32::MAX, u32::MAX));
    assert_eq!(properties.max_units_per_cube, 1024);
    assert_eq!(properties.max_cube_dim, (1024, 1024, 64));
    assert_eq!(properties.num_streaming_multiprocessors, None);
    assert_eq!(properties.num_tensor_cores, None);
    assert_eq!(properties.min_tensor_cores_dim, Some(8));
    assert_eq!(properties.num_cpu_cores, None);
    assert_eq!(properties.max_vector_size, 16);
    assert_eq!(properties.cube_mma_reserved_shared_memory, 0);
}

#[test]
fn largest_extent_bounds_the_units() {
    for max_threads in [(3, 2, 1), (2, 3, 1), (1, 2, 3)] {
        let device = DeviceLimits { max_threads, matrix_units: false, ..limits() };
        let properties = device.hardware_properties(4);
        assert_eq!(properties.max_units_per_cube, 3);
        assert_eq!(properties.min_tensor_cores_dim, None);
    }
}

#[test]
fn pages_are_a_quarter_of_the_working_set() {
    let memory = limits().memory_properties();
    assert_eq!(memory.max_page_size, 2 << 30);
    assert_eq!(memory.alignment, 256);
    assert_eq!(ALIGNMENT, 256);
    let small = DeviceLimits { recommended_working_set: 5, ..limits() };
    assert_eq!(small.memory_properties().max_page_size, 1 << 28);
}

#[test]
fn runtime_facts() {
    assert_eq!(Metal4Runtime::name(), "metal4");
    assert_eq!(Metal4Runtime::max_cube_count(), (u32::MAX, u32::MAX, u32::MAX));
    let devices = Metal4Runtime::enumerate_devices();
    assert_eq!(devices, vec![DeviceId { type_id: 0, index_id: 0 }]);
    assert_eq!(Metal4Device::from_id(devices[0]), Metal4Device::default());
}

#[test]
fn device_ids() {
    let device = Metal4Device::new(7);
    assert_eq!(device.to_id(), DeviceId { type_id: 0, index_id: 7 });
    assert_eq!(Metal4Device::from_id(device.to_id()), device.clone());
    assert_eq!(device.debug_text(), "Metal4(7)");
    assert_eq!(format!("{device:?} {device:#?}"), "Metal4(7) Metal4(7)");
    assert_eq!(Metal4Device::new(0x1_0002).to_id().index_id, 2);
    assert_eq!(Metal4Device::from_id(DeviceId { type_id: 9, index_id: 3 }).index, 3);
}

#[test]
fn autotune_defaults() {
    let config: AutotuneConfig<Option<String>, u8> = AutotuneConfig::default();
    assert_eq!(config.logger.level, AutotuneLogLevel::Minimal);
    assert_eq!(config.level, AutotuneLevel::Balanced);
    assert!(!config.frozen);
    assert_eq!((&config.logger.output, config.cache), (&None, 0));
    let frozen = AutotuneConfig { frozen: true, ..config.clone() };
    assert!(frozen.clone().frozen);
    let stored = AutotuneConfig { cache: 7, ..frozen.clone() };
    assert_eq!(stored.clone().cache, 7);
    assert_eq!(frozen.clone().level, AutotuneLevel::Balanced);
}

#[test]
fn ticks_become_nanoseconds() {
    assert_eq!(ticks_to_ns(24_000_000, 24), 1000);
    assert_eq!(ticks_to_ns(24_000_000, 1), 41);
    assert_eq!(ticks_to_ns(0, 77), 77);
    assert_eq!(ticks_to_ns(1_000_000_000, u64::MAX), u64::MAX);
    assert_eq!(
        ticks_to_ns(1, u64::MAX),
        ((u64::MAX as u128) * 1_000_000_000 % (1 << 64)) as u64
    );
    assert!(ticks_to_ns(24_000_000, 100) <= ticks_to_ns(24_000_000, 101));
}

#[test]
fn timestamps_are_read_in_machine_order() {
    let mut data = vec![0xaau8; 40];
    data[..8].copy_from_slice(&1000u64.to_ne_bytes());
    data[16..24].copy_from_slice(&25_000u64.to_ne_bytes());
    assert_eq!(read_timestamp(&data, 16, 0), Some(1000));
    assert_eq!(read_timestamp(&data, 16, 1), Some(25_000));
    assert_eq!(read_timestamp(&data, 16, 2), Some(0xaaaa_aaaa_aaaa_aaaa));
    assert_eq!(read_timestamp(&data, 16, 3), None);
    assert_eq!(timed_duration(Some(data.clone()), 16, 24_000_000), Ok(1_000_000));
    assert_eq!(timed_duration(Some(data), 16, 0), Ok(24_000));
}

#[test]
fn timed_duration_never_runs_backwards() {
    let mut data = 9u64.to_ne_bytes().to_vec();
    data.extend_from_slice(&4u64.to_ne_bytes());
    assert_eq!(timed_duration(Some(data), 8, 0), Ok(0));
}

#[test]
fn timed_duration_errors() {
    assert_eq!(
        timed_duration(None, 8, 1),
        Err(String::from("timestamp resolve returned no data"))
    );
    let out_of_range = Err(String::from("timestamp entry out of range"));
    assert_eq!(timed_duration(Some(vec![]), 8, 1), out_of_range);
    assert_eq!(timed_duration(Some(vec![0; 15]), 8, 1), out_of_range);
    assert!(timed_duration(Some(vec![0; 16]), 8, 1).is_ok());
}

#[test]
fn nothing_is_reported_without_a_profiler() {
    assert!(!reporting_active());
    assert_eq!(capture_origin(), Origin);
    assert_eq!(Origin::default(), Origin);
}

#[test]
fn spans_are_reported_in_nanoseconds() {
    let spans = vec![
        Span { name: String::from("a"), begin: 24, end: 48, origin: 5u8 },
        Span { name: String::from("b"), begin: 0, end: 1, origin: 6u8 },
    ];
    let built = report(24_000_000, spans);
    assert_eq!(built.len(), 2);
    assert_eq!((built[0].name.as_str(), built[0].begin, built[0].end), ("a", 1000, 2000));
    assert_eq!((built[1].begin, built[1].end, built[1].origin), (0, 41, 6));
}

#[test]
fn only_built_spans_are_sent() {
    assert_eq!(reportable(vec![Some(1), None, Some(3)]), Some(vec![1, 3]));
    assert_eq!(reportable::<u8>(vec![None, None]), None);
    assert_eq!(reportable::<u8>(vec![]), None);
}

#[test]
fn numbers_in_decimal() {
    let mut out = String::from("n=");
    push_decimal(&mut out, 0);
    push_decimal(&mut out, 1234567890);
    push_decimal(&mut out, u64::MAX);
    assert_eq!(out, "n=0123456789018446744073709551615");
}

#[test]
fn server_is_set_up_alike_for_every_id() {
    for index_id in [0, 3] {
        let setup = init(DeviceId { type_id: 0, index_id }, &limits(), 16);
        assert_eq!(setup.timing, TimingMethod::Device);
        assert!(setup.plane_ops && setup.f16_every_usage);
        assert_eq!(setup.warp_size, 32);
        assert_eq!(setup.layout_alignment, 256);
        assert_eq!(setup.memory, limits().memory_properties());
        assert_eq!(setup.hardware.max_units_per_cube, 1024);
        assert_eq!(setup.hardware.max_vector_size, 16);
    }
}
