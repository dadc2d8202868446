//! What the runtime advertises about a device.

use vstd::prelude::*;

use crate::device::{DeviceId, Metal4Device, METAL4_MAX_BINDINGS};

verus! {

/// The runtime of Metal 4 devices.
#[derive(Clone, Copy, Debug, PartialEq, Eq, Structural)]
pub struct Metal4Runtime;

/// Apple simdgroup width (the "plane" size) is 32 across Apple GPUs.
pub const PLANE_SIZE: u32 = 32;

/// Alignment of allocations in bytes.
pub const ALIGNMENT: u64 = 256;

/// The smallest working set that is planned for, in bytes.
pub const MIN_WORKING_SET: u64 = 0x4000_0000;

/// The smallest page that is planned for, in bytes.
pub const MIN_PAGE_SIZE: u64 = 0x1000_0000;

/// What a device reports of itself.
#[derive(Clone, Copy, Debug)]
pub struct DeviceLimits {
    /// Max threads per threadgroup in each direction.
    pub max_threads: (u32, u32, u32),
    /// Threadgroup memory of a cube in bytes.
    pub max_shared_memory_size: usize,
    /// Recommended working-set size in bytes.
    pub recommended_working_set: u64,
    /// Whether there are combinations of types that the simdgroup-matrix units support.
    pub matrix_units: bool,
}

/// Properties of the hardware that kernels are chosen by.
#[derive(Clone, Copy, Debug)]
pub struct HardwareProperties {
    /// Width of one memory transaction in bits.
    pub load_width: u32,
    /// Smallest plane.
    pub plane_size_min: u32,
    /// Largest plane.
    pub plane_size_max: u32,
    /// How many buffers a kernel can bind.
    pub max_bindings: u32,
    /// Shared memory of a cube in bytes.
    pub max_shared_memory_size: usize,
    /// Most cubes in each direction.
    pub max_cube_count: (u32, u32, u32),
    /// Most units of a cube.
    pub max_units_per_cube: u32,
    /// Most units of a cube in each direction.
    pub max_cube_dim: (u32, u32, u32),
    /// Number of streaming multiprocessors, where it is known.
    pub num_streaming_multiprocessors: Option<u32>,
    /// Number of tensor cores, where it is known.
    pub num_tensor_cores: Option<u32>,
    /// Smallest extent that the matrix units take, where there are any.
    pub min_tensor_cores_dim: Option<u32>,
    /// Number of CPU cores, for a runtime on a CPU.
    pub num_cpu_cores: Option<u32>,
    /// Longest vector.
    pub max_vector_size: usize,
    /// Shared memory that the matrix units reserve in bytes.
    pub cube_mma_reserved_shared_memory: usize,
}

/// Properties of the memory that allocations are planned by.
#[derive(Clone, Copy, Debug, PartialEq, Eq, Structural)]
pub struct MemoryDeviceProperties {
    /// Largest page in bytes.
    pub max_page_size: u64,
    /// Alignment of allocations in bytes.
    pub alignment: u64,
}

/// The larger of two numbers.
pub open spec fn larger(a: int, b: int) -> int {
    if a >= b {
        a
    } else {
        b
    }
}

/// The larger of two numbers of 32 bits.
fn larger_u32(a: u32, b: u32) -> (r: u32)
    ensures
        r == larger(a as int, b as int),
{
    if a >= b {
        a
    } else {
        b
    }
}

/// The larger of two numbers of 64 bits.
fn larger_u64(a: u64, b: u64) -> (r: u64)
    ensures
        r == larger(a as int, b as int),
{
    if a >= b {
        a
    } else {
        b
    }
}

/// The working set that is planned for: what the device recommends, but no less than the smallest.
pub open spec fn working_set(recommended: u64) -> int {
    larger(recommended as int, MIN_WORKING_SET as int)
}

/// The largest page: a quarter of the working set, but no less than the smallest page.
pub open spec fn page_size(recommended: u64) -> int {
    larger(working_set(recommended) / 4, MIN_PAGE_SIZE as int)
}

/// How kernels are timed.
#[derive(Clone, Copy, Debug, PartialEq, Eq, Structural)]
pub enum TimingMethod {
    /// By the clock of the host.
    System,
    /// By the device.
    Device,
}

/// Everything that a server is set up with for a device.
#[derive(Clone, Copy, Debug)]
pub struct DeviceSetup {
    /// Properties of the hardware.
    pub hardware: HardwareProperties,
    /// Properties of the memory.
    pub memory: MemoryDeviceProperties,
    /// How kernels are timed.
    pub timing: TimingMethod,
    /// Whether the plane (subgroup) shuffle and reduction operations are advertised.
    pub plane_ops: bool,
    /// Whether half-precision floats are advertised for every usage.
    pub f16_every_usage: bool,
    /// Units of a warp that kernels are compiled for.
    pub warp_size: u32,
    /// Alignment of contiguous tensors in bytes.
    pub layout_alignment: u64,
}

impl DeviceLimits {
    /// The properties of the hardware, for the longest vector.
    pub open spec fn hardware(self, max_vector_size: usize) -> HardwareProperties {
        HardwareProperties {
            load_width: 128,
            plane_size_min: PLANE_SIZE,
            plane_size_max: PLANE_SIZE,
            max_bindings: METAL4_MAX_BINDINGS,
            max_shared_memory_size: self.max_shared_memory_size,
            max_cube_count: (u32::MAX, u32::MAX, u32::MAX),
            max_units_per_cube: larger(
                larger(self.max_threads.0 as int, self.max_threads.1 as int),
                self.max_threads.2 as int,
            ) as u32,
            max_cube_dim: self.max_threads,
            num_streaming_multiprocessors: None,
            num_tensor_cores: None,
            min_tensor_cores_dim: if self.matrix_units {
                Some(8u32)
            } else {
                None
            },
            num_cpu_cores: None,
            max_vector_size,
            cube_mma_reserved_shared_memory: 0,
        }
    }

    /// The properties of the memory.
    pub open spec fn memory(self) -> MemoryDeviceProperties {
        MemoryDeviceProperties {
            max_page_size: page_size(self.recommended_working_set) as u64,
            alignment: ALIGNMENT,
        }
    }

    /// What a server is set up with. Real per-kernel timing comes from the counter heap of the
    /// device, and simdgroups support the plane operations.
    pub open spec fn setup(self, max_vector_size: usize) -> DeviceSetup {
        DeviceSetup {
            hardware: self.hardware(max_vector_size),
            memory: self.memory(),
            timing: TimingMethod::Device,
            plane_ops: true,
            f16_every_usage: true,
            warp_size: PLANE_SIZE,
            layout_alignment: ALIGNMENT,
        }
    }

    /// The properties of the hardware. Simdgroup-matrix units are advertised where there are any,
    /// so that matrix kernels can be chosen.
    pub fn hardware_properties(&self, max_vector_size: usize) -> (r: HardwareProperties)
        ensures
            r == self.hardware(max_vector_size),
    {
        let (x, y, z) = self.max_threads;
        HardwareProperties {
            load_width: 128,
            plane_size_min: PLANE_SIZE,
            plane_size_max: PLANE_SIZE,
            max_bindings: METAL4_MAX_BINDINGS,
            max_shared_memory_size: self.max_shared_memory_size,
            max_cube_count: Metal4Runtime::max_cube_count(),
            max_units_per_cube: larger_u32(larger_u32(x, y), z),
            max_cube_dim: (x, y, z),
            num_streaming_multiprocessors: None,
            num_tensor_cores: None,
            min_tensor_cores_dim: if self.matrix_units {
                Some(8)
            } else {
                None
            },
            num_cpu_cores: None,
            max_vector_size,
            cube_mma_reserved_shared_memory: 0,
        }
    }

    /// The properties of the memory.
    pub fn memory_properties(&self) -> (r: MemoryDeviceProperties)
        ensures
            r == self.memory(),
            r.max_page_size == page_size(self.recommended_working_set),
    {
        let working_set: u64 = larger_u64(self.recommended_working_set, MIN_WORKING_SET);
        MemoryDeviceProperties {
            max_page_size: larger_u64(working_set / 4, MIN_PAGE_SIZE),
            alignment: ALIGNMENT,
        }
    }
}

/// What the server of a device is set up with, given what the device reports of itself. There is
/// one device, so its id makes no difference.
pub fn init(_device_id: DeviceId, limits: &DeviceLimits, max_vector_size: usize) -> (r: DeviceSetup)
    ensures
        r == limits.setup(max_vector_size),
{
    DeviceSetup {
        hardware: limits.hardware_properties(max_vector_size),
        memory: limits.memory_properties(),
        timing: TimingMethod::Device,
        plane_ops: true,
        f16_every_usage: true,
        warp_size: PLANE_SIZE,
        layout_alignment: ALIGNMENT,
    }
}

impl Metal4Runtime {
    /// The name of the runtime.
    pub fn name() -> (r: &'static str)
        ensures
            r@ == "metal4"@,
    {
        "metal4"
    }

    /// Most cubes in each direction.
    pub fn max_cube_count() -> (r: (u32, u32, u32))
        ensures
            r == (u32::MAX, u32::MAX, u32::MAX),
    {
        (u32::MAX, u32::MAX, u32::MAX)
    }

    /// The devices: Apple systems expose one.
    pub fn enumerate_devices() -> (r: Vec<DeviceId>)
        ensures
            r@ == seq![DeviceId { type_id: 0, index_id: 0 }],
    {
        let mut devices: Vec<DeviceId> = Vec::new();
        devices.push(DeviceId { type_id: 0, index_id: 0 });
        devices
    }
}

/// The one device that is enumerated is the system-default device.
pub proof fn law_enumerated_device_is_default(device: Metal4Device)
    requires
        device.index == 0,
    ensures
        device.id() == (DeviceId { type_id: 0, index_id: 0 }),
        Metal4Device::of_id(DeviceId { type_id: 0, index_id: 0 }) == device,
{
}

/// The largest page is always a quarter of the working set that is planned for: the smallest page
/// is a quarter of the smallest working set.
pub proof fn law_page_is_quarter_of_working_set(recommended: u64)
    ensures
        page_size(recommended) == working_set(recommended) / 4,
        page_size(recommended) >= MIN_PAGE_SIZE,
        page_size(recommended) <= u64::MAX,
{
}

/// What a device is set up with: planes of 32, all of its bindings, its largest extent as the units
/// of a cube, pages of a quarter of the working set at the alignment of the layout, timing by the
/// device, and plane operations.
pub proof fn law_setup_of_device(limits: DeviceLimits, max_vector_size: usize)
    ensures
        ({
            let setup = limits.setup(max_vector_size);
            let (x, y, z) = limits.max_threads;
            &&& setup.hardware.plane_size_min == 32
            &&& setup.hardware.plane_size_max == 32
            &&& setup.warp_size == 32
            &&& setup.hardware.max_bindings == 1024
            &&& setup.hardware.max_units_per_cube == larger(larger(x as int, y as int), z as int)
            &&& setup.memory.alignment == 256
            &&& setup.layout_alignment == setup.memory.alignment
            &&& setup.memory.max_page_size == working_set(limits.recommended_working_set) / 4
            &&& setup.memory.max_page_size >= 0x1000_0000
            &&& setup.timing == TimingMethod::Device
            &&& setup.plane_ops
        }),
{
    law_page_is_quarter_of_working_set(limits.recommended_working_set);
}

/// A device with more memory to recommend gets pages that are no smaller.
pub proof fn law_page_size_monotonic(a: u64, b: u64)
    requires
        a <= b,
    ensures
        page_size(a) <= page_size(b),
{
}

/// The working set that is planned for is what the device recommends or a gigabyte, whichever is
/// larger.
pub proof fn law_working_set_is_larger(recommended: u64)
    ensures
        working_set(recommended) >= recommended,
        working_set(recommended) >= 1024 * 1024 * 1024,
        working_set(recommended) == recommended || working_set(recommended) == 1024 * 1024 * 1024,
{
}

/// A cube has as many units as the longest of its directions, and each direction is the device's.
/// What else the device reports is passed on as it is, and matrix units are advertised exactly if
/// there are any.
pub proof fn law_hardware_is_the_devices(limits: DeviceLimits, max_vector_size: usize)
    ensures
        ({
            let hardware = limits.hardware(max_vector_size);
            let (x, y, z) = limits.max_threads;
            &&& hardware.max_cube_dim == (x, y, z)
            &&& hardware.max_units_per_cube >= x
            &&& hardware.max_units_per_cube >= y
            &&& hardware.max_units_per_cube >= z
            &&& hardware.max_units_per_cube == x || hardware.max_units_per_cube == y
                || hardware.max_units_per_cube == z
            &&& hardware.max_shared_memory_size == limits.max_shared_memory_size
            &&& hardware.max_vector_size == max_vector_size
            &&& hardware.max_cube_count == (u32::MAX, u32::MAX, u32::MAX)
            &&& hardware.load_width == 128
            &&& hardware.min_tensor_cores_dim is Some <==> limits.matrix_units
            &&& hardware.min_tensor_cores_dim matches Some(dim) ==> dim == 8
            &&& hardware.num_streaming_multiprocessors is None
            &&& hardware.num_tensor_cores is None
            &&& hardware.num_cpu_cores is None
            &&& hardware.cube_mma_reserved_shared_memory == 0
        }),
{
}

/// A server is set up with the properties of its device, with half-precision floats for every
/// usage, and for warps of the size of a plane.
pub proof fn law_setup_holds_properties(limits: DeviceLimits, max_vector_size: usize)
    ensures
        limits.setup(max_vector_size).hardware == limits.hardware(max_vector_size),
        limits.setup(max_vector_size).memory == limits.memory(),
        limits.setup(max_vector_size).f16_every_usage,
        limits.setup(max_vector_size).warp_size == limits.hardware(
            max_vector_size,
        ).plane_size_max,
{
}

/// A device is set up with its own limits: its cube in all three directions, the largest of them
/// as the units of a cube, and its shared memory.
pub proof fn law_device_is_set_up_with_its_limits(
    id: DeviceId,
    limits: &DeviceLimits,
    max_vector_size: usize,
    r: DeviceSetup,
    hardware: HardwareProperties,
    memory: MemoryDeviceProperties,
)
    requires
        call_ensures(init, (id, limits, max_vector_size), r),
        call_ensures(DeviceLimits::hardware_properties, (limits, max_vector_size), hardware),
        call_ensures(DeviceLimits::memory_properties, (limits,), memory),
    ensures
        r.hardware == hardware,
        r.memory == memory,
        hardware.max_cube_dim == limits.max_threads,
        hardware.max_units_per_cube >= limits.max_threads.0,
        hardware.max_units_per_cube >= limits.max_threads.1,
        hardware.max_units_per_cube >= limits.max_threads.2,
        hardware.max_units_per_cube == limits.max_threads.0 || hardware.max_units_per_cube
            == limits.max_threads.1 || hardware.max_units_per_cube == limits.max_threads.2,
        hardware.max_shared_memory_size == limits.max_shared_memory_size,
        hardware.max_vector_size == max_vector_size,
        hardware.plane_size_min == 32,
        hardware.plane_size_max == 32,
        r.warp_size == 32,
        r.layout_alignment == memory.alignment,
        memory.alignment == 256,
{
    law_hardware_is_the_devices(*limits, max_vector_size);
    law_setup_holds_properties(*limits, max_vector_size);
    law_setup_of_device(*limits, max_vector_size);
}

/// A page is a quarter of what the device recommends as working set, and never under a quarter of
/// the least working set.
pub proof fn law_page_goes_by_recommendation(limits: &DeviceLimits, memory: MemoryDeviceProperties)
    requires
        call_ensures(DeviceLimits::memory_properties, (limits,), memory),
    ensures
        limits.recommended_working_set >= 1024 * 1024 * 1024 ==> memory.max_page_size
            == limits.recommended_working_set / 4,
        limits.recommended_working_set <= 1024 * 1024 * 1024 ==> memory.max_page_size == 256 * 1024
            * 1024,
{
    law_page_is_quarter_of_working_set(limits.recommended_working_set);
    law_working_set_is_larger(limits.recommended_working_set);
}

} // verus!
