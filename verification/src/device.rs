//! Device handles and their ids.

use vstd::prelude::*;

use crate::fmt::{text_taken, write_text};
use crate::text::{decimal, push_decimal};

verus! {

/// Upper bound on live argument-table buffer bindings tracked per dispatch.
pub const METAL4_MAX_BINDINGS: u32 = 1024;

/// A Metal 4 device handle, addressed by index (Apple systems expose one GPU, so index 0 is the
/// system-default device).
#[derive(PartialEq, Eq, Structural, Hash)]
pub struct Metal4Device {
    /// Which device.
    pub index: usize,
}

/// The id of a device: the kind of device, and which one of that kind.
#[derive(Clone, Copy, Debug, PartialEq, Eq, Structural, Hash)]
pub struct DeviceId {
    /// The kind of device.
    pub type_id: u16,
    /// Which device of that kind.
    pub index_id: u16,
}

impl core::fmt::Debug for Metal4Device {
    /// The device as `Metal4(0)`.
    fn fmt(&self, f: &mut core::fmt::Formatter<'_>) -> (r: core::fmt::Result)
        ensures
            r is Ok ==> text_taken(*final(f)) == text_taken(*old(f)) + self.text(),
    {
        write_text(f, self.debug_text().as_str())
    }
}

impl Clone for Metal4Device {
    fn clone(&self) -> (r: Self)
        ensures
            r == *self,
    {
        Metal4Device { index: self.index }
    }
}

impl Default for Metal4Device {
    /// The system-default device.
    fn default() -> (r: Self)
        ensures
            r.index == 0,
    {
        Metal4Device { index: 0 }
    }
}

impl Metal4Device {
    /// The id of a device: kind 0, and the low 16 bits of the index.
    pub open spec fn id(self) -> DeviceId {
        DeviceId { type_id: 0, index_id: (self.index % 0x1_0000) as u16 }
    }

    /// The device that an id stands for.
    pub open spec fn of_id(id: DeviceId) -> Metal4Device {
        Metal4Device { index: id.index_id as usize }
    }

    /// The device as text.
    pub open spec fn text(self) -> Seq<char> {
        "Metal4("@ + decimal(self.index as nat) + ")"@
    }

    /// The device with the given index.
    pub fn new(index: usize) -> (r: Self)
        ensures
            r.index == index,
    {
        Metal4Device { index }
    }

    /// The device that an id stands for. There is one kind of device, so the kind is not read.
    pub fn from_id(device_id: DeviceId) -> (r: Self)
        ensures
            r == Metal4Device::of_id(device_id),
    {
        Metal4Device { index: device_id.index_id as usize }
    }

    /// The id of the device: kind 0, and the low 16 bits of the index.
    pub fn to_id(&self) -> (r: DeviceId)
        ensures
            r == self.id(),
    {
        DeviceId { type_id: 0, index_id: (self.index % 0x1_0000) as u16 }
    }

    /// The device as `Metal4(0)`.
    pub fn debug_text(&self) -> (r: String)
        ensures
            r@ == self.text(),
    {
        let mut out = String::from_str("Metal4(");
        push_decimal(&mut out, self.index as u64);
        out.append(")");
        out
    }
}

/// A device is found again by its id, as long as its index fits the id.
pub proof fn law_device_found_by_id(device: Metal4Device)
    requires
        device.index < 0x1_0000,
    ensures
        Metal4Device::of_id(device.id()) == device,
{
}

/// An id of the one kind of device is found again by its device.
pub proof fn law_id_found_by_device(id: DeviceId)
    requires
        id.type_id == 0,
    ensures
        Metal4Device::of_id(id).id() == id,
{
}

/// The id of any device is of the one kind, and its number differs from the index by whole turns of
/// 16 bits.
pub proof fn law_id_is_index_in_16_bits(device: Metal4Device)
    ensures
        device.id().type_id == 0,
        (device.index - device.id().index_id) % 0x1_0000 == 0,
{
}

/// Devices with different indices are never printed alike.
pub proof fn law_device_text_tells_index(a: Metal4Device, b: Metal4Device)
    requires
        a.text() == b.text(),
    ensures
        a == b,
{
    let start = "Metal4("@;
    let end = ")"@;
    let x = decimal(a.index as nat);
    let y = decimal(b.index as nat);
    assert(a.text().len() == start.len() + x.len() + end.len());
    assert(b.text().len() == start.len() + y.len() + end.len());
    assert(a.text().subrange(start.len() as int, (start.len() + x.len()) as int) =~= x);
    assert(b.text().subrange(start.len() as int, (start.len() + y.len()) as int) =~= y);
    crate::text::law_decimal_injective(a.index as nat, b.index as nat);
}

/// An id stands for the device with its number, whatever kind it names.
pub proof fn law_id_names_index(id: DeviceId)
    ensures
        Metal4Device::of_id(id).index == id.index_id,
{
}

/// A device is found again by the id that it gives, where its number fits there.
pub proof fn law_device_comes_back_by_id(
    index: usize,
    device: Metal4Device,
    id: DeviceId,
    back: Metal4Device,
)
    requires
        index < 0x1_0000,
        call_ensures(Metal4Device::new, (index,), device),
        call_ensures(Metal4Device::to_id, (&device,), id),
        call_ensures(Metal4Device::from_id, (id,), back),
    ensures
        back.index == index,
        id.index_id == index,
        id.type_id == 0,
{
}

} // verus!
