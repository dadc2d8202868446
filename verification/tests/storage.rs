use cubecl_metal4::buffer::Buffer;
use cubecl_metal4::storage::{Metal4Resource, Metal4Storage, StorageHandle};

fn storage() -> Metal4Storage<char> {
    let mut storage = Metal4Storage::new(256);
    storage.allocated(1, Buffer::new('a', 1000, 500, 64), 64);
    storage.allocated(2, Buffer::new('b', 2000, 900, 32), 32);
    storage
}

#[test]
fn allocations_are_handed_out_whole() {
    let mut storage: Metal4Storage<char> = Metal4Storage::new(256);
    assert_eq!(storage.alignment(), 256);
    assert_eq!(format!("{storage:?}"), "Metal4Storage");
    let handle = storage.allocated(1, Buffer::new('a', 1000, 500, 64), 64);
    assert_eq!(handle, StorageHandle { id: 1, offset: 0, size: 64 });
    assert_eq!(storage.get(&handle), Metal4Resource { gpu_address: 1000, ptr: 500, size: 64 });
    let external = storage.register_external(2, Buffer::new('m', 4096, 8192, 16), 16);
    assert_eq!(external, StorageHandle { id: 2, offset: 0, size: 16 });
    assert_eq!(storage.get(&external).ptr, 8192);
}

#[test]
fn handles_resolve_to_sub_ranges() {
    let storage = storage();
    let handle = StorageHandle { id: 1, offset: 16, size: 8 };
    assert_eq!(storage.get(&handle), Metal4Resource { gpu_address: 1016, ptr: 516, size: 8 });
    let handle = StorageHandle { id: 2, offset: 32, size: 0 };
    assert_eq!(storage.get(&handle), Metal4Resource { gpu_address: 2032, ptr: 932, size: 0 });
}

#[test]
fn deallocation_waits_for_the_flush() {
    let mut storage = storage();
    let handle = StorageHandle { id: 1, offset: 0, size: 64 };
    storage.dealloc(1);
    assert_eq!(storage.get(&handle).gpu_address, 1000);
    storage.flush();
    let other = StorageHandle { id: 2, offset: 0, size: 32 };
    assert_eq!(storage.get(&other).gpu_address, 2000);
    storage.flush();
    assert_eq!(storage.get(&other).gpu_address, 2000);
}

#[test]
fn deallocated_buffers_are_dropped_at_the_flush() {
    let raw = std::rc::Rc::new(());
    let mut storage = Metal4Storage::new(256);
    storage.allocated(1, Buffer::new(raw.clone(), 0, 0, 1), 1);
    storage.allocated(2, Buffer::new(raw.clone(), 0, 0, 1), 1);
    storage.dealloc(1);
    storage.dealloc(1);
    storage.dealloc(77);
    assert_eq!(std::rc::Rc::strong_count(&raw), 3);
    storage.flush();
    assert_eq!(std::rc::Rc::strong_count(&raw), 2);
}

#[test]
fn handles_outside_their_buffer_do_not_resolve() {
    let mut storage = storage();
    assert!(storage.can_resolve(&StorageHandle { id: 1, offset: 60, size: 4 }));
    assert!(!storage.can_resolve(&StorageHandle { id: 1, offset: 60, size: 5 }));
    assert!(!storage.can_resolve(&StorageHandle { id: 1, offset: u64::MAX, size: u64::MAX }));
    assert!(!storage.can_resolve(&StorageHandle { id: 3, offset: 0, size: 0 }));
    storage.dealloc(1);
    assert!(storage.can_resolve(&StorageHandle { id: 1, offset: 0, size: 64 }));
    storage.flush();
    assert!(!storage.can_resolve(&StorageHandle { id: 1, offset: 0, size: 64 }));
    assert!(storage.can_resolve(&StorageHandle { id: 2, offset: 0, size: 32 }));
    storage.allocated(4, Buffer::new('z', u64::MAX - 1, usize::MAX - 1, 8), 8);
    assert!(storage.can_resolve(&StorageHandle { id: 4, offset: 1, size: 7 }));
    assert!(!storage.can_resolve(&StorageHandle { id: 4, offset: 2, size: 6 }));
}
