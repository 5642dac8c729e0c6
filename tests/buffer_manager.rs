use kirunadb::buffer_manager::BufferManager;
use kirunadb::node::{AtomicId, Id};

#[test]
fn node_id_sequence() {
    let mut buffer_manager = BufferManager::new(Id::from(14));
    assert_eq!(14, buffer_manager.allocate_new_node_id().as_u64());
    assert_eq!(15, buffer_manager.allocate_new_node_id().as_u64());
}

#[test]
fn buffer_manager_reports_when_allocation_would_wrap() {
    let buffer_manager = BufferManager::new(Id::from(u64::MAX));
    assert!(!buffer_manager.can_allocate());
    let mut buffer_manager = BufferManager::new(Id::from(u64::MAX - 1));
    assert!(buffer_manager.can_allocate());
    assert_eq!(u64::MAX - 1, buffer_manager.allocate_new_node_id().as_u64());
    assert!(!buffer_manager.can_allocate());
}

#[test]
fn node_id_next_and_conversions() {
    let id = Id::from(41);
    assert_eq!(42, id.next().as_u64());
    assert_eq!(Id(41), id);
    assert_eq!(41, id.as_u64());
}

#[test]
fn node_id_bytes_are_native_endian() {
    let id = Id::from(0x0102_0304_0506_0708);
    assert_eq!(id.to_ne_bytes(), 0x0102_0304_0506_0708u64.to_ne_bytes());
    assert_ne!(id.to_ne_bytes(), [0u8; 8]);
    assert_eq!(Id::from(1).to_ne_bytes(), 1u64.to_ne_bytes());
}

#[test]
fn atomic_id_hands_out_consecutive_values() {
    let mut counter = AtomicId::new(Id::from(1));
    assert_eq!(Id(1), counter.get_and_advance());
    assert_eq!(Id(2), counter.get_and_advance());
    assert_eq!(3, counter.value);
}
