use instanced_renderer::instances::InstanceStore;
use instanced_renderer::utils::identity_matrix;

#[test]
fn len_tracks_inserts_and_removes() {
    let mut store = InstanceStore::new();
    assert_eq!(store.len(), 0);
    assert!(store.is_empty());

    let a = store.insert(0, 0, identity_matrix());
    let b = store.insert(0, 1, identity_matrix());
    let c = store.insert(1, 0, identity_matrix());
    assert_eq!(store.len(), 3);
    assert!(!store.is_empty());

    assert!(store.remove(b));
    assert_eq!(store.len(), 2);
    // removing an already-removed handle changes nothing
    assert!(!store.remove(b));
    assert_eq!(store.len(), 2);

    assert!(store.remove(a));
    assert!(store.remove(c));
    assert_eq!(store.len(), 0);
    assert!(store.is_empty());
}

#[test]
fn get_is_defined_exactly_for_live_handles() {
    let mut store = InstanceStore::new();
    let a = store.insert(3, 7, identity_matrix());
    assert!(store.get(a).is_some());
    assert!(store.get(a + 1).is_none()); // never allocated
    let record = store.get(a).unwrap();
    assert_eq!(record.mesh_index, 3);
    assert_eq!(record.slot_index, 7);

    assert!(store.remove(a));
    assert!(store.get(a).is_none());
}

#[test]
fn removed_handle_stays_dead_until_reused() {
    let mut store = InstanceStore::new();
    let a = store.insert(0, 0, identity_matrix());
    let _b = store.insert(0, 1, identity_matrix());
    assert!(store.remove(a));
    assert!(store.get(a).is_none());

    // the next insert reuses the most recently freed numeric value; only
    // then does `a` resolve again, to the new payload
    let c = store.insert(9, 4, identity_matrix());
    assert_eq!(c, a);
    let record = store.get(a).unwrap();
    assert_eq!(record.mesh_index, 9);
    assert_eq!(record.slot_index, 4);
}

#[test]
fn fresh_handles_count_up_when_no_handle_is_free() {
    let mut store = InstanceStore::new();
    let a = store.insert(0, 0, identity_matrix());
    let b = store.insert(0, 1, identity_matrix());
    let c = store.insert(0, 2, identity_matrix());
    assert_eq!(a, 0);
    assert_eq!(b, 1);
    assert_eq!(c, 2);
}

#[test]
fn removal_swaps_last_active_entry_into_vacated_position() {
    let mut store = InstanceStore::new();
    let a = store.insert(0, 0, identity_matrix());
    let b = store.insert(0, 1, identity_matrix());
    let c = store.insert(0, 2, identity_matrix());
    assert_eq!(store.handle_at(0), Some(a));
    assert_eq!(store.handle_at(1), Some(b));
    assert_eq!(store.handle_at(2), Some(c));

    assert!(store.remove(a));
    // the dense active list closed the gap by moving the last entry
    assert_eq!(store.handle_at(0), Some(c));
    assert_eq!(store.handle_at(1), Some(b));
    assert_eq!(store.handle_at(2), None);
    // the moved handle's payload is untouched
    let record = store.get(c).unwrap();
    assert_eq!(record.mesh_index, 0);
    assert_eq!(record.slot_index, 2);
}

#[test]
fn operations_on_other_handles_never_invalidate_a_handle() {
    let mut store = InstanceStore::new();
    let a = store.insert(1, 0, identity_matrix());
    let b = store.insert(2, 0, identity_matrix());
    let c = store.insert(3, 0, identity_matrix());
    assert!(store.remove(b));
    let d = store.insert(4, 0, identity_matrix());
    assert!(store.get(a).is_some());
    assert!(store.get(c).is_some());
    assert!(store.get(d).is_some());
    assert_eq!(store.get(a).unwrap().mesh_index, 1);
    assert_eq!(store.get(c).unwrap().mesh_index, 3);
}
