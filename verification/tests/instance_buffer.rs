use instanced_renderer::gpu::DeviceOp;
use instanced_renderer::mesh_instances::MeshInstances;
use instanced_renderer::utils::{Matrix, RenderError};

fn matrix_filled(value: u32) -> Matrix {
    [value; 16]
}

fn upload_ops(ops: &[DeviceOp]) -> Vec<(usize, usize, Vec<Matrix>)> {
    ops.iter()
        .filter_map(|op| match op {
            DeviceOp::UploadInstances { buffer, first_slot, rows } => {
                Some((*buffer, *first_slot, rows.clone()))
            }
            _ => None,
        })
        .collect()
}

fn allocation_ops(ops: &[DeviceOp]) -> Vec<(usize, usize)> {
    ops.iter()
        .filter_map(|op| match op {
            DeviceOp::AllocateInstanceBuffer { buffer, capacity } => Some((*buffer, *capacity)),
            _ => None,
        })
        .collect()
}

fn filled_buffer(rows: usize) -> MeshInstances {
    let mut ops = Vec::new();
    let mut buffer = MeshInstances::new(0, 16, &mut ops);
    for i in 0..rows {
        buffer.allocate(&matrix_filled(i as u32), &mut ops);
    }
    // drain the dirty marks left by allocation so each test starts clean
    let mut flush_ops = Vec::new();
    buffer.flush_pending(&mut flush_ops);
    buffer
}

#[test]
fn new_buffer_allocates_requested_capacity() {
    let mut ops = Vec::new();
    let buffer = MeshInstances::new(5, 32, &mut ops);
    assert_eq!(buffer.len(), 0);
    assert_eq!(buffer.buffer_handle(), 5);
    assert_eq!(
        ops,
        vec![DeviceOp::AllocateInstanceBuffer { buffer: 5, capacity: 32 }]
    );
}

#[test]
fn zero_capacity_hint_still_allocates_one_row() {
    let mut ops = Vec::new();
    let _buffer = MeshInstances::new(0, 0, &mut ops);
    assert_eq!(allocation_ops(&ops), vec![(0, 1)]);
}

#[test]
fn disjoint_dirty_slots_flush_as_one_upload_each() {
    let mut buffer = filled_buffer(6);
    // repeated updates to three pairwise non-adjacent slots
    buffer.update_slot(0, &matrix_filled(100)).unwrap();
    buffer.update_slot(2, &matrix_filled(102)).unwrap();
    buffer.update_slot(4, &matrix_filled(104)).unwrap();
    buffer.update_slot(0, &matrix_filled(200)).unwrap();
    buffer.update_slot(4, &matrix_filled(204)).unwrap();

    let mut ops = Vec::new();
    buffer.flush_pending(&mut ops);
    let uploads = upload_ops(&ops);
    assert_eq!(ops.len(), 3); // exactly one upload per dirty region
    assert_eq!(
        uploads,
        vec![
            (0, 0, vec![matrix_filled(200)]),
            (0, 2, vec![matrix_filled(102)]),
            (0, 4, vec![matrix_filled(204)]),
        ]
    );
}

#[test]
fn adjacent_dirty_slots_flush_as_a_single_upload() {
    let mut buffer = filled_buffer(6);
    buffer.update_slot(3, &matrix_filled(103)).unwrap();
    buffer.update_slot(1, &matrix_filled(101)).unwrap();
    buffer.update_slot(2, &matrix_filled(102)).unwrap();

    let mut ops = Vec::new();
    buffer.flush_pending(&mut ops);
    let uploads = upload_ops(&ops);
    assert_eq!(ops.len(), 1); // one maximal run, one call
    assert_eq!(
        uploads,
        vec![(
            0,
            1,
            vec![matrix_filled(101), matrix_filled(102), matrix_filled(103)]
        )]
    );
}

#[test]
fn flush_of_a_clean_buffer_issues_nothing() {
    let mut buffer = filled_buffer(3);
    let mut ops = Vec::new();
    buffer.flush_pending(&mut ops);
    assert!(ops.is_empty());
}

#[test]
fn ensure_capacity_grows_geometrically_with_one_full_upload() {
    let mut ops = Vec::new();
    let mut buffer = MeshInstances::new(0, 2, &mut ops);
    buffer.allocate(&matrix_filled(1), &mut ops);
    buffer.allocate(&matrix_filled(2), &mut ops);

    // within capacity: no device call at all
    let mut grow_ops = Vec::new();
    buffer.ensure_capacity(2, &mut grow_ops);
    assert!(grow_ops.is_empty());

    // growth doubles until the minimum fits, then re-uploads everything once
    buffer.ensure_capacity(5, &mut grow_ops);
    assert_eq!(allocation_ops(&grow_ops), vec![(0, 8)]);
    let uploads = upload_ops(&grow_ops);
    assert_eq!(uploads.len(), 1);
    assert_eq!(
        uploads[0],
        (0, 0, vec![matrix_filled(1), matrix_filled(2)])
    );
    assert_eq!(grow_ops.len(), 2); // exactly one reallocation and one upload
}

#[test]
fn allocating_at_capacity_grows_before_the_row_lands() {
    let mut ops = Vec::new();
    let mut buffer = MeshInstances::new(7, 1, &mut ops);
    buffer.allocate(&matrix_filled(1), &mut ops);
    let before = ops.len();
    let slot = buffer.allocate(&matrix_filled(2), &mut ops);
    assert_eq!(slot, 1);
    // growth happened: a reallocation at capacity two and one full upload
    assert_eq!(allocation_ops(&ops[before..]), vec![(7, 2)]);
    let uploads = upload_ops(&ops[before..]);
    assert_eq!(
        uploads,
        vec![(7, 0, vec![matrix_filled(1), matrix_filled(2)])]
    );
}

#[test]
fn update_of_an_out_of_range_slot_is_an_error_not_a_no_op() {
    let mut buffer = filled_buffer(2);
    assert_eq!(
        buffer.update_slot(2, &matrix_filled(9)),
        Err(RenderError::InvalidSlot)
    );
    assert_eq!(buffer.len(), 2);
}

#[test]
fn remove_of_an_out_of_range_slot_is_an_error() {
    let mut buffer = filled_buffer(1);
    assert_eq!(buffer.remove_slot(1), Err(RenderError::InvalidSlot));
}

#[test]
fn removing_a_middle_slot_swaps_the_last_row_in_and_reports_its_handle() {
    let mut buffer = filled_buffer(3);
    buffer.set_handle(0, 10).unwrap();
    buffer.set_handle(1, 11).unwrap();
    buffer.set_handle(2, 12).unwrap();

    let moved = buffer.remove_slot(0).unwrap();
    assert_eq!(moved, Some(12)); // the former last row now owns slot 0
    assert_eq!(buffer.len(), 2);

    // the moved row's slot was marked dirty and re-uploads its transform
    let mut ops = Vec::new();
    buffer.flush_pending(&mut ops);
    assert_eq!(upload_ops(&ops), vec![(0, 0, vec![matrix_filled(2)])]);
}

#[test]
fn removing_the_sole_row_moves_nothing() {
    let mut buffer = filled_buffer(1);
    let moved = buffer.remove_slot(0).unwrap();
    assert_eq!(moved, None);
    assert_eq!(buffer.len(), 0);
    let mut ops = Vec::new();
    buffer.flush_pending(&mut ops);
    assert!(ops.is_empty());
}

#[test]
fn binding_a_handle_to_an_out_of_range_slot_is_an_error() {
    let mut buffer = filled_buffer(2);
    assert_eq!(buffer.set_handle(2, 7), Err(RenderError::InvalidSlot));
    assert_eq!(buffer.set_handle(0, 7), Ok(()));
}

#[test]
fn defragment_of_an_empty_buffer_releases_all_capacity() {
    let mut ops = Vec::new();
    let mut buffer = MeshInstances::new(4, 8, &mut ops);
    let mut defrag_ops = Vec::new();
    buffer.defragment(&mut defrag_ops);
    // capacity shrinks to exactly the length: zero rows, zero capacity
    assert_eq!(defrag_ops, vec![DeviceOp::AllocateInstanceBuffer { buffer: 4, capacity: 0 }]);

    // a later allocation grows the released buffer again
    let mut grow_ops = Vec::new();
    let slot = buffer.allocate(&matrix_filled(1), &mut grow_ops);
    assert_eq!(slot, 0);
    assert_eq!(allocation_ops(&grow_ops), vec![(4, 1)]);
    assert_eq!(buffer.len(), 1);
}

#[test]
fn defragment_shrinks_capacity_to_the_live_rows() {
    let mut ops = Vec::new();
    let mut buffer = MeshInstances::new(3, 64, &mut ops);
    buffer.allocate(&matrix_filled(1), &mut ops);
    buffer.allocate(&matrix_filled(2), &mut ops);

    let mut defrag_ops = Vec::new();
    buffer.defragment(&mut defrag_ops);
    assert_eq!(allocation_ops(&defrag_ops), vec![(3, 2)]);
    assert_eq!(
        upload_ops(&defrag_ops),
        vec![(3, 0, vec![matrix_filled(1), matrix_filled(2)])]
    );

    // the dirty set was discarded: nothing left to flush
    let mut flush_ops = Vec::new();
    buffer.flush_pending(&mut flush_ops);
    assert!(flush_ops.is_empty());
}
