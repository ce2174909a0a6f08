use instanced_renderer::batched::{compute_instance_budget, BatchedRenderer};
use instanced_renderer::gpu::DeviceOp;
use instanced_renderer::utils::{identity_matrix, RenderError};

fn identity_words() -> Vec<u32> {
    identity_matrix().to_vec()
}

fn words_filled(value: u32) -> Vec<u32> {
    vec![value; 16]
}

fn triangle_words() -> Vec<u32> {
    let floats: Vec<f32> = vec![
        0.0, 0.0, 0.0, 1.0, 0.0, 0.0, 1.0, //
        1.0, 0.0, 0.0, 0.0, 1.0, 0.0, 1.0, //
        0.0, 1.0, 0.0, 0.0, 0.0, 1.0, 1.0, //
    ];
    floats.iter().map(|v| v.to_bits()).collect()
}

fn new_engine() -> BatchedRenderer {
    BatchedRenderer::new(256).unwrap()
}

fn draw_ops(ops: &[DeviceOp]) -> Vec<(usize, usize, usize)> {
    ops.iter()
        .filter_map(|op| match op {
            DeviceOp::DrawMeshInstances { mesh, vertex_count, instance_count } => {
                Some((*mesh, *vertex_count, *instance_count))
            }
            _ => None,
        })
        .collect()
}

#[test]
fn instance_budget_reserves_camera_uniforms() {
    assert_eq!(compute_instance_budget(256), Ok(62));
    assert_eq!(compute_instance_budget(12), Ok(1));
    assert_eq!(compute_instance_budget(11), Err(RenderError::CapacityError));
    assert_eq!(compute_instance_budget(0), Err(RenderError::CapacityError));
    assert_eq!(compute_instance_budget(-5), Err(RenderError::CapacityError));
}

#[test]
fn engine_creation_needs_a_minimal_uniform_budget() {
    assert!(BatchedRenderer::new(256).is_ok());
    assert_eq!(BatchedRenderer::new(256).unwrap().max_instances(), 62);
    assert!(matches!(
        BatchedRenderer::new(11),
        Err(RenderError::CapacityError)
    ));
}

#[test]
fn mesh_registration_validates_before_registering() {
    let mut engine = new_engine();
    let mut ops = Vec::new();
    assert_eq!(
        engine.register_mesh(vec![], &mut ops),
        Err(RenderError::ValidationError)
    );
    assert_eq!(
        engine.register_mesh(words_filled(5)[..5].to_vec(), &mut ops),
        Err(RenderError::ValidationError)
    );
    assert!(ops.is_empty());
    assert_eq!(engine.register_mesh(triangle_words(), &mut ops), Ok(0));
    assert_eq!(engine.register_mesh(triangle_words(), &mut ops), Ok(1));
}

#[test]
fn create_instance_validates_transform_then_mesh() {
    let mut engine = new_engine();
    let mut ops = Vec::new();
    engine.register_mesh(triangle_words(), &mut ops).unwrap();
    assert_eq!(
        engine.create_instance(0, &vec![0; 5], &mut ops),
        Err(RenderError::ValidationError)
    );
    assert_eq!(
        engine.create_instance(3, &identity_words(), &mut ops),
        Err(RenderError::InvalidHandle)
    );
    // a wrong-length transform is reported even for an unknown mesh
    assert_eq!(
        engine.create_instance(3, &vec![0; 5], &mut ops),
        Err(RenderError::ValidationError)
    );
    assert_eq!(engine.create_instance(0, &identity_words(), &mut ops), Ok(0));
    assert_eq!(engine.instance_count(), 1);
}

#[test]
fn unknown_instance_handles_are_rejected() {
    let mut engine = new_engine();
    let mut ops = Vec::new();
    engine.register_mesh(triangle_words(), &mut ops).unwrap();
    let h = engine.create_instance(0, &identity_words(), &mut ops).unwrap();
    assert_eq!(
        engine.set_instance_transform(h + 1, &identity_words()),
        Err(RenderError::InvalidHandle)
    );
    assert_eq!(
        engine.remove_instance(h + 1),
        Err(RenderError::InvalidHandle)
    );
    engine.remove_instance(h).unwrap();
    assert_eq!(
        engine.set_instance_transform(h, &identity_words()),
        Err(RenderError::InvalidHandle)
    );
}

#[test]
fn removing_a_slot_moves_the_last_instance_into_it() {
    let mut engine = new_engine();
    let mut ops = Vec::new();
    engine.register_mesh(triangle_words(), &mut ops).unwrap();
    let a = engine.create_instance(0, &words_filled(1), &mut ops).unwrap();
    let b = engine.create_instance(0, &words_filled(2), &mut ops).unwrap();
    let c = engine.create_instance(0, &words_filled(3), &mut ops).unwrap();
    assert_eq!(engine.instance_info(a), Some((0, 0)));
    assert_eq!(engine.instance_info(b), Some((0, 1)));
    assert_eq!(engine.instance_info(c), Some((0, 2)));

    engine.remove_instance(a).unwrap();
    // the former last instance now resolves to the vacated slot
    assert_eq!(engine.instance_info(a), None);
    assert_eq!(engine.instance_info(b), Some((0, 1)));
    assert_eq!(engine.instance_info(c), Some((0, 0)));
    assert_eq!(engine.instance_count(), 2);

    let mut pass_ops = Vec::new();
    engine.render_pass(&mut pass_ops);
    assert_eq!(draw_ops(&pass_ops), vec![(0, 3, 2)]);
}

#[test]
fn transform_updates_reach_the_device_on_the_next_pass() {
    let mut engine = new_engine();
    let mut ops = Vec::new();
    engine.register_mesh(triangle_words(), &mut ops).unwrap();
    let h = engine.create_instance(0, &words_filled(1), &mut ops).unwrap();
    let mut first_pass = Vec::new();
    engine.render_pass(&mut first_pass);

    engine.set_instance_transform(h, &words_filled(9)).unwrap();
    let mut second_pass = Vec::new();
    engine.render_pass(&mut second_pass);
    let upload = second_pass.iter().find_map(|op| match op {
        DeviceOp::UploadInstances { first_slot, rows, .. } => Some((*first_slot, rows.clone())),
        _ => None,
    });
    assert_eq!(upload, Some((0, vec![[9u32; 16]])));
}

#[test]
fn queued_instance_is_removed_by_exactly_one_pass() {
    let mut engine = new_engine();
    let mut ops = Vec::new();
    engine.register_mesh(triangle_words(), &mut ops).unwrap();
    let keep = engine.create_instance(0, &identity_words(), &mut ops).unwrap();
    let transient = engine.queue_instance(0, &identity_words(), &mut ops).unwrap();
    assert_eq!(engine.queued_instances(), 1);
    assert_eq!(engine.instance_count(), 2);

    // unrelated operations in between do not disturb the queue
    engine.set_instance_transform(keep, &words_filled(4)).unwrap();
    let other = engine.create_instance(0, &identity_words(), &mut ops).unwrap();
    engine.remove_instance(other).unwrap();
    assert_eq!(engine.queued_instances(), 1);

    let mut pass_ops = Vec::new();
    engine.render_pass(&mut pass_ops);
    assert_eq!(engine.queued_instances(), 0);
    assert_eq!(engine.instance_info(transient), None);
    assert_eq!(engine.instance_info(keep).is_some(), true);
    assert_eq!(engine.instance_count(), 1);
}

#[test]
fn queued_instance_is_removed_even_when_it_is_the_only_one() {
    let mut engine = new_engine();
    let mut ops = Vec::new();
    engine.register_mesh(triangle_words(), &mut ops).unwrap();
    let transient = engine.queue_instance(0, &identity_words(), &mut ops).unwrap();
    assert_eq!(engine.instance_count(), 1);

    let mut pass_ops = Vec::new();
    engine.render_pass(&mut pass_ops);
    // the pass still drew the transient instance once, then removed it
    assert_eq!(draw_ops(&pass_ops), vec![(0, 3, 1)]);
    assert_eq!(engine.instance_info(transient), None);
    assert_eq!(engine.instance_count(), 0);
    assert_eq!(engine.queued_instances(), 0);
}

#[test]
fn removing_a_queued_instance_unqueues_it() {
    let mut engine = new_engine();
    let mut ops = Vec::new();
    engine.register_mesh(triangle_words(), &mut ops).unwrap();
    let transient = engine.queue_instance(0, &identity_words(), &mut ops).unwrap();
    engine.remove_instance(transient).unwrap();
    assert_eq!(engine.queued_instances(), 0);
    let mut pass_ops = Vec::new();
    engine.render_pass(&mut pass_ops);
    assert!(pass_ops.is_empty());
}

#[test]
fn an_empty_engine_renders_nothing() {
    let mut engine = new_engine();
    let mut pass_ops = Vec::new();
    engine.render_pass(&mut pass_ops);
    assert!(pass_ops.is_empty());

    // a registered mesh without instances is skipped, but the camera
    // uniforms are still not uploaded when nothing at all is live
    let mut ops = Vec::new();
    engine.register_mesh(triangle_words(), &mut ops).unwrap();
    engine.render_pass(&mut pass_ops);
    assert!(pass_ops.is_empty());
}

#[test]
fn meshes_draw_in_registration_order() {
    let mut engine = new_engine();
    let mut ops = Vec::new();
    engine.register_mesh(triangle_words(), &mut ops).unwrap();
    let mut two_triangles = triangle_words();
    two_triangles.extend(triangle_words());
    engine.register_mesh(two_triangles, &mut ops).unwrap();

    engine.create_instance(1, &identity_words(), &mut ops).unwrap();
    engine.create_instance(0, &identity_words(), &mut ops).unwrap();
    engine.create_instance(1, &identity_words(), &mut ops).unwrap();

    let mut pass_ops = Vec::new();
    engine.render_pass(&mut pass_ops);
    assert_eq!(draw_ops(&pass_ops), vec![(0, 3, 1), (1, 6, 2)]);
    // each pass begins by uploading the two camera uniforms
    assert!(matches!(pass_ops[0], DeviceOp::SetViewMatrix { .. }));
    assert!(matches!(pass_ops[1], DeviceOp::SetProjectionMatrix { .. }));
}

#[test]
fn camera_matrices_validate_their_length() {
    let mut engine = new_engine();
    let mut ops = Vec::new();
    assert_eq!(
        engine.set_view_matrix(&vec![0; 3], &mut ops),
        Err(RenderError::ValidationError)
    );
    engine.set_view_matrix(&words_filled(7), &mut ops).unwrap();
    engine.set_projection_matrix(&words_filled(8), &mut ops).unwrap();
    assert_eq!(
        ops,
        vec![
            DeviceOp::SetViewMatrix { matrix: [7u32; 16] },
            DeviceOp::SetProjectionMatrix { matrix: [8u32; 16] },
        ]
    );
}

#[test]
fn defragment_reclaims_headroom_for_every_mesh() {
    let mut engine = new_engine();
    let mut ops = Vec::new();
    engine.register_mesh(triangle_words(), &mut ops).unwrap();
    let a = engine.create_instance(0, &words_filled(1), &mut ops).unwrap();
    engine.create_instance(0, &words_filled(2), &mut ops).unwrap();
    engine.remove_instance(a).unwrap();

    let mut defrag_ops = Vec::new();
    engine.defragment_instances(&mut defrag_ops);
    let allocation = defrag_ops.iter().find_map(|op| match op {
        DeviceOp::AllocateInstanceBuffer { buffer, capacity } => Some((*buffer, *capacity)),
        _ => None,
    });
    assert_eq!(allocation, Some((0, 1))); // shrunk to exactly one live row
}

#[test]
fn end_to_end_triangle_pass() {
    let mut engine = new_engine();
    let mut ops = Vec::new();
    let mesh = engine.register_mesh(triangle_words(), &mut ops).unwrap();
    assert_eq!(mesh, 0);
    let first = engine.create_instance(0, &identity_words(), &mut ops).unwrap();
    assert_eq!(first, 0);
    let second = engine.create_instance(0, &identity_words(), &mut ops).unwrap();
    assert_eq!(second, 1);
    engine.remove_instance(first).unwrap();

    let mut pass_ops = Vec::new();
    engine.render_pass(&mut pass_ops);
    assert_eq!(draw_ops(&pass_ops), vec![(0, 3, 1)]);
}
