use instanced_renderer::batcher::{Mesh, MESH_VERTEX_STRIDE};
use instanced_renderer::utils::RenderError;

fn to_bits(values: Vec<f32>) -> Vec<u32> {
    values.iter().map(|v| v.to_bits()).collect()
}

fn sample_vertex_data() -> Vec<f32> {
    vec![
        // tri 1
        0.0, 0.0, 0.0, 1.0, 0.0, 0.0, 1.0, //
        1.0, 0.0, 0.0, 0.0, 1.0, 0.0, 1.0, //
        0.0, 1.0, 0.0, 0.0, 0.0, 1.0, 1.0, //
    ]
}

#[test]
fn mesh_validation() {
    assert!(Mesh::new(vec![]).is_err());
    assert!(Mesh::new(to_bits(vec![0.0; 5])).is_err()); // not stride-aligned
    assert!(Mesh::new(to_bits(sample_vertex_data())).is_ok());
}

#[test]
fn mesh_errors_are_validation_errors() {
    assert_eq!(Mesh::new(vec![]).err(), Some(RenderError::ValidationError));
    assert_eq!(
        Mesh::new(to_bits(vec![0.5; 9])).err(),
        Some(RenderError::ValidationError)
    );
}

#[test]
fn mesh_vertex_count_follows_stride() {
    let mesh = Mesh::new(to_bits(sample_vertex_data())).unwrap();
    assert_eq!(MESH_VERTEX_STRIDE, 7);
    assert_eq!(mesh.vertex_count(), 3);
    assert_eq!(mesh.raw().len(), 21);
}
