use instanced_renderer::shader::{
    fragment_shader_source, timeseries_fragment_shader_source, timeseries_vertex_shader_source,
    vertex_shader_source,
};

#[test]
fn instanced_vertex_shader_wires_instance_columns() {
    let source = vertex_shader_source();
    assert!(source.contains("a_position"));
    assert!(source.contains("a_instance_col0"));
    assert!(source.contains("a_instance_col3"));
    assert!(source.contains("u_view"));
    assert!(source.contains("u_projection"));
}

#[test]
fn instanced_fragment_shader_paints_vertex_color() {
    assert!(fragment_shader_source().contains("v_color"));
}

#[test]
fn timeseries_shaders_use_clip_space_lines() {
    assert!(timeseries_vertex_shader_source().contains("vec2 a_position"));
    assert!(timeseries_fragment_shader_source().contains("u_color"));
}
