use vstd::prelude::*;

verus! {

/// GLSL vertex shader for the instanced mesh pipeline: the per-instance
/// transform arrives as four per-instance attribute columns, and positions
/// run through the shared view and projection uniforms.
pub fn vertex_shader_source() -> (source: &'static str)
    ensures
        source@
            == "\nprecision mediump float;\nattribute vec3 a_position;\nattribute vec4 a_color;\nattribute vec4 a_instance_col0;\nattribute vec4 a_instance_col1;\nattribute vec4 a_instance_col2;\nattribute vec4 a_instance_col3;\nuniform mat4 u_view;\nuniform mat4 u_projection;\nvarying vec4 v_color;\n\nvoid main() {\n    mat4 model = mat4(\n        a_instance_col0,\n        a_instance_col1,\n        a_instance_col2,\n        a_instance_col3\n    );\n    gl_Position = u_projection * u_view * model * vec4(a_position, 1.0);\n    v_color = a_color;\n}\n"@,
{
    "\nprecision mediump float;\nattribute vec3 a_position;\nattribute vec4 a_color;\nattribute vec4 a_instance_col0;\nattribute vec4 a_instance_col1;\nattribute vec4 a_instance_col2;\nattribute vec4 a_instance_col3;\nuniform mat4 u_view;\nuniform mat4 u_projection;\nvarying vec4 v_color;\n\nvoid main() {\n    mat4 model = mat4(\n        a_instance_col0,\n        a_instance_col1,\n        a_instance_col2,\n        a_instance_col3\n    );\n    gl_Position = u_projection * u_view * model * vec4(a_position, 1.0);\n    v_color = a_color;\n}\n"
}

/// GLSL fragment shader for the instanced mesh pipeline: paints the
/// interpolated per-vertex color.
pub fn fragment_shader_source() -> (source: &'static str)
    ensures
        source@
            == "\nprecision mediump float;\nvarying vec4 v_color;\n\nvoid main() {\n    gl_FragColor = v_color;\n}\n"@,
{
    "\nprecision mediump float;\nvarying vec4 v_color;\n\nvoid main() {\n    gl_FragColor = v_color;\n}\n"
}

/// GLSL vertex shader for the time-series line overlay: positions arrive
/// already normalized to clip space.
pub fn timeseries_vertex_shader_source() -> (source: &'static str)
    ensures
        source@
            == "\nprecision mediump float;\nattribute vec2 a_position;\n\nvoid main() {\n    gl_Position = vec4(a_position, 0.0, 1.0);\n}\n"@,
{
    "\nprecision mediump float;\nattribute vec2 a_position;\n\nvoid main() {\n    gl_Position = vec4(a_position, 0.0, 1.0);\n}\n"
}

/// GLSL fragment shader for the time-series line overlay: paints the
/// line's uniform color.
pub fn timeseries_fragment_shader_source() -> (source: &'static str)
    ensures
        source@
            == "\nprecision mediump float;\nuniform vec4 u_color;\n\nvoid main() {\n    gl_FragColor = u_color;\n}\n"@,
{
    "\nprecision mediump float;\nuniform vec4 u_color;\n\nvoid main() {\n    gl_FragColor = u_color;\n}\n"
}

} // verus!
