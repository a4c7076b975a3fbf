use mesh_scene::device::{DeviceMesh, Stream};
use mesh_scene::pipeline::{AttribBinding, DefaultPipeline, PipelineError, UniformLookup};

fn pipeline() -> DefaultPipeline<u32> {
    DefaultPipeline::from_locations(Some(100), Some(101), 0, 1, 2, 3).unwrap()
}

#[test]
fn required_locations() {
    let p = pipeline();
    assert_eq!(*p.perspective_loc(), 100);
    assert_eq!(*p.model_view_loc(), 101);
    assert_eq!(
        DefaultPipeline::<u32>::from_locations(None, Some(1), 0, 1, 2, 3).err(),
        Some(PipelineError::UnknownUniform)
    );
    assert_eq!(
        DefaultPipeline::<u32>::from_locations(Some(1), None, 0, 1, 2, 3).err(),
        Some(PipelineError::UnknownUniform)
    );
    assert_eq!(
        DefaultPipeline::from_locations(Some(1u32), Some(2), 0, -1, 2, 3).err(),
        Some(PipelineError::UnknownAttribute)
    );
}

#[test]
fn bind_wires_each_stream() {
    let p = DefaultPipeline::from_locations(Some(1u32), Some(2), 5, 6, 7, 8).unwrap();
    let mesh = DeviceMesh::new(0u32, 1, 2, 3, 3);
    assert_eq!(
        p.bind(&mesh),
        vec![
            AttribBinding { stream: Stream::Position, location: 5, components: 3 },
            AttribBinding { stream: Stream::Uv, location: 6, components: 2 },
            AttribBinding { stream: Stream::Tangent, location: 7, components: 3 },
            AttribBinding { stream: Stream::Bitangent, location: 8, components: 3 },
        ]
    );
}

#[test]
fn uniform_cache_three_outcomes() {
    let mut p = pipeline();
    assert!(matches!(p.lookup_uniform("diffuse"), UniformLookup::NotQueried));
    assert_eq!(p.get_extra_uniform("diffuse").err(), Some(PipelineError::UnknownUniform));
    p.record_uniform("diffuse", Some(7));
    p.record_uniform("normal_map", None);
    assert!(matches!(p.lookup_uniform("diffuse"), UniformLookup::Resolved(&7)));
    assert!(matches!(p.lookup_uniform("normal_map"), UniformLookup::Absent));
    assert!(matches!(p.lookup_uniform("other"), UniformLookup::NotQueried));
    assert_eq!(p.get_extra_uniform("diffuse"), Ok(&7));
    assert_eq!(p.get_extra_uniform("normal_map").err(), Some(PipelineError::UnknownUniform));
}
