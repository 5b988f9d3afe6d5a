use ccw_render::annotation::AnnotationDepthBucket;
use ccw_render::tokens::SceneAnnotationDepthMode;
use ccw_render::annotation::AnnotationOverlayError;
use ccw_render::prepare::{GeometryError, MeshPreparePipeline, PrepareError};

#[test]
fn annotation_errors_name_the_offending_value() {
    assert_eq!(
        AnnotationOverlayError::NonFinitePoint {
            layer_index: 2,
            primitive_index: 10,
            point_index: 0,
        }
        .message(),
        "annotation layer 2 primitive 10 point 0 is not finite"
    );
    assert_eq!(
        AnnotationOverlayError::NonFiniteColor {
            layer_index: 0,
            primitive_index: 1,
            component_index: 3,
        }
        .message(),
        "annotation layer 0 primitive 1 color component 3 is not finite"
    );
    assert_eq!(
        AnnotationOverlayError::NonFiniteSize {
            layer_index: 4,
            primitive_index: 5,
        }
        .message(),
        "annotation layer 4 primitive 5 size is not finite"
    );
    assert_eq!(
        AnnotationOverlayError::InvalidTextSize { label_index: 12 }.message(),
        "annotation text label 12 size is not finite or positive"
    );
    assert_eq!(
        AnnotationOverlayError::TextLayout { label_index: 0 }.message(),
        "annotation text label 0 could not be laid out"
    );
}

#[test]
fn prepared_meshes_give_each_corner_its_own_vertex() {
    let pipeline = MeshPreparePipeline::default();
    let layout = pipeline
        .prepare_mesh_layout(&[[0, 1, 2], [2, 1, 3]])
        .unwrap();
    assert_eq!(layout.source_positions, vec![0, 1, 2, 2, 1, 3]);
    assert_eq!(layout.indices, vec![0, 1, 2, 3, 4, 5]);
}

#[test]
fn empty_meshes_are_refused() {
    assert_eq!(
        MeshPreparePipeline.prepare_mesh_layout(&[]),
        Err(PrepareError::Geometry(GeometryError::EmptyMesh))
    );
}

#[test]
fn overlay_and_xray_annotations_draw_through_the_scene() {
    assert_eq!(
        AnnotationDepthBucket::from_mode(SceneAnnotationDepthMode::DepthTested),
        AnnotationDepthBucket::DepthTested
    );
    assert_eq!(
        AnnotationDepthBucket::from_mode(SceneAnnotationDepthMode::Overlay),
        AnnotationDepthBucket::DrawThrough
    );
    assert_eq!(
        AnnotationDepthBucket::from_mode(SceneAnnotationDepthMode::XRay),
        AnnotationDepthBucket::DrawThrough
    );
}
