use ccw_render::classes::{
    default_render_class_name, needs_depth_sampling, parse_default_render_class,
    parse_face_visibility, DefaultRenderClass, FaceVisibility, RenderLayer,
};
use ccw_render::depth::SceneTextDepthMode;
use ccw_render::mesh_edges::triangle_indices;
use ccw_render::text_atlas::{atlas_update_len, TextAtlasRegion};
use ccw_render::tokens::{
    marker_kind_name, parse_marker_kind, parse_text_horizontal_align, parse_text_vertical_align,
    text_depth_mode_name, text_horizontal_align_name, text_vertical_align_name, SceneMarkerKind,
    SceneTextHorizontalAlign, SceneTextVerticalAlign,
};
use ccw_render::RenderProfileId;

#[test]
fn marker_and_alignment_names_parse_back() {
    for kind in [
        SceneMarkerKind::Dot,
        SceneMarkerKind::Cross,
        SceneMarkerKind::Tick,
        SceneMarkerKind::Arrow,
    ] {
        assert_eq!(parse_marker_kind(Some(marker_kind_name(kind))), Ok(kind));
    }
    assert_eq!(marker_kind_name(SceneMarkerKind::Tick), "tick");
    for align in [
        SceneTextHorizontalAlign::Center,
        SceneTextHorizontalAlign::Left,
        SceneTextHorizontalAlign::Right,
    ] {
        assert_eq!(
            parse_text_horizontal_align(Some(text_horizontal_align_name(align))),
            Ok(align)
        );
    }
    assert_eq!(text_horizontal_align_name(SceneTextHorizontalAlign::Right), "right");
    for align in [
        SceneTextVerticalAlign::Middle,
        SceneTextVerticalAlign::Top,
        SceneTextVerticalAlign::Bottom,
        SceneTextVerticalAlign::Baseline,
    ] {
        assert_eq!(
            parse_text_vertical_align(Some(text_vertical_align_name(align))),
            Ok(align)
        );
    }
    assert_eq!(text_vertical_align_name(SceneTextVerticalAlign::Baseline), "baseline");
}

#[test]
fn text_depth_modes_have_wire_names() {
    assert_eq!(text_depth_mode_name(SceneTextDepthMode::Overlay), "overlay");
    assert_eq!(text_depth_mode_name(SceneTextDepthMode::DepthTested), "depth-tested");
    assert_eq!(text_depth_mode_name(SceneTextDepthMode::XRay), "xray");
}

#[test]
fn render_class_names_parse_back() {
    for class in [
        DefaultRenderClass::Physical,
        DefaultRenderClass::Course,
        DefaultRenderClass::Space,
        DefaultRenderClass::Zone,
        DefaultRenderClass::Helper,
        DefaultRenderClass::Terrain,
        DefaultRenderClass::TerrainFeature,
        DefaultRenderClass::Vegetation,
        DefaultRenderClass::VegetationCover,
        DefaultRenderClass::Water,
        DefaultRenderClass::SurfaceDecal,
        DefaultRenderClass::Other,
    ] {
        assert_eq!(
            parse_default_render_class(default_render_class_name(class)),
            Ok(class)
        );
    }
    assert_eq!(
        default_render_class_name(DefaultRenderClass::TerrainFeature),
        "terrain-feature"
    );
}

#[test]
fn face_visibility_names_are_checked() {
    assert_eq!(parse_face_visibility("one-sided"), Ok(FaceVisibility::OneSided));
    assert_eq!(
        parse_face_visibility("double-sided"),
        Ok(FaceVisibility::DoubleSided)
    );
    assert_eq!(
        parse_face_visibility("both").unwrap_err(),
        "unknown face visibility `both`"
    );
}

#[test]
fn surface_decals_get_their_own_layer() {
    assert_eq!(
        RenderLayer::for_render_class(DefaultRenderClass::SurfaceDecal),
        RenderLayer::SurfaceDecal
    );
    assert_eq!(
        RenderLayer::for_render_class(DefaultRenderClass::Physical),
        RenderLayer::Opaque
    );
}

#[test]
fn depth_sampling_needs_an_outline_profile_and_a_device() {
    assert!(needs_depth_sampling(RenderProfileId::ArchitecturalV3, true));
    assert!(!needs_depth_sampling(RenderProfileId::ArchitecturalV3, false));
    assert!(!needs_depth_sampling(RenderProfileId::Diffuse, true));
}

#[test]
fn triangles_take_their_first_three_indices() {
    assert_eq!(triangle_indices(&[4, 5, 6, 7]), Some([4, 5, 6]));
    assert_eq!(triangle_indices(&[4, 5]), None);
}

#[test]
fn atlas_updates_must_fit_the_atlas_and_carry_enough_bytes() {
    let region = TextAtlasRegion {
        x: 2,
        y: 3,
        width: 4,
        height: 5,
    };
    assert_eq!(atlas_update_len(region, 1, 20, 8, 8), Some(20));
    assert_eq!(atlas_update_len(region, 4, 80, 8, 8), Some(80));
    assert_eq!(atlas_update_len(region, 1, 19, 8, 8), None);
    assert_eq!(atlas_update_len(region, 1, 20, 5, 8), None);
    assert_eq!(atlas_update_len(region, 0, 0, 1, 1), Some(0));
    let empty = TextAtlasRegion {
        x: 100,
        y: 100,
        width: 0,
        height: 5,
    };
    assert_eq!(atlas_update_len(empty, 1, 0, 8, 8), Some(0));
}
