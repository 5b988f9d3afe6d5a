use ccw_render::shaders::TEXT_OVERLAY_SHADER_WGSL;
use ccw_render::text_atlas::{
    bytes_per_texel, AtlasTextureFormat, FilterMode, TextAtlasRegion, TEXT_ATLAS_FILTER_MODE,
};

#[test]
fn shader_keeps_renderer_camera_layout_names() {
    for expected in [
        "clip_from_world",
        "viewport_and_profile",
        "view_from_world",
        "clip_plane",
        "clip_params",
    ] {
        assert!(TEXT_OVERLAY_SHADER_WGSL.contains(expected));
    }
}

#[test]
fn shader_interprets_outline_width_as_pixels() {
    assert!(
        TEXT_OVERLAY_SHADER_WGSL
            .contains("let outline_radius = min(max(input.sdf_params.y, 0.0), 4.0)"),
        "outline width is a hard bitmap dilation radius in screen pixels"
    );
}

#[test]
fn shader_interprets_embolden_as_pixels() {
    assert!(
        TEXT_OVERLAY_SHADER_WGSL.contains("0.5 - max(input.sdf_params.w, 0.0) * 0.25"),
        "embolden amount should lower the bitmap mask threshold"
    );
}

#[test]
fn shader_uses_binary_bitmap_thresholds_for_hard_edges() {
    assert!(TEXT_OVERLAY_SHADER_WGSL.contains("select(0.0, 1.0, center_alpha >= fill_threshold)"));
    assert!(TEXT_OVERLAY_SHADER_WGSL.contains("textureLoad(text_atlas"));
}

#[test]
fn full_atlas_region_covers_the_atlas() {
    let region = TextAtlasRegion::full(256, 128);
    assert_eq!(region.x, 0);
    assert_eq!(region.y, 0);
    assert_eq!(region.width, 256);
    assert_eq!(region.height, 128);
    assert_eq!(region.byte_len(1), Some(32_768));
    assert_eq!(region.byte_len(4), Some(131_072));
}

#[test]
fn atlas_texel_sizes_follow_format() {
    assert_eq!(bytes_per_texel(AtlasTextureFormat::R8Unorm), 1);
    assert_eq!(bytes_per_texel(AtlasTextureFormat::Rgba8Unorm), 4);
}

use ccw_render::depth::{
    depth_compare_equal_variant, depth_compare_for_text_mode, surface_decal_depth_bias_direction,
    CompareFunction, SceneTextDepthMode,
};
use ccw_render::text_atlas::TextAtlasDescriptor;

#[test]
fn depth_modes_map_to_pipeline_compare_functions() {
    assert_eq!(
        depth_compare_for_text_mode(SceneTextDepthMode::Overlay),
        CompareFunction::Always
    );
    assert_eq!(
        depth_compare_for_text_mode(SceneTextDepthMode::DepthTested),
        CompareFunction::LessEqual
    );
    assert_eq!(
        depth_compare_for_text_mode(SceneTextDepthMode::XRay),
        CompareFunction::Always
    );
}

#[test]
fn equal_depth_variants_keep_the_comparison_direction() {
    assert_eq!(
        depth_compare_equal_variant(CompareFunction::Greater),
        CompareFunction::GreaterEqual
    );
    assert_eq!(
        depth_compare_equal_variant(CompareFunction::GreaterEqual),
        CompareFunction::GreaterEqual
    );
    assert_eq!(
        depth_compare_equal_variant(CompareFunction::Less),
        CompareFunction::LessEqual
    );
    assert_eq!(
        depth_compare_equal_variant(CompareFunction::Always),
        CompareFunction::LessEqual
    );
    assert_eq!(surface_decal_depth_bias_direction(CompareFunction::Greater), 1);
    assert_eq!(surface_decal_depth_bias_direction(CompareFunction::Less), -1);
}

#[test]
fn sdf_atlas_extent_is_at_least_one_texel() {
    let descriptor = TextAtlasDescriptor::sdf_r8(0, 64);
    assert_eq!(descriptor.format, AtlasTextureFormat::R8Unorm);
    let extent = descriptor.extent();
    assert_eq!((extent.width, extent.height, extent.depth_or_array_layers), (1, 64, 1));
}

#[test]
fn text_atlas_uses_nearest_filtering() {
    assert_eq!(TEXT_ATLAS_FILTER_MODE, FilterMode::Nearest);
}
