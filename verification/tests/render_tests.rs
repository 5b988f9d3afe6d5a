use ccw_render::backend::{NullRenderBackend, GPU_VERTEX_STRIDE};
use ccw_render::classes::{
    edge_visibility_for_render_class, outline_index_for_instance,
    uses_architectural_surface_lighting, uses_screen_space_outline, DefaultRenderClass,
};
use ccw_render::readback::{
    count_target_pick_pixels, decode_pick_hit_indices, decode_pick_hit_pixels, decode_pick_index, encode_pick_index,
    readback_layout, strip_padded_rows, u32_values_from_bytes, RenderedImage,
};
use ccw_render::viewport::{
    clamp_pick_region, expand_pick_region_to_minimum, PickRegion, ViewportSize,
};
use ccw_render::RenderProfileId;

#[test]
fn architectural_profiles_use_matte_surface_lighting() {
    assert!(!uses_architectural_surface_lighting(RenderProfileId::Diffuse));
    assert!(uses_architectural_surface_lighting(
        RenderProfileId::ArchitecturalV1
    ));
    assert!(uses_architectural_surface_lighting(
        RenderProfileId::ArchitecturalV2
    ));
    assert!(uses_architectural_surface_lighting(
        RenderProfileId::ArchitecturalV3
    ));
    assert!(uses_architectural_surface_lighting(
        RenderProfileId::ArchitecturalV4
    ));
}

#[test]
fn readback_rows_are_de_padded() {
    let bytes = vec![1, 2, 3, 4, 9, 9, 9, 9, 5, 6, 7, 8, 9, 9, 9, 9];
    let rgba8 = strip_padded_rows(&bytes, 4, 8, 2);

    assert_eq!(rgba8, vec![1, 2, 3, 4, 5, 6, 7, 8]);
}

#[test]
fn pick_indices_round_trip_through_rgba_bytes() {
    for index in [0, 1, 255, 256, 65_535, 65_536, 0x12_34_56_78] {
        assert_eq!(decode_pick_index(&encode_pick_index(index)), index);
    }
}

#[test]
fn pick_regions_are_clamped_to_viewport() {
    let viewport = ViewportSize::new(100, 80);

    assert_eq!(
        clamp_pick_region(PickRegion::rect(95, 70, 20, 20), viewport),
        Some(PickRegion::rect(95, 70, 5, 10))
    );
    assert_eq!(clamp_pick_region(PickRegion::pixel(100, 10), viewport), None);
}

#[test]
fn upload_summary_matches_prepared_mesh() {
    let mut backend = NullRenderBackend::default();
    let upload = backend.upload(3, 3);

    assert_eq!(upload.vertex_count, 3);
    assert_eq!(upload.index_count, 3);
    assert_eq!(upload.vertex_stride as usize, std::mem::size_of::<[f32; 6]>());
}

#[test]
fn render_classes_control_architectural_edge_overlay_by_edge_kind() {
    let cases = [
        (DefaultRenderClass::Physical, 1, true, true, 1),
        (DefaultRenderClass::Terrain, 2, false, false, 0),
        (DefaultRenderClass::TerrainFeature, 3, false, true, 3),
        (DefaultRenderClass::Vegetation, 4, true, false, 4),
        (DefaultRenderClass::VegetationCover, 5, false, false, 0),
        (DefaultRenderClass::Water, 6, false, false, 0),
        (DefaultRenderClass::SurfaceDecal, 7, false, false, 0),
    ];
    for (class, pick_index, boundary, crease, outline) in cases {
        let visibility = edge_visibility_for_render_class(class);
        assert_eq!(visibility.boundary, boundary);
        assert_eq!(visibility.crease, crease);
        assert_eq!(outline_index_for_instance(pick_index, class), outline);
    }
}

#[test]
fn uploads_are_numbered_from_one() {
    let mut backend = NullRenderBackend::new();
    let first = backend.upload(3, 3);
    let second = backend.upload(6, 9);
    assert_eq!(first.mesh_id, 1);
    assert_eq!(second.mesh_id, 2);
    assert_eq!(second.vertex_stride, GPU_VERTEX_STRIDE);
    assert_eq!(backend.uploads().len(), 2);
    assert_eq!(backend.uploads()[1].index_count, 9);
}

#[test]
fn screen_space_outline_follows_profile() {
    assert!(!uses_screen_space_outline(RenderProfileId::Diffuse));
    assert!(!uses_screen_space_outline(RenderProfileId::Architectural));
    assert!(!uses_screen_space_outline(RenderProfileId::ArchitecturalV1));
    assert!(uses_screen_space_outline(RenderProfileId::ArchitecturalV2));
    assert!(uses_screen_space_outline(RenderProfileId::ArchitecturalV3));
    assert!(uses_screen_space_outline(RenderProfileId::ArchitecturalV4));
}

#[test]
fn viewport_sizes_are_clamped_to_one_pixel() {
    let viewport = ViewportSize::new(0, 0).clamped();
    assert_eq!(viewport, ViewportSize::new(1, 1));
    assert_eq!(ViewportSize::new(640, 0).clamped(), ViewportSize::new(640, 1));
}

#[test]
fn small_pick_regions_grow_around_their_centre() {
    let viewport = ViewportSize::new(100, 80);
    assert_eq!(
        expand_pick_region_to_minimum(PickRegion::pixel(50, 40), viewport, 9, 9),
        PickRegion::rect(46, 36, 9, 9)
    );
    assert_eq!(
        expand_pick_region_to_minimum(PickRegion::pixel(0, 0), viewport, 9, 9),
        PickRegion::rect(0, 0, 9, 9)
    );
    assert_eq!(
        expand_pick_region_to_minimum(PickRegion::pixel(99, 79), viewport, 9, 9),
        PickRegion::rect(91, 71, 9, 9)
    );
}

#[test]
fn readback_layout_pads_rows_to_copy_alignment() {
    let layout = readback_layout(20, 10, "pick region").unwrap();
    assert_eq!(layout.unpadded_bytes_per_row, 80);
    assert_eq!(layout.padded_bytes_per_row, 256);
    assert_eq!(layout.size, 2560);
    let exact = readback_layout(64, 2, "pick region").unwrap();
    assert_eq!(exact.padded_bytes_per_row, 256);
    assert_eq!(exact.size, 512);
    assert_eq!(
        readback_layout(u32::MAX, 1, "pick region").unwrap_err(),
        "pick region row is too wide"
    );
}

#[test]
fn pick_buffers_decode_to_unique_targets_in_first_seen_order() {
    let mut bytes = Vec::new();
    for index in [0u32, 2, 2, 1, 7, 2] {
        bytes.extend_from_slice(&encode_pick_index(index));
    }
    assert_eq!(decode_pick_hit_indices(&bytes, 3), vec![1, 0]);
}

#[test]
fn pick_hits_keep_the_pixel_where_each_target_was_first_seen() {
    let mut bytes = Vec::new();
    for index in [0u32, 2, 2, 1, 7, 2, 3] {
        bytes.extend_from_slice(&encode_pick_index(index));
    }
    assert_eq!(
        decode_pick_hit_pixels(&bytes, 3),
        vec![(1, 1), (0, 3), (2, 6)]
    );
    assert_eq!(decode_pick_hit_pixels(&bytes, 0), vec![]);
    assert_eq!(decode_pick_hit_pixels(&[2, 0, 0], 3), vec![]);
}

#[test]
fn u32_values_are_read_four_bytes_at_a_time() {
    let mut bytes = Vec::new();
    bytes.extend_from_slice(&encode_pick_index(5));
    bytes.extend_from_slice(&encode_pick_index(0x0102_0304));
    assert_eq!(
        u32_values_from_bytes(&bytes, "depth bits").unwrap(),
        vec![5, 0x0102_0304]
    );
    assert_eq!(
        u32_values_from_bytes(&[1, 2, 3], "depth bits").unwrap_err(),
        "depth bits had a non-u32 byte length"
    );
}

#[test]
fn target_pixels_are_counted_by_flag() {
    let mut bytes = Vec::new();
    for index in [0u32, 1, 2, 2, 3, 9] {
        bytes.extend_from_slice(&encode_pick_index(index));
    }
    assert_eq!(count_target_pick_pixels(&bytes, &[false, true, true]), 3);
    assert_eq!(count_target_pick_pixels(&bytes, &[true]), 1);
}

#[test]
fn rendered_images_report_variation() {
    let flat = RenderedImage {
        width: 2,
        height: 1,
        rgba8: vec![10, 20, 30, 255, 10, 20, 30, 255],
    };
    let varied = RenderedImage {
        width: 2,
        height: 1,
        rgba8: vec![10, 20, 30, 255, 11, 20, 30, 255],
    };
    assert!(!flat.has_variation());
    assert!(varied.has_variation());
}
