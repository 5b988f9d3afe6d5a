use ccw_render::project::GeometryStartViewRequest;
use ccw_render::tokens::{
    keep_non_blank, parse_section_modes, section_resource_or_current,
    annotation_depth_mode_name, annotation_lifecycle_name, normalize_annotation_token,
    parse_annotation_depth_mode, parse_annotation_lifecycle, parse_annotation_primitive_kind,
    parse_marker_kind, parse_section_clip_mode, parse_section_display_mode,
    parse_text_horizontal_align, parse_text_vertical_align, parse_web_view_mode,
    require_non_empty_annotation_id, section_clip_mode_name, section_display_mode_name,
    AnnotationPrimitiveKind, SceneAnnotationDepthMode, SceneAnnotationLifecycle, SceneMarkerKind,
    SceneTextHorizontalAlign, SceneTextVerticalAlign, SectionClipMode, SectionDisplayMode,
};

#[test]
fn annotation_tokens_ignore_case_separators_and_padding() {
    assert_eq!(normalize_annotation_token("  Depth_Tested \n"), "depthtested");
    assert_eq!(normalize_annotation_token("X-Ray"), "xray");
    assert_eq!(normalize_annotation_token("\u{a0}Poly Line\u{3000}"), "polyline");
}

#[test]
fn annotation_fields_parse_with_defaults_and_aliases() {
    assert_eq!(
        parse_annotation_lifecycle(None),
        Ok(SceneAnnotationLifecycle::Temporary)
    );
    assert_eq!(
        parse_annotation_lifecycle(Some("Persistent")),
        Ok(SceneAnnotationLifecycle::Pinned)
    );
    assert_eq!(
        parse_annotation_lifecycle(Some("forever")),
        Err("unknown annotation lifecycle `forever`".to_string())
    );
    assert_eq!(
        parse_annotation_depth_mode(Some("depth-tested")),
        Ok(SceneAnnotationDepthMode::DepthTested)
    );
    assert_eq!(
        parse_annotation_depth_mode(Some("through")),
        Ok(SceneAnnotationDepthMode::XRay)
    );
    assert_eq!(parse_marker_kind(Some("x")), Ok(SceneMarkerKind::Cross));
    assert_eq!(parse_marker_kind(None), Ok(SceneMarkerKind::Dot));
    assert_eq!(
        parse_marker_kind(Some("star")),
        Err("unknown annotation marker kind `star`".to_string())
    );
    assert_eq!(
        parse_text_horizontal_align(Some("END")),
        Ok(SceneTextHorizontalAlign::Right)
    );
    assert_eq!(
        parse_text_vertical_align(Some("base line")),
        Ok(SceneTextVerticalAlign::Baseline)
    );
    assert_eq!(
        parse_annotation_primitive_kind("Label"),
        Ok(AnnotationPrimitiveKind::Text)
    );
    assert_eq!(
        parse_annotation_primitive_kind("circle"),
        Err("unknown annotation primitive type `circle`".to_string())
    );
}

#[test]
fn annotation_names_parse_back() {
    for lifecycle in [
        SceneAnnotationLifecycle::Temporary,
        SceneAnnotationLifecycle::Pinned,
        SceneAnnotationLifecycle::Diagnostic,
    ] {
        assert_eq!(
            parse_annotation_lifecycle(Some(annotation_lifecycle_name(lifecycle))),
            Ok(lifecycle)
        );
    }
    for mode in [
        SceneAnnotationDepthMode::Overlay,
        SceneAnnotationDepthMode::DepthTested,
        SceneAnnotationDepthMode::XRay,
    ] {
        assert_eq!(
            parse_annotation_depth_mode(Some(annotation_depth_mode_name(mode))),
            Ok(mode)
        );
    }
}

#[test]
fn section_modes_parse_with_defaults() {
    assert_eq!(
        parse_section_display_mode(None),
        Ok(SectionDisplayMode::ThreeDOverlay)
    );
    assert_eq!(
        parse_section_display_mode(Some(" 2D-Section ")),
        Ok(SectionDisplayMode::TwoDSection)
    );
    assert_eq!(
        parse_section_display_mode(Some("plan")),
        Err("unknown section display mode `plan`".to_string())
    );
    assert_eq!(parse_section_clip_mode(None), Ok(SectionClipMode::NoClip));
    assert_eq!(
        parse_section_clip_mode(Some("Cut")),
        Ok(SectionClipMode::ClipPositiveNormal)
    );
    assert_eq!(
        parse_section_clip_mode(Some("clip-negative-normal")),
        Ok(SectionClipMode::ClipNegativeNormal)
    );
    assert_eq!(
        section_display_mode_name(SectionDisplayMode::TwoDSection),
        "2d-section"
    );
    assert_eq!(
        section_clip_mode_name(SectionClipMode::ClipPositiveNormal),
        "clip-positive-normal"
    );
}

#[test]
fn web_view_modes_parse() {
    assert_eq!(
        parse_web_view_mode(" ALL "),
        Ok(GeometryStartViewRequest::All)
    );
    assert_eq!(
        parse_web_view_mode("default"),
        Ok(GeometryStartViewRequest::Default)
    );
    assert_eq!(
        parse_web_view_mode("Minimal"),
        Err("unknown web view mode `minimal`; expected `default` or `all`".to_string())
    );
}

#[test]
fn annotation_ids_are_trimmed_and_required() {
    assert_eq!(
        require_non_empty_annotation_id("layer id", "  a1 ".to_string()),
        Ok("a1".to_string())
    );
    assert_eq!(
        require_non_empty_annotation_id("layer id", " \t".to_string()),
        Err("annotation layer id must not be empty".to_string())
    );
}

#[test]
fn blank_request_fields_are_dropped() {
    assert_eq!(keep_non_blank(None), None);
    assert_eq!(keep_non_blank(Some(" \t".to_string())), None);
    assert_eq!(keep_non_blank(Some("".to_string())), None);
    assert_eq!(
        keep_non_blank(Some(" align-1 ".to_string())),
        Some(" align-1 ".to_string())
    );
    assert_eq!(
        section_resource_or_current(Some("  ".to_string()), "ifc/current"),
        "ifc/current"
    );
    assert_eq!(section_resource_or_current(None, "ifc/current"), "ifc/current");
    assert_eq!(
        section_resource_or_current(Some("ifc/other".to_string()), "ifc/current"),
        "ifc/other"
    );
}

#[test]
fn only_the_overlay_section_display_is_drawn() {
    assert_eq!(
        parse_section_modes(None, None),
        Ok((SectionDisplayMode::ThreeDOverlay, SectionClipMode::NoClip))
    );
    assert_eq!(
        parse_section_modes(Some(" 3D-Overlay "), Some("cut")),
        Ok((
            SectionDisplayMode::ThreeDOverlay,
            SectionClipMode::ClipPositiveNormal
        ))
    );
    assert_eq!(
        parse_section_modes(Some("2d-section"), Some("negative")).unwrap_err(),
        "section display mode `2d-section` is not implemented yet; use `3d-overlay`"
    );
    assert_eq!(
        parse_section_modes(Some("both"), Some("sideways")).unwrap_err(),
        "unknown section clip mode `sideways`"
    );
    assert_eq!(
        parse_section_modes(Some("flat"), Some("sideways")).unwrap_err(),
        "unknown section display mode `flat`"
    );
}

#[test]
fn section_mode_names_parse_back() {
    for mode in [
        SectionDisplayMode::ThreeDOverlay,
        SectionDisplayMode::TwoDSection,
        SectionDisplayMode::Both,
    ] {
        assert_eq!(
            parse_section_display_mode(Some(section_display_mode_name(mode))),
            Ok(mode)
        );
    }
    for mode in [
        SectionClipMode::NoClip,
        SectionClipMode::ClipPositiveNormal,
        SectionClipMode::ClipNegativeNormal,
    ] {
        assert_eq!(
            parse_section_clip_mode(Some(section_clip_mode_name(mode))),
            Ok(mode)
        );
    }
}
