use ccw_render::viewport::{pick_region_around_span, pick_region_spanning, PickRegion, ViewportSize};
use ccw_render::profile::parse_render_profile_id;
use ccw_render::project::{CatalogElement, CatalogInstance, GeometryStartViewRequest, MemberCatalog};
use ccw_render::status::{web_viewer_status_line, ViewerStatusCounts};
use ccw_render::web::{initial_web_resource, is_text_input_tag, resource_search_values};
use ccw_render::{available_render_profiles, RenderProfileId};

#[test]
fn offered_profiles_parse_and_others_are_refused() {
    let all = available_render_profiles();
    assert_eq!(
        parse_render_profile_id("architectural-v2", &all),
        Ok(RenderProfileId::Bim)
    );
    assert_eq!(
        parse_render_profile_id("sketchy", &all).unwrap_err(),
        "unknown render profile `sketchy`"
    );
    let stable: Vec<_> = all.into_iter().filter(|d| !d.experimental).collect();
    assert_eq!(
        parse_render_profile_id("architectural-v4", &stable).unwrap_err(),
        "render profile `architectural-v4` is not available"
    );
    assert_eq!(
        parse_render_profile_id("diffuse", &stable),
        Ok(RenderProfileId::Diffuse)
    );
    assert!(parse_render_profile_id("diffuse", &[]).is_err());
}

#[test]
fn text_entry_controls_are_recognised_in_any_case() {
    assert!(is_text_input_tag("INPUT"));
    assert!(is_text_input_tag("TextArea"));
    assert!(is_text_input_tag("select"));
    assert!(!is_text_input_tag("CANVAS"));
    assert!(!is_text_input_tag("inputs"));
    assert!(!is_text_input_tag(""));
}

#[test]
fn resource_values_come_from_resource_pairs_only() {
    assert_eq!(
        resource_search_values("??resource=ifc%2Fa&x=1&resource=&resource=project%2Fp"),
        vec!["ifc%2Fa".to_string(), "project%2Fp".to_string()]
    );
    assert_eq!(
        resource_search_values("?resources=a&resource=b=c&=resource"),
        vec!["b=c".to_string()]
    );
    assert_eq!(resource_search_values(""), Vec::<String>::new());
    assert_eq!(resource_search_values("?"), Vec::<String>::new());
    assert_eq!(resource_search_values("resource"), Vec::<String>::new());
    assert_eq!(
        resource_search_values("resource=x?&&resource=y"),
        vec!["x?".to_string(), "y".to_string()]
    );
}

#[test]
fn the_initial_resource_prefers_the_request_then_the_default() {
    let offered = vec![
        "ifc/other".to_string(),
        "ifc/building-architecture".to_string(),
    ];
    assert_eq!(initial_web_resource(Some("ifc/other"), &offered), "ifc/other");
    assert_eq!(
        initial_web_resource(Some("ifc/unknown"), &offered),
        "ifc/building-architecture"
    );
    assert_eq!(
        initial_web_resource(None, &offered),
        "ifc/building-architecture"
    );
    let without_default = vec!["demo/a".to_string(), "demo/b".to_string()];
    assert_eq!(initial_web_resource(None, &without_default), "demo/a");
    assert_eq!(
        initial_web_resource(Some("demo/b"), &without_default),
        "demo/b"
    );
    assert_eq!(initial_web_resource(Some("demo/b"), &[]), "ifc/building-architecture");
}

#[test]
fn selected_instances_follow_catalog_order() {
    let catalog = MemberCatalog {
        definition_ids: vec![7, 8],
        elements: vec![
            CatalogElement {
                id: "a".to_string(),
                default_render_class: "physical".to_string(),
            },
            CatalogElement {
                id: "b".to_string(),
                default_render_class: "physical".to_string(),
            },
        ],
        instances: vec![
            CatalogInstance {
                id: 3,
                element_id: "b".to_string(),
                definition_id: 8,
            },
            CatalogInstance {
                id: 1,
                element_id: "a".to_string(),
                definition_id: 7,
            },
            CatalogInstance {
                id: 2,
                element_id: "b".to_string(),
                definition_id: 7,
            },
        ],
    };
    assert_eq!(
        catalog.selected_instance_ids(&["b".to_string(), "zzz".to_string()]),
        vec![3, 2]
    );
    assert_eq!(
        catalog.selected_instance_ids(&["a".to_string(), "b".to_string()]),
        vec![3, 1, 2]
    );
    assert_eq!(catalog.selected_instance_ids(&[]), Vec::<u64>::new());
}

#[test]
fn the_status_line_reports_counts_inspection_section_and_streaming() {
    let counts = ViewerStatusCounts {
        definitions: 12,
        triangles: 3400,
        draws: 40,
        visible_elements: 9,
        total_elements: 10,
        selected_elements: 1,
        inspected_elements: 0,
        missing_instances: 0,
        missing_definitions: 0,
    };
    assert_eq!(
        web_viewer_status_line(
            RenderProfileId::Diffuse,
            &GeometryStartViewRequest::Default,
            &counts,
            None
        ),
        "Diffuse · Default · 12 meshes · 3400 tris · 40 draws · 9/10 visible · 1 selected · stream ok"
    );
    let busy = ViewerStatusCounts {
        inspected_elements: 2,
        missing_instances: 5,
        missing_definitions: 0,
        ..counts
    };
    assert_eq!(
        web_viewer_status_line(
            RenderProfileId::Bim,
            &GeometryStartViewRequest::Elements(vec!["a".to_string()]),
            &busy,
            Some(Some("12.5"))
        ),
        "BIM · Elements · 12 meshes · 3400 tris · 40 draws · 9/10 visible · 1 selected · 2 inspected · section station 12.5 · missing 5 inst / 0 meshes"
    );
    assert_eq!(
        web_viewer_status_line(
            RenderProfileId::Diffuse,
            &GeometryStartViewRequest::Minimal(3),
            &counts,
            Some(None)
        ),
        "Diffuse · Minimal · 12 meshes · 3400 tris · 40 draws · 9/10 visible · 1 selected · section · stream ok"
    );
}

#[test]
fn box_selections_and_bounds_probes_become_pick_regions() {
    assert_eq!(pick_region_spanning(3, 4, 10, 4), PickRegion::rect(3, 4, 8, 1));
    assert_eq!(pick_region_spanning(10, 4, 3, 2), PickRegion::rect(10, 4, 1, 1));
    assert_eq!(
        pick_region_spanning(0, 0, u32::MAX, 0),
        PickRegion::rect(0, 0, u32::MAX, 1)
    );
    let viewport = ViewportSize::new(640, 480);
    assert_eq!(
        pick_region_around_span(10, 10, 20, 20, viewport),
        PickRegion::rect(0, 0, 96, 96)
    );
    assert_eq!(
        pick_region_around_span(300, 200, 310, 210, viewport),
        PickRegion::rect(257, 157, 96, 96)
    );
    assert_eq!(
        pick_region_around_span(0, 0, 639, 479, ViewportSize::new(640, 480)),
        PickRegion::rect(0, 0, 640, 480)
    );
}
