use ccw_render::project::GeometryStartViewRequest;
use ccw_render::web::{
    local_web_resource_catalog, served_resource_catalog,
    friendly_resource_label, resource_catalog_resources, web_view_mode_name, WebInteractionMode,
    WebProjectResourceCatalogEntry, WebResourceCatalog,
};

#[test]
fn catalog_resources_keep_models_and_projects_once() {
    let catalog = WebResourceCatalog {
        resources: vec![
            "ifc/a".to_string(),
            "demo/x".to_string(),
            "project/p".to_string(),
            "ifc/a".to_string(),
        ],
        projects: vec![
            WebProjectResourceCatalogEntry {
                resource: "project/p".to_string(),
                label: "P".to_string(),
                members: vec!["ifc/a".to_string()],
            },
            WebProjectResourceCatalogEntry {
                resource: "project/q".to_string(),
                label: "Q".to_string(),
                members: Vec::new(),
            },
            WebProjectResourceCatalogEntry {
                resource: "ifc/b".to_string(),
                label: "B".to_string(),
                members: Vec::new(),
            },
        ],
    };
    assert_eq!(
        resource_catalog_resources(&catalog),
        vec!["ifc/a", "project/p", "project/q"]
    );
}

#[test]
fn resource_labels_drop_the_kind_prefix() {
    assert_eq!(
        friendly_resource_label("demo/mapped-pentagon-pair"),
        "mapped-pentagon-pair (per-instance color)"
    );
    assert_eq!(friendly_resource_label("demo/revolved-solid"), "revolved-solid");
    assert_eq!(friendly_resource_label("ifc/ifc/house"), "house");
    assert_eq!(friendly_resource_label("project/site"), "site");
    assert_eq!(friendly_resource_label("other/thing"), "other/thing");
}

#[test]
fn view_modes_have_names() {
    assert_eq!(web_view_mode_name(&GeometryStartViewRequest::Default), "default");
    assert_eq!(web_view_mode_name(&GeometryStartViewRequest::Minimal(3)), "minimal");
    assert_eq!(web_view_mode_name(&GeometryStartViewRequest::All), "all");
    assert_eq!(
        web_view_mode_name(&GeometryStartViewRequest::Elements(Vec::new())),
        "elements"
    );
}

#[test]
fn picker_values_name_their_tools() {
    let mode = WebInteractionMode::from_picker_value("orbit-pick");
    assert!(mode.can_orbit() && mode.can_pick() && mode.can_pan());
    let mode = WebInteractionMode::from_picker_value("pick");
    assert!(!mode.can_orbit() && mode.can_pick() && !mode.can_pan());
    let mode = WebInteractionMode::from_picker_value("pan");
    assert!(!mode.can_orbit() && !mode.can_pick() && mode.can_pan());
    let mode = WebInteractionMode::from_picker_value("none");
    assert!(!mode.can_orbit() && !mode.can_pick() && !mode.can_pan());
    let mode = WebInteractionMode::from_picker_value("zoom");
    assert!(mode.can_orbit() && !mode.can_pick() && mode.can_pan());
    let mode = WebInteractionMode::from_picker_value("orbitpick");
    assert!(mode.can_orbit() && !mode.can_pick() && mode.can_pan());
}

#[test]
fn served_catalogs_keep_model_resources_and_refuse_empty_answers() {
    let answer = WebResourceCatalog {
        resources: vec![
            "demo/pentagon".to_string(),
            "ifc/a".to_string(),
            "project/p".to_string(),
            "ifc/a".to_string(),
        ],
        projects: vec![WebProjectResourceCatalogEntry {
            resource: "project/p".to_string(),
            label: "P".to_string(),
            members: vec!["ifc/a".to_string()],
        }],
    };
    let catalog = served_resource_catalog(answer.clone()).unwrap();
    assert_eq!(
        catalog.resources,
        vec!["ifc/a".to_string(), "project/p".to_string(), "ifc/a".to_string()]
    );
    assert_eq!(catalog.projects, answer.projects);
    let demos_only = WebResourceCatalog {
        resources: vec!["demo/pentagon".to_string()],
        projects: Vec::new(),
    };
    assert_eq!(
        served_resource_catalog(demos_only).unwrap_err(),
        "server returned an empty resource catalog"
    );
    let local = local_web_resource_catalog();
    assert_eq!(local.resources, vec!["ifc/building-architecture".to_string()]);
    assert!(local.projects.is_empty());
}
