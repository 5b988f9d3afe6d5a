use ccw_render::project::{
    CatalogElement, CatalogInstance, GeometryStartViewRequest, GeometryStreamPlan, MemberCatalog,
    ProjectCatalog, ProjectMember, WebGeometryDefinitionBatchRequest,
    WebGeometryInstanceBatchRequest, WebProjectGeometryBatchRequests,
    WebProjectGeometryStreamPlan,
};

fn colliding_member(resource: &str, default_render_class: &str) -> ProjectMember {
    ProjectMember {
        resource: resource.to_string(),
        catalog: MemberCatalog {
            definition_ids: vec![7],
            elements: vec![CatalogElement {
                id: "shared-local-element".to_string(),
                default_render_class: default_render_class.to_string(),
            }],
            instances: vec![CatalogInstance {
                id: 1,
                element_id: "shared-local-element".to_string(),
                definition_id: 7,
            }],
        },
    }
}

#[test]
fn project_prepared_package_scopes_colliding_local_ids_by_resource() {
    let left = colliding_member("ifc/left", "physical");
    let right = colliding_member("ifc/right", "physical");

    let project = ProjectCatalog::from_members(&[left.clone(), right])
        .expect("colliding local ids should compose when resources differ");

    assert_eq!(project.definition_ids, vec!["ifc/left::7", "ifc/right::7"]);
    assert_eq!(
        project
            .elements
            .iter()
            .map(|element| element.id.as_str())
            .collect::<Vec<_>>(),
        vec![
            "ifc/left::shared-local-element",
            "ifc/right::shared-local-element"
        ]
    );
    assert_eq!(
        project
            .instances
            .iter()
            .map(|instance| {
                (
                    instance.id.as_str(),
                    instance.element_id.as_str(),
                    instance.definition_id.as_str(),
                )
            })
            .collect::<Vec<_>>(),
        vec![
            (
                "ifc/left::1",
                "ifc/left::shared-local-element",
                "ifc/left::7"
            ),
            (
                "ifc/right::1",
                "ifc/right::shared-local-element",
                "ifc/right::7"
            ),
        ]
    );

    assert_eq!(left.catalog.definition_ids[0], 7);
    assert_eq!(left.catalog.elements[0].id, "shared-local-element");
    assert_eq!(left.catalog.instances[0].id, 1);
}

#[test]
fn project_catalog_resolves_default_and_all_visible_state_with_scoped_ids() {
    let catalog = ProjectCatalog::from_members(&[
        colliding_member("ifc/physical", "physical"),
        colliding_member("ifc/space", "space"),
    ])
    .expect("project package should compose");

    let default_view = catalog
        .resolve_start_view(&GeometryStartViewRequest::Default)
        .expect("default start view should resolve");
    assert_eq!(
        default_view.visible_element_ids,
        vec!["ifc/physical::shared-local-element"]
    );
    assert_eq!(
        catalog
            .default_start_view_stream_plan()
            .expect("default stream plan should resolve"),
        WebProjectGeometryStreamPlan {
            instance_ids: vec!["ifc/physical::1".to_string()],
            definition_ids: vec!["ifc/physical::7".to_string()],
        }
    );

    let all_view = catalog
        .resolve_start_view(&GeometryStartViewRequest::All)
        .expect("all start view should resolve");
    assert_eq!(
        all_view.visible_element_ids,
        vec![
            "ifc/physical::shared-local-element",
            "ifc/space::shared-local-element"
        ]
    );
    let all_plan = catalog.stream_plan_for_element_ids(&all_view.visible_element_ids);
    assert_eq!(
        all_plan,
        WebProjectGeometryStreamPlan {
            instance_ids: vec!["ifc/physical::1".to_string(), "ifc/space::1".to_string()],
            definition_ids: vec!["ifc/physical::7".to_string(), "ifc/space::7".to_string()],
        }
    );
    assert_eq!(
        all_plan
            .to_member_batch_requests()
            .expect("scoped stream plan should group back into member-local requests"),
        WebProjectGeometryBatchRequests {
            instance_requests: vec![
                WebGeometryInstanceBatchRequest {
                    resource: "ifc/physical".to_string(),
                    instance_ids: vec![1],
                },
                WebGeometryInstanceBatchRequest {
                    resource: "ifc/space".to_string(),
                    instance_ids: vec![1],
                },
            ],
            definition_requests: vec![
                WebGeometryDefinitionBatchRequest {
                    resource: "ifc/physical".to_string(),
                    definition_ids: vec![7],
                },
                WebGeometryDefinitionBatchRequest {
                    resource: "ifc/space".to_string(),
                    definition_ids: vec![7],
                },
            ],
        }
    );
    assert_eq!(catalog.all_visible_stream_plan(), all_plan);
}

#[test]
fn catalog_default_start_view_stream_plan_uses_default_visible_elements() {
    let catalog = MemberCatalog {
        definition_ids: Vec::new(),
        elements: vec![
            CatalogElement {
                id: "physical".to_string(),
                default_render_class: "physical".to_string(),
            },
            CatalogElement {
                id: "space".to_string(),
                default_render_class: "space".to_string(),
            },
        ],
        instances: vec![
            CatalogInstance {
                id: 10,
                element_id: "physical".to_string(),
                definition_id: 20,
            },
            CatalogInstance {
                id: 11,
                element_id: "space".to_string(),
                definition_id: 21,
            },
        ],
    };

    let plan = catalog
        .default_start_view_stream_plan()
        .expect("catalog plan should resolve");

    assert_eq!(plan.instance_ids, vec![10]);
    assert_eq!(plan.definition_ids, vec![20]);
}

#[test]
fn project_members_are_refused_in_order() {
    let good = colliding_member("ifc/a", "physical");
    assert_eq!(
        ProjectCatalog::from_members(&[good.clone(), colliding_member("ifc/a", "space")]),
        Err("duplicate project member resource `ifc/a`".to_string())
    );
    assert_eq!(
        ProjectCatalog::from_members(&[colliding_member("", "space")]),
        Err("source-scoped id resource must not be empty".to_string())
    );
    assert_eq!(
        ProjectCatalog::from_members(&[good.clone(), colliding_member("ifc::b", "space")]),
        Err("project member resource `ifc::b` must not contain `::`".to_string())
    );
    let mut empty_element = colliding_member("ifc/c", "space");
    empty_element.catalog.instances[0].element_id = String::new();
    assert_eq!(
        ProjectCatalog::from_members(&[good, empty_element]),
        Err("source-scoped id local id must not be empty".to_string())
    );
}

#[test]
fn unknown_render_classes_stop_the_default_view() {
    let catalog = ProjectCatalog::from_members(&[colliding_member("ifc/a", "ghost")]).unwrap();
    assert_eq!(
        catalog.default_start_view_element_ids(),
        Err("unknown default render class `ghost`".to_string())
    );
    assert_eq!(
        catalog
            .resolve_start_view(&GeometryStartViewRequest::All)
            .unwrap()
            .visible_element_ids,
        vec!["ifc/a::shared-local-element"]
    );
}

#[test]
fn minimal_and_listed_start_views() {
    let catalog = ProjectCatalog::from_members(&[
        colliding_member("ifc/a", "physical"),
        colliding_member("ifc/b", "course"),
    ])
    .unwrap();
    assert_eq!(
        catalog
            .resolve_start_view(&GeometryStartViewRequest::Minimal(1))
            .unwrap()
            .visible_element_ids,
        vec!["ifc/a::shared-local-element"]
    );
    assert_eq!(
        catalog
            .resolve_start_view(&GeometryStartViewRequest::Elements(vec![
                "ifc/b::shared-local-element".to_string(),
                "ifc/z::missing".to_string(),
                "ifc/b::shared-local-element".to_string(),
                "ifc/a::shared-local-element".to_string(),
            ]))
            .unwrap()
            .visible_element_ids,
        vec!["ifc/b::shared-local-element", "ifc/a::shared-local-element"]
    );
}

#[test]
fn member_plans_scope_and_group_back() {
    let plan = GeometryStreamPlan {
        instance_ids: vec![3, 1, 2],
        definition_ids: vec![9],
    };
    let scoped = WebProjectGeometryStreamPlan::from_local_stream_plan("ifc/a", &plan).unwrap();
    assert_eq!(scoped.instance_ids, vec!["ifc/a::3", "ifc/a::1", "ifc/a::2"]);
    assert_eq!(scoped.definition_ids, vec!["ifc/a::9"]);
    let requests = scoped.to_member_batch_requests().unwrap();
    assert_eq!(
        requests.instance_requests,
        vec![WebGeometryInstanceBatchRequest {
            resource: "ifc/a".to_string(),
            instance_ids: vec![3, 1, 2],
        }]
    );
    assert_eq!(
        requests.definition_requests,
        vec![WebGeometryDefinitionBatchRequest {
            resource: "ifc/a".to_string(),
            definition_ids: vec![9],
        }]
    );
    assert_eq!(
        WebProjectGeometryStreamPlan::from_local_stream_plan("ifc::a", &plan),
        Err("project member resource `ifc::a` must not contain `::`".to_string())
    );
}

#[test]
fn grouping_counts_each_text_once_and_stops_at_bad_ids() {
    let plan = WebProjectGeometryStreamPlan {
        instance_ids: vec![
            "ifc/a::1".to_string(),
            "ifc/b::1".to_string(),
            "ifc/a::1".to_string(),
            "ifc/a::2".to_string(),
        ],
        definition_ids: Vec::new(),
    };
    let requests = plan.to_member_batch_requests().unwrap();
    assert_eq!(
        requests.instance_requests,
        vec![
            WebGeometryInstanceBatchRequest {
                resource: "ifc/a".to_string(),
                instance_ids: vec![1, 2],
            },
            WebGeometryInstanceBatchRequest {
                resource: "ifc/b".to_string(),
                instance_ids: vec![1],
            },
        ]
    );
    let bad = WebProjectGeometryStreamPlan {
        instance_ids: vec!["ifc/a::x".to_string()],
        definition_ids: Vec::new(),
    };
    assert_eq!(
        bad.to_member_batch_requests(),
        Err("invalid source-scoped instance id: invalid digit found in string".to_string())
    );
}

#[test]
fn ungroupable_plans_report_the_first_bad_id() {
    let plan = WebProjectGeometryStreamPlan {
        instance_ids: vec!["ifc/a::1".to_string(), "::2".to_string(), "nope".to_string()],
        definition_ids: vec!["nope".to_string()],
    };
    assert_eq!(
        plan.to_member_batch_requests().unwrap_err(),
        "source-scoped id resource must not be empty"
    );
    let plan = WebProjectGeometryStreamPlan {
        instance_ids: vec!["ifc/a::1".to_string()],
        definition_ids: vec!["ifc/a::".to_string(), "nope".to_string()],
    };
    assert_eq!(
        plan.to_member_batch_requests().unwrap_err(),
        "source-scoped id local id must not be empty"
    );
    let plan = WebProjectGeometryStreamPlan {
        instance_ids: vec![],
        definition_ids: vec!["ifc/a::7".to_string(), "no-separator".to_string()],
    };
    assert_eq!(
        plan.to_member_batch_requests().unwrap_err(),
        "source-scoped id must be formatted as `resource::local_id`"
    );
    let plan = WebProjectGeometryStreamPlan {
        instance_ids: vec![],
        definition_ids: vec!["ifc/a::-7".to_string()],
    };
    assert!(plan
        .to_member_batch_requests()
        .unwrap_err()
        .starts_with("invalid source-scoped definition id: "));
}
