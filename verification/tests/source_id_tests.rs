use ccw_render::source_ids::{
    project_local_geometry_id, source_resource_from_source_scoped_id,
    source_scoped_geometry_definition_id_string, source_scoped_geometry_instance_id_string,
    source_scoped_semantic_element_id_string, validate_project_member_resource,
    SourceScopedGeometryDefinitionId, SourceScopedGeometryInstanceId, SourceScopedIdParseError,
    SourceScopedSemanticElementId,
};

const DEFAULT_DEMO_RESOURCE: &str = "demo/revolved-solid";

#[test]
fn source_scoped_semantic_element_id_round_trips_as_string() {
    let local_id = "3MyeqU7Xn6heW9nCvA0vpL";
    let scoped = SourceScopedSemanticElementId::new(DEFAULT_DEMO_RESOURCE, local_id);

    assert_eq!(scoped.resource(), DEFAULT_DEMO_RESOURCE);
    assert_eq!(scoped.local_id(), local_id);
    assert_eq!(
        scoped.to_string(),
        "demo/revolved-solid::3MyeqU7Xn6heW9nCvA0vpL"
    );
    assert_eq!(
        scoped
            .to_string()
            .parse::<SourceScopedSemanticElementId>()
            .expect("scoped semantic id should parse"),
        scoped
    );
    assert_eq!(scoped.local_id, local_id);
}

#[test]
fn source_scoped_geometry_instance_id_round_trips_as_string() {
    let scoped = SourceScopedGeometryInstanceId::new(DEFAULT_DEMO_RESOURCE, 42);

    assert_eq!(scoped.resource(), DEFAULT_DEMO_RESOURCE);
    assert_eq!(scoped.local_id(), 42);
    assert_eq!(scoped.to_string(), "demo/revolved-solid::42");
    assert_eq!(
        scoped
            .to_string()
            .parse::<SourceScopedGeometryInstanceId>()
            .expect("scoped instance id should parse"),
        scoped
    );
    assert_eq!(scoped.local_id, 42);
}

#[test]
fn source_scoped_geometry_definition_id_round_trips_as_string() {
    let scoped = SourceScopedGeometryDefinitionId::new(DEFAULT_DEMO_RESOURCE, 77);

    assert_eq!(scoped.resource(), DEFAULT_DEMO_RESOURCE);
    assert_eq!(scoped.local_id(), 77);
    assert_eq!(scoped.to_string(), "demo/revolved-solid::77");
    assert_eq!(
        scoped
            .to_string()
            .parse::<SourceScopedGeometryDefinitionId>()
            .expect("scoped definition id should parse"),
        scoped
    );
    assert_eq!(scoped.local_id, 77);
}

#[test]
fn source_scoped_ids_reject_ambiguous_strings() {
    assert_eq!(
        "wall-a"
            .parse::<SourceScopedSemanticElementId>()
            .expect_err("missing separator should fail"),
        SourceScopedIdParseError::MissingSeparator
    );
    assert_eq!(
        "::wall-a"
            .parse::<SourceScopedSemanticElementId>()
            .expect_err("empty resource should fail"),
        SourceScopedIdParseError::EmptyResource
    );
    assert_eq!(
        "ifc/building-architecture::"
            .parse::<SourceScopedSemanticElementId>()
            .expect_err("empty local id should fail"),
        SourceScopedIdParseError::EmptyLocalId
    );
    assert!(matches!(
        "ifc/building-architecture::wall-a"
            .parse::<SourceScopedGeometryInstanceId>()
            .expect_err("non-numeric instance id should fail"),
        SourceScopedIdParseError::InvalidInstanceId(_)
    ));
    assert!(matches!(
        "ifc/building-architecture::mesh-a"
            .parse::<SourceScopedGeometryDefinitionId>()
            .expect_err("non-numeric definition id should fail"),
        SourceScopedIdParseError::InvalidDefinitionId(_)
    ));
}

#[test]
fn ids_split_at_the_first_separator() {
    let scoped: SourceScopedSemanticElementId = "ifc/a::b::c".parse().unwrap();
    assert_eq!(scoped.resource(), "ifc/a");
    assert_eq!(scoped.local_id(), "b::c");
}

#[test]
fn numbered_local_ids_accept_a_plus_sign_and_reject_overflow() {
    let plus: SourceScopedGeometryInstanceId = "ifc/a::+12".parse().unwrap();
    assert_eq!(plus.local_id(), 12);
    assert!(matches!(
        "ifc/a::18446744073709551616".parse::<SourceScopedGeometryInstanceId>(),
        Err(SourceScopedIdParseError::InvalidInstanceId(_))
    ));
    let max: SourceScopedGeometryDefinitionId = "ifc/a::18446744073709551615".parse().unwrap();
    assert_eq!(max.local_id(), u64::MAX);
    assert!(matches!(
        "ifc/a:: 3".parse::<SourceScopedGeometryDefinitionId>(),
        Err(SourceScopedIdParseError::InvalidDefinitionId(_))
    ));
}

#[test]
fn parse_errors_have_messages() {
    assert_eq!(
        SourceScopedIdParseError::MissingSeparator.message(),
        "source-scoped id must be formatted as `resource::local_id`"
    );
    assert_eq!(
        SourceScopedIdParseError::EmptyResource.message(),
        "source-scoped id resource must not be empty"
    );
    assert_eq!(
        SourceScopedIdParseError::EmptyLocalId.message(),
        "source-scoped id local id must not be empty"
    );
    let error = "ifc/a::x"
        .parse::<SourceScopedGeometryInstanceId>()
        .unwrap_err();
    assert_eq!(
        error.message(),
        "invalid source-scoped instance id: invalid digit found in string"
    );
}

#[test]
fn validation_reports_empty_parts() {
    assert_eq!(
        SourceScopedSemanticElementId::new("", "x").validate(),
        Err(SourceScopedIdParseError::EmptyResource)
    );
    assert_eq!(
        SourceScopedSemanticElementId::new("r", "").validate(),
        Err(SourceScopedIdParseError::EmptyLocalId)
    );
    assert_eq!(SourceScopedGeometryInstanceId::new("r", 0).validate(), Ok(()));
    assert_eq!(
        SourceScopedGeometryDefinitionId::new("", 3).validate(),
        Err(SourceScopedIdParseError::EmptyResource)
    );
}

#[test]
fn project_member_resources_must_not_hold_the_separator() {
    assert_eq!(
        validate_project_member_resource("ifc/left"),
        Ok("ifc/left".to_string())
    );
    assert_eq!(
        validate_project_member_resource(""),
        Err("source-scoped id resource must not be empty".to_string())
    );
    assert_eq!(
        validate_project_member_resource("ifc::left"),
        Err("project member resource `ifc::left` must not contain `::`".to_string())
    );
}

#[test]
fn scoped_id_strings_join_resource_and_local_id() {
    assert_eq!(
        source_scoped_semantic_element_id_string("ifc/a", "wall"),
        Ok("ifc/a::wall".to_string())
    );
    assert_eq!(
        source_scoped_semantic_element_id_string("ifc/a", ""),
        Err("source-scoped id local id must not be empty".to_string())
    );
    assert_eq!(source_scoped_geometry_instance_id_string("ifc/a", 0), "ifc/a::0");
    assert_eq!(
        source_scoped_geometry_definition_id_string("ifc/a", 1234567890),
        "ifc/a::1234567890"
    );
}

#[test]
fn scoped_ids_name_their_ifc_resource() {
    assert_eq!(
        source_resource_from_source_scoped_id("ifc/left::wall"),
        Some("ifc/left")
    );
    assert_eq!(source_resource_from_source_scoped_id("demo/x::wall"), None);
    assert_eq!(source_resource_from_source_scoped_id("ifc/left::"), None);
    assert_eq!(source_resource_from_source_scoped_id("ifc/left::a::b"), None);
    assert_eq!(source_resource_from_source_scoped_id("ifc/left"), None);
}

#[test]
fn project_geometry_ids_keep_their_low_48_bits() {
    assert_eq!(project_local_geometry_id(0x0003_0000_0000_0007), 7);
    assert_eq!(project_local_geometry_id(0xffff_ffff_ffff), 0xffff_ffff_ffff);
    assert_eq!(project_local_geometry_id(u64::MAX), 0xffff_ffff_ffff);
}
