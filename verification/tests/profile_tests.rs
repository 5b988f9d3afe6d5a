use ccw_render::{available_render_profiles, parse_render_profile, RenderProfileId};

#[test]
fn profile_names_round_trip() {
    for descriptor in available_render_profiles() {
        assert_eq!(
            descriptor.name.parse::<RenderProfileId>(),
            Ok(descriptor.id)
        );
        assert_eq!(descriptor.id.as_str(), descriptor.name);
        assert_eq!(descriptor.id.label(), descriptor.label);
    }
}

#[test]
fn unknown_profile_is_rejected() {
    assert!("architectural-v2-inspection"
        .parse::<RenderProfileId>()
        .is_err());
}

#[test]
fn legacy_profile_names_alias_to_new_stable_profiles() {
    assert_eq!("architectural-v2".parse(), Ok(RenderProfileId::Bim));
    assert_eq!(
        "architectural-v3-inspection".parse(),
        Ok(RenderProfileId::Architectural)
    );
    assert_eq!(
        "architectural-v3-inspect".parse(),
        Ok(RenderProfileId::Architectural)
    );
}

#[test]
fn profiles_are_offered_in_picker_order() {
    let names: Vec<&str> = available_render_profiles()
        .iter()
        .map(|descriptor| descriptor.name)
        .collect();
    assert_eq!(
        names,
        vec![
            "diffuse",
            "bim",
            "architectural",
            "architectural-v1",
            "architectural-v3",
            "architectural-v4"
        ]
    );
}

#[test]
fn only_later_architectural_profiles_are_experimental() {
    assert!(!RenderProfileId::Diffuse.is_experimental());
    assert!(!RenderProfileId::Bim.is_experimental());
    assert!(!RenderProfileId::Architectural.is_experimental());
    assert!(RenderProfileId::ArchitecturalV1.is_experimental());
    assert!(RenderProfileId::ArchitecturalV3.is_experimental());
    assert!(RenderProfileId::ArchitecturalV4.is_experimental());
    assert_eq!(RenderProfileId::ArchitecturalV4.label(), "Architectural v4 (AO experiment)");
    assert_eq!(RenderProfileId::Bim.descriptor().label, "BIM");
}

#[test]
fn rejected_profile_names_are_reported_back() {
    let error = parse_render_profile("wireframe").unwrap_err();
    assert_eq!(error.requested(), "wireframe");
    assert_eq!(error.message(), "unknown render profile `wireframe`");
}

#[test]
fn former_architectural_v2_profile_is_bim() {
    assert_eq!(RenderProfileId::ArchitecturalV2, RenderProfileId::Bim);
    assert_eq!(RenderProfileId::ArchitecturalV2.as_str(), "bim");
}
