use vstd::prelude::*;

use crate::profile::RenderProfileId;
use crate::text::str_eq;

verus! {

/// How a scene element is drawn by default.
#[derive(Clone, Copy, Debug, PartialEq, Eq, Structural)]
pub enum DefaultRenderClass {
    Physical,
    Course,
    Space,
    Zone,
    Helper,
    Terrain,
    TerrainFeature,
    Vegetation,
    VegetationCover,
    Water,
    SurfaceDecal,
    Other,
}

/// The wire name of a render class.
pub open spec fn render_class_name(class: DefaultRenderClass) -> Seq<char> {
    match class {
        DefaultRenderClass::Physical => "physical"@,
        DefaultRenderClass::Course => "course"@,
        DefaultRenderClass::Space => "space"@,
        DefaultRenderClass::Zone => "zone"@,
        DefaultRenderClass::Helper => "helper"@,
        DefaultRenderClass::Terrain => "terrain"@,
        DefaultRenderClass::TerrainFeature => "terrain-feature"@,
        DefaultRenderClass::Vegetation => "vegetation"@,
        DefaultRenderClass::VegetationCover => "vegetation-cover"@,
        DefaultRenderClass::Water => "water"@,
        DefaultRenderClass::SurfaceDecal => "surface-decal"@,
        DefaultRenderClass::Other => "other"@,
    }
}

/// The render class a wire name stands for.
pub open spec fn render_class_for_name(name: Seq<char>) -> Option<DefaultRenderClass> {
    if name == "physical"@ {
        Some(DefaultRenderClass::Physical)
    } else if name == "course"@ {
        Some(DefaultRenderClass::Course)
    } else if name == "space"@ {
        Some(DefaultRenderClass::Space)
    } else if name == "zone"@ {
        Some(DefaultRenderClass::Zone)
    } else if name == "helper"@ {
        Some(DefaultRenderClass::Helper)
    } else if name == "terrain"@ {
        Some(DefaultRenderClass::Terrain)
    } else if name == "terrain-feature"@ {
        Some(DefaultRenderClass::TerrainFeature)
    } else if name == "vegetation"@ {
        Some(DefaultRenderClass::Vegetation)
    } else if name == "vegetation-cover"@ {
        Some(DefaultRenderClass::VegetationCover)
    } else if name == "water"@ {
        Some(DefaultRenderClass::Water)
    } else if name == "surface-decal"@ {
        Some(DefaultRenderClass::SurfaceDecal)
    } else if name == "other"@ {
        Some(DefaultRenderClass::Other)
    } else {
        None
    }
}

pub fn default_render_class_name(class: DefaultRenderClass) -> (name: &'static str)
    ensures
        name@ == render_class_name(class),
{
    match class {
        DefaultRenderClass::Physical => "physical",
        DefaultRenderClass::Course => "course",
        DefaultRenderClass::Space => "space",
        DefaultRenderClass::Zone => "zone",
        DefaultRenderClass::Helper => "helper",
        DefaultRenderClass::Terrain => "terrain",
        DefaultRenderClass::TerrainFeature => "terrain-feature",
        DefaultRenderClass::Vegetation => "vegetation",
        DefaultRenderClass::VegetationCover => "vegetation-cover",
        DefaultRenderClass::Water => "water",
        DefaultRenderClass::SurfaceDecal => "surface-decal",
        DefaultRenderClass::Other => "other",
    }
}

/// `prefix`, then `name` in backticks, as one message.
pub fn quoted_message(prefix: &str, name: &str) -> (m: String)
    ensures
        m@ == prefix@ + "`"@ + name@ + "`"@,
{
    let mut m = String::from_str(prefix);
    m.append("`");
    m.append(name);
    m.append("`");
    m
}

/// The message for a render class name nothing answers to.
pub open spec fn unknown_render_class_message(name: Seq<char>) -> Seq<char> {
    "unknown default render class "@ + "`"@ + name + "`"@
}

pub fn parse_default_render_class(name: &str) -> (r: Result<DefaultRenderClass, String>)
    ensures
        match render_class_for_name(name@) {
            Some(class) => r == Ok::<DefaultRenderClass, String>(class),
            None => r is Err && r->Err_0@ == unknown_render_class_message(name@),
        },
{
    if str_eq(name, "physical") {
        Ok(DefaultRenderClass::Physical)
    } else if str_eq(name, "course") {
        Ok(DefaultRenderClass::Course)
    } else if str_eq(name, "space") {
        Ok(DefaultRenderClass::Space)
    } else if str_eq(name, "zone") {
        Ok(DefaultRenderClass::Zone)
    } else if str_eq(name, "helper") {
        Ok(DefaultRenderClass::Helper)
    } else if str_eq(name, "terrain") {
        Ok(DefaultRenderClass::Terrain)
    } else if str_eq(name, "terrain-feature") {
        Ok(DefaultRenderClass::TerrainFeature)
    } else if str_eq(name, "vegetation") {
        Ok(DefaultRenderClass::Vegetation)
    } else if str_eq(name, "vegetation-cover") {
        Ok(DefaultRenderClass::VegetationCover)
    } else if str_eq(name, "water") {
        Ok(DefaultRenderClass::Water)
    } else if str_eq(name, "surface-decal") {
        Ok(DefaultRenderClass::SurfaceDecal)
    } else if str_eq(name, "other") {
        Ok(DefaultRenderClass::Other)
    } else {
        Err(quoted_message("unknown default render class ", name))
    }
}

/// Whether elements of a class are shown when a scene first opens.
pub open spec fn visible_by_default(class: DefaultRenderClass) -> bool {
    match class {
        DefaultRenderClass::Space | DefaultRenderClass::Zone | DefaultRenderClass::Helper => false,
        _ => true,
    }
}

pub fn web_default_visibility_for_class_name(name: &str) -> (r: Result<bool, String>)
    ensures
        match render_class_for_name(name@) {
            Some(class) => r == Ok::<bool, String>(visible_by_default(class)),
            None => r is Err && r->Err_0@ == unknown_render_class_message(name@),
        },
{
    let class = parse_default_render_class(name)?;
    Ok(match class {
        DefaultRenderClass::Space | DefaultRenderClass::Zone | DefaultRenderClass::Helper => false,
        _ => true,
    })
}

/// Which faces of a mesh are drawn.
#[derive(Clone, Copy, Debug, PartialEq, Eq, Structural)]
pub enum FaceVisibility {
    OneSided,
    DoubleSided,
}

pub open spec fn face_visibility_wire_name(visibility: FaceVisibility) -> Seq<char> {
    match visibility {
        FaceVisibility::OneSided => "one-sided"@,
        FaceVisibility::DoubleSided => "double-sided"@,
    }
}

pub fn face_visibility_name(visibility: FaceVisibility) -> (name: &'static str)
    ensures
        name@ == face_visibility_wire_name(visibility),
{
    match visibility {
        FaceVisibility::OneSided => "one-sided",
        FaceVisibility::DoubleSided => "double-sided",
    }
}

/// The face visibility an instance has when its record names none.
pub fn default_web_face_visibility() -> (name: String)
    ensures
        name@ == face_visibility_wire_name(FaceVisibility::OneSided),
{
    String::from_str(face_visibility_name(FaceVisibility::OneSided))
}

pub open spec fn face_visibility_for_name(name: Seq<char>) -> Option<FaceVisibility> {
    if name == "one-sided"@ {
        Some(FaceVisibility::OneSided)
    } else if name == "double-sided"@ {
        Some(FaceVisibility::DoubleSided)
    } else {
        None
    }
}

pub fn parse_face_visibility(name: &str) -> (r: Result<FaceVisibility, String>)
    ensures
        match face_visibility_for_name(name@) {
            Some(v) => r == Ok::<FaceVisibility, String>(v),
            None => r is Err && r->Err_0@ == "unknown face visibility "@ + "`"@ + name@ + "`"@,
        },
{
    if str_eq(name, "one-sided") {
        Ok(FaceVisibility::OneSided)
    } else if str_eq(name, "double-sided") {
        Ok(FaceVisibility::DoubleSided)
    } else {
        Err(quoted_message("unknown face visibility ", name))
    }
}

/// Every render class's wire name parses back to it.
pub proof fn lemma_render_class_name_round_trip(class: DefaultRenderClass)
    ensures
        render_class_for_name(render_class_name(class)) == Some(class),
{
    reveal_strlit("physical");
    reveal_strlit("course");
    reveal_strlit("space");
    reveal_strlit("zone");
    reveal_strlit("helper");
    reveal_strlit("terrain");
    reveal_strlit("terrain-feature");
    reveal_strlit("vegetation");
    reveal_strlit("vegetation-cover");
    reveal_strlit("water");
    reveal_strlit("surface-decal");
    reveal_strlit("other");
    let names = seq![
        "physical"@, "course"@, "space"@, "zone"@, "helper"@, "terrain"@,
        "terrain-feature"@, "vegetation"@, "vegetation-cover"@, "water"@,
        "surface-decal"@, "other"@,
    ];
    assert("physical"@.len() == 8 && "course"@.len() == 6 && "space"@.len() == 5);
    assert("zone"@.len() == 4 && "helper"@.len() == 6 && "terrain"@.len() == 7);
    assert("terrain-feature"@.len() == 15 && "vegetation"@.len() == 10);
    assert("vegetation-cover"@.len() == 16 && "water"@.len() == 5);
    assert("surface-decal"@.len() == 13 && "other"@.len() == 5);
    assert("course"@[0] != "helper"@[0]);
    assert("space"@[0] != "water"@[0] && "space"@[0] != "other"@[0]);
    assert("water"@[0] != "other"@[0]);
}

/// Every face visibility's wire name parses back to it.
pub proof fn lemma_face_visibility_name_round_trip(visibility: FaceVisibility)
    ensures
        face_visibility_for_name(face_visibility_wire_name(visibility)) == Some(visibility),
{
    reveal_strlit("one-sided");
    reveal_strlit("double-sided");
    assert("one-sided"@.len() == 9 && "double-sided"@.len() == 12);
}

/// How strongly the architectural edge overlay draws boundary and crease
/// edges of an element of one class: each is drawn fully or not at all.
#[derive(Clone, Copy, Debug, PartialEq, Eq, Structural)]
pub struct RenderClassEdgeVisibility {
    pub boundary: bool,
    pub crease: bool,
}

pub fn edge_visibility_for_render_class(class: DefaultRenderClass) -> (v: RenderClassEdgeVisibility)
    ensures
        v.boundary == (class != DefaultRenderClass::Terrain && class != DefaultRenderClass::TerrainFeature
            && class != DefaultRenderClass::Water && class != DefaultRenderClass::SurfaceDecal
            && class != DefaultRenderClass::VegetationCover),
        v.crease == (class != DefaultRenderClass::Terrain && class != DefaultRenderClass::Water
            && class != DefaultRenderClass::SurfaceDecal && class != DefaultRenderClass::Vegetation
            && class != DefaultRenderClass::VegetationCover),
{
    match class {
        DefaultRenderClass::Terrain => RenderClassEdgeVisibility { boundary: false, crease: false },
        DefaultRenderClass::TerrainFeature => RenderClassEdgeVisibility {
            boundary: false,
            crease: true,
        },
        DefaultRenderClass::Water => RenderClassEdgeVisibility { boundary: false, crease: false },
        DefaultRenderClass::SurfaceDecal => RenderClassEdgeVisibility {
            boundary: false,
            crease: false,
        },
        DefaultRenderClass::Vegetation => RenderClassEdgeVisibility {
            boundary: true,
            crease: false,
        },
        DefaultRenderClass::VegetationCover => RenderClassEdgeVisibility {
            boundary: false,
            crease: false,
        },
        _ => RenderClassEdgeVisibility { boundary: true, crease: true },
    }
}

pub fn object_outline_visible_for_render_class(class: DefaultRenderClass) -> (r: bool)
    ensures
        r == !(class == DefaultRenderClass::Terrain || class == DefaultRenderClass::VegetationCover
            || class == DefaultRenderClass::Water || class == DefaultRenderClass::SurfaceDecal),
{
    match class {
        DefaultRenderClass::Terrain | DefaultRenderClass::VegetationCover
        | DefaultRenderClass::Water | DefaultRenderClass::SurfaceDecal => false,
        _ => true,
    }
}

/// The pick index an instance writes into the outline object-id buffer:
/// its own pick index where its class is outlined, zero otherwise.
pub fn outline_index_for_instance(pick_index: u32, class: DefaultRenderClass) -> (r: u32)
    ensures
        r == if object_outline_visible_for_render_class_spec(class) { pick_index } else { 0 },
{
    if object_outline_visible_for_render_class(class) {
        pick_index
    } else {
        0
    }
}

pub open spec fn object_outline_visible_for_render_class_spec(class: DefaultRenderClass) -> bool {
    !(class == DefaultRenderClass::Terrain || class == DefaultRenderClass::VegetationCover
        || class == DefaultRenderClass::Water || class == DefaultRenderClass::SurfaceDecal)
}

/// The draw pass an instance belongs to.
#[derive(Clone, Copy, Debug, PartialEq, Eq, Structural)]
pub enum RenderLayer {
    Opaque,
    SurfaceDecal,
}

impl RenderLayer {
    pub fn for_render_class(class: DefaultRenderClass) -> (layer: RenderLayer)
        ensures
            layer == if class == DefaultRenderClass::SurfaceDecal {
                RenderLayer::SurfaceDecal
            } else {
                RenderLayer::Opaque
            },
    {
        match class {
            DefaultRenderClass::SurfaceDecal => RenderLayer::SurfaceDecal,
            _ => RenderLayer::Opaque,
        }
    }
}

/// Profiles drawn with the matte architectural surface lighting.
pub open spec fn architectural_lighting(profile: RenderProfileId) -> bool {
    profile == RenderProfileId::ArchitecturalV1 || profile == RenderProfileId::Bim
        || profile == RenderProfileId::ArchitecturalV3 || profile == RenderProfileId::ArchitecturalV4
}

/// Profiles that add the screen-space object and depth outline pass.
pub open spec fn screen_space_outline(profile: RenderProfileId) -> bool {
    profile == RenderProfileId::Bim || profile == RenderProfileId::ArchitecturalV3
        || profile == RenderProfileId::ArchitecturalV4
}

pub fn uses_architectural_surface_lighting(profile: RenderProfileId) -> (r: bool)
    ensures
        r == architectural_lighting(profile),
{
    match profile {
        RenderProfileId::ArchitecturalV1 | RenderProfileId::Bim
        | RenderProfileId::ArchitecturalV3 | RenderProfileId::ArchitecturalV4 => true,
        _ => false,
    }
}

pub fn uses_screen_space_outline(profile: RenderProfileId) -> (r: bool)
    ensures
        r == screen_space_outline(profile),
{
    match profile {
        RenderProfileId::Bim | RenderProfileId::ArchitecturalV3
        | RenderProfileId::ArchitecturalV4 => true,
        _ => false,
    }
}

/// Whether a frame keeps its depth buffer for the later screen-space passes:
/// only for the profiles that sample depth, and only when a device is there
/// to run those passes.
pub fn needs_depth_sampling(profile: RenderProfileId, has_device: bool) -> (r: bool)
    ensures
        r == (screen_space_outline(profile) && has_device),
{
    uses_screen_space_outline(profile) && has_device
}

/// Spaces, zones and helpers are hidden when a scene first opens; every
/// other render class is shown.
pub proof fn lemma_hidden_by_default_classes(class: DefaultRenderClass)
    ensures
        !visible_by_default(class) <==> (class == DefaultRenderClass::Space || class
            == DefaultRenderClass::Zone || class == DefaultRenderClass::Helper),
{
}

/// By name: of the known render class names, exactly `space`, `zone` and
/// `helper` are hidden by default.
pub proof fn lemma_default_visibility_by_name(name: Seq<char>)
    ensures
        render_class_for_name(name) matches Some(class) ==> (visible_by_default(class) <==> !(
        name == "space"@ || name == "zone"@ || name == "helper"@)),
        name == "zone"@ ==> render_class_for_name(name) == Some(DefaultRenderClass::Zone),
{
    reveal_strlit("physical");
    reveal_strlit("course");
    reveal_strlit("space");
    reveal_strlit("zone");
    reveal_strlit("helper");
    assert("physical"@.len() == 8 && "course"@.len() == 6 && "space"@.len() == 5);
    assert("zone"@.len() == 4 && "helper"@.len() == 6 && "course"@[0] != "helper"@[0]);
}

/// The render class names: each class answers to exactly one name.
pub proof fn lemma_render_class_names(name: Seq<char>)
    ensures
        render_class_for_name(name) == Some(DefaultRenderClass::Physical) <==> (name == "physical"@),
        render_class_for_name(name) == Some(DefaultRenderClass::Course) <==> (name == "course"@),
        render_class_for_name(name) == Some(DefaultRenderClass::Space) <==> (name == "space"@),
        render_class_for_name(name) == Some(DefaultRenderClass::Zone) <==> (name == "zone"@),
        render_class_for_name(name) == Some(DefaultRenderClass::Helper) <==> (name == "helper"@),
        render_class_for_name(name) == Some(DefaultRenderClass::Terrain) <==> (name == "terrain"@),
        render_class_for_name(name) == Some(DefaultRenderClass::TerrainFeature) <==> (name == "terrain-feature"@),
        render_class_for_name(name) == Some(DefaultRenderClass::Vegetation) <==> (name == "vegetation"@),
        render_class_for_name(name) == Some(DefaultRenderClass::VegetationCover) <==> (name == "vegetation-cover"@),
        render_class_for_name(name) == Some(DefaultRenderClass::Water) <==> (name == "water"@),
        render_class_for_name(name) == Some(DefaultRenderClass::SurfaceDecal) <==> (name == "surface-decal"@),
        render_class_for_name(name) == Some(DefaultRenderClass::Other) <==> (name == "other"@),
{
    reveal_strlit("physical");
    reveal_strlit("course");
    reveal_strlit("space");
    reveal_strlit("zone");
    reveal_strlit("helper");
    reveal_strlit("terrain");
    reveal_strlit("terrain-feature");
    reveal_strlit("vegetation");
    reveal_strlit("vegetation-cover");
    reveal_strlit("water");
    reveal_strlit("surface-decal");
    reveal_strlit("other");
    assert("physical"@.len() == 8);
    assert("course"@.len() == 6);
    assert("space"@.len() == 5);
    assert("zone"@.len() == 4);
    assert("helper"@.len() == 6);
    assert("terrain"@.len() == 7);
    assert("terrain-feature"@.len() == 15);
    assert("vegetation"@.len() == 10);
    assert("vegetation-cover"@.len() == 16);
    assert("water"@.len() == 5);
    assert("surface-decal"@.len() == 13);
    assert("other"@.len() == 5);
    assert("course"@[0] != "helper"@[0]);
    assert("space"@[0] != "water"@[0]);
    assert("space"@[0] != "other"@[0]);
    assert("water"@[0] != "other"@[0]);
}

/// The profiles' extra passes: the screen-space outline is drawn for the
/// BIM profile and architectural v3 and v4, and every profile with that
/// outline also uses the matte architectural lighting, which architectural
/// v1 uses as well; the diffuse and plain architectural profiles use
/// neither.
pub proof fn lemma_profile_passes(profile: RenderProfileId)
    ensures
        screen_space_outline(profile) <==> (profile == RenderProfileId::Bim || profile
            == RenderProfileId::ArchitecturalV3 || profile == RenderProfileId::ArchitecturalV4),
        screen_space_outline(profile) ==> architectural_lighting(profile),
        architectural_lighting(profile) <==> (screen_space_outline(profile) || profile
            == RenderProfileId::ArchitecturalV1),
        profile == RenderProfileId::Diffuse || profile == RenderProfileId::Architectural ==> (
        !screen_space_outline(profile) && !architectural_lighting(profile)),
{
}

} // verus!
