use vstd::prelude::*;

use crate::text::str_eq;

verus! {

/// The shading profiles the renderer can draw a scene with.
#[derive(Clone, Copy, Debug, PartialEq, Eq, Structural)]
pub enum RenderProfileId {
    Diffuse,
    Bim,
    Architectural,
    ArchitecturalV1,
    ArchitecturalV3,
    ArchitecturalV4,
}

/// Stable machine name of a profile.
pub open spec fn profile_name(id: RenderProfileId) -> Seq<char> {
    match id {
        RenderProfileId::Diffuse => "diffuse"@,
        RenderProfileId::Bim => "bim"@,
        RenderProfileId::Architectural => "architectural"@,
        RenderProfileId::ArchitecturalV1 => "architectural-v1"@,
        RenderProfileId::ArchitecturalV3 => "architectural-v3"@,
        RenderProfileId::ArchitecturalV4 => "architectural-v4"@,
    }
}

/// Human readable label of a profile.
pub open spec fn profile_label(id: RenderProfileId) -> Seq<char> {
    match id {
        RenderProfileId::Diffuse => "Diffuse"@,
        RenderProfileId::Bim => "BIM"@,
        RenderProfileId::Architectural => "Architectural"@,
        RenderProfileId::ArchitecturalV1 => "Architectural v1 (experimental)"@,
        RenderProfileId::ArchitecturalV3 => "Architectural v3 (experimental)"@,
        RenderProfileId::ArchitecturalV4 => "Architectural v4 (AO experiment)"@,
    }
}

/// Experimental profiles are offered but not considered stable.
pub open spec fn profile_is_experimental(id: RenderProfileId) -> bool {
    match id {
        RenderProfileId::Diffuse | RenderProfileId::Bim | RenderProfileId::Architectural => false,
        _ => true,
    }
}

/// The profile a requested name selects, legacy aliases included.
pub open spec fn profile_for_name(name: Seq<char>) -> Option<RenderProfileId> {
    if name == "diffuse"@ {
        Some(RenderProfileId::Diffuse)
    } else if name == "bim"@ || name == "architectural-v2"@ {
        Some(RenderProfileId::Bim)
    } else if name == "architectural"@ || name == "architectural-v3-inspection"@
        || name == "architectural-v3-inspect"@ {
        Some(RenderProfileId::Architectural)
    } else if name == "architectural-v1"@ {
        Some(RenderProfileId::ArchitecturalV1)
    } else if name == "architectural-v3"@ {
        Some(RenderProfileId::ArchitecturalV3)
    } else if name == "architectural-v4"@ {
        Some(RenderProfileId::ArchitecturalV4)
    } else {
        None
    }
}

impl RenderProfileId {
    /// The profile that the former `architectural-v2` name now stands for.
    pub const ArchitecturalV2: RenderProfileId = RenderProfileId::Bim;

    pub fn as_str(self) -> (name: &'static str)
        ensures
            name@ == profile_name(self),
    {
        match self {
            RenderProfileId::Diffuse => "diffuse",
            RenderProfileId::Bim => "bim",
            RenderProfileId::Architectural => "architectural",
            RenderProfileId::ArchitecturalV1 => "architectural-v1",
            RenderProfileId::ArchitecturalV3 => "architectural-v3",
            RenderProfileId::ArchitecturalV4 => "architectural-v4",
        }
    }

    pub fn label(self) -> (label: &'static str)
        ensures
            label@ == profile_label(self),
    {
        match self {
            RenderProfileId::Diffuse => "Diffuse",
            RenderProfileId::Bim => "BIM",
            RenderProfileId::Architectural => "Architectural",
            RenderProfileId::ArchitecturalV1 => "Architectural v1 (experimental)",
            RenderProfileId::ArchitecturalV3 => "Architectural v3 (experimental)",
            RenderProfileId::ArchitecturalV4 => "Architectural v4 (AO experiment)",
        }
    }

    pub fn is_experimental(self) -> (experimental: bool)
        ensures
            experimental == profile_is_experimental(self),
    {
        match self {
            RenderProfileId::Diffuse | RenderProfileId::Bim | RenderProfileId::Architectural => {
                false
            },
            RenderProfileId::ArchitecturalV1 | RenderProfileId::ArchitecturalV3
            | RenderProfileId::ArchitecturalV4 => true,
        }
    }

    pub fn descriptor(self) -> (d: RenderProfileDescriptor)
        ensures
            d.id == self,
            d.name@ == profile_name(self),
            d.label@ == profile_label(self),
            d.experimental == profile_is_experimental(self),
    {
        RenderProfileDescriptor {
            id: self,
            name: self.as_str(),
            label: self.label(),
            experimental: self.is_experimental(),
        }
    }
}

/// Everything a profile picker needs to show one profile.
#[derive(Clone, Copy, Debug, PartialEq, Eq)]
pub struct RenderProfileDescriptor {
    pub id: RenderProfileId,
    pub name: &'static str,
    pub label: &'static str,
    pub experimental: bool,
}

/// A requested profile name that no profile answers to.
#[derive(Clone, Debug, PartialEq, Eq)]
pub struct UnknownRenderProfile {
    requested: String,
}

impl UnknownRenderProfile {
    /// The name that was asked for.
    pub closed spec fn requested_name(&self) -> Seq<char> {
        self.requested@
    }

    pub fn requested(&self) -> (r: &str)
        ensures
            r@ == self.requested_name(),
    {
        self.requested.as_str()
    }

    /// The message shown for the rejected name.
    pub fn message(&self) -> (m: String)
        ensures
            m@ == "unknown render profile `"@ + self.requested_name() + "`"@,
    {
        let mut m = String::from_str("unknown render profile `");
        m.append(self.requested.as_str());
        m.append("`");
        m
    }
}

/// The position of each profile in the profile picker.
pub open spec fn profile_order() -> Seq<RenderProfileId> {
    seq![
        RenderProfileId::Diffuse,
        RenderProfileId::Bim,
        RenderProfileId::Architectural,
        RenderProfileId::ArchitecturalV1,
        RenderProfileId::ArchitecturalV3,
        RenderProfileId::ArchitecturalV4,
    ]
}

/// Descriptors of every profile, in picker order.
pub fn available_render_profiles() -> (profiles: Vec<RenderProfileDescriptor>)
    ensures
        profiles.len() == profile_order().len(),
        forall|i: int|
            0 <= i < profiles.len() ==> {
                &&& #[trigger] profiles[i].id == profile_order()[i]
                &&& profiles[i].name@ == profile_name(profile_order()[i])
                &&& profiles[i].label@ == profile_label(profile_order()[i])
                &&& profiles[i].experimental == profile_is_experimental(profile_order()[i])
            },
{
    let mut profiles = Vec::new();
    profiles.push(RenderProfileId::Diffuse.descriptor());
    profiles.push(RenderProfileId::Bim.descriptor());
    profiles.push(RenderProfileId::Architectural.descriptor());
    profiles.push(RenderProfileId::ArchitecturalV1.descriptor());
    profiles.push(RenderProfileId::ArchitecturalV3.descriptor());
    profiles.push(RenderProfileId::ArchitecturalV4.descriptor());
    profiles
}

/// Resolves a profile name, accepting the legacy aliases of the stable
/// profiles, and rejects every other name.
pub fn parse_render_profile(value: &str) -> (r: Result<RenderProfileId, UnknownRenderProfile>)
    ensures
        match profile_for_name(value@) {
            Some(id) => r == Ok::<RenderProfileId, UnknownRenderProfile>(id),
            None => r is Err && r->Err_0.requested_name() == value@,
        },
{
    if str_eq(value, "diffuse") {
        Ok(RenderProfileId::Diffuse)
    } else if str_eq(value, "bim") || str_eq(value, "architectural-v2") {
        Ok(RenderProfileId::Bim)
    } else if str_eq(value, "architectural") || str_eq(value, "architectural-v3-inspection")
        || str_eq(value, "architectural-v3-inspect") {
        Ok(RenderProfileId::Architectural)
    } else if str_eq(value, "architectural-v1") {
        Ok(RenderProfileId::ArchitecturalV1)
    } else if str_eq(value, "architectural-v3") {
        Ok(RenderProfileId::ArchitecturalV3)
    } else if str_eq(value, "architectural-v4") {
        Ok(RenderProfileId::ArchitecturalV4)
    } else {
        Err(UnknownRenderProfile { requested: value.to_owned() })
    }
}

/// Whether some descriptor offers profile `id`.
pub open spec fn offers_profile(available: Seq<RenderProfileDescriptor>, id: RenderProfileId) -> bool {
    exists|i: int| 0 <= i < available.len() && #[trigger] available[i].id == id
}

/// Resolves a profile name against the profiles a viewer offers: the name
/// must parse, and the profile must be among `available_profiles`.
pub fn parse_render_profile_id(
    profile_name: &str,
    available_profiles: &[RenderProfileDescriptor],
) -> (r: Result<RenderProfileId, String>)
    ensures
        match profile_for_name(profile_name@) {
            None => r matches Err(m) && m@ == "unknown render profile `"@ + profile_name@ + "`"@,
            Some(id) => if offers_profile(available_profiles@, id) {
                r == Ok::<RenderProfileId, String>(id)
            } else {
                r matches Err(m) && m@ == "render profile `"@ + self::profile_name(id)
                    + "` is not available"@
            },
        },
{
    let profile = match parse_render_profile(profile_name) {
        Ok(profile) => profile,
        Err(error) => {
            return Err(error.message());
        },
    };
    let mut k: usize = 0;
    while k < available_profiles.len()
        invariant
            k <= available_profiles@.len(),
            profile_for_name(profile_name@) == Some(profile),
            forall|i: int| 0 <= i < k ==> available_profiles@[i].id != profile,
        decreases available_profiles.len() - k,
    {
        if available_profiles[k].id == profile {
            assert(available_profiles@[k as int].id == profile);
            return Ok(profile);
        }
        k += 1;
    }
    let mut message = String::from_str("render profile `");
    message.append(profile.as_str());
    message.append("` is not available");
    Err(message)
}

/// Every profile's machine name parses back to that profile.
pub proof fn lemma_profile_name_round_trip(id: RenderProfileId)
    ensures
        profile_for_name(profile_name(id)) == Some(id),
{
    reveal_strlit("diffuse");
    reveal_strlit("bim");
    reveal_strlit("architectural");
    reveal_strlit("architectural-v1");
    reveal_strlit("architectural-v2");
    reveal_strlit("architectural-v3");
    reveal_strlit("architectural-v4");
    reveal_strlit("architectural-v3-inspection");
    reveal_strlit("architectural-v3-inspect");
    let d = "diffuse"@;
    let b = "bim"@;
    let a = "architectural"@;
    let a1 = "architectural-v1"@;
    let a2 = "architectural-v2"@;
    let a3 = "architectural-v3"@;
    let a4 = "architectural-v4"@;
    let ai = "architectural-v3-inspection"@;
    let ap = "architectural-v3-inspect"@;
    assert(d.len() == 7 && b.len() == 3 && a.len() == 13 && a1.len() == 16);
    assert(a2.len() == 16 && a3.len() == 16 && a4.len() == 16);
    assert(ai.len() == 27 && ap.len() == 24);
    assert(a1[15] == '1' && a2[15] == '2' && a3[15] == '3' && a4[15] == '4');
}

/// Distinct profiles have distinct machine names.
pub proof fn lemma_profile_names_distinct(a: RenderProfileId, b: RenderProfileId)
    ensures
        profile_name(a) == profile_name(b) <==> a == b,
{
    lemma_profile_name_round_trip(a);
    lemma_profile_name_round_trip(b);
}

impl std::str::FromStr for RenderProfileId {
    type Err = UnknownRenderProfile;

    fn from_str(value: &str) -> (r: Result<RenderProfileId, UnknownRenderProfile>)
        ensures
            match profile_for_name(value@) {
                Some(id) => r == Ok::<RenderProfileId, UnknownRenderProfile>(id),
                None => r is Err && r->Err_0.requested_name() == value@,
            },
    {
        parse_render_profile(value)
    }
}

/// The profile names, legacy aliases included: `architectural-v2` is the
/// BIM profile, and both inspection aliases are the architectural profile;
/// no other name selects a profile.
pub proof fn lemma_profile_name_aliases(name: Seq<char>)
    ensures
        profile_for_name(name) == Some(RenderProfileId::Diffuse) <==> (name == "diffuse"@),
        profile_for_name(name) == Some(RenderProfileId::Bim) <==> (name == "bim"@ || name == "architectural-v2"@),
        profile_for_name(name) == Some(RenderProfileId::Architectural) <==> (name == "architectural"@ || name == "architectural-v3-inspection"@ || name == "architectural-v3-inspect"@),
        profile_for_name(name) == Some(RenderProfileId::ArchitecturalV1) <==> (name == "architectural-v1"@),
        profile_for_name(name) == Some(RenderProfileId::ArchitecturalV3) <==> (name == "architectural-v3"@),
        profile_for_name(name) == Some(RenderProfileId::ArchitecturalV4) <==> (name == "architectural-v4"@),
{
    reveal_strlit("diffuse");
    reveal_strlit("bim");
    reveal_strlit("architectural-v2");
    reveal_strlit("architectural");
    reveal_strlit("architectural-v3-inspection");
    reveal_strlit("architectural-v3-inspect");
    reveal_strlit("architectural-v1");
    reveal_strlit("architectural-v3");
    reveal_strlit("architectural-v4");
    assert("diffuse"@.len() == 7);
    assert("bim"@.len() == 3);
    assert("architectural-v2"@.len() == 16);
    assert("architectural"@.len() == 13);
    assert("architectural-v3-inspection"@.len() == 27);
    assert("architectural-v3-inspect"@.len() == 24);
    assert("architectural-v1"@.len() == 16);
    assert("architectural-v3"@.len() == 16);
    assert("architectural-v4"@.len() == 16);
    assert("architectural-v2"@[15] != "architectural-v1"@[15]);
    assert("architectural-v2"@[15] != "architectural-v3"@[15]);
    assert("architectural-v2"@[15] != "architectural-v4"@[15]);
    assert("architectural-v1"@[15] != "architectural-v3"@[15]);
    assert("architectural-v1"@[15] != "architectural-v4"@[15]);
    assert("architectural-v3"@[15] != "architectural-v4"@[15]);
}

} // verus!
