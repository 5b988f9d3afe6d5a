use vstd::prelude::*;

verus! {

/// The depth comparisons a render pipeline can use.
#[derive(Clone, Copy, Debug, PartialEq, Eq, Structural)]
pub enum CompareFunction {
    Never,
    Less,
    Equal,
    LessEqual,
    Greater,
    NotEqual,
    GreaterEqual,
    Always,
}

/// How a text label meets the scene's depth.
#[derive(Clone, Copy, Debug, PartialEq, Eq, Structural)]
pub enum SceneTextDepthMode {
    /// Drawn over everything.
    Overlay,
    /// Hidden behind nearer geometry.
    DepthTested,
    /// Drawn through geometry.
    XRay,
}

/// Whether a comparison keeps fragments with greater depth (reversed depth).
pub open spec fn prefers_greater(compare: CompareFunction) -> bool {
    compare == CompareFunction::Greater || compare == CompareFunction::GreaterEqual
}

/// The comparison that also passes equal depths, in the direction of
/// `compare`: a second pass over already drawn geometry uses it.
pub fn depth_compare_equal_variant(compare: CompareFunction) -> (r: CompareFunction)
    ensures
        r == if prefers_greater(compare) {
            CompareFunction::GreaterEqual
        } else {
            CompareFunction::LessEqual
        },
{
    match compare {
        CompareFunction::Greater | CompareFunction::GreaterEqual => CompareFunction::GreaterEqual,
        _ => CompareFunction::LessEqual,
    }
}

/// The direction in which surface decals are biased towards the viewer:
/// one step towards greater depth for a greater-depth comparison, else one
/// step towards smaller depth.
pub fn surface_decal_depth_bias_direction(compare: CompareFunction) -> (direction: i32)
    ensures
        direction == if prefers_greater(compare) {
            1i32
        } else {
            -1i32
        },
{
    match compare {
        CompareFunction::Greater | CompareFunction::GreaterEqual => 1,
        _ => -1,
    }
}

/// The depth comparison of the text pipeline for a depth mode: only
/// depth-tested labels compare against the scene.
pub fn depth_compare_for_text_mode(mode: SceneTextDepthMode) -> (compare: CompareFunction)
    ensures
        compare == if mode == SceneTextDepthMode::DepthTested {
            CompareFunction::LessEqual
        } else {
            CompareFunction::Always
        },
{
    match mode {
        SceneTextDepthMode::Overlay | SceneTextDepthMode::XRay => CompareFunction::Always,
        SceneTextDepthMode::DepthTested => CompareFunction::LessEqual,
    }
}

} // verus!
