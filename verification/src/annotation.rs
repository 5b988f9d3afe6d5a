use vstd::prelude::*;
use vstd::string::StringExecFns;

use crate::text::{decimal_text, push_decimal};
use crate::tokens::SceneAnnotationDepthMode;

verus! {

/// Why annotation overlay geometry was refused: which value of which
/// primitive or label was not usable.
#[derive(Clone, Copy, Debug, PartialEq, Eq, Structural)]
pub enum AnnotationOverlayError {
    NonFinitePoint { layer_index: usize, primitive_index: usize, point_index: usize },
    NonFinitePosition { layer_index: usize, primitive_index: usize },
    NonFiniteColor { layer_index: usize, primitive_index: usize, component_index: usize },
    NonFiniteAlpha { layer_index: usize, primitive_index: usize },
    NonFiniteSize { layer_index: usize, primitive_index: usize },
    NonFiniteTextAnchor { label_index: usize },
    NonFiniteTextOffset { label_index: usize },
    InvalidTextSize { label_index: usize },
    TextLayout { label_index: usize },
}

/// The decimal text of an index.
pub open spec fn index_text(i: usize) -> Seq<char> {
    decimal_text(i as nat)
}

/// `annotation layer L primitive P` for the given indices.
pub open spec fn primitive_text(layer: usize, primitive: usize) -> Seq<char> {
    "annotation layer "@ + index_text(layer) + " primitive "@ + index_text(primitive)
}

/// The message of each error.
pub open spec fn annotation_error_message(error: AnnotationOverlayError) -> Seq<char> {
    match error {
        AnnotationOverlayError::NonFinitePoint { layer_index, primitive_index, point_index } =>
            primitive_text(layer_index, primitive_index) + " point "@ + index_text(point_index)
            + " is not finite"@,
        AnnotationOverlayError::NonFinitePosition { layer_index, primitive_index } =>
            primitive_text(layer_index, primitive_index) + " position is not finite"@,
        AnnotationOverlayError::NonFiniteColor {
            layer_index,
            primitive_index,
            component_index,
        } => primitive_text(layer_index, primitive_index) + " color component "@ + index_text(
            component_index,
        ) + " is not finite"@,
        AnnotationOverlayError::NonFiniteAlpha { layer_index, primitive_index } =>
            primitive_text(layer_index, primitive_index) + " alpha is not finite"@,
        AnnotationOverlayError::NonFiniteSize { layer_index, primitive_index } =>
            primitive_text(layer_index, primitive_index) + " size is not finite"@,
        AnnotationOverlayError::NonFiniteTextAnchor { label_index } => "annotation text label "@
            + index_text(label_index) + " anchor is not finite"@,
        AnnotationOverlayError::NonFiniteTextOffset { label_index } => "annotation text label "@
            + index_text(label_index) + " screen offset is not finite"@,
        AnnotationOverlayError::InvalidTextSize { label_index } => "annotation text label "@
            + index_text(label_index) + " size is not finite or positive"@,
        AnnotationOverlayError::TextLayout { label_index } => "annotation text label "@
            + index_text(label_index) + " could not be laid out"@,
    }
}

fn push_index(text: &mut String, i: usize)
    ensures
        final(text)@ == old(text)@ + index_text(i),
{
    push_decimal(text, i as u64);
}

fn primitive_prefix(layer: usize, primitive: usize) -> (s: String)
    ensures
        s@ == primitive_text(layer, primitive),
{
    let mut s = String::from_str("annotation layer ");
    push_index(&mut s, layer);
    s.append(" primitive ");
    push_index(&mut s, primitive);
    s
}

fn label_message(label: usize, tail: &str) -> (s: String)
    ensures
        s@ == "annotation text label "@ + index_text(label) + tail@,
{
    let mut s = String::from_str("annotation text label ");
    push_index(&mut s, label);
    s.append(tail);
    s
}

impl AnnotationOverlayError {
    /// The message shown for this error.
    pub fn message(&self) -> (m: String)
        ensures
            m@ == annotation_error_message(*self),
    {
        match *self {
            AnnotationOverlayError::NonFinitePoint { layer_index, primitive_index, point_index } => {
                let mut m = primitive_prefix(layer_index, primitive_index);
                m.append(" point ");
                push_index(&mut m, point_index);
                m.append(" is not finite");
                m
            },
            AnnotationOverlayError::NonFinitePosition { layer_index, primitive_index } => {
                let mut m = primitive_prefix(layer_index, primitive_index);
                m.append(" position is not finite");
                m
            },
            AnnotationOverlayError::NonFiniteColor {
                layer_index,
                primitive_index,
                component_index,
            } => {
                let mut m = primitive_prefix(layer_index, primitive_index);
                m.append(" color component ");
                push_index(&mut m, component_index);
                m.append(" is not finite");
                m
            },
            AnnotationOverlayError::NonFiniteAlpha { layer_index, primitive_index } => {
                let mut m = primitive_prefix(layer_index, primitive_index);
                m.append(" alpha is not finite");
                m
            },
            AnnotationOverlayError::NonFiniteSize { layer_index, primitive_index } => {
                let mut m = primitive_prefix(layer_index, primitive_index);
                m.append(" size is not finite");
                m
            },
            AnnotationOverlayError::NonFiniteTextAnchor { label_index } => label_message(
                label_index,
                " anchor is not finite",
            ),
            AnnotationOverlayError::NonFiniteTextOffset { label_index } => label_message(
                label_index,
                " screen offset is not finite",
            ),
            AnnotationOverlayError::InvalidTextSize { label_index } => label_message(
                label_index,
                " size is not finite or positive",
            ),
            AnnotationOverlayError::TextLayout { label_index } => label_message(
                label_index,
                " could not be laid out",
            ),
        }
    }
}

/// The pass an annotation primitive is drawn in: with the scene's depth
/// test, or through the scene.
#[derive(Clone, Copy, Debug, PartialEq, Eq, Structural)]
pub enum AnnotationDepthBucket {
    DepthTested,
    DrawThrough,
}

impl AnnotationDepthBucket {
    /// Depth-tested primitives are drawn with the depth test; overlay and
    /// x-ray ones through the scene.
    pub fn from_mode(mode: SceneAnnotationDepthMode) -> (bucket: AnnotationDepthBucket)
        ensures
            bucket == (if mode == SceneAnnotationDepthMode::DepthTested {
                AnnotationDepthBucket::DepthTested
            } else {
                AnnotationDepthBucket::DrawThrough
            }),
    {
        match mode {
            SceneAnnotationDepthMode::DepthTested => AnnotationDepthBucket::DepthTested,
            SceneAnnotationDepthMode::Overlay | SceneAnnotationDepthMode::XRay => {
                AnnotationDepthBucket::DrawThrough
            },
        }
    }
}

} // verus!
