use vstd::prelude::*;
use vstd::string::StringExecFns;

use crate::classes::quoted_message;
use crate::project::GeometryStartViewRequest;
use crate::text::str_eq;

verus! {

/// Whether `c` has the Unicode `White_Space` property.
pub open spec fn is_white_space(c: char) -> bool {
    ||| '\u{9}' <= c <= '\u{d}'
    ||| c == ' '
    ||| c == '\u{85}'
    ||| c == '\u{a0}'
    ||| c == '\u{1680}'
    ||| '\u{2000}' <= c <= '\u{200a}'
    ||| c == '\u{2028}'
    ||| c == '\u{2029}'
    ||| c == '\u{202f}'
    ||| c == '\u{205f}'
    ||| c == '\u{3000}'
}

/// `s` without its leading white space.
pub open spec fn trim_start_text(s: Seq<char>) -> Seq<char>
    decreases s.len(),
{
    if s.len() > 0 && is_white_space(s[0]) {
        trim_start_text(s.skip(1))
    } else {
        s
    }
}

/// `s` without its trailing white space.
pub open spec fn trim_end_text(s: Seq<char>) -> Seq<char>
    decreases s.len(),
{
    if s.len() > 0 && is_white_space(s.last()) {
        trim_end_text(s.drop_last())
    } else {
        s
    }
}

/// `s` without leading and trailing white space.
pub open spec fn trimmed(s: Seq<char>) -> Seq<char> {
    trim_end_text(trim_start_text(s))
}

/// `c` with an ASCII capital letter turned into its small letter.
pub open spec fn ascii_lower(c: char) -> char {
    if 'A' <= c <= 'Z' {
        ((c as int) + 32) as char
    } else {
        c
    }
}

/// `s` with every ASCII capital letter turned into its small letter.
pub open spec fn ascii_lowercased(s: Seq<char>) -> Seq<char> {
    s.map_values(|c: char| ascii_lower(c))
}

/// `s` without any of the characters of `set`.
pub open spec fn without_chars(s: Seq<char>, set: Seq<char>) -> Seq<char>
    decreases s.len(),
{
    if s.len() == 0 {
        Seq::empty()
    } else {
        let prev = without_chars(s.drop_last(), set);
        if set.contains(s.last()) {
            prev
        } else {
            prev.push(s.last())
        }
    }
}

/// Trims white space.
///
/// Calls `str::trim`. Its documentation: it removes leading and trailing
/// white space, as the Unicode `White_Space` property defines it. The
/// contract says that.
#[verifier::external_body]
fn trim_text(s: &str) -> (r: &str)
    ensures
        r@ == trimmed(s@),
{
    s.trim()
}

/// Lower-cases ASCII letters.
///
/// Calls `str::to_ascii_lowercase`. Its documentation: ASCII letters `A`
/// to `Z` become `a` to `z`, every other character is kept. The contract
/// says that.
#[verifier::external_body]
pub(crate) fn lowercase_ascii(s: &str) -> (r: String)
    ensures
        r@ == ascii_lowercased(s@),
{
    s.to_ascii_lowercase()
}

/// Removes characters.
///
/// Calls `str::replace` with the characters as pattern and an empty
/// replacement. Its documentation: every match of the pattern, here any one
/// of the characters, is replaced. The contract says that the result is the
/// text without those characters.
#[verifier::external_body]
fn remove_chars(s: &str, chars: &[char]) -> (r: String)
    ensures
        r@ == without_chars(s@, chars@),
{
    s.replace(chars, "")
}

/// The token an annotation request field stands for: trimmed, lower-cased,
/// and without `_`, `-` and spaces.
pub open spec fn annotation_token(value: Seq<char>) -> Seq<char> {
    without_chars(ascii_lowercased(trimmed(value)), seq!['_', '-', ' '])
}

/// Normalises an annotation request field for matching.
pub fn normalize_annotation_token(value: &str) -> (token: String)
    ensures
        token@ == annotation_token(value@),
{
    let set: Vec<char> = vec!['_', '-', ' '];
    assert(set@ =~= seq!['_', '-', ' ']);
    let trimmed_value = trim_text(value);
    let lowered = lowercase_ascii(trimmed_value);
    remove_chars(lowered.as_str(), set.as_slice())
}

/// The token of an optional annotation field; a missing field reads as the
/// empty token.
pub open spec fn field_token(value: Option<&str>) -> Seq<char> {
    match value {
        Some(v) => annotation_token(v@),
        None => Seq::empty(),
    }
}

fn field_token_of(value: Option<&str>) -> (token: String)
    ensures
        token@ == field_token(value),
{
    match value {
        Some(v) => normalize_annotation_token(v),
        None => String::new(),
    }
}

/// `annotation <label> must not be empty`, or the trimmed id.
pub fn require_non_empty_annotation_id(label: &str, value: String) -> (r: Result<String, String>)
    ensures
        trimmed(value@).len() == 0 ==> (r matches Err(m) && m@ == "annotation "@ + label@
            + " must not be empty"@),
        trimmed(value@).len() > 0 ==> (r matches Ok(id) && id@ == trimmed(value@)),
{
    let id = trim_text(value.as_str());
    if id.is_empty() {
        let mut m = String::from_str("annotation ");
        m.append(label);
        m.append(" must not be empty");
        Err(m)
    } else {
        Ok(String::from_str(id))
    }
}

/// How long an annotation layer lives.
#[derive(Clone, Copy, Debug, PartialEq, Eq, Structural)]
pub enum SceneAnnotationLifecycle {
    Temporary,
    Pinned,
    Diagnostic,
}

/// How an annotation primitive meets the scene's depth.
#[derive(Clone, Copy, Debug, PartialEq, Eq, Structural)]
pub enum SceneAnnotationDepthMode {
    Overlay,
    DepthTested,
    XRay,
}

/// The shape of an annotation marker.
#[derive(Clone, Copy, Debug, PartialEq, Eq, Structural)]
pub enum SceneMarkerKind {
    Dot,
    Cross,
    Tick,
    Arrow,
}

/// Horizontal placement of a text label at its anchor.
#[derive(Clone, Copy, Debug, PartialEq, Eq, Structural)]
pub enum SceneTextHorizontalAlign {
    Left,
    Center,
    Right,
}

/// Vertical placement of a text label at its anchor.
#[derive(Clone, Copy, Debug, PartialEq, Eq, Structural)]
pub enum SceneTextVerticalAlign {
    Top,
    Middle,
    Bottom,
    Baseline,
}

/// The kinds of annotation primitive a request can describe.
#[derive(Clone, Copy, Debug, PartialEq, Eq, Structural)]
pub enum AnnotationPrimitiveKind {
    Polyline,
    Marker,
    Text,
}

/// How a section is shown.
#[derive(Clone, Copy, Debug, PartialEq, Eq, Structural)]
pub enum SectionDisplayMode {
    ThreeDOverlay,
    TwoDSection,
    Both,
}

/// Which side of a section plane is cut away.
#[derive(Clone, Copy, Debug, PartialEq, Eq, Structural)]
pub enum SectionClipMode {
    /// Nothing is cut away.
    NoClip,
    ClipPositiveNormal,
    ClipNegativeNormal,
}

/// The lifecycle a token names.
pub open spec fn lifecycle_for_token(t: Seq<char>) -> Option<SceneAnnotationLifecycle> {
    if t == ""@ || t == "temporary"@ || t == "temp"@ {
        Some(SceneAnnotationLifecycle::Temporary)
    } else if t == "pinned"@ || t == "pin"@ || t == "persistent"@ {
        Some(SceneAnnotationLifecycle::Pinned)
    } else if t == "diagnostic"@ || t == "debug"@ {
        Some(SceneAnnotationLifecycle::Diagnostic)
    } else {
        None
    }
}

/// The depth mode a token names.
pub open spec fn depth_mode_for_token(t: Seq<char>) -> Option<SceneAnnotationDepthMode> {
    if t == ""@ || t == "overlay"@ || t == "screen"@ {
        Some(SceneAnnotationDepthMode::Overlay)
    } else if t == "depthtested"@ || t == "depth"@ || t == "scene"@ {
        Some(SceneAnnotationDepthMode::DepthTested)
    } else if t == "xray"@ || t == "through"@ {
        Some(SceneAnnotationDepthMode::XRay)
    } else {
        None
    }
}

/// The marker kind a token names.
pub open spec fn marker_kind_for_token(t: Seq<char>) -> Option<SceneMarkerKind> {
    if t == ""@ || t == "dot"@ || t == "point"@ {
        Some(SceneMarkerKind::Dot)
    } else if t == "cross"@ || t == "x"@ {
        Some(SceneMarkerKind::Cross)
    } else if t == "tick"@ || t == "check"@ {
        Some(SceneMarkerKind::Tick)
    } else if t == "arrow"@ {
        Some(SceneMarkerKind::Arrow)
    } else {
        None
    }
}

/// The horizontal alignment a token names.
pub open spec fn horizontal_align_for_token(t: Seq<char>) -> Option<SceneTextHorizontalAlign> {
    if t == ""@ || t == "center"@ || t == "middle"@ {
        Some(SceneTextHorizontalAlign::Center)
    } else if t == "left"@ || t == "start"@ {
        Some(SceneTextHorizontalAlign::Left)
    } else if t == "right"@ || t == "end"@ {
        Some(SceneTextHorizontalAlign::Right)
    } else {
        None
    }
}

/// The vertical alignment a token names.
pub open spec fn vertical_align_for_token(t: Seq<char>) -> Option<SceneTextVerticalAlign> {
    if t == ""@ || t == "middle"@ || t == "center"@ {
        Some(SceneTextVerticalAlign::Middle)
    } else if t == "top"@ {
        Some(SceneTextVerticalAlign::Top)
    } else if t == "bottom"@ {
        Some(SceneTextVerticalAlign::Bottom)
    } else if t == "baseline"@ {
        Some(SceneTextVerticalAlign::Baseline)
    } else {
        None
    }
}

/// The primitive kind a token names.
pub open spec fn primitive_kind_for_token(t: Seq<char>) -> Option<AnnotationPrimitiveKind> {
    if t == "polyline"@ || t == "line"@ || t == "path"@ {
        Some(AnnotationPrimitiveKind::Polyline)
    } else if t == "marker"@ || t == "point"@ {
        Some(AnnotationPrimitiveKind::Marker)
    } else if t == "text"@ || t == "label"@ {
        Some(AnnotationPrimitiveKind::Text)
    } else {
        None
    }
}

/// The lifecycle an optional request field names.
pub fn parse_annotation_lifecycle(value: Option<&str>) -> (r: Result<
    SceneAnnotationLifecycle,
    String,
>)
    ensures
        match lifecycle_for_token(field_token(value)) {
            Some(l) => r == Ok::<_, String>(l),
            None => r matches Err(m) && m@ == "unknown annotation lifecycle "@ + "`"@ + field_token(
                value,
            ) + "`"@,
        },
{
    let token = field_token_of(value);
    let t = token.as_str();
    if str_eq(t, "") || str_eq(t, "temporary") || str_eq(t, "temp") {
        Ok(SceneAnnotationLifecycle::Temporary)
    } else if str_eq(t, "pinned") || str_eq(t, "pin") || str_eq(t, "persistent") {
        Ok(SceneAnnotationLifecycle::Pinned)
    } else if str_eq(t, "diagnostic") || str_eq(t, "debug") {
        Ok(SceneAnnotationLifecycle::Diagnostic)
    } else {
        Err(quoted_message("unknown annotation lifecycle ", t))
    }
}

/// The depth mode an optional request field names.
pub fn parse_annotation_depth_mode(value: Option<&str>) -> (r: Result<
    SceneAnnotationDepthMode,
    String,
>)
    ensures
        match depth_mode_for_token(field_token(value)) {
            Some(d) => r == Ok::<_, String>(d),
            None => r matches Err(m) && m@ == "unknown annotation depth mode "@ + "`"@
                + field_token(value) + "`"@,
        },
{
    let token = field_token_of(value);
    let t = token.as_str();
    if str_eq(t, "") || str_eq(t, "overlay") || str_eq(t, "screen") {
        Ok(SceneAnnotationDepthMode::Overlay)
    } else if str_eq(t, "depthtested") || str_eq(t, "depth") || str_eq(t, "scene") {
        Ok(SceneAnnotationDepthMode::DepthTested)
    } else if str_eq(t, "xray") || str_eq(t, "through") {
        Ok(SceneAnnotationDepthMode::XRay)
    } else {
        Err(quoted_message("unknown annotation depth mode ", t))
    }
}

/// The marker kind an optional request field names.
pub fn parse_marker_kind(value: Option<&str>) -> (r: Result<SceneMarkerKind, String>)
    ensures
        match marker_kind_for_token(field_token(value)) {
            Some(k) => r == Ok::<_, String>(k),
            None => r matches Err(m) && m@ == "unknown annotation marker kind "@ + "`"@
                + field_token(value) + "`"@,
        },
{
    let token = field_token_of(value);
    let t = token.as_str();
    if str_eq(t, "") || str_eq(t, "dot") || str_eq(t, "point") {
        Ok(SceneMarkerKind::Dot)
    } else if str_eq(t, "cross") || str_eq(t, "x") {
        Ok(SceneMarkerKind::Cross)
    } else if str_eq(t, "tick") || str_eq(t, "check") {
        Ok(SceneMarkerKind::Tick)
    } else if str_eq(t, "arrow") {
        Ok(SceneMarkerKind::Arrow)
    } else {
        Err(quoted_message("unknown annotation marker kind ", t))
    }
}

/// The horizontal alignment an optional request field names.
pub fn parse_text_horizontal_align(value: Option<&str>) -> (r: Result<
    SceneTextHorizontalAlign,
    String,
>)
    ensures
        match horizontal_align_for_token(field_token(value)) {
            Some(a) => r == Ok::<_, String>(a),
            None => r matches Err(m) && m@ == "unknown annotation text horizontal align "@ + "`"@
                + field_token(value) + "`"@,
        },
{
    let token = field_token_of(value);
    let t = token.as_str();
    if str_eq(t, "") || str_eq(t, "center") || str_eq(t, "middle") {
        Ok(SceneTextHorizontalAlign::Center)
    } else if str_eq(t, "left") || str_eq(t, "start") {
        Ok(SceneTextHorizontalAlign::Left)
    } else if str_eq(t, "right") || str_eq(t, "end") {
        Ok(SceneTextHorizontalAlign::Right)
    } else {
        Err(quoted_message("unknown annotation text horizontal align ", t))
    }
}

/// The vertical alignment an optional request field names.
pub fn parse_text_vertical_align(value: Option<&str>) -> (r: Result<
    SceneTextVerticalAlign,
    String,
>)
    ensures
        match vertical_align_for_token(field_token(value)) {
            Some(a) => r == Ok::<_, String>(a),
            None => r matches Err(m) && m@ == "unknown annotation text vertical align "@ + "`"@
                + field_token(value) + "`"@,
        },
{
    let token = field_token_of(value);
    let t = token.as_str();
    if str_eq(t, "") || str_eq(t, "middle") || str_eq(t, "center") {
        Ok(SceneTextVerticalAlign::Middle)
    } else if str_eq(t, "top") {
        Ok(SceneTextVerticalAlign::Top)
    } else if str_eq(t, "bottom") {
        Ok(SceneTextVerticalAlign::Bottom)
    } else if str_eq(t, "baseline") {
        Ok(SceneTextVerticalAlign::Baseline)
    } else {
        Err(quoted_message("unknown annotation text vertical align ", t))
    }
}

/// The primitive kind that an annotation request's type field names.
pub fn parse_annotation_primitive_kind(primitive_type: &str) -> (r: Result<
    AnnotationPrimitiveKind,
    String,
>)
    ensures
        match primitive_kind_for_token(annotation_token(primitive_type@)) {
            Some(k) => r == Ok::<_, String>(k),
            None => r matches Err(m) && m@ == "unknown annotation primitive type "@ + "`"@
                + annotation_token(primitive_type@) + "`"@,
        },
{
    let token = normalize_annotation_token(primitive_type);
    let t = token.as_str();
    if str_eq(t, "polyline") || str_eq(t, "line") || str_eq(t, "path") {
        Ok(AnnotationPrimitiveKind::Polyline)
    } else if str_eq(t, "marker") || str_eq(t, "point") {
        Ok(AnnotationPrimitiveKind::Marker)
    } else if str_eq(t, "text") || str_eq(t, "label") {
        Ok(AnnotationPrimitiveKind::Text)
    } else {
        Err(quoted_message("unknown annotation primitive type ", t))
    }
}

/// The lower-cased, trimmed text of an optional section field, or of
/// `default` when the field is missing.
pub open spec fn section_token(value: Option<&str>, default: Seq<char>) -> Seq<char> {
    ascii_lowercased(
        trimmed(
            match value {
                Some(v) => v@,
                None => default,
            },
        ),
    )
}

fn section_token_of(value: Option<&str>, default: &str) -> (token: String)
    ensures
        token@ == section_token(value, default@),
{
    let text = match value {
        Some(v) => v,
        None => default,
    };
    lowercase_ascii(trim_text(text))
}

/// The display mode a section token names.
pub open spec fn display_mode_for_token(t: Seq<char>) -> Option<SectionDisplayMode> {
    if t == ""@ || t == "3d-overlay"@ || t == "3doverlay"@ || t == "three-d-overlay"@ || t
        == "threedoverlay"@ {
        Some(SectionDisplayMode::ThreeDOverlay)
    } else if t == "2d-section"@ || t == "2dsection"@ || t == "two-d-section"@ || t
        == "twodsection"@ {
        Some(SectionDisplayMode::TwoDSection)
    } else if t == "both"@ {
        Some(SectionDisplayMode::Both)
    } else {
        None
    }
}

/// The clip mode a section token names.
pub open spec fn clip_mode_for_token(t: Seq<char>) -> Option<SectionClipMode> {
    if t == ""@ || t == "none"@ || t == "plane"@ || t == "section-plane"@ || t == "sectionplane"@
        || t == "overlay"@ || t == "3d-overlay"@ || t == "3doverlay"@ {
        Some(SectionClipMode::NoClip)
    } else if t == "slice"@ || t == "section"@ || t == "cross-section"@ || t == "crosssection"@
        || t == "cross_section"@ || t == "cut"@ || t == "cut-plane"@ || t == "cutplane"@ {
        Some(SectionClipMode::ClipPositiveNormal)
    } else if t == "positive"@ || t == "clip-positive"@ || t == "clip-positive-normal"@ || t
        == "clippositivenormal"@ {
        Some(SectionClipMode::ClipPositiveNormal)
    } else if t == "negative"@ || t == "clip-negative"@ || t == "clip-negative-normal"@ || t
        == "clipnegativenormal"@ {
        Some(SectionClipMode::ClipNegativeNormal)
    } else {
        None
    }
}

/// The display mode an optional section field names; a missing field
/// means `3d-overlay`.
pub fn parse_section_display_mode(value: Option<&str>) -> (r: Result<SectionDisplayMode, String>)
    ensures
        match display_mode_for_token(section_token(value, "3d-overlay"@)) {
            Some(m) => r == Ok::<_, String>(m),
            None => r matches Err(e) && e@ == "unknown section display mode "@ + "`"@
                + section_token(value, "3d-overlay"@) + "`"@,
        },
{
    let token = section_token_of(value, "3d-overlay");
    let t = token.as_str();
    if str_eq(t, "") || str_eq(t, "3d-overlay") || str_eq(t, "3doverlay") || str_eq(
        t,
        "three-d-overlay",
    ) || str_eq(t, "threedoverlay") {
        Ok(SectionDisplayMode::ThreeDOverlay)
    } else if str_eq(t, "2d-section") || str_eq(t, "2dsection") || str_eq(t, "two-d-section")
        || str_eq(t, "twodsection") {
        Ok(SectionDisplayMode::TwoDSection)
    } else if str_eq(t, "both") {
        Ok(SectionDisplayMode::Both)
    } else {
        Err(quoted_message("unknown section display mode ", t))
    }
}

/// The clip mode an optional section field names; a missing field means
/// `none`.
pub fn parse_section_clip_mode(value: Option<&str>) -> (r: Result<SectionClipMode, String>)
    ensures
        match clip_mode_for_token(section_token(value, "none"@)) {
            Some(m) => r == Ok::<_, String>(m),
            None => r matches Err(e) && e@ == "unknown section clip mode "@ + "`"@
                + section_token(value, "none"@) + "`"@,
        },
{
    let token = section_token_of(value, "none");
    let t = token.as_str();
    if str_eq(t, "") || str_eq(t, "none") || str_eq(t, "plane") || str_eq(t, "section-plane")
        || str_eq(t, "sectionplane") || str_eq(t, "overlay") || str_eq(t, "3d-overlay") || str_eq(
        t,
        "3doverlay",
    ) {
        Ok(SectionClipMode::NoClip)
    } else if str_eq(t, "slice") || str_eq(t, "section") || str_eq(t, "cross-section") || str_eq(
        t,
        "crosssection",
    ) || str_eq(t, "cross_section") || str_eq(t, "cut") || str_eq(t, "cut-plane") || str_eq(
        t,
        "cutplane",
    ) {
        Ok(SectionClipMode::ClipPositiveNormal)
    } else if str_eq(t, "positive") || str_eq(t, "clip-positive") || str_eq(
        t,
        "clip-positive-normal",
    ) || str_eq(t, "clippositivenormal") {
        Ok(SectionClipMode::ClipPositiveNormal)
    } else if str_eq(t, "negative") || str_eq(t, "clip-negative") || str_eq(
        t,
        "clip-negative-normal",
    ) || str_eq(t, "clipnegativenormal") {
        Ok(SectionClipMode::ClipNegativeNormal)
    } else {
        Err(quoted_message("unknown section clip mode ", t))
    }
}

/// The start view a viewer mode names: `default` or `all`, in any case,
/// with white space around it ignored.
pub fn parse_web_view_mode(mode: &str) -> (r: Result<GeometryStartViewRequest, String>)
    ensures
        ({
            let t = ascii_lowercased(trimmed(mode@));
            &&& t == "default"@ ==> r == Ok::<_, String>(GeometryStartViewRequest::Default)
            &&& t == "all"@ ==> r == Ok::<_, String>(GeometryStartViewRequest::All)
            &&& t != "default"@ && t != "all"@ ==> (r matches Err(e) && e@ == "unknown web view mode "@
                + "`"@ + t + "`"@ + "; expected `default` or `all`"@)
        }),
{
    proof {
        reveal_strlit("default");
        reveal_strlit("all");
        assert("default"@.len() != "all"@.len());
    }
    let token = lowercase_ascii(trim_text(mode));
    let t = token.as_str();
    if str_eq(t, "default") {
        Ok(GeometryStartViewRequest::Default)
    } else if str_eq(t, "all") {
        Ok(GeometryStartViewRequest::All)
    } else {
        let mut m = quoted_message("unknown web view mode ", t);
        m.append("; expected `default` or `all`");
        Err(m)
    }
}

/// The name of a section display mode.
pub open spec fn display_mode_name(mode: SectionDisplayMode) -> Seq<char> {
    match mode {
        SectionDisplayMode::ThreeDOverlay => "3d-overlay"@,
        SectionDisplayMode::TwoDSection => "2d-section"@,
        SectionDisplayMode::Both => "both"@,
    }
}

pub fn section_display_mode_name(mode: SectionDisplayMode) -> (name: &'static str)
    ensures
        name@ == display_mode_name(mode),
{
    match mode {
        SectionDisplayMode::ThreeDOverlay => "3d-overlay",
        SectionDisplayMode::TwoDSection => "2d-section",
        SectionDisplayMode::Both => "both",
    }
}

/// The name of a section clip mode.
pub open spec fn clip_mode_name(mode: SectionClipMode) -> Seq<char> {
    match mode {
        SectionClipMode::NoClip => "none"@,
        SectionClipMode::ClipPositiveNormal => "clip-positive-normal"@,
        SectionClipMode::ClipNegativeNormal => "clip-negative-normal"@,
    }
}

pub fn section_clip_mode_name(mode: SectionClipMode) -> (name: &'static str)
    ensures
        name@ == clip_mode_name(mode),
{
    match mode {
        SectionClipMode::NoClip => "none",
        SectionClipMode::ClipPositiveNormal => "clip-positive-normal",
        SectionClipMode::ClipNegativeNormal => "clip-negative-normal",
    }
}

/// The wire name of a lifecycle.
pub open spec fn lifecycle_name(lifecycle: SceneAnnotationLifecycle) -> Seq<char> {
    match lifecycle {
        SceneAnnotationLifecycle::Temporary => "temporary"@,
        SceneAnnotationLifecycle::Pinned => "pinned"@,
        SceneAnnotationLifecycle::Diagnostic => "diagnostic"@,
    }
}

pub fn annotation_lifecycle_name(lifecycle: SceneAnnotationLifecycle) -> (name: &'static str)
    ensures
        name@ == lifecycle_name(lifecycle),
{
    match lifecycle {
        SceneAnnotationLifecycle::Temporary => "temporary",
        SceneAnnotationLifecycle::Pinned => "pinned",
        SceneAnnotationLifecycle::Diagnostic => "diagnostic",
    }
}

/// The wire name of an annotation depth mode.
pub open spec fn depth_mode_name(mode: SceneAnnotationDepthMode) -> Seq<char> {
    match mode {
        SceneAnnotationDepthMode::Overlay => "overlay"@,
        SceneAnnotationDepthMode::DepthTested => "depth-tested"@,
        SceneAnnotationDepthMode::XRay => "xray"@,
    }
}

pub fn annotation_depth_mode_name(mode: SceneAnnotationDepthMode) -> (name: &'static str)
    ensures
        name@ == depth_mode_name(mode),
{
    match mode {
        SceneAnnotationDepthMode::Overlay => "overlay",
        SceneAnnotationDepthMode::DepthTested => "depth-tested",
        SceneAnnotationDepthMode::XRay => "xray",
    }
}

/// The name of a marker kind.
pub open spec fn marker_name(kind: SceneMarkerKind) -> Seq<char> {
    match kind {
        SceneMarkerKind::Dot => "dot"@,
        SceneMarkerKind::Cross => "cross"@,
        SceneMarkerKind::Tick => "tick"@,
        SceneMarkerKind::Arrow => "arrow"@,
    }
}

/// The name of a horizontal text alignment.
pub open spec fn horizontal_align_name(align: SceneTextHorizontalAlign) -> Seq<char> {
    match align {
        SceneTextHorizontalAlign::Center => "center"@,
        SceneTextHorizontalAlign::Left => "left"@,
        SceneTextHorizontalAlign::Right => "right"@,
    }
}

/// The name of a vertical text alignment.
pub open spec fn vertical_align_name(align: SceneTextVerticalAlign) -> Seq<char> {
    match align {
        SceneTextVerticalAlign::Middle => "middle"@,
        SceneTextVerticalAlign::Top => "top"@,
        SceneTextVerticalAlign::Bottom => "bottom"@,
        SceneTextVerticalAlign::Baseline => "baseline"@,
    }
}

pub fn marker_kind_name(kind: SceneMarkerKind) -> (name: &'static str)
    ensures
        name@ == marker_name(kind),
{
    match kind {
        SceneMarkerKind::Dot => "dot",
        SceneMarkerKind::Cross => "cross",
        SceneMarkerKind::Tick => "tick",
        SceneMarkerKind::Arrow => "arrow",
    }
}

pub fn text_horizontal_align_name(align: SceneTextHorizontalAlign) -> (name: &'static str)
    ensures
        name@ == horizontal_align_name(align),
{
    match align {
        SceneTextHorizontalAlign::Center => "center",
        SceneTextHorizontalAlign::Left => "left",
        SceneTextHorizontalAlign::Right => "right",
    }
}

pub fn text_vertical_align_name(align: SceneTextVerticalAlign) -> (name: &'static str)
    ensures
        name@ == vertical_align_name(align),
{
    match align {
        SceneTextVerticalAlign::Middle => "middle",
        SceneTextVerticalAlign::Top => "top",
        SceneTextVerticalAlign::Bottom => "bottom",
        SceneTextVerticalAlign::Baseline => "baseline",
    }
}

pub fn text_depth_mode_name(mode: crate::depth::SceneTextDepthMode) -> (name: &'static str)
    ensures
        name@ == match mode {
            crate::depth::SceneTextDepthMode::Overlay => "overlay"@,
            crate::depth::SceneTextDepthMode::DepthTested => "depth-tested"@,
            crate::depth::SceneTextDepthMode::XRay => "xray"@,
        },
{
    match mode {
        crate::depth::SceneTextDepthMode::Overlay => "overlay",
        crate::depth::SceneTextDepthMode::DepthTested => "depth-tested",
        crate::depth::SceneTextDepthMode::XRay => "xray",
    }
}

proof fn lemma_without_chars_concat(a: Seq<char>, b: Seq<char>, set: Seq<char>)
    ensures
        without_chars(a + b, set) == without_chars(a, set) + without_chars(b, set),
    decreases b.len(),
{
    if b.len() == 0 {
        assert(a + b =~= a);
        assert(without_chars(a, set) + without_chars(b, set) =~= without_chars(a, set));
    } else {
        lemma_without_chars_concat(a, b.drop_last(), set);
        assert((a + b).drop_last() =~= a + b.drop_last());
        assert((a + b).last() == b.last());
        assert(without_chars(a, set) + without_chars(b, set) =~= if set.contains(b.last()) {
            without_chars(a, set) + without_chars(b.drop_last(), set)
        } else {
            (without_chars(a, set) + without_chars(b.drop_last(), set)).push(b.last())
        });
    }
}

/// A word of small ASCII letters is its own annotation token.
proof fn lemma_plain_word_token(word: Seq<char>)
    requires
        word.len() > 0,
        forall|i: int| 0 <= i < word.len() ==> 'a' <= #[trigger] word[i] <= 'z',
    ensures
        annotation_token(word) == word,
{
    assert(!is_white_space(word[0]));
    assert(trim_start_text(word) == word);
    assert(!is_white_space(word.last()));
    assert(trim_end_text(word) == word);
    assert(ascii_lowercased(word) =~= word);
    lemma_word_keeps_all(word);
}

proof fn lemma_word_keeps_all(word: Seq<char>)
    requires
        forall|i: int| 0 <= i < word.len() ==> 'a' <= #[trigger] word[i] <= 'z',
    ensures
        without_chars(word, seq!['_', '-', ' ']) == word,
    decreases word.len(),
{
    if word.len() > 0 {
        lemma_word_keeps_all(word.drop_last());
        assert(!seq!['_', '-', ' '].contains(word.last())) by {
            if seq!['_', '-', ' '].contains(word.last()) {
                let k = choose|k: int| 0 <= k < 3 && seq!['_', '-', ' '][k] == word.last();
            }
        }
        assert(word.drop_last().push(word.last()) =~= word);
    }
}

/// Lifecycle names read back: the name of each lifecycle, given as a
/// request field, parses to that lifecycle.
pub proof fn lemma_lifecycle_name_round_trip(lifecycle: SceneAnnotationLifecycle)
    ensures
        lifecycle_for_token(annotation_token(lifecycle_name(lifecycle))) == Some(lifecycle),
{
    reveal_strlit("temporary");
    reveal_strlit("pinned");
    reveal_strlit("diagnostic");
    reveal_strlit("");
    reveal_strlit("temp");
    reveal_strlit("pin");
    reveal_strlit("persistent");
    let name = lifecycle_name(lifecycle);
    lemma_plain_word_token(name);
    assert("temporary"@.len() == 9 && "pinned"@.len() == 6 && "diagnostic"@.len() == 10);
    assert(""@.len() == 0 && "temp"@.len() == 4 && "pin"@.len() == 3 && "persistent"@.len() == 10);
    assert("persistent"@[0] != "diagnostic"@[0]);
}

/// Depth mode names read back: the name of each annotation depth mode,
/// given as a request field, parses to that depth mode.
pub proof fn lemma_depth_mode_name_round_trip(mode: SceneAnnotationDepthMode)
    ensures
        depth_mode_for_token(annotation_token(depth_mode_name(mode))) == Some(mode),
{
    reveal_strlit("overlay");
    reveal_strlit("depth-tested");
    reveal_strlit("xray");
    reveal_strlit("");
    reveal_strlit("screen");
    reveal_strlit("depthtested");
    reveal_strlit("depth");
    reveal_strlit("scene");
    reveal_strlit("through");
    reveal_strlit("tested");
    reveal_strlit("-");
    let set = seq!['_', '-', ' '];
    match mode {
        SceneAnnotationDepthMode::DepthTested => {
            let name = "depth-tested"@;
            assert(name.len() == 12);
            assert(!is_white_space(name[0]) && !is_white_space(name.last()));
            assert(trim_start_text(name) == name);
            assert(trim_end_text(name) == name);
            assert(ascii_lowercased(name) =~= name);
            assert(name =~= "depth"@ + "-"@ + "tested"@);
            lemma_without_chars_concat("depth"@ + "-"@, "tested"@, set);
            lemma_without_chars_concat("depth"@, "-"@, set);
            lemma_word_keeps_all("depth"@);
            lemma_word_keeps_all("tested"@);
            assert("-"@.len() == 1);
            assert("-"@.last() == '-');
            assert("-"@.drop_last() =~= Seq::<char>::empty());
            assert(without_chars("-"@.drop_last(), set) =~= Seq::<char>::empty());
            assert(set.contains('-')) by {
                assert(set[1] == '-');
            }
            assert(without_chars("-"@, set) =~= Seq::<char>::empty());
            assert(annotation_token(name) =~= "depthtested"@);
            assert("overlay"@.len() == 7 && "screen"@.len() == 6 && ""@.len() == 0);
        },
        _ => {
            lemma_plain_word_token(depth_mode_name(mode));
            assert("overlay"@.len() == 7 && "screen"@.len() == 6 && ""@.len() == 0);
            assert("depthtested"@.len() == 11 && "depth"@.len() == 5 && "scene"@.len() == 5);
            assert("xray"@.len() == 4);
            assert("scene"@[0] != "xray"@[0] && "depth"@[0] != "xray"@[0]);
        },
    }
}

/// Marker kind names read back: the name of each marker kind, given as a
/// request field, parses to that kind.
pub proof fn lemma_marker_name_round_trip(kind: SceneMarkerKind)
    ensures
        marker_kind_for_token(annotation_token(marker_name(kind))) == Some(kind),
{
    reveal_strlit("dot");
    reveal_strlit("cross");
    reveal_strlit("tick");
    reveal_strlit("arrow");
    reveal_strlit("");
    reveal_strlit("point");
    reveal_strlit("x");
    reveal_strlit("check");
    lemma_plain_word_token(marker_name(kind));
    assert("dot"@.len() == 3 && "cross"@.len() == 5 && "tick"@.len() == 4 && "arrow"@.len() == 5);
    assert("point"@.len() == 5 && "x"@.len() == 1 && "check"@.len() == 5 && ""@.len() == 0);
    assert("cross"@[0] != "point"@[0] && "arrow"@[0] != "point"@[0] && "arrow"@[0] != "cross"@[0]);
    assert("arrow"@[0] != "check"@[0]);
}

/// Horizontal alignment names read back.
pub proof fn lemma_horizontal_align_name_round_trip(align: SceneTextHorizontalAlign)
    ensures
        horizontal_align_for_token(annotation_token(horizontal_align_name(align))) == Some(align),
{
    reveal_strlit("center");
    reveal_strlit("left");
    reveal_strlit("right");
    reveal_strlit("");
    reveal_strlit("middle");
    reveal_strlit("start");
    reveal_strlit("end");
    lemma_plain_word_token(horizontal_align_name(align));
    assert("center"@.len() == 6 && "left"@.len() == 4 && "right"@.len() == 5);
    assert("middle"@.len() == 6 && "start"@.len() == 5 && "end"@.len() == 3 && ""@.len() == 0);
    assert("left"@[0] != "center"@[0] && "right"@[0] != "start"@[0] && "left"@[0] != "middle"@[0]);
    assert("right"@[0] != "middle"@[0]);
}

/// Vertical alignment names read back.
pub proof fn lemma_vertical_align_name_round_trip(align: SceneTextVerticalAlign)
    ensures
        vertical_align_for_token(annotation_token(vertical_align_name(align))) == Some(align),
{
    reveal_strlit("middle");
    reveal_strlit("top");
    reveal_strlit("bottom");
    reveal_strlit("baseline");
    reveal_strlit("");
    reveal_strlit("center");
    lemma_plain_word_token(vertical_align_name(align));
    assert("middle"@.len() == 6 && "top"@.len() == 3 && "bottom"@.len() == 6);
    assert("baseline"@.len() == 8 && "center"@.len() == 6 && ""@.len() == 0);
    assert("top"@[0] != "center"@[0] && "bottom"@[0] != "middle"@[0] && "bottom"@[0] != "center"@[0]);
    assert("baseline"@[0] != "center"@[0]);
}

/// A request's optional text field, dropped when it holds only white space.
pub fn keep_non_blank(value: Option<String>) -> (r: Option<String>)
    ensures
        match value {
            None => r is None,
            Some(v) => if trimmed(v@).len() > 0 {
                r == Some(v)
            } else {
                r is None
            },
        },
{
    match value {
        None => None,
        Some(v) => {
            let blank = trim_text(v.as_str()).unicode_len() == 0;
            if blank {
                None
            } else {
                Some(v)
            }
        },
    }
}

/// The resource a section request applies to: the one it names when not
/// blank, else the viewer's current resource.
pub fn section_resource_or_current(requested: Option<String>, current_resource: &str) -> (resource:
    String)
    ensures
        resource@ == match requested {
            Some(v) => if trimmed(v@).len() > 0 {
                v@
            } else {
                current_resource@
            },
            None => current_resource@,
        },
{
    match keep_non_blank(requested) {
        Some(v) => v,
        None => current_resource.to_owned(),
    }
}

/// The display and clip modes of a section request: each field must name
/// a mode (display first), and only the 3D overlay display is drawn.
pub fn parse_section_modes(mode: Option<&str>, clip: Option<&str>) -> (r: Result<
    (SectionDisplayMode, SectionClipMode),
    String,
>)
    ensures
        match display_mode_for_token(section_token(mode, "3d-overlay"@)) {
            None => r matches Err(e) && e@ == "unknown section display mode "@ + "`"@
                + section_token(mode, "3d-overlay"@) + "`"@,
            Some(m) => match clip_mode_for_token(section_token(clip, "none"@)) {
                None => r matches Err(e) && e@ == "unknown section clip mode "@ + "`"@
                    + section_token(clip, "none"@) + "`"@,
                Some(c) => if m == SectionDisplayMode::ThreeDOverlay {
                    r == Ok::<_, String>((m, c))
                } else {
                    r matches Err(e) && e@ == "section display mode `"@ + display_mode_name(m)
                        + "` is not implemented yet; use `3d-overlay`"@
                },
            },
        },
{
    let display = parse_section_display_mode(mode)?;
    let clip_mode = parse_section_clip_mode(clip)?;
    if display != SectionDisplayMode::ThreeDOverlay {
        let mut m = String::from_str("section display mode `");
        m.append(section_display_mode_name(display));
        m.append("` is not implemented yet; use `3d-overlay`");
        return Err(m);
    }
    Ok((display, clip_mode))
}

/// A text of small letters, digits and `-` that starts and ends with a
/// letter or digit is its own section token.
proof fn lemma_plain_section_token(word: Seq<char>)
    requires
        word.len() > 0,
        forall|i: int|
            0 <= i < word.len() ==> ('a' <= #[trigger] word[i] <= 'z' || '0' <= word[i] <= '9'
                || word[i] == '-'),
        word[0] != '-',
        word.last() != '-',
    ensures
        ascii_lowercased(trimmed(word)) == word,
{
    assert(!is_white_space(word[0]));
    assert(trim_start_text(word) == word);
    assert(!is_white_space(word.last()));
    assert(trim_end_text(word) == word);
    assert(ascii_lowercased(word) =~= word);
}

/// Section display mode names read back: the name of each display mode,
/// given as the request's field, parses to that mode.
pub proof fn lemma_display_mode_name_round_trip(mode: SectionDisplayMode)
    ensures
        display_mode_for_token(ascii_lowercased(trimmed(display_mode_name(mode)))) == Some(mode),
{
    reveal_strlit("3d-overlay");
    reveal_strlit("2d-section");
    reveal_strlit("both");
    reveal_strlit("");
    reveal_strlit("3doverlay");
    reveal_strlit("three-d-overlay");
    reveal_strlit("threedoverlay");
    reveal_strlit("2dsection");
    reveal_strlit("two-d-section");
    reveal_strlit("twodsection");
    lemma_plain_section_token(display_mode_name(mode));
    assert("3d-overlay"@.len() == 10 && "2d-section"@.len() == 10 && "both"@.len() == 4);
    assert("3doverlay"@.len() == 9 && "three-d-overlay"@.len() == 15);
    assert("threedoverlay"@.len() == 13 && "2dsection"@.len() == 9);
    assert("two-d-section"@.len() == 13 && "twodsection"@.len() == 11 && ""@.len() == 0);
    assert("2d-section"@[0] != "3d-overlay"@[0]);
}

/// Section clip mode names read back.
pub proof fn lemma_clip_mode_name_round_trip(mode: SectionClipMode)
    ensures
        clip_mode_for_token(ascii_lowercased(trimmed(clip_mode_name(mode)))) == Some(mode),
{
    reveal_strlit("none");
    reveal_strlit("clip-positive-normal");
    reveal_strlit("clip-negative-normal");
    reveal_strlit("");
    reveal_strlit("plane");
    reveal_strlit("section-plane");
    reveal_strlit("sectionplane");
    reveal_strlit("overlay");
    reveal_strlit("3d-overlay");
    reveal_strlit("3doverlay");
    reveal_strlit("slice");
    reveal_strlit("section");
    reveal_strlit("cross-section");
    reveal_strlit("crosssection");
    reveal_strlit("cross_section");
    reveal_strlit("cut");
    reveal_strlit("cut-plane");
    reveal_strlit("cutplane");
    reveal_strlit("positive");
    reveal_strlit("clip-positive");
    reveal_strlit("clippositivenormal");
    reveal_strlit("negative");
    reveal_strlit("clip-negative");
    lemma_plain_section_token(clip_mode_name(mode));
    let p = "clip-positive-normal"@;
    let n = "clip-negative-normal"@;
    assert(p.len() == 20 && n.len() == 20 && "none"@.len() == 4);
    assert(p[5] != n[5]);
    assert("plane"@.len() == 5 && "section-plane"@.len() == 13 && "sectionplane"@.len() == 12);
    assert("overlay"@.len() == 7 && "3d-overlay"@.len() == 10 && "3doverlay"@.len() == 9);
    assert("slice"@.len() == 5 && "section"@.len() == 7 && "cross-section"@.len() == 13);
    assert("crosssection"@.len() == 12 && "cross_section"@.len() == 13 && "cut"@.len() == 3);
    assert("cut-plane"@.len() == 9 && "cutplane"@.len() == 8 && "positive"@.len() == 8);
    assert("clip-positive"@.len() == 13 && "clippositivenormal"@.len() == 18);
    assert("negative"@.len() == 8 && "clip-negative"@.len() == 13 && ""@.len() == 0);
}

/// The horizontal alignment words: `left` and `start` both mean left,
/// `right` and `end` both mean right, and `center`, `middle` and a missing
/// field mean centred; no other token names an alignment.
pub proof fn lemma_horizontal_align_aliases(t: Seq<char>)
    ensures
        horizontal_align_for_token(t) == Some(SceneTextHorizontalAlign::Left) <==> (t == "left"@
            || t == "start"@),
        horizontal_align_for_token(t) == Some(SceneTextHorizontalAlign::Right) <==> (t == "right"@
            || t == "end"@),
        horizontal_align_for_token(t) == Some(SceneTextHorizontalAlign::Center) <==> (t == ""@ || t
            == "center"@ || t == "middle"@),
{
    reveal_strlit("left");
    reveal_strlit("start");
    reveal_strlit("right");
    reveal_strlit("end");
    reveal_strlit("center");
    reveal_strlit("middle");
    reveal_strlit("");
    assert("left"@.len() == 4 && "start"@.len() == 5 && "right"@.len() == 5);
    assert("end"@.len() == 3 && "center"@.len() == 6 && "middle"@.len() == 6 && ""@.len() == 0);
    assert("start"@[0] != "right"@[0] && "center"@[0] != "middle"@[0]);
}

/// Whatever a request writes for the horizontal alignment, once trimmed,
/// lower-cased and stripped of `_`, `-` and spaces: `start` aligns left and
/// `end` aligns right, as `left` and `right` do.
pub proof fn lemma_horizontal_align_request_aliases(value: Seq<char>)
    ensures
        (annotation_token(value) == "start"@ || annotation_token(value) == "left"@)
            ==> horizontal_align_for_token(annotation_token(value)) == Some(
            SceneTextHorizontalAlign::Left,
        ),
        (annotation_token(value) == "end"@ || annotation_token(value) == "right"@)
            ==> horizontal_align_for_token(annotation_token(value)) == Some(
            SceneTextHorizontalAlign::Right,
        ),
{
    lemma_horizontal_align_aliases(annotation_token(value));
}

/// The lifecycle words: a missing field, `temporary` and `temp` mean
/// temporary; `pinned`, `pin` and `persistent` mean pinned; `diagnostic` and
/// `debug` mean diagnostic; no other token names a lifecycle.
pub proof fn lemma_lifecycle_aliases(t: Seq<char>)
    ensures
        lifecycle_for_token(t) == Some(SceneAnnotationLifecycle::Temporary) <==> (t == ""@ || t == "temporary"@ || t == "temp"@),
        lifecycle_for_token(t) == Some(SceneAnnotationLifecycle::Pinned) <==> (t == "pinned"@ || t == "pin"@ || t == "persistent"@),
        lifecycle_for_token(t) == Some(SceneAnnotationLifecycle::Diagnostic) <==> (t == "diagnostic"@ || t == "debug"@),
{
    reveal_strlit("");
    reveal_strlit("temporary");
    reveal_strlit("temp");
    reveal_strlit("pinned");
    reveal_strlit("pin");
    reveal_strlit("persistent");
    reveal_strlit("diagnostic");
    reveal_strlit("debug");
    assert(""@.len() == 0);
    assert("temporary"@.len() == 9);
    assert("temp"@.len() == 4);
    assert("pinned"@.len() == 6);
    assert("pin"@.len() == 3);
    assert("persistent"@.len() == 10);
    assert("diagnostic"@.len() == 10);
    assert("debug"@.len() == 5);
    assert("persistent"@[0] != "diagnostic"@[0]);
}

/// The depth mode words: a missing field, `overlay` and `screen` draw over
/// the scene; `depthtested`, `depth` and `scene` are depth tested; `xray`
/// and `through` draw through; no other token names a depth mode.
pub proof fn lemma_depth_mode_aliases(t: Seq<char>)
    ensures
        depth_mode_for_token(t) == Some(SceneAnnotationDepthMode::Overlay) <==> (t == ""@ || t == "overlay"@ || t == "screen"@),
        depth_mode_for_token(t) == Some(SceneAnnotationDepthMode::DepthTested) <==> (t == "depthtested"@ || t == "depth"@ || t == "scene"@),
        depth_mode_for_token(t) == Some(SceneAnnotationDepthMode::XRay) <==> (t == "xray"@ || t == "through"@),
{
    reveal_strlit("");
    reveal_strlit("overlay");
    reveal_strlit("screen");
    reveal_strlit("depthtested");
    reveal_strlit("depth");
    reveal_strlit("scene");
    reveal_strlit("xray");
    reveal_strlit("through");
    assert(""@.len() == 0);
    assert("overlay"@.len() == 7);
    assert("screen"@.len() == 6);
    assert("depthtested"@.len() == 11);
    assert("depth"@.len() == 5);
    assert("scene"@.len() == 5);
    assert("xray"@.len() == 4);
    assert("through"@.len() == 7);
    assert("overlay"@[0] != "through"@[0]);
    assert("depth"@[0] != "scene"@[0]);
}

/// The marker words: a missing field, `dot` and `point` mean a dot; `cross`
/// and `x` a cross; `tick` and `check` a tick; `arrow` an arrow; no other
/// token names a marker.
pub proof fn lemma_marker_kind_aliases(t: Seq<char>)
    ensures
        marker_kind_for_token(t) == Some(SceneMarkerKind::Dot) <==> (t == ""@ || t == "dot"@ || t == "point"@),
        marker_kind_for_token(t) == Some(SceneMarkerKind::Cross) <==> (t == "cross"@ || t == "x"@),
        marker_kind_for_token(t) == Some(SceneMarkerKind::Tick) <==> (t == "tick"@ || t == "check"@),
        marker_kind_for_token(t) == Some(SceneMarkerKind::Arrow) <==> (t == "arrow"@),
{
    reveal_strlit("");
    reveal_strlit("dot");
    reveal_strlit("point");
    reveal_strlit("cross");
    reveal_strlit("x");
    reveal_strlit("tick");
    reveal_strlit("check");
    reveal_strlit("arrow");
    assert(""@.len() == 0);
    assert("dot"@.len() == 3);
    assert("point"@.len() == 5);
    assert("cross"@.len() == 5);
    assert("x"@.len() == 1);
    assert("tick"@.len() == 4);
    assert("check"@.len() == 5);
    assert("arrow"@.len() == 5);
    assert("point"@[0] != "cross"@[0]);
    assert("point"@[0] != "check"@[0]);
    assert("point"@[0] != "arrow"@[0]);
    assert("cross"@[1] != "check"@[1]);
    assert("cross"@[0] != "arrow"@[0]);
    assert("check"@[0] != "arrow"@[0]);
}

/// The vertical alignment words: a missing field, `middle` and `center`
/// centre; `top`, `bottom` and `baseline` align to those lines; no other
/// token names a vertical alignment.
pub proof fn lemma_vertical_align_aliases(t: Seq<char>)
    ensures
        vertical_align_for_token(t) == Some(SceneTextVerticalAlign::Middle) <==> (t == ""@ || t == "middle"@ || t == "center"@),
        vertical_align_for_token(t) == Some(SceneTextVerticalAlign::Top) <==> (t == "top"@),
        vertical_align_for_token(t) == Some(SceneTextVerticalAlign::Bottom) <==> (t == "bottom"@),
        vertical_align_for_token(t) == Some(SceneTextVerticalAlign::Baseline) <==> (t == "baseline"@),
{
    reveal_strlit("");
    reveal_strlit("middle");
    reveal_strlit("center");
    reveal_strlit("top");
    reveal_strlit("bottom");
    reveal_strlit("baseline");
    assert(""@.len() == 0);
    assert("middle"@.len() == 6);
    assert("center"@.len() == 6);
    assert("top"@.len() == 3);
    assert("bottom"@.len() == 6);
    assert("baseline"@.len() == 8);
    assert("middle"@[0] != "center"@[0]);
    assert("middle"@[0] != "bottom"@[0]);
    assert("center"@[0] != "bottom"@[0]);
}

/// The primitive words: `polyline`, `line` and `path` are polylines;
/// `marker` and `point` markers; `text` and `label` text labels; no other
/// token names a primitive.
pub proof fn lemma_primitive_kind_aliases(t: Seq<char>)
    ensures
        primitive_kind_for_token(t) == Some(AnnotationPrimitiveKind::Polyline) <==> (t == "polyline"@ || t == "line"@ || t == "path"@),
        primitive_kind_for_token(t) == Some(AnnotationPrimitiveKind::Marker) <==> (t == "marker"@ || t == "point"@),
        primitive_kind_for_token(t) == Some(AnnotationPrimitiveKind::Text) <==> (t == "text"@ || t == "label"@),
{
    reveal_strlit("polyline");
    reveal_strlit("line");
    reveal_strlit("path");
    reveal_strlit("marker");
    reveal_strlit("point");
    reveal_strlit("text");
    reveal_strlit("label");
    assert("polyline"@.len() == 8);
    assert("line"@.len() == 4);
    assert("path"@.len() == 4);
    assert("marker"@.len() == 6);
    assert("point"@.len() == 5);
    assert("text"@.len() == 4);
    assert("label"@.len() == 5);
    assert("line"@[0] != "path"@[0]);
    assert("line"@[0] != "text"@[0]);
    assert("path"@[0] != "text"@[0]);
    assert("point"@[0] != "label"@[0]);
}

/// The section display words: a missing field and the spellings of the
/// 3D overlay mean the overlay; the spellings of the 2D section mean the
/// section; `both` means both; no other token names a display mode.
pub proof fn lemma_display_mode_aliases(t: Seq<char>)
    ensures
        display_mode_for_token(t) == Some(SectionDisplayMode::ThreeDOverlay) <==> (t == ""@ || t == "3d-overlay"@ || t == "3doverlay"@ || t == "three-d-overlay"@ || t == "threedoverlay"@),
        display_mode_for_token(t) == Some(SectionDisplayMode::TwoDSection) <==> (t == "2d-section"@ || t == "2dsection"@ || t == "two-d-section"@ || t == "twodsection"@),
        display_mode_for_token(t) == Some(SectionDisplayMode::Both) <==> (t == "both"@),
{
    reveal_strlit("");
    reveal_strlit("3d-overlay");
    reveal_strlit("3doverlay");
    reveal_strlit("three-d-overlay");
    reveal_strlit("threedoverlay");
    reveal_strlit("2d-section");
    reveal_strlit("2dsection");
    reveal_strlit("two-d-section");
    reveal_strlit("twodsection");
    reveal_strlit("both");
    assert(""@.len() == 0);
    assert("3d-overlay"@.len() == 10);
    assert("3doverlay"@.len() == 9);
    assert("three-d-overlay"@.len() == 15);
    assert("threedoverlay"@.len() == 13);
    assert("2d-section"@.len() == 10);
    assert("2dsection"@.len() == 9);
    assert("two-d-section"@.len() == 13);
    assert("twodsection"@.len() == 11);
    assert("both"@.len() == 4);
    assert("3d-overlay"@[0] != "2d-section"@[0]);
    assert("3doverlay"@[0] != "2dsection"@[0]);
    assert("threedoverlay"@[1] != "two-d-section"@[1]);
}

/// The section clip words: a missing field, `none` and the plane and
/// overlay spellings cut nothing; the slice, section and cut spellings and
/// the positive spellings cut on the positive side; the negative spellings
/// cut on the negative side; no other token names a clip mode.
pub proof fn lemma_clip_mode_aliases(t: Seq<char>)
    ensures
        clip_mode_for_token(t) == Some(SectionClipMode::NoClip) <==> (t == ""@ || t == "none"@ || t == "plane"@ || t == "section-plane"@ || t == "sectionplane"@ || t == "overlay"@ || t == "3d-overlay"@ || t == "3doverlay"@),
        clip_mode_for_token(t) == Some(SectionClipMode::ClipPositiveNormal) <==> (t == "slice"@ || t == "section"@ || t == "cross-section"@ || t == "crosssection"@ || t == "cross_section"@ || t == "cut"@ || t == "cut-plane"@ || t == "cutplane"@ || t == "positive"@ || t == "clip-positive"@ || t == "clip-positive-normal"@ || t == "clippositivenormal"@),
        clip_mode_for_token(t) == Some(SectionClipMode::ClipNegativeNormal) <==> (t == "negative"@ || t == "clip-negative"@ || t == "clip-negative-normal"@ || t == "clipnegativenormal"@),
{
    reveal_strlit("");
    reveal_strlit("none");
    reveal_strlit("plane");
    reveal_strlit("section-plane");
    reveal_strlit("sectionplane");
    reveal_strlit("overlay");
    reveal_strlit("3d-overlay");
    reveal_strlit("3doverlay");
    reveal_strlit("slice");
    reveal_strlit("section");
    reveal_strlit("cross-section");
    reveal_strlit("crosssection");
    reveal_strlit("cross_section");
    reveal_strlit("cut");
    reveal_strlit("cut-plane");
    reveal_strlit("cutplane");
    reveal_strlit("positive");
    reveal_strlit("clip-positive");
    reveal_strlit("clip-positive-normal");
    reveal_strlit("clippositivenormal");
    reveal_strlit("negative");
    reveal_strlit("clip-negative");
    reveal_strlit("clip-negative-normal");
    reveal_strlit("clipnegativenormal");
    assert(""@.len() == 0);
    assert("none"@.len() == 4);
    assert("plane"@.len() == 5);
    assert("section-plane"@.len() == 13);
    assert("sectionplane"@.len() == 12);
    assert("overlay"@.len() == 7);
    assert("3d-overlay"@.len() == 10);
    assert("3doverlay"@.len() == 9);
    assert("slice"@.len() == 5);
    assert("section"@.len() == 7);
    assert("cross-section"@.len() == 13);
    assert("crosssection"@.len() == 12);
    assert("cross_section"@.len() == 13);
    assert("cut"@.len() == 3);
    assert("cut-plane"@.len() == 9);
    assert("cutplane"@.len() == 8);
    assert("positive"@.len() == 8);
    assert("clip-positive"@.len() == 13);
    assert("clip-positive-normal"@.len() == 20);
    assert("clippositivenormal"@.len() == 18);
    assert("negative"@.len() == 8);
    assert("clip-negative"@.len() == 13);
    assert("clip-negative-normal"@.len() == 20);
    assert("clipnegativenormal"@.len() == 18);
    assert("plane"@[0] != "slice"@[0]);
    assert("section-plane"@[0] != "cross-section"@[0]);
    assert("section-plane"@[0] != "cross_section"@[0]);
    assert("section-plane"@[0] != "clip-positive"@[0]);
    assert("section-plane"@[0] != "clip-negative"@[0]);
    assert("sectionplane"@[0] != "crosssection"@[0]);
    assert("overlay"@[0] != "section"@[0]);
    assert("3doverlay"@[0] != "cut-plane"@[0]);
    assert("cross-section"@[5] != "cross_section"@[5]);
    assert("cross-section"@[1] != "clip-positive"@[1]);
    assert("cross-section"@[1] != "clip-negative"@[1]);
    assert("cross_section"@[1] != "clip-positive"@[1]);
    assert("cross_section"@[1] != "clip-negative"@[1]);
    assert("cutplane"@[0] != "positive"@[0]);
    assert("cutplane"@[0] != "negative"@[0]);
    assert("positive"@[0] != "negative"@[0]);
    assert("clip-positive"@[5] != "clip-negative"@[5]);
    assert("clip-positive-normal"@[5] != "clip-negative-normal"@[5]);
    assert("clippositivenormal"@[4] != "clipnegativenormal"@[4]);
}

proof fn lemma_without_chars_members(s: Seq<char>, set: Seq<char>)
    ensures
        forall|i: int|
            0 <= i < without_chars(s, set).len() ==> !set.contains(
                #[trigger] without_chars(s, set)[i],
            ) && s.contains(without_chars(s, set)[i]),
        forall|c: char| #[trigger] s.contains(c) && !set.contains(c) ==> without_chars(
            s,
            set,
        ).contains(c),
    decreases s.len(),
{
    if s.len() > 0 {
        lemma_without_chars_members(s.drop_last(), set);
        let prev = without_chars(s.drop_last(), set);
        let w = without_chars(s, set);
        assert forall|i: int| 0 <= i < w.len() implies !set.contains(#[trigger] w[i]) && s.contains(
            w[i],
        ) by {
            if i < prev.len() {
                assert(w[i] == prev[i]);
                let j = choose|j: int| 0 <= j < s.drop_last().len() && s.drop_last()[j] == prev[i];
                assert(s[j] == prev[i]);
            } else {
                assert(w[i] == s.last());
                assert(s[s.len() - 1] == s.last());
            }
        }
        assert forall|c: char| #[trigger] s.contains(c) && !set.contains(c) implies w.contains(c) by {
            let j = choose|j: int| 0 <= j < s.len() && s[j] == c;
            if j < s.len() - 1 {
                assert(s.drop_last()[j] == c);
                assert(s.drop_last().contains(c));
                let k = choose|k: int| 0 <= k < prev.len() && prev[k] == c;
                assert(w[k] == c);
            } else {
                assert(w[w.len() - 1] == c);
            }
        }
    }
}

/// What normalising an annotation request field gives: no capital ASCII
/// letter, no `_`, `-` or space, while every small letter of the trimmed
/// field is kept.
pub proof fn lemma_annotation_token_shape(value: Seq<char>)
    ensures
        forall|i: int|
            0 <= i < annotation_token(value).len() ==> {
                let c = #[trigger] annotation_token(value)[i];
                &&& !('A' <= c <= 'Z')
                &&& c != '_' && c != '-' && c != ' '
            },
        forall|c: char|
            #[trigger] trimmed(value).contains(c) && 'a' <= c <= 'z' ==> annotation_token(
                value,
            ).contains(c),
{
    let set = seq!['_', '-', ' '];
    let low = ascii_lowercased(trimmed(value));
    lemma_without_chars_members(low, set);
    assert(set.contains('_') && set.contains('-') && set.contains(' ')) by {
        assert(set[0] == '_' && set[1] == '-' && set[2] == ' ');
    }
    assert forall|i: int| 0 <= i < annotation_token(value).len() implies {
        let c = #[trigger] annotation_token(value)[i];
        &&& !('A' <= c <= 'Z')
        &&& c != '_' && c != '-' && c != ' '
    } by {
        let c = annotation_token(value)[i];
        assert(low.contains(c));
        let j = choose|j: int| 0 <= j < low.len() && low[j] == c;
        assert(low[j] == ascii_lower(trimmed(value)[j]));
    }
    assert forall|c: char| #[trigger] trimmed(value).contains(c) && 'a' <= c <= 'z' implies annotation_token(
        value,
    ).contains(c) by {
        let j = choose|j: int| 0 <= j < trimmed(value).len() && trimmed(value)[j] == c;
        assert(low[j] == c);
        assert(low.contains(c));
        if set.contains(c) {
            let k = choose|k: int| 0 <= k < 3 && set[k] == c;
        }
    }
}

} // verus!
