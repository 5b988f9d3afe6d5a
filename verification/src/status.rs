use vstd::prelude::*;
use vstd::string::StringExecFns;

use crate::profile::{profile_label, RenderProfileId};
use crate::project::GeometryStartViewRequest;
use crate::text::{decimal_text, push_decimal};

verus! {

/// The counts that the viewer's status line reports about its scene.
#[derive(Clone, Copy, Debug, PartialEq, Eq, Structural)]
pub struct ViewerStatusCounts {
    /// Meshes in the composed render scene.
    pub definitions: usize,
    pub triangles: usize,
    pub draws: usize,
    pub visible_elements: usize,
    pub total_elements: usize,
    pub selected_elements: usize,
    pub inspected_elements: usize,
    /// Instances and meshes that visible elements need and that are not
    /// streamed yet.
    pub missing_instances: usize,
    pub missing_definitions: usize,
}

/// The title of a start view in the status line.
pub open spec fn view_mode_title(request: GeometryStartViewRequest) -> Seq<char> {
    match request {
        GeometryStartViewRequest::Default => "Default"@,
        GeometryStartViewRequest::Minimal(_) => "Minimal"@,
        GeometryStartViewRequest::All => "All"@,
        GeometryStartViewRequest::Elements(_) => "Elements"@,
    }
}

/// `n` in decimal.
pub open spec fn count_text(n: usize) -> Seq<char> {
    decimal_text(n as nat)
}

/// Whether streaming has caught up with the visible elements, or what is
/// still missing.
pub open spec fn stream_status_text(counts: ViewerStatusCounts) -> Seq<char> {
    if counts.missing_instances == 0 && counts.missing_definitions == 0 {
        "stream ok"@
    } else {
        "missing "@ + count_text(counts.missing_instances) + " inst / "@ + count_text(
            counts.missing_definitions,
        ) + " meshes"@
    }
}

/// The inspection part: empty when nothing is inspected.
pub open spec fn inspection_status_text(counts: ViewerStatusCounts) -> Seq<char> {
    if counts.inspected_elements == 0 {
        Seq::empty()
    } else {
        " · "@ + count_text(counts.inspected_elements) + " inspected"@
    }
}

/// The section part: empty without a section, the station when the
/// section has one (as the caller formatted it).
pub open spec fn section_status_text(section: Option<Option<Seq<char>>>) -> Seq<char> {
    match section {
        None => Seq::empty(),
        Some(None) => " · section"@,
        Some(Some(station)) => " · section station "@ + station,
    }
}

/// The viewer's status line.
pub open spec fn status_line_text(
    profile: RenderProfileId,
    view: GeometryStartViewRequest,
    counts: ViewerStatusCounts,
    section: Option<Option<Seq<char>>>,
) -> Seq<char> {
    profile_label(profile) + " · "@ + view_mode_title(view) + " · "@ + count_text(
        counts.definitions,
    ) + " meshes · "@ + count_text(counts.triangles) + " tris · "@ + count_text(counts.draws)
        + " draws · "@ + count_text(counts.visible_elements) + "/"@ + count_text(
        counts.total_elements,
    ) + " visible · "@ + count_text(counts.selected_elements) + " selected"@
        + inspection_status_text(counts) + section_status_text(section) + " · "@
        + stream_status_text(counts)
}

fn push_count(text: &mut String, n: usize)
    ensures
        final(text)@ == old(text)@ + count_text(n),
{
    push_decimal(text, n as u64);
}

/// The status line that the viewer shows under its canvas: the render
/// profile, the start view, the scene's counts, what is inspected, the
/// section, and the state of streaming. `section` is `None` without a
/// section, and holds the section's station, formatted, when it has one.
pub fn web_viewer_status_line(
    profile: RenderProfileId,
    view: &GeometryStartViewRequest,
    counts: &ViewerStatusCounts,
    section: Option<Option<&str>>,
) -> (line: String)
    ensures
        line@ == status_line_text(
            profile,
            *view,
            *counts,
            match section {
                None => None,
                Some(None) => Some(None),
                Some(Some(station)) => Some(Some(station@)),
            },
        ),
{
    let mut line = String::from_str(profile.label());
    line.append(" · ");
    line.append(
        match view {
            GeometryStartViewRequest::Default => "Default",
            GeometryStartViewRequest::Minimal(_) => "Minimal",
            GeometryStartViewRequest::All => "All",
            GeometryStartViewRequest::Elements(_) => "Elements",
        },
    );
    line.append(" · ");
    push_count(&mut line, counts.definitions);
    line.append(" meshes · ");
    push_count(&mut line, counts.triangles);
    line.append(" tris · ");
    push_count(&mut line, counts.draws);
    line.append(" draws · ");
    push_count(&mut line, counts.visible_elements);
    line.append("/");
    push_count(&mut line, counts.total_elements);
    line.append(" visible · ");
    push_count(&mut line, counts.selected_elements);
    line.append(" selected");
    let ghost head = line@;
    if counts.inspected_elements != 0 {
        line.append(" · ");
        push_count(&mut line, counts.inspected_elements);
        line.append(" inspected");
    }
    assert(line@ =~= head + inspection_status_text(*counts));
    let ghost with_inspection = line@;
    match section {
        None => {},
        Some(None) => {
            line.append(" · section");
        },
        Some(Some(station)) => {
            line.append(" · section station ");
            line.append(station);
        },
    }
    let ghost mapped = match section {
        None => None,
        Some(None) => Some(None),
        Some(Some(station)) => Some(Some(station@)),
    };
    assert(line@ =~= with_inspection + section_status_text(mapped));
    let ghost with_section = line@;
    line.append(" · ");
    if counts.missing_instances == 0 && counts.missing_definitions == 0 {
        line.append("stream ok");
    } else {
        line.append("missing ");
        push_count(&mut line, counts.missing_instances);
        line.append(" inst / ");
        push_count(&mut line, counts.missing_definitions);
        line.append(" meshes");
    }
    assert(line@ =~= with_section + " · "@ + stream_status_text(*counts));
    line
}

/// The status line says `stream ok` exactly when nothing visible is missing
/// from the streams; otherwise it ends by counting the missing instances
/// and meshes.
pub proof fn lemma_status_line_reports_missing_streams(
    profile: RenderProfileId,
    view: GeometryStartViewRequest,
    counts: ViewerStatusCounts,
    section: Option<Option<Seq<char>>>,
)
    ensures
        ({
            let line = status_line_text(profile, view, counts, section);
            &&& (line.len() >= 9 && line.subrange(line.len() - 9, line.len() as int)
                == "stream ok"@) <==> (counts.missing_instances == 0 && counts.missing_definitions
                == 0)
            &&& !(counts.missing_instances == 0 && counts.missing_definitions == 0) ==> {
                let tail = "missing "@ + decimal_text(counts.missing_instances as nat)
                    + " inst / "@ + decimal_text(counts.missing_definitions as nat) + " meshes"@;
                &&& line.len() >= tail.len()
                &&& line.subrange(line.len() - tail.len(), line.len() as int) == tail
            }
        }),
{
    reveal_strlit("stream ok");
    reveal_strlit(" meshes");
    let line = status_line_text(profile, view, counts, section);
    let s = stream_status_text(counts);
    let head = profile_label(profile) + " · "@ + view_mode_title(view) + " · "@ + count_text(
        counts.definitions,
    ) + " meshes · "@ + count_text(counts.triangles) + " tris · "@ + count_text(counts.draws)
        + " draws · "@ + count_text(counts.visible_elements) + "/"@ + count_text(
        counts.total_elements,
    ) + " visible · "@ + count_text(counts.selected_elements) + " selected"@
        + inspection_status_text(counts) + section_status_text(section) + " · "@;
    assert(line == head + s);
    assert((head + s).subrange(head.len() as int, (head + s).len() as int) =~= s);
    if counts.missing_instances == 0 && counts.missing_definitions == 0 {
        assert(s == "stream ok"@);
        assert(s.len() == 9);
    } else {
        let m = " meshes"@;
        assert(m.len() == 7 && m[6] == 's');
        assert(s.last() == 's');
        assert(line.last() == 's');
        assert("stream ok"@[8] == 'k');
        if line.len() >= 9 && line.subrange(line.len() - 9, line.len() as int) == "stream ok"@ {
            assert(line.subrange(line.len() - 9, line.len() as int)[8] == line.last());
        }
    }
}

} // verus!
