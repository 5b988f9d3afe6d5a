use vstd::prelude::*;

use crate::project::texts_of;
use crate::readback::{count_target_pick_pixels, flagged_pixel_count};
use crate::web::WebInteractionMode;

verus! {

/// What a pointer drag on the canvas does.
#[derive(Clone, Copy, Debug, PartialEq, Eq, Structural)]
pub enum DragOperation {
    /// No drag is in progress, or the button pressed does nothing here.
    Idle,
    Orbit,
    Pan,
    Pick,
}

/// The drag a mouse-down starts: panning for the middle or right button, or
/// while the pan modifier key is held, and for the primary button when the
/// tool cannot orbit; otherwise orbiting, then picking, for the primary
/// button; nothing else.
pub open spec fn mouse_down_operation(
    mode: WebInteractionMode,
    button: i16,
    space_pan_modifier: bool,
) -> DragOperation {
    let primary_button = button == 0;
    let pan_gesture = button == 1 || button == 2 || space_pan_modifier;
    if mode.pan && (pan_gesture || (primary_button && !mode.orbit)) {
        DragOperation::Pan
    } else if mode.orbit && primary_button {
        DragOperation::Orbit
    } else if mode.pick && primary_button {
        DragOperation::Pick
    } else {
        DragOperation::Idle
    }
}

/// The drag operation that pressing `button` starts in the given tool mode.
pub fn drag_operation_for_mouse_down(
    mode: WebInteractionMode,
    button: i16,
    space_pan_modifier: bool,
) -> (operation: DragOperation)
    ensures
        operation == mouse_down_operation(mode, button, space_pan_modifier),
{
    let primary_button = button == 0;
    let pan_gesture = button == 1 || button == 2 || space_pan_modifier;
    if mode.can_pan() && (pan_gesture || (primary_button && !mode.can_orbit())) {
        return DragOperation::Pan;
    }
    if mode.can_orbit() && primary_button {
        return DragOperation::Orbit;
    }
    if mode.can_pick() && primary_button {
        return DragOperation::Pick;
    }
    DragOperation::Idle
}

/// A mouse-down never starts an operation that the tool mode forbids, and
/// only the primary button starts orbiting or picking.
pub proof fn lemma_mouse_down_respects_mode(
    mode: WebInteractionMode,
    button: i16,
    space_pan_modifier: bool,
)
    ensures
        mouse_down_operation(mode, button, space_pan_modifier) == DragOperation::Pan ==> mode.pan,
        mouse_down_operation(mode, button, space_pan_modifier) == DragOperation::Orbit ==> mode.orbit
            && button == 0,
        mouse_down_operation(mode, button, space_pan_modifier) == DragOperation::Pick ==> mode.pick
            && button == 0,
{
}

/// The discrete part of a pointer drag: whether one is in progress, what it
/// does, whether the click that ends it is swallowed, and a counter that
/// tells one drag from the next. Pointer positions and anchors, which are
/// floating point, are kept by the caller beside it.
#[derive(Clone, Copy, Debug, PartialEq, Eq, Structural)]
pub struct DragState {
    pub active: bool,
    pub suppress_next_click: bool,
    pub generation: u64,
    pub operation: DragOperation,
}

impl DragState {
    /// The state after a drag starts with `operation`.
    pub open spec fn begun(self, operation: DragOperation) -> DragState {
        DragState {
            active: true,
            suppress_next_click: false,
            generation: if self.generation == u64::MAX {
                0
            } else {
                (self.generation + 1) as u64
            },
            operation,
        }
    }

    /// The state after the drag ends; a box selection or a pan swallows the
    /// click that follows.
    pub open spec fn ended(self, is_box_select: bool) -> DragState {
        DragState {
            active: false,
            suppress_next_click: if self.active {
                is_box_select || self.operation == DragOperation::Pan
            } else {
                self.suppress_next_click
            },
            generation: self.generation,
            operation: DragOperation::Idle,
        }
    }

    /// Whether ending the drag asks for a box pick.
    pub open spec fn end_picks(self, mode: WebInteractionMode, is_box_select: bool) -> bool {
        self.active && mode.pick && self.operation == DragOperation::Pick && is_box_select
    }

    /// The state after the drag is cancelled.
    pub open spec fn cancelled(self) -> DragState {
        DragState {
            active: false,
            suppress_next_click: false,
            generation: self.generation,
            operation: DragOperation::Idle,
        }
    }

    /// The state after the pending click suppression is consumed.
    pub open spec fn click_taken(self) -> DragState {
        DragState {
            active: self.active,
            suppress_next_click: false,
            generation: self.generation,
            operation: self.operation,
        }
    }

    /// The operation that a pointer move performs now: the drag's own,
    /// while it is active and the tool mode still allows it.
    pub open spec fn motion(self, mode: WebInteractionMode) -> DragOperation {
        if self.active && self.operation == DragOperation::Orbit && mode.orbit {
            DragOperation::Orbit
        } else if self.active && self.operation == DragOperation::Pan && mode.pan {
            DragOperation::Pan
        } else {
            DragOperation::Idle
        }
    }

    /// No drag in progress.
    pub fn new() -> (s: DragState)
        ensures
            s == (DragState {
                active: false,
                suppress_next_click: false,
                generation: 0,
                operation: DragOperation::Idle,
            }),
    {
        DragState {
            active: false,
            suppress_next_click: false,
            generation: 0,
            operation: DragOperation::Idle,
        }
    }

    /// Starts a drag that performs `operation`; returns the new drag's
    /// generation.
    pub fn begin(&mut self, operation: DragOperation) -> (generation: u64)
        ensures
            *final(self) == old(self).begun(operation),
            generation == final(self).generation,
    {
        self.generation = self.generation.wrapping_add(1);
        self.active = true;
        self.suppress_next_click = false;
        self.operation = operation;
        self.generation
    }

    /// What a pointer move does in the current tool mode.
    pub fn motion_operation(&self, mode: WebInteractionMode) -> (operation: DragOperation)
        ensures
            operation == self.motion(mode),
    {
        if !self.active {
            return DragOperation::Idle;
        }
        match self.operation {
            DragOperation::Orbit => {
                if mode.can_orbit() {
                    DragOperation::Orbit
                } else {
                    DragOperation::Idle
                }
            },
            DragOperation::Pan => {
                if mode.can_pan() {
                    DragOperation::Pan
                } else {
                    DragOperation::Idle
                }
            },
            _ => DragOperation::Idle,
        }
    }

    /// Ends the drag; returns whether it asks for a box pick.
    pub fn end(&mut self, mode: WebInteractionMode, is_box_select: bool) -> (picks: bool)
        ensures
            *final(self) == old(self).ended(is_box_select),
            picks == old(self).end_picks(mode, is_box_select),
    {
        let picks = if self.active {
            self.suppress_next_click = is_box_select || self.operation == DragOperation::Pan;
            mode.can_pick() && self.operation == DragOperation::Pick && is_box_select
        } else {
            false
        };
        self.active = false;
        self.operation = DragOperation::Idle;
        picks
    }

    /// Cancels the drag; returns whether one was in progress.
    pub fn cancel(&mut self) -> (was_active: bool)
        ensures
            *final(self) == old(self).cancelled(),
            was_active == old(self).active,
    {
        let was_active = self.active;
        self.active = false;
        self.operation = DragOperation::Idle;
        self.suppress_next_click = false;
        was_active
    }

    /// Consumes the pending click suppression; returns whether the next
    /// click was to be swallowed.
    pub fn take_suppress_next_click(&mut self) -> (suppress: bool)
        ensures
            *final(self) == old(self).click_taken(),
            suppress == old(self).suppress_next_click,
    {
        let suppress = self.suppress_next_click;
        self.suppress_next_click = false;
        suppress
    }

    /// Whether a click picks: the tool allows picking and the click is not
    /// the one that ends a box selection or a pan. The suppression is
    /// consumed either way.
    pub fn click_picks(&mut self, mode: WebInteractionMode) -> (picks: bool)
        ensures
            *final(self) == old(self).click_taken(),
            picks == (!old(self).suppress_next_click && mode.pick),
    {
        let suppressed = self.take_suppress_next_click();
        !suppressed && mode.can_pick()
    }
}

/// A drag that ended as a box selection or a pan swallows exactly the one
/// click that follows it: that click finds the suppression set, and taking
/// it clears the suppression for the click after.
pub proof fn lemma_drag_end_swallows_one_click(s: DragState, is_box_select: bool)
    requires
        s.active,
        is_box_select || s.operation == DragOperation::Pan,
    ensures
        s.ended(is_box_select).suppress_next_click,
        !s.ended(is_box_select).click_taken().suppress_next_click,
{
}

/// Each drag that begins gets a generation other than the one before it, so
/// a reply addressed to an earlier drag is told apart.
pub proof fn lemma_begin_changes_generation(s: DragState, operation: DragOperation)
    ensures
        s.begun(operation).generation != s.generation,
        s.begun(operation).active,
        s.begun(operation).motion(WebInteractionMode { orbit: true, pick: true, pan: true })
            == (if operation == DragOperation::Orbit || operation == DragOperation::Pan {
            operation
        } else {
            DragOperation::Idle
        }),
{
}

/// The generation after `g`, wrapping at the top of the range.
pub open spec fn next_generation(g: u64) -> u64 {
    if g == u64::MAX {
        0
    } else {
        (g + 1) as u64
    }
}

/// A check, queued after elements were shown, of how much of them the
/// scene lets through; it carries the generations it was queued under.
#[derive(Clone, Debug)]
pub struct ShowVisibilityProbe {
    pub generation: u64,
    pub inspection_generation: u64,
    pub element_ids: Vec<String>,
}

/// Pixels of the shown elements: those seen in the full scene, and those
/// drawn when the elements are rendered alone.
#[derive(Clone, Copy, Debug, PartialEq, Eq, Structural)]
pub struct ShowVisibilityProbeResult {
    pub visible_target_pixels: usize,
    pub unoccluded_target_pixels: usize,
}

/// What to do with a finished probe.
#[derive(Clone, Copy, Debug, PartialEq, Eq, Structural)]
pub enum ProbeDecision {
    /// The probe was overtaken by a later one or by an inspection change.
    Stale,
    /// The elements are mostly hidden: inspect them.
    FocusInspection,
    /// The elements are mostly visible: leave inspection.
    ClearInspection,
}

/// Whether a probe result calls for inspection: at least 24 pixels of the
/// elements are drawn alone, and under half of them are seen in the full
/// scene (for pixel counts below 2^53 this is exactly the floating-point
/// ratio test `visible / unoccluded < 0.5`).
pub open spec fn requires_inspection(result: ShowVisibilityProbeResult) -> bool {
    result.unoccluded_target_pixels >= 24 && 2 * result.visible_target_pixels
        < result.unoccluded_target_pixels
}

/// Whether the elements of a probe are hidden enough to be inspected.
pub fn show_visibility_probe_requires_inspection(result: ShowVisibilityProbeResult) -> (r: bool)
    ensures
        r == requires_inspection(result),
{
    let visible = result.visible_target_pixels;
    let unoccluded = result.unoccluded_target_pixels;
    if unoccluded < 24 {
        return false;
    }
    visible < unoccluded && visible < unoccluded - visible
}

/// Counts the pixels of the shown elements in a pick buffer rendered with
/// the elements alone and in one rendered with the full scene; each
/// buffer's targets are flagged where they belong to the shown elements.
pub fn count_show_visibility_probe_ratio(
    target_only_pick_indices: &[u8],
    target_only_flags: &[bool],
    full_scene_pick_indices: &[u8],
    full_scene_flags: &[bool],
) -> (result: ShowVisibilityProbeResult)
    ensures
        result.unoccluded_target_pixels == flagged_pixel_count(
            target_only_pick_indices@,
            (target_only_pick_indices@.len() / 4) as int,
            target_only_flags@,
        ),
        result.visible_target_pixels == flagged_pixel_count(
            full_scene_pick_indices@,
            (full_scene_pick_indices@.len() / 4) as int,
            full_scene_flags@,
        ),
{
    let unoccluded_target_pixels = count_target_pick_pixels(
        target_only_pick_indices,
        target_only_flags,
    );
    let visible_target_pixels = count_target_pick_pixels(full_scene_pick_indices, full_scene_flags);
    ShowVisibilityProbeResult { visible_target_pixels, unoccluded_target_pixels }
}

fn copy_texts(ids: &[String]) -> (copy: Vec<String>)
    ensures
        texts_of(copy@) == texts_of(ids@),
{
    let mut copy: Vec<String> = Vec::new();
    let mut k: usize = 0;
    while k < ids.len()
        invariant
            k <= ids@.len(),
            texts_of(copy@) == texts_of(ids@.take(k as int)),
        decreases ids.len() - k,
    {
        let ghost before = copy@;
        let id = ids[k].clone();
        copy.push(id);
        assert(texts_of(copy@) =~= texts_of(before).push(ids@[k as int]@));
        assert(ids@.take(k + 1) == ids@.take(k as int).push(ids@[k as int]));
        assert(texts_of(ids@.take(k + 1)) =~= texts_of(ids@.take(k as int)).push(ids@[k as int]@));
        k += 1;
    }
    assert(ids@.take(k as int) == ids@);
    copy
}

/// The show-visibility probes of a viewer: at most one waits to be run,
/// and two counters mark which probes and which inspection state are
/// current.
#[derive(Clone, Debug)]
pub struct ProbeTracker {
    pub pending: Option<ShowVisibilityProbe>,
    pub show_visibility_probe_generation: u64,
    pub inspection_generation: u64,
}

impl ProbeTracker {
    /// Whether `probe` was queued under the current generations.
    pub open spec fn is_current(self, probe: ShowVisibilityProbe) -> bool {
        probe.generation == self.show_visibility_probe_generation && probe.inspection_generation
            == self.inspection_generation
    }

    /// What the tracker decides for a finished probe.
    pub open spec fn decision(
        self,
        probe: ShowVisibilityProbe,
        result: ShowVisibilityProbeResult,
    ) -> ProbeDecision {
        if !self.is_current(probe) {
            ProbeDecision::Stale
        } else if requires_inspection(result) {
            ProbeDecision::FocusInspection
        } else {
            ProbeDecision::ClearInspection
        }
    }

    /// No probe waiting, both counters at zero.
    pub fn new() -> (t: ProbeTracker)
        ensures
            t.pending is None,
            t.show_visibility_probe_generation == 0,
            t.inspection_generation == 0,
    {
        ProbeTracker { pending: None, show_visibility_probe_generation: 0, inspection_generation: 0 }
    }

    /// A new scene was loaded: drops the waiting probe and makes every
    /// earlier probe stale.
    pub fn restart(&mut self)
        ensures
            final(self).pending is None,
            final(self).show_visibility_probe_generation == next_generation(
                old(self).show_visibility_probe_generation,
            ),
            final(self).inspection_generation == next_generation(old(self).inspection_generation),
    {
        self.pending = None;
        self.show_visibility_probe_generation = self.show_visibility_probe_generation.wrapping_add(
            1,
        );
        self.inspection_generation = self.inspection_generation.wrapping_add(1);
    }

    /// The user moved the camera: drops the waiting probe.
    pub fn drop_pending(&mut self)
        ensures
            final(self).pending is None,
            final(self).show_visibility_probe_generation == old(self).show_visibility_probe_generation,
            final(self).inspection_generation == old(self).inspection_generation,
    {
        self.pending = None;
    }

    /// Elements were shown; a change of inspection makes earlier probes
    /// stale.
    pub fn note_show_change(&mut self, inspection_changed: u32)
        ensures
            final(self).pending == old(self).pending,
            final(self).show_visibility_probe_generation == old(self).show_visibility_probe_generation,
            final(self).inspection_generation == if inspection_changed > 0 {
                next_generation(old(self).inspection_generation)
            } else {
                old(self).inspection_generation
            },
    {
        if inspection_changed > 0 {
            self.inspection_generation = self.inspection_generation.wrapping_add(1);
        }
    }

    /// Queues a probe of the shown elements `ids` in place of any waiting
    /// one.
    pub fn queue(&mut self, ids: &[String])
        ensures
            final(self).show_visibility_probe_generation == next_generation(
                old(self).show_visibility_probe_generation,
            ),
            final(self).inspection_generation == old(self).inspection_generation,
            final(self).pending is Some,
            final(self).pending->0.generation == final(self).show_visibility_probe_generation,
            final(self).pending->0.inspection_generation == old(self).inspection_generation,
            texts_of(final(self).pending->0.element_ids@) == texts_of(ids@),
    {
        self.show_visibility_probe_generation = self.show_visibility_probe_generation.wrapping_add(
            1,
        );
        let element_ids = copy_texts(ids);
        self.pending = Some(
            ShowVisibilityProbe {
                generation: self.show_visibility_probe_generation,
                inspection_generation: self.inspection_generation,
                element_ids,
            },
        );
    }

    /// Hands out the waiting probe once the streams it needs are loaded
    /// (`missing_stream` says whether any of its elements still miss
    /// geometry). A probe overtaken by an inspection change is dropped; one
    /// that still waits for geometry stays.
    pub fn ready(&mut self, missing_stream: bool) -> (probe: Option<ShowVisibilityProbe>)
        ensures
            final(self).show_visibility_probe_generation == old(self).show_visibility_probe_generation,
            final(self).inspection_generation == old(self).inspection_generation,
            match old(self).pending {
                None => probe is None && final(self).pending is None,
                Some(p) => if p.inspection_generation != old(self).inspection_generation {
                    probe is None && final(self).pending is None
                } else if missing_stream {
                    probe is None && final(self).pending == old(self).pending
                } else {
                    probe == Some(p) && final(self).pending is None
                },
            },
    {
        let stale = match &self.pending {
            None => {
                return None;
            },
            Some(p) => p.inspection_generation != self.inspection_generation,
        };
        if stale {
            self.pending = None;
            return None;
        }
        if missing_stream {
            return None;
        }
        self.pending.take()
    }

    /// Elements `ids` were shown, changing `visibility_changed` elements'
    /// visibility and `inspection_changed` elements' inspection: a change
    /// of inspection makes earlier probes stale, and shown elements get a
    /// probe queued. Returns whether the viewer's state changed.
    pub fn commit_show_change(
        &mut self,
        ids: &[String],
        visibility_changed: u32,
        inspection_changed: u32,
    ) -> (state_changed: bool)
        ensures
            state_changed == (visibility_changed > 0 || inspection_changed > 0),
            final(self).inspection_generation == if inspection_changed > 0 {
                next_generation(old(self).inspection_generation)
            } else {
                old(self).inspection_generation
            },
            ids@.len() == 0 ==> {
                &&& final(self).pending == old(self).pending
                &&& final(self).show_visibility_probe_generation == old(self).show_visibility_probe_generation
            },
            ids@.len() > 0 ==> {
                &&& final(self).show_visibility_probe_generation == next_generation(
                    old(self).show_visibility_probe_generation,
                )
                &&& final(self).pending is Some
                &&& final(self).pending->0.generation == final(self).show_visibility_probe_generation
                &&& final(self).pending->0.inspection_generation == final(self).inspection_generation
                &&& texts_of(final(self).pending->0.element_ids@) == texts_of(ids@)
            },
    {
        self.note_show_change(inspection_changed);
        if ids.len() > 0 {
            self.queue(ids);
        }
        visibility_changed > 0 || inspection_changed > 0
    }

    /// Inspection changed by hand: every queued probe becomes stale.
    pub fn cancel_auto_inspection_probes(&mut self)
        ensures
            final(self).pending is None,
            final(self).show_visibility_probe_generation == old(self).show_visibility_probe_generation,
            final(self).inspection_generation == next_generation(old(self).inspection_generation),
    {
        self.inspection_generation = self.inspection_generation.wrapping_add(1);
        self.pending = None;
    }

    /// What to do with a finished probe and its pixel counts.
    pub fn decide(
        &self,
        probe: &ShowVisibilityProbe,
        result: ShowVisibilityProbeResult,
    ) -> (decision: ProbeDecision)
        ensures
            decision == self.decision(*probe, result),
    {
        if probe.generation != self.show_visibility_probe_generation {
            return ProbeDecision::Stale;
        }
        if probe.inspection_generation != self.inspection_generation {
            return ProbeDecision::Stale;
        }
        if show_visibility_probe_requires_inspection(result) {
            ProbeDecision::FocusInspection
        } else {
            ProbeDecision::ClearInspection
        }
    }
}

/// A probe handed out by the tracker is current until something moves a
/// counter: a new probe, a new scene, or a change of inspection each make
/// it stale, whatever its pixel counts.
pub proof fn lemma_probe_overtaken_is_stale(
    t: ProbeTracker,
    probe: ShowVisibilityProbe,
    result: ShowVisibilityProbeResult,
)
    requires
        t.is_current(probe),
    ensures
        t.decision(probe, result) != ProbeDecision::Stale,
        (ProbeTracker {
            pending: None,
            show_visibility_probe_generation: next_generation(t.show_visibility_probe_generation),
            inspection_generation: t.inspection_generation,
        }).decision(probe, result) == ProbeDecision::Stale,
        (ProbeTracker {
            pending: None,
            show_visibility_probe_generation: t.show_visibility_probe_generation,
            inspection_generation: next_generation(t.inspection_generation),
        }).decision(probe, result) == ProbeDecision::Stale,
{
}

/// Which drag each mouse-down starts, for every tool mode, button and pan
/// modifier: a primary press orbits whenever the tool can orbit and no pan
/// is asked for; it picks only when the tool can pick but can neither orbit
/// nor pan; the middle and right buttons, the pan modifier, and a primary
/// press on a tool that cannot orbit pan when the tool can pan.
pub proof fn lemma_mouse_down_operation_choice(
    mode: WebInteractionMode,
    button: i16,
    space_pan_modifier: bool,
)
    ensures
        mode.orbit ==> mouse_down_operation(mode, 0, false) == DragOperation::Orbit,
        mouse_down_operation(mode, button, space_pan_modifier) == DragOperation::Orbit <==> (button
            == 0 && mode.orbit && !(mode.pan && space_pan_modifier)),
        mouse_down_operation(mode, button, space_pan_modifier) == DragOperation::Pick <==> (button
            == 0 && mode.pick && !mode.orbit && !mode.pan),
        mouse_down_operation(mode, button, space_pan_modifier) == DragOperation::Pan <==> (mode.pan
            && (button == 1 || button == 2 || space_pan_modifier || (button == 0 && !mode.orbit))),
{
}

/// A probe result is acted on only while its probe is current, and then
/// inspection is asked for exactly when at least 24 pixels of the elements
/// are drawn alone and under half of them are seen in the scene; a probe
/// whose elements are at least half visible never asks for inspection.
pub proof fn lemma_probe_decision_rules(
    t: ProbeTracker,
    probe: ShowVisibilityProbe,
    result: ShowVisibilityProbeResult,
)
    ensures
        t.decision(probe, result) == ProbeDecision::Stale <==> (probe.generation
            != t.show_visibility_probe_generation || probe.inspection_generation
            != t.inspection_generation),
        t.decision(probe, result) == ProbeDecision::FocusInspection ==> (
        result.unoccluded_target_pixels >= 24 && result.visible_target_pixels
            < result.unoccluded_target_pixels - result.visible_target_pixels),
        2 * result.visible_target_pixels >= result.unoccluded_target_pixels ==> t.decision(
            probe,
            result,
        ) != ProbeDecision::FocusInspection,
        result.unoccluded_target_pixels < 24 ==> t.decision(probe, result)
            != ProbeDecision::FocusInspection,
        t.is_current(probe) && result.unoccluded_target_pixels >= 24
            && result.visible_target_pixels == 0 ==> t.decision(probe, result)
            == ProbeDecision::FocusInspection,
{
}

/// Ending and cancelling drags: afterwards no drag is active, none moves
/// anything, and the generation is kept; a box pick is asked for only by an
/// active pick drag that became a box selection while the tool can pick;
/// a pick drag that stayed a click asks for none and leaves the click to
/// pick; cancelling swallows no click; ending a drag that was not active
/// leaves the click suppression as it was.
pub proof fn lemma_drag_end_and_cancel(s: DragState, mode: WebInteractionMode, is_box_select: bool)
    ensures
        !s.ended(is_box_select).active && !s.cancelled().active,
        s.ended(is_box_select).operation == DragOperation::Idle,
        s.cancelled().operation == DragOperation::Idle,
        s.ended(is_box_select).generation == s.generation && s.cancelled().generation
            == s.generation,
        s.ended(is_box_select).motion(mode) == DragOperation::Idle,
        s.cancelled().motion(mode) == DragOperation::Idle,
        s.end_picks(mode, is_box_select) ==> (s.active && s.operation == DragOperation::Pick
            && mode.pick && is_box_select),
        s.active && s.operation == DragOperation::Pick && !is_box_select ==> (!s.end_picks(
            mode,
            is_box_select,
        ) && !s.ended(is_box_select).suppress_next_click),
        !s.cancelled().suppress_next_click,
        !s.active ==> s.ended(is_box_select).suppress_next_click == s.suppress_next_click,
{
}

/// A pointer move acts only while a drag is active, only with the drag's
/// own operation, and only when the tool still allows it; picking drags
/// never move the camera.
pub proof fn lemma_drag_motion(s: DragState, mode: WebInteractionMode)
    ensures
        s.motion(mode) != DragOperation::Idle ==> s.active && s.motion(mode) == s.operation,
        s.motion(mode) == DragOperation::Orbit ==> mode.orbit,
        s.motion(mode) == DragOperation::Pan ==> mode.pan,
        s.motion(mode) != DragOperation::Pick,
        s.active && s.operation == DragOperation::Orbit && mode.orbit ==> s.motion(mode)
            == DragOperation::Orbit,
        s.active && s.operation == DragOperation::Pan && mode.pan ==> s.motion(mode)
            == DragOperation::Pan,
{
}

} // verus!
