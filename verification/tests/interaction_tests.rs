use ccw_render::interaction::{
    count_show_visibility_probe_ratio, drag_operation_for_mouse_down,
    show_visibility_probe_requires_inspection, DragOperation, DragState, ProbeDecision,
    ProbeTracker, ShowVisibilityProbeResult,
};
use ccw_render::readback::encode_pick_index;
use ccw_render::web::WebInteractionMode;

fn mode(value: &str) -> WebInteractionMode {
    WebInteractionMode::from_picker_value(value)
}

#[test]
fn mouse_buttons_choose_the_drag_operation_allowed_by_the_tool() {
    let orbit = mode("orbit");
    assert_eq!(drag_operation_for_mouse_down(orbit, 0, false), DragOperation::Orbit);
    assert_eq!(drag_operation_for_mouse_down(orbit, 1, false), DragOperation::Pan);
    assert_eq!(drag_operation_for_mouse_down(orbit, 2, false), DragOperation::Pan);
    assert_eq!(drag_operation_for_mouse_down(orbit, 0, true), DragOperation::Pan);
    assert_eq!(drag_operation_for_mouse_down(orbit, 3, false), DragOperation::Idle);

    let pick = mode("pick");
    assert_eq!(drag_operation_for_mouse_down(pick, 0, false), DragOperation::Pick);
    assert_eq!(drag_operation_for_mouse_down(pick, 2, false), DragOperation::Idle);
    assert_eq!(drag_operation_for_mouse_down(pick, 0, true), DragOperation::Pick);

    let pan = mode("pan");
    assert_eq!(drag_operation_for_mouse_down(pan, 0, false), DragOperation::Pan);

    let none = mode("none");
    assert_eq!(drag_operation_for_mouse_down(none, 0, false), DragOperation::Idle);
    assert_eq!(drag_operation_for_mouse_down(none, 1, true), DragOperation::Idle);
}

#[test]
fn a_box_selection_swallows_the_next_click_only() {
    let pick = mode("pick");
    let mut drag = DragState::new();
    let generation = drag.begin(DragOperation::Pick);
    assert_eq!(generation, 1);
    assert!(drag.active);
    assert_eq!(drag.motion_operation(pick), DragOperation::Idle);
    assert!(drag.end(pick, true));
    assert!(!drag.active);
    assert_eq!(drag.operation, DragOperation::Idle);
    assert!(!drag.click_picks(pick));
    assert!(drag.click_picks(pick));
}

#[test]
fn a_short_pick_drag_leaves_the_click_to_pick() {
    let pick = mode("pick");
    let mut drag = DragState::new();
    drag.begin(DragOperation::Pick);
    assert!(!drag.end(pick, false));
    assert!(!drag.take_suppress_next_click());
    assert!(drag.click_picks(pick));
    assert!(!drag.click_picks(mode("orbit")));
}

#[test]
fn pans_swallow_the_click_and_cancel_clears_it() {
    let orbit = mode("orbit");
    let mut drag = DragState::new();
    drag.begin(DragOperation::Pan);
    assert_eq!(drag.motion_operation(orbit), DragOperation::Pan);
    assert_eq!(drag.motion_operation(mode("pick")), DragOperation::Idle);
    assert!(!drag.end(orbit, false));
    assert!(drag.suppress_next_click);
    assert!(!drag.end(orbit, false));
    assert!(drag.suppress_next_click);

    let second = drag.begin(DragOperation::Orbit);
    assert_eq!(second, 2);
    assert_eq!(drag.motion_operation(orbit), DragOperation::Orbit);
    assert!(drag.cancel());
    assert!(!drag.cancel());
    assert!(!drag.suppress_next_click);
}

#[test]
fn drag_generations_wrap_around() {
    let mut drag = DragState {
        active: false,
        suppress_next_click: false,
        generation: u64::MAX,
        operation: DragOperation::Idle,
    };
    assert_eq!(drag.begin(DragOperation::Orbit), 0);
}

#[test]
fn probes_need_enough_hidden_pixels_to_call_for_inspection() {
    let result = |visible, unoccluded| ShowVisibilityProbeResult {
        visible_target_pixels: visible,
        unoccluded_target_pixels: unoccluded,
    };
    assert!(!show_visibility_probe_requires_inspection(result(0, 23)));
    assert!(show_visibility_probe_requires_inspection(result(0, 24)));
    assert!(show_visibility_probe_requires_inspection(result(11, 24)));
    assert!(!show_visibility_probe_requires_inspection(result(12, 24)));
    assert!(!show_visibility_probe_requires_inspection(result(30, 24)));
    assert!(!show_visibility_probe_requires_inspection(result(usize::MAX, usize::MAX)));
    assert!(show_visibility_probe_requires_inspection(result(1, usize::MAX)));
}

#[test]
fn probe_pixels_are_counted_per_buffer() {
    let mut alone = Vec::new();
    for index in [1u32, 1, 2, 0, 1] {
        alone.extend_from_slice(&encode_pick_index(index));
    }
    let mut full = Vec::new();
    for index in [3u32, 1, 2, 2, 0] {
        full.extend_from_slice(&encode_pick_index(index));
    }
    let result = count_show_visibility_probe_ratio(&alone, &[true, false], &full, &[true, false, false]);
    assert_eq!(result.unoccluded_target_pixels, 3);
    assert_eq!(result.visible_target_pixels, 1);
}

#[test]
fn queued_probes_wait_for_streams_and_go_stale_on_inspection_changes() {
    let ids = vec!["wall".to_string(), "door".to_string()];
    let mut tracker = ProbeTracker::new();
    tracker.queue(&ids);
    assert_eq!(tracker.show_visibility_probe_generation, 1);
    assert!(tracker.ready(true).is_none());
    assert!(tracker.pending.is_some());
    let probe = tracker.ready(false).unwrap();
    assert!(tracker.pending.is_none());
    assert_eq!(probe.element_ids, ids);
    assert_eq!(probe.generation, 1);

    let hidden = ShowVisibilityProbeResult {
        visible_target_pixels: 2,
        unoccluded_target_pixels: 40,
    };
    let shown = ShowVisibilityProbeResult {
        visible_target_pixels: 30,
        unoccluded_target_pixels: 40,
    };
    assert_eq!(tracker.decide(&probe, hidden), ProbeDecision::FocusInspection);
    assert_eq!(tracker.decide(&probe, shown), ProbeDecision::ClearInspection);

    tracker.note_show_change(0);
    assert_eq!(tracker.decide(&probe, hidden), ProbeDecision::FocusInspection);
    tracker.note_show_change(2);
    assert_eq!(tracker.decide(&probe, hidden), ProbeDecision::Stale);

    tracker.queue(&ids);
    tracker.cancel_auto_inspection_probes();
    assert!(tracker.pending.is_none());
    assert!(tracker.ready(false).is_none());
}

#[test]
fn a_probe_from_before_an_inspection_change_is_dropped_when_ready() {
    let mut tracker = ProbeTracker::new();
    tracker.queue(&["slab".to_string()]);
    tracker.note_show_change(1);
    assert!(tracker.ready(false).is_none());
    assert!(tracker.pending.is_none());

    tracker.queue(&["slab".to_string()]);
    let probe = tracker.ready(false).unwrap();
    tracker.restart();
    assert_eq!(tracker.show_visibility_probe_generation, 3);
    assert_eq!(tracker.inspection_generation, 2);
    let result = ShowVisibilityProbeResult {
        visible_target_pixels: 0,
        unoccluded_target_pixels: 100,
    };
    assert_eq!(tracker.decide(&probe, result), ProbeDecision::Stale);

    tracker.queue(&["slab".to_string()]);
    tracker.drop_pending();
    assert!(tracker.ready(false).is_none());
}

#[test]
fn showing_elements_queues_a_probe_and_reports_state_changes() {
    let mut tracker = ProbeTracker::new();
    assert!(!tracker.commit_show_change(&[], 0, 0));
    assert!(tracker.pending.is_none());
    assert_eq!(tracker.show_visibility_probe_generation, 0);

    let ids = vec!["beam".to_string()];
    assert!(tracker.commit_show_change(&ids, 1, 0));
    let queued = tracker.pending.clone().unwrap();
    assert_eq!(queued.element_ids, ids);
    assert_eq!(queued.generation, 1);
    assert_eq!(queued.inspection_generation, 0);

    assert!(tracker.commit_show_change(&ids, 0, 3));
    let requeued = tracker.pending.clone().unwrap();
    assert_eq!(requeued.generation, 2);
    assert_eq!(requeued.inspection_generation, 1);
    assert_eq!(
        tracker.decide(
            &queued,
            ShowVisibilityProbeResult {
                visible_target_pixels: 0,
                unoccluded_target_pixels: 50
            }
        ),
        ProbeDecision::Stale
    );
}
