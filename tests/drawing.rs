use opencad::controller::{MouseController, PointerEvent};
use opencad::geometry::{closest_point, closest_point_if_near, line_contains_point, Line, Point};
use opencad::state::{AppState, LineWrapper, WrappedVector};

fn pt(x: i32, y: i32) -> Point {
    Point::new(x, y)
}

fn seg(x0: i32, y0: i32, x1: i32, y1: i32) -> Line {
    Line::new(pt(x0, y0), pt(x1, y1))
}

fn committed(data: &AppState) -> Vec<Line> {
    let mut out = Vec::new();
    for i in 0..data.lines.len() {
        out.push(data.lines.get(i));
    }
    out
}

fn state_with(lines: &[Line]) -> AppState {
    let mut data = AppState::new();
    for l in lines {
        data.lines.push_back(*l);
    }
    data
}

fn in_progress(data: &AppState) -> Option<Line> {
    data.current_line.map(|w| w.0)
}

#[test]
fn point_on_segment_lies_on_it() {
    let s = seg(0, 0, 10, 0);
    assert!(line_contains_point(&s, pt(5, 0), 1));
    assert!(line_contains_point(&s, pt(0, 0), 1));
    assert!(line_contains_point(&s, pt(10, 0), 1));
    let d = seg(-30, -60, 90, 180);
    assert!(line_contains_point(&d, pt(10, 20), 1));
}

#[test]
fn point_far_outside_does_not_lie_on_segment() {
    let s = seg(0, 0, 10, 0);
    assert!(!line_contains_point(&s, pt(20, 0), 5));
    assert!(!line_contains_point(&s, pt(-6, 0), 5));
    assert!(!line_contains_point(&s, pt(5, 30), 5));
}

#[test]
fn slack_exact_threshold() {
    // Through (0,4): 5 + 5 - 6 = 4, which is below 5 but not below 4.
    let s = seg(-3, 0, 3, 0);
    assert!(line_contains_point(&s, pt(0, 4), 5));
    assert!(!line_contains_point(&s, pt(0, 4), 4));
    // A far point beside a long segment still has a small slack.
    let long = seg(0, 0, 0, 1000);
    assert!(line_contains_point(&long, pt(6, 500), 5));
}

#[test]
fn nearest_endpoint_prefers_start_on_tie() {
    let s = seg(0, 0, 10, 0);
    assert_eq!(closest_point(&s, pt(5, 3)), pt(0, 0));
    assert_eq!(closest_point(&s, pt(6, 0)), pt(10, 0));
    assert_eq!(closest_point(&s, pt(4, 0)), pt(0, 0));
}

#[test]
fn nearest_endpoint_within_checks_start_first() {
    let s = seg(0, 0, 1, 0);
    assert_eq!(closest_point_if_near(&s, pt(1, 0), 2), Some(pt(0, 0)));
    let t = seg(0, 0, 10, 0);
    assert_eq!(closest_point_if_near(&t, pt(9, 1), 2), Some(pt(10, 0)));
    assert_eq!(closest_point_if_near(&t, pt(5, 0), 2), None);
    assert_eq!(closest_point_if_near(&t, pt(2, 0), 2), None);
}

#[test]
fn clamped_points_stay_on_surface() {
    assert_eq!(Point::clamped(100_000, -100_000), pt(8192, -8192));
    assert_eq!(Point::clamped(12, -7), pt(12, -7));
    assert_eq!(pt(0, 0).distance_squared(&pt(3, 4)), 25);
}

#[test]
fn delete_twice_is_a_no_op() {
    let mut data = state_with(&[seg(0, 0, 10, 0), seg(0, 5, 10, 5)]);
    data.delete_selected();
    assert_eq!(committed(&data).len(), 2);
    data.selected_line = Some(0);
    data.delete_selected();
    assert_eq!(committed(&data), vec![seg(0, 5, 10, 5)]);
    assert_eq!(data.selected_line, None);
    data.delete_selected();
    data.delete_selected();
    assert_eq!(committed(&data), vec![seg(0, 5, 10, 5)]);
    assert_eq!(data.selected_line, None);
}

#[test]
fn delete_on_empty_drawing_is_a_no_op() {
    let mut data = AppState::new();
    data.delete_selected();
    assert!(committed(&data).is_empty());
}

#[test]
fn double_click_window() {
    let base = [seg(0, 0, 10, 0)];
    let mut data = state_with(&base);
    let mut c = MouseController::new();
    c.handle_mouse_down(&mut data, pt(0, 0), 0);
    c.handle_mouse_up(&mut data);
    c.handle_mouse_down(&mut data, pt(0, 0), 499);
    assert_eq!(data.selected_point, Some(pt(0, 0)));

    let mut data = state_with(&base);
    let mut c = MouseController::new();
    c.handle_mouse_down(&mut data, pt(0, 0), 0);
    c.handle_mouse_up(&mut data);
    c.handle_mouse_down(&mut data, pt(0, 0), 501);
    assert_eq!(data.selected_point, None);
    assert_eq!(data.selected_line, Some(0));
}

#[test]
fn snap_prefers_earlier_segment() {
    let mut data = state_with(&[seg(20, 20, 40, 40), seg(21, 20, 60, 20)]);
    let mut c = MouseController::new();
    c.handle_mouse_down(&mut data, pt(100, 100), 0);
    assert!(c.handle_mouse_move(&mut data, pt(21, 21)));
    assert_eq!(in_progress(&data), Some(seg(100, 100, 20, 20)));
    assert_eq!(data.selected_point, Some(pt(20, 20)));
}

#[test]
fn snap_skips_selected_segment() {
    let mut data = state_with(&[seg(20, 20, 40, 40), seg(21, 20, 60, 20)]);
    data.selected_line = Some(0);
    data.current_line = Some(LineWrapper(seg(100, 100, 100, 100)));
    let mut c = MouseController::new();
    c.handle_mouse_move(&mut data, pt(21, 21));
    assert_eq!(in_progress(&data), Some(seg(100, 100, 21, 20)));
    assert_eq!(data.selected_point, Some(pt(21, 20)));
}

#[test]
fn move_without_drag_does_nothing() {
    let mut data = state_with(&[seg(0, 0, 10, 0)]);
    let mut c = MouseController::new();
    assert!(!c.handle_mouse_move(&mut data, pt(3, 3)));
    assert_eq!(in_progress(&data), None);
    assert_eq!(data.selected_point, None);
}

#[test]
fn scenario_draw_one_segment() {
    let mut data = AppState::new();
    let mut c = MouseController::new();
    c.handle_mouse_down(&mut data, pt(0, 0), 0);
    c.handle_mouse_move(&mut data, pt(10, 0));
    c.handle_mouse_up(&mut data);
    assert_eq!(committed(&data), vec![seg(0, 0, 10, 0)]);
    assert_eq!(in_progress(&data), None);
}

#[test]
fn scenario_select_and_delete() {
    let mut data = state_with(&[seg(0, 0, 10, 0)]);
    let mut c = MouseController::new();
    c.handle_mouse_down(&mut data, pt(5, 0), 0);
    assert_eq!(data.selected_line, Some(0));
    assert_eq!(in_progress(&data), None);
    data.delete_selected();
    assert!(committed(&data).is_empty());
    assert_eq!(data.selected_line, None);
}

#[test]
fn scenario_chain_from_anchor() {
    let mut data = state_with(&[seg(0, 0, 10, 0)]);
    let mut c = MouseController::new();
    c.handle_mouse_down(&mut data, pt(1, 0), 0);
    c.handle_mouse_up(&mut data);
    c.handle_mouse_down(&mut data, pt(1, 0), 200);
    assert_eq!(data.selected_point, Some(pt(0, 0)));
    c.handle_mouse_down(&mut data, pt(1, 0), 1000);
    assert_eq!(in_progress(&data), Some(seg(0, 0, 1, 0)));
    c.handle_mouse_move(&mut data, pt(50, 50));
    c.handle_mouse_up(&mut data);
    assert_eq!(committed(&data), vec![seg(0, 0, 10, 0), seg(0, 0, 50, 50)]);
    assert_eq!(data.selected_point, None);
}

#[test]
fn anchor_abandoned_when_press_is_far() {
    let mut data = state_with(&[seg(0, 0, 10, 0)]);
    data.selected_point = Some(pt(0, 0));
    let mut c = MouseController::new();
    c.handle_mouse_down(&mut data, pt(4, 4), 0);
    assert_eq!(data.selected_point, None);
    assert_eq!(in_progress(&data), None);
    c.handle_mouse_down(&mut data, pt(3, 40), 1000);
    assert_eq!(in_progress(&data), Some(seg(3, 40, 3, 40)));
}

#[test]
fn zero_length_segment_is_committed() {
    let mut data = AppState::new();
    let mut c = MouseController::new();
    c.handle_mouse_down(&mut data, pt(7, 7), 0);
    c.handle_mouse_up(&mut data);
    assert_eq!(committed(&data), vec![seg(7, 7, 7, 7)]);
}

#[test]
fn removal_reindexes() {
    let a = seg(0, 0, 1, 1);
    let b = seg(2, 2, 3, 3);
    let d = seg(4, 4, 5, 5);
    let mut data = state_with(&[a, b, d]);
    data.selected_line = Some(1);
    data.delete_selected();
    assert_eq!(committed(&data), vec![a, d]);
    assert_eq!(data.selected_line, None);
}

#[test]
fn event_dispatch() {
    let mut data = AppState::new();
    let mut c = MouseController::new();
    assert!(c.event(&mut data, &PointerEvent::Down(pt(0, 0), 0)));
    assert!(c.event(&mut data, &PointerEvent::Move(pt(5, 5))));
    assert!(!c.event(&mut data, &PointerEvent::Other));
    assert!(c.event(&mut data, &PointerEvent::Up(pt(5, 5))));
    assert_eq!(committed(&data), vec![seg(0, 0, 5, 5)]);
    assert_eq!(c.last_click, Some(0));
}

#[test]
fn wrapped_vector_operations() {
    let mut v = WrappedVector::new();
    assert_eq!(v.len(), 0);
    v.push_back(seg(0, 0, 1, 0));
    v.push_back(seg(0, 0, 2, 0));
    v.push_back(seg(0, 0, 3, 0));
    assert_eq!(v.len(), 3);
    assert_eq!(v.get(2), seg(0, 0, 3, 0));
    assert_eq!(v.remove(0), seg(0, 0, 1, 0));
    assert_eq!(v.get(0), seg(0, 0, 2, 0));
    let mut w = WrappedVector::new();
    w.push_back(seg(0, 0, 2, 0));
    assert!(!v.same(&w));
    w.push_back(seg(0, 0, 3, 0));
    assert!(v.same(&w));
    assert!(LineWrapper(seg(1, 2, 3, 4)).same(&LineWrapper(seg(1, 2, 3, 4))));
    assert!(!LineWrapper(seg(1, 2, 3, 4)).same(&LineWrapper(seg(1, 2, 3, 5))));
}
