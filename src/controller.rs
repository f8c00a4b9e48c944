use vstd::prelude::*;

use crate::geometry::{
    dist2, lies_on_segment, nearest_endpoint_within, closest_point_if_near,
    line_contains_point, Line, Point,
};
use crate::state::{AppState, DrawingView, LineWrapper};

verus! {

/// Tolerance for selecting a segment and for starting from the anchor.
pub const HIT_TOLERANCE: i32 = 5;

/// Tolerance for snapping onto an endpoint.
pub const SNAP_TOLERANCE: i32 = 2;

/// Longest gap, in milliseconds, between two presses of a double click.
pub const DOUBLE_CLICK_MS: u64 = 500;

/// The endpoint of the first segment of `s`, from index `i` on and skipping index
/// `skip`, that has an endpoint within `tolerance` of `p`.
pub open spec fn first_endpoint_hit(s: Seq<Line>, p: Point, tolerance: int, skip: int, i: int) -> Option<Point>
    decreases s.len() - i,
{
    if i < 0 || i >= s.len() {
        None
    } else if i != skip && nearest_endpoint_within(s[i], p, tolerance).is_some() {
        nearest_endpoint_within(s[i], p, tolerance)
    } else {
        first_endpoint_hit(s, p, tolerance, skip, i + 1)
    }
}

/// The index of the first segment of `s`, from index `i` on, on which `p` lies.
pub open spec fn first_segment_hit(s: Seq<Line>, p: Point, tolerance: int, i: int) -> Option<int>
    decreases s.len() - i,
{
    if i < 0 || i >= s.len() {
        None
    } else if lies_on_segment(s[i], p, tolerance) {
        Some(i)
    } else {
        first_segment_hit(s, p, tolerance, i + 1)
    }
}

/// The index that snapping skips: the selected one, or none.
pub open spec fn skip_index(selected: Option<usize>) -> int {
    match selected {
        Some(i) => i as int,
        None => -1,
    }
}

/// A press at `now` completes a double click after a press at `last`. A clock that
/// went back counts as no time passed.
pub open spec fn is_double_click(last: Option<u64>, now: u64) -> bool {
    match last {
        Some(t) => (if now >= t { now - t } else { 0 }) < DOUBLE_CLICK_MS,
        None => false,
    }
}

/// The drawing after a press at `pos`, `double` telling whether it completes a
/// double click.
pub open spec fn step_down(v: DrawingView, pos: Point, double: bool) -> DrawingView {
    if double {
        match first_endpoint_hit(v.committed, pos, SNAP_TOLERANCE as int, -1, 0) {
            Some(p) => DrawingView { anchor: Some(p), ..v },
            None => v,
        }
    } else if v.anchor is Some {
        let a = v.anchor->Some_0;
        if dist2(a, pos) <= HIT_TOLERANCE * HIT_TOLERANCE {
            DrawingView { in_progress: Some(Line { p0: a, p1: pos }), ..v }
        } else {
            DrawingView { anchor: None, ..v }
        }
    } else {
        match first_segment_hit(v.committed, pos, HIT_TOLERANCE as int, 0) {
            Some(i) => DrawingView { selected: Some(i as usize), anchor: None, ..v },
            None => DrawingView {
                selected: None,
                anchor: None,
                in_progress: Some(Line { p0: pos, p1: pos }),
                ..v
            },
        }
    }
}

/// The drawing after the pointer moves to `pos`.
pub open spec fn step_move(v: DrawingView, pos: Point) -> DrawingView {
    match v.in_progress {
        Some(l) => match first_endpoint_hit(v.committed, pos, SNAP_TOLERANCE as int, skip_index(v.selected), 0) {
            Some(p) => DrawingView { in_progress: Some(Line { p0: l.p0, p1: p }), anchor: Some(p), ..v },
            None => DrawingView { in_progress: Some(Line { p0: l.p0, p1: pos }), anchor: None, ..v },
        },
        None => v,
    }
}

/// The drawing after the pointer is released.
pub open spec fn step_up(v: DrawingView) -> DrawingView {
    match v.in_progress {
        Some(l) => DrawingView { committed: v.committed.push(l), in_progress: None, anchor: None, ..v },
        None => v,
    }
}

/// A pointer event as the surface receives it.
#[derive(Clone, Copy, Debug, PartialEq, Eq, Structural)]
pub enum PointerEvent {
    /// A press at a point, at a time in milliseconds of a monotonic clock.
    Down(Point, u64),
    Move(Point),
    Up(Point),
    Other,
}

impl PointerEvent {
    pub open spec fn wf(self) -> bool {
        match self {
            PointerEvent::Down(p, _) => p.wf(),
            PointerEvent::Move(p) => p.wf(),
            PointerEvent::Up(p) => p.wf(),
            PointerEvent::Other => true,
        }
    }
}

/// Interprets pointer events as drawing, selecting and snapping.
pub struct MouseController {
    /// Time of the last press, in milliseconds.
    pub last_click: Option<u64>,
}

/// Finds the first committed segment, skipping index `skip`, with an endpoint
/// within `tolerance` of `pos`, and returns that endpoint.
fn find_endpoint_hit(data: &AppState, pos: Point, tolerance: i32, skip: Option<usize>) -> (r: Option<Point>)
    requires
        data@.wf(),
        pos.wf(),
        0 <= tolerance <= crate::geometry::TOLERANCE_LIMIT,
    ensures
        r == first_endpoint_hit(data@.committed, pos, tolerance as int, skip_index(skip), 0),
        r matches Some(p) ==> p.wf(),
{
    let n = data.lines.len();
    let mut i: usize = 0;
    while i < n
        invariant
            data@.wf(),
            pos.wf(),
            0 <= tolerance <= crate::geometry::TOLERANCE_LIMIT,
            n == data@.committed.len(),
            0 <= i <= n,
            first_endpoint_hit(data@.committed, pos, tolerance as int, skip_index(skip), 0)
                == first_endpoint_hit(data@.committed, pos, tolerance as int, skip_index(skip), i as int),
        decreases n - i,
    {
        let line = data.lines.get(i);
        let skipped = match skip {
            Some(k) => k == i,
            None => false,
        };
        if !skipped {
            let hit = closest_point_if_near(&line, pos, tolerance);
            if hit.is_some() {
                return hit;
            }
        }
        i = i + 1;
    }
    None
}

/// Finds the first segment on which `pos` lies.
fn find_segment_hit(data: &AppState, pos: Point, tolerance: i32) -> (r: Option<usize>)
    requires
        data@.wf(),
        pos.wf(),
        0 <= tolerance <= crate::geometry::TOLERANCE_LIMIT,
    ensures
        r matches Some(i) ==> first_segment_hit(data@.committed, pos, tolerance as int, 0) == Some(i as int)
            && i < data@.committed.len(),
        r is None ==> first_segment_hit(data@.committed, pos, tolerance as int, 0) is None,
{
    let n = data.lines.len();
    let mut i: usize = 0;
    while i < n
        invariant
            data@.wf(),
            pos.wf(),
            0 <= tolerance <= crate::geometry::TOLERANCE_LIMIT,
            n == data@.committed.len(),
            0 <= i <= n,
            first_segment_hit(data@.committed, pos, tolerance as int, 0)
                == first_segment_hit(data@.committed, pos, tolerance as int, i as int),
        decreases n - i,
    {
        let line = data.lines.get(i);
        if line_contains_point(&line, pos, tolerance) {
            return Some(i);
        }
        i = i + 1;
    }
    None
}

impl MouseController {
    pub fn new() -> (r: Self)
        ensures
            r.last_click.is_none(),
    {
        Self { last_click: None }
    }

    /// Handles a press at `pos` at time `now`; returns whether to repaint.
    pub fn handle_mouse_down(&mut self, data: &mut AppState, pos: Point, now: u64) -> (r: bool)
        requires
            old(data)@.wf(),
            pos.wf(),
        ensures
            final(data)@ == step_down(old(data)@, pos, is_double_click(old(self).last_click, now)),
            final(data)@.wf(),
            final(self).last_click == Some(now),
            r,
    {
        let double_click = match self.last_click {
            Some(last) => now.saturating_sub(last) < DOUBLE_CLICK_MS,
            None => false,
        };
        if double_click {
            let hit = find_endpoint_hit(data, pos, SNAP_TOLERANCE, None);
            if let Some(p) = hit {
                data.selected_point = Some(p);
            }
        } else if let Some(selected_point) = data.selected_point {
            if selected_point.distance_squared(&pos) <= (HIT_TOLERANCE * HIT_TOLERANCE) as i64 {
                data.current_line = Some(LineWrapper(Line::new(selected_point, pos)));
            } else {
                data.selected_point = None;
            }
        } else {
            data.selected_line = None;
            data.selected_point = None;
            let hit = find_segment_hit(data, pos, HIT_TOLERANCE);
            match hit {
                Some(i) => {
                    data.selected_line = Some(i);
                },
                None => {
                    data.current_line = Some(LineWrapper(Line::new(pos, pos)));
                },
            }
        }
        self.last_click = Some(now);
        true
    }

    /// Handles a move to `pos`; returns whether to repaint, which is while a drag
    /// is in flight.
    pub fn handle_mouse_move(&mut self, data: &mut AppState, pos: Point) -> (r: bool)
        requires
            old(data)@.wf(),
            pos.wf(),
        ensures
            final(data)@ == step_move(old(data)@, pos),
            final(data)@.wf(),
            final(self).last_click == old(self).last_click,
            r == old(data)@.in_progress is Some,
    {
        match data.current_line {
            Some(line) => {
                let hit = find_endpoint_hit(data, pos, SNAP_TOLERANCE, data.selected_line);
                match hit {
                    Some(p) => {
                        data.current_line = Some(LineWrapper(Line::new(line.0.p0, p)));
                        data.selected_point = Some(p);
                    },
                    None => {
                        data.current_line = Some(LineWrapper(Line::new(line.0.p0, pos)));
                        data.selected_point = None;
                    },
                }
                true
            },
            None => false,
        }
    }

    /// Handles a release: commits the segment in progress; returns whether to repaint.
    pub fn handle_mouse_up(&mut self, data: &mut AppState) -> (r: bool)
        requires
            old(data)@.wf(),
        ensures
            final(data)@ == step_up(old(data)@),
            final(data)@.wf(),
            final(self).last_click == old(self).last_click,
            r,
    {
        if let Some(line) = data.current_line {
            data.current_line = None;
            data.lines.push_back(line.0);
            data.selected_point = None;
        }
        proof {
            assert forall|i: int| 0 <= i < data@.committed.len() implies (#[trigger] data@.committed[i]).wf() by {
                if i < old(data)@.committed.len() {
                    assert(data@.committed[i] == old(data)@.committed[i]);
                }
            }
        }
        true
    }

    /// Dispatches one pointer event; returns whether to repaint.
    pub fn event(&mut self, data: &mut AppState, event: &PointerEvent) -> (r: bool)
        requires
            old(data)@.wf(),
            event.wf(),
        ensures
            final(data)@.wf(),
            match *event {
                PointerEvent::Down(p, now) => final(data)@ == step_down(
                    old(data)@,
                    p,
                    is_double_click(old(self).last_click, now),
                ) && final(self).last_click == Some(now) && r,
                PointerEvent::Move(p) => final(data)@ == step_move(old(data)@, p)
                    && final(self).last_click == old(self).last_click
                    && r == old(data)@.in_progress is Some,
                PointerEvent::Up(_) => final(data)@ == step_up(old(data)@)
                    && final(self).last_click == old(self).last_click && r,
                PointerEvent::Other => final(data)@ == old(data)@
                    && final(self).last_click == old(self).last_click && !r,
            },
    {
        match *event {
            PointerEvent::Down(p, now) => self.handle_mouse_down(data, p, now),
            PointerEvent::Move(p) => self.handle_mouse_move(data, p),
            PointerEvent::Up(_) => self.handle_mouse_up(data),
            PointerEvent::Other => false,
        }
    }
}

} // verus!
