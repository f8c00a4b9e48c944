use vstd::prelude::*;

use crate::geometry::{Line, Point};

verus! {

#[verifier::external_type_specification]
#[verifier::external_body]
#[verifier::reject_recursive_types(A)]
pub struct ExVector<A>(im::Vector<A>);

/// The segments that an `im::Vector` of drawn lines holds, in order.
pub uninterp spec fn segments_of(v: im::Vector<LineWrapper>) -> Seq<Line>;

/// Relies on im::Vector::new: a new vector is empty.
#[verifier::external_body]
fn vector_new() -> (r: im::Vector<LineWrapper>)
    ensures
        segments_of(r) == Seq::<Line>::empty(),
{
    im::Vector::new()
}

/// Relies on im::Vector::len: the number of items held.
#[verifier::external_body]
fn vector_len(v: &im::Vector<LineWrapper>) -> (r: usize)
    ensures
        r == segments_of(*v).len(),
{
    v.len()
}

/// Relies on im::Vector::get: the item at `index`, none past the end.
#[verifier::external_body]
fn vector_get(v: &im::Vector<LineWrapper>, index: usize) -> (r: Option<Line>)
    ensures
        index < segments_of(*v).len() ==> r == Some(segments_of(*v)[index as int]),
        index >= segments_of(*v).len() ==> r.is_none(),
{
    v.get(index).map(|w| w.0)
}

/// Relies on im::Vector::push_back: appends one item at the end.
#[verifier::external_body]
fn vector_push_back(v: &mut im::Vector<LineWrapper>, line: Line)
    ensures
        segments_of(*final(v)) == segments_of(*old(v)).push(line),
{
    v.push_back(LineWrapper(line))
}

/// Relies on im::Vector::remove: takes out the item at `index`, shifting those
/// after it left by one; it panics past the end.
#[verifier::external_body]
fn vector_remove(v: &mut im::Vector<LineWrapper>, index: usize) -> (r: Line)
    requires
        index < segments_of(*old(v)).len(),
    ensures
        r == segments_of(*old(v))[index as int],
        segments_of(*final(v)) == segments_of(*old(v)).remove(index as int),
{
    v.remove(index).0
}

/// A drawn segment as the drawing keeps it.
#[derive(Clone, Copy, Debug)]
pub struct LineWrapper(pub Line);

impl LineWrapper {
    /// Two wrapped segments are the same when their endpoints are.
    pub fn same(&self, other: &Self) -> (r: bool)
        ensures
            r == (self.0 == other.0),
    {
        self.0.p0 == other.0.p0 && self.0.p1 == other.0.p1
    }
}

/// The committed segments, in the order in which they were drawn.
pub struct WrappedVector {
    pub lines: im::Vector<LineWrapper>,
}

impl View for WrappedVector {
    type V = Seq<Line>;

    open spec fn view(&self) -> Seq<Line> {
        segments_of(self.lines)
    }
}

impl WrappedVector {
    pub fn new() -> (r: WrappedVector)
        ensures
            r@ == Seq::<Line>::empty(),
    {
        WrappedVector { lines: vector_new() }
    }

    pub fn len(&self) -> (r: usize)
        ensures
            r == self@.len(),
    {
        vector_len(&self.lines)
    }

    pub fn get(&self, index: usize) -> (r: Line)
        requires
            index < self@.len(),
        ensures
            r == self@[index as int],
    {
        let got = vector_get(&self.lines, index);
        match got {
            Some(line) => line,
            None => Line::new(Point::new(0, 0), Point::new(0, 0)),
        }
    }

    pub fn push_back(&mut self, line: Line)
        ensures
            final(self)@ == old(self)@.push(line),
    {
        vector_push_back(&mut self.lines, line)
    }

    pub fn remove(&mut self, index: usize) -> (r: Line)
        requires
            index < old(self)@.len(),
        ensures
            r == old(self)@[index as int],
            final(self)@ == old(self)@.remove(index as int),
    {
        vector_remove(&mut self.lines, index)
    }

    /// Two sequences are the same when they hold the same segments in the same order.
    pub fn same(&self, other: &Self) -> (r: bool)
        ensures
            r == (self@ == other@),
    {
        let n = self.len();
        if n != other.len() {
            return false;
        }
        let mut i: usize = 0;
        while i < n
            invariant
                n == self@.len(),
                n == other@.len(),
                0 <= i <= n,
                forall|k: int| 0 <= k < i ==> self@[k] == other@[k],
            decreases n - i,
        {
            if !LineWrapper(self.get(i)).same(&LineWrapper(other.get(i))) {
                return false;
            }
            i = i + 1;
        }
        assert(self@ =~= other@);
        true
    }
}

/// What the drawing holds, as values.
pub struct DrawingView {
    /// The committed segments, in drawing order.
    pub committed: Seq<Line>,
    /// The segment being dragged out, if a drag is in flight.
    pub in_progress: Option<Line>,
    /// The selected committed segment.
    pub selected: Option<usize>,
    /// The endpoint that the next segment starts from.
    pub anchor: Option<Point>,
}

impl DrawingView {
    /// Every point lies on the surface and the selection names a committed segment.
    pub open spec fn wf(self) -> bool {
        &&& forall|i: int| 0 <= i < self.committed.len() ==> (#[trigger] self.committed[i]).wf()
        &&& (self.in_progress matches Some(l) ==> l.wf())
        &&& (self.anchor matches Some(p) ==> p.wf())
        &&& (self.selected matches Some(i) ==> i < self.committed.len())
    }
}

/// The drawing: committed segments, the segment in progress, the selection and
/// the anchor for the next segment.
pub struct AppState {
    pub current_line: Option<LineWrapper>,
    pub lines: WrappedVector,
    pub selected_line: Option<usize>,
    pub selected_point: Option<Point>,
}

impl View for AppState {
    type V = DrawingView;

    open spec fn view(&self) -> DrawingView {
        DrawingView {
            committed: self.lines@,
            in_progress: match self.current_line {
                Some(w) => Some(w.0),
                None => None,
            },
            selected: self.selected_line,
            anchor: self.selected_point,
        }
    }
}

/// The drawing after the delete action: the selected segment is removed and the
/// selection cleared; without a selection nothing changes.
pub open spec fn step_delete(v: DrawingView) -> DrawingView {
    match v.selected {
        Some(i) => DrawingView { committed: v.committed.remove(i as int), selected: None, ..v },
        None => v,
    }
}

impl AppState {
    /// An empty drawing.
    pub fn new() -> (r: AppState)
        ensures
            r@.committed == Seq::<Line>::empty(),
            r@.in_progress.is_none(),
            r@.selected.is_none(),
            r@.anchor.is_none(),
            r@.wf(),
    {
        AppState {
            current_line: None,
            lines: WrappedVector::new(),
            selected_line: None,
            selected_point: None,
        }
    }

    /// Removes the selected segment, if any, and clears the selection.
    pub fn delete_selected(&mut self)
        requires
            old(self)@.wf(),
        ensures
            final(self)@ == step_delete(old(self)@),
            final(self)@.wf(),
    {
        if let Some(selected) = self.selected_line {
            self.lines.remove(selected);
            self.selected_line = None;
        }
        proof {
            assert forall|i: int| 0 <= i < self@.committed.len() implies (#[trigger] self@.committed[i]).wf() by {
                if let Some(s) = old(self)@.selected {
                    if i >= s {
                        assert(self@.committed[i] == old(self)@.committed[i + 1]);
                    }
                }
            }
        }
    }
}

} // verus!
