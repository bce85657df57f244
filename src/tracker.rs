//! The interval tracker: turns face changes into completed intervals.
//!
//! Instants are whole seconds on the Unix time line.
use vstd::prelude::*;
use crate::registry::{
    Side, SideView, TimeularConfig, TrackerError, contains_side, trackable, lookup,
};

verus! {

/// The interval in progress: the face that is up and when it came up.
#[derive(Debug, Clone, Copy, PartialEq, Eq, Structural)]
pub struct ActiveInterval {
    pub side_num: u8,
    pub started_at: i64,
}

/// The mathematical value of an [`Interval`].
pub struct IntervalView {
    pub side: SideView,
    pub start: int,
    pub end: int,
}

/// A closed interval, ready to be dispatched.
#[derive(Debug)]
pub struct Interval {
    pub side: Side,
    pub start: i64,
    pub end: i64,
}

impl View for Interval {
    type V = IntervalView;

    open spec fn view(&self) -> IntervalView {
        IntervalView { side: self.side@, start: self.start as int, end: self.end as int }
    }
}

/// The active interval after a face change to `face_num` at `at`.
pub open spec fn opened(sides: Seq<SideView>, face_num: u8, at: i64) -> Option<ActiveInterval> {
    if trackable(sides, face_num) {
        Some(ActiveInterval { side_num: face_num, started_at: at })
    } else {
        None
    }
}

/// One transition of the tracker on a registered face: the next active
/// interval and the interval that is closed, if any.
pub open spec fn step(
    sides: Seq<SideView>,
    active: Option<ActiveInterval>,
    face_num: u8,
    at: i64,
) -> (Option<ActiveInterval>, Option<IntervalView>) {
    match active {
        Some(a) => if a.side_num == face_num {
            (active, None)
        } else {
            (
                opened(sides, face_num, at),
                Some(
                    IntervalView {
                        side: lookup(sides, a.side_num),
                        start: a.started_at as int,
                        end: at as int,
                    },
                ),
            )
        },
        None => (opened(sides, face_num, at), None),
    }
}

/// The tracker: a read-only registry and at most one active interval.
#[derive(Debug)]
pub struct IntervalTracker {
    pub registry: TimeularConfig,
    pub active: Option<ActiveInterval>,
}

impl IntervalTracker {
    /// The active interval, if any, belongs to a trackable face.
    pub open spec fn wf(&self) -> bool {
        self.active matches Some(a) ==> trackable(self.registry@.sides, a.side_num)
    }

    /// An event at `at` does not come before the active interval started.
    pub open spec fn accepts(&self, at: i64) -> bool {
        self.active matches Some(a) ==> a.started_at <= at
    }

    /// A tracker over `registry` in the idle state.
    pub fn new(registry: TimeularConfig) -> (r: IntervalTracker)
        ensures
            r.wf(),
            r.registry@ == registry@,
            r.active is None,
    {
        IntervalTracker { registry, active: None }
    }

    /// Handles a change of the upward face to `face_num`, observed at `at`.
    ///
    /// A repeat of the active face changes nothing. Any other registered face
    /// closes the active interval, which is returned, and opens a new one if
    /// the face is trackable. An unregistered face is an error and leaves the
    /// tracker as it was.
    pub fn on_face_change(&mut self, face_num: u8, at: i64) -> (r: Result<Option<Interval>, TrackerError>)
        requires
            old(self).wf(),
            old(self).accepts(at),
        ensures
            final(self).wf(),
            final(self).registry@ == old(self).registry@,
            r is Err <==> !contains_side(old(self).registry@.sides, face_num),
            r matches Err(e) ==> e == TrackerError::UnknownSide(face_num),
            r is Err ==> final(self).active == old(self).active,
            r matches Ok(emitted) ==> ({
                let (next, closed) = step(old(self).registry@.sides, old(self).active, face_num, at);
                &&& final(self).active == next
                &&& closed is None <==> emitted is None
                &&& emitted matches Some(iv) ==> closed == Some(iv@)
            }),
    {
        let known = self.registry.find_side(&face_num);
        if known.is_none() {
            return Err(TrackerError::UnknownSide(face_num));
        }
        let emitted = match self.active {
            Some(a) => {
                if a.side_num == face_num {
                    return Ok(None);
                }
                match self.registry.get_side(&a.side_num) {
                    Ok(side) => Some(Interval { side: side.duplicate(), start: a.started_at, end: at }),
                    Err(e) => {
                        return Err(e);
                    },
                }
            },
            None => None,
        };
        if self.registry.is_trackable(&face_num) {
            self.active = Some(ActiveInterval { side_num: face_num, started_at: at });
        } else {
            self.active = None;
        }
        Ok(emitted)
    }
}

/// The boundary transitions: a repeat of the active face closes nothing and
/// keeps the state; a trackable face left for an untrackable one closes one
/// interval and leaves the tracker idle; an untrackable face seen while idle
/// closes nothing and keeps it idle; and an interval closed at the instant
/// it opened is closed like any other, with equal start and end.
pub proof fn lemma_boundary_transitions(
    sides: Seq<SideView>,
    a: ActiveInterval,
    face_num: u8,
    at: i64,
)
    ensures
        step(sides, Some(a), a.side_num, at) == (Some(a), None::<IntervalView>),
        a.side_num != face_num && !trackable(sides, face_num) ==> step(sides, Some(a), face_num, at)
            == (
            None::<ActiveInterval>,
            Some(
                IntervalView {
                    side: lookup(sides, a.side_num),
                    start: a.started_at as int,
                    end: at as int,
                },
            ),
        ),
        !trackable(sides, face_num) ==> step(sides, None, face_num, at) == (
            None::<ActiveInterval>,
            None::<IntervalView>,
        ),
        a.side_num != face_num ==> step(sides, Some(a), face_num, a.started_at).1 == Some(
            IntervalView {
                side: lookup(sides, a.side_num),
                start: a.started_at as int,
                end: a.started_at as int,
            },
        ),
{
}

/// The tracker's state and the closed intervals, in order, after a trace of
/// face changes `(face_num, at)` that starts in the idle state.
pub open spec fn run(sides: Seq<SideView>, events: Seq<(u8, i64)>) -> (
    Option<ActiveInterval>,
    Seq<IntervalView>,
)
    decreases events.len(),
{
    if events.len() == 0 {
        (None, Seq::empty())
    } else {
        let (active, out) = run(sides, events.drop_last());
        let (next, closed) = step(sides, active, events.last().0, events.last().1);
        match closed {
            Some(iv) => (next, out.push(iv)),
            None => (next, out),
        }
    }
}

/// Every face of the trace is registered.
pub open spec fn all_registered(sides: Seq<SideView>, events: Seq<(u8, i64)>) -> bool {
    forall|i: int| 0 <= i < events.len() ==> contains_side(sides, #[trigger] events[i].0)
}

/// The instants of the trace never go back.
pub open spec fn non_decreasing(events: Seq<(u8, i64)>) -> bool {
    forall|i: int, j: int| 0 <= i <= j < events.len() ==> events[i].1 <= events[j].1
}

/// The instants of the trace always go forward.
pub open spec fn increasing(events: Seq<(u8, i64)>) -> bool {
    forall|i: int, j: int| 0 <= i < j < events.len() ==> events[i].1 < events[j].1
}

/// Over any trace of registered faces whose instants never go back: the
/// active interval, of which there is at most one, belongs to a trackable
/// face; every closed interval has a non-empty label and ends no earlier
/// than it starts; and each closed interval ends no later than the next one
/// starts. Where the instants always go forward, the starts of the closed
/// intervals strictly increase.
pub proof fn lemma_trace_ordered(sides: Seq<SideView>, events: Seq<(u8, i64)>)
    requires
        all_registered(sides, events),
        non_decreasing(events),
    ensures
        ({
            let (active, out) = run(sides, events);
            &&& active matches Some(a) ==> trackable(sides, a.side_num)
            &&& forall|k: int| 0 <= k < out.len() ==> (#[trigger] out[k]).side.label.len() > 0
            &&& forall|k: int| 0 <= k < out.len() ==> (#[trigger] out[k]).start <= out[k].end
            &&& forall|k: int| 0 <= k < out.len() - 1 ==> (#[trigger] out[k]).end <= out[k + 1].start
            &&& increasing(events) ==> forall|k: int|
                0 <= k < out.len() - 1 ==> (#[trigger] out[k]).start < out[k + 1].start
        }),
{
    lemma_trace_bounds(sides, events);
}

/// The induction behind [`lemma_trace_ordered`], with the bounds that the
/// last instant of the trace puts on the state.
proof fn lemma_trace_bounds(sides: Seq<SideView>, events: Seq<(u8, i64)>)
    requires
        all_registered(sides, events),
        non_decreasing(events),
    ensures
        ({
            let (active, out) = run(sides, events);
            &&& active matches Some(a) ==> trackable(sides, a.side_num)
            &&& active matches Some(a) ==> a.started_at <= events.last().1
            &&& active matches Some(a) ==> forall|k: int|
                0 <= k < out.len() ==> (#[trigger] out[k]).end <= a.started_at
            &&& forall|k: int| 0 <= k < out.len() ==> (#[trigger] out[k]).side.label.len() > 0
            &&& forall|k: int| 0 <= k < out.len() ==> (#[trigger] out[k]).start <= out[k].end
            &&& forall|k: int| 0 <= k < out.len() ==> (#[trigger] out[k]).end <= events.last().1
            &&& forall|k: int| 0 <= k < out.len() - 1 ==> (#[trigger] out[k]).end <= out[k + 1].start
            &&& increasing(events) ==> forall|k: int|
                0 <= k < out.len() ==> (#[trigger] out[k]).start < out[k].end
            &&& increasing(events) ==> forall|k: int|
                0 <= k < out.len() - 1 ==> (#[trigger] out[k]).start < out[k + 1].start
            &&& increasing(events) && events.len() > 0 ==> (active matches Some(a) ==> a.started_at
                == events.last().1 || exists|i: int| 0 <= i < events.len() - 1 && events[i].1
                == a.started_at)
        }),
    decreases events.len(),
{
    if events.len() > 0 {
        let prev = events.drop_last();
        assert forall|i: int| 0 <= i < prev.len() implies contains_side(sides, #[trigger] prev[i].0) by {
            assert(prev[i] == events[i]);
        }
        assert forall|i: int, j: int| 0 <= i <= j < prev.len() implies prev[i].1 <= prev[j].1 by {
            assert(prev[i] == events[i] && prev[j] == events[j]);
        }
        lemma_trace_bounds(sides, prev);
        let (active, out) = run(sides, prev);
        let (face, at) = events.last();
        if prev.len() > 0 {
            assert(prev.last() == events[prev.len() - 1]);
            assert(prev.last().1 <= at);
        }
        let (next, closed) = step(sides, active, face, at);
        if increasing(events) {
            assert forall|i: int, j: int| 0 <= i < j < prev.len() implies prev[i].1 < prev[j].1 by {
                assert(prev[i] == events[i] && prev[j] == events[j]);
            }
            if prev.len() > 0 {
                assert(prev.last().1 < at);
            }
            if let Some(a) = active {
                if prev.len() > 0 {
                    if a.started_at != prev.last().1 {
                        let i = choose|i: int| 0 <= i < prev.len() - 1 && prev[i].1 == a.started_at;
                        assert(prev[i] == events[i]);
                        assert(events[i].1 < at);
                    }
                }
            }
        }
        if let Some(a) = next {
            if let Some(b) = active {
                if b.side_num == face {
                    if increasing(events) && prev.len() > 0 {
                        if b.started_at != prev.last().1 {
                            let i = choose|i: int| 0 <= i < prev.len() - 1 && prev[i].1 == b.started_at;
                            assert(prev[i] == events[i]);
                        } else {
                            assert(prev.last() == events[events.len() - 2]);
                        }
                    }
                }
            }
        }
    }
}

} // verus!
