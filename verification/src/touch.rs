//! Touch-sampling state machine.
//!
//! Once per loop iteration the touch controller yields one sample:
//! no contact, a contact at a point, a not-ready indication, or a
//! transient fault. The state machine remembers whether a contact is
//! active and where it last was, and turns each sample into the pointer
//! events that must be dispatched to the toolkit window, in order.
//!
//! Coordinates are physical (device pixel) coordinates throughout; the
//! caller converts them to the toolkit's logical coordinate space, via
//! the active scale factor, just before dispatch.

use vstd::prelude::*;

verus! {

/// A touch location in physical (device pixel) coordinates.
#[derive(Clone, Copy, PartialEq, Eq, Structural, Debug)]
pub struct Point {
    pub x: i32,
    pub y: i32,
}

/// One reading of the touch controller.
#[derive(Clone, Copy, PartialEq, Eq, Structural, Debug)]
pub enum TouchSample {
    /// The controller answered: no contact is present.
    NoContact,
    /// The controller answered: a single contact at this point.
    Contact(Point),
    /// The controller is not yet ready to answer; not a fault.
    NotReady,
    /// A transient sampling error other than not-ready; recoverable.
    Fault,
}

/// A pointer transition to dispatch to the toolkit window.
#[derive(Clone, Copy, PartialEq, Eq, Structural, Debug)]
pub enum PointerEvent {
    Pressed(Point),
    Moved(Point),
    Released(Point),
    Exited,
}

/// Whether a contact is currently active, and where it last was.
#[derive(Clone, Copy, PartialEq, Eq, Structural, Debug)]
pub struct TouchState {
    /// True between a dispatched press and the matching release.
    pub down: bool,
    /// The last known contact position; meaningful only while `down`.
    pub last: Point,
}

/// The state after consuming one sample.
pub open spec fn spec_next_state(s: TouchState, sample: TouchSample) -> TouchState {
    match sample {
        TouchSample::Contact(p) => TouchState { down: true, last: p },
        TouchSample::NoContact => TouchState { down: false, last: s.last },
        TouchSample::NotReady => s,
        TouchSample::Fault => s,
    }
}

/// The pointer events dispatched for one sample, in dispatch order.
pub open spec fn spec_events(s: TouchState, sample: TouchSample) -> Seq<PointerEvent> {
    match sample {
        TouchSample::Contact(p) => if s.down {
            seq![PointerEvent::Moved(p)]
        } else {
            seq![PointerEvent::Pressed(p), PointerEvent::Moved(p)]
        },
        TouchSample::NoContact => if s.down {
            seq![PointerEvent::Released(s.last), PointerEvent::Exited]
        } else {
            Seq::empty()
        },
        TouchSample::NotReady => Seq::empty(),
        TouchSample::Fault => Seq::empty(),
    }
}

/// The state after consuming a whole sequence of samples, first to last.
pub open spec fn spec_run_state(s: TouchState, samples: Seq<TouchSample>) -> TouchState
    decreases samples.len(),
{
    if samples.len() == 0 {
        s
    } else {
        spec_run_state(spec_next_state(s, samples[0]), samples.drop_first())
    }
}

/// All pointer events dispatched while consuming a sequence of samples,
/// concatenated in dispatch order.
pub open spec fn spec_run_events(s: TouchState, samples: Seq<TouchSample>) -> Seq<PointerEvent>
    decreases samples.len(),
{
    if samples.len() == 0 {
        Seq::empty()
    } else {
        spec_events(s, samples[0]) + spec_run_events(
            spec_next_state(s, samples[0]),
            samples.drop_first(),
        )
    }
}

impl TouchState {
    /// The startup state: no contact active.
    pub fn new() -> (s: Self)
        ensures
            !s.down,
    {
        TouchState { down: false, last: Point { x: 0, y: 0 } }
    }

    /// Consume one sample: advance the state and return the pointer
    /// events to dispatch, in dispatch order.
    pub fn process_sample(&mut self, sample: TouchSample) -> (events: Vec<PointerEvent>)
        ensures
            *final(self) == spec_next_state(*old(self), sample),
            events@ == spec_events(*old(self), sample),
    {
        let mut events: Vec<PointerEvent> = Vec::new();
        match sample {
            TouchSample::Contact(p) => {
                if !self.down {
                    events.push(PointerEvent::Pressed(p));
                }
                events.push(PointerEvent::Moved(p));
                self.down = true;
                self.last = p;
            },
            TouchSample::NoContact => {
                if self.down {
                    events.push(PointerEvent::Released(self.last));
                    events.push(PointerEvent::Exited);
                }
                self.down = false;
            },
            TouchSample::NotReady => {},
            TouchSample::Fault => {},
        }
        proof {
            assert(events@ =~= spec_events(*old(self), sample));
        }
        events
    }

    /// Consume a sequence of samples, first to last, returning every
    /// pointer event dispatched along the way, in dispatch order.
    pub fn process_samples(&mut self, samples: &Vec<TouchSample>) -> (events: Vec<PointerEvent>)
        ensures
            *final(self) == spec_run_state(*old(self), samples@),
            events@ == spec_run_events(*old(self), samples@),
    {
        let mut events: Vec<PointerEvent> = Vec::new();
        let mut i: usize = 0;
        proof {
            assert(samples@.skip(0) =~= samples@);
            assert(events@ + spec_run_events(*self, samples@) =~= spec_run_events(*self, samples@));
        }
        while i < samples.len()
            invariant
                i <= samples.len(),
                spec_run_state(*old(self), samples@) == spec_run_state(*self, samples@.skip(i as int)),
                spec_run_events(*old(self), samples@) == events@ + spec_run_events(
                    *self,
                    samples@.skip(i as int),
                ),
            decreases samples.len() - i,
        {
            proof {
                assert(samples@.skip(i as int)[0] == samples@[i as int]);
                assert(samples@.skip(i as int).drop_first() =~= samples@.skip(i as int + 1));
            }
            let mut step = self.process_sample(samples[i]);
            events.append(&mut step);
            i = i + 1;
        }
        proof {
            assert(samples@.skip(samples@.len() as int) =~= Seq::<TouchSample>::empty());
        }
        events
    }
}

/// Law: a not-ready sample, or a transient sampling fault, never changes
/// the state and never dispatches an event, whatever the preceding state.
pub proof fn lemma_not_ready_is_noop(s: TouchState)
    ensures
        spec_next_state(s, TouchSample::NotReady) == s,
        spec_events(s, TouchSample::NotReady) == Seq::<PointerEvent>::empty(),
        spec_next_state(s, TouchSample::Fault) == s,
        spec_events(s, TouchSample::Fault) == Seq::<PointerEvent>::empty(),
{
}

} // verus!
