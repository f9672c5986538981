//! Per-iteration orchestration of the cooperative event loop.
//!
//! Each iteration of the loop, in this order: advance the toolkit's
//! timers and animations; drain the invocation queue and run the drained
//! actions; sample the touch controller and dispatch the resulting
//! pointer events; redraw into the back buffer and present it, but only
//! when the window reports dirty content; and yield the processor when
//! no animation is active. A drained terminate marker stops the loop: no
//! further iteration begins.
//!
//! The caller owns the hardware and the toolkit window. It drains the
//! shared queue, polls the touch controller, asks the window for a frame,
//! hands the plain values in, and carries out the returned plan.

use vstd::prelude::*;

use crate::display::FrameBuffers;
use crate::queue::QueueEntry;
use crate::queue::spec_actions_before_terminate;
use crate::queue::spec_has_terminate;
use crate::queue::split_drained;
use crate::touch::PointerEvent;
use crate::touch::TouchSample;
use crate::touch::TouchState;
use crate::touch::spec_events;
use crate::touch::spec_next_state;

verus! {

/// What one loop iteration decided; the caller carries it out in field
/// order.
pub struct IterationPlan<A> {
    /// Drained actions to run on the loop's own execution context, in
    /// submission order.
    pub actions: Vec<A>,
    /// Pointer transitions to dispatch to the window, in order.
    pub events: Vec<PointerEvent>,
    /// The buffer to hand to the panel after the vertical-sync wait;
    /// nothing was dirty when this is absent, and then no buffer may be
    /// pushed and no roles swapped.
    pub pushed: Option<u8>,
    /// Yield the processor at the end of this iteration.
    pub yield_now: bool,
    /// Begin another iteration afterwards.
    pub keep_running: bool,
}

/// The long-lived root state of the platform adapter's loop: the touch
/// state machine, the buffer pair, and whether the loop still runs.
pub struct Adapter {
    pub touch: TouchState,
    pub buffers: FrameBuffers,
    pub running: bool,
}

/// Whether the loop still runs after draining these entries.
pub open spec fn spec_running_after<A>(drained: Seq<QueueEntry<A>>) -> bool {
    !spec_has_terminate(drained)
}

/// Whether the iteration ends in the idle yield: only when no animation
/// is active, so that a pending animation is serviced without delay.
pub open spec fn spec_idle_yield(has_animations: bool) -> bool {
    !has_animations
}

impl Adapter {
    /// The startup state: loop running, no contact active, buffer 0 the
    /// back buffer, both buffers cleared.
    pub fn new(pixels: usize) -> (a: Self)
        ensures
            a.running,
            !a.touch.down,
            a.buffers.wf(),
            a.buffers.spec_len() == pixels,
            a.buffers.spec_back_index() == 0,
    {
        Adapter { touch: TouchState::new(), buffers: FrameBuffers::new(pixels), running: true }
    }

    /// Decide one whole loop iteration from this iteration's inputs: the
    /// entries just drained from the invocation queue, one touch sample,
    /// whether the window reported dirty content (and then the rendered
    /// frame), and whether an animation is active.
    pub fn run_iteration<A>(
        &mut self,
        drained: Vec<QueueEntry<A>>,
        sample: TouchSample,
        dirty: bool,
        frame: &Vec<u16>,
        has_animations: bool,
    ) -> (plan: IterationPlan<A>)
        requires
            old(self).running,
            old(self).buffers.wf(),
            dirty ==> frame@.len() == old(self).buffers.spec_len(),
        ensures
            plan.actions@ == spec_actions_before_terminate(drained@),
            final(self).running == spec_running_after(drained@),
            plan.keep_running == final(self).running,
            final(self).touch == spec_next_state(old(self).touch, sample),
            plan.events@ == spec_events(old(self).touch, sample),
            final(self).buffers.wf(),
            final(self).buffers.spec_len() == old(self).buffers.spec_len(),
            !dirty ==> final(self).buffers == old(self).buffers && plan.pushed is None,
            dirty ==> {
                &&& plan.pushed == Some((old(self).buffers.spec_back_index() as u8))
                &&& final(self).buffers.spec_back_index() == 1 - old(
                    self,
                ).buffers.spec_back_index()
                &&& final(self).buffers.front_view() == frame@
                &&& final(self).buffers.back_view() == old(self).buffers.front_view()
            },
            plan.yield_now == spec_idle_yield(has_animations),
    {
        let (actions, terminated) = split_drained(drained);
        self.running = !terminated;
        let events = self.touch.process_sample(sample);
        let pushed = self.buffers.conditional_redraw(dirty, frame);
        IterationPlan {
            actions,
            events,
            pushed,
            yield_now: !has_animations,
            keep_running: self.running,
        }
    }
}

/// Everything one loop iteration consumes: the entries drained from the
/// invocation queue, the touch sample, whether the window reported dirty
/// content (and then the rendered frame), and whether an animation is
/// active.
pub struct IterationInput<A> {
    pub drained: Vec<QueueEntry<A>>,
    pub sample: TouchSample,
    pub dirty: bool,
    pub frame: Vec<u16>,
    pub has_animations: bool,
}

/// The drains of a whole run, one per scripted iteration.
pub open spec fn spec_drains_of<A>(script: Seq<IterationInput<A>>) -> Seq<Seq<QueueEntry<A>>> {
    script.map(|i: int, input: IterationInput<A>| input.drained@)
}

/// How many iterations of this script a run performs: it stops right
/// after the first iteration whose drain holds a terminate marker.
pub open spec fn spec_run_len<A>(script: Seq<IterationInput<A>>) -> int
    decreases script.len(),
{
    if script.len() == 0 {
        0
    } else if spec_has_terminate(script[0].drained@) {
        1
    } else {
        1 + spec_run_len(script.drop_first())
    }
}

/// The touch state when iteration `i` of a run over this script begins:
/// the startup state folded through the first `i` samples.
pub open spec fn spec_touch_before<A>(
    s0: TouchState,
    script: Seq<IterationInput<A>>,
    i: nat,
) -> TouchState
    decreases i,
{
    if i == 0 {
        s0
    } else {
        spec_next_state(spec_touch_before(s0, script, (i - 1) as nat), script[i - 1].sample)
    }
}

/// The back buffer's index when iteration `i` of a run over this script
/// begins: roles swap at exactly the dirty iterations.
pub open spec fn spec_back_before<A>(b0: int, script: Seq<IterationInput<A>>, i: nat) -> int
    decreases i,
{
    if i == 0 {
        b0
    } else if script[i - 1].dirty {
        1 - spec_back_before(b0, script, (i - 1) as nat)
    } else {
        spec_back_before(b0, script, (i - 1) as nat)
    }
}

impl Adapter {
    /// Run the loop over a whole script of per-iteration inputs, first
    /// to last: exactly one iteration per input, until the script ends
    /// or a drained terminate marker stops the loop — after that, no
    /// further iteration begins. Each performed iteration runs its
    /// drained actions, dispatches its touch transitions, pushes the
    /// back buffer exactly when dirty, and takes the idle yield exactly
    /// when no animation was active.
    #[verifier::loop_isolation(false)]
    pub fn run_scripted<A>(&mut self, script: Vec<IterationInput<A>>) -> (plans: Vec<
        IterationPlan<A>,
    >)
        requires
            old(self).running,
            old(self).buffers.wf(),
            forall|j: int|
                0 <= j < script@.len() ==> (#[trigger] script@[j].dirty ==> script@[j].frame@.len()
                    == old(self).buffers.spec_len()),
        ensures
            final(self).buffers.wf(),
            final(self).buffers.spec_len() == old(self).buffers.spec_len(),
            plans@.len() == spec_run_len(script@),
            final(self).running == spec_running_after_iterations(
                spec_drains_of(script@),
                spec_run_len(script@),
            ),
            final(self).touch == spec_touch_before(
                old(self).touch,
                script@,
                plans@.len() as nat,
            ),
            final(self).buffers.spec_back_index() == spec_back_before(
                old(self).buffers.spec_back_index(),
                script@,
                plans@.len() as nat,
            ),
            forall|i: int|
                0 <= i < plans@.len() ==> {
                    &&& (#[trigger] plans@[i]).yield_now == spec_idle_yield(
                        script@[i].has_animations,
                    )
                    &&& plans@[i].actions@ == spec_actions_before_terminate(script@[i].drained@)
                    &&& plans@[i].events@ == spec_events(
                        spec_touch_before(old(self).touch, script@, i as nat),
                        script@[i].sample,
                    )
                    &&& plans@[i].pushed == if script@[i].dirty {
                        Some(
                            (spec_back_before(
                                old(self).buffers.spec_back_index(),
                                script@,
                                i as nat,
                            ) as u8),
                        )
                    } else {
                        None::<u8>
                    }
                    &&& plans@[i].keep_running == spec_running_after_iterations(
                        spec_drains_of(script@),
                        i + 1,
                    )
                },
    {
        let ghost script0 = script@;
        let mut rest = script;
        let mut plans: Vec<IterationPlan<A>> = Vec::new();
        proof {
            assert(rest@ =~= script0.skip(plans@.len() as int));
        }
        while self.running && rest.len() > 0
            invariant
                self.buffers.wf(),
                self.buffers.spec_len() == old(self).buffers.spec_len(),
                plans@.len() <= script0.len(),
                rest@ == script0.skip(plans@.len() as int),
                self.running == spec_running_after_iterations(
                    spec_drains_of(script0),
                    plans@.len() as int,
                ),
                spec_run_len(script0) == if self.running {
                    plans@.len() + spec_run_len(rest@)
                } else {
                    plans@.len() as int
                },
                self.touch == spec_touch_before(old(self).touch, script0, plans@.len() as nat),
                self.buffers.spec_back_index() == spec_back_before(
                    old(self).buffers.spec_back_index(),
                    script0,
                    plans@.len() as nat,
                ),
                forall|i: int|
                    0 <= i < plans@.len() ==> {
                        &&& (#[trigger] plans@[i]).yield_now == spec_idle_yield(
                            script0[i].has_animations,
                        )
                        &&& plans@[i].actions@ == spec_actions_before_terminate(
                            script0[i].drained@,
                        )
                        &&& plans@[i].events@ == spec_events(
                            spec_touch_before(old(self).touch, script0, i as nat),
                            script0[i].sample,
                        )
                        &&& plans@[i].pushed == if script0[i].dirty {
                            Some(
                                (spec_back_before(
                                    old(self).buffers.spec_back_index(),
                                    script0,
                                    i as nat,
                                ) as u8),
                            )
                        } else {
                            None::<u8>
                        }
                        &&& plans@[i].keep_running == spec_running_after_iterations(
                            spec_drains_of(script0),
                            i + 1,
                        )
                    },
            decreases rest@.len(),
        {
            let ghost rest_before = rest@;
            let ghost done = plans@.len() as int;
            let input = rest.remove(0);
            proof {
                assert(rest@ =~= rest_before.drop_first());
                assert(input == script0[done]);
                assert(rest@ =~= script0.skip(done + 1));
            }
            let plan = self.run_iteration(
                input.drained,
                input.sample,
                input.dirty,
                &input.frame,
                input.has_animations,
            );
            plans.push(plan);
            proof {
                assert(spec_drains_of(script0)[done] == script0[done].drained@);
                assert(spec_running_after_iterations(spec_drains_of(script0), done + 1)
                    == (spec_running_after_iterations(spec_drains_of(script0), done)
                    && !spec_has_terminate(script0[done].drained@)));
                assert(spec_touch_before(old(self).touch, script0, (done + 1) as nat)
                    == spec_next_state(
                    spec_touch_before(old(self).touch, script0, done as nat),
                    script0[done].sample,
                ));
                assert(spec_back_before(
                    old(self).buffers.spec_back_index(),
                    script0,
                    (done + 1) as nat,
                ) == if script0[done].dirty {
                    1 - spec_back_before(old(self).buffers.spec_back_index(), script0, done as nat)
                } else {
                    spec_back_before(old(self).buffers.spec_back_index(), script0, done as nat)
                });
            }
        }
        plans
    }
}

/// Law: a drained terminate marker stops the loop, so no further
/// iteration begins after it is drained — `run_iteration` demands a
/// running adapter, and an iteration whose drain held a terminate leaves
/// the adapter stopped.
pub proof fn lemma_terminate_stops_loop<A>(drained: Seq<QueueEntry<A>>)
    requires
        spec_has_terminate(drained),
    ensures
        !spec_running_after(drained),
{
}

/// Whether the loop still runs after the first `k` iterations of a whole
/// run, where iteration `j` drained `drains[j]`: every drain so far was
/// free of terminate markers. `run_iteration` demands a running adapter
/// and leaves `running` false as soon as one drain holds a terminate, so
/// iteration `k` begins only when this holds.
pub open spec fn spec_running_after_iterations<A>(
    drains: Seq<Seq<QueueEntry<A>>>,
    k: int,
) -> bool {
    forall|j: int| 0 <= j < k ==> !spec_has_terminate(#[trigger] drains[j])
}

/// Law: no further loop iteration begins after a terminate marker is
/// drained — once iteration `j` drained one, the loop is stopped at
/// every later iteration `k`.
pub proof fn lemma_no_iteration_after_terminate<A>(
    drains: Seq<Seq<QueueEntry<A>>>,
    j: int,
    k: int,
)
    requires
        0 <= j < k <= drains.len(),
        spec_has_terminate(drains[j]),
    ensures
        !spec_running_after_iterations(drains, k),
{
}

/// Law: while the window has an active animation, an iteration never
/// takes the idle-yield branch, so the animation keeps being serviced.
pub proof fn lemma_active_animation_never_yields(has_animations: bool)
    requires
        has_animations,
    ensures
        !spec_idle_yield(has_animations),
{
}

} // verus!
