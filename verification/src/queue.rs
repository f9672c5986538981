//! Cross-context invocation queue.
//!
//! Producers running in any execution context append deferred actions, or
//! a terminate marker, under an exclusive lock; the event loop drains the
//! whole queue once per iteration and runs the drained actions, strictly
//! in submission order, on its own single thread of control. The lock
//! itself lives with the caller (it guards the queue between contexts);
//! this module holds the queue's contents and its drain semantics.
//!
//! A drained terminate marker stops the loop: the actions submitted
//! before it still run, those submitted after it are dropped.

use vstd::prelude::*;

verus! {

/// One pending entry: a deferred action, or the terminate marker.
pub enum QueueEntry<A> {
    /// Run this action on the event loop's own execution context.
    Invoke(A),
    /// Stop the event loop once drained.
    Terminate,
}

/// An ordered queue of pending entries, oldest first.
pub struct ActionQueue<A> {
    entries: Vec<QueueEntry<A>>,
}

impl<A> View for ActionQueue<A> {
    type V = Seq<QueueEntry<A>>;

    closed spec fn view(&self) -> Seq<QueueEntry<A>> {
        self.entries@
    }
}

impl<A> ActionQueue<A> {
    /// The empty queue.
    pub fn new() -> (q: Self)
        ensures
            q@ == Seq::<QueueEntry<A>>::empty(),
    {
        ActionQueue { entries: Vec::new() }
    }

    /// Append a deferred action; it is not executed here.
    pub fn enqueue(&mut self, action: A)
        ensures
            final(self)@ == old(self)@.push(QueueEntry::Invoke(action)),
    {
        self.entries.push(QueueEntry::Invoke(action));
    }

    /// Append the terminate marker; it is not acted on here.
    pub fn enqueue_terminate(&mut self)
        ensures
            final(self)@ == old(self)@.push(QueueEntry::Terminate),
    {
        self.entries.push(QueueEntry::Terminate);
    }

    /// Atomically take every pending entry out, in submission order,
    /// leaving the queue empty.
    pub fn drain(&mut self) -> (drained: Vec<QueueEntry<A>>)
        ensures
            drained@ == old(self)@,
            final(self)@ == Seq::<QueueEntry<A>>::empty(),
    {
        let mut taken: Vec<QueueEntry<A>> = Vec::new();
        core::mem::swap(&mut self.entries, &mut taken);
        taken
    }

    /// How many entries are pending.
    pub fn len(&self) -> (n: usize)
        ensures
            n == self@.len(),
    {
        self.entries.len()
    }
}

/// The actions that a drain runs: the payloads of the entries that stand
/// before the first terminate marker, in submission order.
pub open spec fn spec_actions_before_terminate<A>(s: Seq<QueueEntry<A>>) -> Seq<A>
    decreases s.len(),
{
    if s.len() == 0 {
        Seq::empty()
    } else {
        match s[0] {
            QueueEntry::Terminate => Seq::empty(),
            QueueEntry::Invoke(a) => seq![a] + spec_actions_before_terminate(s.drop_first()),
        }
    }
}

/// Whether the drained entries hold a terminate marker.
pub open spec fn spec_has_terminate<A>(s: Seq<QueueEntry<A>>) -> bool
    decreases s.len(),
{
    if s.len() == 0 {
        false
    } else {
        s[0] is Terminate || spec_has_terminate(s.drop_first())
    }
}

/// Sort the drained entries into what a drain runs: the actions before
/// the first terminate marker, in submission order, and whether a
/// terminate marker was drained at all.
#[verifier::loop_isolation(false)]
pub fn split_drained<A>(drained: Vec<QueueEntry<A>>) -> (r: (Vec<A>, bool))
    ensures
        r.0@ == spec_actions_before_terminate(drained@),
        r.1 == spec_has_terminate(drained@),
{
    let ghost all = drained@;
    let mut rest = drained;
    let mut actions: Vec<A> = Vec::new();
    proof {
        assert(actions@ + spec_actions_before_terminate(rest@) =~= spec_actions_before_terminate(
            all,
        ));
    }
    while rest.len() > 0
        invariant
            spec_actions_before_terminate(all) == actions@ + spec_actions_before_terminate(rest@),
            spec_has_terminate(all) == spec_has_terminate(rest@),
        decreases rest.len(),
    {
        let ghost rest_before = rest@;
        let entry = rest.remove(0);
        proof {
            assert(rest@ =~= rest_before.drop_first());
        }
        match entry {
            QueueEntry::Terminate => {
                proof {
                    assert(rest_before[0] is Terminate);
                    assert(spec_actions_before_terminate(rest_before) =~= Seq::<A>::empty());
                    assert(spec_has_terminate(rest_before));
                    assert(actions@ + spec_actions_before_terminate(rest_before) =~= actions@);
                }
                return (actions, true);
            },
            QueueEntry::Invoke(a) => {
                let ghost acts_before = actions@;
                actions.push(a);
                proof {
                    assert(actions@ + spec_actions_before_terminate(rest@) =~= acts_before + (
                    seq![a] + spec_actions_before_terminate(rest@)));
                }
            },
        }
    }
    proof {
        assert(actions@ + spec_actions_before_terminate(rest@) =~= actions@);
    }
    (actions, false)
}

/// The queue contents after enqueueing these actions, in this order, with
/// no terminate marker among them.
pub open spec fn spec_invokes<A>(actions: Seq<A>) -> Seq<QueueEntry<A>> {
    actions.map(|i: int, a: A| QueueEntry::Invoke(a))
}

/// Law: a drain of a queue that holds only enqueued actions runs them
/// all, in submission order, and signals no termination.
pub proof fn lemma_drain_runs_all_in_order<A>(actions: Seq<A>)
    ensures
        spec_actions_before_terminate(spec_invokes(actions)) == actions,
        !spec_has_terminate(spec_invokes(actions)),
    decreases actions.len(),
{
    if actions.len() == 0 {
        assert(spec_invokes(actions) =~= Seq::<QueueEntry<A>>::empty());
        assert(spec_actions_before_terminate(spec_invokes(actions)) =~= actions);
    } else {
        lemma_drain_runs_all_in_order(actions.drop_first());
        assert(spec_invokes(actions).drop_first() =~= spec_invokes(actions.drop_first()));
        assert(spec_actions_before_terminate(spec_invokes(actions)) =~= seq![actions[0]]
            + actions.drop_first());
        assert(seq![actions[0]] + actions.drop_first() =~= actions);
    }
}

/// Whether `t` is one interleaving of the N submission sequences `ps`,
/// one per producer: every producer's entries appear in `t`, in that
/// producer's own order, and nothing else does.
pub open spec fn spec_is_interleaving_n<A>(t: Seq<A>, ps: Seq<Seq<A>>) -> bool
    decreases t.len(),
{
    if t.len() == 0 {
        forall|p: int| 0 <= p < ps.len() ==> (#[trigger] ps[p]).len() == 0
    } else {
        exists|p: int|
            {
                &&& 0 <= p < ps.len()
                &&& (#[trigger] ps[p]).len() > 0
                &&& t[0] == ps[p][0]
                &&& spec_is_interleaving_n(t.drop_first(), ps.update(p, ps[p].drop_first()))
            }
    }
}

/// The subsequence of `t` owned by producer `p`, in `t`'s order, where
/// `owner` tells which producer submitted an entry.
pub open spec fn spec_owned_by_producer<A>(t: Seq<A>, owner: spec_fn(A) -> int, p: int) -> Seq<A>
    decreases t.len(),
{
    if t.len() == 0 {
        Seq::empty()
    } else if owner(t[0]) == p {
        seq![t[0]] + spec_owned_by_producer(t.drop_first(), owner, p)
    } else {
        spec_owned_by_producer(t.drop_first(), owner, p)
    }
}

/// Law: for all interleavings of enqueue calls from N independent
/// producers before a single drain, the drained order restricted to any
/// one producer is exactly that producer's own submission order.
pub proof fn lemma_interleaving_n_keeps_each_producer_order<A>(
    t: Seq<A>,
    ps: Seq<Seq<A>>,
    owner: spec_fn(A) -> int,
)
    requires
        spec_is_interleaving_n(t, ps),
        forall|p: int, i: int|
            0 <= p < ps.len() && 0 <= i < ps[p].len() ==> owner(#[trigger] ps[p][i]) == p,
    ensures
        forall|p: int| 0 <= p < ps.len() ==> spec_owned_by_producer(t, owner, p) == #[trigger] ps[p],
    decreases t.len(),
{
    if t.len() == 0 {
        assert forall|p: int| 0 <= p < ps.len() implies spec_owned_by_producer(t, owner, p)
            == #[trigger] ps[p] by {
            assert(spec_owned_by_producer(t, owner, p) =~= ps[p]);
        }
    } else {
        let p0 = choose|p: int|
            {
                &&& 0 <= p < ps.len()
                &&& (#[trigger] ps[p]).len() > 0
                &&& t[0] == ps[p][0]
                &&& spec_is_interleaving_n(t.drop_first(), ps.update(p, ps[p].drop_first()))
            };
        let rest_ps = ps.update(p0, ps[p0].drop_first());
        assert forall|p: int, i: int|
            0 <= p < rest_ps.len() && 0 <= i < rest_ps[p].len() implies owner(
            #[trigger] rest_ps[p][i],
        ) == p by {
            if p == p0 {
                assert(rest_ps[p][i] == ps[p0][i + 1]);
            } else {
                assert(rest_ps[p][i] == ps[p][i]);
            }
        }
        lemma_interleaving_n_keeps_each_producer_order(t.drop_first(), rest_ps, owner);
        assert(owner(t[0]) == p0);
        assert forall|p: int| 0 <= p < ps.len() implies spec_owned_by_producer(t, owner, p)
            == #[trigger] ps[p] by {
            if p == p0 {
                assert(spec_owned_by_producer(t.drop_first(), owner, p0) == rest_ps[p0]);
                assert(spec_owned_by_producer(t, owner, p0) =~= seq![ps[p0][0]]
                    + ps[p0].drop_first());
                assert(seq![ps[p0][0]] + ps[p0].drop_first() =~= ps[p0]);
            } else {
                assert(spec_owned_by_producer(t, owner, p) == spec_owned_by_producer(
                    t.drop_first(),
                    owner,
                    p,
                ));
                assert(spec_owned_by_producer(t.drop_first(), owner, p) == rest_ps[p]);
                assert(rest_ps[p] == ps[p]);
            }
        }
    }
}

} // verus!
