//! The executor: an ordered set of pending tasks and the sweep that steps
//! each of them once. A task is any value that a step function can advance;
//! a step hands the task back while it is pending and hands out its output
//! once it has finished, so a finished task is gone and is never stepped
//! again. Sweeps are driven by the caller, as often as it likes.
use crate::runtime::waker::{create_raw_waker, Waker, TOKEN_MARKER};
use vstd::prelude::*;

verus! {

/// What one step of a task gives: the task again while it is pending, or its
/// output once it has finished.
pub enum Step<T, O> {
    Pending(T),
    Ready(O),
}

/// The tasks that a sweep with these step outcomes keeps, in order.
pub open spec fn still_pending<T, O>(outs: Seq<Step<T, O>>) -> Seq<T>
    decreases outs.len(),
{
    if outs.len() == 0 {
        Seq::empty()
    } else {
        let front = still_pending(outs.drop_last());
        match outs.last() {
            Step::Pending(t) => front.push(t),
            Step::Ready(_) => front,
        }
    }
}

/// The outputs that a sweep with these step outcomes hands out, in order.
pub open spec fn finished<T, O>(outs: Seq<Step<T, O>>) -> Seq<O>
    decreases outs.len(),
{
    if outs.len() == 0 {
        Seq::empty()
    } else {
        let front = finished(outs.drop_last());
        match outs.last() {
            Step::Pending(_) => front,
            Step::Ready(o) => front.push(o),
        }
    }
}

/// Whether `outs` are outcomes that `step` may give, one for each of `tasks`
/// in order.
pub open spec fn stepped_each<T, O, F: Fn(T) -> Step<T, O>>(
    step: F,
    tasks: Seq<T>,
    outs: Seq<Step<T, O>>,
) -> bool {
    &&& outs.len() == tasks.len()
    &&& forall|i: int| 0 <= i < tasks.len() ==> call_ensures(step, (tasks[i],), #[trigger] outs[i])
}

/// A sweep loses no task and duplicates none: the tasks it keeps and the
/// outputs it hands out together number the tasks it stepped.
pub proof fn lemma_sweep_accounts_for_all<T, O>(outs: Seq<Step<T, O>>)
    ensures
        still_pending(outs).len() + finished(outs).len() == outs.len(),
    decreases outs.len(),
{
    if outs.len() > 0 {
        lemma_sweep_accounts_for_all(outs.drop_last());
    }
}

/// When every task is ready at its step, a sweep leaves nothing pending and
/// hands out each task's output exactly once, in spawn order.
pub proof fn lemma_sweep_all_ready<T, O>(outs: Seq<Step<T, O>>)
    requires
        forall|i: int| 0 <= i < outs.len() ==> #[trigger] outs[i] is Ready,
    ensures
        still_pending(outs) == Seq::<T>::empty(),
        finished(outs) == outs.map_values(|s: Step<T, O>| s->Ready_0),
    decreases outs.len(),
{
    if outs.len() > 0 {
        let front = outs.drop_last();
        assert forall|i: int| 0 <= i < front.len() implies #[trigger] front[i] is Ready by {
            assert(front[i] == outs[i]);
        }
        lemma_sweep_all_ready(front);
        assert(outs.last() is Ready);
        assert(finished(outs) =~= outs.map_values(|s: Step<T, O>| s->Ready_0));
    }
}

/// When every task is pending at its step, a sweep hands out nothing and
/// keeps every task, in spawn order.
pub proof fn lemma_sweep_none_ready<T, O>(outs: Seq<Step<T, O>>)
    requires
        forall|i: int| 0 <= i < outs.len() ==> #[trigger] outs[i] is Pending,
    ensures
        finished(outs) == Seq::<O>::empty(),
        still_pending(outs) == outs.map_values(|s: Step<T, O>| s->Pending_0),
    decreases outs.len(),
{
    if outs.len() > 0 {
        let front = outs.drop_last();
        assert forall|i: int| 0 <= i < front.len() implies #[trigger] front[i] is Pending by {
            assert(front[i] == outs[i]);
        }
        lemma_sweep_none_ready(front);
        assert(outs.last() is Pending);
        assert(still_pending(outs) =~= outs.map_values(|s: Step<T, O>| s->Pending_0));
    }
}

/// Every task that a sweep keeps is one that some step handed back.
pub proof fn lemma_kept_came_from_steps<T, O>(outs: Seq<Step<T, O>>)
    ensures
        forall|j: int|
            0 <= j < still_pending(outs).len() ==> exists|i: int|
                0 <= i < outs.len() && outs[i] == Step::<T, O>::Pending(
                    #[trigger] still_pending(outs)[j],
                ),
    decreases outs.len(),
{
    if outs.len() > 0 {
        let front = outs.drop_last();
        lemma_kept_came_from_steps(front);
        assert forall|j: int| 0 <= j < still_pending(outs).len() implies exists|i: int|
            0 <= i < outs.len() && outs[i] == Step::<T, O>::Pending(
                #[trigger] still_pending(outs)[j],
            ) by {
            if j < still_pending(front).len() {
                let i = choose|i: int|
                    0 <= i < front.len() && front[i] == Step::<T, O>::Pending(
                        still_pending(front)[j],
                    );
                assert(outs[i] == front[i]);
            } else {
                assert(outs[outs.len() - 1] == outs.last());
            }
        }
    }
}

/// Sweeps make progress. Measure the work a task has left by `work`, and let
/// every step that hands a task back hand back one with less work left. Then
/// after a sweep over tasks with at most `k` left each, every task kept has
/// less than `k` left; where `k` is zero nothing is kept. So tasks that each
/// finish within `k + 1` steps are all finished, each output handed out once,
/// after `k + 1` sweeps.
pub proof fn lemma_sweep_progress<T, O, F: Fn(T) -> Step<T, O>>(
    step: F,
    tasks: Seq<T>,
    outs: Seq<Step<T, O>>,
    work: spec_fn(T) -> nat,
    k: nat,
)
    requires
        stepped_each(step, tasks, outs),
        forall|i: int| 0 <= i < tasks.len() ==> work(#[trigger] tasks[i]) <= k,
        forall|t: T, r: Step<T, O>|
            call_ensures(step, (t,), r) && r is Pending ==> work(r->Pending_0) < work(t),
    ensures
        forall|j: int| 0 <= j < still_pending(outs).len() ==> work(#[trigger] still_pending(outs)[j]) < k,
        k == 0 ==> still_pending(outs).len() == 0,
{
    lemma_kept_came_from_steps(outs);
    assert forall|j: int| 0 <= j < still_pending(outs).len() implies work(
        #[trigger] still_pending(outs)[j],
    ) < k by {
        let i = choose|i: int|
            0 <= i < outs.len() && outs[i] == Step::<T, O>::Pending(still_pending(outs)[j]);
        assert(call_ensures(step, (tasks[i],), outs[i]));
        assert(work(tasks[i]) <= k);
    }
    if k == 0 && still_pending(outs).len() > 0 {
        assert(work(still_pending(outs)[0]) < 0);
    }
}

/// The set of tasks not finished yet, in the order they were spawned.
pub struct Executor<T> {
    pub polling: Vec<T>,
}

impl<T> Executor<T> {
    /// An executor with nothing pending.
    pub fn new() -> (r: Self)
        ensures
            r.polling@ == Seq::<T>::empty(),
    {
        Executor { polling: Vec::new() }
    }

    /// Adds `task` after every pending one. Nothing is stepped until the next
    /// sweep.
    pub fn spawn(&mut self, task: T)
        ensures
            final(self).polling@ == old(self).polling@.push(task),
    {
        self.polling.push(task);
    }

    /// How many tasks are pending.
    pub fn len(&self) -> (r: usize)
        ensures
            r == self.polling@.len(),
    {
        self.polling.len()
    }

    /// Whether nothing is pending.
    pub fn is_empty(&self) -> (r: bool)
        ensures
            r == (self.polling@.len() == 0),
    {
        self.polling.len() == 0
    }

    /// A notification handle to pass to the steps. Signalling it schedules
    /// nothing: every sweep steps every pending task anyway.
    pub fn create_waker(&self) -> (w: Waker)
        ensures
            w.marker() == TOKEN_MARKER,
    {
        Waker::from_raw(create_raw_waker())
    }

    /// One sweep: steps every pending task once, in spawn order. Tasks that
    /// finish are dropped and their outputs returned in that order; the others
    /// stay pending, in the same order.
    pub fn poll<O, F: Fn(T) -> Step<T, O>>(&mut self, step: &F) -> (done: Vec<O>)
        requires
            forall|t: T| call_requires(*step, (t,)),
        ensures
            exists|outs: Seq<Step<T, O>>|
                {
                    &&& stepped_each(*step, old(self).polling@, outs)
                    &&& final(self).polling@ == still_pending(outs)
                    &&& done@ == finished(outs)
                },
    {
        let tasks = self.polling.split_off(0);
        let ghost old_tasks = tasks@;
        let ghost mut outs: Seq<Step<T, O>> = Seq::empty();
        let mut done: Vec<O> = Vec::new();
        for task in it: tasks
            invariant
                it.seq() == old_tasks,
                outs.len() == it.index(),
                forall|i: int| 0 <= i < outs.len() ==> call_ensures(*step, (old_tasks[i],), #[trigger] outs[i]),
                self.polling@ == still_pending(outs),
                done@ == finished(outs),
                forall|t: T| call_requires(*step, (t,)),
        {
            let r = step(task);
            proof {
                let prev = outs;
                outs = outs.push(r);
                assert(outs.drop_last() == prev);
            }
            match r {
                Step::Pending(t) => self.polling.push(t),
                Step::Ready(o) => done.push(o),
            }
        }
        assert(stepped_each(*step, old(self).polling@, outs));
        done
    }
}

} // verus!
