//! How a fork-join scope joins the futures spawned into it: what it does
//! for no, one or several futures, how the calling thread keeps going until
//! they are done, and how it gathers their outputs, one per future and in
//! the order they were spawned.

use vstd::prelude::*;

verus! {

/// How a scope waits for the futures spawned into it once its closure has
/// returned.
#[derive(Debug, Clone, Copy, PartialEq, Eq, Structural)]
pub enum JoinPlan {
    /// Nothing was spawned: the scope returns an empty vector at once.
    Nothing,
    /// One future was spawned: the calling thread waits on its task
    /// directly, helping the executors run while it waits.
    Single,
    /// Several futures were spawned: they are awaited one after another, in
    /// spawn order, by one combined future that the calling thread waits on,
    /// helping the executors run while it waits.
    InOrder,
}

/// The plan for a scope into which `spawned` futures were spawned.
pub open spec fn join_plan_spec(spawned: nat) -> JoinPlan {
    if spawned == 0 {
        JoinPlan::Nothing
    } else if spawned == 1 {
        JoinPlan::Single
    } else {
        JoinPlan::InOrder
    }
}

/// Chooses how to join a scope into which `spawned` futures were spawned.
pub fn join_plan(spawned: usize) -> (plan: JoinPlan)
    ensures
        plan == join_plan_spec(spawned as nat),
        (plan == JoinPlan::Nothing) <==> spawned == 0,
        (plan == JoinPlan::Single) <==> spawned == 1,
        (plan == JoinPlan::InOrder) <==> spawned >= 2,
{
    proof {
        lemma_join_plan_awaits_every_future(spawned as nat);
    }
    if spawned == 0 {
        JoinPlan::Nothing
    } else if spawned == 1 {
        JoinPlan::Single
    } else {
        JoinPlan::InOrder
    }
}

/// A scope awaits every future spawned into it: it skips the waiting only
/// when nothing was spawned, takes the single-task path only for exactly one
/// future, and awaits all of them in order whenever two or more were
/// spawned.
pub proof fn lemma_join_plan_awaits_every_future(spawned: nat)
    ensures
        (join_plan_spec(spawned) == JoinPlan::Nothing) <==> spawned == 0,
        (join_plan_spec(spawned) == JoinPlan::Single) <==> spawned == 1,
        (join_plan_spec(spawned) == JoinPlan::InOrder) <==> spawned >= 2,
{
}

/// What the calling thread does next while it waits for the futures of a
/// scope.
#[derive(Debug, PartialEq, Eq)]
pub enum DriveAction<R> {
    /// Polls what it waits on once.
    Poll,
    /// Runs one task of the pool's executor, if one is ready.
    TickPool,
    /// Runs one task of the calling thread's executor, if one is ready.
    TickLocal,
    /// Stops waiting, with the output.
    Finish(R),
}

/// What the calling thread saw of its last action.
#[derive(Debug, PartialEq, Eq)]
pub enum DriveEvent<R> {
    /// A poll, and the output if it was ready.
    Polled(Option<R>),
    /// A tick of the pool's executor.
    TickedPool,
    /// A tick of the calling thread's executor.
    TickedLocal,
}

/// The next action after `event`: stop with the output once a poll finds it
/// ready; otherwise tick the pool's executor, then the calling thread's
/// executor when the scope uses one (`uses_local`), then poll again.
pub open spec fn drive_step_spec<R>(uses_local: bool, event: DriveEvent<R>) -> DriveAction<R> {
    match event {
        DriveEvent::Polled(Some(r)) => DriveAction::Finish(r),
        DriveEvent::Polled(None) => DriveAction::TickPool,
        DriveEvent::TickedPool => if uses_local {
            DriveAction::TickLocal
        } else {
            DriveAction::Poll
        },
        DriveEvent::TickedLocal => DriveAction::Poll,
    }
}

/// Decides what the calling thread does after `event` while it waits for
/// the futures of a scope.
pub fn drive_step<R>(uses_local: bool, event: DriveEvent<R>) -> (action: DriveAction<R>)
    ensures
        action == drive_step_spec(uses_local, event),
{
    match event {
        DriveEvent::Polled(Some(r)) => DriveAction::Finish(r),
        DriveEvent::Polled(None) => DriveAction::TickPool,
        DriveEvent::TickedPool => if uses_local {
            DriveAction::TickLocal
        } else {
            DriveAction::Poll
        },
        DriveEvent::TickedLocal => DriveAction::Poll,
    }
}

/// The calling thread waits until the output is ready and no longer: it
/// stops exactly when a poll finds the output, with that output; and after
/// a poll that finds nothing it ticks the pool's executor, then the calling
/// thread's executor when one is used, and polls again, without stopping on
/// the way.
pub proof fn lemma_drive_waits_for_output<R>(uses_local: bool, event: DriveEvent<R>)
    ensures
        drive_step_spec(uses_local, event) is Finish <==> event matches DriveEvent::Polled(Some(
            _,
        )),
        event matches DriveEvent::Polled(Some(r)) ==> drive_step_spec(uses_local, event)
            == DriveAction::Finish(r),
        drive_step_spec(uses_local, DriveEvent::<R>::Polled(None)) == DriveAction::<R>::TickPool,
        uses_local ==> drive_step_spec(uses_local, DriveEvent::<R>::TickedPool)
            == DriveAction::<R>::TickLocal,
        uses_local ==> drive_step_spec(uses_local, DriveEvent::<R>::TickedLocal)
            == DriveAction::<R>::Poll,
        !uses_local ==> drive_step_spec(uses_local, DriveEvent::<R>::TickedPool)
            == DriveAction::<R>::Poll,
{
}

/// What recording one output does to a gathering state `(expected,
/// gathered)`: the output is appended while fewer than `expected` outputs
/// have been gathered, and dropped once all of them have.
pub open spec fn record_spec<R>(state: (nat, Seq<R>), value: R) -> (nat, Seq<R>) {
    if state.1.len() < state.0 {
        (state.0, state.1.push(value))
    } else {
        state
    }
}

/// Recording each of `values` in turn.
pub open spec fn record_all_spec<R>(state: (nat, Seq<R>), values: Seq<R>) -> (nat, Seq<R>)
    decreases values.len(),
{
    if values.len() == 0 {
        state
    } else {
        record_all_spec(record_spec(state, values.first()), values.drop_first())
    }
}

/// The outputs of the futures of one scope, gathered in the order in which
/// the futures were spawned.
pub struct ScopeResults<R> {
    expected: usize,
    results: Vec<R>,
}

impl<R> View for ScopeResults<R> {
    /// How many outputs the scope waits for, and those gathered so far.
    type V = (nat, Seq<R>);

    closed spec fn view(&self) -> (nat, Seq<R>) {
        (self.expected as nat, self.results@)
    }
}

impl<R> ScopeResults<R> {
    #[verifier::type_invariant]
    spec fn well_formed(self) -> bool {
        self.results.len() <= self.expected
    }

    /// Starts gathering the outputs of `expected` futures.
    pub fn new(expected: usize) -> (s: Self)
        ensures
            s@ == (expected as nat, Seq::<R>::empty()),
    {
        ScopeResults { expected, results: Vec::new() }
    }

    /// Whether the outputs of all the futures have been gathered.
    pub fn is_complete(&self) -> (done: bool)
        ensures
            done == (self@.1.len() == self@.0),
    {
        proof {
            use_type_invariant(self);
        }
        self.results.len() == self.expected
    }

    /// Records the output of the next future in spawn order; returns whether
    /// it was still awaited (an output beyond the expected number is
    /// dropped).
    pub fn record(&mut self, value: R) -> (accepted: bool)
        ensures
            accepted == (old(self)@.1.len() < old(self)@.0),
            final(self)@ == record_spec(old(self)@, value),
    {
        proof {
            use_type_invariant(&*self);
        }
        if self.results.len() < self.expected {
            let mut results: Vec<R> = Vec::new();
            std::mem::swap(&mut results, &mut self.results);
            results.push(value);
            self.results = results;
            true
        } else {
            false
        }
    }

    /// The gathered outputs, in spawn order, once all have been recorded;
    /// `None` while some are still awaited.
    pub fn into_results(self) -> (out: Option<Vec<R>>)
        ensures
            out is Some <==> self@.1.len() == self@.0,
            out matches Some(v) ==> v@ == self@.1,
    {
        proof {
            use_type_invariant(&self);
        }
        if self.results.len() == self.expected {
            Some(self.results)
        } else {
            None
        }
    }
}

/// A scope yields exactly the outputs of its futures, one per future and in
/// spawn order: recording the outputs `values` of the `values.len()`
/// spawned futures, from a fresh state, gathers exactly `values`; outputs
/// recorded beyond that are dropped.
pub proof fn lemma_results_in_spawn_order<R>(values: Seq<R>, extra: Seq<R>)
    ensures
        record_all_spec((values.len(), Seq::<R>::empty()), values) == (values.len(), values),
        record_all_spec((values.len(), Seq::<R>::empty()), values + extra) == (values.len(), values),
{
    lemma_record_prefix(values.len(), Seq::<R>::empty(), values);
    assert(Seq::<R>::empty() + values =~= values);
    lemma_record_all_concat((values.len(), Seq::<R>::empty()), values, extra);
    lemma_record_when_full(values.len(), values, extra);
}

/// Recording values that still fit appends them all.
proof fn lemma_record_prefix<R>(expected: nat, gathered: Seq<R>, values: Seq<R>)
    requires
        gathered.len() + values.len() <= expected,
    ensures
        record_all_spec((expected, gathered), values) == (expected, gathered + values),
    decreases values.len(),
{
    if values.len() == 0 {
        assert(gathered + values =~= gathered);
    } else {
        lemma_record_prefix(expected, gathered.push(values.first()), values.drop_first());
        assert(gathered.push(values.first()) + values.drop_first() =~= gathered + values);
    }
}

/// Recording two runs of values one after the other is recording their
/// concatenation.
proof fn lemma_record_all_concat<R>(state: (nat, Seq<R>), a: Seq<R>, b: Seq<R>)
    ensures
        record_all_spec(state, a + b) == record_all_spec(record_all_spec(state, a), b),
    decreases a.len(),
{
    if a.len() == 0 {
        assert(a + b =~= b);
    } else {
        lemma_record_all_concat(record_spec(state, a.first()), a.drop_first(), b);
        assert((a + b).drop_first() =~= a.drop_first() + b);
        assert((a + b).first() == a.first());
    }
}

/// Once all outputs are gathered, further ones change nothing.
proof fn lemma_record_when_full<R>(expected: nat, gathered: Seq<R>, values: Seq<R>)
    requires
        gathered.len() == expected,
    ensures
        record_all_spec((expected, gathered), values) == (expected, gathered),
    decreases values.len(),
{
    if values.len() > 0 {
        lemma_record_when_full(expected, gathered, values.drop_first());
    }
}

} // verus!
