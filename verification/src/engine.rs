//! The orchestration engine: which collectors, strategies and executors are
//! registered, the order in which their tasks start, and what a task does
//! after a failure.
//!
//! The engine does not look inside what is registered with it. A collector, a
//! strategy and an executor are values of the caller's choosing; the runtime
//! that drives them owns the two broadcast buses and the waiting.

use vstd::prelude::*;

verus! {

/// How many unread items a bus keeps for a subscriber before the oldest are
/// dropped.
pub const BUS_CAPACITY: usize = 512;

/// One unit of concurrent work that `Engine::run` hands out.
pub enum Task<C, S, X> {
    /// Pull events from a collector and publish them on the event bus.
    Collector(C),
    /// Synchronize the strategy, then turn events into actions.
    Strategy(S),
    /// Perform the actions that arrive on the action bus.
    Executor(X),
}

/// What went wrong in a task.
#[derive(Clone, Copy, Debug, PartialEq, Eq, Structural)]
pub enum Failure {
    /// A bus could not hand over or accept an item, or reported a gap after a
    /// subscriber fell behind.
    Transport,
    /// A call made for one event failed, such as a marketplace lookup.
    ExternalDependency,
    /// The strategy's mirror of chain state could not be built or patched.
    StateSync,
    /// An executor could not perform an action.
    Executor,
}

/// What a task does after a failure has been logged.
#[derive(Clone, Copy, Debug, PartialEq, Eq, Structural)]
pub enum Disposition {
    /// Drop the item at hand and wait for the next one.
    Continue,
    /// End the task: going on would mean deciding on state known to be stale.
    Stop,
}

/// A task ends on a state-synchronization failure and on nothing else.
pub fn disposition(failure: Failure) -> (d: Disposition)
    ensures
        (d == Disposition::Stop) <==> (failure == Failure::StateSync),
{
    match failure {
        Failure::StateSync => Disposition::Stop,
        Failure::Transport => Disposition::Continue,
        Failure::ExternalDependency => Disposition::Continue,
        Failure::Executor => Disposition::Continue,
    }
}

/// The registrations of one engine.
pub struct Engine<C, S, X> {
    collectors: Vec<C>,
    strategies: Vec<S>,
    executors: Vec<X>,
}

/// One executor task for each of `executors`, in their order.
pub open spec fn executor_tasks<C, S, X>(executors: Seq<X>) -> Seq<Task<C, S, X>> {
    Seq::new(executors.len(), |i: int| Task::Executor(executors[i]))
}

/// One strategy task for each of `strategies`, in their order.
pub open spec fn strategy_tasks<C, S, X>(strategies: Seq<S>) -> Seq<Task<C, S, X>> {
    Seq::new(strategies.len(), |i: int| Task::Strategy(strategies[i]))
}

/// One collector task for each of `collectors`, in their order.
pub open spec fn collector_tasks<C, S, X>(collectors: Seq<C>) -> Seq<Task<C, S, X>> {
    Seq::new(collectors.len(), |i: int| Task::Collector(collectors[i]))
}

/// The tasks of `executors`, then of `strategies`, then of `collectors`, each
/// group in the order of registration.
pub open spec fn start_order<C, S, X>(
    collectors: Seq<C>,
    strategies: Seq<S>,
    executors: Seq<X>,
) -> Seq<Task<C, S, X>> {
    executor_tasks(executors) + strategy_tasks(strategies) + collector_tasks(collectors)
}

impl<C, S, X> Engine<C, S, X> {
    /// The collectors in the order of registration.
    pub closed spec fn collectors(&self) -> Seq<C> {
        self.collectors@
    }

    /// The strategies in the order of registration.
    pub closed spec fn strategies(&self) -> Seq<S> {
        self.strategies@
    }

    /// The executors in the order of registration.
    pub closed spec fn executors(&self) -> Seq<X> {
        self.executors@
    }

    /// An engine with nothing registered.
    pub fn new() -> (engine: Self)
        ensures
            engine.collectors() == Seq::<C>::empty(),
            engine.strategies() == Seq::<S>::empty(),
            engine.executors() == Seq::<X>::empty(),
    {
        Engine { collectors: Vec::new(), strategies: Vec::new(), executors: Vec::new() }
    }

    /// Adds a collector to be used by the engine.
    pub fn add_collector(&mut self, collector: C)
        ensures
            final(self).collectors() == old(self).collectors().push(collector),
            final(self).strategies() == old(self).strategies(),
            final(self).executors() == old(self).executors(),
    {
        self.collectors.push(collector);
    }

    /// Adds a strategy to be used by the engine.
    pub fn add_strategy(&mut self, strategy: S)
        ensures
            final(self).collectors() == old(self).collectors(),
            final(self).strategies() == old(self).strategies().push(strategy),
            final(self).executors() == old(self).executors(),
    {
        self.strategies.push(strategy);
    }

    /// Adds an executor to be used by the engine.
    pub fn add_executor(&mut self, executor: X)
        ensures
            final(self).collectors() == old(self).collectors(),
            final(self).strategies() == old(self).strategies(),
            final(self).executors() == old(self).executors().push(executor),
    {
        self.executors.push(executor);
    }

    /// Gives up the registrations as the list of tasks to start, in starting
    /// order. Executors come first and collectors last, so that every
    /// subscriber of a bus exists before anything is published on it.
    pub fn run(self) -> (tasks: Vec<Task<C, S, X>>)
        ensures
            tasks@ == start_order(self.collectors(), self.strategies(), self.executors()),
    {
        let ghost collectors = self.collectors@;
        let ghost strategies = self.strategies@;
        let ghost executors = self.executors@;
        let Engine { collectors: cs, strategies: ss, executors: xs } = self;
        let mut tasks: Vec<Task<C, S, X>> = Vec::new();
        for x in it: xs
            invariant
                it.seq() == executors,
                tasks@ == executor_tasks::<C, S, X>(executors.take(it.index() as int)),
        {
            tasks.push(Task::Executor(x));
        }
        assert(executors.take(executors.len() as int) == executors);
        for s in it: ss
            invariant
                it.seq() == strategies,
                tasks@ == executor_tasks::<C, S, X>(executors) + strategy_tasks::<C, S, X>(
                    strategies.take(it.index() as int),
                ),
        {
            tasks.push(Task::Strategy(s));
        }
        assert(strategies.take(strategies.len() as int) == strategies);
        for c in it: cs
            invariant
                it.seq() == collectors,
                tasks@ == executor_tasks::<C, S, X>(executors) + strategy_tasks::<C, S, X>(strategies)
                    + collector_tasks::<C, S, X>(collectors.take(it.index() as int)),
        {
            tasks.push(Task::Collector(c));
        }
        assert(collectors.take(collectors.len() as int) == collectors);
        tasks
    }
}

impl<C, S, X> Default for Engine<C, S, X> {
    fn default() -> (engine: Self)
        ensures
            engine.collectors() == Seq::<C>::empty(),
            engine.strategies() == Seq::<S>::empty(),
            engine.executors() == Seq::<X>::empty(),
    {
        Engine::new()
    }
}

} // verus!
