//! Verified core of a thread pool that runs async futures: how the pool is
//! described and its threads are named, how a slice is cut into the chunks
//! that parallel maps hand out, and how a fork-join scope gathers the
//! results of the futures spawned into it.

pub mod executor;
pub mod naming;
pub mod scope;
pub mod slice;
pub mod task_pool;

pub use task_pool::TaskPoolDescriptor;

use vstd::prelude::*;

use async_executor::Executor;
use async_executor::Task;
use core::future::Future;

use crate::executor::spawn_on_pool;
use crate::naming::thread_name;
use crate::naming::thread_name_spec;

verus! {

/// Describes how a `ThreadPool` should be created.
#[derive(Debug, Clone)]
pub struct ThreadPoolDescriptor {
    /// Spawns at most n threads for the thread pool. Default: 2.
    pub num_threads: usize,
    /// The stack size of the spawned threads. Default: 2 MiB.
    pub stack_size: usize,
    /// Name of the threads. Threads will be named:
    /// {thread_name} ({thread index}), i.e. "Thread pool (0)"
    /// Default: "Thread pool"
    pub thread_name: String,
}

impl Default for ThreadPoolDescriptor {
    /// Two threads of 2 MiB stack each, named "Thread pool (0)" and
    /// "Thread pool (1)".
    fn default() -> (d: Self)
        ensures
            d.num_threads == 2,
            d.stack_size == 2 * 1024 * 1024,
            d.thread_name@ == "Thread pool"@,
    {
        Self { num_threads: 2, stack_size: 2 * 1024 * 1024, thread_name: "Thread pool".to_owned() }
    }
}

impl ThreadPoolDescriptor {
    /// The name that the pool gives its worker thread `index`:
    /// `"{thread_name} ({index})"`.
    pub fn name_of_thread(&self, index: usize) -> (name: String)
        ensures
            name@ == thread_name_spec(self.thread_name@, index as nat),
    {
        thread_name(self.thread_name.as_str(), index)
    }

    /// The names of all the worker threads the pool spawns, in the order it
    /// spawns them: one per thread, `num_threads` in all.
    pub fn thread_names(&self) -> (names: Vec<String>)
        ensures
            names.len() == self.num_threads,
            forall|i: int|
                0 <= i < names.len() ==> #[trigger] names[i]@ == thread_name_spec(
                    self.thread_name@,
                    i as nat,
                ),
    {
        let mut names: Vec<String> = Vec::new();
        let mut i: usize = 0;
        while i < self.num_threads
            invariant
                i <= self.num_threads,
                names.len() == i,
                forall|k: int|
                    0 <= k < i ==> #[trigger] names[k]@ == thread_name_spec(
                        self.thread_name@,
                        k as nat,
                    ),
            decreases self.num_threads - i,
        {
            names.push(self.name_of_thread(i));
            i = i + 1;
        }
        names
    }
}

/// Scopes the execution of futures.
#[derive(Debug)]
#[verifier::reject_recursive_types(R)]
pub struct Scope<'scope, R> {
    executor: &'scope Executor<'scope>,
    spawned_tasks: Vec<Task<R>>,
}

impl<'scope, R> View for Scope<'scope, R> {
    /// The tasks spawned into the scope so far, in spawn order.
    type V = Seq<Task<R>>;

    closed spec fn view(&self) -> Seq<Task<R>> {
        self.spawned_tasks@
    }
}

impl<'scope, R> Scope<'scope, R> {
    /// The executor the scope spawns its futures onto.
    pub closed spec fn pool(&self) -> Executor<'scope> {
        *self.executor
    }
}

impl<'scope, T: Send + 'scope> Scope<'scope, T> {
    /// A scope that spawns its futures onto `executor`, with nothing spawned
    /// yet.
    pub fn new(executor: &'scope Executor<'scope>) -> (scope: Self)
        ensures
            scope@ == Seq::<Task<T>>::empty(),
            scope.pool() == *executor,
    {
        Scope { executor, spawned_tasks: Vec::new() }
    }

    /// `spawn` is similar to the spawn function in Rust's standard library. The difference is that
    /// we spawn a future and it is scoped, meaning that it's guaranteed to terminate before the
    /// current stack frame goes away, allowing you to reference the parent stack frame directly.
    ///
    /// This is ensured by having the parent thread join on the child futures before the scope exits.
    /// The future goes to the scope's executor (`pool`), which stays the same; the new task comes
    /// last and the tasks spawned before stay as they were. (A task handle is opaque here, so no
    /// clause can say which executor runs it.)
    pub fn spawn<Fut: Future<Output = T> + 'scope + Send>(&mut self, f: Fut)
        ensures
            final(self)@.len() == old(self)@.len() + 1,
            final(self)@.take(old(self)@.len() as int) == old(self)@,
            final(self).pool() == old(self).pool(),
    {
        let task = spawn_on_pool(self.executor, f);
        self.spawned_tasks.push(task);
    }

    /// The tasks spawned into the scope, in spawn order, for the scope's
    /// owner to join.
    pub fn into_tasks(self) -> (tasks: Vec<Task<T>>)
        ensures
            tasks@ == self@,
    {
        self.spawned_tasks
    }
}

} // verus!
