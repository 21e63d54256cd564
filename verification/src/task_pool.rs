//! The task pool's description: how many worker threads it runs, their
//! stack size and their names.

use vstd::prelude::*;

use async_executor::Executor;
use async_executor::LocalExecutor;
use async_executor::Task;
use core::future::Future;

use crate::executor::spawn_on_local;
use crate::executor::spawn_on_pool;
use crate::naming::thread_name;
use crate::naming::thread_name_spec;

verus! {

/// Describes how a `TaskPool` should be created.
#[derive(Debug, Clone)]
pub struct TaskPoolDescriptor {
    /// Will set up the thread pool to use at most n threads. Default: 2.
    pub num_threads: usize,
    /// Will use the given stack size in KiB. Default: 2 MiB.
    pub stack_size: usize,
    /// Name of the threads. Threads will be names:
    /// <thread_name> (<thread_index>), i.e. "MyThreadPool (2)"
    /// Default: "Thread pool"
    pub thread_name: String,
}

impl Default for TaskPoolDescriptor {
    /// Two threads with 2 MiB (2048 KiB) of stack each, named
    /// "Thread pool (0)" and "Thread pool (1)".
    fn default() -> (d: Self)
        ensures
            d.num_threads == 2,
            d.stack_size == 2048,
            d.thread_name@ == "Thread pool"@,
    {
        Self { num_threads: 2, stack_size: 2048, thread_name: "Thread pool".to_owned() }
    }
}

impl TaskPoolDescriptor {
    /// The stack size of the worker threads in bytes (`stack_size` is in
    /// KiB), or `None` when that number of bytes does not fit in a `usize`.
    pub fn stack_size_in_bytes(&self) -> (bytes: Option<usize>)
        ensures
            self.stack_size * 1024 <= usize::MAX ==> bytes == Some((self.stack_size * 1024) as usize),
            self.stack_size * 1024 > usize::MAX ==> bytes is None,
    {
        self.stack_size.checked_mul(1024)
    }

    /// The name that the pool gives its worker thread `index`:
    /// `"{thread_name} ({index})"`.
    pub fn name_of_thread(&self, index: usize) -> (name: String)
        ensures
            name@ == thread_name_spec(self.thread_name@, index as nat),
    {
        thread_name(self.thread_name.as_str(), index)
    }

    /// The names of all the worker threads the pool spawns, in the order it
    /// spawns them: one per thread, `num_threads` in all.
    pub fn thread_names(&self) -> (names: Vec<String>)
        ensures
            names.len() == self.num_threads,
            forall|i: int|
                0 <= i < names.len() ==> #[trigger] names[i]@ == thread_name_spec(
                    self.thread_name@,
                    i as nat,
                ),
    {
        let mut names: Vec<String> = Vec::new();
        let mut i: usize = 0;
        while i < self.num_threads
            invariant
                i <= self.num_threads,
                names.len() == i,
                forall|k: int|
                    0 <= k < i ==> #[trigger] names[k]@ == thread_name_spec(
                        self.thread_name@,
                        k as nat,
                    ),
            decreases self.num_threads - i,
        {
            names.push(self.name_of_thread(i));
            i = i + 1;
        }
        names
    }
}

/// Scopes the execution of tasks.
#[derive(Debug)]
#[verifier::reject_recursive_types(T)]
pub struct Scope<'scope, T> {
    executor: &'scope Executor<'scope>,
    local_executor: &'scope LocalExecutor<'scope>,
    spawned: Vec<Task<T>>,
}

impl<'scope, T> View for Scope<'scope, T> {
    /// The tasks spawned into the scope so far, in spawn order.
    type V = Seq<Task<T>>;

    closed spec fn view(&self) -> Seq<Task<T>> {
        self.spawned@
    }
}

impl<'scope, T> Scope<'scope, T> {
    /// The pool's executor, which `spawn` hands futures to.
    pub closed spec fn pool(&self) -> Executor<'scope> {
        *self.executor
    }

    /// The calling thread's executor, which `spawn_local` hands futures to.
    pub closed spec fn local(&self) -> LocalExecutor<'scope> {
        *self.local_executor
    }
}

impl<'scope, T: Send + 'scope> Scope<'scope, T> {
    /// A scope that spawns onto the pool's `executor` and, for
    /// `spawn_local`, onto the calling thread's `local_executor`, with
    /// nothing spawned yet.
    pub fn new(
        executor: &'scope Executor<'scope>,
        local_executor: &'scope LocalExecutor<'scope>,
    ) -> (scope: Self)
        ensures
            scope@ == Seq::<Task<T>>::empty(),
            scope.pool() == *executor,
            scope.local() == *local_executor,
    {
        Scope { executor, local_executor, spawned: Vec::new() }
    }

    /// `spawn` is similar to the spawn function in Rust's standard library. The difference is that
    /// we spawn a future and it is scoped, meaning that it's guaranteed to terminate before the
    /// current stack frame goes away, allowing you to reference the parent stack frame directly.
    ///
    /// This is ensured by having the parent thread join on the child futures before the scope exits.
    /// The future goes to the pool's executor; the executors stay the same, the new task comes
    /// last and the tasks spawned before stay as they were. (A task handle is opaque here, so no
    /// clause can say which executor runs it.)
    pub fn spawn<Fut: Future<Output = T> + 'scope + Send>(&mut self, f: Fut)
        ensures
            final(self)@.len() == old(self)@.len() + 1,
            final(self)@.take(old(self)@.len() as int) == old(self)@,
            final(self).pool() == old(self).pool(),
            final(self).local() == old(self).local(),
    {
        let task = spawn_on_pool(self.executor, f);
        self.spawned.push(task);
    }

    /// Spawns a future on the thread-local executor. The executors stay the
    /// same, the new task comes last and the tasks spawned before stay as they
    /// were. (A task handle is opaque here, so no clause can say which
    /// executor runs it.)
    pub fn spawn_local<Fut: Future<Output = T> + 'scope>(&mut self, f: Fut)
        ensures
            final(self)@.len() == old(self)@.len() + 1,
            final(self)@.take(old(self)@.len() as int) == old(self)@,
            final(self).pool() == old(self).pool(),
            final(self).local() == old(self).local(),
    {
        let task = spawn_on_local(self.local_executor, f);
        self.spawned.push(task);
    }

    /// The tasks spawned into the scope, in spawn order, for the scope's
    /// owner to join.
    pub fn into_tasks(self) -> (tasks: Vec<Task<T>>)
        ensures
            tasks@ == self@,
    {
        self.spawned
    }
}

} // verus!
