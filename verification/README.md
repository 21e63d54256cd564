# entangled

A thread pool that runs async futures on the `async-executor` crate, with
"scoped spawn": futures spawned from the calling thread may borrow its stack,
and the scope joins them before it returns.

- `src/` is the verified library (Verus):
  - `lib.rs`, `task_pool.rs`: the pool descriptors (defaults, thread names,
    the task pool's stack size in KiB and in bytes)
    and the scopes that futures are spawned into;
  - `naming.rs`: thread names `"{name} ({index})"` with a verified decimal
    writer, and the proof that distinct threads get distinct names;
  - `slice.rs`: cutting a slice into the chunks of the parallel maps, the
    chunk size of the "splat" maps, and their laws;
  - `scope.rs`: how a scope joins its futures, how the calling thread keeps
    polling and ticking the executors until they are done, and how it
    gathers their outputs in spawn order;
  - `executor.rs`: the `async-executor` types and calls the scopes use.
- `app/` holds the pools themselves (`ThreadPool`, `TaskPool`), which own
  threads, channels and executors and drive futures, and the
  `ParallelSlice` / `ParallelSliceMut` traits built on them.
- `tests/` exercises the library.
