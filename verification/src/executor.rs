//! The outside executor types that scopes hand their futures to, and the
//! calls that hand them over.

use vstd::prelude::*;

use async_executor::Executor;
use async_executor::LocalExecutor;
use async_executor::Task;
use core::future::Future;

verus! {

/// `async_executor::Executor`: the pool's multi-threaded executor.
#[verifier::external_type_specification]
#[verifier::external_body]
pub struct ExExecutor<'a>(Executor<'a>);

/// `async_executor::LocalExecutor`: the executor of the calling thread.
#[verifier::external_type_specification]
#[verifier::external_body]
pub struct ExLocalExecutor<'a>(LocalExecutor<'a>);

/// `async_executor::Task`: a handle to a spawned future and its output.
#[verifier::external_type_specification]
#[verifier::external_body]
#[verifier::reject_recursive_types(T)]
#[verifier::reject_recursive_types(M)]
pub struct ExTask<T, M>(Task<T, M>);

/// Spawns `future` onto the pool's executor (`Executor::spawn`). Nothing is
/// claimed of the returned task handle.
#[verifier::external_body]
pub(crate) fn spawn_on_pool<'a, T: Send + 'a, Fut: Future<Output = T> + Send + 'a>(
    executor: &Executor<'a>,
    future: Fut,
) -> Task<T> {
    executor.spawn(future)
}

/// Spawns `future` onto the calling thread's executor
/// (`LocalExecutor::spawn`). Nothing is claimed of the returned task handle.
#[verifier::external_body]
pub(crate) fn spawn_on_local<'a, T: 'a, Fut: Future<Output = T> + 'a>(
    executor: &LocalExecutor<'a>,
    future: Fut,
) -> Task<T> {
    executor.spawn(future)
}

} // verus!
