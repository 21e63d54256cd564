use async_executor::Executor;
use async_executor::LocalExecutor;
use entangled::scope::ScopeResults;

#[test]
fn pool_scope_collects_outputs_in_spawn_order() {
    let ex: &'static Executor<'static> = Box::leak(Box::new(Executor::new()));
    let mut scope = entangled::Scope::new(ex);
    for i in 0..10u32 {
        scope.spawn(async move { i * 2 });
    }
    let tasks = scope.into_tasks();
    assert_eq!(tasks.len(), 10);
    let outputs = futures_lite::future::block_on(ex.run(async {
        let mut results = ScopeResults::new(tasks.len());
        for task in tasks {
            assert!(results.record(task.await));
        }
        results.into_results()
    }));
    assert_eq!(outputs, Some((0..10u32).map(|i| i * 2).collect::<Vec<u32>>()));
}

#[test]
fn task_pool_scope_mixes_local_and_pool_tasks() {
    let ex: &'static Executor<'static> = Box::leak(Box::new(Executor::new()));
    let local: &'static LocalExecutor<'static> = Box::leak(Box::new(LocalExecutor::new()));
    let foobar: &'static i32 = Box::leak(Box::new(42));
    let mut scope = entangled::task_pool::Scope::new(ex, local);
    for i in 0..100 {
        if i % 2 == 0 {
            scope.spawn(async move { *foobar });
        } else {
            scope.spawn_local(async move { *foobar + 1 });
        }
    }
    let tasks = scope.into_tasks();
    assert_eq!(tasks.len(), 100);
    let outputs: Vec<i32> = futures_lite::future::block_on(local.run(ex.run(async {
        let mut results = Vec::new();
        for task in tasks {
            results.push(task.await);
        }
        results
    })));
    for (i, output) in outputs.iter().enumerate() {
        assert_eq!(*output, if i % 2 == 0 { 42 } else { 43 });
    }
}

#[test]
fn empty_scope_spawns_nothing() {
    let ex: &'static Executor<'static> = Box::leak(Box::new(Executor::new()));
    let scope: entangled::Scope<'_, u8> = entangled::Scope::new(ex);
    assert!(scope.into_tasks().is_empty());
}
