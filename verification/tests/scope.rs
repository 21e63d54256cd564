use entangled::scope::drive_step;
use entangled::scope::join_plan;
use entangled::scope::DriveAction;
use entangled::scope::DriveEvent;
use entangled::scope::JoinPlan;
use entangled::scope::ScopeResults;

#[test]
fn plan_for_each_count() {
    assert_eq!(join_plan(0), JoinPlan::Nothing);
    assert_eq!(join_plan(1), JoinPlan::Single);
    assert_eq!(join_plan(2), JoinPlan::InOrder);
    assert_eq!(join_plan(100), JoinPlan::InOrder);
}

#[test]
fn results_keep_spawn_order() {
    let mut results = ScopeResults::new(100);
    for i in 0..100 {
        assert!(!results.is_complete());
        assert!(results.record(i * 3));
    }
    assert!(results.is_complete());
    let out = results.into_results().unwrap();
    assert_eq!(out.len(), 100);
    for (i, v) in out.iter().enumerate() {
        assert_eq!(*v, i * 3);
    }
}

#[test]
fn empty_scope_returns_empty_vec() {
    let results: ScopeResults<i32> = ScopeResults::new(0);
    assert!(results.is_complete());
    assert_eq!(results.into_results(), Some(Vec::new()));
}

#[test]
fn outputs_beyond_expected_are_dropped() {
    let mut results = ScopeResults::new(1);
    assert!(results.record(42));
    assert!(!results.record(7));
    assert_eq!(results.into_results(), Some(vec![42]));
}

#[test]
fn incomplete_results_are_withheld() {
    let mut results = ScopeResults::new(3);
    results.record(1);
    assert_eq!(results.into_results(), None);
}

#[test]
fn drive_finishes_only_on_ready_output() {
    assert_eq!(drive_step(true, DriveEvent::Polled(Some(5))), DriveAction::Finish(5));
    assert_eq!(drive_step(false, DriveEvent::Polled(Some(5))), DriveAction::Finish(5));
    assert_eq!(drive_step::<u8>(true, DriveEvent::Polled(None)), DriveAction::TickPool);
}

#[test]
fn drive_ticks_then_polls_again() {
    assert_eq!(drive_step::<u8>(true, DriveEvent::TickedPool), DriveAction::TickLocal);
    assert_eq!(drive_step::<u8>(true, DriveEvent::TickedLocal), DriveAction::Poll);
    assert_eq!(drive_step::<u8>(false, DriveEvent::TickedPool), DriveAction::Poll);
}
