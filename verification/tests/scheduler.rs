use feed_scheduler::scheduler::{ApplyOutcome, Command, Operation, Registry, Runner, RunnerAction};

fn cmd(op: Operation, id: usize, frequency: u64) -> Command {
    Command { op, id, frequency }
}

fn assert_ids_unique(r: &Registry) {
    for i in 0..r.jobs.len() {
        for j in 0..r.jobs.len() {
            if i != j {
                assert_ne!(r.jobs[i].id, r.jobs[j].id);
            }
        }
    }
}

#[test]
fn new_registry_is_empty() {
    let r = Registry::new();
    assert_eq!(r.jobs.len(), 0);
}

#[test]
fn create_starts_one_runner() {
    let mut r = Registry::new();
    let o = r.apply(cmd(Operation::Create, 1, 10));
    assert!(matches!(o, ApplyOutcome::Started));
    assert_eq!(r.jobs.len(), 1);
    assert_eq!(r.jobs[0].id, 1);
    assert_eq!(r.jobs[0].frequency, 10);
    assert!(!r.jobs[0].stopping);
    assert_eq!(r.jobs[0].invocations, 0);
}

#[test]
fn single_runner_across_any_lifecycle() {
    let mut r = Registry::new();
    let script = [
        cmd(Operation::Create, 4, 2),
        cmd(Operation::Create, 4, 3),
        cmd(Operation::Update, 4, 7),
        cmd(Operation::Delete, 4, 1),
        cmd(Operation::Delete, 4, 1),
        cmd(Operation::Create, 4, 5),
        cmd(Operation::Update, 4, 6),
    ];
    for c in script {
        r.apply(c);
        assert_ids_unique(&r);
        assert!(r.jobs.iter().filter(|j| j.id == 4).count() <= 1);
    }
}

#[test]
fn duplicate_create_replaces_never_leaks() {
    let mut r = Registry::new();
    r.apply(cmd(Operation::Create, 2, 3));
    let o = r.apply(cmd(Operation::Create, 2, 8));
    match o {
        ApplyOutcome::Replaced { retired } => {
            assert!(retired.stopping);
            assert_eq!(retired.id, 2);
            assert_eq!(retired.frequency, 3);
        }
        _ => panic!("a duplicate create must replace the old runner"),
    }
    assert_eq!(r.jobs.len(), 1);
    assert_eq!(r.jobs[0].frequency, 8);
}

#[test]
fn update_replaces_with_new_interval() {
    let mut r = Registry::new();
    r.apply(cmd(Operation::Create, 3, 1));
    let o = r.apply(cmd(Operation::Update, 3, 5));
    match o {
        ApplyOutcome::Replaced { retired } => {
            assert!(retired.stopping);
            assert_eq!(retired.frequency, 1);
        }
        _ => panic!("update of a live feed must replace its runner"),
    }
    assert_eq!(r.jobs.len(), 1);
    assert_eq!(r.jobs[0].frequency, 5);
    assert_eq!(r.jobs[0].invocations, 0);
}

#[test]
fn update_unknown_is_noop() {
    let mut r = Registry::new();
    r.apply(cmd(Operation::Create, 1, 10));
    let o = r.apply(cmd(Operation::Update, 9, 4));
    assert!(matches!(o, ApplyOutcome::Miss));
    assert_eq!(r.jobs.len(), 1);
    assert_eq!(r.jobs[0].id, 1);
    assert_eq!(r.jobs[0].frequency, 10);
}

#[test]
fn update_unknown_on_empty_is_noop() {
    let mut r = Registry::new();
    let o = r.apply(cmd(Operation::Update, 9, 4));
    assert!(matches!(o, ApplyOutcome::Miss));
    assert_eq!(r.jobs.len(), 0);
}

#[test]
fn delete_unknown_is_noop() {
    let mut r = Registry::new();
    r.apply(cmd(Operation::Create, 1, 10));
    let o = r.apply(cmd(Operation::Delete, 9, 1));
    assert!(matches!(o, ApplyOutcome::Miss));
    assert_eq!(r.jobs.len(), 1);
    let o2 = r.apply(cmd(Operation::Delete, 9, 1));
    assert!(matches!(o2, ApplyOutcome::Miss));
}

#[test]
fn delete_stops_and_removes() {
    let mut r = Registry::new();
    r.apply(cmd(Operation::Create, 6, 2));
    let o = r.apply(cmd(Operation::Delete, 6, 1));
    match o {
        ApplyOutcome::Removed { retired } => {
            assert!(retired.stopping);
            assert_eq!(retired.id, 6);
            assert_eq!(retired.next_step(), RunnerAction::Exit);
        }
        _ => panic!("delete of a live feed must remove its runner"),
    }
    assert_eq!(r.jobs.len(), 0);
}

#[test]
fn apply_all_respects_arrival_order() {
    let mut r = Registry::new();
    let script = vec![
        cmd(Operation::Create, 1, 10),
        cmd(Operation::Create, 2, 20),
        cmd(Operation::Update, 1, 30),
        cmd(Operation::Delete, 2, 1),
        cmd(Operation::Update, 5, 40),
    ];
    r.apply_all(&script);
    assert_ids_unique(&r);
    assert_eq!(r.jobs.len(), 1);
    assert_eq!(r.jobs[0].id, 1);
    assert_eq!(r.jobs[0].frequency, 30);
    assert!(r.is_active(1));
    assert!(!r.is_active(2));
    assert!(!r.is_active(5));
}

#[test]
fn first_step_is_invoke_not_wait() {
    // A job on a 10-second interval must run at once, not at t = 10.
    let r = Runner::new(1, 10);
    assert_eq!(r.next_step(), RunnerAction::Invoke);
    assert_eq!(r.invocations, 0);
}

#[test]
fn stop_is_final() {
    let mut r = Runner::new(5, 1);
    r.record_invocation(true);
    r.signal_stop();
    assert!(r.stopping);
    assert_eq!(r.next_step(), RunnerAction::Exit);
    // Stopping records nothing by itself.
    assert_eq!(r.invocations, 1);
}

#[test]
fn failures_do_not_break_cadence() {
    let mut r = Runner::new(2, 1);
    for _ in 0..5 {
        assert_eq!(r.next_step(), RunnerAction::Invoke);
        r.record_invocation(false);
    }
    assert_eq!(r.invocations, 5);
    assert_eq!(r.next_step(), RunnerAction::Invoke);
}

#[test]
fn invocations_count_to_the_top() {
    let mut r = Runner { id: 1, frequency: 1, stopping: false, invocations: u64::MAX - 1 };
    r.record_invocation(true);
    assert_eq!(r.invocations, u64::MAX);
    assert_eq!(r.next_step(), RunnerAction::Invoke);
}

#[test]
fn end_to_end_lifecycle_model() {
    // Register feed A, watch it run, slow it down, then remove it.
    let mut r = Registry::new();
    let o = r.apply(cmd(Operation::Create, 7, 1));
    assert!(matches!(o, ApplyOutcome::Started));
    assert_eq!(r.jobs[0].next_step(), RunnerAction::Invoke);
    for _ in 0..3 {
        r.jobs[0].record_invocation(true);
    }
    assert_eq!(r.jobs[0].invocations, 3);

    let o = r.apply(cmd(Operation::Update, 7, 5));
    match o {
        ApplyOutcome::Replaced { retired } => {
            assert_eq!(retired.invocations, 3);
            assert!(retired.stopping);
            assert_eq!(retired.next_step(), RunnerAction::Exit);
        }
        _ => panic!("update of a live feed must replace its runner"),
    }
    assert_eq!(r.jobs.len(), 1);
    assert_eq!(r.jobs[0].frequency, 5);
    assert_eq!(r.jobs[0].invocations, 0);

    let o = r.apply(cmd(Operation::Delete, 7, 1));
    match o {
        ApplyOutcome::Removed { retired } => {
            assert!(retired.stopping);
            assert_eq!(retired.next_step(), RunnerAction::Exit);
        }
        _ => panic!("delete of a live feed must remove its runner"),
    }
    assert_eq!(r.jobs.len(), 0);
}
