use orchestrator_core::decision::{MetabolicState, ProcessingStage, StreamingContext, UNIT};
use orchestrator_core::glycolytic::{
    best_task_index, compute_allocation, draw_processing_time, moving_score, processing_time,
    task_ratio_key, GlycolyticCycle, Task, TaskOutcome, MAX_WORKERS,
};

fn task(id: &str, priority: u64, complexity: u64) -> Task {
    Task {
        task_id: id.to_string(),
        stream_id: "s".to_string(),
        complexity,
        priority,
        resource_requirement: 250_000,
        estimated_time: 100,
        created_at: 0,
    }
}

fn tick(g: &mut GlycolyticCycle) -> usize {
    let assigned = g.balance_load();
    g.update_metrics();
    g.scale_workers();
    assigned.len()
}

#[test]
fn pool_starts_with_one_idle_worker_per_core() {
    let g = GlycolyticCycle::with_core_count(8);
    assert_eq!(g.workers.len(), 8);
    assert_eq!(g.min_workers, 8);
    for (i, w) in g.workers.iter().enumerate() {
        assert_eq!(w.worker_id, i as u64);
        assert!(!w.is_busy);
        assert_eq!(w.performance_score, UNIT);
    }
    assert_eq!(g.get_current_load(), 0);
    assert!(g.get_resource_allocation().is_none());
}

#[test]
fn host_pool_has_at_least_one_worker() {
    let g = GlycolyticCycle::new();
    assert!(g.workers.len() >= 1);
    assert_eq!(g.workers.len(), g.min_workers);
}

#[test]
fn ratio_key_orders_by_priority_per_complexity() {
    assert!(task_ratio_key(&task("a", 3, 1)) > task_ratio_key(&task("b", 5, 2)));
    assert_eq!(task_ratio_key(&task("c", 2, 4)), task_ratio_key(&task("d", 1, 2)));
    assert_eq!(task_ratio_key(&task("e", 0, 0)), u128::MAX);
}

#[test]
fn best_task_prefers_earliest_among_equals() {
    let q = vec![task("a", 1, 2), task("b", 2, 1), task("c", 4, 2), task("d", 1, 1)];
    assert_eq!(best_task_index(&q), 1);
}

#[test]
fn balance_hands_out_highest_ratio_first() {
    let mut g = GlycolyticCycle::with_core_count(2);
    g.submit_task(task("low", 1, 4));
    g.submit_task(task("high", 9, 1));
    g.submit_task(task("mid", 2, 1));
    let a = g.balance_load();
    assert_eq!(a.len(), 2);
    assert_eq!(a[0].worker_index, 0);
    assert_eq!(a[0].task.task_id, "high");
    assert_eq!(a[1].worker_index, 1);
    assert_eq!(a[1].task.task_id, "mid");
    assert_eq!(g.task_queue.len(), 1);
    assert_eq!(g.task_queue[0].task_id, "low");
    assert!(g.workers[0].is_busy);
    assert_eq!(g.workers[0].current_task.as_deref(), Some("high"));
    assert_eq!(g.workers[0].resource_usage, 250_000);
}

#[test]
fn balance_with_empty_queue_changes_nothing() {
    let mut g = GlycolyticCycle::with_core_count(3);
    let a = g.balance_load();
    assert!(a.is_empty());
    assert!(g.workers.iter().all(|w| !w.is_busy));
}

#[test]
fn scenario_pool_scales_toward_limit() {
    let mut g = GlycolyticCycle::with_core_count(8);
    for i in 0..40u64 {
        g.submit_task(task(&format!("t{}", i), i + 1, 40 - i));
    }
    let mut previous = g.workers.len();
    for _ in 0..60 {
        tick(&mut g);
        let now = g.workers.len();
        assert_eq!(now, std::cmp::min(previous + 1, MAX_WORKERS));
        previous = now;
    }
    assert_eq!(g.workers.len(), 32);
    assert_eq!(g.get_current_load(), UNIT);
}

#[test]
fn release_updates_score_and_frees_worker() {
    let mut g = GlycolyticCycle::with_core_count(1);
    g.submit_task(task("t", 1, 1));
    g.balance_load();
    g.release_worker(0, TaskOutcome::Completed(100));
    let w = &g.workers[0];
    assert!(!w.is_busy);
    assert!(w.current_task.is_none());
    assert_eq!(w.resource_usage, 0);
    // 0.9 * 1.0 + 0.1 / 0.1 s
    assert_eq!(w.performance_score, 1_900_000);
    assert_eq!(g.metrics.completed_tasks, 1);
}

#[test]
fn failed_task_still_frees_worker_and_counts_as_error() {
    let mut g = GlycolyticCycle::with_core_count(2);
    g.submit_task(task("t", 1, 1));
    g.balance_load();
    g.release_worker(0, TaskOutcome::Failed);
    assert!(!g.workers[0].is_busy);
    assert_eq!(g.workers[0].performance_score, UNIT);
    g.update_metrics();
    assert_eq!(g.metrics.failed_tasks, 1);
    assert_eq!(g.metrics.error_rate, UNIT);
}

#[test]
fn unknown_worker_release_changes_no_worker() {
    let mut g = GlycolyticCycle::with_core_count(2);
    g.submit_task(task("t", 1, 1));
    g.balance_load();
    g.release_worker(99, TaskOutcome::Completed(10));
    assert!(g.workers[0].is_busy);
}

#[test]
fn metrics_report_load_and_throughput() {
    let mut g = GlycolyticCycle::with_core_count(4);
    g.submit_task(task("t", 1, 1));
    g.balance_load();
    g.update_metrics();
    assert_eq!(g.current_load, 250_000);
    assert_eq!(g.metrics.resource_efficiency, 250_000);
    assert_eq!(g.metrics.throughput, UNIT);
    assert_eq!(g.metrics.error_rate, 0);
}

#[test]
fn idle_pool_shrinks_back_to_floor_only() {
    let mut g = GlycolyticCycle::with_core_count(2);
    for i in 0..3u64 {
        g.submit_task(task(&format!("t{}", i), 1, 1));
    }
    tick(&mut g);
    tick(&mut g);
    assert_eq!(g.workers.len(), 4);
    for id in 0..4u64 {
        g.release_worker(id, TaskOutcome::Completed(50));
    }
    for _ in 0..5 {
        g.update_metrics();
        g.scale_workers();
    }
    assert_eq!(g.workers.len(), 2);
}

#[test]
fn busy_worker_is_never_removed() {
    let mut g = GlycolyticCycle::with_core_count(1);
    g.submit_task(task("a", 1, 1));
    tick(&mut g);
    assert_eq!(g.workers.len(), 2);
    g.submit_task(task("b", 1, 1));
    g.balance_load();
    g.release_worker(0, TaskOutcome::Completed(10));
    // one of two busy: load 0.5 is neither high nor low
    g.update_metrics();
    g.scale_workers();
    assert_eq!(g.workers.len(), 2);
    g.current_load = 0;
    g.scale_workers();
    assert_eq!(g.workers.len(), 1);
    assert!(g.workers[0].is_busy);
    assert_eq!(g.workers[0].worker_id, 1);
    g.scale_workers();
    assert_eq!(g.workers.len(), 1);
}

#[test]
fn allocation_scales_with_load_and_confidence() {
    let a = compute_allocation(0, 900_000);
    assert_eq!((a.cpu, a.memory, a.io), (1_900_000, 800_000, 600_000));
    let b = compute_allocation(UNIT, 900_000);
    assert_eq!((b.cpu, b.memory, b.io), (950_000, 400_000, 300_000));
}

#[test]
fn allocate_resources_keeps_result() {
    let mut g = GlycolyticCycle::with_core_count(1);
    let ctx = StreamingContext {
        stream_id: "s".to_string(),
        timestamp: 0,
        partial_data: Vec::new(),
        confidence_level: 0,
        processing_stage: ProcessingStage::Reasoning,
    };
    let state = MetabolicState { glycolytic_load: 250_000, lactate_level: 0, dreaming_active: false, resource_allocation: None };
    let r = g.allocate_resources(&ctx, &state);
    assert_eq!((r.cpu, r.memory, r.io), (800_000, 640_000, 480_000));
    assert_eq!(g.get_resource_allocation(), Some(r));
}

#[test]
fn moving_score_average() {
    assert_eq!(moving_score(UNIT, 1000), 1_000_000);
    assert_eq!(moving_score(UNIT, 0), 100_900_000);
    assert_eq!(moving_score(0, 200), 500_000);
}

#[test]
fn processing_time_stretch() {
    assert_eq!(processing_time(1000, 200_000), 1200);
    assert_eq!(processing_time(1000, 0), 1000);
    assert_eq!(processing_time(u64::MAX, 200_000), u64::MAX);
    for _ in 0..50 {
        let t = draw_processing_time(1000);
        assert!(t >= 1000 && t <= 1200);
    }
}

#[test]
fn freed_worker_id_is_reused_by_growth() {
    let mut g = GlycolyticCycle::with_core_count(2);
    g.submit_task(task("a", 1, 1));
    g.submit_task(task("b", 1, 1));
    tick(&mut g);
    assert_eq!(g.workers.len(), 3);
    assert_eq!(g.workers[2].worker_id, 2);
    g.release_worker(0, TaskOutcome::Completed(10));
    g.release_worker(1, TaskOutcome::Completed(10));
    g.update_metrics();
    g.scale_workers();
    assert_eq!(g.workers.len(), 2);
    assert_eq!(g.workers[0].worker_id, 1);
    assert_eq!(g.workers[1].worker_id, 2);
    g.current_load = 900_000;
    g.scale_workers();
    assert_eq!(g.workers.len(), 3);
    assert_eq!(g.workers[2].worker_id, 0);
    assert!(!g.workers[2].is_busy);
    assert_eq!(g.workers[2].performance_score, 1_000_000);
}
