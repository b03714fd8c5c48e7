//! The scheduler: a self-scaling worker pool fed from a priority queue.
use vstd::prelude::*;
use crate::decision::{MetabolicState, ResourceAllocation, StreamingContext, UNIT};
use crate::host;

verus! {

broadcast use vstd::seq_lib::group_to_multiset_ensures;

/// Upper bound on the pool size.
pub const MAX_WORKERS: usize = 32;

/// Load above which the pool grows by one worker.
pub const SCALE_UP_LOAD: u64 = 800_000;

/// Load below which the pool shrinks by one idle worker.
pub const SCALE_DOWN_LOAD: u64 = 300_000;

/// Largest random stretch of a task's run time, in millionths (a fifth).
pub const MAX_JITTER: u64 = 200_000;

/// Performance score of a fresh worker (one whole).
pub const INITIAL_SCORE: u64 = 1_000_000;

/// Bound that the moving-average performance score never exceeds.
pub const MAX_SCORE: u64 = 1_000_000_000;

/// Scale of the priority-per-complexity key: two to the sixty-fourth.
pub const RATIO_SCALE: u128 = 18_446_744_073_709_551_616;

/// A unit of schedulable work.
pub struct Task {
    pub task_id: String,
    pub stream_id: String,
    /// In millionths.
    pub complexity: u64,
    /// In millionths.
    pub priority: u64,
    /// In millionths.
    pub resource_requirement: u64,
    /// Estimated run time, in milliseconds.
    pub estimated_time: u64,
    /// Milliseconds since the Unix epoch.
    pub created_at: i64,
}

/// Ordering key of a task: priority per unit of complexity, scaled by
/// `RATIO_SCALE` and rounded down. A task without complexity ranks above
/// every other.
pub open spec fn ratio_key(t: Task) -> nat {
    if t.complexity == 0 {
        u128::MAX as nat
    } else {
        (t.priority as nat * RATIO_SCALE as nat) / t.complexity as nat
    }
}

/// Computes `ratio_key`.
pub fn task_ratio_key(t: &Task) -> (k: u128)
    ensures
        k == ratio_key(*t),
{
    if t.complexity == 0 {
        u128::MAX
    } else {
        proof {
            assert(t.priority as nat * RATIO_SCALE as nat <= u64::MAX as nat * RATIO_SCALE as nat)
                by (nonlinear_arith)
                requires t.priority <= u64::MAX;
        }
        (t.priority as u128) * RATIO_SCALE / (t.complexity as u128)
    }
}

/// Index of the task to run next: the highest key, and the earliest among
/// equal keys.
pub fn best_task_index(queue: &Vec<Task>) -> (i: usize)
    requires
        queue@.len() > 0,
    ensures
        i < queue@.len(),
        forall|j: int| 0 <= j < queue@.len() ==> ratio_key(queue@[j]) <= ratio_key(queue@[i as int]),
        forall|j: int| 0 <= j < i ==> ratio_key(queue@[j]) < ratio_key(queue@[i as int]),
{
    let mut best: usize = 0;
    let mut best_key: u128 = task_ratio_key(&queue[0]);
    let mut k: usize = 1;
    while k < queue.len()
        invariant
            1 <= k <= queue@.len(),
            best < k,
            best_key == ratio_key(queue@[best as int]),
            forall|j: int| 0 <= j < k ==> ratio_key(queue@[j]) <= best_key,
            forall|j: int| 0 <= j < best ==> ratio_key(queue@[j]) < best_key,
        decreases queue@.len() - k,
    {
        let key = task_ratio_key(&queue[k]);
        if key > best_key {
            best = k;
            best_key = key;
        }
        k = k + 1;
    }
    best
}


/// One worker of the pool.
pub struct WorkerState {
    pub worker_id: u64,
    pub is_busy: bool,
    pub current_task: Option<String>,
    /// Moving average of the inverse run time, in millionths.
    pub performance_score: u64,
    /// In millionths.
    pub resource_usage: u64,
}

impl WorkerState {
    /// A worker is busy exactly when it holds a task, and its score stays
    /// within the bound that the moving average keeps.
    pub open spec fn wf(&self) -> bool {
        &&& self.is_busy == self.current_task.is_some()
        &&& self.performance_score <= MAX_SCORE
    }
}

/// A worker that has just taken `t`.
pub open spec fn occupied(w: WorkerState, t: Task) -> WorkerState {
    WorkerState {
        worker_id: w.worker_id,
        is_busy: true,
        current_task: Some(t.task_id),
        performance_score: w.performance_score,
        resource_usage: t.resource_requirement,
    }
}

/// A task handed to a worker by the load balancer.
pub struct Assignment {
    /// Position of the worker in the pool.
    pub worker_index: usize,
    pub worker_id: u64,
    pub task: Task,
}

/// How a task execution ended.
#[derive(Clone, Copy, Debug, PartialEq, Eq, Structural)]
pub enum TaskOutcome {
    /// It ran for this many milliseconds.
    Completed(u64),
    Failed,
}

/// Aggregate figures of the pool, in millionths where fractional.
pub struct PerformanceMetrics {
    /// Mean performance score of the workers.
    pub throughput: u64,
    pub average_latency: u64,
    /// Fraction of busy workers.
    pub resource_efficiency: u64,
    /// Fraction of finished tasks that failed.
    pub error_rate: u64,
    pub completed_tasks: u64,
    pub failed_tasks: u64,
}

/// The scheduler's state.
pub struct GlycolyticCycle {
    pub workers: Vec<WorkerState>,
    pub task_queue: Vec<Task>,
    pub resource_allocation: Option<ResourceAllocation>,
    /// Fraction of busy workers at the last metrics update, in millionths.
    pub current_load: u64,
    pub metrics: PerformanceMetrics,
    /// The initial pool size, below which the pool never shrinks.
    pub min_workers: usize,
}

pub open spec fn max_pool(min_workers: nat) -> nat {
    if min_workers > MAX_WORKERS { min_workers } else { MAX_WORKERS as nat }
}

/// Some worker of `ws` has id `id`.
pub open spec fn id_used(ws: Seq<WorkerState>, id: u64) -> bool {
    exists|i: int| 0 <= i < ws.len() && (#[trigger] ws[i]).worker_id == id
}

/// `id` is the least id that no worker of `ws` has.
pub open spec fn least_free_id(ws: Seq<WorkerState>, id: u64) -> bool {
    &&& !id_used(ws, id)
    &&& forall|k: u64| k < id ==> #[trigger] id_used(ws, k)
}

pub open spec fn ids_distinct(ws: Seq<WorkerState>) -> bool {
    forall|i: int, j: int|
        0 <= i < ws.len() && 0 <= j < ws.len() && i != j ==> (#[trigger] ws[i]).worker_id
            != (#[trigger] ws[j]).worker_id
}

pub open spec fn workers_wf(ws: Seq<WorkerState>) -> bool {
    forall|i: int| 0 <= i < ws.len() ==> (#[trigger] ws[i]).wf()
}

pub open spec fn tasks_of(a: Seq<Assignment>) -> Seq<Task> {
    a.map_values(|x: Assignment| x.task)
}

impl GlycolyticCycle {
    /// The pool never holds fewer workers than its floor, nor more than
    /// `MAX_WORKERS` unless the floor itself is larger; worker ids are
    /// distinct.
    pub open spec fn wf(&self) -> bool {
        &&& 1 <= self.min_workers <= self.workers@.len() <= max_pool(self.min_workers as nat)
        &&& workers_wf(self.workers@)
        &&& ids_distinct(self.workers@)
    }

    /// Hands queued tasks to idle workers, the highest priority-per-complexity
    /// first, until the queue is empty or no worker is idle.
    pub fn balance_load(&mut self) -> (a: Vec<Assignment>)
        requires
            old(self).wf(),
        ensures
            final(self).wf(),
            final(self).workers@.len() == old(self).workers@.len(),
            final(self).min_workers == old(self).min_workers,
            final(self).resource_allocation == old(self).resource_allocation,
            final(self).current_load == old(self).current_load,
            final(self).metrics == old(self).metrics,
            // every assignment goes to a distinct, formerly idle worker
            forall|k: int| 0 <= k < a@.len() ==> {
                let i = (#[trigger] a@[k]).worker_index as int;
                &&& 0 <= i < old(self).workers@.len()
                &&& !old(self).workers@[i].is_busy
                &&& a@[k].worker_id == old(self).workers@[i].worker_id
                &&& final(self).workers@[i] == occupied(old(self).workers@[i], a@[k].task)
            },
            forall|k: int, l: int| 0 <= k < l < a@.len() ==> (#[trigger] a@[k]).worker_index < (#[trigger] a@[l]).worker_index,
            // workers that got nothing are untouched
            forall|i: int| 0 <= i < old(self).workers@.len() && !(exists|k: int| 0 <= k < a@.len() && (#[trigger] a@[k]).worker_index == i)
                ==> final(self).workers@[i] == old(self).workers@[i],
            // the tasks handed out come from the queue, and rank no lower than any left
            final(self).task_queue@.to_multiset().add(tasks_of(a@).to_multiset())
                == old(self).task_queue@.to_multiset(),
            forall|k: int, j: int| 0 <= k < a@.len() && 0 <= j < final(self).task_queue@.len()
                ==> ratio_key(#[trigger] final(self).task_queue@[j]) <= ratio_key((#[trigger] a@[k]).task),
            // it stops only when the queue is empty or every worker is busy
            final(self).task_queue@.len() == 0 || forall|i: int| 0 <= i < final(self).workers@.len()
                ==> (#[trigger] final(self).workers@[i]).is_busy,
    {
        let ghost old_workers = self.workers@;
        let ghost old_queue = self.task_queue@;
        let mut out: Vec<Assignment> = Vec::new();
        let mut i: usize = 0;
        while i < self.workers.len()
            invariant
                0 <= i <= self.workers@.len(),
                self.workers@.len() == old_workers.len(),
                self.min_workers == old(self).min_workers,
                self.resource_allocation == old(self).resource_allocation,
                self.current_load == old(self).current_load,
                self.metrics == old(self).metrics,
                old_workers == old(self).workers@,
                old_queue == old(self).task_queue@,
                old(self).wf(),
                workers_wf(self.workers@),
                forall|j: int| 0 <= j < old_workers.len() ==> (#[trigger] self.workers@[j]).worker_id == old_workers[j].worker_id
                    && self.workers@[j].performance_score == old_workers[j].performance_score,
                forall|j: int| i <= j < old_workers.len() ==> self.workers@[j] == old_workers[j],
                forall|k: int| 0 <= k < out@.len() ==> {
                    let w = (#[trigger] out@[k]).worker_index as int;
                    &&& 0 <= w < i
                    &&& !old_workers[w].is_busy
                    &&& out@[k].worker_id == old_workers[w].worker_id
                    &&& self.workers@[w] == occupied(old_workers[w], out@[k].task)
                },
                forall|k: int, l: int| 0 <= k < l < out@.len() ==> (#[trigger] out@[k]).worker_index < (#[trigger] out@[l]).worker_index,
                forall|j: int| 0 <= j < i && !(exists|k: int| 0 <= k < out@.len() && (#[trigger] out@[k]).worker_index == j)
                    ==> self.workers@[j] == old_workers[j],
                self.task_queue@.to_multiset().add(tasks_of(out@).to_multiset()) == old_queue.to_multiset(),
                forall|k: int, j: int| 0 <= k < out@.len() && 0 <= j < self.task_queue@.len()
                    ==> ratio_key(#[trigger] self.task_queue@[j]) <= ratio_key((#[trigger] out@[k]).task),
                self.task_queue@.len() == 0 || forall|j: int| 0 <= j < i ==> (#[trigger] self.workers@[j]).is_busy,
            decreases old_workers.len() - i,
        {
            if !self.workers[i].is_busy && self.task_queue.len() > 0 {
                let best = best_task_index(&self.task_queue);
                let ghost q = self.task_queue@;
                let task = self.task_queue.remove(best);
                let worker_id = self.workers[i].worker_id;
                let worker = WorkerState {
                    worker_id,
                    is_busy: true,
                    current_task: Some(task.task_id.clone()),
                    performance_score: self.workers[i].performance_score,
                    resource_usage: task.resource_requirement,
                };
                self.workers.set(i, worker);
                let ghost prev_out = out@;
                out.push(Assignment { worker_index: i, worker_id, task });
                proof {
                    assert(tasks_of(out@) =~= tasks_of(prev_out).push(task));
                    assert(q.to_multiset().remove(task).insert(task) =~= q.to_multiset());
                    assert forall|k: int, j: int| 0 <= k < out@.len() && 0 <= j < self.task_queue@.len()
                        implies ratio_key(#[trigger] self.task_queue@[j]) <= ratio_key((#[trigger] out@[k]).task) by {
                        let jj = if j < best { j } else { j + 1 };
                        assert(self.task_queue@[j] == q[jj]);
                    }
                    assert forall|j: int| 0 <= j < i + 1 && !(exists|k: int| 0 <= k < out@.len() && (#[trigger] out@[k]).worker_index == j)
                        implies self.workers@[j] == old_workers[j] by {
                        if j < i {
                            assert(!(exists|k: int| 0 <= k < prev_out.len() && (#[trigger] prev_out[k]).worker_index == j)) by {
                                if exists|k: int| 0 <= k < prev_out.len() && (#[trigger] prev_out[k]).worker_index == j {
                                    let k = choose|k: int| 0 <= k < prev_out.len() && (#[trigger] prev_out[k]).worker_index == j;
                                    assert(out@[k] == prev_out[k]);
                                }
                            }
                        } else {
                            assert(out@[out@.len() - 1].worker_index == j);
                        }
                    }
                }
            } else {
                proof {
                    assert forall|j: int| 0 <= j < i + 1 && !(exists|k: int| 0 <= k < out@.len() && (#[trigger] out@[k]).worker_index == j)
                        implies self.workers@[j] == old_workers[j] by {
                    }
                }
            }
            i = i + 1;
        }
        proof {
            assert(ids_distinct(self.workers@)) by {
                assert forall|a: int, b: int| 0 <= a < self.workers@.len() && 0 <= b < self.workers@.len() && a != b
                    implies (#[trigger] self.workers@[a]).worker_id != (#[trigger] self.workers@[b]).worker_id by {
                    assert(old_workers[a].worker_id != old_workers[b].worker_id);
                }
            }
        }
        out
    }

    /// A pool of one idle worker per available core.
    pub fn new() -> (g: Self)
        ensures
            g.wf(),
            g.workers@.len() == g.min_workers,
            forall|i: int| 0 <= i < g.min_workers ==> #[trigger] g.workers@[i] == fresh_worker(i as u64),
            g.task_queue@.len() == 0,
            g.current_load == 0,
            g.resource_allocation is None,
            g.metrics.completed_tasks == 0,
            g.metrics.failed_tasks == 0,
    {
        Self::with_core_count(host::core_count())
    }

    /// A pool of `cores` idle workers, numbered from zero; `cores` is also
    /// the floor below which the pool never shrinks.
    pub fn with_core_count(cores: usize) -> (g: Self)
        requires
            cores >= 1,
        ensures
            g.wf(),
            g.min_workers == cores,
            g.workers@.len() == cores,
            forall|i: int| 0 <= i < cores ==> #[trigger] g.workers@[i] == fresh_worker(i as u64),
            g.task_queue@.len() == 0,
            g.current_load == 0,
            g.resource_allocation is None,
            g.metrics.completed_tasks == 0,
            g.metrics.failed_tasks == 0,
    {
        let mut workers: Vec<WorkerState> = Vec::new();
        let mut i: usize = 0;
        while i < cores
            invariant
                0 <= i <= cores,
                workers@.len() == i,
                forall|j: int| 0 <= j < i ==> #[trigger] workers@[j] == fresh_worker(j as u64),
            decreases cores - i,
        {
            workers.push(WorkerState {
                worker_id: i as u64,
                is_busy: false,
                current_task: None,
                performance_score: INITIAL_SCORE,
                resource_usage: 0,
            });
            i = i + 1;
        }
        let g = GlycolyticCycle {
            workers,
            task_queue: Vec::new(),
            resource_allocation: None,
            current_load: 0,
            metrics: PerformanceMetrics {
                throughput: 0,
                average_latency: 0,
                resource_efficiency: 0,
                error_rate: 0,
                completed_tasks: 0,
                failed_tasks: 0,
            },
            min_workers: cores,
        };
        proof {
            assert forall|a: int, b: int| 0 <= a < g.workers@.len() && 0 <= b < g.workers@.len() && a != b
                implies (#[trigger] g.workers@[a]).worker_id != (#[trigger] g.workers@[b]).worker_id by {
                assert(g.workers@[a] == fresh_worker(a as u64));
                assert(g.workers@[b] == fresh_worker(b as u64));
            }
            assert forall|a: int| 0 <= a < g.workers@.len() implies (#[trigger] g.workers@[a]).wf() by {
                assert(g.workers@[a] == fresh_worker(a as u64));
            }
        }
        g
    }

    /// Computes the resource shares for a context under a metabolic state
    /// and keeps them as the current allocation.
    pub fn allocate_resources(&mut self, context: &StreamingContext, metabolic_state: &MetabolicState) -> (r: ResourceAllocation)
        requires
            old(self).wf(),
            context.wf(),
        ensures
            r == allocation_for(metabolic_state.glycolytic_load as nat, context.confidence_level as nat),
            final(self).resource_allocation == Some(r),
            final(self).workers@ == old(self).workers@,
            final(self).task_queue@ == old(self).task_queue@,
            final(self).min_workers == old(self).min_workers,
            final(self).current_load == old(self).current_load,
            final(self).metrics == old(self).metrics,
            final(self).wf(),
    {
        let r = compute_allocation(metabolic_state.glycolytic_load, context.confidence_level);
        self.resource_allocation = Some(r);
        r
    }

    /// Fraction of busy workers at the last metrics update.
    pub fn get_current_load(&self) -> (l: u64)
        ensures
            l == self.current_load,
    {
        self.current_load
    }

    /// The last allocation computed, if any.
    pub fn get_resource_allocation(&self) -> (r: Option<ResourceAllocation>)
        ensures
            r == self.resource_allocation,
    {
        self.resource_allocation
    }

    /// Queues a task for the next balancing pass.
    pub fn submit_task(&mut self, task: Task)
        requires
            old(self).wf(),
        ensures
            final(self).wf(),
            final(self).task_queue@ == old(self).task_queue@.push(task),
            final(self).workers@ == old(self).workers@,
            final(self).min_workers == old(self).min_workers,
            final(self).current_load == old(self).current_load,
            final(self).resource_allocation == old(self).resource_allocation,
    {
        self.task_queue.push(task);
    }

    /// Frees the worker with the given id after its task ended; a completed
    /// run also moves the worker's score by `score_after`. An unknown id
    /// changes nothing.
    pub fn release_worker(&mut self, worker_id: u64, outcome: TaskOutcome)
        requires
            old(self).wf(),
        ensures
            final(self).wf(),
            final(self).task_queue@ == old(self).task_queue@,
            final(self).min_workers == old(self).min_workers,
            final(self).current_load == old(self).current_load,
            final(self).resource_allocation == old(self).resource_allocation,
            final(self).workers@.len() == old(self).workers@.len(),
            forall|i: int| 0 <= i < old(self).workers@.len() ==> {
                let w = old(self).workers@[i];
                #[trigger] final(self).workers@[i] == if w.worker_id == worker_id {
                    released(w, outcome)
                } else {
                    w
                }
            },
            final(self).metrics.completed_tasks == counted(old(self).metrics.completed_tasks, outcome is Completed),
            final(self).metrics.failed_tasks == counted(old(self).metrics.failed_tasks, outcome is Failed),
    {
        let mut i: usize = 0;
        while i < self.workers.len()
            invariant
                0 <= i <= self.workers@.len(),
                self.workers@ == old(self).workers@,
                forall|j: int| 0 <= j < i ==> (#[trigger] self.workers@[j]).worker_id != worker_id,
            ensures
                i < self.workers@.len() ==> self.workers@[i as int].worker_id == worker_id,
                forall|j: int| 0 <= j < i ==> (#[trigger] self.workers@[j]).worker_id != worker_id,
            decreases self.workers@.len() - i,
        {
            if self.workers[i].worker_id == worker_id {
                break;
            }
            i = i + 1;
        }
        if i < self.workers.len() {
            let score = self.workers[i].performance_score;
            let new_score = match outcome {
                TaskOutcome::Completed(elapsed) => moving_score(score, elapsed),
                TaskOutcome::Failed => score,
            };
            let worker = WorkerState {
                worker_id,
                is_busy: false,
                current_task: None,
                performance_score: new_score,
                resource_usage: 0,
            };
            self.workers.set(i, worker);
            proof {
                let ow = old(self).workers@;
                assert forall|j: int| 0 <= j < ow.len() && j != i implies ow[j].worker_id != worker_id by {
                    assert(ow[j].worker_id != ow[i as int].worker_id);
                }
                lemma_replace_keeps_wf(ow, i as int, worker);
            }
        }
        match outcome {
            TaskOutcome::Completed(_) => {
                self.metrics.completed_tasks = self.metrics.completed_tasks.saturating_add(1);
            },
            TaskOutcome::Failed => {
                self.metrics.failed_tasks = self.metrics.failed_tasks.saturating_add(1);
            },
        }
    }

    /// Recomputes the load and the aggregate metrics from the pool.
    pub fn update_metrics(&mut self)
        requires
            old(self).wf(),
        ensures
            final(self).wf(),
            final(self).workers@ == old(self).workers@,
            final(self).task_queue@ == old(self).task_queue@,
            final(self).min_workers == old(self).min_workers,
            final(self).resource_allocation == old(self).resource_allocation,
            final(self).current_load == load_of(old(self).workers@),
            final(self).metrics.throughput == score_sum(old(self).workers@) / old(self).workers@.len(),
            final(self).metrics.resource_efficiency == final(self).current_load,
            final(self).metrics.error_rate == error_rate_of(old(self).metrics.completed_tasks as nat, old(self).metrics.failed_tasks as nat),
            final(self).metrics.average_latency == old(self).metrics.average_latency,
            final(self).metrics.completed_tasks == old(self).metrics.completed_tasks,
            final(self).metrics.failed_tasks == old(self).metrics.failed_tasks,
    {
        let n = self.workers.len();
        let mut busy: usize = 0;
        let mut total: u128 = 0;
        let mut i: usize = 0;
        while i < n
            invariant
                n == self.workers@.len(),
                0 <= i <= n,
                workers_wf(self.workers@),
                busy == busy_count(self.workers@.subrange(0, i as int)),
                total == score_sum(self.workers@.subrange(0, i as int)),
                busy <= i,
                total <= i * MAX_SCORE,
            decreases n - i,
        {
            let ghost pre = self.workers@.subrange(0, i as int);
            assert(self.workers@.subrange(0, i + 1).drop_last() =~= pre);
            if self.workers[i].is_busy {
                busy = busy + 1;
            }
            total = total + self.workers[i].performance_score as u128;
            i = i + 1;
        }
        assert(self.workers@.subrange(0, n as int) =~= self.workers@);
        proof {
            assert(busy as nat * UNIT as nat <= n as nat * UNIT as nat) by (nonlinear_arith)
                requires busy <= n;
            assert(n as nat * UNIT as nat <= u64::MAX as nat * UNIT as nat) by (nonlinear_arith)
                requires n <= u64::MAX;
            assert(busy as nat * UNIT as nat / n as nat <= UNIT) by (nonlinear_arith)
                requires busy <= n, n > 0;
            assert(total as nat / n as nat <= MAX_SCORE) by (nonlinear_arith)
                requires total <= n * MAX_SCORE, n > 0;
        }
        let load = ((busy as u128) * (UNIT as u128) / (n as u128)) as u64;
        self.current_load = load;
        self.metrics.throughput = (total / (n as u128)) as u64;
        self.metrics.resource_efficiency = load;
        let done = self.metrics.completed_tasks as u128 + self.metrics.failed_tasks as u128;
        if done == 0 {
            self.metrics.error_rate = 0;
        } else {
            proof {
                let f = self.metrics.failed_tasks as nat;
                let d = done as nat;
                assert(f * UNIT as nat / d <= UNIT) by (nonlinear_arith)
                    requires f <= d, d > 0;
                assert(f * UNIT as nat <= u64::MAX as nat * UNIT as nat) by (nonlinear_arith)
                    requires f <= u64::MAX;
            }
            self.metrics.error_rate = ((self.metrics.failed_tasks as u128) * (UNIT as u128) / done) as u64;
        }
    }

    /// Grows the pool by one idle worker under high load, or shrinks it by
    /// its first idle worker under low load; a busy worker is never removed.
    pub fn scale_workers(&mut self)
        requires
            old(self).wf(),
        ensures
            final(self).wf(),
            final(self).task_queue@ == old(self).task_queue@,
            final(self).min_workers == old(self).min_workers,
            final(self).current_load == old(self).current_load,
            final(self).resource_allocation == old(self).resource_allocation,
            final(self).metrics == old(self).metrics,
            old(self).current_load > SCALE_UP_LOAD ==> final(self).workers@.len() == grown(old(self).workers@.len()),
            ({
                let ow = old(self).workers@;
                let load = old(self).current_load;
                if load > SCALE_UP_LOAD && ow.len() < MAX_WORKERS {
                    exists|id: u64| least_free_id(ow, id) && final(self).workers@ == ow.push(#[trigger] fresh_worker(id))
                } else if load < SCALE_DOWN_LOAD && ow.len() > old(self).min_workers
                    && exists|i: int| 0 <= i < ow.len() && !(#[trigger] ow[i]).is_busy {
                    exists|i: int| {
                        &&& 0 <= i < ow.len()
                        &&& !(#[trigger] ow[i]).is_busy
                        &&& forall|j: int| 0 <= j < i ==> (#[trigger] ow[j]).is_busy
                        &&& final(self).workers@ == ow.remove(i)
                    }
                } else {
                    final(self).workers@ == ow
                }
            }),
    {
        let n = self.workers.len();
        if self.current_load > SCALE_UP_LOAD && n < MAX_WORKERS {
            self.add_worker();
        } else if self.current_load < SCALE_DOWN_LOAD && n > self.min_workers {
            let mut i: usize = 0;
            while i < n
                invariant
                    n == self.workers@.len(),
                    self.workers@ == old(self).workers@,
                    0 <= i <= n,
                    forall|j: int| 0 <= j < i ==> (#[trigger] self.workers@[j]).is_busy,
                ensures
                    i < n ==> !self.workers@[i as int].is_busy,
                    forall|j: int| 0 <= j < i ==> (#[trigger] self.workers@[j]).is_busy,
                decreases n - i,
            {
                if !self.workers[i].is_busy {
                    break;
                }
                i = i + 1;
            }
            if i < n {
                self.workers.remove(i);
                proof {
                    lemma_remove_keeps_wf(old(self).workers@, i as int);
                }
            } else {
                proof {
                    let ow = old(self).workers@;
                    assert(!exists|k: int| 0 <= k < ow.len() && !(#[trigger] ow[k]).is_busy);
                }
            }
        }
    }

    fn add_worker(&mut self)
        requires
            old(self).wf(),
            old(self).workers@.len() < MAX_WORKERS,
        ensures
            final(self).wf(),
            exists|id: u64| least_free_id(old(self).workers@, id)
                && final(self).workers@ == old(self).workers@.push(#[trigger] fresh_worker(id)),
            final(self).task_queue@ == old(self).task_queue@,
            final(self).min_workers == old(self).min_workers,
            final(self).current_load == old(self).current_load,
            final(self).resource_allocation == old(self).resource_allocation,
            final(self).metrics == old(self).metrics,
    {
        let id = self.free_worker_id();
        let n = self.workers.len();
        self.workers.push(WorkerState {
            worker_id: id,
            is_busy: false,
            current_task: None,
            performance_score: INITIAL_SCORE,
            resource_usage: 0,
        });
        proof {
            let ow = old(self).workers@;
            assert(self.workers@ == ow.push(fresh_worker(id)));
            assert forall|a: int, b: int| 0 <= a < self.workers@.len() && 0 <= b < self.workers@.len() && a != b
                implies (#[trigger] self.workers@[a]).worker_id != (#[trigger] self.workers@[b]).worker_id by {
                if a < n && b < n { assert(self.workers@[a] == ow[a] && self.workers@[b] == ow[b]); }
                else if a < n { assert(self.workers@[a] == ow[a]); }
                else if b < n { assert(self.workers@[b] == ow[b]); }
            }
            assert forall|a: int| 0 <= a < self.workers@.len() implies (#[trigger] self.workers@[a]).wf() by {
                if a < n { assert(self.workers@[a] == ow[a]); }
            }
        }
    }

    /// The least id that no worker has; it is at most the pool size.
    fn free_worker_id(&self) -> (id: u64)
        requires
            self.workers@.len() < MAX_WORKERS,
        ensures
            least_free_id(self.workers@, id),
            id <= self.workers@.len(),
    {
        let ws = &self.workers;
        let n = ws.len();
        let mut k: u64 = 0;
        loop
            invariant
                n == ws@.len(),
                ws@ == self.workers@,
                n < MAX_WORKERS,
                k <= n,
                forall|j: u64| j < k ==> #[trigger] id_used(ws@, j),
            decreases n - k,
        {
            let mut i: usize = 0;
            let mut used = false;
            while i < n
                invariant
                    n == ws@.len(),
                    0 <= i <= n,
                    used ==> id_used(ws@, k),
                    !used ==> forall|j: int| 0 <= j < i ==> (#[trigger] ws@[j]).worker_id != k,
                decreases n - i,
            {
                if ws[i].worker_id == k {
                    used = true;
                }
                i = i + 1;
            }
            if !used {
                proof {
                    assert(!id_used(ws@, k));
                }
                return k;
            }
            if k == n as u64 {
                proof {
                    lemma_ids_pigeonhole(ws@);
                    let j = choose|j: int| 0 <= j <= ws@.len() && !(#[trigger] id_used(ws@, j as u64));
                    if j < k {
                        assert(id_used(ws@, j as u64));
                    }
                    assert(false);
                }
            }
            k = k + 1;
        }
    }
}

/// A pool of `n` workers leaves some id from zero to `n` unused.
proof fn lemma_ids_pigeonhole(ws: Seq<WorkerState>)
    requires
        ws.len() < MAX_WORKERS,
    ensures
        exists|j: int| 0 <= j <= ws.len() && !(#[trigger] id_used(ws, j as u64)),
{
    if forall|j: int| 0 <= j <= ws.len() ==> #[trigger] id_used(ws, j as u64) {
        let ids = ws.map_values(|w: WorkerState| w.worker_id as int);
        let used = ids.to_set();
        let range = vstd::set_lib::set_int_range(0, ws.len() as int + 1);
        ids.lemma_cardinality_of_set();
        vstd::set_lib::lemma_int_range(0, ws.len() as int + 1);
        assert(range.subset_of(used)) by {
            assert forall|j: int| range.contains(j) implies used.contains(j) by {
                assert(id_used(ws, j as u64));
                let i = choose|i: int| 0 <= i < ws.len() && (#[trigger] ws[i]).worker_id == j as u64;
                assert(ws[i].worker_id as int == j);
                assert(ids[i] == j);
                assert(ids.contains(j));
            }
        }
        broadcast use vstd::seq_lib::seq_to_set_is_finite;
        vstd::set_lib::lemma_len_subset(range, used);
    }
}

proof fn lemma_replace_keeps_wf(ws: Seq<WorkerState>, i: int, w: WorkerState)
    requires
        0 <= i < ws.len(),
        workers_wf(ws),
        ids_distinct(ws),
        w.wf(),
        w.worker_id == ws[i].worker_id,
    ensures
        workers_wf(ws.update(i, w)),
        ids_distinct(ws.update(i, w)),
{
    let v = ws.update(i, w);
    assert forall|a: int, b: int| 0 <= a < v.len() && 0 <= b < v.len() && a != b
        implies (#[trigger] v[a]).worker_id != (#[trigger] v[b]).worker_id by {
        assert(ws[a].worker_id != ws[b].worker_id);
    }
    assert forall|a: int| 0 <= a < v.len() implies (#[trigger] v[a]).wf() by {
        if a != i { assert(ws[a].wf()); }
    }
}

proof fn lemma_remove_keeps_wf(ws: Seq<WorkerState>, i: int)
    requires
        0 <= i < ws.len(),
        workers_wf(ws),
        ids_distinct(ws),
    ensures
        workers_wf(ws.remove(i)),
        ids_distinct(ws.remove(i)),
{
    let v = ws.remove(i);
    assert forall|a: int| 0 <= a < v.len() implies (#[trigger] v[a]) == ws[if a < i { a } else { a + 1 }] by {}
    assert forall|a: int, b: int| 0 <= a < v.len() && 0 <= b < v.len() && a != b
        implies (#[trigger] v[a]).worker_id != (#[trigger] v[b]).worker_id by {
        let oa = if a < i { a } else { a + 1 };
        let ob = if b < i { b } else { b + 1 };
        assert(v[a] == ws[oa] && v[b] == ws[ob]);
    }
    assert forall|a: int| 0 <= a < v.len() implies (#[trigger] v[a]).wf() by {
        let oa = if a < i { a } else { a + 1 };
        assert(v[a] == ws[oa]);
    }
}

/// The pool stays between its floor and `MAX_WORKERS` whenever the floor
/// itself is within `MAX_WORKERS`.
pub proof fn lemma_pool_within_bounds(g: GlycolyticCycle)
    requires
        g.wf(),
        g.min_workers <= MAX_WORKERS,
    ensures
        g.min_workers <= g.workers@.len() <= MAX_WORKERS,
{
}

/// Pool size after one scaling step under high load.
pub open spec fn grown(n: nat) -> nat {
    if n < MAX_WORKERS { n + 1 } else { n }
}

/// Pool size after `k` scaling steps under high load.
pub open spec fn grown_times(n: nat, k: nat) -> nat
    decreases k,
{
    if k == 0 { n } else { grown(grown_times(n, (k - 1) as nat)) }
}

/// Under load that stays above `SCALE_UP_LOAD`, each scaling step adds one
/// worker until the pool holds `MAX_WORKERS`: `k` steps take a pool of
/// `n <= MAX_WORKERS` workers to `min(n + k, MAX_WORKERS)`, never beyond.
pub proof fn lemma_sustained_load_growth(n: nat, k: nat)
    requires
        n <= MAX_WORKERS,
    ensures
        grown_times(n, k) == if n + k < MAX_WORKERS { n + k } else { MAX_WORKERS as nat },
    decreases k,
{
    if k > 0 {
        lemma_sustained_load_growth(n, (k - 1) as nat);
    }
}

/// Base share under a load: `1 / (1 + load)`.
pub open spec fn base_share(load: nat) -> nat {
    UNIT as nat * UNIT as nat / (UNIT as nat + load)
}

/// Shares for a context: the base share scaled by `1 + confidence` for cpu,
/// and by 0.8 and 0.6 for memory and io.
pub open spec fn allocation_for(load: nat, confidence: nat) -> ResourceAllocation {
    let base = base_share(load);
    ResourceAllocation {
        cpu: (base * (UNIT as nat + confidence) / UNIT as nat) as u64,
        memory: (base * 8 / 10) as u64,
        io: (base * 6 / 10) as u64,
    }
}

/// Computes `allocation_for`.
pub fn compute_allocation(load: u64, confidence: u64) -> (r: ResourceAllocation)
    requires
        confidence <= UNIT,
    ensures
        r == allocation_for(load as nat, confidence as nat),
        r.cpu <= 2 * UNIT,
        r.memory <= UNIT,
        r.io <= UNIT,
{
    let u = UNIT as u128;
    let denom: u128 = u + load as u128;
    let base: u128 = u * u / denom;
    proof {
        let un = UNIT as nat;
        let bn = base as nat;
        let dn = denom as nat;
        let cn = confidence as nat;
        assert(bn <= un) by (nonlinear_arith)
            requires bn == un * un / dn, dn >= un, un > 0;
        assert(bn * (un + cn) <= un * (2 * un)) by (nonlinear_arith)
            requires bn <= un, cn <= un, un > 0;
        assert(bn * (un + cn) / un <= 2 * un) by (nonlinear_arith)
            requires bn * (un + cn) <= un * (2 * un), un > 0;
    }
    ResourceAllocation {
        cpu: (base * (u + confidence as u128) / u) as u64,
        memory: (base * 8 / 10) as u64,
        io: (base * 6 / 10) as u64,
    }
}

/// Run time stretched by a jitter given in millionths, capped at the
/// largest representable duration.
pub open spec fn stretched_time(estimated_ms: nat, jitter: nat) -> nat {
    let t = estimated_ms + estimated_ms * jitter / UNIT as nat;
    if t > u64::MAX { u64::MAX as nat } else { t }
}

/// Computes `stretched_time`.
pub fn processing_time(estimated_ms: u64, jitter: u64) -> (r: u64)
    requires
        jitter <= MAX_JITTER,
    ensures
        r == stretched_time(estimated_ms as nat, jitter as nat),
{
    proof {
        assert(estimated_ms as nat * jitter as nat <= u64::MAX as nat * MAX_JITTER as nat) by (nonlinear_arith)
            requires jitter <= MAX_JITTER, estimated_ms <= u64::MAX;
        assert(estimated_ms as nat * jitter as nat / UNIT as nat <= estimated_ms as nat) by (nonlinear_arith)
            requires jitter <= UNIT;
    }
    let t: u128 = estimated_ms as u128 + (estimated_ms as u128) * (jitter as u128) / (UNIT as u128);
    if t > u64::MAX as u128 { u64::MAX } else { t as u64 }
}

/// Draws the simulated run time of a task: its estimate stretched by a
/// random jitter of at most a fifth.
pub fn draw_processing_time(estimated_ms: u64) -> (r: u64)
    ensures
        exists|j: nat| j <= MAX_JITTER && r == stretched_time(estimated_ms as nat, j),
{
    let jitter = host::random_word() % (MAX_JITTER + 1);
    processing_time(estimated_ms, jitter)
}

/// A worker whose task has ended.
pub open spec fn released(w: WorkerState, outcome: TaskOutcome) -> WorkerState {
    WorkerState {
        worker_id: w.worker_id,
        is_busy: false,
        current_task: None,
        performance_score: match outcome {
            TaskOutcome::Completed(ms) => score_after(w.performance_score as nat, ms as nat) as u64,
            TaskOutcome::Failed => w.performance_score,
        },
        resource_usage: 0,
    }
}

/// A counter bumped by one when `hit`, saturating at the top.
pub open spec fn counted(n: u64, hit: bool) -> u64 {
    if hit && n < u64::MAX { (n + 1) as u64 } else { n }
}

/// A worker added by scale-up.
pub open spec fn fresh_worker(id: u64) -> WorkerState {
    WorkerState {
        worker_id: id,
        is_busy: false,
        current_task: None,
        performance_score: INITIAL_SCORE,
        resource_usage: 0,
    }
}

/// `0.9 × score + 0.1 / seconds`, with the run time in milliseconds and a
/// zero run time counted as one millisecond.
pub open spec fn score_after(score: nat, ms: nat) -> nat {
    score * 9 / 10 + 100_000_000nat / (if ms == 0 { 1nat } else { ms })
}

/// Computes `score_after`.
pub fn moving_score(score: u64, elapsed_ms: u64) -> (r: u64)
    requires
        score <= MAX_SCORE,
    ensures
        r == score_after(score as nat, elapsed_ms as nat),
        r <= MAX_SCORE,
{
    let ms: u64 = if elapsed_ms == 0 { 1 } else { elapsed_ms };
    proof {
        assert(100_000_000nat / (ms as nat) <= 100_000_000nat) by (nonlinear_arith)
            requires ms >= 1;
    }
    score / 10 * 9 + (score % 10) * 9 / 10 + 100_000_000 / ms
}

/// Number of busy workers.
pub open spec fn busy_count(ws: Seq<WorkerState>) -> nat
    decreases ws.len(),
{
    if ws.len() == 0 {
        0
    } else {
        busy_count(ws.drop_last()) + if ws.last().is_busy { 1nat } else { 0nat }
    }
}

/// Sum of the workers' performance scores.
pub open spec fn score_sum(ws: Seq<WorkerState>) -> nat
    decreases ws.len(),
{
    if ws.len() == 0 {
        0
    } else {
        score_sum(ws.drop_last()) + ws.last().performance_score as nat
    }
}

/// Fraction of busy workers, in millionths; zero for an empty pool.
pub open spec fn load_of(ws: Seq<WorkerState>) -> nat {
    if ws.len() == 0 { 0 } else { busy_count(ws) * UNIT as nat / ws.len() }
}

/// Fraction of finished tasks that failed, in millionths.
pub open spec fn error_rate_of(completed: nat, failed: nat) -> nat {
    if completed + failed == 0 { 0 } else { failed * UNIT as nat / (completed + failed) }
}

} // verus!
