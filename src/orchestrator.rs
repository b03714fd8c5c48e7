//! The orchestrator core: stream and scorer registries, and the decision
//! steps of a pipeline run around the three layer invocations.
use vstd::prelude::*;
use crate::decision::{
    calculate_layer_weights, fused_confidence, synthesize_decision, weights_of, DecisionType,
    Evidence, LayerContributions, MetabolicState, MetacognitiveDecision, StreamingContext,
    ARCHIVE_THRESHOLD,
};
use crate::dreaming::{bounded_push, DreamingModule};
use crate::glycolytic::{allocation_for, fresh_worker, GlycolyticCycle};
use crate::host;
use crate::lactate::{partial_result_of, LactateCycle};

verus! {

/// A registered scorer and its trust weight, in millionths.
pub struct RegisteredSystem {
    pub system_id: String,
    pub weight: u64,
}

/// What the health API reports.
pub struct SystemHealth {
    pub metabolic_state: MetabolicState,
    pub active_streams: usize,
    pub registered_ai_systems: usize,
}

pub open spec fn distinct_strings(s: Seq<String>) -> bool {
    forall|i: int, j: int| 0 <= i < s.len() && 0 <= j < s.len() && i != j ==> (#[trigger] s[i])@ != (#[trigger] s[j])@
}

pub open spec fn distinct_systems(s: Seq<RegisteredSystem>) -> bool {
    forall|i: int, j: int|
        0 <= i < s.len() && 0 <= j < s.len() && i != j ==> (#[trigger] s[i]).system_id@ != (#[trigger] s[j]).system_id@
}

/// Whether some stream in `s` has id `id`.
pub open spec fn has_stream(s: Seq<String>, id: Seq<char>) -> bool {
    exists|i: int| 0 <= i < s.len() && (#[trigger] s[i])@ == id
}

/// A registry extended by a stream id holds that id. Together with the
/// contract of `register_stream`, which refuses an id the registry holds,
/// this makes a winning registration the only one for its id.
pub proof fn lemma_registration_exclusive(streams: Seq<String>, stream_id: String)
    ensures
        has_stream(streams.push(stream_id), stream_id@),
{
    assert(streams.push(stream_id)[streams.len() as int] == stream_id);
}

/// The decision a run concludes with.
pub open spec fn decision_of(
    context: StreamingContext,
    evidence: Evidence,
    metabolic_state: MetabolicState,
    decision_id: String,
) -> MetacognitiveDecision {
    let (a, b, c) = evidence.confidences();
    let (wa, wb, wc) = weights_of(a, b, c);
    MetacognitiveDecision {
        decision_id,
        stream_id: context.stream_id,
        decision_type: DecisionType::StreamAnalysis,
        confidence: fused_confidence(a, b, c, wa, wb, wc) as u64,
        evidence,
        timestamp: context.timestamp,
        layer_contributions: LayerContributions {
            context_weight: wa as i64,
            reasoning_weight: wb as i64,
            intuition_weight: wc as i64,
            metabolic_state,
        },
    }
}

/// The orchestrator's state: the three metabolic subsystems and the two
/// registries.
pub struct MetacognitiveOrchestrator {
    pub glycolytic_cycle: GlycolyticCycle,
    pub lactate_cycle: LactateCycle,
    pub dreaming_module: DreamingModule,
    /// Ids of the streams with a live pipeline.
    pub streams: Vec<String>,
    pub ai_systems: Vec<RegisteredSystem>,
}

impl MetacognitiveOrchestrator {
    /// Subsystems well formed; stream ids and system ids each distinct.
    pub open spec fn wf(&self) -> bool {
        &&& self.glycolytic_cycle.wf()
        &&& self.lactate_cycle.wf()
        &&& self.dreaming_module.wf()
        &&& distinct_strings(self.streams@)
        &&& distinct_systems(self.ai_systems@)
    }

    /// The view of the metabolic snapshot that `assess_metabolic_state` reads.
    pub open spec fn metabolic_view(&self) -> MetabolicState {
        MetabolicState {
            glycolytic_load: self.glycolytic_cycle.current_load,
            lactate_level: self.lactate_cycle.lactate_level,
            dreaming_active: self.dreaming_module.is_active,
            resource_allocation: self.glycolytic_cycle.resource_allocation,
        }
    }

    /// An orchestrator with a pool of one worker per core and empty state.
    pub fn new() -> (o: Self)
        ensures
            o.wf(),
            o.streams@.len() == 0,
            o.ai_systems@.len() == 0,
            o.glycolytic_cycle.workers@.len() == o.glycolytic_cycle.min_workers,
            forall|i: int| 0 <= i < o.glycolytic_cycle.min_workers
                ==> #[trigger] o.glycolytic_cycle.workers@[i] == fresh_worker(i as u64),
            o.glycolytic_cycle.task_queue@.len() == 0,
            o.glycolytic_cycle.current_load == 0,
            o.glycolytic_cycle.resource_allocation is None,
            o.lactate_cycle.partial_results@.len() == 0,
            o.lactate_cycle.lactate_level == 0,
            o.dreaming_module.experience_buffer@.len() == 0,
            o.dreaming_module.dream_patterns@.len() == 0,
            o.dreaming_module.discovery_log@.len() == 0,
            !o.dreaming_module.is_active,
    {
        MetacognitiveOrchestrator {
            glycolytic_cycle: GlycolyticCycle::new(),
            lactate_cycle: LactateCycle::new(),
            dreaming_module: DreamingModule::new(),
            streams: Vec::new(),
            ai_systems: Vec::new(),
        }
    }

    /// Adds a scorer with its weight; an id already present has its weight
    /// replaced.
    pub fn register_ai_system(&mut self, system_id: String, weight: u64)
        requires
            old(self).wf(),
        ensures
            final(self).wf(),
            final(self).streams@ == old(self).streams@,
            final(self).glycolytic_cycle == old(self).glycolytic_cycle,
            final(self).lactate_cycle == old(self).lactate_cycle,
            final(self).dreaming_module == old(self).dreaming_module,
            ({
                let s = old(self).ai_systems@;
                let fresh = RegisteredSystem { system_id, weight };
                if exists|i: int| 0 <= i < s.len() && (#[trigger] s[i]).system_id@ == system_id@ {
                    exists|i: int| 0 <= i < s.len() && (#[trigger] s[i]).system_id@ == system_id@
                        && final(self).ai_systems@ == s.update(i, fresh)
                } else {
                    final(self).ai_systems@ == s.push(fresh)
                }
            }),
    {
        let ghost s = self.ai_systems@;
        let mut i: usize = 0;
        while i < self.ai_systems.len()
            invariant
                0 <= i <= s.len(),
                self.ai_systems@ == s,
                forall|j: int| 0 <= j < i ==> (#[trigger] s[j]).system_id@ != system_id@,
            ensures
                i < s.len() ==> s[i as int].system_id@ == system_id@,
                forall|j: int| 0 <= j < i ==> (#[trigger] s[j]).system_id@ != system_id@,
            decreases s.len() - i,
        {
            if self.ai_systems[i].system_id == system_id {
                break;
            }
            i = i + 1;
        }
        if i < self.ai_systems.len() {
            self.ai_systems.set(i, RegisteredSystem { system_id, weight });
            proof {
                let v = self.ai_systems@;
                assert forall|a: int, b: int| 0 <= a < v.len() && 0 <= b < v.len() && a != b
                    implies (#[trigger] v[a]).system_id@ != (#[trigger] v[b]).system_id@ by {
                    assert(s[a].system_id@ != s[b].system_id@);
                }
            }
        } else {
            self.ai_systems.push(RegisteredSystem { system_id, weight });
            proof {
                let v = self.ai_systems@;
                assert forall|a: int, b: int| 0 <= a < v.len() && 0 <= b < v.len() && a != b
                    implies (#[trigger] v[a]).system_id@ != (#[trigger] v[b]).system_id@ by {
                    if a < s.len() && b < s.len() {
                        assert(s[a].system_id@ != s[b].system_id@);
                    } else if a < s.len() {
                        assert(v[a] == s[a]);
                    } else {
                        assert(v[b] == s[b]);
                    }
                }
            }
        }
    }

    /// Registers a stream if no stream of that id is live. Returns whether
    /// this call won the registration; a losing call changes nothing.
    pub fn register_stream(&mut self, stream_id: String) -> (won: bool)
        requires
            old(self).wf(),
        ensures
            final(self).wf(),
            won == !has_stream(old(self).streams@, stream_id@),
            won ==> final(self).streams@ == old(self).streams@.push(stream_id),
            !won ==> final(self).streams@ == old(self).streams@,
            final(self).ai_systems@ == old(self).ai_systems@,
            final(self).glycolytic_cycle == old(self).glycolytic_cycle,
            final(self).lactate_cycle == old(self).lactate_cycle,
            final(self).dreaming_module == old(self).dreaming_module,
    {
        match self.stream_position(&stream_id) {
            Some(_) => false,
            None => {
                let ghost s = self.streams@;
                self.streams.push(stream_id);
                proof {
                    let v = self.streams@;
                    assert forall|a: int, b: int| 0 <= a < v.len() && 0 <= b < v.len() && a != b
                        implies (#[trigger] v[a])@ != (#[trigger] v[b])@ by {
                        if a < s.len() && b < s.len() {
                            assert(s[a]@ != s[b]@);
                        } else if a < s.len() {
                            assert(v[a] == s[a]);
                        } else {
                            assert(v[b] == s[b]);
                        }
                    }
                }
                true
            },
        }
    }

    /// Removes a stream whose pipeline has ended; an unknown id changes
    /// nothing.
    pub fn close_stream(&mut self, stream_id: &String)
        requires
            old(self).wf(),
        ensures
            final(self).wf(),
            !has_stream(final(self).streams@, stream_id@),
            !has_stream(old(self).streams@, stream_id@) ==> final(self).streams@ == old(self).streams@,
            has_stream(old(self).streams@, stream_id@) ==> exists|i: int|
                0 <= i < old(self).streams@.len() && (#[trigger] old(self).streams@[i])@ == stream_id@
                    && final(self).streams@ == old(self).streams@.remove(i),
            final(self).ai_systems@ == old(self).ai_systems@,
            final(self).glycolytic_cycle == old(self).glycolytic_cycle,
            final(self).lactate_cycle == old(self).lactate_cycle,
            final(self).dreaming_module == old(self).dreaming_module,
    {
        match self.stream_position(stream_id) {
            None => {},
            Some(i) => {
                let ghost s = self.streams@;
                self.streams.remove(i);
                proof {
                    let v = self.streams@;
                    assert forall|a: int| 0 <= a < v.len() implies (#[trigger] v[a]) == s[if a < i { a } else { a + 1 }] by {}
                    assert forall|a: int, b: int| 0 <= a < v.len() && 0 <= b < v.len() && a != b
                        implies (#[trigger] v[a])@ != (#[trigger] v[b])@ by {
                        let oa = if a < i { a } else { a + 1 };
                        let ob = if b < i { b } else { b + 1 };
                        assert(v[a] == s[oa] && v[b] == s[ob]);
                    }
                    if has_stream(v, stream_id@) {
                        let a = choose|a: int| 0 <= a < v.len() && (#[trigger] v[a])@ == stream_id@;
                        let oa = if a < i { a } else { a + 1 };
                        assert(v[a] == s[oa]);
                        assert(s[oa]@ != s[i as int]@);
                    }
                }
            },
        }
    }

    fn stream_position(&self, stream_id: &String) -> (r: Option<usize>)
        ensures
            r is None <==> !has_stream(self.streams@, stream_id@),
            r matches Some(i) ==> i < self.streams@.len() && self.streams@[i as int]@ == stream_id@,
    {
        let mut i: usize = 0;
        while i < self.streams.len()
            invariant
                0 <= i <= self.streams@.len(),
                forall|j: int| 0 <= j < i ==> (#[trigger] self.streams@[j])@ != stream_id@,
            decreases self.streams@.len() - i,
        {
            if self.streams[i] == *stream_id {
                return Some(i);
            }
            i = i + 1;
        }
        None
    }

    /// Number of streams with a live pipeline.
    pub fn active_stream_count(&self) -> (n: usize)
        ensures
            n == self.streams@.len(),
    {
        self.streams.len()
    }

    /// Snapshot of scheduler load, cache pressure, dreaming flag and the
    /// current allocation.
    pub fn assess_metabolic_state(&self) -> (m: MetabolicState)
        ensures
            m == self.metabolic_view(),
    {
        MetabolicState {
            glycolytic_load: self.glycolytic_cycle.get_current_load(),
            lactate_level: self.lactate_cycle.get_lactate_level(),
            dreaming_active: self.dreaming_module.is_active(),
            resource_allocation: self.glycolytic_cycle.get_resource_allocation(),
        }
    }

    /// First steps of a run: the metabolic snapshot, then an allocation for
    /// the context under it. Returns the snapshot.
    pub fn begin_run(&mut self, context: &StreamingContext) -> (m: MetabolicState)
        requires
            old(self).wf(),
            context.wf(),
        ensures
            final(self).wf(),
            m == old(self).metabolic_view(),
            final(self).glycolytic_cycle.resource_allocation
                == Some(allocation_for(m.glycolytic_load as nat, context.confidence_level as nat)),
            final(self).glycolytic_cycle.workers@ == old(self).glycolytic_cycle.workers@,
            final(self).glycolytic_cycle.task_queue@ == old(self).glycolytic_cycle.task_queue@,
            final(self).glycolytic_cycle.current_load == old(self).glycolytic_cycle.current_load,
            final(self).lactate_cycle == old(self).lactate_cycle,
            final(self).dreaming_module == old(self).dreaming_module,
            final(self).streams@ == old(self).streams@,
            final(self).ai_systems@ == old(self).ai_systems@,
    {
        let m = self.assess_metabolic_state();
        self.glycolytic_cycle.allocate_resources(context, &m);
        m
    }

    /// Last steps of a run, with a fresh decision id and the current time:
    /// see `conclude_run_with`.
    pub fn conclude_run(&mut self, context: StreamingContext, evidence: Evidence, metabolic_state: MetabolicState) -> (d: MetacognitiveDecision)
        requires
            old(self).wf(),
        ensures
            final(self).wf(),
            d.wf(),
            d.stream_id == context.stream_id,
            d.timestamp == context.timestamp,
            d.evidence == evidence,
            exists|id: String| d == decision_of(context, evidence, metabolic_state, id),
            final(self).dreaming_module.experience_buffer@ == bounded_push(old(self).dreaming_module.experience_buffer@, d),
            d.confidence >= ARCHIVE_THRESHOLD ==> final(self).lactate_cycle.partial_results@ == old(self).lactate_cycle.partial_results@,
            d.confidence < ARCHIVE_THRESHOLD ==> exists|rid: String, now: i64|
                final(self).lactate_cycle.partial_results@
                    == old(self).lactate_cycle.partial_results@.push(#[trigger] partial_result_of(d, rid, now)),
            final(self).streams@ == old(self).streams@,
            final(self).ai_systems@ == old(self).ai_systems@,
            final(self).glycolytic_cycle == old(self).glycolytic_cycle,
    {
        let decision_id = host::fresh_id();
        let result_id = host::fresh_id();
        let now = host::unix_seconds();
        self.conclude_run_with(context, evidence, metabolic_state, decision_id, result_id, now)
    }

    /// Last steps of a run: weigh the layers, synthesize the decision,
    /// archive it under `result_id` at `now` when its confidence is below
    /// `ARCHIVE_THRESHOLD`, and always add it to the experience buffer.
    pub fn conclude_run_with(
        &mut self,
        context: StreamingContext,
        evidence: Evidence,
        metabolic_state: MetabolicState,
        decision_id: String,
        result_id: String,
        now: i64,
    ) -> (d: MetacognitiveDecision)
        requires
            old(self).wf(),
        ensures
            final(self).wf(),
            d.wf(),
            d == decision_of(context, evidence, metabolic_state, decision_id),
            final(self).dreaming_module.experience_buffer@ == bounded_push(old(self).dreaming_module.experience_buffer@, d),
            final(self).dreaming_module.dream_patterns@ == old(self).dreaming_module.dream_patterns@,
            final(self).dreaming_module.is_active == old(self).dreaming_module.is_active,
            final(self).lactate_cycle.lactate_level == old(self).lactate_cycle.lactate_level,
            final(self).lactate_cycle.partial_results@ == if d.confidence < ARCHIVE_THRESHOLD {
                old(self).lactate_cycle.partial_results@.push(partial_result_of(d, result_id, now))
            } else {
                old(self).lactate_cycle.partial_results@
            },
            final(self).streams@ == old(self).streams@,
            final(self).ai_systems@ == old(self).ai_systems@,
            final(self).glycolytic_cycle == old(self).glycolytic_cycle,
    {
        let contributions = calculate_layer_weights(&evidence, metabolic_state);
        let decision = synthesize_decision(decision_id, context, evidence, contributions);
        if decision.confidence < ARCHIVE_THRESHOLD {
            self.lactate_cycle.store_partial_result_at(&decision, result_id, now);
        }
        self.dreaming_module.incorporate_experience(&decision);
        decision
    }

    /// Metabolic snapshot, live stream count and registered scorer count.
    pub fn get_system_health(&self) -> (h: SystemHealth)
        ensures
            h.metabolic_state == self.metabolic_view(),
            h.active_streams == self.streams@.len(),
            h.registered_ai_systems == self.ai_systems@.len(),
    {
        SystemHealth {
            metabolic_state: self.assess_metabolic_state(),
            active_streams: self.streams.len(),
            registered_ai_systems: self.ai_systems.len(),
        }
    }
}

} // verus!
