//! The background synthesizer: mines recurring decision patterns from recent
//! experience and logs synthetic scenarios built on the strongest ones.
use vstd::prelude::*;
use crate::decision::{DecisionType, MetacognitiveDecision, UNIT};
use crate::host;

verus! {

/// Most decisions the experience buffer holds.
pub const EXPERIENCE_CAPACITY: usize = 1000;

/// A dream cycle needs more buffered decisions than this.
pub const MIN_EXPERIENCES: usize = 10;

/// Length of an hour, in seconds.
pub const HOUR_SECONDS: i64 = 3600;

/// Dreaming happens in the first this-many seconds of each hour.
pub const DREAM_WINDOW_SECONDS: i64 = 300;

/// Strength of a newly found pattern (one whole).
pub const INITIAL_STRENGTH: u64 = 1_000_000;

/// Patterns stronger than this inspire a novel scenario.
pub const NOVELTY_STRENGTH: u64 = 2_000_000;

/// What identifies a pattern: decision type, and confidence and context
/// weight rounded to hundredths.
#[derive(Clone, Copy, Debug, PartialEq, Eq, Structural)]
pub struct PatternSignature {
    pub decision_type: DecisionType,
    pub confidence: u64,
    pub context_weight: i64,
}

/// A mined regularity.
#[derive(Clone, Copy, Debug, PartialEq, Eq, Structural)]
pub struct DreamPattern {
    pub pattern_id: PatternSignature,
    pub pattern_type: DecisionType,
    /// In millionths.
    pub strength: u64,
    pub frequency: u64,
}

/// A synthetic scenario derived from a strong pattern.
pub struct NovelScenario {
    pub scenario_id: String,
    pub based_on_pattern: PatternSignature,
    pub pattern_type: DecisionType,
    /// Strength of the pattern when the scenario was made, in millionths.
    pub strength: u64,
    /// Seconds since the Unix epoch.
    pub generated_at: i64,
    /// Random figures in `[0, 1)`, in millionths.
    pub diversity_score: u64,
    pub temporal_variation: u64,
    pub spatial_variation: u64,
    pub behavioral_variation: u64,
}

impl NovelScenario {
    /// A field-by-field copy.
    pub fn duplicate(&self) -> (r: Self)
        ensures
            r == *self,
    {
        NovelScenario {
            scenario_id: self.scenario_id.clone(),
            based_on_pattern: self.based_on_pattern,
            pattern_type: self.pattern_type,
            strength: self.strength,
            generated_at: self.generated_at,
            diversity_score: self.diversity_score,
            temporal_variation: self.temporal_variation,
            spatial_variation: self.spatial_variation,
            behavioral_variation: self.behavioral_variation,
        }
    }
}

/// A fraction in millionths rounded to hundredths, halves up.
pub open spec fn hundredths(v: int) -> int {
    (v + 5_000) / 10_000
}

pub open spec fn signature_of(d: MetacognitiveDecision) -> PatternSignature {
    PatternSignature {
        decision_type: d.decision_type,
        confidence: hundredths(d.confidence as int) as u64,
        context_weight: hundredths(d.layer_contributions.context_weight as int) as i64,
    }
}

/// Computes `signature_of`.
pub fn extract_pattern_signature(d: &MetacognitiveDecision) -> (s: PatternSignature)
    ensures
        s == signature_of(*d),
{
    PatternSignature {
        decision_type: d.decision_type,
        confidence: d.confidence / 10_000 + if d.confidence % 10_000 >= 5_000 { 1 } else { 0 },
        context_weight: round_hundredths(d.layer_contributions.context_weight),
    }
}

/// Computes `hundredths` on a signed value.
fn round_hundredths(v: i64) -> (r: i64)
    ensures
        r == hundredths(v as int),
{
    let s: i128 = v as i128 + 5_000;
    let q: i128 = s / 10_000;
    let m: i128 = s % 10_000;
    if m < 0 { (q - 1) as i64 } else { q as i64 }
}

/// Strength times 1.1, rounded down and capped at the largest word.
pub open spec fn reinforced(s: nat) -> nat {
    if s * 11 / 10 > u64::MAX { u64::MAX as nat } else { s * 11 / 10 }
}

/// Strength times 0.95, rounded down.
pub open spec fn faded(s: nat) -> nat {
    s * 95 / 100
}

/// Position of the first pattern at or after `i` with the given signature.
pub open spec fn position_from(ps: Seq<DreamPattern>, sig: PatternSignature, i: int) -> Option<int>
    decreases ps.len() - i,
{
    if i < 0 || i >= ps.len() {
        None
    } else if ps[i].pattern_id == sig {
        Some(i)
    } else {
        position_from(ps, sig, i + 1)
    }
}

/// The table after one decision is absorbed: a repeat bumps the frequency
/// (saturating) and reinforces the strength, a new signature is appended
/// with the initial strength.
pub open spec fn absorb(ps: Seq<DreamPattern>, d: MetacognitiveDecision) -> Seq<DreamPattern> {
    let sig = signature_of(d);
    match position_from(ps, sig, 0) {
        Some(i) => ps.update(i, DreamPattern {
            pattern_id: sig,
            pattern_type: ps[i].pattern_type,
            strength: reinforced(ps[i].strength as nat) as u64,
            frequency: if ps[i].frequency < u64::MAX { (ps[i].frequency + 1) as u64 } else { u64::MAX },
        }),
        None => ps.push(DreamPattern {
            pattern_id: sig,
            pattern_type: d.decision_type,
            strength: INITIAL_STRENGTH,
            frequency: 1,
        }),
    }
}

/// The table after absorbing every decision of `ds`, oldest first.
pub open spec fn absorb_all(ps: Seq<DreamPattern>, ds: Seq<MetacognitiveDecision>) -> Seq<DreamPattern>
    decreases ds.len(),
{
    if ds.len() == 0 { ps } else { absorb(absorb_all(ps, ds.drop_last()), ds.last()) }
}

pub open spec fn decayed(p: DreamPattern) -> DreamPattern {
    DreamPattern { strength: faded(p.strength as nat) as u64, ..p }
}

pub open spec fn alive(p: DreamPattern) -> bool {
    p.strength > 0
}

pub open spec fn is_strong(p: DreamPattern) -> bool {
    p.strength > NOVELTY_STRENGTH
}

/// The table after a decay pass: every strength faded, dead patterns gone.
pub open spec fn after_decay(ps: Seq<DreamPattern>) -> Seq<DreamPattern> {
    ps.map_values(|p: DreamPattern| decayed(p)).filter(|p: DreamPattern| alive(p))
}

/// The patterns that inspire a scenario, in table order.
pub open spec fn strong_patterns(ps: Seq<DreamPattern>) -> Seq<DreamPattern> {
    ps.filter(|p: DreamPattern| is_strong(p))
}

/// The buffer after one more decision: the oldest leaves once it is full.
pub open spec fn bounded_push(buf: Seq<MetacognitiveDecision>, d: MetacognitiveDecision) -> Seq<MetacognitiveDecision> {
    let s = buf.push(d);
    if s.len() > EXPERIENCE_CAPACITY { s.drop_first() } else { s }
}

/// The buffer after each decision of `ds` in turn.
pub open spec fn bounded_push_all(buf: Seq<MetacognitiveDecision>, ds: Seq<MetacognitiveDecision>) -> Seq<MetacognitiveDecision>
    decreases ds.len(),
{
    if ds.len() == 0 { buf } else { bounded_push(bounded_push_all(buf, ds.drop_last()), ds.last()) }
}

/// The last `EXPERIENCE_CAPACITY` elements of `s`, or all of them.
pub open spec fn latest(s: Seq<MetacognitiveDecision>) -> Seq<MetacognitiveDecision> {
    if s.len() > EXPERIENCE_CAPACITY { s.subrange(s.len() - EXPERIENCE_CAPACITY, s.len() as int) } else { s }
}

/// Whether a time falls in the first minutes of its hour (UTC).
pub open spec fn in_dream_window(now: int) -> bool {
    now % (HOUR_SECONDS as int) < DREAM_WINDOW_SECONDS
}

/// A scenario made from pattern `p` at time `now`.
pub open spec fn scenario_from(s: NovelScenario, p: DreamPattern, now: i64) -> bool {
    &&& s.based_on_pattern == p.pattern_id
    &&& s.pattern_type == p.pattern_type
    &&& s.strength == p.strength
    &&& s.generated_at == now
    &&& s.diversity_score < UNIT
    &&& s.temporal_variation < UNIT
    &&& s.spatial_variation < UNIT
    &&& s.behavioral_variation < UNIT
}

/// No two patterns share a signature.
pub open spec fn keys_distinct(ps: Seq<DreamPattern>) -> bool {
    forall|i: int, j: int|
        0 <= i < ps.len() && 0 <= j < ps.len() && i != j ==> (#[trigger] ps[i]).pattern_id != (#[trigger] ps[j]).pattern_id
}

pub open spec fn all_alive(ps: Seq<DreamPattern>) -> bool {
    forall|i: int| 0 <= i < ps.len() ==> alive(#[trigger] ps[i])
}

proof fn lemma_position_none(ps: Seq<DreamPattern>, sig: PatternSignature, i: int)
    requires
        0 <= i,
        position_from(ps, sig, i) is None,
    ensures
        forall|j: int| i <= j < ps.len() ==> (#[trigger] ps[j]).pattern_id != sig,
    decreases ps.len() - i,
{
    if i < ps.len() {
        lemma_position_none(ps, sig, i + 1);
    }
}

/// The synthesizer's state.
pub struct DreamingModule {
    /// Mined patterns, in order of discovery.
    pub dream_patterns: Vec<DreamPattern>,
    pub is_active: bool,
    /// Recent decisions, oldest first.
    pub experience_buffer: Vec<MetacognitiveDecision>,
    pub discovery_log: Vec<NovelScenario>,
}

impl DreamingModule {
    /// The buffer is within capacity, every pattern has positive strength,
    /// and signatures are keys.
    pub open spec fn wf(&self) -> bool {
        &&& self.experience_buffer@.len() <= EXPERIENCE_CAPACITY
        &&& all_alive(self.dream_patterns@)
        &&& keys_distinct(self.dream_patterns@)
    }

    /// An idle module with nothing buffered or mined.
    pub fn new() -> (m: Self)
        ensures
            m.wf(),
            !m.is_active,
            m.dream_patterns@.len() == 0,
            m.experience_buffer@.len() == 0,
            m.discovery_log@.len() == 0,
    {
        DreamingModule {
            dream_patterns: Vec::new(),
            is_active: false,
            experience_buffer: Vec::new(),
            discovery_log: Vec::new(),
        }
    }

    /// Appends a decision to the experience buffer, evicting the oldest once
    /// the buffer would exceed its capacity.
    pub fn incorporate_experience(&mut self, decision: &MetacognitiveDecision)
        requires
            old(self).wf(),
        ensures
            final(self).wf(),
            final(self).experience_buffer@ == bounded_push(old(self).experience_buffer@, *decision),
            final(self).dream_patterns@ == old(self).dream_patterns@,
            final(self).discovery_log@ == old(self).discovery_log@,
            final(self).is_active == old(self).is_active,
    {
        self.experience_buffer.push(decision.duplicate());
        if self.experience_buffer.len() > EXPERIENCE_CAPACITY {
            let ghost s = self.experience_buffer@;
            self.experience_buffer.remove(0);
            assert(self.experience_buffer@ =~= s.drop_first());
        }
    }

    /// Whether a dream cycle should run now: enough buffered experience and a
    /// time inside the dream window.
    pub fn should_activate_dreaming(&self, now: i64) -> (b: bool)
        ensures
            b == (self.experience_buffer@.len() > MIN_EXPERIENCES && in_dream_window(now as int)),
    {
        let r: i64 = now % HOUR_SECONDS;
        let r: i64 = if r < 0 { r + HOUR_SECONDS } else { r };
        self.experience_buffer.len() > MIN_EXPERIENCES && r < DREAM_WINDOW_SECONDS
    }

    /// Folds every buffered decision, oldest first, into the pattern table.
    pub fn consolidate_patterns(&mut self)
        requires
            old(self).wf(),
        ensures
            final(self).wf(),
            final(self).dream_patterns@ == absorb_all(old(self).dream_patterns@, old(self).experience_buffer@),
            final(self).experience_buffer@ == old(self).experience_buffer@,
            final(self).discovery_log@ == old(self).discovery_log@,
            final(self).is_active == old(self).is_active,
    {
        let ghost ps0 = self.dream_patterns@;
        let n = self.experience_buffer.len();
        let mut k: usize = 0;
        while k < n
            invariant
                n == self.experience_buffer@.len(),
                0 <= k <= n,
                self.experience_buffer@ == old(self).experience_buffer@,
                self.discovery_log@ == old(self).discovery_log@,
                self.is_active == old(self).is_active,
                self.experience_buffer@.len() <= EXPERIENCE_CAPACITY,
                self.dream_patterns@ == absorb_all(ps0, self.experience_buffer@.subrange(0, k as int)),
                all_alive(self.dream_patterns@),
                keys_distinct(self.dream_patterns@),
            decreases n - k,
        {
            let ghost before = self.experience_buffer@.subrange(0, k as int);
            assert(self.experience_buffer@.subrange(0, k + 1).drop_last() =~= before);
            let sig = extract_pattern_signature(&self.experience_buffer[k]);
            let dtype = self.experience_buffer[k].decision_type;
            self.absorb_signature(sig, dtype);
            k = k + 1;
        }
        assert(self.experience_buffer@.subrange(0, n as int) =~= self.experience_buffer@);
    }

    fn absorb_signature(&mut self, sig: PatternSignature, dtype: DecisionType)
        requires
            all_alive(old(self).dream_patterns@),
            keys_distinct(old(self).dream_patterns@),
        ensures
            all_alive(final(self).dream_patterns@),
            keys_distinct(final(self).dream_patterns@),
            forall|d: MetacognitiveDecision| signature_of(d) == sig && d.decision_type == dtype
                ==> final(self).dream_patterns@ == #[trigger] absorb(old(self).dream_patterns@, d),
            final(self).experience_buffer@ == old(self).experience_buffer@,
            final(self).discovery_log@ == old(self).discovery_log@,
            final(self).is_active == old(self).is_active,
    {
        let ghost ps = self.dream_patterns@;
        let mut i: usize = 0;
        while i < self.dream_patterns.len()
            invariant
                0 <= i <= ps.len(),
                self.dream_patterns@ == ps,
                position_from(ps, sig, 0) == position_from(ps, sig, i as int),
            ensures
                i < ps.len() ==> ps[i as int].pattern_id == sig,
                position_from(ps, sig, 0) == position_from(ps, sig, i as int),
            decreases ps.len() - i,
        {
            if self.dream_patterns[i].pattern_id == sig {
                break;
            }
            i = i + 1;
        }
        if i < self.dream_patterns.len() {
            let p = self.dream_patterns[i];
            let strength: u64 = if p.strength as u128 * 11 / 10 > u64::MAX as u128 {
                u64::MAX
            } else {
                (p.strength as u128 * 11 / 10) as u64
            };
            let frequency: u64 = if p.frequency < u64::MAX { p.frequency + 1 } else { u64::MAX };
            proof {
                assert(p.strength as nat * 11 / 10 >= p.strength as nat);
            }
            self.dream_patterns.set(i, DreamPattern { pattern_id: sig, pattern_type: p.pattern_type, strength, frequency });
            proof {
                let v = self.dream_patterns@;
                assert forall|a: int, b: int| 0 <= a < v.len() && 0 <= b < v.len() && a != b
                    implies (#[trigger] v[a]).pattern_id != (#[trigger] v[b]).pattern_id by {
                    assert(ps[a].pattern_id != ps[b].pattern_id);
                }
            }
        } else {
            proof {
                assert(position_from(ps, sig, i as int) == None::<int>);
                lemma_position_none(ps, sig, 0);
            }
            self.dream_patterns.push(DreamPattern {
                pattern_id: sig,
                pattern_type: dtype,
                strength: INITIAL_STRENGTH,
                frequency: 1,
            });
            proof {
                let v = self.dream_patterns@;
                assert forall|a: int, b: int| 0 <= a < v.len() && 0 <= b < v.len() && a != b
                    implies (#[trigger] v[a]).pattern_id != (#[trigger] v[b]).pattern_id by {
                    if a < ps.len() && b < ps.len() {
                        assert(ps[a].pattern_id != ps[b].pattern_id);
                    } else if a < ps.len() {
                        assert(v[a] == ps[a]);
                    } else {
                        assert(v[b] == ps[b]);
                    }
                }
                assert forall|a: int| 0 <= a < v.len() implies alive(#[trigger] v[a]) by {
                    if a < ps.len() { assert(v[a] == ps[a]); }
                }
            }
        }
    }

    /// Logs one synthetic scenario for every pattern stronger than
    /// `NOVELTY_STRENGTH`, in table order, stamped with `now`.
    pub fn generate_novel_scenarios(&mut self, now: i64)
        requires
            old(self).wf(),
        ensures
            final(self).wf(),
            final(self).dream_patterns@ == old(self).dream_patterns@,
            final(self).experience_buffer@ == old(self).experience_buffer@,
            final(self).is_active == old(self).is_active,
            ({
                let strong = strong_patterns(old(self).dream_patterns@);
                let n0 = old(self).discovery_log@.len();
                &&& final(self).discovery_log@.len() == n0 + strong.len()
                &&& final(self).discovery_log@.subrange(0, n0 as int) == old(self).discovery_log@
                &&& forall|k: int| 0 <= k < strong.len()
                    ==> scenario_from(#[trigger] final(self).discovery_log@[n0 + k], strong[k], now)
            }),
    {
        let ghost strong_of = |p: DreamPattern| is_strong(p);
        let ghost ps = self.dream_patterns@;
        let ghost n0 = self.discovery_log@.len();
        let mut i: usize = 0;
        while i < self.dream_patterns.len()
            invariant
                0 <= i <= ps.len(),
                self.dream_patterns@ == ps,
                self.experience_buffer@ == old(self).experience_buffer@,
                self.is_active == old(self).is_active,
                old(self).wf(),
                ps == old(self).dream_patterns@,
                n0 == old(self).discovery_log@.len(),
                strong_of == (|p: DreamPattern| is_strong(p)),
                self.discovery_log@.len() == n0 + ps.subrange(0, i as int).filter(strong_of).len(),
                self.discovery_log@.subrange(0, n0 as int) == old(self).discovery_log@,
                forall|k: int| 0 <= k < ps.subrange(0, i as int).filter(strong_of).len()
                    ==> scenario_from(#[trigger] self.discovery_log@[n0 + k], ps.subrange(0, i as int).filter(strong_of)[k], now),
            decreases ps.len() - i,
        {
            let ghost pre = ps.subrange(0, i as int);
            proof {
                assert(ps.subrange(0, i + 1) =~= pre.push(ps[i as int]));
                pre.lemma_filter_push(ps[i as int], strong_of);
            }
            let p = self.dream_patterns[i];
            if p.strength > NOVELTY_STRENGTH {
                let scenario = create_novel_scenario(&p, now);
                let ghost log = self.discovery_log@;
                self.discovery_log.push(scenario);
                proof {
                    assert(self.discovery_log@.subrange(0, n0 as int) =~= log.subrange(0, n0 as int));
                    assert forall|k: int| 0 <= k < ps.subrange(0, i + 1).filter(strong_of).len()
                        implies scenario_from(#[trigger] self.discovery_log@[n0 + k], ps.subrange(0, i + 1).filter(strong_of)[k], now) by {
                        if k < pre.filter(strong_of).len() {
                            assert(self.discovery_log@[n0 + k] == log[n0 + k]);
                        }
                    }
                }
            }
            i = i + 1;
        }
        assert(ps.subrange(0, ps.len() as int) =~= ps);
    }

    /// Decays every pattern's strength and drops those that reach zero.
    pub fn update_pattern_strengths(&mut self)
        requires
            old(self).wf(),
        ensures
            final(self).wf(),
            final(self).dream_patterns@ == after_decay(old(self).dream_patterns@),
            final(self).experience_buffer@ == old(self).experience_buffer@,
            final(self).discovery_log@ == old(self).discovery_log@,
            final(self).is_active == old(self).is_active,
    {
        let ghost decay = |p: DreamPattern| decayed(p);
        let ghost keep = |p: DreamPattern| alive(p);
        let ghost ps = self.dream_patterns@;
        let mut kept: Vec<DreamPattern> = Vec::new();
        let mut i: usize = 0;
        while i < self.dream_patterns.len()
            invariant
                0 <= i <= ps.len(),
                self.dream_patterns@ == ps,
                decay == (|p: DreamPattern| decayed(p)),
                keep == (|p: DreamPattern| alive(p)),
                kept@ == ps.subrange(0, i as int).map_values(decay).filter(keep),
                keys_distinct(ps),
                keys_distinct(kept@),
                forall|k: int| 0 <= k < kept@.len() ==> exists|j: int| 0 <= j < i && (#[trigger] kept@[k]).pattern_id == (#[trigger] ps[j]).pattern_id,
            decreases ps.len() - i,
        {
            let ghost pre = ps.subrange(0, i as int).map_values(decay);
            proof {
                assert(ps.subrange(0, i + 1).map_values(decay) =~= pre.push(decayed(ps[i as int])));
                pre.lemma_filter_push(decayed(ps[i as int]), keep);
            }
            let p = self.dream_patterns[i];
            let strength: u64 = (p.strength as u128 * 95 / 100) as u64;
            if strength > 0 {
                let ghost prev = kept@;
                kept.push(DreamPattern { strength, ..p });
                proof {
                    let v = kept@;
                    assert forall|a: int| 0 <= a < prev.len() implies (#[trigger] v[a]).pattern_id != p.pattern_id by {
                        let j = choose|j: int| 0 <= j < i && (#[trigger] prev[a]).pattern_id == (#[trigger] ps[j]).pattern_id;
                        assert(ps[j].pattern_id != ps[i as int].pattern_id);
                    }
                    assert forall|a: int, b: int| 0 <= a < v.len() && 0 <= b < v.len() && a != b
                        implies (#[trigger] v[a]).pattern_id != (#[trigger] v[b]).pattern_id by {
                        if a < prev.len() && b < prev.len() {
                            assert(prev[a].pattern_id != prev[b].pattern_id);
                        }
                    }
                    assert forall|k: int| 0 <= k < v.len() implies exists|j: int| 0 <= j < i + 1 && (#[trigger] v[k]).pattern_id == (#[trigger] ps[j]).pattern_id by {
                        if k < prev.len() {
                            let j = choose|j: int| 0 <= j < i && (#[trigger] prev[k]).pattern_id == (#[trigger] ps[j]).pattern_id;
                            assert(v[k].pattern_id == ps[j].pattern_id);
                        } else {
                            assert(v[k].pattern_id == ps[i as int].pattern_id);
                        }
                    }
                }
            }
            i = i + 1;
        }
        assert(ps.subrange(0, ps.len() as int) =~= ps);
        self.dream_patterns = kept;
        proof {
            broadcast use vstd::seq_lib::group_filter_ensures;
        }
    }

    /// One dream cycle: consolidation, scenario generation, then decay.
    pub fn dream_cycle(&mut self, now: i64)
        requires
            old(self).wf(),
        ensures
            final(self).wf(),
            final(self).experience_buffer@ == old(self).experience_buffer@,
            final(self).is_active == old(self).is_active,
            final(self).dream_patterns@ == after_decay(absorb_all(old(self).dream_patterns@, old(self).experience_buffer@)),
            ({
                let strong = strong_patterns(absorb_all(old(self).dream_patterns@, old(self).experience_buffer@));
                let n0 = old(self).discovery_log@.len();
                &&& final(self).discovery_log@.len() == n0 + strong.len()
                &&& final(self).discovery_log@.subrange(0, n0 as int) == old(self).discovery_log@
                &&& forall|k: int| 0 <= k < strong.len()
                    ==> scenario_from(#[trigger] final(self).discovery_log@[n0 + k], strong[k], now)
            }),
    {
        self.consolidate_patterns();
        self.generate_novel_scenarios(now);
        self.update_pattern_strengths();
    }

    /// Marks the module active when a cycle should run at `now`.
    pub fn try_begin_dreaming(&mut self, now: i64) -> (b: bool)
        requires
            old(self).wf(),
        ensures
            final(self).wf(),
            b == (old(self).experience_buffer@.len() > MIN_EXPERIENCES && in_dream_window(now as int)),
            final(self).is_active == (old(self).is_active || b),
            final(self).dream_patterns@ == old(self).dream_patterns@,
            final(self).experience_buffer@ == old(self).experience_buffer@,
            final(self).discovery_log@ == old(self).discovery_log@,
    {
        let b = self.should_activate_dreaming(now);
        if b {
            self.is_active = true;
        }
        b
    }

    /// Marks the module idle again.
    pub fn end_dreaming(&mut self)
        requires
            old(self).wf(),
        ensures
            final(self).wf(),
            !final(self).is_active,
            final(self).dream_patterns@ == old(self).dream_patterns@,
            final(self).experience_buffer@ == old(self).experience_buffer@,
            final(self).discovery_log@ == old(self).discovery_log@,
    {
        self.is_active = false;
    }

    /// Whether a dream cycle is running.
    pub fn is_active(&self) -> (b: bool)
        ensures
            b == self.is_active,
    {
        self.is_active
    }

    /// A copy of the pattern table.
    pub fn get_discovered_patterns(&self) -> (r: Vec<DreamPattern>)
        ensures
            r@ == self.dream_patterns@,
    {
        let mut out: Vec<DreamPattern> = Vec::new();
        let mut i: usize = 0;
        while i < self.dream_patterns.len()
            invariant
                0 <= i <= self.dream_patterns@.len(),
                out@ == self.dream_patterns@.subrange(0, i as int),
            decreases self.dream_patterns@.len() - i,
        {
            out.push(self.dream_patterns[i]);
            assert(out@ =~= self.dream_patterns@.subrange(0, i + 1));
            i = i + 1;
        }
        assert(out@ =~= self.dream_patterns@);
        out
    }

    /// A copy of the discovery log.
    pub fn get_novel_discoveries(&self) -> (r: Vec<NovelScenario>)
        ensures
            r@ == self.discovery_log@,
    {
        let mut out: Vec<NovelScenario> = Vec::new();
        let mut i: usize = 0;
        while i < self.discovery_log.len()
            invariant
                0 <= i <= self.discovery_log@.len(),
                out@ == self.discovery_log@.subrange(0, i as int),
            decreases self.discovery_log@.len() - i,
        {
            out.push(self.discovery_log[i].duplicate());
            assert(out@ =~= self.discovery_log@.subrange(0, i + 1));
            i = i + 1;
        }
        assert(out@ =~= self.discovery_log@);
        out
    }
}

/// A random figure in `[0, 1)`, in millionths.
fn random_fraction() -> (r: u64)
    ensures
        r < UNIT,
{
    host::random_word() % UNIT
}

/// A synthetic scenario built on `pattern`, with a fresh id and random
/// diversity figures.
pub fn create_novel_scenario(pattern: &DreamPattern, now: i64) -> (s: NovelScenario)
    ensures
        scenario_from(s, *pattern, now),
{
    NovelScenario {
        scenario_id: host::fresh_id(),
        based_on_pattern: pattern.pattern_id,
        pattern_type: pattern.pattern_type,
        strength: pattern.strength,
        generated_at: now,
        diversity_score: random_fraction(),
        temporal_variation: random_fraction(),
        spatial_variation: random_fraction(),
        behavioral_variation: random_fraction(),
    }
}

/// After a decay pass no pattern of zero strength is left.
pub proof fn lemma_decay_leaves_only_live_patterns(ps: Seq<DreamPattern>)
    ensures
        forall|i: int| 0 <= i < after_decay(ps).len() ==> (#[trigger] after_decay(ps)[i]).strength > 0,
{
    broadcast use vstd::seq_lib::group_filter_ensures;
}

/// Incorporating decisions one at a time into a buffer within capacity
/// leaves exactly the latest `EXPERIENCE_CAPACITY` of all of them.
pub proof fn lemma_buffer_keeps_latest(buf: Seq<MetacognitiveDecision>, ds: Seq<MetacognitiveDecision>)
    requires
        buf.len() <= EXPERIENCE_CAPACITY,
    ensures
        bounded_push_all(buf, ds) == latest(buf + ds),
    decreases ds.len(),
{
    if ds.len() == 0 {
        assert(buf + ds =~= buf);
    } else {
        let rest = ds.drop_last();
        lemma_buffer_keeps_latest(buf, rest);
        let prev = latest(buf + rest);
        assert(buf + ds =~= (buf + rest).push(ds.last()));
        let all = buf + ds;
        if prev.push(ds.last()).len() > EXPERIENCE_CAPACITY {
            assert(prev.push(ds.last()).drop_first() =~= all.subrange(all.len() - EXPERIENCE_CAPACITY, all.len() as int));
        } else {
            assert(prev.push(ds.last()) =~= all);
        }
    }
}

} // verus!
