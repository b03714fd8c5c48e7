use vstd::prelude::*;

verus! {

/// One whole in fixed-point millionths.
pub const UNIT: u64 = 1_000_000;

/// Confidence used for a layer whose evidence carries no usable confidence.
pub const NEUTRAL_CONFIDENCE: u64 = 500_000;

/// Decisions below this confidence are archived as incomplete.
pub const ARCHIVE_THRESHOLD: u64 = 800_000;

/// Stage tag of a streaming context.
#[derive(Clone, Copy, Debug, PartialEq, Eq, Structural)]
pub enum ProcessingStage {
    Context,
    Reasoning,
    Intuition,
    Complete,
}

/// Kind of a fused decision.
#[derive(Clone, Copy, Debug, PartialEq, Eq, Structural)]
pub enum DecisionType {
    BettingOpportunity,
    LocationVerification,
    TransactionValidation,
    StreamAnalysis,
    AlertGeneration,
}

/// One unit of input submitted on a stream.
pub struct StreamingContext {
    pub stream_id: String,
    /// Milliseconds since the Unix epoch.
    pub timestamp: i64,
    /// Named partial-data values, each held as JSON text.
    pub partial_data: Vec<(String, String)>,
    /// Confidence of the submitter, in millionths.
    pub confidence_level: u64,
    pub processing_stage: ProcessingStage,
}

impl StreamingContext {
    pub open spec fn wf(&self) -> bool {
        self.confidence_level <= UNIT
    }
}

/// What one cognitive layer produced: its JSON payload and the numeric
/// `confidence` field read from it, in millionths (`None` when absent or not
/// a number). Any number is carried, negative or above one alike.
pub struct LayerEvidence {
    pub confidence: Option<i32>,
    pub body: String,
}

/// The evidence of the three layers of one pipeline run.
pub struct Evidence {
    pub context: LayerEvidence,
    pub reasoning: LayerEvidence,
    pub intuition: LayerEvidence,
}

/// Named resource shares, in millionths.
#[derive(Clone, Copy, Debug, PartialEq, Eq, Structural)]
pub struct ResourceAllocation {
    pub cpu: u64,
    pub memory: u64,
    pub io: u64,
}

/// Point-in-time snapshot of the metabolic subsystems.
#[derive(Clone, Copy, Debug, PartialEq, Eq, Structural)]
pub struct MetabolicState {
    /// Fraction of busy workers, in millionths.
    pub glycolytic_load: u64,
    /// Pressure of the incomplete-result backlog, in millionths.
    pub lactate_level: u128,
    pub dreaming_active: bool,
    /// The last allocation computed by the scheduler, if any.
    pub resource_allocation: Option<ResourceAllocation>,
}

/// Per-layer weights, in millionths, and the metabolic snapshot they were
/// computed under. A weight is negative, or above one, exactly when the layer
/// confidences make it so.
#[derive(Clone, Copy, Debug, PartialEq, Eq, Structural)]
pub struct LayerContributions {
    pub context_weight: i64,
    pub reasoning_weight: i64,
    pub intuition_weight: i64,
    pub metabolic_state: MetabolicState,
}

impl LayerContributions {
    /// The weight triple sums to one whole.
    pub open spec fn wf(&self) -> bool {
        self.context_weight + self.reasoning_weight + self.intuition_weight == UNIT
    }
}

/// Output of one pipeline run.
pub struct MetacognitiveDecision {
    pub decision_id: String,
    pub stream_id: String,
    pub decision_type: DecisionType,
    /// Overall confidence, in millionths.
    pub confidence: u64,
    pub evidence: Evidence,
    /// Milliseconds since the Unix epoch, taken from the context.
    pub timestamp: i64,
    pub layer_contributions: LayerContributions,
}

impl MetacognitiveDecision {
    pub open spec fn wf(&self) -> bool {
        &&& self.confidence <= UNIT
        &&& self.layer_contributions.wf()
    }
}

/// Confidence read from a layer's evidence: the field's value whenever it is
/// a number, the neutral value otherwise.
pub open spec fn confidence_of(raw: Option<i32>) -> int {
    match raw {
        Some(v) => v as int,
        None => NEUTRAL_CONFIDENCE as int,
    }
}

pub open spec fn magnitude(x: int) -> nat {
    if x < 0 { (-x) as nat } else { x as nat }
}

/// `x / d` rounded toward zero.
pub open spec fn quotient(x: int, d: int) -> int {
    let q = (magnitude(x) / magnitude(d)) as int;
    if (x < 0) != (d < 0) { -q } else { q }
}

/// Weight of a layer of confidence `c` among confidences totalling `total`:
/// `c / total`, or a third when the total is zero.
pub open spec fn share_of(c: int, total: int) -> int {
    if total == 0 { UNIT as int / 3 } else { quotient(c * UNIT as int, total) }
}

/// The weight triple of three confidences: the first two are each
/// confidence's share of the total, rounded toward zero, and the third takes
/// the rest, so that the three always make one whole. A zero total is split
/// evenly.
pub open spec fn weights_of(a: int, b: int, c: int) -> (int, int, int) {
    let t = a + b + c;
    let x = share_of(a, t);
    let y = share_of(b, t);
    (x, y, UNIT as int - x - y)
}

/// The weighted sum of the layer confidences, rounded toward zero.
pub open spec fn weighted_sum(a: int, b: int, c: int, wa: int, wb: int, wc: int) -> int {
    quotient(a * wa + b * wb + c * wc, UNIT as int)
}

/// A value kept within `[0, UNIT]`.
pub open spec fn within_unit(v: int) -> nat {
    if v < 0 { 0 } else if v > UNIT { UNIT as nat } else { v as nat }
}

/// Overall confidence: the weighted sum, kept within the zero-to-one range
/// of a decision's confidence. Layer confidences within that range give a
/// weighted sum within it, which is then taken as it is.
pub open spec fn fused_confidence(a: int, b: int, c: int, wa: int, wb: int, wc: int) -> nat {
    within_unit(weighted_sum(a, b, c, wa, wb, wc))
}

/// The layer-weight triple always makes one whole, whatever the three
/// confidences, a zero total included.
pub proof fn lemma_weights_sum_to_one(a: int, b: int, c: int)
    ensures
        weights_of(a, b, c).0 + weights_of(a, b, c).1 + weights_of(a, b, c).2 == UNIT,
{
}

/// Confidences within zero and one give weights within zero and one, and a
/// weighted sum within zero and one that needs no bounding.
pub proof fn lemma_fractions_stay_fractions(a: int, b: int, c: int)
    requires
        0 <= a <= UNIT,
        0 <= b <= UNIT,
        0 <= c <= UNIT,
    ensures
        0 <= weights_of(a, b, c).0 <= UNIT,
        0 <= weights_of(a, b, c).1 <= UNIT,
        0 <= weights_of(a, b, c).2 <= UNIT,
        0 <= weighted_sum(a, b, c, weights_of(a, b, c).0, weights_of(a, b, c).1, weights_of(a, b, c).2) <= UNIT,
        fused_confidence(a, b, c, weights_of(a, b, c).0, weights_of(a, b, c).1, weights_of(a, b, c).2)
            == weighted_sum(a, b, c, weights_of(a, b, c).0, weights_of(a, b, c).1, weights_of(a, b, c).2),
{
    let t = a + b + c;
    let u = UNIT as int;
    let (x, y, z) = weights_of(a, b, c);
    if t > 0 {
        assert(x == (a * u) / t && y == (b * u) / t) by {
            assert(a * u >= 0 && b * u >= 0) by (nonlinear_arith)
                requires a >= 0, b >= 0, u > 0;
        }
        assert(x * t <= a * u && x >= 0) by (nonlinear_arith)
            requires t > 0, x == (a * u) / t, a >= 0, u > 0;
        assert(y * t <= b * u && y >= 0) by (nonlinear_arith)
            requires t > 0, y == (b * u) / t, b >= 0, u > 0;
        assert((x + y) * t <= t * u) by (nonlinear_arith)
            requires x * t <= a * u, y * t <= b * u, t == a + b + c, c >= 0, u > 0;
        assert(x + y <= u) by (nonlinear_arith)
            requires (x + y) * t <= t * u, t > 0;
    }
    assert(0 <= a * x <= u * x && 0 <= b * y <= u * y && 0 <= c * z <= u * z) by (nonlinear_arith)
        requires 0 <= a <= u, 0 <= b <= u, 0 <= c <= u, x >= 0, y >= 0, z >= 0;
    let s = a * x + b * y + c * z;
    assert(s <= u * u) by (nonlinear_arith)
        requires s <= u * x + u * y + u * z, x + y + z == u;
    assert(s / u <= u) by (nonlinear_arith)
        requires 0 <= s <= u * u, u > 0;
}

/// Computes `quotient` on values far from the ends of the `i128` range.
fn divide_toward_zero(x: i128, d: i128) -> (q: i128)
    requires
        d != 0,
        magnitude(x as int) < 0x4000_0000_0000_0000_0000_0000_0000_0000,
        magnitude(d as int) < 0x4000_0000_0000_0000_0000_0000_0000_0000,
    ensures
        q == quotient(x as int, d as int),
        magnitude(q as int) <= magnitude(x as int),
{
    let ax: u128 = if x < 0 { (-x) as u128 } else { x as u128 };
    let ad: u128 = if d < 0 { (-d) as u128 } else { d as u128 };
    let m: u128 = ax / ad;
    proof {
        assert(m <= ax) by (nonlinear_arith)
            requires m == ax / ad, ad >= 1;
    }
    if (x < 0) != (d < 0) { -(m as i128) } else { m as i128 }
}

/// Reads the confidence of one layer's evidence: its value whenever it is a
/// number, the neutral value otherwise; never fails.
pub fn extract_confidence(evidence: &LayerEvidence) -> (c: i32)
    ensures
        c == confidence_of(evidence.confidence),
{
    match evidence.confidence {
        Some(v) => v,
        None => NEUTRAL_CONFIDENCE as i32,
    }
}

/// Splits one whole among three layers in proportion to their confidences.
pub fn split_weights(a: i32, b: i32, c: i32) -> (w: (i64, i64, i64))
    ensures
        (w.0 as int, w.1 as int, w.2 as int) == weights_of(a as int, b as int, c as int),
        w.0 + w.1 + w.2 == UNIT,
{
    let total: i128 = a as i128 + b as i128 + c as i128;
    if total == 0 {
        let third: i64 = (UNIT / 3) as i64;
        (third, third, UNIT as i64 - 2 * third)
    } else {
        let u = UNIT as i128;
        proof {
            assert(magnitude(a * u) <= 0x8000_0000 * u) by (nonlinear_arith)
                requires -0x8000_0000 <= a < 0x8000_0000, u == UNIT;
            assert(magnitude(b * u) <= 0x8000_0000 * u) by (nonlinear_arith)
                requires -0x8000_0000 <= b < 0x8000_0000, u == UNIT;
        }
        let x = divide_toward_zero(a as i128 * u, total);
        let y = divide_toward_zero(b as i128 * u, total);
        (x as i64, y as i64, (u - x - y) as i64)
    }
}

impl LayerEvidence {
    /// A field-by-field copy.
    pub fn duplicate(&self) -> (r: Self)
        ensures
            r == *self,
    {
        LayerEvidence { confidence: self.confidence, body: self.body.clone() }
    }
}

impl Evidence {
    /// A field-by-field copy.
    pub fn duplicate(&self) -> (r: Self)
        ensures
            r == *self,
    {
        Evidence {
            context: self.context.duplicate(),
            reasoning: self.reasoning.duplicate(),
            intuition: self.intuition.duplicate(),
        }
    }

    /// The three layer confidences, as read by `extract_confidence`.
    pub open spec fn confidences(&self) -> (int, int, int) {
        (
            confidence_of(self.context.confidence),
            confidence_of(self.reasoning.confidence),
            confidence_of(self.intuition.confidence),
        )
    }
}

impl MetacognitiveDecision {
    /// A field-by-field copy.
    pub fn duplicate(&self) -> (r: Self)
        ensures
            r == *self,
    {
        MetacognitiveDecision {
            decision_id: self.decision_id.clone(),
            stream_id: self.stream_id.clone(),
            decision_type: self.decision_type,
            confidence: self.confidence,
            evidence: self.evidence.duplicate(),
            timestamp: self.timestamp,
            layer_contributions: self.layer_contributions,
        }
    }
}

/// Weights the three layers by their extracted confidences.
pub fn calculate_layer_weights(evidence: &Evidence, metabolic_state: MetabolicState) -> (r:
    LayerContributions)
    ensures
        (r.context_weight as int, r.reasoning_weight as int, r.intuition_weight as int)
            == weights_of(evidence.confidences().0, evidence.confidences().1, evidence.confidences().2),
        r.metabolic_state == metabolic_state,
        r.wf(),
{
    let a = extract_confidence(&evidence.context);
    let b = extract_confidence(&evidence.reasoning);
    let c = extract_confidence(&evidence.intuition);
    let w = split_weights(a, b, c);
    LayerContributions {
        context_weight: w.0,
        reasoning_weight: w.1,
        intuition_weight: w.2,
        metabolic_state,
    }
}

/// Overall confidence of a decision: each layer's confidence times its
/// weight, summed, and kept within zero and one.
pub fn calculate_overall_confidence(evidence: &Evidence, contributions: &LayerContributions) -> (c:
    u64)
    ensures
        c == fused_confidence(
            evidence.confidences().0,
            evidence.confidences().1,
            evidence.confidences().2,
            contributions.context_weight as int,
            contributions.reasoning_weight as int,
            contributions.intuition_weight as int,
        ),
        c <= UNIT,
{
    let a = extract_confidence(&evidence.context) as i128;
    let b = extract_confidence(&evidence.reasoning) as i128;
    let i = extract_confidence(&evidence.intuition) as i128;
    let wa = contributions.context_weight as i128;
    let wb = contributions.reasoning_weight as i128;
    let wi = contributions.intuition_weight as i128;
    proof {
        let lim: int = 0x4000_0000_0000_0000_0000_0000;
        assert(magnitude(a * wa) <= lim) by (nonlinear_arith)
            requires -0x8000_0000 <= a < 0x8000_0000, -0x8000_0000_0000_0000 <= wa < 0x8000_0000_0000_0000,
                lim == 0x4000_0000_0000_0000_0000_0000;
        assert(magnitude(b * wb) <= lim) by (nonlinear_arith)
            requires -0x8000_0000 <= b < 0x8000_0000, -0x8000_0000_0000_0000 <= wb < 0x8000_0000_0000_0000,
                lim == 0x4000_0000_0000_0000_0000_0000;
        assert(magnitude(i * wi) <= lim) by (nonlinear_arith)
            requires -0x8000_0000 <= i < 0x8000_0000, -0x8000_0000_0000_0000 <= wi < 0x8000_0000_0000_0000,
                lim == 0x4000_0000_0000_0000_0000_0000;
    }
    let sum: i128 = a * wa + b * wb + i * wi;
    let v = divide_toward_zero(sum, UNIT as i128);
    if v < 0 {
        0
    } else if v > UNIT as i128 {
        UNIT
    } else {
        v as u64
    }
}

/// Kind of decision a context leads to. Every context is classified as a
/// stream analysis.
pub fn classify_decision_type(context: &StreamingContext, evidence: &Evidence) -> (t: DecisionType)
    ensures
        t == DecisionType::StreamAnalysis,
{
    DecisionType::StreamAnalysis
}

/// Builds the decision of one pipeline run from its context, the three
/// layers' evidence and their weights.
pub fn synthesize_decision(
    decision_id: String,
    context: StreamingContext,
    evidence: Evidence,
    layer_contributions: LayerContributions,
) -> (d: MetacognitiveDecision)
    requires
        layer_contributions.wf(),
    ensures
        d.decision_id == decision_id,
        d.stream_id == context.stream_id,
        d.decision_type == DecisionType::StreamAnalysis,
        d.confidence == fused_confidence(
            evidence.confidences().0,
            evidence.confidences().1,
            evidence.confidences().2,
            layer_contributions.context_weight as int,
            layer_contributions.reasoning_weight as int,
            layer_contributions.intuition_weight as int,
        ),
        d.evidence == evidence,
        d.timestamp == context.timestamp,
        d.layer_contributions == layer_contributions,
        d.wf(),
{
    let decision_type = classify_decision_type(&context, &evidence);
    let confidence = calculate_overall_confidence(&evidence, &layer_contributions);
    MetacognitiveDecision {
        decision_id,
        stream_id: context.stream_id,
        decision_type,
        confidence,
        evidence,
        timestamp: context.timestamp,
        layer_contributions,
    }
}

} // verus!
