use orchestrator_core::decision::{
    calculate_layer_weights, calculate_overall_confidence, classify_decision_type, extract_confidence,
    split_weights, synthesize_decision, DecisionType, Evidence, LayerEvidence, MetabolicState,
    ProcessingStage, StreamingContext, UNIT,
};

fn layer(confidence: Option<i32>) -> LayerEvidence {
    LayerEvidence { confidence, body: String::from("{}") }
}

fn evidence(a: i32, b: i32, c: i32) -> Evidence {
    Evidence { context: layer(Some(a)), reasoning: layer(Some(b)), intuition: layer(Some(c)) }
}

fn idle_state() -> MetabolicState {
    MetabolicState { glycolytic_load: 0, lactate_level: 0, dreaming_active: false, resource_allocation: None }
}

fn context(stream: &str, confidence: u64) -> StreamingContext {
    StreamingContext {
        stream_id: stream.to_string(),
        timestamp: 1_700_000_000_000,
        partial_data: vec![("score".to_string(), "3".to_string())],
        confidence_level: confidence,
        processing_stage: ProcessingStage::Context,
    }
}

#[test]
fn confidence_field_read_when_present() {
    assert_eq!(extract_confidence(&layer(Some(900_000))), 900_000);
    assert_eq!(extract_confidence(&layer(Some(0))), 0);
    assert_eq!(extract_confidence(&layer(Some(1_000_000))), 1_000_000);
}

#[test]
fn confidence_outside_unit_read_as_given() {
    assert_eq!(extract_confidence(&layer(Some(1_500_000))), 1_500_000);
    assert_eq!(extract_confidence(&layer(Some(-250_000))), -250_000);
}

#[test]
fn confidence_defaults_to_neutral() {
    assert_eq!(extract_confidence(&layer(None)), 500_000);
}

#[test]
fn weights_follow_confidences() {
    assert_eq!(split_weights(900_000, 800_000, 700_000), (375_000, 333_333, 291_667));
    assert_eq!(split_weights(1_000_000, 0, 0), (1_000_000, 0, 0));
    assert_eq!(split_weights(0, 0, 1), (0, 0, 1_000_000));
}

#[test]
fn weights_of_unusual_confidences() {
    // 1.5 / 2.0 and 0.5 / 2.0
    assert_eq!(split_weights(1_500_000, 500_000, 0), (750_000, 250_000, 0));
    // -0.5 / -0.3 and 0.2 / -0.3, rounded toward zero
    assert_eq!(split_weights(-500_000, 200_000, 0), (1_666_666, -666_666, 0));
    // totals of zero split evenly
    assert_eq!(split_weights(-500_000, 500_000, 0), (333_333, 333_333, 333_334));
}

#[test]
fn weights_of_all_zero_split_evenly() {
    assert_eq!(split_weights(0, 0, 0), (333_333, 333_333, 333_334));
}

#[test]
fn weights_always_make_one_whole() {
    let samples = [i32::MIN, -1_000_000, -7, 0, 1, 3, 333_333, 500_000, 999_999, 1_000_000, i32::MAX];
    for &a in samples.iter() {
        for &b in samples.iter() {
            for &c in samples.iter() {
                let (x, y, z) = split_weights(a, b, c);
                assert_eq!(x + y + z, UNIT as i64);
            }
        }
    }
}

#[test]
fn scenario_three_layers_fused() {
    let ctx = context("s1", 900_000);
    let ev = evidence(900_000, 800_000, 700_000);
    let contributions = calculate_layer_weights(&ev, idle_state());
    assert_eq!(contributions.context_weight, 375_000);
    assert_eq!(contributions.reasoning_weight, 333_333);
    assert_eq!(contributions.intuition_weight, 291_667);
    let overall = calculate_overall_confidence(&ev, &contributions);
    // 0.9 * 0.375 + 0.8 * 0.333333 + 0.7 * 0.291667
    assert_eq!(overall, 808_333);
    let d = synthesize_decision("d1".to_string(), ctx, ev, contributions);
    assert_eq!(d.confidence, 808_333);
    assert_eq!(d.stream_id, "s1");
    assert_eq!(d.decision_id, "d1");
    assert_eq!(d.timestamp, 1_700_000_000_000);
    assert_eq!(d.decision_type, DecisionType::StreamAnalysis);
}

#[test]
fn failed_layers_count_as_neutral() {
    let ev = Evidence { context: layer(None), reasoning: layer(None), intuition: layer(Some(1_000_000)) };
    let contributions = calculate_layer_weights(&ev, idle_state());
    // 0.5 / 2.0, 0.5 / 2.0, rest
    assert_eq!(
        (contributions.context_weight, contributions.reasoning_weight, contributions.intuition_weight),
        (250_000, 250_000, 500_000)
    );
    assert_eq!(calculate_overall_confidence(&ev, &contributions), 750_000);
}

#[test]
fn every_context_is_a_stream_analysis() {
    let ev = evidence(1, 2, 3);
    assert_eq!(classify_decision_type(&context("x", 0), &ev), DecisionType::StreamAnalysis);
}

#[test]
fn fused_confidence_kept_within_unit() {
    // weights 0.75 / 0.25 / 0: weighted sum 1.25, kept at one
    let high = evidence(1_500_000, 500_000, 0);
    let w = calculate_layer_weights(&high, idle_state());
    assert_eq!(calculate_overall_confidence(&high, &w), UNIT);
    // weights 1.666666 / -0.666666 / 0: weighted sum about -0.97, kept at zero
    let low = evidence(-500_000, 200_000, 0);
    let w = calculate_layer_weights(&low, idle_state());
    assert_eq!(calculate_overall_confidence(&low, &w), 0);
}
