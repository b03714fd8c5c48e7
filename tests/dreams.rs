use orchestrator_core::decision::{
    DecisionType, Evidence, LayerContributions, LayerEvidence, MetabolicState, MetacognitiveDecision,
};
use orchestrator_core::dreaming::{
    create_novel_scenario, extract_pattern_signature, DreamPattern, DreamingModule, PatternSignature,
    EXPERIENCE_CAPACITY,
};

fn decision(id: &str, confidence: u64, context_weight: i64) -> MetacognitiveDecision {
    let empty = || LayerEvidence { confidence: None, body: String::new() };
    MetacognitiveDecision {
        decision_id: id.to_string(),
        stream_id: "s".to_string(),
        decision_type: DecisionType::StreamAnalysis,
        confidence,
        evidence: Evidence { context: empty(), reasoning: empty(), intuition: empty() },
        timestamp: 0,
        layer_contributions: LayerContributions {
            context_weight,
            reasoning_weight: 1_000_000 - context_weight,
            intuition_weight: 0,
            metabolic_state: MetabolicState { glycolytic_load: 0, lactate_level: 0, dreaming_active: false, resource_allocation: None },
        },
    }
}

fn signature(confidence: u64, context_weight: i64) -> PatternSignature {
    PatternSignature { decision_type: DecisionType::StreamAnalysis, confidence, context_weight }
}

#[test]
fn scenario_buffer_keeps_latest_thousand() {
    let mut m = DreamingModule::new();
    for i in 0..1200 {
        m.incorporate_experience(&decision(&format!("d{}", i), 500_000, 500_000));
    }
    assert_eq!(m.experience_buffer.len(), EXPERIENCE_CAPACITY);
    assert_eq!(m.experience_buffer[0].decision_id, "d200");
    assert_eq!(m.experience_buffer[999].decision_id, "d1199");
}

#[test]
fn buffer_below_capacity_keeps_everything() {
    let mut m = DreamingModule::new();
    for i in 0..5 {
        m.incorporate_experience(&decision(&format!("d{}", i), 1, 1));
    }
    assert_eq!(m.experience_buffer.len(), 5);
    assert_eq!(m.experience_buffer[0].decision_id, "d0");
}

#[test]
fn signature_rounds_to_hundredths() {
    let s = extract_pattern_signature(&decision("d", 808_333, 375_000));
    assert_eq!(s, signature(81, 38));
    let t = extract_pattern_signature(&decision("d", 804_999, 0));
    assert_eq!(t, signature(80, 0));
    let n = extract_pattern_signature(&decision("d", 0, -375_000));
    assert_eq!(n, signature(0, -37));
    let m = extract_pattern_signature(&decision("d", 0, -375_001));
    assert_eq!(m, signature(0, -38));
}

#[test]
fn consolidation_reinforces_repeats() {
    let mut m = DreamingModule::new();
    m.incorporate_experience(&decision("a", 900_000, 400_000));
    m.incorporate_experience(&decision("b", 700_000, 400_000));
    m.incorporate_experience(&decision("c", 901_000, 401_000));
    m.incorporate_experience(&decision("d", 899_000, 399_000));
    m.consolidate_patterns();
    let p = m.get_discovered_patterns();
    assert_eq!(p.len(), 2);
    assert_eq!(p[0].pattern_id, signature(90, 40));
    assert_eq!(p[0].frequency, 3);
    assert_eq!(p[0].strength, 1_210_000);
    assert_eq!(p[1].pattern_id, signature(70, 40));
    assert_eq!(p[1].frequency, 1);
    assert_eq!(p[1].strength, 1_000_000);
}

#[test]
fn decay_fades_and_purges() {
    let mut m = DreamingModule::new();
    m.dream_patterns.push(DreamPattern { pattern_id: signature(1, 1), pattern_type: DecisionType::AlertGeneration, strength: 1_210_000, frequency: 3 });
    m.dream_patterns.push(DreamPattern { pattern_id: signature(2, 2), pattern_type: DecisionType::AlertGeneration, strength: 100_000, frequency: 1 });
    m.dream_patterns.push(DreamPattern { pattern_id: signature(3, 3), pattern_type: DecisionType::AlertGeneration, strength: 1, frequency: 1 });
    m.update_pattern_strengths();
    let p = m.get_discovered_patterns();
    assert_eq!(p.len(), 2);
    assert_eq!(p[0].strength, 1_149_500);
    assert_eq!(p[0].frequency, 3);
    assert_eq!(p[1].pattern_id, signature(2, 2));
    assert_eq!(p[1].strength, 95_000);
    assert!(p.iter().all(|x| x.strength > 0));
}

#[test]
fn weak_pattern_fades_out_over_cycles() {
    let mut m = DreamingModule::new();
    m.dream_patterns.push(DreamPattern { pattern_id: signature(4, 4), pattern_type: DecisionType::StreamAnalysis, strength: 40, frequency: 1 });
    m.update_pattern_strengths();
    assert_eq!(m.get_discovered_patterns()[0].strength, 38);
    for _ in 0..200 {
        m.update_pattern_strengths();
    }
    assert!(m.get_discovered_patterns().is_empty());
}

#[test]
fn strong_patterns_inspire_scenarios() {
    let mut m = DreamingModule::new();
    m.dream_patterns.push(DreamPattern { pattern_id: signature(1, 1), pattern_type: DecisionType::BettingOpportunity, strength: 3_000_000, frequency: 9 });
    m.dream_patterns.push(DreamPattern { pattern_id: signature(2, 2), pattern_type: DecisionType::AlertGeneration, strength: 2_000_000, frequency: 9 });
    m.generate_novel_scenarios(77);
    let log = m.get_novel_discoveries();
    assert_eq!(log.len(), 1);
    assert_eq!(log[0].based_on_pattern, signature(1, 1));
    assert_eq!(log[0].pattern_type, DecisionType::BettingOpportunity);
    assert_eq!(log[0].strength, 3_000_000);
    assert_eq!(log[0].generated_at, 77);
    assert!(log[0].diversity_score < 1_000_000);
    assert!(!log[0].scenario_id.is_empty());
}

#[test]
fn scenario_ids_are_fresh() {
    let p = DreamPattern { pattern_id: signature(1, 1), pattern_type: DecisionType::StreamAnalysis, strength: 5, frequency: 1 };
    let a = create_novel_scenario(&p, 1);
    let b = create_novel_scenario(&p, 1);
    assert_ne!(a.scenario_id, b.scenario_id);
    assert!(a.spatial_variation < 1_000_000 && a.behavioral_variation < 1_000_000 && a.temporal_variation < 1_000_000);
}

#[test]
fn activation_needs_experience_and_window() {
    let mut m = DreamingModule::new();
    for i in 0..10 {
        m.incorporate_experience(&decision(&format!("d{}", i), 1, 1));
    }
    assert!(!m.should_activate_dreaming(7_210));
    m.incorporate_experience(&decision("d10", 1, 1));
    assert!(m.should_activate_dreaming(7_210));
    assert!(m.should_activate_dreaming(7_200));
    assert!(m.should_activate_dreaming(7_499));
    assert!(!m.should_activate_dreaming(7_500));
    assert!(m.should_activate_dreaming(-3_599));
    assert!(!m.should_activate_dreaming(-1));
}

#[test]
fn full_dream_cycle() {
    let mut m = DreamingModule::new();
    for i in 0..12 {
        m.incorporate_experience(&decision(&format!("d{}", i), 500_000, 500_000));
    }
    assert!(m.try_begin_dreaming(3_600));
    assert!(m.is_active());
    m.dream_cycle(3_600);
    m.end_dreaming();
    assert!(!m.is_active());
    let p = m.get_discovered_patterns();
    assert_eq!(p.len(), 1);
    assert_eq!(p[0].frequency, 12);
    assert!(p[0].strength > 2_000_000);
    assert_eq!(m.get_novel_discoveries().len(), 1);
}

#[test]
fn no_dreaming_outside_window() {
    let mut m = DreamingModule::new();
    for i in 0..12 {
        m.incorporate_experience(&decision(&format!("d{}", i), 1, 1));
    }
    assert!(!m.try_begin_dreaming(3_900));
    assert!(!m.is_active());
}
