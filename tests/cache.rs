use orchestrator_core::decision::{
    DecisionType, Evidence, LayerContributions, LayerEvidence, MetabolicState, MetacognitiveDecision,
};
use orchestrator_core::lactate::{contains_text, LactateCycle, PARTIAL_RESULT_TTL};

fn decision(id: &str, confidence: u64) -> MetacognitiveDecision {
    let layer = LayerEvidence { confidence: Some(confidence as i32), body: "{\"confidence\":0.5}".to_string() };
    MetacognitiveDecision {
        decision_id: id.to_string(),
        stream_id: "s1".to_string(),
        decision_type: DecisionType::StreamAnalysis,
        confidence,
        evidence: Evidence { context: layer, reasoning: LayerEvidence { confidence: None, body: String::new() }, intuition: LayerEvidence { confidence: None, body: String::new() } },
        timestamp: 5,
        layer_contributions: LayerContributions {
            context_weight: 500_000,
            reasoning_weight: 250_000,
            intuition_weight: 250_000,
            metabolic_state: MetabolicState { glycolytic_load: 0, lactate_level: 0, dreaming_active: false, resource_allocation: None },
        },
    }
}

#[test]
fn archived_entry_holds_decision_data() {
    let mut c = LactateCycle::new();
    c.store_partial_result_at(&decision("d1", 600_000), "r1".to_string(), 1000);
    assert_eq!(c.partial_results.len(), 1);
    let e = &c.partial_results[0];
    assert_eq!(e.result_id, "r1");
    assert_eq!(e.task_id, "d1");
    assert_eq!(e.completion_percentage, 60_000_000);
    assert_eq!(e.confidence, 600_000);
    assert_eq!(e.created_at, 1000);
    assert_eq!(e.ttl, 3600);
    assert_eq!(e.partial_data.context.confidence, Some(600_000));
}

#[test]
fn archiving_with_host_clock_adds_a_fresh_entry() {
    let mut c = LactateCycle::new();
    c.store_partial_result(&decision("d1", 100_000));
    c.store_partial_result(&decision("d1", 100_000));
    assert_eq!(c.partial_results.len(), 2);
    assert!(!c.partial_results[0].result_id.is_empty());
    assert_ne!(c.partial_results[0].result_id, c.partial_results[1].result_id);
    assert!(c.partial_results[0].created_at > 1_600_000_000);
}

#[test]
fn entries_purged_once_age_reaches_ttl() {
    let mut c = LactateCycle::new();
    c.store_partial_result_at(&decision("old", 100_000), "r1".to_string(), 0);
    c.store_partial_result_at(&decision("new", 100_000), "r2".to_string(), 100);
    c.cleanup_expired_results(PARTIAL_RESULT_TTL - 1);
    assert_eq!(c.partial_results.len(), 2);
    c.cleanup_expired_results(PARTIAL_RESULT_TTL);
    assert_eq!(c.partial_results.len(), 1);
    assert_eq!(c.partial_results[0].task_id, "new");
    c.cleanup_expired_results(PARTIAL_RESULT_TTL + 100);
    assert!(c.partial_results.is_empty());
}

#[test]
fn lactate_level_zero_when_empty() {
    let mut c = LactateCycle::new();
    c.update_lactate_level();
    assert_eq!(c.get_lactate_level(), 0);
    c.store_partial_result_at(&decision("d", 100_000), "r".to_string(), 0);
    c.update_lactate_level();
    assert!(c.get_lactate_level() > 0);
    c.cleanup_expired_results(10_000);
    c.update_lactate_level();
    assert_eq!(c.get_lactate_level(), 0);
}

#[test]
fn lactate_level_formula() {
    let mut c = LactateCycle::new();
    c.store_partial_result_at(&decision("a", 500_000), "r1".to_string(), 0);
    c.update_lactate_level();
    // 1 / (1 + 50)
    assert_eq!(c.get_lactate_level(), 19_607);
    c.store_partial_result_at(&decision("b", 0), "r2".to_string(), 0);
    c.update_lactate_level();
    // 2 / (1 + 25)
    assert_eq!(c.get_lactate_level(), 76_923);
}

#[test]
fn retrieval_finds_first_match_or_nothing() {
    let mut c = LactateCycle::new();
    c.store_partial_result_at(&decision("d1", 100_000), "r1".to_string(), 0);
    c.store_partial_result_at(&decision("d2", 200_000), "r2".to_string(), 0);
    c.store_partial_result_at(&decision("d1", 300_000), "r3".to_string(), 0);
    let found = c.retrieve_partial_result("d1").unwrap();
    assert_eq!(found.result_id, "r1");
    assert!(c.retrieve_partial_result("zz").is_none());
}

#[test]
fn recovery_matches_substring_of_decision_id() {
    let mut c = LactateCycle::new();
    c.store_partial_result_at(&decision("s1-a", 100_000), "r1".to_string(), 0);
    c.store_partial_result_at(&decision("s2-b", 100_000), "r2".to_string(), 0);
    c.store_partial_result_at(&decision("x-s1", 100_000), "r3".to_string(), 0);
    let r = c.recovery_from_incomplete("s1");
    assert_eq!(r.len(), 2);
    assert_eq!(r[0].result_id, "r1");
    assert_eq!(r[1].result_id, "r3");
    assert!(c.recovery_from_incomplete("s3").is_empty());
}

#[test]
fn substring_search() {
    assert!(contains_text("hello", "ll"));
    assert!(contains_text("hello", "hello"));
    assert!(contains_text("hello", ""));
    assert!(contains_text("", ""));
    assert!(!contains_text("a", "ab"));
    assert!(!contains_text("hello", "lo!"));
    assert!(contains_text("naïve", "ïv"));
}
