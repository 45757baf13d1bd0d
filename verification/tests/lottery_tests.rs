use session_recorder_addon::models::dj::Dj;
use session_recorder_addon::models::event_session::EventSession;
use session_recorder_addon::models::lottery::{LotteryConfig, LotteryEngine};
use session_recorder_addon::WEIGHT_SCALE;
use std::collections::HashMap;

const NOW: i64 = 1_700_000_000;

fn create_test_dj(name: &str, hours_ago: i64) -> Dj {
    let email = format!("{}@example.com", name.to_lowercase());
    Dj::new(name.to_string(), Some(email), NOW - hours_ago * 3600)
}

#[test]
fn test_lottery_engine_creation() {
    let config = LotteryConfig::default();
    let _engine = LotteryEngine::new(config);
    // Engine should be created successfully
    assert!(true);
}

#[test]
fn test_empty_dj_list() {
    let config = LotteryConfig::default();
    let engine = LotteryEngine::new(config);
    let djs: Vec<Dj> = vec![];

    let result = engine.draw_winner(&djs, NOW, None);
    assert!(result.is_none());
}

#[test]
fn test_single_dj() {
    let config = LotteryConfig::default();
    let engine = LotteryEngine::new(config);
    let djs = vec![create_test_dj("Alice", 1)];

    let result = engine.draw_winner(&djs, NOW, None);
    assert!(result.is_some());

    let draw = result.unwrap();
    assert_eq!(draw.winner.name, "Alice");
    assert_eq!(draw.participants.len(), 1);
}

#[test]
fn test_multiple_djs() {
    let config = LotteryConfig::default();
    let engine = LotteryEngine::new(config);
    let djs = vec![
        create_test_dj("Alice", 3),
        create_test_dj("Bob", 2),
        create_test_dj("Charlie", 1),
    ];

    let result = engine.draw_winner(&djs, NOW, None);
    assert!(result.is_some());

    let draw = result.unwrap();
    assert_eq!(draw.participants.len(), 3);

    // Check that all participants have reasonable weights
    for participant in &draw.participants {
        assert!(participant.calculated_weight > 0);
        assert!(participant.selection_probability > 0);
        assert!(participant.selection_probability <= WEIGHT_SCALE);
    }

    // Check that probabilities sum to approximately 1.0
    let total_prob: u64 = draw
        .participants
        .iter()
        .map(|p| p.selection_probability)
        .sum();
    let diff = if total_prob > WEIGHT_SCALE {
        total_prob - WEIGHT_SCALE
    } else {
        WEIGHT_SCALE - total_prob
    };
    assert!(diff < 1000); // within 0.001 (the sum is in fact exact)
}

#[test]
fn test_weight_calculation() {
    let config = LotteryConfig::default();
    let engine = LotteryEngine::new(config);

    let early_dj = create_test_dj("Early", 5);
    let late_dj = create_test_dj("Late", 1);

    let djs = vec![early_dj, late_dj];
    let participants = engine.calculate_weights(&djs, NOW, None);

    // Early DJ should have higher weight due to time bonus
    let early_weight = participants
        .iter()
        .find(|p| p.dj.name == "Early")
        .unwrap()
        .calculated_weight;

    let late_weight = participants
        .iter()
        .find(|p| p.dj.name == "Late")
        .unwrap()
        .calculated_weight;

    assert!(early_weight > late_weight);
}

#[test]
fn test_late_arrival_penalty() {
    let config = LotteryConfig {
        late_arrival_penalty: WEIGHT_SCALE / 2,
        ..LotteryConfig::default()
    };
    let engine = LotteryEngine::new(config);

    let djs = vec![create_test_dj("TestDJ", 1)];
    let participants = engine.calculate_weights(&djs, NOW, None);

    assert_eq!(participants.len(), 1);
    assert!(participants[0].calculated_weight > 0);
}

#[test]
fn test_minimum_weight_enforcement() {
    let config = LotteryConfig::default();
    let engine = LotteryEngine::new(config);

    // Create a DJ with very low base weight (0.001)
    let mut low_weight_dj = create_test_dj("LowWeight", 1);
    low_weight_dj.weight = 1_000;

    let djs = vec![low_weight_dj];
    let participants = engine.calculate_weights(&djs, NOW, None);

    // Should enforce minimum weight of 0.1
    assert!(participants[0].calculated_weight >= 100_000);
}

#[test]
fn test_multiple_draws_fairness() {
    let config = LotteryConfig::default();
    let engine = LotteryEngine::new(config);

    let djs = vec![
        create_test_dj("Alice", 2),
        create_test_dj("Bob", 2),
        create_test_dj("Charlie", 2),
    ];

    let mut winner_counts: HashMap<String, u32> = HashMap::new();
    let num_draws = 100;

    // Run multiple draws and count winners
    for _ in 0..num_draws {
        if let Some(draw) = engine.draw_winner(&djs, NOW, None) {
            *winner_counts.entry(draw.winner.name).or_insert(0) += 1;
        }
    }

    // Each DJ should win at least once in 100 draws (very likely)
    assert_eq!(winner_counts.len(), 3);

    // No single DJ should win more than 80% of the time (indicates fairness)
    for count in winner_counts.values() {
        assert!(*count < 80);
    }
}

#[test]
fn test_single_candidate_draw_scenario() {
    // A pool of one candidate with weight 1.0: the winner is that
    // candidate, the snapshot holds one participant, and the selection
    // probability is exactly 1.0.
    let engine = LotteryEngine::new(LotteryConfig::default());
    let dj = Dj::new("a".to_string(), None, NOW);
    let id = dj.id.clone();
    let draw = engine.draw_winner(&vec![dj], NOW, None).unwrap();
    assert_eq!(draw.winner.id, id);
    assert_eq!(draw.participants.len(), 1);
    assert_eq!(draw.participants[0].selection_probability, WEIGHT_SCALE);
    assert_eq!(draw.algorithm_used, "weighted_random");
}

#[test]
fn test_probability_conservation_exact() {
    // With unequal weights the stored probabilities sum to exactly one:
    // the last participant's share absorbs the rounding remainder.
    let engine = LotteryEngine::new(LotteryConfig::default());
    let mut a = Dj::new("a".to_string(), None, NOW);
    let mut b = Dj::new("b".to_string(), None, NOW);
    let mut c = Dj::new("c".to_string(), None, NOW);
    a.weight = 1_000_000;
    b.weight = 2_000_000;
    c.weight = 4_000_000;
    let participants = engine.calculate_weights(&vec![a, b, c], NOW, None);
    let sum: u64 = participants.iter().map(|p| p.selection_probability).sum();
    assert_eq!(sum, WEIGHT_SCALE);
    // The rounded-down shares of the first participants are exact.
    assert_eq!(participants[0].selection_probability, 1_000_000 * WEIGHT_SCALE / 7_000_000);
    assert_eq!(participants[1].selection_probability, 2_000_000 * WEIGHT_SCALE / 7_000_000);
}

#[test]
fn test_late_penalty_scenario() {
    // Event started at T with a 2h cutoff and penalty 0.5: a candidate
    // registered at T+3h has exactly half the weight of one registered
    // at T+1h, holding the waiting bonus equal by using equal
    // registration-to-now deltas.
    let event_start: i64 = NOW - 10 * 3600;
    let event = EventSession::new(60, 2, Some(event_start), NOW);
    let config = LotteryConfig {
        late_arrival_penalty: 500_000,
        ..LotteryConfig::default()
    };
    let engine = LotteryEngine::new(config);

    let late = Dj::new("late".to_string(), None, event_start + 3 * 3600);
    let early = Dj::new("early".to_string(), None, event_start + 3600);

    let late_weight =
        engine.calculate_individual_weight(&late, event_start + 3 * 3600, Some(&event));
    let early_weight =
        engine.calculate_individual_weight(&early, event_start + 3600, Some(&event));

    assert_eq!(late_weight * 2, early_weight);
    assert_eq!(early_weight, WEIGHT_SCALE);
}

#[test]
fn test_weight_determinism() {
    // Given fixed now and config, the weight is a pure function:
    // repeated calls agree.
    let engine = LotteryEngine::new(LotteryConfig::default());
    let dj = create_test_dj("Stable", 7);
    let w1 = engine.calculate_individual_weight(&dj, NOW, None);
    let w2 = engine.calculate_individual_weight(&dj, NOW, None);
    assert_eq!(w1, w2);
}

#[test]
fn test_waiting_bonus_capped() {
    // The waiting bonus caps at +20%: a candidate registered 100 hours
    // ago gets the same weight as one registered 10 hours ago.
    let engine = LotteryEngine::new(LotteryConfig::default());
    let very_old = create_test_dj("VeryOld", 100);
    let old = create_test_dj("Old", 10);
    let w_very_old = engine.calculate_individual_weight(&very_old, NOW, None);
    let w_old = engine.calculate_individual_weight(&old, NOW, None);
    assert_eq!(w_very_old, w_old);
    assert_eq!(w_very_old, WEIGHT_SCALE + WEIGHT_SCALE / 5);
}

#[test]
fn test_late_penalty_applies_past_cutoff_by_any_margin() {
    // The cutoff is compared in seconds: half an hour past a 2h cutoff
    // is already late, and exactly the cutoff is not.
    let event_start: i64 = NOW - 10 * 3600;
    let event = EventSession::new(60, 2, Some(event_start), NOW);
    let engine = LotteryEngine::new(LotteryConfig::default());

    let just_late = Dj::new("just_late".to_string(), None, event_start + 2 * 3600 + 1800);
    let at_cutoff = Dj::new("at_cutoff".to_string(), None, event_start + 2 * 3600);

    let w_just_late = engine.calculate_individual_weight(
        &just_late,
        event_start + 2 * 3600 + 1800,
        Some(&event),
    );
    let w_at_cutoff =
        engine.calculate_individual_weight(&at_cutoff, event_start + 2 * 3600, Some(&event));

    assert_eq!(w_just_late, WEIGHT_SCALE / 2);
    assert_eq!(w_at_cutoff, WEIGHT_SCALE);
}
