use sepsis_monitor::ethos::{EthosGuard, PatientData};
use sepsis_monitor::inference::{
    cooldown_elapsed, AlertSeverity, AlertType, InferenceResult, RiskLevel, StreamingConfig,
    StreamingInference, VitalUpdate, HISTORY_LIMIT,
};

fn m(x: i64) -> i64 {
    x * 1_000_000
}

fn w(name: &str, weight: u64) -> (String, u64) {
    (name.to_string(), weight)
}

fn update(id: &str, timestamp: i64, vitals: &[(&str, Option<i64>)], labs: &[(&str, Option<i64>)]) -> VitalUpdate {
    VitalUpdate {
        patient_id: id.to_string(),
        timestamp,
        vitals: vitals.iter().map(|(k, v)| (k.to_string(), *v)).collect(),
        labs: labs.iter().map(|(k, v)| (k.to_string(), *v)).collect(),
    }
}

fn engine(weights: Vec<(String, u64)>) -> StreamingInference {
    let mut e = StreamingInference::new(StreamingConfig::default());
    e.set_feature_weights(weights);
    e
}

#[test]
fn test_risk_level_from_score() {
    assert_eq!(RiskLevel::from_score(100_000), RiskLevel::Low);
    assert_eq!(RiskLevel::from_score(400_000), RiskLevel::Moderate);
    assert_eq!(RiskLevel::from_score(600_000), RiskLevel::High);
    assert_eq!(RiskLevel::from_score(900_000), RiskLevel::Critical);
}

#[test]
fn test_streaming_inference_basic() {
    let config = StreamingConfig::default();
    let mut engine = StreamingInference::new(config);
    engine.set_feature_weights(vec![("HR".to_string(), 1_000_000), ("MAP".to_string(), 800_000)]);

    let update = VitalUpdate {
        patient_id: "P001".to_string(),
        timestamp: 1000,
        vitals: vec![("HR".to_string(), Some(m(85))), ("MAP".to_string(), Some(m(70)))],
        labs: Vec::new(),
    };

    let (result, _alerts) = engine.process_update(update);
    assert!(result.is_some());
}

#[test]
fn risk_level_boundaries() {
    assert_eq!(RiskLevel::from_score(0), RiskLevel::Low);
    assert_eq!(RiskLevel::from_score(249_999), RiskLevel::Low);
    assert_eq!(RiskLevel::from_score(250_000), RiskLevel::Moderate);
    assert_eq!(RiskLevel::from_score(499_999), RiskLevel::Moderate);
    assert_eq!(RiskLevel::from_score(500_000), RiskLevel::High);
    assert_eq!(RiskLevel::from_score(749_999), RiskLevel::High);
    assert_eq!(RiskLevel::from_score(750_000), RiskLevel::Critical);
    assert_eq!(RiskLevel::from_score(1_000_000), RiskLevel::Critical);
}

#[test]
fn severity_escalation_boundary() {
    assert_eq!(AlertSeverity::for_risk(899_000), AlertSeverity::Critical);
    assert_eq!(AlertSeverity::for_risk(899_999), AlertSeverity::Critical);
    assert_eq!(AlertSeverity::for_risk(900_000), AlertSeverity::Emergency);
    assert!(AlertSeverity::Info < AlertSeverity::Warning);
    assert!(AlertSeverity::Warning < AlertSeverity::Critical);
    assert!(AlertSeverity::Critical < AlertSeverity::Emergency);
    assert_eq!(AlertSeverity::Info.rank(), 1);
    assert_eq!(AlertSeverity::Emergency.rank(), 4);
}

#[test]
fn severity_escalation_through_engine() {
    let mut e = engine(vec![w("HR", 1_000_000)]);
    let (r, alerts) = e.process_update(update("A", 0, &[("HR", Some(89_900_000)), ("MAP", Some(m(70)))], &[]));
    assert_eq!(r.unwrap().sepsis_risk, 899_000);
    assert_eq!(alerts.len(), 1);
    assert_eq!(alerts[0].severity, AlertSeverity::Critical);

    let (r, alerts) = e.process_update(update("B", 0, &[("HR", Some(m(90))), ("MAP", Some(m(70)))], &[]));
    assert_eq!(r.unwrap().sepsis_risk, 900_000);
    assert_eq!(alerts[0].severity, AlertSeverity::Emergency);
}

#[test]
fn end_to_end_two_features() {
    let mut e = engine(vec![w("HR", 1_000_000), w("MAP", 800_000)]);
    let (r, alerts) = e.process_update(update("P001", 1000, &[("HR", Some(m(85))), ("MAP", Some(m(70)))], &[]));
    let r: InferenceResult = r.unwrap();
    assert_eq!(r.patient_id, "P001");
    assert_eq!(r.timestamp, 1000);
    assert_eq!(r.confidence, 1_000_000);
    assert_eq!(r.sepsis_risk, 783_333);
    assert_eq!(r.risk_level, RiskLevel::Critical);
    assert_eq!(r.top_contributing_factors, vec![w("HR", 850_000), w("MAP", 560_000)]);
    assert_eq!(alerts.len(), 1);
    assert_eq!(alerts[0].alert_type, AlertType::SepsisRisk);
    assert_eq!(alerts[0].severity, AlertSeverity::Critical);
    assert_eq!(alerts[0].message, "HIGH SEPSIS RISK: 78.3%");
    assert_eq!(alerts[0].timestamp, 1000);
    assert_eq!(alerts[0].triggering_values, vec![w("HR", 850_000), w("MAP", 560_000)]);
    let state = e.patient_state("P001").unwrap();
    assert_eq!(state.current_risk, 783_333);
    assert_eq!(state.last_alert, Some(1000));
    assert_eq!(state.last_update, 1000);
}

#[test]
fn cooldown_suppresses_then_rearms() {
    let mut e = engine(vec![w("HR", 1_000_000)]);
    let vitals = [("HR", Some(m(95))), ("MAP", Some(m(70)))];
    let (r1, a1) = e.process_update(update("P", 1000, &vitals, &[]));
    assert!(r1.is_some());
    assert_eq!(a1.len(), 1);
    assert_eq!(a1[0].alert_type, AlertType::SepsisRisk);
    let (r2, a2) = e.process_update(update("P", 1100, &vitals, &[]));
    assert!(r2.is_some());
    assert!(a2.is_empty());
    let (_, a3) = e.process_update(update("P", 1400, &vitals, &[]));
    assert_eq!(a3.len(), 1);
    assert_eq!(e.patient_state("P").unwrap().last_alert, Some(1400));
}

#[test]
fn cooldown_rule() {
    assert!(cooldown_elapsed(None, 5, 300));
    assert!(!cooldown_elapsed(Some(1000), 1299, 300));
    assert!(cooldown_elapsed(Some(1000), 1300, 300));
    assert!(cooldown_elapsed(Some(i64::MIN), i64::MAX, u64::MAX));
}

#[test]
fn history_keeps_the_most_recent_updates() {
    let mut e = engine(vec![w("HR", 1_000_000)]);
    for t in 1..=30 {
        e.process_update(update("P", t, &[("HR", Some(m(50))), ("MAP", Some(m(70)))], &[]));
    }
    let state = e.patient_state("P").unwrap();
    assert_eq!(state.vital_history.len(), HISTORY_LIMIT);
    let times: Vec<i64> = state.vital_history.iter().map(|u| u.timestamp).collect();
    assert_eq!(times, (7..=30).collect::<Vec<i64>>());
    assert_eq!(state.last_update, 30);
}

#[test]
fn blocked_update_gives_one_guard_alert() {
    let mut e = engine(vec![w("Lactate", 1_000_000)]);
    let (r, alerts) = e.process_update(update("P9", 50, &[("Temp", Some(m(39)))], &[("Lactate", Some(m(100)))]));
    assert!(r.is_none());
    assert_eq!(alerts.len(), 1);
    assert_eq!(alerts[0].alert_type, AlertType::EthosBlocked);
    assert_eq!(alerts[0].severity, AlertSeverity::Warning);
    assert_eq!(alerts[0].timestamp, 50);
    assert_eq!(alerts[0].message, "Prediction blocked: Missing critical vital signs: [\"MAP\", \"HR\"]");
    assert!(alerts[0].triggering_values.is_empty());
    let state = e.patient_state("P9").unwrap();
    assert_eq!(state.vital_history.len(), 1);
    assert_eq!(state.last_alert, None);
    assert_eq!(state.current_risk, 0);
}

#[test]
fn guard_can_be_disabled_or_replaced() {
    let mut config = StreamingConfig::default();
    config.enable_ethos = false;
    let mut e = StreamingInference::new(config);
    let (r, alerts) = e.process_update(update("P", 1, &[], &[]));
    let r = r.unwrap();
    assert_eq!(r.sepsis_risk, 500_000);
    assert_eq!(r.confidence, 0);
    assert!(alerts.is_empty());

    let mut e = StreamingInference::new(StreamingConfig::default());
    e.set_ethos_guard(EthosGuard::new());
    let (r, _) = e.process_update(update("P", 1, &[], &[]));
    assert!(r.is_some());
}

#[test]
fn missing_features_are_skipped_not_zero() {
    let e = engine(vec![w("HR", 1_000_000), w("MAP", 1_000_000), w("Lactate", 2_000_000)]);
    let mut data = PatientData::new();
    data.set_vital("HR", Some(m(60)));
    data.set_vital("MAP", None);
    data.set_lab("Lactate", Some(m(30)));
    let (risk, contributions) = e.calculate_risk(&data);
    // (0.6 * 1 + 0.3 * 2) / 3
    assert_eq!(risk, 400_000);
    assert_eq!(contributions, vec![w("HR", 600_000), w("Lactate", 600_000)]);
    assert_eq!(e.calculate_confidence(&data), 666_666);
}

#[test]
fn values_are_clamped_and_ties_keep_order() {
    let e = engine(vec![w("A", 1_000_000), w("B", 1_000_000), w("C", 1_000_000)]);
    let mut data = PatientData::new();
    data.set_vital("A", Some(m(-5)));
    data.set_vital("B", Some(m(150)));
    data.set_vital("C", Some(m(100)));
    let (risk, contributions) = e.calculate_risk(&data);
    assert_eq!(risk, 666_666);
    assert_eq!(contributions, vec![w("B", 1_000_000), w("C", 1_000_000), w("A", 0)]);
}

#[test]
fn no_weights_gives_neutral_risk_and_zero_confidence() {
    let e = engine(Vec::new());
    let mut data = PatientData::new();
    data.set_vital("HR", Some(m(99)));
    assert_eq!(e.calculate_risk(&data).0, 500_000);
    assert!(e.calculate_risk(&data).1.is_empty());
    assert_eq!(e.calculate_confidence(&data), 0);

    let e = engine(vec![w("WBC", 1_000_000)]);
    assert_eq!(e.calculate_risk(&data).0, 500_000);
    assert_eq!(e.calculate_confidence(&data), 0);
}

#[test]
fn triggering_values_are_the_top_three() {
    let mut e = engine(vec![
        w("HR", 1_000_000),
        w("MAP", 1_000_000),
        w("Temp", 1_000_000),
        w("Resp", 1_000_000),
    ]);
    let (r, alerts) = e.process_update(update(
        "P",
        5,
        &[("HR", Some(m(80))), ("MAP", Some(m(90))), ("Temp", Some(m(70))), ("Resp", Some(m(95)))],
        &[],
    ));
    assert_eq!(r.unwrap().top_contributing_factors.len(), 4);
    assert_eq!(
        alerts[0].triggering_values,
        vec![w("Resp", 950_000), w("MAP", 900_000), w("HR", 800_000)]
    );
}

#[test]
fn later_duplicate_entries_win_in_the_snapshot() {
    let u = update("P", 1, &[("HR", Some(m(80))), ("HR", None)], &[("HR", Some(m(10)))]);
    let data = u.to_patient_data();
    assert_eq!(data.vitals.len(), 1);
    assert_eq!(data.get_vital("HR"), None);
    assert_eq!(data.get_lab("HR"), Some(m(10)));
}

#[test]
fn patients_are_tracked_separately() {
    let mut e = engine(vec![w("HR", 1_000_000)]);
    e.process_update(update("A", 1, &[("HR", Some(m(20))), ("MAP", Some(m(70)))], &[]));
    e.process_update(update("B", 2, &[("HR", Some(m(40))), ("MAP", Some(m(70)))], &[]));
    e.process_update(update("A", 3, &[("HR", Some(m(30))), ("MAP", Some(m(70)))], &[]));
    assert_eq!(e.patient_state("A").unwrap().vital_history.len(), 2);
    assert_eq!(e.patient_state("A").unwrap().current_risk, 300_000);
    assert_eq!(e.patient_state("B").unwrap().vital_history.len(), 1);
    assert!(e.patient_state("C").is_none());
}

#[test]
fn default_config() {
    let c = StreamingConfig::default();
    assert_eq!(c.sepsis_alert_threshold, 700_000);
    assert_eq!(c.alert_cooldown_secs, 300);
    assert!(c.enable_ethos);
}
