use sepsis_monitor::ethos::{
    CounterfactualExplanation, EthosGuard, EthosResult, EthosRule, MaxUncertaintyThreshold,
    PatientData, RequireCriticalVitals,
};

fn m(x: i64) -> i64 {
    x * 1_000_000
}

fn names(v: &[String]) -> Vec<&str> {
    v.iter().map(|s| s.as_str()).collect()
}

#[test]
fn test_ethos_blocks_missing_vitals() {
    let guard = EthosGuard::clinical_default();
    let mut data = PatientData::new();

    // Missing MAP and HR should be blocked
    let result = guard.check(&data, "prediction");
    assert!(result.is_blocked());

    // Add MAP but not HR - still blocked
    data.set_vital("MAP", Some(m(75)));
    let result = guard.check(&data, "prediction");
    assert!(result.is_blocked());

    // Add HR - now allowed
    data.set_vital("HR", Some(m(80)));
    let result = guard.check(&data, "prediction");
    assert!(result.is_allowed());
}

#[test]
fn test_counterfactual_explanation() {
    let rule = RequireCriticalVitals::new(vec!["MAP", "HR", "SpO2"]);
    let mut data = PatientData::new();
    data.set_vital("MAP", Some(m(75)));

    let explanation = rule.explain(&data);
    assert!(explanation.counterfactual.contains("HR"));
    assert!(explanation.counterfactual.contains("SpO2"));
}

#[test]
fn required_fields_lists_exactly_the_missing_in_order() {
    let rule = RequireCriticalVitals::new(vec!["MAP", "HR", "SpO2"]);
    let mut data = PatientData::new();
    data.set_vital("MAP", Some(m(75)));
    data.set_vital("HR", None);
    assert!(!rule.check(&data));
    assert_eq!(names(&rule.missing_vitals(&data)), vec!["HR", "SpO2"]);
    let e = rule.explain(&data);
    assert_eq!(e.counterfactual, "If HR, SpO2 were available, prediction would proceed");
    assert_eq!(e.rule_violated, "Missing critical vital signs: [\"HR\", \"SpO2\"]");
    assert_eq!(e.rule_id, "ETHOS-001");
    assert_eq!(e.blocked_action, "Sepsis Risk Prediction");
    assert_eq!(e.severity, 8);
    assert!(e.context.is_empty());
}

#[test]
fn required_fields_pass_when_all_present() {
    let rule = RequireCriticalVitals::new(vec!["MAP", "HR"]);
    let mut data = PatientData::new();
    data.set_vital("HR", Some(m(80)));
    data.set_vital("MAP", Some(0));
    assert!(rule.check(&data));
    assert!(rule.missing_vitals(&data).is_empty());
}

#[test]
fn required_fields_ignore_labs() {
    let rule = RequireCriticalVitals::new(vec!["MAP"]);
    let mut data = PatientData::new();
    data.set_lab("MAP", Some(m(70)));
    assert!(!rule.check(&data));
}

#[test]
fn uncertainty_at_threshold_passes() {
    let rule = MaxUncertaintyThreshold::new(500_000);
    let mut data = PatientData::new();
    data.set_vital("HR", Some(m(80)));
    data.set_vital("MAP", None);
    assert!(rule.check(&data));
    data.set_lab("Lactate", None);
    assert!(!rule.check(&data));
}

#[test]
fn empty_snapshot_is_fully_uncertain() {
    let data = PatientData::new();
    assert!(!MaxUncertaintyThreshold::new(1_000_000).check(&data));
    assert!(!MaxUncertaintyThreshold::new(500_000).check(&data));
    let e = MaxUncertaintyThreshold::new(500_000).explain(&data);
    assert_eq!(e.rule_violated, "Data uncertainty (100.0%) exceeds maximum threshold (50.0%)");
    assert_eq!(e.counterfactual, "If at least 50% of values were present, prediction would proceed");
    assert_eq!(e.rule_id, "ETHOS-002");
    assert_eq!(e.severity, 7);
    assert_eq!(
        e.context,
        vec![
            ("current_uncertainty".to_string(), "1.00".to_string()),
            ("threshold".to_string(), "0.50".to_string()),
        ]
    );
}

#[test]
fn uncertainty_explanation_rounds_percentages() {
    let rule = MaxUncertaintyThreshold::new(250_000);
    let mut data = PatientData::new();
    data.set_vital("HR", Some(m(80)));
    data.set_vital("MAP", None);
    data.set_lab("Lactate", None);
    assert!(!rule.check(&data));
    let e = rule.explain(&data);
    assert_eq!(e.rule_violated, "Data uncertainty (66.7%) exceeds maximum threshold (25.0%)");
    assert_eq!(e.counterfactual, "If at least 75% of values were present, prediction would proceed");
    assert_eq!(e.context[0].1, "0.67");
    assert_eq!(e.context[1].1, "0.25");
}

#[test]
fn zero_threshold_blocks_any_missing_value() {
    let rule = MaxUncertaintyThreshold::new(0);
    let mut data = PatientData::new();
    data.set_vital("HR", Some(m(80)));
    assert!(rule.check(&data));
    data.set_lab("WBC", None);
    assert!(!rule.check(&data));
}

#[test]
fn first_failing_rule_wins() {
    let mut data = PatientData::new();
    data.set_vital("MAP", None);

    let mut guard = EthosGuard::new();
    guard.add_rule(EthosRule::MaxUncertaintyThreshold(MaxUncertaintyThreshold::new(0)));
    guard.add_rule(EthosRule::RequireCriticalVitals(RequireCriticalVitals::new(vec!["MAP"])));
    match guard.check(&data, 7u32) {
        EthosResult::Blocked(e) => assert_eq!(e.rule_id, "ETHOS-002"),
        EthosResult::Allowed(_) => panic!("expected a block"),
    }

    let mut reversed = EthosGuard::new();
    reversed.add_rule(EthosRule::RequireCriticalVitals(RequireCriticalVitals::new(vec!["MAP"])));
    reversed.add_rule(EthosRule::MaxUncertaintyThreshold(MaxUncertaintyThreshold::new(0)));
    let decision = reversed.check(&data, 7u32);
    assert_eq!(decision.explanation().map(|e| e.rule_id.clone()), Some("ETHOS-001".to_string()));

    let all = reversed.check_all(&data);
    assert_eq!(all.len(), 2);
    assert_eq!(all[0].rule_id, "ETHOS-001");
    assert_eq!(all[1].rule_id, "ETHOS-002");
}

#[test]
fn allowed_carries_the_action() {
    let guard = EthosGuard::new();
    let data = PatientData::new();
    let decision = guard.check(&data, 42u32);
    assert!(decision.is_allowed());
    assert!(!decision.is_blocked());
    assert!(decision.explanation().is_none());
    assert_eq!(decision.unwrap(), 42);
    assert!(guard.check_all(&data).is_empty());
    assert!(EthosGuard::default().rules.is_empty());
}

#[test]
fn clinical_default_rules() {
    let guard = EthosGuard::clinical_default();
    assert_eq!(guard.rules.len(), 2);
    assert_eq!(guard.rules[0].id(), "ETHOS-001");
    assert_eq!(guard.rules[1].id(), "ETHOS-002");
    assert_eq!(guard.rules[1].description(), "Block prediction if data uncertainty exceeds threshold");
}

#[test]
fn context_insert_replaces_existing_key() {
    let e = CounterfactualExplanation::new(
        "a".to_string(),
        "b".to_string(),
        "c".to_string(),
        "d".to_string(),
        3,
    )
    .with_context("k".to_string(), "1".to_string())
    .with_context("j".to_string(), "2".to_string())
    .with_context("k".to_string(), "3".to_string());
    assert_eq!(
        e.context,
        vec![("k".to_string(), "3".to_string()), ("j".to_string(), "2".to_string())]
    );
    assert_eq!(e.severity, 3);
}

#[test]
fn patient_data_lookups() {
    let mut data = PatientData::new();
    data.set_vital("HR", Some(m(80)));
    data.set_vital("HR", Some(m(90)));
    data.set_vital("MAP", None);
    data.set_lab("Lactate", Some(2_500_000));
    assert_eq!(data.vitals.len(), 2);
    assert_eq!(data.get_vital("HR"), Some(m(90)));
    assert_eq!(data.get_vital("MAP"), None);
    assert!(data.is_vital_missing("MAP"));
    assert!(data.is_vital_missing("SpO2"));
    assert!(!data.is_vital_missing("HR"));
    assert_eq!(data.get_lab("Lactate"), Some(2_500_000));
    assert!(!data.is_lab_missing("Lactate"));
    assert!(data.is_lab_missing("HR"));
}
