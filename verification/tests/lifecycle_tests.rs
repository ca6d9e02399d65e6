use s3sh::lifecycle::LifecycleError;
use s3sh::lifecycle::LifecycleReadOutcome;
use s3sh::lifecycle::build_lifecycle_rule;
use s3sh::lifecycle::merge_lifecycle_rules;
use s3sh::lifecycle::upsert_rule_set;
use s3sh::transitions::StorageClass;
use s3sh::transitions::Transition;
use s3sh::transitions::TransitionsError;

#[test]
fn test_build_lifecycle_rule_fields() {
    let rule = build_lifecycle_rule(
        "rule-1",
        "logs/",
        r#"[{"days": 30, "storage_class": "STANDARD_IA"}]"#,
        Some(365),
        true,
    )
    .unwrap();
    assert_eq!(rule.id, "rule-1");
    assert_eq!(rule.prefix, "logs/");
    assert!(rule.enabled);
    assert_eq!(rule.expiration_days, Some(365));
    assert_eq!(
        rule.transitions,
        vec![Transition { days: 30, storage_class: StorageClass::StandardIa }]
    );
}

#[test]
fn test_build_lifecycle_rule_invalid_json() {
    // A malformed transition specification fails before any remote
    // interaction, with the expected message.
    let err = build_lifecycle_rule("rule-1", "logs/", "invalid-json", Some(365), true)
        .unwrap_err();
    assert!(matches!(
        err,
        LifecycleError::Transitions(TransitionsError::InvalidJson)
    ));
    assert!(err.message().contains("Invalid transitions JSON"));
}

#[test]
fn test_build_lifecycle_rule_unknown_storage_class() {
    // An unknown storage class rejects the whole upsert before any remote
    // interaction.
    let err = build_lifecycle_rule(
        "rule-1",
        "logs/",
        r#"[{"days": 30, "storage_class": "GLACIER_X"}]"#,
        None,
        true,
    )
    .unwrap_err();
    assert!(matches!(
        err,
        LifecycleError::Transitions(TransitionsError::UnknownStorageClass(ref n)) if n == "GLACIER_X"
    ));
}

#[test]
fn test_merge_not_found_recovers_to_empty_baseline() {
    // A "no lifecycle configuration" read is recovered as the empty
    // baseline: the written set holds exactly the new rule.
    let rule = build_lifecycle_rule(
        "rule-1",
        "logs/",
        r#"[{"days": 30, "storage_class": "STANDARD_IA"}]"#,
        Some(365),
        true,
    )
    .unwrap();
    let out = merge_lifecycle_rules(LifecycleReadOutcome::NoConfiguration, "rule-1", rule)
        .unwrap();
    assert_eq!(out.len(), 1);
    assert_eq!(out[0].0, Some("rule-1".to_string()));
    assert_eq!(out[0].1.id, "rule-1");
    assert_eq!(out[0].1.prefix, "logs/");
    assert_eq!(
        out[0].1.transitions,
        vec![Transition { days: 30, storage_class: StorageClass::StandardIa }]
    );
    assert_eq!(out[0].1.expiration_days, Some(365));
}

#[test]
fn test_merge_read_failure_is_fatal() {
    let err = merge_lifecycle_rules(
        LifecycleReadOutcome::Failed("access denied".to_string()),
        "rule-1",
        "payload".to_string(),
    )
    .unwrap_err();
    assert!(matches!(err, LifecycleError::GatewayRead(ref m) if m == "access denied"));
    assert_eq!(err.message(), "Failed to get lifecycle config: access denied");
}

fn entry(id: Option<&str>, payload: &str) -> (Option<String>, String) {
    (id.map(|s| s.to_string()), payload.to_string())
}

#[test]
fn test_upsert_replaces_by_id() {
    // Unrelated rules are kept, in order; the rule with the colliding id is
    // replaced; the candidate ends up last; ids never repeat.
    let remote = vec![
        entry(Some("rule-1"), "old contents"),
        entry(Some("other"), "untouched"),
        entry(None, "id-less survivor"),
    ];
    let out = upsert_rule_set(remote, "rule-1", "new contents".to_string());
    assert_eq!(
        out,
        vec![
            entry(Some("other"), "untouched"),
            entry(None, "id-less survivor"),
            entry(Some("rule-1"), "new contents"),
        ]
    );
}

#[test]
fn test_upsert_is_idempotent() {
    // Upserting the same candidate twice against the same starting state
    // yields the same final set, holding exactly one rule with the id.
    let remote = vec![
        entry(Some("keep"), "a"),
        entry(Some("rule-1"), "stale"),
        entry(Some("keep2"), "b"),
    ];
    let once = upsert_rule_set(remote, "rule-1", "fresh".to_string());
    let twice = upsert_rule_set(once.clone(), "rule-1", "fresh".to_string());
    assert_eq!(once, twice);
    assert_eq!(
        once.iter().filter(|p| p.0.as_deref() == Some("rule-1")).count(),
        1
    );
}

#[test]
fn test_merge_upserts_into_read_rules() {
    let remote = vec![entry(Some("other"), "kept")];
    let out = merge_lifecycle_rules(
        LifecycleReadOutcome::Rules(remote),
        "rule-1",
        "contents".to_string(),
    )
    .unwrap();
    assert_eq!(
        out,
        vec![entry(Some("other"), "kept"), entry(Some("rule-1"), "contents")]
    );
}
