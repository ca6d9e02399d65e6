use s3sh::transitions::StorageClass;
use s3sh::transitions::Transition;
use s3sh::transitions::TransitionsError;
use s3sh::transitions::map_storage_class;
use s3sh::transitions::parse_transitions;

#[test]
fn test_parse_transitions_single_record() {
    let ts = parse_transitions(r#"[{"days": 30, "storage_class": "STANDARD_IA"}]"#).unwrap();
    assert_eq!(ts, vec![Transition { days: 30, storage_class: StorageClass::StandardIa }]);
}

#[test]
fn test_parse_transitions_member_order_and_whitespace() {
    let ts = parse_transitions(
        "  [ { \"storage_class\" : \"GLACIER\" , \"days\" : 0 } ,\n {\"days\":365,\"storage_class\":\"DEEP_ARCHIVE\"} ]  ",
    )
    .unwrap();
    assert_eq!(
        ts,
        vec![
            Transition { days: 0, storage_class: StorageClass::Glacier },
            Transition { days: 365, storage_class: StorageClass::DeepArchive },
        ]
    );
}

#[test]
fn test_parse_transitions_empty_list() {
    assert_eq!(parse_transitions("[]").unwrap(), vec![]);
    assert_eq!(parse_transitions("  [  ]  ").unwrap(), vec![]);
}

#[test]
fn test_parse_transitions_invalid_json() {
    let err = parse_transitions("invalid-json").unwrap_err();
    assert!(matches!(err, TransitionsError::InvalidJson));
    assert!(err.message().contains("Invalid transitions JSON"));

    assert!(parse_transitions("").is_err());
    assert!(parse_transitions("{}").is_err());
    assert!(parse_transitions("[{\"days\": 30}]").is_err()); // missing storage_class
    assert!(parse_transitions("[{\"storage_class\": \"GLACIER\"}]").is_err()); // missing days
    assert!(parse_transitions("[{\"days\": 1, \"days\": 2}]").is_err()); // duplicate member
    assert!(parse_transitions("[{\"days\": 30, \"storage_class\": \"GLACIER\"}")
        .is_err()); // unterminated list
    assert!(parse_transitions("[{\"days\": 30, \"storage_class\": \"GLACIER\"}] x")
        .is_err()); // trailing input
    assert!(parse_transitions("[{\"days\": 1, \"storage_class\": \"GLACIER\",}]")
        .is_err()); // trailing comma
}

#[test]
fn test_parse_transitions_ignores_unknown_members() {
    // Members this tool does not understand are read and discarded, whatever
    // JSON value they hold.
    let ts = parse_transitions(
        "[{\"note\": \"cold\", \"days\": 90, \"rank\": -1.5e3, \"flags\": [true, null, {\"deep\": []}], \"storage_class\": \"GLACIER\", \"extra\": {}}]",
    )
    .unwrap();
    assert_eq!(ts, vec![Transition { days: 90, storage_class: StorageClass::Glacier }]);

    // A malformed discarded value still fails the decode.
    assert!(parse_transitions(
        "[{\"days\": 1, \"storage_class\": \"GLACIER\", \"bad\": 01}]"
    )
    .is_err());
    assert!(parse_transitions(
        "[{\"days\": 1, \"storage_class\": \"GLACIER\", \"bad\": [1,}]"
    )
    .is_err());
}

#[test]
fn test_parse_transitions_day_bounds() {
    let ts = parse_transitions("[{\"days\": 2147483647, \"storage_class\": \"GLACIER\"}]")
        .unwrap();
    assert_eq!(ts[0].days, 2147483647);

    // Out of range, negative, fractional and exponent forms are rejected.
    assert!(parse_transitions("[{\"days\": 2147483648, \"storage_class\": \"GLACIER\"}]")
        .is_err());
    assert!(parse_transitions("[{\"days\": -5, \"storage_class\": \"GLACIER\"}]").is_err());
    assert!(parse_transitions("[{\"days\": 1.5, \"storage_class\": \"GLACIER\"}]").is_err());
    assert!(parse_transitions("[{\"days\": 3e1, \"storage_class\": \"GLACIER\"}]").is_err());
    assert!(parse_transitions("[{\"days\": \"30\", \"storage_class\": \"GLACIER\"}]").is_err());
}

#[test]
fn test_parse_transitions_unknown_storage_class() {
    let err = parse_transitions("[{\"days\": 30, \"storage_class\": \"GLACIER_X\"}]")
        .unwrap_err();
    match err {
        TransitionsError::UnknownStorageClass(ref name) => assert_eq!(name, "GLACIER_X"),
        ref other => panic!("expected an unknown storage class, got {:?}", other),
    }
    assert_eq!(err.message(), "Invalid storage class: GLACIER_X");

    // The first unknown class, in record order, is the one reported.
    let err = parse_transitions(
        "[{\"days\": 1, \"storage_class\": \"GLACIER\"}, {\"days\": 2, \"storage_class\": \"A\"}, {\"days\": 3, \"storage_class\": \"B\"}]",
    )
    .unwrap_err();
    assert!(matches!(err, TransitionsError::UnknownStorageClass(ref n) if n == "A"));
}

#[test]
fn test_map_storage_class_enumerated_set() {
    assert_eq!(map_storage_class("STANDARD_IA").unwrap(), StorageClass::StandardIa);
    assert_eq!(map_storage_class("ONEZONE_IA").unwrap(), StorageClass::OnezoneIa);
    assert_eq!(
        map_storage_class("INTELLIGENT_TIERING").unwrap(),
        StorageClass::IntelligentTiering
    );
    assert_eq!(map_storage_class("GLACIER").unwrap(), StorageClass::Glacier);
    assert_eq!(map_storage_class("DEEP_ARCHIVE").unwrap(), StorageClass::DeepArchive);

    let err = map_storage_class("glacier").unwrap_err();
    assert_eq!(err.class, "glacier");
    assert_eq!(err.message(), "Invalid storage class: glacier");
}

#[test]
fn test_parse_transitions_string_escapes() {
    // Escapes are decoded inside string values; a storage class spelled with
    // an escape decodes to the same identifier.
    let ts = parse_transitions("[{\"days\": 7, \"storage_class\": \"STANDARD\\u005FIA\"}]")
        .unwrap();
    assert_eq!(ts, vec![Transition { days: 7, storage_class: StorageClass::StandardIa }]);

    let err =
        parse_transitions("[{\"days\": 7, \"storage_class\": \"GLA\\tCIER\"}]").unwrap_err();
    assert!(matches!(err, TransitionsError::UnknownStorageClass(ref n) if n == "GLA\tCIER"));

    // A surrogate pair decodes to one character; a lone surrogate is
    // rejected as malformed.
    let err = parse_transitions("[{\"days\": 7, \"storage_class\": \"\\uD83D\\uDE00\"}]")
        .unwrap_err();
    assert!(matches!(err, TransitionsError::UnknownStorageClass(ref n) if n == "\u{1F600}"));
    assert!(parse_transitions("[{\"days\": 7, \"storage_class\": \"\\uD83D\"}]").is_err());
    assert!(parse_transitions("[{\"days\": 7, \"storage_class\": \"\\uZZZZ\"}]").is_err());
}
