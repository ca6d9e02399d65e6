use s3sh::facets::ConfigurationFacets;
use s3sh::facets::EncryptionAlgorithm;
use s3sh::facets::FacetAction;
use s3sh::facets::VersioningStatus;
use s3sh::facets::map_encryption_mode;
use s3sh::facets::plan_facets;
use s3sh::facets::public_access_config;

fn facets(
    public: Option<bool>,
    versioning: Option<bool>,
    encryption: Option<&str>,
    tags: Vec<(&str, &str)>,
) -> ConfigurationFacets {
    ConfigurationFacets {
        public,
        versioning,
        encryption: encryption.map(|s| s.to_string()),
        tags: tags.into_iter().map(|(k, v)| (k.to_string(), v.to_string())).collect(),
    }
}

#[test]
fn test_plan_public_then_versioning_in_order() {
    // Exactly two writes, public access first, versioning second, with the
    // fully-permissive and Enabled mappings.
    let (actions, err) = plan_facets(facets(Some(true), Some(true), None, vec![]));
    assert!(err.is_none());
    assert_eq!(actions.len(), 2);
    match &actions[0] {
        FacetAction::PublicAccessBlock(cfg) => {
            assert!(!cfg.block_public_acls);
            assert!(!cfg.ignore_public_acls);
            assert!(!cfg.block_public_policy);
            assert!(!cfg.restrict_public_buckets);
        },
        other => panic!("expected a public-access write first, got {:?}", other),
    }
    assert!(matches!(&actions[1], FacetAction::Versioning(VersioningStatus::Enabled)));
}

#[test]
fn test_plan_empty_facets_touch_nothing() {
    let (actions, err) = plan_facets(facets(None, None, None, vec![]));
    assert!(actions.is_empty());
    assert!(err.is_none());
}

#[test]
fn test_public_access_mappings() {
    let permissive = public_access_config(true);
    assert!(
        !permissive.block_public_acls
            && !permissive.ignore_public_acls
            && !permissive.block_public_policy
            && !permissive.restrict_public_buckets
    );
    let restrictive = public_access_config(false);
    assert!(
        restrictive.block_public_acls
            && restrictive.ignore_public_acls
            && restrictive.block_public_policy
            && restrictive.restrict_public_buckets
    );
}

#[test]
fn test_plan_versioning_suspended() {
    let (actions, err) = plan_facets(facets(None, Some(false), None, vec![]));
    assert!(err.is_none());
    assert_eq!(actions.len(), 1);
    assert!(matches!(&actions[0], FacetAction::Versioning(VersioningStatus::Suspended)));
}

#[test]
fn test_plan_encryption_modes() {
    let (actions, err) = plan_facets(facets(None, None, Some("AES256"), vec![]));
    assert!(err.is_none());
    assert!(matches!(&actions[0], FacetAction::Encryption(EncryptionAlgorithm::Aes256)));

    let (actions, err) = plan_facets(facets(None, None, Some("aws:kms"), vec![]));
    assert!(err.is_none());
    assert!(matches!(&actions[0], FacetAction::Encryption(EncryptionAlgorithm::AwsKms)));
}

#[test]
fn test_plan_unknown_encryption_stops_before_tags() {
    // Facets earlier in the fixed order are still planned (and stand once
    // performed); the tag write is not reached.
    let (actions, err) = plan_facets(facets(
        Some(false),
        None,
        Some("rot13"),
        vec![("Team", "Platform")],
    ));
    let err = err.expect("an unknown encryption mode must be an error");
    assert_eq!(err.mode, "rot13");
    assert_eq!(err.message(), "Invalid encryption mode. Use 'AES256' or 'aws:kms'");
    assert_eq!(actions.len(), 1);
    assert!(matches!(&actions[0], FacetAction::PublicAccessBlock(_)));
}

#[test]
fn test_plan_tags_full_replacement_and_empty_short_circuit() {
    let (actions, err) = plan_facets(facets(
        None,
        None,
        None,
        vec![("Team", "Platform"), ("Env", "prod")],
    ));
    assert!(err.is_none());
    assert_eq!(actions.len(), 1);
    match &actions[0] {
        FacetAction::Tagging(tags) => {
            assert_eq!(
                tags,
                &vec![
                    ("Team".to_string(), "Platform".to_string()),
                    ("Env".to_string(), "prod".to_string()),
                ]
            );
        },
        other => panic!("expected a tagging write, got {:?}", other),
    }

    // An empty tag sequence plans no write at all.
    let (actions, err) = plan_facets(facets(None, None, None, vec![]));
    assert!(actions.is_empty());
    assert!(err.is_none());
}

#[test]
fn test_map_encryption_mode() {
    assert_eq!(map_encryption_mode("AES256").unwrap(), EncryptionAlgorithm::Aes256);
    assert_eq!(map_encryption_mode("aws:kms").unwrap(), EncryptionAlgorithm::AwsKms);
    assert!(map_encryption_mode("AES-256").is_err());
    assert!(map_encryption_mode("").is_err());
}
