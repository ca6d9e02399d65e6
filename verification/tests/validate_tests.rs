use s3sh::validate::BucketNameError;
use s3sh::validate::parse_key_val;
use s3sh::validate::validate_bucket_name;

#[test]
fn test_validate_bucket_name() {
    assert!(validate_bucket_name("valid-bucket-name").is_ok());
    assert!(validate_bucket_name("123.456").is_ok());

    assert!(validate_bucket_name("UPPERCASE").is_err());
    assert!(validate_bucket_name("sh").is_err()); // Too short
    assert!(validate_bucket_name("-starts-with-hyphen").is_err());
    assert!(validate_bucket_name("ends-with-hyphen-").is_err());
    assert!(validate_bucket_name("contains space").is_err());
}

#[test]
fn test_validate_bucket_name_error_kinds() {
    assert_eq!(validate_bucket_name("sh").unwrap_err(), BucketNameError::Length);
    assert_eq!(validate_bucket_name("").unwrap_err(), BucketNameError::Length);
    assert_eq!(validate_bucket_name("UPPERCASE").unwrap_err(), BucketNameError::Charset);
    assert_eq!(validate_bucket_name("contains space").unwrap_err(), BucketNameError::Charset);
    assert_eq!(validate_bucket_name("under_score").unwrap_err(), BucketNameError::Charset);
    assert_eq!(
        validate_bucket_name("-starts-with-hyphen").unwrap_err(),
        BucketNameError::Edge
    );
    assert_eq!(validate_bucket_name("ends-with-hyphen-").unwrap_err(), BucketNameError::Edge);
    assert_eq!(validate_bucket_name(".dotted").unwrap_err(), BucketNameError::Edge);
}

#[test]
fn test_validate_bucket_name_length_bounds() {
    let just_right: String = "a".repeat(63);
    assert!(validate_bucket_name(&just_right).is_ok());
    let too_long: String = "a".repeat(64);
    assert_eq!(validate_bucket_name(&too_long).unwrap_err(), BucketNameError::Length);
    assert!(validate_bucket_name("abc").is_ok());
    assert_eq!(validate_bucket_name("ab").unwrap_err(), BucketNameError::Length);
}

#[test]
fn test_bucket_name_error_messages() {
    assert_eq!(
        BucketNameError::Length.message(),
        "Bucket name must be between 3 and 63 characters"
    );
    assert_eq!(
        BucketNameError::Charset.message(),
        "Bucket name must only contain lowercase letters, numbers, dots, and hyphens"
    );
    assert_eq!(
        BucketNameError::Edge.message(),
        "Bucket name must begin and end with a letter or number"
    );
}

#[test]
fn test_parse_key_val_splits_at_first_equals() {
    assert_eq!(
        parse_key_val("Team=Platform").unwrap(),
        ("Team".to_string(), "Platform".to_string())
    );
    assert_eq!(parse_key_val("a=b=c").unwrap(), ("a".to_string(), "b=c".to_string()));
    assert_eq!(parse_key_val("=v").unwrap(), ("".to_string(), "v".to_string()));
    assert_eq!(parse_key_val("k=").unwrap(), ("k".to_string(), "".to_string()));
}

#[test]
fn test_parse_key_val_rejects_missing_equals() {
    let err = parse_key_val("no-separator").unwrap_err();
    assert_eq!(err.message(), "invalid KEY=value: no `=` found in `no-separator`");
}
