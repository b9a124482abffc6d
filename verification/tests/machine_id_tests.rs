use kiro_pool::machine_id::{generate_from_credentials, generate_uuid_from_seed, is_valid_machine_id, is_valid_profile_arn};
use kiro_pool::KiroCredentials;
use sha2::Digest;

#[test]
fn test_is_valid_machine_id() {
    // a well-formed UUID v4
    assert!(is_valid_machine_id("b3981d12-4d61-418c-9b77-461db82a7cc4"));

    // wrong length
    assert!(!is_valid_machine_id("b3981d12"));
    assert!(!is_valid_machine_id("b3981d12-4d61-418c-9b77-461db82a7cc4-extra"));

    // missing hyphens
    assert!(!is_valid_machine_id("b3981d124d61418c9b77461db82a7cc4"));

    // a non-hex character
    assert!(!is_valid_machine_id("b3981d12-4d61-418c-9b7x-461db82a7cc4"));

    // empty
    assert!(!is_valid_machine_id(""));
}

#[test]
fn test_is_valid_profile_arn() {
    assert!(is_valid_profile_arn("arn:aws:sso::123456789:profile/test"));
    assert!(!is_valid_profile_arn("invalid"));
    assert!(!is_valid_profile_arn("arn:aws:sso::123456789"));
    assert!(!is_valid_profile_arn(""));
}

#[test]
fn test_generate_uuid_from_seed() {
    let result = generate_uuid_from_seed("test");
    assert_eq!(result.len(), 36);
    assert!(result.contains('-'));
    assert!(is_valid_machine_id(&result));

    // deterministic: the same seed yields the same fingerprint
    let result2 = generate_uuid_from_seed("test");
    assert_eq!(result, result2);

    // different seeds yield different fingerprints
    let result3 = generate_uuid_from_seed("test2");
    assert_ne!(result, result3);
}

#[test]
fn uuid_from_seed_matches_sha256_digest() {
    // the fingerprint must be the hex of the real SHA-256 digest's first
    // 16 bytes, not something derived from the seed some other way
    let digest = sha2::Sha256::digest("test".as_bytes());
    let mut expected = String::new();
    for (i, b) in digest[..16].iter().enumerate() {
        if i == 4 || i == 6 || i == 8 || i == 10 {
            expected.push('-');
        }
        expected.push_str(&format!("{:02x}", b));
    }
    assert_eq!(generate_uuid_from_seed("test"), expected);
}

#[test]
fn test_generate_with_credential_machine_id() {
    let mut credentials = KiroCredentials::default();
    credentials.machine_id = Some("b3981d12-4d61-418c-9b77-461db82a7cc4".to_string());

    let result = generate_from_credentials(&credentials);
    assert_eq!(result, Some("b3981d12-4d61-418c-9b77-461db82a7cc4".to_string()));
}

#[test]
fn test_generate_with_invalid_credential_machine_id() {
    let mut credentials = KiroCredentials::default();
    // a 64-character machine id is not the UUID shape
    credentials.machine_id = Some("a".repeat(64));
    credentials.profile_arn = Some("arn:aws:sso::123456789:profile/test".to_string());

    let result = generate_from_credentials(&credentials);
    // falls back to deriving from the profile ARN
    assert!(result.is_some());
    assert!(is_valid_machine_id(result.as_ref().unwrap()));
    assert_eq!(result.as_ref().unwrap().len(), 36);
}

#[test]
fn test_generate_with_profile_arn() {
    let mut credentials = KiroCredentials::default();
    credentials.profile_arn = Some("arn:aws:sso::123456789:profile/test".to_string());

    let result = generate_from_credentials(&credentials);
    assert!(result.is_some());
    assert_eq!(result.as_ref().unwrap().len(), 36);
    assert!(is_valid_machine_id(result.as_ref().unwrap()));
}

#[test]
fn test_generate_with_refresh_token() {
    let mut credentials = KiroCredentials::default();
    credentials.refresh_token = Some("test_refresh_token".to_string());

    let result = generate_from_credentials(&credentials);
    assert!(result.is_some());
    assert_eq!(result.as_ref().unwrap().len(), 36);
    assert!(is_valid_machine_id(result.as_ref().unwrap()));
}

#[test]
fn test_generate_without_credentials() {
    let credentials = KiroCredentials::default();

    let result = generate_from_credentials(&credentials);
    assert!(result.is_none());
}

#[test]
fn test_credential_machine_id_priority() {
    // a configured machine id wins over the profile ARN
    let mut credentials = KiroCredentials::default();
    credentials.profile_arn = Some("arn:aws:sso::123456789:profile/test".to_string());
    credentials.machine_id = Some("b3981d12-4d61-418c-9b77-461db82a7cc4".to_string());

    let result = generate_from_credentials(&credentials);
    assert_eq!(result, Some("b3981d12-4d61-418c-9b77-461db82a7cc4".to_string()));
}

#[test]
fn generate_from_profile_arn_uses_prefixed_seed() {
    let mut credentials = KiroCredentials::default();
    credentials.profile_arn = Some("arn:aws:sso::123456789:profile/test".to_string());

    let derived = generate_from_credentials(&credentials).unwrap();
    let direct = generate_uuid_from_seed("KotlinNativeAPI/arn:aws:sso::123456789:profile/test");
    assert_eq!(derived, direct);
}
