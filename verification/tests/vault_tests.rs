use treasure_chest::cipher;
use treasure_chest::config::Config;
use treasure_chest::metadata::Metadata;
use treasure_chest::vault::{
    DownloadError, StoreError, UploadError, Vault, decode_key, receipt_response,
};

fn test_config() -> Config {
    Config {
        body_max_size: 1024,
        max_download_attempts: 3,
        max_uploads_per_window: 5,
        upload_window_secs: 86400,
        lifetime_secs: 604800,
        one_shot_download: true,
    }
}

fn no_metadata() -> Metadata {
    Metadata { filename: Vec::new(), content_type: Vec::new() }
}

fn wrong_key(key: &[u8]) -> Vec<u8> {
    let mut other = key.to_vec();
    other[0] ^= 1;
    other
}

#[test]
fn upload_then_download_returns_content_and_metadata() {
    let mut vault = Vault::new(test_config());
    let metadata = Metadata { filename: b"greeting.txt".to_vec(), content_type: b"text/plain".to_vec() };
    let receipt = vault.upload(b"A".to_vec(), b"hello".to_vec(), &metadata, 1000).unwrap();
    let out = vault.download(receipt.id, &receipt.key, b"B".to_vec(), 1500).unwrap();
    assert_eq!(out.content, b"hello".to_vec());
    assert_eq!(out.metadata.filename, b"greeting.txt".to_vec());
    assert_eq!(out.metadata.content_type, b"text/plain".to_vec());
    assert_eq!(vault.ledger_len(), 1);
}

#[test]
fn successful_download_consumes_the_file() {
    let mut vault = Vault::new(test_config());
    let receipt = vault.upload(b"A".to_vec(), b"hello".to_vec(), &no_metadata(), 1000).unwrap();
    vault.download(receipt.id, &receipt.key, b"B".to_vec(), 1001).unwrap();
    let again = vault.download(receipt.id, &receipt.key, b"B".to_vec(), 1002);
    assert!(matches!(again, Err(DownloadError::NotFound)));
    assert_eq!(vault.ledger_len(), 1);
}

#[test]
fn counting_policy_lets_successful_downloads_repeat_within_budget() {
    let mut config = test_config();
    config.one_shot_download = false;
    let mut vault = Vault::new(config);
    let receipt = vault.upload(b"A".to_vec(), b"hello".to_vec(), &no_metadata(), 1000).unwrap();
    for attempt in 0..3u64 {
        let out = vault.download(receipt.id, &receipt.key, b"B".to_vec(), 1001 + attempt).unwrap();
        assert_eq!(out.content, b"hello".to_vec());
    }
    let fourth = vault.download(receipt.id, &receipt.key, b"B".to_vec(), 1010);
    assert!(matches!(fourth, Err(DownloadError::NotFound)));
    assert_eq!(vault.ledger_len(), 3);
}

#[test]
fn unknown_id_is_not_found_and_leaves_no_ledger_entry() {
    let mut vault = Vault::new(test_config());
    let key = cipher::generate_key();
    let result = vault.download(42, &key, b"B".to_vec(), 1000);
    assert!(matches!(result, Err(DownloadError::NotFound)));
    assert_eq!(vault.ledger_len(), 0);
}

#[test]
fn wrong_key_is_unauthorized_and_recorded() {
    let mut vault = Vault::new(test_config());
    let receipt = vault.upload(b"A".to_vec(), b"hello".to_vec(), &no_metadata(), 1000).unwrap();
    let result = vault.download(receipt.id, &wrong_key(&receipt.key), b"B".to_vec(), 1001);
    assert!(matches!(result, Err(DownloadError::Unauthorized)));
    assert_eq!(vault.ledger_len(), 1);
}

#[test]
fn wrong_key_attempts_exhaust_the_budget() {
    let mut vault = Vault::new(test_config());
    let receipt = vault.upload(b"A".to_vec(), b"hello".to_vec(), &no_metadata(), 1000).unwrap();
    let bad = wrong_key(&receipt.key);
    for attempt in 0..3u64 {
        let result = vault.download(receipt.id, &bad, b"B".to_vec(), 1001 + attempt);
        assert!(matches!(result, Err(DownloadError::Unauthorized)));
        assert_eq!(vault.ledger_len(), attempt as usize + 1);
    }
    let fourth = vault.download(receipt.id, &receipt.key, b"B".to_vec(), 1010);
    assert!(matches!(fourth, Err(DownloadError::NotFound)));
    assert_eq!(vault.ledger_len(), 3);
}

#[test]
fn expired_file_is_not_found_even_with_correct_key() {
    let mut config = test_config();
    config.lifetime_secs = 100;
    let mut vault = Vault::new(config);
    let receipt = vault.upload(b"A".to_vec(), b"hello".to_vec(), &no_metadata(), 1000).unwrap();
    let late = vault.download(receipt.id, &receipt.key, b"B".to_vec(), 1101);
    assert!(matches!(late, Err(DownloadError::NotFound)));
    assert_eq!(vault.ledger_len(), 0);
}

#[test]
fn download_at_the_expiry_moment_still_succeeds() {
    let mut config = test_config();
    config.lifetime_secs = 100;
    let mut vault = Vault::new(config);
    let receipt = vault.upload(b"A".to_vec(), b"hello".to_vec(), &no_metadata(), 1000).unwrap();
    let out = vault.download(receipt.id, &receipt.key, b"B".to_vec(), 1100).unwrap();
    assert_eq!(out.content, b"hello".to_vec());
}

#[test]
fn body_at_the_maximum_is_accepted_and_one_more_is_rejected() {
    let mut config = test_config();
    config.body_max_size = 8;
    let mut vault = Vault::new(config);
    let fits = vault.upload(b"A".to_vec(), vec![7u8; 8], &no_metadata(), 1000);
    assert!(fits.is_ok());
    let too_big = vault.upload(b"A".to_vec(), vec![7u8; 9], &no_metadata(), 1001);
    assert!(matches!(too_big, Err(UploadError::BodyTooLarge)));
    assert_eq!(vault.file_count(), 1);
}

#[test]
fn oversized_metadata_is_rejected_even_with_small_body() {
    let mut vault = Vault::new(test_config());
    let long_name = Metadata { filename: vec![b'x'; 226], content_type: Vec::new() };
    let rejected = vault.upload(b"A".to_vec(), b"hi".to_vec(), &long_name, 1000);
    assert!(matches!(rejected, Err(UploadError::MetadataTooLarge)));
    assert_eq!(vault.file_count(), 0);
    let at_budget = Metadata { filename: vec![b'x'; 225], content_type: Vec::new() };
    let accepted = vault.upload(b"A".to_vec(), b"hi".to_vec(), &at_budget, 1001);
    assert!(accepted.is_ok());
}

#[test]
fn quota_exhaustion_blocks_until_the_window_elapses() {
    let mut config = test_config();
    config.max_uploads_per_window = 2;
    config.upload_window_secs = 100;
    let mut vault = Vault::new(config);
    vault.upload(b"A".to_vec(), b"one".to_vec(), &no_metadata(), 1000).unwrap();
    vault.upload(b"A".to_vec(), b"two".to_vec(), &no_metadata(), 1010).unwrap();
    let blocked = vault.upload(b"A".to_vec(), b"three".to_vec(), &no_metadata(), 1050);
    assert!(matches!(blocked, Err(UploadError::TooManyRequests)));
    assert_eq!(vault.file_count(), 2);
    let other_origin = vault.upload(b"B".to_vec(), b"three".to_vec(), &no_metadata(), 1050);
    assert!(other_origin.is_ok());
    let after_window = vault.upload(b"A".to_vec(), b"four".to_vec(), &no_metadata(), 1111);
    assert!(after_window.is_ok());
}

#[test]
fn rate_limit_counts_only_the_window() {
    let mut config = test_config();
    config.max_uploads_per_window = 1;
    config.upload_window_secs = 50;
    let mut vault = Vault::new(config);
    vault.upload(b"A".to_vec(), b"one".to_vec(), &no_metadata(), 1000).unwrap();
    assert!(vault.is_upload_limit_reached(&b"A".to_vec(), 1040));
    assert!(!vault.is_upload_limit_reached(&b"A".to_vec(), 1051));
    assert_eq!(vault.count_recent_uploads(&b"A".to_vec(), 1040), 1);
    assert_eq!(vault.count_recent_uploads(&b"A".to_vec(), 1051), 0);
    assert_eq!(vault.count_recent_uploads(&b"B".to_vec(), 1040), 0);
}

#[test]
fn expiry_arithmetic_overflow_is_internal() {
    let mut vault = Vault::new(test_config());
    let result = vault.upload(b"A".to_vec(), b"hello".to_vec(), &no_metadata(), u64::MAX - 10);
    assert!(matches!(result, Err(UploadError::Internal)));
    assert_eq!(vault.file_count(), 0);
}

#[test]
fn store_file_rejects_duplicate_identifiers() {
    let mut vault = Vault::new(test_config());
    let first = vault.store_file(7, String::from("d"), b"A".to_vec(), Vec::new(), Vec::new(), 1000);
    assert!(first.is_ok());
    let second = vault.store_file(7, String::from("d"), b"A".to_vec(), Vec::new(), Vec::new(), 1001);
    assert!(matches!(second, Err(StoreError::DuplicateId)));
    assert_eq!(vault.file_count(), 1);
}

#[test]
fn store_file_reports_time_overflow() {
    let mut vault = Vault::new(test_config());
    let result = vault.store_file(7, String::from("d"), b"A".to_vec(), Vec::new(), Vec::new(), u64::MAX);
    assert!(matches!(result, Err(StoreError::TimeOverflow)));
}

#[test]
fn store_file_reports_time_overflow_before_a_duplicate() {
    let mut vault = Vault::new(test_config());
    vault.store_file(7, String::from("d"), b"A".to_vec(), Vec::new(), Vec::new(), 1000).unwrap();
    let result = vault.store_file(7, String::from("d"), b"A".to_vec(), Vec::new(), Vec::new(), u64::MAX);
    assert!(matches!(result, Err(StoreError::TimeOverflow)));
}

#[test]
fn access_log_entries_accumulate() {
    let mut vault = Vault::new(test_config());
    vault.store_access_log(b"A".to_vec(), 7, false, 1000);
    vault.store_access_log(b"B".to_vec(), 7, true, 1001);
    assert_eq!(vault.ledger_len(), 2);
    assert!(vault.has_successful_attempt(7));
    assert!(!vault.has_successful_attempt(8));
    assert_eq!(vault.count_attempts(7), 2);
    assert_eq!(vault.count_attempts(8), 0);
}

#[test]
fn get_downloadable_file_applies_the_eligibility_predicate() {
    let mut vault = Vault::new(test_config());
    let receipt = vault.upload(b"A".to_vec(), b"hello".to_vec(), &no_metadata(), 1000).unwrap();
    assert!(vault.get_downloadable_file(receipt.id, 1001).is_some());
    vault.store_access_log(b"B".to_vec(), receipt.id, true, 1002);
    assert!(vault.get_downloadable_file(receipt.id, 1003).is_none());
}

#[test]
fn response_carries_identifier_text_and_transportable_key() {
    let mut vault = Vault::new(test_config());
    let receipt = vault.upload(b"A".to_vec(), b"hello".to_vec(), &no_metadata(), 1000).unwrap();
    let response = receipt_response(&receipt);
    let parsed = uuid::Uuid::parse_str(&response.id).unwrap();
    assert_eq!(parsed.as_u128(), receipt.id);
    let key = decode_key(&response.key).unwrap();
    assert_eq!(key, receipt.key);
}
