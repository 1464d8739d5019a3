use em_cockpit::security::credential_manager::{
    service_name, CredentialError, CredentialKey, CredentialManager, KeychainReply,
};

fn test_manager() -> CredentialManager {
    CredentialManager::new_in_memory()
}

#[test]
fn test_store_credential_successfully() {
    let mut manager = test_manager();
    let result = manager.store(CredentialKey::JiraToken, "test-token-123");
    assert!(result.is_ok(), "Should store credential successfully");
}

#[test]
fn test_retrieve_credential_matches_stored_value() {
    let mut manager = test_manager();
    let test_value = "my-secret-token-xyz";

    manager.store(CredentialKey::JiraToken, test_value).unwrap();
    let retrieved = manager.retrieve(CredentialKey::JiraToken).unwrap();

    assert_eq!(retrieved, test_value, "Retrieved value should match stored value");
}

#[test]
fn test_delete_credential_removes_from_storage() {
    let mut manager = test_manager();

    manager.store(CredentialKey::GitToken, "token-to-delete").unwrap();
    assert!(manager.contains(CredentialKey::GitToken), "Credential should exist after store");

    manager.delete(CredentialKey::GitToken).unwrap();
    assert!(!manager.contains(CredentialKey::GitToken), "Credential should not exist after delete");
}

#[test]
fn test_retrieve_nonexistent_credential_returns_not_found() {
    let manager = test_manager();

    let result = manager.retrieve(CredentialKey::GeminiApiKey);

    assert!(result.is_err(), "Should return error for nonexistent credential");
    assert!(matches!(result.unwrap_err(), CredentialError::NotFound(_)), "Error should be NotFound");
}

#[test]
fn test_store_empty_credential_returns_error() {
    let mut manager = test_manager();

    let result = manager.store(CredentialKey::JiraToken, "");

    assert!(result.is_err(), "Should reject empty credential");
    assert!(
        matches!(result.unwrap_err(), CredentialError::InvalidData(_)),
        "Error should be InvalidData"
    );
}

#[test]
fn test_panic_wipe_clears_all_credentials() {
    let mut manager = test_manager();

    manager.store(CredentialKey::JiraToken, "jira-token").unwrap();
    manager.store(CredentialKey::GitToken, "git-token").unwrap();
    manager.store(CredentialKey::GeminiApiKey, "gemini-key").unwrap();

    assert!(manager.contains(CredentialKey::JiraToken));
    assert!(manager.contains(CredentialKey::GitToken));
    assert!(manager.contains(CredentialKey::GeminiApiKey));

    let deleted = manager.panic_wipe().unwrap();

    assert_eq!(deleted, 3, "Should delete exactly 3 credentials");

    assert!(!manager.contains(CredentialKey::JiraToken));
    assert!(!manager.contains(CredentialKey::GitToken));
    assert!(!manager.contains(CredentialKey::GeminiApiKey));
}

#[test]
fn test_credential_key_as_str() {
    assert_eq!(CredentialKey::JiraToken.as_str(), "jira_token");
    assert_eq!(CredentialKey::GitToken.as_str(), "git_token");
    assert_eq!(CredentialKey::GeminiApiKey.as_str(), "gemini_api_key");
    assert_eq!(CredentialKey::GrafanaApiKey.as_str(), "grafana_api_key");
    assert_eq!(CredentialKey::ConfluenceToken.as_str(), "confluence_token");
}

#[test]
fn test_credential_key_all_returns_all_keys() {
    let all_keys = CredentialKey::all();

    assert_eq!(all_keys.len(), 5, "Should have all 5 credential types");
    assert!(all_keys.contains(&CredentialKey::JiraToken));
    assert!(all_keys.contains(&CredentialKey::GitToken));
    assert!(all_keys.contains(&CredentialKey::GeminiApiKey));
    assert!(all_keys.contains(&CredentialKey::GrafanaApiKey));
    assert!(all_keys.contains(&CredentialKey::ConfluenceToken));
}

#[test]
fn test_exists_returns_true_for_stored_credential() {
    let mut manager = test_manager();

    manager.store(CredentialKey::GrafanaApiKey, "grafana-key").unwrap();

    assert!(manager.contains(CredentialKey::GrafanaApiKey));
}

#[test]
fn test_exists_returns_false_for_nonexistent_credential() {
    let manager = test_manager();

    assert!(!manager.contains(CredentialKey::ConfluenceToken));
}

#[test]
fn test_overwrite_existing_credential() {
    let mut manager = test_manager();

    manager.store(CredentialKey::JiraToken, "original-token").unwrap();
    manager.store(CredentialKey::JiraToken, "new-token").unwrap();

    let retrieved = manager.retrieve(CredentialKey::JiraToken).unwrap();
    assert_eq!(retrieved, "new-token", "Should retrieve the updated value");
}

#[test]
fn each_kind_has_its_own_place() {
    let mut manager = test_manager();
    for (i, key) in CredentialKey::all().into_iter().enumerate() {
        manager.store(key, &format!("secret-{}", i)).unwrap();
    }
    for (i, key) in CredentialKey::all().into_iter().enumerate() {
        assert_eq!(manager.retrieve(key).unwrap(), format!("secret-{}", i));
    }
    manager.delete(CredentialKey::GeminiApiKey).unwrap();
    match manager.delete(CredentialKey::GeminiApiKey) {
        Err(e) => {
            assert_eq!(e.to_string(), "Credential not found: Credential 'gemini_api_key' not found")
        },
        other => panic!("unexpected {:?}", other),
    }
    assert_eq!(manager.panic_wipe().unwrap(), 4);
    assert_eq!(manager.panic_wipe().unwrap(), 0);
    match manager.store(CredentialKey::GitToken, "") {
        Err(e) => assert_eq!(
            e.to_string(),
            "Invalid credential data: Credential value cannot be empty"
        ),
        other => panic!("unexpected {:?}", other),
    }
    assert!(!manager.contains(CredentialKey::GitToken));
}

#[test]
fn keychain_replies_are_classified() {
    let key = CredentialKey::JiraToken;
    assert_eq!(
        CredentialManager::retrieve_reply(key, KeychainReply::Done(Some("s".to_string()))).unwrap(),
        "s"
    );
    assert!(matches!(
        CredentialManager::retrieve_reply(key, KeychainReply::NoEntry),
        Err(CredentialError::NotFound(m)) if m == "Credential 'jira_token' not found"
    ));
    assert!(matches!(
        CredentialManager::retrieve_reply(key, KeychainReply::Failed("locked".to_string())),
        Err(CredentialError::AccessDenied(m)) if m == "locked"
    ));
    assert!(CredentialManager::store_reply(KeychainReply::Done(None)).is_ok());
    assert!(matches!(
        CredentialManager::store_reply(KeychainReply::Failed("full".to_string())),
        Err(CredentialError::StoreFailed(m)) if m == "full"
    ));
    assert!(CredentialManager::delete_reply(key, KeychainReply::Done(None)).is_ok());
    assert!(matches!(
        CredentialManager::delete_reply(key, KeychainReply::NoEntry),
        Err(CredentialError::NotFound(_))
    ));
    assert!(matches!(
        CredentialManager::delete_reply(key, KeychainReply::Failed("x".to_string())),
        Err(CredentialError::DeleteFailed(m)) if m == "x"
    ));
    let outcomes = vec![
        Ok(()),
        Err(CredentialError::NotFound("a".to_string())),
        Ok(()),
        Err(CredentialError::DeleteFailed("b".to_string())),
    ];
    assert_eq!(CredentialManager::count_wiped(&outcomes), 2);
    assert_eq!(service_name(), "com.em-cockpit.credentials");
    assert_eq!(
        CredentialError::StoreFailed("x".to_string()).to_string(),
        "Failed to store credential: x"
    );
    assert_eq!(
        CredentialError::DeleteFailed("x".to_string()).to_string(),
        "Failed to delete credential: x"
    );
    assert_eq!(
        CredentialError::AccessDenied("x".to_string()).to_string(),
        "Keychain access denied: x"
    );
}
