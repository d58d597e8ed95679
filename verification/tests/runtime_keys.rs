use ores_sidecar::is_runtime_key_allowed;

#[test]
fn public_runtime_key_classifier_rejects_embedded_secret_markers() {
    for key in [
        "API_TOKEN_ROTATION_MS",
        "DATABASE_URL_TIMEOUT_MS",
        "PRIVATE_KEY_CACHE_TTL",
        "PASSWORD_POLICY_VERSION",
        "CREDENTIAL_REFRESH_SECONDS",
    ] {
        assert!(!is_runtime_key_allowed(key), "{key} must stay forbidden");
    }

    for key in [
        "PROVIDER_TIMEOUT_MS",
        "WORKER_BATCH_SIZE",
        "_INTERNAL_RETRY_LIMIT",
    ] {
        assert!(is_runtime_key_allowed(key), "{key} should be admitted");
    }

    assert!(!is_runtime_key_allowed("lowercase_key"));
    assert!(!is_runtime_key_allowed("9STARTS_WITH_DIGIT"));
}

#[test]
fn marker_is_found_at_either_end_and_alone() {
    assert!(!is_runtime_key_allowed("SECRET"));
    assert!(!is_runtime_key_allowed("MYSECRET"));
    assert!(!is_runtime_key_allowed("SECRETS_PATH"));
    assert!(!is_runtime_key_allowed("SESECRET"));
    assert!(is_runtime_key_allowed("SECRE"));
    assert!(is_runtime_key_allowed("SEC_RET"));
    assert!(is_runtime_key_allowed("TOKE_N"));
}

#[test]
fn names_outside_the_alphabet_are_refused() {
    assert!(!is_runtime_key_allowed(""));
    assert!(!is_runtime_key_allowed("WITH SPACE"));
    assert!(!is_runtime_key_allowed("WITH-DASH"));
    assert!(!is_runtime_key_allowed("\u{c9}TAT"));
    assert!(!is_runtime_key_allowed("A\u{661}"));
    assert!(is_runtime_key_allowed("_"));
    assert!(is_runtime_key_allowed("A9"));
}
