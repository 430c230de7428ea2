use vym_fyi::auth::{api_key_from_headers, authenticate, find_binding, ApiKeyBinding};
use vym_fyi::constant_time_eq;
use vym_fyi::keystore::tenant_id_for_client;
use vym_fyi::models::{AppError, Role, TenantId};

fn bindings_with_master() -> Vec<ApiKeyBinding> {
    vec![
        ApiKeyBinding {
            key: "secret-a".to_string(),
            client_id: Some("a".to_string()),
            tenant_id: Some(TenantId("tenant-a".to_string())),
            role: Some(Role::Url),
            is_master: false,
        },
        ApiKeyBinding {
            key: "m".to_string(),
            client_id: None,
            tenant_id: None,
            role: Some(Role::Admin),
            is_master: true,
        },
    ]
}

#[test]
fn constant_time_eq_decides_equality() {
    assert!(constant_time_eq("secret-a", "secret-a"));
    assert!(constant_time_eq("", ""));
    assert!(!constant_time_eq("secret-a", "secret-b"));
    assert!(!constant_time_eq("secret-a", "secret-a-long"));
    assert!(!constant_time_eq("a", ""));
    assert!(!constant_time_eq("abc", "abd"));
}

#[test]
fn length_differences_beyond_the_low_byte_still_count() {
    // a zero-filled key 256 bytes longer must not pass: the length seed
    // records any difference, not only its low byte
    let nul_padded = "\0".repeat(256);
    assert!(!constant_time_eq(&nul_padded, ""));
    assert!(!constant_time_eq("", &nul_padded));
    let prefixed = format!("key{}", "\0".repeat(256));
    assert!(!constant_time_eq(&prefixed, "key"));
}

#[test]
fn tenant_key_with_client_id_yields_tenant_scope() {
    let bindings = bindings_with_master();
    let auth = authenticate(
        &bindings,
        &Some("secret-a".to_string()),
        &Some("a".to_string()),
    )
    .expect("tenant key with its client id must authenticate");
    assert!(!auth.is_master);
    assert_eq!(auth.client_id.as_deref(), Some("a"));
    assert_eq!(auth.tenant_id, Some(TenantId("tenant-a".to_string())));
}

#[test]
fn master_key_matches_with_and_without_client_id() {
    let bindings = bindings_with_master();
    let with_id = authenticate(&bindings, &Some("m".to_string()), &Some("a".to_string()))
        .expect("master key with a client id must authenticate");
    assert!(with_id.is_master);
    assert_eq!(with_id.tenant_id, None);

    let without_id = authenticate(&bindings, &Some("m".to_string()), &None)
        .expect("master key without a client id must authenticate");
    assert!(without_id.is_master);

    let odd_id = authenticate(&bindings, &Some("m".to_string()), &Some("nobody".to_string()))
        .expect("master key ignores the client id entirely");
    assert!(odd_id.is_master);
}

#[test]
fn tenant_key_never_matches_without_client_id() {
    let bindings = bindings_with_master();
    let err = authenticate(&bindings, &Some("secret-a".to_string()), &None).unwrap_err();
    assert_eq!(err, AppError::Forbidden);

    let err = authenticate(
        &bindings,
        &Some("secret-a".to_string()),
        &Some("b".to_string()),
    )
    .unwrap_err();
    assert_eq!(err, AppError::Forbidden);
}

#[test]
fn wrong_key_is_forbidden_and_missing_key_unauthenticated() {
    let bindings = bindings_with_master();
    let err = authenticate(&bindings, &Some("wrong".to_string()), &Some("a".to_string()))
        .unwrap_err();
    assert_eq!(err, AppError::Forbidden);

    let err = authenticate(&bindings, &None, &Some("a".to_string())).unwrap_err();
    assert_eq!(err, AppError::Unauthenticated);
}

#[test]
fn find_binding_prefers_master() {
    let bindings = bindings_with_master();
    assert_eq!(find_binding(&bindings, "m", &Some("a".to_string())), Some(1));
    assert_eq!(find_binding(&bindings, "secret-a", &Some("a".to_string())), Some(0));
    assert_eq!(find_binding(&bindings, "secret-a", &None), None);
}

#[test]
fn api_key_header_wins_over_authorization() {
    let r = api_key_from_headers(
        &Some("from-header".to_string()),
        &Some("ApiKey from-auth".to_string()),
    );
    assert_eq!(r.as_deref(), Some("from-header"));
}

#[test]
fn bearer_style_authorization_is_stripped() {
    let r = api_key_from_headers(&None, &Some("ApiKey tok-123".to_string()));
    assert_eq!(r.as_deref(), Some("tok-123"));

    let r = api_key_from_headers(&None, &Some("Bearer tok-123".to_string()));
    assert_eq!(r, None);

    let r = api_key_from_headers(&None, &None);
    assert_eq!(r, None);
}

#[test]
fn tenant_id_lookup_by_client() {
    let bindings = bindings_with_master();
    assert_eq!(
        tenant_id_for_client(&bindings, "a"),
        Some(TenantId("tenant-a".to_string()))
    );
    assert_eq!(tenant_id_for_client(&bindings, "zzz"), None);
}
