use vym_fyi::auth::authenticate;
use vym_fyi::config::{resolve_client, resolve_env_placeholders, select_api_key, EnvVars};
use vym_fyi::keystore::{build_api_key_bindings, sync_tenants_plan};
use vym_fyi::models::{AppError, ClientConfig, ClientEntry, Role, ServerSection, TenantId};

fn sample_config() -> ClientConfig {
    ClientConfig {
        server: ServerSection {
            base_url: "https://example.test".to_string(),
            master_api_key: Some("$(MASTER_KEY)".to_string()),
        },
        clients: vec![(
            "client-a".to_string(),
            ClientEntry {
                name: "Client A".to_string(),
                api_key: "$(CLIENT_A)".to_string(),
                role: Some(Role::Url),
            },
        )],
    }
}

fn sample_env() -> EnvVars {
    let mut env = EnvVars::new();
    env.insert("MASTER_KEY".to_string(), "master-123".to_string());
    env.insert("CLIENT_A".to_string(), "client-a-key".to_string());
    env
}

#[test]
fn resolves_env_placeholders() {
    let mut env = EnvVars::new();
    env.insert("TEST_KEY".to_string(), "secret-value".to_string());
    let raw = "value-$(TEST_KEY)-tail";
    let resolved = resolve_env_placeholders(raw, &env).expect("placeholder should resolve");
    assert_eq!(resolved, "value-secret-value-tail");
}

#[test]
fn missing_env_placeholder_errors() {
    let env = EnvVars::new();
    let err = resolve_env_placeholders("$(MISSING_KEY)", &env).unwrap_err();
    match err {
        AppError::MissingEnvVar { name } => assert_eq!(name, "MISSING_KEY"),
        other => panic!("unexpected error: {other:?}"),
    }
}

#[test]
fn unclosed_placeholder_stays_literal() {
    let env = EnvVars::new();
    let resolved = resolve_env_placeholders("head-$(OPEN", &env).expect("literal tail");
    assert_eq!(resolved, "head-$(OPEN");
}

#[test]
fn resolves_client_config() {
    let config = sample_config();
    let env = sample_env();

    let resolved = resolve_client(&config, "client-a", &env).expect("client should resolve");

    assert_eq!(resolved.base_url, "https://example.test");
    assert_eq!(resolved.entry.api_key, "client-a-key");
    assert_eq!(resolved.master_api_key.as_deref(), Some("master-123"));
    assert_eq!(resolved.id, "client-a");

    assert_eq!(select_api_key(&resolved, false), "client-a-key");
    assert_eq!(select_api_key(&resolved, true), "master-123");

    let err = resolve_client(&config, "client-b", &env).unwrap_err();
    assert!(matches!(err, AppError::Config(_)));
}

#[test]
fn builds_bindings_from_config() {
    let config = sample_config();
    let env = sample_env();
    let tenant_map = vec![("client-a".to_string(), TenantId("tid-1".to_string()))];

    let bindings =
        build_api_key_bindings(&config, &tenant_map, &env).expect("bindings should build");

    assert_eq!(bindings.len(), 2);
    assert_eq!(bindings[0].key, "client-a-key");
    assert_eq!(bindings[0].client_id.as_deref(), Some("client-a"));
    assert_eq!(bindings[0].tenant_id, Some(TenantId("tid-1".to_string())));
    assert!(!bindings[0].is_master);

    assert_eq!(bindings[1].key, "master-123");
    assert_eq!(bindings[1].client_id, None);
    assert_eq!(bindings[1].tenant_id, None);
    assert_eq!(bindings[1].role, Some(Role::Admin));
    assert!(bindings[1].is_master);
}

#[test]
fn binding_build_fails_on_missing_variable() {
    let config = sample_config();
    let mut env = EnvVars::new();
    env.insert("CLIENT_A".to_string(), "client-a-key".to_string());

    let err = build_api_key_bindings(&config, &Vec::new(), &env).unwrap_err();
    match err {
        AppError::MissingEnvVar { name } => assert_eq!(name, "MASTER_KEY"),
        other => panic!("unexpected error: {other:?}"),
    }
}

#[test]
fn authenticates_against_built_key_store() {
    let config = ClientConfig {
        server: ServerSection {
            base_url: "https://example.test".to_string(),
            master_api_key: Some("m".to_string()),
        },
        clients: vec![(
            "a".to_string(),
            ClientEntry {
                name: "A".to_string(),
                api_key: "secret-a".to_string(),
                role: None,
            },
        )],
    };
    let tenant_map = vec![("a".to_string(), TenantId("tid-a".to_string()))];
    let bindings = build_api_key_bindings(&config, &tenant_map, &EnvVars::new())
        .expect("literal keys build without any environment");

    let auth = authenticate(
        &bindings,
        &Some("secret-a".to_string()),
        &Some("a".to_string()),
    )
    .expect("tenant key with client id authenticates");
    assert!(!auth.is_master);
    assert_eq!(auth.tenant_id, Some(TenantId("tid-a".to_string())));

    assert!(authenticate(&bindings, &Some("m".to_string()), &Some("a".to_string()))
        .expect("master key with a client id")
        .is_master);
    assert!(authenticate(&bindings, &Some("m".to_string()), &None)
        .expect("master key without a client id")
        .is_master);

    let err = authenticate(&bindings, &Some("wrong".to_string()), &Some("a".to_string()))
        .unwrap_err();
    assert_eq!(err, AppError::Forbidden);
}

#[test]
fn tenant_sync_plan_creates_and_deletes() {
    let declared = vec!["alpha".to_string(), "beta".to_string(), "alpha".to_string()];
    let existing = vec![
        (TenantId("1".to_string()), "beta".to_string()),
        (TenantId("2".to_string()), "gamma".to_string()),
    ];

    let plan = sync_tenants_plan(&declared, &existing);

    assert_eq!(plan.to_create, vec!["alpha".to_string()]);
    assert_eq!(plan.to_delete, vec!["gamma".to_string()]);
}

#[test]
fn stale_tenant_names_are_deleted_once() {
    let declared = vec!["alpha".to_string()];
    let existing = vec![
        (TenantId("1".to_string()), "gamma".to_string()),
        (TenantId("2".to_string()), "gamma".to_string()),
        (TenantId("3".to_string()), "alpha".to_string()),
    ];

    let plan = sync_tenants_plan(&declared, &existing);

    assert!(plan.to_create.is_empty());
    assert_eq!(plan.to_delete, vec!["gamma".to_string()]);
}
