use vym_fyi::auth::ApiKeyAuth;
use vym_fyi::links::{
    create_link, list_links, list_scope, page_window, redirect_decision, select_strategy,
    CreateLinkRequest, LinkCreationStrategy, LinkFilters, ListLinksQuery, ListScope,
};
use vym_fyi::models::{AppError, TenantId};
use vym_fyi::slug::{generate_slug, hex_encode};
use vym_fyi::store::LinkStore;

fn tenant(id: &str) -> TenantId {
    TenantId(id.to_string())
}

fn tenant_auth(id: &str) -> ApiKeyAuth {
    ApiKeyAuth {
        client_id: Some(id.to_string()),
        tenant_id: Some(tenant(id)),
        role: None,
        is_master: false,
    }
}

fn no_filters() -> LinkFilters {
    LinkFilters {
        slug: None,
        target_contains: None,
        active: None,
        created_before: None,
        created_after: None,
        expires_before: None,
        expires_after: None,
    }
}

fn is_lower_hex(s: &str) -> bool {
    s.chars()
        .all(|c| c.is_ascii_digit() || ('a'..='f').contains(&c))
}

#[test]
fn provided_slug_upsert_is_tenant_scoped_and_idempotent() {
    let mut store = LinkStore::new();
    let t1 = tenant("t1");
    let t2 = tenant("t2");

    let first = store
        .upsert("promo", "https://x.test", &t1, 10)
        .expect("first creation succeeds");
    assert_eq!(first, ("promo".to_string(), "https://x.test".to_string(), true));

    let conflict = store.upsert("promo", "https://other.test", &t2, 11).unwrap_err();
    assert_eq!(conflict, AppError::Conflict);
    assert_eq!(store.resolve("promo", 12), Some("https://x.test".to_string()));

    let again = store
        .upsert("promo", "https://new.test", &t1, 13)
        .expect("owner may overwrite");
    assert_eq!(again.2, true);
    assert_eq!(store.resolve("promo", 14), Some("https://new.test".to_string()));
    assert_eq!(store.len(), 1);
}

#[test]
fn provided_slug_strategy_uses_upsert() {
    let mut store = LinkStore::new();
    let auth = tenant_auth("t1");
    let req = CreateLinkRequest {
        slug: Some("custom".to_string()),
        target_url: "https://example.com".to_string(),
    };

    let result = create_link(&mut store, &auth, &req, 1).expect("strategy should succeed");

    assert_eq!(result.slug, "custom");
    assert_eq!(result.target_url, "https://example.com");
    assert!(result.active);
    assert_eq!(store.resolve("custom", 2), Some("https://example.com".to_string()));
}

#[test]
fn generated_slug_strategy_requests_generation() {
    let mut store = LinkStore::new();
    let auth = tenant_auth("t1");
    let req = CreateLinkRequest {
        slug: None,
        target_url: "https://example.com".to_string(),
    };

    let result = create_link(&mut store, &auth, &req, 1).expect("strategy should succeed");

    assert!(result.slug.len() >= 6);
    assert_eq!(result.slug.len() % 2, 0);
    assert!(is_lower_hex(&result.slug));
    assert_eq!(
        store.resolve(&result.slug, 2),
        Some("https://example.com".to_string())
    );
}

#[test]
fn blank_slug_selects_generation() {
    match select_strategy(&Some("   ".to_string())) {
        LinkCreationStrategy::Generated(g) => assert_eq!(g.min_len, 6),
        LinkCreationStrategy::Provided(_) => panic!("blank slug must not be kept"),
    }
    match select_strategy(&Some("  padded  ".to_string())) {
        LinkCreationStrategy::Provided(p) => assert_eq!(p.slug, "padded"),
        LinkCreationStrategy::Generated(_) => panic!("non-blank slug must be kept"),
    }
}

#[test]
fn creation_without_tenant_scope_is_forbidden() {
    let mut store = LinkStore::new();
    let master = ApiKeyAuth {
        client_id: None,
        tenant_id: None,
        role: None,
        is_master: true,
    };
    let req = CreateLinkRequest {
        slug: Some("x".to_string()),
        target_url: "https://example.com".to_string(),
    };
    assert_eq!(create_link(&mut store, &master, &req, 1).unwrap_err(), AppError::Forbidden);
}

#[test]
fn exhaustion_when_every_candidate_collides() {
    let mut store = LinkStore::new();
    let t1 = tenant("t1");
    let candidates: Vec<String> = (0..5).map(|i| format!("slug-{i}")).collect();
    for c in &candidates {
        assert!(store.insert_new(c, "https://taken.test", &t1, 1));
    }
    assert_eq!(store.len(), 5);

    let err = store
        .create_with_candidates(&candidates, "https://new.test", &t1, 2)
        .unwrap_err();
    assert_eq!(err, AppError::Exhausted);
    assert_eq!(store.len(), 5);
}

#[test]
fn first_fresh_candidate_wins() {
    let mut store = LinkStore::new();
    let t1 = tenant("t1");
    assert!(store.insert_new("taken-1", "https://a.test", &t1, 1));
    assert!(store.insert_new("taken-2", "https://a.test", &t1, 2));

    let candidates = vec![
        "taken-1".to_string(),
        "taken-2".to_string(),
        "free-3".to_string(),
        "free-4".to_string(),
    ];
    let created = store
        .create_with_candidates(&candidates, "https://b.test", &t1, 3)
        .expect("a free candidate exists");
    assert_eq!(created.0, "free-3");
    assert_eq!(store.len(), 3);
}

#[test]
fn generated_slugs_are_even_lowercase_hex() {
    for min_len in [0usize, 5, 6, 7, 12] {
        let slug = generate_slug(min_len);
        assert!(slug.len() >= 6);
        assert!(slug.len() >= min_len);
        assert_eq!(slug.len() % 2, 0);
        assert!(is_lower_hex(&slug));
    }
    assert_eq!(generate_slug(6).len(), 6);
    assert_eq!(generate_slug(7).len(), 8);
}

#[test]
fn hex_encoding_is_exact() {
    assert_eq!(hex_encode(&vec![]), "");
    assert_eq!(hex_encode(&vec![0x00, 0xab, 0xff, 0x1e]), "00abff1e");
}

#[test]
fn redirect_decisions_map_outcomes() {
    assert_eq!(
        redirect_decision(Ok(Some("https://x.test".to_string()))),
        (307, Some("https://x.test".to_string()), true)
    );
    assert_eq!(redirect_decision(Ok(None)), (404, None, false));
    assert_eq!(
        redirect_decision(Err(AppError::StorageUnavailable)),
        (500, None, false)
    );
}

#[test]
fn resolve_honours_active_flag_and_absence() {
    let store = LinkStore::new();
    assert_eq!(store.resolve("nope", 1), None);

    let mut store = LinkStore::new();
    let t1 = tenant("t1");
    store.upsert("live", "https://live.test", &t1, 1).unwrap();
    assert_eq!(store.resolve("live", 2), Some("https://live.test".to_string()));
}

fn seeded_store() -> LinkStore {
    let mut store = LinkStore::new();
    let t1 = tenant("t1");
    let t2 = tenant("t2");
    store.upsert("a1", "https://one.example", &t1, 10).unwrap();
    store.upsert("a2", "https://two.example", &t1, 20).unwrap();
    store.upsert("b1", "https://three.example", &t2, 30).unwrap();
    store
}

#[test]
fn master_list_sees_all_tenants_newest_first() {
    let store = seeded_store();
    let rows = list_links(&store, &ListScope::Master, &no_filters(), None, None);
    let slugs: Vec<&str> = rows.iter().map(|r| r.0.as_str()).collect();
    assert_eq!(slugs, vec!["b1", "a2", "a1"]);
}

#[test]
fn tenant_list_sees_only_its_own_links() {
    let store = seeded_store();
    let rows = list_links(&store, &ListScope::Tenant(tenant("t1")), &no_filters(), None, None);
    let slugs: Vec<&str> = rows.iter().map(|r| r.0.as_str()).collect();
    assert_eq!(slugs, vec!["a2", "a1"]);
}

#[test]
fn pagination_clamps_and_windows() {
    let store = seeded_store();
    let page2 = list_links(&store, &ListScope::Master, &no_filters(), Some(2), Some(1));
    assert_eq!(page2.len(), 1);
    assert_eq!(page2[0].0, "a2");

    let beyond = list_links(&store, &ListScope::Master, &no_filters(), Some(9), Some(2));
    assert!(beyond.is_empty());

    // per_page clamps into [1, 100]; page floors at 1
    assert_eq!(page_window(Some(0), Some(0)), (1, 1));
    assert_eq!(page_window(None, None), (1, 20));
    assert_eq!(page_window(Some(7), Some(1000)), (7, 100));

    let clamped = list_links(&store, &ListScope::Master, &no_filters(), Some(0), Some(0));
    assert_eq!(clamped.len(), 1);
    assert_eq!(clamped[0].0, "b1");
}

#[test]
fn filters_narrow_the_listing() {
    let store = seeded_store();

    let mut f = no_filters();
    f.slug = Some("a1".to_string());
    let rows = list_links(&store, &ListScope::Master, &f, None, None);
    assert_eq!(rows.len(), 1);
    assert_eq!(rows[0].0, "a1");

    let mut f = no_filters();
    f.target_contains = Some("TWO.EXAMPLE".to_string());
    let rows = list_links(&store, &ListScope::Master, &f, None, None);
    assert_eq!(rows.len(), 1);
    assert_eq!(rows[0].0, "a2");

    let mut f = no_filters();
    f.active = Some(false);
    let rows = list_links(&store, &ListScope::Master, &f, None, None);
    assert!(rows.is_empty());

    let mut f = no_filters();
    f.created_after = Some(15);
    f.created_before = Some(25);
    let rows = list_links(&store, &ListScope::Master, &f, None, None);
    assert_eq!(rows.len(), 1);
    assert_eq!(rows[0].0, "a2");

    // rows created through the API carry no expiry, so an expiry filter
    // excludes them all
    let mut f = no_filters();
    f.expires_before = Some(1_000_000);
    let rows = list_links(&store, &ListScope::Master, &f, None, None);
    assert!(rows.is_empty());
}

#[test]
fn list_scope_requires_some_scope() {
    let master = ApiKeyAuth {
        client_id: None,
        tenant_id: None,
        role: None,
        is_master: true,
    };
    assert!(matches!(list_scope(&master), Ok(ListScope::Master)));

    let t = tenant_auth("t1");
    match list_scope(&t) {
        Ok(ListScope::Tenant(id)) => assert_eq!(id, tenant("t1")),
        other => panic!("unexpected scope: {other:?}"),
    }

    let nobody = ApiKeyAuth {
        client_id: Some("a".to_string()),
        tenant_id: None,
        role: None,
        is_master: false,
    };
    assert_eq!(list_scope(&nobody).unwrap_err(), AppError::Forbidden);
}

#[test]
fn timestamp_filters_parse_rfc3339() {
    let query = ListLinksQuery {
        page: None,
        per_page: None,
        slug: None,
        target_contains: None,
        active: None,
        created_before: Some("2025-01-01T00:00:00Z".to_string()),
        created_after: Some("  ".to_string()),
        expires_before: None,
        expires_after: Some("1970-01-01T00:01:00+00:00".to_string()),
    };
    let filters = query.to_filters().expect("valid timestamps parse");
    assert_eq!(filters.created_before, Some(1_735_689_600));
    assert_eq!(filters.created_after, None);
    assert_eq!(filters.expires_after, Some(60));

    let bad = ListLinksQuery {
        page: None,
        per_page: None,
        slug: None,
        target_contains: None,
        active: None,
        created_before: Some("yesterday".to_string()),
        created_after: None,
        expires_before: None,
        expires_after: None,
    };
    assert_eq!(bad.to_filters().unwrap_err(), AppError::InvalidTimestamp);
}
