use vym_fyi::links::ListLinksQuery;
use vym_fyi::query::{LinkListQueryAdapter, QueryParamsBuilder, QueryValue};

#[test]
fn builder_skips_blank_strings() {
    let mut builder = QueryParamsBuilder::new();
    builder.push_trimmed("slug", &Some("  ".to_string()));
    builder.push_trimmed("target_contains", &Some("abc".to_string()));

    let params = builder.into_vec();
    assert_eq!(params.len(), 1);
    assert_eq!(params[0], ("target_contains".to_string(), "abc".to_string()));
}

#[test]
fn builder_handles_numbers_and_bool() {
    let mut builder = QueryParamsBuilder::new();
    builder.push_value("page", Some(QueryValue::Number(2u32)));
    builder.push_value("per_page", Some(QueryValue::Number(10)));
    builder.push_value("active", Some(QueryValue::Flag(false)));

    let params = builder.into_vec();
    assert_eq!(params.len(), 3);
    assert_eq!(params[0], ("page".to_string(), "2".to_string()));
    assert_eq!(params[1], ("per_page".to_string(), "10".to_string()));
    assert_eq!(params[2], ("active".to_string(), "false".to_string()));
}

#[test]
fn builder_skips_absent_values() {
    let mut builder = QueryParamsBuilder::new();
    builder.push_value("page", None);
    builder.push_trimmed("slug", &None);
    assert!(builder.into_vec().is_empty());
}

#[test]
fn list_query_to_params_keeps_order_and_trims() {
    let query = ListLinksQuery {
        page: Some(3),
        per_page: None,
        slug: Some("  promo  ".to_string()),
        target_contains: Some("   ".to_string()),
        active: Some(true),
        created_before: None,
        created_after: Some("2025-01-01T00:00:00Z".to_string()),
        expires_before: None,
        expires_after: None,
    };
    let params = query.to_query_params();
    assert_eq!(
        params,
        vec![
            ("page".to_string(), "3".to_string()),
            ("slug".to_string(), "promo".to_string()),
            ("active".to_string(), "true".to_string()),
            ("created_after".to_string(), "2025-01-01T00:00:00Z".to_string()),
        ]
    );
}

#[test]
fn large_numbers_render_in_decimal() {
    let mut builder = QueryParamsBuilder::new();
    builder.push_value("page", Some(QueryValue::Number(4294967295)));
    builder.push_value("per_page", Some(QueryValue::Number(0)));
    let params = builder.into_vec();
    assert_eq!(params[0].1, "4294967295");
    assert_eq!(params[1].1, "0");
}
