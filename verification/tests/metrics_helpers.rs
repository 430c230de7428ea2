use vym_fyi::builders::{CrudAppBuilder, RedirectAppBuilder};
use vym_fyi::metrics::{
    bucket_slug_len, forwarded_client_ip, normalized_user_agent, should_ignore, status_class,
};
use vym_fyi::models::{status_code, AppError};

#[test]
fn ignored_paths_are_health_and_metrics() {
    assert!(should_ignore("/health"));
    assert!(should_ignore("/health/live"));
    assert!(should_ignore("/metrics"));
    assert!(!should_ignore("/api/links"));
    assert!(!should_ignore("/"));
}

#[test]
fn slug_lengths_bucket_into_fixed_labels() {
    assert_eq!(bucket_slug_len(0), "len_0");
    assert_eq!(bucket_slug_len(1), "len_1_4");
    assert_eq!(bucket_slug_len(4), "len_1_4");
    assert_eq!(bucket_slug_len(5), "len_5_8");
    assert_eq!(bucket_slug_len(8), "len_5_8");
    assert_eq!(bucket_slug_len(9), "len_9_12");
    assert_eq!(bucket_slug_len(12), "len_9_12");
    assert_eq!(bucket_slug_len(13), "len_13_20");
    assert_eq!(bucket_slug_len(20), "len_13_20");
    assert_eq!(bucket_slug_len(21), "len_over_20");
}

#[test]
fn status_codes_classify() {
    assert_eq!(status_class(404), "4xx");
    assert_eq!(status_class(500), "5xx");
    assert_eq!(status_class(200), "other");
    assert_eq!(status_class(302), "other");
}

#[test]
fn errors_map_to_response_codes() {
    assert_eq!(status_code(&AppError::Unauthenticated), 401);
    assert_eq!(status_code(&AppError::Forbidden), 403);
    assert_eq!(status_code(&AppError::Conflict), 409);
    assert_eq!(status_code(&AppError::InvalidTimestamp), 400);
    assert_eq!(status_code(&AppError::Exhausted), 500);
    assert_eq!(status_code(&AppError::StorageUnavailable), 500);
}

#[test]
fn client_ip_prefers_forwarding_header() {
    assert_eq!(
        forwarded_client_ip(
            &Some("1.2.3.4, 5.6.7.8".to_string()),
            &Some("9.9.9.9".to_string())
        ),
        "1.2.3.4"
    );
    assert_eq!(
        forwarded_client_ip(&Some("   ".to_string()), &Some("9.9.9.9".to_string())),
        "9.9.9.9"
    );
    assert_eq!(
        forwarded_client_ip(&Some(" 1.2.3.4 ,x".to_string()), &None),
        "1.2.3.4"
    );
    assert_eq!(forwarded_client_ip(&None, &None), "unknown");
}

#[test]
fn user_agent_falls_back_to_unknown() {
    assert_eq!(normalized_user_agent(&Some(" curl/8 ".to_string())), "curl/8");
    assert_eq!(normalized_user_agent(&Some("   ".to_string())), "unknown");
    assert_eq!(normalized_user_agent(&None), "unknown");
}

#[test]
fn builders_keep_their_settings() {
    let b = CrudAppBuilder::new("postgres://crud".to_string(), Some("tenants.yaml".to_string()));
    assert_eq!(b.max_connections, 5);
    let b = b.max_connections(9);
    assert_eq!(b.max_connections, 9);
    assert_eq!(b.database_url, "postgres://crud");
    assert_eq!(b.tenants_config_path.as_deref(), Some("tenants.yaml"));

    let r = RedirectAppBuilder::new("postgres://ro".to_string());
    assert_eq!(r.max_connections, 5);
    let r = r.max_connections(2);
    assert_eq!(r.max_connections, 2);
    assert_eq!(r.database_url_ro, "postgres://ro");
}
