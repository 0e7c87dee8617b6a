use proxy_core::auth::{admin_auth_check, admin_login_check, LoginRequest};
use proxy_core::middleware::{classify_success, is_admin_path};
use proxy_core::models::{AdminError, Envelope};

const KEY: &[u8] = b"sk-secret";

fn check(cookie: Option<&str>, auth: Option<&str>, query: Option<&str>) -> bool {
    admin_auth_check(
        cookie.map(|s| s.as_bytes()),
        auth.map(|s| s.as_bytes()),
        query.map(|s| s.as_bytes()),
        KEY,
    )
}

#[test]
fn cookie_channel_matches_exactly() {
    assert!(check(Some("admin_token=sk-secret"), None, None));
    assert!(check(Some("theme=dark; admin_token=sk-secret"), None, None));
    assert!(check(Some("  admin_token=sk-secret  "), None, None));
    assert!(!check(Some("admin_token=sk-wrong"), None, None));
    assert!(!check(Some("admin_token=sk-secret-more"), None, None));
    assert!(!check(Some("admintoken=sk-secret"), None, None));
    assert!(!check(Some(""), None, None));
}

#[test]
fn first_admin_cookie_decides() {
    assert!(!check(
        Some("admin_token=wrong; admin_token=sk-secret"),
        None,
        None
    ));
    assert!(check(
        Some("admin_token=sk-secret; admin_token=wrong"),
        None,
        None
    ));
}

#[test]
fn cookie_value_with_embedded_equals_is_rejected() {
    assert!(!check(Some("admin_token=sk=secret"), None, None));
}

#[test]
fn bearer_channel_requires_exact_prefix() {
    assert!(check(None, Some("Bearer sk-secret"), None));
    assert!(!check(None, Some("Bearer sk-wrong"), None));
    assert!(!check(None, Some("bearer sk-secret"), None));
    assert!(!check(None, Some("sk-secret"), None));
    assert!(!check(None, Some("Bearer  sk-secret"), None));
}

#[test]
fn query_channel_accepts_any_matching_token_parameter() {
    assert!(check(None, None, Some("token=sk-secret")));
    assert!(check(None, None, Some("a=1&token=sk-secret")));
    assert!(check(None, None, Some("token=wrong&token=sk-secret")));
    assert!(!check(None, None, Some("token=wrong")));
    assert!(!check(None, None, Some("tok=sk-secret")));
}

#[test]
fn any_channel_suffices_and_none_fails() {
    assert!(check(
        Some("admin_token=wrong"),
        Some("Bearer sk-secret"),
        None
    ));
    assert!(check(Some("x=y"), None, Some("token=sk-secret")));
    assert!(!check(None, None, None));
}

#[test]
fn login_compares_the_key_exactly() {
    let ok = LoginRequest { api_key: "sk-secret".to_string() };
    let bad = LoginRequest { api_key: "sk-Secret".to_string() };
    assert!(admin_login_check(&ok, "sk-secret"));
    assert!(!admin_login_check(&bad, "sk-secret"));
}

#[test]
fn admin_paths_bypass_statistics() {
    assert!(is_admin_path(b"/admin"));
    assert!(is_admin_path(b"/admin/stats"));
    assert!(is_admin_path(b"/api/admin/logs"));
    assert!(is_admin_path(b"/administration"));
    assert!(!is_admin_path(b"/v1/chat/completions"));
    assert!(!is_admin_path(b"/adm"));
    assert!(!is_admin_path(b"/api/adm"));
    assert!(!is_admin_path(b""));
}

#[test]
fn success_is_the_2xx_and_3xx_range() {
    assert!(classify_success(200));
    assert!(classify_success(204));
    assert!(classify_success(302));
    assert!(classify_success(399));
    assert!(!classify_success(199));
    assert!(!classify_success(400));
    assert!(!classify_success(401));
    assert!(!classify_success(502));
}

#[test]
fn envelope_shapes() {
    let ok: Envelope<u32> = Envelope::ok(7);
    assert!(ok.ok);
    assert_eq!(ok.data, Some(7));
    assert!(ok.error.is_none());
    assert!(ok.success.is_none());
    assert!(ok.message.is_none());

    let err: Envelope<u32> = Envelope::err("bad_request", "missing field");
    assert!(!err.ok);
    assert!(err.data.is_none());
    let body = err.error.unwrap();
    assert_eq!(body.code, "bad_request");
    assert_eq!(body.message, "missing field");
    assert_eq!(err.success, Some(false));
    assert_eq!(err.message.as_deref(), Some("missing field"));
}

#[test]
fn admin_error_codes_and_statuses() {
    assert_eq!(AdminError::Unauthorized.code(), "unauthorized");
    assert_eq!(AdminError::Unauthorized.status(), 401);
    assert_eq!(AdminError::Unauthorized.message(), "Unauthorized");

    let e = AdminError::bad_request("nope");
    assert_eq!(e.code(), "bad_request");
    assert_eq!(e.status(), 400);
    assert_eq!(e.message(), "nope");

    let e = AdminError::not_found("gone");
    assert_eq!(e.code(), "not_found");
    assert_eq!(e.status(), 404);
    assert_eq!(e.message(), "gone");

    let e = AdminError::internal("boom");
    assert_eq!(e.code(), "internal");
    assert_eq!(e.status(), 500);
    assert_eq!(e.message(), "boom");
}
