use proxy_core::account_file::{
    load_single_account, token_from_parts, updated_project_json, updated_refresh_json,
};

fn sample_json() -> String {
    [
        "{",
        "  \"id\": \"acc-1\",",
        "  \"email\": \"user@example.com\",",
        "  \"nickname\": \"kept-around\",",
        "  \"token\": {",
        "    \"access_token\": \"AT\",",
        "    \"refresh_token\": \"RT\",",
        "    \"expires_in\": 3600,",
        "    \"expiry_timestamp\": 1700000000,",
        "    \"scope\": \"all\"",
        "  }",
        "}",
    ]
    .join("\n")
}

#[test]
fn parses_a_complete_account_file() {
    let t = load_single_account(&sample_json(), "/accounts/acc-1.json").unwrap();
    assert_eq!(t.account_id, "acc-1");
    assert_eq!(t.email, "user@example.com");
    assert_eq!(t.access_token, "AT");
    assert_eq!(t.refresh_token, "RT");
    assert_eq!(t.expires_in, 3600);
    assert_eq!(t.timestamp, 1700000000);
    assert_eq!(t.account_path, "/accounts/acc-1.json");
    assert!(t.project_id.is_none());
}

#[test]
fn optional_project_id_is_read_when_present() {
    let json = sample_json().replace("\"scope\": \"all\"", "\"project_id\": \"proj-7\"");
    let t = load_single_account(&json, "p").unwrap();
    assert_eq!(t.project_id.as_deref(), Some("proj-7"));
}

#[test]
fn files_missing_a_required_field_are_skipped() {
    let no_access = sample_json().replace("\"access_token\": \"AT\",\n", "");
    assert!(load_single_account(&no_access, "p").is_none());
    let no_id = sample_json().replace("\"id\": \"acc-1\",\n", "");
    assert!(load_single_account(&no_id, "p").is_none());
    let wrong_type = sample_json().replace("3600", "\"soon\"");
    assert!(load_single_account(&wrong_type, "p").is_none());
}

#[test]
fn malformed_documents_are_skipped() {
    assert!(load_single_account("not json at all", "p").is_none());
    assert!(load_single_account("[1, 2, 3]", "p").is_none());
    assert!(load_single_account("{\"id\": \"a\", \"token\": 5}", "p").is_none());
}

#[test]
fn token_from_parts_requires_every_mandatory_field() {
    let t = token_from_parts(
        Some("a".into()),
        Some("e".into()),
        Some("at".into()),
        Some("rt".into()),
        Some(60),
        Some(100),
        None,
        "path",
    )
    .unwrap();
    assert_eq!(t.account_id, "a");
    assert_eq!(t.account_path, "path");
    assert!(token_from_parts(
        None,
        Some("e".into()),
        Some("at".into()),
        Some("rt".into()),
        Some(60),
        Some(100),
        None,
        "path"
    )
    .is_none());
    assert!(token_from_parts(
        Some("a".into()),
        Some("e".into()),
        Some("at".into()),
        Some("rt".into()),
        None,
        Some(100),
        None,
        "path"
    )
    .is_none());
}

#[test]
fn project_writeback_preserves_every_other_field() {
    let out = updated_project_json(&sample_json(), "proj-42").unwrap();
    let v: serde_json::Value = serde_json::from_str(&out).unwrap();
    assert_eq!(v["token"]["project_id"], "proj-42");
    // Everything that was there before is still there.
    assert_eq!(v["id"], "acc-1");
    assert_eq!(v["email"], "user@example.com");
    assert_eq!(v["nickname"], "kept-around");
    assert_eq!(v["token"]["access_token"], "AT");
    assert_eq!(v["token"]["refresh_token"], "RT");
    assert_eq!(v["token"]["expires_in"], 3600);
    assert_eq!(v["token"]["expiry_timestamp"], 1700000000i64);
    assert_eq!(v["token"]["scope"], "all");
    // And the rendering is indented.
    assert!(out.contains("\n  "));
}

#[test]
fn refresh_writeback_sets_the_new_window_and_preserves_the_rest() {
    let now: i64 = 1700000500;
    let out = updated_refresh_json(&sample_json(), "T2", 7200, now).unwrap();
    let v: serde_json::Value = serde_json::from_str(&out).unwrap();
    assert_eq!(v["token"]["access_token"], "T2");
    assert_eq!(v["token"]["expires_in"], 7200);
    assert_eq!(v["token"]["expiry_timestamp"], now + 7200);
    assert_eq!(v["token"]["refresh_token"], "RT");
    assert_eq!(v["token"]["scope"], "all");
    assert_eq!(v["id"], "acc-1");
    assert_eq!(v["nickname"], "kept-around");
}

#[test]
fn writeback_round_trip_reloads_as_the_refreshed_account() {
    let now: i64 = 1700000500;
    let out = updated_refresh_json(&sample_json(), "T2", 7200, now).unwrap();
    let t = load_single_account(&out, "/accounts/acc-1.json").unwrap();
    assert_eq!(t.access_token, "T2");
    assert_eq!(t.expires_in, 7200);
    assert_eq!(t.timestamp, now + 7200);
    assert_eq!(t.account_id, "acc-1");
}

#[test]
fn writeback_refuses_a_non_object_document() {
    assert!(updated_project_json("[]", "p").is_none());
    assert!(updated_refresh_json("3", "T", 1, 1).is_none());
}
