use proxy_core::token_manager::{ProxyToken, TokenError, TokenManager, TokenStep};

fn account(id: &str, email: &str, expiry: i64, project: Option<&str>) -> ProxyToken {
    ProxyToken {
        account_id: id.to_string(),
        access_token: format!("access-{}", id),
        refresh_token: format!("refresh-{}", id),
        expires_in: 3600,
        timestamp: expiry,
        email: email.to_string(),
        account_path: format!("/accounts/{}.json", id),
        project_id: project.map(|p| p.to_string()),
    }
}

const FAR: i64 = 10_000_000_000;

fn pool_ab() -> TokenManager {
    let mut m = TokenManager::new();
    let n = m.load_accounts(vec![
        account("acc-a", "a@example.com", FAR, Some("proj-a")),
        account("acc-b", "b@example.com", FAR, Some("proj-b")),
    ]);
    assert_eq!(n, 2);
    assert_eq!(m.len(), 2);
    m
}

#[test]
fn empty_pool_reports_pool_empty() {
    let mut m = TokenManager::new();
    assert_eq!(m.len(), 0);
    match m.select_account("gemini", false, 0) {
        Err(TokenError::PoolEmpty) => {}
        _ => panic!("expected PoolEmpty"),
    }
    match m.get_token_plan("gemini", false, 0, 0) {
        Err(TokenError::PoolEmpty) => {}
        _ => panic!("expected PoolEmpty"),
    }
}

#[test]
fn cold_start_loads_zero_accounts() {
    let mut m = TokenManager::new();
    assert_eq!(m.load_accounts(vec![]), 0);
    assert_eq!(m.len(), 0);
}

#[test]
fn sticky_reuse_within_window_then_rotation() {
    let mut m = pool_ab();
    let t1 = m.select_account("gemini", false, 0).unwrap();
    assert_eq!(t1.account_id, "acc-a");
    let t2 = m.select_account("gemini", false, 10).unwrap();
    assert_eq!(t2.account_id, "acc-a");
    // 60 seconds after the last use the window has expired.
    let t3 = m.select_account("gemini", false, 70).unwrap();
    assert_eq!(t3.account_id, "acc-b");
}

#[test]
fn image_gen_bypasses_stickiness_and_keeps_last_used() {
    let mut m = pool_ab();
    let t1 = m.select_account("gemini", false, 0).unwrap();
    assert_eq!(t1.account_id, "acc-a");
    let before = m.last_used.clone();
    assert_eq!(before.as_ref().map(|(id, t)| (id.as_str(), *t)), Some(("acc-a", 0)));
    let t2 = m.select_account("image_gen", false, 1).unwrap();
    assert_eq!(t2.account_id, "acc-b");
    assert_eq!(m.last_used, before);
}

#[test]
fn force_rotate_bypasses_pin_and_sticky() {
    let mut m = pool_ab();
    m.pin_account(Some("acc-a".to_string()));
    let t1 = m.select_account("gemini", true, 0).unwrap();
    assert_eq!(t1.account_id, "acc-a"); // round-robin index 0
    let t2 = m.select_account("gemini", true, 1).unwrap();
    assert_eq!(t2.account_id, "acc-b"); // round-robin index 1
    // The pin is honored again on the next ordinary call.
    let t3 = m.select_account("gemini", false, 2).unwrap();
    assert_eq!(t3.account_id, "acc-a");
}

#[test]
fn pinned_account_wins_and_missing_pin_falls_through() {
    let mut m = pool_ab();
    m.pin_account(Some("acc-b".to_string()));
    assert_eq!(m.pinned_account_id().as_deref(), Some("acc-b"));
    let t = m.select_account("gemini", false, 0).unwrap();
    assert_eq!(t.account_id, "acc-b");
    m.pin_account(Some("acc-missing".to_string()));
    let t2 = m.select_account("gemini", false, 0).unwrap();
    assert_eq!(t2.account_id, "acc-a"); // rotation at index 0
}

#[test]
fn reload_prunes_pool_and_clears_dangling_references() {
    let mut m = pool_ab();
    m.pin_account(Some("acc-a".to_string()));
    m.last_used = Some(("acc-b".to_string(), 5));
    let count = m.reload_accounts(vec![account("acc-b", "b@example.com", FAR, Some("proj-b"))]);
    assert_eq!(count, 1);
    assert_eq!(m.len(), 1);
    assert_eq!(m.pinned_account_id(), None);
    // The sticky reference still names a live account and survives.
    assert_eq!(m.last_used.as_ref().map(|(id, _)| id.as_str()), Some("acc-b"));
}

#[test]
fn reload_with_no_candidates_empties_everything() {
    let mut m = pool_ab();
    m.pin_account(Some("acc-a".to_string()));
    m.last_used = Some(("acc-a".to_string(), 5));
    let count = m.reload_accounts(vec![]);
    assert_eq!(count, 0);
    assert_eq!(m.len(), 0);
    assert_eq!(m.pinned_account_id(), None);
    assert_eq!(m.last_used, None);
}

#[test]
fn reload_updates_existing_records() {
    let mut m = pool_ab();
    let mut b2 = account("acc-b", "b2@example.com", FAR, Some("proj-b2"));
    b2.access_token = "newer".to_string();
    let count = m.reload_accounts(vec![
        account("acc-a", "a@example.com", FAR, Some("proj-a")),
        b2,
    ]);
    assert_eq!(count, 2);
    let b = m.tokens.iter().find(|t| t.account_id == "acc-b").unwrap();
    assert_eq!(b.email, "b2@example.com");
    assert_eq!(b.access_token, "newer");
}

#[test]
fn fresh_token_with_project_is_ready_at_once() {
    let now: i64 = 1_000_000;
    let mut m = TokenManager::new();
    m.load_accounts(vec![account("acc-a", "a@example.com", now + 400, Some("proj-a"))]);
    match m.get_token_plan("gemini", false, 0, now).unwrap() {
        TokenStep::Ready { grant } => {
            assert_eq!(grant.access_token, "access-acc-a");
            assert_eq!(grant.project_id, "proj-a");
            assert_eq!(grant.email, "a@example.com");
            assert!(grant.expiry_timestamp >= now - 300);
            assert!(!grant.project_id.is_empty());
        }
        _ => panic!("expected Ready"),
    }
}

#[test]
fn preemptive_refresh_updates_pool_and_grant() {
    let now: i64 = 1_000_000;
    let mut m = TokenManager::new();
    // Expires in 120 seconds: inside the 300-second skew.
    m.load_accounts(vec![account("acc-a", "a@example.com", now + 120, Some("proj-a"))]);
    let token = match m.get_token_plan("gemini", false, 0, now).unwrap() {
        TokenStep::NeedRefresh { token } => token,
        _ => panic!("expected NeedRefresh"),
    };
    assert_eq!(token.refresh_token, "refresh-acc-a");
    match m.apply_refresh(&token, "T2".to_string(), 3600, now) {
        TokenStep::Ready { grant } => {
            assert_eq!(grant.access_token, "T2");
            assert_eq!(grant.expiry_timestamp, now + 3600);
            assert!(grant.expiry_timestamp >= now - 300);
            assert!(!grant.project_id.is_empty());
        }
        _ => panic!("expected Ready"),
    }
    // The shared record took the new token and window.
    assert_eq!(m.tokens[0].access_token, "T2");
    assert_eq!(m.tokens[0].timestamp, now + 3600);
    assert_eq!(m.tokens[0].expires_in, 3600);
}

#[test]
fn missing_project_id_is_resolved_and_committed() {
    let now: i64 = 1_000_000;
    let mut m = TokenManager::new();
    m.load_accounts(vec![account("acc-a", "a@example.com", now + 4000, None)]);
    let token = match m.get_token_plan("gemini", false, 0, now).unwrap() {
        TokenStep::NeedProjectId { token } => token,
        _ => panic!("expected NeedProjectId"),
    };
    let grant = m
        .apply_project_id(&token, "proj-new".to_string(), now)
        .unwrap();
    assert_eq!(grant.project_id, "proj-new");
    assert_eq!(grant.expiry_timestamp, token.timestamp);
    assert!(grant.expiry_timestamp >= now - 300);
    assert_eq!(m.tokens[0].project_id.as_deref(), Some("proj-new"));
}

#[test]
fn empty_project_id_is_a_resolution_failure() {
    let now: i64 = 1_000_000;
    let mut m = TokenManager::new();
    m.load_accounts(vec![account("acc-a", "a@example.com", now + 4000, None)]);
    let token = match m.get_token_plan("gemini", false, 0, now).unwrap() {
        TokenStep::NeedProjectId { token } => token,
        _ => panic!("expected NeedProjectId"),
    };
    match m.apply_project_id(&token, String::new(), now) {
        Err(TokenError::ProjectResolutionFailed(_)) => {}
        _ => panic!("expected ProjectResolutionFailed"),
    }
}

#[test]
fn empty_string_project_id_counts_as_missing() {
    let now: i64 = 1_000_000;
    let mut m = TokenManager::new();
    m.load_accounts(vec![account("acc-a", "a@example.com", now + 4000, Some(""))]);
    match m.get_token_plan("gemini", false, 0, now).unwrap() {
        TokenStep::NeedProjectId { .. } => {}
        _ => panic!("expected NeedProjectId"),
    }
}

#[test]
fn refresh_after_rotation_still_updates_the_right_account() {
    let now: i64 = 1_000_000;
    let mut m = TokenManager::new();
    m.load_accounts(vec![
        account("acc-a", "a@example.com", now + 100, Some("proj-a")),
        account("acc-b", "b@example.com", now + 100, Some("proj-b")),
    ]);
    let token = match m.get_token_plan("image_gen", false, 0, now).unwrap() {
        TokenStep::NeedRefresh { token } => token,
        _ => panic!("expected NeedRefresh"),
    };
    assert_eq!(token.account_id, "acc-a");
    m.apply_refresh(&token, "T9".to_string(), 7200, now);
    assert_eq!(m.tokens[0].access_token, "T9");
    assert_eq!(m.tokens[1].access_token, "access-acc-b");
}

#[test]
fn stale_sticky_reference_falls_back_to_rotation() {
    let mut m = pool_ab();
    m.last_used = Some(("acc-ghost".to_string(), 0));
    // The window is still open, but the account is gone: rule 3 applies.
    let t = m.select_account("gemini", false, 10).unwrap();
    assert_eq!(t.account_id, "acc-a");
}

#[test]
fn rotation_counter_wraps_at_the_limit() {
    let mut m = pool_ab();
    m.current_index = u64::MAX;
    let t1 = m.select_account("gemini", true, 0).unwrap();
    assert_eq!(t1.account_id, "acc-b"); // u64::MAX % 2 == 1
    assert_eq!(m.current_index, 0);
    let t2 = m.select_account("gemini", true, 1).unwrap();
    assert_eq!(t2.account_id, "acc-a");
}

#[test]
fn pinned_selection_does_not_touch_the_sticky_window() {
    let mut m = pool_ab();
    m.pin_account(Some("acc-b".to_string()));
    let t = m.select_account("gemini", false, 0).unwrap();
    assert_eq!(t.account_id, "acc-b");
    // Rule 1 fired: the window is not reset.
    assert_eq!(m.last_used, None);
}

#[test]
fn refresh_failure_variant_carries_the_cause() {
    let e = TokenError::RefreshFailed("upstream said no".to_string());
    match e {
        TokenError::RefreshFailed(m) => assert_eq!(m, "upstream said no"),
        _ => panic!("wrong variant"),
    }
}
