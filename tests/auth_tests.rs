use pos_backend::auth::{bearer_token, decide, AdminAuth, Credential, AuthError, Lookup, StoreUnavailable};
use pos_backend::models::ApiError;
use pos_backend::pin::{hash_pin, is_valid_pin};

fn store(entries: &[(&str, &str, bool)]) -> Vec<(String, String, bool)> {
    entries
        .iter()
        .map(|(pin, id, admin)| (hash_pin(pin), id.to_string(), *admin))
        .collect()
}

fn lookup_in(rows: &[(String, String, bool)], key: &str) -> Lookup {
    for (hash, id, admin) in rows {
        if hash == key {
            return Ok(Some(Credential { staff_id: id.clone(), is_admin: *admin }));
        }
    }
    Ok(None)
}

#[test]
fn hash_pin_is_lowercase_hex_sha256() {
    assert_eq!(
        hash_pin("1234"),
        "03ac674216f3e15c761ee1a5e255f067953623c8b388b4459e13f978d7c846f4"
    );
    assert_eq!(hash_pin("5678").len(), 64);
    assert_ne!(hash_pin("1234"), hash_pin("5678"));
}

#[test]
fn bearer_token_strips_prefix() {
    assert_eq!(bearer_token("Bearer 1234"), Some("1234"));
    assert_eq!(bearer_token("Bearer "), Some(""));
    assert_eq!(bearer_token("bearer 1234"), None);
    assert_eq!(bearer_token("Basic 1234"), None);
    assert_eq!(bearer_token("Bear"), None);
}

#[test]
fn catalog_tests_test_unauthorized_access() {
    let rows = store(&[("1234", "staff1", true), ("5678", "staff2", false)]);
    let auth = AdminAuth::new();
    // no header
    let r = auth.check(None, |k: &str| lookup_in(&rows, k));
    assert_eq!(r, Err(AuthError::Unauthorized));
    assert_eq!(ApiError::from_auth_error(r.unwrap_err()).status_code(), 401);
    // non-admin PIN
    let r = auth.check(Some("Bearer 5678"), |k: &str| lookup_in(&rows, k));
    assert_eq!(r, Err(AuthError::Unauthorized));
    assert_eq!(ApiError::from_auth_error(r.unwrap_err()).status_code(), 401);
}

#[test]
fn staff_tests_test_unauthorized_access() {
    let rows = store(&[("1432", "admin", true)]);
    let auth = AdminAuth::new();
    let r = auth.check(None, |k: &str| lookup_in(&rows, k));
    assert!(ApiError::from_auth_error(r.unwrap_err()).message().contains("Admin access required"));
    let r = auth.check(Some("Bearer non_admin_pin"), |k: &str| lookup_in(&rows, k));
    assert!(ApiError::from_auth_error(r.unwrap_err()).message().contains("Admin access required"));
}

#[test]
fn auth_admits_admin_pin_only() {
    let rows = store(&[("1234", "a", true), ("5678", "b", false)]);
    let auth = AdminAuth::new();
    assert_eq!(auth.check(Some("Bearer 1234"), |k: &str| lookup_in(&rows, k)), Ok(()));
    assert_eq!(auth.check(Some("Bearer 5678"), |k: &str| lookup_in(&rows, k)), Err(AuthError::Unauthorized));
    assert_eq!(auth.check(Some("Bearer 0000"), |k: &str| lookup_in(&rows, k)), Err(AuthError::Unauthorized));
    assert_eq!(auth.check(Some("1234"), |k: &str| lookup_in(&rows, k)), Err(AuthError::Unauthorized));
}

#[test]
fn auth_looks_up_by_pin_hash() {
    let auth = AdminAuth::new();
    let seen = std::cell::RefCell::new(Vec::new());
    let r = auth.check(Some("Bearer 1234"), |k: &str| {
        seen.borrow_mut().push(k.to_string());
        Ok(None)
    });
    assert_eq!(r, Err(AuthError::Unauthorized));
    assert_eq!(
        seen.into_inner(),
        vec!["03ac674216f3e15c761ee1a5e255f067953623c8b388b4459e13f978d7c846f4".to_string()]
    );
}

#[test]
fn auth_makes_no_lookup_without_bearer_pin() {
    let auth = AdminAuth::new();
    let calls = std::cell::Cell::new(0u32);
    let count = |_: &str| -> Lookup {
        calls.set(calls.get() + 1);
        Ok(None)
    };
    assert_eq!(auth.check(None, &count), Err(AuthError::Unauthorized));
    assert_eq!(auth.check(Some("Token 1234"), &count), Err(AuthError::Unauthorized));
    assert_eq!(calls.get(), 0);
}

#[test]
fn auth_fails_closed_when_store_unreachable() {
    let auth = AdminAuth::new();
    let r = auth.check(Some("Bearer 1234"), |_: &str| Err(StoreUnavailable));
    assert_eq!(r, Err(AuthError::Unavailable));
    let e = ApiError::from_auth_error(AuthError::Unavailable);
    assert_eq!(e.status_code(), 401);
    assert_eq!(e.message(), "Unauthorized: Credential store unavailable");
}

#[test]
fn decide_verdicts() {
    let admin: Lookup = Ok(Some(Credential { staff_id: "s".to_string(), is_admin: true }));
    let clerk: Lookup = Ok(Some(Credential { staff_id: "s".to_string(), is_admin: false }));
    assert_eq!(decide(&admin), Ok(()));
    assert_eq!(decide(&clerk), Err(AuthError::Unauthorized));
    assert_eq!(decide(&Ok(None)), Err(AuthError::Unauthorized));
    assert_eq!(decide(&Err(StoreUnavailable)), Err(AuthError::Unavailable));
}

#[test]
fn middleware_forwards_only_admitted_requests() {
    let rows = store(&[("1234", "a", true)]);
    let mw = AdminAuth::new().new_transform(42u32);
    assert_eq!(mw.call(Some("Bearer 1234"), |k: &str| lookup_in(&rows, k)), Ok(&42u32));
    assert_eq!(mw.call(Some("Bearer 9999"), |k: &str| lookup_in(&rows, k)), Err(AuthError::Unauthorized));
    assert_eq!(mw.call(None, |k: &str| lookup_in(&rows, k)), Err(AuthError::Unauthorized));
}

#[test]
fn pin_format() {
    assert!(is_valid_pin("1234"));
    assert!(is_valid_pin("0000"));
    assert!(!is_valid_pin("123"));
    assert!(!is_valid_pin("12345"));
    assert!(!is_valid_pin("12a4"));
    assert!(!is_valid_pin(""));
}

#[test]
fn auth_never_calls_lookup_for_non_bearer_headers() {
    let auth = AdminAuth::new();
    let refuse = |_: &str| -> Lookup { panic!("no lookup expected") };
    assert_eq!(auth.check(Some("Basic 1234"), &refuse), Err(AuthError::Unauthorized));
    assert_eq!(auth.check(Some("bearer 1234"), &refuse), Err(AuthError::Unauthorized));
    assert_eq!(auth.check(None, &refuse), Err(AuthError::Unauthorized));
}
