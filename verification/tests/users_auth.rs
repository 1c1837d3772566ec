use vocab::auth::{resolve_session_user, AuthError, LoginFormData};
use vocab::credentials::check_password_hash;
use vocab::store::Store;
use vocab::users::{
    add_user, add_user_record, authenticate_user_by_password, create_session, get_session_user,
    login, set_password, user_by_name, UsersError,
};

fn add_test_user(store: &mut Store, name: &str) -> i64 {
    add_user_record(store, name, None, 0).expect("add test user")
}

#[test]
fn test_registered_password_authenticates() {
    let mut store = Store::new();
    let id = add_test_user(&mut store, "alice");
    assert_eq!(authenticate_user_by_password(&store, "alice", "s3cret"), None);
    set_password(&mut store, id, "s3cret").expect("set password");
    assert_eq!(authenticate_user_by_password(&store, "alice", "s3cret"), Some(id));
    assert_eq!(authenticate_user_by_password(&store, "alice", "wrong"), None);
    assert_eq!(authenticate_user_by_password(&store, "alice", ""), None);
}

#[test]
fn test_unknown_username_never_authenticates() {
    let mut store = Store::new();
    let id = add_user(&mut store, "alice", "s3cret", 0).expect("add user");
    assert_eq!(authenticate_user_by_password(&store, "bob", "s3cret"), None);
    assert_eq!(authenticate_user_by_password(&store, "", "s3cret"), None);
    assert_eq!(authenticate_user_by_password(&store, "alice", "s3cret"), Some(id));
}

#[test]
fn test_no_password_never_authenticates() {
    let mut store = Store::new();
    add_test_user(&mut store, "ghost");
    assert_eq!(authenticate_user_by_password(&store, "ghost", ""), None);
    assert_eq!(authenticate_user_by_password(&store, "ghost", "anything"), None);
    assert_eq!(authenticate_user_by_password(&store, "ghost", "ghost"), None);
}

#[test]
fn test_stored_hash_verifies_only_its_password() {
    let mut store = Store::new();
    add_user(&mut store, "alice", "s3cret", 0).expect("add user");
    let hash = store.users[0].password_hash.clone().expect("hash stored");
    assert!(hash.starts_with("$argon2"));
    assert!(check_password_hash(&hash, "s3cret"));
    assert!(!check_password_hash(&hash, "s3cre"));
    assert!(!check_password_hash(&hash, "s3cret "));
    assert!(!check_password_hash(&hash, ""));
}

#[test]
fn test_malformed_hash_never_verifies() {
    assert!(!check_password_hash("", "password"));
    assert!(!check_password_hash("not-a-hash", "password"));
    assert!(!check_password_hash("$argon2id$broken", "password"));
}

#[test]
fn test_create_session_then_resolve() {
    let mut store = Store::new();
    let id = add_user(&mut store, "alice", "s3cret", 0).expect("add user");
    let secret = create_session(&mut store, id, "test-agent", 7).expect("create session");
    assert_eq!(secret.len(), 16);
    assert!(secret
        .chars()
        .all(|c| c.is_ascii_alphanumeric() || c == '-' || c == '_'));
    assert_eq!(get_session_user(&store, &secret), Some(id));
    assert_eq!(store.sessions[0].created_user_agent, "test-agent");
    assert_eq!(store.sessions[0].created_at, 7);
    assert_eq!(store.sessions[0].last_used_at, 7);
}

#[test]
fn test_resolve_unissued_secret() {
    let mut store = Store::new();
    let id = add_user(&mut store, "alice", "s3cret", 0).expect("add user");
    assert_eq!(get_session_user(&store, "AAAAAAAAAAAAAAAA"), None);
    create_session(&mut store, id, "test-agent", 0).expect("create session");
    assert_eq!(get_session_user(&store, "AAAAAAAAAAAAAAAA"), None);
    assert_eq!(get_session_user(&store, ""), None);
}

#[test]
fn test_session_secrets_distinct() {
    let mut store = Store::new();
    let id = add_user(&mut store, "alice", "s3cret", 0).expect("add user");
    let mut seen = std::collections::HashSet::new();
    for _ in 0..10_000 {
        let secret = create_session(&mut store, id, "test-agent", 0).expect("create session");
        assert_eq!(secret.len(), 16);
        assert!(seen.insert(secret));
    }
    assert_eq!(seen.len(), 10_000);
}

#[test]
fn test_resolve_session_user_cases() {
    let mut store = Store::new();
    let id = add_user(&mut store, "alice", "s3cret", 0).expect("add user");
    let secret = create_session(&mut store, id, "test-agent", 0).expect("create session");

    let no_cookie = resolve_session_user(&store, None);
    assert_eq!(no_cookie.expect_err("rejected"), AuthError::NotAuthenticated);

    let bad_cookie = resolve_session_user(&store, Some("AAAAAAAAAAAAAAAA"));
    assert_eq!(bad_cookie.expect_err("rejected"), AuthError::InvalidSession);

    let good = resolve_session_user(&store, Some(&secret)).expect("accepted");
    assert_eq!(good.0, id);
}

#[test]
fn test_login_round_trip() {
    let mut store = Store::new();
    let id = add_user(&mut store, "alice", "s3cret", 0).expect("add user");

    let bad_form = LoginFormData { username: "alice".to_owned(), password: "wrong".to_owned() };
    let failed = login(&mut store, &bad_form.username, &bad_form.password, "agent", 0)
        .expect("login runs");
    assert_eq!(failed, None);
    assert_eq!(store.sessions.len(), 0);

    let form = LoginFormData { username: "alice".to_owned(), password: "s3cret".to_owned() };
    let secret = login(&mut store, &form.username, &form.password, "agent", 0)
        .expect("login runs")
        .expect("login succeeds");
    assert_eq!(get_session_user(&store, &secret), Some(id));
}

#[test]
fn test_user_id_space_exhausted() {
    let mut store = Store::new();
    store.next_user_id = i64::MAX;
    let err = add_user(&mut store, "alice", "pw", 0).expect_err("id space exhausted");
    assert_eq!(err, UsersError::StoreError);
    assert!(store.users.is_empty());
}

#[test]
fn test_duplicate_username_refused() {
    let mut store = Store::new();
    add_user(&mut store, "alice", "one", 0).expect("add user");
    let err = add_user(&mut store, "alice", "two", 0).expect_err("duplicate refused");
    assert_eq!(err, UsersError::StoreError);
    assert_eq!(store.users.len(), 1);
}

#[test]
fn test_set_password_no_such_user() {
    let mut store = Store::new();
    let err = set_password(&mut store, 41, "pw").expect_err("no such user");
    assert_eq!(err, UsersError::NoSuchUser(41));
}

#[test]
fn test_user_by_name() {
    let mut store = Store::new();
    let id = add_user(&mut store, "alice", "s3cret", 0).expect("add user");
    assert_eq!(user_by_name(&store, "alice"), Some(id));
    assert_eq!(user_by_name(&store, "bob"), None);
}

#[test]
fn test_end_to_end_scenario() {
    let mut store = Store::new();
    let id = add_user(&mut store, "alice", "s3cret", 0).expect("create alice");
    assert_eq!(authenticate_user_by_password(&store, "alice", "s3cret"), Some(id));
    assert_eq!(authenticate_user_by_password(&store, "alice", "wrong"), None);
    let secret = create_session(&mut store, id, "test-agent", 0).expect("create session");
    assert_eq!(get_session_user(&store, &secret), Some(id));
}
