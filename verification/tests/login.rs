use branch_guard::login::{
    check_credentials, grant, hash_password, landing_page, login, new_password_hash, LoginForm,
    LoginOutcome,
};
use branch_guard::models::User;
use branch_guard::session::{get_user_id, ApiKey, IdentityCache};

const HELLO_DIGEST: &str = "2cf24dba5fb0a30e26e83b2ac5b9e29e1b161e5c1fa7425e73043362938b9824";
const EMPTY_DIGEST: &str = "e3b0c44298fc1c149afbf4c8996fb92427ae41e4649b934ca495991b7852b855";

fn user(id: i32, name: &str, password: &str, role: &str, branch_id: i32) -> User {
    User {
        user_id: Some(id),
        username: name.to_string(),
        passwordhash: hash_password(password),
        role: role.to_string(),
        branch_id,
    }
}

fn form(name: &str, password: &str) -> LoginForm {
    LoginForm { login: name.to_string(), password: password.to_string() }
}

fn found(user: User) -> Result<User, String> {
    Ok(user)
}

#[test]
fn password_hash_is_the_hex_sha256_digest() {
    assert_eq!(hash_password("hello"), HELLO_DIGEST);
    assert_eq!(hash_password(""), EMPTY_DIGEST);
    assert_eq!(hash_password("hello").len(), 64);
}

#[test]
fn empty_password_field_gives_no_new_hash() {
    assert_eq!(new_password_hash(""), None);
    assert_eq!(new_password_hash("hello"), Some(HELLO_DIGEST.to_string()));
}

#[test]
fn credentials_need_a_found_user_and_the_stored_digest() {
    let alice = found(user(1, "alice", "hello", "admin", 1));
    assert!(check_credentials(&alice, HELLO_DIGEST));
    assert!(!check_credentials(&alice, EMPTY_DIGEST));
    assert!(!check_credentials(&alice, "hello"));
    let missing: Result<User, String> = Err("no rows".to_string());
    assert!(!check_credentials(&missing, HELLO_DIGEST));
}

#[test]
fn each_role_has_its_landing_page() {
    assert_eq!(landing_page("admin"), "/admin");
    assert_eq!(landing_page("master"), "/master");
    assert_eq!(landing_page("analyst"), "/analyst");
    assert_eq!(landing_page("manager"), "/manager");
}

#[test]
fn unknown_role_lands_on_the_login_page() {
    assert_eq!(landing_page("janitor"), "/login");
    assert_eq!(landing_page(""), "/login");
    assert_eq!(landing_page("Admin"), "/login");
}

#[test]
fn grant_carries_key_user_and_landing_page() {
    let alice = user(42, "alice", "hello", "master", 3);
    let granted = grant(&alice, ApiKey("the-key".to_string()));
    assert_eq!(granted.api_key().0, "the-key");
    assert_eq!(granted.user_id(), 42);
    assert_eq!(granted.landing(), "/master");
}

#[test]
fn login_with_the_right_password_is_granted() {
    let outcome = login(found(user(42, "alice", "hello", "admin", 1)), &form("alice", "hello"));
    match outcome {
        LoginOutcome::Granted(granted) => {
            assert_eq!(granted.user_id(), 42);
            assert_eq!(granted.landing(), "/admin");
            assert_eq!(granted.api_key().0.len(), 36);
        }
        LoginOutcome::Denied => panic!("a valid login was denied"),
    }
}

#[test]
fn login_with_the_wrong_password_is_denied() {
    let outcome = login(found(user(42, "alice", "hello", "admin", 1)), &form("alice", "hullo"));
    assert!(matches!(outcome, LoginOutcome::Denied));
}

#[test]
fn login_with_the_stored_hash_as_password_is_denied() {
    let outcome =
        login(found(user(42, "alice", "hello", "admin", 1)), &form("alice", HELLO_DIGEST));
    assert!(matches!(outcome, LoginOutcome::Denied));
}

#[test]
fn login_of_an_unknown_user_is_denied() {
    let missing: Result<User, String> = Err("no rows".to_string());
    let outcome = login(missing, &form("nobody", "hello"));
    assert!(matches!(outcome, LoginOutcome::Denied));
}

#[test]
fn login_with_an_unknown_role_is_granted_and_lands_on_the_login_page() {
    let outcome = login(found(user(7, "bob", "pw", "janitor", 1)), &form("bob", "pw"));
    match outcome {
        LoginOutcome::Granted(granted) => assert_eq!(granted.landing(), "/login"),
        LoginOutcome::Denied => panic!("a valid login was denied"),
    }
}

#[test]
fn two_logins_get_different_keys() {
    let first = login(found(user(1, "a", "pw", "admin", 1)), &form("a", "pw"));
    let second = login(found(user(1, "a", "pw", "admin", 1)), &form("a", "pw"));
    match (first, second) {
        (LoginOutcome::Granted(one), LoginOutcome::Granted(two)) => {
            assert_ne!(one.api_key().0, two.api_key().0);
        }
        _ => panic!("a valid login was denied"),
    }
}

#[test]
fn committed_login_resolves_to_user_42() {
    let mut cache = IdentityCache::new();
    let outcome = login(found(user(42, "alice", "hello", "admin", 1)), &form("alice", "hello"));
    let granted = match outcome {
        LoginOutcome::Granted(granted) => granted,
        LoginOutcome::Denied => panic!("a valid login was denied"),
    };
    let in_session = granted.api_key().clone();
    assert_eq!(cache.lookup(&in_session), None);
    let path = granted.commit(&mut cache);
    assert_eq!(path, "/admin");
    assert_eq!(cache.lookup(&in_session), Some(42));
    let session: Result<Option<ApiKey>, String> = Ok(Some(in_session));
    assert_eq!(get_user_id(&cache, session), Ok(Some(42)));
}

#[test]
fn denied_login_leaves_the_cache_alone() {
    let cache = IdentityCache::new();
    let outcome = login(found(user(42, "alice", "hello", "admin", 1)), &form("alice", "nope"));
    assert!(matches!(outcome, LoginOutcome::Denied));
    assert_eq!(cache.len(), 0);
}

#[test]
fn logins_of_two_users_do_not_mix() {
    let mut cache = IdentityCache::new();
    let mut keys = Vec::new();
    for (id, name) in [(1, "a"), (2, "b")] {
        match login(found(user(id, name, "pw", "manager", 1)), &form(name, "pw")) {
            LoginOutcome::Granted(granted) => {
                keys.push(granted.api_key().clone());
                granted.commit(&mut cache);
            }
            LoginOutcome::Denied => panic!("a valid login was denied"),
        }
    }
    assert_eq!(cache.len(), 2);
    assert_eq!(cache.lookup(&keys[0]), Some(1));
    assert_eq!(cache.lookup(&keys[1]), Some(2));
}
