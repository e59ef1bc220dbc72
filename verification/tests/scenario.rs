use branch_guard::assignment::create_branch_employee;
use branch_guard::error::DbError;
use branch_guard::guard::{authorize, create_branch, delete_user, update_user};
use branch_guard::login::{hash_password, login, LoginForm, LoginOutcome};
use branch_guard::models::{Branch, User};
use branch_guard::session::{
    auth_middleware, get_user_id, is_login_path, Admission, ApiKey, IdentityCache,
};
use branch_guard::storage::{MemoryStorage, StorageFault};

fn branch(city: &str) -> Branch {
    Branch {
        branch_id: None,
        address: "5 Dock Road".to_string(),
        phone_number: "555-0199".to_string(),
        postal_code: "60601".to_string(),
        employee_count: 3,
        city: city.to_string(),
    }
}

/// Two branches, each with its first administrator, and one master in
/// the second branch. The administrators' password is `first-secret`.
fn business() -> MemoryStorage {
    let mut storage = MemoryStorage::new();
    create_branch(&mut storage, branch("Boston"), hash_password("first-secret")).unwrap();
    create_branch(&mut storage, branch("Chicago"), hash_password("first-secret")).unwrap();
    storage
        .register_user(User {
            user_id: None,
            username: "mia".to_string(),
            passwordhash: hash_password("wrench"),
            role: "master".to_string(),
            branch_id: 2,
        })
        .unwrap();
    storage
}

fn form(name: &str, password: &str) -> LoginForm {
    LoginForm { login: name.to_string(), password: password.to_string() }
}

/// Logs in as the door and the login handler would, and gives back what
/// the session holds afterwards.
fn log_in(
    storage: &MemoryStorage,
    cache: &mut IdentityCache,
    name: &str,
    password: &str,
) -> Option<ApiKey> {
    assert_eq!(auth_middleware("/api/v1/login", &Ok(None)), Admission::Forward);
    let attempt = form(name, password);
    match login(storage.get_user(&attempt.login), &attempt) {
        LoginOutcome::Denied => None,
        LoginOutcome::Granted(granted) => {
            let in_session = granted.api_key().clone();
            granted.commit(cache);
            Some(in_session)
        }
    }
}

fn session(key: &Option<ApiKey>) -> Result<Option<ApiKey>, String> {
    Ok(key.clone())
}

#[test]
fn a_master_logs_in_and_is_recognised_on_the_next_request() {
    let storage = business();
    let mut cache = IdentityCache::new();
    let key = log_in(&storage, &mut cache, "mia", "wrench");
    assert!(key.is_some());
    let identity = get_user_id(&cache, session(&key));
    assert_eq!(identity, Ok(Some(3)));
    assert_eq!(auth_middleware("/master", &identity), Admission::Forward);
}

#[test]
fn a_visitor_without_a_login_is_sent_to_the_login_page() {
    let storage = business();
    let mut cache = IdentityCache::new();
    let _ = log_in(&storage, &mut cache, "mia", "wrench");
    let identity = get_user_id(&cache, session(&None));
    assert_eq!(identity, Ok(None));
    assert!(!is_login_path("/master"));
    assert_eq!(auth_middleware("/master", &identity), Admission::RedirectToLogin);
}

#[test]
fn a_wrong_password_leaves_no_trace() {
    let storage = business();
    let mut cache = IdentityCache::new();
    assert!(log_in(&storage, &mut cache, "mia", "hammer").is_none());
    assert!(log_in(&storage, &mut cache, "nobody", "wrench").is_none());
    assert_eq!(cache.len(), 0);
}

#[test]
fn a_forged_key_is_nobody() {
    let storage = business();
    let mut cache = IdentityCache::new();
    let _ = log_in(&storage, &mut cache, "mia", "wrench");
    let forged = Some(ApiKey("00000000-0000-4000-8000-000000000000".to_string()));
    assert_eq!(get_user_id(&cache, session(&forged)), Ok(None));
}

#[test]
fn the_guard_is_asked_with_branches_looked_up_for_both_sides() {
    let mut storage = business();
    let mut cache = IdentityCache::new();
    storage
        .register_user(User {
            user_id: None,
            username: "chief".to_string(),
            passwordhash: hash_password("ledger"),
            role: "admin".to_string(),
            branch_id: 2,
        })
        .unwrap();
    let key = log_in(&storage, &mut cache, "chief", "ledger");
    let chief = get_user_id(&cache, session(&key)).unwrap().unwrap();
    assert_eq!(chief, 4);

    let allowed = authorize(storage.get_branch_id(chief), storage.get_branch_id_by_username("mia"));
    assert_eq!(allowed, Ok(()));
    let refused =
        authorize(storage.get_branch_id(chief), storage.get_branch_id_by_username("admin"));
    assert_eq!(refused, Err(DbError::NotPermitted));
    let unknown =
        authorize(storage.get_branch_id(chief), storage.get_branch_id_by_username("ghost"));
    assert_eq!(unknown, Err(DbError::Sqlx(StorageFault::RowNotFound)));
    let stranger = authorize(storage.get_branch_id(99), storage.get_branch_id_by_username("mia"));
    assert_eq!(stranger, Err(DbError::Sqlx(StorageFault::RowNotFound)));

    let own_branch = storage.get_branch_id(chief).unwrap();
    let promoted = update_user(&mut storage, own_branch, "mia", None, Some("manager"), None);
    assert_eq!(promoted.unwrap().role, "manager");
    assert_eq!(delete_user(&mut storage, "admin", own_branch), Err(DbError::NotPermitted));
    assert_eq!(storage.user_count(), 4);
}

#[test]
fn an_employee_stays_in_one_city_through_a_working_life() {
    let mut storage = business();
    create_branch(&mut storage, branch("Boston"), hash_password("first-secret")).unwrap();
    assert!(create_branch_employee(&mut storage, 11, 1).is_ok());
    assert!(create_branch_employee(&mut storage, 11, 3).is_ok());
    assert_eq!(create_branch_employee(&mut storage, 11, 2), Err(DbError::BadInput));
    assert_eq!(storage.assignment_count(), 2);
    assert!(storage.exists_conflicting_assignment(11, "Chicago"));
    assert!(!storage.exists_conflicting_assignment(11, "Boston"));
}
