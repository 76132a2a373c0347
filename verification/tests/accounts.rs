use minipost::manager::{UserError, UserManager};
use minipost::repository::MemoryRepository;
use minipost::user::Account;

fn manager() -> UserManager<MemoryRepository> {
    UserManager::new(MemoryRepository::new())
}

#[test]
fn account_new_verifies_its_password() {
    let account = Account::new("alice".to_string(), "pw1".to_string());
    assert_eq!(account.username, "alice");
    assert!(account.verify_password("pw1".to_string()));
    assert!(!account.verify_password("pw2".to_string()));
    assert_eq!(account.created_at, account.last_active);
    assert_ne!(account.password, "pw1");
}

#[test]
fn create_succeeds_once_then_duplicate() {
    let mut m = manager();
    let created = m.create_user("alice".to_string(), "pw1".to_string());
    assert!(created.is_ok());
    let again = m.create_user("alice".to_string(), "other".to_string());
    assert_eq!(again.unwrap_err(), UserError::UserExists);
    // Only the first account was stored.
    assert_eq!(m.get_repository().accounts.len(), 1);
}

#[test]
fn distinct_usernames_both_register() {
    let mut m = manager();
    assert!(m.create_user("alice".to_string(), "pw".to_string()).is_ok());
    assert!(m.create_user("bob".to_string(), "pw".to_string()).is_ok());
    assert_eq!(m.get_repository().accounts.len(), 2);
}

#[test]
fn login_returns_token_for_registered_pair() {
    let mut m = manager();
    m.create_user("alice".to_string(), "pw1".to_string()).unwrap();
    let token = m.login("alice".to_string(), "pw1".to_string()).unwrap();
    assert_eq!(token.len(), 64);
    assert!(token.chars().all(|c| c.is_ascii_alphanumeric()));
}

#[test]
fn login_wrong_password_is_invalid_credentials() {
    let mut m = manager();
    m.create_user("alice".to_string(), "pw1".to_string()).unwrap();
    let refused = m.login("alice".to_string(), "pw2".to_string());
    assert_eq!(refused.unwrap_err(), UserError::InvalidCreditinals);
}

#[test]
fn login_unknown_user_same_error_as_wrong_password() {
    let mut m = manager();
    m.create_user("alice".to_string(), "pw1".to_string()).unwrap();
    let unknown = m.login("nobody".to_string(), "pw1".to_string());
    let wrong = m.login("alice".to_string(), "bad".to_string());
    assert_eq!(unknown.unwrap_err(), wrong.unwrap_err());
}

#[test]
fn resolve_token_right_after_login() {
    let mut m = manager();
    let account = m.create_user("alice".to_string(), "pw1".to_string()).unwrap();
    let token = m.login("alice".to_string(), "pw1".to_string()).unwrap();
    let access = m.get_user_access(token).unwrap();
    assert_eq!(access.id(), account.id);
}

#[test]
fn resolve_garbage_token_is_invalid() {
    let mut m = manager();
    m.create_user("alice".to_string(), "pw1".to_string()).unwrap();
    m.login("alice".to_string(), "pw1".to_string()).unwrap();
    let refused = m.get_user_access("garbage".to_string());
    assert_eq!(refused.unwrap_err(), UserError::InvalidToken);
}

#[test]
fn concurrent_sessions_both_resolve() {
    let mut m = manager();
    let account = m.create_user("alice".to_string(), "pw1".to_string()).unwrap();
    let t1 = m.login("alice".to_string(), "pw1".to_string()).unwrap();
    let t2 = m.login("alice".to_string(), "pw1".to_string()).unwrap();
    assert_ne!(t1, t2);
    assert_eq!(m.get_user_access(t1).unwrap().id(), account.id);
    assert_eq!(m.get_user_access(t2).unwrap().id(), account.id);
}

#[test]
fn get_me_exposes_profile_without_digest() {
    let mut m = manager();
    let account = m.create_user("alice".to_string(), "pw1".to_string()).unwrap();
    let token = m.login("alice".to_string(), "pw1".to_string()).unwrap();
    let access = m.get_user_access(token).unwrap();
    let me = access.get_me();
    assert_eq!(me.id, account.id);
    assert_eq!(me.username, "alice");
    assert_eq!(me.created_at, account.created_at);
    assert_eq!(me.last_active, account.last_active);
}

#[test]
fn update_active_persists_a_fresh_stamp() {
    let mut m = manager();
    m.create_user("alice".to_string(), "pw1".to_string()).unwrap();
    let token = m.login("alice".to_string(), "pw1".to_string()).unwrap();
    let mut access = m.get_user_access(token).unwrap();
    let before = access.get_me().last_active;
    access.update_active(&mut m).unwrap();
    let after = access.get_me().last_active;
    assert!(after >= before);
    assert_eq!(m.get_repository().accounts[0].last_active, after);
}

#[test]
fn login_account_returns_matching_account() {
    let mut m = manager();
    let created = m.create_user("alice".to_string(), "pw1".to_string()).unwrap();
    let found = m.login_account("alice".to_string(), "pw1".to_string()).unwrap();
    assert_eq!(found.id, created.id);
    assert_eq!(found.username, "alice");
    assert_eq!(
        m.login_account("alice".to_string(), "pw2".to_string()).unwrap_err(),
        UserError::InvalidCreditinals
    );
    assert_eq!(
        m.login_account("nobody".to_string(), "pw1".to_string()).unwrap_err(),
        UserError::InvalidCreditinals
    );
}
