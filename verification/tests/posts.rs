use minipost::access::PostAccess;
use minipost::manager::{UserAccess, UserManager};
use minipost::post::Post;
use minipost::repository::{MemoryRepository, Repository, RepositoryError};
use minipost::session::Session;
use minipost::user::Account;

fn actor(m: &mut UserManager<MemoryRepository>, name: &str) -> UserAccess {
    m.create_user(name.to_string(), "pw".to_string()).unwrap();
    let token = m.login(name.to_string(), "pw".to_string()).unwrap();
    m.get_user_access(token).unwrap()
}

fn texts(page: &[PostAccess]) -> Vec<String> {
    page.iter().map(|p| p.info().text).collect()
}

#[test]
fn list_own_posts_newest_first() {
    let mut m = UserManager::new(MemoryRepository::new());
    let mut alice = actor(&mut m, "alice");
    for k in 0..5 {
        alice.post(&mut m, format!("hello{}", k)).unwrap();
    }
    let page = alice.get_posts(&m, 0, 5).unwrap();
    assert_eq!(
        texts(&page),
        vec!["hello4", "hello3", "hello2", "hello1", "hello0"]
    );
}

#[test]
fn offset_past_end_is_empty() {
    let mut m = UserManager::new(MemoryRepository::new());
    let mut alice = actor(&mut m, "alice");
    for k in 0..3 {
        alice.post(&mut m, format!("hello{}", k)).unwrap();
    }
    assert!(alice.get_posts(&m, 3, 2).unwrap().is_empty());
    assert!(alice.get_posts(&m, 100, 2).unwrap().is_empty());
}

#[test]
fn limit_zero_is_empty() {
    let mut m = UserManager::new(MemoryRepository::new());
    let mut alice = actor(&mut m, "alice");
    alice.post(&mut m, "hello".to_string()).unwrap();
    assert!(alice.get_posts(&m, 0, 0).unwrap().is_empty());
}

#[test]
fn paged_windows_reconstruct_the_full_listing() {
    let mut m = UserManager::new(MemoryRepository::new());
    let mut alice = actor(&mut m, "alice");
    for k in 0..7 {
        alice.post(&mut m, format!("hello{}", k)).unwrap();
    }
    let full = texts(&alice.get_posts(&m, 0, 7).unwrap());
    let mut stitched = Vec::new();
    stitched.extend(texts(&alice.get_posts(&m, 0, 3).unwrap()));
    stitched.extend(texts(&alice.get_posts(&m, 3, 3).unwrap()));
    stitched.extend(texts(&alice.get_posts(&m, 6, 3).unwrap()));
    assert_eq!(stitched, full);
    assert_eq!(full.len(), 7);
}

#[test]
fn listing_is_scoped_to_the_author() {
    let mut m = UserManager::new(MemoryRepository::new());
    let mut alice = actor(&mut m, "alice");
    let mut bob = actor(&mut m, "bob");
    alice.post(&mut m, "from alice".to_string()).unwrap();
    bob.post(&mut m, "from bob".to_string()).unwrap();
    assert_eq!(texts(&alice.get_posts(&m, 0, 10).unwrap()), vec!["from alice"]);
    assert_eq!(texts(&bob.get_posts(&m, 0, 10).unwrap()), vec!["from bob"]);
}

#[test]
fn posting_updates_activity() {
    let mut m = UserManager::new(MemoryRepository::new());
    let mut alice = actor(&mut m, "alice");
    let before = alice.get_me().last_active;
    let pa = alice.post(&mut m, "hello".to_string()).unwrap();
    assert!(alice.get_me().last_active >= before);
    assert_eq!(m.get_repository().posts.len(), 1);
    assert_eq!(pa.info().text, "hello");
    assert!(pa.is_creator());
}

#[test]
fn post_access_views() {
    let mut m = UserManager::new(MemoryRepository::new());
    let mut alice = actor(&mut m, "alice");
    let bob = actor(&mut m, "bob");
    let pa = alice.post(&mut m, "hello".to_string()).unwrap();
    let info = pa.info();
    assert_eq!(info.user, alice.id());
    assert_eq!(info.id, pa.id());
    let bobs_view = PostAccess::new(&bob, m.get_repository().posts[0].clone());
    assert!(!bobs_view.is_creator());
}

#[test]
fn repository_get_post_and_not_found() {
    let mut repo = MemoryRepository::new();
    let post = Post::new(7, "hello".to_string());
    let id = post.id;
    repo.push_post(post).unwrap();
    let fetched = repo.get_post(id).unwrap();
    assert_eq!(fetched.text, "hello");
    assert_eq!(fetched.user, 7);
    assert_eq!(
        repo.get_post(id.wrapping_add(1)).unwrap_err(),
        RepositoryError::NotFound
    );
}

#[test]
fn repository_lookups() {
    let mut repo = MemoryRepository::new();
    let account = Account::new("alice".to_string(), "pw".to_string());
    let id = account.id;
    repo.push_user(account).unwrap();
    assert_eq!(
        repo.get_user_by_username("alice".to_string())
            .unwrap()
            .unwrap()
            .id,
        id
    );
    assert!(repo
        .get_user_by_username("bob".to_string())
        .unwrap()
        .is_none());
    assert_eq!(repo.get_user(id).unwrap().unwrap().username, "alice");
    assert!(repo.get_user(id.wrapping_add(1)).unwrap().is_none());
    let session = Session {
        id: 1,
        user: id,
        token: "tok".to_string(),
    };
    repo.push_session(session).unwrap();
    assert_eq!(
        repo.get_session_by_token("tok".to_string())
            .unwrap()
            .unwrap()
            .user,
        id
    );
    assert!(repo
        .get_session_by_token("other".to_string())
        .unwrap()
        .is_none());
}

#[test]
fn repository_update_user_replaces_in_place() {
    let mut repo = MemoryRepository::new();
    let account = Account::new("alice".to_string(), "pw".to_string());
    let id = account.id;
    repo.push_user(account).unwrap();
    let mut changed = repo.get_user(id).unwrap().unwrap();
    changed.last_active = changed.last_active + 100;
    repo.update_user(id, changed.clone()).unwrap();
    assert_eq!(repo.accounts.len(), 1);
    assert_eq!(repo.get_user(id).unwrap().unwrap().last_active, changed.last_active);
}

#[test]
fn repository_pagination_direct() {
    let mut repo = MemoryRepository::new();
    for k in 0..4 {
        repo.push_post(Post::new(1, format!("p{}", k))).unwrap();
    }
    repo.push_post(Post::new(2, "other".to_string())).unwrap();
    let page = repo.get_posts_by_user(1, 1, 2).unwrap();
    let got: Vec<String> = page.iter().map(|p| p.text.clone()).collect();
    assert_eq!(got, vec!["p2", "p1"]);
}
