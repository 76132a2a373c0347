//! Account lifecycle and access control: registration, login, token
//! resolution, and the per-request actor surface scoped to one account.
//!
//! Login is stateful: it stores a session binding a fresh high-entropy
//! token to the account, and token resolution looks that session up.  An
//! unknown username and a wrong password are refused with the same error,
//! so the two cannot be told apart; a token whose session or account is
//! missing is refused as invalid either way.

use vstd::prelude::*;

use crate::access::PostAccess;
use crate::hasher::{spec_hash_password, spec_verify_password, SALT_LEN};
use crate::post::Post;
use crate::repository::{account_by_id, account_by_username, account_index_by_id,
    lemma_account_by_username_at, lemma_account_by_username_props, lemma_account_index_by_id_props,
    page_of, posts_by_author, session_by_token, username_taken, usernames_unique, DatabaseError,
    Repository};
use crate::session::Session;
use crate::trusted::{all_alnum, fresh_id, now_secs, random_alphanumeric};
use crate::user::Account;

verus! {

/// Length of the random token bound to a session at login.
pub const TOKEN_LEN: usize = 64;

/// Errors of the account and access layer.
#[derive(Clone, Copy, Debug, PartialEq, Eq, Structural)]
pub enum UserError {
    /// The storage backend failed; nothing is said about the request itself.
    DatabaseError(DatabaseError),
    /// Registration was refused: the username is already taken.
    UserExists,
    /// Login was refused: unknown username or wrong password, deliberately
    /// indistinguishable.
    InvalidCreditinals,
    /// Token resolution was refused: no live session carries the token, or
    /// the session's account is gone.
    InvalidToken,
}

/// The account-management surface over one storage backend.
pub struct UserManager<R: Repository> {
    pub repository: R,
}

/// An actor handle: the resolved account an authenticated request acts as,
/// valid for that request alone.
#[derive(Debug)]
pub struct UserAccess {
    pub user: Account,
}

/// An account's plain public fields: everything but the password digest.
#[derive(Debug)]
pub struct Me {
    pub id: u128,
    pub username: String,
    pub created_at: u64,
    pub last_active: u64,
}

/// An account freshly appended to the store leaves its username taken.
pub proof fn lemma_registered_after_push(s: Seq<Account>, a: Account)
    ensures
        username_taken(s.push(a), a.username@),
{
    assert(s.push(a)[s.len() as int].username@ == a.username@);
}

/// With usernames unique, looking up any stored account's username finds
/// exactly that account: a registered user's login reaches their record and
/// no other.
pub proof fn lemma_login_finds_registered(s: Seq<Account>, i: int)
    requires
        usernames_unique(s),
        0 <= i < s.len(),
    ensures
        account_by_username(s, s[i].username@) == Some(s[i]),
{
    assert forall|j: int| 0 <= j < i implies #[trigger] s[j].username@ != s[i].username@ by {
        assert(s[j].username@ != s[i].username@);
    }
    lemma_account_by_username_at(s, s[i].username@, i);
}

impl<R: Repository> UserManager<R> {
    /// The manager's invariant: stored usernames are pairwise distinct.
    pub open spec fn wf(&self) -> bool {
        usernames_unique(self.repository.accounts())
    }

    /// Wrap a storage backend.
    pub fn new(repository: R) -> (r: Self)
        ensures
            r.repository == repository,
    {
        UserManager { repository }
    }

    /// The underlying storage backend.
    pub fn get_repository(&self) -> (r: &R)
        ensures
            r == &self.repository,
    {
        &self.repository
    }

    /// Register a new account.
    ///
    /// A username not yet taken registers successfully, storage willing, and
    /// exactly once: the stored account takes the username, a digest the
    /// password verifies against, and one creation moment for both
    /// timestamps.  A taken username is refused as `UserExists`, whatever
    /// the password.
    pub fn create_user(&mut self, username: String, password: String) -> (r: Result<
        Account,
        UserError,
    >)
        requires
            old(self).wf(),
        ensures
            final(self).wf(),
            final(self).repository.sessions() == old(self).repository.sessions(),
            final(self).repository.posts() == old(self).repository.posts(),
            match r {
                Ok(account) => {
                    &&& !username_taken(old(self).repository.accounts(), username@)
                    &&& account.username@ == username@
                    &&& spec_verify_password(password@, account.password@)
                    &&& exists|salt: Seq<char>|
                        all_alnum(salt) && salt.len() == SALT_LEN && account.password@
                            == spec_hash_password(salt, password@)
                    &&& account.created_at == account.last_active
                    &&& final(self).repository.accounts() == old(self).repository.accounts().push(
                        account,
                    )
                },
                Err(UserError::UserExists) => {
                    &&& username_taken(old(self).repository.accounts(), username@)
                    &&& final(self).repository.accounts() == old(self).repository.accounts()
                },
                Err(UserError::DatabaseError(_)) => final(self).repository.accounts() == old(self).repository.accounts(),
                Err(_) => false,
            },
    {
        let existing = match self.repository.get_user_by_username(username.clone()) {
            Ok(o) => o,
            Err(e) => { return Err(UserError::DatabaseError(e)) },
        };
        proof {
            lemma_account_by_username_props(self.repository.accounts(), username@);
        }
        if existing.is_some() {
            return Err(UserError::UserExists);
        }
        let account = Account::new(username, password);
        let ghost pre = self.repository.accounts();
        match self.repository.push_user(account.clone()) {
            Ok(()) => {
                proof {
                    assert forall|i: int, j: int|
                        0 <= i < j < pre.push(account).len() implies pre.push(account)[i].username@
                        != pre.push(account)[j].username@ by {
                        if j < pre.len() {
                            assert(pre[i].username@ != pre[j].username@);
                        } else {
                            assert(pre.push(account)[j] == account);
                            if pre[i].username@ == username@ {
                                assert(username_taken(pre, username@));
                            }
                        }
                    }
                    assert(usernames_unique(pre.push(account)));
                }
                Ok(account)
            },
            Err(e) => Err(UserError::DatabaseError(e)),
        }
    }

    /// Verify a username and password pair and return the matching account.
    ///
    /// An unknown username and a wrong password are both refused as
    /// `InvalidCreditinals`, so the two cannot be told apart.
    pub fn login_account(&self, username: String, password: String) -> (r: Result<
        Account,
        UserError,
    >)
        ensures
            match r {
                Ok(a) => account_by_username(self.repository.accounts(), username@) == Some(a)
                    && spec_verify_password(password@, a.password@),
                Err(UserError::InvalidCreditinals) => match account_by_username(
                    self.repository.accounts(),
                    username@,
                ) {
                    None => true,
                    Some(a) => !spec_verify_password(password@, a.password@),
                },
                Err(UserError::DatabaseError(_)) => true,
                Err(_) => false,
            },
    {
        let user = match self.repository.get_user_by_username(username) {
            Ok(o) => o,
            Err(e) => { return Err(UserError::DatabaseError(e)) },
        };
        let user = match user {
            Some(u) => u,
            None => { return Err(UserError::InvalidCreditinals) },
        };
        if !user.verify_password(password) {
            return Err(UserError::InvalidCreditinals);
        }
        Ok(user)
    }

    /// Log a registered account in and issue a bearer token.
    ///
    /// When the username is stored and the password verifies against its
    /// digest, a fresh alphanumeric token is drawn and a session binding it
    /// to that account is stored, storage willing.  An unknown username and
    /// a wrong password are both refused as `InvalidCreditinals`.
    pub fn login(&mut self, username: String, password: String) -> (r: Result<String, UserError>)
        requires
            old(self).wf(),
        ensures
            final(self).wf(),
            final(self).repository.accounts() == old(self).repository.accounts(),
            final(self).repository.posts() == old(self).repository.posts(),
            match r {
                Ok(token) => {
                    &&& token@.len() == TOKEN_LEN as nat
                    &&& all_alnum(token@)
                    &&& (account_by_username(old(self).repository.accounts(), username@) matches
                        Some(a) && spec_verify_password(password@, a.password@) && final(self).repository.sessions() == old(self).repository.sessions().push(
                        final(self).repository.sessions().last(),
                    ) && final(self).repository.sessions().last().user == a.id && final(self).repository.sessions().last().token@ == token@)
                },
                Err(UserError::InvalidCreditinals) => {
                    &&& match account_by_username(old(self).repository.accounts(), username@) {
                        None => true,
                        Some(a) => !spec_verify_password(password@, a.password@),
                    }
                    &&& final(self).repository.sessions() == old(self).repository.sessions()
                },
                Err(UserError::DatabaseError(_)) => final(self).repository.sessions() == old(self).repository.sessions(),
                Err(_) => false,
            },
    {
        let user = match self.login_account(username, password) {
            Ok(u) => u,
            Err(e) => { return Err(e) },
        };
        let token = random_alphanumeric(TOKEN_LEN);
        let session = Session { id: fresh_id(), user: user.id, token: token.clone() };
        match self.repository.push_session(session) {
            Ok(()) => Ok(token),
            Err(e) => Err(UserError::DatabaseError(e)),
        }
    }

    /// Resolve a bearer token to an actor handle.
    ///
    /// A token carried by a stored session whose account still exists
    /// resolves to exactly that account.  A token no live session carries,
    /// and a session whose account has since disappeared, are refused alike
    /// as `InvalidToken`.
    pub fn get_user_access(&self, token: String) -> (r: Result<UserAccess, UserError>)
        ensures
            match r {
                Ok(access) => session_by_token(self.repository.sessions(), token@) matches Some(x)
                    && account_by_id(self.repository.accounts(), x.user) == Some(access.user),
                Err(UserError::InvalidToken) => match session_by_token(
                    self.repository.sessions(),
                    token@,
                ) {
                    None => true,
                    Some(x) => account_by_id(self.repository.accounts(), x.user) is None,
                },
                Err(UserError::DatabaseError(_)) => true,
                Err(_) => false,
            },
    {
        let session = match self.repository.get_session_by_token(token) {
            Ok(o) => o,
            Err(e) => { return Err(UserError::DatabaseError(e)) },
        };
        let session = match session {
            Some(x) => x,
            None => { return Err(UserError::InvalidToken) },
        };
        let user = match self.repository.get_user(session.user) {
            Ok(o) => o,
            Err(e) => { return Err(UserError::DatabaseError(e)) },
        };
        match user {
            Some(u) => Ok(UserAccess { user: u }),
            None => Err(UserError::InvalidToken),
        }
    }
}

impl UserAccess {
    /// The resolved account's public fields, never the password digest.
    pub fn get_me(&self) -> (r: Me)
        ensures
            r.id == self.user.id,
            r.username@ == self.user.username@,
            r.created_at == self.user.created_at,
            r.last_active == self.user.last_active,
    {
        Me {
            id: self.user.id,
            username: self.user.username.clone(),
            created_at: self.user.created_at,
            last_active: self.user.last_active,
        }
    }

    /// The resolved account's identifier.
    pub fn id(&self) -> (r: u128)
        ensures
            r == self.user.id,
    {
        self.user.id
    }

    /// Stamp the account's last activity to the present moment and persist
    /// it.  The account is re-fetched first; if it has disappeared the
    /// request fails closed as `InvalidToken`.
    pub fn update_active<R: Repository>(&mut self, manager: &mut UserManager<R>) -> (r: Result<
        (),
        UserError,
    >)
        requires
            old(manager).wf(),
        ensures
            final(manager).wf(),
            final(manager).repository.sessions() == old(manager).repository.sessions(),
            final(manager).repository.posts() == old(manager).repository.posts(),
            match r {
                Ok(()) => {
                    &&& final(self).user.id == old(self).user.id
                    &&& (account_by_id(old(manager).repository.accounts(), old(self).user.id)
                        matches Some(a) && final(self).user == (Account {
                        last_active: final(self).user.last_active,
                        ..a
                    }) && final(manager).repository.accounts() == old(manager).repository.accounts().update(
                        account_index_by_id(old(manager).repository.accounts(), old(self).user.id),
                        final(self).user,
                    ))
                },
                Err(UserError::InvalidToken) => {
                    &&& account_by_id(old(manager).repository.accounts(), old(self).user.id)
                        is None
                    &&& *final(self) == *old(self)
                    &&& final(manager).repository.accounts() == old(manager).repository.accounts()
                },
                Err(UserError::DatabaseError(_)) => *final(self) == *old(self) && final(manager).repository.accounts() == old(manager).repository.accounts(),
                Err(_) => false,
            },
    {
        let fetched = match manager.repository.get_user(self.user.id) {
            Ok(o) => o,
            Err(e) => { return Err(UserError::DatabaseError(e)) },
        };
        let mut fetched = match fetched {
            Some(u) => u,
            None => { return Err(UserError::InvalidToken) },
        };
        let ghost pre = manager.repository.accounts();
        proof {
            lemma_account_index_by_id_props(pre, self.user.id);
        }
        fetched.last_active = now_secs();
        match manager.repository.update_user(self.user.id, fetched.clone()) {
            Ok(()) => {
                proof {
                    let idx = account_index_by_id(pre, self.user.id);
                    let updated = pre.update(idx, fetched);
                    assert forall|i: int, j: int|
                        0 <= i < j < updated.len() implies updated[i].username@
                        != updated[j].username@ by {
                        assert(pre[i].username@ != pre[j].username@);
                        assert(updated[i].username@ == pre[i].username@);
                        assert(updated[j].username@ == pre[j].username@);
                    }
                    assert(usernames_unique(updated));
                }
                self.user = fetched;
                Ok(())
            },
            Err(e) => Err(UserError::DatabaseError(e)),
        }
    }

    /// Create a post as this actor: stamp the account's activity first, then
    /// persist the post.  The post carries this actor's identifier, the
    /// given text, and its own creation stamp.
    pub fn post<R: Repository>(&mut self, manager: &mut UserManager<R>, text: String) -> (r:
        Result<PostAccess, UserError>)
        requires
            old(manager).wf(),
        ensures
            final(manager).wf(),
            final(manager).repository.sessions() == old(manager).repository.sessions(),
            match r {
                Ok(pa) => {
                    &&& pa.user == old(self).user.id
                    &&& pa.post.user == old(self).user.id
                    &&& pa.post.text@ == text@
                    &&& final(manager).repository.posts() == old(manager).repository.posts().push(
                        pa.post,
                    )
                    &&& (account_by_id(old(manager).repository.accounts(), old(self).user.id)
                        matches Some(a) && final(self).user == (Account {
                        last_active: final(self).user.last_active,
                        ..a
                    }) && final(manager).repository.accounts() == old(manager).repository.accounts().update(
                        account_index_by_id(old(manager).repository.accounts(), old(self).user.id),
                        final(self).user,
                    ))
                },
                Err(UserError::InvalidToken) => {
                    &&& account_by_id(old(manager).repository.accounts(), old(self).user.id)
                        is None
                    &&& final(manager).repository.posts() == old(manager).repository.posts()
                },
                Err(UserError::DatabaseError(_)) => final(manager).repository.posts() == old(manager).repository.posts(),
                Err(_) => false,
            },
    {
        let post = Post::new(self.id(), text);
        match self.update_active(manager) {
            Ok(()) => {},
            Err(e) => { return Err(e) },
        }
        match manager.repository.push_post(post.clone()) {
            Ok(()) => Ok(PostAccess::new(self, post)),
            Err(e) => Err(UserError::DatabaseError(e)),
        }
    }

    /// One page of this actor's own posts, newest first.
    pub fn get_posts<R: Repository>(
        &self,
        manager: &UserManager<R>,
        offset: usize,
        limit: usize,
    ) -> (r: Result<Vec<PostAccess>, UserError>)
        ensures
            match r {
                Ok(v) => ({
                    let page = page_of(
                        posts_by_author(manager.repository.posts(), self.user.id),
                        offset as int,
                        limit as int,
                    );
                    &&& v@.len() == page.len()
                    &&& forall|i: int|
                        0 <= i < v@.len() ==> (#[trigger] v@[i]).post == page[i] && v@[i].user
                            == self.user.id
                }),
                Err(UserError::DatabaseError(_)) => true,
                Err(_) => false,
            },
    {
        let posts = match manager.repository.get_posts_by_user(self.id(), offset, limit) {
            Ok(p) => p,
            Err(e) => { return Err(UserError::DatabaseError(e)) },
        };
        let ghost page = page_of(
            posts_by_author(manager.repository.posts(), self.user.id),
            offset as int,
            limit as int,
        );
        let mut out: Vec<PostAccess> = Vec::new();
        let mut i: usize = 0;
        while i < posts.len()
            invariant
                i <= posts.len(),
                posts@ == page,
                out@.len() == i,
                forall|j: int|
                    0 <= j < i ==> (#[trigger] out@[j]).post == page[j] && out@[j].user
                        == self.user.id,
            decreases posts.len() - i,
        {
            out.push(PostAccess::new(self, posts[i].clone()));
            i = i + 1;
        }
        Ok(out)
    }
}

} // verus!
