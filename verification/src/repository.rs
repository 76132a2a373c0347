//! The storage abstraction: the model of the stored collections, the
//! `Repository` interface that backends implement, and the in-process
//! ephemeral backend.
//!
//! Lookups return the first match in storage order; `get_posts_by_user`
//! serves an author's posts newest first, with offset and limit applied
//! after the sort.

use vstd::prelude::*;

use crate::post::Post;
use crate::session::Session;
use crate::user::Account;

verus! {

/// Failure of the storage backend itself; domain-level misses are expressed
/// as `None` results instead.
#[derive(Clone, Copy, Debug, PartialEq, Eq, Structural)]
pub enum DatabaseError {
    UnknownError,
}

/// The two error kinds visible above the repository boundary: a lookup miss
/// where the caller expected existence, and a backend failure.
#[derive(Clone, Copy, Debug, PartialEq, Eq, Structural)]
pub enum RepositoryError {
    NotFound,
    DatabaseError,
}

/// Is some stored account already using this username?
pub open spec fn username_taken(s: Seq<Account>, username: Seq<char>) -> bool {
    exists|i: int| 0 <= i < s.len() && #[trigger] s[i].username@ == username
}

/// No two stored accounts share a username.
pub open spec fn usernames_unique(s: Seq<Account>) -> bool {
    forall|i: int, j: int|
        #![trigger s[i].username, s[j].username]
        0 <= i < j < s.len() ==> s[i].username@ != s[j].username@
}

/// The first stored account with this username, if any.
pub open spec fn account_by_username(s: Seq<Account>, username: Seq<char>) -> Option<Account>
    decreases s.len(),
{
    if s.len() == 0 {
        None
    } else if s.first().username@ == username {
        Some(s.first())
    } else {
        account_by_username(s.drop_first(), username)
    }
}

/// Index of the first stored account with this identifier; `s.len()` if none.
pub open spec fn account_index_by_id(s: Seq<Account>, id: u128) -> int
    decreases s.len(),
{
    if s.len() == 0 {
        0
    } else if s.first().id == id {
        0
    } else {
        1 + account_index_by_id(s.drop_first(), id)
    }
}

/// The first stored account with this identifier, if any.
pub open spec fn account_by_id(s: Seq<Account>, id: u128) -> Option<Account> {
    if account_index_by_id(s, id) < s.len() {
        Some(s[account_index_by_id(s, id)])
    } else {
        None
    }
}

/// The first stored session carrying this token, if any.
pub open spec fn session_by_token(s: Seq<Session>, token: Seq<char>) -> Option<Session>
    decreases s.len(),
{
    if s.len() == 0 {
        None
    } else if s.first().token@ == token {
        Some(s.first())
    } else {
        session_by_token(s.drop_first(), token)
    }
}

/// The first stored post with this identifier, if any.
pub open spec fn post_by_id(s: Seq<Post>, id: u128) -> Option<Post>
    decreases s.len(),
{
    if s.len() == 0 {
        None
    } else if s.first().id == id {
        Some(s.first())
    } else {
        post_by_id(s.drop_first(), id)
    }
}

/// The stored posts of one author, in storage order.
pub open spec fn posts_by_author(posts: Seq<Post>, author: u128) -> Seq<Post>
    decreases posts.len(),
{
    if posts.len() == 0 {
        Seq::empty()
    } else {
        let rest = posts_by_author(posts.drop_last(), author);
        if posts.last().user == author {
            rest.push(posts.last())
        } else {
            rest
        }
    }
}

/// One page of `s` read newest first: reverse, then apply `offset` and
/// `limit`, clamped to the ends.  An out-of-range offset yields an empty
/// page, never an error.
pub open spec fn page_of(s: Seq<Post>, offset: int, limit: int) -> Seq<Post>
    recommends
        0 <= offset,
        0 <= limit,
{
    let rev = s.reverse();
    let start = if offset > rev.len() {
        rev.len() as int
    } else {
        offset
    };
    let end = if offset + limit > rev.len() {
        rev.len() as int
    } else {
        offset + limit
    };
    rev.subrange(start, end)
}

/// `account_by_username` answers `Some` exactly on taken usernames, and the
/// account it returns carries the username it was asked for.
pub proof fn lemma_account_by_username_props(s: Seq<Account>, username: Seq<char>)
    ensures
        account_by_username(s, username) is None <==> !username_taken(s, username),
        account_by_username(s, username) matches Some(a) ==> a.username@ == username && exists|
            i: int,
        | 0 <= i < s.len() && s[i] == a,
    decreases s.len(),
{
    if s.len() > 0 && s.first().username@ != username {
        let t = s.drop_first();
        lemma_account_by_username_props(t, username);
        assert(forall|i: int| 0 <= i < t.len() ==> #[trigger] t[i] == s[i + 1]);
        if username_taken(s, username) {
            let i = choose|i: int| 0 <= i < s.len() && #[trigger] s[i].username@ == username;
            assert(i > 0 && t[i - 1].username@ == username);
        }
        match account_by_username(t, username) {
            Some(a) => {
                let i = choose|i: int| 0 <= i < t.len() && t[i] == a;
                assert(0 <= i + 1 < s.len() && s[i + 1] == a);
                assert(s[i + 1].username@ == username);
            },
            None => {},
        }
    }
}

/// A first match pins `account_by_username` down.
pub proof fn lemma_account_by_username_at(s: Seq<Account>, username: Seq<char>, i: int)
    requires
        0 <= i < s.len(),
        s[i].username@ == username,
        forall|j: int| 0 <= j < i ==> #[trigger] s[j].username@ != username,
    ensures
        account_by_username(s, username) == Some(s[i]),
    decreases i,
{
    if i > 0 {
        assert(forall|j: int| 0 <= j < s.drop_first().len() ==> #[trigger] s.drop_first()[j] == s[j + 1]);
        lemma_account_by_username_at(s.drop_first(), username, i - 1);
    }
}

/// `account_index_by_id` lands on the first account with the identifier, or
/// on `s.len()` when there is none.
pub proof fn lemma_account_index_by_id_props(s: Seq<Account>, id: u128)
    ensures
        0 <= account_index_by_id(s, id) <= s.len(),
        account_index_by_id(s, id) < s.len() ==> s[account_index_by_id(s, id)].id == id,
        forall|j: int| 0 <= j < account_index_by_id(s, id) ==> #[trigger] s[j].id != id,
        account_index_by_id(s, id) == s.len() ==> forall|j: int|
            0 <= j < s.len() ==> #[trigger] s[j].id != id,
    decreases s.len(),
{
    if s.len() > 0 && s.first().id != id {
        let t = s.drop_first();
        lemma_account_index_by_id_props(t, id);
        assert(forall|i: int| 0 <= i < t.len() ==> #[trigger] t[i] == s[i + 1]);
        assert forall|j: int| 0 <= j < account_index_by_id(s, id) implies #[trigger] s[j].id
            != id by {
            if j > 0 {
                assert(t[j - 1] == s[j]);
                assert(t[j - 1].id != id);
            }
        }
        if account_index_by_id(s, id) == s.len() {
            assert forall|j: int| 0 <= j < s.len() implies #[trigger] s[j].id != id by {
                if j > 0 {
                    assert(t[j - 1] == s[j]);
                    assert(t[j - 1].id != id);
                }
            }
        }
    }
}

/// A first match pins `account_index_by_id` down.
pub proof fn lemma_account_index_by_id_at(s: Seq<Account>, id: u128, i: int)
    requires
        0 <= i < s.len(),
        s[i].id == id,
        forall|j: int| 0 <= j < i ==> #[trigger] s[j].id != id,
    ensures
        account_index_by_id(s, id) == i,
    decreases i,
{
    if i > 0 {
        assert(forall|j: int| 0 <= j < s.drop_first().len() ==> #[trigger] s.drop_first()[j] == s[j + 1]);
        lemma_account_index_by_id_at(s.drop_first(), id, i - 1);
    }
}

/// `session_by_token` answers `Some` exactly when some stored session
/// carries the token, and then returns the first such session.
pub proof fn lemma_session_by_token_props(s: Seq<Session>, token: Seq<char>)
    ensures
        session_by_token(s, token) is None <==> (forall|i: int|
            0 <= i < s.len() ==> #[trigger] s[i].token@ != token),
        session_by_token(s, token) matches Some(x) ==> x.token@ == token && exists|i: int|
            0 <= i < s.len() && s[i] == x,
    decreases s.len(),
{
    if s.len() > 0 && s.first().token@ != token {
        let t = s.drop_first();
        lemma_session_by_token_props(t, token);
        assert(forall|i: int| 0 <= i < t.len() ==> #[trigger] t[i] == s[i + 1]);
        match session_by_token(t, token) {
            Some(x) => {
                let i = choose|i: int| 0 <= i < t.len() && t[i] == x;
                assert(0 <= i + 1 < s.len() && s[i + 1] == x);
                assert(s[i + 1].token@ == token);
            },
            None => {
                assert forall|i: int| 0 <= i < s.len() implies #[trigger] s[i].token@ != token by {
                    if i > 0 {
                        assert(t[i - 1] == s[i]);
                        assert(t[i - 1].token@ != token);
                    }
                }
            },
        }
    }
}

/// A first match pins `session_by_token` down.
pub proof fn lemma_session_by_token_at(s: Seq<Session>, token: Seq<char>, i: int)
    requires
        0 <= i < s.len(),
        s[i].token@ == token,
        forall|j: int| 0 <= j < i ==> #[trigger] s[j].token@ != token,
    ensures
        session_by_token(s, token) == Some(s[i]),
    decreases i,
{
    if i > 0 {
        assert(forall|j: int| 0 <= j < s.drop_first().len() ==> #[trigger] s.drop_first()[j] == s[j + 1]);
        lemma_session_by_token_at(s.drop_first(), token, i - 1);
    }
}

/// A token that no stored session carries resolves, after a session bearing
/// it is appended, to exactly that session.
pub proof fn lemma_fresh_token_resolves(s: Seq<Session>, x: Session)
    requires
        forall|i: int| 0 <= i < s.len() ==> #[trigger] s[i].token@ != x.token@,
    ensures
        session_by_token(s.push(x), x.token@) == Some(x),
{
    lemma_session_by_token_at(s.push(x), x.token@, s.len() as int);
}

/// `post_by_id` answers `Some` exactly when the post is stored.
pub proof fn lemma_post_by_id_props(s: Seq<Post>, id: u128)
    ensures
        post_by_id(s, id) is None <==> (forall|i: int|
            0 <= i < s.len() ==> #[trigger] s[i].id != id),
        post_by_id(s, id) matches Some(p) ==> p.id == id && exists|i: int|
            0 <= i < s.len() && s[i] == p,
    decreases s.len(),
{
    if s.len() > 0 && s.first().id != id {
        let t = s.drop_first();
        lemma_post_by_id_props(t, id);
        assert(forall|i: int| 0 <= i < t.len() ==> #[trigger] t[i] == s[i + 1]);
        match post_by_id(t, id) {
            Some(p) => {
                let i = choose|i: int| 0 <= i < t.len() && t[i] == p;
                assert(0 <= i + 1 < s.len() && s[i + 1] == p);
                assert(s[i + 1].id == id);
            },
            None => {
                assert forall|i: int| 0 <= i < s.len() implies #[trigger] s[i].id != id by {
                    if i > 0 {
                        assert(t[i - 1] == s[i]);
                        assert(t[i - 1].id != id);
                    }
                }
            },
        }
    }
}

/// A first match pins `post_by_id` down.
pub proof fn lemma_post_by_id_at(s: Seq<Post>, id: u128, i: int)
    requires
        0 <= i < s.len(),
        s[i].id == id,
        forall|j: int| 0 <= j < i ==> #[trigger] s[j].id != id,
    ensures
        post_by_id(s, id) == Some(s[i]),
    decreases i,
{
    if i > 0 {
        assert(forall|j: int| 0 <= j < s.drop_first().len() ==> #[trigger] s.drop_first()[j] == s[j + 1]);
        lemma_post_by_id_at(s.drop_first(), id, i - 1);
    }
}

/// The full page of a sequence is exactly the sequence newest first.
pub proof fn lemma_page_full(s: Seq<Post>)
    ensures
        page_of(s, 0, s.len() as int) == s.reverse(),
{
    assert(page_of(s, 0, s.len() as int) =~= s.reverse());
}

/// A page starting at or past the end is empty.
pub proof fn lemma_page_past_end(s: Seq<Post>, offset: int, limit: int)
    requires
        offset >= s.len(),
        0 <= limit,
    ensures
        page_of(s, offset, limit) == Seq::<Post>::empty(),
{
    assert(page_of(s, offset, limit) =~= Seq::<Post>::empty());
}

/// A page of limit zero is empty.
pub proof fn lemma_page_zero(s: Seq<Post>, offset: int)
    requires
        0 <= offset,
    ensures
        page_of(s, offset, 0) == Seq::<Post>::empty(),
{
    assert(page_of(s, offset, 0) =~= Seq::<Post>::empty());
}

/// Adjacent pages concatenate to one larger page: paging over a sequence
/// window by window loses nothing, repeats nothing, and keeps the order.
pub proof fn lemma_page_concat(s: Seq<Post>, offset: int, k: int, m: int)
    requires
        0 <= offset,
        0 <= k,
        0 <= m,
    ensures
        page_of(s, offset, k) + page_of(s, offset + k, m) == page_of(s, offset, k + m),
{
    assert(page_of(s, offset, k) + page_of(s, offset + k, m) =~= page_of(s, offset, k + m));
}

/// The storage interface for accounts, sessions and posts: the sole point of
/// persistence.  A backend reports its own failures as `DatabaseError` and
/// leaves the stored collections unchanged when it does; lookup misses are
/// `None`, never an error.
pub trait Repository: Sized {
    /// The stored accounts, oldest first.  A backend compiled outside the
    /// verifier implements only the executable methods and leaves the model
    /// at its default, which nothing consults at run time.
    open spec fn accounts(&self) -> Seq<Account> {
        Seq::empty()
    }

    /// The stored sessions, oldest first.
    open spec fn sessions(&self) -> Seq<Session> {
        Seq::empty()
    }

    /// The stored posts, oldest first.
    open spec fn posts(&self) -> Seq<Post> {
        Seq::empty()
    }

    /// Append a new account.  Callers keep usernames unique: they check
    /// availability before storing.
    fn push_user(&mut self, user: Account) -> (r: Result<(), DatabaseError>)
        requires
            !username_taken(old(self).accounts(), user.username@),
        ensures
            final(self).sessions() == old(self).sessions(),
            final(self).posts() == old(self).posts(),
            match r {
                Ok(()) => final(self).accounts() == old(self).accounts().push(user),
                Err(_) => final(self).accounts() == old(self).accounts(),
            },
    ;

    /// Look an account up by exact username; absence is not an error.
    fn get_user_by_username(&self, username: String) -> (r: Result<
        Option<Account>,
        DatabaseError,
    >)
        ensures
            r matches Ok(o) ==> o == account_by_username(self.accounts(), username@),
    ;

    /// Append a new session.
    fn push_session(&mut self, session: Session) -> (r: Result<(), DatabaseError>)
        ensures
            final(self).accounts() == old(self).accounts(),
            final(self).posts() == old(self).posts(),
            match r {
                Ok(()) => final(self).sessions() == old(self).sessions().push(session),
                Err(_) => final(self).sessions() == old(self).sessions(),
            },
    ;

    /// Look a session up by exact token; absence is not an error.
    fn get_session_by_token(&self, token: String) -> (r: Result<Option<Session>, DatabaseError>)
        ensures
            r matches Ok(o) ==> o == session_by_token(self.sessions(), token@),
    ;

    /// Look an account up by identifier; absence is not an error.
    fn get_user(&self, id: u128) -> (r: Result<Option<Account>, DatabaseError>)
        ensures
            r matches Ok(o) ==> o == account_by_id(self.accounts(), id),
    ;

    /// Replace the stored account carrying `id`.  The account must exist and
    /// its username never changes, so usernames stay unique.
    fn update_user(&mut self, id: u128, user: Account) -> (r: Result<(), DatabaseError>)
        requires
            user.id == id,
            account_by_id(old(self).accounts(), id) matches Some(a) && a.username@
                == user.username@,
        ensures
            final(self).sessions() == old(self).sessions(),
            final(self).posts() == old(self).posts(),
            match r {
                Ok(()) => final(self).accounts() == old(self).accounts().update(
                    account_index_by_id(old(self).accounts(), id),
                    user,
                ),
                Err(_) => final(self).accounts() == old(self).accounts(),
            },
    ;

    /// Append a new post.
    fn push_post(&mut self, post: Post) -> (r: Result<(), DatabaseError>)
        ensures
            final(self).accounts() == old(self).accounts(),
            final(self).sessions() == old(self).sessions(),
            match r {
                Ok(()) => final(self).posts() == old(self).posts().push(post),
                Err(_) => final(self).posts() == old(self).posts(),
            },
    ;

    /// One page of the author's posts, newest first.
    fn get_posts_by_user(&self, user: u128, offset: usize, limit: usize) -> (r: Result<
        Vec<Post>,
        DatabaseError,
    >)
        ensures
            r matches Ok(v) ==> v@ == page_of(
                posts_by_author(self.posts(), user),
                offset as int,
                limit as int,
            ),
    ;
}

/// The in-process ephemeral backend: plain vectors, no durability across
/// restarts, and no failure mode of its own.
#[derive(Debug)]
pub struct MemoryRepository {
    pub accounts: Vec<Account>,
    pub sessions: Vec<Session>,
    pub posts: Vec<Post>,
}

impl MemoryRepository {
    /// An empty store.
    pub fn new() -> (r: Self)
        ensures
            r.accounts@ == Seq::<Account>::empty(),
            r.sessions@ == Seq::<Session>::empty(),
            r.posts@ == Seq::<Post>::empty(),
    {
        MemoryRepository { accounts: Vec::new(), sessions: Vec::new(), posts: Vec::new() }
    }

    /// Fetch one post by identifier; a miss is `NotFound`.
    pub fn get_post(&self, id: u128) -> (r: Result<Post, RepositoryError>)
        ensures
            match post_by_id(self.posts@, id) {
                Some(p) => r == Ok::<Post, RepositoryError>(p),
                None => r == Err::<Post, RepositoryError>(RepositoryError::NotFound),
            },
    {
        let mut i: usize = 0;
        while i < self.posts.len()
            invariant
                i <= self.posts.len(),
                forall|j: int| 0 <= j < i ==> #[trigger] self.posts@[j].id != id,
            decreases self.posts.len() - i,
        {
            if self.posts[i].id == id {
                proof {
                    lemma_post_by_id_at(self.posts@, id, i as int);
                }
                return Ok(self.posts[i].clone());
            }
            i = i + 1;
        }
        proof {
            lemma_post_by_id_props(self.posts@, id);
        }
        Err(RepositoryError::NotFound)
    }
}

impl Repository for MemoryRepository {
    open spec fn accounts(&self) -> Seq<Account> {
        self.accounts@
    }

    open spec fn sessions(&self) -> Seq<Session> {
        self.sessions@
    }

    open spec fn posts(&self) -> Seq<Post> {
        self.posts@
    }

    fn push_user(&mut self, user: Account) -> (r: Result<(), DatabaseError>)
        ensures
            r is Ok,
    {
        self.accounts.push(user);
        Ok(())
    }

    fn get_user_by_username(&self, username: String) -> (r: Result<
        Option<Account>,
        DatabaseError,
    >)
        ensures
            r is Ok,
    {
        let mut i: usize = 0;
        while i < self.accounts.len()
            invariant
                i <= self.accounts.len(),
                forall|j: int| 0 <= j < i ==> #[trigger] self.accounts@[j].username@ != username@,
            decreases self.accounts.len() - i,
        {
            if self.accounts[i].username == username {
                proof {
                    lemma_account_by_username_at(self.accounts@, username@, i as int);
                }
                return Ok(Some(self.accounts[i].clone()));
            }
            i = i + 1;
        }
        proof {
            lemma_account_by_username_props(self.accounts@, username@);
        }
        Ok(None)
    }

    fn push_session(&mut self, session: Session) -> (r: Result<(), DatabaseError>)
        ensures
            r is Ok,
    {
        self.sessions.push(session);
        Ok(())
    }

    fn get_session_by_token(&self, token: String) -> (r: Result<Option<Session>, DatabaseError>)
        ensures
            r is Ok,
    {
        let mut i: usize = 0;
        while i < self.sessions.len()
            invariant
                i <= self.sessions.len(),
                forall|j: int| 0 <= j < i ==> #[trigger] self.sessions@[j].token@ != token@,
            decreases self.sessions.len() - i,
        {
            if self.sessions[i].token == token {
                proof {
                    lemma_session_by_token_at(self.sessions@, token@, i as int);
                }
                return Ok(Some(self.sessions[i].clone()));
            }
            i = i + 1;
        }
        proof {
            lemma_session_by_token_props(self.sessions@, token@);
        }
        Ok(None)
    }

    fn get_user(&self, id: u128) -> (r: Result<Option<Account>, DatabaseError>)
        ensures
            r is Ok,
    {
        let mut i: usize = 0;
        while i < self.accounts.len()
            invariant
                i <= self.accounts.len(),
                forall|j: int| 0 <= j < i ==> #[trigger] self.accounts@[j].id != id,
            decreases self.accounts.len() - i,
        {
            if self.accounts[i].id == id {
                proof {
                    lemma_account_index_by_id_at(self.accounts@, id, i as int);
                }
                return Ok(Some(self.accounts[i].clone()));
            }
            i = i + 1;
        }
        proof {
            lemma_account_index_by_id_props(self.accounts@, id);
        }
        Ok(None)
    }

    fn update_user(&mut self, id: u128, user: Account) -> (r: Result<(), DatabaseError>)
        ensures
            r is Ok,
    {
        let mut i: usize = 0;
        while i < self.accounts.len()
            invariant
                i <= self.accounts.len(),
                forall|j: int| 0 <= j < i ==> #[trigger] self.accounts@[j].id != id,
                self == old(self),
            decreases self.accounts.len() - i,
        {
            if self.accounts[i].id == id {
                proof {
                    lemma_account_index_by_id_at(self.accounts@, id, i as int);
                }
                self.accounts[i] = user;
                return Ok(());
            }
            i = i + 1;
        }
        proof {
            lemma_account_index_by_id_props(self.accounts@, id);
        }
        Ok(())
    }

    fn push_post(&mut self, post: Post) -> (r: Result<(), DatabaseError>)
        ensures
            r is Ok,
    {
        self.posts.push(post);
        Ok(())
    }

    fn get_posts_by_user(&self, user: u128, offset: usize, limit: usize) -> (r: Result<
        Vec<Post>,
        DatabaseError,
    >)
        ensures
            r is Ok,
    {
        let mut matched: Vec<Post> = Vec::new();
        let mut i: usize = 0;
        while i < self.posts.len()
            invariant
                i <= self.posts.len(),
                matched@ == posts_by_author(self.posts@.take(i as int), user),
            decreases self.posts.len() - i,
        {
            proof {
                assert(self.posts@.take(i + 1).drop_last() =~= self.posts@.take(i as int));
            }
            if self.posts[i].user == user {
                matched.push(self.posts[i].clone());
            }
            i = i + 1;
        }
        proof {
            assert(self.posts@.take(self.posts@.len() as int) =~= self.posts@);
        }
        let ghost authored = posts_by_author(self.posts@, user);
        let n = matched.len();
        let mut newest_first: Vec<Post> = Vec::new();
        let mut k: usize = 0;
        while k < n
            invariant
                k <= n,
                n == matched.len(),
                matched@ == authored,
                newest_first@.len() == k,
                forall|j: int| 0 <= j < k ==> #[trigger] newest_first@[j] == authored.reverse()[j],
            decreases n - k,
        {
            newest_first.push(matched[n - 1 - k].clone());
            k = k + 1;
        }
        proof {
            assert(newest_first@ =~= authored.reverse());
        }
        let start = if offset > n {
            n
        } else {
            offset
        };
        let count = if limit > n - start {
            n - start
        } else {
            limit
        };
        let mut out: Vec<Post> = Vec::new();
        let mut k: usize = 0;
        while k < count
            invariant
                k <= count,
                start + count <= n,
                n == newest_first@.len(),
                newest_first@ == authored.reverse(),
                out@.len() == k,
                forall|j: int| 0 <= j < k ==> #[trigger] out@[j] == authored.reverse()[start + j],
            decreases count - k,
        {
            out.push(newest_first[start + k].clone());
            k = k + 1;
        }
        proof {
            assert(out@ =~= page_of(authored, offset as int, limit as int));
        }
        Ok(out)
    }
}

} // verus!
