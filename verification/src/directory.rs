//! The user directory: the durable store of identity records, keyed by a
//! directory-assigned identifier, with username and email uniqueness
//! enforced at the storage layer. This in-memory directory is the model the
//! service is verified against; it is also the source of truth for
//! uniqueness, as the service-level pre-checks alone would race.

use vstd::prelude::*;
use crate::numeral::{dec_chars, lemma_dec_chars_injective};
use crate::validation::{valid_email, valid_username};
use crate::errors::AuthError;

verus! {

/// A durable identity record. `password` holds the encoded password hash,
/// never a raw password; `id` is assigned by the directory on insertion and
/// immutable afterwards.
pub struct User {
    pub id: Option<String>,
    pub is_admin: bool,
    pub username: String,
    pub email: String,
    pub password: String,
    pub failed_login_attempts: u64,
}

/// The mathematical image of a `User`.
pub ghost struct UserV {
    pub id: Option<Seq<char>>,
    pub is_admin: bool,
    pub username: Seq<char>,
    pub email: Seq<char>,
    pub password: Seq<char>,
    pub failed_login_attempts: u64,
}

impl View for User {
    type V = UserV;

    open spec fn view(&self) -> UserV {
        UserV {
            id: match self.id {
                Option::Some(s) => Some(s@),
                Option::None => None,
            },
            is_admin: self.is_admin,
            username: self.username@,
            email: self.email@,
            password: self.password@,
            failed_login_attempts: self.failed_login_attempts,
        }
    }
}

/// `u` with the given identifier assigned.
pub open spec fn with_id(u: UserV, id: Seq<char>) -> UserV {
    UserV { id: Some(id), ..u }
}

/// Some record in `dir` carries this username.
pub open spec fn has_username(dir: Seq<UserV>, username: Seq<char>) -> bool {
    exists|i: int| 0 <= i < dir.len() && (#[trigger] dir[i].username) == username
}

/// Some record in `dir` carries this email.
pub open spec fn has_email(dir: Seq<UserV>, email: Seq<char>) -> bool {
    exists|i: int| 0 <= i < dir.len() && (#[trigger] dir[i].email) == email
}

/// The login identifier matches a record by username or by email.
pub open spec fn matches_identifier(u: UserV, ident: Seq<char>) -> bool {
    u.username == ident || u.email == ident
}

/// The first record at or after position `i` that the identifier matches.
pub open spec fn find_identifier_from(dir: Seq<UserV>, ident: Seq<char>, i: int) -> Option<int>
    decreases dir.len() - i,
{
    if i < 0 || i >= dir.len() {
        None
    } else if matches_identifier(dir[i], ident) {
        Some(i)
    } else {
        find_identifier_from(dir, ident, i + 1)
    }
}

/// The first record the identifier matches.
pub open spec fn find_identifier(dir: Seq<UserV>, ident: Seq<char>) -> Option<int> {
    find_identifier_from(dir, ident, 0)
}

/// `dir` with the failed-attempt counter of every record carrying `id` set
/// to `value`.
pub open spec fn set_attempts(dir: Seq<UserV>, id: Seq<char>, value: u64) -> Seq<UserV> {
    dir.map(
        |j: int, u: UserV|
            if u.id == Some(id) {
                UserV { failed_login_attempts: value, ..u }
            } else {
                u
            },
    )
}

/// Well-formedness of the store: the record at position `i` carries the
/// decimal numeral of `i` as its identifier, every record is validated, and
/// usernames and emails are each unique across the store.
pub open spec fn dir_wf(dir: Seq<UserV>) -> bool {
    &&& forall|i: int| 0 <= i < dir.len() ==> (#[trigger] dir[i].id) == Some(dec_chars(i as nat))
    &&& forall|i: int|
        0 <= i < dir.len() ==> valid_username(#[trigger] dir[i].username) && valid_email(
            dir[i].email,
        )
    &&& forall|i: int, j: int|
        0 <= i < dir.len() && 0 <= j < dir.len() && i != j ==> (#[trigger] dir[i].username) != (
        #[trigger] dir[j].username)
    &&& forall|i: int, j: int|
        0 <= i < dir.len() && 0 <= j < dir.len() && i != j ==> (#[trigger] dir[i].email) != (
        #[trigger] dir[j].email)
}

/// In a well-formed store, identifiers are unique as well: positions are
/// distinct numbers, and distinct numbers print as distinct numerals.
pub proof fn lemma_dir_ids_unique(dir: Seq<UserV>, i: int, j: int)
    requires
        dir_wf(dir),
        0 <= i < dir.len(),
        0 <= j < dir.len(),
        dir[i].id == dir[j].id,
    ensures
        i == j,
{
    if i != j {
        lemma_dec_chars_injective(i as nat, j as nat);
    }
}

/// The in-memory user directory.
pub struct UserDirectory {
    users: Vec<User>,
}

impl View for UserDirectory {
    type V = Seq<UserV>;

    closed spec fn view(&self) -> Seq<UserV> {
        Seq::new(self.users@.len(), |i: int| self.users@[i]@)
    }
}

impl UserDirectory {
    pub open spec fn wf(&self) -> bool {
        dir_wf(self@)
    }

    /// An empty directory.
    pub fn new() -> (r: UserDirectory)
        ensures
            r@ == Seq::<UserV>::empty(),
            r.wf(),
    {
        let r = UserDirectory { users: Vec::new() };
        proof {
            assert(r@ =~= Seq::<UserV>::empty());
        }
        r
    }

    /// How many records the directory holds.
    pub fn len(&self) -> (n: usize)
        ensures
            n == self@.len(),
    {
        self.users.len()
    }

    /// The record at position `i`.
    pub fn get(&self, i: usize) -> (u: &User)
        requires
            i < self@.len(),
        ensures
            u@ == self@[i as int],
    {
        &self.users[i]
    }

    /// Position of the record carrying this email, if any.
    pub fn find_by_email(&self, email: &String) -> (r: Option<usize>)
        ensures
            r is Some ==> 0 <= r->0 < self@.len() && self@[r->0 as int].email == email@,
            r is None <==> !has_email(self@, email@),
    {
        let n = self.users.len();
        let mut i: usize = 0;
        while i < n
            invariant
                n == self@.len(),
                0 <= i <= n,
                forall|j: int| 0 <= j < i ==> (#[trigger] self@[j].email) != email@,
            decreases n - i,
        {
            if self.users[i].email == *email {
                assert(self@[i as int].email == email@);
                return Some(i);
            }
            i = i + 1;
        }
        None
    }

    /// Position of the record carrying this username, if any.
    pub fn find_by_username(&self, username: &String) -> (r: Option<usize>)
        ensures
            r is Some ==> 0 <= r->0 < self@.len() && self@[r->0 as int].username == username@,
            r is None <==> !has_username(self@, username@),
    {
        let n = self.users.len();
        let mut i: usize = 0;
        while i < n
            invariant
                n == self@.len(),
                0 <= i <= n,
                forall|j: int| 0 <= j < i ==> (#[trigger] self@[j].username) != username@,
            decreases n - i,
        {
            if self.users[i].username == *username {
                assert(self@[i as int].username == username@);
                return Some(i);
            }
            i = i + 1;
        }
        None
    }

    /// Position of the first record the login identifier matches, by
    /// username or by email.
    pub fn find_by_identifier(&self, ident: &String) -> (r: Option<usize>)
        ensures
            r is Some <==> find_identifier(self@, ident@) is Some,
            r is Some ==> Some(r->0 as int) == find_identifier(self@, ident@),
            r is Some ==> r->0 < self@.len() && matches_identifier(self@[r->0 as int], ident@),
    {
        let n = self.users.len();
        let mut i: usize = 0;
        while i < n
            invariant
                n == self@.len(),
                0 <= i <= n,
                forall|j: int| 0 <= j < i ==> !matches_identifier(#[trigger] self@[j], ident@),
            decreases n - i,
        {
            let u = &self.users[i];
            if u.username == *ident || u.email == *ident {
                proof {
                    lemma_find_identifier_skip(self@, ident@, i as int);
                }
                return Some(i);
            }
            i = i + 1;
        }
        proof {
            lemma_find_identifier_skip(self@, ident@, n as int);
        }
        None
    }

    /// Inserts a new record. The directory rejects a duplicate username or
    /// email atomically, assigns the next identifier otherwise, and returns
    /// the assigned identifier.
    pub fn insert(&mut self, user: User) -> (r: Result<String, AuthError>)
        requires
            old(self).wf(),
            user@.id is None,
            valid_username(user@.username),
            valid_email(user@.email),
        ensures
            final(self).wf(),
            has_email(old(self)@, user@.email) || has_username(old(self)@, user@.username)
                ==> r == Err::<String, AuthError>(AuthError::Conflict) && final(self)@ == old(
                self,
            )@,
            !(has_email(old(self)@, user@.email) || has_username(old(self)@, user@.username))
                ==> r is Ok && r->Ok_0@ == dec_chars(old(self)@.len()) && final(self)@ == old(
                self,
            )@.push(with_id(user@, dec_chars(old(self)@.len()))),
    {
        let ghost uv = user@;
        if let Some(_) = self.find_by_email(&user.email) {
            return Err(AuthError::Conflict);
        }
        if let Some(_) = self.find_by_username(&user.username) {
            return Err(AuthError::Conflict);
        }
        let id = crate::numeral::u64_to_dec_string(self.users.len() as u64);
        let mut stored = user;
        stored.id = Some(id.clone());
        let ghost old_view = self@;
        proof {
            assert(stored@ == with_id(uv, dec_chars(old_view.len())));
        }
        self.users.push(stored);
        proof {
            assert(self@ =~= old_view.push(with_id(uv, dec_chars(old_view.len()))));
            let dir = self@;
            assert forall|i: int| 0 <= i < dir.len() implies (#[trigger] dir[i].id) == Some(
                dec_chars(i as nat),
            ) by {
                if i < old_view.len() {
                    assert(dir[i] == old_view[i]);
                }
            }
            assert forall|i: int|
                0 <= i < dir.len() implies valid_username(#[trigger] dir[i].username)
                && valid_email(dir[i].email) by {
                if i < old_view.len() {
                    assert(dir[i] == old_view[i]);
                }
            }
            assert forall|i: int, j: int|
                0 <= i < dir.len() && 0 <= j < dir.len() && i != j implies (
            #[trigger] dir[i].username) != (#[trigger] dir[j].username) by {
                if i < old_view.len() && j < old_view.len() {
                    assert(old_view[i].username != old_view[j].username);
                }
            }
            assert forall|i: int, j: int|
                0 <= i < dir.len() && 0 <= j < dir.len() && i != j implies (
            #[trigger] dir[i].email) != (#[trigger] dir[j].email) by {
                if i < old_view.len() && j < old_view.len() {
                    assert(old_view[i].email != old_view[j].email);
                }
            }
        }
        Ok(id)
    }

    /// Atomically sets the failed-attempt counter of the record carrying
    /// this identifier; reports whether any record carried it.
    pub fn set_failed_attempts(&mut self, id: &String, value: u64) -> (r: bool)
        ensures
            final(self)@ == set_attempts(old(self)@, id@, value),
            r == exists|i: int| 0 <= i < old(self)@.len() && (#[trigger] old(self)@[i].id) == Some(
                id@,
            ),
            old(self).wf() ==> final(self).wf(),
    {
        let ghost orig = self@;
        let ghost orig_users = self.users@;
        let n = self.users.len();
        let mut i: usize = 0;
        let mut found = false;
        while i < n
            invariant
                n == self.users@.len(),
                0 <= i <= n,
                self.users@.len() == orig_users.len(),
                orig.len() == orig_users.len(),
                forall|j: int| 0 <= j < orig_users.len() ==> (#[trigger] orig_users[j])@ == orig[j],
                forall|j: int| i <= j < n ==> self.users@[j] == #[trigger] orig_users[j],
                forall|j: int|
                    0 <= j < i ==> (#[trigger] self.users@[j])@ == set_attempts(
                        orig,
                        id@,
                        value,
                    )[j],
                found == exists|j: int| 0 <= j < i && (#[trigger] orig[j].id) == Some(id@),
            decreases n - i,
        {
            proof {
                assert(self.users@[i as int] == orig_users[i as int]);
                assert(orig_users[i as int]@ == orig[i as int]);
            }
            let matches_id = match &self.users[i].id {
                Some(s) => *s == *id,
                None => false,
            };
            proof {
                assert(matches_id == (orig[i as int].id == Some(id@)));
            }
            if matches_id {
                self.users[i].failed_login_attempts = value;
                found = true;
            }
            proof {
                assert(self.users@[i as int]@ == set_attempts(orig, id@, value)[i as int]);
            }
            i = i + 1;
        }
        proof {
            assert(self@ =~= set_attempts(orig, id@, value));
            if old(self).wf() {
                lemma_set_attempts_wf(old(self)@, id@, value);
            }
        }
        found
    }
}

/// Setting a counter touches no field that well-formedness speaks of.
pub proof fn lemma_set_attempts_wf(dir: Seq<UserV>, id: Seq<char>, value: u64)
    requires
        dir_wf(dir),
    ensures
        dir_wf(set_attempts(dir, id, value)),
{
    let mapped = set_attempts(dir, id, value);
    assert(mapped.len() == dir.len());
    assert forall|i: int| 0 <= i < mapped.len() implies (#[trigger] mapped[i]).id == dir[i].id
        && mapped[i].username == dir[i].username && mapped[i].email == dir[i].email by {
        assert(mapped[i] == if dir[i].id == Some(id) {
            UserV { failed_login_attempts: value, ..dir[i] }
        } else {
            dir[i]
        });
    }
}

/// A found position is in range and its record matches.
pub proof fn lemma_find_identifier_in_range(dir: Seq<UserV>, ident: Seq<char>, i: int)
    requires
        find_identifier(dir, ident) == Some(i),
    ensures
        0 <= i < dir.len(),
        matches_identifier(dir[i], ident),
{
    lemma_find_identifier_from_in_range(dir, ident, 0, i);
}

proof fn lemma_find_identifier_from_in_range(dir: Seq<UserV>, ident: Seq<char>, k: int, i: int)
    requires
        find_identifier_from(dir, ident, k) == Some(i),
    ensures
        k <= i < dir.len(),
        matches_identifier(dir[i], ident),
    decreases dir.len() - k,
{
    if 0 <= k < dir.len() && !matches_identifier(dir[k], ident) {
        lemma_find_identifier_from_in_range(dir, ident, k + 1, i);
    }
}

/// If no record before position `i` matches, the search may as well start
/// at `i`.
pub proof fn lemma_find_identifier_skip(dir: Seq<UserV>, ident: Seq<char>, i: int)
    requires
        0 <= i <= dir.len(),
        forall|j: int| 0 <= j < i ==> !matches_identifier(#[trigger] dir[j], ident),
    ensures
        find_identifier(dir, ident) == find_identifier_from(dir, ident, i),
    decreases i,
{
    if i > 0 {
        lemma_find_identifier_skip(dir, ident, i - 1);
    }
}

} // verus!
