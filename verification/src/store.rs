//! The user store: users with salted password digests, and the message
//! history. All operations are exact state transformers over the store's
//! mathematical view; identifiers and salts are drawn from a random source,
//! so the operations that draw them state what holds of every outcome and
//! deterministic `*_with_*` variants carry the full contracts.

use vstd::prelude::*;

use crate::message::{Message, MsgView};

verus! {

/// A user as the rest of the system sees it: no credential material.
pub struct User {
    pub id: String,
    pub name: String,
    pub is_active: bool,
    pub is_admin: bool,
}

/// The value of a [`User`].
#[verifier::ext_equal]
pub struct UserV {
    pub id: Seq<char>,
    pub name: Seq<char>,
    pub is_active: bool,
    pub is_admin: bool,
}

impl View for User {
    type V = UserV;

    open spec fn view(&self) -> UserV {
        UserV { id: self.id@, name: self.name@, is_active: self.is_active, is_admin: self.is_admin }
    }
}

impl User {
    /// A field-wise copy with the same value.
    pub fn duplicate(&self) -> (r: User)
        ensures
            r@ == self@,
    {
        User {
            id: self.id.clone(),
            name: self.name.clone(),
            is_active: self.is_active,
            is_admin: self.is_admin,
        }
    }
}

/// One stored credential row.
struct DbUser {
    id: String,
    name: String,
    active: bool,
    admin: bool,
    /// Lowercase hex digest of password followed by salt.
    password: String,
    salt: String,
}

/// The value of a stored credential row.
#[verifier::ext_equal]
pub struct DbUserV {
    pub id: Seq<char>,
    pub name: Seq<char>,
    pub active: bool,
    pub admin: bool,
    pub password: Seq<char>,
    pub salt: Seq<char>,
}

impl View for DbUser {
    type V = DbUserV;

    closed spec fn view(&self) -> DbUserV {
        DbUserV {
            id: self.id@,
            name: self.name@,
            active: self.active,
            admin: self.admin,
            password: self.password@,
            salt: self.salt@,
        }
    }
}

/// One history row.
struct MessageRow {
    id: String,
    author_id: String,
    message: String,
    sent_at: i64,
}

/// The value of a history row.
#[verifier::ext_equal]
pub struct MessageRowV {
    pub id: Seq<char>,
    pub author_id: Seq<char>,
    pub message: Seq<char>,
    pub sent_at: i64,
}

impl View for MessageRow {
    type V = MessageRowV;

    closed spec fn view(&self) -> MessageRowV {
        MessageRowV {
            id: self.id@,
            author_id: self.author_id@,
            message: self.message@,
            sent_at: self.sent_at,
        }
    }
}

/// One row of the history as presented to readers: author name joined in.
pub struct UserMessageView {
    pub author_name: String,
    pub message: String,
    pub sent_at_instant: i64,
}

/// The value of a presented history row.
#[verifier::ext_equal]
pub struct JoinedRowV {
    pub author_name: Seq<char>,
    pub message: Seq<char>,
    pub sent_at_instant: i64,
}

impl View for UserMessageView {
    type V = JoinedRowV;

    open spec fn view(&self) -> JoinedRowV {
        JoinedRowV {
            author_name: self.author_name@,
            message: self.message@,
            sent_at_instant: self.sent_at_instant,
        }
    }
}

/// Why a store operation failed.
#[derive(Debug)]
pub enum UserError {
    /// No user under the given name or id.
    NoSuchUser(String),
    /// The chosen name is already taken.
    UserAlreadyExists(String),
    /// Name unknown, password wrong, or account deactivated — never
    /// distinguished.
    AuthenticationFailed,
    /// The freshly drawn identifier collided with an existing row.
    Storage,
}

/// The whole store's value.
#[verifier::ext_equal]
pub struct StoreV {
    pub users: Seq<DbUserV>,
    pub messages: Seq<MessageRowV>,
}

// --- the random and cryptographic sources ---

/// The lowercase hex SHA-256 digest of a string's bytes, as a function of
/// the string alone.
pub uninterp spec fn sha256_hex_of(input: Seq<char>) -> Seq<char>;

/// Relies on `sha256::digest`: the lowercase hex SHA-256 digest of the
/// input string's bytes, depending on the input alone.
#[verifier::external_body]
fn sha256_hex(input: &str) -> (r: String)
    ensures
        r@ == sha256_hex_of(input@),
{
    sha256::digest(input)
}

/// Relies on `uuid::Uuid::new_v4` and its hyphenated rendering: a freshly
/// drawn random identifier. Nothing is promised of its value.
#[verifier::external_body]
fn fresh_uuid() -> (r: String) {
    uuid::Uuid::new_v4().to_string()
}

/// The digest stored for a password under a salt.
pub open spec fn spec_digest(password: Seq<char>, salt: Seq<char>) -> Seq<char> {
    sha256_hex_of(password + salt)
}

fn passwd_digest(password: &str, salt: &str) -> (r: String)
    ensures
        r@ == spec_digest(password@, salt@),
{
    let mut joined = String::from_str(password);
    joined.append(salt);
    sha256_hex(joined.as_str())
}

// --- spec-level decisions ---

/// The credential row under a name, scanning in storage order.
pub open spec fn spec_user_by_name(users: Seq<DbUserV>, name: Seq<char>) -> Option<DbUserV>
    decreases users.len(),
{
    if users.len() == 0 {
        None
    } else if users[0].name == name {
        Some(users[0])
    } else {
        spec_user_by_name(users.drop_first(), name)
    }
}

/// The credential row under an id, scanning in storage order.
pub open spec fn spec_user_by_id(users: Seq<DbUserV>, id: Seq<char>) -> Option<DbUserV>
    decreases users.len(),
{
    if users.len() == 0 {
        None
    } else if users[0].id == id {
        Some(users[0])
    } else {
        spec_user_by_id(users.drop_first(), id)
    }
}

/// The public face of a credential row.
pub open spec fn public_view(du: DbUserV) -> UserV {
    UserV { id: du.id, name: du.name, is_active: du.active, is_admin: du.admin }
}

/// Whether a password matches a row's stored digest.
pub open spec fn digest_matches(du: DbUserV, password: Seq<char>) -> bool {
    du.password == spec_digest(password, du.salt)
}

/// The authentication rule: the named user, if present, active and holding
/// a matching digest; one `None` for every way to fail.
pub open spec fn auth_decision(users: Seq<DbUserV>, name: Seq<char>, password: Seq<char>) -> Option<
    UserV,
> {
    match spec_user_by_name(users, name) {
        None => None,
        Some(du) => if du.active && digest_matches(du, password) {
            Some(public_view(du))
        } else {
            None
        },
    }
}

/// The store: every operation is transactional — it either performs its
/// whole documented change or leaves the store untouched.
pub struct UserStore {
    users: Vec<DbUser>,
    messages: Vec<MessageRow>,
}

impl View for UserStore {
    type V = StoreV;

    closed spec fn view(&self) -> StoreV {
        StoreV {
            users: Seq::new(self.users@.len(), |i: int| self.users@[i]@),
            messages: Seq::new(self.messages@.len(), |i: int| self.messages@[i]@),
        }
    }
}

impl UserStore {
    /// Well-formedness: names and ids are unique across rows.
    pub open spec fn wf(&self) -> bool {
        forall|i: int, j: int|
            0 <= i < j < self@.users.len() ==> (#[trigger] self@.users[i]).name != (
            #[trigger] self@.users[j]).name && self@.users[i].id != self@.users[j].id
    }

    /// An empty store.
    pub fn new() -> (r: UserStore)
        ensures
            r.wf(),
            r@.users.len() == 0,
            r@.messages.len() == 0,
    {
        UserStore { users: Vec::new(), messages: Vec::new() }
    }

    fn find_by_name(&self, name: &str) -> (r: Option<usize>)
        ensures
            r matches Some(i) ==> i < self@.users.len() && self@.users[i as int].name == name@
                && spec_user_by_name(self@.users, name@) == Some(self@.users[i as int]),
            r is None ==> spec_user_by_name(self@.users, name@) is None,
    {
        let wanted = String::from_str(name);
        let n = self.users.len();
        let mut k: usize = 0;
        proof {
            assert(self@.users.skip(0) =~= self@.users);
        }
        while k < n
            invariant
                k <= n,
                n == self@.users.len(),
                wanted@ == name@,
                spec_user_by_name(self@.users, name@) == spec_user_by_name(
                    self@.users.skip(k as int),
                    name@,
                ),
            decreases n - k,
        {
            proof {
                assert(self@.users.skip(k as int)[0] == self@.users[k as int]);
                assert(self@.users.skip(k as int).drop_first() =~= self@.users.skip(k as int + 1));
            }
            if self.users[k].name.eq(&wanted) {
                return Some(k);
            }
            k += 1;
        }
        proof {
            assert(self@.users.skip(n as int) =~= Seq::<DbUserV>::empty());
        }
        None
    }

    fn find_by_id(&self, id: &str) -> (r: Option<usize>)
        ensures
            r matches Some(i) ==> i < self@.users.len() && self@.users[i as int].id == id@
                && spec_user_by_id(self@.users, id@) == Some(self@.users[i as int]),
            r is None ==> spec_user_by_id(self@.users, id@) is None,
    {
        let wanted = String::from_str(id);
        let n = self.users.len();
        let mut k: usize = 0;
        proof {
            assert(self@.users.skip(0) =~= self@.users);
        }
        while k < n
            invariant
                k <= n,
                n == self@.users.len(),
                wanted@ == id@,
                spec_user_by_id(self@.users, id@) == spec_user_by_id(
                    self@.users.skip(k as int),
                    id@,
                ),
            decreases n - k,
        {
            proof {
                assert(self@.users.skip(k as int)[0] == self@.users[k as int]);
                assert(self@.users.skip(k as int).drop_first() =~= self@.users.skip(k as int + 1));
            }
            if self.users[k].id.eq(&wanted) {
                return Some(k);
            }
            k += 1;
        }
        proof {
            assert(self@.users.skip(n as int) =~= Seq::<DbUserV>::empty());
        }
        None
    }

    /// Authenticate by name and password: succeeds exactly when the named
    /// user exists, is active, and the salted digest matches; every failure
    /// is the same `AuthenticationFailed`.
    pub fn authenticate(&self, username: &str, password: &str) -> (r: Result<User, UserError>)
        ensures
            r matches Ok(u) ==> auth_decision(self@.users, username@, password@) == Some(u@),
            r matches Err(e) ==> auth_decision(self@.users, username@, password@) is None && e
                is AuthenticationFailed,
    {
        match self.find_by_name(username) {
            None => Err(UserError::AuthenticationFailed),
            Some(i) => {
                let row = &self.users[i];
                let expected = passwd_digest(password, row.salt.as_str());
                if row.active && row.password.eq(&expected) {
                    Ok(
                        User {
                            id: row.id.clone(),
                            name: row.name.clone(),
                            is_active: row.active,
                            is_admin: row.admin,
                        },
                    )
                } else {
                    Err(UserError::AuthenticationFailed)
                }
            },
        }
    }

    /// Create an account under the given fresh id and salt. Succeeds exactly
    /// when the name is free and the id does not collide; the new row is
    /// active, not admin, and stores the salted digest of the password.
    pub fn signup_with_ids(
        &mut self,
        username: &str,
        password: &str,
        new_id: String,
        new_salt: String,
    ) -> (r: Result<User, UserError>)
        requires
            old(self).wf(),
        ensures
            final(self).wf(),
            final(self)@.messages == old(self)@.messages,
            spec_user_by_name(old(self)@.users, username@) is Some ==> final(self)@ == old(self)@
                && (r matches Err(e) && (e matches UserError::UserAlreadyExists(n) && n@
                == username@)),
            spec_user_by_name(old(self)@.users, username@) is None && spec_user_by_id(
                old(self)@.users,
                new_id@,
            ) is Some ==> final(self)@ == old(self)@ && (r matches Err(e) && e is Storage),
            spec_user_by_name(old(self)@.users, username@) is None && spec_user_by_id(
                old(self)@.users,
                new_id@,
            ) is None ==> (r matches Ok(u) && final(self)@.users == old(self)@.users.push(
                DbUserV {
                    id: new_id@,
                    name: username@,
                    active: true,
                    admin: false,
                    password: spec_digest(password@, new_salt@),
                    salt: new_salt@,
                },
            ) && u@ == (UserV { id: new_id@, name: username@, is_active: true, is_admin: false })),
    {
        match self.find_by_name(username) {
            Some(_) => Err(UserError::UserAlreadyExists(String::from_str(username))),
            None => {
                match self.find_by_id(new_id.as_str()) {
                    Some(_) => Err(UserError::Storage),
                    None => {
                        proof {
                            lemma_by_name_absent(self@.users, username@);
                            lemma_by_id_absent(self@.users, new_id@);
                        }
                        let digest = passwd_digest(password, new_salt.as_str());
                        let user = User {
                            id: new_id.clone(),
                            name: String::from_str(username),
                            is_active: true,
                            is_admin: false,
                        };
                        let row = DbUser {
                            id: new_id,
                            name: String::from_str(username),
                            active: true,
                            admin: false,
                            password: digest,
                            salt: new_salt,
                        };
                        self.users.push(row);
                        proof {
                            assert(final(self)@.users =~= old(self)@.users.push(
                                final(self)@.users.last(),
                            ));
                            assert(final(self)@.messages =~= old(self)@.messages);
                        }
                        Ok(user)
                    },
                }
            },
        }
    }

    /// Create an account under a freshly drawn id and salt. The name check
    /// is exact; success additionally needs the random id to be unused, so
    /// it is promised only through [`UserStore::signup_with_ids`].
    pub fn signup(&mut self, username: &str, password: &str) -> (r: Result<User, UserError>)
        requires
            old(self).wf(),
        ensures
            final(self).wf(),
            final(self)@.messages == old(self)@.messages,
            spec_user_by_name(old(self)@.users, username@) is Some ==> final(self)@ == old(self)@
                && (r matches Err(e) && (e matches UserError::UserAlreadyExists(n) && n@
                == username@)),
            spec_user_by_name(old(self)@.users, username@) is None ==> match r {
                Ok(u) => final(self)@.users.len() == old(self)@.users.len() + 1 && final(self)@.users == old(self)@.users.push(final(self)@.users.last()) && {
                    let du = final(self)@.users.last();
                    du.name == username@ && du.active && !du.admin && du.password == spec_digest(
                        password@,
                        du.salt,
                    ) && u@ == public_view(du)
                },
                Err(e) => final(self)@ == old(self)@ && e is Storage,
            },
    {
        let new_id = fresh_uuid();
        let new_salt = fresh_uuid();
        self.signup_with_ids(username, password, new_id, new_salt)
    }

    /// Replace the salt and digest of the row identified by `user.id` with
    /// the given fresh salt and the new password's digest under it; fails
    /// with `NoSuchUser` exactly when no row has that id.
    pub fn change_password_with_salt(
        &mut self,
        user: &User,
        new_password: &str,
        new_salt: String,
    ) -> (r: Result<(), UserError>)
        requires
            old(self).wf(),
        ensures
            final(self).wf(),
            final(self)@.messages == old(self)@.messages,
            final(self)@.users.len() == old(self)@.users.len(),
            r is Ok <==> spec_user_by_id(old(self)@.users, user@.id) is Some,
            r matches Err(e) ==> final(self)@ == old(self)@ && (e
                matches UserError::NoSuchUser(n) && n@ == user@.name),
            forall|i: int|
                0 <= i < old(self)@.users.len() ==> final(self)@.users[i] == if (
                #[trigger] old(self)@.users[i]).id == user@.id && r is Ok {
                    DbUserV {
                        password: spec_digest(new_password@, new_salt@),
                        salt: new_salt@,
                        ..old(self)@.users[i]
                    }
                } else {
                    old(self)@.users[i]
                },
    {
        match self.find_by_id(user.id.as_str()) {
            None => Err(UserError::NoSuchUser(user.name.clone())),
            Some(i) => {
                proof {
                    lemma_by_id_found(self@.users, user@.id, i as int);
                }
                let row = self.users.remove(i);
                let digest = passwd_digest(new_password, new_salt.as_str());
                let updated = DbUser {
                    id: row.id,
                    name: row.name,
                    active: row.active,
                    admin: row.admin,
                    password: digest,
                    salt: new_salt,
                };
                self.users.insert(i, updated);
                proof {
                    assert(final(self)@.users =~= old(self)@.users.update(
                        i as int,
                        final(self)@.users[i as int],
                    ));
                    assert(final(self)@.users[i as int] == (DbUserV {
                        password: spec_digest(new_password@, new_salt@),
                        salt: new_salt@,
                        ..old(self)@.users[i as int]
                    }));
                    assert(final(self)@.messages =~= old(self)@.messages);
                }
                Ok(())
            },
        }
    }

    /// Rotate the salt (freshly drawn) and digest of the row identified by
    /// `user.id`; fails with `NoSuchUser` exactly when no row has that id.
    pub fn change_password(&mut self, user: &User, new_password: &str) -> (r: Result<
        (),
        UserError,
    >)
        requires
            old(self).wf(),
        ensures
            final(self).wf(),
            final(self)@.messages == old(self)@.messages,
            final(self)@.users.len() == old(self)@.users.len(),
            r is Ok <==> spec_user_by_id(old(self)@.users, user@.id) is Some,
            r matches Err(e) ==> final(self)@ == old(self)@ && (e
                matches UserError::NoSuchUser(n) && n@ == user@.name),
            forall|i: int|
                0 <= i < old(self)@.users.len() && (#[trigger] old(self)@.users[i]).id != user@.id
                    ==> final(self)@.users[i] == old(self)@.users[i],
            forall|i: int|
                0 <= i < old(self)@.users.len() && (#[trigger] old(self)@.users[i]).id == user@.id
                    && r is Ok ==> {
                    let du = final(self)@.users[i];
                    du.password == spec_digest(new_password@, du.salt) && du == (DbUserV {
                        password: du.password,
                        salt: du.salt,
                        ..old(self)@.users[i]
                    })
                },
    {
        let new_salt = fresh_uuid();
        self.change_password_with_salt(user, new_password, new_salt)
    }

    /// Set the administrative flags of the row with the given id; fails with
    /// `NoSuchUser` exactly when no row has that id.
    pub fn update_user(&mut self, user_id: &str, is_admin: bool, is_active: bool) -> (r: Result<
        (),
        UserError,
    >)
        requires
            old(self).wf(),
        ensures
            final(self).wf(),
            final(self)@.messages == old(self)@.messages,
            final(self)@.users.len() == old(self)@.users.len(),
            r is Ok <==> spec_user_by_id(old(self)@.users, user_id@) is Some,
            r matches Err(e) ==> final(self)@ == old(self)@ && (e
                matches UserError::NoSuchUser(n) && n@ == user_id@),
            forall|i: int|
                0 <= i < old(self)@.users.len() ==> final(self)@.users[i] == if (
                #[trigger] old(self)@.users[i]).id == user_id@ && r is Ok {
                    DbUserV { active: is_active, admin: is_admin, ..old(self)@.users[i] }
                } else {
                    old(self)@.users[i]
                },
    {
        match self.find_by_id(user_id) {
            None => Err(UserError::NoSuchUser(String::from_str(user_id))),
            Some(i) => {
                proof {
                    lemma_by_id_found(self@.users, user_id@, i as int);
                }
                let row = self.users.remove(i);
                let updated = DbUser {
                    id: row.id,
                    name: row.name,
                    active: is_active,
                    admin: is_admin,
                    password: row.password,
                    salt: row.salt,
                };
                self.users.insert(i, updated);
                proof {
                    assert(final(self)@.users =~= old(self)@.users.update(
                        i as int,
                        final(self)@.users[i as int],
                    ));
                    assert(final(self)@.users[i as int] == (DbUserV {
                        active: is_active,
                        admin: is_admin,
                        ..old(self)@.users[i as int]
                    }));
                    assert(final(self)@.messages =~= old(self)@.messages);
                }
                Ok(())
            },
        }
    }

    /// Persist a content payload under the given row id and timestamp: the
    /// history gains one row with the author's id and the payload's display
    /// string. Control payloads are not persisted and the call is a no-op.
    pub fn save_message_with_id(
        &mut self,
        user: &User,
        message: &Message,
        message_id: String,
        sent_at: i64,
    ) -> (r: Result<(), UserError>)
        ensures
            r is Ok,
            final(self)@.users == old(self)@.users,
            message@.is_content() ==> final(self)@.messages == old(self)@.messages.push(
                MessageRowV {
                    id: message_id@,
                    author_id: user@.id,
                    message: message@.display_string(),
                    sent_at,
                },
            ),
            !message@.is_content() ==> final(self)@ == old(self)@,
    {
        match message.render() {
            None => Ok(()),
            Some(display) => {
                let row = MessageRow {
                    id: message_id,
                    author_id: user.id.clone(),
                    message: display,
                    sent_at,
                };
                self.messages.push(row);
                proof {
                    assert(final(self)@.messages =~= old(self)@.messages.push(
                        final(self)@.messages.last(),
                    ));
                    assert(final(self)@.users =~= old(self)@.users);
                }
                Ok(())
            },
        }
    }

    /// Persist a content payload under a freshly drawn row id at the given
    /// timestamp; control payloads are not persisted.
    pub fn save_user_message(&mut self, user: &User, message: &Message, sent_at: i64) -> (r: Result<
        (),
        UserError,
    >)
        ensures
            r is Ok,
            final(self)@.users == old(self)@.users,
            message@.is_content() ==> final(self)@.messages.len() == old(self)@.messages.len() + 1
                && final(self)@.messages == old(self)@.messages.push(final(self)@.messages.last())
                && {
                let row = final(self)@.messages.last();
                row.author_id == user@.id && row.message == message@.display_string() && row.sent_at
                    == sent_at
            },
            !message@.is_content() ==> final(self)@ == old(self)@,
    {
        let message_id = fresh_uuid();
        self.save_message_with_id(user, message, message_id, sent_at)
    }

    /// Look a user up by id.
    pub fn get_user_by_id(&self, id: &str) -> (r: Result<User, UserError>)
        ensures
            r matches Ok(u) ==> spec_user_by_id(self@.users, id@) matches Some(du) && u@
                == public_view(du),
            r matches Err(e) ==> spec_user_by_id(self@.users, id@) is None && (e
                matches UserError::NoSuchUser(n) && n@ == id@),
    {
        match self.find_by_id(id) {
            None => Err(UserError::NoSuchUser(String::from_str(id))),
            Some(i) => {
                let row = &self.users[i];
                Ok(
                    User {
                        id: row.id.clone(),
                        name: row.name.clone(),
                        is_active: row.active,
                        is_admin: row.admin,
                    },
                )
            },
        }
    }

    /// Look a user up by name.
    pub fn get_user_by_name(&self, name: &str) -> (r: Option<User>)
        ensures
            r matches Some(u) ==> spec_user_by_name(self@.users, name@) matches Some(du) && u@
                == public_view(du),
            r is None ==> spec_user_by_name(self@.users, name@) is None,
    {
        match self.find_by_name(name) {
            None => None,
            Some(i) => {
                let row = &self.users[i];
                Some(
                    User {
                        id: row.id.clone(),
                        name: row.name.clone(),
                        is_active: row.active,
                        is_admin: row.admin,
                    },
                )
            },
        }
    }

    /// All users, in storage order, without credential material.
    pub fn get_all_users(&self) -> (r: Vec<User>)
        ensures
            r@.len() == self@.users.len(),
            forall|i: int| 0 <= i < r@.len() ==> (#[trigger] r@[i])@ == public_view(self@.users[i]),
    {
        let mut out: Vec<User> = Vec::new();
        let n = self.users.len();
        let mut k: usize = 0;
        while k < n
            invariant
                k <= n,
                n == self@.users.len(),
                out@.len() == k,
                forall|i: int|
                    0 <= i < k ==> (#[trigger] out@[i])@ == public_view(self@.users[i]),
            decreases n - k,
        {
            let row = &self.users[k];
            out.push(
                User {
                    id: row.id.clone(),
                    name: row.name.clone(),
                    is_active: row.active,
                    is_admin: row.admin,
                },
            );
            k += 1;
        }
        out
    }

    /// The digest currently stored for the named user, for auditing.
    pub fn digest_of(&self, name: &str) -> (r: Option<String>)
        ensures
            r matches Some(d) ==> spec_user_by_name(self@.users, name@) matches Some(du)
                && d@ == du.password,
            r is None ==> spec_user_by_name(self@.users, name@) is None,
    {
        match self.find_by_name(name) {
            None => None,
            Some(i) => Some(self.users[i].password.clone()),
        }
    }

    /// The salt currently stored for the named user, for auditing.
    pub fn salt_of(&self, name: &str) -> (r: Option<String>)
        ensures
            r matches Some(d) ==> spec_user_by_name(self@.users, name@) matches Some(du)
                && d@ == du.salt,
            r is None ==> spec_user_by_name(self@.users, name@) is None,
    {
        match self.find_by_name(name) {
            None => None,
            Some(i) => Some(self.users[i].salt.clone()),
        }
    }
}

impl UserStore {
    /// First-run provisioning on an empty store: create the well-known
    /// `admin`/`admin` account, active and with administrator rights. The
    /// default credentials are meant to be changed at once.
    pub fn bootstrap(&mut self) -> (r: User)
        requires
            old(self).wf(),
            old(self)@.users.len() == 0,
        ensures
            final(self).wf(),
            final(self)@.messages == old(self)@.messages,
            final(self)@.users.len() == 1,
            ({
                let du = final(self)@.users[0];
                du.name == "admin"@ && du.active && du.admin && du.password == spec_digest(
                    "admin"@,
                    du.salt,
                ) && r@ == public_view(du)
            }),
    {
        let new_id = fresh_uuid();
        let new_salt = fresh_uuid();
        match self.signup_with_ids("admin", "admin", new_id, new_salt) {
            Err(_) => vstd::pervasive::unreached(),
            Ok(u) => {
                match self.update_user(u.id.as_str(), true, true) {
                    Err(_) => vstd::pervasive::unreached(),
                    Ok(()) => User { id: u.id, name: u.name, is_active: true, is_admin: true },
                }
            },
        }
    }
}

proof fn lemma_by_name_absent(users: Seq<DbUserV>, name: Seq<char>)
    requires
        spec_user_by_name(users, name) is None,
    ensures
        forall|i: int| 0 <= i < users.len() ==> (#[trigger] users[i]).name != name,
    decreases users.len(),
{
    if users.len() > 0 {
        lemma_by_name_absent(users.drop_first(), name);
        assert(forall|i: int|
            1 <= i < users.len() ==> (#[trigger] users[i]) == users.drop_first()[i - 1]);
    }
}

proof fn lemma_by_id_absent(users: Seq<DbUserV>, id: Seq<char>)
    requires
        spec_user_by_id(users, id) is None,
    ensures
        forall|i: int| 0 <= i < users.len() ==> (#[trigger] users[i]).id != id,
    decreases users.len(),
{
    if users.len() > 0 {
        lemma_by_id_absent(users.drop_first(), id);
        assert(forall|i: int|
            1 <= i < users.len() ==> (#[trigger] users[i]) == users.drop_first()[i - 1]);
    }
}

/// The history joined with author names, in storage order; rows whose
/// author id matches no user are dropped, as an inner join does.
pub open spec fn spec_join_rows(users: Seq<DbUserV>, msgs: Seq<MessageRowV>) -> Seq<JoinedRowV>
    decreases msgs.len(),
{
    if msgs.len() == 0 {
        Seq::empty()
    } else {
        let rest = spec_join_rows(users, msgs.drop_first());
        match spec_user_by_id(users, msgs[0].author_id) {
            Some(du) => seq![
                JoinedRowV {
                    author_name: du.name,
                    message: msgs[0].message,
                    sent_at_instant: msgs[0].sent_at,
                },
            ] + rest,
            None => rest,
        }
    }
}

/// Newest first: timestamps never increase along the sequence.
pub open spec fn sorted_desc(rows: Seq<JoinedRowV>) -> bool {
    forall|i: int, j: int|
        0 <= i < j < rows.len() ==> (#[trigger] rows[i]).sent_at_instant >= (
        #[trigger] rows[j]).sent_at_instant
}

/// The values of a vector of presented rows.
pub open spec fn rows_view(v: Seq<UserMessageView>) -> Seq<JoinedRowV> {
    v.map_values(|r: UserMessageView| r@)
}

proof fn lemma_join_push(users: Seq<DbUserV>, msgs: Seq<MessageRowV>, m: MessageRowV)
    ensures
        spec_join_rows(users, msgs.push(m)) == spec_join_rows(users, msgs) + match spec_user_by_id(
            users,
            m.author_id,
        ) {
            Some(du) => seq![
                JoinedRowV {
                    author_name: du.name,
                    message: m.message,
                    sent_at_instant: m.sent_at,
                },
            ],
            None => Seq::<JoinedRowV>::empty(),
        },
    decreases msgs.len(),
{
    let tailjoin = match spec_user_by_id(users, m.author_id) {
        Some(du) => seq![
            JoinedRowV { author_name: du.name, message: m.message, sent_at_instant: m.sent_at },
        ],
        None => Seq::<JoinedRowV>::empty(),
    };
    if msgs.len() == 0 {
        assert(msgs.push(m)[0] == m);
        assert(msgs.push(m).drop_first() =~= Seq::<MessageRowV>::empty());
        assert(spec_join_rows(users, (msgs.push(m)).drop_first()) =~= Seq::<JoinedRowV>::empty());
        assert(spec_join_rows(users, msgs.push(m)) =~= tailjoin);
        assert(spec_join_rows(users, msgs) + tailjoin =~= tailjoin);
    } else {
        assert(msgs.push(m)[0] == msgs[0]);
        assert(msgs.push(m).drop_first() =~= msgs.drop_first().push(m));
        lemma_join_push(users, msgs.drop_first(), m);
        assert(spec_join_rows(users, msgs.push(m)) =~= spec_join_rows(users, msgs) + tailjoin);
    }
}

/// The first index holding a strictly older row than `t`, scanning from the
/// front; rows at earlier indices are at least as new as `t`.
fn insertion_point(out: &Vec<UserMessageView>, t: i64) -> (pos: usize)
    ensures
        pos <= out@.len(),
        forall|j: int| 0 <= j < pos ==> (#[trigger] out@[j])@.sent_at_instant >= t,
        pos < out@.len() ==> out@[pos as int]@.sent_at_instant < t,
{
    let n = out.len();
    let mut pos: usize = 0;
    while pos < n
        invariant
            pos <= n,
            n == out@.len(),
            forall|j: int| 0 <= j < pos ==> (#[trigger] out@[j])@.sent_at_instant >= t,
        decreases n - pos,
    {
        if out[pos].sent_at_instant < t {
            return pos;
        }
        pos += 1;
    }
    pos
}

/// Law (persistence versus visibility): a history row written for a stored
/// author is listed by the joined history, whatever became of any broadcast
/// of the same payload — the bus never touches the store.
pub proof fn lemma_persisted_message_visible(
    users: Seq<DbUserV>,
    msgs: Seq<MessageRowV>,
    m: MessageRowV,
)
    requires
        spec_user_by_id(users, m.author_id) is Some,
    ensures
        spec_join_rows(users, msgs.push(m)).contains(
            JoinedRowV {
                author_name: spec_user_by_id(users, m.author_id)->Some_0.name,
                message: m.message,
                sent_at_instant: m.sent_at,
            },
        ),
{
    lemma_join_push(users, msgs, m);
    let row = JoinedRowV {
        author_name: spec_user_by_id(users, m.author_id)->Some_0.name,
        message: m.message,
        sent_at_instant: m.sent_at,
    };
    let s = spec_join_rows(users, msgs.push(m));
    assert(s == spec_join_rows(users, msgs) + seq![row]);
    assert(s[s.len() - 1] == row);
}

impl UserStore {
    /// The message history joined with author names, newest first: the rows
    /// are exactly the inner join of history and users, ordered by
    /// non-increasing timestamp.
    pub fn get_user_messages(&self) -> (r: Vec<UserMessageView>)
        ensures
            sorted_desc(rows_view(r@)),
            rows_view(r@).to_multiset() == spec_join_rows(
                self@.users,
                self@.messages,
            ).to_multiset(),
    {
        broadcast use vstd::seq_lib::group_to_multiset_ensures;

        let n = self.messages.len();
        let mut out: Vec<UserMessageView> = Vec::new();
        let mut k: usize = 0;
        proof {
            assert(self@.messages.take(0) =~= Seq::<MessageRowV>::empty());
            assert(rows_view(out@) =~= Seq::<JoinedRowV>::empty());
        }
        while k < n
            invariant
                k <= n,
                n == self@.messages.len(),
                sorted_desc(rows_view(out@)),
                rows_view(out@).to_multiset() == spec_join_rows(
                    self@.users,
                    self@.messages.take(k as int),
                ).to_multiset(),
            decreases n - k,
        {
            broadcast use vstd::seq_lib::group_to_multiset_ensures;

            let ghost prefix = self@.messages.take(k as int);
            proof {
                assert(self@.messages.take(k as int + 1) =~= prefix.push(
                    self@.messages[k as int],
                ));
                lemma_join_push(self@.users, prefix, self@.messages[k as int]);
            }
            let row = &self.messages[k];
            match self.find_by_id(row.author_id.as_str()) {
                None => {
                    proof {
                        assert(spec_join_rows(self@.users, prefix.push(self@.messages[k as int]))
                            =~= spec_join_rows(self@.users, prefix));
                    }
                },
                Some(ui) => {
                    let joined = UserMessageView {
                        author_name: self.users[ui].name.clone(),
                        message: row.message.clone(),
                        sent_at_instant: row.sent_at,
                    };
                    let ghost jv = joined@;
                    let m = out.len();
                    let pos = insertion_point(&out, joined.sent_at_instant);
                    let ghost outv0 = rows_view(out@);
                    proof {
                        assert(forall|j: int|
                            0 <= j < outv0.len() ==> #[trigger] outv0[j] == out@[j]@);
                        assert(pos < m ==> outv0[pos as int].sent_at_instant
                            < jv.sent_at_instant);
                        assert(forall|j: int|
                            0 <= j < pos ==> (#[trigger] outv0[j]).sent_at_instant
                                >= jv.sent_at_instant);
                    }
                    out.insert(pos, joined);
                    proof {
                        let outv1 = rows_view(out@);
                        assert(outv1 =~= outv0.insert(pos as int, jv));
                        assert(outv1.remove(pos as int) =~= outv0);
                        assert(outv1[pos as int] == jv);
                        assert(outv1.to_multiset().remove(jv) =~= outv0.to_multiset());
                        assert(outv1.to_multiset().count(jv) > 0) by {
                            assert(outv1.contains(jv));
                        }
                        assert(outv1.to_multiset() =~= outv0.to_multiset().insert(jv));
                        assert forall|a: int, b: int| 0 <= a < b < outv1.len() implies (
                        #[trigger] outv1[a]).sent_at_instant >= (
                        #[trigger] outv1[b]).sent_at_instant by {
                            if b < pos {
                                assert(outv1[a] == outv0[a] && outv1[b] == outv0[b]);
                            } else if a > pos {
                                assert(outv1[a] == outv0[a - 1] && outv1[b] == outv0[b - 1]);
                            } else if a == pos {
                                assert(outv1[b] == outv0[b - 1]);
                                assert(outv0[pos as int].sent_at_instant < jv.sent_at_instant);
                            } else if b == pos {
                                assert(outv1[a] == outv0[a]);
                            } else {
                                // a < pos < b
                                assert(outv1[a] == outv0[a] && outv1[b] == outv0[b - 1]);
                                assert(outv0[pos as int].sent_at_instant < jv.sent_at_instant);
                            }
                        }
                        assert(spec_join_rows(self@.users, prefix.push(self@.messages[k as int]))
                            =~= spec_join_rows(self@.users, prefix) + seq![jv]);
                        assert(spec_join_rows(self@.users, prefix) + seq![jv] =~= spec_join_rows(
                            self@.users,
                            prefix,
                        ).push(jv));
                    }
                },
            }
            k += 1;
        }
        proof {
            assert(self@.messages.take(n as int) =~= self@.messages);
        }
        out
    }
}

proof fn lemma_by_name_push(users: Seq<DbUserV>, row: DbUserV)
    requires
        spec_user_by_name(users, row.name) is None,
    ensures
        spec_user_by_name(users.push(row), row.name) == Some(row),
    decreases users.len(),
{
    if users.len() == 0 {
        assert(users.push(row)[0] == row);
    } else {
        assert(users.push(row)[0] == users[0]);
        assert(users.push(row).drop_first() =~= users.drop_first().push(row));
        lemma_by_name_push(users.drop_first(), row);
    }
}

proof fn lemma_by_name_update(users: Seq<DbUserV>, i: int, du2: DbUserV)
    requires
        0 <= i < users.len(),
        du2.name == users[i].name,
        forall|a: int, b: int|
            0 <= a < b < users.len() ==> (#[trigger] users[a]).name != (#[trigger] users[b]).name,
    ensures
        spec_user_by_name(users.update(i, du2), users[i].name) == Some(du2),
    decreases users.len(),
{
    let users2 = users.update(i, du2);
    if i == 0 {
        assert(users2[0] == du2);
    } else {
        assert(users2[0] == users[0]);
        assert(users[0].name != users[i].name);
        assert(users2.drop_first() =~= users.drop_first().update(i - 1, du2));
        assert(forall|a: int, b: int|
            0 <= a < b < users.drop_first().len() ==> (#[trigger] users.drop_first()[a]).name != (
            #[trigger] users.drop_first()[b]).name);
        lemma_by_name_update(users.drop_first(), i - 1, du2);
    }
}

/// Law: an account freshly created with `signup` authenticates with the
/// password it was created with — for every store in which the name was
/// free, and whatever id and salt were drawn.
pub proof fn lemma_signup_then_authenticate(
    users: Seq<DbUserV>,
    name: Seq<char>,
    password: Seq<char>,
    id: Seq<char>,
    salt: Seq<char>,
)
    requires
        spec_user_by_name(users, name) is None,
    ensures
        auth_decision(
            users.push(
                DbUserV {
                    id,
                    name,
                    active: true,
                    admin: false,
                    password: spec_digest(password, salt),
                    salt,
                },
            ),
            name,
            password,
        ) == Some(UserV { id, name, is_active: true, is_admin: false }),
{
    let row = DbUserV {
        id,
        name,
        active: true,
        admin: false,
        password: spec_digest(password, salt),
        salt,
    };
    lemma_by_name_push(users, row);
}

/// Law: a deactivated account cannot authenticate, even with the correct
/// password — deactivating row `i` as `update_user` does makes every
/// authentication under its name fail.
pub proof fn lemma_deactivation_blocks_auth(users: Seq<DbUserV>, i: int, password: Seq<char>)
    requires
        0 <= i < users.len(),
        forall|a: int, b: int|
            0 <= a < b < users.len() ==> (#[trigger] users[a]).name != (#[trigger] users[b]).name,
    ensures
        auth_decision(
            users.update(i, DbUserV { active: false, ..users[i] }),
            users[i].name,
            password,
        ) is None,
{
    lemma_by_name_update(users, i, DbUserV { active: false, ..users[i] });
}

/// Law: after a password change as `change_password` performs on row `i`
/// of an active account, the new password authenticates.
pub proof fn lemma_change_password_then_authenticate(
    users: Seq<DbUserV>,
    i: int,
    new_password: Seq<char>,
    new_salt: Seq<char>,
)
    requires
        0 <= i < users.len(),
        users[i].active,
        forall|a: int, b: int|
            0 <= a < b < users.len() ==> (#[trigger] users[a]).name != (#[trigger] users[b]).name,
    ensures
        auth_decision(
            users.update(
                i,
                DbUserV {
                    password: spec_digest(new_password, new_salt),
                    salt: new_salt,
                    ..users[i]
                },
            ),
            users[i].name,
            new_password,
        ) == Some(
            UserV {
                id: users[i].id,
                name: users[i].name,
                is_active: true,
                is_admin: users[i].admin,
            },
        ),
{
    lemma_by_name_update(
        users,
        i,
        DbUserV { password: spec_digest(new_password, new_salt), salt: new_salt, ..users[i] },
    );
}

proof fn lemma_by_id_found(users: Seq<DbUserV>, id: Seq<char>, i: int)
    requires
        0 <= i < users.len(),
        spec_user_by_id(users, id) == Some(users[i]),
        users[i].id == id,
        forall|a: int, b: int|
            0 <= a < b < users.len() ==> (#[trigger] users[a]).id != (#[trigger] users[b]).id,
    ensures
        forall|j: int| 0 <= j < users.len() && j != i ==> (#[trigger] users[j]).id != id,
{
}

} // verus!
