//! Users and sessions: account creation, password rotation, password
//! login, and session issue and lookup.
//!
//! A session secret is an opaque random string; resolving it back to a user
//! id is a plain first-match lookup, and issuing one that would collide
//! with an existing secret is refused as a store error rather than let it
//! shadow an older session.

use vstd::prelude::*;

use crate::credentials::{check_password_hash, hash_password, password_verifies};
use crate::store::{
    find_user_by_name, lemma_find_user_none_iff, str_eq, user_names_unique, Session, Store, User,
};

verus! {

/// Failures of the user and session operations. A store-constraint
/// violation (duplicate name, duplicate secret, exhausted id space) is a
/// `StoreError`, the analogue of a failed statement against a relational
/// store.
#[derive(Clone, Copy, Debug, PartialEq, Eq, Structural)]
pub enum UsersError {
    /// The hashing primitive failed.
    HashingFailure,
    /// A store constraint was violated.
    StoreError,
    /// No user has the given id.
    NoSuchUser(i64),
}

/// The user id a secret resolves to: the first session carrying it.
pub open spec fn find_session_user(sessions: Seq<Session>, secret: Seq<char>) -> Option<i64>
    decreases sessions.len(),
{
    if sessions.len() == 0 {
        None
    } else if sessions[0].secret@ == secret {
        Some(sessions[0].user_id)
    } else {
        find_session_user(sessions.drop_first(), secret)
    }
}

/// A secret resolves to nobody exactly when no session carries it. In
/// particular a never-issued secret resolves to none.
pub proof fn lemma_find_session_none_iff(sessions: Seq<Session>, secret: Seq<char>)
    ensures
        (find_session_user(sessions, secret) is None) <==> (forall|i: int|
            0 <= i < sessions.len() ==> (#[trigger] sessions[i]).secret@ != secret),
    decreases sessions.len(),
{
    if sessions.len() > 0 {
        lemma_find_session_none_iff(sessions.drop_first(), secret);
        assert forall|i: int|
            0 <= i < sessions.len() && (find_session_user(sessions, secret) is None)
                implies (#[trigger] sessions[i]).secret@ != secret by {
            if i > 0 {
                assert(sessions.drop_first()[i - 1] == sessions[i]);
            }
        }
        if forall|i: int| 0 <= i < sessions.len() ==> (#[trigger] sessions[i]).secret@ != secret {
            assert forall|i: int|
                0 <= i < sessions.drop_first().len()
                    implies (#[trigger] sessions.drop_first()[i]).secret@ != secret by {
                assert(sessions.drop_first()[i] == sessions[i + 1]);
            }
        }
    }
}

/// A session appended under a secret that resolves to nobody makes that
/// secret resolve to the new session's user.
pub proof fn lemma_fresh_session_resolves(sessions: Seq<Session>, rec: Session)
    requires
        find_session_user(sessions, rec.secret@) is None,
    ensures
        find_session_user(sessions.push(rec), rec.secret@) == Some(rec.user_id),
    decreases sessions.len(),
{
    if sessions.len() == 0 {
        assert(sessions.push(rec)[0] == rec);
    } else {
        assert(sessions.push(rec)[0] == sessions[0]);
        assert(sessions.push(rec).drop_first() =~= sessions.drop_first().push(rec));
        lemma_fresh_session_resolves(sessions.drop_first(), rec);
    }
}

/// Two successfully issued secrets never collide: a secret that was fresh
/// when issued differs from every secret already in the store, so two
/// sessions created one after the other carry different secrets.
pub proof fn lemma_issued_secrets_distinct(sessions: Seq<Session>, fresh: Seq<char>, i: int)
    requires
        find_session_user(sessions, fresh) is None,
        0 <= i < sessions.len(),
    ensures
        sessions[i].secret@ != fresh,
{
    lemma_find_session_none_iff(sessions, fresh);
}

/// What password login returns: the id of the user found under the name,
/// provided that user has a password set and the attempt verifies against
/// it; none otherwise.
pub open spec fn spec_authenticate(users: Seq<User>, name: Seq<char>, password: Seq<char>) -> Option<
    i64,
> {
    match find_user_by_name(users, name) {
        Option::None => Option::None,
        Option::Some(u) => match u.password_hash {
            Option::None => Option::None,
            Option::Some(h) => if password_verifies(h@, password) {
                Option::Some(u.id)
            } else {
                Option::None
            },
        },
    }
}

/// In a store with unique names, looking a user's own name up finds
/// exactly that user.
pub proof fn lemma_find_user_by_own_name(users: Seq<User>, i: int)
    requires
        user_names_unique(users),
        0 <= i < users.len(),
    ensures
        find_user_by_name(users, users[i].name@) == Some(users[i]),
    decreases users.len(),
{
    if i > 0 {
        assert(users[0].name@ != users[i].name@);
        assert forall|a: int, b: int|
            0 <= a < b < users.drop_first().len()
                implies (#[trigger] users.drop_first()[a]).name@
                != (#[trigger] users.drop_first()[b]).name@ by {
            assert(users.drop_first()[a] == users[a + 1]);
            assert(users.drop_first()[b] == users[b + 1]);
        }
        lemma_find_user_by_own_name(users.drop_first(), i - 1);
        assert(users.drop_first()[i - 1] == users[i]);
    }
}

/// A user whose stored hash was derived from `password` — the state
/// `set_password` and `add_user` leave that user in — authenticates under
/// their name with `password` and with nothing else.
pub proof fn lemma_set_password_then_authenticate(
    users: Seq<User>,
    i: int,
    password: Seq<char>,
    other: Seq<char>,
)
    requires
        user_names_unique(users),
        0 <= i < users.len(),
        users[i].password_hash matches Some(h) && (forall|p: Seq<char>|
            #[trigger] password_verifies(h@, p) <==> p == password),
        other != password,
    ensures
        spec_authenticate(users, users[i].name@, password) == Some(users[i].id),
        spec_authenticate(users, users[i].name@, other) is None,
{
    lemma_find_user_by_own_name(users, i);
}

/// An unknown name never authenticates, with the same `None` a wrong
/// password for a known name produces.
pub proof fn lemma_unknown_name_never_authenticates(
    users: Seq<User>,
    name: Seq<char>,
    password: Seq<char>,
)
    requires
        find_user_by_name(users, name) is None,
    ensures
        spec_authenticate(users, name, password) is None,
{
}

/// A user with no password hash stored never authenticates by password,
/// whatever the attempt.
pub proof fn lemma_no_password_never_authenticates(
    users: Seq<User>,
    name: Seq<char>,
    password: Seq<char>,
    u: User,
)
    requires
        find_user_by_name(users, name) == Some(u),
        u.password_hash is None,
    ensures
        spec_authenticate(users, name, password) is None,
{
}

/// A user whose stored hash was derived from `password` authenticates with
/// `password` and with nothing else.
pub proof fn lemma_registered_password_authenticates(
    users: Seq<User>,
    name: Seq<char>,
    password: Seq<char>,
    other: Seq<char>,
    u: User,
    h: String,
)
    requires
        find_user_by_name(users, name) == Some(u),
        u.password_hash == Some(h),
        forall|p: Seq<char>| #[trigger] password_verifies(h@, p) <==> p == password,
        other != password,
    ensures
        spec_authenticate(users, name, password) == Some(u.id),
        spec_authenticate(users, name, other) is None,
{
}

/// Looks a user up by name, the way `select ... where name = ?` would.
pub(crate) fn lookup_user_by_name<'a>(users: &'a Vec<User>, name: &str) -> (r: Option<&'a User>)
    ensures
        match r {
            Option::Some(u) => find_user_by_name(users@, name@) == Some(*u),
            Option::None => find_user_by_name(users@, name@) is None,
        },
{
    let n = users.len();
    let mut i: usize = 0;
    proof {
        assert(users@.skip(0) =~= users@);
    }
    while i < n
        invariant
            i <= n,
            n == users@.len(),
            find_user_by_name(users@, name@) == find_user_by_name(
                users@.skip(i as int),
                name@,
            ),
        decreases n - i,
    {
        proof {
            assert(users@.skip(i as int)[0] == users@[i as int]);
        }
        if str_eq(users[i].name.as_str(), name) {
            return Some(&users[i]);
        }
        proof {
            assert(users@.skip(i as int).drop_first() =~= users@.skip(i as int + 1));
        }
        i = i + 1;
    }
    proof {
        assert(users@.skip(n as int) =~= Seq::<User>::empty());
    }
    None
}

/// Looks a user's position up by id.
pub(crate) fn find_user_index(users: &Vec<User>, id: i64) -> (r: Option<usize>)
    ensures
        match r {
            Option::Some(i) => i < users@.len() && users@[i as int].id == id,
            Option::None => forall|j: int|
                0 <= j < users@.len() ==> (#[trigger] users@[j]).id != id,
        },
{
    let n = users.len();
    let mut i: usize = 0;
    while i < n
        invariant
            i <= n,
            n == users@.len(),
            forall|j: int| 0 <= j < i ==> (#[trigger] users@[j]).id != id,
        decreases n - i,
    {
        if users[i].id == id {
            return Some(i);
        }
        i = i + 1;
    }
    None
}

/// Try to authenticate a user by password, returning the user id on
/// success. An unknown name, a user whose password login is disabled
/// (no hash stored), and a failed verification all yield `None`.
pub fn authenticate_user_by_password(store: &Store, username: &str, password: &str) -> (r: Option<
    i64,
>)
    ensures
        r == spec_authenticate(store.users@, username@, password@),
{
    match lookup_user_by_name(&store.users, username) {
        None => None,
        Some(user) => match user.password_hash.as_ref() {
            None => None,
            Some(hash) => {
                if check_password_hash(hash.as_str(), password) {
                    Some(user.id)
                } else {
                    None
                }
            },
        },
    }
}

/// Looks a session up by secret, the way `select user_id ... where
/// secret = ?` would.
pub(crate) fn lookup_session_user(sessions: &Vec<Session>, secret: &str) -> (r: Option<i64>)
    ensures
        r == find_session_user(sessions@, secret@),
{
    let n = sessions.len();
    let mut i: usize = 0;
    proof {
        assert(sessions@.skip(0) =~= sessions@);
    }
    while i < n
        invariant
            i <= n,
            n == sessions@.len(),
            find_session_user(sessions@, secret@) == find_session_user(
                sessions@.skip(i as int),
                secret@,
            ),
        decreases n - i,
    {
        proof {
            assert(sessions@.skip(i as int)[0] == sessions@[i as int]);
        }
        if str_eq(sessions[i].secret.as_str(), secret) {
            return Some(sessions[i].user_id);
        }
        proof {
            assert(sessions@.skip(i as int).drop_first() =~= sessions@.skip(i as int + 1));
        }
        i = i + 1;
    }
    proof {
        assert(sessions@.skip(n as int) =~= Seq::<Session>::empty());
    }
    None
}

/// Resolve a session secret to the id of the user it was issued for, or
/// `None` for a secret no session carries.
pub fn get_session_user(store: &Store, secret: &str) -> (r: Option<i64>)
    ensures
        r == find_session_user(store.sessions@, secret@),
{
    lookup_session_user(&store.sessions, secret)
}

/// The URL-safe base64 alphabet session secrets are spelled in: letters,
/// digits, `-` and `_`, safe to carry in a cookie header.
pub open spec fn is_url_safe_char(c: char) -> bool {
    ||| 'A' <= c <= 'Z'
    ||| 'a' <= c <= 'z'
    ||| '0' <= c <= '9'
    ||| c == '-'
    ||| c == '_'
}

/// Relies on rand's `thread_rng` for 12 bytes (96 bits) from the
/// thread-local CSPRNG, and on base64's `URL_SAFE` engine: 12 bytes make
/// four full base64 chunks, so the encoding is exactly 16 characters of
/// the URL-safe alphabet, with no padding. The value is random; nothing
/// relates one call's result to another's.
#[verifier::external_body]
pub(crate) fn new_session_secret() -> (r: String)
    ensures
        r@.len() == 16,
        forall|i: int| 0 <= i < r@.len() ==> is_url_safe_char(#[trigger] r@[i]),
{
    let mut secret = [0u8; 12];
    rand::RngCore::fill_bytes(&mut rand::thread_rng(), &mut secret);
    base64::Engine::encode(&base64::engine::general_purpose::URL_SAFE, secret)
}

/// Files a session row under a given secret. The secret must not be in
/// use: a collision is refused as a store error, the way a unique index
/// would refuse the insert, so an existing session is never shadowed.
pub fn insert_session(
    store: &mut Store,
    user_id: i64,
    secret: String,
    user_agent: &str,
    now: i64,
) -> (r: Result<(), UsersError>)
    requires
        old(store).wf(),
    ensures
        final(store).wf(),
        final(store).users == old(store).users,
        final(store).categories == old(store).categories,
        final(store).words == old(store).words,
        final(store).next_user_id == old(store).next_user_id,
        final(store).next_category_id == old(store).next_category_id,
        final(store).next_word_id == old(store).next_word_id,
        match r {
            Ok(()) => {
                &&& find_session_user(old(store).sessions@, secret@) is None
                &&& final(store).sessions@.len() == old(store).sessions@.len() + 1
                &&& final(store).sessions@.drop_last() == old(store).sessions@
                &&& final(store).sessions@.last().secret == secret
                &&& final(store).sessions@.last().user_id == user_id
                &&& final(store).sessions@.last().created_user_agent@ == user_agent@
                &&& final(store).sessions@.last().created_at == now
                &&& final(store).sessions@.last().last_used_at == now
                &&& find_session_user(final(store).sessions@, secret@) == Some(user_id)
            },
            Err(e) => {
                &&& e is StoreError
                &&& *final(store) == *old(store)
                &&& find_session_user(old(store).sessions@, secret@) is Some
            },
        },
{
    if lookup_session_user(&store.sessions, secret.as_str()).is_some() {
        return Err(UsersError::StoreError);
    }
    let rec = Session {
        secret,
        user_id,
        created_user_agent: user_agent.to_owned(),
        created_at: now,
        last_used_at: now,
    };
    proof {
        lemma_fresh_session_resolves(store.sessions@, rec);
        lemma_find_session_none_iff(store.sessions@, rec.secret@);
    }
    store.sessions.push(rec);
    proof {
        assert(store.sessions@.drop_last() =~= old(store).sessions@);
        assert forall|a: int, b: int|
            0 <= a < b < store.sessions@.len() implies (#[trigger] store.sessions@[a]).secret@
            != (#[trigger] store.sessions@[b]).secret@ by {
            if b < store.sessions@.len() - 1 {
                assert(store.sessions@[a] == old(store).sessions@[a]);
                assert(store.sessions@[b] == old(store).sessions@[b]);
            } else {
                assert(store.sessions@[a] == old(store).sessions@[a]);
            }
        }
    }
    Ok(())
}

/// Mint a session for a user: a fresh random secret is generated, filed
/// with the user agent and the clock reading, and returned. The returned
/// secret resolves to `user_id`. In the negligible case that the generated
/// secret collides with an existing one the store refuses it — so an error
/// implies some session already existed, and on an empty session table the
/// call always succeeds.
pub fn create_session(store: &mut Store, user_id: i64, user_agent: &str, now: i64) -> (r: Result<
    String,
    UsersError,
>)
    requires
        old(store).wf(),
    ensures
        final(store).wf(),
        final(store).users == old(store).users,
        final(store).categories == old(store).categories,
        final(store).words == old(store).words,
        final(store).next_user_id == old(store).next_user_id,
        final(store).next_category_id == old(store).next_category_id,
        final(store).next_word_id == old(store).next_word_id,
        match r {
            Ok(secret) => {
                &&& secret@.len() == 16
                &&& forall|i: int| 0 <= i < secret@.len() ==> is_url_safe_char(#[trigger] secret@[i])
                &&& find_session_user(old(store).sessions@, secret@) is None
                &&& final(store).sessions@.len() == old(store).sessions@.len() + 1
                &&& final(store).sessions@.drop_last() == old(store).sessions@
                &&& final(store).sessions@.last().secret@ == secret@
                &&& final(store).sessions@.last().user_id == user_id
                &&& final(store).sessions@.last().created_user_agent@ == user_agent@
                &&& final(store).sessions@.last().created_at == now
                &&& final(store).sessions@.last().last_used_at == now
                &&& find_session_user(final(store).sessions@, secret@) == Some(user_id)
            },
            Err(e) => {
                &&& e is StoreError
                &&& *final(store) == *old(store)
                &&& old(store).sessions@.len() > 0
            },
        },
{
    let secret = new_session_secret();
    let out = secret.clone();
    match insert_session(store, user_id, secret, user_agent, now) {
        Ok(()) => Ok(out),
        Err(e) => {
            proof {
                if old(store).sessions@.len() == 0 {
                    assert(find_session_user(old(store).sessions@, out@) is None);
                }
            }
            Err(e)
        },
    }
}

/// Files a user row, with or without a password hash. The name must be
/// free: a duplicate is refused as a store error, the way the unique index
/// on user names would refuse the insert.
pub fn add_user_record(
    store: &mut Store,
    username: &str,
    password_hash: Option<String>,
    now: i64,
) -> (r: Result<i64, UsersError>)
    requires
        old(store).wf(),
    ensures
        final(store).wf(),
        final(store).sessions == old(store).sessions,
        final(store).categories == old(store).categories,
        final(store).words == old(store).words,
        final(store).next_category_id == old(store).next_category_id,
        final(store).next_word_id == old(store).next_word_id,
        match r {
            Ok(id) => {
                &&& find_user_by_name(old(store).users@, username@) is None
                &&& old(store).next_user_id < i64::MAX
                &&& id == old(store).next_user_id
                &&& final(store).next_user_id == old(store).next_user_id + 1
                &&& final(store).users@.len() == old(store).users@.len() + 1
                &&& final(store).users@.drop_last() == old(store).users@
                &&& final(store).users@.last().id == id
                &&& final(store).users@.last().name@ == username@
                &&& final(store).users@.last().password_hash == password_hash
                &&& final(store).users@.last().created_at == now
                &&& final(store).users@.last().updated_at == now
            },
            Err(e) => {
                &&& e is StoreError
                &&& *final(store) == *old(store)
                &&& (find_user_by_name(old(store).users@, username@) is Some || old(
                    store,
                ).next_user_id == i64::MAX)
            },
        },
{
    if lookup_user_by_name(&store.users, username).is_some() {
        return Err(UsersError::StoreError);
    }
    if store.next_user_id == i64::MAX {
        return Err(UsersError::StoreError);
    }
    let id = store.next_user_id;
    let rec = User {
        id,
        name: username.to_owned(),
        password_hash,
        created_at: now,
        updated_at: now,
    };
    proof {
        lemma_find_user_none_iff(store.users@, rec.name@);
    }
    store.users.push(rec);
    store.next_user_id = id + 1;
    proof {
        assert(store.users@.drop_last() =~= old(store).users@);
        assert forall|a: int, b: int|
            0 <= a < b < store.users@.len() implies (#[trigger] store.users@[a]).id
            != (#[trigger] store.users@[b]).id && store.users@[a].name@
            != store.users@[b].name@ by {
            assert(store.users@[a] == old(store).users@[a]);
            if b < store.users@.len() - 1 {
                assert(store.users@[b] == old(store).users@[b]);
            }
        }
    }
    Ok(id)
}

/// Create a user with a password: the password is hashed with a fresh
/// random salt and the user filed under the name. On success the stored
/// hash verifies the given password and no other.
pub fn add_user(store: &mut Store, username: &str, password: &str, now: i64) -> (r: Result<
    i64,
    UsersError,
>)
    requires
        old(store).wf(),
    ensures
        final(store).wf(),
        final(store).sessions == old(store).sessions,
        final(store).categories == old(store).categories,
        final(store).words == old(store).words,
        final(store).next_category_id == old(store).next_category_id,
        final(store).next_word_id == old(store).next_word_id,
        match r {
            Ok(id) => {
                &&& find_user_by_name(old(store).users@, username@) is None
                &&& old(store).next_user_id < i64::MAX
                &&& id == old(store).next_user_id
                &&& final(store).next_user_id == old(store).next_user_id + 1
                &&& final(store).users@.len() == old(store).users@.len() + 1
                &&& final(store).users@.drop_last() == old(store).users@
                &&& final(store).users@.last().id == id
                &&& final(store).users@.last().name@ == username@
                &&& final(store).users@.last().created_at == now
                &&& final(store).users@.last().updated_at == now
                &&& final(store).users@.last().password_hash matches Some(h) && (forall|
                    p: Seq<char>,
                |
                    #[trigger] password_verifies(h@, p) <==> p == password@)
            },
            Err(e) => {
                &&& *final(store) == *old(store)
                &&& (e is HashingFailure || (e is StoreError && (find_user_by_name(
                    old(store).users@,
                    username@,
                ) is Some || old(store).next_user_id == i64::MAX)))
            },
        },
{
    match hash_password(password) {
        None => Err(UsersError::HashingFailure),
        Some(hash) => add_user_record(store, username, Some(hash), now),
    }
}

/// Rotate a user's password: hash the new password and replace whatever
/// hash the user had. Fails with `NoSuchUser` exactly when no user has the
/// id (or with `HashingFailure` when derivation fails).
pub fn set_password(store: &mut Store, id: i64, password: &str) -> (r: Result<(), UsersError>)
    requires
        old(store).wf(),
    ensures
        final(store).wf(),
        final(store).sessions == old(store).sessions,
        final(store).categories == old(store).categories,
        final(store).words == old(store).words,
        final(store).next_user_id == old(store).next_user_id,
        final(store).next_category_id == old(store).next_category_id,
        final(store).next_word_id == old(store).next_word_id,
        match r {
            Ok(()) => exists|i: int|
                {
                    &&& 0 <= i < old(store).users@.len()
                    &&& (#[trigger] old(store).users@[i]).id == id
                    &&& final(store).users@.len() == old(store).users@.len()
                    &&& final(store).users@ == old(store).users@.update(
                        i,
                        final(store).users@[i],
                    )
                    &&& final(store).users@[i].id == old(store).users@[i].id
                    &&& final(store).users@[i].name == old(store).users@[i].name
                    &&& final(store).users@[i].created_at == old(store).users@[i].created_at
                    &&& final(store).users@[i].updated_at == old(store).users@[i].updated_at
                    &&& final(store).users@[i].password_hash matches Some(h) && (forall|
                        p: Seq<char>,
                    |
                        #[trigger] password_verifies(h@, p) <==> p == password@)
                },
            Err(e) => {
                &&& *final(store) == *old(store)
                &&& (e is HashingFailure || (e == UsersError::NoSuchUser(id) && (forall|i: int|
                    0 <= i < old(store).users@.len() ==> (#[trigger] old(store).users@[i]).id
                        != id)))
            },
        },
{
    match hash_password(password) {
        None => Err(UsersError::HashingFailure),
        Some(hash) => set_password_hash(store, id, hash),
    }
}

/// Replace a user's stored hash with a hash supplied by the caller.
/// Fails with `NoSuchUser` exactly when no user has the id.
pub fn set_password_hash(store: &mut Store, id: i64, hash: String) -> (r: Result<(), UsersError>)
    requires
        old(store).wf(),
    ensures
        final(store).wf(),
        final(store).sessions == old(store).sessions,
        final(store).categories == old(store).categories,
        final(store).words == old(store).words,
        final(store).next_user_id == old(store).next_user_id,
        final(store).next_category_id == old(store).next_category_id,
        final(store).next_word_id == old(store).next_word_id,
        match r {
            Ok(()) => exists|i: int|
                {
                    &&& 0 <= i < old(store).users@.len()
                    &&& (#[trigger] old(store).users@[i]).id == id
                    &&& final(store).users@ == old(store).users@.update(
                        i,
                        User {
                            id: old(store).users@[i].id,
                            name: old(store).users@[i].name,
                            password_hash: Some(hash),
                            created_at: old(store).users@[i].created_at,
                            updated_at: old(store).users@[i].updated_at,
                        },
                    )
                },
            Err(e) => {
                &&& e == UsersError::NoSuchUser(id)
                &&& *final(store) == *old(store)
                &&& forall|i: int|
                    0 <= i < old(store).users@.len() ==> (#[trigger] old(store).users@[i]).id != id
            },
        },
{
    match find_user_index(&store.users, id) {
        None => Err(UsersError::NoSuchUser(id)),
        Some(i) => {
            let rec = User {
                id: store.users[i].id,
                name: store.users[i].name.clone(),
                password_hash: Some(hash),
                created_at: store.users[i].created_at,
                updated_at: store.users[i].updated_at,
            };
            store.users[i] = rec;
            proof {
                let k = i as int;
                let before = old(store).users@;
                let after = store.users@;
                assert forall|j: int| 0 <= j < after.len() implies (#[trigger] after[j]).id
                    == before[j].id && after[j].name@ == before[j].name@ by {
                    if j != k {
                        assert(after[j] == before[j]);
                    }
                }
                let updated = User {
                    id: before[k].id,
                    name: before[k].name,
                    password_hash: Some(hash),
                    created_at: before[k].created_at,
                    updated_at: before[k].updated_at,
                };
                assert(after =~= before.update(k, updated));
                assert(0 <= k < before.len() && before[k].id == id && after == before.update(
                    k,
                    updated,
                ));
            }
            Ok(())
        },
    }
}

/// The login flow behind the submit handler: authenticate by password and,
/// on success, mint a session whose secret the caller hands back to the
/// client. `Ok(None)` is a failed login; the store is then untouched. An
/// error can only follow successful authentication — bad credentials are
/// always answered `Ok(None)`, never an error.
pub fn login(store: &mut Store, username: &str, password: &str, user_agent: &str, now: i64) -> (r:
    Result<Option<String>, UsersError>)
    requires
        old(store).wf(),
    ensures
        final(store).wf(),
        final(store).users == old(store).users,
        final(store).categories == old(store).categories,
        final(store).words == old(store).words,
        final(store).next_user_id == old(store).next_user_id,
        final(store).next_category_id == old(store).next_category_id,
        final(store).next_word_id == old(store).next_word_id,
        match r {
            Ok(opt) => match opt {
                Option::None => {
                    &&& spec_authenticate(old(store).users@, username@, password@) is None
                    &&& *final(store) == *old(store)
                },
                Option::Some(secret) => {
                    &&& spec_authenticate(old(store).users@, username@, password@) matches Some(uid)
                    &&& secret@.len() == 16
                    &&& forall|i: int| 0 <= i < secret@.len() ==> is_url_safe_char(#[trigger] secret@[i])
                    &&& final(store).sessions@.len() == old(store).sessions@.len() + 1
                    &&& final(store).sessions@.drop_last() == old(store).sessions@
                    &&& final(store).sessions@.last().secret@ == secret@
                    &&& final(store).sessions@.last().user_id == spec_authenticate(
                        old(store).users@,
                        username@,
                        password@,
                    )->0
                    &&& final(store).sessions@.last().created_user_agent@ == user_agent@
                    &&& final(store).sessions@.last().created_at == now
                    &&& final(store).sessions@.last().last_used_at == now
                    &&& find_session_user(final(store).sessions@, secret@) == spec_authenticate(
                        old(store).users@,
                        username@,
                        password@,
                    )
                },
            },
            Err(e) => {
                &&& e is StoreError
                &&& *final(store) == *old(store)
                &&& spec_authenticate(old(store).users@, username@, password@) is Some
                &&& old(store).sessions@.len() > 0
            },
        },
{
    match authenticate_user_by_password(store, username, password) {
        None => Ok(None),
        Some(user_id) => match create_session(store, user_id, user_agent, now) {
            Ok(secret) => Ok(Some(secret)),
            Err(e) => Err(e),
        },
    }
}

/// The id of the user registered under a name, if any.
pub fn user_by_name(store: &Store, username: &str) -> (r: Option<i64>)
    ensures
        r == match find_user_by_name(store.users@, username@) {
            Option::Some(u) => Option::Some(u.id),
            Option::None => Option::<i64>::None,
        },
{
    match lookup_user_by_name(&store.users, username) {
        None => None,
        Some(user) => Some(user.id),
    }
}

} // verus!
