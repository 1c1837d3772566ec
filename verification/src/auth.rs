//! The request identity resolver: the boundary between the web layer and
//! the core. The web layer extracts the session cookie's value, if any,
//! and gets back either the authenticated user's id or a rejection; it
//! never sees more than that, and handlers never see the raw secret.

use vstd::prelude::*;

use crate::store::Store;
use crate::users::{find_session_user, get_session_user};

verus! {

/// The authenticated identity a handler receives: nothing but the user id.
#[derive(Clone, Copy, Debug)]
pub struct SessionUser(pub i64);

/// Why a request carries no usable identity. Both cases surface to the
/// client as the same generic unauthenticated rejection; the split only
/// picks the log message.
#[derive(Clone, Copy, Debug, PartialEq, Eq, Structural)]
pub enum AuthError {
    /// No session cookie was presented.
    NotAuthenticated,
    /// A cookie was presented but no session carries its secret.
    InvalidSession,
}

/// The credentials a login form submits.
pub struct LoginFormData {
    pub username: String,
    pub password: String,
}

/// Resolve the session cookie carried by a request, if any, to the user
/// the session was issued for. Runs before any resource logic and has no
/// side effect on the store.
pub fn resolve_session_user(store: &Store, session_cookie: Option<&str>) -> (r: Result<
    SessionUser,
    AuthError,
>)
    ensures
        match session_cookie {
            Option::None => r == Err::<SessionUser, AuthError>(AuthError::NotAuthenticated),
            Option::Some(secret) => match find_session_user(store.sessions@, secret@) {
                Option::Some(uid) => r matches Ok(su) && su.0 == uid,
                Option::None => r == Err::<SessionUser, AuthError>(AuthError::InvalidSession),
            },
        },
{
    match session_cookie {
        None => Err(AuthError::NotAuthenticated),
        Some(secret) => match get_session_user(store, secret) {
            Some(user_id) => Ok(SessionUser(user_id)),
            None => Err(AuthError::InvalidSession),
        },
    }
}

} // verus!
