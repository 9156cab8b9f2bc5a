//! The admin console's decisions. The HTTP machinery outside extracts the
//! cookie and form values and asks this module what to do; requests are let
//! through for administrators alone.

use vstd::prelude::*;

use crate::store::{auth_decision, public_view, spec_user_by_id, User, UserStore};

verus! {

/// A visitor recognised as an administrator.
pub struct LoggedUser(pub User);

/// The admin login form.
#[derive(Debug)]
pub struct LoginForm {
    pub login: String,
    pub password: String,
}

/// The form that flips a user's administrative flags.
#[derive(Debug)]
pub struct UpdateUserForm {
    pub user_id: String,
    pub is_active: bool,
    pub is_admin: bool,
}

/// The form that registers a user from the console.
#[derive(Debug)]
pub struct RegisterUserForm {
    pub login: String,
    pub password: String,
}

/// What to do with an incoming console request.
pub enum GateOutcome {
    /// An administrator's session cookie: let the request through.
    Success(LoggedUser),
    /// No usable session: forward to the login page. The caller must also
    /// clear the cookie when one was presented.
    Forward,
}

impl LoggedUser {
    /// Decide a request from its session cookie: the id must name a stored
    /// administrator; anything else forwards to the login page.
    pub fn from_request(store: &UserStore, cookie_user_id: Option<&str>) -> (r: GateOutcome)
        ensures
            r matches GateOutcome::Success(lu) ==> cookie_user_id matches Some(id)
                && spec_user_by_id(store@.users, id@) matches Some(du) && du.admin && lu.0@
                == public_view(du),
            r is Forward ==> match cookie_user_id {
                None => true,
                Some(id) => match spec_user_by_id(store@.users, id@) {
                    None => true,
                    Some(du) => !du.admin,
                },
            },
    {
        match cookie_user_id {
            None => GateOutcome::Forward,
            Some(id) => match store.get_user_by_id(id) {
                Ok(user) => if user.is_admin {
                    GateOutcome::Success(LoggedUser(user))
                } else {
                    GateOutcome::Forward
                },
                Err(_) => GateOutcome::Forward,
            },
        }
    }
}

/// Decide an admin login: the credentials must authenticate and the account
/// must be an administrator; the caller then sets the session cookie.
pub fn login_execute(store: &UserStore, form: &LoginForm) -> (r: Option<User>)
    ensures
        r matches Some(u) ==> auth_decision(store@.users, form.login@, form.password@) == Some(u@)
            && u@.is_admin,
        r is None ==> match auth_decision(store@.users, form.login@, form.password@) {
            None => true,
            Some(uv) => !uv.is_admin,
        },
{
    match store.authenticate(form.login.as_str(), form.password.as_str()) {
        Ok(user) => if user.is_admin {
            Some(user)
        } else {
            None
        },
        Err(_) => None,
    }
}

} // verus!
