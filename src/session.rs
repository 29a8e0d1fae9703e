use vstd::prelude::*;
use crate::decimal::{i32_value, parse_i32};
use crate::text::{chars_of, same_text};

verus! {

/// The session entry that marks a logged-in client.
pub const AUTHENTICATED_KEY: &'static str = "authenticated";

/// The session entry that holds the logged-in user's identifier.
pub const USER_ID_KEY: &'static str = "userId";

/// What a session entry holds when its client is logged in.
pub const AUTHENTICATED_TRUE: &'static str = "true";

/// A logged-in client: the session marks it as authenticated and names its user.
#[derive(Clone, Copy, Debug, PartialEq, Eq, Structural)]
pub struct SessionData {
    pub authenticated: bool,
    pub user_id: i32,
}

/// The session that two stored entries describe: present only when the flag
/// literally reads `true` and the identifier is an `i32` written in decimal.
pub open spec fn session_of(authenticated: Option<Seq<char>>, user_id: Option<Seq<char>>) -> Option<
    SessionData,
> {
    match (authenticated, user_id) {
        (Some(a), Some(u)) => if a == AUTHENTICATED_TRUE@ && i32_value(u) is Some {
            Some(SessionData { authenticated: true, user_id: i32_value(u)->0 as i32 })
        } else {
            None
        },
        _ => None,
    }
}

pub open spec fn entry_view(e: Option<&str>) -> Option<Seq<char>> {
    match e {
        Some(s) => Some(s@),
        None => None,
    }
}

impl SessionData {
    pub fn new(authenticated: bool, user_id: i32) -> (r: SessionData)
        ensures
            r.authenticated == authenticated,
            r.user_id == user_id,
    {
        SessionData { authenticated, user_id }
    }

    /// The session guard: reads the two session entries (absent ones as
    /// `None`) and gives the logged-in client they describe, if any.
    pub fn from_session(authenticated: Option<&str>, user_id: Option<&str>) -> (r: Option<
        SessionData,
    >)
        ensures
            r == session_of(entry_view(authenticated), entry_view(user_id)),
    {
        match (authenticated, user_id) {
            (Some(a), Some(u)) => {
                if !same_text(a, AUTHENTICATED_TRUE) {
                    return None;
                }
                match parse_i32(&chars_of(u)) {
                    Some(id) => Some(SessionData::new(true, id)),
                    None => None,
                }
            },
            _ => None,
        }
    }
}

} // verus!
