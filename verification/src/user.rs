//! The user that an access token belongs to.

use crate::client::{request_of, Client, Method, Request};
use crate::params::Params;
use crate::reply::{read_strict, strict_result, ApiError, Reply};
use vstd::prelude::*;

verus! {

/// A user of the service.
#[derive(Clone, PartialEq, Eq, Debug)]
pub struct User {
    pub id: String,
    pub nickname: String,
    /// Left out by the service for most users.
    pub superuser: Option<bool>,
}

impl Client {
    /// The request for the user that the token belongs to.
    pub fn get_user(&self) -> (r: Request)
        ensures
            r@ == request_of(self.token(), Method::Get, "/users/me"@, Seq::empty()),
    {
        self.request(Method::Get, "/users/me", &Params::new())
    }
}

/// Reads the reply to [`Client::get_user`]. A body that is no user is an
/// error.
pub fn read_user(reply: Reply<User>) -> (r: Result<User, ApiError>)
    ensures
        r == strict_result(reply),
{
    read_strict(reply)
}

} // verus!
