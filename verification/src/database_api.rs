//! The account database's client-side configuration: the credentials
//! and endpoints that the surrounding program uses to reach the two
//! halves of the database API. The requests themselves are network
//! work outside this library.

use vstd::prelude::*;

verus! {

/// Connection parameters of the database API: one username, and an
/// endpoint and password for each of the administrative and the user
/// halves.
pub struct MonadApi {
    username: String,
    admin_endpoint: String,
    admin_password: String,
    user_endpoint: String,
    user_password: String,
}

impl MonadApi {
    pub closed spec fn spec_username(&self) -> Seq<char> {
        self.username@
    }

    pub closed spec fn spec_admin_endpoint(&self) -> Seq<char> {
        self.admin_endpoint@
    }

    pub closed spec fn spec_admin_password(&self) -> Seq<char> {
        self.admin_password@
    }

    pub closed spec fn spec_user_endpoint(&self) -> Seq<char> {
        self.user_endpoint@
    }

    pub closed spec fn spec_user_password(&self) -> Seq<char> {
        self.user_password@
    }

    pub fn new(
        username: &str,
        admin_endpoint: &str,
        admin_password: &str,
        user_endpoint: &str,
        user_password: &str,
    ) -> (r: MonadApi)
        ensures
            r.spec_username() == username@,
            r.spec_admin_endpoint() == admin_endpoint@,
            r.spec_admin_password() == admin_password@,
            r.spec_user_endpoint() == user_endpoint@,
            r.spec_user_password() == user_password@,
    {
        MonadApi {
            username: username.to_owned(),
            admin_endpoint: admin_endpoint.to_owned(),
            admin_password: admin_password.to_owned(),
            user_endpoint: user_endpoint.to_owned(),
            user_password: user_password.to_owned(),
        }
    }

    pub fn username(&self) -> (r: &str)
        ensures
            r@ == self.spec_username(),
    {
        self.username.as_str()
    }

    pub fn admin_endpoint(&self) -> (r: &str)
        ensures
            r@ == self.spec_admin_endpoint(),
    {
        self.admin_endpoint.as_str()
    }

    pub fn admin_password(&self) -> (r: &str)
        ensures
            r@ == self.spec_admin_password(),
    {
        self.admin_password.as_str()
    }

    pub fn user_endpoint(&self) -> (r: &str)
        ensures
            r@ == self.spec_user_endpoint(),
    {
        self.user_endpoint.as_str()
    }

    pub fn user_password(&self) -> (r: &str)
        ensures
            r@ == self.spec_user_password(),
    {
        self.user_password.as_str()
    }
}

} // verus!
