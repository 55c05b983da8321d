//! The OAuth identity provider users log in with.

use vstd::prelude::*;
use vstd::string::*;

verus! {

/// The name under which users of the provider are known.
pub const IDENTITY_PROVIDER_NAME: &'static str = "github";

/// The user agent the server sends the provider.
pub const USER_AGENT: &'static str = "localhost";

/// An OAuth 2 identity provider.
pub trait OAuth2Provider {
    /// The provider's id, under which its settings and users are found.
    fn get_provider_id() -> &'static str;
}

/// GitHub as identity provider.
#[derive(Debug, Clone, Copy, PartialEq, Eq)]
pub struct Github {}

impl OAuth2Provider for Github {
    fn get_provider_id() -> (id: &'static str)
        ensures
            id@ == IDENTITY_PROVIDER_NAME@,
    {
        IDENTITY_PROVIDER_NAME
    }
}

/// The identity provider of the server.
pub fn get_provider() -> (p: Github) {
    Github {}
}

/// The value of the `Authorization` header of a request made with an
/// access token: `Bearer` and the token.
pub fn authorization_header(access_token: &str) -> (r: String)
    ensures
        r@ == "Bearer "@ + access_token@,
{
    let mut r = String::from_str("Bearer ");
    r.append(access_token);
    r
}

} // verus!
