//! A client's session on the server.

use vstd::prelude::*;
use vstd::string::*;
use crate::random::{id, ID_LENGTH};
use crate::text::{contains_str, same_text, string_views};

verus! {

/// Data of an OAuth login in progress: its state and PKCE verifier.
#[derive(Debug, Clone, PartialEq, Eq)]
pub struct OauthData {
    pub state: String,
    pub pkce_verifier: String,
}

/// A client session.
#[derive(Debug, Clone, PartialEq, Eq)]
pub struct Session {
    pub id: String,
    pub user_id: Option<i64>,
    pub created_on: i64,
    /// The OAuth login in progress, if any; none once a login completed.
    pub oauth: Option<OauthData>,
    /// The share tokens of the collections this session was granted.
    pub authenticated_for_collection_tokens: Vec<String>,
}

/// Calls `chrono::Utc::now` for the time, in seconds since the epoch.
#[verifier::external_body]
fn now_timestamp() -> i64 {
    chrono::Utc::now().timestamp()
}

impl Session {
    /// A new session with a fresh id, no user and no login in progress.
    pub fn new() -> (s: Session)
        ensures
            s.id@.len() == ID_LENGTH,
            s.user_id is None,
            s.oauth is None,
            s.authenticated_for_collection_tokens@.len() == 0,
    {
        Session { id: id(), user_id: None, created_on: now_timestamp(), oauth: None, authenticated_for_collection_tokens: Vec::new() }
    }

    /// When the session was created, in seconds since the epoch.
    pub fn created_on(&self) -> (t: i64)
        ensures
            t == self.created_on,
    {
        self.created_on
    }

    /// Assigns a user to the session.
    pub fn set_user(&mut self, user_id: i64)
        ensures
            final(self).user_id == Some(user_id),
            final(self).id == old(self).id,
            final(self).oauth == old(self).oauth,
            final(self).authenticated_for_collection_tokens == old(self).authenticated_for_collection_tokens,
    {
        self.user_id = Some(user_id);
    }

    /// Records an OAuth login in progress.
    pub fn set_oauth_data(&mut self, state: &str, pkce_verifier: &str)
        ensures
            final(self).oauth matches Some(o) && o.state@ == state@ && o.pkce_verifier@ == pkce_verifier@,
            final(self).id == old(self).id,
            final(self).user_id == old(self).user_id,
            final(self).authenticated_for_collection_tokens == old(self).authenticated_for_collection_tokens,
    {
        self.oauth = Some(OauthData { state: String::from_str(state), pkce_verifier: String::from_str(pkce_verifier) });
    }

    /// The PKCE verifier of the login in progress, if the state the OAuth
    /// provider sent back is that of the login; else the callback is refused.
    pub fn oauth_verifier_for(&self, state: &str) -> (r: Option<String>)
        ensures
            match self.oauth {
                Some(o) => if o.state@ == state@ {
                    r matches Some(v) && v@ == o.pkce_verifier@
                } else {
                    r is None
                },
                None => r is None,
            },
    {
        match &self.oauth {
            Some(o) => if same_text(o.state.as_str(), state) {
                Some(o.pkce_verifier.clone())
            } else {
                None
            },
            None => None,
        }
    }

    /// Completes a login: the session gets the user and its OAuth data is cleared.
    pub fn complete_login(&mut self, user_id: i64)
        ensures
            final(self).user_id == Some(user_id),
            final(self).oauth is None,
            final(self).id == old(self).id,
            final(self).authenticated_for_collection_tokens == old(self).authenticated_for_collection_tokens,
    {
        self.set_user(user_id);
        self.oauth = None;
    }

    /// Grants the session access to the collection shared under `token`;
    /// whether that changed the session.
    pub fn authenticate_for_collection(&mut self, token: &str) -> (changed: bool)
        ensures
            changed == !string_views(old(self).authenticated_for_collection_tokens@).contains(token@),
            changed ==> string_views(final(self).authenticated_for_collection_tokens@)
                == string_views(old(self).authenticated_for_collection_tokens@).push(token@),
            !changed ==> final(self).authenticated_for_collection_tokens == old(self).authenticated_for_collection_tokens,
            string_views(final(self).authenticated_for_collection_tokens@).contains(token@),
            final(self).id == old(self).id,
            final(self).user_id == old(self).user_id,
            final(self).oauth == old(self).oauth,
    {
        if contains_str(self.authenticated_for_collection_tokens.as_slice(), token) {
            false
        } else {
            let ghost prev = self.authenticated_for_collection_tokens@;
            self.authenticated_for_collection_tokens.push(String::from_str(token));
            proof {
                assert(string_views(self.authenticated_for_collection_tokens@) =~= string_views(prev).push(token@));
                assert(string_views(self.authenticated_for_collection_tokens@)[prev.len() as int] == token@);
            }
            true
        }
    }
}

} // verus!
