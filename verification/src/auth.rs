//! Session tokens: a flat list of valid tokens, grown by password login.

use vstd::prelude::*;
use crate::ids::fresh_uuid;
use crate::text::str_eq;

verus! {

/// The administrator password the service was started with.
#[derive(Debug)]
pub struct AdminPassword(pub String);

impl Clone for AdminPassword {
    fn clone(&self) -> (r: Self)
        ensures
            r == *self,
    {
        AdminPassword(self.0.clone())
    }
}

/// The session tokens that are currently valid.
pub struct ActiveTokens(pub Vec<String>);

/// A login attempt.
#[derive(Debug)]
pub struct Authenticatee {
    pub username: String,
    pub password: String,
}

/// Some stored token reads `token`.
pub open spec fn spec_token_valid(tokens: ActiveTokens, token: Seq<char>) -> bool {
    exists|i: int| 0 <= i < tokens.0@.len() && tokens.0@[i]@ == token
}

/// Whether `token` is a currently valid session token.
pub fn is_valid_token(token: &str, active_tokens: &ActiveTokens) -> (b: bool)
    ensures
        b == spec_token_valid(*active_tokens, token@),
{
    let mut i: usize = 0;
    while i < active_tokens.0.len()
        invariant
            i <= active_tokens.0@.len(),
            forall|k: int| 0 <= k < i ==> active_tokens.0@[k]@ != token@,
        decreases active_tokens.0@.len() - i,
    {
        if str_eq(active_tokens.0[i].as_str(), token) {
            proof {
                assert(active_tokens.0@[i as int]@ == token@);
            }
            return true;
        }
        i = i + 1;
    }
    false
}

/// Issues a session token. When the attempt's password matches the
/// administrator password, a fresh token is stored and that same token is
/// returned; otherwise nothing changes and no token is issued.
pub fn generate_session_token(
    authenticatee: &Authenticatee,
    admin_password: &AdminPassword,
    active_tokens: &mut ActiveTokens,
) -> (r: Option<String>)
    ensures
        match r {
            Some(t) => authenticatee.password@ == admin_password.0@ && final(active_tokens).0@
                == old(active_tokens).0@.push(t) && spec_token_valid(*final(active_tokens), t@),
            None => authenticatee.password@ != admin_password.0@ && final(active_tokens).0@ == old(
                active_tokens,
            ).0@,
        },
{
    if str_eq(admin_password.0.as_str(), authenticatee.password.as_str()) {
        let token = fresh_uuid();
        let stored = token.clone();
        active_tokens.0.push(stored);
        proof {
            let n = old(active_tokens).0@.len() as int;
            assert(active_tokens.0@[n]@ == token@);
        }
        Some(token)
    } else {
        None
    }
}

} // verus!
