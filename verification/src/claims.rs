use vstd::prelude::*;

verus! {

use crate::text::str_eq;

/// The views of a list of role names.
pub open spec fn role_views(roles: Seq<String>) -> Seq<Seq<char>> {
    Seq::new(roles.len(), |i: int| roles[i]@)
}

/// The mathematical content of a token's claims.
pub struct ClaimsView {
    pub issued_at: u64,
    pub expires_at: u64,
    pub subject: Seq<char>,
    pub roles: Seq<Seq<char>>,
}

/// The claims carried by a session token: a snapshot of the authenticated
/// user's identity and role set, together with the minting and expiry times.
/// Role changes to the underlying user after minting are not reflected in an
/// already issued token.
#[derive(Debug, Clone, PartialEq, Eq)]
pub struct Claims {
    pub issued_at: u64,
    pub expires_at: u64,
    pub subject: String,
    pub roles: Vec<String>,
}

impl View for Claims {
    type V = ClaimsView;

    open spec fn view(&self) -> ClaimsView {
        ClaimsView {
            issued_at: self.issued_at,
            expires_at: self.expires_at,
            subject: self.subject@,
            roles: role_views(self.roles@),
        }
    }
}

impl Claims {
    /// A token is expired from its expiry instant on: the bound is exclusive,
    /// so a token checked exactly at `expires_at` is already expired.
    pub fn is_expired(&self, now: u64) -> (r: bool)
        ensures
            r == (now >= self@.expires_at),
    {
        now >= self.expires_at
    }

    /// Exact, case-sensitive membership of `role` in the claims' role set.
    pub fn has_role(&self, role: &str) -> (r: bool)
        ensures
            r == self@.roles.contains(role@),
    {
        let mut i: usize = 0;
        while i < self.roles.len()
            invariant
                0 <= i <= self.roles@.len(),
                forall|j: int| 0 <= j < i ==> self@.roles[j] != role@,
            decreases self.roles@.len() - i,
        {
            if str_eq(self.roles[i].as_str(), role) {
                proof {
                    assert(self@.roles[i as int] == role@);
                }
                return true;
            }
            i = i + 1;
        }
        proof {
            assert(forall|j: int| 0 <= j < self@.roles.len() ==> self@.roles[j] != role@);
        }
        false
    }

    /// Whether the token was issued to the given user.
    pub fn is_claimed_user(&self, claimed_user: &str) -> (r: bool)
        ensures
            r == (self@.subject == claimed_user@),
    {
        str_eq(self.subject.as_str(), claimed_user)
    }
}

} // verus!
