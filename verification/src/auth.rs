use vstd::prelude::*;

verus! {

use vstd::utf8::encode_utf8;
use crate::claims::{ClaimsView, role_views};
use crate::codec::{encode, token_bytes, parse_token, TokenError};
use crate::password::{verify_password, password_accepted};
use crate::text::str_eq;
use crate::SESSION_LIFETIME;

/// One record of the user store: the unique username, the stored password
/// hash encoding, and the user's role names.
pub struct UserRecord {
    pub username: String,
    pub pw_hash: String,
    pub roles: Vec<String>,
}

/// The mathematical content of a user record.
pub struct UserRecordView {
    pub username: Seq<char>,
    pub pw_hash: Seq<char>,
    pub roles: Seq<Seq<char>>,
}

impl View for UserRecord {
    type V = UserRecordView;

    open spec fn view(&self) -> UserRecordView {
        UserRecordView {
            username: self.username@,
            pw_hash: self.pw_hash@,
            roles: role_views(self.roles@),
        }
    }
}

/// The views of a list of user records.
pub open spec fn record_views(users: Seq<UserRecord>) -> Seq<UserRecordView> {
    Seq::new(users.len(), |i: int| users[i]@)
}

/// The first record with the given username, if any.
pub open spec fn lookup(users: Seq<UserRecordView>, name: Seq<char>) -> Option<UserRecordView>
    decreases users.len(),
{
    if users.len() == 0 {
        Option::None
    } else if users[0].username == name {
        Option::Some(users[0])
    } else {
        lookup(users.drop_first(), name)
    }
}

/// Generic credential failure. A missing user, a wrong password and a store
/// fault are all reported as this one value, so the caller cannot tell them
/// apart.
#[derive(Clone, Copy, Debug, PartialEq, Eq, Structural)]
pub enum LoginError {
    InvalidCredentials,
}

/// Whether a login attempt succeeds against the given store: the username is
/// present and its stored hash accepts the password.
pub open spec fn login_accepted(
    users: Seq<UserRecordView>,
    name: Seq<char>,
    password: Seq<char>,
) -> bool {
    match lookup(users, name) {
        Option::None => false,
        Option::Some(u) => password_accepted(u.pw_hash, password),
    }
}

/// Any two failed logins carry the same error: the error type holds no detail
/// that could tell an unknown username from a wrong password.
pub proof fn lemma_failed_logins_indistinguishable(e1: LoginError, e2: LoginError)
    ensures
        e1 == e2,
{
}

/// The authentication service: the user store it reads and the process-wide
/// signing key, both injected at construction.
pub struct AuthService {
    pub users: Vec<UserRecord>,
    pub key: Vec<u8>,
}

impl AuthService {
    pub fn new(users: Vec<UserRecord>, key: Vec<u8>) -> (r: AuthService)
        ensures
            r.users == users,
            r.key == key,
    {
        AuthService { users, key }
    }

    /// Index of the first record with the given username.
    #[verifier::loop_isolation(false)]
    fn find_user(&self, username: &str) -> (r: Option<usize>)
        ensures
            match r {
                Option::Some(i) => i < self.users@.len() && lookup(
                    record_views(self.users@),
                    username@,
                ) == Option::Some(self.users@[i as int]@),
                Option::None => lookup(record_views(self.users@), username@) is None,
            },
    {
        let ghost rv = record_views(self.users@);
        proof {
            assert(rv.skip(0) =~= rv);
        }
        let mut i: usize = 0;
        while i < self.users.len()
            invariant
                0 <= i <= self.users@.len(),
                lookup(rv, username@) == lookup(rv.skip(i as int), username@),
            decreases self.users@.len() - i,
        {
            let ghost tail = rv.skip(i as int);
            proof {
                assert(tail.len() > 0);
                assert(tail[0] == rv[i as int]);
                assert(tail.drop_first() =~= rv.skip(i as int + 1));
            }
            if str_eq(self.users[i].username.as_str(), username) {
                proof {
                    assert(lookup(tail, username@) == Option::Some(rv[i as int]));
                }
                return Option::Some(i);
            }
            i = i + 1;
        }
        proof {
            assert(rv.skip(rv.len() as int) =~= Seq::<UserRecordView>::empty());
        }
        Option::None
    }

    /// Looks the username up, verifies the password against the stored hash,
    /// and on success mints a session token carrying the user's current
    /// username and role snapshot. Every failure is the same generic error,
    /// and no state changes either way.
    pub fn login(&self, username: &str, password: &str, now: u64) -> (r: Result<String, LoginError>)
        requires
            now + SESSION_LIFETIME <= u64::MAX,
        ensures
            r is Ok <==> login_accepted(record_views(self.users@), username@, password@),
            r is Err ==> r == Err::<String, LoginError>(LoginError::InvalidCredentials),
            r is Ok ==> ({
                let u = lookup(record_views(self.users@), username@)->Some_0;
                &&& encode_utf8(r->Ok_0@) == token_bytes(
                    self.key@,
                    u.username,
                    u.roles,
                    now,
                    (now + SESSION_LIFETIME) as u64,
                )
                &&& parse_token(encode_utf8(r->Ok_0@), self.key@) == Ok::<ClaimsView, TokenError>(
                    ClaimsView {
                        issued_at: now,
                        expires_at: (now + SESSION_LIFETIME) as u64,
                        subject: u.username,
                        roles: u.roles,
                    },
                )
            }),
    {
        let i = match self.find_user(username) {
            Option::None => {
                return Err(LoginError::InvalidCredentials);
            },
            Option::Some(i) => i,
        };
        if !verify_password(self.users[i].pw_hash.as_str(), password) {
            return Err(LoginError::InvalidCredentials);
        }
        Ok(encode(self.users[i].username.as_str(), &self.users[i].roles, now, &self.key))
    }
}

} // verus!
