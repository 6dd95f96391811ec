use vstd::prelude::*;

verus! {

use vstd::utf8::encode_utf8;
use crate::claims::{Claims, ClaimsView};
use crate::codec::{decode, parse_token};
use crate::text::str_eq;

/// Why a request was denied: no usable session, or a session without the
/// demanded role.
#[derive(Clone, Copy, Debug, PartialEq, Eq, Structural)]
pub enum AuthzError {
    Unauthenticated,
    Forbidden,
}

/// The view of an optional string slice.
pub open spec fn str_opt_view(c: Option<&str>) -> Option<Seq<char>> {
    match c {
        Option::None => Option::None,
        Option::Some(s) => Option::Some(s@),
    }
}

/// What authorization decides. A missing credential, a token that does not
/// decode (its detail is deliberately not surfaced) and an expired token are
/// all unauthenticated; a valid session without the demanded role is
/// forbidden; otherwise the validated claims come back.
pub open spec fn authz_spec(
    credential: Option<Seq<char>>,
    now: u64,
    required_role: Option<Seq<char>>,
    key: Seq<u8>,
) -> Result<ClaimsView, AuthzError> {
    match credential {
        Option::None => Err(AuthzError::Unauthenticated),
        Option::Some(c) => match parse_token(encode_utf8(c), key) {
            Err(_) => Err(AuthzError::Unauthenticated),
            Ok(cl) => if now >= cl.expires_at {
                Err(AuthzError::Unauthenticated)
            } else {
                match required_role {
                    Option::Some(role) => if !cl.roles.contains(role) {
                        Err(AuthzError::Forbidden)
                    } else {
                        Ok(cl)
                    },
                    Option::None => Ok(cl),
                }
            },
        },
    }
}

/// A request with no credential is always unauthenticated, whatever role the
/// handler demands.
pub proof fn lemma_no_credential_unauthenticated(
    now: u64,
    required_role: Option<Seq<char>>,
    key: Seq<u8>,
)
    ensures
        authz_spec(Option::None, now, required_role, key) == Err::<ClaimsView, AuthzError>(
            AuthzError::Unauthenticated,
        ),
{
}

/// Decodes and validates the presented credential and checks the demanded
/// role, deciding the request as `authz_spec` says.
pub fn authorize(
    credential: Option<&str>,
    now: u64,
    required_role: Option<&str>,
    key: &Vec<u8>,
) -> (r: Result<Claims, AuthzError>)
    ensures
        match r {
            Ok(c) => authz_spec(str_opt_view(credential), now, str_opt_view(required_role), key@)
                == Ok::<ClaimsView, AuthzError>(c@),
            Err(e) => authz_spec(str_opt_view(credential), now, str_opt_view(required_role), key@)
                == Err::<ClaimsView, AuthzError>(e),
        },
{
    let c = match credential {
        Option::None => {
            return Err(AuthzError::Unauthenticated);
        },
        Option::Some(c) => c,
    };
    let claims = match decode(c, key) {
        Err(_) => {
            return Err(AuthzError::Unauthenticated);
        },
        Ok(cl) => cl,
    };
    if claims.is_expired(now) {
        return Err(AuthzError::Unauthenticated);
    }
    match required_role {
        Option::Some(role) => {
            if !claims.has_role(role) {
                Err(AuthzError::Forbidden)
            } else {
                Ok(claims)
            }
        },
        Option::None => Ok(claims),
    }
}

/// The administrative sub-views that the admin path dispatches to.
#[derive(Clone, Copy, Debug, PartialEq, Eq, Structural)]
pub enum AdminPage {
    Index,
    UserView,
}

/// The role that gates every administrative path.
pub open spec fn admin_role() -> Seq<char> {
    "admin"@
}

/// The explicit map from an admin sub-path to its page.
pub open spec fn admin_route_spec(path: Seq<char>) -> Option<AdminPage> {
    if path == "index"@ {
        Option::Some(AdminPage::Index)
    } else if path == "user"@ {
        Option::Some(AdminPage::UserView)
    } else {
        Option::None
    }
}

pub fn admin_route(path: &str) -> (r: Option<AdminPage>)
    ensures
        r == admin_route_spec(path@),
{
    if str_eq(path, "index") {
        Option::Some(AdminPage::Index)
    } else if str_eq(path, "user") {
        Option::Some(AdminPage::UserView)
    } else {
        Option::None
    }
}

/// What an admin request is answered with: a page for an authorized admin, or
/// the very answer an unknown path gets.
pub enum AdminDecision {
    NotFound,
    Show(AdminPage, Claims),
}

/// The mathematical content of an admin decision.
pub enum AdminDecisionView {
    NotFound,
    Show(AdminPage, ClaimsView),
}

impl View for AdminDecision {
    type V = AdminDecisionView;

    open spec fn view(&self) -> AdminDecisionView {
        match self {
            AdminDecision::NotFound => AdminDecisionView::NotFound,
            AdminDecision::Show(p, c) => AdminDecisionView::Show(*p, c@),
        }
    }
}

/// What an admin request decides: any denial, for whatever reason, is the
/// same not-found answer that an unknown sub-path gets, so probing cannot
/// reveal that the restricted pages exist.
pub open spec fn admin_spec(
    credential: Option<Seq<char>>,
    path: Seq<char>,
    now: u64,
    key: Seq<u8>,
) -> AdminDecisionView {
    match authz_spec(credential, now, Option::Some(admin_role()), key) {
        Err(_) => AdminDecisionView::NotFound,
        Ok(cl) => match admin_route_spec(path) {
            Option::None => AdminDecisionView::NotFound,
            Option::Some(p) => AdminDecisionView::Show(p, cl),
        },
    }
}

/// A probe without a credential is answered exactly as a request for a path
/// that does not exist, whatever credential the latter presents: the same
/// not-found decision.
pub proof fn lemma_admin_probe_hidden(
    credential: Option<Seq<char>>,
    path: Seq<char>,
    unknown: Seq<char>,
    now: u64,
    key: Seq<u8>,
)
    requires
        admin_route_spec(unknown) is None,
    ensures
        admin_spec(Option::None, path, now, key) == admin_spec(credential, unknown, now, key),
        admin_spec(Option::None, path, now, key) == AdminDecisionView::NotFound,
{
}

/// Serves an administrative path: the credential must carry the admin role,
/// and the sub-path picks the page; everything else is not found.
pub fn admin_request(
    credential: Option<&str>,
    path: &str,
    now: u64,
    key: &Vec<u8>,
) -> (r: AdminDecision)
    ensures
        r@ == admin_spec(str_opt_view(credential), path@, now, key@),
{
    let claims = match authorize(credential, now, Option::Some("admin"), key) {
        Err(_) => {
            return AdminDecision::NotFound;
        },
        Ok(c) => c,
    };
    match admin_route(path) {
        Option::None => AdminDecision::NotFound,
        Option::Some(p) => AdminDecision::Show(p, claims),
    }
}

/// What the landing page is answered with: the home view for a live session,
/// or a redirect to the login page. This public page may reveal the absence
/// of a session.
pub enum IndexDecision {
    RedirectToLogin,
    Home(Claims),
}

/// The mathematical content of a landing-page decision.
pub enum IndexDecisionView {
    RedirectToLogin,
    Home(ClaimsView),
}

impl View for IndexDecision {
    type V = IndexDecisionView;

    open spec fn view(&self) -> IndexDecisionView {
        match self {
            IndexDecision::RedirectToLogin => IndexDecisionView::RedirectToLogin,
            IndexDecision::Home(c) => IndexDecisionView::Home(c@),
        }
    }
}

/// What the landing page decides: a live session is shown its home view, and
/// anything else is sent to the login page.
pub open spec fn index_spec(
    credential: Option<Seq<char>>,
    now: u64,
    key: Seq<u8>,
) -> IndexDecisionView {
    match authz_spec(credential, now, Option::None, key) {
        Err(_) => IndexDecisionView::RedirectToLogin,
        Ok(cl) => IndexDecisionView::Home(cl),
    }
}

/// Serves the landing page.
pub fn index_request(credential: Option<&str>, now: u64, key: &Vec<u8>) -> (r: IndexDecision)
    ensures
        r@ == index_spec(str_opt_view(credential), now, key@),
{
    match authorize(credential, now, Option::None, key) {
        Err(_) => IndexDecision::RedirectToLogin,
        Ok(c) => IndexDecision::Home(c),
    }
}

/// What logging out leaves of the client credential: nothing, whatever was
/// presented.
pub open spec fn logout_spec(credential: Option<Seq<char>>) -> Option<Seq<char>> {
    Option::None
}

/// Clears the client-side credential. There is no server-side session to
/// destroy: invalidation is the client forgetting the token.
pub fn logout(credential: Option<String>) -> (r: Option<String>)
    ensures
        r is None,
        string_opt_view(r) == logout_spec(string_opt_view(credential)),
{
    Option::None
}

/// The view of an optional owned string.
pub open spec fn string_opt_view(c: Option<String>) -> Option<Seq<char>> {
    match c {
        Option::None => Option::None,
        Option::Some(s) => Option::Some(s@),
    }
}

/// Logging out twice leaves exactly what logging out once leaves: no
/// credential.
pub proof fn lemma_logout_idempotent(credential: Option<Seq<char>>)
    ensures
        logout_spec(logout_spec(credential)) == logout_spec(credential),
        logout_spec(credential) is None,
{
}

} // verus!
