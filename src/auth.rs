//! The admin check in front of every protected request: it reads the bearer
//! PIN from the `Authorization` header, looks up the credential stored under
//! the PIN's hash, and admits the request only for an admin credential. It
//! fails closed: a missing header, an unknown PIN, a non-admin PIN and an
//! unreachable store all deny.

use vstd::prelude::*;

use crate::pin::{hash_pin, pin_hash_view, DIGEST_INPUT_LIMIT};

verus! {

/// Why a request was denied.
#[derive(Clone, Copy, Debug, PartialEq, Eq, Structural)]
pub enum AuthError {
    /// No bearer PIN, or one that is unknown or not an admin's.
    Unauthorized,
    /// The credential store could not be consulted.
    Unavailable,
}

/// What the credential store holds for a PIN hash.
#[derive(Debug)]
pub struct Credential {
    pub staff_id: String,
    pub is_admin: bool,
}

/// The credential store could not answer.
#[derive(Clone, Copy, Debug, PartialEq, Eq, Structural)]
pub struct StoreUnavailable;

/// The answer of one credential lookup.
pub type Lookup = Result<Option<Credential>, StoreUnavailable>;

/// The scheme word and the space that open a bearer header.
pub open spec fn bearer_prefix() -> Seq<char> {
    seq!['B', 'e', 'a', 'r', 'e', 'r', ' ']
}

/// The token of a bearer header: what follows the prefix, if it has one.
pub open spec fn bearer_view(h: Seq<char>) -> Option<Seq<char>> {
    if h.len() >= 7 && h.take(7) == bearer_prefix() {
        Some(h.skip(7))
    } else {
        None
    }
}

/// The token of an `Authorization` header value of the form `Bearer <pin>`.
pub fn bearer_token(header: &str) -> (r: Option<&str>)
    ensures
        r is Some <==> bearer_view(header@) is Some,
        r is Some ==> r->Some_0@ == bearer_view(header@)->Some_0,
{
    let n = header.unicode_len();
    if n < 7 {
        return None;
    }
    let prefix = "Bearer ";
    proof {
        reveal_strlit("Bearer ");
        assert(prefix@ =~= bearer_prefix());
    }
    let mut i: usize = 0;
    while i < 7
        invariant
            i <= 7 <= n,
            n == header@.len(),
            prefix@ == bearer_prefix(),
            forall|k: int| 0 <= k < i ==> header@[k] == bearer_prefix()[k],
        decreases 7 - i,
    {
        if header.get_char(i) != prefix.get_char(i) {
            proof {
                assert(header@.take(7)[i as int] != bearer_prefix()[i as int]);
            }
            return None;
        }
        i = i + 1;
    }
    proof {
        assert(header@.take(7) =~= bearer_prefix());
    }
    Some(header.substring_char(7, n))
}

/// The verdict on one lookup answer.
pub open spec fn verdict(lookup: Lookup) -> Result<(), AuthError> {
    match lookup {
        Ok(Some(c)) => if c.is_admin { Ok(()) } else { Err(AuthError::Unauthorized) },
        Ok(None) => Err(AuthError::Unauthorized),
        Err(_) => Err(AuthError::Unavailable),
    }
}

/// Decides on a lookup answer: admit for an admin credential, deny otherwise.
pub fn decide(lookup: &Lookup) -> (r: Result<(), AuthError>)
    ensures
        r == verdict(*lookup),
{
    match lookup {
        Ok(Some(c)) => if c.is_admin { Ok(()) } else { Err(AuthError::Unauthorized) },
        Ok(None) => Err(AuthError::Unauthorized),
        Err(_) => Err(AuthError::Unavailable),
    }
}

/// Headers shorter than this many characters can be hashed.
pub open spec fn header_fits(header: Option<&str>) -> bool {
    header matches Some(h) ==> h@.len() < DIGEST_INPUT_LIMIT
}

/// The admin check; it holds no state.
#[derive(Clone, Copy, Debug)]
pub struct AdminAuth;

impl AdminAuth {
    pub fn new() -> (r: AdminAuth) {
        AdminAuth
    }

    /// Checks one request. `header` is the `Authorization` value, if any;
    /// `lookup` consults the credential store by PIN hash and is called once,
    /// and only when a bearer PIN is present: without one, its precondition
    /// may be false, so a lookup that must not run can be passed.
    pub fn check<F: Fn(&str) -> Lookup>(&self, header: Option<&str>, lookup: F) -> (r: Result<(), AuthError>)
        requires
            header_fits(header),
            (header is Some && bearer_view(header->Some_0@) is Some) ==> forall|s: &str| lookup.requires((s,)),
        ensures
            (header is None || bearer_view(header->Some_0@) is None) ==> r == Err::<(), AuthError>(AuthError::Unauthorized),
            (header is Some && bearer_view(header->Some_0@) is Some) ==> exists|key: &str, answer: Lookup|
                key@ == pin_hash_view(bearer_view(header->Some_0@)->Some_0) && lookup.ensures((key,), answer)
                    && r == verdict(answer),
    {
        match header {
            None => Err(AuthError::Unauthorized),
            Some(h) => match bearer_token(h) {
                None => Err(AuthError::Unauthorized),
                Some(pin) => {
                    let key = hash_pin(pin);
                    let answer = lookup(key.as_str());
                    decide(&answer)
                },
            },
        }
    }

    /// Places the admin check in front of `service`.
    pub fn new_transform<S>(&self, service: S) -> (r: AdminAuthMiddleware<S>)
        ensures
            r.service == service,
    {
        AdminAuthMiddleware { service }
    }
}

/// A service that only admins may reach.
pub struct AdminAuthMiddleware<S> {
    pub service: S,
}

impl<S> AdminAuthMiddleware<S> {
    /// The service to forward to when the request is admitted, or why it
    /// was denied; a denied request reaches nothing behind the check.
    pub fn call<F: Fn(&str) -> Lookup>(&self, header: Option<&str>, lookup: F) -> (r: Result<&S, AuthError>)
        requires
            header_fits(header),
            (header is Some && bearer_view(header->Some_0@) is Some) ==> forall|s: &str| lookup.requires((s,)),
        ensures
            r is Ok ==> *r->Ok_0 == self.service,
            (header is None || bearer_view(header->Some_0@) is None) ==> r == Err::<&S, AuthError>(AuthError::Unauthorized),
            (header is Some && bearer_view(header->Some_0@) is Some) ==> exists|key: &str, answer: Lookup|
                key@ == pin_hash_view(bearer_view(header->Some_0@)->Some_0) && lookup.ensures((key,), answer)
                    && (r is Ok <==> verdict(answer) is Ok)
                    && (r is Err ==> r->Err_0 == verdict(answer)->Err_0),
    {
        match AdminAuth.check(header, lookup) {
            Ok(()) => Ok(&self.service),
            Err(e) => Err(e),
        }
    }
}

/// The verdict admits exactly when the lookup found a credential that
/// carries the admin flag: an unknown PIN and a non-admin PIN are
/// unauthorized, and an unreachable store denies as well. (A request without
/// a bearer header is denied by `AdminAuth::check` before any lookup.)
pub proof fn lemma_admits_only_admins(answer: Lookup)
    ensures
        verdict(answer) is Ok <==> (answer matches Ok(Some(c)) && c.is_admin),
        answer matches Ok(None) ==> verdict(answer) == Err::<(), AuthError>(AuthError::Unauthorized),
        (answer matches Ok(Some(c)) && !c.is_admin) ==> verdict(answer) == Err::<(), AuthError>(
            AuthError::Unauthorized,
        ),
        answer is Err ==> verdict(answer) == Err::<(), AuthError>(AuthError::Unavailable),
{
}

/// A request body that passed validation.
#[derive(Clone, Debug)]
pub struct ValidatedRequest<T>(pub T);

impl<T> ValidatedRequest<T> {
    pub fn into_inner(self) -> (r: T)
        ensures
            r == self.0,
    {
        self.0
    }
}

} // verus!
