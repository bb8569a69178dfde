use vstd::prelude::*;

verus! {

/// The claims carried inside a session token: the subject it was issued
/// to and when it expires.
#[derive(Debug, Clone, PartialEq, Eq)]
pub struct Claims {
    /// Subject: a user id or email address.
    pub sub: String,
    /// Expiration time, as seconds from the epoch.
    pub exp: usize,
}

impl Default for Claims {
    /// The empty claims: no subject, expired at the epoch.
    fn default() -> (r: Claims)
        ensures
            r.sub@ == Seq::<char>::empty(),
            r.exp == 0,
    {
        Claims { sub: String::new(), exp: 0 }
    }
}

impl Claims {
    /// The claims to issue for a subject at the given moment: the token
    /// lives for two hours.
    pub fn issue(sub: &str, now: usize) -> (r: Claims)
        requires
            now + 7200 <= usize::MAX,
        ensures
            r.sub@ == sub@,
            r.exp == now + 7200,
    {
        Claims { sub: sub.to_owned(), exp: now + 7200 }
    }

    /// Whether the claims still hold at the given moment: the token has
    /// a subject and has not expired.
    pub fn valid_at(&self, now: usize) -> (r: bool)
        ensures
            r == (self.sub@.len() > 0 && now < self.exp),
    {
        !self.sub.as_str().is_empty() && now < self.exp
    }
}

} // verus!
