//! The identity the engine consumes: claims carried by a caller's token, and
//! the session states a token can be in. The engine never issues or
//! validates credentials; it receives already-decoded claims and a clock
//! reading.

use vstd::prelude::*;

verus! {

/// Token expiration time in seconds: a token older than this must be
/// refreshed.
pub const TOKEN_EXP_SECONDS: u64 = 900;

/// Maximum token life in seconds past its expiration: an older token cannot
/// be refreshed and the user must log in again.
pub const TOKEN_MAX_LIFE_SECONDS: u64 = 86400;

/// Claims carried by a caller's token.
#[derive(Debug)]
pub struct Claims {
    nonce: String,
    iss: String,
    sub: String,
    screen_name: String,
    is_admin: bool,
    exp: u64,
}

impl Claims {
    pub closed spec fn nonce_spec(&self) -> Seq<char> {
        self.nonce@
    }

    pub closed spec fn iss_spec(&self) -> Seq<char> {
        self.iss@
    }

    pub closed spec fn sub_spec(&self) -> Seq<char> {
        self.sub@
    }

    pub closed spec fn screen_name_spec(&self) -> Seq<char> {
        self.screen_name@
    }

    pub closed spec fn is_admin_spec(&self) -> bool {
        self.is_admin
    }

    pub closed spec fn exp_spec(&self) -> u64 {
        self.exp
    }

    pub fn new(
        nonce: String,
        iss: String,
        sub: String,
        screen_name: String,
        is_admin: bool,
        exp: u64,
    ) -> (r: Self)
        ensures
            r.nonce_spec() == nonce@,
            r.iss_spec() == iss@,
            r.sub_spec() == sub@,
            r.screen_name_spec() == screen_name@,
            r.is_admin_spec() == is_admin,
            r.exp_spec() == exp,
    {
        Self { nonce, iss, sub, screen_name, is_admin, exp }
    }

    pub fn nonce(&self) -> (r: &str)
        ensures
            r@ == self.nonce_spec(),
    {
        self.nonce.as_str()
    }

    pub fn sub(&self) -> (r: &str)
        ensures
            r@ == self.sub_spec(),
    {
        self.sub.as_str()
    }

    pub fn screen_name(&self) -> (r: &str)
        ensures
            r@ == self.screen_name_spec(),
    {
        self.screen_name.as_str()
    }

    pub fn exp(&self) -> (r: &u64)
        ensures
            *r == self.exp_spec(),
    {
        &self.exp
    }

    pub fn is_admin(&self) -> (r: bool)
        ensures
            r == self.is_admin_spec(),
    {
        self.is_admin
    }
}

/// The session a request carries: a live token, an expired but refreshable
/// one, a token that cannot be trusted or refreshed, no token at all, or a
/// token that could not be decoded.
#[derive(Debug)]
pub enum Session {
    Valid(Claims),
    Expired(Claims),
    Invalid,
    Absent,
    Error,
}

impl Session {
    /// The claims of a session a caller may act under: a valid or an
    /// expired-but-refreshable one.
    pub fn authenticated_claims(&self) -> (r: Option<&Claims>)
        ensures
            match self {
                Session::Valid(c) => r == Some(c),
                Session::Expired(c) => r == Some(c),
                _ => r is None,
            },
    {
        match self {
            Session::Valid(claims) => Some(claims),
            Session::Expired(claims) => Some(claims),
            _ => None,
        }
    }
}

/// What a decoded token's claims mean at time `now`, given the hash of the
/// nonce cookie that accompanied it.
pub open spec fn session_spec(claims: Claims, hashed_nonce: Seq<char>, now: u64) -> Session {
    if claims.nonce_spec() != hashed_nonce {
        Session::Invalid
    } else if now > claims.exp_spec() + TOKEN_MAX_LIFE_SECONDS {
        Session::Invalid
    } else if now > claims.exp_spec() {
        Session::Expired(claims)
    } else {
        Session::Valid(claims)
    }
}

/// Classifies decoded claims: the nonce hash must match the nonce claim,
/// a token expired beyond the maximum life is invalid, one merely past its
/// expiration is refreshable, and a younger one is valid.
pub fn evaluate_session(claims: Claims, hashed_nonce: &str, now: u64) -> (r: Session)
    ensures
        r == session_spec(claims, hashed_nonce@, now),
{
    if !crate::strutil::str_eq(claims.nonce(), hashed_nonce) {
        return Session::Invalid;
    }
    let exp = *claims.exp();
    if now > exp && now - exp > TOKEN_MAX_LIFE_SECONDS {
        return Session::Invalid;
    }
    if now > exp {
        Session::Expired(claims)
    } else {
        Session::Valid(claims)
    }
}

} // verus!
