//! Users, their credentials as the store holds them, and what signing in
//! answers.

use crate::encoding::{hex_encode, hex_spec, sha256_digest, sha256_of};
use crate::ident::{hyphenated, is_version4, new_v4, to_text};
use crate::schedule::NANOS_PER_SECOND;
use vstd::prelude::*;

verus! {

/// Seconds for which a token is valid.
pub const TOKEN_LIFETIME: i128 = 3_600;

/// A user as the sign-up and sign-in requests describe one.
#[derive(Debug, Clone)]
pub struct User {
    pub username: Option<String>,
    pub email: Option<String>,
    pub password: Option<String>,
}

/// The answer to a successful sign-in.
#[derive(Debug, Clone)]
pub struct SigninResponse {
    pub success: bool,
    pub message: String,
    pub id: String,
    pub username: String,
    pub token: String,
}

/// What a `SigninResponse` holds.
pub struct SigninResponseView {
    pub success: bool,
    pub message: Seq<char>,
    pub id: Seq<char>,
    pub username: Seq<char>,
    pub token: Seq<char>,
}

/// A user whose token was found valid.
#[derive(Debug, Clone)]
pub struct AuthorizedUser {
    pub id: String,
}

/// The credentials of a user as the store holds them.
#[derive(Debug, Clone)]
pub struct SigninRow {
    pub user_id: u128,
    pub username: String,
    /// The password, hashed.
    pub passcode: String,
}

/// The claims of a token.
#[derive(Debug, Clone)]
pub struct Claims {
    /// The instant at which the token expires, in seconds since the Unix epoch.
    pub exp: usize,
    /// The identifier of the user, in the hyphenated form.
    pub sub: String,
}

impl View for SigninResponse {
    type V = SigninResponseView;

    open spec fn view(&self) -> SigninResponseView {
        SigninResponseView {
            success: self.success,
            message: self.message@,
            id: self.id@,
            username: self.username@,
            token: self.token@,
        }
    }
}

/// The text under which a password is stored: the SHA-256 digest of its UTF-8
/// bytes, in lower-case hexadecimal digits.
pub open spec fn hash_spec(password: Seq<char>) -> Seq<char> {
    hex_spec(sha256_digest(vstd::utf8::encode_utf8(password)))
}

/// The second in which a token expires that is issued at the instant `now`:
/// one lifetime after the second in which `now` lies.
pub open spec fn expiry_spec(now: int) -> int {
    now / (NANOS_PER_SECOND as int) + TOKEN_LIFETIME
}

impl User {
    /// A fresh random identifier for the user.
    pub fn gen_uuid(&self) -> (id: u128)
        ensures
            is_version4(id),
    {
        new_v4()
    }

    /// The text under which the password is stored.
    pub fn hash(&self) -> (r: String)
        requires
            self.password is Some,
        ensures
            r@ == hash_spec(self.password.unwrap()@),
            r@.len() == 64,
    {
        match &self.password {
            Some(password) => {
                let digest = sha256_of(password.as_str().as_bytes());
                hex_encode(digest.as_slice())
            },
            None => String::new(),
        }
    }
}

impl SigninResponse {
    /// What an answer holds before anything is filled in: success, and empty
    /// texts.
    pub open spec fn empty() -> SigninResponseView {
        SigninResponseView {
            success: true,
            message: Seq::<char>::empty(),
            id: Seq::<char>::empty(),
            username: Seq::<char>::empty(),
            token: Seq::<char>::empty(),
        }
    }

    /// An answer with nothing filled in.
    pub fn new() -> (r: SigninResponse)
        ensures
            r@ == Self::empty(),
    {
        Self::default()
    }

    /// The same answer with this message.
    pub fn message(self, message: &str) -> (r: SigninResponse)
        ensures
            r@ == (SigninResponseView { message: message@, ..self@ }),
    {
        let mut r = self;
        r.message = message.to_string();
        r
    }

    /// The same answer with this identifier.
    pub fn id(self, id: &str) -> (r: SigninResponse)
        ensures
            r@ == (SigninResponseView { id: id@, ..self@ }),
    {
        let mut r = self;
        r.id = id.to_string();
        r
    }

    /// The same answer with this user name.
    pub fn username(self, username: String) -> (r: SigninResponse)
        ensures
            r@ == (SigninResponseView { username: username@, ..self@ }),
    {
        let mut r = self;
        r.username = username;
        r
    }

    /// The same answer with this token.
    pub fn token(self, token: String) -> (r: SigninResponse)
        ensures
            r@ == (SigninResponseView { token: token@, ..self@ }),
    {
        let mut r = self;
        r.token = token;
        r
    }
}

impl Default for SigninResponse {
    fn default() -> (r: SigninResponse)
        ensures
            r@ == SigninResponse::empty(),
    {
        SigninResponse {
            success: true,
            message: String::new(),
            id: String::new(),
            username: String::new(),
            token: String::new(),
        }
    }
}

impl SigninRow {
    /// The claims of a token for this user, issued at the instant `now`: the
    /// user is named by identifier, and the token expires one lifetime later.
    /// `None` where the second of expiry is below zero or too large to count.
    pub fn claims(&self, now: i128) -> (r: Option<Claims>)
        ensures
            match r {
                Some(claims) => claims.exp == expiry_spec(now as int) && claims.sub@
                    == hyphenated(self.user_id),
                None => expiry_spec(now as int) < 0 || expiry_spec(now as int) > usize::MAX,
            },
    {
        let floor: i128 = if now >= 0 {
            now / NANOS_PER_SECOND
        } else {
            -((-(now + 1)) / NANOS_PER_SECOND) - 1
        };
        if floor > i128::MAX - TOKEN_LIFETIME {
            return None;
        }
        let expiry: i128 = floor + TOKEN_LIFETIME;
        if expiry < 0 || expiry > usize::MAX as i128 {
            return None;
        }
        Some(Claims { exp: expiry as usize, sub: to_text(self.user_id) })
    }
}

} // verus!
