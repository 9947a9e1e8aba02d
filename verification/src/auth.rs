//! The bearer token of a request, and what is told of a failed
//! authentication. Verifying a token is not this library's part.

use vstd::prelude::*;
use vstd::string::*;

verus! {

/// Why a request was not authenticated.
#[derive(Debug, Clone, Copy, PartialEq, Eq, Structural)]
pub enum AuthError {
    /// The request has no authorization header.
    MissingHeader,
    /// The authorization header is not a bearer token.
    InvalidFormat,
    /// The token is not valid.
    InvalidToken,
    /// The token has expired.
    TokenExpired,
    /// The token is for another audience.
    InvalidAudience,
}

impl AuthError {
    /// The HTTP status that answers the error: 400 for a header that is no
    /// bearer token, 401 for every other error.
    pub open spec fn status_of(self) -> u16 {
        match self {
            AuthError::InvalidFormat => 400,
            _ => 401,
        }
    }

    /// The text that tells of the error.
    pub open spec fn text_of(self) -> Seq<char> {
        match self {
            AuthError::MissingHeader => "Missing authorization header"@,
            AuthError::InvalidFormat => "Invalid authorization header format"@,
            AuthError::InvalidToken => "Invalid token"@,
            AuthError::TokenExpired => "Token expired"@,
            AuthError::InvalidAudience => "Invalid audience"@,
        }
    }

    /// The HTTP status that answers the error.
    pub fn status(&self) -> (code: u16)
        ensures
            code == self.status_of(),
    {
        match self {
            AuthError::InvalidFormat => 400,
            _ => 401,
        }
    }

    /// The text that tells of the error.
    pub fn message(&self) -> (text: &'static str)
        ensures
            text@ == self.text_of(),
    {
        match self {
            AuthError::MissingHeader => "Missing authorization header",
            AuthError::InvalidFormat => "Invalid authorization header format",
            AuthError::InvalidToken => "Invalid token",
            AuthError::TokenExpired => "Token expired",
            AuthError::InvalidAudience => "Invalid audience",
        }
    }
}

/// What stands before the token in an authorization header.
pub open spec fn bearer_prefix() -> Seq<char> {
    seq!['B', 'e', 'a', 'r', 'e', 'r', ' ']
}

/// The header begins with the bearer prefix.
pub open spec fn is_bearer(header: Seq<char>) -> bool {
    header.len() >= 7 && header.subrange(0, 7) == bearer_prefix()
}

/// The token of an authorization header: what follows `Bearer `, if the
/// header begins with it.
pub fn extract_bearer_token(auth_header: &str) -> (token: Option<&str>)
    ensures
        match token {
            Some(t) => is_bearer(auth_header@) && t@ == auth_header@.subrange(
                7,
                auth_header@.len() as int,
            ),
            None => !is_bearer(auth_header@),
        },
{
    let len = auth_header.unicode_len();
    if len < 7 {
        return None;
    }
    if auth_header.get_char(0) != 'B' || auth_header.get_char(1) != 'e' || auth_header.get_char(2)
        != 'a' || auth_header.get_char(3) != 'r' || auth_header.get_char(4) != 'e'
        || auth_header.get_char(5) != 'r' || auth_header.get_char(6) != ' ' {
        proof {
            let prefix = auth_header@.subrange(0, 7);
            assert(prefix[0] == auth_header@[0]);
            assert(prefix[1] == auth_header@[1]);
            assert(prefix[2] == auth_header@[2]);
            assert(prefix[3] == auth_header@[3]);
            assert(prefix[4] == auth_header@[4]);
            assert(prefix[5] == auth_header@[5]);
            assert(prefix[6] == auth_header@[6]);
        }
        return None;
    }
    proof {
        assert(auth_header@.subrange(0, 7) =~= bearer_prefix());
    }
    Some(auth_header.substring_char(7, len))
}

} // verus!
