//! Credentials, their validity, and the compute half of a send: the
//! validated client state and the pipeline that turns a raw message into
//! the formatted chunks the transport dispatches.

use vstd::prelude::*;
use crate::chunker::{format_spec, spec_message_chunks, MessageChunker};
use crate::error::FreeMobileError;
use crate::sanitizer::{lemma_sanitize_not_blank, sanitize_spec, MessageSanitizer};
use crate::text::{blank, is_blank};

verus! {

/// Transport credentials: the account identifier and the access secret.
#[derive(Debug, Clone)]
pub struct Credentials {
    pub user: String,
    pub pass: String,
}

impl Credentials {
    /// Creates credentials from the identifier and the secret.
    pub fn new(user: String, pass: String) -> (r: Self)
        ensures
            r.user@ == user@,
            r.pass@ == pass@,
    {
        Self { user, pass }
    }

    /// Credentials are valid exactly when neither part is blank.
    pub fn is_valid(&self) -> (r: bool)
        ensures
            r == (!is_blank(self.user@) && !is_blank(self.pass@)),
    {
        !blank(self.user.as_str()) && !blank(self.pass.as_str())
    }
}

/// Masks an identifier for display: four leading characters are kept when
/// the identifier has at least four, and everything else becomes stars.
pub fn mask_user_id(user_id: &str) -> (r: String)
    ensures
        user_id@.len() >= 4 ==> r@ == user_id@.subrange(0, 4) + seq!['*', '*', '*', '*'],
        user_id@.len() < 4 ==> r@ == seq!['*', '*', '*', '*'],
{
    let n = user_id.unicode_len();
    proof {
        reveal_strlit("****");
        assert("****"@ =~= seq!['*', '*', '*', '*']);
    }
    if n >= 4 {
        let mut s = String::from_str(user_id.substring_char(0, 4));
        s.append("****");
        s
    } else {
        String::from_str("****")
    }
}

/// The validated state of the transport client: credentials accepted for
/// use. The network half lives outside the library and borrows this state.
#[derive(Debug, Clone)]
pub struct FreeMobileClient {
    pub credentials: Credentials,
}

impl FreeMobileClient {
    /// Accepts the credentials when they are valid and rejects blank ones.
    pub fn new(credentials: Credentials) -> (r: Result<Self, FreeMobileError>)
        ensures
            !is_blank(credentials.user@) && !is_blank(credentials.pass@) ==> (r matches Ok(c)
                && c.credentials.user@ == credentials.user@ && c.credentials.pass@
                == credentials.pass@),
            is_blank(credentials.user@) || is_blank(credentials.pass@) ==> (r matches Err(e)
                && e is InvalidCredentials),
    {
        if !credentials.is_valid() {
            return Err(FreeMobileError::InvalidCredentials);
        }
        Ok(Self { credentials })
    }

    /// Sanitizes a message without sending it, exactly as a send would.
    pub fn sanitize_message(&self, message: &str) -> (r: String)
        ensures
            r@ == sanitize_spec(message@),
    {
        MessageSanitizer::sanitize(message)
    }

    /// The compute half of a send: rejects a blank message, and otherwise
    /// sanitizes, chunks and formats it into the texts the transport is
    /// given, in dispatch order.
    pub fn prepare_message(&self, message: &str) -> (r: Result<
        Vec<String>,
        FreeMobileError,
    >)
        ensures
            is_blank(message@) ==> (r matches Err(e) && e is EmptyMessage),
            !is_blank(message@) ==> (r matches Ok(v) && v.deep_view() == format_spec(
                spec_message_chunks(sanitize_spec(message@)),
            )),
    {
        if blank(message) {
            return Err(FreeMobileError::EmptyMessage);
        }
        let sanitized = MessageSanitizer::sanitize(message);
        if blank(sanitized.as_str()) {
            proof {
                lemma_sanitize_not_blank(message@);
            }
            return Err(FreeMobileError::EmptyMessage);
        }
        let chunks = MessageChunker::chunk(sanitized.as_str());
        Ok(MessageChunker::format_chunks(&chunks))
    }
}

} // verus!
