//! Configuration state handed in by the surrounding application, and the
//! validation of the user identifier.

use vstd::prelude::*;
use crate::client::Credentials;
use crate::error::FreeMobileError;

verus! {

/// A user identifier is exactly eight ASCII digits.
pub open spec fn spec_valid_user_id(s: Seq<char>) -> bool {
    s.len() == 8 && forall|i: int| 0 <= i < s.len() ==> 48 <= #[trigger] s[i] as u32 <= 57
}

/// What one send operation runs with: validated credentials, the message
/// source, and verbosity. The surrounding application fills it from its
/// flags, environment and prompts.
#[derive(Debug, Clone)]
pub struct Config {
    pub credentials: Credentials,
    pub message: Option<String>,
    pub file_path: Option<String>,
    pub verbose: bool,
}

impl Config {
    /// Accepts exactly the identifiers of eight ASCII digits.
    pub fn validate_user_id(user_id: &str) -> (r: Result<(), FreeMobileError>)
        ensures
            spec_valid_user_id(user_id@) ==> r is Ok,
            !spec_valid_user_id(user_id@) ==> (r matches Err(e) && e matches
                FreeMobileError::ConfigError(m) && m@ == "User ID must be exactly 8 digits"@),
    {
        let n = user_id.unicode_len();
        let mut digits = n == 8;
        let mut i: usize = 0;
        while i < n
            invariant
                i <= n,
                n == user_id@.len(),
                digits == (n == 8 && forall|j: int|
                    0 <= j < i ==> 48 <= #[trigger] user_id@[j] as u32 <= 57),
            decreases n - i,
        {
            let c = user_id.get_char(i);
            if (c as u32) < 48 || (c as u32) > 57 {
                digits = false;
            }
            i += 1;
        }
        if digits {
            Ok(())
        } else {
            Err(
                FreeMobileError::ConfigError(
                    String::from_str("User ID must be exactly 8 digits"),
                ),
            )
        }
    }
}

} // verus!
