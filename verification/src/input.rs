//! Validation of a raw message before it enters the pipeline. Reading the
//! message from a file, a pipe or a prompt is the surrounding application's
//! work; what arrives here is the text itself.

use vstd::prelude::*;
use crate::chunker::join_range;
use crate::constants::{MAX_INPUT_LENGTH, MESSAGE_PREVIEW_LENGTH};
use crate::error::FreeMobileError;
use crate::graphemes::{graphemes_of, split_graphemes};
use crate::text::{blank, is_blank};

verus! {

/// Gatekeeper for raw message text.
pub struct InputHandler;

impl InputHandler {
    /// Rejects a blank message and one beyond the application-level length
    /// ceiling, which is measured in grapheme clusters and is larger than
    /// the per-chunk transport limit.
    pub fn validate_message(message: &str) -> (r: Result<(), FreeMobileError>)
        ensures
            is_blank(message@) ==> (r matches Err(e) && e is EmptyMessage),
            !is_blank(message@) && graphemes_of(message@).len() > MAX_INPUT_LENGTH ==> (r matches
                Err(e) && e matches FreeMobileError::InvalidMessage(m) && m@
                == "Message too long (maximum 5000 characters)"@),
            !is_blank(message@) && graphemes_of(message@).len() <= MAX_INPUT_LENGTH ==> r is Ok,
    {
        if blank(message) {
            return Err(FreeMobileError::EmptyMessage);
        }
        let gs = split_graphemes(message);
        if gs.len() > MAX_INPUT_LENGTH {
            return Err(
                FreeMobileError::InvalidMessage(
                    String::from_str("Message too long (maximum 5000 characters)"),
                ),
            );
        }
        Ok(())
    }

    /// The text a preview shows: the message itself when it is within the
    /// preview length, and its first `MESSAGE_PREVIEW_LENGTH` grapheme
    /// clusters when it is longer.
    pub fn preview_text(message: &str) -> (r: String)
        ensures
            graphemes_of(message@).len() <= MESSAGE_PREVIEW_LENGTH ==> r@ == message@,
            graphemes_of(message@).len() > MESSAGE_PREVIEW_LENGTH ==> r@ == graphemes_of(
                message@,
            ).take(MESSAGE_PREVIEW_LENGTH as int).flatten(),
    {
        let gs = split_graphemes(message);
        if gs.len() <= MESSAGE_PREVIEW_LENGTH {
            proof {
                assert(gs.deep_view().subrange(0, gs@.len() as int) =~= gs.deep_view());
            }
            join_range(&gs, 0, gs.len())
        } else {
            proof {
                assert(gs.deep_view().subrange(0, MESSAGE_PREVIEW_LENGTH as int)
                    =~= gs.deep_view().take(MESSAGE_PREVIEW_LENGTH as int));
            }
            join_range(&gs, 0, MESSAGE_PREVIEW_LENGTH)
        }
    }
}

} // verus!
