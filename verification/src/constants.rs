//! Configuration surface of the pipeline: message limits, label margin,
//! pacing, and the transport's status codes.

use vstd::prelude::*;

verus! {

/// Absolute transport limit on one message, in grapheme clusters.
pub const MAX_MESSAGE_LENGTH: usize = 999;

/// Grapheme clusters reserved for a positional label such as `"[12/34] "`.
pub const PREFIX_RESERVE_LENGTH: usize = 8;

/// Timeout for one transport request, in seconds.
pub const REQUEST_TIMEOUT_SECS: u64 = 30;

/// Pause between two consecutive chunk sends, in milliseconds.
pub const CHUNK_DELAY_MS: u64 = 500;

/// Status code the transport answers when the credentials are rejected.
pub const STATUS_INVALID_CREDENTIALS: u16 = 400;

/// Status code the transport answers when the rate limit is exceeded.
pub const STATUS_TOO_MANY_REQUESTS: u16 = 402;

/// Status code the transport answers when access is denied.
pub const STATUS_ACCESS_DENIED: u16 = 403;

/// Status code the transport answers on an internal server error.
pub const STATUS_SERVER_ERROR: u16 = 500;

/// A word boundary within the first `1/MIN_BOUNDARY_RATIO` of a scanned span
/// is rejected as a split point.
pub const MIN_BOUNDARY_RATIO: usize = 3;

/// Application-level ceiling on the raw input, in grapheme clusters; larger
/// than the per-chunk transport limit and checked before chunking.
pub const MAX_INPUT_LENGTH: usize = 5000;

/// Grapheme clusters shown when a message is previewed.
pub const MESSAGE_PREVIEW_LENGTH: usize = 100;

} // verus!
