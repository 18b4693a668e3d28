//! Text-preparation pipeline for the FreeMobile SMS transport: emoji
//! classification and sanitization, grapheme-aware chunking with a preference
//! for word boundaries, and chunk labeling, together with the credential and
//! input validation that surrounds them.

pub mod chunker;
pub mod client;
pub mod config;
pub mod constants;
pub mod error;
pub mod graphemes;
pub mod input;
pub mod sanitizer;
pub mod segments;
pub mod symbols;
pub mod text;

pub use chunker::MessageChunker;
pub use client::{mask_user_id, Credentials, FreeMobileClient};
pub use config::Config;
pub use error::FreeMobileError;
pub use input::InputHandler;
pub use sanitizer::MessageSanitizer;
