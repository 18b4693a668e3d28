use freemobile_api::constants::MAX_MESSAGE_LENGTH;
use freemobile_api::MessageChunker;
use unicode_segmentation::UnicodeSegmentation;

#[test]
fn test_two_digit_labels() {
    // Enough text for more than nine chunks, so indices reach two digits
    let message = "word ".repeat(2200);
    let chunks = MessageChunker::chunk(&message);
    assert!(chunks.len() >= 10);
    assert!(chunks.len() <= 99);

    let formatted = MessageChunker::format_chunks(&chunks);
    assert_eq!(formatted[0], format!("[1/{}] {}", chunks.len(), chunks[0]));
    assert!(formatted[9].starts_with(&format!("[10/{}] ", chunks.len())));
    assert!(
        formatted
            .iter()
            .all(|chunk| chunk.graphemes(true).count() <= MAX_MESSAGE_LENGTH)
    );
}

#[test]
fn test_combining_mark_graphemes() {
    // Each "e" with a combining acute accent is two code points but one
    // grapheme cluster, so 1200 of them need two chunks, not more
    let message = "e\u{301}".repeat(1200);
    assert_eq!(message.chars().count(), 2400);
    let chunks = MessageChunker::chunk(&message);
    assert_eq!(chunks.len(), 2);
    assert!(
        chunks
            .iter()
            .all(|chunk| chunk.graphemes(true).count() <= MAX_MESSAGE_LENGTH - 8)
    );
}

#[test]
fn test_exact_limit_boundary() {
    // Exactly at the absolute limit: one chunk, unlabeled
    let message = "a".repeat(999);
    let chunks = MessageChunker::chunk(&message);
    assert_eq!(chunks.len(), 1);
    assert_eq!(chunks[0], message);
    let formatted = MessageChunker::format_chunks(&chunks);
    assert_eq!(formatted, chunks);

    // One over the limit: the hard split makes two chunks
    let message = "a".repeat(1000);
    let chunks = MessageChunker::chunk(&message);
    assert_eq!(chunks.len(), 2);
    assert_eq!(chunks[0].len(), 991);
    assert_eq!(chunks[1].len(), 9);
}

#[test]
fn test_custom_limits_word_boundary() {
    // With a limit of 10 and a margin of 2 the effective limit is 8: the
    // scan of "hello wo" finds the boundary after "hello ", beyond a third
    // of the span, so every split lands on a space
    let chunks = MessageChunker::chunk_with_limits("hello world foo", 10, 2);
    assert_eq!(chunks, vec!["hello", "world", "foo"]);
}

#[test]
fn test_custom_limits_degenerate_floor() {
    // A margin equal to the limit leaves an effective limit of zero; the
    // safety floor still makes progress, one grapheme cluster per chunk
    let chunks = MessageChunker::chunk_with_limits("abc", 2, 2);
    assert_eq!(chunks, vec!["a", "b", "c"]);
}

#[test]
fn test_word_boundary_split_positions() {
    // 200 ten-character words with spaces: the first chunk splits at a
    // space, so it holds complete words and no boundary whitespace
    let message = "abcdefghi ".repeat(200);
    let chunks = MessageChunker::chunk(&message);
    assert!(chunks.len() > 1);
    assert_eq!(chunks[0].len() % 10, 9);
    for chunk in &chunks {
        assert!(!chunk.is_empty());
        assert!(chunk.split_whitespace().all(|w| w == "abcdefghi"));
    }
}
