use freemobile_api::constants::{MAX_MESSAGE_LENGTH, PREFIX_RESERVE_LENGTH};
use freemobile_api::MessageChunker;
use unicode_segmentation::UnicodeSegmentation;

#[test]
fn test_short_message_no_chunking() {
    let message = "Hello world!";
    let chunks = MessageChunker::chunk(message);
    assert_eq!(chunks.len(), 1);
    assert_eq!(chunks[0], message);
}

#[test]
fn test_long_message_chunking() {
    let message = "a".repeat(1500);
    let chunks = MessageChunker::chunk(&message);
    assert!(chunks.len() > 1);

    // Raw chunks fit within the effective limit
    let effective_limit = MAX_MESSAGE_LENGTH - PREFIX_RESERVE_LENGTH;
    assert!(
        chunks
            .iter()
            .all(|chunk| chunk.graphemes(true).count() <= effective_limit)
    );

    // Formatted chunks fit within the API limit
    let formatted = MessageChunker::format_chunks(&chunks);
    assert!(
        formatted
            .iter()
            .all(|chunk| chunk.graphemes(true).count() <= MAX_MESSAGE_LENGTH)
    );
}

#[test]
fn test_unicode_awareness() {
    let message = "🌟".repeat(500) + &"⭐".repeat(600);
    let chunks = MessageChunker::chunk(&message);
    assert!(chunks.len() > 1);

    let formatted = MessageChunker::format_chunks(&chunks);
    assert!(
        formatted
            .iter()
            .all(|chunk| chunk.graphemes(true).count() <= MAX_MESSAGE_LENGTH)
    );
}

#[test]
fn test_format_single_chunk() {
    let chunks = vec!["Single message".to_string()];
    let formatted = MessageChunker::format_chunks(&chunks);
    assert_eq!(formatted.len(), 1);
    assert_eq!(formatted[0], "Single message");
}

#[test]
fn test_format_multiple_chunks() {
    let chunks = vec!["First chunk".to_string(), "Second chunk".to_string()];
    let formatted = MessageChunker::format_chunks(&chunks);
    assert_eq!(formatted.len(), 2);
    assert_eq!(formatted[0], "[1/2] First chunk");
    assert_eq!(formatted[1], "[2/2] Second chunk");
}

#[test]
fn test_empty_chunk_handling() {
    let message = "   \n\n   ";
    let chunks = MessageChunker::chunk(message);
    assert_eq!(chunks.len(), 0);
}

#[test]
fn test_whitespace_trimming() {
    let message = "a".repeat(500) + "   \n\n   " + &"b".repeat(600);
    let chunks = MessageChunker::chunk(&message);
    assert!(
        chunks
            .iter()
            .all(|chunk| !chunk.starts_with(' ') && !chunk.ends_with(' '))
    );
}

#[test]
fn test_real_world_long_message() {
    let message = "lorem ipsum ".repeat(100);
    let chunks = MessageChunker::chunk(&message);

    assert!(chunks.len() > 1);

    let formatted = MessageChunker::format_chunks(&chunks);
    assert!(
        formatted
            .iter()
            .all(|chunk| chunk.graphemes(true).count() <= MAX_MESSAGE_LENGTH),
        "Formatted chunk exceeds API limit: {:?}",
        formatted.iter().map(|c| c.len()).collect::<Vec<_>>()
    );
}

#[test]
fn test_word_boundary_respect() {
    let words = vec![
        "hello",
        "world",
        "testing",
        "message",
        "chunking",
        "functionality",
    ];
    let repeated_sentence = format!("{} ", words.join(" "));
    let message = repeated_sentence.repeat(20);
    let chunks = MessageChunker::chunk(&message);

    assert!(chunks.len() > 1);

    for chunk in &chunks {
        if chunk.trim().is_empty() {
            continue;
        }

        let chunk_words: Vec<&str> = chunk.split_whitespace().collect();
        assert!(
            !chunk_words.is_empty(),
            "Chunk should not be empty: '{}'",
            chunk
        );

        let recognized_words = chunk_words
            .iter()
            .filter(|word| words.iter().any(|original| *word == original))
            .count();

        assert!(
            recognized_words as f64 / chunk_words.len() as f64 >= 0.8,
            "Too many unrecognized words in chunk '{}'. Words: {:?}",
            chunk,
            chunk_words
        );
    }
}

#[test]
fn test_very_long_single_word() {
    let very_long_word = "a".repeat(1000);
    let chunks = MessageChunker::chunk(&very_long_word);

    assert!(chunks.len() > 1);

    let formatted = MessageChunker::format_chunks(&chunks);
    assert!(
        formatted
            .iter()
            .all(|chunk| chunk.graphemes(true).count() <= MAX_MESSAGE_LENGTH)
    );
}

#[test]
fn test_long_example_file_content() {
    let content = "lorem ipsum dolor sit amet consectetur adipiscing elit sed do eiusmod tempor incididunt ut labore et dolore magna aliqua. Ut enim ad minim veniam quis nostrud exercitation ullamco laboris nisi ut aliquip ex ea commodo consequat. Duis aute irure dolor in reprehenderit in voluptate velit esse cillum dolore eu fugiat nulla pariatur. Excepteur sint occaecat cupidatat non proident sunt in culpa qui officia deserunt mollit anim id est laborum.\n\nlorem ipsum dolor sit amet consectetur adipiscing elit sed do eiusmod tempor incididunt ut labore et dolore magna aliqua. Ut enim ad minim veniam quis nostrud exercitation ullamco laboris nisi ut aliquip ex ea commodo consequat. Duis aute irure dolor in reprehenderit in voluptate velit esse cillum dolore eu fugiat nulla pariatur. Excepteur sint occaecat cupidatat non proident sunt in culpa qui officia deserunt mollit anim id est laborum.\n\nlorem ipsum dolor sit amet consectetur adipiscing elit sed do eiusmod tempor incididunt ut labore et dolore magna aliqua. Ut enim ad minim veniam quis nostrud exercitation ullamco laboris nisi ut aliquip ex ea commodo consequat. Duis aute irure dolor in reprehenderit in voluptate velit esse cillum dolore eu fugiat nulla pariatur. Excepteur sint occaecat cupidatat non proident sunt in culpa qui officia deserunt mollit anim id est laborum.\n";

    let chunks = MessageChunker::chunk(content);
    let formatted = MessageChunker::format_chunks(&chunks);

    assert_eq!(
        chunks.len(),
        2,
        "Expected exactly 2 chunks for 1328 chars, got {}: {:?}",
        chunks.len(),
        chunks.iter().map(|c| c.len()).collect::<Vec<_>>()
    );

    assert!(
        formatted
            .iter()
            .all(|chunk| chunk.graphemes(true).count() <= MAX_MESSAGE_LENGTH),
        "Formatted chunks exceed API limit: {:?}",
        formatted.iter().map(|c| c.len()).collect::<Vec<_>>()
    );

    for (i, chunk) in chunks.iter().enumerate() {
        let words: Vec<&str> = chunk.split_whitespace().collect();
        if let Some(last_word) = words.last() {
            let is_acceptable_boundary_word = last_word.len() <= 3
                && matches!(
                    *last_word,
                    "et" | "de" | "la" | "le" | "du" | "un" | "en" | "au" | "ou" | "si"
                );

            assert!(
                last_word.len() > 3
                    || is_acceptable_boundary_word
                    || last_word.chars().all(|c| c.is_ascii_punctuation()),
                "Chunk {} ends with unexpected short word: '{}' (full chunk ending: '{}')",
                i + 1,
                last_word,
                chunk
                    .chars()
                    .rev()
                    .take(30)
                    .collect::<String>()
                    .chars()
                    .rev()
                    .collect::<String>()
            );
        }
    }
}
