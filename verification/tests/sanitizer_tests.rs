use freemobile_api::symbols::is_supported_emoji;
use freemobile_api::MessageSanitizer;

#[test]
fn test_supported_emojis_preserved() {
    assert_eq!(MessageSanitizer::sanitize("⚡"), "⚡");
    assert_eq!(MessageSanitizer::sanitize("✅"), "✅");
    assert_eq!(MessageSanitizer::sanitize("❌"), "❌");
}

#[test]
fn test_unsupported_emojis_replaced() {
    assert_eq!(MessageSanitizer::sanitize("😀"), "[]");
    assert_eq!(MessageSanitizer::sanitize("🚀"), "[]");
    assert_eq!(MessageSanitizer::sanitize("📱"), "[]");
}

#[test]
fn test_variation_selectors() {
    assert_eq!(MessageSanitizer::sanitize("⚡️"), "⚡️");
    assert_eq!(MessageSanitizer::sanitize("✔️"), "✔️");
}

#[test]
fn test_mixed_content() {
    let input = "Test: ✅ supported 😀 unsupported ⚡ supported";
    let expected = "Test: ✅ supported [] unsupported ⚡ supported";
    assert_eq!(MessageSanitizer::sanitize(input), expected);
}

#[test]
fn test_accents_preserved() {
    let input = "Café résumé naïf";
    assert_eq!(MessageSanitizer::sanitize(input), input);
}

#[test]
fn test_no_emojis() {
    let input = "Simple text message";
    assert_eq!(MessageSanitizer::sanitize(input), input);
}

#[test]
fn test_sanitize_idempotent_concrete() {
    let inputs = [
        "Test: ✅ supported 😀 unsupported ⚡ supported",
        "plain text",
        "🚀🚀🚀",
        "⚡️ and 😀 and é",
        "",
    ];
    for input in inputs {
        let once = MessageSanitizer::sanitize(input);
        let twice = MessageSanitizer::sanitize(&once);
        assert_eq!(twice, once);
    }
}

#[test]
fn test_supported_cluster_query() {
    assert!(is_supported_emoji("✅"));
    assert!(is_supported_emoji("⚡"));
    assert!(is_supported_emoji("⚡️"));
    assert!(is_supported_emoji("✔️"));
    assert!(!is_supported_emoji("😀"));
    assert!(!is_supported_emoji("🚀"));
    assert!(!is_supported_emoji("plain"));
}
