use redfolder::text::{join, join3, leading_word, same_text, signed_text, unsigned_text};

#[test]
fn numbers_are_written_in_decimal() {
    assert_eq!(unsigned_text(0), "0");
    assert_eq!(unsigned_text(u64::MAX), "18446744073709551615");
    assert_eq!(signed_text(-1), "-1");
    assert_eq!(signed_text(i64::MIN), "-9223372036854775808");
    assert_eq!(signed_text(1_234_567_890), "1234567890");
}

#[test]
fn texts_are_joined_and_compared() {
    assert_eq!(join("a", "bé"), "abé");
    assert_eq!(join3("a", "", "c"), "ac");
    assert!(same_text("é", "é") && !same_text("a", "A"));
    assert_eq!(leading_word("2026-06-05 All Day"), "2026-06-05");
    assert_eq!(leading_word("é\u{3000}x"), "é");
    assert_eq!(leading_word(" x"), "");
    assert_eq!(leading_word("word"), "word");
}
