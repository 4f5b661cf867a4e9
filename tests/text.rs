use mentascribe::session::count_words;
use mentascribe::text::{capitalize_sentences, process_text};

#[test]
fn test_capitalize_sentences() {
    assert_eq!(capitalize_sentences("hello world"), "Hello world");
    assert_eq!(
        capitalize_sentences("hello. how are you"),
        "Hello. How are you"
    );
    assert_eq!(
        capitalize_sentences("hello! what's up? not much"),
        "Hello! What's up? Not much"
    );
}

#[test]
fn test_process_text_disabled() {
    assert_eq!(process_text("hello world", false), "hello world");
}

#[test]
fn test_process_text_enabled() {
    assert_eq!(process_text("hello world", true), "Hello world");
}

#[test]
fn capitalize_skips_digits_after_punctuation() {
    assert_eq!(capitalize_sentences("v2.5 is out. ok"), "V2.5 is out. Ok");
    assert_eq!(capitalize_sentences(""), "");
    assert_eq!(capitalize_sentences("école. été"), "École. Été");
}

#[test]
fn words_are_counted_between_white_space() {
    assert_eq!(count_words("  hello   world "), 2);
    assert_eq!(count_words(""), 0);
    assert_eq!(count_words("one\ttwo\nthree"), 3);
}
