use voice_dictator::stt::{deduplicate_overlap_texts, find_text_overlap, SttError};

#[test]
fn deduplicate_should_return_empty_for_no_texts() {
    assert_eq!(deduplicate_overlap_texts(&[]), "");
}

#[test]
fn deduplicate_should_return_single_text_as_is() {
    let texts = vec!["hello world".to_string()];
    assert_eq!(deduplicate_overlap_texts(&texts), "hello world");
}

#[test]
fn deduplicate_should_concatenate_without_overlap() {
    let texts = vec!["hello world".to_string(), "foo bar".to_string()];
    assert_eq!(deduplicate_overlap_texts(&texts), "hello world foo bar");
}

#[test]
fn deduplicate_should_remove_overlapping_words() {
    // Given
    let texts = vec![
        "the quick brown fox".to_string(),
        "brown fox jumps over".to_string(),
    ];

    // When / Then
    assert_eq!(
        deduplicate_overlap_texts(&texts),
        "the quick brown fox jumps over"
    );
}

#[test]
fn deduplicate_should_be_case_insensitive() {
    let texts = vec!["Hello World".to_string(), "hello world again".to_string()];
    assert_eq!(deduplicate_overlap_texts(&texts), "Hello World again");
}

#[test]
fn deduplicate_should_handle_three_chunks() {
    let texts = vec![
        "aaa bbb ccc ddd".to_string(),
        "ccc ddd eee fff".to_string(),
        "eee fff ggg hhh".to_string(),
    ];
    assert_eq!(
        deduplicate_overlap_texts(&texts),
        "aaa bbb ccc ddd eee fff ggg hhh"
    );
}

#[test]
fn find_overlap_should_return_zero_for_no_overlap() {
    assert_eq!(find_text_overlap("hello world", "foo bar"), 0);
}

#[test]
fn find_overlap_should_detect_two_word_overlap() {
    assert_eq!(find_text_overlap("a b c d", "c d e f"), 2);
}

#[test]
fn find_overlap_should_detect_three_word_overlap() {
    assert_eq!(find_text_overlap("a b c d e", "c d e f g"), 3);
}

#[test]
fn find_overlap_should_not_detect_single_word() {
    assert_eq!(find_text_overlap("hello world", "world foo"), 0);
}

#[test]
fn find_overlap_should_prefer_longer_match() {
    assert_eq!(find_text_overlap("x a b c", "a b c y"), 3);
}

#[test]
fn stt_error_should_display_correctly() {
    assert_eq!(
        SttError::AuthFailed.to_string(),
        "authentication failed: check API key"
    );
    assert_eq!(SttError::Timeout.to_string(), "request timeout");
    assert_eq!(
        SttError::Network("conn refused".into()).to_string(),
        "network error: conn refused"
    );
    assert_eq!(
        SttError::RateLimited {
            retry_after_sec: 10
        }
        .to_string(),
        "rate limited, retry after 10s"
    );
    assert_eq!(
        SttError::ApiError {
            status: 500,
            message: "internal".into()
        }
        .to_string(),
        "API error (500): internal"
    );
}

