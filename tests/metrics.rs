use wc_metrics::metrics::{
    analyze_file, count_bytes, count_chars, count_lines, count_words, is_word_delimiter,
    FileResult, MetricError,
};

fn all(size: u64, content: &[u8]) -> FileResult {
    analyze_file(size, content, true, true, true, true).expect("analysis failed")
}

#[test]
fn empty_file_counts_nothing() {
    let r = all(0, b"");
    assert_eq!(r, FileResult { lines: 0, bytes: 0, words: 0, chars: 0 });
}

#[test]
fn two_words_and_a_newline() {
    let r = all(4, b"a b\n");
    assert_eq!(r, FileResult { lines: 1, bytes: 4, words: 2, chars: 4 });
}

#[test]
fn last_line_without_newline_counts() {
    let r = all(5, b"hello");
    assert_eq!(r, FileResult { lines: 1, bytes: 5, words: 1, chars: 5 });
}

#[test]
fn lines_are_terminators_plus_unterminated_tail() {
    assert_eq!(count_lines(b"one\ntwo\nthree"), 3);
    assert_eq!(count_lines(b"one\ntwo\n"), 2);
    assert_eq!(count_lines(b"\n\n\n"), 3);
    assert_eq!(count_lines(b"\n\nx"), 3);
    assert_eq!(count_lines(b"x"), 1);
}

#[test]
fn crlf_lines_count_once() {
    assert_eq!(count_lines(b"a\r\nb\r\n"), 2);
}

#[test]
fn words_split_on_the_four_delimiters() {
    assert_eq!(count_words(b"a\tb\rc\nd e"), 5);
    assert_eq!(count_words(b"  \t\r\n  "), 0);
    assert_eq!(count_words(b"   leading and trailing   "), 3);
    assert_eq!(count_words(b"last word open at the end"), 6);
}

#[test]
fn other_whitespace_does_not_split_words() {
    // form feed and vertical tab are not delimiters
    assert_eq!(count_words(b"a\x0cb\x0bc"), 1);
    assert!(!is_word_delimiter(0x0c));
    assert!(is_word_delimiter(b' '));
    assert!(is_word_delimiter(b'\t'));
    assert!(is_word_delimiter(b'\r'));
    assert!(is_word_delimiter(b'\n'));
    assert!(!is_word_delimiter(b'x'));
}

#[test]
fn trailing_delimiter_keeps_word_count() {
    for d in [b' ', b'\t', b'\r', b'\n'] {
        let mut s = b"alpha beta".to_vec();
        let before = count_words(&s);
        s.push(d);
        assert_eq!(count_words(&s), before);
    }
}

#[test]
fn appended_token_adds_one_word() {
    let mut s = b"alpha beta ".to_vec();
    let before = count_words(&s);
    s.extend_from_slice(b"gamma");
    assert_eq!(count_words(&s), before + 1);
    assert_eq!(count_words(b"") + 1, count_words(b"tok"));
}

#[test]
fn chars_count_scalar_values() {
    // "é" is two bytes, "€" three, "𝄞" four
    let text = "é€𝄞a";
    assert_eq!(text.len(), 10);
    assert_eq!(count_chars(text.as_bytes()), Ok(4));
}

#[test]
fn chars_not_more_than_bytes_equal_for_ascii() {
    let ascii = b"plain ascii text\n";
    assert_eq!(count_chars(ascii), Ok(ascii.len()));
    let mixed = "naïve café".as_bytes();
    let chars = count_chars(mixed).unwrap();
    assert!(chars < mixed.len());
    assert_eq!(chars, 10);
}

#[test]
fn invalid_utf8_is_refused_for_chars() {
    assert_eq!(count_chars(&[0x61, 0xff, 0x62]), Err(MetricError::InvalidUtf8));
    // an encoded surrogate and an overlong encoding are not well-formed
    assert_eq!(count_chars(&[0xed, 0xa0, 0x80]), Err(MetricError::InvalidUtf8));
    assert_eq!(count_chars(&[0xc0, 0xaf]), Err(MetricError::InvalidUtf8));
    // a sequence cut short at the end
    assert_eq!(count_chars(&[0xe2, 0x82]), Err(MetricError::InvalidUtf8));
}

#[test]
fn invalid_utf8_only_matters_when_chars_are_enabled() {
    let content = [0x61, 0x20, 0xff, 0x0a];
    let r = analyze_file(4, &content, true, true, false, true).unwrap();
    assert_eq!(r, FileResult { lines: 1, bytes: 4, words: 2, chars: 0 });
    assert_eq!(
        analyze_file(4, &content, false, false, true, false),
        Err(MetricError::InvalidUtf8)
    );
}

#[test]
fn bytes_come_from_the_given_size() {
    assert_eq!(count_bytes(449), Ok(449));
    assert_eq!(count_bytes(0), Ok(0));
    let r = analyze_file(125, b"", false, true, false, false).unwrap();
    assert_eq!(r, FileResult { lines: 0, bytes: 125, words: 0, chars: 0 });
}

#[test]
fn bytes_equal_content_length() {
    let content = b"some content\nover two lines";
    let r = all(content.len() as u64, content);
    assert_eq!(r.bytes, content.len());
}

#[test]
fn size_beyond_usize_is_an_error() {
    if (usize::MAX as u128) < (u64::MAX as u128) {
        assert_eq!(count_bytes(u64::MAX), Err(MetricError::SizeOverflow));
    } else {
        assert_eq!(count_bytes(u64::MAX), Ok(u64::MAX as usize));
    }
}

#[test]
fn disabled_counts_stay_zero() {
    let r = analyze_file(7, b"a b c\n\n", true, false, false, false).unwrap();
    assert_eq!(r, FileResult { lines: 2, bytes: 0, words: 0, chars: 0 });
    let r = analyze_file(7, b"a b c\n\n", false, false, false, true).unwrap();
    assert_eq!(r, FileResult { lines: 0, bytes: 0, words: 3, chars: 0 });
}
