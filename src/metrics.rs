//! The four counters and the analysis of one file.
//!
//! Lines and words are counted on bytes, so they never depend on the
//! encoding. Characters are counted strictly: content that is not well-formed
//! UTF-8 is refused with [`MetricError::InvalidUtf8`], never decoded with
//! replacement characters.
use vstd::prelude::*;
use vstd::string::*;
use vstd::utf8::*;

verus! {

/// The byte that ends a line.
pub const LINE_FEED: u8 = 0x0a;

/// True when position `i` of `s` starts a line: it is the first byte, or the
/// byte after a line feed.
pub open spec fn starts_line(s: Seq<u8>, i: int) -> bool {
    0 <= i < s.len() && (i == 0 || s[i - 1] == LINE_FEED)
}

/// The number of lines a line reader yields on `s`: one for each position
/// that starts a line, so a last line without a line feed still counts.
pub open spec fn line_count(s: Seq<u8>) -> nat
    decreases s.len(),
{
    if s.len() == 0 {
        0
    } else {
        line_count(s.drop_last()) + if starts_line(s, s.len() - 1) {
            1nat
        } else {
            0nat
        }
    }
}

proof fn lemma_line_count_step(s: Seq<u8>, i: int)
    requires
        0 <= i < s.len(),
    ensures
        line_count(s.subrange(0, i + 1)) == line_count(s.subrange(0, i)) + if starts_line(s, i) {
            1nat
        } else {
            0nat
        },
{
    let p = s.subrange(0, i + 1);
    assert(p.drop_last() =~= s.subrange(0, i));
}

/// Counts the lines of `content` as a line reader would.
pub fn count_lines(content: &[u8]) -> (r: usize)
    ensures
        r == line_count(content@),
{
    let mut count: usize = 0;
    let mut i: usize = 0;
    while i < content.len()
        invariant
            i <= content@.len(),
            count <= i,
            count == line_count(content@.subrange(0, i as int)),
        decreases content@.len() - i,
    {
        proof {
            lemma_line_count_step(content@, i as int);
        }
        if i == 0 || content[i - 1] == LINE_FEED {
            count = count + 1;
        }
        i = i + 1;
    }
    assert(content@.subrange(0, i as int) =~= content@);
    count
}

/// True for the bytes that separate words: space, tab, carriage return and
/// line feed.
pub open spec fn is_delimiter(b: u8) -> bool {
    b == 0x20 || b == 0x09 || b == 0x0d || b == 0x0a
}

/// True when position `i` of `s` starts a word: a byte that is no delimiter,
/// at the start or after a delimiter.
pub open spec fn starts_word(s: Seq<u8>, i: int) -> bool {
    0 <= i < s.len() && !is_delimiter(s[i]) && (i == 0 || is_delimiter(s[i - 1]))
}

/// The number of maximal runs of non-delimiter bytes in `s`, counted at the
/// position where each run starts.
pub open spec fn word_count(s: Seq<u8>) -> nat
    decreases s.len(),
{
    if s.len() == 0 {
        0
    } else {
        word_count(s.drop_last()) + if starts_word(s, s.len() - 1) {
            1nat
        } else {
            0nat
        }
    }
}

proof fn lemma_word_count_step(s: Seq<u8>, i: int)
    requires
        0 <= i < s.len(),
    ensures
        word_count(s.subrange(0, i + 1)) == word_count(s.subrange(0, i)) + if starts_word(s, i) {
            1nat
        } else {
            0nat
        },
{
    let p = s.subrange(0, i + 1);
    assert(p.drop_last() =~= s.subrange(0, i));
}

/// Tells whether `b` separates words.
pub fn is_word_delimiter(b: u8) -> (r: bool)
    ensures
        r == is_delimiter(b),
{
    b == 0x20 || b == 0x09 || b == 0x0d || b == 0x0a
}

/// Counts the words of `content`: the maximal runs of bytes that are not
/// delimiters, including a run still open at the end.
pub fn count_words(content: &[u8]) -> (r: usize)
    ensures
        r == word_count(content@),
{
    let mut count: usize = 0;
    let mut i: usize = 0;
    while i < content.len()
        invariant
            i <= content@.len(),
            count <= i,
            count == word_count(content@.subrange(0, i as int)),
        decreases content@.len() - i,
    {
        proof {
            lemma_word_count_step(content@, i as int);
        }
        if !is_word_delimiter(content[i]) && (i == 0 || is_word_delimiter(content[i - 1])) {
            count = count + 1;
        }
        i = i + 1;
    }
    assert(content@.subrange(0, i as int) =~= content@);
    count
}

/// Why a file could not be analysed.
#[derive(Clone, Copy, Debug, PartialEq, Eq, Structural)]
pub enum MetricError {
    /// The file's size does not fit in `usize`.
    SizeOverflow,
    /// Characters were asked for and the content is not well-formed UTF-8.
    InvalidUtf8,
    /// Adding a file's counts would take a running total past `usize::MAX`.
    TotalsOverflow,
}

/// Relies on std::str::from_utf8: it succeeds exactly when the bytes are
/// well-formed UTF-8, and the string it returns is made of those bytes.
#[verifier::external_body]
fn utf8_text(b: &[u8]) -> (r: Option<&str>)
    ensures
        r.is_some() == valid_utf8(b@),
        r matches Some(t) ==> t.spec_bytes() == b@,
{
    std::str::from_utf8(b).ok()
}

/// Counts the characters (Unicode scalar values) that `content` decodes to.
/// Content that is not well-formed UTF-8 is refused.
pub fn count_chars(content: &[u8]) -> (r: Result<usize, MetricError>)
    ensures
        valid_utf8(content@) ==> r == Ok::<usize, MetricError>(decode_utf8(content@).len() as usize),
        !valid_utf8(content@) ==> r == Err::<usize, MetricError>(MetricError::InvalidUtf8),
{
    match utf8_text(content) {
        Some(text) => {
            proof {
                encode_utf8_decode_utf8(text@);
            }
            Ok(text.unicode_len())
        },
        None => Err(MetricError::InvalidUtf8),
    }
}

/// The byte count of a file whose size the file system gives as `size`.
pub fn count_bytes(size: u64) -> (r: Result<usize, MetricError>)
    ensures
        size <= usize::MAX ==> r == Ok::<usize, MetricError>(size as usize),
        size > usize::MAX ==> r == Err::<usize, MetricError>(MetricError::SizeOverflow),
{
    if size <= usize::MAX as u64 {
        Ok(size as usize)
    } else {
        Err(MetricError::SizeOverflow)
    }
}

/// The counts of one file. A count that was not asked for stays zero.
#[derive(Clone, Copy, Debug, PartialEq, Eq, Structural)]
pub struct FileResult {
    pub lines: usize,
    pub bytes: usize,
    pub words: usize,
    pub chars: usize,
}

/// What analysing a file of size `size` and content `content` gives, for the
/// counts that are enabled. The size is checked before the content decodes.
pub open spec fn analysis(
    size: u64,
    content: Seq<u8>,
    lines_enabled: bool,
    bytes_enabled: bool,
    chars_enabled: bool,
    words_enabled: bool,
) -> Result<FileResult, MetricError> {
    if bytes_enabled && size > usize::MAX {
        Err(MetricError::SizeOverflow)
    } else if chars_enabled && !valid_utf8(content) {
        Err(MetricError::InvalidUtf8)
    } else {
        Ok(
            FileResult {
                lines: if lines_enabled {
                    line_count(content) as usize
                } else {
                    0
                },
                bytes: if bytes_enabled {
                    size as usize
                } else {
                    0
                },
                words: if words_enabled {
                    word_count(content) as usize
                } else {
                    0
                },
                chars: if chars_enabled {
                    decode_utf8(content).len() as usize
                } else {
                    0
                },
            },
        )
    }
}

/// Computes the enabled counts of one file from its size, as the file system
/// reports it, and its content. Only the line, character and word counts look
/// at `content`: when none of them is enabled it may be left empty.
pub fn analyze_file(
    size: u64,
    content: &[u8],
    lines_enabled: bool,
    bytes_enabled: bool,
    chars_enabled: bool,
    words_enabled: bool,
) -> (r: Result<FileResult, MetricError>)
    ensures
        r == analysis(size, content@, lines_enabled, bytes_enabled, chars_enabled, words_enabled),
{
    let mut file_result = FileResult { lines: 0, bytes: 0, words: 0, chars: 0 };
    if lines_enabled {
        file_result.lines = count_lines(content);
    }
    if bytes_enabled {
        match count_bytes(size) {
            Ok(count) => {
                file_result.bytes = count;
            },
            Err(e) => {
                return Err(e);
            },
        }
    }
    if chars_enabled {
        match count_chars(content) {
            Ok(count) => {
                file_result.chars = count;
            },
            Err(e) => {
                return Err(e);
            },
        }
    }
    if words_enabled {
        file_result.words = count_words(content);
    }
    Ok(file_result)
}

/// The number of line feeds in `s`.
pub open spec fn newline_count(s: Seq<u8>) -> nat
    decreases s.len(),
{
    if s.len() == 0 {
        0
    } else {
        newline_count(s.drop_last()) + if s.last() == LINE_FEED {
            1nat
        } else {
            0nat
        }
    }
}

/// The line count is the number of line feeds, plus one when the content is
/// not empty and does not end in a line feed.
pub proof fn lemma_lines_are_terminators_and_tail(s: Seq<u8>)
    ensures
        line_count(s) == newline_count(s) + if s.len() > 0 && s.last() != LINE_FEED {
            1nat
        } else {
            0nat
        },
    decreases s.len(),
{
    if s.len() > 0 {
        let d = s.drop_last();
        lemma_lines_are_terminators_and_tail(d);
        if s.len() > 1 {
            assert(d.last() == s[s.len() - 2]);
        }
    }
}

/// Appending one delimiter byte leaves the word count as it was.
pub proof fn lemma_words_trailing_delimiter(s: Seq<u8>, d: u8)
    requires
        is_delimiter(d),
    ensures
        word_count(s.push(d)) == word_count(s),
{
    assert(s.push(d).drop_last() =~= s);
}

/// Appending a token of non-delimiter bytes to content that is empty or ends
/// in a delimiter adds exactly one word.
pub proof fn lemma_words_appended_token(s: Seq<u8>, t: Seq<u8>)
    requires
        t.len() > 0,
        forall|i: int| 0 <= i < t.len() ==> !is_delimiter(#[trigger] t[i]),
        s.len() == 0 || is_delimiter(s.last()),
    ensures
        word_count(s + t) == word_count(s) + 1,
    decreases t.len(),
{
    let st = s + t;
    if t.len() == 1 {
        assert(st.drop_last() =~= s);
    } else {
        let u = t.drop_last();
        lemma_words_appended_token(s, u);
        assert(st.drop_last() =~= s + u);
        assert(st[st.len() - 2] == t[t.len() - 2]);
    }
}

/// True when every byte of `s` is an ASCII byte.
pub open spec fn is_ascii_bytes(s: Seq<u8>) -> bool {
    forall|i: int| 0 <= i < s.len() ==> #[trigger] s[i] <= 0x7f
}

/// Well-formed UTF-8 content never has more characters than bytes, and has
/// as many exactly when it is pure ASCII.
pub proof fn lemma_chars_at_most_bytes(s: Seq<u8>)
    requires
        valid_utf8(s),
    ensures
        decode_utf8(s).len() <= s.len(),
        decode_utf8(s).len() == s.len() <==> is_ascii_bytes(s),
    decreases s.len(),
{
    if s.len() > 0 {
        let k = length_of_first_scalar(s);
        let rest = pop_first_scalar(s);
        assert(1 <= k <= s.len());
        assert(rest.len() == s.len() - k);
        lemma_chars_at_most_bytes(rest);
        assert(decode_utf8(s).len() == 1 + decode_utf8(rest).len());
        if k == 1 {
            assert(is_ascii_bytes(s) <==> is_ascii_bytes(rest)) by {
                if is_ascii_bytes(rest) {
                    assert forall|i: int| 0 <= i < s.len() implies #[trigger] s[i] <= 0x7f by {
                        if i > 0 {
                            assert(s[i] == rest[i - 1]);
                        }
                    }
                }
                if is_ascii_bytes(s) {
                    assert forall|i: int| 0 <= i < rest.len() implies #[trigger] rest[i] <= 0x7f by {
                        assert(s[i + 1] == rest[i]);
                    }
                }
            }
        } else {
            assert(s[0] > 0x7f);
        }
    }
}

} // verus!
