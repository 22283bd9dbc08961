use std::sync::Arc;
use tsc::error::TscError;
use tsc::lsp::{Position, Range};
use tsc::span::TextSpan;
use tsc::strings::{replace, split_first, to_decimal, trim};
use tsc::text::LineIndex;

fn at(line: u32, character: u32) -> Position {
    Position { line, character }
}

#[test]
fn positions_of_offsets() {
    let index = LineIndex::new("hello\nworld\n");
    assert_eq!(index.position_tsc(0), at(0, 0));
    assert_eq!(index.position_tsc(5), at(0, 5));
    assert_eq!(index.position_tsc(6), at(1, 0));
    assert_eq!(index.position_tsc(11), at(1, 5));
    assert_eq!(index.position_tsc(12), at(2, 0));
}

#[test]
fn offsets_count_utf16_code_units() {
    let index = LineIndex::new("a\u{1f995}b\nc");
    assert_eq!(index.position_tsc(3), at(0, 3));
    assert_eq!(index.position_tsc(5), at(1, 0));
    assert_eq!(index.offset_tsc(at(1, 0)).unwrap(), 5);
    assert_eq!(index.offset(at(0, 3)).unwrap(), 5);
    assert_eq!(index.offset(at(1, 1)).unwrap(), 8);
}

#[test]
fn positions_outside_are_errors() {
    let index = LineIndex::new("a\nb");
    assert_eq!(index.offset_tsc(at(2, 0)), Err(TscError::OutOfRange));
    assert_eq!(index.offset(at(7, 0)), Err(TscError::OutOfRange));
}

#[test]
fn offsets_and_positions_lead_back() {
    let index = LineIndex::new("one\n\ntwo\n\u{1f995}three");
    for offset in 0..16 {
        assert_eq!(index.offset_tsc(index.position_tsc(offset)).unwrap(), offset);
    }
    assert_eq!(index.position_tsc(index.offset_tsc(at(2, 2)).unwrap()), at(2, 2));
}

#[test]
fn spans_and_ranges_lead_back() {
    let index = Arc::new(LineIndex::new("one\ntwo\nthree"));
    let span = TextSpan { start: 2, length: 7 };
    let range = span.to_range(index.clone());
    assert_eq!(range, Range { start: at(0, 2), end: at(2, 1) });
    assert_eq!(TextSpan::from_range(&range, index.clone()), Ok(span));
    let outside = Range { start: at(0, 0), end: at(3, 0) };
    assert_eq!(TextSpan::from_range(&outside, index), Err(TscError::OutOfRange));
}

#[test]
fn texts_are_replaced_from_the_left() {
    assert_eq!(replace("aaa", "aa", "b"), "ba");
    assert_eq!(replace("a.d.ts.d.ts", ".d.ts.d.ts", ".d.ts"), "a.d.ts");
    assert_eq!(replace("ab", "", "-"), "ab".replace("", "-"));
    assert_eq!(replace("ab", "c", "-"), "ab");
}

#[test]
fn texts_are_trimmed_and_split() {
    assert_eq!(trim(" \u{3000}\ta b\u{85}\n"), "a b");
    assert_eq!(trim(" \n "), "");
    assert_eq!(split_first("a b c", ' '), ("a".to_string(), Some("b c".to_string())));
    assert_eq!(split_first("abc", ' '), ("abc".to_string(), None));
    assert_eq!(to_decimal(0), "0");
    assert_eq!(to_decimal(u64::MAX), u64::MAX.to_string());
}
