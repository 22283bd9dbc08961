//! Spans of a text, as TypeScript counts them.

use std::sync::Arc;
use vstd::prelude::*;
use text_size::{TextRange, TextSize};
use crate::error::TscError;
use crate::lsp::Range;
use crate::text;
use crate::text::LineIndex;

verus! {

/// A span of a text, in UTF-16 code units.
#[derive(Debug, Clone, Copy, PartialEq, Eq, Structural)]
pub struct TextSpan {
    pub start: u32,
    pub length: u32,
}

/// The range of a span of the text with these lines.
pub open spec fn range_of(span: TextSpan, lines: Seq<text::LineView>) -> Range {
    Range {
        start: text::position_at(lines, span.start as nat),
        end: text::position_at(lines, (span.start + span.length) as nat),
    }
}

impl TextSpan {
    /// The span ends at an offset that can be counted.
    pub open spec fn fits(self) -> bool {
        self.start + self.length <= u32::MAX
    }

    /// A place lies on one of the lines, at an offset that can be counted.
    pub open spec fn countable(lines: Seq<text::LineView>, position: crate::lsp::Position) -> bool {
        position.line < lines.len() ==> text::utf16_offset(lines, position) <= u32::MAX
    }

    /// The span of a range; an error where one of its ends is on no line.
    pub fn from_range(range: &Range, line_index: Arc<LineIndex>) -> (r: Result<TextSpan, TscError>)
        requires
            TextSpan::countable(line_index@, range.start),
            TextSpan::countable(line_index@, range.end),
            range.start.line < line_index@.len() && range.end.line < line_index@.len()
                ==> text::utf16_offset(line_index@, range.start) <= text::utf16_offset(
                line_index@,
                range.end,
            ),
        ensures
            r is Ok == (range.start.line < line_index@.len() && range.end.line < line_index@.len()),
            r matches Ok(span) ==> {
                &&& span.start == text::utf16_offset(line_index@, range.start)
                &&& span.start + span.length == text::utf16_offset(line_index@, range.end)
            },
            r matches Err(err) ==> err == TscError::OutOfRange,
    {
        let start: u32 = match line_index.offset_tsc(range.start) {
            Ok(offset) => offset,
            Err(err) => return Err(err),
        };
        let end: u32 = match line_index.offset_tsc(range.end) {
            Ok(offset) => offset,
            Err(err) => return Err(err),
        };
        Ok(TextSpan { start, length: end - start })
    }

    /// The range of the span.
    pub fn to_range(&self, line_index: Arc<LineIndex>) -> (r: Range)
        requires
            self.fits(),
        ensures
            r == range_of(*self, line_index@),
            r.start.line < line_index@.len(),
            r.end.line < line_index@.len(),
    {
        Range {
            start: line_index.position_tsc(self.start),
            end: line_index.position_tsc(self.start + self.length),
        }
    }
}

/// Whether two spans meet.
pub open spec fn meets(a: TextSpan, b: TextSpan) -> bool {
    a.start <= b.start + b.length && b.start <= a.start + a.length
}

/// Whether a span holds another.
pub open spec fn holds(a: TextSpan, b: TextSpan) -> bool {
    a.start <= b.start && b.start + b.length <= a.start + a.length
}

/// Whether `text_size::TextRange::intersect` gives a range for two spans: it does where neither
/// begins after the end of the other, so also where they only touch.
#[verifier::external_body]
pub(crate) fn intersects(a: TextSpan, b: TextSpan) -> (r: bool)
    requires
        a.fits(),
        b.fits(),
    ensures
        r == meets(a, b),
{
    let a = TextRange::at(TextSize::from(a.start), TextSize::from(a.length));
    let b = TextRange::at(TextSize::from(b.start), TextSize::from(b.length));
    a.intersect(b).is_some()
}

/// Whether a span lies in another by `text_size::TextRange::contains_range`: it begins no earlier
/// and ends no later.
#[verifier::external_body]
pub(crate) fn contains_range(a: TextSpan, b: TextSpan) -> (r: bool)
    requires
        a.fits(),
        b.fits(),
    ensures
        r == holds(a, b),
{
    let a = TextRange::at(TextSize::from(a.start), TextSize::from(a.length));
    let b = TextRange::at(TextSize::from(b.start), TextSize::from(b.length));
    a.contains_range(b)
}

/// The line of an offset begins at or before it, and the next one after it.
proof fn lemma_line_at_bounds(lines: Seq<text::LineView>, offset: nat)
    requires
        text::in_order(lines),
    ensures
        0 <= text::line_at(lines, offset) < lines.len(),
        lines[text::line_at(lines, offset)].utf16_start <= offset,
        text::line_at(lines, offset) + 1 < lines.len() ==> lines[text::line_at(lines, offset)
            + 1].utf16_start > offset,
    decreases lines.len(),
{
    if lines.len() > 1 && lines.last().utf16_start > offset {
        lemma_line_at_bounds(lines.drop_last(), offset);
    } else if lines.len() == 1 {
        assert(lines[0].utf16_start == 0);
    }
}

/// The place of an offset is at that offset.
pub proof fn law_offset_of_position(lines: Seq<text::LineView>, offset: u32)
    requires
        text::in_order(lines),
    ensures
        text::position_at(lines, offset as nat).line < lines.len(),
        text::utf16_offset(lines, text::position_at(lines, offset as nat)) == offset,
{
    lemma_line_at_bounds(lines, offset as nat);
    let line = text::line_at(lines, offset as nat);
    assert(line <= lines[line].utf16_start <= u32::MAX);
}

/// The place at an offset is the one it was taken from, where that does not run into the next line.
pub proof fn law_position_of_offset(lines: Seq<text::LineView>, position: crate::lsp::Position)
    requires
        text::in_order(lines),
        position.line < lines.len(),
        position.line + 1 < lines.len() ==> text::utf16_offset(lines, position) < lines[position.line
            + 1].utf16_start,
    ensures
        text::position_at(lines, text::utf16_offset(lines, position) as nat) == position,
{
    let offset = text::utf16_offset(lines, position) as nat;
    text::lemma_line_at(lines, offset, position.line as int);
}

/// A span is read back from its range.
pub proof fn law_span_of_range(lines: Seq<text::LineView>, span: TextSpan)
    requires
        text::in_order(lines),
        span.fits(),
    ensures
        ({
            let range = range_of(span, lines);
            &&& range.start.line < lines.len()
            &&& range.end.line < lines.len()
            &&& text::utf16_offset(lines, range.start) == span.start
            &&& text::utf16_offset(lines, range.end) == span.start + span.length
        }),
{
    law_offset_of_position(lines, span.start);
    law_offset_of_position(lines, (span.start + span.length) as u32);
}

} // verus!
