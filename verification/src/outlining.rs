//! Ranges that can be folded or selected.

use std::sync::Arc;
use vstd::prelude::*;
use crate::lsp;
use crate::lsp::{FoldingRange, FoldingRangeKind, Range};
use crate::span;
use crate::span::TextSpan;
use crate::sync::share;
use crate::text;
use crate::text::LineIndex;

verus! {

/// What a span that can be folded holds.
#[derive(Debug, Clone, Copy, PartialEq, Eq, Structural)]
pub enum OutliningSpanKind {
    Comment,
    Region,
    Code,
    Imports,
}

/// A span that can be folded.
#[derive(Debug)]
pub struct OutliningSpan {
    pub text_span: TextSpan,
    pub kind: OutliningSpanKind,
}

/// A byte that closes what a fold opened.
pub open spec fn closes_fold(byte: u8) -> bool {
    byte == '}' as u8 || byte == ']' as u8 || byte == ')' as u8 || byte == '`' as u8
}

/// A range whose end is looked at when only whole lines are folded.
pub open spec fn looks_at_end(range: Range, line_folding_only: bool) -> bool {
    line_folding_only && range.end.line > 0 && range.end.character > 0
}

/// The last line that is folded: the line before that of a character that closes the fold, where
/// only whole lines are folded, but not before the first line.
pub open spec fn folding_end_line(
    range: Range,
    lines: Seq<text::LineView>,
    content: Seq<u8>,
    line_folding_only: bool,
) -> u32 {
    if looks_at_end(range, line_folding_only) && closes_fold(
        content[text::utf8_offset(lines, range.end) - 1],
    ) {
        if range.end.line - 1 > range.start.line {
            (range.end.line - 1) as u32
        } else {
            range.start.line
        }
    } else {
        range.end.line
    }
}

/// The kind for the client.
pub open spec fn folding_kind(kind: OutliningSpanKind) -> Option<FoldingRangeKind> {
    match kind {
        OutliningSpanKind::Comment => Some(FoldingRangeKind::Comment),
        OutliningSpanKind::Region => Some(FoldingRangeKind::Region),
        OutliningSpanKind::Imports => Some(FoldingRangeKind::Imports),
        OutliningSpanKind::Code => None,
    }
}

/// The end of a range lies in the content.
pub open spec fn ends_within(range: Range, lines: Seq<text::LineView>, content: Seq<u8>) -> bool {
    text::utf8_offset(lines, range.end) <= content.len() && text::utf8_offset(lines, range.end)
        <= u32::MAX
}

impl OutliningSpan {
    /// The range that can be folded, in a document with this content.
    pub fn to_folding_range(
        &self,
        line_index: Arc<LineIndex>,
        content: &[u8],
        line_folding_only: bool,
    ) -> (r: FoldingRange)
        requires
            self.text_span.fits(),
            looks_at_end(span::range_of(self.text_span, line_index@), line_folding_only)
                ==> ends_within(
                span::range_of(self.text_span, line_index@),
                line_index@,
                content@,
            ),
        ensures
            ({
                let range = span::range_of(self.text_span, line_index@);
                r == FoldingRange {
                    start_line: range.start.line,
                    start_character: if line_folding_only {
                        None
                    } else {
                        Some(range.start.character)
                    },
                    end_line: folding_end_line(range, line_index@, content@, line_folding_only),
                    end_character: if line_folding_only {
                        None
                    } else {
                        Some(range.end.character)
                    },
                    kind: folding_kind(self.kind),
                }
            }),
    {
        let range = self.text_span.to_range(share(&line_index));
        FoldingRange {
            start_line: range.start.line,
            start_character: if line_folding_only {
                None
            } else {
                Some(range.start.character)
            },
            end_line: self.adjust_folding_end_line(&range, line_index, content, line_folding_only),
            end_character: if line_folding_only {
                None
            } else {
                Some(range.end.character)
            },
            kind: self.get_folding_range_kind(&self.kind),
        }
    }

    /// The last line that is folded.
    fn adjust_folding_end_line(
        &self,
        range: &Range,
        line_index: Arc<LineIndex>,
        content: &[u8],
        line_folding_only: bool,
    ) -> (r: u32)
        requires
            range.end.line < line_index@.len(),
            looks_at_end(*range, line_folding_only) ==> ends_within(
                *range,
                line_index@,
                content@,
            ),
        ensures
            r == folding_end_line(*range, line_index@, content@, line_folding_only),
    {
        if line_folding_only && range.end.line > 0 && range.end.character > 0 {
            if let Ok(offset_end) = line_index.offset(range.end) {
                let fold_end_char: u8 = content[offset_end as usize - 1];
                if fold_end_char == '}' as u8 || fold_end_char == ']' as u8 || fold_end_char
                    == ')' as u8 || fold_end_char == '`' as u8 {
                    if range.end.line - 1 > range.start.line {
                        return range.end.line - 1;
                    } else {
                        return range.start.line;
                    }
                }
            }
        }
        range.end.line
    }

    /// The kind for the client.
    fn get_folding_range_kind(&self, span_kind: &OutliningSpanKind) -> (r: Option<
        FoldingRangeKind,
    >)
        ensures
            r == folding_kind(*span_kind),
    {
        match span_kind {
            OutliningSpanKind::Comment => Some(FoldingRangeKind::Comment),
            OutliningSpanKind::Region => Some(FoldingRangeKind::Region),
            OutliningSpanKind::Imports => Some(FoldingRangeKind::Imports),
            OutliningSpanKind::Code => None,
        }
    }
}

/// A fold never ends before the line it begins on, nor after the line its span ends on, when the
/// span does not end before it begins.
pub proof fn law_fold_stays_in_span(
    range: Range,
    lines: Seq<text::LineView>,
    content: Seq<u8>,
    line_folding_only: bool,
)
    requires
        range.start.line <= range.end.line,
    ensures
        range.start.line <= folding_end_line(range, lines, content, line_folding_only)
            <= range.end.line,
{
}

/// A span that can be selected, and the next greater one.
#[derive(Debug)]
pub struct SelectionRange {
    pub text_span: TextSpan,
    pub parent: Option<Box<SelectionRange>>,
}

/// Every span ends at an offset that can be counted.
pub open spec fn selection_fits(selection: SelectionRange) -> bool
    decreases selection,
{
    selection.text_span.fits() && match selection.parent {
        Some(parent) => selection_fits(*parent),
        None => true,
    }
}

/// The ranges that can be selected.
pub open spec fn selection_of(selection: SelectionRange, lines: Seq<text::LineView>) -> lsp::SelectionRange
    decreases selection,
{
    lsp::SelectionRange {
        range: span::range_of(selection.text_span, lines),
        parent: match selection.parent {
            Some(parent) => Some(Box::new(selection_of(*parent, lines))),
            None => None,
        },
    }
}

impl SelectionRange {
    /// The ranges that can be selected.
    pub fn to_selection_range(&self, line_index: Arc<LineIndex>) -> (r: lsp::SelectionRange)
        requires
            selection_fits(*self),
        ensures
            r == selection_of(*self, line_index@),
        decreases *self,
    {
        lsp::SelectionRange {
            range: self.text_span.to_range(share(&line_index)),
            parent: match &self.parent {
                Some(parent_selection) => Some(
                    Box::new(parent_selection.to_selection_range(line_index)),
                ),
                None => None,
            },
        }
    }
}

/// A fold begins on the line of its span. It ends on the last line of the span, but where only whole
/// lines are folded and the span ends with a closing bracket or backtick behind the start of a line,
/// it ends on the line before: the closing line stays in sight.
pub proof fn law_closing_line_stays_in_sight(
    range: Range,
    lines: Seq<text::LineView>,
    content: Seq<u8>,
    line_folding_only: bool,
)
    requires
        range.start.line <= range.end.line,
    ensures
        ({
            let end = folding_end_line(range, lines, content, line_folding_only);
            let last = content[text::utf8_offset(lines, range.end) - 1];
            let closes = last == 0x7d || last == 0x5d || last == 0x29 || last == 0x60;
            &&& !line_folding_only ==> end == range.end.line
            &&& range.end.character == 0 ==> end == range.end.line
            &&& !closes ==> end == range.end.line
            &&& line_folding_only && range.end.character > 0 && closes && range.start.line
                < range.end.line ==> end + 1 == range.end.line
            &&& range.start.line == range.end.line ==> end == range.end.line
        }),
{
    assert('}' as u8 == 0x7d && ']' as u8 == 0x5d && ')' as u8 == 0x29 && '`' as u8 == 0x60);
}

/// A fold of code has no kind of its own; one of a comment, a region or imports is told as such.
pub proof fn law_folds_tell_their_kind(kind: OutliningSpanKind)
    ensures
        folding_kind(kind) is None <==> kind == OutliningSpanKind::Code,
        folding_kind(kind) == Some(FoldingRangeKind::Comment) <==> kind
            == OutliningSpanKind::Comment,
        folding_kind(kind) == Some(FoldingRangeKind::Region) <==> kind == OutliningSpanKind::Region,
        folding_kind(kind) == Some(FoldingRangeKind::Imports) <==> kind
            == OutliningSpanKind::Imports,
{
}

/// How many spans can be selected one after the other.
pub open spec fn selection_depth(selection: SelectionRange) -> nat
    decreases selection,
{
    match selection.parent {
        Some(parent) => 1 + selection_depth(*parent),
        None => 1,
    }
}

/// How many ranges can be selected one after the other.
pub open spec fn range_depth(selection: lsp::SelectionRange) -> nat
    decreases selection,
{
    match selection.parent {
        Some(parent) => 1 + range_depth(*parent),
        None => 1,
    }
}

/// What is selected first has the range of its span, the next greater range is that of the next greater
/// span, and there are as many ranges as spans.
pub proof fn law_selections_keep_their_order(
    selection: SelectionRange,
    lines: Seq<text::LineView>,
)
    ensures
        ({
            let made = selection_of(selection, lines);
            &&& made.range.start == text::position_at(lines, selection.text_span.start as nat)
            &&& made.range.end == text::position_at(
                lines,
                (selection.text_span.start + selection.text_span.length) as nat,
            )
            &&& made.parent is Some <==> selection.parent is Some
            &&& selection.parent matches Some(parent) ==> *made.parent->0 == selection_of(
                *parent,
                lines,
            )
            &&& range_depth(made) == selection_depth(selection)
        }),
    decreases selection,
{
    match selection.parent {
        Some(parent) => {
            law_selections_keep_their_order(*parent, lines);
        },
        None => {},
    }
}

} // verus!
