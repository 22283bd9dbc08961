//! Where the lines of a text begin, in UTF-8 and in UTF-16.

use vstd::prelude::*;
use vstd::string::*;
use crate::error::TscError;
use crate::lsp::Position;

verus! {

/// How many bytes a character takes in UTF-8.
pub open spec fn utf8_len(c: char) -> nat {
    if (c as u32) < 0x80 {
        1
    } else if (c as u32) < 0x800 {
        2
    } else if (c as u32) < 0x10000 {
        3
    } else {
        4
    }
}

/// How many code units a character takes in UTF-16.
pub open spec fn utf16_len(c: char) -> nat {
    if (c as u32) < 0x10000 {
        1
    } else {
        2
    }
}

/// How many bytes a text takes in UTF-8.
pub open spec fn utf8_size(t: Seq<char>) -> nat
    decreases t.len(),
{
    if t.len() == 0 {
        0
    } else {
        utf8_size(t.drop_last()) + utf8_len(t.last())
    }
}

/// How many code units a text takes in UTF-16.
pub open spec fn utf16_size(t: Seq<char>) -> nat
    decreases t.len(),
{
    if t.len() == 0 {
        0
    } else {
        utf16_size(t.drop_last()) + utf16_len(t.last())
    }
}

/// A character outside ASCII: where it begins in its line, in bytes, and how long it is.
#[derive(Debug, Clone, Copy, PartialEq, Eq, Structural)]
pub struct WideChar {
    pub start: u32,
    pub utf8_len: u32,
    pub utf16_len: u32,
}

/// A line: where it begins, and its characters outside ASCII.
#[derive(Debug)]
pub struct Line {
    pub utf8_start: u32,
    pub utf16_start: u32,
    pub wide: Vec<WideChar>,
}

/// What a [`Line`] holds.
pub struct LineView {
    pub utf8_start: nat,
    pub utf16_start: nat,
    pub wide: Seq<WideChar>,
}

impl View for Line {
    type V = LineView;

    open spec fn view(&self) -> LineView {
        LineView {
            utf8_start: self.utf8_start as nat,
            utf16_start: self.utf16_start as nat,
            wide: self.wide@,
        }
    }
}

/// The lines of a text: the first begins at its start, each other one after a line feed.
pub open spec fn lines(t: Seq<char>) -> Seq<LineView>
    decreases t.len(),
{
    if t.len() == 0 {
        seq![LineView { utf8_start: 0, utf16_start: 0, wide: Seq::empty() }]
    } else {
        let before = lines(t.drop_last());
        let line = before.last();
        if t.last() == '\n' {
            before.push(
                LineView {
                    utf8_start: utf8_size(t),
                    utf16_start: utf16_size(t),
                    wide: Seq::empty(),
                },
            )
        } else if (t.last() as u32) < 0x80 {
            before
        } else {
            let wide = WideChar {
                start: (utf8_size(t.drop_last()) - line.utf8_start) as u32,
                utf8_len: utf8_len(t.last()) as u32,
                utf16_len: utf16_len(t.last()) as u32,
            };
            before.drop_last().push(LineView { wide: line.wide.push(wide), ..line })
        }
    }
}

/// The line an offset in UTF-16 lies on: the last that does not begin after it.
pub open spec fn line_at(lines: Seq<LineView>, offset: nat) -> int
    decreases lines.len(),
{
    if lines.len() <= 1 || lines.last().utf16_start <= offset {
        lines.len() - 1
    } else {
        line_at(lines.drop_last(), offset)
    }
}

/// The place of an offset in UTF-16.
pub open spec fn position_at(lines: Seq<LineView>, offset: nat) -> Position {
    let line = line_at(lines, offset);
    Position { line: line as u32, character: (offset - lines[line].utf16_start) as u32 }
}

/// The offset in UTF-16 of a place on one of the lines.
pub open spec fn utf16_offset(lines: Seq<LineView>, position: Position) -> int {
    lines[position.line as int].utf16_start + position.character
}

/// The column in UTF-8 of a column in UTF-16: what each character outside ASCII before it takes
/// more in bytes than in code units is added.
pub open spec fn utf8_col(wide: Seq<WideChar>, col: int) -> int
    decreases wide.len(),
{
    if wide.len() > 0 && col > wide[0].start {
        utf8_col(wide.drop_first(), col + wide[0].utf8_len - wide[0].utf16_len)
    } else {
        col
    }
}

/// The offset in UTF-8 of a place on one of the lines.
pub open spec fn utf8_offset(lines: Seq<LineView>, position: Position) -> int {
    let line = lines[position.line as int];
    line.utf8_start + utf8_col(line.wide, position.character as int)
}

/// Lines in order: the first begins the text, each begins after the one before it.
pub open spec fn in_order(lines: Seq<LineView>) -> bool {
    &&& lines.len() > 0
    &&& lines[0].utf16_start == 0
    &&& forall|i: int, j: int|
        0 <= i < j < lines.len() ==> (#[trigger] lines[i]).utf16_start < (
        #[trigger] lines[j]).utf16_start
    &&& forall|i: int| 0 <= i < lines.len() ==> i <= (#[trigger] lines[i]).utf16_start <= u32::MAX
    &&& forall|i: int| 0 <= i < lines.len() ==> wider_in_utf8((#[trigger] lines[i]).wide)
}

/// No character outside ASCII takes less in UTF-8 than in UTF-16.
pub open spec fn wider_in_utf8(wide: Seq<WideChar>) -> bool {
    forall|i: int| 0 <= i < wide.len() ==> (#[trigger] wide[i]).utf16_len <= wide[i].utf8_len
}

/// An index of the lines of a text.
#[derive(Debug)]
pub struct LineIndex {
    lines: Vec<Line>,
}

impl View for LineIndex {
    type V = Seq<LineView>;

    closed spec fn view(&self) -> Seq<LineView> {
        crate::views::seq_view(self.lines@)
    }
}

/// A column does not shrink from UTF-16 to UTF-8.
proof fn lemma_utf8_col_grows(wide: Seq<WideChar>, col: int)
    requires
        wider_in_utf8(wide),
    ensures
        utf8_col(wide, col) >= col,
    decreases wide.len(),
{
    if wide.len() > 0 && col > wide[0].start {
        lemma_utf8_col_grows(
            wide.drop_first(),
            col + wide[0].utf8_len - wide[0].utf16_len,
        );
    }
}

/// The line found by a search is the one [`line_at`] names.
pub proof fn lemma_line_at(lines: Seq<LineView>, offset: nat, n: int)
    requires
        in_order(lines),
        0 <= n < lines.len(),
        lines[n].utf16_start <= offset,
        n + 1 < lines.len() ==> lines[n + 1].utf16_start > offset,
    ensures
        line_at(lines, offset) == n,
    decreases lines.len(),
{
    if n + 1 < lines.len() {
        assert(lines.last().utf16_start >= lines[n + 1].utf16_start);
        lemma_line_at(lines.drop_last(), offset, n);
    }
}

/// A part of a text takes no more than the text.
proof fn lemma_size_of_part(t: Seq<char>, n: int)
    requires
        0 <= n <= t.len(),
    ensures
        utf8_size(t.take(n)) <= utf8_size(t),
        utf16_size(t) <= utf8_size(t),
    decreases t.len(),
{
    assert(t.take(t.len() as int) =~= t);
    if t.len() > 0 {
        let before = t.drop_last();
        if n < t.len() {
            lemma_size_of_part(before, n);
            assert(before.take(n) =~= t.take(n));
        } else {
            lemma_size_of_part(before, before.len() as int);
        }
    }
}

/// The lines of a text are in order.
pub proof fn lemma_lines_in_order(t: Seq<char>)
    requires
        utf8_size(t) <= u32::MAX,
    ensures
        in_order(lines(t)),
        lines(t).last().utf16_start <= utf16_size(t) <= utf8_size(t),
        lines(t).last().utf8_start <= utf8_size(t),
    decreases t.len(),
{
    lemma_size_of_part(t, 0);
    if t.len() > 0 {
        lemma_lines_in_order(t.drop_last());
        let before = lines(t.drop_last());
        let after = lines(t);
        assert forall|i: int| 0 <= i < before.len() implies (#[trigger] after[i]).utf16_start
            == before[i].utf16_start by {}
        if t.last() == '\n' {
            assert forall|i: int, j: int| 0 <= i < j < after.len() implies (
            #[trigger] after[i]).utf16_start < (#[trigger] after[j]).utf16_start by {
                assert(before[i].utf16_start <= before.last().utf16_start);
                if j < before.len() {
                    assert(before[i].utf16_start < before[j].utf16_start);
                }
            }
            assert(before.len() - 1 <= before[before.len() - 1].utf16_start);
        } else {
            assert forall|i: int, j: int| 0 <= i < j < after.len() implies (
            #[trigger] after[i]).utf16_start < (#[trigger] after[j]).utf16_start by {
                assert(before[i].utf16_start < before[j].utf16_start);
            }
            assert forall|i: int| 0 <= i < after.len() implies i <= (
            #[trigger] after[i]).utf16_start <= u32::MAX by {
                assert(i <= before[i].utf16_start);
            }
        }
    }
}

impl LineIndex {
    #[verifier::type_invariant]
    spec fn inv(self) -> bool {
        in_order(self@)
    }

    /// Indexes a text.
    pub fn new(text: &str) -> (r: LineIndex)
        requires
            utf8_size(text@) <= u32::MAX,
        ensures
            r@ == lines(text@),
    {
        let chars = crate::strings::characters(text);
        let mut done: Vec<Line> = Vec::new();
        let mut line = Line { utf8_start: 0, utf16_start: 0, wide: Vec::new() };
        let mut utf8: u32 = 0;
        let mut utf16: u32 = 0;
        let mut i: usize = 0;
        proof {
            assert(chars@.take(0) =~= Seq::empty());
            assert(crate::views::seq_view(done@).push(line@) =~= lines(chars@.take(0)));
        }
        while i < chars.len()
            invariant
                i <= chars@.len(),
                utf8_size(chars@) <= u32::MAX,
                utf8 == utf8_size(chars@.take(i as int)),
                utf16 == utf16_size(chars@.take(i as int)),
                line.utf8_start <= utf8,
                crate::views::seq_view(done@).push(line@) == lines(chars@.take(i as int)),
            decreases chars.len() - i,
        {
            let c: char = chars[i];
            let n8: u32 = char_utf8_len(c);
            let n16: u32 = char_utf16_len(c);
            let ghost before = chars@.take(i as int);
            let ghost after = chars@.take(i + 1);
            proof {
                assert(after.drop_last() =~= before);
                assert(after.last() == c);
                lemma_size_of_part(chars@, i + 1);
                lemma_size_of_part(after, i as int);
                assert(lines(before).drop_last() =~= crate::views::seq_view(done@));
                assert(lines(before).last() == line@);
            }
            let ghost old_done = done@;
            let ghost old_line = line;
            if c == '\n' {
                done.push(line);
                line = Line { utf8_start: utf8 + n8, utf16_start: utf16 + n16, wide: Vec::new() };
                proof {
                    crate::views::lemma_push(old_done, old_line);
                    assert(crate::views::seq_view(done@).push(line@) =~= lines(after));
                }
            } else if n8 > 1 {
                line.wide.push(
                    WideChar { start: utf8 - line.utf8_start, utf8_len: n8, utf16_len: n16 },
                );
                assert(crate::views::seq_view(done@).push(line@) =~= lines(after));
            }
            utf8 = utf8 + n8;
            utf16 = utf16 + n16;
            i = i + 1;
        }
        let ghost old_done = done@;
        done.push(line);
        proof {
            crate::views::lemma_push(old_done, line);
            assert(chars@.take(i as int) =~= text@);
            lemma_lines_in_order(text@);
        }
        LineIndex { lines: done }
    }

    /// The place of an offset in UTF-16.
    pub fn position_tsc(&self, offset: u32) -> (r: Position)
        ensures
            r == position_at(self@, offset as nat),
            r.line < self@.len(),
    {
        proof {
            use_type_invariant(self);
        }
        let mut low: usize = 0;
        let mut high: usize = self.lines.len();
        while low + 1 < high
            invariant
                in_order(self@),
                self@ == crate::views::seq_view(self.lines@),
                low < high <= self.lines@.len(),
                self@[low as int].utf16_start <= offset,
                high < self.lines@.len() ==> self@[high as int].utf16_start > offset,
            decreases high - low,
        {
            let middle: usize = low + (high - low) / 2;
            assert(self@[middle as int] == self.lines@[middle as int]@);
            if self.lines[middle].utf16_start <= offset {
                low = middle;
            } else {
                high = middle;
            }
        }
        proof {
            lemma_line_at(self@, offset as nat, low as int);
            assert(self@[low as int] == self.lines@[low as int]@);
        }
        Position { line: low as u32, character: offset - self.lines[low].utf16_start }
    }

    /// The offset in UTF-16 of a place; an error where there is no such line.
    pub fn offset_tsc(&self, position: Position) -> (r: Result<u32, TscError>)
        requires
            position.line < self@.len() ==> utf16_offset(self@, position) <= u32::MAX,
        ensures
            position.line < self@.len() ==> (r matches Ok(offset) && offset == utf16_offset(
                self@,
                position,
            )),
            position.line >= self@.len() ==> r == Err::<u32, TscError>(TscError::OutOfRange),
    {
        let line: usize = position.line as usize;
        if line < self.lines.len() {
            assert(self@[line as int] == self.lines@[line as int]@);
            Ok(self.lines[line].utf16_start + position.character)
        } else {
            Err(TscError::OutOfRange)
        }
    }

    /// The offset in UTF-8 of a place; an error where there is no such line.
    pub fn offset(&self, position: Position) -> (r: Result<u32, TscError>)
        requires
            position.line < self@.len() ==> utf8_offset(self@, position) <= u32::MAX,
        ensures
            position.line < self@.len() ==> (r matches Ok(offset) && offset == utf8_offset(
                self@,
                position,
            ) && offset >= position.character),
            position.line >= self@.len() ==> r == Err::<u32, TscError>(TscError::OutOfRange),
    {
        let line: usize = position.line as usize;
        if line >= self.lines.len() {
            return Err(TscError::OutOfRange);
        }
        proof {
            use_type_invariant(self);
            assert(self@[line as int] == self.lines@[line as int]@);
        }
        let wide = &self.lines[line].wide;
        let mut col: u32 = position.character;
        let mut i: usize = 0;
        proof {
            assert(wide@.skip(0) =~= wide@);
            lemma_utf8_col_grows(wide@, col as int);
        }
        while i < wide.len() && col > wide[i].start
            invariant
                i <= wide@.len(),
                wider_in_utf8(wide@),
                utf8_col(wide@.skip(i as int), col as int) == utf8_col(
                    wide@,
                    position.character as int,
                ),
                utf8_col(wide@, position.character as int) <= u32::MAX,
            decreases wide.len() - i,
        {
            let extra: u32 = wide[i].utf8_len - wide[i].utf16_len;
            proof {
                assert(wide@.skip(i as int).drop_first() =~= wide@.skip(i + 1));
                lemma_utf8_col_grows(wide@.skip(i + 1), col + extra);
            }
            col = col + extra;
            i = i + 1;
        }
        Ok(self.lines[line].utf8_start + col)
    }
}

/// How many bytes a character takes in UTF-8.
fn char_utf8_len(c: char) -> (r: u32)
    ensures
        r == utf8_len(c),
{
    let code: u32 = c as u32;
    if code < 0x80 {
        1
    } else if code < 0x800 {
        2
    } else if code < 0x10000 {
        3
    } else {
        4
    }
}

/// How many code units a character takes in UTF-16.
fn char_utf16_len(c: char) -> (r: u32)
    ensures
        r == utf16_len(c),
{
    if (c as u32) < 0x10000 {
        1
    } else {
        2
    }
}

/// How many line feeds there are in a text.
pub open spec fn line_feeds(t: Seq<char>) -> nat
    decreases t.len(),
{
    if t.len() == 0 {
        0
    } else {
        line_feeds(t.drop_last()) + if t.last() == '\n' {
            1nat
        } else {
            0nat
        }
    }
}

/// Where the line on which a place of a text lies begins: behind the line feed before it, or at the
/// start of the text.
pub open spec fn line_start(t: Seq<char>, n: int) -> int
    decreases n,
{
    if n <= 0 || t[n - 1] == '\n' {
        n
    } else {
        line_start(t, n - 1)
    }
}

/// Where the line on which a place of a text lies ends.
spec fn line_end(t: Seq<char>, n: int) -> int
    decreases t.len() - n,
{
    if n >= t.len() || t[n] == '\n' {
        n
    } else {
        line_end(t, n + 1)
    }
}

/// The characters outside ASCII of a line, when the first of its characters begins at an offset.
spec fn wide_from(t: Seq<char>, base: nat) -> Seq<WideChar>
    decreases t.len(),
{
    if t.len() == 0 {
        Seq::empty()
    } else {
        let rest = wide_from(t.skip(1), base + utf8_len(t[0]));
        if (t[0] as u32) < 0x80 {
            rest
        } else {
            seq![
                WideChar {
                    start: base as u32,
                    utf8_len: utf8_len(t[0]) as u32,
                    utf16_len: utf16_len(t[0]) as u32,
                },
            ] + rest
        }
    }
}

/// Two texts take together what each of them takes.
pub proof fn law_sizes_add_up(a: Seq<char>, b: Seq<char>)
    ensures
        utf8_size(a + b) == utf8_size(a) + utf8_size(b),
        utf16_size(a + b) == utf16_size(a) + utf16_size(b),
    decreases b.len(),
{
    if b.len() == 0 {
        assert(a + b =~= a);
    } else {
        law_sizes_add_up(a, b.drop_last());
        assert((a + b).drop_last() =~= a + b.drop_last());
        assert((a + b).last() == b.last());
    }
}

/// A character takes one code unit in UTF-16 up to the code that fills it, and two beyond. In UTF-8 it
/// takes one byte in ASCII, and never fewer bytes than code units nor more than four.
pub proof fn law_sizes_of_characters(c: char)
    ensures
        utf16_size(seq![c]) == 1 <==> (c as u32) <= 0xffff,
        utf16_size(seq![c]) == 2 <==> (c as u32) > 0xffff,
        utf8_size(seq![c]) == 1 <==> (c as u32) <= 0x7f,
        utf8_size(seq![c]) == 2 <==> 0x7f < (c as u32) <= 0x7ff,
        utf8_size(seq![c]) == 3 <==> 0x7ff < (c as u32) <= 0xffff,
        utf8_size(seq![c]) == 4 <==> (c as u32) > 0xffff,
        utf8_size(Seq::empty()) == 0,
        utf16_size(Seq::empty()) == 0,
{
    reveal_with_fuel(utf8_size, 2);
    reveal_with_fuel(utf16_size, 2);
    assert(seq![c].drop_last() =~= Seq::empty());
}

proof fn lemma_one_size(c: char)
    ensures
        utf8_size(seq![c]) == utf8_len(c),
        utf16_size(seq![c]) == utf16_len(c),
{
    reveal_with_fuel(utf8_size, 2);
    reveal_with_fuel(utf16_size, 2);
    assert(seq![c].drop_last() =~= Seq::empty());
}

proof fn lemma_feeds_of_parts(t: Seq<char>, m: int, n: int)
    requires
        0 <= m <= n <= t.len(),
    ensures
        line_feeds(t.take(m)) <= line_feeds(t.take(n)),
        (forall|i: int| m <= i < n ==> t[i] != '\n') ==> line_feeds(t.take(m)) == line_feeds(
            t.take(n),
        ),
        m < n && t[m] == '\n' ==> line_feeds(t.take(m)) < line_feeds(t.take(n)),
    decreases n - m,
{
    if m < n {
        lemma_feeds_of_parts(t, m, n - 1);
        assert(t.take(n).drop_last() =~= t.take(n - 1));
        assert(t.take(n).last() == t[n - 1]);
        if m == n - 1 {
            assert(t.take(m) =~= t.take(n - 1));
        }
    }
}

proof fn lemma_line_count(t: Seq<char>)
    ensures
        lines(t).len() == line_feeds(t) + 1,
    decreases t.len(),
{
    if t.len() > 0 {
        lemma_line_count(t.drop_last());
    }
}

proof fn lemma_line_bounds(t: Seq<char>, n: int)
    requires
        0 <= n <= t.len(),
    ensures
        ({
            let m = line_start(t, n);
            &&& 0 <= m <= n
            &&& m == 0 || t[m - 1] == '\n'
            &&& forall|i: int| m <= i < n ==> t[i] != '\n'
        }),
    decreases n,
{
    if n > 0 && t[n - 1] != '\n' {
        lemma_line_bounds(t, n - 1);
    }
}

proof fn lemma_line_end(t: Seq<char>, n: int)
    requires
        0 <= n <= t.len(),
    ensures
        ({
            let e = line_end(t, n);
            &&& n <= e <= t.len()
            &&& e == t.len() || t[e] == '\n'
            &&& forall|i: int| n <= i < e ==> t[i] != '\n'
        }),
    decreases t.len() - n,
{
    if n < t.len() && t[n] != '\n' {
        lemma_line_end(t, n + 1);
    }
}

proof fn lemma_wide_push(t: Seq<char>, base: nat, c: char)
    ensures
        wide_from(t.push(c), base) == if (c as u32) < 0x80 {
            wide_from(t, base)
        } else {
            wide_from(t, base).push(
                WideChar {
                    start: (base + utf8_size(t)) as u32,
                    utf8_len: utf8_len(c) as u32,
                    utf16_len: utf16_len(c) as u32,
                },
            )
        },
    decreases t.len(),
{
    let all = t.push(c);
    if t.len() == 0 {
        assert(all.skip(1) =~= Seq::empty());
        assert(wide_from(all.skip(1), base + utf8_len(c)) =~= Seq::empty());
        assert(all[0] == c);
    } else {
        assert(all.skip(1) =~= t.skip(1).push(c));
        lemma_wide_push(t.skip(1), base + utf8_len(t[0]), c);
        law_sizes_add_up(seq![t[0]], t.skip(1));
        assert(seq![t[0]] + t.skip(1) =~= t);
        lemma_one_size(t[0]);
    }
    assert(wide_from(all, base) =~= if (c as u32) < 0x80 {
        wide_from(t, base)
    } else {
        wide_from(t, base).push(
            WideChar {
                start: (base + utf8_size(t)) as u32,
                utf8_len: utf8_len(c) as u32,
                utf16_len: utf16_len(c) as u32,
            },
        )
    });
}

/// The line of a text that begins at `m` and ends at `e`.
proof fn lemma_line(t: Seq<char>, m: int, e: int)
    requires
        utf8_size(t) <= u32::MAX,
        0 <= m <= e <= t.len(),
        m == 0 || t[m - 1] == '\n',
        e == t.len() || t[e] == '\n',
        forall|i: int| m <= i < e ==> t[i] != '\n',
    ensures
        ({
            let k = line_feeds(t.take(m)) as int;
            &&& k < lines(t).len()
            &&& lines(t)[k].utf8_start == utf8_size(t.take(m))
            &&& lines(t)[k].utf16_start == utf16_size(t.take(m))
            &&& lines(t)[k].wide == wide_from(t.subrange(m, e), 0)
        }),
    decreases t.len(),
{
    let k = line_feeds(t.take(m)) as int;
    lemma_line_count(t);
    assert(t.take(t.len() as int) =~= t);
    lemma_feeds_of_parts(t, m, t.len() as int);
    if t.len() > 0 {
        let before = t.drop_last();
        let last = t.len() - 1;
        lemma_line_count(before);
        assert(before.take(last) =~= before);
        lemma_size_of_part(t, last);
        assert(t.take(last) =~= before);
        if m == t.len() {
            assert(t.subrange(m, e) =~= Seq::empty());
            assert(k == lines(before).len());
        } else {
            assert(before.take(m) =~= t.take(m));
            lemma_feeds_of_parts(before, m, last);
            if e == t.len() {
                lemma_line(before, m, last);
                let part = before.subrange(m, last);
                assert(t.subrange(m, e) =~= part.push(t.last()));
                lemma_wide_push(part, 0, t.last());
                law_sizes_add_up(before.take(m), part);
                assert(before.take(m) + part =~= before);
                assert(k == lines(before).len() - 1);
            } else {
                lemma_line(before, m, e);
                assert(before.subrange(m, e) =~= t.subrange(m, e));
                if e < last {
                    lemma_feeds_of_parts(before, e, last);
                    lemma_feeds_of_parts(before, m, e);
                    assert(k < lines(before).len() - 1);
                }
            }
        }
    } else {
        assert(t.take(m) =~= Seq::empty());
        assert(t.subrange(m, e) =~= Seq::empty());
    }
}

proof fn lemma_wide_begins_later(t: Seq<char>, base: nat)
    requires
        base + utf8_size(t) <= u32::MAX,
    ensures
        wide_from(t, base).len() > 0 ==> wide_from(t, base)[0].start >= base,
    decreases t.len(),
{
    if t.len() > 0 {
        law_sizes_add_up(seq![t[0]], t.skip(1));
        assert(seq![t[0]] + t.skip(1) =~= t);
        lemma_one_size(t[0]);
        lemma_wide_begins_later(t.skip(1), base + utf8_len(t[0]));
    }
}

/// A column in UTF-16 becomes the one in UTF-8 of the same place.
proof fn lemma_column(t: Seq<char>, base: nat, n: int)
    requires
        0 <= n <= t.len(),
        base + utf8_size(t) <= u32::MAX,
    ensures
        utf8_col(wide_from(t, base), base + utf16_size(t.take(n)) as int) == base + utf8_size(
            t.take(n),
        ),
    decreases t.len(),
{
    lemma_wide_begins_later(t, base);
    if n == 0 {
        assert(t.take(0) =~= Seq::empty());
    } else {
        let rest = t.skip(1);
        law_sizes_add_up(seq![t[0]], rest);
        assert(seq![t[0]] + rest =~= t);
        law_sizes_add_up(seq![t[0]], rest.take(n - 1));
        assert(seq![t[0]] + rest.take(n - 1) =~= t.take(n));
        lemma_one_size(t[0]);
        lemma_column(rest, base + utf8_len(t[0]), n - 1);
        if (t[0] as u32) >= 0x80 {
            assert(wide_from(t, base).drop_first() =~= wide_from(rest, base + utf8_len(t[0])));
        }
    }
}

/// The place of an offset tells how many line feeds stand before it, and how many code units of UTF-16
/// stand between the start of its line and it. From the place the offset in UTF-8 is found again:
/// what stands before it takes that many bytes.
pub proof fn law_places_count_lines(t: Seq<char>, n: int)
    requires
        utf8_size(t) <= u32::MAX,
        0 <= n <= t.len(),
    ensures
        ({
            let place = position_at(lines(t), utf16_size(t.take(n)));
            &&& place.line == line_feeds(t.take(n))
            &&& place.character == utf16_size(t.subrange(line_start(t, n), n))
            &&& utf16_offset(lines(t), place) == utf16_size(t.take(n))
            &&& utf8_offset(lines(t), place) == utf8_size(t.take(n))
        }),
{
    let m = line_start(t, n);
    let e = line_end(t, n);
    let k = line_feeds(t.take(m)) as int;
    let offset = utf16_size(t.take(n));
    lemma_line_bounds(t, n);
    lemma_line_end(t, n);
    lemma_lines_in_order(t);
    lemma_line_count(t);
    lemma_feeds_of_parts(t, m, n);
    lemma_line(t, m, e);
    lemma_size_of_part(t, n);
    law_sizes_add_up(t.take(m), t.subrange(m, n));
    assert(t.take(m) + t.subrange(m, n) =~= t.take(n));
    lemma_size_of_part(t.take(n), n);
    lemma_size_of_part(t.subrange(m, n), 0);
    if e < t.len() {
        let next = e + 1;
        lemma_feeds_of_parts(t, m, e);
        assert(t.take(next).drop_last() =~= t.take(e));
        lemma_line_end(t, next);
        lemma_line(t, next, line_end(t, next));
        law_sizes_add_up(t.take(n), t.subrange(n, e));
        assert(t.take(n) + t.subrange(n, e) =~= t.take(e));
    } else {
        lemma_feeds_of_parts(t, m, e);
        assert(t.take(e) =~= t);
    }
    lemma_line_at(lines(t), offset, k);
    let part = t.subrange(m, e);
    assert(part.take(n - m) =~= t.subrange(m, n));
    law_sizes_add_up(t.take(m), part);
    assert(t.take(m) + part =~= t.take(e));
    lemma_size_of_part(t, e);
    lemma_column(part, 0, n - m);
}

} // verus!
