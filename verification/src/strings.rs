//! String operations the rest of the crate is written with, stated over sequences of characters.

use vstd::prelude::*;
use vstd::string::*;
use crate::patterns;
use crate::views;

verus! {

/// The lower-case form of a text, by Unicode.
pub uninterp spec fn lowercase(s: Seq<char>) -> Seq<char>;

/// `String::push` puts a character at the end.
pub assume_specification[ std::string::String::push ](
    s: &mut std::string::String,
    c: char,
)
    ensures
        final(s)@ == old(s)@.push(c),
;

/// `str::to_lowercase` gives the lower-case form, which depends on the text alone.
pub assume_specification[ str::to_lowercase ](s: &str) -> (r: std::string::String)
    ensures
        r@ == lowercase(s@),
;

/// Whether `a` and `b` hold the same characters.
pub fn same_text(a: &str, b: &str) -> (r: bool)
    ensures
        r == (a@ == b@),
{
    a.to_owned() == b.to_owned()
}

/// Whether an optional string is there and holds the characters of `b`.
pub fn is_text(a: &Option<String>, b: &str) -> (r: bool)
    ensures
        r == (views::opt_view(*a) == Some(b@)),
{
    match a {
        Some(a) => same_text(a.as_str(), b),
        None => false,
    }
}

/// The characters of `s`, in order.
pub fn characters(s: &str) -> (r: Vec<char>)
    ensures
        r@ == s@,
{
    let mut out: Vec<char> = Vec::new();
    for c in it: s.chars()
        invariant
            out@ == it.seq().take(it.index()),
            it.seq() == s@,
    {
        out.push(c);
    }
    out
}

/// The string of the characters from `from` up to `to`.
pub fn slice_text(chars: &Vec<char>, from: usize, to: usize) -> (r: String)
    requires
        from <= to <= chars@.len(),
    ensures
        r@ == chars@.subrange(from as int, to as int),
{
    let mut out = String::new();
    let mut i: usize = from;
    while i < to
        invariant
            from <= i <= to <= chars@.len(),
            out@ == chars@.subrange(from as int, i as int),
        decreases to - i,
    {
        out.push(chars[i]);
        i = i + 1;
    }
    out
}

/// Whether `word` stands at `at` among `chars`.
pub fn word_at(chars: &Vec<char>, at: usize, word: &Vec<char>) -> (r: bool)
    requires
        at <= chars@.len(),
    ensures
        r == word@.is_prefix_of(chars@.skip(at as int)),
{
    let len: usize = chars.len();
    if word.len() > len - at {
        return false;
    }
    let mut i: usize = 0;
    while i < word.len()
        invariant
            i <= word@.len(),
            at + word@.len() <= chars@.len(),
            chars@.len() == len,
            forall|j: int| 0 <= j < i ==> word@[j] == #[trigger] chars@[at + j],
        decreases word.len() - i,
    {
        if chars[at + i] != word[i] {
            assert(chars@.skip(at as int)[i as int] == chars@[at + i]);
            assert(chars@.skip(at as int).subrange(0, word@.len() as int)[i as int] == chars@[at
                + i]);
            return false;
        }
        i = i + 1;
    }
    assert(chars@.skip(at as int).subrange(0, word@.len() as int) =~= word@) by {
        assert forall|j: int| 0 <= j < word@.len() implies word@[j] == #[trigger] chars@.skip(
            at as int,
        ).subrange(0, word@.len() as int)[j] by {
            assert(word@[j] == chars@[at + j]);
        }
    }
    true
}

/// Whether `s` begins with `prefix`.
pub fn starts_with(s: &str, prefix: &str) -> (r: bool)
    ensures
        r == prefix@.is_prefix_of(s@),
{
    let chars = characters(s);
    let word = characters(prefix);
    assert(chars@.skip(0) =~= chars@);
    word_at(&chars, 0, &word)
}

/// Whether `s` ends with `suffix`.
pub fn ends_with(s: &str, suffix: &str) -> (r: bool)
    ensures
        r == suffix@.is_suffix_of(s@),
{
    let chars = characters(s);
    let word = characters(suffix);
    if word.len() > chars.len() {
        return false;
    }
    let at: usize = chars.len() - word.len();
    let ghost tail = chars@.skip(at as int);
    assert(tail.subrange(0, word@.len() as int) =~= tail);
    assert(chars@.subrange((chars@.len() - word@.len()) as int, chars@.len() as int) =~= tail);
    word_at(&chars, at, &word)
}

/// Whether `c` occurs in `s`.
pub fn contains_char(s: &str, c: char) -> (r: bool)
    ensures
        r == s@.contains(c),
{
    let chars = characters(s);
    let mut i: usize = 0;
    while i < chars.len()
        invariant
            i <= chars@.len(),
            chars@ == s@,
            forall|j: int| 0 <= j < i ==> chars@[j] != c,
        decreases chars.len() - i,
    {
        if chars[i] == c {
            assert(s@[i as int] == c);
            return true;
        }
        i = i + 1;
    }
    false
}

/// Where `c` first occurs in `s`, or the length of `s` where it does not.
pub open spec fn first_index(s: Seq<char>, c: char) -> int
    decreases s.len(),
{
    if s.len() == 0 || s[0] == c {
        0
    } else {
        1 + first_index(s.skip(1), c)
    }
}

/// The first place of a character splits a text in what stands before it, without it, and the rest.
pub proof fn lemma_first_index(s: Seq<char>, c: char, n: int)
    requires
        0 <= n <= s.len(),
        forall|i: int| 0 <= i < n ==> s[i] != c,
        n < s.len() ==> s[n] == c,
    ensures
        first_index(s, c) == n,
    decreases n,
{
    if n > 0 {
        assert forall|i: int| 0 <= i < n - 1 implies s.skip(1)[i] != c by {
            assert(s.skip(1)[i] == s[i + 1]);
        }
        lemma_first_index(s.skip(1), c, n - 1);
    }
}

/// The part of `s` before the first `c`, and the part after it where there is one.
pub fn split_first(s: &str, c: char) -> (r: (String, Option<String>))
    ensures
        r.0@ == s@.subrange(0, first_index(s@, c)),
        r.1 is Some == (first_index(s@, c) < s@.len()),
        r.1 is Some ==> r.1->0@ == s@.skip(first_index(s@, c) + 1),
        0 <= first_index(s@, c) <= s@.len(),
{
    let chars = characters(s);
    let mut i: usize = 0;
    while i < chars.len() && chars[i] != c
        invariant
            i <= chars@.len(),
            chars@ == s@,
            forall|j: int| 0 <= j < i ==> chars@[j] != c,
        decreases chars.len() - i,
    {
        i = i + 1;
    }
    proof {
        lemma_first_index(s@, c, i as int);
    }
    let head = slice_text(&chars, 0, i);
    if i < chars.len() {
        let tail = slice_text(&chars, i + 1, chars.len());
        assert(tail@ =~= s@.skip(i + 1));
        (head, Some(tail))
    } else {
        (head, None)
    }
}

/// `to` before, between and after the characters of `s`.
pub open spec fn interleaved(s: Seq<char>, to: Seq<char>) -> Seq<char>
    decreases s.len(),
{
    if s.len() == 0 {
        to
    } else {
        interleaved(s.drop_last(), to).push(s.last()) + to
    }
}

/// `s` with every occurrence of `from`, taken from the left and without overlap, replaced by `to`.
pub open spec fn replaced(s: Seq<char>, from: Seq<char>, to: Seq<char>) -> Seq<char>
    decreases s.len(),
{
    if from.len() == 0 {
        interleaved(s, to)
    } else if s.len() == 0 {
        s
    } else if from.is_prefix_of(s) {
        to + replaced(s.skip(from.len() as int), from, to)
    } else {
        seq![s[0]] + replaced(s.skip(1), from, to)
    }
}

/// A text stays as it is where a character of the replaced word does not occur in it.
pub proof fn lemma_nothing_replaced(s: Seq<char>, from: Seq<char>, to: Seq<char>, c: char)
    requires
        from.contains(c),
        !s.contains(c),
    ensures
        replaced(s, from, to) == s,
    decreases s.len(),
{
    if s.len() > 0 {
        if from.is_prefix_of(s) {
            let i = choose|i: int| 0 <= i < from.len() && from[i] == c;
            assert(s.subrange(0, from.len() as int)[i] == s[i]);
            assert(s.contains(s[i]));
        }
        assert forall|i: int| 0 <= i < s.skip(1).len() implies s.skip(1)[i] != c by {
            assert(s.contains(s[i + 1]));
        }
        lemma_nothing_replaced(s.skip(1), from, to, c);
        assert(seq![s[0]] + s.skip(1) =~= s);
    }
}

/// `s` with `to` put in the place of every `from`.
pub fn replace(s: &str, from: &str, to: &str) -> (r: String)
    ensures
        r@ == replaced(s@, from@, to@),
{
    let chars = characters(s);
    let word = characters(from);
    let mut out = String::new();
    if word.len() == 0 {
        out.append(to);
        let mut i: usize = 0;
        assert(chars@.take(0) =~= Seq::empty());
        assert(out@ =~= to@);
        while i < chars.len()
            invariant
                i <= chars@.len(),
                out@ == interleaved(chars@.take(i as int), to@),
            decreases chars.len() - i,
        {
            out.push(chars[i]);
            out.append(to);
            assert(chars@.take(i + 1).drop_last() =~= chars@.take(i as int));
            i = i + 1;
        }
        assert(chars@.take(i as int) =~= s@);
        return out;
    }
    let mut i: usize = 0;
    assert(chars@.skip(0) =~= s@);
    while i < chars.len()
        invariant
            i <= chars@.len(),
            word@ == from@,
            word@.len() > 0,
            out@ + replaced(chars@.skip(i as int), from@, to@) == replaced(s@, from@, to@),
        decreases chars.len() - i,
    {
        let ghost before = out@;
        let ghost rest = chars@.skip(i as int);
        if word_at(&chars, i, &word) {
            out.append(to);
            assert(rest.skip(word@.len() as int) =~= chars@.skip(i + word@.len()));
            i = i + word.len();
            assert(out@ + replaced(chars@.skip(i as int), from@, to@) =~= before + replaced(
                rest,
                from@,
                to@,
            ));
        } else {
            out.push(chars[i]);
            assert(rest.skip(1) =~= chars@.skip(i + 1));
            i = i + 1;
            assert(out@ + replaced(chars@.skip(i as int), from@, to@) =~= before + replaced(
                rest,
                from@,
                to@,
            ));
        }
    }
    assert(out@ + replaced(chars@.skip(i as int), from@, to@) =~= out@);
    out
}

/// The pieces of a list with `sep` between them.
pub open spec fn joined(list: Seq<Seq<char>>, sep: Seq<char>) -> Seq<char>
    decreases list.len(),
{
    if list.len() == 0 {
        Seq::empty()
    } else if list.len() == 1 {
        list[0]
    } else {
        joined(list.drop_last(), sep) + sep + list.last()
    }
}

/// The strings of `list` with `sep` between them.
pub fn join(list: &Vec<String>, sep: &str) -> (r: String)
    ensures
        r@ == joined(views::seq_view(list@), sep@),
{
    let mut out = String::new();
    let mut i: usize = 0;
    assert(views::seq_view(list@).take(0) =~= Seq::empty());
    while i < list.len()
        invariant
            i <= list@.len(),
            out@ == joined(views::seq_view(list@).take(i as int), sep@),
        decreases list.len() - i,
    {
        if i > 0 {
            out.append(sep);
        }
        out.append(list[i].as_str());
        assert(views::seq_view(list@).take(i + 1).drop_last() =~= views::seq_view(list@).take(i as int));
        assert(i == 0 ==> out@ =~= list@[0]@);
        i = i + 1;
    }
    assert(views::seq_view(list@).take(i as int) =~= views::seq_view(list@));
    out
}

/// `s` without the white space at its ends.
pub open spec fn trimmed(s: Seq<char>) -> Seq<char>
    decreases s.len(),
{
    if s.len() > 0 && patterns::is_white_space(s[0]) {
        trimmed(s.drop_first())
    } else if s.len() > 0 && patterns::is_white_space(s.last()) {
        trimmed(s.drop_last())
    } else {
        s
    }
}

/// Whether a character is white space.
pub fn white_space(c: char) -> (r: bool)
    ensures
        r == patterns::is_white_space(c),
{
    ('\u{9}' <= c && c <= '\u{d}') || c == ' ' || c == '\u{85}' || c == '\u{a0}' || c == '\u{1680}'
        || ('\u{2000}' <= c && c <= '\u{200a}') || c == '\u{2028}' || c == '\u{2029}' || c
        == '\u{202f}' || c == '\u{205f}' || c == '\u{3000}'
}

/// `s` without the white space at its ends.
pub fn trim(s: &str) -> (r: String)
    ensures
        r@ == trimmed(s@),
{
    let chars = characters(s);
    let mut from: usize = 0;
    let mut to: usize = chars.len();
    assert(chars@.subrange(0, to as int) =~= s@);
    while from < to && white_space(chars[from])
        invariant
            from <= to <= chars@.len(),
            trimmed(chars@.subrange(from as int, to as int)) == trimmed(s@),
        decreases to - from,
    {
        assert(chars@.subrange(from as int, to as int).drop_first() =~= chars@.subrange(
            from + 1,
            to as int,
        ));
        from = from + 1;
    }
    while from < to && white_space(chars[to - 1])
        invariant
            from <= to <= chars@.len(),
            from < to ==> !patterns::is_white_space(chars@[from as int]),
            trimmed(chars@.subrange(from as int, to as int)) == trimmed(s@),
        decreases to - from,
    {
        assert(chars@.subrange(from as int, to as int).drop_last() =~= chars@.subrange(
            from as int,
            to - 1,
        ));
        to = to - 1;
    }
    slice_text(&chars, from, to)
}

/// A decimal digit.
pub open spec fn digit(n: nat) -> char {
    (('0' as u32) + n) as u32 as char
}

/// A number in decimal.
pub open spec fn decimal(n: nat) -> Seq<char>
    decreases n,
{
    if n < 10 {
        seq![digit(n)]
    } else {
        decimal(n / 10).push(digit(n % 10))
    }
}

/// Two numbers with the same decimal form are the same.
pub proof fn lemma_decimal_is_injective(a: nat, b: nat)
    requires
        decimal(a) == decimal(b),
    ensures
        a == b,
    decreases a + b,
{
    assert(decimal(a).last() == digit(a % 10));
    assert(decimal(b).last() == digit(b % 10));
    if a >= 10 && b >= 10 {
        assert(decimal(a).drop_last() =~= decimal(a / 10));
        assert(decimal(b).drop_last() =~= decimal(b / 10));
        lemma_decimal_is_injective(a / 10, b / 10);
    } else if a >= 10 {
        lemma_decimal_is_not_empty(a / 10);
    } else if b >= 10 {
        lemma_decimal_is_not_empty(b / 10);
    }
}

/// A number has a digit.
proof fn lemma_decimal_is_not_empty(n: nat)
    ensures
        decimal(n).len() > 0,
{
}

/// A number in decimal.
pub fn to_decimal(n: u64) -> (r: String)
    ensures
        r@ == decimal(n as nat),
    decreases n,
{
    let mut out = if n < 10 {
        String::new()
    } else {
        to_decimal(n / 10)
    };
    let d: u8 = (n % 10) as u8;
    out.push((48u8 + d) as char);
    out
}

/// Nothing joined is nothing, one piece is itself, and two lists that are not empty are joined with the
/// separator between them.
pub proof fn law_joined_lists(a: Seq<Seq<char>>, b: Seq<Seq<char>>, piece: Seq<char>, sep: Seq<char>)
    ensures
        joined(Seq::empty(), sep) == Seq::<char>::empty(),
        joined(seq![piece], sep) == piece,
        a.len() > 0 && b.len() > 0 ==> joined(a + b, sep) == joined(a, sep) + sep + joined(b, sep),
    decreases b.len(),
{
    if a.len() > 0 && b.len() > 0 {
        assert((a + b).drop_last() =~= a + b.drop_last());
        assert((a + b).last() == b.last());
        if b.len() == 1 {
            assert(a + b.drop_last() =~= a);
        } else {
            law_joined_lists(a, b.drop_last(), piece, sep);
        }
        assert(joined(a + b, sep) =~= joined(a, sep) + sep + joined(b, sep));
    }
}

/// A word is replaced where it first stands, and what follows it is read on from its end. A text in
/// which it does not stand is left as it is.
pub proof fn law_first_word_is_replaced(
    before: Seq<char>,
    after: Seq<char>,
    from: Seq<char>,
    to: Seq<char>,
)
    requires
        from.len() > 0,
        forall|i: int|
            0 <= i < before.len() ==> !from.is_prefix_of(
                #[trigger] (before + from + after).skip(i),
            ),
    ensures
        replaced(before + from + after, from, to) == before + to + replaced(after, from, to),
    decreases before.len(),
{
    let all = before + from + after;
    if before.len() == 0 {
        assert(all.subrange(0, from.len() as int) =~= from);
        assert(all.skip(from.len() as int) =~= after);
        assert(from.is_prefix_of(all));
        assert(before + to =~= to);
    } else {
        let rest = before.skip(1);
        assert(all.skip(0) =~= all);
        assert(!from.is_prefix_of(all));
        assert(all.skip(1) =~= rest + from + after);
        assert forall|i: int| 0 <= i < rest.len() implies !from.is_prefix_of(
            #[trigger] (rest + from + after).skip(i),
        ) by {
            assert((rest + from + after).skip(i) =~= all.skip(i + 1));
        }
        law_first_word_is_replaced(rest, after, from, to);
        assert(seq![all[0]] + (rest + to + replaced(after, from, to)) =~= before + to + replaced(
            after,
            from,
            to,
        ));
    }
}

/// A text in which a word does not stand is left as it is when the word is replaced.
pub proof fn law_absent_word_is_not_replaced(s: Seq<char>, from: Seq<char>, to: Seq<char>)
    requires
        from.len() > 0,
        forall|i: int| 0 <= i < s.len() ==> !from.is_prefix_of(#[trigger] s.skip(i)),
    ensures
        replaced(s, from, to) == s,
    decreases s.len(),
{
    if s.len() > 0 {
        assert(s.skip(0) =~= s);
        assert forall|i: int| 0 <= i < s.skip(1).len() implies !from.is_prefix_of(
            #[trigger] s.skip(1).skip(i),
        ) by {
            assert(s.skip(1).skip(i) =~= s.skip(i + 1));
        }
        law_absent_word_is_not_replaced(s.skip(1), from, to);
        assert(seq![s[0]] + s.skip(1) =~= s);
    }
}

/// Trimming takes white space from both ends of a text, all of it, and nothing else.
pub proof fn law_trimming_takes_white_space(s: Seq<char>, i: int, j: int)
    requires
        0 <= i <= j <= s.len(),
        forall|k: int| 0 <= k < i || j <= k < s.len() ==> patterns::is_white_space(#[trigger] s[k]),
        i < j ==> !patterns::is_white_space(s[i]) && !patterns::is_white_space(s[j - 1]),
    ensures
        trimmed(s) == s.subrange(i, j),
    decreases s.len(),
{
    if s.len() > 0 && patterns::is_white_space(s[0]) {
        let rest = s.drop_first();
        let from = if i > 0 {
            i - 1
        } else {
            0
        };
        let to = if j > 0 {
            j - 1
        } else {
            0
        };
        assert forall|k: int| 0 <= k < from || to <= k < rest.len() implies patterns::is_white_space(
            #[trigger] rest[k],
        ) by {
            assert(rest[k] == s[k + 1]);
        }
        law_trimming_takes_white_space(rest, from, to);
        assert(rest.subrange(from, to) =~= s.subrange(i, j));
    } else if s.len() > 0 && patterns::is_white_space(s.last()) {
        let rest = s.drop_last();
        law_trimming_takes_white_space(rest, i, j);
        assert(rest.subrange(i, j) =~= s.subrange(i, j));
    } else {
        assert(i == 0) by {
            if i > 0 {
                assert(patterns::is_white_space(s[0]));
            }
        }
        assert(j == s.len()) by {
            if j < s.len() {
                assert(patterns::is_white_space(s[s.len() - 1]));
            }
        }
        assert(s.subrange(i, j) =~= s);
    }
}

/// The number that a text of decimal digits stands for.
pub open spec fn number_of(digits: Seq<char>) -> int
    decreases digits.len(),
{
    if digits.len() == 0 {
        0
    } else {
        number_of(digits.drop_last()) * 10 + (digits.last() as u32 - '0' as u32)
    }
}

/// A number in decimal is a text of digits that stands for it, and opens with a zero only where it is
/// zero.
pub proof fn law_decimal_stands_for_number(n: nat)
    ensures
        number_of(decimal(n)) == n,
        decimal(n).len() > 0,
        n > 0 ==> decimal(n)[0] != '0',
        forall|i: int| 0 <= i < decimal(n).len() ==> '0' <= #[trigger] decimal(n)[i] <= '9',
    decreases n,
{
    reveal_with_fuel(number_of, 2);
    let d = (('0' as u32) + n % 10) as u32;
    assert(48 <= d <= 57);
    assert(digit(n % 10) == d as char);
    assert((d as char) as u32 == d);
    if n < 10 {
        assert(decimal(n).drop_last() =~= Seq::empty());
        assert(decimal(n).last() == digit(n));
    } else {
        law_decimal_stands_for_number(n / 10);
        assert(decimal(n).drop_last() =~= decimal(n / 10));
        assert(decimal(n)[0] == decimal(n / 10)[0]);
        assert forall|i: int| 0 <= i < decimal(n).len() implies '0' <= #[trigger] decimal(n)[i]
            <= '9' by {
            if i < decimal(n / 10).len() {
                assert(decimal(n)[i] == decimal(n / 10)[i]);
            }
        }
    }
}

/// Where the empty word is replaced, the new one stands before the text and behind each of its
/// characters.
pub proof fn law_empty_word_is_everywhere(s: Seq<char>, c: char, to: Seq<char>)
    ensures
        replaced(Seq::empty(), Seq::empty(), to) == to,
        replaced(s.push(c), Seq::empty(), to) == replaced(s, Seq::empty(), to).push(c) + to,
{
    assert(s.push(c).drop_last() =~= s);
}

} // verus!
