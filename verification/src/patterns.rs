//! The regular expressions of the crate and what matching with them gives back.

use vstd::prelude::*;
use regex::Regex;

verus! {

/// A bracketed property access such as `['name']`.
pub const BRACKET_ACCESSOR: &'static str = r#"^\[['"](.+)[\['"]\]$"#;

/// An `@example` body that opens with a caption.
pub const CAPTION: &'static str = r"<caption>(.*?)</caption>\s*\r?\n((?:\s|\S)*)";

/// A text that opens with a code fence.
pub const CODEBLOCK: &'static str = r"^\s*[~`]{3}";

/// An author followed by an e-mail address in angle brackets.
pub const EMAIL_MATCH: &'static str = r"(.+)\s<([-.\w]+@[-.\w]+)>";

/// A text that opens with an HTTP scheme.
pub const HTTP: &'static str = r"(?i)^https?:";

/// An inline JSDoc link to an HTTP address.
pub const JSDOC_LINKS: &'static str =
    r"(?i)\{@(link|linkplain|linkcode) (https?://[^ |}]+?)(?:[| ]([^{}\n]+?))?\}";

/// The separators between kind modifiers.
pub const PART_KIND_MODIFIER: &'static str = r",|\s+";

/// The first word of a tag text, with the dash that may follow it.
pub const PART: &'static str = r"^(\S+)\s*-?\s*";

/// The scope number in the name of a refactor action.
pub const SCOPE: &'static str = r"scope_(\d)";

/// A match, as the text before it, its own text and the texts of its groups.
pub struct Found {
    pub before: String,
    pub whole: String,
    pub groups: Vec<Option<String>>,
}

/// What a [`Found`] holds.
pub struct FoundText {
    pub before: Seq<char>,
    pub whole: Seq<char>,
    pub groups: Seq<Option<Seq<char>>>,
}

impl View for Found {
    type V = FoundText;

    open spec fn view(&self) -> FoundText {
        FoundText {
            before: self.before@,
            whole: self.whole@,
            groups: Seq::new(
                self.groups@.len(),
                |i: int| crate::views::opt_view(self.groups@[i]),
            ),
        }
    }
}

impl FoundText {
    /// Where the match begins.
    pub open spec fn start(self) -> int {
        self.before.len() as int
    }

    /// Where the match ends.
    pub open spec fn end(self) -> int {
        (self.before.len() + self.whole.len()) as int
    }

    /// The match lies in `text`.
    pub open spec fn within(self, text: Seq<char>) -> bool {
        &&& self.end() <= text.len()
        &&& self.before == text.subrange(0, self.start())
        &&& self.whole == text.subrange(self.start(), self.end())
    }
}

/// Unicode's `White_Space`, which `\s` stands for.
pub open spec fn is_white_space(c: char) -> bool {
    ||| '\u{9}' <= c <= '\u{d}'
    ||| c == ' '
    ||| c == '\u{85}'
    ||| c == '\u{a0}'
    ||| c == '\u{1680}'
    ||| '\u{2000}' <= c <= '\u{200a}'
    ||| c == '\u{2028}'
    ||| c == '\u{2029}'
    ||| c == '\u{202f}'
    ||| c == '\u{205f}'
    ||| c == '\u{3000}'
}

/// The text opens with `http:` or `https:`, letters taken without regard to case.
pub open spec fn opens_with_http(t: Seq<char>) -> bool {
    &&& t.len() >= 5
    &&& t[0] == 'h' || t[0] == 'H'
    &&& t[1] == 't' || t[1] == 'T'
    &&& t[2] == 't' || t[2] == 'T'
    &&& t[3] == 'p' || t[3] == 'P'
    &&& t[4] == ':' || (t.len() >= 6 && t[5] == ':' && (t[4] == 's' || t[4] == 'S' || t[4]
        == '\u{17f}'))
}

/// After white space alone, three characters that are each a tilde or a backtick.
pub open spec fn opens_with_fence(t: Seq<char>) -> bool {
    exists|n: int|
        0 <= n && n + 3 <= t.len() && #[trigger] blank_to(t, n) && fence_char(t[n]) && fence_char(
            t[n + 1],
        ) && fence_char(t[n + 2])
}

/// The first `n` characters are white space.
pub open spec fn blank_to(t: Seq<char>, n: int) -> bool {
    forall|i: int| 0 <= i < n ==> is_white_space(#[trigger] t[i])
}

/// A character a code fence is made of.
pub open spec fn fence_char(c: char) -> bool {
    c == '~' || c == '`'
}

/// The text is `[`, a quote, a name without a line feed, a quote or another `[`, and `]`.
pub open spec fn is_bracket_accessor(t: Seq<char>) -> bool {
    &&& t.len() >= 5
    &&& t[0] == '['
    &&& t[1] == '\'' || t[1] == '"'
    &&& t[t.len() - 2] == '[' || t[t.len() - 2] == '\'' || t[t.len() - 2] == '"'
    &&& t[t.len() - 1] == ']'
    &&& !t.subrange(2, t.len() - 2).contains('\n')
}

/// `scope_` and an ASCII digit stand at `i`.
pub open spec fn scope_at(t: Seq<char>, i: int) -> bool {
    &&& 0 <= i
    &&& i + 7 <= t.len()
    &&& t.subrange(i, i + 6) == "scope_"@
    &&& '0' <= t[i + 6] <= '9'
}

/// The leftmost match of a pattern in a text.
pub uninterp spec fn first_match(pattern: Seq<char>, text: Seq<char>) -> Option<FoundText>;

/// The successive matches of a pattern in a text.
pub uninterp spec fn all_matches(pattern: Seq<char>, text: Seq<char>) -> Seq<FoundText>;

/// Where the run of white space that begins at `i` ends.
pub open spec fn blank_end(t: Seq<char>, i: int) -> int
    decreases t.len() - i,
{
    if 0 <= i < t.len() && is_white_space(t[i]) {
        blank_end(t, i + 1)
    } else {
        i
    }
}

/// Where the run of other characters that begins at `i` ends.
pub open spec fn word_end(t: Seq<char>, i: int) -> int
    decreases t.len() - i,
{
    if 0 <= i < t.len() && !is_white_space(t[i]) {
        word_end(t, i + 1)
    } else {
        i
    }
}

/// Where the separator of kind modifiers that stands at `i` ends, or `i` where none does.
pub open spec fn separator_end(t: Seq<char>, i: int) -> int {
    if t[i] == ',' {
        i + 1
    } else {
        blank_end(t, i)
    }
}

/// What lies between the separators, when the piece being read began at `from` and reading has
/// come to `i`.
pub open spec fn modifiers_from(t: Seq<char>, from: int, i: int) -> Seq<Seq<char>>
    decreases t.len() - i,
{
    if i < 0 || i >= t.len() {
        seq![t.subrange(from, t.len() as int)]
    } else if i < separator_end(t, i) <= t.len() {
        seq![t.subrange(from, i)] + modifiers_from(t, separator_end(t, i), separator_end(t, i))
    } else {
        modifiers_from(t, from, i + 1)
    }
}

/// The pieces of a list of kind modifiers.
pub open spec fn modifiers(t: Seq<char>) -> Seq<Seq<char>> {
    modifiers_from(t, 0, 0)
}

/// Where the first word of a tag text ends, with a dash and the white space on either side.
pub open spec fn part_end(t: Seq<char>) -> int {
    let after = blank_end(t, word_end(t, 0));
    if after < t.len() && t[after] == '-' {
        blank_end(t, after + 1)
    } else {
        after
    }
}

/// The pieces of a tag text: an empty one and what follows the first word, or the text itself where
/// it does not open with a word.
pub open spec fn part_pieces(t: Seq<char>) -> Seq<Seq<char>> {
    if t.len() > 0 && !is_white_space(t[0]) {
        seq![Seq::<char>::empty(), t.subrange(part_end(t), t.len() as int)]
    } else {
        seq![t]
    }
}

/// Whether a pattern matches anywhere in a text: `regex::Regex::is_match`, on a `Regex` built from
/// `pattern`. The patterns named here are valid, so building one does not fail. Both are anchored at
/// the start of the text, and what each matches is stated outright.
#[verifier::external_body]
pub(crate) fn is_match(pattern: &str, text: &str) -> (r: bool)
    requires
        pattern@ == CODEBLOCK@ || pattern@ == HTTP@,
    ensures
        pattern@ == CODEBLOCK@ ==> r == opens_with_fence(text@),
        pattern@ == HTTP@ ==> r == opens_with_http(text@),
{
    Regex::new(pattern).unwrap().is_match(text)
}

/// The leftmost match and its groups: `regex::Regex::captures`, on a `Regex` built from `pattern`.
/// The match lies in the text. A bracket accessor is matched whole, with the name as its group. The
/// scope pattern gives one character after `scope_`, and no match begins after a place where
/// `scope_` and an ASCII digit stand; which characters outside ASCII are digits is left to Unicode.
/// In the caption and e-mail patterns both groups take part in every match.
#[verifier::external_body]
pub(crate) fn captures(pattern: &str, text: &str) -> (r: Option<Found>)
    requires
        pattern@ == BRACKET_ACCESSOR@ || pattern@ == CAPTION@ || pattern@ == EMAIL_MATCH@
            || pattern@ == SCOPE@,
    ensures
        r is Some == first_match(pattern@, text@) is Some,
        r matches Some(m) ==> {
            &&& first_match(pattern@, text@) == Some(m@)
            &&& m@.within(text@)
            &&& pattern@ == CAPTION@ || pattern@ == EMAIL_MATCH@ ==> m@.groups.len() == 2
            &&& pattern@ == BRACKET_ACCESSOR@ || pattern@ == SCOPE@ ==> m@.groups.len() == 1
            &&& forall|i: int| 0 <= i < m@.groups.len() ==> #[trigger] m@.groups[i] is Some
        },
        pattern@ == BRACKET_ACCESSOR@ ==> {
            &&& r is Some == is_bracket_accessor(text@)
            &&& r matches Some(m) ==> m@.whole == text@ && m@.groups[0] == Some(
                text@.subrange(2, text@.len() - 2),
            )
        },
        pattern@ == SCOPE@ ==> {
            &&& r is None ==> forall|j: int| !#[trigger] scope_at(text@, j)
            &&& r matches Some(m) ==> {
                &&& m@.whole.len() == 7
                &&& m@.whole.subrange(0, 6) == "scope_"@
                &&& m@.groups[0] == Some(seq![m@.whole[6]])
                &&& forall|j: int| #[trigger] scope_at(text@, j) ==> m@.start() <= j
            }
        },
{
    Regex::new(pattern).unwrap().captures(text).map(|c| {
        let m = c.get(0).unwrap();
        Found {
            before: text[..m.start()].to_string(),
            whole: m.as_str().to_string(),
            groups: c.iter().skip(1).map(|g| g.map(|g| g.as_str().to_string())).collect(),
        }
    })
}

/// The successive matches and their groups: `regex::Regex::captures_iter`, on a `Regex` built from
/// `pattern`. The matches lie in the text, none overlaps another, and they come in order. A JSDoc
/// link opens with `{@` and closes with `}`, and its keyword and address take part in every match.
#[verifier::external_body]
pub(crate) fn captures_iter(pattern: &str, text: &str) -> (r: Vec<Found>)
    requires
        pattern@ == JSDOC_LINKS@,
    ensures
        Seq::new(r@.len(), |i: int| r@[i]@) == all_matches(pattern@, text@),
        forall|i: int| 0 <= i < r@.len() ==> (#[trigger] r@[i])@.within(text@),
        forall|i: int, j: int|
            0 <= i < j < r@.len() ==> (#[trigger] r@[i])@.end() <= (#[trigger] r@[j])@.start(),
        forall|i: int|
            0 <= i < r@.len() ==> {
                let m = (#[trigger] r@[i])@;
                &&& m.groups.len() == 3
                &&& m.groups[0] is Some
                &&& m.groups[1] is Some
                &&& m.whole.len() >= 3
                &&& m.whole[0] == '{'
                &&& m.whole[1] == '@'
                &&& m.whole[m.whole.len() - 1] == '}'
            },
{
    Regex::new(pattern).unwrap().captures_iter(text).map(|c| {
        let m = c.get(0).unwrap();
        Found {
            before: text[..m.start()].to_string(),
            whole: m.as_str().to_string(),
            groups: c.iter().skip(1).map(|g| g.map(|g| g.as_str().to_string())).collect(),
        }
    }).collect()
}

/// The pieces between the matches of a pattern: `regex::Regex::split`, on a `Regex` built from
/// `pattern`. What the two patterns leave is stated outright.
#[verifier::external_body]
pub(crate) fn split(pattern: &str, text: &str) -> (r: Vec<String>)
    requires
        pattern@ == PART_KIND_MODIFIER@ || pattern@ == PART@,
    ensures
        pattern@ == PART_KIND_MODIFIER@ ==> crate::views::seq_view(r@) == modifiers(text@),
        pattern@ == PART@ ==> crate::views::seq_view(r@) == part_pieces(text@),
{
    Regex::new(pattern).unwrap().split(text).map(|piece| piece.to_string()).collect()
}

} // verus!
