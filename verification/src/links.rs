//! Links and code blocks in documentation.

use vstd::prelude::*;
use vstd::string::*;
use crate::patterns;
use crate::patterns::Found;
use crate::strings;
use crate::strings::{characters, is_text, slice_text, trim};
use crate::views;

verus! {

/// A Markdown link, with its label set as code or not.
pub open spec fn markdown_link(label: Seq<char>, url: Seq<char>, code: bool) -> Seq<char> {
    if code {
        "[`"@ + label + "`]("@ + url + ")"@
    } else {
        "["@ + label + "]("@ + url + ")"@
    }
}

/// A Markdown link, with its label set as code or not.
pub fn to_markdown_link(label: &str, url: &str, code: bool) -> (r: String)
    ensures
        r@ == markdown_link(label@, url@, code),
{
    let mut link = if code {
        "[`".to_owned()
    } else {
        "[".to_owned()
    };
    link.append(label);
    if code {
        link.append("`](");
    } else {
        link.append("](");
    }
    link.append(url);
    link.append(")");
    link
}

/// The text of a group that took part in a match.
pub open spec fn group(m: patterns::FoundText, n: int) -> Seq<char> {
    m.groups[n]->0
}

/// The Markdown link for an inline JSDoc link: its label is the text given, without the white space
/// at its ends, or else the address.
pub open spec fn link_for(m: patterns::FoundText) -> Seq<char> {
    let label = match m.groups[2] {
        Some(text) => strings::trimmed(text),
        None => group(m, 1),
    };
    markdown_link(label, group(m, 1), group(m, 0) == "linkcode"@)
}

/// A text from one place on, with Markdown links in the place of the matches.
pub open spec fn with_links(
    text: Seq<char>,
    matches: Seq<patterns::FoundText>,
    from: int,
) -> Seq<char>
    decreases matches.len(),
{
    if matches.len() == 0 {
        text.subrange(from, text.len() as int)
    } else {
        text.subrange(from, matches[0].start()) + link_for(matches[0]) + with_links(
            text,
            matches.skip(1),
            matches[0].end(),
        )
    }
}

/// A text with Markdown links in the place of the inline JSDoc links.
pub open spec fn linked(text: Seq<char>) -> Seq<char> {
    with_links(text, patterns::all_matches(patterns::JSDOC_LINKS@, text), 0)
}

/// The matches of the link pattern lie in a text, one after the other.
pub open spec fn are_links_of(matches: Seq<patterns::FoundText>, text: Seq<char>) -> bool {
    &&& forall|i: int|
        0 <= i < matches.len() ==> {
            let m = #[trigger] matches[i];
            &&& m.within(text)
            &&& m.groups.len() == 3
            &&& m.groups[0] is Some
            &&& m.groups[1] is Some
        }
    &&& forall|i: int, j: int|
        0 <= i < j < matches.len() ==> (#[trigger] matches[i]).end() <= (
        #[trigger] matches[j]).start()
}

/// The Markdown link for an inline JSDoc link.
fn to_link(m: &Found) -> (r: String)
    requires
        m@.groups.len() == 3,
        m@.groups[0] is Some,
        m@.groups[1] is Some,
    ensures
        r@ == link_for(m@),
{
    let ghost seen = m@;
    assert(seen.groups[0] == views::opt_view(m.groups@[0]));
    assert(seen.groups[1] == views::opt_view(m.groups@[1]));
    assert(seen.groups[2] == views::opt_view(m.groups@[2]));
    let address = m.groups[1].as_ref().unwrap();
    let code = is_text(&m.groups[0], "linkcode");
    match &m.groups[2] {
        Some(text) => to_markdown_link(trim(text.as_str()).as_str(), address.as_str(), code),
        None => to_markdown_link(address.as_str(), address.as_str(), code),
    }
}

/// How many characters stand before a match, and how many it has.
fn bounds(m: &Found) -> (r: (usize, usize))
    requires
        m@.end() <= usize::MAX,
    ensures
        r.0 == m@.start(),
        r.1 == m@.end(),
{
    let start: usize = m.before.as_str().unicode_len();
    (start, start + m.whole.as_str().unicode_len())
}

/// A text with Markdown links in the place of the matches given.
pub fn insert_links(text: &str, matches: &Vec<Found>) -> (r: String)
    requires
        are_links_of(views::seq_view(matches@), text@),
    ensures
        r@ == with_links(text@, views::seq_view(matches@), 0),
{
    let ghost seen = views::seq_view(matches@);
    let chars = characters(text);
    let len: usize = chars.len();
    let mut out = String::new();
    let mut from: usize = 0;
    let mut i: usize = 0;
    assert(seen.skip(0) =~= seen);
    while i < matches.len()
        invariant
            i <= matches@.len(),
            chars@ == text@,
            chars@.len() == len,
            seen == views::seq_view(matches@),
            are_links_of(seen, text@),
            from <= len,
            i < seen.len() ==> from <= seen[i as int].start(),
            out@ + with_links(text@, seen.skip(i as int), from as int) == with_links(
                text@,
                seen,
                0,
            ),
        decreases matches.len() - i,
    {
        let ghost m = seen[i as int];
        let ghost before = out@;
        assert(m == matches@[i as int]@);
        let (start, end): (usize, usize) = bounds(&matches[i]);
        out.append(slice_text(&chars, from, start).as_str());
        out.append(to_link(&matches[i]).as_str());
        proof {
            assert(seen.skip(i as int)[0] == m);
            assert(seen.skip(i as int).skip(1) =~= seen.skip(i + 1));
            let rest = with_links(text@, seen.skip(i + 1), end as int);
            assert(out@ + rest =~= before + (text@.subrange(from as int, start as int) + link_for(m)
                + rest));
        }
        from = end;
        i = i + 1;
    }
    out.append(slice_text(&chars, from, len).as_str());
    assert(seen.skip(i as int) =~= Seq::empty());
    out
}

/// The characters that open an inline JSDoc tag stand at a place.
pub open spec fn tag_opens_at(text: Seq<char>, i: int) -> bool {
    0 <= i && i + 1 < text.len() && text[i] == '{' && text[i + 1] == '@'
}

/// Replaces inline JSDoc links by Markdown links. A text in which no inline tag opens is left as it
/// is.
pub fn replace_links(text: &str) -> (r: String)
    ensures
        r@ == linked(text@),
        r@ == with_links(text@, patterns::all_matches(patterns::JSDOC_LINKS@, text@), 0),
        (forall|i: int| !#[trigger] tag_opens_at(text@, i)) ==> r@ == text@,
{
    let matches = patterns::captures_iter(patterns::JSDOC_LINKS, text);
    let ghost seen = views::seq_view(matches@);
    proof {
        assert(seen =~= patterns::all_matches(patterns::JSDOC_LINKS@, text@));
        assert forall|i: int| 0 <= i < seen.len() implies {
            let m = #[trigger] seen[i];
            &&& m.within(text@)
            &&& m.groups.len() == 3
            &&& m.groups[0] is Some
            &&& m.groups[1] is Some
        } by {
            assert(seen[i] == matches@[i]@);
        }
        if forall|i: int| !#[trigger] tag_opens_at(text@, i) {
            if seen.len() > 0 {
                let m = matches@[0]@;
                assert(m.whole[0] == text@[m.start()]);
                assert(m.whole[1] == text@[m.start() + 1]);
                assert(tag_opens_at(text@, m.start()));
            }
            assert(text@.subrange(0, text@.len() as int) =~= text@);
        }
    }
    insert_links(text, &matches)
}

/// A text as a code block: itself where it opens with a fence, else between two fences.
pub open spec fn codeblock(text: Seq<char>) -> Seq<char> {
    if patterns::opens_with_fence(text) {
        text
    } else {
        "```\n"@ + text + "\n```"@
    }
}

/// A text as a code block.
pub fn make_codeblock(text: &str) -> (r: String)
    ensures
        r@ == codeblock(text@),
{
    if patterns::is_match(patterns::CODEBLOCK, text) {
        text.to_owned()
    } else {
        let mut block = "```\n".to_owned();
        block.append(text);
        block.append("\n```");
        block
    }
}

/// A code block is its own code block.
pub proof fn law_codeblock_is_stable(text: Seq<char>)
    ensures
        patterns::opens_with_fence(codeblock(text)),
        codeblock(codeblock(text)) == codeblock(text),
{
    if !patterns::opens_with_fence(text) {
        reveal_strlit("```\n");
        let block = codeblock(text);
        assert(block[0] == '`' && block[1] == '`' && block[2] == '`');
        assert(patterns::blank_to(block, 0));
    }
}

/// A text with another one in the place of a match.
pub open spec fn replace_match(
    text: Seq<char>,
    m: patterns::FoundText,
    new: Seq<char>,
) -> Seq<char> {
    m.before + new + text.skip(m.end())
}

/// A text with another one in the place of a match.
fn put_for_match(text: &str, m: &Found, new: &str) -> (r: String)
    requires
        m@.within(text@),
    ensures
        r@ == replace_match(text@, m@, new@),
{
    let chars = characters(text);
    let len: usize = chars.len();
    let (_, end): (usize, usize) = bounds(m);
    let mut out = m.before.clone();
    out.append(new);
    let rest = slice_text(&chars, end, len);
    assert(rest@ =~= text@.skip(m@.end()));
    out.append(rest.as_str());
    out
}

/// An example: its caption, where it has one, and its code.
pub open spec fn captioned(text: Seq<char>, found: Option<patterns::FoundText>) -> Seq<char> {
    match found {
        Some(m) => replace_match(
            text,
            m,
            group(m, 0) + "\n\n"@ + codeblock(group(m, 1)),
        ),
        None => codeblock(text),
    }
}

/// An author, with the angle brackets around an address taken away.
pub open spec fn signed(text: Seq<char>, found: Option<patterns::FoundText>) -> Seq<char> {
    match found {
        Some(m) => replace_match(text, m, group(m, 0) + " "@ + group(m, 1)),
        None => text,
    }
}

/// A match of a pattern with two groups, each of which took part, lies in a text.
pub open spec fn is_pair_in(found: Option<patterns::FoundText>, text: Seq<char>) -> bool {
    found matches Some(m) ==> m.within(text) && m.groups.len() == 2 && m.groups[0] is Some
        && m.groups[1] is Some
}

/// An example with the caption found in it.
pub fn caption_example(text: &str, found: &Option<Found>) -> (r: String)
    requires
        is_pair_in(views::opt_view(*found), text@),
    ensures
        r@ == captioned(text@, views::opt_view(*found)),
{
    match found {
        Some(m) => {
            let ghost seen = m@;
            assert(seen.groups[0] == views::opt_view(m.groups@[0]));
            assert(seen.groups[1] == views::opt_view(m.groups@[1]));
            let mut new = m.groups[0].as_ref().unwrap().clone();
            new.append("\n\n");
            new.append(make_codeblock(m.groups[1].as_ref().unwrap().as_str()).as_str());
            put_for_match(text, m, new.as_str())
        },
        None => make_codeblock(text),
    }
}

/// An author with the address found behind the name.
pub fn sign_author(text: &str, found: &Option<Found>) -> (r: String)
    requires
        is_pair_in(views::opt_view(*found), text@),
    ensures
        r@ == signed(text@, views::opt_view(*found)),
{
    match found {
        Some(m) => {
            let ghost seen = m@;
            assert(seen.groups[0] == views::opt_view(m.groups@[0]));
            assert(seen.groups[1] == views::opt_view(m.groups@[1]));
            let mut new = m.groups[0].as_ref().unwrap().clone();
            new.append(" ");
            new.append(m.groups[1].as_ref().unwrap().as_str());
            put_for_match(text, m, new.as_str())
        },
        None => text.to_owned(),
    }
}

/// The first inline link of a text gives way to a Markdown link to its address, and what stands before
/// it is kept. The label is the text given, without the white space at its ends, or else the
/// address; a code link sets it between backticks. What follows the link is read on from its end,
/// and a text without links is kept whole.
pub proof fn law_links_take_the_place_of_tags(
    text: Seq<char>,
    matches: Seq<patterns::FoundText>,
    from: int,
)
    requires
        are_links_of(matches, text),
        0 <= from <= text.len(),
        matches.len() > 0 ==> from <= matches[0].before.len(),
    ensures
        matches.len() == 0 ==> with_links(text, matches, from) == text.skip(from),
        matches.len() > 0 ==> {
            let m = matches[0];
            let address = m.groups[1]->0;
            let label = match m.groups[2] {
                Some(given) => strings::trimmed(given),
                None => address,
            };
            let rest = with_links(
                text,
                matches.skip(1),
                (m.before.len() + m.whole.len()) as int,
            );
            &&& m.groups[0]->0 != "linkcode"@ ==> with_links(text, matches, from) == text.subrange(
                from,
                m.before.len() as int,
            ) + seq!['['] + label + seq![']', '('] + address + seq![')'] + rest
            &&& m.groups[0]->0 == "linkcode"@ ==> with_links(text, matches, from) == text.subrange(
                from,
                m.before.len() as int,
            ) + seq!['[', '`'] + label + seq!['`', ']', '('] + address + seq![')'] + rest
        },
{
    reveal_strlit("[");
    reveal_strlit("](");
    reveal_strlit("[`");
    reveal_strlit("`](");
    reveal_strlit(")");
    assert("["@ =~= seq!['[']);
    assert("]("@ =~= seq![']', '(']);
    assert("[`"@ =~= seq!['[', '`']);
    assert("`]("@ =~= seq!['`', ']', '(']);
    assert(")"@ =~= seq![')']);
    if matches.len() == 0 {
        assert(text.subrange(from, text.len() as int) =~= text.skip(from));
    } else {
        let m = matches[0];
        let address = m.groups[1]->0;
        let label = match m.groups[2] {
            Some(given) => strings::trimmed(given),
            None => address,
        };
        let start = text.subrange(from, m.before.len() as int);
        let rest = with_links(text, matches.skip(1), m.end());
        if m.groups[0]->0 == "linkcode"@ {
            assert(with_links(text, matches, from) =~= start + seq!['[', '`'] + label + seq![
                '`',
                ']',
                '(',
            ] + address + seq![')'] + rest);
        } else {
            assert(with_links(text, matches, from) =~= start + seq!['['] + label + seq![']', '(']
                + address + seq![')'] + rest);
        }
    }
}

/// A text that opens with no fence is shown as code between two fences, on lines of its own; one that
/// opens with a fence is code already and is shown as it is.
pub proof fn law_code_stands_between_fences(text: Seq<char>)
    ensures
        patterns::opens_with_fence(text) ==> codeblock(text) == text,
        !patterns::opens_with_fence(text) ==> codeblock(text) == seq!['`', '`', '`', '\n'] + text
            + seq!['\n', '`', '`', '`'],
{
    reveal_strlit("```\n");
    reveal_strlit("\n```");
    assert("```\n"@ =~= seq!['`', '`', '`', '\n']);
    assert("\n```"@ =~= seq!['\n', '`', '`', '`']);
}

/// A captioned example is shown as its caption, a blank line and its code, in the place where they
/// stood; an address in angle brackets is shown without them, behind a space.
pub proof fn law_captions_and_addresses_stay_in_place(text: Seq<char>, m: patterns::FoundText)
    requires
        m.within(text),
        m.groups.len() == 2,
        m.groups[0] is Some,
        m.groups[1] is Some,
    ensures
        ({
            let before = text.take(m.before.len() as int);
            let after = text.skip((m.before.len() + m.whole.len()) as int);
            &&& captioned(text, Some(m)) == before + m.groups[0]->0 + seq!['\n', '\n'] + codeblock(
                m.groups[1]->0,
            ) + after
            &&& signed(text, Some(m)) == before + m.groups[0]->0 + seq![' '] + m.groups[1]->0 + after
            &&& captioned(text, None) == codeblock(text)
            &&& signed(text, None) == text
        }),
{
    reveal_strlit("\n\n");
    reveal_strlit(" ");
    assert("\n\n"@ =~= seq!['\n', '\n']);
    assert(" "@ =~= seq![' ']);
    let before = text.take(m.before.len() as int);
    let after = text.skip((m.before.len() + m.whole.len()) as int);
    assert(before =~= m.before);
    assert(captioned(text, Some(m)) =~= before + m.groups[0]->0 + seq!['\n', '\n'] + codeblock(
        m.groups[1]->0,
    ) + after);
    assert(signed(text, Some(m)) =~= before + m.groups[0]->0 + seq![' '] + m.groups[1]->0 + after);
}

} // verus!
