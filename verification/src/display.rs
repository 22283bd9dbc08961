//! The display parts in which the compiler gives texts and documentation.

use std::sync::Arc;
use vstd::prelude::*;
use vstd::string::*;
use crate::document_span::DocumentSpan;
use crate::language_server::Inner;
use crate::links;
use crate::links::{
    caption_example, make_codeblock, replace_links, sign_author, to_markdown_link,
};
use crate::lsp;
use crate::lsp::{Hover, MarkedString};
use crate::patterns;
use crate::span;
use crate::span::TextSpan;
use crate::strings;
use crate::strings::{contains_char, join, replace, same_text, split_first};
use crate::text;
use crate::text::LineIndex;
use crate::views;

verus! {

/// A part of a text.
#[derive(Debug)]
pub struct SymbolDisplayPart {
    pub text: String,
    pub kind: String,
    /// What a part of a link points to.
    pub target: Option<DocumentSpan>,
}

/// A JSDoc tag.
#[derive(Debug)]
pub struct JsDocTagInfo {
    pub name: String,
    pub text: Option<Vec<SymbolDisplayPart>>,
}

/// What the compiler tells of a place in a document.
#[derive(Debug)]
pub struct QuickInfo {
    pub text_span: TextSpan,
    pub display_parts: Option<Vec<SymbolDisplayPart>>,
    pub documentation: Option<Vec<SymbolDisplayPart>>,
    pub tags: Option<Vec<JsDocTagInfo>>,
}

/// A link that is being read.
struct Link {
    name: Option<String>,
    target: Option<DocumentSpan>,
    text: Option<String>,
    linkcode: bool,
}

/// What a link that is being read holds.
pub struct LinkView {
    pub name: Option<Seq<char>>,
    pub target: Option<DocumentSpan>,
    pub text: Option<Seq<char>>,
    pub linkcode: bool,
}

impl View for Link {
    type V = LinkView;

    closed spec fn view(&self) -> LinkView {
        LinkView {
            name: views::opt_view(self.name),
            target: self.target,
            text: views::opt_view(self.text),
            linkcode: self.linkcode,
        }
    }
}

/// The target of every part that has one ends at an offset that can be counted.
pub open spec fn parts_fit(parts: Seq<SymbolDisplayPart>) -> bool {
    forall|i: int|
        0 <= i < parts.len() ==> ((#[trigger] parts[i]).target matches Some(target)
            ==> target.text_span.fits())
}

/// The parts of every tag fit.
pub open spec fn tags_fit(tags: Seq<JsDocTagInfo>) -> bool {
    forall|i: int|
        0 <= i < tags.len() ==> ((#[trigger] tags[i]).text matches Some(parts) ==> parts_fit(
            parts@,
        ))
}

/// The parts that are there fit.
pub open spec fn opt_parts_fit(parts: Option<Vec<SymbolDisplayPart>>) -> bool {
    parts matches Some(parts) ==> parts_fit(parts@)
}

/// The tags that are there fit.
pub open spec fn opt_tags_fit(tags: Option<Vec<JsDocTagInfo>>) -> bool {
    tags matches Some(tags) ==> tags_fit(tags@)
}

/// A text with its backticks escaped.
pub open spec fn escaped(text: Seq<char>) -> Seq<char> {
    strings::replaced(text, "`"@, "\\`"@)
}

/// The text of a link to an address: the address alone, or a label and the address, which are
/// divided by the first space.
pub open spec fn address_link(text: Seq<char>, code: bool) -> Seq<char> {
    let space = strings::first_index(text, ' ');
    if space < text.len() {
        links::markdown_link(escaped(text.skip(space + 1)), text.subrange(0, space), code)
    } else {
        text.subrange(0, space)
    }
}

/// What a link comes to when it closes.
pub open spec fn closed_link(link: LinkView, language_server: Inner) -> Seq<char> {
    match link.target {
        Some(target) => match target.target(language_server) {
            Some(url) => {
                let label = match (link.text, link.name) {
                    (Some(text), _) => text,
                    (None, Some(name)) => escaped(name),
                    (None, None) => ""@,
                };
                links::markdown_link(label, url, link.linkcode)
            },
            None => Seq::empty(),
        },
        None => match if link.text is Some {
            link.text
        } else {
            link.name
        } {
            Some(text) => if patterns::opens_with_http(text) {
                address_link(text, link.linkcode)
            } else {
                escaped(text)
            },
            None => Seq::empty(),
        },
    }
}

/// The text that was read from parts, and the link that is open after them.
pub struct DisplayState {
    pub out: Seq<char>,
    pub link: Option<LinkView>,
}

/// Reading one more part.
pub open spec fn read_part(
    state: DisplayState,
    part: SymbolDisplayPart,
    language_server: Inner,
) -> DisplayState {
    if part.kind@ == "link"@ {
        match state.link {
            Some(link) => DisplayState {
                out: state.out + closed_link(link, language_server),
                link: None,
            },
            None => DisplayState {
                link: Some(
                    LinkView {
                        name: None,
                        target: None,
                        text: None,
                        linkcode: part.text@ == "{@linkcode "@,
                    },
                ),
                ..state
            },
        }
    } else if part.kind@ == "linkName"@ {
        match state.link {
            Some(link) => DisplayState {
                link: Some(LinkView { name: Some(part.text@), target: part.target, ..link }),
                ..state
            },
            None => state,
        }
    } else if part.kind@ == "linkText"@ {
        match state.link {
            Some(link) => DisplayState {
                link: Some(LinkView { name: Some(part.text@), ..link }),
                ..state
            },
            None => state,
        }
    } else {
        DisplayState { out: state.out + part.text@, ..state }
    }
}

/// Reading parts from the first to the last.
pub open spec fn read_parts(
    parts: Seq<SymbolDisplayPart>,
    language_server: Inner,
) -> DisplayState
    decreases parts.len(),
{
    if parts.len() == 0 {
        DisplayState { out: Seq::empty(), link: None }
    } else {
        read_part(
            read_parts(parts.drop_last(), language_server),
            parts.last(),
            language_server,
        )
    }
}

/// The text of display parts.
pub open spec fn display_text(parts: Seq<SymbolDisplayPart>, language_server: Inner) -> Seq<char> {
    links::linked(read_parts(parts, language_server).out)
}

/// What a link comes to when it closes.
fn close_link(link: &Link, language_server: &Inner) -> (r: String)
    requires
        link.target matches Some(target) ==> target.text_span.fits(),
    ensures
        r@ == closed_link(link@, *language_server),
{
    if let Some(target) = &link.target {
        match target.to_target(language_server) {
            Some(specifier) => {
                let link_text = match &link.text {
                    Some(text) => text.clone(),
                    None => match &link.name {
                        Some(name) => replace(name.as_str(), "`", "\\`"),
                        None => "".to_owned(),
                    },
                };
                to_markdown_link(link_text.as_str(), specifier.as_str(), link.linkcode)
            },
            None => String::new(),
        }
    } else {
        let maybe_text = match &link.text {
            Some(text) => Some(text.clone()),
            None => link.name.clone(),
        };
        match maybe_text {
            Some(text) => if patterns::is_match(patterns::HTTP, text.as_str()) {
                match split_first(text.as_str(), ' ') {
                    (address, Some(rest)) => {
                        let link_text = replace(rest.as_str(), "`", "\\`");
                        to_markdown_link(link_text.as_str(), address.as_str(), link.linkcode)
                    },
                    (address, None) => address,
                }
            } else {
                replace(text.as_str(), "`", "\\`")
            },
            None => String::new(),
        }
    }
}

/// The text of display parts: `{@link Symbol}` and `{@linkcode Symbol}` become links to where the
/// symbols are, and the other inline JSDoc links become links to their addresses.
pub fn display_parts_to_string(
    parts: &[SymbolDisplayPart],
    language_server: &Inner,
) -> (r: String)
    requires
        parts_fit(parts@),
    ensures
        r@ == display_text(parts@, *language_server),
        r@ == links::with_links(
            read_parts(parts@, *language_server).out,
            patterns::all_matches(
                patterns::JSDOC_LINKS@,
                read_parts(parts@, *language_server).out,
            ),
            0,
        ),
        (forall|i: int|
            !#[trigger] links::tag_opens_at(read_parts(parts@, *language_server).out, i)) ==> r@
            == read_parts(parts@, *language_server).out,
{
    replace_links(join_display_parts(parts, language_server).as_str())
}

/// The text of display parts, before the inline JSDoc links to addresses are replaced.
pub fn join_display_parts(parts: &[SymbolDisplayPart], language_server: &Inner) -> (r: String)
    requires
        parts_fit(parts@),
    ensures
        r@ == read_parts(parts@, *language_server).out,
{
    let mut out = String::new();
    let mut current_link: Option<Link> = None;
    let mut i: usize = 0;
    assert(parts@.take(0) =~= Seq::empty());
    while i < parts.len()
        invariant
            i <= parts@.len(),
            parts_fit(parts@),
            out@ == read_parts(parts@.take(i as int), *language_server).out,
            views::opt_view(current_link) == read_parts(
                parts@.take(i as int),
                *language_server,
            ).link,
            current_link matches Some(link) ==> (link.target matches Some(target)
                ==> target.text_span.fits()),
        decreases parts.len() - i,
    {
        let part = &parts[i];
        proof {
            assert(parts@.take(i + 1).drop_last() =~= parts@.take(i as int));
            assert(parts@.take(i + 1).last() == *part);
        }
        let kind = part.kind.as_str();
        if same_text(kind, "link") {
            current_link =
            match current_link {
                Some(link) => {
                    out.append(close_link(&link, language_server).as_str());
                    None
                },
                None => Some(
                    Link {
                        name: None,
                        target: None,
                        text: None,
                        linkcode: same_text(part.text.as_str(), "{@linkcode "),
                    },
                ),
            };
        } else if same_text(kind, "linkName") {
            current_link =
            match current_link {
                Some(link) => Some(
                    Link {
                        name: Some(part.text.clone()),
                        target: part.target.clone(),
                        text: link.text,
                        linkcode: link.linkcode,
                    },
                ),
                None => None,
            };
        } else if same_text(kind, "linkText") {
            current_link =
            match current_link {
                Some(link) => Some(
                    Link {
                        name: Some(part.text.clone()),
                        target: link.target,
                        text: link.text,
                        linkcode: link.linkcode,
                    },
                ),
                None => None,
            };
        } else {
            out.append(part.text.as_str());
        }
        i = i + 1;
    }
    assert(parts@.take(i as int) =~= parts@);
    out
}

/// Escaping puts a backslash before every backtick and keeps every other character.
pub proof fn law_backticks_are_escaped(before: Seq<char>, c: char)
    ensures
        escaped(Seq::empty()) == Seq::<char>::empty(),
        c == '`' ==> escaped(before.push(c)) == escaped(before).push('\\').push('`'),
        c != '`' ==> escaped(before.push(c)) == escaped(before).push(c),
        !before.contains('`') ==> escaped(before) == before,
{
    reveal_strlit("`");
    reveal_strlit("\\`");
    assert("`"@ =~= seq!['`']);
    assert("\\`"@ =~= seq!['\\', '`']);
    lemma_escaped_push(before, c);
    if !before.contains('`') {
        assert("`"@.contains("`"@[0]));
        strings::lemma_nothing_replaced(before, "`"@, "\\`"@, '`');
    }
}

proof fn lemma_escaped_push(before: Seq<char>, c: char)
    requires
        "`"@ == seq!['`'],
        "\\`"@ == seq!['\\', '`'],
    ensures
        c == '`' ==> escaped(before.push(c)) == escaped(before).push('\\').push('`'),
        c != '`' ==> escaped(before.push(c)) == escaped(before).push(c),
    decreases before.len(),
{
    let word = "`"@;
    let all = before.push(c);
    assert(word.is_prefix_of(all) <==> all[0] == '`') by {
        assert(all.subrange(0, 1) =~= seq![all[0]]);
        assert(word[0] == '`' && word.len() == 1);
        assert(seq![all[0]][0] == all[0]);
    }
    if before.len() == 0 {
        assert(all.skip(1) =~= Seq::empty());
        assert(escaped(all.skip(1)) =~= Seq::empty());
        assert(escaped(before) =~= Seq::empty());
        if c == '`' {
            assert(escaped(all) =~= seq!['\\', '`']);
        } else {
            assert(escaped(all) =~= seq![c]);
        }
    } else {
        lemma_escaped_push(before.skip(1), c);
        assert(all.skip(1) =~= before.skip(1).push(c));
        assert(word.is_prefix_of(before) <==> before[0] == '`') by {
            assert(before.subrange(0, 1) =~= seq![before[0]]);
            assert(seq![before[0]][0] == before[0]);
        }
        if c == '`' {
            assert(escaped(all) =~= escaped(before).push('\\').push('`'));
        } else {
            assert(escaped(all) =~= escaped(before).push(c));
        }
    }
}

/// How many parts open or close a link.
pub open spec fn link_marks(parts: Seq<SymbolDisplayPart>) -> nat
    decreases parts.len(),
{
    if parts.len() == 0 {
        0
    } else {
        link_marks(parts.drop_last()) + if parts.last().kind@ == "link"@ {
            1nat
        } else {
            0nat
        }
    }
}

proof fn lemma_link_is_open(parts: Seq<SymbolDisplayPart>, language_server: Inner)
    ensures
        read_parts(parts, language_server).link is Some <==> link_marks(parts) % 2 == 1,
    decreases parts.len(),
{
    if parts.len() > 0 {
        lemma_link_is_open(parts.drop_last(), language_server);
    }
}

/// The parts that come after those whose links are all closed are read as if they came first: what
/// they say stands behind what was said before.
pub proof fn law_parts_are_read_in_turn(
    first: Seq<SymbolDisplayPart>,
    rest: Seq<SymbolDisplayPart>,
    language_server: Inner,
)
    requires
        link_marks(first) % 2 == 0,
    ensures
        read_parts(first + rest, language_server).out == read_parts(
            first,
            language_server,
        ).out + read_parts(rest, language_server).out,
        read_parts(first + rest, language_server).link == read_parts(
            rest,
            language_server,
        ).link,
    decreases rest.len(),
{
    let all = first + rest;
    lemma_link_is_open(first, language_server);
    if rest.len() == 0 {
        assert(all =~= first);
        assert(read_parts(all, language_server).out =~= read_parts(first, language_server).out
            + Seq::<char>::empty());
    } else {
        law_parts_are_read_in_turn(first, rest.drop_last(), language_server);
        assert(all.drop_last() =~= first + rest.drop_last());
        assert(all.last() == rest.last());
        assert(read_parts(all, language_server).out =~= read_parts(first, language_server).out
            + read_parts(rest, language_server).out);
    }
}

/// A part that is of no link is shown as it is, behind what was said before, also where it stands in a
/// link. The name and the text of a link show nothing by themselves, nor does the mark that opens it.
pub proof fn law_plain_parts_are_shown_as_they_are(
    first: Seq<SymbolDisplayPart>,
    part: SymbolDisplayPart,
    language_server: Inner,
)
    ensures
        ({
            let before = read_parts(first, language_server).out;
            let after = read_parts(first.push(part), language_server).out;
            &&& part.kind@ != "link"@ && part.kind@ != "linkName"@ && part.kind@ != "linkText"@
                ==> after == before + part.text@
            &&& part.kind@ == "linkName"@ || part.kind@ == "linkText"@ ==> after == before
            &&& part.kind@ == "link"@ && link_marks(first) % 2 == 0 ==> after == before
        }),
        link_marks(first.push(part)) == link_marks(first) + if part.kind@ == "link"@ {
            1int
        } else {
            0int
        },
        read_parts(Seq::empty(), language_server).out.len() == 0,
        link_marks(Seq::empty()) == 0,
{
    lemma_link_kinds();
    lemma_link_is_open(first, language_server);
    assert(first.push(part).drop_last() =~= first);
}

proof fn lemma_link_kinds()
    ensures
        "link"@ != "linkName"@,
        "link"@ != "linkText"@,
        "linkName"@ != "linkText"@,
{
    reveal_strlit("link");
    reveal_strlit("linkName");
    reveal_strlit("linkText");
    assert("link"@.len() == 4 && "linkName"@.len() == 8 && "linkText"@.len() == 8);
    assert("linkName"@[4] == 'N');
    assert("linkText"@[4] == 'T');
}

/// The parts of a whole link: the mark that opens it, its name, its text where it has one, and the
/// mark that closes it.
proof fn lemma_whole_link(parts: Seq<SymbolDisplayPart>, language_server: Inner)
    requires
        3 <= parts.len() <= 4,
        parts[0].kind@ == "link"@,
        parts[1].kind@ == "linkName"@,
        parts.len() == 4 ==> parts[2].kind@ == "linkText"@,
        parts.last().kind@ == "link"@,
    ensures
        link_marks(parts) == 2,
        read_parts(parts, language_server).link is None,
        read_parts(parts, language_server).out == closed_link(
            LinkView {
                name: Some(parts[parts.len() - 2].text@),
                target: parts[1].target,
                text: None,
                linkcode: parts[0].text@ == "{@linkcode "@,
            },
            language_server,
        ),
{
    lemma_link_kinds();
    reveal_with_fuel(read_parts, 5);
    reveal_with_fuel(link_marks, 5);
    if parts.len() == 4 {
        assert(parts.drop_last() =~= seq![parts[0], parts[1], parts[2]]);
    } else {
        assert(parts.drop_last() =~= seq![parts[0], parts[1]]);
    }
    assert(seq![parts[0], parts[1], parts[2]].drop_last() =~= seq![parts[0], parts[1]]);
    assert(seq![parts[0], parts[1]].drop_last() =~= seq![parts[0]]);
    assert(seq![parts[0]].drop_last() =~= Seq::empty());
    assert(read_parts(Seq::<SymbolDisplayPart>::empty(), language_server).out =~= Seq::empty());
    let name = parts[parts.len() - 2].text@;
    let link = LinkView {
        name: Some(name),
        target: parts[1].target,
        text: None,
        linkcode: parts[0].text@ == "{@linkcode "@,
    };
    assert(read_parts(parts.drop_last(), language_server).link == Some(link));
    assert(Seq::<char>::empty() + closed_link(link, language_server) =~= closed_link(
        link,
        language_server,
    ));
}

/// A link to a symbol is shown as a Markdown link to where the symbol is. Its label is the text of the
/// link, or the name of the symbol where the link has no text, with its backticks escaped; a code
/// link sets it between backticks.
pub proof fn law_links_to_symbols_are_shown(
    parts: Seq<SymbolDisplayPart>,
    url: Seq<char>,
    language_server: Inner,
)
    requires
        3 <= parts.len() <= 4,
        parts[0].kind@ == "link"@,
        parts[1].kind@ == "linkName"@,
        parts[1].target matches Some(target) && target.target(language_server) == Some(url),
        parts.len() == 4 ==> parts[2].kind@ == "linkText"@,
        parts.last().kind@ == "link"@,
    ensures
        ({
            let out = read_parts(parts, language_server).out;
            let shown = if parts.len() == 4 {
                parts[2].text@
            } else {
                parts[1].text@
            };
            let label = escaped(shown);
            let code = parts[0].text@ == "{@linkcode "@;
            &&& link_marks(parts) % 2 == 0
            &&& !code ==> out == seq!['['] + label + seq![']', '('] + url + seq![')']
            &&& code ==> out == seq!['[', '`'] + label + seq!['`', ']', '('] + url + seq![')']
            &&& !shown.contains('`') ==> label == shown
        }),
{
    reveal_strlit("[");
    reveal_strlit("](");
    reveal_strlit("[`");
    reveal_strlit("`](");
    reveal_strlit(")");
    lemma_whole_link(parts, language_server);
    let shown = if parts.len() == 4 {
        parts[2].text@
    } else {
        parts[1].text@
    };
    law_backticks_are_escaped(shown, '`');
    assert("["@ =~= seq!['[']);
    assert("]("@ =~= seq![']', '(']);
    assert("[`"@ =~= seq!['[', '`']);
    assert("`]("@ =~= seq!['`', ']', '(']);
    assert(")"@ =~= seq![')']);
}

/// A link to a symbol in a file that the client does not know as a document is not shown.
pub proof fn law_links_to_unknown_files_are_dropped(
    parts: Seq<SymbolDisplayPart>,
    language_server: Inner,
)
    requires
        3 <= parts.len() <= 4,
        parts[0].kind@ == "link"@,
        parts[1].kind@ == "linkName"@,
        parts[1].target matches Some(target) && target.target(language_server) is None,
        parts.len() == 4 ==> parts[2].kind@ == "linkText"@,
        parts.last().kind@ == "link"@,
    ensures
        read_parts(parts, language_server).out.len() == 0,
        link_marks(parts) % 2 == 0,
{
    lemma_whole_link(parts, language_server);
}

/// A link that points to no symbol is shown as its text, or its name where it has none, with the
/// backticks escaped. Where that opens with an HTTP scheme, it is an address: what stands behind its
/// first space is the label of a Markdown link to what stands before it, and an address without a
/// space is shown as it is.
pub proof fn law_links_without_target_are_shown(
    parts: Seq<SymbolDisplayPart>,
    address: Seq<char>,
    label: Seq<char>,
    language_server: Inner,
)
    requires
        3 <= parts.len() <= 4,
        parts[0].kind@ == "link"@,
        parts[1].kind@ == "linkName"@,
        parts[1].target is None,
        parts.len() == 4 ==> parts[2].kind@ == "linkText"@,
        parts.last().kind@ == "link"@,
        !address.contains(' '),
    ensures
        ({
            let out = read_parts(parts, language_server).out;
            let shown = if parts.len() == 4 {
                parts[2].text@
            } else {
                parts[1].text@
            };
            let http = patterns::opens_with_http(shown);
            &&& link_marks(parts) % 2 == 0
            &&& !http ==> out == escaped(shown)
            &&& http && shown == address ==> out == address
            &&& http && shown == address + seq![' '] + label && parts[0].text@ != "{@linkcode "@
                ==> out == seq!['['] + escaped(label) + seq![']', '('] + address + seq![')']
            &&& http && shown == address + seq![' '] + label && parts[0].text@ == "{@linkcode "@
                ==> out == seq!['[', '`'] + escaped(label) + seq!['`', ']', '('] + address
                + seq![')']
        }),
{
    reveal_strlit("[");
    reveal_strlit("](");
    reveal_strlit(")");
    reveal_strlit("[`");
    reveal_strlit("`](");
    lemma_whole_link(parts, language_server);
    assert("["@ =~= seq!['[']);
    assert("]("@ =~= seq![']', '(']);
    assert("[`"@ =~= seq!['[', '`']);
    assert("`]("@ =~= seq!['`', ']', '(']);
    assert(")"@ =~= seq![')']);
    let shown = if parts.len() == 4 {
        parts[2].text@
    } else {
        parts[1].text@
    };
    let n = address.len() as int;
    assert forall|i: int| 0 <= i < n implies address[i] != ' ' by {
        assert(address.contains(address[i]));
    }
    if shown == address {
        strings::lemma_first_index(shown, ' ', n);
        assert(shown.subrange(0, n) =~= address);
    } else if shown == address + seq![' '] + label {
        assert(shown[n] == ' ');
        strings::lemma_first_index(shown, ' ', n);
        assert(shown.subrange(0, n) =~= address);
        assert(shown.skip(n + 1) =~= label);
    }
}

/// What the text of a tag comes to, by the name of the tag.
pub open spec fn tag_text(name: Seq<char>, text: Seq<char>) -> Seq<char> {
    if name == "example"@ {
        links::captioned(text, patterns::first_match(patterns::CAPTION@, text))
    } else if name == "author"@ {
        links::signed(text, patterns::first_match(patterns::EMAIL_MATCH@, text))
    } else if name == "default"@ {
        links::codeblock(text)
    } else {
        links::linked(text)
    }
}

/// The body of a tag, where it has one.
pub open spec fn tag_body(tag: JsDocTagInfo, language_server: Inner) -> Option<Seq<char>> {
    match tag.text {
        Some(parts) => Some(tag_text(tag.name@, display_text(parts@, language_server))),
        None => None,
    }
}

/// A label with a text behind it, on the same line or on the next.
pub open spec fn labelled(label: Seq<char>, text: Seq<char>) -> Seq<char> {
    if text.contains('\n') {
        label + "  \n"@ + text
    } else {
        label + " - "@ + text
    }
}

/// A tag that names a parameter or a type.
pub open spec fn names_a_thing(name: Seq<char>) -> bool {
    name == "augments"@ || name == "extends"@ || name == "param"@ || name == "template"@
}

/// A tag whose text has been split in three: what stands before the name, the name and what is said
/// of it.
pub open spec fn thing_documentation(name: Seq<char>, pieces: Seq<Seq<char>>) -> Seq<char> {
    let label = "*@"@ + name + "* `"@ + pieces[1] + "`"@;
    if pieces[2].len() == 0 {
        label
    } else if pieces[2].contains('\n') {
        label + "  \n"@ + links::linked(pieces[2])
    } else {
        label + " - "@ + links::linked(pieces[2])
    }
}

/// The documentation of a tag without regard to what it names.
pub open spec fn plain_documentation(tag: JsDocTagInfo, language_server: Inner) -> Seq<char> {
    let label = "*@"@ + tag.name@ + "*"@;
    match tag_body(tag, language_server) {
        Some(text) => labelled(label, text),
        None => label,
    }
}

/// The documentation of a tag.
pub open spec fn tag_documentation(tag: JsDocTagInfo, language_server: Inner) -> Seq<char> {
    if names_a_thing(tag.name@) && tag.text is Some && patterns::part_pieces(
        display_text(tag.text->0@, language_server),
    ).len() == 3 {
        thing_documentation(
            tag.name@,
            patterns::part_pieces(display_text(tag.text->0@, language_server)),
        )
    } else {
        plain_documentation(tag, language_server)
    }
}

/// The body of a tag, where it has one.
pub fn get_tag_body_text(tag: &JsDocTagInfo, language_server: &Inner) -> (r: Option<String>)
    requires
        opt_parts_fit(tag.text),
    ensures
        views::opt_view(r) == tag_body(*tag, *language_server),
{
    let display_parts = match &tag.text {
        Some(display_parts) => display_parts,
        None => return None,
    };
    let text = display_parts_to_string(display_parts.as_slice(), language_server);
    let name = tag.name.as_str();
    if same_text(name, "example") {
        let found = patterns::captures(patterns::CAPTION, text.as_str());
        Some(caption_example(text.as_str(), &found))
    } else if same_text(name, "author") {
        let found = patterns::captures(patterns::EMAIL_MATCH, text.as_str());
        Some(sign_author(text.as_str(), &found))
    } else if same_text(name, "default") {
        Some(make_codeblock(text.as_str()))
    } else {
        Some(replace_links(text.as_str()))
    }
}

/// A label with a text behind it, on the same line or on the next.
fn label_text(label: String, text: &str, breaks: bool) -> (r: String)
    ensures
        r@ == (if breaks {
            label@ + "  \n"@ + text@
        } else {
            label@ + " - "@ + text@
        }),
{
    let mut out = label;
    if breaks {
        out.append("  \n");
    } else {
        out.append(" - ");
    }
    out.append(text);
    out
}

/// The documentation of a tag.
pub fn get_tag_documentation(tag: &JsDocTagInfo, language_server: &Inner) -> (r: String)
    requires
        opt_parts_fit(tag.text),
    ensures
        r@ == tag_documentation(*tag, *language_server),
{
    let name = tag.name.as_str();
    if same_text(name, "augments") || same_text(name, "extends") || same_text(name, "param")
        || same_text(name, "template") {
        if let Some(display_parts) = &tag.text {
            let text = display_parts_to_string(display_parts.as_slice(), language_server);
            let body = patterns::split(patterns::PART, text.as_str());
            if body.len() == 3 {
                let ghost pieces = patterns::part_pieces(text@);
                assert(pieces[1] == views::seq_view(body@)[1]);
                assert(pieces[2] == views::seq_view(body@)[2]);
                let doc = body[2].as_str();
                let mut label = "*@".to_owned();
                label.append(name);
                label.append("* `");
                label.append(body[1].as_str());
                label.append("`");
                if doc.is_empty() {
                    return label;
                }
                return label_text(
                    label,
                    replace_links(doc).as_str(),
                    contains_char(doc, '\n'),
                );
            }
        }
    }
    let mut label = "*@".to_owned();
    label.append(name);
    label.append("*");
    match get_tag_body_text(tag, language_server) {
        Some(text) => {
            let breaks = contains_char(text.as_str(), '\n');
            label_text(label, text.as_str(), breaks)
        },
        None => label,
    }
}

/// The documentation of each of the tags.
pub open spec fn tags_documentation(
    tags: Seq<JsDocTagInfo>,
    language_server: Inner,
) -> Seq<Seq<char>> {
    Seq::new(tags.len(), |i: int| tag_documentation(tags[i], language_server))
}

/// The documentation of the tags, with a separator between one tag and the next.
pub fn get_tags_documentation(
    tags: &Vec<JsDocTagInfo>,
    language_server: &Inner,
    separator: &str,
) -> (r: String)
    requires
        tags_fit(tags@),
    ensures
        r@ == strings::joined(tags_documentation(tags@, *language_server), separator@),
{
    let mut list: Vec<String> = Vec::new();
    let mut i: usize = 0;
    while i < tags.len()
        invariant
            i <= tags@.len(),
            list@.len() == i,
            tags_fit(tags@),
            forall|j: int|
                0 <= j < i ==> (#[trigger] list@[j])@ == tag_documentation(
                    tags@[j],
                    *language_server,
                ),
        decreases tags.len() - i,
    {
        list.push(get_tag_documentation(&tags[i], language_server));
        i = i + 1;
    }
    assert(views::seq_view(list@) =~= tags_documentation(tags@, *language_server));
    join(&list, separator)
}

/// A tag that names a parameter or a type is documented like every other tag: splitting its text
/// never gives three pieces.
pub proof fn law_tags_are_documented_alike(tag: JsDocTagInfo, language_server: Inner)
    ensures
        tag_documentation(tag, language_server) == plain_documentation(tag, language_server),
{
}

impl QuickInfo {
    /// Every span ends at an offset that can be counted.
    pub open spec fn fits(self) -> bool {
        &&& self.text_span.fits()
        &&& opt_parts_fit(self.display_parts)
        &&& opt_parts_fit(self.documentation)
        &&& opt_tags_fit(self.tags)
    }

    /// What is shown: the signature, the documentation and the tags, as far as they are there.
    pub open spec fn hover(self, language_server: Inner) -> Seq<lsp::MarkedText> {
        let signature = match self.display_parts {
            Some(parts) => seq![
                lsp::MarkedText::LanguageString {
                    language: "typescript"@,
                    value: display_text(parts@, language_server),
                },
            ],
            None => Seq::empty(),
        };
        let documentation = match self.documentation {
            Some(parts) => seq![
                lsp::MarkedText::Markdown(display_text(parts@, language_server)),
            ],
            None => Seq::empty(),
        };
        let tags = match self.tags {
            Some(tags) => {
                let preview = strings::joined(
                    tags_documentation(tags@, language_server),
                    "  \n\n"@,
                );
                if preview.len() > 0 {
                    seq![lsp::MarkedText::Markdown("\n\n"@ + preview)]
                } else {
                    Seq::empty()
                }
            },
            None => Seq::empty(),
        };
        signature + documentation + tags
    }

    /// What is shown where the pointer rests.
    pub fn to_hover(&self, line_index: Arc<LineIndex>, language_server: &Inner) -> (r: Hover)
        requires
            self.fits(),
        ensures
            views::seq_view(r.contents@) == self.hover(*language_server),
            r.range == Some(span::range_of(self.text_span, line_index@)),
            r.range matches Some(range) && range.start == text::position_at(
                line_index@,
                self.text_span.start as nat,
            ) && range.end == text::position_at(
                line_index@,
                (self.text_span.start + self.text_span.length) as nat,
            ),
    {
        let mut parts: Vec<MarkedString> = Vec::new();
        if let Some(display_parts) = &self.display_parts {
            parts.push(
                MarkedString::LanguageString {
                    language: "typescript".to_owned(),
                    value: display_parts_to_string(display_parts.as_slice(), language_server),
                },
            );
        }
        if let Some(documentation) = &self.documentation {
            parts.push(
                MarkedString::Markdown(
                    display_parts_to_string(documentation.as_slice(), language_server),
                ),
            );
        }
        if let Some(tags) = &self.tags {
            let tags_preview = get_tags_documentation(tags, language_server, "  \n\n");
            if !tags_preview.as_str().is_empty() {
                let mut text = "\n\n".to_owned();
                text.append(tags_preview.as_str());
                parts.push(MarkedString::Markdown(text));
            }
        }
        assert(views::seq_view(parts@) =~= self.hover(*language_server));
        Hover { contents: parts, range: Some(self.text_span.to_range(line_index)) }
    }
}

/// What is shown where the pointer rests is the signature, as code, then the documentation, then the
/// tags, each where it is there. The tags stand on lines of their own and are left out where nothing
/// is said of them.
pub proof fn law_hover_shows_all_in_order(info: QuickInfo, language_server: Inner)
    ensures
        ({
            let shown = info.hover(language_server);
            let signature = if info.display_parts is Some {
                1int
            } else {
                0int
            };
            let documentation = if info.documentation is Some {
                1int
            } else {
                0int
            };
            &&& info.display_parts matches Some(parts) ==> shown.len() > 0 && shown[0]
                == (lsp::MarkedText::LanguageString {
                language: "typescript"@,
                value: display_text(parts@, language_server),
            })
            &&& info.documentation matches Some(parts) ==> shown.len() > signature
                && shown[signature] == lsp::MarkedText::Markdown(
                display_text(parts@, language_server),
            )
            &&& info.tags is None || info.tags->0@.len() == 0 ==> shown.len() == signature
                + documentation
            &&& info.tags matches Some(tags) ==> tags@.len() > 0 ==> {
                &&& shown.len() == signature + documentation + 1
                &&& shown.last() matches lsp::MarkedText::Markdown(text) && text.len() > 2
                    && text[0] == '\n' && text[1] == '\n' && text.skip(2) == strings::joined(
                    tags_documentation(tags@, language_server),
                    "  \n\n"@,
                )
            }
        }),
{
    reveal_strlit("\n\n");
    reveal_strlit("*@");
    reveal_strlit("*");
    if info.tags is Some {
        let tags = info.tags->0@;
        let list = tags_documentation(tags, language_server);
        let preview = strings::joined(list, "  \n\n"@);
        if tags.len() > 0 {
            assert(list.last().len() > 0) by {
                assert(list.last() == tag_documentation(tags[tags.len() - 1], language_server));
            }
            assert(preview.len() >= list.last().len());
        }
        assert(("\n\n"@ + preview).skip(2) =~= preview);
    }
}

/// Every tag is documented, in order.
pub proof fn law_every_tag_is_documented(
    tags: Seq<JsDocTagInfo>,
    language_server: Inner,
    i: int,
)
    requires
        0 <= i < tags.len(),
    ensures
        tags_documentation(tags, language_server).len() == tags.len(),
        tags_documentation(tags, language_server)[i] == tag_documentation(tags[i], language_server),
{
}

/// A tag is documented under its name, in italics and behind an at sign. What it says, where it says
/// something, stands behind a dash, or on the next line where it is of several lines itself.
pub proof fn law_tags_are_documented_by_name(tag: JsDocTagInfo, language_server: Inner)
    ensures
        ({
            let label = seq!['*', '@'] + tag.name@ + seq!['*'];
            let shown = tag_documentation(tag, language_server);
            &&& tag.text is None ==> shown == label
            &&& tag.text is Some ==> {
                let body = tag_body(tag, language_server)->0;
                &&& tag_body(tag, language_server) is Some
                &&& body.contains('\n') ==> shown == label + seq![' ', ' ', '\n'] + body
                &&& !body.contains('\n') ==> shown == label + seq![' ', '-', ' '] + body
            }
        }),
{
    reveal_strlit("*@");
    reveal_strlit("*");
    reveal_strlit("  \n");
    reveal_strlit(" - ");
    assert("*@"@ =~= seq!['*', '@']);
    assert("*"@ =~= seq!['*']);
    assert("  \n"@ =~= seq![' ', ' ', '\n']);
    assert(" - "@ =~= seq![' ', '-', ' ']);
}

/// What a tag says is its text with the links in it replaced. A default value is shown as code, and so
/// is an example without a caption; an author without an address is shown as written.
pub proof fn law_tag_bodies_keep_the_text(tag: JsDocTagInfo, language_server: Inner)
    requires
        tag.text is Some,
    ensures
        ({
            let text = display_text(tag.text->0@, language_server);
            let body = tag_body(tag, language_server);
            let fenced = seq!['`', '`', '`', '\n'] + text + seq!['\n', '`', '`', '`'];
            let code = if patterns::opens_with_fence(text) {
                text
            } else {
                fenced
            };
            &&& tag.name@ != "example"@ && tag.name@ != "author"@ && tag.name@ != "default"@
                ==> body == Some(links::linked(text))
            &&& tag.name@ == "default"@ ==> body == Some(code)
            &&& tag.name@ == "example"@ && patterns::first_match(
                patterns::CAPTION@,
                text,
            ) is None ==> body == Some(code)
            &&& tag.name@ == "example"@ ==> (patterns::first_match(
                patterns::CAPTION@,
                text,
            ) matches Some(m) ==> body == Some(
                m.before + (m.groups[0]->0 + seq!['\n', '\n'] + links::codeblock(m.groups[1]->0))
                    + text.skip((m.before.len() + m.whole.len()) as int),
            ))
            &&& tag.name@ == "author"@ && patterns::first_match(
                patterns::EMAIL_MATCH@,
                text,
            ) is None ==> body == Some(text)
            &&& tag.name@ == "author"@ ==> (patterns::first_match(
                patterns::EMAIL_MATCH@,
                text,
            ) matches Some(m) ==> body == Some(
                m.before + m.groups[0]->0 + seq![' '] + m.groups[1]->0 + text.skip(
                    (m.before.len() + m.whole.len()) as int,
                ),
            ))
        }),
{
    reveal_strlit("```\n");
    reveal_strlit("\n```");
    reveal_strlit(" ");
    reveal_strlit("\n\n");
    assert("\n\n"@ =~= seq!['\n', '\n']);
    reveal_strlit("example");
    reveal_strlit("author");
    reveal_strlit("default");
    assert("example"@[0] == 'e' && "author"@[0] == 'a' && "default"@[0] == 'd');
    assert("```\n"@ =~= seq!['`', '`', '`', '\n']);
    assert("\n```"@ =~= seq!['\n', '`', '`', '`']);
    assert(" "@ =~= seq![' ']);
    let text = display_text(tag.text->0@, language_server);
    if tag.name@ == "author"@ {
        if patterns::first_match(patterns::EMAIL_MATCH@, text) is Some {
            let m = patterns::first_match(patterns::EMAIL_MATCH@, text)->0;
            assert(tag_body(tag, language_server)->0 =~= m.before + m.groups[0]->0 + seq![' ']
                + m.groups[1]->0 + text.skip((m.before.len() + m.whole.len()) as int));
        }
    }
}

} // verus!
