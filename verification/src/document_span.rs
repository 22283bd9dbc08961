//! Spans of documents that the compiler points to.

use std::sync::Arc;
use vstd::prelude::*;
use vstd::string::*;
use crate::error::TscError;
use crate::language_server::Inner;
use crate::lsp;
use crate::lsp::{LocationLink, Position, Range};
use crate::normalize;
use crate::normalize::{normalize_name, Named};
use crate::span;
use crate::span::TextSpan;
use crate::specifier;
use crate::specifier::ModuleSpecifier;
use crate::specifier_map::TscSpecifierMap;
use crate::strings;
use crate::strings::to_decimal;
use crate::sync::share;
use crate::text;
use crate::text::LineIndex;
use crate::views;

verus! {

/// A span of a file.
#[derive(Debug)]
pub struct DocumentSpan {
    pub text_span: TextSpan,
    pub file_name: String,
    pub original_text_span: Option<TextSpan>,
    pub context_span: Option<TextSpan>,
    pub original_context_span: Option<TextSpan>,
}

impl Clone for DocumentSpan {
    fn clone(&self) -> (r: Self)
        ensures
            r == *self,
    {
        DocumentSpan {
            text_span: self.text_span,
            file_name: self.file_name.clone(),
            original_text_span: self.original_text_span,
            context_span: self.context_span,
            original_context_span: self.original_context_span,
        }
    }
}

/// A span that is there ends at an offset that can be counted.
pub open spec fn opt_fits(span: Option<TextSpan>) -> bool {
    span matches Some(span) ==> span.fits()
}

/// The fragment that points at a place, counted from one.
pub open spec fn place_fragment(position: Position) -> Seq<char> {
    "L"@ + strings::decimal((position.line + 1) as nat) + ","@ + strings::decimal(
        (position.character + 1) as nat,
    )
}

impl DocumentSpan {
    /// Every span ends at an offset that can be counted.
    pub open spec fn fits(self) -> bool {
        &&& self.text_span.fits()
        &&& opt_fits(self.original_text_span)
        &&& opt_fits(self.context_span)
        &&& opt_fits(self.original_context_span)
    }

    /// The range from which a link goes out.
    pub open spec fn origin_range(self, lines: Seq<text::LineView>) -> Option<Range> {
        if self.original_context_span is Some {
            Some(span::range_of(self.original_context_span->0, lines))
        } else if self.original_text_span is Some {
            Some(span::range_of(self.original_text_span->0, lines))
        } else {
            None
        }
    }

    /// The link to the span in the file at a URL, where that is a document that the client knows.
    pub open spec fn link_in(
        self,
        href: Seq<char>,
        lines: Seq<text::LineView>,
        language_server: Inner,
    ) -> Option<lsp::LocationLinkView> {
        match (language_server.document(href), language_server.url_map.client_url(href)) {
            (Some(target), Some(target_uri)) => {
                let selection = span::range_of(self.text_span, target.lines());
                Some(
                    lsp::LocationLinkView {
                        origin_selection_range: self.origin_range(lines),
                        target_uri,
                        target_range: match self.context_span {
                            Some(context) => span::range_of(context, target.lines()),
                            None => selection,
                        },
                        target_selection_range: selection,
                    },
                )
            },
            _ => None,
        }
    }

    /// The link to the span, where its file is a document that the client knows.
    pub open spec fn link(self, lines: Seq<text::LineView>, language_server: Inner) -> Option<
        lsp::LocationLinkView,
    > {
        match specifier::parsed_url(self.file_name@) {
            Some(href) => self.link_in(href, lines, language_server),
            None => None,
        }
    }

    /// The URL that points the client to where the span begins in the file at a URL, where that is a
    /// document that the client knows.
    pub open spec fn target_in(self, href: Seq<char>, language_server: Inner) -> Option<Seq<char>> {
        match (language_server.document(href), language_server.url_map.client_url(href)) {
            (Some(target), Some(target_uri)) => Some(
                specifier::with_fragment(
                    target_uri,
                    place_fragment(text::position_at(target.lines(), self.text_span.start as nat)),
                ),
            ),
            _ => None,
        }
    }

    /// The URL that points the client to where the span begins, where its file is a document that
    /// the client knows.
    pub open spec fn target(self, language_server: Inner) -> Option<Seq<char>> {
        match specifier::parsed_url(self.file_name@) {
            Some(href) => self.target_in(href, language_server),
            None => None,
        }
    }

    /// The link to the span; none where its file is not a document that the client knows.
    pub fn to_link(&self, line_index: Arc<LineIndex>, language_server: &Inner) -> (r: Option<
        LocationLink,
    >)
        requires
            self.fits(),
        ensures
            views::opt_view(r) == self.link(line_index@, *language_server),
            r is Some <==> (specifier::parsed_url(self.file_name@) matches Some(href)
                && language_server.document(href) is Some && language_server.url_map.client_url(
                href,
            ) is Some),
            r matches Some(link) ==> {
                let lines = language_server.document(specifier::parsed_url(self.file_name@)->0)->0.lines();
                let target = match self.context_span {
                    Some(context) => context,
                    None => self.text_span,
                };
                &&& Some(link.target_uri@) == language_server.url_map.client_url(specifier::parsed_url(self.file_name@)->0)
                &&& link.target_selection_range.start == text::position_at(
                    lines,
                    self.text_span.start as nat,
                )
                &&& link.target_selection_range.end == text::position_at(
                    lines,
                    (self.text_span.start + self.text_span.length) as nat,
                )
                &&& link.target_range.start == text::position_at(lines, target.start as nat)
                &&& link.target_range.end == text::position_at(
                    lines,
                    (target.start + target.length) as nat,
                )
                &&& link.origin_selection_range is Some <==> self.original_context_span is Some
                    || self.original_text_span is Some
                &&& link.origin_selection_range matches Some(origin) ==> {
                    let from = if self.original_context_span is Some {
                        self.original_context_span->0
                    } else {
                        self.original_text_span->0
                    };
                    &&& origin.start == text::position_at(line_index@, from.start as nat)
                    &&& origin.end == text::position_at(
                        line_index@,
                        (from.start + from.length) as nat,
                    )
                }
            },
    {
        match ModuleSpecifier::parse(self.file_name.as_str()) {
            Ok(target_specifier) => self.to_link_in(
                &target_specifier,
                line_index,
                language_server,
            ),
            Err(_) => None,
        }
    }

    /// The link to the span in the file of a specifier; none where that is not a document that the
    /// client knows.
    pub fn to_link_in(
        &self,
        target_specifier: &ModuleSpecifier,
        line_index: Arc<LineIndex>,
        language_server: &Inner,
    ) -> (r: Option<LocationLink>)
        requires
            self.fits(),
        ensures
            views::opt_view(r) == self.link_in(target_specifier@, line_index@, *language_server),
            r is Some <==> language_server.document(target_specifier@) is Some
                && language_server.url_map.client_url(target_specifier@) is Some,
            r matches Some(link) ==> {
                let lines = language_server.document(target_specifier@)->0.lines();
                let target = match self.context_span {
                    Some(context) => context,
                    None => self.text_span,
                };
                &&& Some(link.target_uri@) == language_server.url_map.client_url(target_specifier@)
                &&& link.target_selection_range.start == text::position_at(
                    lines,
                    self.text_span.start as nat,
                )
                &&& link.target_selection_range.end == text::position_at(
                    lines,
                    (self.text_span.start + self.text_span.length) as nat,
                )
                &&& link.target_range.start == text::position_at(lines, target.start as nat)
                &&& link.target_range.end == text::position_at(
                    lines,
                    (target.start + target.length) as nat,
                )
                &&& link.origin_selection_range is Some <==> self.original_context_span is Some
                    || self.original_text_span is Some
                &&& link.origin_selection_range matches Some(origin) ==> {
                    let from = if self.original_context_span is Some {
                        self.original_context_span->0
                    } else {
                        self.original_text_span->0
                    };
                    &&& origin.start == text::position_at(line_index@, from.start as nat)
                    &&& origin.end == text::position_at(
                        line_index@,
                        (from.start + from.length) as nat,
                    )
                }
            },
    {
        let target_asset_or_doc = match language_server.get_maybe_asset_or_document(
            target_specifier,
        ) {
            Some(document) => document,
            None => return None,
        };
        let target_line_index = target_asset_or_doc.line_index();
        let target_uri = match language_server.url_map.normalize_specifier(target_specifier) {
            Ok(uri) => uri,
            Err(_) => return None,
        };
        let target_range = match &self.context_span {
            Some(context_span) => context_span.to_range(share(&target_line_index)),
            None => self.text_span.to_range(share(&target_line_index)),
        };
        let target_selection_range = self.text_span.to_range(target_line_index);
        let origin_selection_range = match &self.original_context_span {
            Some(original_context_span) => Some(original_context_span.to_range(line_index)),
            None => match &self.original_text_span {
                Some(original_text_span) => Some(original_text_span.to_range(line_index)),
                None => None,
            },
        };
        Some(
            LocationLink {
                origin_selection_range,
                target_uri: target_uri.into_url(),
                target_range,
                target_selection_range,
            },
        )
    }

    /// The URL that points the client to where the span begins; none where its file is not a
    /// document that the client knows.
    pub fn to_target(&self, language_server: &Inner) -> (r: Option<ModuleSpecifier>)
        requires
            self.text_span.fits(),
        ensures
            views::opt_view(r) == self.target(*language_server),
            r is Some <==> (specifier::parsed_url(self.file_name@) matches Some(href)
                && language_server.document(href) is Some && language_server.url_map.client_url(
                href,
            ) is Some),
            r matches Some(url) ==> {
                let place = text::position_at(
                    language_server.document(specifier::parsed_url(self.file_name@)->0)->0.lines(),
                    self.text_span.start as nat,
                );
                url@ == specifier::with_fragment(
                    language_server.url_map.client_url(specifier::parsed_url(self.file_name@)->0)->0,
                    seq!['L'] + strings::decimal((place.line + 1) as nat) + seq![',']
                        + strings::decimal((place.character + 1) as nat),
                )
            },
    {
        match ModuleSpecifier::parse(self.file_name.as_str()) {
            Ok(specifier) => self.to_target_in(&specifier, language_server),
            Err(_) => None,
        }
    }

    /// The URL that points the client to where the span begins in the file of a specifier; none where
    /// that is not a document that the client knows.
    pub fn to_target_in(&self, specifier: &ModuleSpecifier, language_server: &Inner) -> (r: Option<
        ModuleSpecifier,
    >)
        requires
            self.text_span.fits(),
        ensures
            views::opt_view(r) == self.target_in(specifier@, *language_server),
            r is Some <==> language_server.document(specifier@) is Some
                && language_server.url_map.client_url(specifier@) is Some,
            r matches Some(url) ==> {
                let place = text::position_at(
                    language_server.document(specifier@)->0.lines(),
                    self.text_span.start as nat,
                );
                url@ == specifier::with_fragment(
                    language_server.url_map.client_url(specifier@)->0,
                    seq!['L'] + strings::decimal((place.line + 1) as nat) + seq![',']
                        + strings::decimal((place.character + 1) as nat),
                )
            },
    {
        let asset_or_doc = match language_server.get_maybe_asset_or_document(specifier) {
            Some(document) => document,
            None => return None,
        };
        let line_index = asset_or_doc.line_index();
        let range = self.text_span.to_range(line_index);
        let target = match language_server.url_map.normalize_specifier(specifier) {
            Ok(uri) => uri.into_url(),
            Err(_) => return None,
        };
        let mut fragment = "L".to_owned();
        fragment.append(to_decimal(range.start.line as u64 + 1).as_str());
        fragment.append(",");
        fragment.append(to_decimal(range.start.character as u64 + 1).as_str());
        proof {
            reveal_strlit("L");
            reveal_strlit(",");
            assert("L"@ =~= seq!['L']);
            assert(","@ =~= seq![',']);
            lemma_decimal_is_plain((range.start.line + 1) as nat);
            lemma_decimal_is_plain((range.start.character + 1) as nat);
        }
        Some(target.set_fragment(fragment.as_str()))
    }
}

/// A number in decimal is of characters that a fragment holds as they are.
proof fn lemma_decimal_is_plain(n: nat)
    ensures
        forall|i: int|
            0 <= i < strings::decimal(n).len() ==> specifier::is_plain(
                #[trigger] strings::decimal(n)[i],
            ),
    decreases n,
{
    assert(specifier::is_plain(strings::digit(n % 10)));
    if n >= 10 {
        lemma_decimal_is_plain(n / 10);
        assert forall|i: int| 0 <= i < strings::decimal(n).len() implies specifier::is_plain(
            #[trigger] strings::decimal(n)[i],
        ) by {
            if i < strings::decimal(n / 10).len() {
                assert(strings::decimal(n)[i] == strings::decimal(n / 10)[i]);
            }
        }
    }
}

impl Named for DocumentSpan {
    open spec fn file_names(&self) -> Seq<Seq<char>> {
        seq![self.file_name@]
    }

    open spec fn same_but_names(&self, other: &Self) -> bool {
        &&& self.text_span == other.text_span
        &&& self.original_text_span == other.original_text_span
        &&& self.context_span == other.context_span
        &&& self.original_context_span == other.original_context_span
    }

    proof fn lemma_same(&self) {
    }

    fn normalize(&mut self, map: &mut TscSpecifierMap) -> (r: Result<(), TscError>) {
        normalize_name(&mut self.file_name, map)
    }
}

/// The file name of a span is read, and nothing else of it changes.
pub proof fn law_spans_keep_their_places(a: DocumentSpan, b: DocumentSpan)
    ensures
        a.file_names() == seq![a.file_name@],
        a.same_but_names(&b) <==> a.text_span == b.text_span && a.original_text_span
            == b.original_text_span && a.context_span == b.context_span
            && a.original_context_span == b.original_context_span,
{
}

} // verus!
