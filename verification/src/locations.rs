//! Places in files that the compiler finds.

use std::sync::Arc;
use vstd::prelude::*;
use vstd::string::*;
use crate::document_span::DocumentSpan;
use crate::error::TscError;
use crate::language_server;
use crate::language_server::{Inner, LspUrlMap};
use crate::lsp;
use crate::lsp::{
    DocumentChanges, DocumentHighlight, DocumentHighlightKind, Location, LocationLink,
    TextDocumentEdit, TextEdit, WorkspaceEdit,
};
use crate::normalize;
use crate::normalize::{normalize_all, Named};
use crate::span;
use crate::span::TextSpan;
use crate::specifier;
use crate::specifier::ModuleSpecifier;
use crate::specifier_map::TscSpecifierMap;
use crate::sync::share;
use crate::text;
use crate::text::LineIndex;
use crate::views;

verus! {

/// The location of a span of a file.
pub open spec fn location_of(
    document_span: DocumentSpan,
    lines: Seq<text::LineView>,
    url_map: LspUrlMap,
) -> lsp::LocationView {
    lsp::LocationView {
        uri: language_server::uri_or_invalid(url_map, document_span.file_name@),
        range: span::range_of(document_span.text_span, lines),
    }
}

/// Where something is implemented.
#[derive(Debug)]
pub struct ImplementationLocation {
    pub document_span: DocumentSpan,
}

impl Named for ImplementationLocation {
    open spec fn file_names(&self) -> Seq<Seq<char>> {
        self.document_span.file_names()
    }

    open spec fn same_but_names(&self, other: &Self) -> bool {
        &&& self.document_span.same_but_names(&other.document_span)
    }

    proof fn lemma_same(&self) {
    }

    fn normalize(&mut self, map: &mut TscSpecifierMap) -> (r: Result<(), TscError>) {
        self.document_span.normalize(map)
    }
}

impl ImplementationLocation {
    /// The location.
    pub fn to_location(&self, line_index: Arc<LineIndex>, language_server: &Inner) -> (r: Location)
        requires
            self.document_span.text_span.fits(),
        ensures
            r@ == location_of(self.document_span, line_index@, language_server.url_map),
            r.range.start == text::position_at(
                line_index@,
                self.document_span.text_span.start as nat,
            ),
            r.range.end == text::position_at(
                line_index@,
                (self.document_span.text_span.start + self.document_span.text_span.length) as nat,
            ),
            specifier::parsed_url(self.document_span.file_name@) matches Some(href) ==> (
            language_server.url_map.client_url(href) matches Some(uri) ==> r.uri@ == uri),
            r.uri@ == language_server::uri_or_invalid(language_server.url_map, self.document_span.file_name@),
    {
        let uri = language_server.url_map.uri_or_invalid(self.document_span.file_name.as_str());
        Location { uri: uri.into_url(), range: self.document_span.text_span.to_range(line_index) }
    }

    /// The link to the location; none where its file is not a document that the client knows.
    pub fn to_link(&self, line_index: Arc<LineIndex>, language_server: &Inner) -> (r: Option<
        LocationLink,
    >)
        requires
            self.document_span.fits(),
        ensures
            views::opt_view(r) == self.document_span.link(line_index@, *language_server),
    {
        self.document_span.to_link(line_index, language_server)
    }
}

/// Where something that is renamed occurs.
#[derive(Debug)]
pub struct RenameLocation {
    pub document_span: DocumentSpan,
}

impl Named for RenameLocation {
    open spec fn file_names(&self) -> Seq<Seq<char>> {
        self.document_span.file_names()
    }

    open spec fn same_but_names(&self, other: &Self) -> bool {
        &&& self.document_span.same_but_names(&other.document_span)
    }

    proof fn lemma_same(&self) {
    }

    fn normalize(&mut self, map: &mut TscSpecifierMap) -> (r: Result<(), TscError>) {
        self.document_span.normalize(map)
    }
}

/// Where something that is renamed occurs.
#[derive(Debug)]
pub struct RenameLocations {
    pub locations: Vec<RenameLocation>,
}

/// The URLs of the documents that are edited.
pub open spec fn edited_uris(edits: Seq<lsp::TextDocumentEditView>) -> Seq<Seq<char>> {
    Seq::new(edits.len(), |i: int| edits[i].uri)
}

/// An edit added to those of its document, which comes last where it was not edited before.
pub open spec fn add_edit(
    edits: Seq<lsp::TextDocumentEditView>,
    uri: Seq<char>,
    version: Option<i32>,
    edit: lsp::TextEditView,
) -> Seq<lsp::TextDocumentEditView> {
    let n = language_server::first_of(edited_uris(edits), uri);
    if n < edits.len() {
        edits.update(
            n,
            lsp::TextDocumentEditView { edits: edits[n].edits.push(edit), ..edits[n] },
        )
    } else {
        edits.push(lsp::TextDocumentEditView { uri, version, edits: seq![edit] })
    }
}

/// The edits with that of one more location, or the error it gives.
pub open spec fn rename_one(
    edits: Seq<lsp::TextDocumentEditView>,
    location: RenameLocation,
    new_name: Seq<char>,
    language_server: Inner,
) -> Result<Seq<lsp::TextDocumentEditView>, TscError> {
    match specifier::parsed_url(location.document_span.file_name@) {
        Some(href) => match language_server.url_map.client_url(href) {
            Some(uri) => match language_server.document(href) {
                Some(document) => Ok(
                    add_edit(
                        edits,
                        uri,
                        document.version(),
                        lsp::TextEditView {
                            range: span::range_of(
                                location.document_span.text_span,
                                document.lines(),
                            ),
                            new_text: new_name,
                        },
                    ),
                ),
                None => Err(TscError::DocumentNotFound),
            },
            None => Err(TscError::UrlNotMapped),
        },
        None => Err(TscError::InvalidUrl),
    }
}

/// The edits for every location, or the first error.
pub open spec fn rename_all(
    locations: Seq<RenameLocation>,
    new_name: Seq<char>,
    language_server: Inner,
) -> Result<Seq<lsp::TextDocumentEditView>, TscError>
    decreases locations.len(),
{
    if locations.len() == 0 {
        Ok(Seq::empty())
    } else {
        match rename_all(locations.drop_last(), new_name, language_server) {
            Ok(edits) => rename_one(edits, locations.last(), new_name, language_server),
            Err(err) => Err(err),
        }
    }
}

/// The first error among the first locations is that of all of them.
proof fn lemma_rename_error(
    locations: Seq<RenameLocation>,
    n: int,
    new_name: Seq<char>,
    language_server: Inner,
)
    requires
        0 <= n <= locations.len(),
        rename_all(locations.take(n), new_name, language_server) is Err,
    ensures
        rename_all(locations, new_name, language_server) == rename_all(
            locations.take(n),
            new_name,
            language_server,
        ),
    decreases locations.len() - n,
{
    if n < locations.len() {
        assert(locations.take(n + 1).drop_last() =~= locations.take(n));
        lemma_rename_error(locations, n + 1, new_name, language_server);
    } else {
        assert(locations.take(n) =~= locations);
    }
}

/// Where the edits of a document stand, or the number of edited documents where it is not edited.
fn find_edit(edits: &Vec<TextDocumentEdit>, uri: &ModuleSpecifier) -> (r: usize)
    ensures
        r == language_server::first_of(edited_uris(views::seq_view(edits@)), uri@),
        r <= edits@.len(),
{
    let ghost uris = edited_uris(views::seq_view(edits@));
    let mut i: usize = 0;
    while i < edits.len()
        invariant
            i <= edits@.len(),
            uris == edited_uris(views::seq_view(edits@)),
            forall|j: int| 0 <= j < i ==> uris[j] != uri@,
        decreases edits.len() - i,
    {
        if edits[i].uri.same(uri) {
            proof {
                language_server::lemma_first_of(uris, uri@, i as int);
            }
            return i;
        }
        i = i + 1;
    }
    proof {
        language_server::lemma_first_of(uris, uri@, i as int);
    }
    i
}

/// Adds an edit to those of its document, which comes last where it was not edited before.
pub fn add_text_edit(
    edits: &mut Vec<TextDocumentEdit>,
    uri: ModuleSpecifier,
    version: Option<i32>,
    edit: TextEdit,
)
    ensures
        views::seq_view(final(edits)@) == add_edit(
            views::seq_view(old(edits)@),
            uri@,
            version,
            edit@,
        ),
{
    let ghost next = add_edit(views::seq_view(edits@), uri@, version, edit@);
    let n: usize = find_edit(edits, &uri);
    if n < edits.len() {
        let ghost old_edits = edits@;
        edits[n].edits.push(edit);
        proof {
            views::lemma_push(old_edits[n as int].edits@, edit);
            assert(views::seq_view(edits@) =~= next);
        }
    } else {
        let mut list: Vec<TextEdit> = Vec::new();
        list.push(edit);
        assert(views::seq_view(list@) =~= seq![edit@]);
        edits.push(TextDocumentEdit { uri, version, edits: list });
        assert(views::seq_view(edits@) =~= next);
    }
}

/// The spans of the locations end at offsets that can be counted.
pub open spec fn locations_fit(locations: Seq<RenameLocation>) -> bool {
    forall|i: int|
        0 <= i < locations.len() ==> (#[trigger] locations[i]).document_span.text_span.fits()
}

impl RenameLocations {
    /// The change of the workspace that gives what occurs at the locations a new name: one edit for
    /// each document, in the order in which the documents first occur. The error is that of the
    /// first location whose file name is no URL, which the client does not know, or for which there
    /// is no document.
    pub fn into_workspace_edit(self, new_name: &str, language_server: &Inner) -> (r: Result<
        WorkspaceEdit,
        TscError,
    >)
        requires
            locations_fit(self.locations@),
        ensures
            match rename_all(self.locations@, new_name@, *language_server) {
                Ok(edits) => r matches Ok(edit) && edit.document_changes matches
                    DocumentChanges::Edits(list) && views::seq_view(list@) == edits,
                Err(error) => r matches Err(err) && err == error,
            },
            r matches Ok(edit) ==> forall|i: int|
                0 <= i < self.locations@.len() ==> {
                    let location = (#[trigger] self.locations@[i]).document_span;
                    let href = specifier::parsed_url(location.file_name@)->0;
                    let lines = language_server.document(href)->0.lines();
                    &&& edit.document_changes matches DocumentChanges::Edits(list)
                    &&& exists|d: int, k: int|
                        {
                            &&& 0 <= d < list@.len()
                            &&& 0 <= k < list@[d].edits@.len()
                            &&& Some(list@[d].uri@) == language_server.url_map.client_url(href)
                            &&& (#[trigger] list@[d].edits@[k]).new_text@ == new_name@
                            &&& list@[d].edits@[k].range.start == text::position_at(
                                lines,
                                location.text_span.start as nat,
                            )
                            &&& list@[d].edits@[k].range.end == text::position_at(
                                lines,
                                (location.text_span.start + location.text_span.length) as nat,
                            )
                        }
                },
    {
        let ghost all = self.locations@;
        let mut edits: Vec<TextDocumentEdit> = Vec::new();
        let mut i: usize = 0;
        assert(all.take(0) =~= Seq::empty());
        assert(views::seq_view(edits@) =~= Seq::empty());
        while i < self.locations.len()
            invariant
                i <= self.locations@.len(),
                all == self.locations@,
                locations_fit(all),
                rename_all(all.take(i as int), new_name@, *language_server) == Ok::<
                    Seq<lsp::TextDocumentEditView>,
                    TscError,
                >(views::seq_view(edits@)),
            decreases self.locations.len() - i,
        {
            let location = &self.locations[i];
            let ghost before = views::seq_view(edits@);
            let ghost next = rename_one(before, *location, new_name@, *language_server);
            proof {
                assert(all.take(i + 1).drop_last() =~= all.take(i as int));
                if next is Err {
                    lemma_rename_error(all, i + 1, new_name@, *language_server);
                }
            }
            let specifier = match ModuleSpecifier::parse(
                location.document_span.file_name.as_str(),
            ) {
                Ok(specifier) => specifier,
                Err(err) => return Err(err),
            };
            let uri = match language_server.url_map.normalize_specifier(&specifier) {
                Ok(uri) => uri,
                Err(err) => return Err(err),
            };
            let asset_or_doc = match language_server.get_asset_or_document(&specifier) {
                Ok(document) => document,
                Err(err) => return Err(err),
            };
            let edit = TextEdit {
                range: location.document_span.text_span.to_range(asset_or_doc.line_index()),
                new_text: new_name.to_owned(),
            };
            let version = asset_or_doc.document_lsp_version();
            add_text_edit(&mut edits, uri.into_url(), version, edit);
            i = i + 1;
        }
        assert(all.take(i as int) =~= all);
        proof {
            let list = edits@;
            let made = views::seq_view(list);
            assert forall|i: int| 0 <= i < all.len() implies exists|d: int, k: int|
                {
                    let location = (#[trigger] all[i]).document_span;
                    let href = specifier::parsed_url(location.file_name@)->0;
                    let lines = language_server.document(href)->0.lines();
                    &&& 0 <= d < list.len()
                    &&& 0 <= k < list[d].edits@.len()
                    &&& Some(list[d].uri@) == language_server.url_map.client_url(href)
                    &&& (#[trigger] list[d].edits@[k]).new_text@ == new_name@
                    &&& list[d].edits@[k].range == span::range_of(location.text_span, lines)
                } by {
                law_rename_edits_each_location(all, new_name@, *language_server, i);
                let location = all[i].document_span;
                let href = specifier::parsed_url(location.file_name@)->0;
                let uri = language_server.url_map.client_url(href)->0;
                let k = locations_in(all.take(i), uri, *language_server) as int;
                let d = choose|d: int|
                    {
                        &&& 0 <= d < made.len()
                        &&& (#[trigger] made[d]).uri == uri
                        &&& k < made[d].edits.len()
                        &&& made[d].edits[k].new_text == new_name@
                        &&& made[d].edits[k].range == span::range_of(
                            location.text_span,
                            language_server.document(href)->0.lines(),
                        )
                    };
                assert(made[d] == list[d]@);
                assert(made[d].edits[k] == list[d].edits@[k]@);
            }
        }
        Ok(WorkspaceEdit { document_changes: DocumentChanges::Edits(edits) })
    }
}

/// No document is edited twice.
pub open spec fn no_document_twice(edits: Seq<lsp::TextDocumentEditView>) -> bool {
    forall|i: int, j: int|
        0 <= i < j < edits.len() ==> (#[trigger] edits[i]).uri != (#[trigger] edits[j]).uri
}

/// How many edits there are in all.
pub open spec fn edit_count(edits: Seq<lsp::TextDocumentEditView>) -> nat
    decreases edits.len(),
{
    if edits.len() == 0 {
        0
    } else {
        edit_count(edits.drop_last()) + edits.last().edits.len()
    }
}

proof fn lemma_first_of_bounds(list: Seq<Seq<char>>, text: Seq<char>)
    ensures
        0 <= language_server::first_of(list, text) <= list.len(),
        language_server::first_of(list, text) < list.len()
            ==> list[language_server::first_of(list, text)] == text,
        language_server::first_of(list, text) == list.len() ==> !list.contains(text),
    decreases list.len(),
{
    if list.len() > 0 && list[0] != text {
        lemma_first_of_bounds(list.skip(1), text);
        if list.contains(text) {
            let i = choose|i: int| 0 <= i < list.len() && list[i] == text;
            assert(list.skip(1)[i - 1] == text);
        }
    }
}

proof fn lemma_count_update(
    edits: Seq<lsp::TextDocumentEditView>,
    n: int,
    item: lsp::TextDocumentEditView,
)
    requires
        0 <= n < edits.len(),
    ensures
        edit_count(edits.update(n, item)) == edit_count(edits) - edits[n].edits.len()
            + item.edits.len(),
    decreases edits.len(),
{
    let after = edits.update(n, item);
    if n == edits.len() - 1 {
        assert(after.drop_last() =~= edits.drop_last());
    } else {
        lemma_count_update(edits.drop_last(), n, item);
        assert(after.drop_last() =~= edits.drop_last().update(n, item));
    }
}

/// A rename edits each document once, and makes one edit for each location.
pub proof fn law_rename_edits_each_document_once(
    locations: Seq<RenameLocation>,
    new_name: Seq<char>,
    language_server: Inner,
)
    requires
        rename_all(locations, new_name, language_server) is Ok,
    ensures
        no_document_twice(rename_all(locations, new_name, language_server)->Ok_0),
        edit_count(rename_all(locations, new_name, language_server)->Ok_0) == locations.len(),
    decreases locations.len(),
{
    if locations.len() > 0 {
        law_rename_edits_each_document_once(locations.drop_last(), new_name, language_server);
        let before = rename_all(locations.drop_last(), new_name, language_server)->Ok_0;
        let after = rename_all(locations, new_name, language_server)->Ok_0;
        let href = specifier::parsed_url(locations.last().document_span.file_name@)->0;
        let uri = language_server.url_map.client_url(href)->0;
        let uris = edited_uris(before);
        lemma_first_of_bounds(uris, uri);
        let n = language_server::first_of(uris, uri);
        if n < before.len() {
            lemma_count_update(before, n, after[n]);
            assert(after == before.update(n, after[n]));
        } else {
            assert(after.drop_last() =~= before);
            assert forall|i: int, j: int| 0 <= i < j < after.len() implies (
            #[trigger] after[i]).uri != (#[trigger] after[j]).uri by {
                assert(uris[i] == before[i].uri);
                if j < before.len() {
                    assert(after[j] == before[j]);
                } else {
                    assert(uris.contains(uris[i]));
                }
            }
        }
    }
}

/// The URL by which the client knows the file of a location.
pub open spec fn client_file(location: RenameLocation, language_server: Inner) -> Option<Seq<char>> {
    match specifier::parsed_url(location.document_span.file_name@) {
        Some(href) => language_server.url_map.client_url(href),
        None => None,
    }
}

/// How many of the locations are in the document that the client knows by a URL.
pub open spec fn locations_in(
    locations: Seq<RenameLocation>,
    uri: Seq<char>,
    language_server: Inner,
) -> nat
    decreases locations.len(),
{
    if locations.len() == 0 {
        0
    } else {
        locations_in(locations.drop_last(), uri, language_server) + if client_file(
            locations.last(),
            language_server,
        ) == Some(uri) {
            1nat
        } else {
            0nat
        }
    }
}

/// The edits of a document are as many as the locations in it, and one that is not edited has none.
proof fn lemma_edits_of_document(
    locations: Seq<RenameLocation>,
    new_name: Seq<char>,
    language_server: Inner,
    uri: Seq<char>,
)
    requires
        rename_all(locations, new_name, language_server) is Ok,
    ensures
        ({
            let edits = rename_all(locations, new_name, language_server)->Ok_0;
            let n = language_server::first_of(edited_uris(edits), uri);
            let count = locations_in(locations, uri, language_server);
            &&& 0 <= n <= edits.len()
            &&& n < edits.len() ==> edits[n].uri == uri && edits[n].edits.len() == count && count > 0
            &&& n == edits.len() ==> count == 0
        }),
    decreases locations.len(),
{
    let edits = rename_all(locations, new_name, language_server)->Ok_0;
    lemma_first_of_bounds(edited_uris(edits), uri);
    if locations.len() > 0 {
        let before = rename_all(locations.drop_last(), new_name, language_server)->Ok_0;
        let last = client_file(locations.last(), language_server)->0;
        lemma_edits_of_document(locations.drop_last(), new_name, language_server, uri);
        lemma_edits_of_document(locations.drop_last(), new_name, language_server, last);
        let at = language_server::first_of(edited_uris(before), last);
        let n = language_server::first_of(edited_uris(before), uri);
        lemma_first_of_bounds(edited_uris(before), uri);
        lemma_first_of_bounds(edited_uris(before), last);
        lemma_first_is_kept(edited_uris(before), edited_uris(edits), uri, n);
        lemma_first_is_kept(edited_uris(before), edited_uris(edits), last, at);
    }
}

/// Where a text first occurs in a list is where it first occurs in a longer one.
proof fn lemma_first_is_kept(before: Seq<Seq<char>>, after: Seq<Seq<char>>, text: Seq<char>, n: int)
    requires
        n == language_server::first_of(before, text),
        before.len() <= after.len() <= before.len() + 1,
        forall|i: int| 0 <= i < before.len() ==> #[trigger] before[i] == after[i],
    ensures
        n < before.len() || before.len() == after.len() || after.last() == text
            ==> language_server::first_of(after, text) == n,
        n == before.len() && before.len() < after.len() && after.last() != text
            ==> language_server::first_of(after, text) == after.len(),
{
    lemma_first_of_bounds(before, text);
    lemma_none_before(before, text);
    assert forall|i: int| 0 <= i < n implies after[i] != text by {
        assert(before[i] != text);
    }
    if n < before.len() || before.len() == after.len() || after.last() == text {
        language_server::lemma_first_of(after, text, n);
    } else {
        language_server::lemma_first_of(after, text, after.len() as int);
    }
}

proof fn lemma_none_before(list: Seq<Seq<char>>, text: Seq<char>)
    ensures
        forall|i: int| 0 <= i < language_server::first_of(list, text) ==> list[i] != text,
    decreases list.len(),
{
    if list.len() > 0 && list[0] != text {
        lemma_none_before(list.skip(1), text);
        lemma_first_of_bounds(list.skip(1), text);
        assert forall|i: int| 0 <= i < language_server::first_of(list, text) implies list[i]
            != text by {
            if i > 0 {
                assert(list[i] == list.skip(1)[i - 1]);
            }
        }
    }
}

/// A rename makes one edit for each location, in the order of the locations of a document: it puts the
/// new name in the place of what stands between the two ends of the span of the location, in the
/// lines of the document of its file. The document comes behind those of the locations before its
/// first one, in the version that the client has open.
pub proof fn law_rename_edits_each_location(
    locations: Seq<RenameLocation>,
    new_name: Seq<char>,
    language_server: Inner,
    i: int,
)
    requires
        rename_all(locations, new_name, language_server) is Ok,
        0 <= i < locations.len(),
    ensures
        ({
            let location = locations[i].document_span;
            let href = specifier::parsed_url(location.file_name@)->0;
            let uri = language_server.url_map.client_url(href)->0;
            let document = language_server.document(href)->0;
            let edits = rename_all(locations, new_name, language_server)->Ok_0;
            let k = locations_in(locations.take(i), uri, language_server) as int;
            &&& specifier::parsed_url(location.file_name@) is Some
            &&& language_server.url_map.client_url(href) is Some
            &&& language_server.document(href) is Some
            &&& rename_all(locations.take(i), new_name, language_server) is Ok
            &&& exists|d: int|
                {
                    &&& 0 <= d < edits.len()
                    &&& (#[trigger] edits[d]).uri == uri
                    &&& k < edits[d].edits.len()
                    &&& edits[d].edits[k].new_text == new_name
                    &&& edits[d].edits[k].range.start == text::position_at(
                        document.lines(),
                        location.text_span.start as nat,
                    )
                    &&& edits[d].edits[k].range.end == text::position_at(
                        document.lines(),
                        (location.text_span.start + location.text_span.length) as nat,
                    )
                    &&& k == 0 ==> edits[d].version == document.version()
                    &&& k == 0 ==> d == rename_all(
                        locations.take(i),
                        new_name,
                        language_server,
                    )->Ok_0.len()
                }
        }),
    decreases locations.len(),
{
    let last = locations.len() - 1;
    let location = locations[i].document_span;
    let href = specifier::parsed_url(location.file_name@)->0;
    let uri = language_server.url_map.client_url(href)->0;
    let document = language_server.document(href)->0;
    let before = rename_all(locations.drop_last(), new_name, language_server)->Ok_0;
    let edits = rename_all(locations, new_name, language_server)->Ok_0;
    let k = locations_in(locations.take(i), uri, language_server) as int;
    let added = client_file(locations.last(), language_server)->0;
    lemma_edits_of_document(locations.drop_last(), new_name, language_server, added);
    let at = language_server::first_of(edited_uris(before), added);
    if i < last {
        law_rename_edits_each_location(locations.drop_last(), new_name, language_server, i);
        assert(locations.drop_last().take(i) =~= locations.take(i));
        let d = choose|d: int|
            {
                &&& 0 <= d < before.len()
                &&& (#[trigger] before[d]).uri == uri
                &&& k < before[d].edits.len()
                &&& before[d].edits[k].new_text == new_name
                &&& before[d].edits[k].range.start == text::position_at(
                    document.lines(),
                    location.text_span.start as nat,
                )
                &&& before[d].edits[k].range.end == text::position_at(
                    document.lines(),
                    (location.text_span.start + location.text_span.length) as nat,
                )
                &&& k == 0 ==> before[d].version == document.version()
                &&& k == 0 ==> d == rename_all(
                    locations.take(i),
                    new_name,
                    language_server,
                )->Ok_0.len()
            };
        assert(edits[d].uri == uri);
        assert(edits[d].edits[k] == before[d].edits[k]);
    } else {
        assert(locations.take(i) =~= locations.drop_last());
        assert(edits[at].uri == uri);
        assert(edits[at].edits[k].new_text == new_name);
    }
}

/// A rename fails at the first location that it cannot edit: with one error where the file name is no
/// URL, with another where the client does not know the file, and with a third where there is no
/// document for it.
pub proof fn law_rename_fails_at_first_unknown_location(
    locations: Seq<RenameLocation>,
    new_name: Seq<char>,
    language_server: Inner,
    i: int,
)
    requires
        0 <= i <= locations.len(),
        forall|j: int|
            0 <= j < i ==> {
                let name = (#[trigger] locations[j]).document_span.file_name@;
                &&& specifier::parsed_url(name) is Some
                &&& language_server.url_map.client_url(specifier::parsed_url(name)->0) is Some
                &&& language_server.document(specifier::parsed_url(name)->0) is Some
            },
    ensures
        rename_all(locations.take(i), new_name, language_server) is Ok,
        i < locations.len() ==> {
            let name = locations[i].document_span.file_name@;
            let renamed = rename_all(locations, new_name, language_server);
            &&& specifier::parsed_url(name) is None ==> renamed == Err::<
                Seq<lsp::TextDocumentEditView>,
                TscError,
            >(TscError::InvalidUrl)
            &&& specifier::parsed_url(name) matches Some(href) ==> {
                &&& language_server.url_map.client_url(href) is None ==> renamed == Err::<
                    Seq<lsp::TextDocumentEditView>,
                    TscError,
                >(TscError::UrlNotMapped)
                &&& language_server.url_map.client_url(href) is Some && language_server.document(
                    href,
                ) is None ==> renamed == Err::<Seq<lsp::TextDocumentEditView>, TscError>(
                    TscError::DocumentNotFound,
                )
            }
        },
    decreases i,
{
    if i > 0 {
        law_rename_fails_at_first_unknown_location(locations, new_name, language_server, i - 1);
        assert(locations.take(i).drop_last() =~= locations.take(i - 1));
        assert(locations.take(i).last() == locations[i - 1]);
    }
    if i < locations.len() {
        assert(locations.take(i + 1).drop_last() =~= locations.take(i));
        assert(locations.take(i + 1).last() == locations[i]);
        if rename_all(locations.take(i + 1), new_name, language_server) is Err {
            lemma_rename_error(locations, i + 1, new_name, language_server);
        }
    }
}

/// How something that is highlighted is used.
#[derive(Debug, Clone, Copy, PartialEq, Eq, Structural)]
pub enum HighlightSpanKind {
    Nothing,
    Definition,
    Reference,
    WrittenReference,
}

/// A span that is highlighted.
#[derive(Debug)]
pub struct HighlightSpan {
    pub text_span: TextSpan,
    pub kind: HighlightSpanKind,
}

/// What is highlighted in a document.
#[derive(Debug)]
pub struct DocumentHighlights {
    pub highlight_spans: Vec<HighlightSpan>,
}

/// The highlight for a span.
pub open spec fn highlight_of(
    span: HighlightSpan,
    lines: Seq<text::LineView>,
) -> DocumentHighlight {
    DocumentHighlight {
        range: span::range_of(span.text_span, lines),
        kind: Some(
            if span.kind == HighlightSpanKind::WrittenReference {
                DocumentHighlightKind::Write
            } else {
                DocumentHighlightKind::Read
            },
        ),
    }
}

impl DocumentHighlights {
    /// The highlights.
    pub fn to_highlight(&self, line_index: Arc<LineIndex>) -> (r: Vec<DocumentHighlight>)
        requires
            forall|i: int|
                0 <= i < self.highlight_spans@.len() ==> (
                #[trigger] self.highlight_spans@[i]).text_span.fits(),
        ensures
            r@ == Seq::new(
                self.highlight_spans@.len(),
                |i: int| highlight_of(self.highlight_spans@[i], line_index@),
            ),
            r@.len() == self.highlight_spans@.len(),
            forall|i: int|
                0 <= i < r@.len() ==> {
                    let highlighted = self.highlight_spans@[i];
                    &&& (#[trigger] r@[i]).range.start == text::position_at(
                        line_index@,
                        highlighted.text_span.start as nat,
                    )
                    &&& r@[i].range.end == text::position_at(
                        line_index@,
                        (highlighted.text_span.start + highlighted.text_span.length) as nat,
                    )
                    &&& r@[i].kind == Some(DocumentHighlightKind::Write) <==> highlighted.kind
                        == HighlightSpanKind::WrittenReference
                    &&& r@[i].kind == Some(DocumentHighlightKind::Read) <==> highlighted.kind
                        != HighlightSpanKind::WrittenReference
                },
    {
        let mut highlights: Vec<DocumentHighlight> = Vec::new();
        let mut i: usize = 0;
        while i < self.highlight_spans.len()
            invariant
                i <= self.highlight_spans@.len(),
                highlights@.len() == i,
                forall|j: int|
                    0 <= j < self.highlight_spans@.len() ==> (
                    #[trigger] self.highlight_spans@[j]).text_span.fits(),
                forall|j: int|
                    0 <= j < i ==> #[trigger] highlights@[j] == highlight_of(
                        self.highlight_spans@[j],
                        line_index@,
                    ),
            decreases self.highlight_spans.len() - i,
        {
            let span = &self.highlight_spans[i];
            let kind = if span.kind == HighlightSpanKind::WrittenReference {
                DocumentHighlightKind::Write
            } else {
                DocumentHighlightKind::Read
            };
            highlights.push(
                DocumentHighlight {
                    range: span.text_span.to_range(share(&line_index)),
                    kind: Some(kind),
                },
            );
            i = i + 1;
        }
        highlights
    }
}

/// Where something is defined.
#[derive(Debug)]
pub struct DefinitionInfo {
    pub document_span: DocumentSpan,
}

impl Named for DefinitionInfo {
    open spec fn file_names(&self) -> Seq<Seq<char>> {
        self.document_span.file_names()
    }

    open spec fn same_but_names(&self, other: &Self) -> bool {
        &&& self.document_span.same_but_names(&other.document_span)
    }

    proof fn lemma_same(&self) {
    }

    fn normalize(&mut self, map: &mut TscSpecifierMap) -> (r: Result<(), TscError>) {
        self.document_span.normalize(map)
    }
}

/// Where what stands at a place is defined.
#[derive(Debug)]
pub struct DefinitionInfoAndBoundSpan {
    pub definitions: Option<Vec<DefinitionInfo>>,
}

impl Named for DefinitionInfoAndBoundSpan {
    open spec fn file_names(&self) -> Seq<Seq<char>> {
        match self.definitions {
            Some(definitions) => normalize::all_names(definitions@),
            None => Seq::empty(),
        }
    }

    open spec fn same_but_names(&self, other: &Self) -> bool {
        match (self.definitions, other.definitions) {
            (Some(a), Some(b)) => normalize::all_same_but_names(a@, b@),
            (None, None) => true,
            _ => false,
        }
    }

    proof fn lemma_same(&self) {
    }

    fn normalize(&mut self, map: &mut TscSpecifierMap) -> (r: Result<(), TscError>) {
        match &mut self.definitions {
            Some(definitions) => normalize_all(definitions, map),
            None => Ok(()),
        }
    }
}

/// The links to the definitions whose files are documents that the client knows.
pub open spec fn definition_links(
    definitions: Seq<DefinitionInfo>,
    lines: Seq<text::LineView>,
    language_server: Inner,
) -> Seq<lsp::LocationLinkView>
    decreases definitions.len(),
{
    if definitions.len() == 0 {
        Seq::empty()
    } else {
        let before = definition_links(definitions.drop_last(), lines, language_server);
        match definitions.last().document_span.link(lines, language_server) {
            Some(link) => before.push(link),
            None => before,
        }
    }
}

impl DefinitionInfoAndBoundSpan {
    /// The links to the definitions; none where there are no definitions.
    pub fn to_definition(&self, line_index: Arc<LineIndex>, language_server: &Inner) -> (r: Option<
        Vec<LocationLink>,
    >)
        requires
            self.definitions matches Some(definitions) ==> forall|i: int|
                0 <= i < definitions@.len() ==> (#[trigger] definitions@[i]).document_span.fits(),
        ensures
            views::opt_seq_view(r) == (match self.definitions {
                Some(definitions) => Some(
                    definition_links(definitions@, line_index@, *language_server),
                ),
                None => None,
            }),
    {
        let definitions = match &self.definitions {
            Some(definitions) => definitions,
            None => return None,
        };
        let mut location_links: Vec<LocationLink> = Vec::new();
        let mut i: usize = 0;
        assert(definitions@.take(0) =~= Seq::empty());
        assert(views::seq_view(location_links@) =~= Seq::empty());
        while i < definitions.len()
            invariant
                i <= definitions@.len(),
                forall|j: int|
                    0 <= j < definitions@.len() ==> (
                    #[trigger] definitions@[j]).document_span.fits(),
                views::seq_view(location_links@) == definition_links(
                    definitions@.take(i as int),
                    line_index@,
                    *language_server,
                ),
            decreases definitions.len() - i,
        {
            assert(definitions@.take(i + 1).drop_last() =~= definitions@.take(i as int));
            if let Some(link) = definitions[i].document_span.to_link(
                share(&line_index),
                language_server,
            ) {
                proof {
                    views::lemma_push(location_links@, link);
                }
                location_links.push(link);
            }
            i = i + 1;
        }
        assert(definitions@.take(i as int) =~= definitions@);
        Some(location_links)
    }
}

/// The links to the definitions of two lists are those of the first and then those of the second. A
/// single definition gives its link, and none where its file is not a document that the client knows.
pub proof fn law_definitions_are_linked_in_order(
    a: Seq<DefinitionInfo>,
    b: Seq<DefinitionInfo>,
    definition: DefinitionInfo,
    lines: Seq<text::LineView>,
    language_server: Inner,
)
    ensures
        definition_links(a + b, lines, language_server) == definition_links(
            a,
            lines,
            language_server,
        ) + definition_links(b, lines, language_server),
        ({
            let links = definition_links(seq![definition], lines, language_server);
            let place = definition.document_span;
            let known = specifier::parsed_url(place.file_name@) matches Some(href)
                && language_server.document(href) is Some && language_server.url_map.client_url(
                href,
            ) is Some;
            &&& !known ==> links.len() == 0
            &&& known ==> {
                let href = specifier::parsed_url(place.file_name@)->0;
                let target = language_server.document(href)->0.lines();
                &&& links.len() == 1
                &&& Some(links[0].target_uri) == language_server.url_map.client_url(href)
                &&& links[0].target_selection_range.start == text::position_at(
                    target,
                    place.text_span.start as nat,
                )
                &&& links[0].target_selection_range.end == text::position_at(
                    target,
                    (place.text_span.start + place.text_span.length) as nat,
                )
            }
        }),
    decreases b.len(),
{
    reveal_with_fuel(definition_links, 2);
    assert(seq![definition].drop_last() =~= Seq::empty());
    if b.len() == 0 {
        assert(a + b =~= a);
    } else {
        law_definitions_are_linked_in_order(a, b.drop_last(), definition, lines, language_server);
        assert((a + b).drop_last() =~= a + b.drop_last());
        assert((a + b).last() == b.last());
    }
    assert(definition_links(a + b, lines, language_server) =~= definition_links(
        a,
        lines,
        language_server,
    ) + definition_links(b, lines, language_server));
}

/// A place that refers to something.
#[derive(Debug)]
pub struct ReferenceEntry {
    pub document_span: DocumentSpan,
}

impl Named for ReferenceEntry {
    open spec fn file_names(&self) -> Seq<Seq<char>> {
        self.document_span.file_names()
    }

    open spec fn same_but_names(&self, other: &Self) -> bool {
        &&& self.document_span.same_but_names(&other.document_span)
    }

    proof fn lemma_same(&self) {
    }

    fn normalize(&mut self, map: &mut TscSpecifierMap) -> (r: Result<(), TscError>) {
        self.document_span.normalize(map)
    }
}

impl ReferenceEntry {
    /// The location.
    pub fn to_location(&self, line_index: Arc<LineIndex>, url_map: &LspUrlMap) -> (r: Location)
        requires
            self.document_span.text_span.fits(),
        ensures
            r@ == location_of(self.document_span, line_index@, *url_map),
            r.range.start == text::position_at(
                line_index@,
                self.document_span.text_span.start as nat,
            ),
            r.range.end == text::position_at(
                line_index@,
                (self.document_span.text_span.start + self.document_span.text_span.length) as nat,
            ),
            specifier::parsed_url(self.document_span.file_name@) matches Some(href) ==> (
            url_map.client_url(href) matches Some(uri) ==> r.uri@ == uri),
            r.uri@ == language_server::uri_or_invalid(*url_map, self.document_span.file_name@),
    {
        let uri = url_map.uri_or_invalid(self.document_span.file_name.as_str());
        Location { uri: uri.into_url(), range: self.document_span.text_span.to_range(line_index) }
    }
}

/// A place that refers to a symbol, or defines it.
#[derive(Debug)]
pub struct ReferencedSymbolEntry {
    pub is_definition: bool,
    pub entry: ReferenceEntry,
}

impl Named for ReferencedSymbolEntry {
    open spec fn file_names(&self) -> Seq<Seq<char>> {
        self.entry.file_names()
    }

    open spec fn same_but_names(&self, other: &Self) -> bool {
        &&& self.entry.same_but_names(&other.entry)
        &&& self.is_definition == other.is_definition
    }

    proof fn lemma_same(&self) {
    }

    fn normalize(&mut self, map: &mut TscSpecifierMap) -> (r: Result<(), TscError>) {
        self.entry.normalize(map)
    }
}

/// Where a symbol that is referred to is defined.
#[derive(Debug)]
pub struct ReferencedSymbolDefinitionInfo {
    pub definition_info: DefinitionInfo,
}

impl Named for ReferencedSymbolDefinitionInfo {
    open spec fn file_names(&self) -> Seq<Seq<char>> {
        self.definition_info.file_names()
    }

    open spec fn same_but_names(&self, other: &Self) -> bool {
        &&& self.definition_info.same_but_names(&other.definition_info)
    }

    proof fn lemma_same(&self) {
    }

    fn normalize(&mut self, map: &mut TscSpecifierMap) -> (r: Result<(), TscError>) {
        self.definition_info.normalize(map)
    }
}

/// A symbol and the places that refer to it.
#[derive(Debug)]
pub struct ReferencedSymbol {
    pub definition: ReferencedSymbolDefinitionInfo,
    pub references: Vec<ReferencedSymbolEntry>,
}

impl Named for ReferencedSymbol {
    open spec fn file_names(&self) -> Seq<Seq<char>> {
        self.definition.file_names() + normalize::all_names(self.references@)
    }

    open spec fn same_but_names(&self, other: &Self) -> bool {
        &&& self.definition.same_but_names(&other.definition)
        &&& normalize::all_same_but_names(self.references@, other.references@)
    }

    proof fn lemma_same(&self) {
    }

    fn normalize(&mut self, map: &mut TscSpecifierMap) -> (r: Result<(), TscError>) {
        proof {
            normalize::lemma_reading_append(
                map@,
                self.definition.file_names(),
                normalize::all_names(self.references@),
            );
        }
        match self.definition.normalize(map) {
            Ok(()) => normalize_all(&mut self.references, map),
            Err(err) => Err(err),
        }
    }
}

/// The file name of a location is read, and the places in the file stay as they are.
pub proof fn law_locations_keep_their_places(
    implementation: ImplementationLocation,
    rename: RenameLocation,
    definition: DefinitionInfo,
    reference: ReferenceEntry,
    other: DocumentSpan,
)
    ensures
        implementation.file_names() == seq![implementation.document_span.file_name@],
        rename.file_names() == seq![rename.document_span.file_name@],
        definition.file_names() == seq![definition.document_span.file_name@],
        reference.file_names() == seq![reference.document_span.file_name@],
        implementation.same_but_names(&ImplementationLocation { document_span: other })
            ==> implementation.document_span.text_span == other.text_span
            && implementation.document_span.context_span == other.context_span,
        rename.same_but_names(&RenameLocation { document_span: other })
            ==> rename.document_span.text_span == other.text_span,
        definition.same_but_names(&DefinitionInfo { document_span: other })
            ==> definition.document_span.text_span == other.text_span
            && definition.document_span.context_span == other.context_span
            && definition.document_span.original_text_span == other.original_text_span
            && definition.document_span.original_context_span == other.original_context_span,
        reference.same_but_names(&ReferenceEntry { document_span: other })
            ==> reference.document_span.text_span == other.text_span,
{
}

/// Of a symbol, the file name of its definition is read first, and then that of every place that refers
/// to it, in order. Which of them are definitions, and where they stand, stays as it is.
pub proof fn law_all_references_are_read(symbol: ReferencedSymbol, other: ReferencedSymbol, i: int)
    ensures
        symbol.file_names().len() == 1 + symbol.references@.len(),
        symbol.file_names()[0] == symbol.definition.definition_info.document_span.file_name@,
        0 <= i < symbol.references@.len() ==> symbol.file_names()[1 + i]
            == symbol.references@[i].entry.document_span.file_name@,
        symbol.same_but_names(&other) ==> symbol.references@.len() == other.references@.len()
            && symbol.definition.definition_info.document_span.text_span
            == other.definition.definition_info.document_span.text_span,
        symbol.same_but_names(&other) && 0 <= i < symbol.references@.len()
            ==> symbol.references@[i].is_definition == other.references@[i].is_definition
            && symbol.references@[i].entry.document_span.text_span
            == other.references@[i].entry.document_span.text_span,
{
    let references = symbol.references@;
    if references.len() > 0 {
        assert forall|j: int| 0 <= j < references.len() implies (
        #[trigger] references[j]).file_names().len() == 1 by {}
        let at = if 0 <= i < references.len() {
            i
        } else {
            0
        };
        normalize::lemma_one_name_each(references, at);
    }
    if symbol.same_but_names(&other) && 0 <= i < references.len() {
        assert(references[i].same_but_names(&other.references@[i]));
    }
}

/// The file name of every definition is read, in order.
pub proof fn law_all_definitions_are_read(found: DefinitionInfoAndBoundSpan, i: int)
    ensures
        found.definitions is None ==> found.file_names().len() == 0,
        found.definitions matches Some(definitions) ==> found.file_names().len()
            == definitions@.len() && (0 <= i < definitions@.len() ==> found.file_names()[i]
            == definitions@[i].document_span.file_name@),
{
    if let Some(definitions) = found.definitions {
        let list = definitions@;
        if list.len() > 0 {
            assert forall|j: int| 0 <= j < list.len() implies (
            #[trigger] list[j]).file_names().len() == 1 by {}
            let at = if 0 <= i < list.len() {
                i
            } else {
                0
            };
            normalize::lemma_one_name_each(list, at);
        }
    }
}

} // verus!
