//! Changes of files that the compiler proposes.

use std::sync::Arc;
use vstd::prelude::*;
use vstd::string::*;
use crate::error::{LspError, TscError};
use crate::language_server::Inner;
use crate::lsp;
use crate::lsp::{
    CreateFile, DocumentChangeOperation, DocumentChanges, TextDocumentEdit, TextEdit, WorkspaceEdit,
};
use crate::normalize;
use crate::normalize::{normalize_all, normalize_name, Named};
use crate::span;
use crate::span::TextSpan;
use crate::specifier;
use crate::specifier::ModuleSpecifier;
use crate::specifier_map::TscSpecifierMap;
use crate::sync::share;
use crate::text;
use crate::text::LineIndex;
use crate::views;

verus! {

/// A change of one span of a file.
#[derive(Debug)]
pub struct TextChange {
    pub span: TextSpan,
    pub new_text: String,
}

impl Clone for TextChange {
    fn clone(&self) -> (r: Self)
        ensures
            r == *self,
    {
        TextChange { span: self.span, new_text: self.new_text.clone() }
    }
}

/// The edit for a change of the text with these lines.
pub open spec fn edit_of(change: TextChange, lines: Seq<text::LineView>) -> lsp::TextEditView {
    lsp::TextEditView {
        range: span::range_of(change.span, lines),
        new_text: change.new_text@,
    }
}

impl TextChange {
    /// The edit for the change.
    pub fn as_text_edit(&self, line_index: Arc<LineIndex>) -> (r: TextEdit)
        requires
            self.span.fits(),
        ensures
            r@ == edit_of(*self, line_index@),
            r.new_text@ == self.new_text@,
            r.range.start == text::position_at(line_index@, self.span.start as nat),
            r.range.end == text::position_at(
                line_index@,
                (self.span.start + self.span.length) as nat,
            ),
    {
        TextEdit { range: self.span.to_range(line_index), new_text: self.new_text.clone() }
    }

    /// The edit for the change, where an annotated one could stand too.
    pub fn as_text_or_annotated_text_edit(&self, line_index: Arc<LineIndex>) -> (r: TextEdit)
        requires
            self.span.fits(),
        ensures
            r@ == edit_of(*self, line_index@),
            r.new_text@ == self.new_text@,
            r.range.start == text::position_at(line_index@, self.span.start as nat),
            r.range.end == text::position_at(
                line_index@,
                (self.span.start + self.span.length) as nat,
            ),
    {
        TextEdit { range: self.span.to_range(line_index), new_text: self.new_text.clone() }
    }
}

/// Changes of one file.
#[derive(Debug)]
pub struct FileTextChanges {
    pub file_name: String,
    pub text_changes: Vec<TextChange>,
    pub is_new_file: Option<bool>,
}

/// What a [`FileTextChanges`] holds.
pub struct FileTextChangesView {
    pub file_name: Seq<char>,
    pub text_changes: Seq<TextChange>,
    pub is_new_file: Option<bool>,
}

impl View for FileTextChanges {
    type V = FileTextChangesView;

    open spec fn view(&self) -> FileTextChangesView {
        FileTextChangesView {
            file_name: self.file_name@,
            text_changes: self.text_changes@,
            is_new_file: self.is_new_file,
        }
    }
}

impl Clone for FileTextChanges {
    fn clone(&self) -> (r: Self)
        ensures
            r@ == self@,
    {
        let text_changes = self.text_changes.clone();
        assert(text_changes@ =~= self.text_changes@);
        FileTextChanges {
            file_name: self.file_name.clone(),
            text_changes,
            is_new_file: self.is_new_file,
        }
    }
}

impl Named for FileTextChanges {
    open spec fn file_names(&self) -> Seq<Seq<char>> {
        seq![self.file_name@]
    }

    open spec fn same_but_names(&self, other: &Self) -> bool {
        self.text_changes == other.text_changes && self.is_new_file == other.is_new_file
    }

    proof fn lemma_same(&self) {
    }

    fn normalize(&mut self, map: &mut TscSpecifierMap) -> (r: Result<(), TscError>) {
        normalize_name(&mut self.file_name, map)
    }
}

/// The edits for changes of the text with these lines.
pub open spec fn edits_of(changes: Seq<TextChange>, lines: Seq<text::LineView>) -> Seq<
    lsp::TextEditView,
> {
    Seq::new(changes.len(), |i: int| edit_of(changes[i], lines))
}

/// The spans of the changes end at offsets that can be counted.
pub open spec fn changes_fit(changes: Seq<TextChange>) -> bool {
    forall|i: int| 0 <= i < changes.len() ==> (#[trigger] changes[i]).span.fits()
}

/// The edits for changes of a text.
fn to_edits(changes: &Vec<TextChange>, line_index: &Arc<LineIndex>) -> (r: Vec<TextEdit>)
    requires
        changes_fit(changes@),
    ensures
        views::seq_view(r@) == edits_of(changes@, line_index@),
        r@.len() == changes@.len(),
        forall|i: int|
            0 <= i < changes@.len() ==> {
                &&& (#[trigger] r@[i]).new_text@ == changes@[i].new_text@
                &&& r@[i].range.start == text::position_at(
                    line_index@,
                    changes@[i].span.start as nat,
                )
                &&& r@[i].range.end == text::position_at(
                    line_index@,
                    (changes@[i].span.start + changes@[i].span.length) as nat,
                )
            },
{
    let mut edits: Vec<TextEdit> = Vec::new();
    let mut i: usize = 0;
    while i < changes.len()
        invariant
            i <= changes@.len(),
            edits@.len() == i,
            changes_fit(changes@),
            forall|j: int| 0 <= j < i ==> (#[trigger] edits@[j])@ == edit_of(changes@[j], line_index@),
        decreases changes.len() - i,
    {
        edits.push(changes[i].as_text_or_annotated_text_edit(share(line_index)));
        i = i + 1;
    }
    assert(views::seq_view(edits@) =~= edits_of(changes@, line_index@));
    edits
}

impl FileTextChanges {
    /// A file that is not there yet.
    pub open spec fn is_new(self) -> bool {
        self.is_new_file == Some(true)
    }

    /// The edit of the document with this URL.
    pub open spec fn edit_at(self, href: Seq<char>, language_server: Inner) -> lsp::TextDocumentEditView {
        if self.is_new() {
            lsp::TextDocumentEditView {
                uri: href,
                version: None,
                edits: edits_of(self.text_changes@, text::lines(""@)),
            }
        } else {
            let document = language_server.document(href)->0;
            lsp::TextDocumentEditView {
                uri: href,
                version: document.version(),
                edits: edits_of(self.text_changes@, document.lines()),
            }
        }
    }

    /// The operations for the changes of the file at a URL: making it, where it is new, and editing
    /// it.
    pub open spec fn change_ops_in(self, href: Seq<char>, language_server: Inner) -> Result<
        Seq<lsp::ChangeView>,
        TscError,
    > {
        let edit = lsp::ChangeView::Edit(self.edit_at(href, language_server));
        if self.is_new() {
            Ok(
                seq![
                    lsp::ChangeView::Create {
                        uri: href,
                        ignore_if_exists: Some(true),
                        overwrite: None,
                    },
                    edit,
                ],
            )
        } else if language_server.document(href) is Some {
            Ok(seq![edit])
        } else {
            Err(TscError::DocumentNotFound)
        }
    }

    /// The operations for the changes: making the file, where it is new, and editing it.
    pub open spec fn change_ops(self, language_server: Inner) -> Result<
        Seq<lsp::ChangeView>,
        TscError,
    > {
        match specifier::parsed_url(self.file_name@) {
            Some(href) => self.change_ops_in(href, language_server),
            None => Err(TscError::InvalidUrl),
        }
    }

    /// The edit for the changes; an error where the file name is no URL or there is no document for
    /// it.
    pub fn to_text_document_edit(&self, language_server: &Inner) -> (r: Result<
        TextDocumentEdit,
        TscError,
    >)
        requires
            changes_fit(self.text_changes@),
        ensures
            match specifier::parsed_url(self.file_name@) {
                Some(href) => match language_server.document(href) {
                    Some(document) => r matches Ok(edit) && edit@ == (lsp::TextDocumentEditView {
                        uri: href,
                        version: document.version(),
                        edits: edits_of(self.text_changes@, document.lines()),
                    }),
                    None => r matches Err(err) && err == TscError::DocumentNotFound,
                },
                None => r matches Err(err) && err == TscError::InvalidUrl,
            },
            r matches Ok(edit) ==> edit.edits@.len() == self.text_changes@.len(),
            r matches Ok(edit) ==> forall|i: int|
                0 <= i < self.text_changes@.len() ==> {
                    let lines = language_server.document(specifier::parsed_url(self.file_name@)->0)->0.lines();
                    let change = self.text_changes@[i];
                    &&& (#[trigger] edit.edits@[i]).new_text@ == change.new_text@
                    &&& edit.edits@[i].range.start == text::position_at(
                        lines,
                        change.span.start as nat,
                    )
                    &&& edit.edits@[i].range.end == text::position_at(
                        lines,
                        (change.span.start + change.span.length) as nat,
                    )
                },
    {
        match ModuleSpecifier::parse(self.file_name.as_str()) {
            Ok(specifier) => self.to_text_document_edit_in(specifier, language_server),
            Err(err) => Err(err),
        }
    }

    /// The edit for the changes of the file of a specifier; an error where there is no document for
    /// it.
    pub fn to_text_document_edit_in(
        &self,
        specifier: ModuleSpecifier,
        language_server: &Inner,
    ) -> (r: Result<TextDocumentEdit, TscError>)
        requires
            changes_fit(self.text_changes@),
        ensures
            match language_server.document(specifier@) {
                Some(document) => r matches Ok(edit) && edit@ == (lsp::TextDocumentEditView {
                    uri: specifier@,
                    version: document.version(),
                    edits: edits_of(self.text_changes@, document.lines()),
                }),
                None => r matches Err(err) && err == TscError::DocumentNotFound,
            },
            r matches Ok(edit) ==> edit.edits@.len() == self.text_changes@.len(),
            r matches Ok(edit) ==> forall|i: int|
                0 <= i < self.text_changes@.len() ==> {
                    let lines = language_server.document(specifier@)->0.lines();
                    let change = self.text_changes@[i];
                    &&& (#[trigger] edit.edits@[i]).new_text@ == change.new_text@
                    &&& edit.edits@[i].range.start == text::position_at(
                        lines,
                        change.span.start as nat,
                    )
                    &&& edit.edits@[i].range.end == text::position_at(
                        lines,
                        (change.span.start + change.span.length) as nat,
                    )
                },
    {
        let asset_or_doc = match language_server.get_asset_or_document(&specifier) {
            Ok(document) => document,
            Err(err) => return Err(err),
        };
        let edits = to_edits(&self.text_changes, &asset_or_doc.line_index());
        Ok(
            TextDocumentEdit {
                uri: specifier,
                version: asset_or_doc.document_lsp_version(),
                edits,
            },
        )
    }

    /// The operations for the changes; an error where the file name is no URL, or the file is not
    /// new and there is no document for it.
    pub fn to_text_document_change_ops(&self, language_server: &Inner) -> (r: Result<
        Vec<DocumentChangeOperation>,
        TscError,
    >)
        requires
            changes_fit(self.text_changes@),
        ensures
            match r {
                Ok(ops) => self.change_ops(*language_server) == Ok::<
                    Seq<lsp::ChangeView>,
                    TscError,
                >(views::seq_view(ops@)),
                Err(err) => self.change_ops(*language_server) == Err::<
                    Seq<lsp::ChangeView>,
                    TscError,
                >(err),
            },
            r matches Ok(ops) ==> {
                let lines = if self.is_new_file == Some(true) {
                    text::lines(""@)
                } else {
                    language_server.document(specifier::parsed_url(self.file_name@)->0)->0.lines()
                };
                &&& ops@.len() == if self.is_new_file == Some(true) {
                    2int
                } else {
                    1int
                }
                &&& ops@.last() matches DocumentChangeOperation::Edit(edit) && {
                    &&& edit.edits@.len() == self.text_changes@.len()
                    &&& forall|i: int|
                        0 <= i < self.text_changes@.len() ==> {
                            let change = self.text_changes@[i];
                            &&& (#[trigger] edit.edits@[i]).new_text@ == change.new_text@
                            &&& edit.edits@[i].range.start == text::position_at(
                                lines,
                                change.span.start as nat,
                            )
                            &&& edit.edits@[i].range.end == text::position_at(
                                lines,
                                (change.span.start + change.span.length) as nat,
                            )
                        }
                }
            },
    {
        match ModuleSpecifier::parse(self.file_name.as_str()) {
            Ok(specifier) => self.to_change_ops_in(specifier, language_server),
            Err(err) => Err(err),
        }
    }

    /// The operations for the changes of the file of a specifier; an error where it is not new and
    /// there is no document for it.
    pub fn to_change_ops_in(&self, specifier: ModuleSpecifier, language_server: &Inner) -> (r: Result<
        Vec<DocumentChangeOperation>,
        TscError,
    >)
        requires
            changes_fit(self.text_changes@),
        ensures
            match r {
                Ok(ops) => self.change_ops_in(specifier@, *language_server) == Ok::<
                    Seq<lsp::ChangeView>,
                    TscError,
                >(views::seq_view(ops@)),
                Err(err) => self.change_ops_in(specifier@, *language_server) == Err::<
                    Seq<lsp::ChangeView>,
                    TscError,
                >(err),
            },
            r matches Ok(ops) ==> {
                let lines = if self.is_new_file == Some(true) {
                    text::lines(""@)
                } else {
                    language_server.document(specifier@)->0.lines()
                };
                &&& ops@.len() == if self.is_new_file == Some(true) {
                    2int
                } else {
                    1int
                }
                &&& ops@.last() matches DocumentChangeOperation::Edit(edit) && {
                    &&& edit.edits@.len() == self.text_changes@.len()
                    &&& forall|i: int|
                        0 <= i < self.text_changes@.len() ==> {
                            let change = self.text_changes@[i];
                            &&& (#[trigger] edit.edits@[i]).new_text@ == change.new_text@
                            &&& edit.edits@[i].range.start == text::position_at(
                                lines,
                                change.span.start as nat,
                            )
                            &&& edit.edits@[i].range.end == text::position_at(
                                lines,
                                (change.span.start + change.span.length) as nat,
                            )
                        }
                }
            },
    {
        let mut ops: Vec<DocumentChangeOperation> = Vec::new();
        let is_new = self.is_new_file.unwrap_or(false);
        let (line_index, version) = if !is_new {
            match language_server.get_asset_or_document(&specifier) {
                Ok(document) => (document.line_index(), document.document_lsp_version()),
                Err(err) => return Err(err),
            }
        } else {
            proof {
                reveal_strlit("");
            }
            (Arc::new(LineIndex::new("")), None)
        };
        if is_new {
            ops.push(
                DocumentChangeOperation::Create(
                    CreateFile {
                        uri: specifier.clone(),
                        ignore_if_exists: Some(true),
                        overwrite: None,
                    },
                ),
            );
        }
        let ghost href = specifier@;
        let edits = to_edits(&self.text_changes, &line_index);
        ops.push(
            DocumentChangeOperation::Edit(TextDocumentEdit { uri: specifier, version, edits }),
        );
        proof {
            assert(views::seq_view(ops@) =~= self.change_ops_in(href, *language_server)->Ok_0);
        }
        Ok(ops)
    }
}

/// The operations for the changes of every file, or the first error.
pub open spec fn all_change_ops(changes: Seq<FileTextChanges>, language_server: Inner) -> Result<
    Seq<lsp::ChangeView>,
    TscError,
>
    decreases changes.len(),
{
    if changes.len() == 0 {
        Ok(Seq::empty())
    } else {
        match all_change_ops(changes.drop_last(), language_server) {
            Ok(before) => match changes.last().change_ops(language_server) {
                Ok(ops) => Ok(before + ops),
                Err(err) => Err(err),
            },
            Err(err) => Err(err),
        }
    }
}

/// The changes of every file fit.
pub open spec fn all_changes_fit(changes: Seq<FileTextChanges>) -> bool {
    forall|i: int| 0 <= i < changes.len() ==> changes_fit((#[trigger] changes[i]).text_changes@)
}

/// An error among the first files is an error of all of them.
proof fn lemma_error_stays(changes: Seq<FileTextChanges>, n: int, language_server: Inner)
    requires
        0 <= n <= changes.len(),
        all_change_ops(changes.take(n), language_server) is Err,
    ensures
        all_change_ops(changes, language_server) is Err,
    decreases changes.len() - n,
{
    if n < changes.len() {
        assert(changes.take(n + 1).drop_last() =~= changes.take(n));
        lemma_error_stays(changes, n + 1, language_server);
    } else {
        assert(changes.take(n) =~= changes);
    }
}

/// The change of the workspace for the changes of files; an internal error where one of them cannot
/// be turned into operations.
pub fn file_text_changes_to_workspace_edit(
    changes: &[FileTextChanges],
    language_server: &Inner,
) -> (r: Result<Option<WorkspaceEdit>, LspError>)
    requires
        all_changes_fit(changes@),
    ensures
        match all_change_ops(changes@, *language_server) {
            Ok(ops) => r matches Ok(Some(edit)) && edit.document_changes matches
                DocumentChanges::Operations(list) && views::seq_view(list@) == ops,
            Err(_) => r matches Err(err) && err == LspError::InternalError,
        },
{
    let mut all_ops: Vec<DocumentChangeOperation> = Vec::new();
    let mut i: usize = 0;
    assert(changes@.take(0) =~= Seq::empty());
    assert(views::seq_view(all_ops@) =~= Seq::empty());
    while i < changes.len()
        invariant
            i <= changes@.len(),
            all_changes_fit(changes@),
            all_change_ops(changes@.take(i as int), *language_server) == Ok::<
                Seq<lsp::ChangeView>,
                TscError,
            >(views::seq_view(all_ops@)),
        decreases changes.len() - i,
    {
        assert(changes@.take(i + 1).drop_last() =~= changes@.take(i as int));
        match changes[i].to_text_document_change_ops(language_server) {
            Ok(ops) => {
                let mut ops = ops;
                let ghost before = all_ops@;
                let ghost more = ops@;
                all_ops.append(&mut ops);
                assert(views::seq_view(all_ops@) =~= views::seq_view(before) + views::seq_view(
                    more,
                ));
            },
            Err(_) => {
                proof {
                    lemma_error_stays(changes@, i + 1, *language_server);
                }
                return Err(LspError::InternalError);
            },
        }
        i = i + 1;
    }
    assert(changes@.take(i as int) =~= changes@);
    Ok(Some(WorkspaceEdit { document_changes: DocumentChanges::Operations(all_ops) }))
}

/// A text is edited once for each of its changes and in their order: the edit puts the new text of the
/// change in the place of what stands between the two ends of its span.
pub proof fn law_each_change_is_one_edit(changes: Seq<TextChange>, lines: Seq<text::LineView>)
    ensures
        edits_of(changes, lines).len() == changes.len(),
        forall|i: int|
            0 <= i < changes.len() ==> {
                let edit = #[trigger] edits_of(changes, lines)[i];
                &&& edit.new_text == changes[i].new_text@
                &&& edit.range.start == text::position_at(lines, changes[i].span.start as nat)
                &&& edit.range.end == text::position_at(
                    lines,
                    (changes[i].span.start + changes[i].span.length) as nat,
                )
            },
{
}

/// How many of the files are not there yet.
pub open spec fn new_files(changes: Seq<FileTextChanges>) -> nat
    decreases changes.len(),
{
    if changes.len() == 0 {
        0
    } else {
        new_files(changes.drop_last()) + if changes.last().is_new_file == Some(true) {
            1nat
        } else {
            0nat
        }
    }
}

/// Every file is edited, in the order of the files, and one that is not there yet is made just before
/// it is edited. Nothing else is done. An edit is of the document at the URL of the file, in the
/// version that the client has open, and holds one edit for each change of the file.
pub proof fn law_every_file_is_edited_in_order(
    changes: Seq<FileTextChanges>,
    language_server: Inner,
    i: int,
)
    requires
        all_change_ops(changes, language_server) is Ok,
        0 <= i < changes.len(),
    ensures
        all_change_ops(changes, language_server)->Ok_0.len() == changes.len() + new_files(changes),
        ({
            let ops = all_change_ops(changes, language_server)->Ok_0;
            let is_new = changes[i].is_new_file == Some(true);
            let at = i + new_files(changes.take(i + 1));
            let href = specifier::parsed_url(changes[i].file_name@)->0;
            let lines = if is_new {
                text::lines(""@)
            } else {
                language_server.document(href)->0.lines()
            };
            &&& 0 <= at < ops.len()
            &&& is_new ==> at > 0 && ops[at - 1] == (lsp::ChangeView::Create {
                uri: href,
                ignore_if_exists: Some(true),
                overwrite: None,
            })
            &&& ops[at] matches lsp::ChangeView::Edit(edit) && {
                &&& edit.uri == href
                &&& is_new ==> edit.version is None
                &&& !is_new ==> edit.version == language_server.document(href)->0.version()
                &&& edit.edits.len() == changes[i].text_changes@.len()
                &&& forall|j: int|
                    0 <= j < edit.edits.len() ==> {
                        let change = changes[i].text_changes@[j];
                        &&& (#[trigger] edit.edits[j]).new_text == change.new_text@
                        &&& edit.edits[j].range.start == text::position_at(
                            lines,
                            change.span.start as nat,
                        )
                        &&& edit.edits[j].range.end == text::position_at(
                            lines,
                            (change.span.start + change.span.length) as nat,
                        )
                    }
            }
        }),
    decreases changes.len(),
{
    let before = changes.drop_last();
    if i < before.len() {
        law_every_file_is_edited_in_order(before, language_server, i);
        assert(before.take(i + 1) =~= changes.take(i + 1));
        assert(before[i] == changes[i]);
        let ops = all_change_ops(before, language_server)->Ok_0;
        let at = i + new_files(changes.take(i + 1));
        assert(all_change_ops(changes, language_server)->Ok_0[at] == ops[at]);
    } else {
        assert(changes.take(i + 1) =~= changes);
        if before.len() > 0 {
            law_every_file_is_edited_in_order(before, language_server, 0);
        }
    }
}

/// The files can be changed just where the name of each is a URL and each that is there already is a
/// document of the language server.
pub proof fn law_changes_fail_for_unknown_files(
    changes: Seq<FileTextChanges>,
    language_server: Inner,
)
    ensures
        all_change_ops(changes, language_server) is Ok <==> forall|i: int|
            0 <= i < changes.len() ==> {
                let name = (#[trigger] changes[i]).file_name@;
                &&& specifier::parsed_url(name) is Some
                &&& changes[i].is_new_file == Some(true) || language_server.document(
                    specifier::parsed_url(name)->0,
                ) is Some
            },
    decreases changes.len(),
{
    if changes.len() > 0 {
        let before = changes.drop_last();
        law_changes_fail_for_unknown_files(before, language_server);
        assert(changes.last() == changes[changes.len() - 1]);
        assert forall|i: int| 0 <= i < before.len() implies #[trigger] before[i]
            == changes[i] by {}
        if all_change_ops(before, language_server) is Ok && changes.last().change_ops(
            language_server,
        ) is Ok {
            assert forall|i: int| 0 <= i < changes.len() implies {
                let name = (#[trigger] changes[i]).file_name@;
                &&& specifier::parsed_url(name) is Some
                &&& changes[i].is_new_file == Some(true) || language_server.document(
                    specifier::parsed_url(name)->0,
                ) is Some
            } by {
                if i < before.len() {
                    assert(before[i] == changes[i]);
                }
            }
        }
    }
}

/// The changes that a refactor makes.
#[derive(Debug)]
pub struct RefactorEditInfo {
    pub edits: Vec<FileTextChanges>,
    pub rename_location: Option<u32>,
}

impl Named for RefactorEditInfo {
    open spec fn file_names(&self) -> Seq<Seq<char>> {
        normalize::all_names(self.edits@)
    }

    open spec fn same_but_names(&self, other: &Self) -> bool {
        &&& normalize::all_same_but_names(self.edits@, other.edits@)
        &&& self.rename_location == other.rename_location
    }

    proof fn lemma_same(&self) {
    }

    fn normalize(&mut self, map: &mut TscSpecifierMap) -> (r: Result<(), TscError>) {
        normalize_all(&mut self.edits, map)
    }
}

impl RefactorEditInfo {
    /// The change of the workspace; an internal error where one of the edits cannot be turned into
    /// operations.
    pub fn to_workspace_edit(&self, language_server: &Inner) -> (r: Result<
        Option<WorkspaceEdit>,
        LspError,
    >)
        requires
            all_changes_fit(self.edits@),
        ensures
            match all_change_ops(self.edits@, *language_server) {
                Ok(ops) => r matches Ok(Some(edit)) && edit.document_changes matches
                    DocumentChanges::Operations(list) && views::seq_view(list@) == ops,
                Err(_) => r matches Err(err) && err == LspError::InternalError,
            },
    {
        file_text_changes_to_workspace_edit(self.edits.as_slice(), language_server)
    }
}

/// An action that goes with a completion. Its commands are JSON texts that are handed back as they
/// are.
#[derive(Debug)]
pub struct CodeAction {
    pub description: String,
    pub changes: Vec<FileTextChanges>,
    pub commands: Option<Vec<String>>,
}

impl Named for CodeAction {
    open spec fn file_names(&self) -> Seq<Seq<char>> {
        normalize::all_names(self.changes@)
    }

    open spec fn same_but_names(&self, other: &Self) -> bool {
        &&& normalize::all_same_but_names(self.changes@, other.changes@)
        &&& self.description == other.description
        &&& self.commands == other.commands
    }

    proof fn lemma_same(&self) {
    }

    fn normalize(&mut self, map: &mut TscSpecifierMap) -> (r: Result<(), TscError>) {
        normalize_all(&mut self.changes, map)
    }
}

/// An action that fixes a diagnostic. Its commands are JSON texts that are handed back as they are.
#[derive(Debug)]
pub struct CodeFixAction {
    pub description: String,
    pub changes: Vec<FileTextChanges>,
    pub commands: Option<Vec<String>>,
    pub fix_name: String,
    pub fix_id: Option<String>,
    pub fix_all_description: Option<String>,
}

impl Named for CodeFixAction {
    open spec fn file_names(&self) -> Seq<Seq<char>> {
        normalize::all_names(self.changes@)
    }

    open spec fn same_but_names(&self, other: &Self) -> bool {
        &&& normalize::all_same_but_names(self.changes@, other.changes@)
        &&& self.description == other.description
        &&& self.commands == other.commands
        &&& self.fix_name == other.fix_name
        &&& self.fix_id == other.fix_id
        &&& self.fix_all_description == other.fix_all_description
    }

    proof fn lemma_same(&self) {
    }

    fn normalize(&mut self, map: &mut TscSpecifierMap) -> (r: Result<(), TscError>) {
        normalize_all(&mut self.changes, map)
    }
}

/// The actions that fix every diagnostic of one sort. Their commands are JSON texts that are handed
/// back as they are.
#[derive(Debug)]
pub struct CombinedCodeActions {
    pub changes: Vec<FileTextChanges>,
    pub commands: Option<Vec<String>>,
}

impl Named for CombinedCodeActions {
    open spec fn file_names(&self) -> Seq<Seq<char>> {
        normalize::all_names(self.changes@)
    }

    open spec fn same_but_names(&self, other: &Self) -> bool {
        &&& normalize::all_same_but_names(self.changes@, other.changes@)
        &&& self.commands == other.commands
    }

    proof fn lemma_same(&self) {
    }

    fn normalize(&mut self, map: &mut TscSpecifierMap) -> (r: Result<(), TscError>) {
        normalize_all(&mut self.changes, map)
    }
}

/// The names of the files that are changed are read, one for each and in order.
proof fn lemma_changed_names(changes: Seq<FileTextChanges>, i: int)
    ensures
        normalize::all_names(changes).len() == changes.len(),
        0 <= i < changes.len() ==> normalize::all_names(changes)[i] == changes[i].file_name@,
{
    if changes.len() > 0 {
        assert forall|j: int| 0 <= j < changes.len() implies (
        #[trigger] changes[j]).file_names().len() == 1 by {}
        let at = if 0 <= i < changes.len() {
            i
        } else {
            0
        };
        normalize::lemma_one_name_each(changes, at);
    }
}

/// What an action changes names every file that it changes, whatever sort of action it is.
pub proof fn law_all_changed_files_are_read(
    refactor: RefactorEditInfo,
    action: CodeAction,
    fix: CodeFixAction,
    combined: CombinedCodeActions,
    i: int,
)
    ensures
        refactor.file_names().len() == refactor.edits@.len(),
        0 <= i < refactor.edits@.len()
            ==> refactor.file_names()[i] == refactor.edits@[i].file_name@,
        action.file_names().len() == action.changes@.len(),
        0 <= i < action.changes@.len() ==> action.file_names()[i] == action.changes@[i].file_name@,
        fix.file_names().len() == fix.changes@.len(),
        0 <= i < fix.changes@.len() ==> fix.file_names()[i] == fix.changes@[i].file_name@,
        combined.file_names().len() == combined.changes@.len(),
        0 <= i < combined.changes@.len() ==> combined.file_names()[i]
            == combined.changes@[i].file_name@,
{
    lemma_changed_names(refactor.edits@, i);
    lemma_changed_names(action.changes@, i);
    lemma_changed_names(fix.changes@, i);
    lemma_changed_names(combined.changes@, i);
}

/// Reading the names of files keeps what is changed in them.
pub proof fn law_changes_are_kept(a: FileTextChanges, b: FileTextChanges)
    ensures
        a.file_names() == seq![a.file_name@],
        a.same_but_names(&b) <==> a.text_changes == b.text_changes && a.is_new_file
            == b.is_new_file,
{
}

/// Reading the names in a fix keeps its description, its commands, its name, and what it changes in each
/// file.
pub proof fn law_fixes_are_kept(a: CodeFixAction, b: CodeFixAction, i: int)
    requires
        a.same_but_names(&b),
    ensures
        a.description == b.description,
        a.commands == b.commands,
        a.fix_name == b.fix_name,
        a.fix_id == b.fix_id,
        a.fix_all_description == b.fix_all_description,
        a.changes@.len() == b.changes@.len(),
        0 <= i < a.changes@.len() ==> a.changes@[i].text_changes == b.changes@[i].text_changes
            && a.changes@[i].is_new_file == b.changes@[i].is_new_file,
{
    if 0 <= i < a.changes@.len() {
        assert(a.changes@[i].same_but_names(&b.changes@[i]));
    }
}

/// Reading the names in an action, in the changes of a refactor or in those of several fixes keeps
/// everything else of them.
pub proof fn law_actions_are_kept(
    a: CodeAction,
    b: CodeAction,
    c: CombinedCodeActions,
    d: CombinedCodeActions,
    e: RefactorEditInfo,
    f: RefactorEditInfo,
    i: int,
)
    ensures
        a.same_but_names(&b) ==> a.description == b.description && a.commands == b.commands
            && a.changes@.len() == b.changes@.len() && (0 <= i < a.changes@.len()
            ==> a.changes@[i].text_changes == b.changes@[i].text_changes),
        c.same_but_names(&d) ==> c.commands == d.commands && c.changes@.len() == d.changes@.len()
            && (0 <= i < c.changes@.len() ==> c.changes@[i].text_changes
            == d.changes@[i].text_changes),
        e.same_but_names(&f) ==> e.rename_location == f.rename_location && e.edits@.len()
            == f.edits@.len() && (0 <= i < e.edits@.len() ==> e.edits@[i].text_changes
            == f.edits@[i].text_changes),
{
    if a.same_but_names(&b) && 0 <= i < a.changes@.len() {
        assert(a.changes@[i].same_but_names(&b.changes@[i]));
    }
    if c.same_but_names(&d) && 0 <= i < c.changes@.len() {
        assert(c.changes@[i].same_but_names(&d.changes@[i]));
    }
    if e.same_but_names(&f) && 0 <= i < e.edits@.len() {
        assert(e.edits@[i].same_but_names(&f.edits@[i]));
    }
}

} // verus!
