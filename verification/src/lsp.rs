//! The values of the language server protocol that the bridge answers with.

use vstd::prelude::*;
use crate::completion::CompletionItemData;
use crate::completion;
use crate::edits;
use crate::edits::FileTextChanges;
use crate::specifier::ModuleSpecifier;
use crate::views;

verus! {

/// A place in a document: a line, and a column in UTF-16 code units.
#[derive(Debug, Clone, Copy, PartialEq, Eq, Structural)]
pub struct Position {
    pub line: u32,
    pub character: u32,
}

/// A range of a document.
#[derive(Debug, Clone, Copy, PartialEq, Eq, Structural)]
pub struct Range {
    pub start: Position,
    pub end: Position,
}

impl Default for Range {
    fn default() -> (r: Self)
        ensures
            r == (Range {
                start: Position { line: 0, character: 0 },
                end: Position { line: 0, character: 0 },
            }),
    {
        Range { start: Position { line: 0, character: 0 }, end: Position { line: 0, character: 0 } }
    }
}

/// The kind of a completion.
#[derive(Debug, Clone, Copy, PartialEq, Eq, Structural)]
pub enum CompletionItemKind {
    Text,
    Method,
    Function,
    Constructor,
    Field,
    Variable,
    Class,
    Interface,
    Module,
    Property,
    Unit,
    Value,
    Enum,
    Keyword,
    Snippet,
    Color,
    File,
    Reference,
    Folder,
    EnumMember,
    Constant,
    Struct,
    Event,
    Operator,
    TypeParameter,
}

/// The kind of a symbol.
#[derive(Debug, Clone, Copy, PartialEq, Eq, Structural)]
pub enum SymbolKind {
    File,
    Module,
    Namespace,
    Package,
    Class,
    Method,
    Property,
    Field,
    Constructor,
    Enum,
    Interface,
    Function,
    Variable,
    Constant,
    String,
    Number,
    Boolean,
    Array,
    Object,
    Key,
    Null,
    EnumMember,
    Struct,
    Event,
    Operator,
    TypeParameter,
}

/// A link from a range of one document to a range of another.
#[derive(Debug)]
pub struct LocationLink {
    pub origin_selection_range: Option<Range>,
    pub target_uri: ModuleSpecifier,
    pub target_range: Range,
    pub target_selection_range: Range,
}

/// What a [`LocationLink`] holds.
pub struct LocationLinkView {
    pub origin_selection_range: Option<Range>,
    pub target_uri: Seq<char>,
    pub target_range: Range,
    pub target_selection_range: Range,
}

impl View for LocationLink {
    type V = LocationLinkView;

    open spec fn view(&self) -> LocationLinkView {
        LocationLinkView {
            origin_selection_range: self.origin_selection_range,
            target_uri: self.target_uri@,
            target_range: self.target_range,
            target_selection_range: self.target_selection_range,
        }
    }
}

/// A range of a document.
#[derive(Debug)]
pub struct Location {
    pub uri: ModuleSpecifier,
    pub range: Range,
}

/// What a [`Location`] holds.
pub struct LocationView {
    pub uri: Seq<char>,
    pub range: Range,
}

impl View for Location {
    type V = LocationView;

    open spec fn view(&self) -> LocationView {
        LocationView { uri: self.uri@, range: self.range }
    }
}

/// A piece of a hover.
#[derive(Debug)]
pub enum MarkedString {
    LanguageString { language: String, value: String },
    Markdown(String),
}

/// What a [`MarkedString`] holds.
pub enum MarkedText {
    LanguageString { language: Seq<char>, value: Seq<char> },
    Markdown(Seq<char>),
}

impl View for MarkedString {
    type V = MarkedText;

    open spec fn view(&self) -> MarkedText {
        match *self {
            MarkedString::LanguageString { language, value } => MarkedText::LanguageString {
                language: language@,
                value: value@,
            },
            MarkedString::Markdown(value) => MarkedText::Markdown(value@),
        }
    }
}

/// What is shown where the pointer rests.
#[derive(Debug)]
pub struct Hover {
    pub contents: Vec<MarkedString>,
    pub range: Option<Range>,
}

/// A property of a symbol.
#[derive(Debug, Clone, Copy, PartialEq, Eq, Structural)]
pub enum SymbolTag {
    Deprecated,
}

/// A symbol of a document, with the symbols inside it.
#[derive(Debug)]
pub struct DocumentSymbol {
    pub name: String,
    pub detail: Option<String>,
    pub kind: SymbolKind,
    pub tags: Option<Vec<SymbolTag>>,
    pub range: Range,
    pub selection_range: Range,
    pub children: Option<Vec<DocumentSymbol>>,
}

/// What a [`DocumentSymbol`] holds.
pub struct SymbolView {
    pub name: Seq<char>,
    pub detail: Option<Seq<char>>,
    pub kind: SymbolKind,
    pub tags: Option<Seq<SymbolTag>>,
    pub range: Range,
    pub selection_range: Range,
    pub children: Option<Seq<SymbolView>>,
}

/// The items of an optional list.
pub open spec fn opt_items<T>(list: Option<Vec<T>>) -> Option<Seq<T>> {
    match list {
        Some(list) => Some(list@),
        None => None,
    }
}

/// What a symbol holds.
pub open spec fn symbol_view(symbol: DocumentSymbol) -> SymbolView
    decreases symbol,
{
    SymbolView {
        name: symbol.name@,
        detail: views::opt_view(symbol.detail),
        kind: symbol.kind,
        tags: opt_items(symbol.tags),
        range: symbol.range,
        selection_range: symbol.selection_range,
        children: match symbol.children {
            Some(children) => Some(symbols_view(children@)),
            None => None,
        },
    }
}

/// What the symbols of a list hold.
pub open spec fn symbols_view(symbols: Seq<DocumentSymbol>) -> Seq<SymbolView>
    decreases symbols,
{
    if symbols.len() == 0 {
        Seq::empty()
    } else {
        symbols_view(symbols.drop_last()).push(symbol_view(symbols.last()))
    }
}

/// One more symbol, one more view.
pub proof fn lemma_push_symbol(symbols: Seq<DocumentSymbol>, symbol: DocumentSymbol)
    ensures
        symbols_view(symbols.push(symbol)) == symbols_view(symbols).push(symbol_view(symbol)),
{
    assert(symbols.push(symbol).drop_last() =~= symbols);
}

/// There are as many views as symbols.
pub proof fn lemma_symbols_len(symbols: Seq<DocumentSymbol>)
    ensures
        symbols_view(symbols).len() == symbols.len(),
    decreases symbols.len(),
{
    if symbols.len() > 0 {
        lemma_symbols_len(symbols.drop_last());
    }
}

/// Where a code lens comes from.
#[derive(Debug, Clone, Copy, PartialEq, Eq, Structural)]
pub enum CodeLensSource {
    Implementations,
    References,
}

/// A code lens that is not resolved yet: what resolves it is its specifier and its source.
#[derive(Debug)]
pub struct CodeLens {
    pub range: Range,
    pub specifier: ModuleSpecifier,
    pub source: CodeLensSource,
}

/// A symbol of the workspace.
#[derive(Debug)]
pub struct SymbolInformation {
    pub name: String,
    pub kind: SymbolKind,
    pub tags: Option<Vec<SymbolTag>>,
    pub location: Location,
    pub container_name: Option<String>,
}

/// What a [`SymbolInformation`] holds.
pub struct SymbolInformationView {
    pub name: Seq<char>,
    pub kind: SymbolKind,
    pub tags: Option<Seq<SymbolTag>>,
    pub location: LocationView,
    pub container_name: Option<Seq<char>>,
}

impl View for SymbolInformation {
    type V = SymbolInformationView;

    open spec fn view(&self) -> SymbolInformationView {
        SymbolInformationView {
            name: self.name@,
            kind: self.kind,
            tags: opt_items(self.tags),
            location: self.location@,
            container_name: views::opt_view(self.container_name),
        }
    }
}

/// The kind of an inlay hint.
#[derive(Debug, Clone, Copy, PartialEq, Eq, Structural)]
pub enum InlayHintKind {
    Type,
    Parameter,
}

/// A hint shown between the characters of a document.
#[derive(Debug)]
pub struct InlayHint {
    pub position: Position,
    pub label: String,
    pub kind: Option<InlayHintKind>,
    pub padding_left: Option<bool>,
    pub padding_right: Option<bool>,
}

/// A change of one range of a document.
#[derive(Debug)]
pub struct TextEdit {
    pub range: Range,
    pub new_text: String,
}

/// What a [`TextEdit`] holds.
pub struct TextEditView {
    pub range: Range,
    pub new_text: Seq<char>,
}

impl View for TextEdit {
    type V = TextEditView;

    open spec fn view(&self) -> TextEditView {
        TextEditView { range: self.range, new_text: self.new_text@ }
    }
}

/// Changes of one document, at a version of it.
#[derive(Debug)]
pub struct TextDocumentEdit {
    pub uri: ModuleSpecifier,
    pub version: Option<i32>,
    pub edits: Vec<TextEdit>,
}

/// What a [`TextDocumentEdit`] holds.
pub struct TextDocumentEditView {
    pub uri: Seq<char>,
    pub version: Option<i32>,
    pub edits: Seq<TextEditView>,
}

impl View for TextDocumentEdit {
    type V = TextDocumentEditView;

    open spec fn view(&self) -> TextDocumentEditView {
        TextDocumentEditView {
            uri: self.uri@,
            version: self.version,
            edits: views::seq_view(self.edits@),
        }
    }
}

/// A file that is made.
#[derive(Debug)]
pub struct CreateFile {
    pub uri: ModuleSpecifier,
    pub ignore_if_exists: Option<bool>,
    pub overwrite: Option<bool>,
}

/// An operation on the documents of a workspace.
#[derive(Debug)]
pub enum DocumentChangeOperation {
    Create(CreateFile),
    Edit(TextDocumentEdit),
}

/// What a [`DocumentChangeOperation`] holds.
pub enum ChangeView {
    Create { uri: Seq<char>, ignore_if_exists: Option<bool>, overwrite: Option<bool> },
    Edit(TextDocumentEditView),
}

impl View for DocumentChangeOperation {
    type V = ChangeView;

    open spec fn view(&self) -> ChangeView {
        match *self {
            DocumentChangeOperation::Create(file) => ChangeView::Create {
                uri: file.uri@,
                ignore_if_exists: file.ignore_if_exists,
                overwrite: file.overwrite,
            },
            DocumentChangeOperation::Edit(edit) => ChangeView::Edit(edit@),
        }
    }
}

/// The changes of a workspace: those of documents alone, or operations of every sort.
#[derive(Debug)]
pub enum DocumentChanges {
    Edits(Vec<TextDocumentEdit>),
    Operations(Vec<DocumentChangeOperation>),
}

/// A change of a workspace.
#[derive(Debug)]
pub struct WorkspaceEdit {
    pub document_changes: DocumentChanges,
}

/// The kind of a highlight.
#[derive(Debug, Clone, Copy, PartialEq, Eq, Structural)]
pub enum DocumentHighlightKind {
    Text,
    Read,
    Write,
}

/// A highlighted range.
#[derive(Debug, Clone, Copy, PartialEq, Eq, Structural)]
pub struct DocumentHighlight {
    pub range: Range,
    pub kind: Option<DocumentHighlightKind>,
}

/// What a refactor is resolved with.
#[derive(Debug)]
pub struct RefactorCodeActionData {
    pub specifier: ModuleSpecifier,
    pub range: Range,
    pub refactor_name: String,
    pub action_name: String,
}

/// What a [`RefactorCodeActionData`] holds.
pub struct RefactorDataView {
    pub specifier: Seq<char>,
    pub range: Range,
    pub refactor_name: Seq<char>,
    pub action_name: Seq<char>,
}

impl View for RefactorCodeActionData {
    type V = RefactorDataView;

    open spec fn view(&self) -> RefactorDataView {
        RefactorDataView {
            specifier: self.specifier@,
            range: self.range,
            refactor_name: self.refactor_name@,
            action_name: self.action_name@,
        }
    }
}

/// An action that the client can offer.
#[derive(Debug)]
pub struct CodeAction {
    pub title: String,
    pub kind: Option<String>,
    pub is_preferred: Option<bool>,
    /// Why the action cannot be taken.
    pub disabled: Option<String>,
    pub data: Option<RefactorCodeActionData>,
}

/// What a [`CodeAction`] holds.
pub struct CodeActionView {
    pub title: Seq<char>,
    pub kind: Option<Seq<char>>,
    pub is_preferred: Option<bool>,
    pub disabled: Option<Seq<char>>,
    pub data: Option<RefactorDataView>,
}

impl View for CodeAction {
    type V = CodeActionView;

    open spec fn view(&self) -> CodeActionView {
        CodeActionView {
            title: self.title@,
            kind: views::opt_view(self.kind),
            is_preferred: self.is_preferred,
            disabled: views::opt_view(self.disabled),
            data: views::opt_view(self.data),
        }
    }
}

/// An item of a call hierarchy.
#[derive(Debug)]
pub struct CallHierarchyItem {
    pub name: String,
    pub kind: SymbolKind,
    pub tags: Option<Vec<SymbolTag>>,
    pub detail: Option<String>,
    pub uri: ModuleSpecifier,
    pub range: Range,
    pub selection_range: Range,
}

/// What a [`CallHierarchyItem`] holds.
pub struct CallHierarchyItemView {
    pub name: Seq<char>,
    pub kind: SymbolKind,
    pub tags: Option<Seq<SymbolTag>>,
    pub detail: Option<Seq<char>>,
    pub uri: Seq<char>,
    pub range: Range,
    pub selection_range: Range,
}

impl View for CallHierarchyItem {
    type V = CallHierarchyItemView;

    open spec fn view(&self) -> CallHierarchyItemView {
        CallHierarchyItemView {
            name: self.name@,
            kind: self.kind,
            tags: opt_items(self.tags),
            detail: views::opt_view(self.detail),
            uri: self.uri@,
            range: self.range,
            selection_range: self.selection_range,
        }
    }
}

/// A call of an item.
#[derive(Debug)]
pub struct CallHierarchyIncomingCall {
    pub from: CallHierarchyItem,
    pub from_ranges: Vec<Range>,
}

/// A call that an item makes.
#[derive(Debug)]
pub struct CallHierarchyOutgoingCall {
    pub to: CallHierarchyItem,
    pub from_ranges: Vec<Range>,
}

/// The kind of a range that can be folded.
#[derive(Debug, Clone, Copy, PartialEq, Eq, Structural)]
pub enum FoldingRangeKind {
    Comment,
    Imports,
    Region,
}

/// A range that can be folded.
#[derive(Debug, Clone, Copy, PartialEq, Eq, Structural)]
pub struct FoldingRange {
    pub start_line: u32,
    pub start_character: Option<u32>,
    pub end_line: u32,
    pub end_character: Option<u32>,
    pub kind: Option<FoldingRangeKind>,
}

/// A range that can be selected, and the next greater one.
#[derive(Debug)]
pub struct SelectionRange {
    pub range: Range,
    pub parent: Option<Box<SelectionRange>>,
}

/// A parameter of a signature, with its documentation in Markdown.
#[derive(Debug)]
pub struct ParameterInformation {
    pub label: String,
    pub documentation: String,
}

/// What a [`ParameterInformation`] holds.
pub struct ParameterView {
    pub label: Seq<char>,
    pub documentation: Seq<char>,
}

impl View for ParameterInformation {
    type V = ParameterView;

    open spec fn view(&self) -> ParameterView {
        ParameterView { label: self.label@, documentation: self.documentation@ }
    }
}

/// A signature, with its documentation in Markdown.
#[derive(Debug)]
pub struct SignatureInformation {
    pub label: String,
    pub documentation: String,
    pub parameters: Vec<ParameterInformation>,
}

/// What a [`SignatureInformation`] holds.
pub struct SignatureView {
    pub label: Seq<char>,
    pub documentation: Seq<char>,
    pub parameters: Seq<ParameterView>,
}

impl View for SignatureInformation {
    type V = SignatureView;

    open spec fn view(&self) -> SignatureView {
        SignatureView {
            label: self.label@,
            documentation: self.documentation@,
            parameters: views::seq_view(self.parameters@),
        }
    }
}

/// The signatures that may be meant, and which one and which parameter is active.
#[derive(Debug)]
pub struct SignatureHelp {
    pub signatures: Vec<SignatureInformation>,
    pub active_signature: Option<u32>,
    pub active_parameter: Option<u32>,
}

/// What called for completions, by the number of the protocol: 1 for a call by the user, 2 for a
/// character, 3 for an incomplete list.
#[derive(Debug, Clone, Copy, PartialEq, Eq, Structural)]
pub struct CompletionTriggerKind(pub i32);

/// What called for help with a signature, by the number of the protocol: 1 for a call by the user, 2
/// for a character, 3 for a change of the document.
#[derive(Debug, Clone, Copy, PartialEq, Eq, Structural)]
pub struct SignatureHelpTriggerKind(pub i32);

/// A property of a completion.
#[derive(Debug, Clone, Copy, PartialEq, Eq, Structural)]
pub enum CompletionItemTag {
    Deprecated,
}

/// How the text of a completion is read.
#[derive(Debug, Clone, Copy, PartialEq, Eq, Structural)]
pub enum InsertTextFormat {
    PlainText,
    Snippet,
}

/// How the white space of a completion is handled.
#[derive(Debug, Clone, Copy, PartialEq, Eq, Structural)]
pub enum InsertTextMode {
    AsIs,
    AdjustIndentation,
}

/// What stands behind the label of a completion.
#[derive(Debug)]
pub struct CompletionItemLabelDetails {
    pub detail: Option<String>,
    pub description: Option<String>,
}

/// What a [`CompletionItemLabelDetails`] holds.
pub struct LabelDetailsView {
    pub detail: Option<Seq<char>>,
    pub description: Option<Seq<char>>,
}

impl View for CompletionItemLabelDetails {
    type V = LabelDetailsView;

    open spec fn view(&self) -> LabelDetailsView {
        LabelDetailsView {
            detail: views::opt_view(self.detail),
            description: views::opt_view(self.description),
        }
    }
}

impl Clone for CompletionItemLabelDetails {
    fn clone(&self) -> (r: Self)
        ensures
            r == *self,
    {
        CompletionItemLabelDetails {
            detail: self.detail.clone(),
            description: self.description.clone(),
        }
    }
}

impl Clone for TextEdit {
    fn clone(&self) -> (r: Self)
        ensures
            r == *self,
    {
        TextEdit { range: self.range, new_text: self.new_text.clone() }
    }
}

/// An edit that inserts at one range or replaces another.
#[derive(Debug)]
pub struct InsertReplaceEdit {
    pub new_text: String,
    pub insert: Range,
    pub replace: Range,
}

impl Clone for InsertReplaceEdit {
    fn clone(&self) -> (r: Self)
        ensures
            r == *self,
    {
        InsertReplaceEdit {
            new_text: self.new_text.clone(),
            insert: self.insert,
            replace: self.replace,
        }
    }
}

/// The edit that a completion makes.
#[derive(Debug)]
pub enum CompletionTextEdit {
    Edit(TextEdit),
    InsertAndReplace(InsertReplaceEdit),
}

/// What a [`CompletionTextEdit`] holds.
pub enum CompletionEditView {
    Edit(TextEditView),
    InsertAndReplace { new_text: Seq<char>, insert: Range, replace: Range },
}

impl View for CompletionTextEdit {
    type V = CompletionEditView;

    open spec fn view(&self) -> CompletionEditView {
        match *self {
            CompletionTextEdit::Edit(edit) => CompletionEditView::Edit(edit@),
            CompletionTextEdit::InsertAndReplace(edit) => CompletionEditView::InsertAndReplace {
                new_text: edit.new_text@,
                insert: edit.insert,
                replace: edit.replace,
            },
        }
    }
}

impl Clone for CompletionTextEdit {
    fn clone(&self) -> (r: Self)
        ensures
            r == *self,
    {
        match self {
            CompletionTextEdit::Edit(edit) => CompletionTextEdit::Edit(edit.clone()),
            CompletionTextEdit::InsertAndReplace(edit) => CompletionTextEdit::InsertAndReplace(
                edit.clone(),
            ),
        }
    }
}

/// What is left to do of an action after a completion. The commands are JSON texts.
#[derive(Debug)]
pub struct RemainingAction {
    pub commands: Option<Vec<String>>,
    pub description: String,
    pub changes: Vec<FileTextChanges>,
}

/// What a [`RemainingAction`] holds.
pub struct RemainingActionView {
    pub commands: Option<Seq<Seq<char>>>,
    pub description: Seq<char>,
    pub changes: Seq<edits::FileTextChangesView>,
}

impl View for RemainingAction {
    type V = RemainingActionView;

    open spec fn view(&self) -> RemainingActionView {
        RemainingActionView {
            commands: views::opt_seq_view(self.commands),
            description: self.description@,
            changes: views::seq_view(self.changes@),
        }
    }
}

/// A command that the client sends back, with a module and the actions that are left to do.
#[derive(Debug)]
pub struct Command {
    pub title: String,
    pub command: String,
    pub specifier: String,
    pub actions: Vec<RemainingAction>,
}

/// What a [`Command`] holds.
pub struct CommandView {
    pub title: Seq<char>,
    pub command: Seq<char>,
    pub specifier: Seq<char>,
    pub actions: Seq<RemainingActionView>,
}

impl View for Command {
    type V = CommandView;

    open spec fn view(&self) -> CommandView {
        CommandView {
            title: self.title@,
            command: self.command@,
            specifier: self.specifier@,
            actions: views::seq_view(self.actions@),
        }
    }
}

/// A completion. Its documentation is in Markdown.
#[derive(Debug)]
pub struct CompletionItem {
    pub label: String,
    pub label_details: Option<CompletionItemLabelDetails>,
    pub kind: Option<CompletionItemKind>,
    pub detail: Option<String>,
    pub documentation: Option<String>,
    pub deprecated: Option<bool>,
    pub preselect: Option<bool>,
    pub sort_text: Option<String>,
    pub filter_text: Option<String>,
    pub insert_text: Option<String>,
    pub insert_text_format: Option<InsertTextFormat>,
    pub insert_text_mode: Option<InsertTextMode>,
    pub text_edit: Option<CompletionTextEdit>,
    pub additional_text_edits: Option<Vec<TextEdit>>,
    pub command: Option<Command>,
    pub commit_characters: Option<Vec<String>>,
    pub data: Option<CompletionItemData>,
    pub tags: Option<Vec<CompletionItemTag>>,
}

/// What a [`CompletionItem`] holds.
pub struct CompletionItemView {
    pub label: Seq<char>,
    pub label_details: Option<LabelDetailsView>,
    pub kind: Option<CompletionItemKind>,
    pub detail: Option<Seq<char>>,
    pub documentation: Option<Seq<char>>,
    pub deprecated: Option<bool>,
    pub preselect: Option<bool>,
    pub sort_text: Option<Seq<char>>,
    pub filter_text: Option<Seq<char>>,
    pub insert_text: Option<Seq<char>>,
    pub insert_text_format: Option<InsertTextFormat>,
    pub insert_text_mode: Option<InsertTextMode>,
    pub text_edit: Option<CompletionEditView>,
    pub additional_text_edits: Option<Seq<TextEditView>>,
    pub command: Option<CommandView>,
    pub commit_characters: Option<Seq<Seq<char>>>,
    pub data: Option<completion::ItemDataView>,
    pub tags: Option<Seq<CompletionItemTag>>,
}

impl View for CompletionItem {
    type V = CompletionItemView;

    open spec fn view(&self) -> CompletionItemView {
        CompletionItemView {
            label: self.label@,
            label_details: views::opt_view(self.label_details),
            kind: self.kind,
            detail: views::opt_view(self.detail),
            documentation: views::opt_view(self.documentation),
            deprecated: self.deprecated,
            preselect: self.preselect,
            sort_text: views::opt_view(self.sort_text),
            filter_text: views::opt_view(self.filter_text),
            insert_text: views::opt_view(self.insert_text),
            insert_text_format: self.insert_text_format,
            insert_text_mode: self.insert_text_mode,
            text_edit: views::opt_view(self.text_edit),
            additional_text_edits: views::opt_seq_view(self.additional_text_edits),
            command: views::opt_view(self.command),
            commit_characters: views::opt_seq_view(self.commit_characters),
            data: views::opt_view(self.data),
            tags: opt_items(self.tags),
        }
    }
}

/// A list of completions.
#[derive(Debug)]
pub struct CompletionList {
    pub is_incomplete: bool,
    pub items: Vec<CompletionItem>,
}

/// What is said of a [`LocationLink`] is said of each of its fields.
pub proof fn law_location_link_is_seen_whole(value: LocationLink)
    ensures
        value@.origin_selection_range == value.origin_selection_range,
        value@.target_uri == value.target_uri@,
        value@.target_range == value.target_range,
        value@.target_selection_range == value.target_selection_range,
{
}

/// What is said of a [`Location`] is said of each of its fields.
pub proof fn law_location_is_seen_whole(value: Location)
    ensures
        value@.uri == value.uri@,
        value@.range == value.range,
{
}

/// What is said of a [`SymbolInformation`] is said of each of its fields.
pub proof fn law_symbol_information_is_seen_whole(value: SymbolInformation)
    ensures
        value@.name == value.name@,
        value@.kind == value.kind,
        value.tags is None <==> value@.tags is None,
        value.tags matches Some(held) ==> value@.tags == Some(held@),
        value@.location == value.location@,
        value.container_name is None <==> value@.container_name is None,
        value.container_name matches Some(held) ==> value@.container_name == Some(held@),
{
}

/// What is said of a [`TextEdit`] is said of each of its fields.
pub proof fn law_text_edit_is_seen_whole(value: TextEdit)
    ensures
        value@.range == value.range,
        value@.new_text == value.new_text@,
{
}

/// What is said of a [`TextDocumentEdit`] is said of each of its fields.
pub proof fn law_text_document_edit_is_seen_whole(value: TextDocumentEdit)
    ensures
        value@.uri == value.uri@,
        value@.version == value.version,
        value@.edits.len() == value.edits@.len(),
        forall|i: int|
            0 <= i < value.edits@.len() ==> #[trigger] value@.edits[i] == value.edits@[i]@,
{
}

/// What is said of a [`RefactorCodeActionData`] is said of each of its fields.
pub proof fn law_refactor_code_action_data_is_seen_whole(value: RefactorCodeActionData)
    ensures
        value@.specifier == value.specifier@,
        value@.range == value.range,
        value@.refactor_name == value.refactor_name@,
        value@.action_name == value.action_name@,
{
}

/// What is said of a [`CodeAction`] is said of each of its fields.
pub proof fn law_code_action_is_seen_whole(value: CodeAction)
    ensures
        value@.title == value.title@,
        value.kind is None <==> value@.kind is None,
        value.kind matches Some(held) ==> value@.kind == Some(held@),
        value@.is_preferred == value.is_preferred,
        value.disabled is None <==> value@.disabled is None,
        value.disabled matches Some(held) ==> value@.disabled == Some(held@),
        value.data is None <==> value@.data is None,
        value.data matches Some(held) ==> value@.data == Some(held@),
{
}

/// What is said of a [`CallHierarchyItem`] is said of each of its fields.
pub proof fn law_call_hierarchy_item_is_seen_whole(value: CallHierarchyItem)
    ensures
        value@.name == value.name@,
        value@.kind == value.kind,
        value.tags is None <==> value@.tags is None,
        value.tags matches Some(held) ==> value@.tags == Some(held@),
        value.detail is None <==> value@.detail is None,
        value.detail matches Some(held) ==> value@.detail == Some(held@),
        value@.uri == value.uri@,
        value@.range == value.range,
        value@.selection_range == value.selection_range,
{
}

/// What is said of a [`ParameterInformation`] is said of each of its fields.
pub proof fn law_parameter_information_is_seen_whole(value: ParameterInformation)
    ensures
        value@.label == value.label@,
        value@.documentation == value.documentation@,
{
}

/// What is said of a [`SignatureInformation`] is said of each of its fields.
pub proof fn law_signature_information_is_seen_whole(value: SignatureInformation)
    ensures
        value@.label == value.label@,
        value@.documentation == value.documentation@,
        value@.parameters.len() == value.parameters@.len(),
        forall|i: int|
            0 <= i < value.parameters@.len() ==> #[trigger] value@.parameters[i] == value.parameters@[i]@,
{
}

/// What is said of a [`CompletionItemLabelDetails`] is said of each of its fields.
pub proof fn law_completion_item_label_details_is_seen_whole(value: CompletionItemLabelDetails)
    ensures
        value.detail is None <==> value@.detail is None,
        value.detail matches Some(held) ==> value@.detail == Some(held@),
        value.description is None <==> value@.description is None,
        value.description matches Some(held) ==> value@.description == Some(held@),
{
}

/// What is said of a [`RemainingAction`] is said of each of its fields.
pub proof fn law_remaining_action_is_seen_whole(value: RemainingAction)
    ensures
        value.commands is None <==> value@.commands is None,
        value.commands matches Some(held) ==> value@.commands == Some(views::seq_view(held@)),
        value@.description == value.description@,
        value@.changes.len() == value.changes@.len(),
        forall|i: int|
            0 <= i < value.changes@.len() ==> #[trigger] value@.changes[i] == value.changes@[i]@,
{
}

/// What is said of a [`Command`] is said of each of its fields.
pub proof fn law_command_is_seen_whole(value: Command)
    ensures
        value@.title == value.title@,
        value@.command == value.command@,
        value@.specifier == value.specifier@,
        value@.actions.len() == value.actions@.len(),
        forall|i: int|
            0 <= i < value.actions@.len() ==> #[trigger] value@.actions[i] == value.actions@[i]@,
{
}

/// What is said of a [`CompletionItem`] is said of each of its fields.
pub proof fn law_completion_item_is_seen_whole(value: CompletionItem)
    ensures
        value@.label == value.label@,
        value.label_details is None <==> value@.label_details is None,
        value.label_details matches Some(held) ==> value@.label_details == Some(held@),
        value@.kind == value.kind,
        value.detail is None <==> value@.detail is None,
        value.detail matches Some(held) ==> value@.detail == Some(held@),
        value.documentation is None <==> value@.documentation is None,
        value.documentation matches Some(held) ==> value@.documentation == Some(held@),
        value@.deprecated == value.deprecated,
        value@.preselect == value.preselect,
        value.sort_text is None <==> value@.sort_text is None,
        value.sort_text matches Some(held) ==> value@.sort_text == Some(held@),
        value.filter_text is None <==> value@.filter_text is None,
        value.filter_text matches Some(held) ==> value@.filter_text == Some(held@),
        value.insert_text is None <==> value@.insert_text is None,
        value.insert_text matches Some(held) ==> value@.insert_text == Some(held@),
        value@.insert_text_format == value.insert_text_format,
        value@.insert_text_mode == value.insert_text_mode,
        value.text_edit is None <==> value@.text_edit is None,
        value.text_edit matches Some(held) ==> value@.text_edit == Some(held@),
        value.additional_text_edits is None <==> value@.additional_text_edits is None,
        value.additional_text_edits matches Some(held) ==> value@.additional_text_edits == Some(views::seq_view(held@)),
        value.command is None <==> value@.command is None,
        value.command matches Some(held) ==> value@.command == Some(held@),
        value.commit_characters is None <==> value@.commit_characters is None,
        value.commit_characters matches Some(held) ==> value@.commit_characters == Some(views::seq_view(held@)),
        value.data is None <==> value@.data is None,
        value.data matches Some(held) ==> value@.data == Some(held@),
        value.tags is None <==> value@.tags is None,
        value.tags matches Some(held) ==> value@.tags == Some(held@),
{
}

/// What is said of an edit of a completion is said of its text and its ranges.
pub proof fn law_completion_text_edit_is_seen_whole(value: CompletionTextEdit)
    ensures
        value matches CompletionTextEdit::Edit(edit) ==> value@ == CompletionEditView::Edit(edit@),
        value matches CompletionTextEdit::InsertAndReplace(edit) ==> value@
            == (CompletionEditView::InsertAndReplace {
            new_text: edit.new_text@,
            insert: edit.insert,
            replace: edit.replace,
        }),
{
}

/// What is said of a piece of a hover is said of its language and its text.
pub proof fn law_marked_string_is_seen_whole(value: MarkedString)
    ensures
        value matches MarkedString::LanguageString { language, value: text } ==> value@
            == (MarkedText::LanguageString { language: language@, value: text@ }),
        value matches MarkedString::Markdown(text) ==> value@ == MarkedText::Markdown(text@),
{
}

/// What is said of an operation is said of the file that is made or of the document that is edited.
pub proof fn law_document_change_operation_is_seen_whole(value: DocumentChangeOperation)
    ensures
        value matches DocumentChangeOperation::Edit(edit) ==> value@ == ChangeView::Edit(edit@),
        value matches DocumentChangeOperation::Create(file) ==> value@ == (ChangeView::Create {
            uri: file.uri@,
            ignore_if_exists: file.ignore_if_exists,
            overwrite: file.overwrite,
        }),
{
}

/// What is said of a symbol is said of each of its fields, and of every symbol inside it.
pub proof fn law_document_symbol_is_seen_whole(value: DocumentSymbol, i: int)
    ensures
        symbol_view(value).name == value.name@,
        symbol_view(value).kind == value.kind,
        symbol_view(value).range == value.range,
        symbol_view(value).selection_range == value.selection_range,
        value.detail is None <==> symbol_view(value).detail is None,
        value.detail matches Some(held) ==> symbol_view(value).detail == Some(held@),
        value.tags is None <==> symbol_view(value).tags is None,
        value.tags matches Some(held) ==> symbol_view(value).tags == Some(held@),
        value.children is None <==> symbol_view(value).children is None,
        value.children matches Some(inside) ==> {
            let seen = symbol_view(value).children->0;
            &&& seen.len() == inside@.len()
            &&& 0 <= i < inside@.len() ==> seen[i] == symbol_view(inside@[i])
        },
{
    if let Some(inside) = value.children {
        lemma_symbols_len(inside@);
        if 0 <= i < inside@.len() {
            lemma_symbol_at(inside@, i);
        }
    }
}

proof fn lemma_symbol_at(symbols: Seq<DocumentSymbol>, i: int)
    requires
        0 <= i < symbols.len(),
    ensures
        symbols_view(symbols).len() == symbols.len(),
        symbols_view(symbols)[i] == symbol_view(symbols[i]),
    decreases symbols.len(),
{
    lemma_symbols_len(symbols);
    lemma_symbols_len(symbols.drop_last());
    if i < symbols.len() - 1 {
        lemma_symbol_at(symbols.drop_last(), i);
    }
}

} // verus!
