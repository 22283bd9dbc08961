//! Completions.

use std::sync::Arc;
use vstd::prelude::*;
use vstd::string::*;
use crate::config::CompletionSettings;
use crate::display;
use crate::display::{
    display_parts_to_string, get_tags_documentation, JsDocTagInfo, SymbolDisplayPart,
};
use crate::edits;
use crate::edits::{CodeAction, FileTextChanges};
use crate::element;
use crate::element::{contains_text, parse_kind_modifier, ScriptElementKind};
use crate::error::TscError;
use crate::language_server;
use crate::language_server::Inner;
use crate::links;
use crate::links::replace_links;
use crate::lsp;
use crate::lsp::{
    Command, CompletionItem, CompletionItemKind, CompletionItemLabelDetails, CompletionItemTag,
    CompletionList, CompletionTextEdit, InsertReplaceEdit, InsertTextFormat, RemainingAction,
    TextEdit,
};
use crate::normalize;
use crate::normalize::{normalize_all, Named};
use crate::patterns;
use crate::preferences::{FormatCodeSettings, UserPreferences};
use crate::span;
use crate::span::TextSpan;
use crate::specifier;
use crate::specifier::ModuleSpecifier;
use crate::specifier_map::TscSpecifierMap;
use crate::strings;
use crate::strings::{ends_with, join, replace, same_text, starts_with};
use crate::sync::share;
use crate::text;
use crate::text::LineIndex;
use crate::views;

verus! {

/// What an entry that would import something says of the module.
#[derive(Debug)]
pub struct CompletionEntryDataImport {
    pub module_specifier: String,
    pub file_name: String,
}

/// What goes with an entry: a JSON text that is handed back as it is, and what it says of an import,
/// where it is about one.
#[derive(Debug)]
pub struct CompletionEntryData {
    pub json: String,
    pub import: Option<CompletionEntryDataImport>,
}

/// What a completion is resolved with. The data is a JSON text.
#[derive(Debug)]
pub struct CompletionItemData {
    pub specifier: ModuleSpecifier,
    pub position: u32,
    pub name: String,
    pub source: Option<String>,
    /// In the edits of the completion, the first text is replaced by the second.
    pub specifier_rewrite: Option<(String, String)>,
    pub data: Option<String>,
    pub use_code_snippet: bool,
}

/// What a [`CompletionItemData`] holds.
pub struct ItemDataView {
    pub specifier: Seq<char>,
    pub position: u32,
    pub name: Seq<char>,
    pub source: Option<Seq<char>>,
    pub specifier_rewrite: Option<(Seq<char>, Seq<char>)>,
    pub data: Option<Seq<char>>,
    pub use_code_snippet: bool,
}

/// The texts of a rewrite.
pub open spec fn rewrite_view(rewrite: Option<(String, String)>) -> Option<(Seq<char>, Seq<char>)> {
    match rewrite {
        Some((from, to)) => Some((from@, to@)),
        None => None,
    }
}

impl View for CompletionItemData {
    type V = ItemDataView;

    open spec fn view(&self) -> ItemDataView {
        ItemDataView {
            specifier: self.specifier@,
            position: self.position,
            name: self.name@,
            source: views::opt_view(self.source),
            specifier_rewrite: rewrite_view(self.specifier_rewrite),
            data: views::opt_view(self.data),
            use_code_snippet: self.use_code_snippet,
        }
    }
}

/// The label details of an entry.
#[derive(Debug)]
pub struct CompletionEntryLabelDetails {
    pub detail: Option<String>,
    pub description: Option<String>,
}

/// A completion that the compiler offers.
#[derive(Debug)]
pub struct CompletionEntry {
    pub name: String,
    pub kind: ScriptElementKind,
    pub kind_modifiers: Option<String>,
    pub sort_text: String,
    pub insert_text: Option<String>,
    pub is_snippet: Option<bool>,
    pub replacement_span: Option<TextSpan>,
    pub has_action: Option<bool>,
    pub source: Option<String>,
    pub source_display: Option<Vec<SymbolDisplayPart>>,
    pub label_details: Option<CompletionEntryLabelDetails>,
    pub is_recommended: Option<bool>,
    pub is_from_unchecked_file: Option<bool>,
    pub is_package_json_import: Option<bool>,
    pub is_import_statement_completion: Option<bool>,
    pub data: Option<CompletionEntryData>,
}

impl Default for CompletionEntry {
    fn default() -> (r: Self)
        ensures
            r.name@.len() == 0,
            r.sort_text@.len() == 0,
            r == (CompletionEntry {
                name: r.name,
                kind: ScriptElementKind::Unknown,
                kind_modifiers: None,
                sort_text: r.sort_text,
                insert_text: None,
                is_snippet: None,
                replacement_span: None,
                has_action: None,
                source: None,
                source_display: None,
                label_details: None,
                is_recommended: None,
                is_from_unchecked_file: None,
                is_package_json_import: None,
                is_import_statement_completion: None,
                data: None,
            }),
    {
        CompletionEntry {
            name: String::new(),
            kind: ScriptElementKind::Unknown,
            kind_modifiers: None,
            sort_text: String::new(),
            insert_text: None,
            is_snippet: None,
            replacement_span: None,
            has_action: None,
            source: None,
            source_display: None,
            label_details: None,
            is_recommended: None,
            is_from_unchecked_file: None,
            is_package_json_import: None,
            is_import_statement_completion: None,
            data: None,
        }
    }
}

/// The completions that the compiler offers.
#[derive(Debug)]
pub struct CompletionInfo {
    pub entries: Vec<CompletionEntry>,
    pub is_global_completion: bool,
    pub is_member_completion: bool,
    pub is_new_identifier_location: bool,
    /// Whether there are more, where the compiler tells.
    pub is_incomplete: Option<bool>,
    pub optional_replacement_span: Option<TextSpan>,
}

/// The characters that take an entry of a kind.
pub open spec fn kind_commit_characters(
    kind: ScriptElementKind,
    complete_function_calls: bool,
) -> Seq<Seq<char>> {
    match kind {
        ScriptElementKind::MemberGetAccessorElement
        | ScriptElementKind::MemberSetAccessorElement
        | ScriptElementKind::ConstructSignatureElement
        | ScriptElementKind::CallSignatureElement
        | ScriptElementKind::IndexSignatureElement
        | ScriptElementKind::EnumElement
        | ScriptElementKind::InterfaceElement => seq!["."@, ";"@],
        ScriptElementKind::ModuleElement
        | ScriptElementKind::Alias
        | ScriptElementKind::ConstElement
        | ScriptElementKind::LetElement
        | ScriptElementKind::VariableElement
        | ScriptElementKind::LocalVariableElement
        | ScriptElementKind::MemberVariableElement
        | ScriptElementKind::ClassElement
        | ScriptElementKind::FunctionElement
        | ScriptElementKind::MemberFunctionElement
        | ScriptElementKind::Keyword
        | ScriptElementKind::ParameterElement => if complete_function_calls {
            seq!["."@, ","@, ";"@]
        } else {
            seq!["."@, ","@, ";"@, "("@]
        },
        _ => Seq::empty(),
    }
}

/// What an insert text is filtered by, where its name does not open with a number sign.
pub open spec fn filter_of_insert(insert_text: Seq<char>) -> Option<Seq<char>> {
    if "this."@.is_prefix_of(insert_text) {
        None
    } else if "["@.is_prefix_of(insert_text) && patterns::is_bracket_accessor(insert_text) {
        Some("."@ + insert_text.subrange(2, insert_text.len() - 2))
    } else {
        Some(insert_text)
    }
}

/// The extensions that the modifiers of a script can name, in the order in which they are looked for.
pub open spec fn extensions() -> Seq<Seq<char>> {
    seq![".d.ts"@, ".ts"@, ".tsx"@, ".js"@, ".jsx"@, ".json"@]
}

/// How a script is shown by the first of some extensions that is among its modifiers: with the
/// extension, unless its name ends with it in lower case.
pub open spec fn extension_detail(
    name: Seq<char>,
    lower: Seq<char>,
    modifiers: Seq<Seq<char>>,
    extensions: Seq<Seq<char>>,
) -> Option<Seq<char>>
    decreases extensions.len(),
{
    if extensions.len() == 0 {
        None
    } else if modifiers.contains(extensions[0]) {
        if extensions[0].is_suffix_of(lower) {
            Some(name)
        } else {
            Some(name + extensions[0])
        }
    } else {
        extension_detail(name, lower, modifiers, extensions.skip(1))
    }
}

impl CompletionEntry {
    /// A modifier is among those of the entry.
    pub open spec fn has(self, modifier: Seq<char>) -> bool {
        self.kind_modifiers matches Some(kind_modifiers) && element::has_modifier(
            kind_modifiers@,
            modifier,
        )
    }

    /// The characters that take the entry.
    pub open spec fn commit_characters(
        self,
        info: CompletionInfo,
        settings: CompletionSettings,
    ) -> Option<Seq<Seq<char>>> {
        let characters = kind_commit_characters(self.kind, settings.complete_function_calls);
        if info.is_new_identifier_location || characters.len() == 0 {
            None
        } else {
            Some(characters)
        }
    }

    /// What the entry is filtered by.
    pub open spec fn filter_text(self) -> Option<Seq<char>> {
        match self.insert_text {
            Some(insert_text) => if "#"@.is_prefix_of(self.name@) {
                Some(
                    if "this.#"@.is_prefix_of(insert_text@) {
                        strings::replaced(insert_text@, "this.#"@, ""@)
                    } else {
                        insert_text@
                    },
                )
            } else {
                filter_of_insert(insert_text@)
            },
            None => None,
        }
    }

    /// The characters that take the entry; none where a new name may be typed.
    pub fn get_commit_characters(
        &self,
        info: &CompletionInfo,
        settings: &CompletionSettings,
    ) -> (r: Option<Vec<String>>)
        ensures
            views::opt_seq_view(r) == self.commit_characters(*info, *settings),
    {
        if info.is_new_identifier_location {
            return None;
        }
        let mut commit_characters: Vec<String> = Vec::new();
        match self.kind {
            ScriptElementKind::MemberGetAccessorElement
            | ScriptElementKind::MemberSetAccessorElement
            | ScriptElementKind::ConstructSignatureElement
            | ScriptElementKind::CallSignatureElement
            | ScriptElementKind::IndexSignatureElement
            | ScriptElementKind::EnumElement
            | ScriptElementKind::InterfaceElement => {
                commit_characters.push(".".to_owned());
                commit_characters.push(";".to_owned());
            },
            ScriptElementKind::ModuleElement
            | ScriptElementKind::Alias
            | ScriptElementKind::ConstElement
            | ScriptElementKind::LetElement
            | ScriptElementKind::VariableElement
            | ScriptElementKind::LocalVariableElement
            | ScriptElementKind::MemberVariableElement
            | ScriptElementKind::ClassElement
            | ScriptElementKind::FunctionElement
            | ScriptElementKind::MemberFunctionElement
            | ScriptElementKind::Keyword
            | ScriptElementKind::ParameterElement => {
                commit_characters.push(".".to_owned());
                commit_characters.push(",".to_owned());
                commit_characters.push(";".to_owned());
                if !settings.complete_function_calls {
                    commit_characters.push("(".to_owned());
                }
            },
            _ => {},
        }
        assert(views::seq_view(commit_characters@) =~= kind_commit_characters(
            self.kind,
            settings.complete_function_calls,
        ));
        if commit_characters.len() == 0 {
            None
        } else {
            Some(commit_characters)
        }
    }

    /// What the entry is filtered by.
    pub fn get_filter_text(&self) -> (r: Option<String>)
        ensures
            views::opt_view(r) == self.filter_text(),
    {
        let insert_text = match &self.insert_text {
            Some(insert_text) => insert_text,
            None => return None,
        };
        if starts_with(self.name.as_str(), "#") {
            if starts_with(insert_text.as_str(), "this.#") {
                return Some(replace(insert_text.as_str(), "this.#", ""));
            } else {
                return Some(insert_text.clone());
            }
        }
        if starts_with(insert_text.as_str(), "this.") {
            return None;
        }
        if starts_with(insert_text.as_str(), "[") {
            if let Some(found) = patterns::captures(
                patterns::BRACKET_ACCESSOR,
                insert_text.as_str(),
            ) {
                let ghost seen = found@;
                assert(seen.groups[0] == views::opt_view(found.groups@[0]));
                let mut filter_text = ".".to_owned();
                filter_text.append(found.groups[0].as_ref().unwrap().as_str());
                return Some(filter_text);
            }
        }
        Some(insert_text.clone())
    }
}

/// How a script is shown by the first of the extensions that is among its modifiers, when its name in
/// lower case is the one given.
pub fn get_extension_detail(name: &str, lower: &str, modifiers: &Vec<String>) -> (r: Option<String>)
    ensures
        views::opt_view(r) == extension_detail(
            name@,
            lower@,
            views::seq_view(modifiers@),
            extensions(),
        ),
{
    let list: [&'static str; 6] = [".d.ts", ".ts", ".tsx", ".js", ".jsx", ".json"];
    let ghost seen = views::seq_view(modifiers@);
    let mut i: usize = 0;
    assert(extensions().skip(0) =~= extensions());
    while i < 6
        invariant
            i <= 6,
            list@.len() == 6,
            seen == views::seq_view(modifiers@),
            forall|j: int| 0 <= j < 6 ==> (#[trigger] list@[j])@ == extensions()[j],
            extension_detail(name@, lower@, seen, extensions()) == extension_detail(
                name@,
                lower@,
                seen,
                extensions().skip(i as int),
            ),
        decreases 6 - i,
    {
        let extension: &'static str = list[i];
        assert(extensions().skip(i as int)[0] == extension@);
        if contains_text(modifiers, extension) {
            if ends_with(lower, extension) {
                return Some(name.to_owned());
            } else {
                let mut detail = name.to_owned();
                detail.append(extension);
                return Some(detail);
            }
        }
        assert(extensions().skip(i as int).skip(1) =~= extensions().skip(i + 1));
        i = i + 1;
    }
    None
}

/// How the source of an entry is shown, and what has to be rewritten for it.
pub struct SourceView {
    pub display: Seq<char>,
    pub rewrite: Option<(Seq<char>, Seq<char>)>,
}

/// How the source of an entry is shown, whether that is a URL, and what has to be rewritten for it.
#[derive(Debug)]
pub struct ShownSource {
    pub display: String,
    pub is_url: bool,
    pub rewrite: Option<(String, String)>,
}

/// What a [`ShownSource`] holds.
pub struct ShownSourceView {
    pub display: Seq<char>,
    pub is_url: bool,
    pub rewrite: Option<(Seq<char>, Seq<char>)>,
}

impl View for ShownSource {
    type V = ShownSourceView;

    open spec fn view(&self) -> ShownSourceView {
        ShownSourceView {
            display: self.display@,
            is_url: self.is_url,
            rewrite: rewrite_view(self.rewrite),
        }
    }
}

impl CompletionEntry {
    /// How the source of the entry is shown: under the specifier by which it would be imported,
    /// where that is known, with a rewrite where it is not the one that the compiler uses.
    pub open spec fn shown_source(
        self,
        source: Seq<char>,
        specifier: Seq<char>,
        language_server: Inner,
    ) -> SourceView {
        let plain = SourceView { display: source, rewrite: None };
        match self.data {
            Some(data) => match data.import {
                Some(import) => match specifier::parsed_url(import.file_name@) {
                    Some(href) => match language_server::import_specifier(
                        language_server.imports@,
                        href,
                        specifier,
                    ) {
                        Some(new) => SourceView {
                            display: new,
                            rewrite: if new != import.module_specifier@ {
                                Some((import.module_specifier@, new))
                            } else {
                                None
                            },
                        },
                        None => plain,
                    },
                    None => plain,
                },
                None => plain,
            },
            None => plain,
        }
    }

    /// How the source of the entry is shown, where it has one.
    pub open spec fn source_shown(self, specifier: Seq<char>, language_server: Inner) -> Option<
        ShownSourceView,
    > {
        match self.source {
            Some(source) => {
                let shown = self.shown_source(source@, specifier, language_server);
                Some(
                    ShownSourceView {
                        display: shown.display,
                        is_url: specifier::parsed_url(shown.display) is Some,
                        rewrite: shown.rewrite,
                    },
                )
            },
            None => None,
        }
    }

    /// The text by which the entry is sorted: imports come last, and among them those with a relative
    /// or bare specifier first.
    pub open spec fn sort_key_with(self, shown: Option<ShownSourceView>) -> Seq<char> {
        match shown {
            Some(shown) => "\u{ffff}"@ + self.sort_text@ + if shown.is_url {
                "_1"@
            } else {
                "_0"@
            },
            None => self.sort_text@,
        }
    }

    /// The text by which the entry is sorted.
    pub open spec fn sort_key(self, specifier: Seq<char>, language_server: Inner) -> Seq<char> {
        self.sort_key_with(self.source_shown(specifier, language_server))
    }

    /// The text that the entry inserts: its name, where it is optional and has no other.
    pub open spec fn inserted(self) -> Option<Seq<char>> {
        if self.insert_text is None && self.has("optional"@) {
            Some(self.name@)
        } else {
            views::opt_view(self.insert_text)
        }
    }

    /// The span that the entry replaces, where it inserts a text, ends at an offset that can be
    /// counted.
    pub open spec fn edit_fits(self) -> bool {
        self.inserted() is Some ==> (self.replacement_span matches Some(span) ==> span.fits())
    }

    /// Whether the entry is completed with its parameters.
    pub open spec fn uses_snippet(self, settings: CompletionSettings) -> bool {
        settings.complete_function_calls && (element::completion_kind(self.kind)
            == CompletionItemKind::Function || element::completion_kind(self.kind)
            == CompletionItemKind::Method)
    }

    /// The completion for the client.
    pub open spec fn item(
        self,
        lines: Seq<text::LineView>,
        info: CompletionInfo,
        settings: CompletionSettings,
        specifier: Seq<char>,
        position: u32,
        language_server: Inner,
    ) -> lsp::CompletionItemView {
        self.item_with(
            lines,
            info,
            settings,
            specifier,
            position,
            self.source_shown(specifier, language_server),
        )
    }

    /// The completion for the client, when its source is shown in the given way.
    pub open spec fn item_with(
        self,
        lines: Seq<text::LineView>,
        info: CompletionInfo,
        settings: CompletionSettings,
        specifier: Seq<char>,
        position: u32,
        shown: Option<ShownSourceView>,
    ) -> lsp::CompletionItemView {
        lsp::CompletionItemView {
            label: if self.has("optional"@) {
                self.name@ + "?"@
            } else {
                self.name@
            },
            label_details: match shown {
                Some(shown) => Some(
                    lsp::LabelDetailsView { detail: None, description: Some(shown.display) },
                ),
                None => None,
            },
            kind: Some(
                if self.has("color"@) {
                    CompletionItemKind::Color
                } else {
                    element::completion_kind(self.kind)
                },
            ),
            detail: match self.kind_modifiers {
                Some(kind_modifiers) if self.kind == ScriptElementKind::ScriptElement =>
                extension_detail(
                    self.name@,
                    strings::lowercase(self.name@),
                    patterns::modifiers(kind_modifiers@),
                    extensions(),
                ),
                _ => None,
            },
            documentation: None,
            deprecated: None,
            preselect: self.is_recommended,
            sort_text: Some(self.sort_key_with(shown)),
            filter_text: if self.filter_text() is None && self.has("optional"@) {
                Some(self.name@)
            } else {
                self.filter_text()
            },
            insert_text: self.inserted(),
            insert_text_format: if self.is_snippet == Some(true) {
                Some(InsertTextFormat::Snippet)
            } else {
                None
            },
            insert_text_mode: None,
            text_edit: match (self.replacement_span, self.inserted()) {
                (Some(span), Some(new_text)) => {
                    let range = span::range_of(span, lines);
                    Some(
                        lsp::CompletionEditView::InsertAndReplace {
                            new_text,
                            insert: range,
                            replace: range,
                        },
                    )
                },
                _ => None,
            },
            additional_text_edits: None,
            command: None,
            commit_characters: self.commit_characters(info, settings),
            data: Some(
                ItemDataView {
                    specifier,
                    position,
                    name: self.name@,
                    source: views::opt_view(self.source),
                    specifier_rewrite: match shown {
                        Some(shown) => shown.rewrite,
                        None => None,
                    },
                    data: match self.data {
                        Some(data) => Some(data.json@),
                        None => None,
                    },
                    use_code_snippet: self.uses_snippet(settings),
                },
            ),
            tags: if self.has("deprecated"@) {
                Some(seq![CompletionItemTag::Deprecated])
            } else {
                None
            },
        }
    }

    /// How the source of the entry is shown, and what has to be rewritten for it.
    fn show_source(
        &self,
        source: &String,
        specifier: &ModuleSpecifier,
        language_server: &Inner,
    ) -> (r: (String, Option<(String, String)>))
        ensures
            r.0@ == self.shown_source(source@, specifier@, *language_server).display,
            rewrite_view(r.1) == self.shown_source(
                source@,
                specifier@,
                *language_server,
            ).rewrite,
    {
        if let Some(data) = &self.data {
            if let Some(import_data) = &data.import {
                if let Ok(import_specifier) = ModuleSpecifier::parse(
                    import_data.file_name.as_str(),
                ) {
                    if let Some(new_module_specifier) = language_server.import_specifier(
                        &import_specifier,
                        specifier,
                    ) {
                        let display_source = new_module_specifier.clone();
                        if !same_text(
                            new_module_specifier.as_str(),
                            import_data.module_specifier.as_str(),
                        ) {
                            let rewrite = (
                                import_data.module_specifier.clone(),
                                new_module_specifier,
                            );
                            return (display_source, Some(rewrite));
                        }
                        return (display_source, None);
                    }
                }
            }
        }
        (source.clone(), None)
    }

    /// The completion for the client.
    pub fn as_completion_item(
        &self,
        line_index: Arc<LineIndex>,
        info: &CompletionInfo,
        settings: &CompletionSettings,
        specifier: &ModuleSpecifier,
        position: u32,
        language_server: &Inner,
    ) -> (r: CompletionItem)
        requires
            self.edit_fits(),
        ensures
            r@ == self.item(
                line_index@,
                *info,
                *settings,
                specifier@,
                position,
                *language_server,
            ),
            self.insert_text matches Some(inserted) ==> (r.insert_text matches Some(insert_text)
                && insert_text@ == inserted@),
            self.insert_text matches Some(inserted) ==> (self.replacement_span matches Some(
                replaced,
            ) ==> (r.text_edit matches Some(CompletionTextEdit::InsertAndReplace(edit)) && {
                &&& edit.new_text@ == inserted@
                &&& edit.insert.start == text::position_at(line_index@, replaced.start as nat)
                &&& edit.insert.end == text::position_at(
                    line_index@,
                    (replaced.start + replaced.length) as nat,
                )
                &&& edit.replace.start == edit.insert.start
                &&& edit.replace.end == edit.insert.end
            })),
            self.insert_text is None ==> (r.insert_text matches Some(insert_text) ==> insert_text@
                == self.name@),
            self.replacement_span is None ==> r.text_edit is None,
            r.insert_text is None ==> r.text_edit is None,
    {
        let shown = match &self.source {
            Some(source) => {
                let (display, rewrite) = self.show_source(source, specifier, language_server);
                let is_url = ModuleSpecifier::parse(display.as_str()).is_ok();
                Some(ShownSource { display, is_url, rewrite })
            },
            None => None,
        };
        self.as_completion_item_with(line_index, info, settings, specifier, position, shown)
    }

    /// The completion for the client, when its source is shown in the given way.
    pub fn as_completion_item_with(
        &self,
        line_index: Arc<LineIndex>,
        info: &CompletionInfo,
        settings: &CompletionSettings,
        specifier: &ModuleSpecifier,
        position: u32,
        shown: Option<ShownSource>,
    ) -> (r: CompletionItem)
        requires
            self.edit_fits(),
        ensures
            r@ == self.item_with(
                line_index@,
                *info,
                *settings,
                specifier@,
                position,
                views::opt_view(shown),
            ),
            self.insert_text matches Some(inserted) ==> (r.insert_text matches Some(insert_text)
                && insert_text@ == inserted@),
            self.insert_text matches Some(inserted) ==> (self.replacement_span matches Some(
                replaced,
            ) ==> (r.text_edit matches Some(CompletionTextEdit::InsertAndReplace(edit)) && {
                &&& edit.new_text@ == inserted@
                &&& edit.insert.start == text::position_at(line_index@, replaced.start as nat)
                &&& edit.insert.end == text::position_at(
                    line_index@,
                    (replaced.start + replaced.length) as nat,
                )
                &&& edit.replace.start == edit.insert.start
                &&& edit.replace.end == edit.insert.end
            })),
            self.insert_text is None ==> (r.insert_text matches Some(insert_text) ==> insert_text@
                == self.name@),
            self.replacement_span is None ==> r.text_edit is None,
            r.insert_text is None ==> r.text_edit is None,
    {
        let mut label = self.name.clone();
        let mut label_details: Option<CompletionItemLabelDetails> = None;
        let mut kind = CompletionItemKind::from(self.kind);
        let mut specifier_rewrite: Option<(String, String)> = None;
        let mut sort_text = if shown.is_some() {
            let mut sort_text = "\u{ffff}".to_owned();
            sort_text.append(self.sort_text.as_str());
            sort_text
        } else {
            self.sort_text.clone()
        };
        let preselect = self.is_recommended;
        let use_code_snippet = settings.complete_function_calls && (kind
            == CompletionItemKind::Function || kind == CompletionItemKind::Method);
        let commit_characters = self.get_commit_characters(info, settings);
        let mut insert_text = self.insert_text.clone();
        let insert_text_format = match self.is_snippet {
            Some(true) => Some(InsertTextFormat::Snippet),
            _ => None,
        };
        let mut filter_text = self.get_filter_text();
        let mut tags: Option<Vec<CompletionItemTag>> = None;
        let mut detail: Option<String> = None;
        if let Some(kind_modifiers) = &self.kind_modifiers {
            let modifiers = parse_kind_modifier(kind_modifiers.as_str());
            if contains_text(&modifiers, "optional") {
                if insert_text.is_none() {
                    insert_text = Some(label.clone());
                }
                if filter_text.is_none() {
                    filter_text = Some(label.clone());
                }
                label.append("?");
            }
            if contains_text(&modifiers, "deprecated") {
                let mut list: Vec<CompletionItemTag> = Vec::new();
                list.push(CompletionItemTag::Deprecated);
                assert(list@ =~= seq![CompletionItemTag::Deprecated]);
                tags = Some(list);
            }
            if contains_text(&modifiers, "color") {
                kind = CompletionItemKind::Color;
            }
            if self.kind == ScriptElementKind::ScriptElement {
                let lower = self.name.as_str().to_lowercase();
                detail =
                get_extension_detail(self.name.as_str(), lower.as_str(), &modifiers);
            }
        }
        if let Some(shown) = shown {
            specifier_rewrite = shown.rewrite;
            if shown.is_url {
                sort_text.append("_1");
            } else {
                sort_text.append("_0");
            }
            label_details =
            Some(CompletionItemLabelDetails { detail: None, description: Some(shown.display) });
        }
        let text_edit = match (&self.replacement_span, &insert_text) {
            (Some(text_span), Some(new_text)) => {
                let range = text_span.to_range(line_index);
                Some(
                    CompletionTextEdit::InsertAndReplace(
                        InsertReplaceEdit {
                            new_text: new_text.clone(),
                            insert: range,
                            replace: range,
                        },
                    ),
                )
            },
            _ => None,
        };
        let data = CompletionItemData {
            specifier: specifier.clone(),
            position,
            name: self.name.clone(),
            source: self.source.clone(),
            specifier_rewrite,
            data: match &self.data {
                Some(data) => Some(data.json.clone()),
                None => None,
            },
            use_code_snippet,
        };
        CompletionItem {
            label,
            label_details,
            kind: Some(kind),
            detail,
            documentation: None,
            deprecated: None,
            preselect,
            sort_text: Some(sort_text),
            filter_text,
            insert_text,
            insert_text_format,
            insert_text_mode: None,
            text_edit,
            additional_text_edits: None,
            command: None,
            commit_characters,
            data: Some(data),
            tags,
        }
    }
}

impl CompletionInfo {
    /// The completions for the client.
    pub fn as_completion_response(
        &self,
        line_index: Arc<LineIndex>,
        settings: &CompletionSettings,
        specifier: &ModuleSpecifier,
        position: u32,
        language_server: &Inner,
    ) -> (r: CompletionList)
        requires
            forall|i: int| 0 <= i < self.entries@.len() ==> (#[trigger] self.entries@[i]).edit_fits(),
        ensures
            r.is_incomplete == (self.is_incomplete == Some(true)),
            views::seq_view(r.items@) == Seq::new(
                self.entries@.len(),
                |i: int|
                    self.entries@[i].item(
                        line_index@,
                        *self,
                        *settings,
                        specifier@,
                        position,
                        *language_server,
                    ),
            ),
    {
        let mut items: Vec<CompletionItem> = Vec::new();
        let mut i: usize = 0;
        while i < self.entries.len()
            invariant
                i <= self.entries@.len(),
                items@.len() == i,
                forall|j: int|
                    0 <= j < self.entries@.len() ==> (#[trigger] self.entries@[j]).edit_fits(),
                forall|j: int|
                    0 <= j < i ==> (#[trigger] items@[j])@ == self.entries@[j].item(
                        line_index@,
                        *self,
                        *settings,
                        specifier@,
                        position,
                        *language_server,
                    ),
            decreases self.entries.len() - i,
        {
            let item = self.entries[i].as_completion_item(
                share(&line_index),
                self,
                settings,
                specifier,
                position,
                language_server,
            );
            items.push(item);
            i = i + 1;
        }
        CompletionList { is_incomplete: self.is_incomplete.unwrap_or(false), items }
    }
}

/// A text with the first text of a rewrite replaced by the second.
pub open spec fn rewritten(
    text: Seq<char>,
    rewrite: Option<(Seq<char>, Seq<char>)>,
) -> Seq<char> {
    match rewrite {
        Some((from, to)) => strings::replaced(text, from, to),
        None => text,
    }
}

/// A text with the first text of a rewrite replaced by the second.
fn rewrite_text(text: String, rewrite: &Option<(String, String)>) -> (r: String)
    ensures
        r@ == rewritten(text@, rewrite_view(*rewrite)),
{
    match rewrite {
        Some((from, to)) => replace(text.as_str(), from.as_str(), to.as_str()),
        None => text,
    }
}

/// The edits for changes of a text, rewritten.
pub open spec fn rewritten_edits(
    changes: Seq<edits::TextChange>,
    lines: Seq<text::LineView>,
    rewrite: Option<(Seq<char>, Seq<char>)>,
) -> Seq<lsp::TextEditView> {
    Seq::new(
        changes.len(),
        |i: int|
            lsp::TextEditView {
                range: span::range_of(changes[i].span, lines),
                new_text: rewritten(changes[i].new_text@, rewrite),
            },
    )
}

/// The rewritten edits for the changes of one file among those of several.
pub open spec fn own_edits(
    changes: Seq<FileTextChanges>,
    file_name: Seq<char>,
    lines: Seq<text::LineView>,
    rewrite: Option<(Seq<char>, Seq<char>)>,
) -> Seq<lsp::TextEditView>
    decreases changes.len(),
{
    if changes.len() == 0 {
        Seq::empty()
    } else {
        let before = own_edits(changes.drop_last(), file_name, lines, rewrite);
        if changes.last().file_name@ == file_name {
            before + rewritten_edits(changes.last().text_changes@, lines, rewrite)
        } else {
            before
        }
    }
}

/// The rewritten edits for the changes of one file among those of some actions.
pub open spec fn actions_edits(
    actions: Seq<CodeAction>,
    file_name: Seq<char>,
    lines: Seq<text::LineView>,
    rewrite: Option<(Seq<char>, Seq<char>)>,
) -> Seq<lsp::TextEditView>
    decreases actions.len(),
{
    if actions.len() == 0 {
        Seq::empty()
    } else {
        actions_edits(actions.drop_last(), file_name, lines, rewrite) + own_edits(
            actions.last().changes@,
            file_name,
            lines,
            rewrite,
        )
    }
}

/// One of the changes is of another file.
pub open spec fn changes_other_file(changes: Seq<FileTextChanges>, file_name: Seq<char>) -> bool {
    exists|i: int| 0 <= i < changes.len() && (#[trigger] changes[i]).file_name@ != file_name
}

/// Something of an action is left to do when the changes of one file are made.
pub open spec fn is_remaining(action: CodeAction, file_name: Seq<char>) -> bool {
    action.commands is Some || changes_other_file(action.changes@, file_name)
}

/// Something of one of the actions is left to do when the changes of one file are made.
pub open spec fn any_remaining(actions: Seq<CodeAction>, file_name: Seq<char>) -> bool {
    exists|i: int| 0 <= i < actions.len() && is_remaining(#[trigger] actions[i], file_name)
}

/// The changes of one file.
pub open spec fn own_changes(changes: Seq<FileTextChanges>, file_name: Seq<char>) -> Seq<
    edits::FileTextChangesView,
>
    decreases changes.len(),
{
    if changes.len() == 0 {
        Seq::empty()
    } else {
        let before = own_changes(changes.drop_last(), file_name);
        if changes.last().file_name@ == file_name {
            before.push(changes.last()@)
        } else {
            before
        }
    }
}

/// An action that is handed back to the client, with its changes of one file.
pub open spec fn remaining_action(
    action: CodeAction,
    file_name: Seq<char>,
) -> lsp::RemainingActionView {
    lsp::RemainingActionView {
        commands: views::opt_seq_view(action.commands),
        description: action.description@,
        changes: own_changes(action.changes@, file_name),
    }
}

/// What the actions of a completion come to: a command for what is left to do, and edits of the
/// document itself.
pub struct ActionsView {
    pub command: Option<lsp::CommandView>,
    pub additional_text_edits: Option<Seq<lsp::TextEditView>>,
}

/// What the actions of a completion come to; an error where there are actions and no document.
pub open spec fn parsed_actions(
    maybe_code_actions: Option<Seq<CodeAction>>,
    data: ItemDataView,
    specifier: Seq<char>,
    language_server: Inner,
) -> Result<ActionsView, TscError> {
    match maybe_code_actions {
        Some(actions) => if actions.len() > 0 && language_server.document(data.specifier) is None {
            Err(TscError::DocumentNotFound)
        } else {
            let edits = if actions.len() > 0 {
                actions_edits(
                    actions,
                    data.specifier,
                    language_server.document(data.specifier)->0.lines(),
                    data.specifier_rewrite,
                )
            } else {
                Seq::empty()
            };
            Ok(
                ActionsView {
                    command: if any_remaining(actions, data.specifier) {
                        Some(
                            lsp::CommandView {
                                title: ""@,
                                command: "_typescript.applyCompletionCodeAction"@,
                                specifier,
                                actions: Seq::new(
                                    actions.len(),
                                    |i: int| remaining_action(actions[i], data.specifier),
                                ),
                            },
                        )
                    } else {
                        None
                    },
                    additional_text_edits: if edits.len() > 0 {
                        Some(edits)
                    } else {
                        None
                    },
                },
            )
        },
        None => Ok(ActionsView { command: None, additional_text_edits: None }),
    }
}

/// The rewritten edits for the changes of a text.
fn rewrite_edits(
    changes: &Vec<edits::TextChange>,
    line_index: &Arc<LineIndex>,
    rewrite: &Option<(String, String)>,
) -> (r: Vec<TextEdit>)
    requires
        edits::changes_fit(changes@),
    ensures
        views::seq_view(r@) == rewritten_edits(changes@, line_index@, rewrite_view(*rewrite)),
{
    let mut out: Vec<TextEdit> = Vec::new();
    let mut i: usize = 0;
    while i < changes.len()
        invariant
            i <= changes@.len(),
            out@.len() == i,
            edits::changes_fit(changes@),
            forall|j: int|
                0 <= j < i ==> (#[trigger] out@[j])@ == rewritten_edits(
                    changes@,
                    line_index@,
                    rewrite_view(*rewrite),
                )[j],
        decreases changes.len() - i,
    {
        let text_edit = changes[i].as_text_edit(share(line_index));
        out.push(
            TextEdit {
                range: text_edit.range,
                new_text: rewrite_text(text_edit.new_text, rewrite),
            },
        );
        i = i + 1;
    }
    assert(views::seq_view(out@) =~= rewritten_edits(
        changes@,
        line_index@,
        rewrite_view(*rewrite),
    ));
    out
}

/// Adds the rewritten edits for the changes of one file among those of several to a list, and tells
/// whether another file is changed.
fn take_own_edits(
    changes: &Vec<FileTextChanges>,
    data: &CompletionItemData,
    line_index: &Arc<LineIndex>,
    list: &mut Vec<TextEdit>,
) -> (r: bool)
    requires
        edits::all_changes_fit(changes@),
    ensures
        r == changes_other_file(changes@, data.specifier@),
        views::seq_view(final(list)@) == views::seq_view(old(list)@) + own_edits(
            changes@,
            data.specifier@,
            line_index@,
            data@.specifier_rewrite,
        ),
{
    let ghost start = views::seq_view(list@);
    let ghost rewrite = data@.specifier_rewrite;
    let mut other = false;
    let mut i: usize = 0;
    assert(changes@.take(0) =~= Seq::empty());
    assert(start + Seq::<lsp::TextEditView>::empty() =~= start);
    while i < changes.len()
        invariant
            i <= changes@.len(),
            edits::all_changes_fit(changes@),
            rewrite == data@.specifier_rewrite,
            start == views::seq_view(old(list)@),
            other == changes_other_file(changes@.take(i as int), data.specifier@),
            views::seq_view(list@) == start + own_edits(
                changes@.take(i as int),
                data.specifier@,
                line_index@,
                rewrite,
            ),
        decreases changes.len() - i,
    {
        let change = &changes[i];
        let ghost before = changes@.take(i as int);
        let ghost after = changes@.take(i + 1);
        proof {
            assert(after.drop_last() =~= before);
            assert(after.last() == *change);
            assert forall|j: int| 0 <= j < i implies #[trigger] before[j] == after[j] by {}
        }
        if same_text(data.specifier.as_str(), change.file_name.as_str()) {
            let mut more = rewrite_edits(
                &change.text_changes,
                line_index,
                &data.specifier_rewrite,
            );
            let ghost old_list = list@;
            let ghost added = more@;
            list.append(&mut more);
            proof {
                assert(views::seq_view(list@) =~= views::seq_view(old_list) + views::seq_view(
                    added,
                ));
                assert(views::seq_view(list@) =~= start + own_edits(
                    after,
                    data.specifier@,
                    line_index@,
                    rewrite,
                ));
                if changes_other_file(after, data.specifier@) {
                    let j = choose|j: int|
                        0 <= j < after.len() && (#[trigger] after[j]).file_name@
                            != data.specifier@;
                    assert(before[j].file_name@ != data.specifier@);
                }
                if changes_other_file(before, data.specifier@) {
                    let j = choose|j: int|
                        0 <= j < before.len() && (#[trigger] before[j]).file_name@
                            != data.specifier@;
                    assert(after[j].file_name@ != data.specifier@);
                }
            }
        } else {
            other = true;
            assert(after[i as int].file_name@ != data.specifier@);
        }
        i = i + 1;
    }
    assert(changes@.take(i as int) =~= changes@);
    other
}

/// The changes of one file.
fn take_own_changes(changes: &Vec<FileTextChanges>, file_name: &str) -> (r: Vec<FileTextChanges>)
    ensures
        views::seq_view(r@) == own_changes(changes@, file_name@),
{
    let mut out: Vec<FileTextChanges> = Vec::new();
    let mut i: usize = 0;
    assert(changes@.take(0) =~= Seq::empty());
    assert(views::seq_view(out@) =~= Seq::empty());
    while i < changes.len()
        invariant
            i <= changes@.len(),
            views::seq_view(out@) == own_changes(changes@.take(i as int), file_name@),
        decreases changes.len() - i,
    {
        assert(changes@.take(i + 1).drop_last() =~= changes@.take(i as int));
        if same_text(changes[i].file_name.as_str(), file_name) {
            let change = changes[i].clone();
            proof {
                views::lemma_push(out@, change);
            }
            out.push(change);
        }
        i = i + 1;
    }
    assert(changes@.take(i as int) =~= changes@);
    out
}

/// Copies of the commands of an action.
fn copy_commands(commands: &Option<Vec<String>>) -> (r: Option<Vec<String>>)
    ensures
        views::opt_seq_view(r) == views::opt_seq_view(*commands),
{
    match commands {
        Some(commands) => {
            let copy = commands.clone();
            assert(views::seq_view(copy@) =~= views::seq_view(commands@));
            Some(copy)
        },
        None => None,
    }
}

/// The changes of every action fit.
pub open spec fn actions_fit(actions: Seq<CodeAction>) -> bool {
    forall|i: int|
        0 <= i < actions.len() ==> edits::all_changes_fit((#[trigger] actions[i]).changes@)
}

/// The actions that are there.
pub open spec fn code_actions(actions: Option<Vec<CodeAction>>) -> Option<Seq<CodeAction>> {
    match actions {
        Some(actions) => Some(actions@),
        None => None,
    }
}

/// What the actions of a completion come to: a command for what is left to do, and edits of the
/// document itself. An error where there are actions and no document.
pub fn parse_code_actions(
    maybe_code_actions: &Option<Vec<CodeAction>>,
    data: &CompletionItemData,
    specifier: &ModuleSpecifier,
    language_server: &Inner,
) -> (r: Result<(Option<Command>, Option<Vec<TextEdit>>), TscError>)
    requires
        maybe_code_actions matches Some(actions) ==> actions_fit(actions@),
    ensures
        match parsed_actions(
            code_actions(*maybe_code_actions),
            data@,
            specifier@,
            *language_server,
        ) {
            Ok(actions) => r matches Ok((command, edits)) && views::opt_view(command)
                == actions.command && views::opt_seq_view(edits) == actions.additional_text_edits,
            Err(error) => r matches Err(err) && err == error,
        },
{
    let code_actions = match maybe_code_actions {
        Some(code_actions) => code_actions,
        None => return Ok((None, None)),
    };
    let ghost href = data.specifier@;
    let ghost rewrite = data@.specifier_rewrite;
    let mut additional_text_edits: Vec<TextEdit> = Vec::new();
    let mut has_remaining_commands_or_edits = false;
    if code_actions.len() > 0 {
        let asset_or_doc = match language_server.get_asset_or_document(&data.specifier) {
            Ok(document) => document,
            Err(err) => return Err(err),
        };
        let line_index = asset_or_doc.line_index();
        let mut i: usize = 0;
        assert(code_actions@.take(0) =~= Seq::empty());
        assert(views::seq_view(additional_text_edits@) =~= Seq::empty());
        while i < code_actions.len()
            invariant
                i <= code_actions@.len(),
                actions_fit(code_actions@),
                href == data.specifier@,
                rewrite == data@.specifier_rewrite,
                has_remaining_commands_or_edits == any_remaining(
                    code_actions@.take(i as int),
                    href,
                ),
                views::seq_view(additional_text_edits@) == actions_edits(
                    code_actions@.take(i as int),
                    href,
                    line_index@,
                    rewrite,
                ),
            decreases code_actions.len() - i,
        {
            let ts_action = &code_actions[i];
            let ghost before = code_actions@.take(i as int);
            let ghost after = code_actions@.take(i + 1);
            let other = take_own_edits(
                &ts_action.changes,
                data,
                &line_index,
                &mut additional_text_edits,
            );
            if ts_action.commands.is_some() || other {
                has_remaining_commands_or_edits = true;
            }
            proof {
                assert(after.drop_last() =~= before);
                assert(after.last() == *ts_action);
                if is_remaining(*ts_action, href) {
                    assert(is_remaining(after[i as int], href));
                } else if any_remaining(after, href) {
                    let j = choose|j: int|
                        0 <= j < after.len() && is_remaining(#[trigger] after[j], href);
                    assert(is_remaining(before[j], href));
                }
                if any_remaining(before, href) {
                    let j = choose|j: int|
                        0 <= j < before.len() && is_remaining(#[trigger] before[j], href);
                    assert(is_remaining(after[j], href));
                }
            }
            i = i + 1;
        }
        assert(code_actions@.take(i as int) =~= code_actions@);
    }
    let command = if has_remaining_commands_or_edits {
        let mut actions: Vec<RemainingAction> = Vec::new();
        let mut i: usize = 0;
        while i < code_actions.len()
            invariant
                i <= code_actions@.len(),
                href == data.specifier@,
                actions@.len() == i,
                forall|j: int|
                    0 <= j < i ==> (#[trigger] actions@[j])@ == remaining_action(
                        code_actions@[j],
                        href,
                    ),
            decreases code_actions.len() - i,
        {
            let action = &code_actions[i];
            actions.push(
                RemainingAction {
                    commands: copy_commands(&action.commands),
                    description: action.description.clone(),
                    changes: take_own_changes(&action.changes, data.specifier.as_str()),
                },
            );
            i = i + 1;
        }
        assert(views::seq_view(actions@) =~= Seq::new(
            code_actions@.len(),
            |i: int| remaining_action(code_actions@[i], href),
        ));
        Some(
            Command {
                title: "".to_owned(),
                command: "_typescript.applyCompletionCodeAction".to_owned(),
                specifier: specifier.as_str().to_owned(),
                actions,
            },
        )
    } else {
        None
    };
    if additional_text_edits.len() == 0 {
        Ok((command, None))
    } else {
        Ok((command, Some(additional_text_edits)))
    }
}

/// What has been read of the parts of a signature.
pub struct ParameterState {
    pub parameters: Seq<Seq<char>>,
    pub is_in_fn: bool,
    pub parens: int,
    pub braces: int,
    pub done: bool,
}

/// A part that names what is called.
pub open spec fn names_callee(kind: Seq<char>) -> bool {
    kind == "methodName"@ || kind == "functionName"@ || kind == "text"@ || kind == "propertyName"@
}

/// A parameter is optional: a question mark stands behind its name.
pub open spec fn is_optional(parts: Seq<SymbolDisplayPart>, i: int) -> bool {
    i + 1 < parts.len() && parts[i + 1].text@ == "?"@
}

/// Reading one more part of a signature, which is not done yet.
pub open spec fn read_parameter(
    state: ParameterState,
    parts: Seq<SymbolDisplayPart>,
    i: int,
) -> ParameterState {
    let kind = parts[i].kind@;
    let text = parts[i].text@;
    if names_callee(kind) {
        ParameterState {
            is_in_fn: state.is_in_fn || (state.parens == 0 && state.braces == 0),
            ..state
        }
    } else if kind == "parameterName"@ {
        if state.parens == 1 && state.braces == 0 && state.is_in_fn && !is_optional(parts, i)
            && text != "this"@ {
            ParameterState { parameters: state.parameters.push(text), ..state }
        } else {
            state
        }
    } else if kind == "punctuation"@ {
        if text == "("@ {
            ParameterState { parens: state.parens + 1, ..state }
        } else if text == ")"@ {
            ParameterState {
                parens: state.parens - 1,
                done: state.parens - 1 <= 0 && state.is_in_fn,
                ..state
            }
        } else if text == "..."@ && state.parens == 1 {
            ParameterState { done: true, ..state }
        } else if text == "{"@ {
            ParameterState { braces: state.braces + 1, ..state }
        } else if text == "}"@ {
            ParameterState { braces: state.braces - 1, ..state }
        } else {
            state
        }
    } else {
        state
    }
}

/// Reading the first parts of a signature, up to the end of its parameters.
pub open spec fn read_parameters(parts: Seq<SymbolDisplayPart>, n: nat) -> ParameterState
    decreases n,
{
    if n == 0 {
        ParameterState {
            parameters: Seq::empty(),
            is_in_fn: false,
            parens: 0,
            braces: 0,
            done: false,
        }
    } else {
        let before = read_parameters(parts, (n - 1) as nat);
        if before.done {
            before
        } else {
            read_parameter(before, parts, n - 1)
        }
    }
}

/// Once done, reading on changes nothing.
proof fn lemma_done(parts: Seq<SymbolDisplayPart>, n: nat, m: nat)
    requires
        n <= m,
        read_parameters(parts, n).done,
    ensures
        read_parameters(parts, m) == read_parameters(parts, n),
    decreases m - n,
{
    if n < m {
        lemma_done(parts, n, (m - 1) as nat);
    }
}

/// The names of the parameters that have to be given in a call, up to a rest parameter.
pub open spec fn parameters_from_parts(parts: Seq<SymbolDisplayPart>) -> Seq<Seq<char>> {
    read_parameters(parts, parts.len()).parameters
}

/// The names of the parameters that have to be given in a call, up to a rest parameter.
pub fn get_parameters_from_parts(parts: &[SymbolDisplayPart]) -> (r: Vec<String>)
    ensures
        views::seq_view(r@) == parameters_from_parts(parts@),
{
    let mut parameters: Vec<String> = Vec::new();
    let mut is_in_fn = false;
    let mut paren_count: i128 = 0;
    let mut brace_count: i128 = 0;
    let len: usize = parts.len();
    let mut i: usize = 0;
    assert(views::seq_view(parameters@) =~= Seq::empty());
    while i < len
        invariant
            i <= len,
            parts@.len() == len,
            -i <= paren_count <= i,
            -i <= brace_count <= i,
            ({
                let state = read_parameters(parts@, i as nat);
                &&& !state.done
                &&& state.parameters == views::seq_view(parameters@)
                &&& state.is_in_fn == is_in_fn
                &&& state.parens == paren_count
                &&& state.braces == brace_count
            }),
        decreases len - i,
    {
        let part = &parts[i];
        let kind = part.kind.as_str();
        let text = part.text.as_str();
        let ghost before = read_parameters(parts@, i as nat);
        let ghost after = read_parameters(parts@, (i + 1) as nat);
        assert(after == read_parameter(before, parts@, i as int));
        let mut done = false;
        if same_text(kind, "methodName") || same_text(kind, "functionName") || same_text(
            kind,
            "text",
        ) || same_text(kind, "propertyName") {
            if paren_count == 0 && brace_count == 0 {
                is_in_fn = true;
            }
        } else if same_text(kind, "parameterName") {
            if paren_count == 1 && brace_count == 0 && is_in_fn {
                let is_optional = i + 1 < len && same_text(parts[i + 1].text.as_str(), "?");
                if !is_optional && !same_text(text, "this") {
                    let name = part.text.clone();
                    proof {
                        views::lemma_push(parameters@, name);
                    }
                    parameters.push(name);
                }
            }
        } else if same_text(kind, "punctuation") {
            if same_text(text, "(") {
                paren_count = paren_count + 1;
            } else if same_text(text, ")") {
                paren_count = paren_count - 1;
                if paren_count <= 0 && is_in_fn {
                    done = true;
                }
            } else if same_text(text, "...") && paren_count == 1 {
                done = true;
            } else if same_text(text, "{") {
                brace_count = brace_count + 1;
            } else if same_text(text, "}") {
                brace_count = brace_count - 1;
            }
        }
        if done {
            proof {
                lemma_done(parts@, (i + 1) as nat, len as nat);
            }
            return parameters;
        }
        i = i + 1;
    }
    parameters
}

/// What the compiler tells of one completion.
#[derive(Debug)]
pub struct CompletionEntryDetails {
    pub display_parts: Vec<SymbolDisplayPart>,
    pub documentation: Option<Vec<SymbolDisplayPart>>,
    pub tags: Option<Vec<JsDocTagInfo>>,
    pub name: String,
    pub kind: ScriptElementKind,
    pub kind_modifiers: String,
    pub code_actions: Option<Vec<CodeAction>>,
    pub source_display: Option<Vec<SymbolDisplayPart>>,
}

impl Named for CompletionEntryDetails {
    open spec fn file_names(&self) -> Seq<Seq<char>> {
        match self.code_actions {
            Some(actions) => normalize::all_names(actions@),
            None => Seq::empty(),
        }
    }

    open spec fn same_but_names(&self, other: &Self) -> bool {
        &&& self.display_parts == other.display_parts
        &&& self.documentation == other.documentation
        &&& self.tags == other.tags
        &&& self.name == other.name
        &&& self.kind == other.kind
        &&& self.kind_modifiers == other.kind_modifiers
        &&& self.source_display == other.source_display
        &&& match (self.code_actions, other.code_actions) {
            (Some(a), Some(b)) => normalize::all_same_but_names(a@, b@),
            (None, None) => true,
            _ => false,
        }
    }

    proof fn lemma_same(&self) {
        if self.code_actions is Some {
            let actions = self.code_actions->0@;
            assert forall|i: int| 0 <= i < actions.len() implies (
            #[trigger] actions[i]).same_but_names(&actions[i]) by {
                actions[i].lemma_same();
            }
        }
    }

    fn normalize(&mut self, map: &mut TscSpecifierMap) -> (r: Result<(), TscError>) {
        match &mut self.code_actions {
            Some(actions) => normalize_all(actions, map),
            None => Ok(()),
        }
    }
}

/// The edit of a completion, rewritten.
pub open spec fn rewritten_edit(
    edit: lsp::CompletionEditView,
    rewrite: Option<(Seq<char>, Seq<char>)>,
) -> lsp::CompletionEditView {
    match edit {
        lsp::CompletionEditView::Edit(edit) => lsp::CompletionEditView::Edit(
            lsp::TextEditView { new_text: rewritten(edit.new_text, rewrite), ..edit },
        ),
        lsp::CompletionEditView::InsertAndReplace {
            new_text,
            insert,
            replace,
        } => lsp::CompletionEditView::InsertAndReplace {
            new_text: rewritten(new_text, rewrite),
            insert,
            replace,
        },
    }
}

impl CompletionEntryDetails {
    /// Every span ends at an offset that can be counted.
    pub open spec fn fits(self) -> bool {
        &&& display::parts_fit(self.display_parts@)
        &&& display::opt_parts_fit(self.documentation)
        &&& display::opt_tags_fit(self.tags)
        &&& self.code_actions matches Some(actions) ==> actions_fit(actions@)
    }

    /// What is shown beside a completion: what it had, or else the signature.
    pub open spec fn shown_detail(
        self,
        original: Option<Seq<char>>,
        language_server: Inner,
    ) -> Option<Seq<char>> {
        if original is Some {
            original
        } else if self.display_parts@.len() > 0 {
            Some(links::linked(display::display_text(self.display_parts@, language_server)))
        } else {
            None
        }
    }

    /// The documentation of a completion, with that of its tags behind it.
    pub open spec fn shown_documentation(self, language_server: Inner) -> Option<Seq<char>> {
        match self.documentation {
            Some(parts) => {
                let value = display::display_text(parts@, language_server);
                match self.tags {
                    Some(tags) => Some(
                        value + "\n\n"@ + strings::joined(
                            display::tags_documentation(tags@, language_server),
                            ""@,
                        ),
                    ),
                    None => Some(value),
                }
            },
            None => None,
        }
    }

    /// The text that a completion inserts: with its parameters, where it is a call.
    pub open spec fn inserted(self, original: lsp::CompletionItemView, snippet: bool) -> Option<
        Seq<char>,
    > {
        if snippet {
            let callee = match original.insert_text {
                Some(insert_text) => insert_text,
                None => original.label,
            };
            Some(
                callee + "("@ + strings::joined(
                    parameters_from_parts(self.display_parts@),
                    ", "@,
                ) + ")"@,
            )
        } else {
            original.insert_text
        }
    }

    /// The completion with what the compiler tells of it.
    pub open spec fn item(
        self,
        original: lsp::CompletionItemView,
        data: ItemDataView,
        actions: ActionsView,
        language_server: Inner,
    ) -> lsp::CompletionItemView {
        lsp::CompletionItemView {
            data: None,
            detail: self.shown_detail(original.detail, language_server),
            documentation: self.shown_documentation(language_server),
            command: actions.command,
            text_edit: match original.text_edit {
                Some(edit) => Some(rewritten_edit(edit, data.specifier_rewrite)),
                None => None,
            },
            additional_text_edits: actions.additional_text_edits,
            insert_text: self.inserted(original, data.use_code_snippet),
            commit_characters: None,
            ..original
        }
    }

    /// The completion with what the compiler tells of it; an error where it has actions and there is
    /// no document for it.
    pub fn as_completion_item(
        &self,
        original_item: &CompletionItem,
        data: &CompletionItemData,
        specifier: &ModuleSpecifier,
        language_server: &Inner,
    ) -> (r: Result<CompletionItem, TscError>)
        requires
            self.fits(),
        ensures
            match parsed_actions(
                code_actions(self.code_actions),
                data@,
                specifier@,
                *language_server,
            ) {
                Ok(actions) => r matches Ok(item) && item@ == self.item(
                    original_item@,
                    data@,
                    actions,
                    *language_server,
                ),
                Err(error) => r matches Err(err) && err == error,
            },
    {
        let detail = if original_item.detail.is_some() {
            original_item.detail.clone()
        } else if self.display_parts.len() > 0 {
            let text = display_parts_to_string(self.display_parts.as_slice(), language_server);
            Some(replace_links(text.as_str()))
        } else {
            None
        };
        let documentation = match &self.documentation {
            Some(parts) => {
                let mut value = display_parts_to_string(parts.as_slice(), language_server);
                if let Some(tags) = &self.tags {
                    let tag_documentation = get_tags_documentation(tags, language_server, "");
                    value.append("\n\n");
                    value.append(tag_documentation.as_str());
                }
                Some(value)
            },
            None => None,
        };
        let text_edit = match &original_item.text_edit {
            Some(CompletionTextEdit::Edit(edit)) => Some(
                CompletionTextEdit::Edit(
                    TextEdit {
                        range: edit.range,
                        new_text: rewrite_text(edit.new_text.clone(), &data.specifier_rewrite),
                    },
                ),
            ),
            Some(CompletionTextEdit::InsertAndReplace(edit)) => Some(
                CompletionTextEdit::InsertAndReplace(
                    InsertReplaceEdit {
                        new_text: rewrite_text(edit.new_text.clone(), &data.specifier_rewrite),
                        insert: edit.insert,
                        replace: edit.replace,
                    },
                ),
            ),
            None => None,
        };
        let (command, additional_text_edits) = match parse_code_actions(
            &self.code_actions,
            data,
            specifier,
            language_server,
        ) {
            Ok(actions) => actions,
            Err(err) => return Err(err),
        };
        let insert_text = if data.use_code_snippet {
            let mut text = match &original_item.insert_text {
                Some(insert_text) => insert_text.clone(),
                None => original_item.label.clone(),
            };
            text.append("(");
            text.append(
                join(
                    &get_parameters_from_parts(self.display_parts.as_slice()),
                    ", ",
                ).as_str(),
            );
            text.append(")");
            Some(text)
        } else {
            original_item.insert_text.clone()
        };
        let tags = match &original_item.tags {
            Some(tags) => {
                let copy = tags.clone();
                assert(copy@ =~= tags@);
                Some(copy)
            },
            None => None,
        };
        Ok(
            CompletionItem {
                label: original_item.label.clone(),
                label_details: original_item.label_details.clone(),
                kind: original_item.kind,
                detail,
                documentation,
                deprecated: original_item.deprecated,
                preselect: original_item.preselect,
                sort_text: original_item.sort_text.clone(),
                filter_text: original_item.filter_text.clone(),
                insert_text,
                insert_text_format: original_item.insert_text_format,
                insert_text_mode: original_item.insert_text_mode,
                text_edit,
                additional_text_edits,
                command,
                commit_characters: None,
                data: None,
                tags,
            },
        )
    }
}

/// What details of a completion are asked for. The data is a JSON text.
#[derive(Debug)]
pub struct GetCompletionDetailsArgs {
    pub specifier: ModuleSpecifier,
    pub position: u32,
    pub name: String,
    pub format_code_settings: Option<FormatCodeSettings>,
    pub source: Option<String>,
    pub preferences: Option<UserPreferences>,
    pub data: Option<String>,
}

impl vstd::std_specs::convert::FromSpecImpl<&CompletionItemData> for GetCompletionDetailsArgs {
    open spec fn obeys_from_spec() -> bool {
        true
    }

    open spec fn from_spec(item_data: &CompletionItemData) -> Self {
        GetCompletionDetailsArgs {
            specifier: item_data.specifier,
            position: item_data.position,
            name: item_data.name,
            format_code_settings: None,
            source: item_data.source,
            preferences: None,
            data: item_data.data,
        }
    }
}

impl From<&CompletionItemData> for GetCompletionDetailsArgs {
    fn from(item_data: &CompletionItemData) -> (r: Self)
        ensures
            r.specifier@ == item_data.specifier@,
            r.position == item_data.position,
            r.name@ == item_data.name@,
            r.source is Some <==> item_data.source is Some,
            item_data.source matches Some(source) ==> r.source->0@ == source@,
            r.data is Some <==> item_data.data is Some,
            item_data.data matches Some(data) ==> r.data->0@ == data@,
            r.format_code_settings is None,
            r.preferences is None,
    {
        GetCompletionDetailsArgs {
            specifier: item_data.specifier.clone(),
            position: item_data.position,
            name: item_data.name.clone(),
            format_code_settings: None,
            source: item_data.source.clone(),
            preferences: None,
            data: item_data.data.clone(),
        }
    }
}

/// A text comes before another in the order of their characters.
pub open spec fn sorts_before(a: Seq<char>, b: Seq<char>) -> bool
    decreases a.len(),
{
    if b.len() == 0 {
        false
    } else if a.len() == 0 {
        true
    } else if a[0] == b[0] {
        sorts_before(a.skip(1), b.skip(1))
    } else {
        a[0] < b[0]
    }
}

proof fn lemma_sorts_behind(start: Seq<char>, a: Seq<char>, b: Seq<char>)
    requires
        sorts_before(a, b),
    ensures
        sorts_before(start + a, start + b),
    decreases start.len(),
{
    if start.len() == 0 {
        assert(start + a =~= a);
        assert(start + b =~= b);
    } else {
        lemma_sorts_behind(start.skip(1), a, b);
        assert((start + a).skip(1) =~= start.skip(1) + a);
        assert((start + b).skip(1) =~= start.skip(1) + b);
    }
}

/// How many changes of one file there are among those of several.
pub open spec fn own_count(changes: Seq<FileTextChanges>, file_name: Seq<char>) -> nat
    decreases changes.len(),
{
    if changes.len() == 0 {
        0
    } else {
        own_count(changes.drop_last(), file_name) + if changes.last().file_name@ == file_name {
            changes.last().text_changes@.len()
        } else {
            0
        }
    }
}

/// How many changes of one file there are among those of some actions.
pub open spec fn actions_count(actions: Seq<CodeAction>, file_name: Seq<char>) -> nat
    decreases actions.len(),
{
    if actions.len() == 0 {
        0
    } else {
        actions_count(actions.drop_last(), file_name) + own_count(
            actions.last().changes@,
            file_name,
        )
    }
}

proof fn lemma_own_edits_count(
    changes: Seq<FileTextChanges>,
    file_name: Seq<char>,
    lines: Seq<text::LineView>,
    rewrite: Option<(Seq<char>, Seq<char>)>,
)
    ensures
        own_edits(changes, file_name, lines, rewrite).len() == own_count(changes, file_name),
    decreases changes.len(),
{
    if changes.len() > 0 {
        lemma_own_edits_count(changes.drop_last(), file_name, lines, rewrite);
    }
}

proof fn lemma_actions_edits_count(
    actions: Seq<CodeAction>,
    file_name: Seq<char>,
    lines: Seq<text::LineView>,
    rewrite: Option<(Seq<char>, Seq<char>)>,
)
    ensures
        actions_edits(actions, file_name, lines, rewrite).len() == actions_count(
            actions,
            file_name,
        ),
    decreases actions.len(),
{
    if actions.len() > 0 {
        lemma_actions_edits_count(actions.drop_last(), file_name, lines, rewrite);
        lemma_own_edits_count(actions.last().changes@, file_name, lines, rewrite);
    }
}

proof fn lemma_own_edit_at(
    changes: Seq<FileTextChanges>,
    file_name: Seq<char>,
    lines: Seq<text::LineView>,
    rewrite: Option<(Seq<char>, Seq<char>)>,
    c: int,
    t: int,
)
    requires
        0 <= c < changes.len(),
        changes[c].file_name@ == file_name,
        0 <= t < changes[c].text_changes@.len(),
    ensures
        ({
            let at = own_count(changes.take(c), file_name) + t;
            &&& 0 <= at < own_count(changes, file_name)
            &&& own_edits(changes, file_name, lines, rewrite)[at] == rewritten_edits(
                changes[c].text_changes@,
                lines,
                rewrite,
            )[t]
        }),
    decreases changes.len(),
{
    lemma_own_edits_count(changes.drop_last(), file_name, lines, rewrite);
    if c < changes.len() - 1 {
        lemma_own_edit_at(changes.drop_last(), file_name, lines, rewrite, c, t);
        assert(changes.drop_last().take(c) =~= changes.take(c));
    } else {
        assert(changes.take(c) =~= changes.drop_last());
    }
}

proof fn lemma_action_edit_at(
    actions: Seq<CodeAction>,
    file_name: Seq<char>,
    lines: Seq<text::LineView>,
    rewrite: Option<(Seq<char>, Seq<char>)>,
    a: int,
    c: int,
    t: int,
)
    requires
        0 <= a < actions.len(),
        0 <= c < actions[a].changes@.len(),
        actions[a].changes@[c].file_name@ == file_name,
        0 <= t < actions[a].changes@[c].text_changes@.len(),
    ensures
        ({
            let at = actions_count(actions.take(a), file_name) + own_count(
                actions[a].changes@.take(c),
                file_name,
            ) + t;
            &&& 0 <= at < actions_count(actions, file_name)
            &&& actions_edits(actions, file_name, lines, rewrite)[at] == rewritten_edits(
                actions[a].changes@[c].text_changes@,
                lines,
                rewrite,
            )[t]
        }),
    decreases actions.len(),
{
    lemma_actions_edits_count(actions.drop_last(), file_name, lines, rewrite);
    lemma_own_edits_count(actions.last().changes@, file_name, lines, rewrite);
    if a < actions.len() - 1 {
        lemma_action_edit_at(actions.drop_last(), file_name, lines, rewrite, a, c, t);
        assert(actions.drop_last().take(a) =~= actions.take(a));
    } else {
        assert(actions.take(a) =~= actions.drop_last());
        lemma_own_edit_at(actions[a].changes@, file_name, lines, rewrite, c, t);
    }
}

/// The actions of a completion make every change of the document itself and no other, in the order of
/// the actions and of their changes: the new text, with the rewrite of the completion made in it,
/// goes in the place of the span. Where there is no such change, nothing is edited.
pub proof fn law_own_changes_are_made(
    actions: Seq<CodeAction>,
    data: ItemDataView,
    specifier: Seq<char>,
    language_server: Inner,
    a: int,
    c: int,
    t: int,
)
    requires
        language_server.document(data.specifier) is Some,
    ensures
        parsed_actions(Some(actions), data, specifier, language_server) matches Ok(parsed) && {
            let lines = language_server.document(data.specifier)->0.lines();
            let edits = match parsed.additional_text_edits {
                Some(edits) => edits,
                None => Seq::empty(),
            };
            &&& parsed.additional_text_edits is Some <==> edits.len() > 0
            &&& edits.len() == actions_count(actions, data.specifier)
            &&& 0 <= a < actions.len() && 0 <= c < actions[a].changes@.len()
                && actions[a].changes@[c].file_name@ == data.specifier && 0 <= t
                < actions[a].changes@[c].text_changes@.len() ==> {
                let change = actions[a].changes@[c].text_changes@[t];
                let at = actions_count(actions.take(a), data.specifier) + own_count(
                    actions[a].changes@.take(c),
                    data.specifier,
                ) + t;
                &&& 0 <= at < edits.len()
                &&& edits[at].range.start == text::position_at(lines, change.span.start as nat)
                &&& edits[at].range.end == text::position_at(
                    lines,
                    (change.span.start + change.span.length) as nat,
                )
                &&& data.specifier_rewrite is None ==> edits[at].new_text == change.new_text@
                &&& data.specifier_rewrite matches Some(rewrite) ==> edits[at].new_text
                    == strings::replaced(change.new_text@, rewrite.0, rewrite.1)
            }
        },
{
    let lines = language_server.document(data.specifier)->0.lines();
    lemma_actions_edits_count(actions, data.specifier, lines, data.specifier_rewrite);
    if 0 <= a < actions.len() && 0 <= c < actions[a].changes@.len()
        && actions[a].changes@[c].file_name@ == data.specifier && 0 <= t
        < actions[a].changes@[c].text_changes@.len() {
        lemma_action_edit_at(actions, data.specifier, lines, data.specifier_rewrite, a, c, t);
    }
}

/// A completion has actions left to do where one of them has commands or changes another file, and only
/// then. The command for them hands back every action, in order, with its description, its commands
/// and its changes of the document itself. Actions fail only where there is no document for them,
/// and a completion without actions edits and leaves nothing.
pub proof fn law_remaining_actions_are_handed_back(
    actions: Seq<CodeAction>,
    data: ItemDataView,
    specifier: Seq<char>,
    language_server: Inner,
)
    ensures
        ({
            let parsed = parsed_actions(Some(actions), data, specifier, language_server);
            let left = exists|a: int|
                0 <= a < actions.len() && ((#[trigger] actions[a]).commands is Some || exists|
                    c: int,
                |
                    0 <= c < actions[a].changes@.len() && (
                    #[trigger] actions[a].changes@[c]).file_name@ != data.specifier);
            &&& parsed is Err <==> actions.len() > 0 && language_server.document(
                data.specifier,
            ) is None
            &&& parsed matches Err(err) ==> err == TscError::DocumentNotFound
            &&& parsed matches Ok(parsed) ==> {
                &&& parsed.command is Some <==> left
                &&& parsed.command matches Some(command) ==> {
                    &&& command.command == "_typescript.applyCompletionCodeAction"@
                    &&& command.title.len() == 0
                    &&& command.specifier == specifier
                    &&& command.actions.len() == actions.len()
                    &&& forall|a: int|
                        0 <= a < actions.len() ==> {
                            let action = #[trigger] command.actions[a];
                            &&& action.description == actions[a].description@
                            &&& action.commands == views::opt_seq_view(actions[a].commands)
                            &&& action.changes == own_changes(
                                actions[a].changes@,
                                data.specifier,
                            )
                        }
                }
            }
        }),
        parsed_actions(None, data, specifier, language_server) == Ok::<ActionsView, TscError>(
            ActionsView { command: None, additional_text_edits: None },
        ),
{
    reveal_strlit("");
    if any_remaining(actions, data.specifier) {
        let a = choose|a: int|
            0 <= a < actions.len() && is_remaining(#[trigger] actions[a], data.specifier);
        assert(actions[a].commands is Some || changes_other_file(
            actions[a].changes@,
            data.specifier,
        ));
    }
    if exists|a: int|
        0 <= a < actions.len() && ((#[trigger] actions[a]).commands is Some || exists|c: int|
            0 <= c < actions[a].changes@.len() && (#[trigger] actions[a].changes@[c]).file_name@
                != data.specifier) {
        let a = choose|a: int|
            0 <= a < actions.len() && ((#[trigger] actions[a]).commands is Some || exists|c: int|
                0 <= c < actions[a].changes@.len() && (
                #[trigger] actions[a].changes@[c]).file_name@ != data.specifier);
        assert(is_remaining(actions[a], data.specifier));
    }
}

/// The changes of one file among several are those with its name, in their order, and no others.
pub proof fn law_own_changes_are_of_the_file(
    changes: Seq<FileTextChanges>,
    more: FileTextChanges,
    file_name: Seq<char>,
)
    ensures
        own_changes(Seq::empty(), file_name).len() == 0,
        more.file_name@ == file_name ==> own_changes(changes.push(more), file_name) == own_changes(
            changes,
            file_name,
        ).push(more@),
        more.file_name@ != file_name ==> own_changes(changes.push(more), file_name) == own_changes(
            changes,
            file_name,
        ),
{
    assert(changes.push(more).drop_last() =~= changes);
}

/// Resolving a completion fills in the signature where it showed nothing beside it, the documentation
/// with that of the tags behind it, and what its actions come to. It keeps the place of the edit and
/// rewrites only its text. A call is completed with the parameters that have to be given, in
/// parentheses, behind the text it inserts or else its label.
pub proof fn law_resolving_fills_in(
    details: CompletionEntryDetails,
    original: lsp::CompletionItemView,
    data: ItemDataView,
    actions: ActionsView,
    language_server: Inner,
)
    ensures
        ({
            let item = details.item(original, data, actions, language_server);
            &&& item.command == actions.command
            &&& item.additional_text_edits == actions.additional_text_edits
            &&& item.data is None
            &&& item.commit_characters is None
            &&& original.detail is None && details.display_parts@.len() == 0 ==> item.detail is None
            &&& original.detail is None && details.display_parts@.len() > 0 ==> item.detail == Some(
                links::linked(display::display_text(details.display_parts@, language_server)),
            )
            &&& details.documentation is None <==> item.documentation is None
            &&& details.documentation matches Some(parts) ==> {
                let said = display::display_text(parts@, language_server);
                &&& details.tags is None ==> item.documentation == Some(said)
                &&& details.tags matches Some(tags) ==> item.documentation == Some(
                    said + seq!['\n', '\n'] + strings::joined(
                        display::tags_documentation(tags@, language_server),
                        ""@,
                    ),
                )
            }
            &&& data.use_code_snippet ==> {
                let callee = if original.insert_text is Some {
                    original.insert_text->0
                } else {
                    original.label
                };
                item.insert_text == Some(
                    callee + seq!['('] + strings::joined(
                        parameters_from_parts(details.display_parts@),
                        ", "@,
                    ) + seq![')'],
                )
            }
            &&& original.text_edit is None <==> item.text_edit is None
            &&& original.text_edit matches Some(
                lsp::CompletionEditView::InsertAndReplace { new_text, insert, replace },
            ) ==> (data.specifier_rewrite matches Some(rewrite) ==> item.text_edit == Some(
                lsp::CompletionEditView::InsertAndReplace {
                    new_text: strings::replaced(new_text, rewrite.0, rewrite.1),
                    insert,
                    replace,
                },
            ))
            &&& original.text_edit matches Some(lsp::CompletionEditView::Edit(edit)) ==> (
            data.specifier_rewrite matches Some(rewrite) ==> item.text_edit == Some(
                lsp::CompletionEditView::Edit(
                    lsp::TextEditView {
                        range: edit.range,
                        new_text: strings::replaced(edit.new_text, rewrite.0, rewrite.1),
                    },
                ),
            ))
            &&& item.deprecated == original.deprecated
            &&& item.insert_text_format == original.insert_text_format
            &&& item.insert_text_mode == original.insert_text_mode
        }),
{
    reveal_strlit("(");
    reveal_strlit(")");
    reveal_strlit("\n\n");
    assert("("@ =~= seq!['(']);
    assert(")"@ =~= seq![')']);
    assert("\n\n"@ =~= seq!['\n', '\n']);
}

/// Of two imports with the same sort text, one that is shown under a relative or bare specifier comes
/// before one that is shown under a URL.
pub proof fn law_relative_imports_come_first(
    a: CompletionEntry,
    b: CompletionEntry,
    specifier: Seq<char>,
    language_server: Inner,
)
    requires
        a.source is Some,
        b.source is Some,
        a.sort_text@ == b.sort_text@,
        specifier::parsed_url(
            a.shown_source(a.source->0@, specifier, language_server).display,
        ) is None,
        specifier::parsed_url(
            b.shown_source(b.source->0@, specifier, language_server).display,
        ) is Some,
    ensures
        sorts_before(a.sort_key(specifier, language_server), b.sort_key(specifier, language_server)),
{
    reveal_strlit("_0");
    reveal_strlit("_1");
    reveal_with_fuel(sorts_before, 3);
    let start = "\u{ffff}"@ + a.sort_text@;
    assert("_0"@.skip(1)[0] == '0');
    assert("_1"@.skip(1)[0] == '1');
    assert(sorts_before("_0"@, "_1"@));
    lemma_sorts_behind(start, "_0"@, "_1"@);
}

/// What needs no import comes before what does, where its sort text opens with a character below the
/// mark that is put before imports.
pub proof fn law_imports_come_last(
    a: CompletionEntry,
    b: CompletionEntry,
    specifier: Seq<char>,
    language_server: Inner,
)
    requires
        a.source is None,
        b.source is Some,
        a.sort_text@.len() == 0 || a.sort_text@[0] < '\u{ffff}',
    ensures
        sorts_before(a.sort_key(specifier, language_server), b.sort_key(specifier, language_server)),
{
    reveal_strlit("\u{ffff}");
    assert(b.sort_key(specifier, language_server)[0] == '\u{ffff}');
}

/// What an entry inserts is the text that the compiler gives for it, whatever its modifiers are; an
/// entry without one inserts its name where it is optional, and nothing else does. Where the compiler
/// gives a span to replace, the completion puts that text in its place, and it edits nothing
/// otherwise.
pub proof fn law_given_text_is_inserted(
    entry: CompletionEntry,
    lines: Seq<text::LineView>,
    info: CompletionInfo,
    settings: CompletionSettings,
    specifier: Seq<char>,
    position: u32,
    shown: Option<ShownSourceView>,
)
    ensures
        ({
            let item = entry.item_with(lines, info, settings, specifier, position, shown);
            let optional = entry.kind_modifiers matches Some(modifiers) && patterns::modifiers(
                modifiers@,
            ).contains("optional"@);
            &&& entry.insert_text matches Some(text) ==> item.insert_text == Some(text@)
            &&& entry.insert_text is None && optional ==> item.insert_text == Some(entry.name@)
            &&& entry.insert_text is None && !optional ==> item.insert_text is None
            &&& entry.replacement_span is None || item.insert_text is None ==> item.text_edit is None
            &&& entry.replacement_span is Some && item.insert_text is Some ==> {
                let replaced = entry.replacement_span->0;
                &&& item.text_edit matches Some(
                    lsp::CompletionEditView::InsertAndReplace { new_text, insert, replace },
                ) && {
                    &&& Some(new_text) == item.insert_text
                    &&& insert == replace
                    &&& insert.start == text::position_at(lines, replaced.start as nat)
                    &&& insert.end == text::position_at(
                        lines,
                        (replaced.start + replaced.length) as nat,
                    )
                }
            }
        }),
{
}

/// A completion is listed under the name of its entry, with a question mark where it is optional. It
/// is struck out where it is deprecated, shown as a color where it is one, and chosen at first where
/// the compiler recommends it.
pub proof fn law_modifiers_are_shown(
    entry: CompletionEntry,
    lines: Seq<text::LineView>,
    info: CompletionInfo,
    settings: CompletionSettings,
    specifier: Seq<char>,
    position: u32,
    shown: Option<ShownSourceView>,
    modifiers: Seq<Seq<char>>,
)
    requires
        modifiers == match entry.kind_modifiers {
            Some(list) => patterns::modifiers(list@),
            None => Seq::empty(),
        },
    ensures
        ({
            let item = entry.item_with(lines, info, settings, specifier, position, shown);
            &&& item.label.len() == entry.name@.len() + if modifiers.contains("optional"@) {
                1int
            } else {
                0int
            }
            &&& entry.name@.is_prefix_of(item.label)
            &&& modifiers.contains("optional"@) ==> item.label.last() == '?'
            &&& modifiers.contains("deprecated"@) <==> item.tags == Some(
                seq![CompletionItemTag::Deprecated],
            )
            &&& !modifiers.contains("deprecated"@) <==> item.tags is None
            &&& modifiers.contains("color"@) <==> item.kind == Some(CompletionItemKind::Color)
            &&& !modifiers.contains("color"@) ==> item.kind == Some(
                element::completion_kind(entry.kind),
            )
            &&& item.preselect == entry.is_recommended
            &&& item.insert_text_format == Some(InsertTextFormat::Snippet) <==> entry.is_snippet
                == Some(true)
            &&& item.insert_text_format is None <==> entry.is_snippet != Some(true)
            &&& item.commit_characters == entry.commit_characters(info, settings)
            &&& item.documentation is None
            &&& item.deprecated is None
            &&& item.insert_text_mode is None
            &&& item.additional_text_edits is None
            &&& item.command is None
            &&& shown is None ==> item.label_details is None
            &&& shown matches Some(source) ==> item.label_details == Some(
                lsp::LabelDetailsView { detail: None, description: Some(source.display) },
            )
        }),
{
    reveal_strlit("?");
    let item = entry.item_with(lines, info, settings, specifier, position, shown);
    assert(entry.name@.is_prefix_of(entry.name@ + "?"@));
    assert(Seq::<Seq<char>>::empty().contains("color"@) == false);
}

/// A completion that imports nothing is sorted by the sort text of its entry. One that imports is
/// sorted by a mark above all common characters, that text, and a digit behind an underscore: one
/// where it is shown under a URL and zero otherwise.
pub proof fn law_sort_text_is_kept(
    entry: CompletionEntry,
    lines: Seq<text::LineView>,
    info: CompletionInfo,
    settings: CompletionSettings,
    specifier: Seq<char>,
    position: u32,
    shown: Option<ShownSourceView>,
)
    ensures
        ({
            let item = entry.item_with(lines, info, settings, specifier, position, shown);
            let n = entry.sort_text@.len() as int;
            let key = item.sort_text->0;
            &&& item.sort_text is Some
            &&& shown is None ==> key == entry.sort_text@
            &&& shown matches Some(source) ==> {
                &&& key.len() == n + 3
                &&& key[0] == '\u{ffff}'
                &&& key.subrange(1, n + 1) == entry.sort_text@
                &&& key[n + 1] == '_'
                &&& key[n + 2] == if source.is_url {
                    '1'
                } else {
                    '0'
                }
            }
        }),
{
    reveal_strlit("\u{ffff}");
    reveal_strlit("_0");
    reveal_strlit("_1");
    let key = entry.sort_key_with(shown);
    if shown is Some {
        assert(key.subrange(1, entry.sort_text@.len() as int + 1) =~= entry.sort_text@);
    }
}

/// What a completion is resolved with names the entry, the module and the offset it was asked for at.
/// The source and the data that the compiler gave go back to it as they are.
pub proof fn law_item_data_names_the_entry(
    entry: CompletionEntry,
    lines: Seq<text::LineView>,
    info: CompletionInfo,
    settings: CompletionSettings,
    specifier: Seq<char>,
    position: u32,
    shown: Option<ShownSourceView>,
)
    ensures
        entry.item_with(lines, info, settings, specifier, position, shown).data matches Some(data)
            && {
            &&& data.specifier == specifier
            &&& data.position == position
            &&& data.name == entry.name@
            &&& data.source is Some <==> entry.source is Some
            &&& entry.source matches Some(source) ==> data.source == Some(source@)
            &&& data.data is Some <==> entry.data is Some
            &&& entry.data matches Some(given) ==> data.data == Some(given.json@)
            &&& shown is None ==> data.specifier_rewrite is None
            &&& shown matches Some(source) ==> data.specifier_rewrite == source.rewrite
            &&& data.use_code_snippet <==> settings.complete_function_calls && (entry.kind
                == ScriptElementKind::FunctionElement || entry.kind
                == ScriptElementKind::LocalFunctionElement || entry.kind
                == ScriptElementKind::MemberFunctionElement || entry.kind
                == ScriptElementKind::ConstructSignatureElement || entry.kind
                == ScriptElementKind::CallSignatureElement || entry.kind
                == ScriptElementKind::IndexSignatureElement)
        },
{
}

/// An entry that imports is described by the specifier under which the language server would import
/// its module, and the one that the compiler uses is replaced by it where the two differ. Where no
/// such specifier is known, it is described by its source and nothing is replaced.
pub proof fn law_imports_are_shown_as_written(
    entry: CompletionEntry,
    lines: Seq<text::LineView>,
    info: CompletionInfo,
    settings: CompletionSettings,
    specifier: Seq<char>,
    position: u32,
    language_server: Inner,
    known: Option<Seq<char>>,
)
    requires
        entry.source is Some,
        known == match entry.data {
            Some(data) => match data.import {
                Some(import) => match specifier::parsed_url(import.file_name@) {
                    Some(href) => language_server::import_specifier(
                        language_server.imports@,
                        href,
                        specifier,
                    ),
                    None => None,
                },
                None => None,
            },
            None => None,
        },
    ensures
        ({
            let item = entry.item(lines, info, settings, specifier, position, language_server);
            let shown = match known {
                Some(new) => new,
                None => entry.source->0@,
            };
            &&& item.label_details == Some(
                lsp::LabelDetailsView { detail: None, description: Some(shown) },
            )
            &&& item.sort_text->0.last() == '1' <==> specifier::parsed_url(shown) is Some
            &&& known is None ==> item.data->0.specifier_rewrite is None
            &&& known matches Some(new) ==> {
                let compiled = entry.data->0.import->0.module_specifier@;
                &&& new == compiled ==> item.data->0.specifier_rewrite is None
                &&& new != compiled ==> item.data->0.specifier_rewrite == Some((compiled, new))
            }
        }),
{
    reveal_strlit("_0");
    reveal_strlit("_1");
    let item = entry.item(lines, info, settings, specifier, position, language_server);
    let shown = entry.source_shown(specifier, language_server)->0;
    assert(item.sort_text->0.last() == if shown.is_url {
        "_1"@.last()
    } else {
        "_0"@.last()
    });
}

/// No character takes a completion where a new name may be typed. Elsewhere a period and a semicolon
/// take what has members or can end a statement, a comma takes what can stand in a list, and an
/// opening parenthesis takes it too unless calls are completed as a whole. Nothing else does.
pub proof fn law_commit_characters(
    entry: CompletionEntry,
    info: CompletionInfo,
    settings: CompletionSettings,
)
    ensures
        ({
            let taken = entry.commit_characters(info, settings);
            let kind = entry.kind;
            let member = kind == ScriptElementKind::MemberGetAccessorElement || kind
                == ScriptElementKind::MemberSetAccessorElement || kind
                == ScriptElementKind::ConstructSignatureElement || kind
                == ScriptElementKind::CallSignatureElement || kind
                == ScriptElementKind::IndexSignatureElement || kind
                == ScriptElementKind::EnumElement || kind == ScriptElementKind::InterfaceElement;
            let value = kind == ScriptElementKind::ModuleElement || kind
                == ScriptElementKind::Alias || kind == ScriptElementKind::ConstElement || kind
                == ScriptElementKind::LetElement || kind == ScriptElementKind::VariableElement
                || kind == ScriptElementKind::LocalVariableElement || kind
                == ScriptElementKind::MemberVariableElement || kind
                == ScriptElementKind::ClassElement || kind == ScriptElementKind::FunctionElement
                || kind == ScriptElementKind::MemberFunctionElement || kind
                == ScriptElementKind::Keyword || kind == ScriptElementKind::ParameterElement;
            &&& taken is Some <==> !info.is_new_identifier_location && (member || value)
            &&& taken matches Some(characters) ==> {
                &&& characters.contains("."@)
                &&& characters.contains(";"@)
                &&& characters.contains(","@) <==> value
                &&& characters.contains("("@) <==> value && !settings.complete_function_calls
                &&& forall|i: int|
                    0 <= i < characters.len() ==> (#[trigger] characters[i]).len() == 1
                &&& characters.no_duplicates()
                &&& characters.len() <= 4
                &&& member ==> characters.len() == 2
                &&& value && settings.complete_function_calls ==> characters.len() == 3
            }
        }),
{
    reveal_strlit(".");
    reveal_strlit(",");
    reveal_strlit(";");
    reveal_strlit("(");
    let characters = kind_commit_characters(entry.kind, settings.complete_function_calls);
    assert("."@[0] == '.' && ","@[0] == ',' && ";"@[0] == ';' && "("@[0] == '(');
    if characters.len() > 0 {
        assert(characters[0] == "."@);
        if characters.len() == 2 {
            assert(characters[1] == ";"@);
        } else {
            assert(characters[1] == ","@);
            assert(characters[2] == ";"@);
            if characters.len() == 4 {
                assert(characters[3] == "("@);
            }
        }
    }
}

/// An entry is filtered by the text it inserts. Where that is a name in brackets and quotes, a period
/// and the name take its place; where it is a member of `this`, the entry has no filter of its own. A
/// private name is filtered by what follows `this.` and the number sign in its text, or by the whole
/// text. An entry that has no filter of its own is filtered by its name where it is optional, and
/// has none otherwise.
pub proof fn law_entries_are_filtered_by_text(
    entry: CompletionEntry,
    lines: Seq<text::LineView>,
    info: CompletionInfo,
    settings: CompletionSettings,
    specifier: Seq<char>,
    position: u32,
    shown: Option<ShownSourceView>,
    rest: Seq<char>,
)
    requires
        !rest.contains('#'),
    ensures
        ({
            let item = entry.item_with(lines, info, settings, specifier, position, shown);
            let optional = entry.kind_modifiers matches Some(modifiers) && patterns::modifiers(
                modifiers@,
            ).contains("optional"@);
            let private = entry.name@.len() > 0 && entry.name@[0] == '#';
            let without = if optional {
                Some(entry.name@)
            } else {
                None
            };
            &&& entry.insert_text is None ==> item.filter_text == without
            &&& entry.insert_text matches Some(text) ==> {
                let text = text@;
                let bracketed = text.len() >= 5 && text[0] == '[' && (text[1] == '\'' || text[1]
                    == '"') && (text[text.len() - 2] == '\'' || text[text.len() - 2] == '"'
                    || text[text.len() - 2] == '[') && text.last() == ']' && !text.subrange(
                    2,
                    text.len() - 2,
                ).contains('\n');
                &&& private && text == "this.#"@ + rest ==> item.filter_text == Some(rest)
                &&& private && !"this.#"@.is_prefix_of(text) ==> item.filter_text == Some(text)
                &&& !private && "this."@.is_prefix_of(text) ==> item.filter_text == without
                &&& !private && bracketed ==> item.filter_text == Some(
                    seq!['.'] + text.subrange(2, text.len() - 2),
                )
                &&& !private && !"this."@.is_prefix_of(text) && !bracketed ==> item.filter_text
                    == Some(text)
            }
        }),
{
    reveal_strlit("#");
    reveal_strlit("this.#");
    reveal_strlit("this.");
    reveal_strlit("[");
    reveal_strlit(".");
    reveal_strlit("");
    assert("#"@ =~= seq!['#']);
    assert("."@ =~= seq!['.']);
    if entry.name@.len() > 0 {
        assert(entry.name@.subrange(0, 1) =~= seq![entry.name@[0]]);
        assert("#"@[0] == '#');
        assert(seq![entry.name@[0]][0] == entry.name@[0]);
    }
    assert("#"@.is_prefix_of(entry.name@) <==> entry.name@.len() > 0 && entry.name@[0] == '#');
    if entry.insert_text is Some {
        let text = entry.insert_text->0@;
        if text == "this.#"@ + rest {
            assert(text.subrange(0, 6) =~= "this.#"@);
            assert("this.#"@.is_prefix_of(text));
            assert(text.skip(6) =~= rest);
            assert("this.#"@.contains("this.#"@[5]));
            strings::lemma_nothing_replaced(rest, "this.#"@, ""@, '#');
            assert(""@ + rest =~= rest);
        }
        if text.len() > 0 && text[0] == '[' {
            assert(text.subrange(0, 1) =~= "["@);
            if "this."@.is_prefix_of(text) {
                assert(text.subrange(0, 5)[0] == text[0]);
                assert("this."@[0] == 't');
            }
        }
    }
}

/// An entry that imports nothing is listed as one without a source.
pub proof fn law_entries_without_source(
    entry: CompletionEntry,
    lines: Seq<text::LineView>,
    info: CompletionInfo,
    settings: CompletionSettings,
    specifier: Seq<char>,
    position: u32,
    language_server: Inner,
)
    requires
        entry.source is None,
    ensures
        entry.item(lines, info, settings, specifier, position, language_server) == entry.item_with(
            lines,
            info,
            settings,
            specifier,
            position,
            None,
        ),
        entry.item(
            lines,
            info,
            settings,
            specifier,
            position,
            language_server,
        ).label_details is None,
        entry.item(lines, info, settings, specifier, position, language_server).sort_text == Some(
            entry.sort_text@,
        ),
{
}

/// Only a script is shown with a detail, and only where one of its modifiers is an extension: its
/// name, with the first such extension behind it unless the name ends with it already.
pub proof fn law_scripts_are_shown_with_extension(
    entry: CompletionEntry,
    lines: Seq<text::LineView>,
    info: CompletionInfo,
    settings: CompletionSettings,
    specifier: Seq<char>,
    position: u32,
    shown: Option<ShownSourceView>,
    modifiers: Seq<Seq<char>>,
)
    requires
        modifiers == match entry.kind_modifiers {
            Some(list) => patterns::modifiers(list@),
            None => Seq::empty(),
        },
    ensures
        ({
            let detail = entry.item_with(lines, info, settings, specifier, position, shown).detail;
            let named = |extension: Seq<char>|
                if extension.is_suffix_of(strings::lowercase(entry.name@)) {
                    Some(entry.name@)
                } else {
                    Some(entry.name@ + extension)
                };
            if entry.kind != ScriptElementKind::ScriptElement {
                detail is None
            } else if modifiers.contains(".d.ts"@) {
                detail == named(".d.ts"@)
            } else if modifiers.contains(".ts"@) {
                detail == named(".ts"@)
            } else if modifiers.contains(".tsx"@) {
                detail == named(".tsx"@)
            } else if modifiers.contains(".js"@) {
                detail == named(".js"@)
            } else if modifiers.contains(".jsx"@) {
                detail == named(".jsx"@)
            } else if modifiers.contains(".json"@) {
                detail == named(".json"@)
            } else {
                detail is None
            }
        }),
{
    reveal_with_fuel(extension_detail, 7);
    let all = extensions();
    assert(all.skip(1)[0] == ".ts"@);
    assert(all.skip(1).skip(1)[0] == ".tsx"@);
    assert(all.skip(1).skip(1).skip(1)[0] == ".js"@);
    assert(all.skip(1).skip(1).skip(1).skip(1)[0] == ".jsx"@);
    assert(all.skip(1).skip(1).skip(1).skip(1).skip(1)[0] == ".json"@);
    assert(all.skip(1).skip(1).skip(1).skip(1).skip(1).skip(1).len() == 0);
}

/// A parameter that is filled in is a name among the parts that is neither `this` nor optional.
pub proof fn law_parameters_have_to_be_given(parts: Seq<SymbolDisplayPart>, k: int)
    requires
        0 <= k < parameters_from_parts(parts).len(),
    ensures
        parameters_from_parts(parts)[k] != "this"@,
        exists|i: int|
            {
                &&& 0 <= i < parts.len()
                &&& (#[trigger] parts[i]).kind@ == "parameterName"@
                &&& parts[i].text@ == parameters_from_parts(parts)[k]
                &&& !is_optional(parts, i)
            },
{
    lemma_parameters_have_to_be_given(parts, parts.len(), k);
}

proof fn lemma_parameters_have_to_be_given(parts: Seq<SymbolDisplayPart>, n: nat, k: int)
    requires
        n <= parts.len(),
        0 <= k < read_parameters(parts, n).parameters.len(),
    ensures
        read_parameters(parts, n).parameters[k] != "this"@,
        exists|i: int|
            {
                &&& 0 <= i < parts.len()
                &&& (#[trigger] parts[i]).kind@ == "parameterName"@
                &&& parts[i].text@ == read_parameters(parts, n).parameters[k]
                &&& !is_optional(parts, i)
            },
    decreases n,
{
    if n > 0 {
        let before = read_parameters(parts, (n - 1) as nat);
        if k < before.parameters.len() {
            lemma_parameters_have_to_be_given(parts, (n - 1) as nat, k);
        } else {
            assert(parts[n - 1].kind@ == "parameterName"@);
        }
    }
}

/// How many more of the first parts open a bracket than close it.
pub open spec fn depth(
    parts: Seq<SymbolDisplayPart>,
    n: nat,
    opening: Seq<char>,
    closing: Seq<char>,
) -> int
    decreases n,
{
    if n == 0 {
        0
    } else {
        let part = parts[n - 1];
        depth(parts, (n - 1) as nat, opening, closing) + if part.kind@ != "punctuation"@ {
            0int
        } else if part.text@ == opening {
            1int
        } else if part.text@ == closing {
            -1int
        } else {
            0int
        }
    }
}

proof fn lemma_part_kinds()
    ensures
        "punctuation"@ != "parameterName"@,
        !names_callee("punctuation"@),
        !names_callee("parameterName"@),
        "("@ != ")"@,
        "("@ != "..."@,
        "("@ != "{"@,
        "("@ != "}"@,
        ")"@ != "..."@,
        ")"@ != "{"@,
        ")"@ != "}"@,
        "..."@ != "{"@,
        "..."@ != "}"@,
        "{"@ != "}"@,
{
    reveal_strlit("punctuation");
    reveal_strlit("parameterName");
    reveal_strlit("methodName");
    reveal_strlit("functionName");
    reveal_strlit("text");
    reveal_strlit("propertyName");
    reveal_strlit("(");
    reveal_strlit(")");
    reveal_strlit("{");
    reveal_strlit("}");
    reveal_strlit("...");
    assert("punctuation"@[1] == 'u' && "parameterName"@[1] == 'a' && "propertyName"@[1] == 'r');
    assert("punctuation"@[0] == 'p' && "parameterName"@[0] == 'p');
    assert("methodName"@[0] == 'm' && "functionName"@[0] == 'f' && "text"@[0] == 't');
    assert("("@[0] == '(' && ")"@[0] == ')' && "{"@[0] == '{' && "}"@[0] == '}');
    assert("..."@[0] == '.');
}

proof fn lemma_reading_goes_on(parts: Seq<SymbolDisplayPart>, c: int, n: nat)
    requires
        0 <= c,
        n <= parts.len(),
        c < parts.len(),
        names_callee(parts[c].kind@),
        depth(parts, c as nat, "("@, ")"@) == 0,
        depth(parts, c as nat, "{"@, "}"@) == 0,
        forall|j: int|
            0 <= j < c && names_callee((#[trigger] parts[j]).kind@) ==> depth(
                parts,
                j as nat,
                "("@,
                ")"@,
            ) != 0 || depth(parts, j as nat, "{"@, "}"@) != 0,
        forall|j: int|
            0 <= j < n && (#[trigger] parts[j]).kind@ == "punctuation"@ ==> {
                &&& parts[j].text@ == "..."@ ==> depth(parts, j as nat, "("@, ")"@) != 1
                &&& j > c && parts[j].text@ == ")"@ ==> depth(parts, j as nat, "("@, ")"@) > 1
            },
    ensures
        ({
            let state = read_parameters(parts, n);
            &&& !state.done
            &&& state.parens == depth(parts, n, "("@, ")"@)
            &&& state.braces == depth(parts, n, "{"@, "}"@)
            &&& state.is_in_fn == (n > c)
        }),
    decreases n,
{
    lemma_part_kinds();
    if n > 0 {
        lemma_reading_goes_on(parts, c, (n - 1) as nat);
        let before = read_parameters(parts, (n - 1) as nat);
        assert(read_parameters(parts, n) == read_parameter(before, parts, n - 1));
    }
}

proof fn lemma_parameters_stay(parts: Seq<SymbolDisplayPart>, n: nat, m: nat)
    requires
        n <= m,
    ensures
        read_parameters(parts, n).parameters.is_prefix_of(read_parameters(parts, m).parameters),
    decreases m,
{
    let first = read_parameters(parts, n).parameters;
    if n < m {
        lemma_parameters_stay(parts, n, (m - 1) as nat);
        let before = read_parameters(parts, (m - 1) as nat).parameters;
        let after = read_parameters(parts, m).parameters;
        assert(before.is_prefix_of(after));
        assert(after.subrange(0, first.len() as int) =~= before.subrange(0, first.len() as int));
    } else {
        assert(first.subrange(0, first.len() as int) =~= first);
    }
}

/// Every parameter that has to be given is filled in: a name in the parentheses behind what is called
/// and in no braces or further parentheses, that is neither `this` nor followed by a question mark,
/// where the parentheses are still open and no rest parameter has come before it.
pub proof fn law_required_parameters_are_filled_in(
    parts: Seq<SymbolDisplayPart>,
    callee: int,
    i: int,
)
    requires
        0 <= callee < i < parts.len(),
        parts[callee].kind@ == "functionName"@ || parts[callee].kind@ == "methodName"@
            || parts[callee].kind@ == "propertyName"@ || parts[callee].kind@ == "text"@,
        depth(parts, callee as nat, "("@, ")"@) == 0,
        depth(parts, callee as nat, "{"@, "}"@) == 0,
        forall|j: int|
            0 <= j < callee && names_callee((#[trigger] parts[j]).kind@) ==> depth(
                parts,
                j as nat,
                "("@,
                ")"@,
            ) != 0 || depth(parts, j as nat, "{"@, "}"@) != 0,
        forall|j: int|
            0 <= j < i && (#[trigger] parts[j]).kind@ == "punctuation"@ ==> {
                &&& parts[j].text@ == "..."@ ==> depth(parts, j as nat, "("@, ")"@) != 1
                &&& j > callee && parts[j].text@ == ")"@ ==> depth(parts, j as nat, "("@, ")"@) > 1
            },
        parts[i].kind@ == "parameterName"@,
        parts[i].text@ != "this"@,
        i + 1 < parts.len() ==> parts[i + 1].text@ != "?"@,
        depth(parts, i as nat, "("@, ")"@) == 1,
        depth(parts, i as nat, "{"@, "}"@) == 0,
    ensures
        parameters_from_parts(parts).contains(parts[i].text@),
{
    lemma_part_kinds();
    lemma_reading_goes_on(parts, callee, i as nat);
    let before = read_parameters(parts, i as nat);
    let after = read_parameters(parts, (i + 1) as nat);
    assert(after == read_parameter(before, parts, i));
    let at = before.parameters.len() as int;
    assert(after.parameters == before.parameters.push(parts[i].text@));
    lemma_parameters_stay(parts, (i + 1) as nat, parts.len());
    let all = parameters_from_parts(parts);
    assert(all.subrange(0, after.parameters.len() as int)[at] == all[at]);
    assert(all[at] == parts[i].text@);
}

/// A name that comes earlier among the parts is filled in earlier: what the first parts give comes
/// first.
pub proof fn law_parameters_keep_their_order(parts: Seq<SymbolDisplayPart>, n: nat)
    requires
        n <= parts.len(),
    ensures
        read_parameters(parts, n).parameters.is_prefix_of(parameters_from_parts(parts)),
{
    lemma_parameters_stay(parts, n, parts.len());
}

/// Behind a rest parameter, nothing more is filled in.
pub proof fn law_rest_parameter_ends_the_list(parts: Seq<SymbolDisplayPart>, i: int)
    requires
        0 <= i < parts.len(),
        parts[i].kind@ == "punctuation"@,
        parts[i].text@ == "..."@,
        read_parameters(parts, i as nat).parens == 1,
    ensures
        parameters_from_parts(parts) == read_parameters(parts, i as nat).parameters,
{
    reveal_strlit("...");
    reveal_strlit("(");
    reveal_strlit(")");
    reveal_strlit("punctuation");
    reveal_strlit("parameterName");
    reveal_strlit("methodName");
    reveal_strlit("functionName");
    reveal_strlit("text");
    reveal_strlit("propertyName");
    assert("..."@.len() == 3);
    let before = read_parameters(parts, i as nat);
    let after = read_parameters(parts, (i + 1) as nat);
    if !before.done {
        assert("punctuation"@[0] == 'p' && "punctuation"@[1] == 'u');
        assert("parameterName"@[1] == 'a');
        assert("propertyName"@[1] == 'r');
        assert("methodName"@[0] == 'm');
        assert("functionName"@[0] == 'f');
        assert("text"@[0] == 't');
        assert(after == read_parameter(before, parts, i));
        assert(after.done);
    }
    if before.done {
        lemma_done(parts, i as nat, parts.len());
    } else {
        lemma_done(parts, (i + 1) as nat, parts.len());
    }
}

/// Resolving a completion changes nothing of how it is listed: its label, its kind, and what it is
/// sorted and filtered by.
pub proof fn law_resolving_keeps_the_listing(
    details: CompletionEntryDetails,
    original: lsp::CompletionItemView,
    data: ItemDataView,
    actions: ActionsView,
    language_server: Inner,
)
    ensures
        ({
            let item = details.item(original, data, actions, language_server);
            &&& item.label == original.label
            &&& item.label_details == original.label_details
            &&& item.kind == original.kind
            &&& item.sort_text == original.sort_text
            &&& item.filter_text == original.filter_text
            &&& item.preselect == original.preselect
            &&& item.tags == original.tags
            &&& original.detail is Some ==> item.detail == original.detail
            &&& !data.use_code_snippet ==> item.insert_text == original.insert_text
            &&& data.specifier_rewrite is None ==> item.text_edit == original.text_edit
        }),
{
}

/// Where the module is imported under the specifier that the compiler uses, nothing is rewritten.
pub proof fn law_same_specifier_needs_no_rewrite(
    entry: CompletionEntry,
    source: Seq<char>,
    specifier: Seq<char>,
    language_server: Inner,
)
    requires
        entry.data matches Some(data) && data.import matches Some(import)
            && import.module_specifier@ == entry.shown_source(
            source,
            specifier,
            language_server,
        ).display,
    ensures
        entry.shown_source(source, specifier, language_server).rewrite is None,
{
}

/// The names of the files that the actions of a completion change are read, and nothing else of what the
/// compiler tells of it changes.
pub proof fn law_details_are_kept(a: CompletionEntryDetails, b: CompletionEntryDetails)
    ensures
        a.code_actions is None ==> a.file_names().len() == 0,
        a.code_actions matches Some(actions) ==> a.file_names() == normalize::all_names(actions@),
        a.same_but_names(&b) ==> {
            &&& a.display_parts == b.display_parts
            &&& a.documentation == b.documentation
            &&& a.tags == b.tags
            &&& a.name == b.name
            &&& a.kind == b.kind
            &&& a.kind_modifiers == b.kind_modifiers
            &&& a.source_display == b.source_display
            &&& a.code_actions is Some <==> b.code_actions is Some
        },
{
}

/// What is said of a [`CompletionItemData`] is said of each of its fields.
pub proof fn law_completion_item_data_is_seen_whole(value: CompletionItemData)
    ensures
        value@.specifier == value.specifier@,
        value@.position == value.position,
        value@.name == value.name@,
        value.source is None <==> value@.source is None,
        value.source matches Some(held) ==> value@.source == Some(held@),
        value.specifier_rewrite is None <==> value@.specifier_rewrite is None,
        value.specifier_rewrite matches Some((from, to)) ==> value@.specifier_rewrite == Some(
            (from@, to@),
        ),
        value.data is None <==> value@.data is None,
        value.data matches Some(held) ==> value@.data == Some(held@),
        value@.use_code_snippet == value.use_code_snippet,
{
}

} // verus!
