//! The requests that are made of the compiler, and what is done with its replies.

use vstd::prelude::*;
use vstd::string::*;
use crate::completion::{CompletionEntryDetails, CompletionInfo, GetCompletionDetailsArgs};
use crate::diagnostics;
use crate::diagnostics::{diagnostics_by_module, ModuleDiagnostics};
use crate::display::QuickInfo;
use crate::edits::{CodeFixAction, CombinedCodeActions, FileTextChanges, RefactorEditInfo};
use crate::element::OneOrMany;
use crate::error::{LspError, TscError};
use crate::hierarchy::{CallHierarchyIncomingCall, CallHierarchyItem, CallHierarchyOutgoingCall};
use crate::locations::{
    DefinitionInfo, DefinitionInfoAndBoundSpan, DocumentHighlights, ImplementationLocation,
    ReferencedSymbol, RenameLocation,
};
use crate::navigation::{InlayHint, NavigateToItem};
use crate::normalize;
use crate::normalize::Named;
use crate::outlining::{OutliningSpan, SelectionRange};
use crate::preferences;
use crate::preferences::{
    FormatCodeSettings, GetCompletionsAtPositionOptions, GetNavigateToItemsArgs,
    SignatureHelpItemsOptions, UserPreferences,
};
use crate::refactor::ApplicableRefactorInfo;
use crate::semantic_tokens::Classifications;
use crate::signature::SignatureHelpItems;
use crate::span::TextSpan;
use crate::specifier;
use crate::specifier::ModuleSpecifier;
use crate::specifier_map;
use crate::specifier_map::TscSpecifierMap;
use crate::views;

verus! {

/// A range of offsets.
#[derive(Debug, Clone, Copy, PartialEq, Eq, Structural)]
pub struct TextRange {
    pub pos: u32,
    pub end: u32,
}

/// An argument of a request.
#[derive(Debug)]
pub enum RequestArg {
    Null,
    Bool(bool),
    Number(u32),
    MaybeNumber(Option<u32>),
    Text(String),
    MaybeText(Option<String>),
    Texts(Vec<String>),
    /// A JSON text.
    Json(String),
    /// A JSON text, where there is one.
    MaybeJson(Option<String>),
    Span(TextSpan),
    Range(TextRange),
    /// One file, by its name.
    FileScope(String),
    Format(FormatCodeSettings),
    Preferences(UserPreferences),
    MaybePreferences(Option<UserPreferences>),
    CompletionOptions(GetCompletionsAtPositionOptions),
    SignatureOptions(SignatureHelpItemsOptions),
}

impl RequestArg {
    /// The text of an argument that is one.
    pub open spec fn text(self) -> Seq<char> {
        match self {
            RequestArg::Text(text) => text@,
            RequestArg::FileScope(text) => text@,
            _ => Seq::empty(),
        }
    }

    /// The texts of an argument that is a list of them.
    pub open spec fn texts(self) -> Seq<Seq<char>> {
        match self {
            RequestArg::Texts(texts) => views::seq_view(texts@),
            _ => Seq::empty(),
        }
    }
}

/// A request of the compiler.
#[derive(Debug)]
pub struct TscRequest {
    pub method: &'static str,
    pub args: Vec<RequestArg>,
}

/// An argument is a name that a specifier may be given.
pub open spec fn is_name(
    map: specifier_map::SpecifierMapView,
    specifier: Seq<char>,
    arg: RequestArg,
) -> bool {
    arg matches RequestArg::Text(name) && map.may_name(specifier, name@)
}

/// What is made of a reply: its error, or the value with specifiers in the place of the file names,
/// or the error of the first name that is no URL.
pub open spec fn is_read<T: Named>(
    before: specifier_map::SpecifierMapView,
    reply: Result<T, TscError>,
    after: specifier_map::SpecifierMapView,
    r: Result<T, TscError>,
) -> bool {
    match reply {
        Ok(value) => {
            let reading = normalize::reading(before, value.file_names());
            &&& after == reading.map
            &&& match r {
                Ok(read) => reading.ok && read.file_names() == reading.names
                    && read.same_but_names(&value),
                Err(err) => !reading.ok && err == TscError::InvalidUrl,
            }
        },
        Err(error) => after == before && r == Err::<T, TscError>(error),
    }
}

/// What is answered to the client for a reply: an error where there is one, or the value with
/// specifiers in the place of the file names.
pub open spec fn is_answer<T: Named>(
    before: specifier_map::SpecifierMapView,
    reply: Result<T, TscError>,
    after: specifier_map::SpecifierMapView,
    r: Result<T, LspError>,
    error: LspError,
) -> bool {
    match reply {
        Ok(value) => {
            let reading = normalize::reading(before, value.file_names());
            &&& after == reading.map
            &&& match r {
                Ok(read) => reading.ok && read.file_names() == reading.names
                    && read.same_but_names(&value),
                Err(err) => !reading.ok && err == error,
            }
        },
        Err(_) => after == before && r == Err::<T, LspError>(error),
    }
}

/// A reply with the error that is answered to the client in the place of its own.
pub open spec fn passed_on<T>(reply: Result<T, TscError>, error: LspError) -> Result<T, LspError> {
    match reply {
        Ok(value) => Ok(value),
        Err(_) => Err(error),
    }
}

/// A reply with the error that is answered to the client in the place of its own.
fn pass_on<T>(reply: Result<T, TscError>, error: LspError) -> (r: Result<T, LspError>)
    ensures
        r == passed_on(reply, error),
{
    match reply {
        Ok(value) => Ok(value),
        Err(_) => Err(error),
    }
}

/// The bridge to the compiler.
#[derive(Debug)]
pub struct TsServer {
    pub specifier_map: TscSpecifierMap,
    pub project_version: usize,
}

impl TsServer {
    /// A bridge over which nothing has gone yet.
    pub fn new() -> (r: TsServer)
        ensures
            r.specifier_map@.normalized == specifier_map::no_texts(),
            r.specifier_map@.denormalized == specifier_map::no_texts(),
            r.project_version == 1,
    {
        TsServer { specifier_map: TscSpecifierMap::new(), project_version: 1 }
    }

    /// Marks the project as changed. The version begins again at zero behind the greatest.
    pub fn increment_project_version(&mut self)
        ensures
            final(self).project_version == (if old(self).project_version == usize::MAX {
                0
            } else {
                old(self).project_version + 1
            }),
            final(self).specifier_map == old(self).specifier_map,
    {
        self.project_version = self.project_version.wrapping_add(1);
    }

    /// What is made of a reply.
    fn read<T: Named>(&mut self, reply: Result<T, TscError>) -> (r: Result<T, TscError>)
        ensures
            is_read(old(self).specifier_map@, reply, final(self).specifier_map@, r),
            final(self).project_version == old(self).project_version,
    {
        match reply {
            Ok(value) => {
                let mut value = value;
                match value.normalize(&mut self.specifier_map) {
                    Ok(()) => Ok(value),
                    Err(err) => Err(err),
                }
            },
            Err(err) => Err(err),
        }
    }

    /// What is answered to the client for a reply.
    fn answer<T: Named>(&mut self, reply: Result<T, TscError>, error: LspError) -> (r: Result<
        T,
        LspError,
    >)
        ensures
            is_answer(old(self).specifier_map@, reply, final(self).specifier_map@, r, error),
            final(self).project_version == old(self).project_version,
    {
        match self.read(reply) {
            Ok(value) => Ok(value),
            Err(_) => Err(error),
        }
    }

    /// Asks for the diagnostics of modules.
    pub fn get_diagnostics(&mut self, specifiers: &Vec<ModuleSpecifier>) -> (r: TscRequest)
        ensures
            r.method@ == "$getDiagnostics"@,
            r.args@.len() == 1,
            r.args@[0] matches RequestArg::Texts(names) && specifier_map::may_name_all(
                old(self).specifier_map@,
                views::seq_view(specifiers@),
                views::seq_view(names@),
            ),
            final(self).specifier_map@ == specifier_map::after_names(
                old(self).specifier_map@,
                views::seq_view(specifiers@),
                r.args@[0].texts(),
            ),
            final(self).project_version == old(self).project_version,
    {
        let mut args: Vec<RequestArg> = Vec::new();
        args.push(RequestArg::Texts(self.specifier_map.denormalize_all(specifiers)));
        TscRequest { method: "$getDiagnostics", args }
    }

    /// Takes the diagnostics that the compiler answered with, with specifiers in the place of the
    /// file names; of two lists for the same module, the later. The error is that of the compiler
    /// or of the first name that is no URL.
    pub fn get_diagnostics_reply(&mut self, reply: Result<Vec<ModuleDiagnostics>, TscError>) -> (r:
        Result<Vec<ModuleDiagnostics>, TscError>)
        ensures
            exists|read: Result<Vec<ModuleDiagnostics>, TscError>|
                {
                    &&& #[trigger] is_read(
                        old(self).specifier_map@,
                        reply,
                        final(self).specifier_map@,
                        read,
                    )
                    &&& match read {
                        Ok(list) => r matches Ok(out) && out@ == diagnostics::by_module(list@),
                        Err(err) => r == Err::<Vec<ModuleDiagnostics>, TscError>(err),
                    }
                },
            final(self).project_version == old(self).project_version,
    {
        let read = self.read(reply);
        let ghost seen = read;
        assert(is_read(old(self).specifier_map@, reply, self.specifier_map@, seen));
        match read {
            Ok(list) => Ok(diagnostics_by_module(list)),
            Err(err) => Err(err),
        }
    }

    /// Asks for the symbols that match a search, in one file where one is given.
    pub fn get_navigate_to_items(&mut self, args: GetNavigateToItemsArgs) -> (r: TscRequest)
        ensures
            r.method@ == "getNavigateToItems"@,
            r.args@.len() == 3,
            r.args@[0] == RequestArg::Text(args.search),
            r.args@[1] == RequestArg::MaybeNumber(args.max_result_count),
            ({
                let before = old(self).specifier_map@;
                let after = final(self).specifier_map@;
                match args.file {
                    Some(file) => match specifier::parsed_url(file@) {
                        Some(href) => r.args@[2] matches RequestArg::MaybeText(Some(name))
                            && before.may_name(href, name@) && after == before.after_name(
                            href,
                            name@,
                        ),
                        None => r.args@[2] == RequestArg::MaybeText(Some(file)) && after == before,
                    },
                    None => r.args@[2] == RequestArg::MaybeText(None) && after == before,
                }
            }),
            final(self).project_version == old(self).project_version,
    {
        let file = match args.file {
            Some(file) => match ModuleSpecifier::parse(file.as_str()) {
                Ok(specifier) => Some(self.specifier_map.denormalize(&specifier)),
                Err(_) => Some(file),
            },
            None => None,
        };
        let mut list: Vec<RequestArg> = Vec::new();
        list.push(RequestArg::Text(args.search));
        list.push(RequestArg::MaybeNumber(args.max_result_count));
        list.push(RequestArg::MaybeText(file));
        TscRequest { method: "getNavigateToItems", args: list }
    }

    /// Asks for the places that refer to what stands at a position.
    pub fn find_references(
        &mut self,
        specifier: &ModuleSpecifier,
        position: u32,
    ) -> (r: TscRequest)
        ensures
            r.method@ == "findReferences"@,
            r.args@.len() == 2,
            is_name(old(self).specifier_map@, specifier@, r.args@[0]),
            r.args@[1] == RequestArg::Number(position),
            final(self).specifier_map@ == old(self).specifier_map@.after_name(specifier@, r.args@[0].text()),
            final(self).project_version == old(self).project_version,
    {
        let mut list: Vec<RequestArg> = Vec::new();
        list.push(RequestArg::Text(self.specifier_map.denormalize(specifier)));
        list.push(RequestArg::Number(position));
        TscRequest { method: "findReferences", args: list }
    }

    /// Asks for the navigation tree of a module.
    pub fn get_navigation_tree(&mut self, specifier: &ModuleSpecifier) -> (r: TscRequest)
        ensures
            r.method@ == "getNavigationTree"@,
            r.args@.len() == 1,
            is_name(old(self).specifier_map@, specifier@, r.args@[0]),
            final(self).specifier_map@ == old(self).specifier_map@.after_name(specifier@, r.args@[0].text()),
            final(self).project_version == old(self).project_version,
    {
        let mut list: Vec<RequestArg> = Vec::new();
        list.push(RequestArg::Text(self.specifier_map.denormalize(specifier)));
        TscRequest { method: "getNavigationTree", args: list }
    }

    /// Asks for a compilation with options, which are a JSON text.
    pub fn configure(&self, tsconfig: String) -> (r: TscRequest)
        ensures
            r.method@ == "$configure"@,
            r.args@.len() == 1,
            r.args@[0] == RequestArg::Json(tsconfig),
    {
        let mut list: Vec<RequestArg> = Vec::new();
        list.push(RequestArg::Json(tsconfig));
        TscRequest { method: "$configure", args: list }
    }

    /// Asks for the codes of the diagnostics that can be fixed.
    pub fn get_supported_code_fixes(&self) -> (r: TscRequest)
        ensures
            r.method@ == "$getSupportedCodeFixes"@,
            r.args@.len() == 0,
    {
        let list: Vec<RequestArg> = Vec::new();
        TscRequest { method: "$getSupportedCodeFixes", args: list }
    }

    /// Asks for what there is to tell of what stands at a position.
    pub fn get_quick_info(&mut self, specifier: &ModuleSpecifier, position: u32) -> (r: TscRequest)
        ensures
            r.method@ == "getQuickInfoAtPosition"@,
            r.args@.len() == 2,
            is_name(old(self).specifier_map@, specifier@, r.args@[0]),
            r.args@[1] == RequestArg::Number(position),
            final(self).specifier_map@ == old(self).specifier_map@.after_name(specifier@, r.args@[0].text()),
            final(self).project_version == old(self).project_version,
    {
        let mut list: Vec<RequestArg> = Vec::new();
        list.push(RequestArg::Text(self.specifier_map.denormalize(specifier)));
        list.push(RequestArg::Number(position));
        TscRequest { method: "getQuickInfoAtPosition", args: list }
    }

    /// Asks for the fixes for diagnostics in a range.
    pub fn get_code_fixes(
        &mut self,
        specifier: &ModuleSpecifier,
        range: TextRange,
        codes: Vec<String>,
        format_code_settings: FormatCodeSettings,
        preferences: UserPreferences,
    ) -> (r: TscRequest)
        ensures
            r.method@ == "getCodeFixesAtPosition"@,
            r.args@.len() == 6,
            is_name(old(self).specifier_map@, specifier@, r.args@[0]),
            r.args@[1] == RequestArg::Number(range.pos),
            r.args@[2] == RequestArg::Number(range.end),
            r.args@[3] == RequestArg::Texts(codes),
            r.args@[4] == RequestArg::Format(format_code_settings),
            r.args@[5] == RequestArg::Preferences(preferences),
            final(self).specifier_map@ == old(self).specifier_map@.after_name(specifier@, r.args@[0].text()),
            final(self).project_version == old(self).project_version,
    {
        let mut list: Vec<RequestArg> = Vec::new();
        list.push(RequestArg::Text(self.specifier_map.denormalize(specifier)));
        list.push(RequestArg::Number(range.pos));
        list.push(RequestArg::Number(range.end));
        list.push(RequestArg::Texts(codes));
        list.push(RequestArg::Format(format_code_settings));
        list.push(RequestArg::Preferences(preferences));
        TscRequest { method: "getCodeFixesAtPosition", args: list }
    }

    /// Asks for the refactors that apply to a range.
    pub fn get_applicable_refactors(
        &mut self,
        specifier: &ModuleSpecifier,
        range: TextRange,
        preferences: Option<UserPreferences>,
        only: String,
    ) -> (r: TscRequest)
        ensures
            r.method@ == "getApplicableRefactors"@,
            r.args@.len() == 5,
            is_name(old(self).specifier_map@, specifier@, r.args@[0]),
            r.args@[1] == RequestArg::Range(range),
            r.args@[2] == RequestArg::Preferences(match preferences {
                Some(preferences) => preferences,
                None => preferences::no_preferences(),
            }),
            r.args@[3] == RequestArg::Null,
            r.args@[4] == RequestArg::Text(only),
            final(self).specifier_map@ == old(self).specifier_map@.after_name(specifier@, r.args@[0].text()),
            final(self).project_version == old(self).project_version,
    {
        let mut list: Vec<RequestArg> = Vec::new();
        list.push(RequestArg::Text(self.specifier_map.denormalize(specifier)));
        list.push(RequestArg::Range(range));
        list.push(RequestArg::Preferences(match preferences {
            Some(preferences) => preferences,
            None => UserPreferences::default(),
        }));
        list.push(RequestArg::Null);
        list.push(RequestArg::Text(only));
        TscRequest { method: "getApplicableRefactors", args: list }
    }

    /// Asks for the fix for every diagnostic of one sort in a file.
    pub fn get_combined_code_fix(
        &mut self,
        specifier: &ModuleSpecifier,
        fix_id: String,
        format_code_settings: FormatCodeSettings,
        preferences: UserPreferences,
    ) -> (r: TscRequest)
        ensures
            r.method@ == "getCombinedCodeFix"@,
            r.args@.len() == 4,
            r.args@[0] matches RequestArg::FileScope(name) && old(self).specifier_map@.may_name(
                specifier@,
                name@,
            ),
            r.args@[1] == RequestArg::Text(fix_id),
            r.args@[2] == RequestArg::Format(format_code_settings),
            r.args@[3] == RequestArg::Preferences(preferences),
            final(self).specifier_map@ == old(self).specifier_map@.after_name(specifier@, r.args@[0].text()),
            final(self).project_version == old(self).project_version,
    {
        let mut list: Vec<RequestArg> = Vec::new();
        list.push(RequestArg::FileScope(self.specifier_map.denormalize(specifier)));
        list.push(RequestArg::Text(fix_id));
        list.push(RequestArg::Format(format_code_settings));
        list.push(RequestArg::Preferences(preferences));
        TscRequest { method: "getCombinedCodeFix", args: list }
    }

    /// Asks for the changes that a refactor makes.
    pub fn get_edits_for_refactor(
        &mut self,
        specifier: &ModuleSpecifier,
        format_code_settings: FormatCodeSettings,
        range: TextRange,
        refactor_name: String,
        action_name: String,
        preferences: Option<UserPreferences>,
    ) -> (r: TscRequest)
        ensures
            r.method@ == "getEditsForRefactor"@,
            r.args@.len() == 6,
            is_name(old(self).specifier_map@, specifier@, r.args@[0]),
            r.args@[1] == RequestArg::Format(format_code_settings),
            r.args@[2] == RequestArg::Range(range),
            r.args@[3] == RequestArg::Text(refactor_name),
            r.args@[4] == RequestArg::Text(action_name),
            r.args@[5] == RequestArg::MaybePreferences(preferences),
            final(self).specifier_map@ == old(self).specifier_map@.after_name(specifier@, r.args@[0].text()),
            final(self).project_version == old(self).project_version,
    {
        let mut list: Vec<RequestArg> = Vec::new();
        list.push(RequestArg::Text(self.specifier_map.denormalize(specifier)));
        list.push(RequestArg::Format(format_code_settings));
        list.push(RequestArg::Range(range));
        list.push(RequestArg::Text(refactor_name));
        list.push(RequestArg::Text(action_name));
        list.push(RequestArg::MaybePreferences(preferences));
        TscRequest { method: "getEditsForRefactor", args: list }
    }

    /// Asks for the changes that renaming a file makes.
    pub fn get_edits_for_file_rename(
        &mut self,
        old_specifier: &ModuleSpecifier,
        new_specifier: &ModuleSpecifier,
        format_code_settings: FormatCodeSettings,
        user_preferences: UserPreferences,
    ) -> (r: TscRequest)
        ensures
            r.method@ == "getEditsForFileRename"@,
            r.args@.len() == 4,
            is_name(old(self).specifier_map@, old_specifier@, r.args@[0]),
            is_name(
                old(self).specifier_map@.after_name(old_specifier@, r.args@[0].text()),
                new_specifier@,
                r.args@[1],
            ),
            r.args@[2] == RequestArg::Format(format_code_settings),
            r.args@[3] == RequestArg::Preferences(user_preferences),
            final(self).specifier_map@ == old(self).specifier_map@.after_name(
                old_specifier@,
                r.args@[0].text(),
            ).after_name(new_specifier@, r.args@[1].text()),
            final(self).project_version == old(self).project_version,
    {
        let mut list: Vec<RequestArg> = Vec::new();
        list.push(RequestArg::Text(self.specifier_map.denormalize(old_specifier)));
        list.push(RequestArg::Text(self.specifier_map.denormalize(new_specifier)));
        list.push(RequestArg::Format(format_code_settings));
        list.push(RequestArg::Preferences(user_preferences));
        TscRequest { method: "getEditsForFileRename", args: list }
    }

    /// Asks for what is highlighted with what stands at a position.
    pub fn get_document_highlights(
        &mut self,
        specifier: &ModuleSpecifier,
        position: u32,
        files_to_search: &Vec<ModuleSpecifier>,
    ) -> (r: TscRequest)
        ensures
            r.method@ == "getDocumentHighlights"@,
            r.args@.len() == 3,
            is_name(old(self).specifier_map@, specifier@, r.args@[0]),
            r.args@[1] == RequestArg::Number(position),
            r.args@[2] matches RequestArg::Texts(names) && specifier_map::may_name_all(
                old(self).specifier_map@.after_name(specifier@, r.args@[0].text()),
                views::seq_view(files_to_search@),
                views::seq_view(names@),
            ),
            final(self).specifier_map@ == specifier_map::after_names(
                old(self).specifier_map@.after_name(specifier@, r.args@[0].text()),
                views::seq_view(files_to_search@),
                r.args@[2].texts(),
            ),
            final(self).project_version == old(self).project_version,
    {
        let mut list: Vec<RequestArg> = Vec::new();
        list.push(RequestArg::Text(self.specifier_map.denormalize(specifier)));
        list.push(RequestArg::Number(position));
        list.push(RequestArg::Texts(self.specifier_map.denormalize_all(files_to_search)));
        TscRequest { method: "getDocumentHighlights", args: list }
    }

    /// Asks for the definitions of what stands at a position.
    pub fn get_definition(&mut self, specifier: &ModuleSpecifier, position: u32) -> (r: TscRequest)
        ensures
            r.method@ == "getDefinitionAndBoundSpan"@,
            r.args@.len() == 2,
            is_name(old(self).specifier_map@, specifier@, r.args@[0]),
            r.args@[1] == RequestArg::Number(position),
            final(self).specifier_map@ == old(self).specifier_map@.after_name(specifier@, r.args@[0].text()),
            final(self).project_version == old(self).project_version,
    {
        let mut list: Vec<RequestArg> = Vec::new();
        list.push(RequestArg::Text(self.specifier_map.denormalize(specifier)));
        list.push(RequestArg::Number(position));
        TscRequest { method: "getDefinitionAndBoundSpan", args: list }
    }

    /// Asks for the definitions of the type of what stands at a position.
    pub fn get_type_definition(
        &mut self,
        specifier: &ModuleSpecifier,
        position: u32,
    ) -> (r: TscRequest)
        ensures
            r.method@ == "getTypeDefinitionAtPosition"@,
            r.args@.len() == 2,
            is_name(old(self).specifier_map@, specifier@, r.args@[0]),
            r.args@[1] == RequestArg::Number(position),
            final(self).specifier_map@ == old(self).specifier_map@.after_name(specifier@, r.args@[0].text()),
            final(self).project_version == old(self).project_version,
    {
        let mut list: Vec<RequestArg> = Vec::new();
        list.push(RequestArg::Text(self.specifier_map.denormalize(specifier)));
        list.push(RequestArg::Number(position));
        TscRequest { method: "getTypeDefinitionAtPosition", args: list }
    }

    /// Asks for the completions at a position.
    pub fn get_completions(
        &mut self,
        specifier: &ModuleSpecifier,
        position: u32,
        options: GetCompletionsAtPositionOptions,
        format_code_settings: FormatCodeSettings,
    ) -> (r: TscRequest)
        ensures
            r.method@ == "getCompletionsAtPosition"@,
            r.args@.len() == 4,
            is_name(old(self).specifier_map@, specifier@, r.args@[0]),
            r.args@[1] == RequestArg::Number(position),
            r.args@[2] == RequestArg::CompletionOptions(options),
            r.args@[3] == RequestArg::Format(format_code_settings),
            final(self).specifier_map@ == old(self).specifier_map@.after_name(specifier@, r.args@[0].text()),
            final(self).project_version == old(self).project_version,
    {
        let mut list: Vec<RequestArg> = Vec::new();
        list.push(RequestArg::Text(self.specifier_map.denormalize(specifier)));
        list.push(RequestArg::Number(position));
        list.push(RequestArg::CompletionOptions(options));
        list.push(RequestArg::Format(format_code_settings));
        TscRequest { method: "getCompletionsAtPosition", args: list }
    }

    /// Asks for the details of one completion.
    pub fn get_completion_details(&mut self, args: GetCompletionDetailsArgs) -> (r: TscRequest)
        ensures
            r.method@ == "getCompletionEntryDetails"@,
            r.args@.len() == 7,
            is_name(old(self).specifier_map@, args.specifier@, r.args@[0]),
            r.args@[1] == RequestArg::Number(args.position),
            r.args@[2] == RequestArg::Text(args.name),
            r.args@[3] == RequestArg::Format(match args.format_code_settings {
                Some(settings) => settings,
                None => preferences::no_format(),
            }),
            r.args@[4] == RequestArg::MaybeText(args.source),
            r.args@[5] == RequestArg::MaybePreferences(args.preferences),
            r.args@[6] == RequestArg::MaybeJson(args.data),
            final(self).specifier_map@ == old(self).specifier_map@.after_name(
                args.specifier@,
                r.args@[0].text(),
            ),
            final(self).project_version == old(self).project_version,
    {
        let mut list: Vec<RequestArg> = Vec::new();
        list.push(RequestArg::Text(self.specifier_map.denormalize(&args.specifier)));
        list.push(RequestArg::Number(args.position));
        list.push(RequestArg::Text(args.name));
        list.push(RequestArg::Format(match args.format_code_settings {
            Some(settings) => settings,
            None => FormatCodeSettings::default(),
        }));
        list.push(RequestArg::MaybeText(args.source));
        list.push(RequestArg::MaybePreferences(args.preferences));
        list.push(RequestArg::MaybeJson(args.data));
        TscRequest { method: "getCompletionEntryDetails", args: list }
    }

    /// Asks for the implementations of what stands at a position.
    pub fn get_implementations(
        &mut self,
        specifier: &ModuleSpecifier,
        position: u32,
    ) -> (r: TscRequest)
        ensures
            r.method@ == "getImplementationAtPosition"@,
            r.args@.len() == 2,
            is_name(old(self).specifier_map@, specifier@, r.args@[0]),
            r.args@[1] == RequestArg::Number(position),
            final(self).specifier_map@ == old(self).specifier_map@.after_name(specifier@, r.args@[0].text()),
            final(self).project_version == old(self).project_version,
    {
        let mut list: Vec<RequestArg> = Vec::new();
        list.push(RequestArg::Text(self.specifier_map.denormalize(specifier)));
        list.push(RequestArg::Number(position));
        TscRequest { method: "getImplementationAtPosition", args: list }
    }

    /// Asks for the spans of a module that can be folded.
    pub fn get_outlining_spans(&mut self, specifier: &ModuleSpecifier) -> (r: TscRequest)
        ensures
            r.method@ == "getOutliningSpans"@,
            r.args@.len() == 1,
            is_name(old(self).specifier_map@, specifier@, r.args@[0]),
            final(self).specifier_map@ == old(self).specifier_map@.after_name(specifier@, r.args@[0].text()),
            final(self).project_version == old(self).project_version,
    {
        let mut list: Vec<RequestArg> = Vec::new();
        list.push(RequestArg::Text(self.specifier_map.denormalize(specifier)));
        TscRequest { method: "getOutliningSpans", args: list }
    }

    /// Asks for the calls of what stands at a position.
    pub fn provide_call_hierarchy_incoming_calls(
        &mut self,
        specifier: &ModuleSpecifier,
        position: u32,
    ) -> (r: TscRequest)
        ensures
            r.method@ == "provideCallHierarchyIncomingCalls"@,
            r.args@.len() == 2,
            is_name(old(self).specifier_map@, specifier@, r.args@[0]),
            r.args@[1] == RequestArg::Number(position),
            final(self).specifier_map@ == old(self).specifier_map@.after_name(specifier@, r.args@[0].text()),
            final(self).project_version == old(self).project_version,
    {
        let mut list: Vec<RequestArg> = Vec::new();
        list.push(RequestArg::Text(self.specifier_map.denormalize(specifier)));
        list.push(RequestArg::Number(position));
        TscRequest { method: "provideCallHierarchyIncomingCalls", args: list }
    }

    /// Asks for the calls that what stands at a position makes.
    pub fn provide_call_hierarchy_outgoing_calls(
        &mut self,
        specifier: &ModuleSpecifier,
        position: u32,
    ) -> (r: TscRequest)
        ensures
            r.method@ == "provideCallHierarchyOutgoingCalls"@,
            r.args@.len() == 2,
            is_name(old(self).specifier_map@, specifier@, r.args@[0]),
            r.args@[1] == RequestArg::Number(position),
            final(self).specifier_map@ == old(self).specifier_map@.after_name(specifier@, r.args@[0].text()),
            final(self).project_version == old(self).project_version,
    {
        let mut list: Vec<RequestArg> = Vec::new();
        list.push(RequestArg::Text(self.specifier_map.denormalize(specifier)));
        list.push(RequestArg::Number(position));
        TscRequest { method: "provideCallHierarchyOutgoingCalls", args: list }
    }

    /// Asks for the items of the call hierarchy at a position.
    pub fn prepare_call_hierarchy(
        &mut self,
        specifier: &ModuleSpecifier,
        position: u32,
    ) -> (r: TscRequest)
        ensures
            r.method@ == "prepareCallHierarchy"@,
            r.args@.len() == 2,
            is_name(old(self).specifier_map@, specifier@, r.args@[0]),
            r.args@[1] == RequestArg::Number(position),
            final(self).specifier_map@ == old(self).specifier_map@.after_name(specifier@, r.args@[0].text()),
            final(self).project_version == old(self).project_version,
    {
        let mut list: Vec<RequestArg> = Vec::new();
        list.push(RequestArg::Text(self.specifier_map.denormalize(specifier)));
        list.push(RequestArg::Number(position));
        TscRequest { method: "prepareCallHierarchy", args: list }
    }

    /// Asks for the places where what stands at a position occurs, without those in strings and
    /// comments.
    pub fn find_rename_locations(
        &mut self,
        specifier: &ModuleSpecifier,
        position: u32,
    ) -> (r: TscRequest)
        ensures
            r.method@ == "findRenameLocations"@,
            r.args@.len() == 5,
            is_name(old(self).specifier_map@, specifier@, r.args@[0]),
            r.args@[1] == RequestArg::Number(position),
            r.args@[2] == RequestArg::Bool(false),
            r.args@[3] == RequestArg::Bool(false),
            r.args@[4] == RequestArg::Bool(false),
            final(self).specifier_map@ == old(self).specifier_map@.after_name(specifier@, r.args@[0].text()),
            final(self).project_version == old(self).project_version,
    {
        let mut list: Vec<RequestArg> = Vec::new();
        list.push(RequestArg::Text(self.specifier_map.denormalize(specifier)));
        list.push(RequestArg::Number(position));
        list.push(RequestArg::Bool(false));
        list.push(RequestArg::Bool(false));
        list.push(RequestArg::Bool(false));
        TscRequest { method: "findRenameLocations", args: list }
    }

    /// Asks for the ranges that can be selected at a position.
    pub fn get_smart_selection_range(
        &mut self,
        specifier: &ModuleSpecifier,
        position: u32,
    ) -> (r: TscRequest)
        ensures
            r.method@ == "getSmartSelectionRange"@,
            r.args@.len() == 2,
            is_name(old(self).specifier_map@, specifier@, r.args@[0]),
            r.args@[1] == RequestArg::Number(position),
            final(self).specifier_map@ == old(self).specifier_map@.after_name(specifier@, r.args@[0].text()),
            final(self).project_version == old(self).project_version,
    {
        let mut list: Vec<RequestArg> = Vec::new();
        list.push(RequestArg::Text(self.specifier_map.denormalize(specifier)));
        list.push(RequestArg::Number(position));
        TscRequest { method: "getSmartSelectionRange", args: list }
    }

    /// Asks for the classifications in a range.
    pub fn get_encoded_semantic_classifications(
        &mut self,
        specifier: &ModuleSpecifier,
        range: TextRange,
    ) -> (r: TscRequest)
        requires
            range.pos <= range.end,
        ensures
            r.method@ == "getEncodedSemanticClassifications"@,
            r.args@.len() == 3,
            is_name(old(self).specifier_map@, specifier@, r.args@[0]),
            r.args@[1] == RequestArg::Span(
                TextSpan { start: range.pos, length: (range.end - range.pos) as u32 },
            ),
            r.args@[2] matches RequestArg::Text(text) && text@ == "2020"@,
            final(self).specifier_map@ == old(self).specifier_map@.after_name(specifier@, r.args@[0].text()),
            final(self).project_version == old(self).project_version,
    {
        let mut list: Vec<RequestArg> = Vec::new();
        list.push(RequestArg::Text(self.specifier_map.denormalize(specifier)));
        list.push(RequestArg::Span(TextSpan { start: range.pos, length: range.end - range.pos }));
        list.push(RequestArg::Text("2020".to_owned()));
        TscRequest { method: "getEncodedSemanticClassifications", args: list }
    }

    /// Asks for the signatures that may be meant at a position.
    pub fn get_signature_help_items(
        &mut self,
        specifier: &ModuleSpecifier,
        position: u32,
        options: SignatureHelpItemsOptions,
    ) -> (r: TscRequest)
        ensures
            r.method@ == "getSignatureHelpItems"@,
            r.args@.len() == 3,
            is_name(old(self).specifier_map@, specifier@, r.args@[0]),
            r.args@[1] == RequestArg::Number(position),
            r.args@[2] == RequestArg::SignatureOptions(options),
            final(self).specifier_map@ == old(self).specifier_map@.after_name(specifier@, r.args@[0].text()),
            final(self).project_version == old(self).project_version,
    {
        let mut list: Vec<RequestArg> = Vec::new();
        list.push(RequestArg::Text(self.specifier_map.denormalize(specifier)));
        list.push(RequestArg::Number(position));
        list.push(RequestArg::SignatureOptions(options));
        TscRequest { method: "getSignatureHelpItems", args: list }
    }

    /// Asks for the inlay hints in a span.
    pub fn provide_inlay_hints(
        &mut self,
        specifier: &ModuleSpecifier,
        text_span: TextSpan,
        user_preferences: UserPreferences,
    ) -> (r: TscRequest)
        ensures
            r.method@ == "provideInlayHints"@,
            r.args@.len() == 3,
            is_name(old(self).specifier_map@, specifier@, r.args@[0]),
            r.args@[1] == RequestArg::Span(text_span),
            r.args@[2] == RequestArg::Preferences(user_preferences),
            final(self).specifier_map@ == old(self).specifier_map@.after_name(specifier@, r.args@[0].text()),
            final(self).project_version == old(self).project_version,
    {
        let mut list: Vec<RequestArg> = Vec::new();
        list.push(RequestArg::Text(self.specifier_map.denormalize(specifier)));
        list.push(RequestArg::Span(text_span));
        list.push(RequestArg::Preferences(user_preferences));
        TscRequest { method: "provideInlayHints", args: list }
    }

    /// Asks for the compiler to start anew.
    pub fn restart(&self) -> (r: TscRequest)
        ensures
            r.method@ == "$restart"@,
            r.args@.len() == 0,
    {
        let list: Vec<RequestArg> = Vec::new();
        TscRequest { method: "$restart", args: list }
    }

    /// Asks for the assets that the compiler holds.
    pub fn get_isolate_assets(&self) -> (r: TscRequest)
        ensures
            r.method@ == "$getAssets"@,
            r.args@.len() == 0,
    {
        let list: Vec<RequestArg> = Vec::new();
        TscRequest { method: "$getAssets", args: list }
    }

    /// Takes the places that refer to a symbol that the compiler answered with, with specifiers in
    /// the place of the file names; an internal error where it failed or one of the names is no
    /// URL.
    pub fn find_references_reply(
        &mut self,
        reply: Result<Option<Vec<ReferencedSymbol>>, TscError>,
    ) -> (r: Result<Option<Vec<ReferencedSymbol>>, LspError>)
        ensures
            is_answer(
                old(self).specifier_map@,
                reply,
                final(self).specifier_map@,
                r,
                LspError::InternalError,
            ),
            final(self).project_version == old(self).project_version,
    {
        self.answer(reply, LspError::InternalError)
    }

    /// Takes the codes that can be fixed that the compiler answered with; an internal error where
    /// it failed.
    pub fn get_supported_code_fixes_reply(
        &self,
        reply: Result<Vec<String>, TscError>,
    ) -> (r: Result<Vec<String>, LspError>)
        ensures
            r == passed_on(reply, LspError::InternalError),
    {
        pass_on(reply, LspError::InternalError)
    }

    /// Takes what there is to tell that the compiler answered with; an internal error where it
    /// failed.
    pub fn get_quick_info_reply(
        &self,
        reply: Result<Option<QuickInfo>, TscError>,
    ) -> (r: Result<Option<QuickInfo>, LspError>)
        ensures
            r == passed_on(reply, LspError::InternalError),
    {
        pass_on(reply, LspError::InternalError)
    }

    /// Takes the refactors that the compiler answered with; an invalid request where it failed.
    pub fn get_applicable_refactors_reply(
        &self,
        reply: Result<Vec<ApplicableRefactorInfo>, TscError>,
    ) -> (r: Result<Vec<ApplicableRefactorInfo>, LspError>)
        ensures
            r == passed_on(reply, LspError::InvalidRequest),
    {
        pass_on(reply, LspError::InvalidRequest)
    }

    /// Takes the fix that the compiler answered with, with specifiers in the place of the file
    /// names; an internal error where it failed or one of the names is no URL.
    pub fn get_combined_code_fix_reply(
        &mut self,
        reply: Result<CombinedCodeActions, TscError>,
    ) -> (r: Result<CombinedCodeActions, LspError>)
        ensures
            is_answer(
                old(self).specifier_map@,
                reply,
                final(self).specifier_map@,
                r,
                LspError::InternalError,
            ),
            final(self).project_version == old(self).project_version,
    {
        self.answer(reply, LspError::InternalError)
    }

    /// Takes the changes that the compiler answered with, with specifiers in the place of the file
    /// names; an invalid request where it failed or one of the names is no URL.
    pub fn get_edits_for_refactor_reply(
        &mut self,
        reply: Result<RefactorEditInfo, TscError>,
    ) -> (r: Result<RefactorEditInfo, LspError>)
        ensures
            is_answer(
                old(self).specifier_map@,
                reply,
                final(self).specifier_map@,
                r,
                LspError::InvalidRequest,
            ),
            final(self).project_version == old(self).project_version,
    {
        self.answer(reply, LspError::InvalidRequest)
    }

    /// Takes the changes that the compiler answered with, with specifiers in the place of the file
    /// names; an invalid request where it failed or one of the names is no URL.
    pub fn get_edits_for_file_rename_reply(
        &mut self,
        reply: Result<Vec<FileTextChanges>, TscError>,
    ) -> (r: Result<Vec<FileTextChanges>, LspError>)
        ensures
            is_answer(
                old(self).specifier_map@,
                reply,
                final(self).specifier_map@,
                r,
                LspError::InvalidRequest,
            ),
            final(self).project_version == old(self).project_version,
    {
        self.answer(reply, LspError::InvalidRequest)
    }

    /// Takes the highlights that the compiler answered with; an internal error where it failed.
    pub fn get_document_highlights_reply(
        &self,
        reply: Result<Option<Vec<DocumentHighlights>>, TscError>,
    ) -> (r: Result<Option<Vec<DocumentHighlights>>, LspError>)
        ensures
            r == passed_on(reply, LspError::InternalError),
    {
        pass_on(reply, LspError::InternalError)
    }

    /// Takes the definitions that the compiler answered with, with specifiers in the place of the
    /// file names; an internal error where it failed or one of the names is no URL.
    pub fn get_definition_reply(
        &mut self,
        reply: Result<Option<DefinitionInfoAndBoundSpan>, TscError>,
    ) -> (r: Result<Option<DefinitionInfoAndBoundSpan>, LspError>)
        ensures
            is_answer(
                old(self).specifier_map@,
                reply,
                final(self).specifier_map@,
                r,
                LspError::InternalError,
            ),
            final(self).project_version == old(self).project_version,
    {
        self.answer(reply, LspError::InternalError)
    }

    /// Takes the definitions that the compiler answered with, with specifiers in the place of the
    /// file names; an internal error where it failed or one of the names is no URL.
    pub fn get_type_definition_reply(
        &mut self,
        reply: Result<Option<Vec<DefinitionInfo>>, TscError>,
    ) -> (r: Result<Option<Vec<DefinitionInfo>>, LspError>)
        ensures
            is_answer(
                old(self).specifier_map@,
                reply,
                final(self).specifier_map@,
                r,
                LspError::InternalError,
            ),
            final(self).project_version == old(self).project_version,
    {
        self.answer(reply, LspError::InternalError)
    }

    /// Takes the implementations that the compiler answered with, with specifiers in the place of
    /// the file names; an invalid request where it failed or one of the names is no URL.
    pub fn get_implementations_reply(
        &mut self,
        reply: Result<Option<Vec<ImplementationLocation>>, TscError>,
    ) -> (r: Result<Option<Vec<ImplementationLocation>>, LspError>)
        ensures
            is_answer(
                old(self).specifier_map@,
                reply,
                final(self).specifier_map@,
                r,
                LspError::InvalidRequest,
            ),
            final(self).project_version == old(self).project_version,
    {
        self.answer(reply, LspError::InvalidRequest)
    }

    /// Takes the spans that the compiler answered with; an invalid request where it failed.
    pub fn get_outlining_spans_reply(
        &self,
        reply: Result<Vec<OutliningSpan>, TscError>,
    ) -> (r: Result<Vec<OutliningSpan>, LspError>)
        ensures
            r == passed_on(reply, LspError::InvalidRequest),
    {
        pass_on(reply, LspError::InvalidRequest)
    }

    /// Takes the calls that the compiler answered with, with specifiers in the place of the file
    /// names; an invalid request where it failed or one of the names is no URL.
    pub fn provide_call_hierarchy_incoming_calls_reply(
        &mut self,
        reply: Result<Vec<CallHierarchyIncomingCall>, TscError>,
    ) -> (r: Result<Vec<CallHierarchyIncomingCall>, LspError>)
        ensures
            is_answer(
                old(self).specifier_map@,
                reply,
                final(self).specifier_map@,
                r,
                LspError::InvalidRequest,
            ),
            final(self).project_version == old(self).project_version,
    {
        self.answer(reply, LspError::InvalidRequest)
    }

    /// Takes the calls that the compiler answered with, with specifiers in the place of the file
    /// names; an invalid request where it failed or one of the names is no URL.
    pub fn provide_call_hierarchy_outgoing_calls_reply(
        &mut self,
        reply: Result<Vec<CallHierarchyOutgoingCall>, TscError>,
    ) -> (r: Result<Vec<CallHierarchyOutgoingCall>, LspError>)
        ensures
            is_answer(
                old(self).specifier_map@,
                reply,
                final(self).specifier_map@,
                r,
                LspError::InvalidRequest,
            ),
            final(self).project_version == old(self).project_version,
    {
        self.answer(reply, LspError::InvalidRequest)
    }

    /// Takes the items that the compiler answered with, with specifiers in the place of the file
    /// names; an invalid request where it failed or one of the names is no URL.
    pub fn prepare_call_hierarchy_reply(
        &mut self,
        reply: Result<Option<OneOrMany<CallHierarchyItem>>, TscError>,
    ) -> (r: Result<Option<OneOrMany<CallHierarchyItem>>, LspError>)
        ensures
            is_answer(
                old(self).specifier_map@,
                reply,
                final(self).specifier_map@,
                r,
                LspError::InvalidRequest,
            ),
            final(self).project_version == old(self).project_version,
    {
        self.answer(reply, LspError::InvalidRequest)
    }

    /// Takes the places that the compiler answered with, with specifiers in the place of the file
    /// names; an invalid request where it failed or one of the names is no URL.
    pub fn find_rename_locations_reply(
        &mut self,
        reply: Result<Option<Vec<RenameLocation>>, TscError>,
    ) -> (r: Result<Option<Vec<RenameLocation>>, LspError>)
        ensures
            is_answer(
                old(self).specifier_map@,
                reply,
                final(self).specifier_map@,
                r,
                LspError::InvalidRequest,
            ),
            final(self).project_version == old(self).project_version,
    {
        self.answer(reply, LspError::InvalidRequest)
    }

    /// Takes the ranges that the compiler answered with; an invalid request where it failed.
    pub fn get_smart_selection_range_reply(
        &self,
        reply: Result<SelectionRange, TscError>,
    ) -> (r: Result<SelectionRange, LspError>)
        ensures
            r == passed_on(reply, LspError::InvalidRequest),
    {
        pass_on(reply, LspError::InvalidRequest)
    }

    /// Takes the classifications that the compiler answered with; an invalid request where it
    /// failed.
    pub fn get_encoded_semantic_classifications_reply(
        &self,
        reply: Result<Classifications, TscError>,
    ) -> (r: Result<Classifications, LspError>)
        ensures
            r == passed_on(reply, LspError::InvalidRequest),
    {
        pass_on(reply, LspError::InvalidRequest)
    }

    /// Takes the signatures that the compiler answered with; an invalid request where it failed.
    pub fn get_signature_help_items_reply(
        &self,
        reply: Result<Option<SignatureHelpItems>, TscError>,
    ) -> (r: Result<Option<SignatureHelpItems>, LspError>)
        ensures
            r == passed_on(reply, LspError::InvalidRequest),
    {
        pass_on(reply, LspError::InvalidRequest)
    }

    /// Takes the symbols that the compiler answered with, with specifiers in the place of the file
    /// names; an invalid request where it failed or one of the names is no URL.
    pub fn get_navigate_to_items_reply(
        &mut self,
        reply: Result<Vec<NavigateToItem>, TscError>,
    ) -> (r: Result<Vec<NavigateToItem>, LspError>)
        ensures
            is_answer(
                old(self).specifier_map@,
                reply,
                final(self).specifier_map@,
                r,
                LspError::InvalidRequest,
            ),
            final(self).project_version == old(self).project_version,
    {
        self.answer(reply, LspError::InvalidRequest)
    }

    /// Takes the inlay hints that the compiler answered with; an internal error where it failed.
    pub fn provide_inlay_hints_reply(
        &self,
        reply: Result<Option<Vec<InlayHint>>, TscError>,
    ) -> (r: Result<Option<Vec<InlayHint>>, LspError>)
        ensures
            r == passed_on(reply, LspError::InternalError),
    {
        pass_on(reply, LspError::InternalError)
    }

    /// Takes the fixes that the compiler answered with, with specifiers in the place of the file
    /// names; none where it failed or one of the names is no URL.
    pub fn get_code_fixes_reply(&mut self, reply: Result<Vec<CodeFixAction>, TscError>) -> (r: Vec<
        CodeFixAction,
    >)
        ensures
            ({
                let before = old(self).specifier_map@;
                let after = final(self).specifier_map@;
                match reply {
                    Ok(actions) => {
                        let reading = normalize::reading(before, actions.file_names());
                        &&& after == reading.map
                        &&& reading.ok ==> r.file_names() == reading.names && r.same_but_names(
                            &actions,
                        )
                        &&& !reading.ok ==> r@.len() == 0
                    },
                    Err(_) => after == before && r@.len() == 0,
                }
            }),
            final(self).project_version == old(self).project_version,
    {
        match self.read(reply) {
            Ok(actions) => actions,
            Err(_) => Vec::new(),
        }
    }

    /// Takes the completions that the compiler answered with; none where it failed.
    pub fn get_completions_reply(&self, reply: Result<Option<CompletionInfo>, TscError>) -> (r: Option<
        CompletionInfo,
    >)
        ensures
            r == (match reply {
                Ok(info) => info,
                Err(_) => None,
            }),
    {
        match reply {
            Ok(info) => info,
            Err(_) => None,
        }
    }

    /// Takes the details of a completion that the compiler answered with, with specifiers in the
    /// place of the file names. The error is that of the compiler or of the first name that is no
    /// URL.
    pub fn get_completion_details_reply(
        &mut self,
        reply: Result<Option<CompletionEntryDetails>, TscError>,
    ) -> (r: Result<Option<CompletionEntryDetails>, TscError>)
        ensures
            is_read(old(self).specifier_map@, reply, final(self).specifier_map@, r),
            final(self).project_version == old(self).project_version,
    {
        self.read(reply)
    }
}

/// A reply that holds no file names is passed on as it is, and a failure of the compiler is answered
/// with an error of the client's own.
pub proof fn law_replies_are_passed_on<T>(value: T, failure: TscError, error: LspError)
    ensures
        passed_on(Ok::<T, TscError>(value), error) == Ok::<T, LspError>(value),
        passed_on(Err::<T, TscError>(failure), error) == Err::<T, LspError>(error),
{
}

/// A reply with file names is answered with the same value, in which each name gave way to its
/// specifier, where every name has one. It is answered with an error where a name has none, or where
/// the compiler failed.
pub proof fn law_replies_are_answered<T: Named>(
    before: specifier_map::SpecifierMapView,
    reply: Result<T, TscError>,
    after: specifier_map::SpecifierMapView,
    r: Result<T, LspError>,
    error: LspError,
)
    requires
        is_answer(before, reply, after, r, error),
    ensures
        reply is Err ==> r == Err::<T, LspError>(error) && after == before,
        reply matches Ok(value) ==> {
            let names = value.file_names();
            let known = forall|i: int|
                0 <= i < names.len() ==> before.specifier_of(#[trigger] names[i]) is Some;
            &&& r is Ok <==> known
            &&& r matches Err(err) ==> err == error
            &&& r matches Ok(read) ==> {
                &&& read.same_but_names(&value)
                &&& read.file_names().len() == names.len()
                &&& forall|i: int|
                    0 <= i < names.len() ==> Some(#[trigger] read.file_names()[i])
                        == before.specifier_of(names[i])
            }
            &&& after.normalized == before.normalized
        },
{
    if let Ok(value) = reply {
        lemma_reading_of_names(before, value.file_names());
    }
}

/// What is made of a reply is the same, with the error of the compiler in the place of one for the
/// client, and an error of its own where a name is no URL.
pub proof fn law_replies_are_read<T: Named>(
    before: specifier_map::SpecifierMapView,
    reply: Result<T, TscError>,
    after: specifier_map::SpecifierMapView,
    r: Result<T, TscError>,
)
    requires
        is_read(before, reply, after, r),
    ensures
        reply matches Err(failure) ==> r == Err::<T, TscError>(failure) && after == before,
        reply matches Ok(value) ==> {
            let names = value.file_names();
            let known = forall|i: int|
                0 <= i < names.len() ==> before.specifier_of(#[trigger] names[i]) is Some;
            &&& r is Ok <==> known
            &&& r matches Err(err) ==> err == TscError::InvalidUrl
            &&& r matches Ok(read) ==> {
                &&& read.same_but_names(&value)
                &&& read.file_names().len() == names.len()
                &&& forall|i: int|
                    0 <= i < names.len() ==> Some(#[trigger] read.file_names()[i])
                        == before.specifier_of(names[i])
            }
        },
{
    if let Ok(value) = reply {
        lemma_reading_of_names(before, value.file_names());
    }
}

proof fn lemma_reading_of_names(map: specifier_map::SpecifierMapView, names: Seq<Seq<char>>)
    ensures
        normalize::reading(map, names).ok <==> forall|i: int|
            0 <= i < names.len() ==> map.specifier_of(#[trigger] names[i]) is Some,
        normalize::reading(map, names).ok ==> normalize::reading(map, names).names.len()
            == names.len() && forall|i: int|
            0 <= i < names.len() ==> Some(#[trigger] normalize::reading(map, names).names[i])
                == map.specifier_of(names[i]),
        normalize::reading(map, names).map.normalized == map.normalized,
{
    let n = first_unknown(map, names, 0);
    lemma_first_unknown(map, names, 0);
    normalize::law_reading_stops_at_first_unknown(map, names, n);
    lemma_reading_keeps_made_names(map, names);
}

proof fn lemma_reading_keeps_made_names(
    map: specifier_map::SpecifierMapView,
    names: Seq<Seq<char>>,
)
    ensures
        normalize::reading(map, names).map.normalized == map.normalized,
    decreases names.len(),
{
    if names.len() > 0 && map.specifier_of(names[0]) is Some {
        lemma_reading_keeps_made_names(map.after_specifier(names[0]), names.skip(1));
    }
}

/// Where the first name from a place on stands that has no specifier.
spec fn first_unknown(
    map: specifier_map::SpecifierMapView,
    names: Seq<Seq<char>>,
    from: int,
) -> int
    decreases names.len() - from,
{
    if from >= names.len() || map.specifier_of(names[from]) is None {
        from
    } else {
        first_unknown(map, names, from + 1)
    }
}

proof fn lemma_first_unknown(
    map: specifier_map::SpecifierMapView,
    names: Seq<Seq<char>>,
    from: int,
)
    requires
        0 <= from <= names.len(),
    ensures
        ({
            let n = first_unknown(map, names, from);
            &&& from <= n <= names.len()
            &&& forall|i: int| from <= i < n ==> map.specifier_of(#[trigger] names[i]) is Some
            &&& n < names.len() ==> map.specifier_of(names[n]) is None
        }),
    decreases names.len() - from,
{
    if from < names.len() && map.specifier_of(names[from]) is Some {
        lemma_first_unknown(map, names, from + 1);
    }
}

/// A module is named to the compiler by a text that may be its name.
pub proof fn law_modules_are_named_in_requests(
    map: specifier_map::SpecifierMapView,
    specifier: Seq<char>,
    arg: RequestArg,
)
    requires
        is_name(map, specifier, arg),
    ensures
        arg matches RequestArg::Text(name) && {
            &&& arg.text() == name@
            &&& map.denormalized.contains_key(specifier) ==> name@ == map.denormalized[specifier]
            &&& !map.denormalized.contains_key(specifier) ==> name@ == specifier || name@
                == specifier + specifier::ts_extension(specifier::url_media_type(specifier))
            &&& !map.denormalized.contains_key(specifier) && specifier::is_portable_path(specifier)
                && specifier::path_media_type(specifier) == specifier::url_media_type(specifier)
                ==> name@ == specifier
        },
{
    specifier_map::law_specifiers_are_named_by_media_type(map, specifier, arg.text());
}

} // verus!
