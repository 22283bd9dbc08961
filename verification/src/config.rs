//! The settings that the bridge reads.

use vstd::prelude::*;
use vstd::string::*;
use crate::specifier;
use crate::specifier::{MediaType, ModuleSpecifier};
use crate::strings::starts_with;

verus! {

/// The options of the formatter that the bridge reads.
#[derive(Debug, Clone, Copy, PartialEq, Eq, Structural)]
pub struct FmtOptionsConfig {
    pub use_tabs: Option<bool>,
    pub indent_width: Option<u8>,
    pub single_quote: Option<bool>,
    pub semi_colons: Option<bool>,
}

impl Default for FmtOptionsConfig {
    fn default() -> (r: Self)
        ensures
            r == (FmtOptionsConfig {
                use_tabs: None,
                indent_width: None,
                single_quote: None,
                semi_colons: None,
            }),
    {
        FmtOptionsConfig { use_tabs: None, indent_width: None, single_quote: None, semi_colons: None }
    }
}

/// How strings are quoted.
#[derive(Debug, Clone, Copy, PartialEq, Eq, Structural)]
pub enum QuoteStyle {
    Auto,
    Double,
    Single,
}

impl vstd::std_specs::convert::FromSpecImpl<&FmtOptionsConfig> for QuoteStyle {
    open spec fn obeys_from_spec() -> bool {
        true
    }

    open spec fn from_spec(config: &FmtOptionsConfig) -> Self {
        if config.single_quote == Some(true) {
            QuoteStyle::Single
        } else {
            QuoteStyle::Double
        }
    }
}

impl From<&FmtOptionsConfig> for QuoteStyle {
    fn from(config: &FmtOptionsConfig) -> (r: Self)
        ensures
            r == QuoteStyle::Single <==> config.single_quote == Some(true),
            r == QuoteStyle::Double <==> config.single_quote != Some(true),
    {
        match config.single_quote {
            Some(true) => QuoteStyle::Single,
            _ => QuoteStyle::Double,
        }
    }
}

/// How imported modules are named.
#[derive(Debug, Clone, Copy, PartialEq, Eq, Structural)]
pub enum ImportModuleSpecifier {
    NonRelative,
    ProjectRelative,
    Relative,
    Shortest,
}

/// How JSX attributes are completed.
#[derive(Debug, Clone, Copy, PartialEq, Eq, Structural)]
pub enum JsxAttributeCompletionStyle {
    Auto,
    Braces,
    Nothing,
}

/// Which arguments have their parameter names shown.
#[derive(Debug, Clone, Copy, PartialEq, Eq, Structural)]
pub enum InlayHintsParamNamesEnabled {
    Nothing,
    Literals,
    All,
}

/// A setting that is on or off.
#[derive(Debug, Clone, Copy, PartialEq, Eq, Structural)]
pub struct Toggle {
    pub enabled: bool,
}

/// Hints for parameter names.
#[derive(Debug, Clone, Copy, PartialEq, Eq, Structural)]
pub struct InlayHintsParamNamesOptions {
    pub enabled: InlayHintsParamNamesEnabled,
    pub suppress_when_argument_matches_name: bool,
}

/// Hints for the types of variables.
#[derive(Debug, Clone, Copy, PartialEq, Eq, Structural)]
pub struct InlayHintsVarTypesOptions {
    pub enabled: bool,
    pub suppress_when_type_matches_name: bool,
}

/// Inlay hints.
#[derive(Debug, Clone, Copy, PartialEq, Eq, Structural)]
pub struct InlayHintsSettings {
    pub parameter_names: InlayHintsParamNamesOptions,
    pub parameter_types: Toggle,
    pub variable_types: InlayHintsVarTypesOptions,
    pub property_declaration_types: Toggle,
    pub function_like_return_types: Toggle,
    pub enum_member_values: Toggle,
}

/// Completions.
#[derive(Debug, Clone, Copy, PartialEq, Eq, Structural)]
pub struct CompletionSettings {
    pub complete_function_calls: bool,
    pub include_automatic_optional_chain_completions: bool,
    pub include_completions_for_import_statements: bool,
    pub names: bool,
    pub paths: bool,
    pub auto_imports: bool,
    pub enabled: bool,
    pub class_member_snippets: Toggle,
    pub object_literal_method_snippets: Toggle,
}

impl Default for CompletionSettings {
    fn default() -> (r: Self)
        ensures
            r == (CompletionSettings {
                complete_function_calls: false,
                include_automatic_optional_chain_completions: true,
                include_completions_for_import_statements: true,
                names: true,
                paths: true,
                auto_imports: true,
                enabled: true,
                class_member_snippets: Toggle { enabled: true },
                object_literal_method_snippets: Toggle { enabled: true },
            }),
    {
        CompletionSettings {
            complete_function_calls: false,
            include_automatic_optional_chain_completions: true,
            include_completions_for_import_statements: true,
            names: true,
            paths: true,
            auto_imports: true,
            enabled: true,
            class_member_snippets: Toggle { enabled: true },
            object_literal_method_snippets: Toggle { enabled: true },
        }
    }
}

/// What is preferred in code that is written for the user.
#[derive(Debug)]
pub struct LanguagePreferences {
    pub import_module_specifier: ImportModuleSpecifier,
    pub jsx_attribute_completion_style: JsxAttributeCompletionStyle,
    pub auto_import_file_exclude_patterns: Vec<String>,
    pub use_aliases_for_renames: bool,
    pub quote_style: QuoteStyle,
}

/// The settings for one language.
#[derive(Debug)]
pub struct LanguageWorkspaceSettings {
    pub inlay_hints: InlayHintsSettings,
    pub preferences: LanguagePreferences,
    pub suggest: CompletionSettings,
}

impl Default for LanguageWorkspaceSettings {
    fn default() -> (r: Self)
        ensures
            r.inlay_hints == (InlayHintsSettings {
                parameter_names: InlayHintsParamNamesOptions {
                    enabled: InlayHintsParamNamesEnabled::Nothing,
                    suppress_when_argument_matches_name: true,
                },
                parameter_types: Toggle { enabled: false },
                variable_types: InlayHintsVarTypesOptions {
                    enabled: false,
                    suppress_when_type_matches_name: true,
                },
                property_declaration_types: Toggle { enabled: false },
                function_like_return_types: Toggle { enabled: false },
                enum_member_values: Toggle { enabled: false },
            }),
            r.preferences.import_module_specifier == ImportModuleSpecifier::Shortest,
            r.preferences.jsx_attribute_completion_style == JsxAttributeCompletionStyle::Auto,
            r.preferences.auto_import_file_exclude_patterns@.len() == 0,
            r.preferences.use_aliases_for_renames,
            r.preferences.quote_style == QuoteStyle::Auto,
            call_ensures(CompletionSettings::default, (), r.suggest),
    {
        LanguageWorkspaceSettings {
            inlay_hints: InlayHintsSettings {
                parameter_names: InlayHintsParamNamesOptions {
                    enabled: InlayHintsParamNamesEnabled::Nothing,
                    suppress_when_argument_matches_name: true,
                },
                parameter_types: Toggle { enabled: false },
                variable_types: InlayHintsVarTypesOptions {
                    enabled: false,
                    suppress_when_type_matches_name: true,
                },
                property_declaration_types: Toggle { enabled: false },
                function_like_return_types: Toggle { enabled: false },
                enum_member_values: Toggle { enabled: false },
            },
            preferences: LanguagePreferences {
                import_module_specifier: ImportModuleSpecifier::Shortest,
                jsx_attribute_completion_style: JsxAttributeCompletionStyle::Auto,
                auto_import_file_exclude_patterns: Vec::new(),
                use_aliases_for_renames: true,
                quote_style: QuoteStyle::Auto,
            },
            suggest: CompletionSettings::default(),
        }
    }
}

/// The settings of a workspace.
#[derive(Debug)]
pub struct WorkspaceSettings {
    pub javascript: LanguageWorkspaceSettings,
    pub typescript: LanguageWorkspaceSettings,
}

impl Default for WorkspaceSettings {
    fn default() -> (r: Self)
        ensures
            call_ensures(LanguageWorkspaceSettings::default, (), r.javascript),
            call_ensures(LanguageWorkspaceSettings::default, (), r.typescript),
    {
        WorkspaceSettings {
            javascript: LanguageWorkspaceSettings::default(),
            typescript: LanguageWorkspaceSettings::default(),
        }
    }
}

/// What the client can do.
#[derive(Debug, Clone, Copy, PartialEq, Eq, Structural)]
pub struct ClientCapabilities {
    pub snippet_support: bool,
}

/// The settings of the language server.
#[derive(Debug)]
pub struct Config {
    pub unscoped: WorkspaceSettings,
    pub by_workspace_folder: Option<Vec<(ModuleSpecifier, WorkspaceSettings)>>,
    pub client_capabilities: ClientCapabilities,
    pub config_file: bool,
}

/// The settings of the last folder of a list that holds a module.
pub open spec fn folder_settings(
    folders: Seq<(ModuleSpecifier, WorkspaceSettings)>,
    specifier: Seq<char>,
) -> Option<WorkspaceSettings>
    decreases folders.len(),
{
    if folders.len() == 0 {
        None
    } else if folders.last().0@.is_prefix_of(specifier) {
        Some(folders.last().1)
    } else {
        folder_settings(folders.drop_last(), specifier)
    }
}

impl Config {
    /// The settings of the workspace for a module: those of a folder that holds it, or else those
    /// without a folder.
    pub open spec fn workspace_settings(self, specifier: Seq<char>) -> WorkspaceSettings {
        match self.by_workspace_folder {
            Some(folders) => match folder_settings(folders@, specifier) {
                Some(settings) => settings,
                None => self.unscoped,
            },
            None => self.unscoped,
        }
    }

    /// The settings of the language of a module of a media type, where it is of one.
    pub open spec fn settings_for_type(self, specifier: Seq<char>, media_type: MediaType) -> Option<
        LanguageWorkspaceSettings,
    > {
        let settings = self.workspace_settings(specifier);
        if specifier::scheme_of(specifier) == "deno-notebook-cell"@ {
            Some(settings.typescript)
        } else {
            match media_type {
                MediaType::JavaScript | MediaType::Jsx | MediaType::Mjs | MediaType::Cjs => Some(
                    settings.javascript,
                ),
                MediaType::TypeScript
                | MediaType::Mts
                | MediaType::Cts
                | MediaType::Dts
                | MediaType::Dmts
                | MediaType::Dcts
                | MediaType::Tsx => Some(settings.typescript),
                MediaType::Json
                | MediaType::Wasm
                | MediaType::TsBuildInfo
                | MediaType::SourceMap
                | MediaType::Unknown => None,
            }
        }
    }

    /// The settings of the language of a module, where it has one.
    pub open spec fn language_settings(self, specifier: Seq<char>) -> Option<
        LanguageWorkspaceSettings,
    > {
        self.settings_for_type(specifier, specifier::url_media_type(specifier))
    }

    /// The settings that hold before any are made.
    pub fn new() -> (r: Config)
        ensures
            call_ensures(WorkspaceSettings::default, (), r.unscoped),
            r.by_workspace_folder is None,
            r.client_capabilities == (ClientCapabilities { snippet_support: false }),
            !r.config_file,
    {
        Config {
            unscoped: WorkspaceSettings::default(),
            by_workspace_folder: None,
            client_capabilities: ClientCapabilities { snippet_support: false },
            config_file: false,
        }
    }

    /// Sets the settings of the workspace.
    pub fn set_workspace_settings(
        &mut self,
        unscoped: WorkspaceSettings,
        by_workspace_folder: Option<Vec<(ModuleSpecifier, WorkspaceSettings)>>,
    )
        ensures
            *final(self) == (Config { unscoped, by_workspace_folder, ..*old(self) }),
    {
        self.unscoped = unscoped;
        self.by_workspace_folder = by_workspace_folder;
    }

    /// Whether there is a configuration file.
    pub fn has_config_file(&self) -> (r: bool)
        ensures
            r == self.config_file,
    {
        self.config_file
    }

    /// The settings of the workspace for a module.
    pub fn workspace_settings_for_specifier(&self, specifier: &ModuleSpecifier) -> (r:
        &WorkspaceSettings)
        ensures
            *r == self.workspace_settings(specifier@),
    {
        if let Some(folders) = &self.by_workspace_folder {
            let mut n: usize = folders.len();
            assert(folders@.take(n as int) =~= folders@);
            while n > 0
                invariant
                    n <= folders@.len(),
                    folder_settings(folders@, specifier@) == folder_settings(
                        folders@.take(n as int),
                        specifier@,
                    ),
                    self.by_workspace_folder == Some(*folders),
                decreases n,
            {
                if starts_with(specifier.as_str(), folders[n - 1].0.as_str()) {
                    return &folders[n - 1].1;
                }
                assert(folders@.take(n as int).drop_last() =~= folders@.take(n - 1));
                n = n - 1;
            }
        }
        &self.unscoped
    }

    /// The settings of the language of a module; none where its media type is of no language.
    pub fn language_settings_for_specifier(&self, specifier: &ModuleSpecifier) -> (r: Option<
        &LanguageWorkspaceSettings,
    >)
        ensures
            r is Some == self.language_settings(specifier@) is Some,
            r matches Some(settings) ==> self.language_settings(specifier@) == Some(*settings),
    {
        self.language_settings_for_type(specifier, MediaType::from_specifier(specifier))
    }

    /// The settings of the language of a module of a media type; none where it is of no language.
    pub fn language_settings_for_type(
        &self,
        specifier: &ModuleSpecifier,
        media_type: MediaType,
    ) -> (r: Option<&LanguageWorkspaceSettings>)
        ensures
            r is Some == self.settings_for_type(specifier@, media_type) is Some,
            r matches Some(settings) ==> self.settings_for_type(specifier@, media_type) == Some(
                *settings,
            ),
    {
        let settings = self.workspace_settings_for_specifier(specifier);
        if specifier.has_scheme("deno-notebook-cell") {
            return Some(&settings.typescript);
        }
        match media_type {
            MediaType::JavaScript | MediaType::Jsx | MediaType::Mjs | MediaType::Cjs => Some(
                &settings.javascript,
            ),
            MediaType::TypeScript
            | MediaType::Mts
            | MediaType::Cts
            | MediaType::Dts
            | MediaType::Dmts
            | MediaType::Dcts
            | MediaType::Tsx => Some(&settings.typescript),
            MediaType::Json
            | MediaType::Wasm
            | MediaType::TsBuildInfo
            | MediaType::SourceMap
            | MediaType::Unknown => None,
        }
    }
}

/// The settings for a module are those of the last folder whose URL opens its own, and those without a
/// folder where no folder does.
pub proof fn law_last_folder_gives_the_settings(
    config: Config,
    folders: Seq<(ModuleSpecifier, WorkspaceSettings)>,
    specifier: Seq<char>,
    n: int,
)
    requires
        folders == match config.by_workspace_folder {
            Some(list) => list@,
            None => Seq::empty(),
        },
        -1 <= n < folders.len(),
        n >= 0 ==> folders[n].0@.is_prefix_of(specifier),
        forall|i: int|
            n < i < folders.len() ==> !(#[trigger] folders[i]).0@.is_prefix_of(specifier),
    ensures
        n >= 0 ==> config.workspace_settings(specifier) == folders[n].1,
        n == -1 ==> config.workspace_settings(specifier) == config.unscoped,
{
    lemma_folder_settings(folders, specifier, n);
}

proof fn lemma_folder_settings(
    folders: Seq<(ModuleSpecifier, WorkspaceSettings)>,
    specifier: Seq<char>,
    n: int,
)
    requires
        -1 <= n < folders.len(),
        n >= 0 ==> folders[n].0@.is_prefix_of(specifier),
        forall|i: int|
            n < i < folders.len() ==> !(#[trigger] folders[i]).0@.is_prefix_of(specifier),
    ensures
        n >= 0 ==> folder_settings(folders, specifier) == Some(folders[n].1),
        n == -1 ==> folder_settings(folders, specifier) is None,
    decreases folders.len(),
{
    if folders.len() > 0 && n < folders.len() - 1 {
        assert(!folders[folders.len() - 1].0@.is_prefix_of(specifier));
        lemma_folder_settings(folders.drop_last(), specifier, n);
    }
}

/// A script in JavaScript has the settings of that language and one in TypeScript those of the other,
/// with types or without, in modules of either sort and with JSX or without. A cell of a notebook is
/// taken for TypeScript, and nothing else has settings.
pub proof fn law_languages_have_their_settings(
    config: Config,
    specifier: Seq<char>,
    media_type: MediaType,
)
    ensures
        ({
            let settings = config.workspace_settings(specifier);
            let found = config.settings_for_type(specifier, media_type);
            let notebook = specifier::scheme_of(specifier) == "deno-notebook-cell"@;
            let javascript = media_type == MediaType::JavaScript || media_type == MediaType::Jsx
                || media_type == MediaType::Mjs || media_type == MediaType::Cjs;
            let typescript = media_type == MediaType::TypeScript || media_type == MediaType::Mts
                || media_type == MediaType::Cts || media_type == MediaType::Dts || media_type
                == MediaType::Dmts || media_type == MediaType::Dcts || media_type == MediaType::Tsx;
            &&& notebook || typescript ==> found == Some(settings.typescript)
            &&& !notebook && javascript ==> found == Some(settings.javascript)
            &&& !notebook && !javascript && !typescript ==> found is None
        }),
{
}

} // verus!
