//! What is asked of the compiler with a request.

use vstd::prelude::*;
use vstd::string::*;
use crate::config;
use crate::config::{Config, FmtOptionsConfig, InlayHintsParamNamesEnabled, LanguageWorkspaceSettings};
use crate::lsp;
use crate::specifier;
use crate::specifier::ModuleSpecifier;
use crate::views;

verus! {

/// How lines are indented.
#[derive(Debug, Clone, Copy, PartialEq, Eq, Structural)]
pub enum IndentStyle {
    Nothing,
    Block,
    Smart,
}

impl IndentStyle {
    /// The number by which the compiler knows the style.
    pub fn number(&self) -> (r: u8)
        ensures
            r == (match *self {
                IndentStyle::Nothing => 0u8,
                IndentStyle::Block => 1u8,
                IndentStyle::Smart => 2u8,
            }),
    {
        match self {
            IndentStyle::Nothing => 0,
            IndentStyle::Block => 1,
            IndentStyle::Smart => 2,
        }
    }
}

/// Whether semicolons are written.
#[derive(Debug, Clone, Copy, PartialEq, Eq, Structural)]
pub enum SemicolonPreference {
    Insert,
    Remove,
}

/// How code is formatted.
#[derive(Debug)]
pub struct FormatCodeSettings {
    pub base_indent_size: Option<u8>,
    pub indent_size: Option<u8>,
    pub tab_size: Option<u8>,
    pub new_line_character: Option<String>,
    pub convert_tabs_to_spaces: Option<bool>,
    pub indent_style: Option<IndentStyle>,
    pub trim_trailing_whitespace: Option<bool>,
    pub insert_space_after_comma_delimiter: Option<bool>,
    pub insert_space_after_semicolon_in_for_statements: Option<bool>,
    pub insert_space_before_and_after_binary_operators: Option<bool>,
    pub insert_space_after_constructor: Option<bool>,
    pub insert_space_after_keywords_in_control_flow_statements: Option<bool>,
    pub insert_space_after_function_keyword_for_anonymous_functions: Option<bool>,
    pub insert_space_after_opening_and_before_closing_nonempty_parenthesis: Option<bool>,
    pub insert_space_after_opening_and_before_closing_nonempty_brackets: Option<bool>,
    pub insert_space_after_opening_and_before_closing_nonempty_braces: Option<bool>,
    pub insert_space_after_opening_and_before_closing_template_string_braces: Option<bool>,
    pub insert_space_after_opening_and_before_closing_jsx_expression_braces: Option<bool>,
    pub insert_space_after_type_assertion: Option<bool>,
    pub insert_space_before_function_parenthesis: Option<bool>,
    pub place_open_brace_on_new_line_for_functions: Option<bool>,
    pub place_open_brace_on_new_line_for_control_blocks: Option<bool>,
    pub insert_space_before_type_annotation: Option<bool>,
    pub indent_multi_line_object_literal_beginning_on_blank_line: Option<bool>,
    pub semicolons: Option<SemicolonPreference>,
    pub indent_switch_case: Option<bool>,
}

impl Clone for FormatCodeSettings {
    fn clone(&self) -> (r: Self)
        ensures
            r == *self,
    {
        FormatCodeSettings {
            base_indent_size: self.base_indent_size,
            indent_size: self.indent_size,
            tab_size: self.tab_size,
            new_line_character: self.new_line_character.clone(),
            convert_tabs_to_spaces: self.convert_tabs_to_spaces,
            indent_style: self.indent_style,
            trim_trailing_whitespace: self.trim_trailing_whitespace,
            insert_space_after_comma_delimiter: self.insert_space_after_comma_delimiter,
            insert_space_after_semicolon_in_for_statements: self.insert_space_after_semicolon_in_for_statements,
            insert_space_before_and_after_binary_operators: self.insert_space_before_and_after_binary_operators,
            insert_space_after_constructor: self.insert_space_after_constructor,
            insert_space_after_keywords_in_control_flow_statements: self.insert_space_after_keywords_in_control_flow_statements,
            insert_space_after_function_keyword_for_anonymous_functions: self.insert_space_after_function_keyword_for_anonymous_functions,
            insert_space_after_opening_and_before_closing_nonempty_parenthesis: self.insert_space_after_opening_and_before_closing_nonempty_parenthesis,
            insert_space_after_opening_and_before_closing_nonempty_brackets: self.insert_space_after_opening_and_before_closing_nonempty_brackets,
            insert_space_after_opening_and_before_closing_nonempty_braces: self.insert_space_after_opening_and_before_closing_nonempty_braces,
            insert_space_after_opening_and_before_closing_template_string_braces: self.insert_space_after_opening_and_before_closing_template_string_braces,
            insert_space_after_opening_and_before_closing_jsx_expression_braces: self.insert_space_after_opening_and_before_closing_jsx_expression_braces,
            insert_space_after_type_assertion: self.insert_space_after_type_assertion,
            insert_space_before_function_parenthesis: self.insert_space_before_function_parenthesis,
            place_open_brace_on_new_line_for_functions: self.place_open_brace_on_new_line_for_functions,
            place_open_brace_on_new_line_for_control_blocks: self.place_open_brace_on_new_line_for_control_blocks,
            insert_space_before_type_annotation: self.insert_space_before_type_annotation,
            indent_multi_line_object_literal_beginning_on_blank_line: self.indent_multi_line_object_literal_beginning_on_blank_line,
            semicolons: self.semicolons,
            indent_switch_case: self.indent_switch_case,
        }
    }
}

impl Default for FormatCodeSettings {
    fn default() -> (r: Self)
        ensures
            r == no_format(),
    {
        FormatCodeSettings {
            base_indent_size: None,
            indent_size: None,
            tab_size: None,
            new_line_character: None,
            convert_tabs_to_spaces: None,
            indent_style: None,
            trim_trailing_whitespace: None,
            insert_space_after_comma_delimiter: None,
            insert_space_after_semicolon_in_for_statements: None,
            insert_space_before_and_after_binary_operators: None,
            insert_space_after_constructor: None,
            insert_space_after_keywords_in_control_flow_statements: None,
            insert_space_after_function_keyword_for_anonymous_functions: None,
            insert_space_after_opening_and_before_closing_nonempty_parenthesis: None,
            insert_space_after_opening_and_before_closing_nonempty_brackets: None,
            insert_space_after_opening_and_before_closing_nonempty_braces: None,
            insert_space_after_opening_and_before_closing_template_string_braces: None,
            insert_space_after_opening_and_before_closing_jsx_expression_braces: None,
            insert_space_after_type_assertion: None,
            insert_space_before_function_parenthesis: None,
            place_open_brace_on_new_line_for_functions: None,
            place_open_brace_on_new_line_for_control_blocks: None,
            insert_space_before_type_annotation: None,
            indent_multi_line_object_literal_beginning_on_blank_line: None,
            semicolons: None,
            indent_switch_case: None,
        }
    }
}

/// No settings for formatting.
pub open spec fn no_format() -> FormatCodeSettings {
    FormatCodeSettings {
        base_indent_size: None,
        indent_size: None,
        tab_size: None,
        new_line_character: None,
        convert_tabs_to_spaces: None,
        indent_style: None,
        trim_trailing_whitespace: None,
        insert_space_after_comma_delimiter: None,
        insert_space_after_semicolon_in_for_statements: None,
        insert_space_before_and_after_binary_operators: None,
        insert_space_after_constructor: None,
        insert_space_after_keywords_in_control_flow_statements: None,
        insert_space_after_function_keyword_for_anonymous_functions: None,
        insert_space_after_opening_and_before_closing_nonempty_parenthesis: None,
        insert_space_after_opening_and_before_closing_nonempty_brackets: None,
        insert_space_after_opening_and_before_closing_nonempty_braces: None,
        insert_space_after_opening_and_before_closing_template_string_braces: None,
        insert_space_after_opening_and_before_closing_jsx_expression_braces: None,
        insert_space_after_type_assertion: None,
        insert_space_before_function_parenthesis: None,
        place_open_brace_on_new_line_for_functions: None,
        place_open_brace_on_new_line_for_control_blocks: None,
        insert_space_before_type_annotation: None,
        indent_multi_line_object_literal_beginning_on_blank_line: None,
        semicolons: None,
        indent_switch_case: None,
    }
}

/// The settings for formatting that options of the formatter come to, but for the line break.
pub open spec fn format_of(config: FmtOptionsConfig) -> FormatCodeSettings {
    let width = match config.indent_width {
        Some(width) => width,
        None => 2,
    };
    FormatCodeSettings {
        base_indent_size: Some(0),
        indent_size: Some(width),
        tab_size: Some(width),
        new_line_character: None,
        convert_tabs_to_spaces: Some(config.use_tabs != Some(true)),
        indent_style: Some(IndentStyle::Block),
        trim_trailing_whitespace: Some(false),
        insert_space_after_comma_delimiter: Some(true),
        insert_space_after_semicolon_in_for_statements: Some(true),
        insert_space_before_and_after_binary_operators: Some(true),
        insert_space_after_constructor: Some(false),
        insert_space_after_keywords_in_control_flow_statements: Some(true),
        insert_space_after_function_keyword_for_anonymous_functions: Some(true),
        insert_space_after_opening_and_before_closing_nonempty_parenthesis: Some(false),
        insert_space_after_opening_and_before_closing_nonempty_brackets: Some(false),
        insert_space_after_opening_and_before_closing_nonempty_braces: Some(true),
        insert_space_after_opening_and_before_closing_template_string_braces: Some(false),
        insert_space_after_opening_and_before_closing_jsx_expression_braces: Some(false),
        insert_space_after_type_assertion: Some(false),
        insert_space_before_function_parenthesis: Some(false),
        place_open_brace_on_new_line_for_functions: Some(false),
        place_open_brace_on_new_line_for_control_blocks: Some(false),
        insert_space_before_type_annotation: Some(false),
        indent_multi_line_object_literal_beginning_on_blank_line: Some(false),
        semicolons: Some(if config.semi_colons == Some(false) {
            SemicolonPreference::Remove
        } else {
            SemicolonPreference::Insert
        }),
        indent_switch_case: Some(true),
    }
}

impl vstd::std_specs::convert::FromSpecImpl<&FmtOptionsConfig> for FormatCodeSettings {
    open spec fn obeys_from_spec() -> bool {
        false
    }

    open spec fn from_spec(config: &FmtOptionsConfig) -> Self {
        format_of(*config)
    }
}

impl From<&FmtOptionsConfig> for FormatCodeSettings {
    fn from(config: &FmtOptionsConfig) -> (r: Self)
        ensures
            views::opt_view(r.new_line_character) == Some("\n"@),
            r == (FormatCodeSettings {
                new_line_character: r.new_line_character,
                ..format_of(*config)
            }),
            r.base_indent_size == Some(0u8),
            config.indent_width matches Some(width) ==> r.indent_size == Some(width),
            config.indent_width is None ==> r.indent_size == Some(2u8),
            r.tab_size == r.indent_size,
            r.convert_tabs_to_spaces == Some(false) <==> config.use_tabs == Some(true),
            r.convert_tabs_to_spaces == Some(true) <==> config.use_tabs != Some(true),
            r.semicolons == Some(SemicolonPreference::Remove) <==> config.semi_colons == Some(
                false,
            ),
            r.semicolons == Some(SemicolonPreference::Insert) <==> config.semi_colons != Some(
                false,
            ),
            r.indent_style == Some(IndentStyle::Block),
            r.insert_space_after_comma_delimiter == Some(true),
            r.insert_space_after_semicolon_in_for_statements == Some(true),
            r.insert_space_before_and_after_binary_operators == Some(true),
            r.insert_space_after_keywords_in_control_flow_statements == Some(true),
            r.insert_space_after_function_keyword_for_anonymous_functions == Some(true),
            r.insert_space_after_opening_and_before_closing_nonempty_braces == Some(true),
            r.indent_switch_case == Some(true),
            r.trim_trailing_whitespace == Some(false),
            r.insert_space_after_constructor == Some(false),
            r.insert_space_after_opening_and_before_closing_nonempty_parenthesis == Some(false),
            r.insert_space_after_opening_and_before_closing_nonempty_brackets == Some(false),
            r.insert_space_after_opening_and_before_closing_template_string_braces == Some(false),
            r.insert_space_after_opening_and_before_closing_jsx_expression_braces == Some(false),
            r.insert_space_after_type_assertion == Some(false),
            r.insert_space_before_function_parenthesis == Some(false),
            r.place_open_brace_on_new_line_for_functions == Some(false),
            r.place_open_brace_on_new_line_for_control_blocks == Some(false),
            r.insert_space_before_type_annotation == Some(false),
            r.indent_multi_line_object_literal_beginning_on_blank_line == Some(false),
    {
        let width: u8 = config.indent_width.unwrap_or(2);
        FormatCodeSettings {
            base_indent_size: Some(0),
            indent_size: Some(width),
            tab_size: Some(width),
            new_line_character: Some("\n".to_owned()),
            convert_tabs_to_spaces: Some(!config.use_tabs.unwrap_or(false)),
            indent_style: Some(IndentStyle::Block),
            trim_trailing_whitespace: Some(false),
            insert_space_after_comma_delimiter: Some(true),
            insert_space_after_semicolon_in_for_statements: Some(true),
            insert_space_before_and_after_binary_operators: Some(true),
            insert_space_after_constructor: Some(false),
            insert_space_after_keywords_in_control_flow_statements: Some(true),
            insert_space_after_function_keyword_for_anonymous_functions: Some(true),
            insert_space_after_opening_and_before_closing_nonempty_parenthesis: Some(false),
            insert_space_after_opening_and_before_closing_nonempty_brackets: Some(false),
            insert_space_after_opening_and_before_closing_nonempty_braces: Some(true),
            insert_space_after_opening_and_before_closing_template_string_braces: Some(false),
            insert_space_after_opening_and_before_closing_jsx_expression_braces: Some(false),
            insert_space_after_type_assertion: Some(false),
            insert_space_before_function_parenthesis: Some(false),
            place_open_brace_on_new_line_for_functions: Some(false),
            place_open_brace_on_new_line_for_control_blocks: Some(false),
            insert_space_before_type_annotation: Some(false),
            indent_multi_line_object_literal_beginning_on_blank_line: Some(false),
            semicolons: match config.semi_colons {
                Some(false) => Some(SemicolonPreference::Remove),
                _ => Some(SemicolonPreference::Insert),
            },
            indent_switch_case: Some(true),
        }
    }
}

/// What called for completions.
#[derive(Debug, Clone, Copy, PartialEq, Eq, Structural)]
pub enum CompletionTriggerKind {
    Invoked,
    TriggerCharacter,
    TriggerForIncompleteCompletions,
}

impl CompletionTriggerKind {
    /// The number by which the compiler knows the trigger.
    pub fn number(&self) -> (r: u32)
        ensures
            r == (match *self {
                CompletionTriggerKind::Invoked => 1u32,
                CompletionTriggerKind::TriggerCharacter => 2u32,
                CompletionTriggerKind::TriggerForIncompleteCompletions => 3u32,
            }),
    {
        match self {
            CompletionTriggerKind::Invoked => 1,
            CompletionTriggerKind::TriggerCharacter => 2,
            CompletionTriggerKind::TriggerForIncompleteCompletions => 3,
        }
    }
}

impl vstd::std_specs::convert::FromSpecImpl<lsp::CompletionTriggerKind> for CompletionTriggerKind {
    open spec fn obeys_from_spec() -> bool {
        true
    }

    open spec fn from_spec(kind: lsp::CompletionTriggerKind) -> Self {
        if kind.0 == 2 {
            CompletionTriggerKind::TriggerCharacter
        } else if kind.0 == 3 {
            CompletionTriggerKind::TriggerForIncompleteCompletions
        } else {
            CompletionTriggerKind::Invoked
        }
    }
}

impl From<lsp::CompletionTriggerKind> for CompletionTriggerKind {
    fn from(kind: lsp::CompletionTriggerKind) -> (r: Self)
        ensures
            r == CompletionTriggerKind::TriggerCharacter <==> kind.0 == 2,
            r == CompletionTriggerKind::TriggerForIncompleteCompletions <==> kind.0 == 3,
            r == CompletionTriggerKind::Invoked <==> kind.0 != 2 && kind.0 != 3,
    {
        match kind.0 {
            1 => CompletionTriggerKind::Invoked,
            2 => CompletionTriggerKind::TriggerCharacter,
            3 => CompletionTriggerKind::TriggerForIncompleteCompletions,
            _ => CompletionTriggerKind::Invoked,
        }
    }
}

pub type QuotePreference = config::QuoteStyle;

pub type ImportModuleSpecifierPreference = config::ImportModuleSpecifier;

pub type JsxAttributeCompletionStyle = config::JsxAttributeCompletionStyle;

/// How the specifiers of imports end.
#[derive(Debug, Clone, Copy, PartialEq, Eq, Structural)]
pub enum ImportModuleSpecifierEnding {
    Auto,
    Minimal,
    Index,
    Js,
}

/// Which arguments have their parameter names shown.
#[derive(Debug, Clone, Copy, PartialEq, Eq, Structural)]
pub enum IncludeInlayParameterNameHints {
    Nothing,
    Literals,
    All,
}

/// Which arguments have their parameter names shown under a setting.
pub open spec fn shown_names(
    setting: InlayHintsParamNamesEnabled,
) -> IncludeInlayParameterNameHints {
    match setting {
        InlayHintsParamNamesEnabled::All => IncludeInlayParameterNameHints::All,
        InlayHintsParamNamesEnabled::Literals => IncludeInlayParameterNameHints::Literals,
        InlayHintsParamNamesEnabled::Nothing => IncludeInlayParameterNameHints::Nothing,
    }
}

impl vstd::std_specs::convert::FromSpecImpl<&InlayHintsParamNamesEnabled> for IncludeInlayParameterNameHints {
    open spec fn obeys_from_spec() -> bool {
        true
    }

    open spec fn from_spec(setting: &InlayHintsParamNamesEnabled) -> Self {
        shown_names(*setting)
    }
}

impl From<&InlayHintsParamNamesEnabled> for IncludeInlayParameterNameHints {
    fn from(setting: &InlayHintsParamNamesEnabled) -> (r: Self)
        ensures
            r == IncludeInlayParameterNameHints::All <==> *setting
                == InlayHintsParamNamesEnabled::All,
            r == IncludeInlayParameterNameHints::Literals <==> *setting
                == InlayHintsParamNamesEnabled::Literals,
            r == IncludeInlayParameterNameHints::Nothing <==> *setting
                == InlayHintsParamNamesEnabled::Nothing,
    {
        match setting {
            InlayHintsParamNamesEnabled::All => IncludeInlayParameterNameHints::All,
            InlayHintsParamNamesEnabled::Literals => IncludeInlayParameterNameHints::Literals,
            InlayHintsParamNamesEnabled::Nothing => IncludeInlayParameterNameHints::Nothing,
        }
    }
}

/// Whether the dependencies of a package are searched for imports.
#[derive(Debug, Clone, Copy, PartialEq, Eq, Structural)]
pub enum IncludePackageJsonAutoImports {
    Auto,
    On,
    Off,
}

/// What the user prefers.
#[derive(Debug)]
pub struct UserPreferences {
    pub disable_suggestions: Option<bool>,
    pub quote_preference: Option<QuotePreference>,
    pub include_completions_for_module_exports: Option<bool>,
    pub include_completions_for_import_statements: Option<bool>,
    pub include_completions_with_snippet_text: Option<bool>,
    pub include_automatic_optional_chain_completions: Option<bool>,
    pub include_completions_with_insert_text: Option<bool>,
    pub include_completions_with_class_member_snippets: Option<bool>,
    pub include_completions_with_object_literal_method_snippets: Option<bool>,
    pub use_label_details_in_completion_entries: Option<bool>,
    pub allow_incomplete_completions: Option<bool>,
    pub import_module_specifier_preference: Option<ImportModuleSpecifierPreference>,
    pub import_module_specifier_ending: Option<ImportModuleSpecifierEnding>,
    pub allow_text_changes_in_new_files: Option<bool>,
    pub provide_prefix_and_suffix_text_for_rename: Option<bool>,
    pub include_package_json_auto_imports: Option<IncludePackageJsonAutoImports>,
    pub provide_refactor_not_applicable_reason: Option<bool>,
    pub jsx_attribute_completion_style: Option<JsxAttributeCompletionStyle>,
    pub include_inlay_parameter_name_hints: Option<IncludeInlayParameterNameHints>,
    pub include_inlay_parameter_name_hints_when_argument_matches_name: Option<bool>,
    pub include_inlay_function_parameter_type_hints: Option<bool>,
    pub include_inlay_variable_type_hints: Option<bool>,
    pub include_inlay_variable_type_hints_when_type_matches_name: Option<bool>,
    pub include_inlay_property_declaration_type_hints: Option<bool>,
    pub include_inlay_function_like_return_type_hints: Option<bool>,
    pub include_inlay_enum_member_value_hints: Option<bool>,
    pub allow_rename_of_import_path: Option<bool>,
    pub auto_import_file_exclude_patterns: Option<Vec<String>>,
}

/// No preferences.
pub open spec fn no_preferences() -> UserPreferences {
    UserPreferences {
        disable_suggestions: None,
        quote_preference: None,
        include_completions_for_module_exports: None,
        include_completions_for_import_statements: None,
        include_completions_with_snippet_text: None,
        include_automatic_optional_chain_completions: None,
        include_completions_with_insert_text: None,
        include_completions_with_class_member_snippets: None,
        include_completions_with_object_literal_method_snippets: None,
        use_label_details_in_completion_entries: None,
        allow_incomplete_completions: None,
        import_module_specifier_preference: None,
        import_module_specifier_ending: None,
        allow_text_changes_in_new_files: None,
        provide_prefix_and_suffix_text_for_rename: None,
        include_package_json_auto_imports: None,
        provide_refactor_not_applicable_reason: None,
        jsx_attribute_completion_style: None,
        include_inlay_parameter_name_hints: None,
        include_inlay_parameter_name_hints_when_argument_matches_name: None,
        include_inlay_function_parameter_type_hints: None,
        include_inlay_variable_type_hints: None,
        include_inlay_variable_type_hints_when_type_matches_name: None,
        include_inlay_property_declaration_type_hints: None,
        include_inlay_function_like_return_type_hints: None,
        include_inlay_enum_member_value_hints: None,
        allow_rename_of_import_path: None,
        auto_import_file_exclude_patterns: None,
    }
}

impl Default for UserPreferences {
    fn default() -> (r: Self)
        ensures
            r == no_preferences(),
    {
        UserPreferences {
            disable_suggestions: None,
            quote_preference: None,
            include_completions_for_module_exports: None,
            include_completions_for_import_statements: None,
            include_completions_with_snippet_text: None,
            include_automatic_optional_chain_completions: None,
            include_completions_with_insert_text: None,
            include_completions_with_class_member_snippets: None,
            include_completions_with_object_literal_method_snippets: None,
            use_label_details_in_completion_entries: None,
            allow_incomplete_completions: None,
            import_module_specifier_preference: None,
            import_module_specifier_ending: None,
            allow_text_changes_in_new_files: None,
            provide_prefix_and_suffix_text_for_rename: None,
            include_package_json_auto_imports: None,
            provide_refactor_not_applicable_reason: None,
            jsx_attribute_completion_style: None,
            include_inlay_parameter_name_hints: None,
            include_inlay_parameter_name_hints_when_argument_matches_name: None,
            include_inlay_function_parameter_type_hints: None,
            include_inlay_variable_type_hints: None,
            include_inlay_variable_type_hints_when_type_matches_name: None,
            include_inlay_property_declaration_type_hints: None,
            include_inlay_function_like_return_type_hints: None,
            include_inlay_enum_member_value_hints: None,
            allow_rename_of_import_path: None,
            auto_import_file_exclude_patterns: None,
        }
    }
}

/// The preferences that hold whatever language a module is in.
pub open spec fn base_preferences(
    config: Config,
    fmt_config: FmtOptionsConfig,
    specifier: Seq<char>,
) -> UserPreferences {
    UserPreferences {
        allow_incomplete_completions: Some(true),
        import_module_specifier_ending: Some(ImportModuleSpecifierEnding::Index),
        include_completions_with_snippet_text: Some(config.client_capabilities.snippet_support),
        provide_refactor_not_applicable_reason: Some(true),
        use_label_details_in_completion_entries: Some(true),
        allow_text_changes_in_new_files: Some(specifier::scheme_of(specifier) == "file"@),
        quote_preference: Some(
            if fmt_config.single_quote == Some(true) {
                config::QuoteStyle::Single
            } else {
                config::QuoteStyle::Double
            },
        ),
        ..no_preferences()
    }
}

/// The preferences for a module in a language with settings, but for the patterns of files that are
/// not imported. How strings are quoted is up to the settings only where there is no configuration
/// file.
pub open spec fn language_preferences(
    config: Config,
    base: UserPreferences,
    settings: LanguageWorkspaceSettings,
) -> UserPreferences {
    UserPreferences {
        include_automatic_optional_chain_completions: Some(
            settings.suggest.enabled && settings.suggest.include_automatic_optional_chain_completions,
        ),
        include_completions_for_import_statements: Some(
            settings.suggest.enabled && settings.suggest.include_completions_for_import_statements,
        ),
        include_completions_for_module_exports: Some(
            settings.suggest.enabled && settings.suggest.auto_imports,
        ),
        include_completions_with_class_member_snippets: Some(
            settings.suggest.enabled && settings.suggest.class_member_snippets.enabled
                && config.client_capabilities.snippet_support,
        ),
        include_completions_with_insert_text: Some(settings.suggest.enabled),
        include_completions_with_object_literal_method_snippets: Some(
            settings.suggest.enabled && settings.suggest.object_literal_method_snippets.enabled
                && config.client_capabilities.snippet_support,
        ),
        import_module_specifier_preference: Some(settings.preferences.import_module_specifier),
        include_inlay_parameter_name_hints: Some(shown_names(settings.inlay_hints.parameter_names.enabled)),
        include_inlay_parameter_name_hints_when_argument_matches_name: Some(
            !settings.inlay_hints.parameter_names.suppress_when_argument_matches_name,
        ),
        include_inlay_function_parameter_type_hints: Some(settings.inlay_hints.parameter_types.enabled),
        include_inlay_variable_type_hints: Some(settings.inlay_hints.variable_types.enabled),
        include_inlay_variable_type_hints_when_type_matches_name: Some(
            !settings.inlay_hints.variable_types.suppress_when_type_matches_name,
        ),
        include_inlay_property_declaration_type_hints: Some(
            settings.inlay_hints.property_declaration_types.enabled,
        ),
        include_inlay_function_like_return_type_hints: Some(
            settings.inlay_hints.function_like_return_types.enabled,
        ),
        include_inlay_enum_member_value_hints: Some(settings.inlay_hints.enum_member_values.enabled),
        jsx_attribute_completion_style: Some(settings.preferences.jsx_attribute_completion_style),
        provide_prefix_and_suffix_text_for_rename: Some(settings.preferences.use_aliases_for_renames),
        quote_preference: if config.config_file {
            base.quote_preference
        } else {
            Some(settings.preferences.quote_style)
        },
        ..base
    }
}

/// The preferences for a module, when the settings of its language are the ones given.
pub open spec fn are_preferences(
    r: UserPreferences,
    config: Config,
    fmt_config: FmtOptionsConfig,
    specifier: Seq<char>,
    settings: Option<LanguageWorkspaceSettings>,
) -> bool {
    let base = base_preferences(config, fmt_config, specifier);
    match settings {
        Some(settings) => {
            &&& r == (UserPreferences {
                auto_import_file_exclude_patterns: r.auto_import_file_exclude_patterns,
                ..language_preferences(config, base, settings)
            })
            &&& views::opt_seq_view(r.auto_import_file_exclude_patterns) == Some(
                views::seq_view(settings.preferences.auto_import_file_exclude_patterns@),
            )
        },
        None => r == base,
    }
}

impl UserPreferences {
    /// The preferences that the settings come to for a module.
    pub fn from_config_for_specifier(
        config: &Config,
        fmt_config: &FmtOptionsConfig,
        specifier: &ModuleSpecifier,
    ) -> (r: UserPreferences)
        ensures
            are_preferences(
                r,
                *config,
                *fmt_config,
                specifier@,
                config.language_settings(specifier@),
            ),
    {
        let settings = config.language_settings_for_specifier(specifier);
        UserPreferences::from_settings(config, fmt_config, specifier, settings)
    }

    /// The preferences for a module, when the settings of its language are the ones given.
    pub fn from_settings(
        config: &Config,
        fmt_config: &FmtOptionsConfig,
        specifier: &ModuleSpecifier,
        settings: Option<&LanguageWorkspaceSettings>,
    ) -> (r: UserPreferences)
        ensures
            are_preferences(
                r,
                *config,
                *fmt_config,
                specifier@,
                match settings {
                    Some(settings) => Some(*settings),
                    None => None,
                },
            ),
    {
        let base_preferences = UserPreferences {
            allow_incomplete_completions: Some(true),
            import_module_specifier_ending: Some(ImportModuleSpecifierEnding::Index),
            include_completions_with_snippet_text: Some(config.client_capabilities.snippet_support),
            provide_refactor_not_applicable_reason: Some(true),
            use_label_details_in_completion_entries: Some(true),
            allow_text_changes_in_new_files: Some(specifier.has_scheme("file")),
            quote_preference: Some(QuotePreference::from(fmt_config)),
            ..Default::default()
        };
        let settings = match settings {
            Some(settings) => settings,
            None => return base_preferences,
        };
        let patterns = settings.preferences.auto_import_file_exclude_patterns.clone();
        assert(views::seq_view(patterns@) =~= views::seq_view(
            settings.preferences.auto_import_file_exclude_patterns@,
        ));
        UserPreferences {
            include_automatic_optional_chain_completions: Some(
                settings.suggest.enabled && settings.suggest.include_automatic_optional_chain_completions,
            ),
            include_completions_for_import_statements: Some(
                settings.suggest.enabled && settings.suggest.include_completions_for_import_statements,
            ),
            include_completions_for_module_exports: Some(
                settings.suggest.enabled && settings.suggest.auto_imports,
            ),
            include_completions_with_class_member_snippets: Some(
                settings.suggest.enabled && settings.suggest.class_member_snippets.enabled
                    && config.client_capabilities.snippet_support,
            ),
            include_completions_with_insert_text: Some(settings.suggest.enabled),
            include_completions_with_object_literal_method_snippets: Some(
                settings.suggest.enabled && settings.suggest.object_literal_method_snippets.enabled
                    && config.client_capabilities.snippet_support,
            ),
            import_module_specifier_preference: Some(settings.preferences.import_module_specifier),
            include_inlay_parameter_name_hints: Some(
                IncludeInlayParameterNameHints::from(&settings.inlay_hints.parameter_names.enabled),
            ),
            include_inlay_parameter_name_hints_when_argument_matches_name: Some(
                !settings.inlay_hints.parameter_names.suppress_when_argument_matches_name,
            ),
            include_inlay_function_parameter_type_hints: Some(settings.inlay_hints.parameter_types.enabled),
            include_inlay_variable_type_hints: Some(settings.inlay_hints.variable_types.enabled),
            include_inlay_variable_type_hints_when_type_matches_name: Some(
                !settings.inlay_hints.variable_types.suppress_when_type_matches_name,
            ),
            include_inlay_property_declaration_type_hints: Some(
                settings.inlay_hints.property_declaration_types.enabled,
            ),
            include_inlay_function_like_return_type_hints: Some(
                settings.inlay_hints.function_like_return_types.enabled,
            ),
            include_inlay_enum_member_value_hints: Some(settings.inlay_hints.enum_member_values.enabled),
            jsx_attribute_completion_style: Some(settings.preferences.jsx_attribute_completion_style),
            provide_prefix_and_suffix_text_for_rename: Some(settings.preferences.use_aliases_for_renames),
            quote_preference: if config.has_config_file() {
                base_preferences.quote_preference
            } else {
                Some(settings.preferences.quote_style)
            },
            auto_import_file_exclude_patterns: Some(patterns),
            ..base_preferences
        }
    }
}

/// The hints that are suppressed under the settings of a language are not asked for.
pub proof fn law_suppressed_hints_are_left_out(
    config: Config,
    base: UserPreferences,
    settings: LanguageWorkspaceSettings,
)
    ensures
        language_preferences(
            config,
            base,
            settings,
        ).include_inlay_parameter_name_hints_when_argument_matches_name == Some(
            !settings.inlay_hints.parameter_names.suppress_when_argument_matches_name,
        ),
        language_preferences(
            config,
            base,
            settings,
        ).include_inlay_variable_type_hints_when_type_matches_name == Some(
            !settings.inlay_hints.variable_types.suppress_when_type_matches_name,
        ),
{
}

/// Where suggestions are off, no completions are asked for beyond those of the language.
pub proof fn law_no_suggestions_when_off(
    config: Config,
    base: UserPreferences,
    settings: LanguageWorkspaceSettings,
)
    requires
        !settings.suggest.enabled,
    ensures
        ({
            let preferences = language_preferences(config, base, settings);
            &&& preferences.include_automatic_optional_chain_completions == Some(false)
            &&& preferences.include_completions_for_import_statements == Some(false)
            &&& preferences.include_completions_for_module_exports == Some(false)
            &&& preferences.include_completions_with_class_member_snippets == Some(false)
            &&& preferences.include_completions_with_insert_text == Some(false)
            &&& preferences.include_completions_with_object_literal_method_snippets == Some(false)
        }),
{
}

/// A client without snippets is sent none.
pub proof fn law_no_snippets_without_support(
    config: Config,
    fmt_config: FmtOptionsConfig,
    specifier: Seq<char>,
    settings: LanguageWorkspaceSettings,
)
    requires
        !config.client_capabilities.snippet_support,
    ensures
        ({
            let base = base_preferences(config, fmt_config, specifier);
            let preferences = language_preferences(config, base, settings);
            &&& preferences.include_completions_with_snippet_text == Some(false)
            &&& preferences.include_completions_with_class_member_snippets == Some(false)
            &&& preferences.include_completions_with_object_literal_method_snippets == Some(false)
        }),
{
}

/// How strings are quoted is up to the formatter where there is a configuration file, and up to the
/// settings of the language where there is none.
pub proof fn law_configuration_file_sets_quotes(
    config: Config,
    base: UserPreferences,
    settings: LanguageWorkspaceSettings,
)
    ensures
        config.config_file ==> language_preferences(config, base, settings).quote_preference
            == base.quote_preference,
        !config.config_file ==> language_preferences(config, base, settings).quote_preference
            == Some(settings.preferences.quote_style),
{
}

/// The preferences say what the settings of the language of the module say. What a setting turns off is
/// not asked for, and what depends on suggestions or snippets is asked for only where those are on.
/// Some things hold for every module, and a module of no language has nothing else set.
pub proof fn law_preferences_follow_the_settings(
    r: UserPreferences,
    config: Config,
    fmt_config: FmtOptionsConfig,
    specifier: Seq<char>,
    settings: Option<LanguageWorkspaceSettings>,
)
    requires
        are_preferences(r, config, fmt_config, specifier, settings),
    ensures
        ({
            &&& r.allow_incomplete_completions == Some(true)
            &&& r.import_module_specifier_ending == Some(ImportModuleSpecifierEnding::Index)
            &&& r.include_completions_with_snippet_text == Some(
                config.client_capabilities.snippet_support,
            )
            &&& r.provide_refactor_not_applicable_reason == Some(true)
            &&& r.use_label_details_in_completion_entries == Some(true)
            &&& r.allow_text_changes_in_new_files == Some(true) <==> specifier::scheme_of(
                specifier,
            ) == "file"@
            &&& r.allow_text_changes_in_new_files is Some
            &&& r.disable_suggestions is None
            &&& r.include_package_json_auto_imports is None
            &&& r.allow_rename_of_import_path is None
        }),
        settings matches Some(settings) ==> {
                let quotes = settings.preferences.quote_style;
                let names = settings.inlay_hints.parameter_names.enabled;
                let patterns = settings.preferences.auto_import_file_exclude_patterns@;
                &&& r.include_automatic_optional_chain_completions == Some(
                    settings.suggest.enabled
                        && settings.suggest.include_automatic_optional_chain_completions,
                )
                &&& r.include_completions_for_import_statements == Some(
                    settings.suggest.enabled
                        && settings.suggest.include_completions_for_import_statements,
                )
                &&& r.include_completions_for_module_exports == Some(
                    settings.suggest.enabled && settings.suggest.auto_imports,
                )
                &&& r.include_completions_with_class_member_snippets == Some(
                    settings.suggest.enabled && settings.suggest.class_member_snippets.enabled
                        && config.client_capabilities.snippet_support,
                )
                &&& r.include_completions_with_insert_text == Some(
                    settings.suggest.enabled,
                )
                &&& r.include_completions_with_object_literal_method_snippets == Some(
                    settings.suggest.enabled
                        && settings.suggest.object_literal_method_snippets.enabled
                        && config.client_capabilities.snippet_support,
                )
                &&& r.import_module_specifier_preference == Some(
                    settings.preferences.import_module_specifier,
                )
                &&& r.include_inlay_parameter_name_hints_when_argument_matches_name == Some(
                    !settings.inlay_hints.parameter_names.suppress_when_argument_matches_name,
                )
                &&& r.include_inlay_function_parameter_type_hints == Some(
                    settings.inlay_hints.parameter_types.enabled,
                )
                &&& r.include_inlay_variable_type_hints == Some(
                    settings.inlay_hints.variable_types.enabled,
                )
                &&& r.include_inlay_variable_type_hints_when_type_matches_name == Some(
                    !settings.inlay_hints.variable_types.suppress_when_type_matches_name,
                )
                &&& r.include_inlay_property_declaration_type_hints == Some(
                    settings.inlay_hints.property_declaration_types.enabled,
                )
                &&& r.include_inlay_function_like_return_type_hints == Some(
                    settings.inlay_hints.function_like_return_types.enabled,
                )
                &&& r.include_inlay_enum_member_value_hints == Some(
                    settings.inlay_hints.enum_member_values.enabled,
                )
                &&& r.jsx_attribute_completion_style == Some(
                    settings.preferences.jsx_attribute_completion_style,
                )
                &&& r.provide_prefix_and_suffix_text_for_rename == Some(
                    settings.preferences.use_aliases_for_renames,
                )
                &&& r.include_inlay_parameter_name_hints == Some(
                    IncludeInlayParameterNameHints::All,
                ) <==> names == InlayHintsParamNamesEnabled::All
                &&& r.include_inlay_parameter_name_hints == Some(
                    IncludeInlayParameterNameHints::Literals,
                ) <==> names == InlayHintsParamNamesEnabled::Literals
                &&& r.include_inlay_parameter_name_hints == Some(
                    IncludeInlayParameterNameHints::Nothing,
                ) <==> names == InlayHintsParamNamesEnabled::Nothing
                &&& !config.config_file ==> r.quote_preference == Some(quotes)
                &&& r.auto_import_file_exclude_patterns matches Some(list) && list@.len()
                    == patterns.len() && forall|i: int|
                    0 <= i < list@.len() ==> (#[trigger] list@[i])@ == patterns[i]@
            },
        settings is None ==> {
                &&& r.include_automatic_optional_chain_completions is None
                &&& r.include_completions_for_import_statements is None
                &&& r.include_completions_for_module_exports is None
                &&& r.include_completions_with_class_member_snippets is None
                &&& r.include_completions_with_insert_text is None
                &&& r.include_completions_with_object_literal_method_snippets is None
                &&& r.import_module_specifier_preference is None
                &&& r.include_inlay_parameter_name_hints_when_argument_matches_name is None
                &&& r.include_inlay_function_parameter_type_hints is None
                &&& r.include_inlay_variable_type_hints is None
                &&& r.include_inlay_variable_type_hints_when_type_matches_name is None
                &&& r.include_inlay_property_declaration_type_hints is None
                &&& r.include_inlay_function_like_return_type_hints is None
                &&& r.include_inlay_enum_member_value_hints is None
                &&& r.jsx_attribute_completion_style is None
                &&& r.provide_prefix_and_suffix_text_for_rename is None
                &&& r.include_inlay_parameter_name_hints is None
                &&& r.auto_import_file_exclude_patterns is None
            },
        settings is None || config.config_file ==> (r.quote_preference == Some(
            config::QuoteStyle::Single,
        ) <==> fmt_config.single_quote == Some(true)) && (r.quote_preference == Some(
            config::QuoteStyle::Double,
        ) <==> fmt_config.single_quote != Some(true)),
{
    if settings is Some {
        let patterns = settings->0.preferences.auto_import_file_exclude_patterns@;
        let list = r.auto_import_file_exclude_patterns->0@;
        assert(views::seq_view(list).len() == views::seq_view(patterns).len());
        assert forall|i: int| 0 <= i < list.len() implies (#[trigger] list[i])@
            == patterns[i]@ by {
            assert(views::seq_view(list)[i] == views::seq_view(patterns)[i]);
        }
    }
}

/// What completions are asked for.
#[derive(Debug)]
pub struct GetCompletionsAtPositionOptions {
    pub user_preferences: UserPreferences,
    pub trigger_character: Option<String>,
    pub trigger_kind: Option<CompletionTriggerKind>,
}

impl Default for GetCompletionsAtPositionOptions {
    fn default() -> (r: Self)
        ensures
            r == (GetCompletionsAtPositionOptions {
                user_preferences: no_preferences(),
                trigger_character: None,
                trigger_kind: None,
            }),
    {
        GetCompletionsAtPositionOptions {
            user_preferences: UserPreferences::default(),
            trigger_character: None,
            trigger_kind: None,
        }
    }
}

/// What called for help with a signature.
#[derive(Debug, Clone, Copy, PartialEq, Eq, Structural)]
pub enum SignatureHelpTriggerKind {
    CharacterTyped,
    Invoked,
    Retrigger,
    Unknown,
}

impl vstd::std_specs::convert::FromSpecImpl<lsp::SignatureHelpTriggerKind> for SignatureHelpTriggerKind {
    open spec fn obeys_from_spec() -> bool {
        true
    }

    open spec fn from_spec(kind: lsp::SignatureHelpTriggerKind) -> Self {
        if kind.0 == 1 {
            SignatureHelpTriggerKind::Invoked
        } else if kind.0 == 2 {
            SignatureHelpTriggerKind::CharacterTyped
        } else if kind.0 == 3 {
            SignatureHelpTriggerKind::Retrigger
        } else {
            SignatureHelpTriggerKind::Unknown
        }
    }
}

impl From<lsp::SignatureHelpTriggerKind> for SignatureHelpTriggerKind {
    fn from(kind: lsp::SignatureHelpTriggerKind) -> (r: Self)
        ensures
            r == SignatureHelpTriggerKind::Invoked <==> kind.0 == 1,
            r == SignatureHelpTriggerKind::CharacterTyped <==> kind.0 == 2,
            r == SignatureHelpTriggerKind::Retrigger <==> kind.0 == 3,
            r == SignatureHelpTriggerKind::Unknown <==> kind.0 < 1 || kind.0 > 3,
    {
        match kind.0 {
            1 => SignatureHelpTriggerKind::Invoked,
            2 => SignatureHelpTriggerKind::CharacterTyped,
            3 => SignatureHelpTriggerKind::Retrigger,
            _ => SignatureHelpTriggerKind::Unknown,
        }
    }
}

/// Why help with a signature is asked for.
#[derive(Debug)]
pub struct SignatureHelpTriggerReason {
    pub kind: SignatureHelpTriggerKind,
    pub trigger_character: Option<String>,
}

/// What help with a signature is asked for.
#[derive(Debug)]
pub struct SignatureHelpItemsOptions {
    pub trigger_reason: Option<SignatureHelpTriggerReason>,
}

/// What symbols are searched for.
#[derive(Debug)]
pub struct GetNavigateToItemsArgs {
    pub search: String,
    pub max_result_count: Option<u32>,
    pub file: Option<String>,
}

/// Where nothing is preferred, nothing is set, and so with the settings for formatting.
pub proof fn law_nothing_is_set_by_default()
    ensures
        no_preferences().disable_suggestions is None,
        no_preferences().quote_preference is None,
        no_preferences().include_completions_for_module_exports is None,
        no_preferences().include_completions_for_import_statements is None,
        no_preferences().include_completions_with_snippet_text is None,
        no_preferences().include_automatic_optional_chain_completions is None,
        no_preferences().include_completions_with_insert_text is None,
        no_preferences().include_completions_with_class_member_snippets is None,
        no_preferences().include_completions_with_object_literal_method_snippets is None,
        no_preferences().use_label_details_in_completion_entries is None,
        no_preferences().allow_incomplete_completions is None,
        no_preferences().import_module_specifier_preference is None,
        no_preferences().import_module_specifier_ending is None,
        no_preferences().allow_text_changes_in_new_files is None,
        no_preferences().provide_prefix_and_suffix_text_for_rename is None,
        no_preferences().include_package_json_auto_imports is None,
        no_preferences().provide_refactor_not_applicable_reason is None,
        no_preferences().jsx_attribute_completion_style is None,
        no_preferences().include_inlay_parameter_name_hints is None,
        no_preferences().include_inlay_parameter_name_hints_when_argument_matches_name is None,
        no_preferences().include_inlay_function_parameter_type_hints is None,
        no_preferences().include_inlay_variable_type_hints is None,
        no_preferences().include_inlay_variable_type_hints_when_type_matches_name is None,
        no_preferences().include_inlay_property_declaration_type_hints is None,
        no_preferences().include_inlay_function_like_return_type_hints is None,
        no_preferences().include_inlay_enum_member_value_hints is None,
        no_preferences().allow_rename_of_import_path is None,
        no_preferences().auto_import_file_exclude_patterns is None,
        no_format().base_indent_size is None,
        no_format().indent_size is None,
        no_format().tab_size is None,
        no_format().new_line_character is None,
        no_format().convert_tabs_to_spaces is None,
        no_format().indent_style is None,
        no_format().trim_trailing_whitespace is None,
        no_format().insert_space_after_comma_delimiter is None,
        no_format().insert_space_after_semicolon_in_for_statements is None,
        no_format().insert_space_before_and_after_binary_operators is None,
        no_format().insert_space_after_constructor is None,
        no_format().insert_space_after_keywords_in_control_flow_statements is None,
        no_format().insert_space_after_function_keyword_for_anonymous_functions is None,
        no_format().insert_space_after_opening_and_before_closing_nonempty_parenthesis is None,
        no_format().insert_space_after_opening_and_before_closing_nonempty_brackets is None,
        no_format().insert_space_after_opening_and_before_closing_nonempty_braces is None,
        no_format().insert_space_after_opening_and_before_closing_template_string_braces is None,
        no_format().insert_space_after_opening_and_before_closing_jsx_expression_braces is None,
        no_format().insert_space_after_type_assertion is None,
        no_format().insert_space_before_function_parenthesis is None,
        no_format().place_open_brace_on_new_line_for_functions is None,
        no_format().place_open_brace_on_new_line_for_control_blocks is None,
        no_format().insert_space_before_type_annotation is None,
        no_format().indent_multi_line_object_literal_beginning_on_blank_line is None,
        no_format().semicolons is None,
        no_format().indent_switch_case is None,
{
}

} // verus!
