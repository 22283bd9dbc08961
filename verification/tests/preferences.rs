use tsc::config::{
    Config, FmtOptionsConfig, ImportModuleSpecifier, InlayHintsParamNamesEnabled, QuoteStyle,
    WorkspaceSettings,
};
use tsc::lsp;
use tsc::preferences::{
    CompletionTriggerKind, FormatCodeSettings, ImportModuleSpecifierEnding,
    IncludeInlayParameterNameHints, IndentStyle, SemicolonPreference, SignatureHelpTriggerKind,
    UserPreferences,
};
use tsc::specifier::ModuleSpecifier;

fn specifier(text: &str) -> ModuleSpecifier {
    ModuleSpecifier::parse(text).unwrap()
}

#[test]
fn include_suppress_inlay_hint_settings() {
    let mut settings = WorkspaceSettings::default();
    settings.typescript.inlay_hints.parameter_names.suppress_when_argument_matches_name = true;
    settings.typescript.inlay_hints.variable_types.suppress_when_type_matches_name = true;
    let mut config = Config::new();
    config.set_workspace_settings(settings, None);
    let user_preferences = UserPreferences::from_config_for_specifier(
        &config,
        &Default::default(),
        &ModuleSpecifier::parse("file:///foo.ts").unwrap(),
    );
    assert_eq!(
        user_preferences.include_inlay_variable_type_hints_when_type_matches_name,
        Some(false)
    );
    assert_eq!(
        user_preferences.include_inlay_parameter_name_hints_when_argument_matches_name,
        Some(false)
    );
}

#[test]
fn base_preferences_without_a_language() {
    let config = Config::new();
    let preferences = UserPreferences::from_config_for_specifier(
        &config,
        &FmtOptionsConfig { single_quote: Some(true), ..Default::default() },
        &specifier("https://a.b/c.json"),
    );
    assert_eq!(preferences.allow_incomplete_completions, Some(true));
    assert_eq!(preferences.allow_text_changes_in_new_files, Some(false));
    assert_eq!(preferences.import_module_specifier_ending, Some(ImportModuleSpecifierEnding::Index));
    assert_eq!(preferences.quote_preference, Some(QuoteStyle::Single));
    assert_eq!(preferences.include_completions_with_snippet_text, Some(false));
    assert_eq!(preferences.include_completions_for_module_exports, None);
    assert!(preferences.auto_import_file_exclude_patterns.is_none());
}

#[test]
fn language_preferences_follow_the_settings() {
    let mut settings = WorkspaceSettings::default();
    settings.javascript.preferences.quote_style = QuoteStyle::Single;
    settings.javascript.preferences.import_module_specifier = ImportModuleSpecifier::Relative;
    settings.javascript.preferences.auto_import_file_exclude_patterns = vec!["x".to_string()];
    settings.javascript.inlay_hints.parameter_names.enabled = InlayHintsParamNamesEnabled::Literals;
    let mut config = Config::new();
    config.set_workspace_settings(settings, None);
    config.client_capabilities.snippet_support = true;
    let fmt = FmtOptionsConfig::default();
    let preferences = UserPreferences::from_config_for_specifier(&config, &fmt, &specifier("file:///a.jsx"));
    assert_eq!(preferences.quote_preference, Some(QuoteStyle::Single));
    assert_eq!(preferences.import_module_specifier_preference, Some(ImportModuleSpecifier::Relative));
    assert_eq!(preferences.auto_import_file_exclude_patterns, Some(vec!["x".to_string()]));
    assert_eq!(preferences.include_inlay_parameter_name_hints, Some(IncludeInlayParameterNameHints::Literals));
    assert_eq!(preferences.include_completions_with_class_member_snippets, Some(true));
    assert_eq!(preferences.allow_text_changes_in_new_files, Some(true));
    config.config_file = true;
    let preferences = UserPreferences::from_config_for_specifier(&config, &fmt, &specifier("file:///a.jsx"));
    assert_eq!(preferences.quote_preference, Some(QuoteStyle::Double));
}

#[test]
fn suggestions_and_snippets_can_be_off() {
    let mut settings = WorkspaceSettings::default();
    settings.typescript.suggest.enabled = false;
    let mut config = Config::new();
    config.set_workspace_settings(settings, None);
    let preferences =
        UserPreferences::from_config_for_specifier(&config, &Default::default(), &specifier("file:///a.ts"));
    assert_eq!(preferences.include_completions_for_import_statements, Some(false));
    assert_eq!(preferences.include_completions_with_insert_text, Some(false));
    assert_eq!(preferences.include_completions_with_class_member_snippets, Some(false));
    assert_eq!(preferences.include_completions_with_object_literal_method_snippets, Some(false));
}

#[test]
fn settings_of_folders_and_notebooks() {
    let mut folder = WorkspaceSettings::default();
    folder.typescript.preferences.use_aliases_for_renames = false;
    let mut config = Config::new();
    config.set_workspace_settings(
        WorkspaceSettings::default(),
        Some(vec![(specifier("file:///project/"), folder)]),
    );
    let inside = config.language_settings_for_specifier(&specifier("file:///project/a.ts")).unwrap();
    assert!(!inside.preferences.use_aliases_for_renames);
    let outside = config.language_settings_for_specifier(&specifier("file:///other/a.ts")).unwrap();
    assert!(outside.preferences.use_aliases_for_renames);
    assert!(config.language_settings_for_specifier(&specifier("deno-notebook-cell:/a/b#c")).is_some());
    assert!(config.language_settings_for_specifier(&specifier("file:///a.md")).is_none());
}

#[test]
fn format_settings_follow_the_formatter() {
    let settings = FormatCodeSettings::from(&FmtOptionsConfig::default());
    assert_eq!(settings.indent_size, Some(2));
    assert_eq!(settings.tab_size, Some(2));
    assert_eq!(settings.new_line_character, Some("\n".to_string()));
    assert_eq!(settings.convert_tabs_to_spaces, Some(true));
    assert_eq!(settings.indent_style, Some(IndentStyle::Block));
    assert_eq!(settings.semicolons, Some(SemicolonPreference::Insert));
    let settings = FormatCodeSettings::from(&FmtOptionsConfig {
        use_tabs: Some(true),
        indent_width: Some(4),
        single_quote: None,
        semi_colons: Some(false),
    });
    assert_eq!(settings.indent_size, Some(4));
    assert_eq!(settings.convert_tabs_to_spaces, Some(false));
    assert_eq!(settings.semicolons, Some(SemicolonPreference::Remove));
    assert_eq!(settings.clone().insert_space_after_comma_delimiter, Some(true));
    assert!(FormatCodeSettings::default().indent_size.is_none());
}

#[test]
fn trigger_kinds() {
    let kind = |n: i32| CompletionTriggerKind::from(lsp::CompletionTriggerKind(n));
    assert_eq!(kind(1), CompletionTriggerKind::Invoked);
    assert_eq!(kind(2), CompletionTriggerKind::TriggerCharacter);
    assert_eq!(kind(3), CompletionTriggerKind::TriggerForIncompleteCompletions);
    assert_eq!(kind(9), CompletionTriggerKind::Invoked);
    assert_eq!(kind(3).number(), 3);
    let kind = |n: i32| SignatureHelpTriggerKind::from(lsp::SignatureHelpTriggerKind(n));
    assert_eq!(kind(1), SignatureHelpTriggerKind::Invoked);
    assert_eq!(kind(2), SignatureHelpTriggerKind::CharacterTyped);
    assert_eq!(kind(3), SignatureHelpTriggerKind::Retrigger);
    assert_eq!(kind(0), SignatureHelpTriggerKind::Unknown);
    assert_eq!(IndentStyle::Smart.number(), 2);
}
