use tsc::completion::GetCompletionDetailsArgs;
use tsc::display::SymbolDisplayPart;
use tsc::document_span::DocumentSpan;
use tsc::edits::{CombinedCodeActions, FileTextChanges, RefactorEditInfo};
use tsc::element::ScriptElementKind;
use tsc::error::{LspError, TscError};
use tsc::hierarchy::{CallHierarchyIncomingCall, CallHierarchyItem, CallHierarchyOutgoingCall};
use tsc::language_server::{Inner, LspUrlMap};
use tsc::locations::{
    DefinitionInfo, DefinitionInfoAndBoundSpan, ImplementationLocation, RenameLocation,
};
use tsc::navigation::NavigateToItem;
use tsc::preferences::{
    FormatCodeSettings, GetCompletionsAtPositionOptions, SignatureHelpItemsOptions,
    UserPreferences,
};
use tsc::server::{RequestArg, TextRange, TscRequest, TsServer};
use tsc::signature::SignatureHelpItem;
use tsc::span::TextSpan;
use tsc::specifier::ModuleSpecifier;

fn specifier(text: &str) -> ModuleSpecifier {
    ModuleSpecifier::parse(text).unwrap()
}

/// A request in one line: its method, and its arguments by their shape.
fn shown(request: &TscRequest) -> String {
    let mut out = request.method.to_string();
    for arg in &request.args {
        out.push(' ');
        out.push_str(&match arg {
            RequestArg::Null => "null".to_string(),
            RequestArg::Bool(value) => value.to_string(),
            RequestArg::Number(value) => value.to_string(),
            RequestArg::MaybeNumber(value) => format!("{:?}", value),
            RequestArg::Text(value) => format!("{:?}", value),
            RequestArg::MaybeText(value) => format!("{:?}", value),
            RequestArg::Texts(value) => format!("{:?}", value),
            RequestArg::Json(value) => value.clone(),
            RequestArg::MaybeJson(value) => format!("{:?}", value),
            RequestArg::Span(value) => format!("{}+{}", value.start, value.length),
            RequestArg::Range(value) => format!("{}..{}", value.pos, value.end),
            RequestArg::FileScope(value) => format!("file:{:?}", value),
            RequestArg::Format(value) => format!("format:{:?}", value.indent_size),
            RequestArg::Preferences(value) => format!("preferences:{:?}", value.disable_suggestions),
            RequestArg::MaybePreferences(value) => format!("preferences:{}", value.is_some()),
            RequestArg::CompletionOptions(value) => format!("options:{:?}", value.trigger_character),
            RequestArg::SignatureOptions(value) => format!("reason:{}", value.trigger_reason.is_some()),
        });
    }
    out
}

fn format(indent_size: u8) -> FormatCodeSettings {
    FormatCodeSettings { indent_size: Some(indent_size), ..FormatCodeSettings::default() }
}

fn preferences() -> UserPreferences {
    UserPreferences { disable_suggestions: Some(true), ..UserPreferences::default() }
}

#[test]
fn requests_at_positions() {
    let mut server = TsServer::new();
    let a = specifier("file:///a.ts");
    assert_eq!(shown(&server.get_navigation_tree(&a)), "getNavigationTree \"file:///a.ts\"");
    assert_eq!(shown(&server.get_outlining_spans(&a)), "getOutliningSpans \"file:///a.ts\"");
    let at = |request: &TscRequest, method: &str| {
        assert_eq!(shown(request), format!("{} \"file:///a.ts\" 7", method));
    };
    at(&server.get_quick_info(&a, 7), "getQuickInfoAtPosition");
    at(&server.get_definition(&a, 7), "getDefinitionAndBoundSpan");
    at(&server.get_type_definition(&a, 7), "getTypeDefinitionAtPosition");
    at(&server.get_implementations(&a, 7), "getImplementationAtPosition");
    at(&server.provide_call_hierarchy_incoming_calls(&a, 7), "provideCallHierarchyIncomingCalls");
    at(&server.provide_call_hierarchy_outgoing_calls(&a, 7), "provideCallHierarchyOutgoingCalls");
    at(&server.prepare_call_hierarchy(&a, 7), "prepareCallHierarchy");
    at(&server.get_smart_selection_range(&a, 7), "getSmartSelectionRange");
    assert_eq!(
        shown(&server.find_rename_locations(&a, 7)),
        "findRenameLocations \"file:///a.ts\" 7 false false false"
    );
    assert_eq!(
        shown(&server.get_document_highlights(&a, 7, &vec![specifier("https://a.b/c.ts?d")])),
        "getDocumentHighlights \"file:///a.ts\" 7 [\"https://a.b/c.ts?d.ts\"]"
    );
    let options = SignatureHelpItemsOptions { trigger_reason: None };
    assert_eq!(
        shown(&server.get_signature_help_items(&a, 7, options)),
        "getSignatureHelpItems \"file:///a.ts\" 7 reason:false"
    );
}

#[test]
fn requests_with_settings() {
    let mut server = TsServer::new();
    let a = specifier("file:///a.ts");
    let range = TextRange { pos: 1, end: 4 };
    assert_eq!(shown(&server.configure("{\"lib\":[]}".to_string())), "$configure {\"lib\":[]}");
    assert_eq!(shown(&server.get_supported_code_fixes()), "$getSupportedCodeFixes");
    assert_eq!(
        shown(&server.get_code_fixes(&a, range, vec!["2304".to_string()], format(4), preferences())),
        "getCodeFixesAtPosition \"file:///a.ts\" 1 4 [\"2304\"] format:Some(4) preferences:Some(true)"
    );
    assert_eq!(
        shown(&server.get_applicable_refactors(&a, range, Some(preferences()), "".to_string())),
        "getApplicableRefactors \"file:///a.ts\" 1..4 preferences:Some(true) null \"\""
    );
    assert_eq!(
        shown(&server.get_edits_for_refactor(
            &a,
            format(2),
            range,
            "Extract Symbol".to_string(),
            "constant_scope_0".to_string(),
            None,
        )),
        "getEditsForRefactor \"file:///a.ts\" format:Some(2) 1..4 \"Extract Symbol\" \
         \"constant_scope_0\" preferences:false"
    );
    assert_eq!(
        shown(&server.get_edits_for_file_rename(
            &a,
            &specifier("file:///b.ts"),
            format(2),
            preferences(),
        )),
        "getEditsForFileRename \"file:///a.ts\" \"file:///b.ts\" format:Some(2) preferences:Some(true)"
    );
    let options = GetCompletionsAtPositionOptions {
        trigger_character: Some(".".to_string()),
        ..GetCompletionsAtPositionOptions::default()
    };
    assert_eq!(
        shown(&server.get_completions(&a, 9, options, format(8))),
        "getCompletionsAtPosition \"file:///a.ts\" 9 options:Some(\".\") format:Some(8)"
    );
    let args = GetCompletionDetailsArgs {
        specifier: specifier("file:///a.ts"),
        position: 9,
        name: "log".to_string(),
        format_code_settings: None,
        source: Some("./b.ts".to_string()),
        preferences: None,
        data: Some("{}".to_string()),
    };
    assert_eq!(
        shown(&server.get_completion_details(args)),
        "getCompletionEntryDetails \"file:///a.ts\" 9 \"log\" format:None Some(\"./b.ts\") \
         preferences:false Some(\"{}\")"
    );
    let span = TextSpan { start: 2, length: 3 };
    assert_eq!(
        shown(&server.provide_inlay_hints(&a, span, preferences())),
        "provideInlayHints \"file:///a.ts\" 2+3 preferences:Some(true)"
    );
}

fn document_span(file: &str) -> DocumentSpan {
    DocumentSpan {
        text_span: TextSpan { start: 0, length: 1 },
        file_name: file.to_string(),
        original_text_span: None,
        context_span: None,
        original_context_span: None,
    }
}

fn changes(file: &str) -> FileTextChanges {
    FileTextChanges { file_name: file.to_string(), text_changes: vec![], is_new_file: None }
}

fn item(file: &str) -> CallHierarchyItem {
    CallHierarchyItem {
        name: "f".to_string(),
        kind: ScriptElementKind::FunctionElement,
        kind_modifiers: None,
        file: file.to_string(),
        span: TextSpan { start: 0, length: 0 },
        selection_span: TextSpan { start: 0, length: 0 },
        container_name: None,
    }
}

#[test]
fn every_file_name_of_a_reply_is_read() {
    let mut server = TsServer::new();
    let request = server.get_definition(&specifier("https://a.b/c.ts?d"), 0);
    assert_eq!(shown(&request), "getDefinitionAndBoundSpan \"https://a.b/c.ts?d.ts\" 0");
    let definitions = Some(vec![DefinitionInfo { document_span: document_span("https://a.b/c.ts?d.ts") }]);
    let reply = server.get_definition_reply(Ok(Some(DefinitionInfoAndBoundSpan { definitions })));
    let definitions = reply.unwrap().unwrap().definitions.unwrap();
    assert_eq!(definitions[0].document_span.file_name, "https://a.b/c.ts?d");

    let doubled = "file:///a.d.ts.d.ts";
    let plain = "file:///a.d.ts";
    let reply = server.get_type_definition_reply(Ok(Some(vec![DefinitionInfo {
        document_span: document_span(doubled),
    }])));
    assert_eq!(reply.unwrap().unwrap()[0].document_span.file_name, plain);
    let reply = server.get_implementations_reply(Ok(Some(vec![ImplementationLocation {
        document_span: document_span(doubled),
    }])));
    assert_eq!(reply.unwrap().unwrap()[0].document_span.file_name, plain);
    let reply = server.find_rename_locations_reply(Ok(Some(vec![RenameLocation {
        document_span: document_span(doubled),
    }])));
    assert_eq!(reply.unwrap().unwrap()[0].document_span.file_name, plain);
    let reply = server.get_combined_code_fix_reply(Ok(CombinedCodeActions {
        changes: vec![changes(doubled)],
        commands: None,
    }));
    assert_eq!(reply.unwrap().changes[0].file_name, plain);
    let reply = server.get_edits_for_refactor_reply(Ok(RefactorEditInfo {
        edits: vec![changes(doubled)],
        rename_location: Some(3),
    }));
    let info = reply.unwrap();
    assert_eq!(info.edits[0].file_name, plain);
    assert_eq!(info.rename_location, Some(3));
    let reply = server.get_edits_for_file_rename_reply(Ok(vec![changes(doubled)]));
    assert_eq!(reply.unwrap()[0].file_name, plain);
    let reply = server.provide_call_hierarchy_incoming_calls_reply(Ok(vec![
        CallHierarchyIncomingCall { from: item(doubled), from_spans: vec![] },
    ]));
    assert_eq!(reply.unwrap()[0].from.file, plain);
    let reply = server.provide_call_hierarchy_outgoing_calls_reply(Ok(vec![
        CallHierarchyOutgoingCall { to: item(doubled), from_spans: vec![] },
    ]));
    assert_eq!(reply.unwrap()[0].to.file, plain);
    let reply = server.get_navigate_to_items_reply(Ok(vec![NavigateToItem {
        name: "f".to_string(),
        kind: ScriptElementKind::FunctionElement,
        kind_modifiers: String::new(),
        file_name: doubled.to_string(),
        text_span: TextSpan { start: 0, length: 1 },
        container_name: None,
    }]));
    assert_eq!(reply.unwrap()[0].file_name, plain);
}

#[test]
fn failures_are_answered_by_their_kind() {
    let mut server = TsServer::new();
    let failed = TscError::ScriptFailed;
    assert_eq!(server.get_supported_code_fixes_reply(Err(failed)).unwrap_err(), LspError::InternalError);
    assert_eq!(server.get_quick_info_reply(Err(failed)).unwrap_err(), LspError::InternalError);
    assert_eq!(server.get_combined_code_fix_reply(Err(failed)).unwrap_err(), LspError::InternalError);
    assert_eq!(server.get_document_highlights_reply(Err(failed)).unwrap_err(), LspError::InternalError);
    assert_eq!(server.get_definition_reply(Err(failed)).unwrap_err(), LspError::InternalError);
    assert_eq!(server.get_type_definition_reply(Err(failed)).unwrap_err(), LspError::InternalError);
    assert_eq!(server.provide_inlay_hints_reply(Err(failed)).unwrap_err(), LspError::InternalError);
    assert_eq!(server.get_applicable_refactors_reply(Err(failed)).unwrap_err(), LspError::InvalidRequest);
    assert_eq!(server.get_edits_for_refactor_reply(Err(failed)).unwrap_err(), LspError::InvalidRequest);
    assert_eq!(server.get_edits_for_file_rename_reply(Err(failed)).unwrap_err(), LspError::InvalidRequest);
    assert_eq!(server.get_implementations_reply(Err(failed)).unwrap_err(), LspError::InvalidRequest);
    assert_eq!(server.provide_call_hierarchy_incoming_calls_reply(Err(failed)).unwrap_err(), LspError::InvalidRequest);
    assert_eq!(server.provide_call_hierarchy_outgoing_calls_reply(Err(failed)).unwrap_err(), LspError::InvalidRequest);
    assert_eq!(server.prepare_call_hierarchy_reply(Err(failed)).unwrap_err(), LspError::InvalidRequest);
    assert_eq!(server.find_rename_locations_reply(Err(failed)).unwrap_err(), LspError::InvalidRequest);
    assert_eq!(server.get_smart_selection_range_reply(Err(failed)).unwrap_err(), LspError::InvalidRequest);
    assert_eq!(
        server.get_encoded_semantic_classifications_reply(Err(failed)).unwrap_err(),
        LspError::InvalidRequest
    );
    assert_eq!(server.get_signature_help_items_reply(Err(failed)).unwrap_err(), LspError::InvalidRequest);
    assert_eq!(server.get_navigate_to_items_reply(Err(failed)).unwrap_err(), LspError::InvalidRequest);
}

#[test]
fn signatures_without_parameters() {
    let part = |text: &str| SymbolDisplayPart { text: text.to_string(), kind: "text".to_string(), target: None };
    let item = SignatureHelpItem {
        prefix_display_parts: vec![part("g(")],
        suffix_display_parts: vec![part("): void")],
        parameters: vec![],
        documentation: vec![],
    };
    let server = Inner { documents: vec![], url_map: LspUrlMap { entries: vec![] }, imports: vec![] };
    let signature = item.into_signature_information(&server);
    assert_eq!(signature.label, "g(): void");
    assert!(signature.parameters.is_empty());
}
