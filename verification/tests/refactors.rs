use std::sync::Arc;
use tsc::error::LspError;
use tsc::language_server::{AssetOrDocument, Document, Inner, LspUrlMap};
use tsc::lsp::{FoldingRangeKind, Position, Range};
use tsc::outlining::{OutliningSpan, OutliningSpanKind, SelectionRange};
use tsc::refactor::{ApplicableRefactorInfo, RefactorActionInfo};
use tsc::semantic_tokens::{Classifications, SemanticToken, SemanticTokensBuilder};
use tsc::signature::{SignatureHelpItem, SignatureHelpItems, SignatureHelpParameter};
use tsc::display::SymbolDisplayPart;
use tsc::span::TextSpan;
use tsc::specifier::{MediaType, ModuleSpecifier};
use tsc::text::LineIndex;

fn specifier(text: &str) -> ModuleSpecifier {
    ModuleSpecifier::parse(text).unwrap()
}

fn action(name: &str, kind: Option<&str>) -> RefactorActionInfo {
    RefactorActionInfo {
        name: name.to_string(),
        description: format!("Do {}", name),
        not_applicable_reason: None,
        kind: kind.map(|k| k.to_string()),
    }
}

#[test]
fn kinds_of_actions() {
    let kind = |name: &str| action(name, None).get_action_kind();
    assert_eq!(kind("function_scope_0"), "refactor.extract.function");
    assert_eq!(kind("constant_scope_0"), "refactor.extract.constant");
    assert_eq!(kind("Extract to type alias"), "refactor.extract.type");
    assert_eq!(kind("Extract to interface"), "refactor.extract.interface");
    assert_eq!(kind("Move to a new file"), "refactor.move.newFile");
    assert_eq!(kind("Convert named imports to namespace import"), "refactor.rewrite.import");
    assert_eq!(kind("Convert default export to named export"), "refactor.rewrite.export");
    assert_eq!(kind("Something else"), "refactor");
    assert_eq!(action("constant_scope_0", Some("refactor.own")).get_action_kind(), "refactor.own");
}

#[test]
fn preferred_actions() {
    let actions = vec![action("constant_scope_1", None), action("constant_scope_2", None), action("function_scope_0", None)];
    assert!(action("constant_scope_0", None).is_preferred(&actions));
    assert!(!action("constant_scope_1", None).is_preferred(&actions));
    assert!(!actions[0].is_preferred(&actions));
    assert!(!action("constant_", None).is_preferred(&actions));
    assert!(action("Extract to type alias", None).is_preferred(&actions));
    assert!(action("Extract to interface", None).is_preferred(&[]));
    assert!(!action("function_scope_0", None).is_preferred(&actions));
    let without_scope = vec![action("constant_outer", None)];
    assert!(action("constant_scope_5", None).is_preferred(&without_scope));
}

#[test]
fn code_actions_of_refactors() {
    let mut disabled = action("function_scope_0", None);
    disabled.not_applicable_reason = Some("No.".to_string());
    let info = ApplicableRefactorInfo { name: "Extract".to_string(), actions: vec![disabled] };
    let range = Range { start: Position { line: 1, character: 2 }, end: Position { line: 1, character: 3 } };
    let actions = info.to_code_actions(&specifier("file:///a.ts"), &range);
    assert_eq!(actions.len(), 1);
    assert_eq!(actions[0].title, "Do function_scope_0");
    assert_eq!(actions[0].kind, Some("refactor.extract.function".to_string()));
    assert_eq!(actions[0].is_preferred, Some(false));
    assert_eq!(actions[0].disabled, Some("No.".to_string()));
    let data = actions[0].data.as_ref().unwrap();
    assert_eq!(data.specifier.as_str(), "file:///a.ts");
    assert_eq!(data.range, range);
    assert_eq!(data.refactor_name, "Extract");
    assert_eq!(data.action_name, "function_scope_0");
}

fn document(text: &str) -> (AssetOrDocument, Arc<LineIndex>) {
    let index = Arc::new(LineIndex::new(text));
    let document = AssetOrDocument::Document(Document {
        specifier: specifier("file:///a.ts"),
        text: text.to_string(),
        line_index: index.clone(),
        media_type: MediaType::TypeScript,
        script_version: "1".to_string(),
        lsp_version: None,
        is_open: true,
    });
    (document, index)
}

#[test]
fn semantic_tokens() {
    let (document, index) = document("let a = b;\nc");
    let tokens = Classifications { spans: vec![4, 1, 257, 8, 1, 2304, 11, 1, 259, 99] };
    let tokens = tokens.to_semantic_tokens(&document, index).unwrap();
    let token = |delta_line, delta_start, token_type, token_modifiers_bitset| SemanticToken {
        delta_line,
        delta_start,
        length: 1,
        token_type,
        token_modifiers_bitset,
    };
    assert_eq!(tokens, vec![token(0, 4, 0, 1), token(0, 4, 8, 0), token(1, 0, 0, 3)]);
}

#[test]
fn classifications_are_kept() {
    for classification in [256, 257, 2304, 2815, u32::MAX] {
        let (document, index) = document("let a = b;");
        let tokens = Classifications { spans: vec![4, 1, classification] };
        let token = tokens.to_semantic_tokens(&document, index).unwrap()[0];
        assert!(token.token_modifiers_bitset <= 255);
        assert_eq!((token.token_type + 1) << 8 | token.token_modifiers_bitset, classification);
    }
}

#[test]
fn semantic_tokens_stay_on_one_line() {
    let (document, index) = document("a\nb");
    let tokens = Classifications { spans: vec![0, 3, 256] };
    assert_eq!(tokens.to_semantic_tokens(&document, index).unwrap_err(), LspError::InternalError);
}

#[test]
fn semantic_tokens_are_put_in_order() {
    let built = SemanticTokensBuilder::new().push(1, 4, 1, 0, 0).push(0, 2, 1, 1, 0).push(1, 2, 1, 2, 0).build();
    let lines: Vec<(u32, u32, u32)> = built.iter().map(|t| (t.delta_line, t.delta_start, t.token_type)).collect();
    assert_eq!(lines, vec![(0, 2, 1), (1, 2, 2), (0, 2, 0)]);
}

#[test]
fn folding_ranges() {
    let text = "{\n  a\n}";
    let index = Arc::new(LineIndex::new(text));
    let span = OutliningSpan { text_span: TextSpan { start: 0, length: 7 }, kind: OutliningSpanKind::Code };
    let range = span.to_folding_range(index.clone(), text.as_bytes(), true);
    assert_eq!((range.start_line, range.end_line), (0, 1));
    assert_eq!((range.start_character, range.end_character), (None, None));
    assert_eq!(range.kind, None);
    let range = span.to_folding_range(index.clone(), text.as_bytes(), false);
    assert_eq!((range.start_line, range.end_line), (0, 2));
    assert_eq!((range.start_character, range.end_character), (Some(0), Some(1)));
    let span = OutliningSpan { text_span: TextSpan { start: 0, length: 5 }, kind: OutliningSpanKind::Imports };
    let range = span.to_folding_range(index, text.as_bytes(), true);
    assert_eq!(range.end_line, 1);
    assert_eq!(range.kind, Some(FoldingRangeKind::Imports));
}

#[test]
fn folding_ranges_with_wide_characters() {
    let text = "f(`\n\u{1f995}`)\n";
    let index = Arc::new(LineIndex::new(text));
    let span = OutliningSpan { text_span: TextSpan { start: 1, length: 7 }, kind: OutliningSpanKind::Comment };
    let range = span.to_folding_range(index, text.as_bytes(), true);
    assert_eq!((range.start_line, range.end_line), (0, 0));
    assert_eq!(range.kind, Some(FoldingRangeKind::Comment));
}

#[test]
fn selection_ranges() {
    let index = Arc::new(LineIndex::new("one two"));
    let inner = SelectionRange {
        text_span: TextSpan { start: 4, length: 3 },
        parent: Some(Box::new(SelectionRange { text_span: TextSpan { start: 0, length: 7 }, parent: None })),
    };
    let range = inner.to_selection_range(index);
    assert_eq!(range.range.start.character, 4);
    let parent = range.parent.unwrap();
    assert_eq!(parent.range.end.character, 7);
    assert!(parent.parent.is_none());
}

fn part(text: &str) -> SymbolDisplayPart {
    SymbolDisplayPart { text: text.to_string(), kind: "text".to_string(), target: None }
}

#[test]
fn signatures() {
    let parameter = |name: &str| SignatureHelpParameter {
        documentation: vec![part("The "), part(name)],
        display_parts: vec![part(name)],
    };
    let items = SignatureHelpItems {
        items: vec![SignatureHelpItem {
            prefix_display_parts: vec![part("f(")],
            suffix_display_parts: vec![part(")")],
            parameters: vec![parameter("a"), parameter("b")],
            documentation: vec![part("Does f.")],
        }],
        selected_item_index: 0,
        argument_index: 1,
    };
    let server = Inner { documents: vec![], url_map: LspUrlMap { entries: vec![] }, imports: vec![] };
    let help = items.into_signature_help(&server);
    assert_eq!(help.active_parameter, Some(1));
    assert_eq!(help.active_signature, Some(0));
    assert_eq!(help.signatures[0].label, "f(a, b)");
    assert_eq!(help.signatures[0].documentation, "Does f.");
    assert_eq!(help.signatures[0].parameters[1].label, "b");
    assert_eq!(help.signatures[0].parameters[1].documentation, "The b");
    let alone = parameter("c").into_parameter_information(&server);
    assert_eq!(alone.label, "c");
}
