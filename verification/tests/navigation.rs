use std::cell::RefCell;
use std::sync::Arc;
use tsc::element::{contains_text, parse_kind_modifier, ScriptElementKind};
use tsc::language_server::{AssetOrDocument, Document, Inner, LspUrlMap};
use tsc::lsp;
use tsc::lsp::{CodeLensSource, CompletionItemKind, Position, Range, SymbolKind, SymbolTag};
use tsc::navigation::{InlayHint, InlayHintKind, MatchKind, NavigateToItem, NavigationTree};
use tsc::span::TextSpan;
use tsc::specifier::{MediaType, ModuleSpecifier};
use tsc::text::LineIndex;

fn specifier(text: &str) -> ModuleSpecifier {
    ModuleSpecifier::parse(text).unwrap()
}

fn node(text: &str, kind: ScriptElementKind, spans: &[(u32, u32)], children: Vec<NavigationTree>) -> NavigationTree {
    NavigationTree {
        text: text.to_string(),
        kind,
        kind_modifiers: String::new(),
        spans: spans.iter().map(|(start, length)| TextSpan { start: *start, length: *length }).collect(),
        name_span: None,
        child_items: if children.is_empty() { None } else { Some(children) },
    }
}

fn index() -> Arc<LineIndex> {
    Arc::new(LineIndex::new("0123456789\n0123456789\n0123456789\n"))
}

#[test]
fn kind_modifiers_are_split() {
    let modifiers = parse_kind_modifier("declare,export  deprecated");
    assert_eq!(modifiers, vec!["declare".to_string(), "export".to_string(), "deprecated".to_string()]);
    assert!(contains_text(&modifiers, "deprecated"));
    assert!(!contains_text(&modifiers, "decl"));
    assert_eq!(parse_kind_modifier(""), vec!["".to_string()]);
}

#[test]
fn element_kinds() {
    assert_eq!(CompletionItemKind::from(ScriptElementKind::Keyword), CompletionItemKind::Keyword);
    assert_eq!(CompletionItemKind::from(ScriptElementKind::TypeElement), CompletionItemKind::Class);
    assert_eq!(CompletionItemKind::from(ScriptElementKind::Label), CompletionItemKind::Property);
    assert_eq!(CompletionItemKind::from(ScriptElementKind::Directory), CompletionItemKind::Folder);
    assert_eq!(SymbolKind::from(ScriptElementKind::MemberGetAccessorElement), SymbolKind::Field);
    assert_eq!(SymbolKind::from(ScriptElementKind::ConstructorImplementationElement), SymbolKind::Constructor);
    assert_eq!(SymbolKind::from(ScriptElementKind::Label), SymbolKind::Variable);
    assert_eq!(ScriptElementKind::default(), ScriptElementKind::Unknown);
}

#[test]
fn symbols_of_a_tree() {
    let mut getter = node("size", ScriptElementKind::MemberGetAccessorElement, &[(11, 5)], vec![]);
    getter.kind_modifiers = "deprecated".to_string();
    getter.name_span = Some(TextSpan { start: 12, length: 2 });
    let setter = node("size", ScriptElementKind::MemberSetAccessorElement, &[(16, 3)], vec![]);
    let class = node("A", ScriptElementKind::ClassElement, &[(0, 20)], vec![getter, setter]);
    let mut symbols = vec![];
    assert!(class.collect_document_symbols(index(), &mut symbols));
    assert_eq!(symbols.len(), 1);
    assert_eq!(symbols[0].name, "A");
    assert_eq!(symbols[0].kind, SymbolKind::Class);
    assert_eq!(symbols[0].range, symbols[0].selection_range);
    let children = symbols[0].children.as_ref().unwrap();
    assert_eq!(children[0].name, "(get) size");
    assert_eq!(children[0].tags, Some(vec![SymbolTag::Deprecated]));
    assert_eq!(
        children[0].selection_range,
        Range { start: Position { line: 1, character: 1 }, end: Position { line: 1, character: 3 } }
    );
    assert_eq!(children[1].name, "(set) size");
    assert_eq!(children[1].tags, None);
    assert!(children[1].children.is_none());
}

#[test]
fn names_outside_the_span_are_not_selected() {
    let mut tree = node("a", ScriptElementKind::ConstElement, &[(0, 5), (11, 5)], vec![]);
    tree.name_span = Some(TextSpan { start: 12, length: 1 });
    let mut symbols = vec![];
    assert!(tree.collect_document_symbols(index(), &mut symbols));
    assert_eq!(symbols.len(), 2);
    assert_eq!(symbols[0].selection_range, symbols[0].range);
    assert_eq!(symbols[1].selection_range.start, Position { line: 1, character: 1 });
}

#[test]
fn nodes_without_a_name_are_listed_for_what_is_below_them() {
    let mut symbols = vec![];
    let alias = node("x", ScriptElementKind::Alias, &[(0, 5)], vec![]);
    assert!(!alias.collect_document_symbols(index(), &mut symbols));
    for text in ["", "<function>", "<class>"] {
        let tree = node(text, ScriptElementKind::FunctionElement, &[(0, 5)], vec![]);
        assert!(!tree.collect_document_symbols(index(), &mut symbols));
    }
    assert!(symbols.is_empty());

    let child = node("y", ScriptElementKind::ConstElement, &[(6, 2)], vec![]);
    let tree = node("<function>", ScriptElementKind::FunctionElement, &[(0, 5), (6, 4)], vec![child]);
    assert!(tree.collect_document_symbols(index(), &mut symbols));
    assert_eq!(symbols.len(), 1);
    assert_eq!(symbols[0].name, "<function>");
    assert_eq!(symbols[0].range.start, Position { line: 0, character: 6 });
}

#[test]
fn spans_that_touch_meet() {
    let child = node("y", ScriptElementKind::ConstElement, &[(5, 2)], vec![]);
    let tree = node("a", ScriptElementKind::ClassElement, &[(0, 5)], vec![child]);
    let mut symbols = vec![];
    assert!(tree.collect_document_symbols(index(), &mut symbols));
    assert_eq!(symbols[0].children.as_ref().unwrap().len(), 1);
}

#[test]
fn trees_are_walked_from_the_top() {
    let inner = node("c", ScriptElementKind::ConstElement, &[], vec![]);
    let first = node("b", ScriptElementKind::ConstElement, &[], vec![inner]);
    let second = node("d", ScriptElementKind::ConstElement, &[], vec![]);
    let tree = node("a", ScriptElementKind::ClassElement, &[], vec![first, second]);
    let seen = RefCell::new(vec![]);
    tree.walk(&|node: &NavigationTree, parent: Option<&NavigationTree>| {
        seen.borrow_mut().push(format!("{}<{}", node.text, parent.map(|p| p.text.as_str()).unwrap_or("-")));
    });
    assert_eq!(seen.into_inner(), vec!["a<-", "b<a", "c<b", "d<a"]);
    let list: Vec<(&str, Option<&str>)> = tree
        .visit_list(None)
        .into_iter()
        .map(|(node, parent)| (node.text.as_str(), parent.map(|p| p.text.as_str())))
        .collect();
    assert_eq!(list, vec![("a", None), ("b", Some("a")), ("c", Some("b")), ("d", Some("a"))]);
}

#[test]
fn code_lenses() {
    let specifier = specifier("file:///a.ts");
    let mut tree = node("a", ScriptElementKind::ClassElement, &[(11, 5)], vec![]);
    let lens = tree.to_code_lens(index(), &specifier, &CodeLensSource::References);
    assert_eq!(lens.range.start, Position { line: 1, character: 0 });
    assert_eq!(lens.source, CodeLensSource::References);
    assert_eq!(lens.specifier.as_str(), "file:///a.ts");
    tree.name_span = Some(TextSpan { start: 13, length: 1 });
    let lens = tree.to_code_lens(index(), &specifier, &CodeLensSource::Implementations);
    assert_eq!(lens.range.start, Position { line: 1, character: 2 });
    let empty = node("a", ScriptElementKind::ClassElement, &[], vec![]);
    assert_eq!(empty.to_code_lens(index(), &specifier, &CodeLensSource::References).range, Range::default());
}

#[test]
fn symbols_of_the_workspace() {
    let text = "const a = 1;\n";
    let server = Inner {
        documents: vec![AssetOrDocument::Document(Document {
            specifier: specifier("file:///a.ts"),
            text: text.to_string(),
            line_index: Arc::new(LineIndex::new(text)),
            media_type: MediaType::TypeScript,
            script_version: "1".to_string(),
            lsp_version: None,
            is_open: false,
        })],
        url_map: LspUrlMap { entries: vec![(specifier("file:///a.ts"), specifier("deno:/a.ts"))] },
        imports: vec![],
    };
    let mut item = NavigateToItem {
        name: "a".to_string(),
        kind: ScriptElementKind::ConstElement,
        kind_modifiers: "deprecated".to_string(),
        file_name: "file:///a.ts".to_string(),
        text_span: TextSpan { start: 6, length: 1 },
        container_name: Some("mod".to_string()),
    };
    let symbol = item.to_symbol_information(&server).unwrap();
    assert_eq!(symbol.name, "a");
    assert_eq!(symbol.kind, SymbolKind::Variable);
    assert_eq!(symbol.tags, Some(vec![SymbolTag::Deprecated]));
    assert_eq!(symbol.location.uri.as_str(), "deno:/a.ts");
    assert_eq!(symbol.location.range.start, Position { line: 0, character: 6 });
    assert_eq!(symbol.container_name, Some("mod".to_string()));
    item.file_name = "file:///b.ts".to_string();
    assert!(item.to_symbol_information(&server).is_none());
    item.file_name = "b.ts".to_string();
    assert!(item.to_symbol_information(&server).is_none());
    assert_ne!(MatchKind::Exact, MatchKind::Prefix);
}

#[test]
fn inlay_hints() {
    let hint = InlayHint {
        text: ": number".to_string(),
        position: 12,
        kind: InlayHintKind::Type,
        whitespace_before: Some(true),
        whitespace_after: None,
    };
    let lsp_hint = hint.to_lsp(index());
    assert_eq!(lsp_hint.position, Position { line: 1, character: 1 });
    assert_eq!(lsp_hint.label, ": number");
    assert_eq!(lsp_hint.kind, Some(lsp::InlayHintKind::Type));
    assert_eq!(lsp_hint.padding_left, Some(true));
    assert_eq!(lsp_hint.padding_right, None);
    assert_eq!(InlayHintKind::Parameter.to_lsp(), Some(lsp::InlayHintKind::Parameter));
    assert_eq!(InlayHintKind::Enum.to_lsp(), None);
}
