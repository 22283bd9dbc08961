use std::sync::Arc;
use tsc::document_span::DocumentSpan;
use tsc::edits::{
    file_text_changes_to_workspace_edit, FileTextChanges, RefactorEditInfo, TextChange,
};
use tsc::element::ScriptElementKind;
use tsc::error::{LspError, TscError};
use tsc::hierarchy::{
    CallHierarchyIncomingCall, CallHierarchyItem, CallHierarchyOutgoingCall, FilePlace,
};
use tsc::language_server::{AssetOrDocument, Document, Inner, LspUrlMap};
use tsc::locations::{
    DefinitionInfo, DefinitionInfoAndBoundSpan, DocumentHighlights, HighlightSpan,
    HighlightSpanKind, ImplementationLocation, ReferenceEntry, RenameLocation, RenameLocations,
};
use tsc::lsp::{
    DocumentChangeOperation, DocumentChanges, DocumentHighlightKind, Position, Range, SymbolKind,
    SymbolTag,
};
use tsc::span::TextSpan;
use tsc::specifier::{MediaType, ModuleSpecifier};
use tsc::text::LineIndex;

const TEXT: &str = "one two\nthree four\n";

fn specifier(text: &str) -> ModuleSpecifier {
    ModuleSpecifier::parse(text).unwrap()
}

fn server(hrefs: &[&str]) -> Inner {
    let mut documents = Vec::new();
    let mut entries = Vec::new();
    for href in hrefs {
        documents.push(AssetOrDocument::Document(Document {
            specifier: specifier(href),
            text: TEXT.to_string(),
            line_index: Arc::new(LineIndex::new(TEXT)),
            media_type: MediaType::TypeScript,
            script_version: "1".to_string(),
            lsp_version: Some(7),
            is_open: true,
        }));
        entries.push((specifier(href), specifier(href)));
    }
    Inner { documents, url_map: LspUrlMap { entries }, imports: vec![] }
}

fn index() -> Arc<LineIndex> {
    Arc::new(LineIndex::new(TEXT))
}

fn at(line: u32, character: u32) -> Position {
    Position { line, character }
}

fn span(file: &str, start: u32, length: u32) -> DocumentSpan {
    DocumentSpan {
        text_span: TextSpan { start, length },
        file_name: file.to_string(),
        original_text_span: None,
        context_span: None,
        original_context_span: None,
    }
}

#[test]
fn links_to_spans() {
    let server = server(&["file:///a.ts"]);
    let mut document_span = span("file:///a.ts", 8, 5);
    let link = document_span.to_link(index(), &server).unwrap();
    assert_eq!(link.target_uri.as_str(), "file:///a.ts");
    assert_eq!(link.target_range, Range { start: at(1, 0), end: at(1, 5) });
    assert_eq!(link.target_selection_range, link.target_range);
    assert_eq!(link.origin_selection_range, None);

    document_span.context_span = Some(TextSpan { start: 8, length: 10 });
    document_span.original_text_span = Some(TextSpan { start: 0, length: 3 });
    let link = document_span.to_link(index(), &server).unwrap();
    assert_eq!(link.target_range.end, at(1, 10));
    assert_eq!(link.target_selection_range.end, at(1, 5));
    assert_eq!(link.origin_selection_range, Some(Range { start: at(0, 0), end: at(0, 3) }));

    document_span.original_context_span = Some(TextSpan { start: 0, length: 7 });
    let link = document_span.to_link(index(), &server).unwrap();
    assert_eq!(link.origin_selection_range, Some(Range { start: at(0, 0), end: at(0, 7) }));

    assert!(span("file:///b.ts", 0, 1).to_link(index(), &server).is_none());
    assert!(span("b.ts", 0, 1).to_link(index(), &server).is_none());
}

#[test]
fn targets_of_spans() {
    let server = server(&["file:///a.ts"]);
    assert_eq!(span("file:///a.ts", 9, 1).to_target(&server).unwrap().as_str(), "file:///a.ts#L2,2");
    assert!(span("file:///b.ts", 9, 1).to_target(&server).is_none());
}

#[test]
fn locations_of_spans() {
    let server = server(&["file:///a.ts"]);
    let location = ImplementationLocation { document_span: span("file:///a.ts", 4, 3) }.to_location(index(), &server);
    assert_eq!(location.uri.as_str(), "file:///a.ts");
    assert_eq!(location.range, Range { start: at(0, 4), end: at(0, 7) });
    let location = ImplementationLocation { document_span: span("x", 4, 3) }.to_location(index(), &server);
    assert_eq!(location.uri.as_str(), "deno://invalid");
    let location = ReferenceEntry { document_span: span("file:///b.ts", 0, 3) }.to_location(index(), &server.url_map);
    assert_eq!(location.uri.as_str(), "deno://invalid");
    let link = ImplementationLocation { document_span: span("file:///a.ts", 4, 3) }.to_link(index(), &server);
    assert!(link.is_some());
}

#[test]
fn definitions_that_are_not_known_are_left_out() {
    let server = server(&["file:///a.ts"]);
    let info = DefinitionInfoAndBoundSpan {
        definitions: Some(vec![
            DefinitionInfo { document_span: span("file:///b.ts", 0, 1) },
            DefinitionInfo { document_span: span("file:///a.ts", 0, 1) },
        ]),
    };
    let links = info.to_definition(index(), &server).unwrap();
    assert_eq!(links.len(), 1);
    assert_eq!(links[0].target_uri.as_str(), "file:///a.ts");
    assert!(DefinitionInfoAndBoundSpan { definitions: None }.to_definition(index(), &server).is_none());
}

#[test]
fn highlights() {
    let span = |kind: HighlightSpanKind| HighlightSpan { text_span: TextSpan { start: 0, length: 3 }, kind };
    let highlights = DocumentHighlights {
        highlight_spans: vec![
            span(HighlightSpanKind::WrittenReference),
            span(HighlightSpanKind::Definition),
            span(HighlightSpanKind::Nothing),
            span(HighlightSpanKind::Reference),
        ],
    }
    .to_highlight(index());
    assert_eq!(highlights[0].kind, Some(DocumentHighlightKind::Write));
    assert_eq!(highlights[1].kind, Some(DocumentHighlightKind::Read));
    assert_eq!(highlights[3].range, Range { start: at(0, 0), end: at(0, 3) });
}

fn rename(list: &[(&str, u32)]) -> RenameLocations {
    RenameLocations {
        locations: list.iter().map(|(file, start)| RenameLocation { document_span: span(file, *start, 3) }).collect(),
    }
}

#[test]
fn renames_edit_each_document_once() {
    let server = server(&["file:///a.ts", "file:///b.ts"]);
    let edit = rename(&[("file:///b.ts", 0), ("file:///a.ts", 4), ("file:///b.ts", 8)])
        .into_workspace_edit("new", &server)
        .unwrap();
    match edit.document_changes {
        DocumentChanges::Edits(edits) => {
            assert_eq!(edits.len(), 2);
            assert_eq!(edits[0].uri.as_str(), "file:///b.ts");
            assert_eq!(edits[0].version, Some(7));
            assert_eq!(edits[0].edits.len(), 2);
            assert_eq!(edits[0].edits[1].range.start, at(1, 0));
            assert_eq!(edits[1].edits[0].new_text, "new");
        }
        DocumentChanges::Operations(_) => panic!(),
    }
}

#[test]
fn renames_that_fail() {
    let mut server = server(&["file:///a.ts"]);
    let fails = |list: &[(&str, u32)], server: &Inner| rename(list).into_workspace_edit("x", server).unwrap_err();
    assert_eq!(fails(&[("file:///a.ts", 0), ("x", 0)], &server), TscError::InvalidUrl);
    assert_eq!(fails(&[("file:///b.ts", 0), ("x", 0)], &server), TscError::UrlNotMapped);
    server.documents.clear();
    assert_eq!(fails(&[("file:///a.ts", 0)], &server), TscError::DocumentNotFound);
}

fn changes(file: &str, is_new_file: Option<bool>) -> FileTextChanges {
    FileTextChanges {
        file_name: file.to_string(),
        text_changes: vec![TextChange { span: TextSpan { start: 8, length: 5 }, new_text: "x".to_string() }],
        is_new_file,
    }
}

#[test]
fn edits_of_documents() {
    let server = server(&["file:///a.ts"]);
    let edit = changes("file:///a.ts", None).to_text_document_edit(&server).unwrap();
    assert_eq!(edit.uri.as_str(), "file:///a.ts");
    assert_eq!(edit.version, Some(7));
    assert_eq!(edit.edits[0].range, Range { start: at(1, 0), end: at(1, 5) });
    assert_eq!(edit.edits[0].new_text, "x");
    assert_eq!(changes("file:///b.ts", None).to_text_document_edit(&server).unwrap_err(), TscError::DocumentNotFound);
    assert_eq!(changes("b.ts", None).to_text_document_edit(&server).unwrap_err(), TscError::InvalidUrl);
    let text_edit = changes("", None).text_changes[0].as_text_edit(index());
    assert_eq!(text_edit.new_text, "x");
}

#[test]
fn operations_make_new_files_first() {
    let server = server(&["file:///a.ts"]);
    let mut new_file = changes("file:///new.ts", Some(true));
    new_file.text_changes[0].span = TextSpan { start: 0, length: 0 };
    let ops = new_file.to_text_document_change_ops(&server).unwrap();
    assert_eq!(ops.len(), 2);
    match (&ops[0], &ops[1]) {
        (DocumentChangeOperation::Create(file), DocumentChangeOperation::Edit(edit)) => {
            assert_eq!(file.uri.as_str(), "file:///new.ts");
            assert_eq!(file.ignore_if_exists, Some(true));
            assert_eq!(file.overwrite, None);
            assert_eq!(edit.version, None);
            assert_eq!(edit.edits[0].range, Range::default());
        }
        _ => panic!(),
    }
    let ops = changes("file:///a.ts", Some(false)).to_text_document_change_ops(&server).unwrap();
    assert_eq!(ops.len(), 1);
}

#[test]
fn workspace_edits_fail_as_a_whole() {
    let server = server(&["file:///a.ts"]);
    let edits = vec![changes("file:///a.ts", None), changes("file:///a.ts", None)];
    let edit = file_text_changes_to_workspace_edit(&edits, &server).unwrap().unwrap();
    assert!(matches!(edit.document_changes, DocumentChanges::Operations(ops) if ops.len() == 2));
    let info = RefactorEditInfo { edits: vec![changes("file:///a.ts", None), changes("file:///b.ts", None)], rename_location: None };
    assert_eq!(info.to_workspace_edit(&server).unwrap_err(), LspError::InternalError);
}

fn item(file: &str, kind: ScriptElementKind) -> CallHierarchyItem {
    CallHierarchyItem {
        name: "f".to_string(),
        kind,
        kind_modifiers: Some("deprecated".to_string()),
        file: file.to_string(),
        span: TextSpan { start: 0, length: 7 },
        selection_span: TextSpan { start: 4, length: 3 },
        container_name: Some("mod".to_string()),
    }
}

#[test]
fn items_of_call_hierarchies() {
    let server = server(&["file:///src/a.ts"]);
    let resolved = item("file:///src/a.ts", ScriptElementKind::FunctionElement)
        .try_resolve_call_hierarchy_item(&server, Some("/"))
        .unwrap();
    assert_eq!(resolved.name, "f");
    assert_eq!(resolved.detail, Some("mod".to_string()));
    assert_eq!(resolved.kind, SymbolKind::Function);
    assert_eq!(resolved.tags, Some(vec![SymbolTag::Deprecated]));
    assert_eq!(resolved.uri.as_str(), "file:///src/a.ts");
    assert_eq!(resolved.range, Range { start: at(0, 0), end: at(0, 7) });
    assert_eq!(resolved.selection_range, Range { start: at(0, 4), end: at(0, 7) });
    assert!(item("file:///b.ts", ScriptElementKind::FunctionElement)
        .try_resolve_call_hierarchy_item(&server, None)
        .is_none());
}

#[test]
fn whole_files_are_named_by_their_file() {
    let server = server(&["file:///project/src/a.ts", "https://a.b/c.ts"]);
    let file = item("file:///project/src/a.ts", ScriptElementKind::ScriptElement);
    let resolved = file.to_call_hierarchy_item(index(), &server, Some("/project"));
    assert_eq!(resolved.name, "a.ts");
    assert_eq!(resolved.detail, Some("src".to_string()));
    let resolved = file.to_call_hierarchy_item(index(), &server, Some("/other"));
    assert_eq!(resolved.detail, Some("/project/src".to_string()));
    let resolved = file.to_call_hierarchy_item(index(), &server, None);
    assert_eq!(resolved.detail, Some("/project/src".to_string()));
    let mut module = item("https://a.b/c.ts", ScriptElementKind::ModuleElement);
    module.selection_span.start = 0;
    let resolved = module.to_call_hierarchy_item(index(), &server, None);
    assert_eq!(resolved.name, "https://a.b/c.ts");
    assert_eq!(resolved.detail, Some(String::new()));
    module.selection_span.start = 1;
    assert_eq!(module.to_call_hierarchy_item(index(), &server, None).name, "f");
}

#[test]
fn places_of_files() {
    let place = FilePlace::of_path("/project/src/a.ts", Some("/project/src")).unwrap();
    assert_eq!(place.file_name, "a.ts");
    assert_eq!(place.directory, "");
    assert!(FilePlace::of_url(&specifier("https://a.b/c.ts"), None).is_none());
    let place = FilePlace::of_url(&specifier("file:///project/a%20b.ts"), None).unwrap();
    assert_eq!(place.file_name, "a b.ts");
    assert_eq!(place.directory, "/project");
    let place = FilePlace::of_path("/home/u/.cache/a.ts", Some("/home/u")).unwrap();
    assert_eq!(place.directory, ".cache");
    let place = FilePlace::of_path("/a.ts", None).unwrap();
    assert_eq!((place.file_name.as_str(), place.directory.as_str()), ("a.ts", "/"));
    assert_eq!(FilePlace::of_path("/a.ts", Some("/b")).unwrap().directory, "/");
    assert_eq!(FilePlace::of_path("/a/b.ts", Some("/")).unwrap().directory, "a");
    assert_eq!(FilePlace::of_path("/a/b.ts", Some("/a/")).unwrap().directory, "");
    assert!(FilePlace::of_path("/", None).is_none());
    let place = FilePlace::of_url(&specifier("file:///project/a%20b.ts"), None).unwrap();
    let item = item("file:///x.ts", ScriptElementKind::ScriptElement).to_item_at(index(), &server(&[]), Some(place));
    assert_eq!(item.name, "a b.ts");
    assert_eq!(item.uri.as_str(), "deno://invalid");
}

#[test]
fn places_of_file_urls() {
    let place = |href: &str, root: Option<&str>| {
        let place = FilePlace::of_url(&specifier(href), root);
        place.map(|place| (place.file_name, place.directory))
    };
    let at = |name: &str, directory: &str| Some((name.to_string(), directory.to_string()));
    assert_eq!(place("file:///project/src/a.ts?x#y", Some("/project")), at("a.ts", "src"));
    assert_eq!(place("file:///a.ts", Some("/")), at("a.ts", ""));
    assert_eq!(place("file:///%C3%A9/%E2%82%AC.ts", None), at("\u{20ac}.ts", "/\u{e9}"));
    assert_eq!(place("file:///a%FF/b.ts", Some("/a\u{fffd}")), at("b.ts", "/a\u{fffd}"));
    assert_eq!(place("file:///x/a%FF/b.ts", Some("/x")), at("b.ts", "a\u{fffd}"));
    assert_eq!(place("file:///C:", None), None);
    assert_eq!(place("file:///c%3A", None), None);
    assert_eq!(place("file://host/", None), None);
    assert_eq!(place("file://host//a", None), None);
    assert_eq!(place("file://host/%5Ca", None), None);
}

#[test]
fn calls_of_items() {
    let server = server(&["file:///a.ts"]);
    let spans = || vec![TextSpan { start: 8, length: 5 }];
    let incoming = CallHierarchyIncomingCall {
        from: item("file:///a.ts", ScriptElementKind::FunctionElement),
        from_spans: spans(),
    };
    let call = incoming.try_resolve_call_hierarchy_incoming_call(&server, None).unwrap();
    assert_eq!(call.from.name, "f");
    assert_eq!(call.from_ranges, vec![Range { start: at(1, 0), end: at(1, 5) }]);
    let outgoing = CallHierarchyOutgoingCall {
        to: item("file:///a.ts", ScriptElementKind::FunctionElement),
        from_spans: spans(),
    };
    let other = Arc::new(LineIndex::new("0123456789012345"));
    let call = outgoing.try_resolve_call_hierarchy_outgoing_call(other, &server, None).unwrap();
    assert_eq!(call.to.name, "f");
    assert_eq!(call.from_ranges, vec![Range { start: at(0, 8), end: at(0, 13) }]);
    let lost = CallHierarchyOutgoingCall { to: item("x", ScriptElementKind::FunctionElement), from_spans: vec![] };
    assert!(lost.try_resolve_call_hierarchy_outgoing_call(index(), &server, None).is_none());
}
