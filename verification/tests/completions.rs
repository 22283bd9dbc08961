use std::sync::Arc;
use tsc::completion::{
    get_parameters_from_parts, parse_code_actions, CompletionEntry, CompletionEntryData,
    CompletionEntryDataImport, CompletionEntryDetails, CompletionInfo, CompletionItemData,
    GetCompletionDetailsArgs,
};
use tsc::config::CompletionSettings;
use tsc::display::{JsDocTagInfo, SymbolDisplayPart};
use tsc::edits::{CodeAction, FileTextChanges, TextChange};
use tsc::element::ScriptElementKind;
use tsc::error::TscError;
use tsc::language_server::{AssetOrDocument, Document, ImportEntry, Inner, LspUrlMap};
use tsc::lsp::{
    CompletionItem, CompletionItemKind, CompletionItemTag, CompletionTextEdit, InsertTextFormat,
    Position, Range, TextEdit,
};
use tsc::span::TextSpan;
use tsc::specifier::{MediaType, ModuleSpecifier};
use tsc::text::LineIndex;

fn specifier(text: &str) -> ModuleSpecifier {
    ModuleSpecifier::parse(text).unwrap()
}

fn server(documents: &[(&str, &str)]) -> Inner {
    let mut list = Vec::new();
    let mut entries = Vec::new();
    for (href, text) in documents {
        list.push(AssetOrDocument::Document(Document {
            specifier: specifier(href),
            text: text.to_string(),
            line_index: Arc::new(LineIndex::new(text)),
            media_type: MediaType::TypeScript,
            script_version: "1".to_string(),
            lsp_version: Some(1),
            is_open: true,
        }));
        entries.push((specifier(href), specifier(href)));
    }
    Inner { documents: list, url_map: LspUrlMap { entries }, imports: vec![] }
}

fn info() -> CompletionInfo {
    CompletionInfo {
        entries: vec![],
        is_global_completion: false,
        is_member_completion: false,
        is_new_identifier_location: false,
        is_incomplete: None,
        optional_replacement_span: None,
    }
}

fn part(kind: &str, text: &str) -> SymbolDisplayPart {
    SymbolDisplayPart { text: text.to_string(), kind: kind.to_string(), target: None }
}

fn line(character: u32) -> Position {
    Position { line: 0, character }
}

fn item_of(entry: &CompletionEntry, server: &Inner) -> CompletionItem {
    entry.as_completion_item(
        Arc::new(LineIndex::new("abc def")),
        &info(),
        &CompletionSettings::default(),
        &specifier("file:///a.ts"),
        7,
        server,
    )
}

#[test]
fn test_completion_entry_filter_text() {
    let fixture = CompletionEntry {
        kind: ScriptElementKind::MemberVariableElement,
        name: "['foo']".to_string(),
        insert_text: Some("['foo']".to_string()),
        ..Default::default()
    };
    let actual = fixture.get_filter_text();
    assert_eq!(actual, Some(".foo".to_string()));

    let fixture = CompletionEntry {
        kind: ScriptElementKind::MemberVariableElement,
        name: "#abc".to_string(),
        ..Default::default()
    };
    let actual = fixture.get_filter_text();
    assert_eq!(actual, None);

    let fixture = CompletionEntry {
        kind: ScriptElementKind::MemberVariableElement,
        name: "#abc".to_string(),
        insert_text: Some("this.#abc".to_string()),
        ..Default::default()
    };
    let actual = fixture.get_filter_text();
    assert_eq!(actual, Some("abc".to_string()));
}

#[test]
fn other_filter_texts() {
    let filter = |name: &str, insert: Option<&str>| {
        CompletionEntry {
            name: name.to_string(),
            insert_text: insert.map(|t| t.to_string()),
            ..Default::default()
        }
        .get_filter_text()
    };
    assert_eq!(filter("#abc", Some("abc")), Some("abc".to_string()));
    assert_eq!(filter("abc", Some("this.abc")), None);
    assert_eq!(filter("abc", Some("[abc]")), Some("[abc]".to_string()));
    assert_eq!(filter("abc", Some("[\"a b\"]")), Some(".a b".to_string()));
    assert_eq!(filter("abc", Some("abc()")), Some("abc()".to_string()));
    assert_eq!(filter("abc", None), None);
}

#[test]
fn commit_characters() {
    let of = |kind: ScriptElementKind, new_name: bool, calls: bool| {
        let mut info = info();
        info.is_new_identifier_location = new_name;
        let mut settings = CompletionSettings::default();
        settings.complete_function_calls = calls;
        CompletionEntry { kind, ..Default::default() }
            .get_commit_characters(&info, &settings)
            .map(|list| list.join(""))
    };
    assert_eq!(of(ScriptElementKind::EnumElement, false, false), Some(".;".to_string()));
    assert_eq!(of(ScriptElementKind::FunctionElement, false, false), Some(".,;(".to_string()));
    assert_eq!(of(ScriptElementKind::FunctionElement, false, true), Some(".,;".to_string()));
    assert_eq!(of(ScriptElementKind::FunctionElement, true, false), None);
    assert_eq!(of(ScriptElementKind::String, false, false), None);
}

#[test]
fn items_of_plain_entries() {
    let entry = CompletionEntry {
        name: "log".to_string(),
        kind: ScriptElementKind::MemberFunctionElement,
        kind_modifiers: Some("declare,deprecated optional".to_string()),
        sort_text: "11".to_string(),
        is_snippet: Some(true),
        replacement_span: Some(TextSpan { start: 4, length: 3 }),
        is_recommended: Some(true),
        ..Default::default()
    };
    let item = item_of(&entry, &server(&[]));
    assert_eq!(item.label, "log?");
    assert_eq!(item.kind, Some(CompletionItemKind::Method));
    assert_eq!(item.sort_text, Some("11".to_string()));
    assert_eq!(item.insert_text, Some("log".to_string()));
    assert_eq!(item.filter_text, Some("log".to_string()));
    assert_eq!(item.insert_text_format, Some(InsertTextFormat::Snippet));
    assert_eq!(item.preselect, Some(true));
    assert_eq!(item.tags, Some(vec![CompletionItemTag::Deprecated]));
    assert!(item.label_details.is_none());
    match item.text_edit {
        Some(CompletionTextEdit::InsertAndReplace(edit)) => {
            assert_eq!(edit.new_text, "log");
            assert_eq!(edit.insert, Range { start: line(4), end: line(7) });
            assert_eq!(edit.replace, edit.insert);
        }
        _ => panic!(),
    }
    let data = item.data.unwrap();
    assert_eq!(data.specifier.as_str(), "file:///a.ts");
    assert_eq!(data.position, 7);
    assert_eq!(data.name, "log");
    assert!(!data.use_code_snippet);
}

#[test]
fn items_of_scripts_show_their_extension() {
    let detail = |name: &str, modifiers: &str| {
        let entry = CompletionEntry {
            name: name.to_string(),
            kind: ScriptElementKind::ScriptElement,
            kind_modifiers: Some(modifiers.to_string()),
            ..Default::default()
        };
        item_of(&entry, &server(&[])).detail
    };
    assert_eq!(detail("mod", ".ts"), Some("mod.ts".to_string()));
    assert_eq!(detail("Mod.TS", ".ts"), Some("Mod.TS".to_string()));
    assert_eq!(detail("mod", ".ts,.d.ts"), Some("mod.d.ts".to_string()));
    assert_eq!(detail("mod", "declare"), None);
}

#[test]
fn colors_have_their_own_kind() {
    let entry = CompletionEntry {
        name: "red".to_string(),
        kind: ScriptElementKind::ConstElement,
        kind_modifiers: Some("color".to_string()),
        ..Default::default()
    };
    assert_eq!(item_of(&entry, &server(&[])).kind, Some(CompletionItemKind::Color));
}

#[test]
fn imports_are_sorted_behind_and_rewritten() {
    let entry = |module_specifier: &str| CompletionEntry {
        name: "B".to_string(),
        sort_text: "16".to_string(),
        source: Some("https://a.b/c.ts".to_string()),
        data: Some(CompletionEntryData {
            json: "{}".to_string(),
            import: Some(CompletionEntryDataImport {
                module_specifier: module_specifier.to_string(),
                file_name: "https://a.b/c.ts".to_string(),
            }),
        }),
        ..Default::default()
    };
    let mut server = server(&[]);
    let item = item_of(&entry("https://a.b/c.ts"), &server);
    assert_eq!(item.sort_text, Some("\u{ffff}16_1".to_string()));
    assert_eq!(item.label_details.unwrap().description, Some("https://a.b/c.ts".to_string()));
    assert_eq!(item.data.unwrap().specifier_rewrite, None);

    server.imports.push(ImportEntry {
        specifier: specifier("https://a.b/c.ts"),
        referrer: specifier("file:///a.ts"),
        mapped: Some("c".to_string()),
        relative: Some("./c.ts".to_string()),
    });
    let item = item_of(&entry("https://a.b/c.ts"), &server);
    assert_eq!(item.sort_text, Some("\u{ffff}16_0".to_string()));
    assert_eq!(item.label_details.unwrap().description, Some("c".to_string()));
    let data = item.data.unwrap();
    assert_eq!(data.specifier_rewrite, Some(("https://a.b/c.ts".to_string(), "c".to_string())));
    assert_eq!(data.data, Some("{}".to_string()));
    assert!("\u{ffff}16_0" < "\u{ffff}16_1");

    server.imports[0].mapped = None;
    let item = item_of(&entry("./c.ts"), &server);
    assert_eq!(item.label_details.unwrap().description, Some("./c.ts".to_string()));
    assert_eq!(item.data.unwrap().specifier_rewrite, None);
}

#[test]
fn responses_hold_every_entry() {
    let mut info = info();
    info.entries.push(CompletionEntry { name: "a".to_string(), ..Default::default() });
    info.entries.push(CompletionEntry { name: "b".to_string(), ..Default::default() });
    info.is_incomplete = Some(true);
    let list = info.as_completion_response(
        Arc::new(LineIndex::new("")),
        &CompletionSettings::default(),
        &specifier("file:///a.ts"),
        0,
        &server(&[]),
    );
    assert!(list.is_incomplete);
    assert_eq!(list.items.len(), 2);
    assert_eq!(list.items[1].label, "b");
}

fn signature(texts: &[(&str, &str)]) -> Vec<SymbolDisplayPart> {
    texts.iter().map(|(kind, text)| part(kind, text)).collect()
}

#[test]
fn parameters_of_signatures() {
    let parts = signature(&[
        ("punctuation", "("), ("text", "method"), ("punctuation", ")"), ("methodName", "log"),
        ("punctuation", "("), ("parameterName", "this"), ("punctuation", ","),
        ("parameterName", "a"), ("punctuation", ","), ("parameterName", "b"), ("punctuation", "?"),
        ("punctuation", ","), ("parameterName", "c"), ("punctuation", "{"), ("parameterName", "d"),
        ("punctuation", "}"), ("punctuation", "..."), ("parameterName", "e"), ("punctuation", ")"),
    ]);
    assert_eq!(get_parameters_from_parts(&parts), vec!["a".to_string(), "c".to_string()]);
    assert!(get_parameters_from_parts(&[]).is_empty());
}

fn changes(file: &str, start: u32, length: u32, text: &str) -> FileTextChanges {
    FileTextChanges {
        file_name: file.to_string(),
        text_changes: vec![TextChange { span: TextSpan { start, length }, new_text: text.to_string() }],
        is_new_file: None,
    }
}

fn data(rewrite: Option<(&str, &str)>, snippet: bool) -> CompletionItemData {
    CompletionItemData {
        specifier: specifier("file:///a.ts"),
        position: 3,
        name: "B".to_string(),
        source: Some("./b.ts".to_string()),
        specifier_rewrite: rewrite.map(|(a, b)| (a.to_string(), b.to_string())),
        data: Some("null".to_string()),
        use_code_snippet: snippet,
    }
}

#[test]
fn code_actions_of_the_document_become_edits() {
    let server = server(&[("file:///a.ts", "a\nb")]);
    let actions = Some(vec![CodeAction {
        description: "Import".to_string(),
        changes: vec![changes("file:///a.ts", 2, 0, "import \"./b.ts\"; // ./b.ts")],
        commands: None,
    }]);
    let (command, edits) =
        parse_code_actions(&actions, &data(Some(("./b.ts", "b")), false), &specifier("file:///a.ts"), &server).unwrap();
    assert!(command.is_none());
    let edits = edits.unwrap();
    assert_eq!(edits.len(), 1);
    assert_eq!(edits[0].new_text, "import \"b\"; // b");
    assert_eq!(edits[0].range.start, Position { line: 1, character: 0 });
}

#[test]
fn code_actions_of_other_files_become_a_command() {
    let server = server(&[("file:///a.ts", "")]);
    let actions = Some(vec![CodeAction {
        description: "Move".to_string(),
        changes: vec![changes("file:///b.ts", 0, 0, "x"), changes("file:///a.ts", 0, 0, "y")],
        commands: Some(vec!["1".to_string()]),
    }]);
    let (command, edits) =
        parse_code_actions(&actions, &data(None, false), &specifier("file:///c.ts"), &server).unwrap();
    let command = command.unwrap();
    assert_eq!(command.title, "");
    assert_eq!(command.command, "_typescript.applyCompletionCodeAction");
    assert_eq!(command.specifier, "file:///c.ts");
    assert_eq!(command.actions.len(), 1);
    assert_eq!(command.actions[0].description, "Move");
    assert_eq!(command.actions[0].commands, Some(vec!["1".to_string()]));
    assert_eq!(command.actions[0].changes.len(), 1);
    assert_eq!(command.actions[0].changes[0].file_name, "file:///a.ts");
    assert_eq!(edits.unwrap()[0].new_text, "y");
}

#[test]
fn code_actions_without_a_document() {
    let actions = Some(vec![CodeAction { description: String::new(), changes: vec![], commands: None }]);
    let result = parse_code_actions(&actions, &data(None, false), &specifier("file:///a.ts"), &server(&[]));
    assert!(matches!(result, Err(TscError::DocumentNotFound)));
    let (command, edits) =
        parse_code_actions(&None, &data(None, false), &specifier("file:///a.ts"), &server(&[])).unwrap();
    assert!(command.is_none() && edits.is_none());
}

fn original() -> CompletionItem {
    CompletionItem {
        label: "B".to_string(),
        label_details: None,
        kind: Some(CompletionItemKind::Function),
        detail: None,
        documentation: None,
        deprecated: None,
        preselect: None,
        sort_text: Some("16".to_string()),
        filter_text: None,
        insert_text: None,
        insert_text_format: None,
        insert_text_mode: None,
        text_edit: Some(CompletionTextEdit::Edit(TextEdit {
            range: Range { start: line(0), end: line(0) },
            new_text: "import ./b.ts".to_string(),
        })),
        additional_text_edits: None,
        command: None,
        commit_characters: Some(vec![".".to_string()]),
        data: Some(data(None, false)),
        tags: Some(vec![CompletionItemTag::Deprecated]),
    }
}

fn details() -> CompletionEntryDetails {
    CompletionEntryDetails {
        display_parts: signature(&[
            ("functionName", "B"), ("punctuation", "("), ("parameterName", "a"), ("punctuation", ","),
            ("parameterName", "b"), ("punctuation", ")"),
        ]),
        documentation: Some(vec![part("text", "Does things.")]),
        tags: Some(vec![
            JsDocTagInfo { name: "since".to_string(), text: Some(vec![part("text", "1")]) },
            JsDocTagInfo { name: "beta".to_string(), text: None },
        ]),
        name: "B".to_string(),
        kind: ScriptElementKind::FunctionElement,
        kind_modifiers: String::new(),
        code_actions: None,
        source_display: None,
    }
}

#[test]
fn details_are_put_into_the_item() {
    let item = details()
        .as_completion_item(&original(), &data(Some(("./b.ts", "b")), true), &specifier("file:///a.ts"), &server(&[]))
        .unwrap();
    assert_eq!(item.label, "B");
    assert_eq!(item.detail, Some("B(a,b)".to_string()));
    assert_eq!(item.documentation, Some("Does things.\n\n*@since* - 1*@beta*".to_string()));
    assert_eq!(item.insert_text, Some("B(a, b)".to_string()));
    assert!(matches!(item.text_edit, Some(CompletionTextEdit::Edit(edit)) if edit.new_text == "import b"));
    assert!(item.data.is_none());
    assert!(item.commit_characters.is_none());
    assert_eq!(item.sort_text, Some("16".to_string()));
    assert_eq!(item.tags, Some(vec![CompletionItemTag::Deprecated]));
}

#[test]
fn details_keep_what_the_item_had() {
    let mut original = original();
    original.detail = Some("kept".to_string());
    original.insert_text = Some("text".to_string());
    let mut details = details();
    details.documentation = None;
    let item = details
        .as_completion_item(&original, &data(None, false), &specifier("file:///a.ts"), &server(&[]))
        .unwrap();
    assert_eq!(item.detail, Some("kept".to_string()));
    assert_eq!(item.insert_text, Some("text".to_string()));
    assert_eq!(item.documentation, None);
    details.code_actions = Some(vec![CodeAction { description: String::new(), changes: vec![], commands: None }]);
    let result = details.as_completion_item(&original, &data(None, false), &specifier("file:///a.ts"), &server(&[]));
    assert!(matches!(result, Err(TscError::DocumentNotFound)));
}

#[test]
fn details_are_asked_for_by_the_data() {
    let args = GetCompletionDetailsArgs::from(&data(None, true));
    assert_eq!(args.specifier.as_str(), "file:///a.ts");
    assert_eq!(args.position, 3);
    assert_eq!(args.name, "B");
    assert_eq!(args.source, Some("./b.ts".to_string()));
    assert_eq!(args.data, Some("null".to_string()));
    assert!(args.preferences.is_none() && args.format_code_settings.is_none());
}
