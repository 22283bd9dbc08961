use std::sync::Arc;
use tsc::assets::{get_isolate_assets_reply, AssetDocument, Assets, AssetsSnapshot};
use tsc::diagnostics::{Diagnostic, ModuleDiagnostics};
use tsc::document_span::DocumentSpan;
use tsc::edits::{CodeFixAction, FileTextChanges};
use tsc::element::{OneOrMany, ScriptElementKind};
use tsc::error::{LspError, TscError};
use tsc::hierarchy::CallHierarchyItem;
use tsc::language_server::Document;
use tsc::locations::{
    DefinitionInfo, ReferenceEntry, ReferencedSymbol, ReferencedSymbolDefinitionInfo,
    ReferencedSymbolEntry,
};
use tsc::navigation::NavigationTree;
use tsc::preferences::{FormatCodeSettings, GetNavigateToItemsArgs, UserPreferences};
use tsc::requests::{received, run_tsc_thread, start_tsc, ThreadAction, ThreadEvent};
use tsc::server::{RequestArg, TextRange, TsServer};
use tsc::span::TextSpan;
use tsc::specifier::{MediaType, ModuleSpecifier};
use tsc::specifier_map::TscSpecifierMap;
use tsc::state::{
    op_project_version, Dependency, DiagnosableDocument, Documents, Resolution, State,
    StateSnapshot,
};
use tsc::text::LineIndex;

fn specifier(text: &str) -> ModuleSpecifier {
    ModuleSpecifier::parse(text).unwrap()
}

fn document(href: &str, text: &str) -> Document {
    Document {
        specifier: specifier(href),
        text: text.to_string(),
        line_index: Arc::new(LineIndex::new(text)),
        media_type: MediaType::Tsx,
        script_version: "3".to_string(),
        lsp_version: None,
        is_open: true,
    }
}

fn documents() -> Documents {
    Documents {
        documents: vec![],
        diagnosable: vec![],
        injected_types_node_package: false,
        module_graph_imports: vec![],
        resolved_specifiers: vec![],
        existing: vec![],
        resolutions: vec![],
    }
}

fn built_in() -> Vec<(String, String)> {
    vec![("lib.es5.d.ts".to_string(), "declare var NaN: number;".to_string())]
}

fn assets() -> Assets {
    Assets::new(&built_in()).unwrap()
}

fn state(documents: Documents) -> State {
    State::new(Arc::new(StateSnapshot {
        documents,
        assets: assets().snapshot(),
        npm: Some(vec![specifier("file:///node_modules/a/index.js")]),
    }))
}

fn tree(text: &str) -> Arc<NavigationTree> {
    Arc::new(NavigationTree {
        text: text.to_string(),
        kind: ScriptElementKind::ModuleElement,
        kind_modifiers: String::new(),
        spans: vec![],
        name_span: None,
        child_items: None,
    })
}

#[test]
fn assets_are_held_by_specifier() {
    let mut assets = Assets::new(&built_in()).unwrap();
    let lib = specifier("asset:///lib.es5.d.ts");
    assert_eq!(assets.get(&lib).unwrap().text(), "declare var NaN: number;");
    let isolate = get_isolate_assets_reply(&vec![
        ("asset:///lib.es5.d.ts".to_string(), "other".to_string()),
        ("asset:///lib.dom.d.ts".to_string(), "dom".to_string()),
    ])
    .unwrap();
    assets.initialize(&isolate);
    assert_eq!(assets.get(&lib).unwrap().text(), "declare var NaN: number;");
    let dom = assets.get(&specifier("asset:///lib.dom.d.ts")).unwrap();
    assert_eq!(dom.text(), "dom");
    assert_eq!(dom.specifier().as_str(), "asset:///lib.dom.d.ts");
    assert!(dom.maybe_navigation_tree().is_none());
    let snapshot = assets.snapshot();
    assert!(snapshot.contains_key(&lib, &assets));
    assert!(!snapshot.contains_key(&specifier("asset:///x.d.ts"), &assets));
    assert_eq!(snapshot.get(&lib, &assets).unwrap().line_index().position_tsc(3).character, 3);
    let (snapshot, own) = AssetsSnapshot::new(&built_in()).unwrap();
    assert!(snapshot.contains_key(&lib, &own));
    assert!(!snapshot.contains_key(&specifier("asset:///lib.dom.d.ts"), &own));
    assert_eq!(get_isolate_assets_reply(&vec![("x".to_string(), String::new())]).unwrap_err(), TscError::InvalidUrl);
}

#[test]
fn navigation_trees_of_assets_are_kept() {
    let mut assets = Assets::new(&built_in()).unwrap();
    let lib = specifier("asset:///lib.es5.d.ts");
    assert_eq!(assets.cache_navigation_tree(&lib, tree("a")), Ok(()));
    assert_eq!(assets.get(&lib).unwrap().maybe_navigation_tree().unwrap().text, "a");
    assert_eq!(assets.get(&lib).unwrap().text(), "declare var NaN: number;");
    let missing = assets.cache_navigation_tree(&specifier("asset:///x.d.ts"), tree("a"));
    assert_eq!(missing, Err(TscError::MissingAsset));
    let asset = AssetDocument::new(lib, "x").with_navigation_tree(tree("b"));
    assert_eq!(asset.maybe_navigation_tree().unwrap().text, "b");
}

#[test]
fn earlier_snapshots_see_later_assets() {
    let mut assets = assets();
    let state = state(documents());
    let snapshot = assets.snapshot();
    let lib = specifier("asset:///lib.es5.d.ts");
    let dom = specifier("asset:///lib.dom.d.ts");
    assert!(snapshot.get(&lib, &assets).unwrap().maybe_navigation_tree().is_none());
    assert_eq!(state.script_version(&dom, &assets), None);
    assert_eq!(assets.cache_navigation_tree(&lib, tree("a")), Ok(()));
    assert_eq!(snapshot.get(&lib, &assets).unwrap().maybe_navigation_tree().unwrap().text, "a");
    assets.initialize(&vec![AssetDocument::new(specifier("asset:///lib.dom.d.ts"), "dom")]);
    assert!(snapshot.contains_key(&dom, &assets));
    assert_eq!(state.script_version(&dom, &assets), Some("1".to_string()));
    let mut map = TscSpecifierMap::new();
    let loaded = state.op_load(&mut map, "asset:///lib.dom.d.ts", &assets).unwrap().unwrap();
    assert_eq!(loaded.data, "dom");
}

fn text_of(arg: &RequestArg) -> &str {
    match arg {
        RequestArg::Text(text) => text,
        RequestArg::FileScope(text) => text,
        _ => panic!(),
    }
}

#[test]
fn requests_name_modules() {
    let mut server = TsServer::new();
    let request = server.find_references(&specifier("https://a.b/c.ts?d"), 5);
    assert_eq!(request.method, "findReferences");
    assert_eq!(request.args.len(), 2);
    assert_eq!(text_of(&request.args[0]), "https://a.b/c.ts?d.ts");
    assert!(matches!(request.args[1], RequestArg::Number(5)));
    let request = server.get_diagnostics(&vec![specifier("file:///a.ts")]);
    assert_eq!(request.method, "$getDiagnostics");
    assert!(matches!(&request.args[0], RequestArg::Texts(names) if names == &vec!["file:///a.ts".to_string()]));
    let request = server.get_combined_code_fix(
        &specifier("file:///a.ts"),
        "fix".to_string(),
        FormatCodeSettings::default(),
        UserPreferences::default(),
    );
    assert!(matches!(&request.args[0], RequestArg::FileScope(name) if name == "file:///a.ts"));
    assert_eq!(text_of(&request.args[1]), "fix");
}

#[test]
fn requests_with_other_arguments() {
    let mut server = TsServer::new();
    let a = specifier("file:///a.ts");
    let request = server.get_encoded_semantic_classifications(&a, TextRange { pos: 3, end: 10 });
    assert!(matches!(request.args[1], RequestArg::Span(TextSpan { start: 3, length: 7 })));
    assert_eq!(text_of(&request.args[2]), "2020");
    let request = server.find_rename_locations(&a, 0);
    assert_eq!(request.args.len(), 5);
    assert!(matches!(request.args[4], RequestArg::Bool(false)));
    let request = server.get_applicable_refactors(&a, TextRange { pos: 1, end: 2 }, None, "refactor".to_string());
    assert!(matches!(request.args[1], RequestArg::Range(TextRange { pos: 1, end: 2 })));
    assert!(matches!(request.args[2], RequestArg::Preferences(_)));
    assert!(matches!(request.args[3], RequestArg::Null));
    let request = server.get_navigate_to_items(GetNavigateToItemsArgs {
        search: "x".to_string(),
        max_result_count: Some(256),
        file: Some("not a url".to_string()),
    });
    assert!(matches!(&request.args[2], RequestArg::MaybeText(Some(file)) if file == "not a url"));
    assert!(server.restart().args.is_empty());
    assert_eq!(server.get_isolate_assets().method, "$getAssets");
}

#[test]
fn project_versions_count_up() {
    let mut server = TsServer::new();
    assert_eq!(op_project_version(server.project_version), "1");
    server.increment_project_version();
    assert_eq!(op_project_version(server.project_version), "2");
    server.project_version = usize::MAX;
    server.increment_project_version();
    assert_eq!(server.project_version, 0);
}

fn span(file: &str) -> DocumentSpan {
    DocumentSpan {
        text_span: TextSpan { start: 0, length: 1 },
        file_name: file.to_string(),
        original_text_span: None,
        context_span: None,
        original_context_span: None,
    }
}

fn symbol(definition: &str, reference: &str) -> ReferencedSymbol {
    ReferencedSymbol {
        definition: ReferencedSymbolDefinitionInfo {
            definition_info: DefinitionInfo { document_span: span(definition) },
        },
        references: vec![ReferencedSymbolEntry {
            is_definition: true,
            entry: ReferenceEntry { document_span: span(reference) },
        }],
    }
}

#[test]
fn replies_come_back_under_specifiers() {
    let mut server = TsServer::new();
    server.find_references(&specifier("https://a.b/c.ts?d"), 5);
    let reply = Ok(Some(vec![symbol("https://a.b/c.ts?d.ts", "file:///a.d.ts.d.ts")]));
    let symbols = server.find_references_reply(reply).unwrap().unwrap();
    assert_eq!(symbols[0].definition.definition_info.document_span.file_name, "https://a.b/c.ts?d");
    assert_eq!(symbols[0].references[0].entry.document_span.file_name, "file:///a.d.ts");
    assert!(symbols[0].references[0].is_definition);
}

#[test]
fn replies_that_fail() {
    let mut server = TsServer::new();
    let reply = Ok(Some(vec![symbol("file:///a.ts", "b.ts")]));
    assert_eq!(server.find_references_reply(reply).unwrap_err(), LspError::InternalError);
    assert_eq!(server.find_references_reply(Err(TscError::NoResponse)).unwrap_err(), LspError::InternalError);
    assert_eq!(server.get_outlining_spans_reply(Err(TscError::Cancelled)).unwrap_err(), LspError::InvalidRequest);
    assert!(server.get_code_fixes_reply(Err(TscError::NoResponse)).is_empty());
    assert!(server.get_completions_reply(Err(TscError::NoResponse)).is_none());
    assert_eq!(server.get_completion_details_reply(Err(TscError::NoResponse)).unwrap_err(), TscError::NoResponse);
    let fix = |file: &str| CodeFixAction {
        description: String::new(),
        changes: vec![FileTextChanges { file_name: file.to_string(), text_changes: vec![], is_new_file: None }],
        commands: None,
        fix_name: "fix".to_string(),
        fix_id: None,
        fix_all_description: None,
    };
    assert_eq!(server.get_code_fixes_reply(Ok(vec![fix("file:///a.ts")])).len(), 1);
    assert!(server.get_code_fixes_reply(Ok(vec![fix("file:///a.ts"), fix("x")])).is_empty());
}

#[test]
fn one_or_many_items_come_back() {
    let item = |file: &str| CallHierarchyItem {
        name: String::new(),
        kind: ScriptElementKind::FunctionElement,
        kind_modifiers: None,
        file: file.to_string(),
        span: TextSpan { start: 0, length: 0 },
        selection_span: TextSpan { start: 0, length: 0 },
        container_name: None,
    };
    let mut server = TsServer::new();
    let one = server.prepare_call_hierarchy_reply(Ok(Some(OneOrMany::One(item("file:///a.d.ts.d.ts")))));
    assert!(matches!(one, Ok(Some(OneOrMany::One(item))) if item.file == "file:///a.d.ts"));
    let many = server.prepare_call_hierarchy_reply(Ok(Some(OneOrMany::Many(vec![item("file:///b.ts")]))));
    assert!(matches!(many, Ok(Some(OneOrMany::Many(items))) if items[0].file == "file:///b.ts"));
    assert!(matches!(server.prepare_call_hierarchy_reply(Ok(None)), Ok(None)));
}

fn diagnostic(file: Option<&str>, related: Vec<Diagnostic>) -> Diagnostic {
    Diagnostic {
        file_name: file.map(|f| f.to_string()),
        related_information: if related.is_empty() { None } else { Some(related) },
        json: "{}".to_string(),
    }
}

#[test]
fn diagnostics_come_back_by_module() {
    let mut server = TsServer::new();
    let nested = diagnostic(Some("file:///b.d.ts.d.ts"), vec![diagnostic(None, vec![])]);
    let reply = Ok(vec![
        ModuleDiagnostics { specifier: "file:///a.ts".to_string(), diagnostics: vec![] },
        ModuleDiagnostics { specifier: "file:///c.ts".to_string(), diagnostics: vec![] },
        ModuleDiagnostics {
            specifier: "file:///a.ts".to_string(),
            diagnostics: vec![diagnostic(Some("file:///a.ts"), vec![nested])],
        },
    ]);
    let list = server.get_diagnostics_reply(reply).unwrap();
    assert_eq!(list.len(), 2);
    assert_eq!(list[0].specifier, "file:///a.ts");
    let related = list[0].diagnostics[0].related_information.as_ref().unwrap();
    assert_eq!(related[0].file_name, Some("file:///b.d.ts".to_string()));
    assert_eq!(related[0].json, "{}");
    let reply = Ok(vec![ModuleDiagnostics {
        specifier: "file:///a.ts".to_string(),
        diagnostics: vec![diagnostic(Some("x"), vec![])],
    }]);
    assert_eq!(server.get_diagnostics_reply(reply).unwrap_err(), TscError::InvalidUrl);
}

#[test]
fn modules_are_loaded() {
    let mut documents = documents();
    documents.documents.push(document("https://a.b/c?d", "let a;"));
    let state = state(documents);
    let assets = assets();
    let mut map = TscSpecifierMap::new();
    let name = map.denormalize(&specifier("https://a.b/c?d"));
    let loaded = state.op_load(&mut map, &name, &assets).unwrap().unwrap();
    assert_eq!(loaded.data, "let a;");
    assert_eq!(loaded.script_kind, 4);
    assert_eq!(loaded.version, Some("3".to_string()));
    let asset = state.op_load(&mut map, "asset:///lib.es5.d.ts", &assets).unwrap().unwrap();
    assert_eq!(asset.script_kind, 3);
    assert_eq!(asset.version, Some("1".to_string()));
    assert!(state.op_load(&mut map, "internal:///missing_dependency.d.ts", &assets).unwrap().is_none());
    assert!(state.op_load(&mut map, "file:///x.ts", &assets).unwrap().is_none());
    assert_eq!(state.op_load(&mut map, "x", &assets).unwrap_err(), TscError::InvalidUrl);
    assert_eq!(state.op_script_version(&mut map, "file:///x.ts", &assets).unwrap(), None);
    assert_eq!(state.op_script_version(&mut map, "asset:///lib.es5.d.ts", &assets).unwrap(), Some("1".to_string()));
}

#[test]
fn node_files_are_in_packages() {
    let state = state(documents());
    assert!(state.op_is_node_file("file:///node_modules/a/index.js"));
    assert!(!state.op_is_node_file("file:///a.js"));
    assert!(!state.op_is_node_file("a.js"));
}

#[test]
fn specifiers_are_resolved() {
    let mut documents = documents();
    documents.documents.push(document("file:///a.ts", ""));
    documents.resolutions.push(Resolution {
        referrer: specifier("file:///a.ts"),
        text: "./b".to_string(),
        resolved: Some((specifier("https://a.b/b?c"), MediaType::Dts)),
    });
    let state = state(documents);
    let assets = assets();
    let mut map = TscSpecifierMap::new();
    let texts = vec!["./b".to_string(), "./c".to_string()];
    let resolved = state.op_resolve(&mut map, "file:///a.ts", &texts, &assets).unwrap();
    assert_eq!(resolved[0], Some(("https://a.b/b?c".to_string(), ".d.ts".to_string())));
    assert_eq!(resolved[1], None);
    assert_eq!(state.op_resolve(&mut map, "file:///x.ts", &texts, &assets).unwrap(), vec![None, None]);
    assert_eq!(state.op_resolve(&mut map, "x", &texts, &assets).unwrap_err(), TscError::InvalidUrl);
}

#[test]
fn script_names_come_in_order() {
    let mut documents = documents();
    documents.injected_types_node_package = true;
    documents.module_graph_imports = vec![specifier("file:///types.d.ts"), specifier("file:///types.d.ts")];
    documents.diagnosable = vec![DiagnosableDocument {
        specifier: specifier("file:///a.ts"),
        dependencies: vec![
            Dependency { type_specifier: Some(specifier("file:///b.d.ts")), code_specifier: Some(specifier("file:///b.js")) },
            Dependency { type_specifier: None, code_specifier: Some(specifier("file:///c.js")) },
            Dependency { type_specifier: None, code_specifier: None },
            Dependency { type_specifier: None, code_specifier: Some(specifier("file:///a.ts")) },
        ],
    }];
    for href in ["file:///a.ts", "file:///b.d.ts", "file:///c.js"] {
        documents.resolved_specifiers.push((specifier(href), specifier(href)));
    }
    documents.existing = vec![specifier("file:///a.ts"), specifier("file:///b.d.ts")];
    let names = state(documents).op_script_names(&mut TscSpecifierMap::new());
    assert_eq!(names, vec!["asset:///node_types.d.ts", "file:///types.d.ts", "file:///a.ts", "file:///b.d.ts"]);
}

#[test]
fn requests_are_run() {
    let mut state = state(documents());
    let snapshot = state.state_snapshot.clone();
    let script = state.start_request(snapshot.clone(), "$restart", "[]", false).unwrap();
    assert_eq!(script, "globalThis.serverRequest(2, \"$restart\", []);");
    state.op_respond("true".to_string());
    assert_eq!(state.finish_request(Ok(())), Ok("true".to_string()));
    assert_eq!(state.finish_request(Ok(())), Err(TscError::NoResponse));
    assert_eq!(state.finish_request(Err(TscError::ScriptFailed)), Err(TscError::ScriptFailed));
    assert_eq!(state.start_request(snapshot, "x", "[]", true), Err(TscError::Cancelled));
    assert_eq!(state.last_id, 2);
    assert_eq!(start_tsc(false), "globalThis.serverInit({\"debug\":false});");
    assert_eq!(start_tsc(true), "globalThis.serverInit({\"debug\":true});");
}

#[test]
fn replies_are_received() {
    assert_eq!(received(true, Some(Ok("1".to_string()))), Ok("1".to_string()));
    assert_eq!(received(true, Some(Err(TscError::NoResponse))), Err(TscError::NoResponse));
    assert_eq!(received(true, None), Err(TscError::Disconnected));
    assert_eq!(received(false, None), Err(TscError::Disconnected));
}

#[test]
fn the_thread_runs_until_the_channel_is_closed() {
    assert_eq!(run_tsc_thread(ThreadEvent::Received { is_request: true }), ThreadAction::RunRequest);
    assert_eq!(run_tsc_thread(ThreadEvent::Received { is_request: false }), ThreadAction::Stop);
    let replied = |was_sent, is_cancelled| run_tsc_thread(ThreadEvent::Replied { was_sent, is_cancelled });
    assert_eq!(replied(true, false), ThreadAction::Receive { warns: false });
    assert_eq!(replied(false, true), ThreadAction::Receive { warns: false });
    assert_eq!(replied(false, false), ThreadAction::Receive { warns: true });
}
