use std::sync::Arc;
use tsc::display::{
    display_parts_to_string, get_tag_body_text, get_tag_documentation, JsDocTagInfo, QuickInfo,
    SymbolDisplayPart,
};
use tsc::document_span::DocumentSpan;
use tsc::language_server::{AssetOrDocument, Document, Inner, LspUrlMap};
use tsc::links::{make_codeblock, replace_links};
use tsc::lsp::{MarkedString, Position, Range};
use tsc::span::TextSpan;
use tsc::specifier::{MediaType, ModuleSpecifier};
use tsc::text::LineIndex;

fn specifier(text: &str) -> ModuleSpecifier {
    ModuleSpecifier::parse(text).unwrap()
}

fn server(documents: &[(&str, &str)]) -> Inner {
    let mut list = Vec::new();
    let mut entries = Vec::new();
    for (href, text) in documents {
        list.push(AssetOrDocument::Document(Document {
            specifier: specifier(href),
            text: text.to_string(),
            line_index: Arc::new(LineIndex::new(text)),
            media_type: MediaType::TypeScript,
            script_version: "1".to_string(),
            lsp_version: Some(1),
            is_open: true,
        }));
        entries.push((specifier(href), specifier(href)));
    }
    Inner { documents: list, url_map: LspUrlMap { entries }, imports: vec![] }
}

fn part(kind: &str, text: &str) -> SymbolDisplayPart {
    SymbolDisplayPart { text: text.to_string(), kind: kind.to_string(), target: None }
}

fn tag(name: &str, text: Option<&str>) -> JsDocTagInfo {
    JsDocTagInfo { name: name.to_string(), text: text.map(|t| vec![part("text", t)]) }
}

#[test]
fn test_replace_links() {
    let actual = replace_links(r"test {@link http://deno.land/x/mod.ts} test");
    assert_eq!(actual, r"test [http://deno.land/x/mod.ts](http://deno.land/x/mod.ts) test");
    let actual = replace_links(r"test {@link http://deno.land/x/mod.ts a link} test");
    assert_eq!(actual, r"test [a link](http://deno.land/x/mod.ts) test");
    let actual = replace_links(r"test {@linkcode http://deno.land/x/mod.ts a link} test");
    assert_eq!(actual, r"test [`a link`](http://deno.land/x/mod.ts) test");
}

#[test]
fn links_with_bars_and_capitals() {
    assert_eq!(
        replace_links("{@link https://a.b/c| some text } and {@LINKCODE https://a.b/c}"),
        "[some text](https://a.b/c) and [https://a.b/c](https://a.b/c)"
    );
    assert_eq!(replace_links("{@linkplain http://a.b x}{@link http://c.d}"), "[x](http://a.b)[http://c.d](http://c.d)");
}

#[test]
fn text_without_tags_is_left_alone() {
    assert_eq!(replace_links("no { @link http://a.b } here"), "no { @link http://a.b } here");
    assert_eq!(replace_links(""), "");
    assert_eq!(replace_links("{@link Symbol} stays"), "{@link Symbol} stays");
}

#[test]
fn codeblocks_are_fenced_once() {
    let block = make_codeblock("let a = 1;");
    assert_eq!(block, "```\nlet a = 1;\n```");
    assert_eq!(make_codeblock(&block), block);
    assert_eq!(make_codeblock(" \t~~~ts\nx\n~~~"), " \t~~~ts\nx\n~~~");
    assert_eq!(make_codeblock("x ```"), "```\nx ```\n```");
}

#[test]
fn tag_bodies() {
    let server = server(&[]);
    let body = |name: &str, text: &str| get_tag_body_text(&tag(name, Some(text)), &server);
    assert_eq!(
        body("example", "<caption>Adding</caption>\nadd(1, 2)"),
        Some("Adding\n\n```\nadd(1, 2)\n```".to_string())
    );
    assert_eq!(body("example", "add(1, 2)"), Some("```\nadd(1, 2)\n```".to_string()));
    assert_eq!(body("author", "Someone <some.one@example.com>"), Some("Someone some.one@example.com".to_string()));
    assert_eq!(body("author", "Someone"), Some("Someone".to_string()));
    assert_eq!(body("default", "1"), Some("```\n1\n```".to_string()));
    assert_eq!(body("see", "{@link http://a.b c}"), Some("[c](http://a.b)".to_string()));
    assert_eq!(get_tag_body_text(&tag("see", None), &server), None);
}

#[test]
fn tag_documentation() {
    let server = server(&[]);
    let doc = |name: &str, text: Option<&str>| get_tag_documentation(&tag(name, text), &server);
    assert_eq!(doc("deprecated", None), "*@deprecated*");
    assert_eq!(doc("since", Some("1.0")), "*@since* - 1.0");
    assert_eq!(doc("since", Some("1.0\n2.0")), "*@since*  \n1.0\n2.0");
}

#[test]
fn parameter_tags_are_documented_like_others() {
    let server = server(&[]);
    for name in ["param", "template", "extends", "augments"] {
        let doc = get_tag_documentation(&tag(name, Some("a - the first")), &server);
        assert_eq!(doc, format!("*@{}* - a - the first", name));
    }
}

#[test]
fn links_to_symbols() {
    let server = server(&[("file:///a.ts", "let a;\nlet b;\n")]);
    let target = DocumentSpan {
        text_span: TextSpan { start: 11, length: 1 },
        file_name: "file:///a.ts".to_string(),
        original_text_span: None,
        context_span: None,
        original_context_span: None,
    };
    let mut name = part("linkName", "b`c");
    name.target = Some(target.clone());
    let parts = vec![part("text", "see "), part("link", "{@link "), name, part("link", "}"), part("text", "!")];
    assert_eq!(display_parts_to_string(&parts, &server), "see [b\\`c](file:///a.ts#L2,5)!");

    let mut name = part("linkName", "b");
    name.target = Some(DocumentSpan { file_name: "file:///missing.ts".to_string(), ..target });
    let parts = vec![part("link", "{@linkcode "), name, part("link", "}")];
    assert_eq!(display_parts_to_string(&parts, &server), "");
}

#[test]
fn links_to_addresses() {
    let server = server(&[]);
    let link = |open: &str, text: &str| {
        display_parts_to_string(&[part("link", open), part("linkText", text), part("link", "}")], &server)
    };
    assert_eq!(link("{@link ", "https://a.b"), "https://a.b");
    assert_eq!(link("{@link ", "https://a.b two `words`"), "[two \\`words\\`](https://a.b)");
    assert_eq!(link("{@linkcode ", "HTTP://a.b x"), "[`x`](HTTP://a.b)");
    assert_eq!(link("{@link ", "Some`thing"), "Some\\`thing");
    assert_eq!(display_parts_to_string(&[part("linkText", "x"), part("text", "y")], &server), "y");
}

#[test]
fn hover_of_quick_info() {
    let server = server(&[]);
    let info = QuickInfo {
        text_span: TextSpan { start: 4, length: 1 },
        display_parts: Some(vec![part("keyword", "let"), part("space", " "), part("localName", "a")]),
        documentation: Some(vec![part("text", "A thing.")]),
        tags: Some(vec![tag("since", Some("1.0")), tag("deprecated", None)]),
    };
    let hover = info.to_hover(Arc::new(LineIndex::new("\nlet a;")), &server);
    assert_eq!(
        hover.range,
        Some(Range {
            start: Position { line: 1, character: 3 },
            end: Position { line: 1, character: 4 },
        })
    );
    assert_eq!(hover.contents.len(), 3);
    match &hover.contents[0] {
        MarkedString::LanguageString { language, value } => {
            assert_eq!(language, "typescript");
            assert_eq!(value, "let a");
        }
        MarkedString::Markdown(_) => panic!(),
    }
    assert!(matches!(&hover.contents[1], MarkedString::Markdown(text) if text == "A thing."));
    assert!(
        matches!(&hover.contents[2], MarkedString::Markdown(text) if text == "\n\n*@since* - 1.0  \n\n*@deprecated*")
    );
}

#[test]
fn hover_without_anything() {
    let info = QuickInfo {
        text_span: TextSpan { start: 0, length: 0 },
        display_parts: None,
        documentation: None,
        tags: Some(vec![]),
    };
    let hover = info.to_hover(Arc::new(LineIndex::new("")), &server(&[]));
    assert!(hover.contents.is_empty());
}
