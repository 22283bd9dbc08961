use tsc::error::TscError;
use tsc::specifier::{MediaType, ModuleSpecifier};
use tsc::specifier_map::TscSpecifierMap;

fn specifier(text: &str) -> ModuleSpecifier {
    ModuleSpecifier::parse(text).unwrap()
}

#[test]
fn specifiers_are_parsed() {
    let parsed = specifier("HTTPS://Deno.land/x/../mod.ts");
    assert_eq!(parsed.as_str(), "https://deno.land/mod.ts");
    assert_eq!(parsed.scheme(), "https");
    assert!(parsed.has_scheme("https"));
    assert!(parsed.same(&parsed.clone()));
    assert_eq!(ModuleSpecifier::parse("./mod.ts").unwrap_err(), TscError::InvalidUrl);
    assert_eq!(ModuleSpecifier::invalid().as_str(), "deno://invalid");
    assert_eq!(specifier(parsed.as_str()).as_str(), parsed.as_str());
}

#[test]
fn fragments_are_set() {
    assert_eq!(specifier("file:///a.ts").set_fragment("L1,2").as_str(), "file:///a.ts#L1,2");
    assert_eq!(specifier("file:///a.ts?x#old").set_fragment("L10,20").as_str(), "file:///a.ts?x#L10,20");
}

#[test]
fn media_types_of_specifiers() {
    let media_type = |text: &str| MediaType::from_specifier(&specifier(text));
    assert_eq!(media_type("file:///a.ts"), MediaType::TypeScript);
    assert_eq!(media_type("file:///a.d.ts"), MediaType::Dts);
    assert_eq!(media_type("file:///a.d.mts"), MediaType::Dmts);
    assert_eq!(media_type("file:///a.d.cts"), MediaType::Dcts);
    assert_eq!(media_type("file:///a.mts"), MediaType::Mts);
    assert_eq!(media_type("file:///a.cts"), MediaType::Cts);
    assert_eq!(media_type("file:///a.tsx"), MediaType::Tsx);
    assert_eq!(media_type("file:///a.js"), MediaType::JavaScript);
    assert_eq!(media_type("file:///a.jsx"), MediaType::Jsx);
    assert_eq!(media_type("file:///a.mjs"), MediaType::Mjs);
    assert_eq!(media_type("file:///a.cjs"), MediaType::Cjs);
    assert_eq!(media_type("file:///a.json"), MediaType::Json);
    assert_eq!(media_type("file:///a.wasm"), MediaType::Wasm);
    assert_eq!(media_type("file:///.tsbuildinfo"), MediaType::TsBuildInfo);
    assert_eq!(media_type("file:///a.js.map"), MediaType::SourceMap);
    assert_eq!(media_type("file:///a"), MediaType::Unknown);
    assert_eq!(media_type("data:text/typescript,1"), MediaType::TypeScript);
    assert_eq!(MediaType::from_path("https://a.b/c.tsx"), MediaType::Tsx);
    assert_eq!(MediaType::from_path("https://a.b/c.tsx?d"), MediaType::Unknown);
}

#[test]
fn names_with_the_same_media_type_are_kept() {
    let mut map = TscSpecifierMap::new();
    assert_eq!(map.denormalize(&specifier("file:///a.ts")), "file:///a.ts");
    assert_eq!(map.normalize("file:///a.ts").unwrap().as_str(), "file:///a.ts");
}

#[test]
fn names_get_the_extension_of_their_media_type() {
    let mut map = TscSpecifierMap::new();
    let original = specifier("https://deno.land/mod.ts?x=1");
    let name = map.denormalize(&original);
    assert_eq!(name, "https://deno.land/mod.ts?x=1.ts");
    assert_eq!(map.normalize(&name).unwrap().as_str(), original.as_str());
    assert_eq!(map.denormalize(&original), name);

    let data = specifier("data:application/typescript,1");
    assert_eq!(map.denormalize(&data), "data:application/typescript,1.ts");
    assert_eq!(map.normalize("data:application/typescript,1.ts").unwrap().as_str(), data.as_str());
}

#[test]
fn names_are_given_by_the_media_type_of_the_path() {
    let mut map = TscSpecifierMap::new();
    let original = specifier("https://deno.land/mod.ts?x=1");
    assert_eq!(map.denormalize_as(&original, MediaType::Unknown), "https://deno.land/mod.ts?x=1.ts");
    let plain = specifier("https://deno.land/mod.ts");
    assert_eq!(map.denormalize_as(&plain, MediaType::TypeScript), "https://deno.land/mod.ts");
}

#[test]
fn doubled_declaration_extensions_are_read_once() {
    let mut map = TscSpecifierMap::new();
    let read = map.normalize("file:///a.d.ts.d.ts").unwrap();
    assert_eq!(read.as_str(), "file:///a.d.ts");
    assert_eq!(map.denormalize(&read), "file:///a.d.ts.d.ts");
}

#[test]
fn names_that_are_no_urls_are_errors() {
    let mut map = TscSpecifierMap::new();
    assert_eq!(map.normalize("a.ts").unwrap_err(), TscError::InvalidUrl);
}

#[test]
fn lists_of_names() {
    let mut map = TscSpecifierMap::new();
    let names = map.denormalize_all(&vec![specifier("file:///a.ts"), specifier("file:///b?c")]);
    assert_eq!(names, vec!["file:///a.ts".to_string(), "file:///b?c".to_string()]);
}

#[test]
fn names_go_on_leading_back() {
    let mut map = TscSpecifierMap::new();
    let module = specifier("https://deno.land/mod.ts?x=1");
    let name = map.denormalize(&module);
    map.denormalize(&specifier("https://deno.land/mod.ts?x=2"));
    map.normalize("file:///a.d.ts.d.ts").unwrap();
    map.normalize(&name).unwrap();
    assert_eq!(map.normalize(&name).unwrap().as_str(), module.as_str());
}
