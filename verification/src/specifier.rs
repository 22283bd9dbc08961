//! Module specifiers, and the media types that they name.

use vstd::prelude::*;
use vstd::string::*;
use url::Url;
use crate::error::TscError;
use crate::strings;
use crate::strings::{same_text, split_first};

verus! {

/// The specifier that stands for one that is not valid.
pub const INVALID: &'static str = "deno://invalid";

/// Why a text is not a URL.
#[verifier::external_type_specification]
#[verifier::external_body]
pub struct ExParseError(url::ParseError);

/// The serialization of the URL that a text parses to, or nothing where it parses to none.
pub uninterp spec fn parsed_url(text: Seq<char>) -> Option<Seq<char>>;

/// The name of the media type that a URL has by its own path or data.
pub uninterp spec fn url_media_name(href: Seq<char>) -> Seq<char>;

/// The name of the media type that a path has by its extension.
pub uninterp spec fn path_media_name(path: Seq<char>) -> Seq<char>;

/// A text that is its own serialization as a URL.
pub open spec fn is_url(text: Seq<char>) -> bool {
    parsed_url(text) == Some(text)
}

/// A path that is read alike on every system: it opens with neither a slash nor a drive, and no
/// backslash stands in it.
pub open spec fn is_portable_path(path: Seq<char>) -> bool {
    &&& !path.contains('\\')
    &&& path.len() > 0 ==> path[0] != '/'
    &&& path.len() > 1 ==> path[1] != ':'
}

/// `url::Url::parse`, with the URL given back by its serialization. A serialization parses to
/// itself, which is one of the invariants that `Url` keeps. A scheme that is not special, two
/// slashes and a host of letters, with nothing behind them, are a serialization.
#[verifier::external_body]
fn parse_url(text: &str) -> (r: Result<String, url::ParseError>)
    ensures
        r is Ok == parsed_url(text@) is Some,
        r matches Ok(href) ==> parsed_url(text@) == Some(href@) && is_url(href@),
        text@ == INVALID@ ==> r is Ok && r->Ok_0@ == text@,
{
    Url::parse(text).map(|url| url.as_str().to_string())
}

/// A URL with another fragment.
pub open spec fn with_fragment(href: Seq<char>, fragment: Seq<char>) -> Seq<char> {
    href.subrange(0, strings::first_index(href, '#')) + "#"@ + fragment
}

/// A character that a fragment holds as it is.
pub open spec fn is_plain(c: char) -> bool {
    'A' <= c <= 'Z' || '0' <= c <= '9' || c == ','
}

/// `url::Url::set_fragment`, on a URL given by its serialization, with a fragment of upper-case
/// letters, digits and commas, which none of its escapes touch: what stands from the first `#` on
/// is replaced. The outcome is a URL again.
#[verifier::external_body]
fn set_fragment(href: &str, fragment: &str) -> (r: String)
    requires
        is_url(href@),
        forall|i: int| 0 <= i < fragment@.len() ==> is_plain(#[trigger] fragment@[i]),
    ensures
        r@ == with_fragment(href@, fragment@),
        is_url(r@),
{
    let mut url = Url::parse(href).unwrap();
    url.set_fragment(Some(fragment));
    url.as_str().to_string()
}

/// `deno_ast::MediaType::from_specifier`, on a URL given by its serialization, with the media type
/// given back by the name it is displayed with.
#[verifier::external_body]
fn media_name_of_url(href: &str) -> (r: String)
    requires
        is_url(href@),
    ensures
        r@ == url_media_name(href@),
{
    deno_ast::MediaType::from_specifier(&Url::parse(href).unwrap()).to_string()
}

/// `deno_ast::MediaType::from_path`, with the media type given back by the name it is displayed
/// with. Paths are split in the way of the system at hand, so the result is named only for those
/// that every system splits alike.
#[verifier::external_body]
fn media_name_of_path(path: &str) -> (r: String)
    ensures
        is_portable_path(path@) ==> r@ == path_media_name(path@),
{
    deno_ast::MediaType::from_path(std::path::Path::new(path)).to_string()
}

/// The type of a module's source.
#[derive(Debug, Clone, Copy, PartialEq, Eq, Structural)]
pub enum MediaType {
    JavaScript,
    Jsx,
    Mjs,
    Cjs,
    TypeScript,
    Mts,
    Cts,
    Dts,
    Dmts,
    Dcts,
    Tsx,
    Json,
    Wasm,
    TsBuildInfo,
    SourceMap,
    Unknown,
}

/// The media type of a name.
pub open spec fn named_media_type(name: Seq<char>) -> MediaType {
    if name == "JavaScript"@ {
        MediaType::JavaScript
    } else if name == "JSX"@ {
        MediaType::Jsx
    } else if name == "Mjs"@ {
        MediaType::Mjs
    } else if name == "Cjs"@ {
        MediaType::Cjs
    } else if name == "TypeScript"@ {
        MediaType::TypeScript
    } else if name == "Mts"@ {
        MediaType::Mts
    } else if name == "Cts"@ {
        MediaType::Cts
    } else if name == "Dts"@ {
        MediaType::Dts
    } else if name == "Dmts"@ {
        MediaType::Dmts
    } else if name == "Dcts"@ {
        MediaType::Dcts
    } else if name == "TSX"@ {
        MediaType::Tsx
    } else if name == "Json"@ {
        MediaType::Json
    } else if name == "Wasm"@ {
        MediaType::Wasm
    } else if name == "TsBuildInfo"@ {
        MediaType::TsBuildInfo
    } else if name == "SourceMap"@ {
        MediaType::SourceMap
    } else {
        MediaType::Unknown
    }
}

/// The extension by which TypeScript knows a media type.
pub open spec fn ts_extension(media_type: MediaType) -> Seq<char> {
    match media_type {
        MediaType::JavaScript => ".js"@,
        MediaType::Jsx => ".jsx"@,
        MediaType::Mjs => ".mjs"@,
        MediaType::Cjs => ".cjs"@,
        MediaType::TypeScript => ".ts"@,
        MediaType::Mts => ".mts"@,
        MediaType::Cts => ".cts"@,
        MediaType::Dts => ".d.ts"@,
        MediaType::Dmts => ".d.mts"@,
        MediaType::Dcts => ".d.cts"@,
        MediaType::Tsx => ".tsx"@,
        MediaType::Json => ".json"@,
        MediaType::TsBuildInfo => ".tsbuildinfo"@,
        MediaType::Wasm | MediaType::SourceMap | MediaType::Unknown => ".js"@,
    }
}

/// The media type that a URL has by its own path or data.
pub open spec fn url_media_type(href: Seq<char>) -> MediaType {
    named_media_type(url_media_name(href))
}

/// The media type that a path has by its extension.
pub open spec fn path_media_type(path: Seq<char>) -> MediaType {
    named_media_type(path_media_name(path))
}

impl MediaType {
    /// The media type of a name.
    pub fn from_name(name: &str) -> (r: MediaType)
        ensures
            r == named_media_type(name@),
    {
        if same_text(name, "JavaScript") {
            MediaType::JavaScript
        } else if same_text(name, "JSX") {
            MediaType::Jsx
        } else if same_text(name, "Mjs") {
            MediaType::Mjs
        } else if same_text(name, "Cjs") {
            MediaType::Cjs
        } else if same_text(name, "TypeScript") {
            MediaType::TypeScript
        } else if same_text(name, "Mts") {
            MediaType::Mts
        } else if same_text(name, "Cts") {
            MediaType::Cts
        } else if same_text(name, "Dts") {
            MediaType::Dts
        } else if same_text(name, "Dmts") {
            MediaType::Dmts
        } else if same_text(name, "Dcts") {
            MediaType::Dcts
        } else if same_text(name, "TSX") {
            MediaType::Tsx
        } else if same_text(name, "Json") {
            MediaType::Json
        } else if same_text(name, "Wasm") {
            MediaType::Wasm
        } else if same_text(name, "TsBuildInfo") {
            MediaType::TsBuildInfo
        } else if same_text(name, "SourceMap") {
            MediaType::SourceMap
        } else {
            MediaType::Unknown
        }
    }

    /// The media type of a module, by its specifier.
    pub fn from_specifier(specifier: &ModuleSpecifier) -> (r: MediaType)
        ensures
            r == url_media_type(specifier@),
    {
        proof {
            use_type_invariant(specifier);
        }
        MediaType::from_name(media_name_of_url(specifier.as_str()).as_str())
    }

    /// The media type of a path.
    pub fn from_path(path: &str) -> (r: MediaType)
        ensures
            is_portable_path(path@) ==> r == path_media_type(path@),
    {
        MediaType::from_name(media_name_of_path(path).as_str())
    }

    /// The extension by which TypeScript knows the media type.
    pub fn as_ts_extension(&self) -> (r: &'static str)
        ensures
            r@ == ts_extension(*self),
    {
        match self {
            MediaType::JavaScript => ".js",
            MediaType::Jsx => ".jsx",
            MediaType::Mjs => ".mjs",
            MediaType::Cjs => ".cjs",
            MediaType::TypeScript => ".ts",
            MediaType::Mts => ".mts",
            MediaType::Cts => ".cts",
            MediaType::Dts => ".d.ts",
            MediaType::Dmts => ".d.mts",
            MediaType::Dcts => ".d.cts",
            MediaType::Tsx => ".tsx",
            MediaType::Json => ".json",
            MediaType::TsBuildInfo => ".tsbuildinfo",
            MediaType::Wasm | MediaType::SourceMap | MediaType::Unknown => ".js",
        }
    }
}

/// The specifier of a module: a URL, by its serialization.
#[derive(Debug)]
pub struct ModuleSpecifier {
    href: String,
}

impl View for ModuleSpecifier {
    type V = Seq<char>;

    closed spec fn view(&self) -> Seq<char> {
        self.href@
    }
}

impl Clone for ModuleSpecifier {
    fn clone(&self) -> (r: Self)
        ensures
            r == *self,
    {
        proof {
            use_type_invariant(self);
        }
        ModuleSpecifier { href: self.href.clone() }
    }
}

/// The scheme of a URL.
pub open spec fn scheme_of(href: Seq<char>) -> Seq<char> {
    href.subrange(0, strings::first_index(href, ':'))
}

impl ModuleSpecifier {
    #[verifier::type_invariant]
    spec fn inv(self) -> bool {
        is_url(self.href@)
    }

    /// The specifier that a text parses to; an error where it is no URL.
    pub fn parse(text: &str) -> (r: Result<ModuleSpecifier, TscError>)
        ensures
            r is Ok == parsed_url(text@) is Some,
            r matches Ok(specifier) ==> parsed_url(text@) == Some(specifier@) && is_url(
                specifier@,
            ),
            r matches Err(err) ==> err == TscError::InvalidUrl,
    {
        match parse_url(text) {
            Ok(href) => Ok(ModuleSpecifier { href }),
            Err(_) => Err(TscError::InvalidUrl),
        }
    }

    /// The specifier that stands for one that is not valid.
    pub fn invalid() -> (r: ModuleSpecifier)
        ensures
            r@ == INVALID@,
    {
        ModuleSpecifier { href: parse_url(INVALID).unwrap() }
    }

    /// The serialization of the specifier.
    pub fn as_str(&self) -> (r: &str)
        ensures
            r@ == self@,
            is_url(self@),
    {
        proof {
            use_type_invariant(self);
        }
        self.href.as_str()
    }

    /// The scheme of the specifier.
    pub fn scheme(&self) -> (r: String)
        ensures
            r@ == scheme_of(self@),
    {
        split_first(self.href.as_str(), ':').0
    }

    /// Whether the scheme of the specifier is the one given.
    pub fn has_scheme(&self, scheme: &str) -> (r: bool)
        ensures
            r == (scheme_of(self@) == scheme@),
    {
        same_text(self.scheme().as_str(), scheme)
    }

    /// Whether two specifiers are the same.
    pub fn same(&self, other: &ModuleSpecifier) -> (r: bool)
        ensures
            r == (self@ == other@),
    {
        same_text(self.href.as_str(), other.href.as_str())
    }

    /// The specifier with another fragment, of upper-case letters, digits and commas.
    pub fn set_fragment(&self, fragment: &str) -> (r: ModuleSpecifier)
        requires
            forall|i: int| 0 <= i < fragment@.len() ==> is_plain(#[trigger] fragment@[i]),
        ensures
            r@ == with_fragment(self@, fragment@),
    {
        proof {
            use_type_invariant(self);
        }
        ModuleSpecifier { href: set_fragment(self.href.as_str(), fragment) }
    }
}

/// A media type is told by its own name alone, and a name that is none of them tells of no type.
pub proof fn law_media_types_have_names(name: Seq<char>)
    ensures
        named_media_type(name) == MediaType::JavaScript <==> name == "JavaScript"@,
        named_media_type(name) == MediaType::Jsx <==> name == "JSX"@,
        named_media_type(name) == MediaType::Mjs <==> name == "Mjs"@,
        named_media_type(name) == MediaType::Cjs <==> name == "Cjs"@,
        named_media_type(name) == MediaType::TypeScript <==> name == "TypeScript"@,
        named_media_type(name) == MediaType::Mts <==> name == "Mts"@,
        named_media_type(name) == MediaType::Cts <==> name == "Cts"@,
        named_media_type(name) == MediaType::Dts <==> name == "Dts"@,
        named_media_type(name) == MediaType::Dmts <==> name == "Dmts"@,
        named_media_type(name) == MediaType::Dcts <==> name == "Dcts"@,
        named_media_type(name) == MediaType::Tsx <==> name == "TSX"@,
        named_media_type(name) == MediaType::Json <==> name == "Json"@,
        named_media_type(name) == MediaType::Wasm <==> name == "Wasm"@,
        named_media_type(name) == MediaType::TsBuildInfo <==> name == "TsBuildInfo"@,
        named_media_type(name) == MediaType::SourceMap <==> name == "SourceMap"@,
{
    reveal_strlit("JavaScript");
    reveal_strlit("JSX");
    reveal_strlit("Mjs");
    reveal_strlit("Cjs");
    reveal_strlit("TypeScript");
    reveal_strlit("Mts");
    reveal_strlit("Cts");
    reveal_strlit("Dts");
    reveal_strlit("Dmts");
    reveal_strlit("Dcts");
    reveal_strlit("TSX");
    reveal_strlit("Json");
    reveal_strlit("Wasm");
    reveal_strlit("TsBuildInfo");
    reveal_strlit("SourceMap");
    assert("JavaScript"@.len() == 10 && "JSX"@.len() == 3 && "Mjs"@.len() == 3 && "Cjs"@.len() == 3
        && "TypeScript"@.len() == 10 && "Mts"@.len() == 3 && "Cts"@.len() == 3 && "Dts"@.len() == 3
        && "Dmts"@.len() == 4 && "Dcts"@.len() == 4 && "TSX"@.len() == 3 && "Json"@.len() == 4
        && "Wasm"@.len() == 4 && "TsBuildInfo"@.len() == 11 && "SourceMap"@.len() == 9);
    assert("JSX"@[0] == 'J' && "Mjs"@[0] == 'M');
    assert("JSX"@[0] == 'J' && "Cjs"@[0] == 'C');
    assert("Mjs"@[0] == 'M' && "Cjs"@[0] == 'C');
    assert("JavaScript"@[0] == 'J' && "TypeScript"@[0] == 'T');
    assert("JSX"@[0] == 'J' && "Mts"@[0] == 'M');
    assert("Mjs"@[1] == 'j' && "Mts"@[1] == 't');
    assert("Cjs"@[0] == 'C' && "Mts"@[0] == 'M');
    assert("JSX"@[0] == 'J' && "Cts"@[0] == 'C');
    assert("Mjs"@[0] == 'M' && "Cts"@[0] == 'C');
    assert("Cjs"@[1] == 'j' && "Cts"@[1] == 't');
    assert("Mts"@[0] == 'M' && "Cts"@[0] == 'C');
    assert("JSX"@[0] == 'J' && "Dts"@[0] == 'D');
    assert("Mjs"@[0] == 'M' && "Dts"@[0] == 'D');
    assert("Cjs"@[0] == 'C' && "Dts"@[0] == 'D');
    assert("Mts"@[0] == 'M' && "Dts"@[0] == 'D');
    assert("Cts"@[0] == 'C' && "Dts"@[0] == 'D');
    assert("Dmts"@[1] == 'm' && "Dcts"@[1] == 'c');
    assert("JSX"@[0] == 'J' && "TSX"@[0] == 'T');
    assert("Mjs"@[0] == 'M' && "TSX"@[0] == 'T');
    assert("Cjs"@[0] == 'C' && "TSX"@[0] == 'T');
    assert("Mts"@[0] == 'M' && "TSX"@[0] == 'T');
    assert("Cts"@[0] == 'C' && "TSX"@[0] == 'T');
    assert("Dts"@[0] == 'D' && "TSX"@[0] == 'T');
    assert("Dmts"@[0] == 'D' && "Json"@[0] == 'J');
    assert("Dcts"@[0] == 'D' && "Json"@[0] == 'J');
    assert("Dmts"@[0] == 'D' && "Wasm"@[0] == 'W');
    assert("Dcts"@[0] == 'D' && "Wasm"@[0] == 'W');
    assert("Json"@[0] == 'J' && "Wasm"@[0] == 'W');
}

/// TypeScript knows each of its media types by an extension of its own, and takes what it does not know
/// for JavaScript.
pub proof fn law_media_types_have_extensions()
    ensures
        ts_extension(MediaType::JavaScript) == ".js"@,
        ts_extension(MediaType::Jsx) == ".jsx"@,
        ts_extension(MediaType::Mjs) == ".mjs"@,
        ts_extension(MediaType::Cjs) == ".cjs"@,
        ts_extension(MediaType::TypeScript) == ".ts"@,
        ts_extension(MediaType::Mts) == ".mts"@,
        ts_extension(MediaType::Cts) == ".cts"@,
        ts_extension(MediaType::Dts) == ".d.ts"@,
        ts_extension(MediaType::Dmts) == ".d.mts"@,
        ts_extension(MediaType::Dcts) == ".d.cts"@,
        ts_extension(MediaType::Tsx) == ".tsx"@,
        ts_extension(MediaType::Json) == ".json"@,
        ts_extension(MediaType::TsBuildInfo) == ".tsbuildinfo"@,
        ts_extension(MediaType::Unknown) == ts_extension(MediaType::JavaScript),
        ts_extension(MediaType::Wasm) == ts_extension(MediaType::JavaScript),
        ts_extension(MediaType::SourceMap) == ts_extension(MediaType::JavaScript),
{
}

/// The scheme of a URL is what stands before its first colon.
pub proof fn law_scheme_stands_before_the_colon(scheme: Seq<char>, rest: Seq<char>)
    requires
        !scheme.contains(':'),
    ensures
        scheme_of(scheme + seq![':'] + rest) == scheme,
{
    let href = scheme + seq![':'] + rest;
    assert forall|i: int| 0 <= i < scheme.len() implies href[i] != ':' by {
        assert(scheme.contains(scheme[i]));
    }
    strings::lemma_first_index(href, ':', scheme.len() as int);
    assert(href.subrange(0, scheme.len() as int) =~= scheme);
}

} // verus!
