//! What the bridge reads of the language server.

use std::sync::Arc;
use vstd::prelude::*;
use vstd::string::*;
use crate::assets::AssetDocument;
use crate::error::TscError;
use crate::specifier;
use crate::specifier::{MediaType, ModuleSpecifier};
use crate::strings::same_text;
use crate::sync::share;
use crate::text;
use crate::text::LineIndex;
use crate::views;

verus! {

/// The URL by which the client knows a module.
#[derive(Debug)]
pub struct LspClientUrl(pub ModuleSpecifier);

impl View for LspClientUrl {
    type V = Seq<char>;

    open spec fn view(&self) -> Seq<char> {
        self.0@
    }
}

impl LspClientUrl {
    /// A client URL.
    pub fn new(url: ModuleSpecifier) -> (r: LspClientUrl)
        ensures
            r@ == url@,
    {
        LspClientUrl(url)
    }

    /// The URL itself.
    pub fn as_url(&self) -> (r: &ModuleSpecifier)
        ensures
            r@ == self@,
    {
        &self.0
    }

    /// The URL itself.
    pub fn into_url(self) -> (r: ModuleSpecifier)
        ensures
            r@ == self@,
    {
        self.0
    }
}

/// Where a text first occurs in a list, or the length of the list where it does not.
pub open spec fn first_of(list: Seq<Seq<char>>, text: Seq<char>) -> int
    decreases list.len(),
{
    if list.len() == 0 || list[0] == text {
        0
    } else {
        1 + first_of(list.skip(1), text)
    }
}

/// The first place of a text is where it stands and no earlier place holds it.
pub proof fn lemma_first_of(list: Seq<Seq<char>>, text: Seq<char>, n: int)
    requires
        0 <= n <= list.len(),
        forall|i: int| 0 <= i < n ==> list[i] != text,
        n < list.len() ==> list[n] == text,
    ensures
        first_of(list, text) == n,
    decreases n,
{
    if n > 0 {
        assert forall|i: int| 0 <= i < n - 1 implies list.skip(1)[i] != text by {
            assert(list.skip(1)[i] == list[i + 1]);
        }
        lemma_first_of(list.skip(1), text, n - 1);
    }
}

/// The URLs by which the client knows modules, by specifier.
#[derive(Debug)]
pub struct LspUrlMap {
    pub entries: Vec<(ModuleSpecifier, ModuleSpecifier)>,
}

impl LspUrlMap {
    /// The URL by which the client knows a module.
    pub open spec fn client_url(self, specifier: Seq<char>) -> Option<Seq<char>> {
        let keys = Seq::new(self.entries@.len(), |i: int| self.entries@[i].0@);
        let n = first_of(keys, specifier);
        if n < keys.len() {
            Some(self.entries@[n].1@)
        } else {
            None
        }
    }

    /// The URL by which the client knows a module; an error where there is none.
    pub fn normalize_specifier(&self, specifier: &ModuleSpecifier) -> (r: Result<
        LspClientUrl,
        TscError,
    >)
        ensures
            r is Ok == self.client_url(specifier@) is Some,
            r matches Ok(url) ==> self.client_url(specifier@) == Some(url@),
            r matches Err(err) ==> err == TscError::UrlNotMapped,
    {
        let ghost keys = Seq::new(self.entries@.len(), |i: int| self.entries@[i].0@);
        let mut i: usize = 0;
        while i < self.entries.len()
            invariant
                i <= self.entries@.len(),
                keys == Seq::new(self.entries@.len(), |i: int| self.entries@[i].0@),
                forall|j: int| 0 <= j < i ==> keys[j] != specifier@,
            decreases self.entries.len() - i,
        {
            if self.entries[i].0.same(specifier) {
                proof {
                    lemma_first_of(keys, specifier@, i as int);
                }
                return Ok(LspClientUrl(self.entries[i].1.clone()));
            }
            i = i + 1;
        }
        proof {
            lemma_first_of(keys, specifier@, keys.len() as int);
        }
        Err(TscError::UrlNotMapped)
    }
}

/// The URL by which the client knows a module, with the invalid specifier in the place of what is not
/// there.
pub open spec fn client_url_or_invalid(url_map: LspUrlMap, specifier: Option<Seq<char>>) -> Seq<
    char,
> {
    let href = match specifier {
        Some(href) => href,
        None => specifier::INVALID@,
    };
    match url_map.client_url(href) {
        Some(url) => url,
        None => specifier::INVALID@,
    }
}

/// The URL by which the client knows the module of a file name, with the invalid specifier in the
/// place of what is not there.
pub open spec fn uri_or_invalid(url_map: LspUrlMap, file_name: Seq<char>) -> Seq<char> {
    client_url_or_invalid(url_map, specifier::parsed_url(file_name))
}

impl LspUrlMap {
    /// The URL by which the client knows a module, with the invalid specifier in the place of what is
    /// not there.
    pub fn client_url_or_invalid(&self, specifier: Option<ModuleSpecifier>) -> (r: LspClientUrl)
        ensures
            r@ == client_url_or_invalid(*self, views::opt_view(specifier)),
    {
        let specifier = match specifier {
            Some(specifier) => specifier,
            None => ModuleSpecifier::invalid(),
        };
        match self.normalize_specifier(&specifier) {
            Ok(url) => url,
            Err(_) => LspClientUrl::new(ModuleSpecifier::invalid()),
        }
    }

    /// The URL by which the client knows the module of a file name, with the invalid specifier in
    /// the place of what is not there.
    pub fn uri_or_invalid(&self, file_name: &str) -> (r: LspClientUrl)
        ensures
            r@ == uri_or_invalid(*self, file_name@),
    {
        match ModuleSpecifier::parse(file_name) {
            Ok(specifier) => self.client_url_or_invalid(Some(specifier)),
            Err(_) => self.client_url_or_invalid(None),
        }
    }
}

/// A document of the workspace or one of its dependencies.
#[derive(Debug)]
pub struct Document {
    pub specifier: ModuleSpecifier,
    pub text: String,
    pub line_index: Arc<LineIndex>,
    pub media_type: MediaType,
    pub script_version: String,
    pub lsp_version: Option<i32>,
    pub is_open: bool,
}

impl Clone for Document {
    fn clone(&self) -> (r: Self)
        ensures
            r == *self,
    {
        Document {
            specifier: self.specifier.clone(),
            text: self.text.clone(),
            line_index: share(&self.line_index),
            media_type: self.media_type,
            script_version: self.script_version.clone(),
            lsp_version: self.lsp_version,
            is_open: self.is_open,
        }
    }
}

/// An asset or a document.
#[derive(Debug)]
pub enum AssetOrDocument {
    Asset(AssetDocument),
    Document(Document),
}

impl AssetOrDocument {
    /// The specifier of the asset or document.
    pub open spec fn href(self) -> Seq<char> {
        match self {
            AssetOrDocument::Asset(asset) => asset@.specifier,
            AssetOrDocument::Document(document) => document.specifier@,
        }
    }

    /// The lines of the asset or document.
    pub open spec fn lines(self) -> Seq<text::LineView> {
        match self {
            AssetOrDocument::Asset(asset) => asset@.lines,
            AssetOrDocument::Document(document) => document.line_index@,
        }
    }

    /// The version of a document that the client has open.
    pub open spec fn version(self) -> Option<i32> {
        match self {
            AssetOrDocument::Asset(_) => None,
            AssetOrDocument::Document(document) => document.lsp_version,
        }
    }

    /// The text of the asset or document.
    pub open spec fn content(self) -> Seq<char> {
        match self {
            AssetOrDocument::Asset(asset) => asset@.text,
            AssetOrDocument::Document(document) => document.text@,
        }
    }

    /// The media type of the asset or document.
    pub open spec fn source_type(self) -> MediaType {
        match self {
            AssetOrDocument::Asset(asset) => specifier::url_media_type(asset@.specifier),
            AssetOrDocument::Document(document) => document.media_type,
        }
    }

    /// The specifier of the asset or document.
    pub fn specifier(&self) -> (r: &ModuleSpecifier)
        ensures
            r@ == self.href(),
    {
        match self {
            AssetOrDocument::Asset(asset) => asset.specifier(),
            AssetOrDocument::Document(document) => &document.specifier,
        }
    }

    /// The line index of the asset or document.
    pub fn line_index(&self) -> (r: Arc<LineIndex>)
        ensures
            r@ == self.lines(),
    {
        match self {
            AssetOrDocument::Asset(asset) => asset.line_index(),
            AssetOrDocument::Document(document) => share(&document.line_index),
        }
    }

    /// The version of a document that the client has open.
    pub fn document_lsp_version(&self) -> (r: Option<i32>)
        ensures
            r == self.version(),
    {
        match self {
            AssetOrDocument::Asset(_) => None,
            AssetOrDocument::Document(document) => document.lsp_version,
        }
    }

    /// The text of the asset or document.
    pub fn text(&self) -> (r: &str)
        ensures
            r@ == self.content(),
    {
        match self {
            AssetOrDocument::Asset(asset) => asset.text(),
            AssetOrDocument::Document(document) => document.text.as_str(),
        }
    }

    /// The media type of the asset or document.
    pub fn media_type(&self) -> (r: MediaType)
        ensures
            r == self.source_type(),
    {
        match self {
            AssetOrDocument::Asset(asset) => MediaType::from_specifier(asset.specifier()),
            AssetOrDocument::Document(document) => document.media_type,
        }
    }
}

/// What is known of importing one module from another.
#[derive(Debug)]
pub struct ImportEntry {
    pub specifier: ModuleSpecifier,
    pub referrer: ModuleSpecifier,
    /// The specifier that the import map or the workspace gives it.
    pub mapped: Option<String>,
    /// The specifier relative to the referrer.
    pub relative: Option<String>,
}

/// The part of the language server that the bridge reads.
#[derive(Debug)]
pub struct Inner {
    pub documents: Vec<AssetOrDocument>,
    pub url_map: LspUrlMap,
    pub imports: Vec<ImportEntry>,
}

/// Whether an entry is on importing `specifier` from `referrer`.
pub open spec fn is_import(entry: ImportEntry, specifier: Seq<char>, referrer: Seq<char>) -> bool {
    entry.specifier@ == specifier && entry.referrer@ == referrer
}

/// The specifier under which a module is imported, by the first of the entries on it: the mapped
/// one where there is one, else the relative one.
pub open spec fn import_specifier(
    imports: Seq<ImportEntry>,
    specifier: Seq<char>,
    referrer: Seq<char>,
) -> Option<Seq<char>>
    decreases imports.len(),
{
    if imports.len() == 0 {
        None
    } else if is_import(imports[0], specifier, referrer) {
        if imports[0].mapped is Some {
            views::opt_view(imports[0].mapped)
        } else {
            views::opt_view(imports[0].relative)
        }
    } else {
        import_specifier(imports.skip(1), specifier, referrer)
    }
}

impl Inner {
    /// The asset or document for a specifier.
    pub open spec fn document(self, specifier: Seq<char>) -> Option<AssetOrDocument> {
        let keys = Seq::new(self.documents@.len(), |i: int| self.documents@[i].href());
        let n = first_of(keys, specifier);
        if n < keys.len() {
            Some(self.documents@[n])
        } else {
            None
        }
    }

    /// The asset or document for a specifier, where there is one.
    pub fn get_maybe_asset_or_document(&self, specifier: &ModuleSpecifier) -> (r: Option<
        &AssetOrDocument,
    >)
        ensures
            r is Some == self.document(specifier@) is Some,
            r matches Some(document) ==> self.document(specifier@) == Some(*document),
    {
        let ghost keys = Seq::new(self.documents@.len(), |i: int| self.documents@[i].href());
        let mut i: usize = 0;
        while i < self.documents.len()
            invariant
                i <= self.documents@.len(),
                keys == Seq::new(self.documents@.len(), |i: int| self.documents@[i].href()),
                forall|j: int| 0 <= j < i ==> keys[j] != specifier@,
            decreases self.documents.len() - i,
        {
            if self.documents[i].specifier().same(specifier) {
                proof {
                    lemma_first_of(keys, specifier@, i as int);
                }
                return Some(&self.documents[i]);
            }
            i = i + 1;
        }
        proof {
            lemma_first_of(keys, specifier@, keys.len() as int);
        }
        None
    }

    /// The asset or document for a specifier; an error where there is none.
    pub fn get_asset_or_document(&self, specifier: &ModuleSpecifier) -> (r: Result<
        &AssetOrDocument,
        TscError,
    >)
        ensures
            r is Ok == self.document(specifier@) is Some,
            r matches Ok(document) ==> self.document(specifier@) == Some(*document),
            r matches Err(err) ==> err == TscError::DocumentNotFound,
    {
        match self.get_maybe_asset_or_document(specifier) {
            Some(document) => Ok(document),
            None => Err(TscError::DocumentNotFound),
        }
    }

    /// The specifier under which a module is imported from another: the mapped one where there is
    /// one, else the relative one.
    pub fn import_specifier(
        &self,
        specifier: &ModuleSpecifier,
        referrer: &ModuleSpecifier,
    ) -> (r: Option<String>)
        ensures
            views::opt_view(r) == import_specifier(self.imports@, specifier@, referrer@),
    {
        let mut i: usize = 0;
        assert(self.imports@.skip(0) =~= self.imports@);
        while i < self.imports.len()
            invariant
                i <= self.imports@.len(),
                import_specifier(self.imports@, specifier@, referrer@) == import_specifier(
                    self.imports@.skip(i as int),
                    specifier@,
                    referrer@,
                ),
            decreases self.imports.len() - i,
        {
            let entry = &self.imports[i];
            if entry.specifier.same(specifier) && entry.referrer.same(referrer) {
                return match &entry.mapped {
                    Some(mapped) => Some(mapped.clone()),
                    None => entry.relative.clone(),
                };
            }
            assert(self.imports@.skip(i as int).skip(1) =~= self.imports@.skip(i + 1));
            i = i + 1;
        }
        None
    }
}

/// The asset or document for a specifier is the first that has it, and there is none where none has.
pub proof fn law_first_document_is_found(language_server: Inner, specifier: Seq<char>, n: int)
    requires
        0 <= n <= language_server.documents@.len(),
        forall|i: int|
            0 <= i < n ==> (#[trigger] language_server.documents@[i]).href() != specifier,
        n < language_server.documents@.len() ==> language_server.documents@[n].href() == specifier,
    ensures
        n < language_server.documents@.len() ==> language_server.document(specifier) == Some(
            language_server.documents@[n],
        ),
        n == language_server.documents@.len() ==> language_server.document(specifier) is None,
{
    let documents = language_server.documents@;
    let keys = Seq::new(documents.len(), |i: int| documents[i].href());
    assert forall|i: int| 0 <= i < n implies keys[i] != specifier by {
        assert(documents[i].href() != specifier);
    }
    lemma_first_of(keys, specifier, n);
}

/// The client knows a module by the URL of the first entry for it, and knows none where there is none.
pub proof fn law_first_url_is_found(url_map: LspUrlMap, specifier: Seq<char>, n: int)
    requires
        0 <= n <= url_map.entries@.len(),
        forall|i: int| 0 <= i < n ==> (#[trigger] url_map.entries@[i]).0@ != specifier,
        n < url_map.entries@.len() ==> url_map.entries@[n].0@ == specifier,
    ensures
        n < url_map.entries@.len() ==> url_map.client_url(specifier) == Some(
            url_map.entries@[n].1@,
        ),
        n == url_map.entries@.len() ==> url_map.client_url(specifier) is None,
{
    let entries = url_map.entries@;
    let keys = Seq::new(entries.len(), |i: int| entries[i].0@);
    assert forall|i: int| 0 <= i < n implies keys[i] != specifier by {
        assert(entries[i].0@ != specifier);
    }
    lemma_first_of(keys, specifier, n);
}

/// A file that the client knows is named by the URL by which it knows it; one that is no URL, or that
/// it does not know, is named by the invalid specifier unless the client knows that one.
pub proof fn law_unknown_files_are_invalid(url_map: LspUrlMap, file_name: Seq<char>)
    ensures
        specifier::parsed_url(file_name) matches Some(href) ==> {
            &&& url_map.client_url(href) matches Some(url) ==> uri_or_invalid(url_map, file_name)
                == url
            &&& url_map.client_url(href) is None ==> uri_or_invalid(url_map, file_name)
                == specifier::INVALID@
        },
        specifier::parsed_url(file_name) is None && url_map.client_url(specifier::INVALID@) is None
            ==> uri_or_invalid(url_map, file_name) == specifier::INVALID@,
{
}

/// A module is imported under the specifier of the first entry on importing it from the referrer: the
/// mapped one, or else the relative one. Where there is no such entry, none is known.
pub proof fn law_first_import_is_found(
    imports: Seq<ImportEntry>,
    specifier: Seq<char>,
    referrer: Seq<char>,
    n: int,
)
    requires
        0 <= n <= imports.len(),
        forall|i: int|
            0 <= i < n ==> (#[trigger] imports[i]).specifier@ != specifier || imports[i].referrer@
                != referrer,
        n < imports.len() ==> imports[n].specifier@ == specifier && imports[n].referrer@ == referrer,
    ensures
        n == imports.len() ==> import_specifier(imports, specifier, referrer) is None,
        n < imports.len() ==> {
            let found = import_specifier(imports, specifier, referrer);
            &&& imports[n].mapped matches Some(mapped) ==> found == Some(mapped@)
            &&& imports[n].mapped is None ==> (imports[n].relative matches Some(relative) ==> found
                == Some(relative@))
            &&& imports[n].mapped is None && imports[n].relative is None ==> found is None
        },
    decreases n,
{
    if n > 0 {
        assert forall|i: int| 0 <= i < n - 1 implies (#[trigger] imports.skip(1)[i]).specifier@
            != specifier || imports.skip(1)[i].referrer@ != referrer by {
            assert(imports.skip(1)[i] == imports[i + 1]);
        }
        law_first_import_is_found(imports.skip(1), specifier, referrer, n - 1);
    }
}

/// A document is known by its own specifier, text, lines, media type and version.
pub proof fn law_documents_give_what_they_hold(document: Document)
    ensures
        AssetOrDocument::Document(document).href() == document.specifier@,
        AssetOrDocument::Document(document).lines() == document.line_index@,
        AssetOrDocument::Document(document).content() == document.text@,
        AssetOrDocument::Document(document).source_type() == document.media_type,
        AssetOrDocument::Document(document).version() == document.lsp_version,
{
}

/// An asset is known by its own specifier, text and lines, has the media type of its specifier, and is
/// never open in the client.
pub proof fn law_assets_give_what_they_hold(asset: AssetDocument)
    ensures
        AssetOrDocument::Asset(asset).href() == asset@.specifier,
        AssetOrDocument::Asset(asset).lines() == asset@.lines,
        AssetOrDocument::Asset(asset).content() == asset@.text,
        AssetOrDocument::Asset(asset).source_type() == specifier::url_media_type(asset@.specifier),
        AssetOrDocument::Asset(asset).version() is None,
{
}

} // verus!
