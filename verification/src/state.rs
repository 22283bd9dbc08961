//! What the compiler asks of its host while it runs a request.

use std::sync::Arc;
use vstd::prelude::*;
use vstd::string::*;
use crate::assets;
use crate::assets::{Assets, AssetsSnapshot};
use crate::error::TscError;
use crate::language_server;
use crate::language_server::{AssetOrDocument, Document};
use crate::specifier;
use crate::specifier::{MediaType, ModuleSpecifier};
use crate::specifier_map;
use crate::specifier_map::TscSpecifierMap;
use crate::strings;
use crate::strings::{same_text, to_decimal};
use crate::views;

verus! {

/// A dependency of a document.
#[derive(Debug)]
pub struct Dependency {
    pub type_specifier: Option<ModuleSpecifier>,
    pub code_specifier: Option<ModuleSpecifier>,
}

/// A document that is diagnosed, with its dependencies.
#[derive(Debug)]
pub struct DiagnosableDocument {
    pub specifier: ModuleSpecifier,
    pub dependencies: Vec<Dependency>,
}

/// What a specifier in a document resolves to, with the media type of the module.
#[derive(Debug)]
pub struct Resolution {
    pub referrer: ModuleSpecifier,
    pub text: String,
    pub resolved: Option<(ModuleSpecifier, MediaType)>,
}

/// The documents at one time.
#[derive(Debug)]
pub struct Documents {
    pub documents: Vec<Document>,
    pub diagnosable: Vec<DiagnosableDocument>,
    pub injected_types_node_package: bool,
    pub module_graph_imports: Vec<ModuleSpecifier>,
    /// The specifiers that others stand for, by those others.
    pub resolved_specifiers: Vec<(ModuleSpecifier, ModuleSpecifier)>,
    /// The modules that are known to exist.
    pub existing: Vec<ModuleSpecifier>,
    pub resolutions: Vec<Resolution>,
}

/// The specifiers of documents.
pub open spec fn document_keys(documents: Seq<Document>) -> Seq<Seq<char>> {
    Seq::new(documents.len(), |i: int| documents[i].specifier@)
}

/// The first keys of pairs.
pub open spec fn pair_keys(pairs: Seq<(ModuleSpecifier, ModuleSpecifier)>) -> Seq<Seq<char>> {
    Seq::new(pairs.len(), |i: int| pairs[i].0@)
}

/// What a specifier in a document resolves to, by the first entry on it.
pub open spec fn resolution_of(
    resolutions: Seq<Resolution>,
    referrer: Seq<char>,
    text: Seq<char>,
) -> Option<(Seq<char>, MediaType)>
    decreases resolutions.len(),
{
    if resolutions.len() == 0 {
        None
    } else if resolutions[0].referrer@ == referrer && resolutions[0].text@ == text {
        match resolutions[0].resolved {
            Some((specifier, media_type)) => Some((specifier@, media_type)),
            None => None,
        }
    } else {
        resolution_of(resolutions.skip(1), referrer, text)
    }
}

/// Whether a specifier is in a list.
fn find_specifier(list: &Vec<ModuleSpecifier>, specifier: &ModuleSpecifier) -> (r: bool)
    ensures
        r == views::seq_view(list@).contains(specifier@),
{
    let mut i: usize = 0;
    while i < list.len()
        invariant
            i <= list@.len(),
            forall|j: int| 0 <= j < i ==> (#[trigger] list@[j])@ != specifier@,
        decreases list.len() - i,
    {
        if list[i].same(specifier) {
            assert(views::seq_view(list@)[i as int] == specifier@);
            return true;
        }
        i = i + 1;
    }
    assert forall|j: int| 0 <= j < views::seq_view(list@).len() implies #[trigger] views::seq_view(
        list@,
    )[j] != specifier@ by {
        assert(list@[j]@ != specifier@);
    }
    false
}

impl Documents {
    /// The document for a specifier.
    pub open spec fn document(self, specifier: Seq<char>) -> Option<Document> {
        let n = language_server::first_of(document_keys(self.documents@), specifier);
        if n < self.documents@.len() {
            Some(self.documents@[n])
        } else {
            None
        }
    }

    /// The specifier that another stands for.
    pub open spec fn resolved_specifier(self, specifier: Seq<char>) -> Option<Seq<char>> {
        let n = language_server::first_of(pair_keys(self.resolved_specifiers@), specifier);
        if n < self.resolved_specifiers@.len() {
            Some(self.resolved_specifiers@[n].1@)
        } else {
            None
        }
    }

    /// A module is known to exist.
    pub open spec fn has(self, specifier: Seq<char>) -> bool {
        views::seq_view(self.existing@).contains(specifier)
    }

    /// The document for a specifier.
    pub fn get(&self, specifier: &ModuleSpecifier) -> (r: Option<&Document>)
        ensures
            r is Some == self.document(specifier@) is Some,
            r matches Some(document) ==> self.document(specifier@) == Some(*document),
    {
        let ghost keys = document_keys(self.documents@);
        let mut i: usize = 0;
        while i < self.documents.len()
            invariant
                i <= self.documents@.len(),
                keys == document_keys(self.documents@),
                forall|j: int| 0 <= j < i ==> keys[j] != specifier@,
            decreases self.documents.len() - i,
        {
            if self.documents[i].specifier.same(specifier) {
                proof {
                    language_server::lemma_first_of(keys, specifier@, i as int);
                }
                return Some(&self.documents[i]);
            }
            i = i + 1;
        }
        proof {
            language_server::lemma_first_of(keys, specifier@, i as int);
        }
        None
    }

    /// The specifier that another stands for.
    pub fn resolve_specifier(&self, specifier: &ModuleSpecifier) -> (r: Option<&ModuleSpecifier>)
        ensures
            r is Some == self.resolved_specifier(specifier@) is Some,
            r matches Some(resolved) ==> self.resolved_specifier(specifier@) == Some(resolved@),
    {
        let ghost keys = pair_keys(self.resolved_specifiers@);
        let mut i: usize = 0;
        while i < self.resolved_specifiers.len()
            invariant
                i <= self.resolved_specifiers@.len(),
                keys == pair_keys(self.resolved_specifiers@),
                forall|j: int| 0 <= j < i ==> keys[j] != specifier@,
            decreases self.resolved_specifiers.len() - i,
        {
            if self.resolved_specifiers[i].0.same(specifier) {
                proof {
                    language_server::lemma_first_of(keys, specifier@, i as int);
                }
                return Some(&self.resolved_specifiers[i].1);
            }
            i = i + 1;
        }
        proof {
            language_server::lemma_first_of(keys, specifier@, i as int);
        }
        None
    }

    /// Whether a module is known to exist.
    pub fn is_known(&self, specifier: &ModuleSpecifier) -> (r: bool)
        ensures
            r == self.has(specifier@),
    {
        find_specifier(&self.existing, specifier)
    }

    /// What a specifier in a document resolves to.
    pub fn resolve_one(&self, text: &str, referrer: &ModuleSpecifier) -> (r: Option<
        (&ModuleSpecifier, MediaType),
    >)
        ensures
            match resolution_of(self.resolutions@, referrer@, text@) {
                Some((href, media_type)) => r matches Some(resolved) && resolved.0@ == href
                    && resolved.1 == media_type,
                None => r is None,
            },
    {
        let mut i: usize = 0;
        assert(self.resolutions@.skip(0) =~= self.resolutions@);
        while i < self.resolutions.len()
            invariant
                i <= self.resolutions@.len(),
                resolution_of(self.resolutions@, referrer@, text@) == resolution_of(
                    self.resolutions@.skip(i as int),
                    referrer@,
                    text@,
                ),
            decreases self.resolutions.len() - i,
        {
            let entry = &self.resolutions[i];
            if entry.referrer.same(referrer) && same_text(entry.text.as_str(), text) {
                return match &entry.resolved {
                    Some((specifier, media_type)) => Some((specifier, *media_type)),
                    None => None,
                };
            }
            assert(self.resolutions@.skip(i as int).skip(1) =~= self.resolutions@.skip(i + 1));
            i = i + 1;
        }
        None
    }
}

/// What the compiler sees of the language server while it runs a request.
#[derive(Debug)]
pub struct StateSnapshot {
    pub documents: Documents,
    /// A share in the table of the assets, which is handed over where it is read.
    pub assets: AssetsSnapshot,
    /// The modules that are in npm packages, where there are such packages.
    pub npm: Option<Vec<ModuleSpecifier>>,
}

/// The state of the host of the compiler. The response is a JSON text.
#[derive(Debug)]
pub struct State {
    pub last_id: usize,
    pub response: Option<String>,
    pub state_snapshot: Arc<StateSnapshot>,
}

/// What the compiler loads of a module.
#[derive(Debug)]
pub struct LoadResponse {
    pub data: String,
    pub script_kind: i32,
    pub version: Option<String>,
}

/// What a [`LoadResponse`] holds.
pub struct LoadResponseView {
    pub data: Seq<char>,
    pub script_kind: i32,
    pub version: Option<Seq<char>>,
}

impl View for LoadResponse {
    type V = LoadResponseView;

    open spec fn view(&self) -> LoadResponseView {
        LoadResponseView {
            data: self.data@,
            script_kind: self.script_kind,
            version: views::opt_view(self.version),
        }
    }
}

/// The number by which the compiler knows the kind of a script.
pub open spec fn script_kind(media_type: MediaType) -> i32 {
    match media_type {
        MediaType::JavaScript | MediaType::Mjs | MediaType::Cjs => 1,
        MediaType::Jsx => 2,
        MediaType::TypeScript
        | MediaType::Mts
        | MediaType::Cts
        | MediaType::Dts
        | MediaType::Dmts
        | MediaType::Dcts => 3,
        MediaType::Tsx => 4,
        MediaType::Json => 6,
        MediaType::SourceMap
        | MediaType::TsBuildInfo
        | MediaType::Wasm
        | MediaType::Unknown => 0,
    }
}

/// The number by which the compiler knows the kind of a script.
pub fn as_ts_script_kind(media_type: MediaType) -> (r: i32)
    ensures
        r == script_kind(media_type),
{
    match media_type {
        MediaType::JavaScript | MediaType::Mjs | MediaType::Cjs => 1,
        MediaType::Jsx => 2,
        MediaType::TypeScript
        | MediaType::Mts
        | MediaType::Cts
        | MediaType::Dts
        | MediaType::Dmts
        | MediaType::Dcts => 3,
        MediaType::Tsx => 4,
        MediaType::Json => 6,
        MediaType::SourceMap
        | MediaType::TsBuildInfo
        | MediaType::Wasm
        | MediaType::Unknown => 0,
    }
}

/// The specifier of a dependency that was not found.
pub const MISSING_DEPENDENCY: &'static str = "internal:///missing_dependency.d.ts";

/// The specifier of the types of Node.
pub const NODE_TYPES: &'static str = "asset:///node_types.d.ts";

impl StateSnapshot {
    /// The text of the module at a URL, where there is one, with the assets as they are.
    pub open spec fn module_text(
        self,
        specifier: Seq<char>,
        assets: Map<Seq<char>, assets::AssetView>,
    ) -> Option<Seq<char>> {
        if specifier::scheme_of(specifier) == "asset"@ {
            if assets.contains_key(specifier) {
                Some(assets[specifier].text)
            } else {
                None
            }
        } else {
            match self.documents.document(specifier) {
                Some(document) => Some(document.text@),
                None => None,
            }
        }
    }

    /// The media type of the module at a URL.
    pub open spec fn module_type(self, specifier: Seq<char>) -> MediaType {
        if specifier::scheme_of(specifier) == "asset"@ {
            specifier::url_media_type(specifier)
        } else {
            self.documents.document(specifier)->0.media_type
        }
    }

    /// The version of the module at a URL: always the same for an asset.
    pub open spec fn module_version(
        self,
        specifier: Seq<char>,
        assets: Map<Seq<char>, assets::AssetView>,
    ) -> Option<Seq<char>> {
        if specifier::scheme_of(specifier) == "asset"@ {
            if assets.contains_key(specifier) {
                Some("1"@)
            } else {
                None
            }
        } else {
            match self.documents.document(specifier) {
                Some(document) => Some(document.script_version@),
                None => None,
            }
        }
    }

    /// What the compiler loads of the module at a URL.
    pub open spec fn loaded(
        self,
        specifier: Seq<char>,
        assets: Map<Seq<char>, assets::AssetView>,
    ) -> Option<LoadResponseView> {
        if specifier == MISSING_DEPENDENCY@ {
            None
        } else {
            match self.module_text(specifier, assets) {
                Some(data) => Some(
                    LoadResponseView {
                        data,
                        script_kind: script_kind(self.module_type(specifier)),
                        version: self.module_version(specifier, assets),
                    },
                ),
                None => None,
            }
        }
    }
}

/// What specifiers in a document resolve to, as far as they do.
pub open spec fn resolutions_of(
    resolutions: Seq<Resolution>,
    referrer: Seq<char>,
    texts: Seq<Seq<char>>,
) -> Seq<Option<(Seq<char>, MediaType)>> {
    Seq::new(texts.len(), |i: int| resolution_of(resolutions, referrer, texts[i]))
}

/// The map after the modules that specifiers resolve to were given names, one after the other.
pub open spec fn after_resolved(
    map: specifier_map::SpecifierMapView,
    resolved: Seq<Option<(Seq<char>, MediaType)>>,
    answers: Seq<Option<(Seq<char>, Seq<char>)>>,
) -> specifier_map::SpecifierMapView
    decreases resolved.len(),
{
    if resolved.len() == 0 {
        map
    } else {
        let before = after_resolved(map, resolved.drop_last(), answers.drop_last());
        match (resolved.last(), answers.last()) {
            (Some((href, _)), Some((name, _))) => before.after_name(href, name),
            _ => before,
        }
    }
}

/// An answer may be given for what a specifier resolves to: the name of the module, and the extension
/// of its media type.
pub open spec fn may_answer(
    map: specifier_map::SpecifierMapView,
    resolved: Option<(Seq<char>, MediaType)>,
    answer: Option<(Seq<char>, Seq<char>)>,
) -> bool {
    match resolved {
        Some((href, media_type)) => answer matches Some((name, extension)) && map.may_name(
            href,
            name,
        ) && extension == specifier::ts_extension(media_type),
        None => answer is None,
    }
}

/// Answers may be given for what specifiers resolve to, one after the other.
pub open spec fn may_answer_all(
    map: specifier_map::SpecifierMapView,
    resolved: Seq<Option<(Seq<char>, MediaType)>>,
    answers: Seq<Option<(Seq<char>, Seq<char>)>>,
) -> bool {
    &&& answers.len() == resolved.len()
    &&& forall|i: int|
        0 <= i < resolved.len() ==> may_answer(
            after_resolved(map, resolved.take(i), answers.take(i)),
            resolved[i],
            #[trigger] answers[i],
        )
}

impl StateSnapshot {
    /// Answers may be given for specifiers in a module, with the map as it is after them; where there
    /// is no such module, nothing is resolved.
    pub open spec fn may_resolve(
        self,
        map: specifier_map::SpecifierMapView,
        referrer: Seq<char>,
        texts: Seq<Seq<char>>,
        answers: Seq<Option<(Seq<char>, Seq<char>)>>,
        after: specifier_map::SpecifierMapView,
        assets: Map<Seq<char>, assets::AssetView>,
    ) -> bool {
        if self.module_text(referrer, assets) is Some {
            let resolved = resolutions_of(self.documents.resolutions@, referrer, texts);
            &&& may_answer_all(map, resolved, answers)
            &&& after == after_resolved(map, resolved, answers)
        } else {
            &&& answers == Seq::new(texts.len(), |i: int| None::<(Seq<char>, Seq<char>)>)
            &&& after == map
        }
    }
}

/// The texts of an answer.
pub open spec fn answer_view(answer: Option<(String, String)>) -> Option<(Seq<char>, Seq<char>)> {
    match answer {
        Some((name, extension)) => Some((name@, extension@)),
        None => None,
    }
}

/// The texts of answers.
pub open spec fn answers_view(answers: Seq<Option<(String, String)>>) -> Seq<
    Option<(Seq<char>, Seq<char>)>,
> {
    Seq::new(answers.len(), |i: int| answer_view(answers[i]))
}

impl State {
    /// The state of a host before the first request.
    pub fn new(state_snapshot: Arc<StateSnapshot>) -> (r: State)
        ensures
            r.last_id == 1,
            r.response is None,
            r.state_snapshot == state_snapshot,
    {
        State { last_id: 1, response: None, state_snapshot }
    }

    /// The asset or document for a specifier.
    pub fn get_asset_or_document(&self, specifier: &ModuleSpecifier, assets: &Assets) -> (r: Option<
        AssetOrDocument,
    >)
        ensures
            r is Some == self.state_snapshot.module_text(specifier@, assets@) is Some,
            r matches Some(module) ==> {
                &&& Some(module.content()) == self.state_snapshot.module_text(
                    specifier@,
                    assets@,
                )
                &&& module.source_type() == self.state_snapshot.module_type(specifier@)
                &&& module.href() == specifier@
                &&& module is Asset == (specifier::scheme_of(specifier@) == "asset"@)
                &&& module matches AssetOrDocument::Document(document) ==> Some(document)
                    == self.state_snapshot.documents.document(specifier@)
                &&& module matches AssetOrDocument::Asset(asset) ==> asset@ == assets@[specifier@]
            },
    {
        if specifier.has_scheme("asset") {
            match self.state_snapshot.assets.get(specifier, assets) {
                Some(asset) => Some(AssetOrDocument::Asset(asset)),
                None => None,
            }
        } else {
            match self.state_snapshot.documents.get(specifier) {
                Some(document) => {
                    proof {
                        lemma_document_specifier(&self.state_snapshot.documents, specifier@);
                    }
                    Some(AssetOrDocument::Document(document.clone()))
                },
                None => None,
            }
        }
    }

    /// The version of the module for a specifier.
    pub fn script_version(&self, specifier: &ModuleSpecifier, assets: &Assets) -> (r: Option<
        String,
    >)
        ensures
            views::opt_view(r) == self.state_snapshot.module_version(specifier@, assets@),
    {
        if specifier.has_scheme("asset") {
            if self.state_snapshot.assets.contains_key(specifier, assets) {
                Some("1".to_owned())
            } else {
                None
            }
        } else {
            match self.state_snapshot.documents.get(specifier) {
                Some(document) => Some(document.script_version.clone()),
                None => None,
            }
        }
    }

    /// Whether a path is that of a module in an npm package.
    pub fn op_is_node_file(&self, path: &str) -> (r: bool)
        ensures
            r == (specifier::parsed_url(path@) matches Some(href)
                && self.state_snapshot.npm matches Some(modules) && views::seq_view(
                modules@,
            ).contains(href)),
    {
        match ModuleSpecifier::parse(path) {
            Ok(specifier) => match &self.state_snapshot.npm {
                Some(modules) => find_specifier(modules, &specifier),
                None => false,
            },
            Err(_) => false,
        }
    }

    /// What the compiler loads under a name; an error where the name is no URL.
    pub fn op_load(
        &self,
        specifier_map: &mut TscSpecifierMap,
        specifier: &str,
        assets: &Assets,
    ) -> (r: Result<Option<LoadResponse>, TscError>)
        ensures
            final(specifier_map)@ == old(specifier_map)@.after_specifier(specifier@),
            match old(specifier_map)@.specifier_of(specifier@) {
                Some(href) => r matches Ok(response) && views::opt_view(response)
                    == self.state_snapshot.loaded(href, assets@),
                None => r matches Err(err) && err == TscError::InvalidUrl,
            },
    {
        match specifier_map.normalize(specifier) {
            Ok(specifier) => Ok(self.load(&specifier, assets)),
            Err(err) => Err(err),
        }
    }

    /// What the compiler loads of a module.
    pub fn load(&self, specifier: &ModuleSpecifier, assets: &Assets) -> (r: Option<LoadResponse>)
        ensures
            views::opt_view(r) == self.state_snapshot.loaded(specifier@, assets@),
    {
        if same_text(specifier.as_str(), MISSING_DEPENDENCY) {
            return None;
        }
        match self.get_asset_or_document(specifier, assets) {
            Some(module) => {
                let script_kind: i32 = as_ts_script_kind(module.media_type());
                Some(
                    LoadResponse {
                        data: module.text().to_owned(),
                        script_kind,
                        version: self.script_version(specifier, assets),
                    },
                )
            },
            None => None,
        }
    }

    /// What specifiers in the module under a name resolve to, each with its name and the extension of
    /// its media type; nothing where there is no such module. An error where the name is no URL.
    pub fn op_resolve(
        &self,
        specifier_map: &mut TscSpecifierMap,
        base: &str,
        specifiers: &Vec<String>,
        assets: &Assets,
    ) -> (r: Result<Vec<Option<(String, String)>>, TscError>)
        ensures
            ({
                let map = old(specifier_map)@.after_specifier(base@);
                match old(specifier_map)@.specifier_of(base@) {
                    Some(referrer) => r matches Ok(answers) && self.state_snapshot.may_resolve(
                        map,
                        referrer,
                        views::seq_view(specifiers@),
                        answers_view(answers@),
                        final(specifier_map)@,
                        assets@,
                    ),
                    None => {
                        &&& r matches Err(err) && err == TscError::InvalidUrl
                        &&& final(specifier_map)@ == map
                    },
                }
            }),
    {
        match specifier_map.normalize(base) {
            Ok(referrer) => Ok(self.resolve(specifier_map, &referrer, specifiers, assets)),
            Err(err) => Err(err),
        }
    }

    /// What specifiers in a module resolve to, each with its name and the extension of its media type;
    /// nothing where there is no such module.
    pub fn resolve(
        &self,
        specifier_map: &mut TscSpecifierMap,
        referrer: &ModuleSpecifier,
        specifiers: &Vec<String>,
        assets: &Assets,
    ) -> (r: Vec<Option<(String, String)>>)
        ensures
            self.state_snapshot.may_resolve(
                old(specifier_map)@,
                referrer@,
                views::seq_view(specifiers@),
                answers_view(r@),
                final(specifier_map)@,
                assets@,
            ),
    {
        let ghost map = specifier_map@;
        let ghost texts = views::seq_view(specifiers@);
        let ghost resolved = resolutions_of(
            self.state_snapshot.documents.resolutions@,
            referrer@,
            texts,
        );
        let found = self.get_asset_or_document(referrer, assets).is_some();
        let mut answers: Vec<Option<(String, String)>> = Vec::new();
        let mut i: usize = 0;
        proof {
            assert(resolved.take(0) =~= Seq::empty());
        }
        while i < specifiers.len()
            invariant
                i <= specifiers@.len(),
                texts == views::seq_view(specifiers@),
                resolved == resolutions_of(
                    self.state_snapshot.documents.resolutions@,
                    referrer@,
                    texts,
                ),
                answers@.len() == i,
                !found ==> specifier_map@ == map && forall|j: int|
                    0 <= j < i ==> #[trigger] answers@[j] is None,
                found ==> specifier_map@ == after_resolved(
                    map,
                    resolved.take(i as int),
                    answers_view(answers@),
                ),
                found ==> forall|j: int|
                    0 <= j < i ==> may_answer(
                        after_resolved(map, resolved.take(j), answers_view(answers@).take(j)),
                        resolved[j],
                        #[trigger] answers_view(answers@)[j],
                    ),
            decreases specifiers.len() - i,
        {
            let ghost before = answers@;
            let ghost seen = answers_view(before);
            let answer = if found {
                match self.state_snapshot.documents.resolve_one(
                    specifiers[i].as_str(),
                    referrer,
                ) {
                    Some((specifier, media_type)) => Some(
                        (
                            specifier_map.denormalize(specifier),
                            media_type.as_ts_extension().to_owned(),
                        ),
                    ),
                    None => None,
                }
            } else {
                None
            };
            answers.push(answer);
            proof {
                let now = answers_view(answers@);
                assert(now =~= seen.push(answer_view(answer)));
                assert(now.drop_last() =~= seen);
                assert(resolved.take(i + 1).drop_last() =~= resolved.take(i as int));
                if found {
                    assert forall|j: int| 0 <= j < i + 1 implies may_answer(
                        after_resolved(map, resolved.take(j), now.take(j)),
                        resolved[j],
                        #[trigger] now[j],
                    ) by {
                        assert(now.take(j) =~= seen.take(j));
                        if j < i {
                            assert(now[j] == seen[j]);
                        } else {
                            assert(seen.take(j) =~= seen);
                        }
                    }
                }
            }
            i = i + 1;
        }
        proof {
            assert(resolved.take(i as int) =~= resolved);
            if !found {
                assert(answers_view(answers@) =~= Seq::new(
                    specifiers@.len(),
                    |i: int| None::<(Seq<char>, Seq<char>)>,
                ));
            }
        }
        answers
    }

    /// Keeps the response that the compiler gives.
    pub fn op_respond(&mut self, data: String)
        ensures
            *final(self) == (State { response: Some(data), ..*old(self) }),
    {
        self.response = Some(data);
    }

    /// The version of the module under a name; an error where the name is no URL.
    pub fn op_script_version(
        &self,
        specifier_map: &mut TscSpecifierMap,
        specifier: &str,
        assets: &Assets,
    ) -> (r: Result<Option<String>, TscError>)
        ensures
            final(specifier_map)@ == old(specifier_map)@.after_specifier(specifier@),
            match old(specifier_map)@.specifier_of(specifier@) {
                Some(href) => r matches Ok(version) && views::opt_view(version)
                    == self.state_snapshot.module_version(href, assets@),
                None => r matches Err(err) && err == TscError::InvalidUrl,
            },
    {
        match specifier_map.normalize(specifier) {
            Ok(specifier) => Ok(self.script_version(&specifier, assets)),
            Err(err) => Err(err),
        }
    }
}

/// A document that is found for a specifier has it.
proof fn lemma_document_specifier(documents: &Documents, specifier: Seq<char>)
    requires
        documents.document(specifier) is Some,
    ensures
        documents.document(specifier)->0.specifier@ == specifier,
{
    lemma_first_of_holds(document_keys(documents.documents@), specifier);
}

proof fn lemma_first_of_holds(list: Seq<Seq<char>>, text: Seq<char>)
    ensures
        0 <= language_server::first_of(list, text) <= list.len(),
        language_server::first_of(list, text) < list.len()
            ==> list[language_server::first_of(list, text)] == text,
    decreases list.len(),
{
    if list.len() > 0 && list[0] != text {
        lemma_first_of_holds(list.skip(1), text);
    }
}

/// The version of the project as the compiler is told it.
pub fn op_project_version(project_version: usize) -> (r: String)
    ensures
        r@ == strings::decimal(project_version as nat),
{
    to_decimal(project_version as u64)
}

/// Two versions of the project that differ are told the compiler in texts that differ.
pub proof fn law_versions_are_told_apart(a: usize, b: usize)
    ensures
        strings::decimal(a as nat) == strings::decimal(b as nat) ==> a == b,
{
    if strings::decimal(a as nat) == strings::decimal(b as nat) {
        strings::lemma_decimal_is_injective(a as nat, b as nat);
    }
}

/// An asset that is taken in is seen through every snapshot, also one that was taken before: it has a
/// version, and its text where it is the first of its specifier.
pub proof fn law_earlier_snapshots_see_new_assets(
    snapshot: StateSnapshot,
    map: Map<Seq<char>, assets::AssetView>,
    list: Seq<assets::AssetView>,
    i: int,
)
    requires
        0 <= i < list.len(),
        specifier::scheme_of(list[i].specifier) == "asset"@,
    ensures
        ({
            let href = list[i].specifier;
            let after = assets::with_missing(map, list);
            &&& snapshot.module_version(href, after) == Some("1"@)
            &&& snapshot.module_text(href, after) is Some
            &&& !map.contains_key(href) && (forall|j: int|
                0 <= j < i ==> (#[trigger] list[j]).specifier != href) ==> snapshot.module_text(
                href,
                after,
            ) == Some(list[i].text)
        }),
{
    assets::law_missing_assets_are_taken_in(map, list, i);
}

/// What is known of a specifier is what the first entry on it says: the first document with it, and the
/// first pair that it opens.
pub proof fn law_first_entries_are_found(
    documents: Documents,
    specifier: Seq<char>,
    n: int,
)
    requires
        0 <= n,
    ensures
        n < documents.documents@.len() && documents.documents@[n].specifier@ == specifier && (
        forall|i: int|
            0 <= i < n ==> (#[trigger] documents.documents@[i]).specifier@ != specifier)
            ==> documents.document(specifier) == Some(documents.documents@[n]),
        (forall|i: int|
            0 <= i < documents.documents@.len() ==> (
            #[trigger] documents.documents@[i]).specifier@ != specifier) ==> documents.document(
            specifier,
        ) is None,
        n < documents.resolved_specifiers@.len() && documents.resolved_specifiers@[n].0@
            == specifier && (forall|i: int|
            0 <= i < n ==> (#[trigger] documents.resolved_specifiers@[i]).0@ != specifier)
            ==> documents.resolved_specifier(specifier) == Some(
            documents.resolved_specifiers@[n].1@,
        ),
        (forall|i: int|
            0 <= i < documents.resolved_specifiers@.len() ==> (
            #[trigger] documents.resolved_specifiers@[i]).0@ != specifier)
            ==> documents.resolved_specifier(specifier) is None,
{
    let keys = document_keys(documents.documents@);
    let pairs = pair_keys(documents.resolved_specifiers@);
    if n < keys.len() && keys[n] == specifier && forall|i: int|
        0 <= i < n ==> (#[trigger] documents.documents@[i]).specifier@ != specifier {
        assert forall|i: int| 0 <= i < n implies keys[i] != specifier by {
            assert(documents.documents@[i].specifier@ != specifier);
        }
        language_server::lemma_first_of(keys, specifier, n);
    }
    if forall|i: int|
        0 <= i < keys.len() ==> (#[trigger] documents.documents@[i]).specifier@ != specifier {
        assert forall|i: int| 0 <= i < keys.len() implies keys[i] != specifier by {
            assert(documents.documents@[i].specifier@ != specifier);
        }
        language_server::lemma_first_of(keys, specifier, keys.len() as int);
    }
    if n < pairs.len() && pairs[n] == specifier && forall|i: int|
        0 <= i < n ==> (#[trigger] documents.resolved_specifiers@[i]).0@ != specifier {
        assert forall|i: int| 0 <= i < n implies pairs[i] != specifier by {
            assert(documents.resolved_specifiers@[i].0@ != specifier);
        }
        language_server::lemma_first_of(pairs, specifier, n);
    }
    if forall|i: int|
        0 <= i < pairs.len() ==> (#[trigger] documents.resolved_specifiers@[i]).0@ != specifier {
        assert forall|i: int| 0 <= i < pairs.len() implies pairs[i] != specifier by {
            assert(documents.resolved_specifiers@[i].0@ != specifier);
        }
        language_server::lemma_first_of(pairs, specifier, pairs.len() as int);
    }
}

/// What a specifier in a document resolves to is what the first entry on it from that document says,
/// and nothing where there is no such entry.
pub proof fn law_first_resolution_is_found(
    resolutions: Seq<Resolution>,
    referrer: Seq<char>,
    text: Seq<char>,
    n: int,
)
    requires
        0 <= n <= resolutions.len(),
        forall|i: int|
            0 <= i < n ==> (#[trigger] resolutions[i]).referrer@ != referrer || resolutions[i].text@
                != text,
        n < resolutions.len() ==> resolutions[n].referrer@ == referrer && resolutions[n].text@
            == text,
    ensures
        n == resolutions.len() ==> resolution_of(resolutions, referrer, text) is None,
        n < resolutions.len() ==> {
            let found = resolution_of(resolutions, referrer, text);
            &&& found is Some <==> resolutions[n].resolved is Some
            &&& resolutions[n].resolved matches Some(resolved) ==> found == Some(
                (resolved.0@, resolved.1),
            )
        },
    decreases n,
{
    if n > 0 {
        assert forall|i: int| 0 <= i < n - 1 implies (#[trigger] resolutions.skip(1)[i]).referrer@
            != referrer || resolutions.skip(1)[i].text@ != text by {
            assert(resolutions.skip(1)[i] == resolutions[i + 1]);
        }
        law_first_resolution_is_found(resolutions.skip(1), referrer, text, n - 1);
    }
}

/// The compiler is told the number of the kind of each script, and zero for what is no script.
pub proof fn law_script_kinds(media_type: MediaType)
    ensures
        script_kind(media_type) == 1 <==> media_type == MediaType::JavaScript || media_type
            == MediaType::Mjs || media_type == MediaType::Cjs,
        script_kind(media_type) == 2 <==> media_type == MediaType::Jsx,
        script_kind(media_type) == 3 <==> media_type == MediaType::TypeScript || media_type
            == MediaType::Mts || media_type == MediaType::Cts || media_type == MediaType::Dts
            || media_type == MediaType::Dmts || media_type == MediaType::Dcts,
        script_kind(media_type) == 4 <==> media_type == MediaType::Tsx,
        script_kind(media_type) == 6 <==> media_type == MediaType::Json,
        script_kind(media_type) == 0 <==> media_type == MediaType::SourceMap || media_type
            == MediaType::TsBuildInfo || media_type == MediaType::Wasm || media_type
            == MediaType::Unknown,
{
}

/// The compiler loads the text of a document as it is, in the version it is in and as a script of its
/// media type. It loads an asset from the table of the assets, where every asset is in its first
/// version and of the type its specifier tells. It loads nothing else, and never the module that
/// stands for a dependency that was not found.
pub proof fn law_modules_are_loaded_as_they_are(
    snapshot: StateSnapshot,
    specifier: Seq<char>,
    assets: Map<Seq<char>, assets::AssetView>,
)
    ensures
        specifier == "internal:///missing_dependency.d.ts"@ ==> snapshot.loaded(
            specifier,
            assets,
        ) is None,
        specifier != "internal:///missing_dependency.d.ts"@ && specifier::scheme_of(specifier)
            != "asset"@ ==> {
            &&& snapshot.loaded(specifier, assets) is Some <==> snapshot.documents.document(
                specifier,
            ) is Some
            &&& snapshot.documents.document(specifier) matches Some(document) ==> {
                let response = snapshot.loaded(specifier, assets)->0;
                &&& response.data == document.text@
                &&& response.version == Some(document.script_version@)
                &&& response.script_kind == script_kind(document.media_type)
            }
        },
        specifier != "internal:///missing_dependency.d.ts"@ && specifier::scheme_of(specifier)
            == "asset"@ ==> {
            &&& snapshot.loaded(specifier, assets) is Some <==> assets.contains_key(specifier)
            &&& snapshot.loaded(specifier, assets) matches Some(response) ==> {
                &&& response.data == assets[specifier].text
                &&& response.version == Some(seq!['1'])
                &&& response.script_kind == script_kind(specifier::url_media_type(specifier))
            }
        },
{
    reveal_strlit("1");
    assert("1"@ =~= seq!['1']);
}

/// There is one answer for each specifier that is asked about. It is there where the specifier resolves
/// to a module, and tells a name of that module and the extension for its media type. From a module
/// that is not there, nothing resolves.
pub proof fn law_resolutions_are_answered(
    snapshot: StateSnapshot,
    map: specifier_map::SpecifierMapView,
    referrer: Seq<char>,
    texts: Seq<Seq<char>>,
    answers: Seq<Option<(Seq<char>, Seq<char>)>>,
    after: specifier_map::SpecifierMapView,
    assets: Map<Seq<char>, assets::AssetView>,
    i: int,
)
    requires
        snapshot.may_resolve(map, referrer, texts, answers, after, assets),
        0 <= i < texts.len(),
    ensures
        answers.len() == texts.len(),
        snapshot.module_text(referrer, assets) is None ==> answers[i] is None && after == map,
        snapshot.module_text(referrer, assets) is Some ==> {
            let resolved = resolution_of(snapshot.documents.resolutions@, referrer, texts[i]);
            &&& answers[i] is Some <==> resolved is Some
            &&& resolved matches Some((href, media_type)) ==> (answers[i] matches Some(
                (name, extension),
            ) && {
                &&& extension == specifier::ts_extension(media_type)
                &&& !map.denormalized.contains_key(href) && specifier::is_portable_path(href)
                    && specifier::path_media_type(href) == specifier::url_media_type(href) ==> name
                    == href
                &&& map.denormalized.contains_key(href) ==> name == map.denormalized[href]
            })
        },
{
    if snapshot.module_text(referrer, assets) is Some {
        let resolved = resolutions_of(snapshot.documents.resolutions@, referrer, texts);
        let before = after_resolved(map, resolved.take(i), answers.take(i));
        assert(may_answer(before, resolved[i], answers[i]));
        lemma_naming_keeps_read_names(map, resolved.take(i), answers.take(i));
        match (resolved[i], answers[i]) {
            (Some((href, _)), Some((name, _))) => {
                let path_type = choose|path_type: MediaType|
                    before.may_see(href, path_type) && name == #[trigger] before.name_of(
                        href,
                        path_type,
                    );
                assert(name == before.name_of(href, path_type));
            },
            _ => {},
        }
    }
}

proof fn lemma_naming_keeps_read_names(
    map: specifier_map::SpecifierMapView,
    resolved: Seq<Option<(Seq<char>, MediaType)>>,
    answers: Seq<Option<(Seq<char>, Seq<char>)>>,
)
    ensures
        after_resolved(map, resolved, answers).denormalized == map.denormalized,
    decreases resolved.len(),
{
    if resolved.len() > 0 {
        lemma_naming_keeps_read_names(map, resolved.drop_last(), answers.drop_last());
    }
}

/// What is said of a [`LoadResponse`] is said of each of its fields.
pub proof fn law_load_response_is_seen_whole(value: LoadResponse)
    ensures
        value@.data == value.data@,
        value@.script_kind == value.script_kind,
        value.version is None <==> value@.version is None,
        value.version matches Some(held) ==> value@.version == Some(held@),
{
}

/// The version of a document is its own, that of an asset is always the first, and a module that is not
/// there has none.
pub proof fn law_versions_of_modules(
    snapshot: StateSnapshot,
    specifier: Seq<char>,
    assets: Map<Seq<char>, assets::AssetView>,
)
    ensures
        specifier::scheme_of(specifier) == "asset"@ ==> {
            &&& assets.contains_key(specifier) ==> snapshot.module_version(specifier, assets)
                == Some(seq!['1'])
            &&& !assets.contains_key(specifier) ==> snapshot.module_version(
                specifier,
                assets,
            ) is None
        },
        specifier::scheme_of(specifier) != "asset"@ ==> {
            &&& snapshot.documents.document(specifier) matches Some(document)
                ==> snapshot.module_version(specifier, assets) == Some(document.script_version@)
            &&& snapshot.documents.document(specifier) is None ==> snapshot.module_version(
                specifier,
                assets,
            ) is None
        },
{
    reveal_strlit("1");
    assert("1"@ =~= seq!['1']);
}

} // verus!
