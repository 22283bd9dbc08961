//! The assets that are built into the compiler.

use std::sync::Arc;
use vstd::prelude::*;
use vstd::string::*;
use crate::error::TscError;
use crate::navigation::NavigationTree;
use crate::specifier;
use crate::specifier::ModuleSpecifier;
use crate::sync::share;
use crate::text;
use crate::text::LineIndex;
use crate::views;

verus! {

#[derive(Debug)]
struct AssetDocumentInner {
    specifier: ModuleSpecifier,
    text: String,
    line_index: Arc<LineIndex>,
    maybe_navigation_tree: Option<Arc<NavigationTree>>,
}

/// An asset in memory.
#[derive(Debug)]
pub struct AssetDocument(Arc<AssetDocumentInner>);

/// What an [`AssetDocument`] holds.
pub struct AssetView {
    pub specifier: Seq<char>,
    pub text: Seq<char>,
    pub lines: Seq<text::LineView>,
    pub maybe_navigation_tree: Option<Arc<NavigationTree>>,
}

impl View for AssetDocument {
    type V = AssetView;

    closed spec fn view(&self) -> AssetView {
        AssetView {
            specifier: self.0.specifier@,
            text: self.0.text@,
            lines: self.0.line_index@,
            maybe_navigation_tree: self.0.maybe_navigation_tree,
        }
    }
}

/// The asset at a URL with a text.
pub open spec fn asset_of(specifier: Seq<char>, text: Seq<char>) -> AssetView {
    AssetView { specifier, text, lines: text::lines(text), maybe_navigation_tree: None }
}

impl Clone for AssetDocument {
    fn clone(&self) -> (r: Self)
        ensures
            r == *self,
    {
        AssetDocument(share(&self.0))
    }
}

impl AssetDocument {
    /// An asset without a navigation tree.
    pub fn new(specifier: ModuleSpecifier, text: &str) -> (r: AssetDocument)
        requires
            text::utf8_size(text@) <= u32::MAX,
        ensures
            r@ == asset_of(specifier@, text@),
            r@.specifier == specifier@,
            r@.text == text@,
            r@.lines == text::lines(text@),
            r@.maybe_navigation_tree is None,
    {
        AssetDocument(
            Arc::new(
                AssetDocumentInner {
                    specifier,
                    text: text.to_owned(),
                    line_index: Arc::new(LineIndex::new(text)),
                    maybe_navigation_tree: None,
                },
            ),
        )
    }

    /// The specifier of the asset.
    pub fn specifier(&self) -> (r: &ModuleSpecifier)
        ensures
            r@ == self@.specifier,
    {
        &self.0.specifier
    }

    /// The asset with a navigation tree.
    pub fn with_navigation_tree(&self, tree: Arc<NavigationTree>) -> (r: AssetDocument)
        ensures
            r@ == (AssetView { maybe_navigation_tree: Some(tree), ..self@ }),
    {
        AssetDocument(
            Arc::new(
                AssetDocumentInner {
                    specifier: self.0.specifier.clone(),
                    text: self.0.text.clone(),
                    line_index: share(&self.0.line_index),
                    maybe_navigation_tree: Some(tree),
                },
            ),
        )
    }

    /// The text of the asset.
    pub fn text(&self) -> (r: &str)
        ensures
            r@ == self@.text,
    {
        self.0.text.as_str()
    }

    /// The line index of the asset.
    pub fn line_index(&self) -> (r: Arc<LineIndex>)
        ensures
            r@ == self@.lines,
    {
        share(&self.0.line_index)
    }

    /// The navigation tree of the asset, where it was set.
    pub fn maybe_navigation_tree(&self) -> (r: Option<Arc<NavigationTree>>)
        ensures
            r == self@.maybe_navigation_tree,
    {
        match &self.0.maybe_navigation_tree {
            Some(tree) => Some(share(tree)),
            None => None,
        }
    }
}

/// The assets of a list by their specifiers; of two with the same one, the later.
pub open spec fn by_specifier(list: Seq<AssetDocument>) -> Map<Seq<char>, AssetView>
    decreases list.len(),
{
    if list.len() == 0 {
        Map::empty()
    } else {
        by_specifier(list.drop_last()).insert(list.last()@.specifier, list.last()@)
    }
}

/// No two assets of a list have the same specifier.
pub open spec fn distinct(list: Seq<AssetDocument>) -> bool {
    forall|i: int, j: int|
        0 <= i < j < list.len() ==> (#[trigger] list[i])@.specifier != (
        #[trigger] list[j])@.specifier
}

/// An asset of a list of distinct ones is found under its specifier, and nothing else is.
proof fn lemma_by_specifier(list: Seq<AssetDocument>)
    requires
        distinct(list),
    ensures
        forall|i: int|
            0 <= i < list.len() ==> by_specifier(list).contains_key(
                (#[trigger] list[i])@.specifier,
            ) && by_specifier(list)[list[i]@.specifier] == list[i]@,
        forall|key: Seq<char>| #[trigger]
            by_specifier(list).contains_key(key) ==> exists|i: int|
                0 <= i < list.len() && (#[trigger] list[i])@.specifier == key,
    decreases list.len(),
{
    if list.len() > 0 {
        let before = list.drop_last();
        lemma_by_specifier(before);
        assert forall|i: int| 0 <= i < list.len() implies by_specifier(list).contains_key(
            (#[trigger] list[i])@.specifier,
        ) && by_specifier(list)[list[i]@.specifier] == list[i]@ by {
            if i < before.len() {
                assert(before[i] == list[i]);
            }
        }
        assert forall|key: Seq<char>| #[trigger]
            by_specifier(list).contains_key(key) implies exists|i: int|
            0 <= i < list.len() && (#[trigger] list[i])@.specifier == key by {
            if key == list.last()@.specifier {
                assert(list[list.len() - 1]@.specifier == key);
            } else {
                assert(by_specifier(before).contains_key(key));
                let i = choose|i: int|
                    0 <= i < before.len() && (#[trigger] before[i])@.specifier == key;
                assert(list[i]@.specifier == key);
            }
        }
    }
}

/// Putting another asset with the same specifier in the place of one.
proof fn lemma_update(list: Seq<AssetDocument>, n: int, item: AssetDocument)
    requires
        distinct(list),
        0 <= n < list.len(),
        item@.specifier == list[n]@.specifier,
    ensures
        distinct(list.update(n, item)),
        by_specifier(list.update(n, item)) == by_specifier(list).insert(
            item@.specifier,
            item@,
        ),
    decreases list.len(),
{
    let after = list.update(n, item);
    let before = list.drop_last();
    if n == list.len() - 1 {
        assert(after.drop_last() =~= before);
        assert(by_specifier(after) =~= by_specifier(list).insert(item@.specifier, item@));
    } else {
        lemma_update(before, n, item);
        assert(after.drop_last() =~= before.update(n, item));
        assert(by_specifier(after) =~= by_specifier(list).insert(item@.specifier, item@));
    }
}

/// Assets by their specifiers.
#[derive(Debug)]
pub struct AssetsMap {
    entries: Vec<AssetDocument>,
}

impl View for AssetsMap {
    type V = Map<Seq<char>, AssetView>;

    closed spec fn view(&self) -> Map<Seq<char>, AssetView> {
        by_specifier(self.entries@)
    }
}

impl AssetsMap {
    #[verifier::type_invariant]
    spec fn inv(self) -> bool {
        distinct(self.entries@)
    }

    /// No assets.
    pub fn new() -> (r: AssetsMap)
        ensures
            r@ == Map::<Seq<char>, AssetView>::empty(),
    {
        AssetsMap { entries: Vec::new() }
    }

    /// Where an asset stands.
    fn position(&self, specifier: &ModuleSpecifier) -> (r: Option<usize>)
        ensures
            r is Some == self@.contains_key(specifier@),
            r matches Some(i) ==> i < self.entries@.len() && self.entries@[i as int]@.specifier
                == specifier@ && self@[specifier@] == self.entries@[i as int]@,
    {
        proof {
            use_type_invariant(self);
            lemma_by_specifier(self.entries@);
        }
        let mut i: usize = 0;
        while i < self.entries.len()
            invariant
                i <= self.entries@.len(),
                forall|j: int| 0 <= j < i ==> (#[trigger] self.entries@[j])@.specifier
                    != specifier@,
            decreases self.entries.len() - i,
        {
            if self.entries[i].specifier().same(specifier) {
                proof {
                    use_type_invariant(self);
                    lemma_by_specifier(self.entries@);
                }
                return Some(i);
            }
            i = i + 1;
        }
        None
    }

    /// Whether there is an asset for a specifier.
    pub fn contains_key(&self, specifier: &ModuleSpecifier) -> (r: bool)
        ensures
            r == self@.contains_key(specifier@),
    {
        self.position(specifier).is_some()
    }

    /// The asset for a specifier.
    pub fn get(&self, specifier: &ModuleSpecifier) -> (r: Option<AssetDocument>)
        ensures
            r is Some == self@.contains_key(specifier@),
            r matches Some(asset) ==> asset@ == self@[specifier@] && asset@.specifier == specifier@,
    {
        match self.position(specifier) {
            Some(i) => Some(self.entries[i].clone()),
            None => None,
        }
    }

    /// Holds an asset, in the place of the one with the same specifier.
    pub fn insert(&mut self, asset: AssetDocument)
        ensures
            final(self)@ == old(self)@.insert(asset@.specifier, asset@),
    {
        proof {
            use_type_invariant(&*self);
            lemma_by_specifier(self.entries@);
        }
        let found = self.position(asset.specifier());
        let mut entries: Vec<AssetDocument> = Vec::new();
        std::mem::swap(&mut entries, &mut self.entries);
        match found {
            Some(i) => {
                proof {
                    lemma_update(entries@, i as int, asset);
                }
                entries.set(i, asset);
            },
            None => {
                let ghost before = entries@;
                entries.push(asset);
                assert(entries@.drop_last() =~= before);
                assert forall|i: int, j: int| 0 <= i < j < entries@.len() implies (
                #[trigger] entries@[i])@.specifier != (#[trigger] entries@[j])@.specifier by {
                    assert(entries@[i] == before[i]);
                    if j < before.len() {
                        assert(entries@[j] == before[j]);
                    } else {
                        assert(by_specifier(before).contains_key(before[i]@.specifier));
                    }
                }
            },
        }
        self.entries = entries;
    }
}

/// The assets that are built in, by the names and texts given: each is at its name under `asset:`.
/// An error where one of the names makes no URL.
pub fn new_assets_map(built_in: &Vec<(String, String)>) -> (r: Result<AssetsMap, TscError>)
    requires
        forall|i: int|
            0 <= i < built_in@.len() ==> text::utf8_size((#[trigger] built_in@[i]).1@) <= u32::MAX,
    ensures
        r is Ok == (forall|i: int|
            0 <= i < built_in@.len() ==> asset_url((#[trigger] built_in@[i]).0@) is Some),
        r matches Err(err) ==> err == TscError::InvalidUrl,
        r matches Ok(map) ==> map@ == built_in_assets(built_in@),
{
    let mut map = AssetsMap::new();
    let mut i: usize = 0;
    while i < built_in.len()
        invariant
            i <= built_in@.len(),
            forall|j: int|
                0 <= j < built_in@.len() ==> text::utf8_size((#[trigger] built_in@[j]).1@)
                    <= u32::MAX,
            forall|j: int| 0 <= j < i ==> asset_url((#[trigger] built_in@[j]).0@) is Some,
            map@ == built_in_assets(built_in@.take(i as int)),
        decreases built_in.len() - i,
    {
        let mut url = "asset:///".to_owned();
        url.append(built_in[i].0.as_str());
        let specifier = match ModuleSpecifier::parse(url.as_str()) {
            Ok(specifier) => specifier,
            Err(err) => {
                assert(asset_url(built_in@[i as int].0@) is None);
                return Err(err);
            },
        };
        map.insert(AssetDocument::new(specifier, built_in[i].1.as_str()));
        assert(built_in@.take(i + 1).drop_last() =~= built_in@.take(i as int));
        i = i + 1;
    }
    assert(built_in@.take(i as int) =~= built_in@);
    Ok(map)
}

/// The URL of a built-in asset.
pub open spec fn asset_url(name: Seq<char>) -> Option<Seq<char>> {
    specifier::parsed_url("asset:///"@ + name)
}

/// The built-in assets of a list; of two with the same URL, the later.
pub open spec fn built_in_assets(built_in: Seq<(String, String)>) -> Map<Seq<char>, AssetView>
    decreases built_in.len(),
{
    if built_in.len() == 0 {
        Map::empty()
    } else {
        let (name, text) = built_in.last();
        let url = asset_url(name@)->0;
        built_in_assets(built_in.drop_last()).insert(url, asset_of(url, text@))
    }
}

/// A share in a table of assets. It holds none of them: the table is handed over with each question,
/// and the answer is what the table holds then, whatever it held when the share was taken.
#[derive(Debug, Clone, Copy, PartialEq, Eq, Structural)]
pub struct AssetsSnapshot {}

impl AssetsSnapshot {
    /// A share in a table of its own, which holds the built-in assets alone, and that table; an
    /// error where one of their names makes no URL.
    pub fn new(built_in: &Vec<(String, String)>) -> (r: Result<(AssetsSnapshot, Assets), TscError>)
        requires
            forall|i: int|
                0 <= i < built_in@.len() ==> text::utf8_size((#[trigger] built_in@[i]).1@)
                    <= u32::MAX,
        ensures
            r is Ok == (forall|i: int|
                0 <= i < built_in@.len() ==> asset_url((#[trigger] built_in@[i]).0@) is Some),
            r matches Err(err) ==> err == TscError::InvalidUrl,
            r matches Ok((_, assets)) ==> assets@ == built_in_assets(built_in@),
    {
        match Assets::new(built_in) {
            Ok(assets) => Ok((assets.snapshot(), assets)),
            Err(err) => Err(err),
        }
    }

    /// Whether there is an asset for a specifier in the table.
    pub fn contains_key(&self, k: &ModuleSpecifier, assets: &Assets) -> (r: bool)
        ensures
            r == assets@.contains_key(k@),
    {
        assets.assets.contains_key(k)
    }

    /// The asset for a specifier in the table.
    pub fn get(&self, k: &ModuleSpecifier, assets: &Assets) -> (r: Option<AssetDocument>)
        ensures
            r is Some == assets@.contains_key(k@),
            r matches Some(asset) ==> asset@ == assets@[k@] && asset@.specifier == k@,
    {
        assets.get(k)
    }
}

/// The table of the assets: the built-in ones, and those that the compiler holds. There is one of it,
/// and those who share in it see each of its changes.
#[derive(Debug)]
pub struct Assets {
    assets: AssetsMap,
}

impl View for Assets {
    type V = Map<Seq<char>, AssetView>;

    closed spec fn view(&self) -> Map<Seq<char>, AssetView> {
        self.assets@
    }
}

/// A map with the assets of a list that were missing from it; of two with the same specifier, the
/// first.
pub open spec fn with_missing(
    map: Map<Seq<char>, AssetView>,
    list: Seq<AssetView>,
) -> Map<Seq<char>, AssetView>
    decreases list.len(),
{
    if list.len() == 0 {
        map
    } else {
        let before = with_missing(map, list.drop_last());
        if before.contains_key(list.last().specifier) {
            before
        } else {
            before.insert(list.last().specifier, list.last())
        }
    }
}

impl Assets {
    /// The built-in assets; an error where one of their names makes no URL.
    pub fn new(built_in: &Vec<(String, String)>) -> (r: Result<Assets, TscError>)
        requires
            forall|i: int|
                0 <= i < built_in@.len() ==> text::utf8_size((#[trigger] built_in@[i]).1@)
                    <= u32::MAX,
        ensures
            r is Ok == (forall|i: int|
                0 <= i < built_in@.len() ==> asset_url((#[trigger] built_in@[i]).0@) is Some),
            r matches Err(err) ==> err == TscError::InvalidUrl,
            r matches Ok(assets) ==> assets@ == built_in_assets(built_in@),
    {
        match new_assets_map(built_in) {
            Ok(assets) => Ok(Assets { assets }),
            Err(err) => Err(err),
        }
    }

    /// Takes in the assets that the compiler holds, where there is none for their specifier yet.
    pub fn initialize(&mut self, isolate_assets: &Vec<AssetDocument>)
        ensures
            final(self)@ == with_missing(old(self)@, views::seq_view(isolate_assets@)),
    {
        let ghost list = views::seq_view(isolate_assets@);
        let mut i: usize = 0;
        assert(list.take(0) =~= Seq::empty());
        while i < isolate_assets.len()
            invariant
                i <= isolate_assets@.len(),
                list == views::seq_view(isolate_assets@),
                self@ == with_missing(old(self)@, list.take(i as int)),
            decreases isolate_assets.len() - i,
        {
            let asset = &isolate_assets[i];
            if !self.assets.contains_key(asset.specifier()) {
                self.assets.insert(asset.clone());
            }
            assert(list.take(i + 1).drop_last() =~= list.take(i as int));
            i = i + 1;
        }
        assert(list.take(i as int) =~= list);
    }

    /// A share in the table.
    pub fn snapshot(&self) -> (r: AssetsSnapshot)
        ensures
            r == (AssetsSnapshot {}),
    {
        AssetsSnapshot {}
    }

    /// The asset for a specifier.
    pub fn get(&self, specifier: &ModuleSpecifier) -> (r: Option<AssetDocument>)
        ensures
            r is Some == self@.contains_key(specifier@),
            r matches Some(asset) ==> asset@ == self@[specifier@] && asset@.specifier == specifier@,
    {
        self.assets.get(specifier)
    }

    /// Keeps the navigation tree of an asset; an error where there is no asset for the specifier.
    pub fn cache_navigation_tree(
        &mut self,
        specifier: &ModuleSpecifier,
        navigation_tree: Arc<NavigationTree>,
    ) -> (r: Result<(), TscError>)
        ensures
            r is Ok == old(self)@.contains_key(specifier@),
            r matches Err(err) ==> err == TscError::MissingAsset && final(self)@ == old(self)@,
            r is Ok ==> final(self)@ == old(self)@.insert(
                specifier@,
                (AssetView {
                    maybe_navigation_tree: Some(navigation_tree),
                    ..old(self)@[specifier@]
                }),
            ),
    {
        match self.assets.get(specifier) {
            Some(doc) => {
                self.assets.insert(doc.with_navigation_tree(navigation_tree));
                Ok(())
            },
            None => Err(TscError::MissingAsset),
        }
    }
}

/// The assets that the compiler answered with, as pairs of a specifier and a text; an error where
/// one of the specifiers is no URL.
pub fn get_isolate_assets_reply(reply: &Vec<(String, String)>) -> (r: Result<Vec<AssetDocument>, TscError>)
    requires
        forall|i: int|
            0 <= i < reply@.len() ==> text::utf8_size((#[trigger] reply@[i]).1@) <= u32::MAX,
    ensures
        r is Ok == (forall|i: int|
            0 <= i < reply@.len() ==> specifier::parsed_url((#[trigger] reply@[i]).0@) is Some),
        r matches Err(err) ==> err == TscError::InvalidUrl,
        r matches Ok(assets) ==> views::seq_view(assets@) == Seq::new(
            reply@.len(),
            |i: int| asset_of(specifier::parsed_url(reply@[i].0@)->0, reply@[i].1@),
        ),
{
    let mut assets: Vec<AssetDocument> = Vec::new();
    let mut i: usize = 0;
    while i < reply.len()
        invariant
            i <= reply@.len(),
            assets@.len() == i,
            forall|j: int|
                0 <= j < reply@.len() ==> text::utf8_size((#[trigger] reply@[j]).1@) <= u32::MAX,
            forall|j: int|
                0 <= j < i ==> specifier::parsed_url((#[trigger] reply@[j]).0@) is Some,
            forall|j: int|
                0 <= j < i ==> (#[trigger] assets@[j])@ == asset_of(
                    specifier::parsed_url(reply@[j].0@)->0,
                    reply@[j].1@,
                ),
        decreases reply.len() - i,
    {
        match ModuleSpecifier::parse(reply[i].0.as_str()) {
            Ok(specifier) => {
                assets.push(AssetDocument::new(specifier, reply[i].1.as_str()));
            },
            Err(err) => {
                assert(specifier::parsed_url(reply@[i as int].0@) is None);
                return Err(err);
            },
        }
        i = i + 1;
    }
    Ok(assets)
}

/// Keeping the navigation tree of an asset changes nothing else of the assets: the same specifiers
/// are there, with the same texts and lines.
pub proof fn law_navigation_trees_leave_assets(
    map: Map<Seq<char>, AssetView>,
    specifier: Seq<char>,
    tree: Arc<NavigationTree>,
    other: Seq<char>,
)
    requires
        map.contains_key(specifier),
        map[specifier].specifier == specifier,
    ensures
        ({
            let after = map.insert(
                specifier,
                AssetView { maybe_navigation_tree: Some(tree), ..map[specifier] },
            );
            &&& after.contains_key(other) == map.contains_key(other)
            &&& map.contains_key(other) ==> after[other].text == map[other].text
                && after[other].lines == map[other].lines && after[other].specifier
                == map[other].specifier
            &&& other != specifier ==> after[other] == map[other]
            &&& after[specifier].maybe_navigation_tree == Some(tree)
        }),
{
}

/// Assets that were there stay as they are when those of the compiler are taken in.
pub proof fn law_assets_are_never_replaced(
    map: Map<Seq<char>, AssetView>,
    list: Seq<AssetView>,
    specifier: Seq<char>,
)
    requires
        map.contains_key(specifier),
    ensures
        with_missing(map, list).contains_key(specifier),
        with_missing(map, list)[specifier] == map[specifier],
    decreases list.len(),
{
    if list.len() > 0 {
        law_assets_are_never_replaced(map, list.drop_last(), specifier);
    }
}

/// Every asset of the compiler is there after those are taken in: the one that was there before, or
/// else the first of them with its specifier.
pub proof fn law_missing_assets_are_taken_in(
    map: Map<Seq<char>, AssetView>,
    list: Seq<AssetView>,
    i: int,
)
    requires
        0 <= i < list.len(),
    ensures
        with_missing(map, list).contains_key(list[i].specifier),
        !map.contains_key(list[i].specifier) && (forall|j: int|
            0 <= j < i ==> (#[trigger] list[j]).specifier != list[i].specifier) ==> with_missing(
            map,
            list,
        )[list[i].specifier] == list[i],
    decreases list.len(),
{
    let before = list.drop_last();
    if i < before.len() {
        law_missing_assets_are_taken_in(map, before, i);
        if !map.contains_key(list[i].specifier) && (forall|j: int|
            0 <= j < i ==> (#[trigger] list[j]).specifier != list[i].specifier) {
            assert forall|j: int| 0 <= j < i implies (#[trigger] before[j]).specifier
                != before[i].specifier by {
                assert(before[j] == list[j]);
            }
        }
    } else if !map.contains_key(list[i].specifier) && (forall|j: int|
        0 <= j < i ==> (#[trigger] list[j]).specifier != list[i].specifier) {
        assert forall|j: int| 0 <= j < before.len() implies (#[trigger] before[j]).specifier
            != list[i].specifier by {
            assert(before[j] == list[j]);
        }
        lemma_nothing_else_is_taken_in(map, before, list[i].specifier);
    }
}

/// A specifier that is neither there nor among the assets of the compiler is not there after those
/// are taken in.
proof fn lemma_nothing_else_is_taken_in(
    map: Map<Seq<char>, AssetView>,
    list: Seq<AssetView>,
    specifier: Seq<char>,
)
    requires
        !map.contains_key(specifier),
        forall|j: int| 0 <= j < list.len() ==> (#[trigger] list[j]).specifier != specifier,
    ensures
        !with_missing(map, list).contains_key(specifier),
    decreases list.len(),
{
    if list.len() > 0 {
        let before = list.drop_last();
        assert forall|j: int| 0 <= j < before.len() implies (#[trigger] before[j]).specifier
            != specifier by {
            assert(before[j] == list[j]);
        }
        lemma_nothing_else_is_taken_in(map, before, specifier);
        assert(list[list.len() - 1].specifier != specifier);
    }
}

/// A built-in asset is at its name under `asset:`, with the text given, the lines of that text and no
/// navigation tree; of two at the same URL, the later is there.
pub proof fn law_built_in_assets_are_at_their_names(
    built_in: Seq<(String, String)>,
    i: int,
    url: Seq<char>,
)
    requires
        0 <= i < built_in.len(),
        specifier::parsed_url("asset:///"@ + built_in[i].0@) == Some(url),
        forall|j: int|
            i < j < built_in.len() ==> specifier::parsed_url(
                "asset:///"@ + (#[trigger] built_in[j]).0@,
            ) is Some && specifier::parsed_url("asset:///"@ + built_in[j].0@) != Some(url),
    ensures
        built_in_assets(built_in).contains_key(url),
        built_in_assets(built_in)[url].specifier == url,
        built_in_assets(built_in)[url].text == built_in[i].1@,
        built_in_assets(built_in)[url].lines == text::lines(built_in[i].1@),
        built_in_assets(built_in)[url].maybe_navigation_tree is None,
    decreases built_in.len(),
{
    let before = built_in.drop_last();
    if i < before.len() {
        assert forall|j: int| i < j < before.len() implies specifier::parsed_url(
            "asset:///"@ + (#[trigger] before[j]).0@,
        ) is Some && specifier::parsed_url("asset:///"@ + before[j].0@) != Some(url) by {
            assert(before[j] == built_in[j]);
        }
        law_built_in_assets_are_at_their_names(before, i, url);
        assert(specifier::parsed_url("asset:///"@ + built_in[built_in.len() - 1].0@) != Some(url));
    }
}

/// Nothing but the built-in assets is built in.
pub proof fn law_nothing_else_is_built_in(built_in: Seq<(String, String)>, url: Seq<char>)
    requires
        forall|i: int|
            0 <= i < built_in.len() ==> specifier::parsed_url(
                "asset:///"@ + (#[trigger] built_in[i]).0@,
            ) is Some && specifier::parsed_url("asset:///"@ + built_in[i].0@) != Some(url),
    ensures
        !built_in_assets(built_in).contains_key(url),
    decreases built_in.len(),
{
    if built_in.len() > 0 {
        let before = built_in.drop_last();
        assert forall|j: int| 0 <= j < before.len() implies specifier::parsed_url(
            "asset:///"@ + (#[trigger] before[j]).0@,
        ) is Some && specifier::parsed_url("asset:///"@ + before[j].0@) != Some(url) by {
            assert(before[j] == built_in[j]);
        }
        law_nothing_else_is_built_in(before, url);
        assert(specifier::parsed_url("asset:///"@ + built_in[built_in.len() - 1].0@) != Some(url));
    }
}

/// Only assets that the compiler holds are taken in.
pub proof fn law_only_assets_of_the_compiler_are_taken_in(
    map: Map<Seq<char>, AssetView>,
    list: Seq<AssetView>,
    specifier: Seq<char>,
)
    requires
        !map.contains_key(specifier),
        forall|j: int| 0 <= j < list.len() ==> (#[trigger] list[j]).specifier != specifier,
    ensures
        !with_missing(map, list).contains_key(specifier),
{
    lemma_nothing_else_is_taken_in(map, list, specifier);
}

} // verus!
