//! The names under which the compiler knows modules, and the way back.

use vstd::prelude::*;
use vstd::string::*;
use dashmap::DashMap;
use crate::error::TscError;
use crate::specifier;
use crate::specifier::{MediaType, ModuleSpecifier};
use crate::strings;
use crate::strings::{replace, same_text};
use crate::views;

verus! {

/// A concurrent map.
#[verifier::external_type_specification]
#[verifier::external_body]
#[verifier::reject_recursive_types(K)]
#[verifier::reject_recursive_types(V)]
#[verifier::reject_recursive_types(S)]
pub struct ExDashMap<K, V, S>(DashMap<K, V, S>);

/// The texts that a concurrent map holds, by their keys.
pub uninterp spec fn contents(map: DashMap<String, String>) -> Map<Seq<char>, Seq<char>>;

/// No text under any key.
pub open spec fn no_texts() -> Map<Seq<char>, Seq<char>> {
    Map::empty()
}

/// `dashmap::DashMap::new`: a map that holds nothing.
#[verifier::external_body]
fn new_map() -> (r: DashMap<String, String>)
    ensures
        contents(r) == no_texts(),
{
    DashMap::new()
}

/// `dashmap::DashMap::get`, with the value copied out: what the map holds under the key.
#[verifier::external_body]
fn get(map: &DashMap<String, String>, key: &str) -> (r: Option<String>)
    ensures
        r is Some == contents(*map).contains_key(key@),
        r matches Some(value) ==> value@ == contents(*map)[key@],
{
    map.get(key).map(|entry| entry.value().clone())
}

/// `dashmap::DashMap::insert`: the map then holds the value under the key, in the place of what it
/// held there before.
#[verifier::external_body]
fn insert(map: &mut DashMap<String, String>, key: String, value: String)
    ensures
        contents(*final(map)) == contents(*old(map)).insert(key@, value@),
    no_unwind
{
    map.insert(key, value);
}

/// What a [`TscSpecifierMap`] holds.
pub struct SpecifierMapView {
    /// Specifiers, by the name that was made for them.
    pub normalized: Map<Seq<char>, Seq<char>>,
    /// Names, by the specifier that was read from them.
    pub denormalized: Map<Seq<char>, Seq<char>>,
}

/// The names made for specifiers and the specifiers read from names, where the two differ.
#[derive(Debug)]
pub struct TscSpecifierMap {
    normalized_specifiers: DashMap<String, String>,
    denormalized_specifiers: DashMap<String, String>,
}

impl View for TscSpecifierMap {
    type V = SpecifierMapView;

    closed spec fn view(&self) -> SpecifierMapView {
        SpecifierMapView {
            normalized: contents(self.normalized_specifiers),
            denormalized: contents(self.denormalized_specifiers),
        }
    }
}

/// The name made for a specifier that has one media type as a URL and another as a path: where they
/// differ, the extension of the first is put at its end.
pub open spec fn tsc_name(href: Seq<char>, url_type: MediaType, path_type: MediaType) -> Seq<char> {
    if path_type != url_type {
        href + specifier::ts_extension(url_type)
    } else {
        href
    }
}

/// The specifier that a name stands for by itself.
pub open spec fn plain_specifier(name: Seq<char>) -> Option<Seq<char>> {
    specifier::parsed_url(strings::replaced(name, ".d.ts.d.ts"@, ".d.ts"@))
}

impl SpecifierMapView {
    /// The name of a specifier, when its media type as a path is the one given.
    pub open spec fn name_of(self, href: Seq<char>, path_type: MediaType) -> Seq<char> {
        if self.denormalized.contains_key(href) {
            self.denormalized[href]
        } else {
            tsc_name(href, specifier::url_media_type(href), path_type)
        }
    }

    /// The compiler may see a media type in a specifier as a path: the one its path names, where
    /// every system splits it alike.
    pub open spec fn may_see(self, href: Seq<char>, path_type: MediaType) -> bool {
        specifier::is_portable_path(href) ==> path_type == specifier::path_media_type(href)
    }

    /// A text may be the name of a specifier: where every system splits paths like it alike, only
    /// one text may.
    pub open spec fn may_name(self, href: Seq<char>, name: Seq<char>) -> bool {
        exists|path_type: MediaType|
            self.may_see(href, path_type) && name == #[trigger] self.name_of(href, path_type)
    }

    /// The map after a specifier was given a name.
    pub open spec fn after_name(self, href: Seq<char>, name: Seq<char>) -> SpecifierMapView {
        if self.denormalized.contains_key(href) || name == href {
            self
        } else {
            SpecifierMapView { normalized: self.normalized.insert(name, href), ..self }
        }
    }

    /// The specifier of a name, or nothing where it is no URL.
    pub open spec fn specifier_of(self, name: Seq<char>) -> Option<Seq<char>> {
        if self.normalized.contains_key(name) {
            Some(self.normalized[name])
        } else {
            plain_specifier(name)
        }
    }

    /// The map after a specifier was read from a name.
    pub open spec fn after_specifier(self, name: Seq<char>) -> SpecifierMapView {
        match plain_specifier(name) {
            Some(href) if !self.normalized.contains_key(name) && href != name => SpecifierMapView {
                denormalized: self.denormalized.insert(href, name),
                ..self
            },
            _ => self,
        }
    }

    /// Every name the map holds leads to the specifier it is held for, and differs from it.
    pub open spec fn wf(self) -> bool {
        &&& forall|name: Seq<char>| #[trigger]
            self.normalized.contains_key(name) ==> specifier::is_url(self.normalized[name])
                && self.normalized[name] != name && name == self.normalized[name]
                + specifier::ts_extension(specifier::url_media_type(self.normalized[name])) && (
            specifier::is_portable_path(self.normalized[name]) ==> specifier::path_media_type(
                self.normalized[name],
            ) != specifier::url_media_type(self.normalized[name]))
        &&& forall|href: Seq<char>| #[trigger]
            self.denormalized.contains_key(href) ==> plain_specifier(self.denormalized[href])
                == Some(href) && self.denormalized[href] != href
    }
}

impl TscSpecifierMap {
    #[verifier::type_invariant]
    spec fn inv(self) -> bool {
        self@.wf()
    }

    /// A map that holds no name.
    pub fn new() -> (r: TscSpecifierMap)
        ensures
            r@.normalized == no_texts(),
            r@.denormalized == no_texts(),
    {
        TscSpecifierMap { normalized_specifiers: new_map(), denormalized_specifiers: new_map() }
    }

    /// The name under which the compiler knows a specifier. Where the media type of the specifier as
    /// a URL is not the one that the compiler sees in it as a path, the name has the extension of
    /// the first, and leads back to the specifier from then on.
    pub fn denormalize(&mut self, specifier: &ModuleSpecifier) -> (r: String)
        ensures
            old(self)@.may_name(specifier@, r@),
            final(self)@ == old(self)@.after_name(specifier@, r@),
    {
        let path_type = MediaType::from_path(specifier.as_str());
        self.denormalize_as(specifier, path_type)
    }

    /// The name under which the compiler knows a specifier, when it sees the given media type in it
    /// as a path.
    pub fn denormalize_as(&mut self, specifier: &ModuleSpecifier, path_type: MediaType) -> (r:
        String)
        requires
            old(self)@.may_see(specifier@, path_type),
        ensures
            r@ == old(self)@.name_of(specifier@, path_type),
            final(self)@ == old(self)@.after_name(specifier@, r@),
    {
        proof {
            use_type_invariant(&*self);
        }
        if let Some(name) = get(&self.denormalized_specifiers, specifier.as_str()) {
            return name;
        }
        let mut name = specifier.as_str().to_owned();
        let media_type = MediaType::from_specifier(specifier);
        if path_type != media_type {
            name.append(media_type.as_ts_extension());
        }
        if !same_text(name.as_str(), specifier.as_str()) {
            let key = name.clone();
            let value = specifier.as_str().to_owned();
            insert(&mut self.normalized_specifiers, key, value);
        }
        name
    }

    /// The specifier of a name under which the compiler knows it; an error where it is no URL. What
    /// is read from a name that is not its own specifier has that name from then on.
    pub fn normalize(&mut self, name: &str) -> (r: Result<ModuleSpecifier, TscError>)
        ensures
            r is Ok == old(self)@.specifier_of(name@) is Some,
            r matches Ok(specifier) ==> old(self)@.specifier_of(name@) == Some(specifier@),
            r matches Err(err) ==> err == TscError::InvalidUrl,
            final(self)@ == old(self)@.after_specifier(name@),
    {
        proof {
            use_type_invariant(&*self);
        }
        if let Some(href) = get(&self.normalized_specifiers, name) {
            return ModuleSpecifier::parse(href.as_str());
        }
        let text = replace(name, ".d.ts.d.ts", ".d.ts");
        match ModuleSpecifier::parse(text.as_str()) {
            Ok(specifier) => {
                self.keep_specifier(name, &specifier);
                Ok(specifier)
            },
            Err(err) => Err(err),
        }
    }

    /// Keeps that a specifier was read from a name that no specifier was given: where they differ, it
    /// has that name from then on.
    pub fn keep_specifier(&mut self, name: &str, specifier: &ModuleSpecifier)
        requires
            !old(self)@.normalized.contains_key(name@),
            plain_specifier(name@) == Some(specifier@),
        ensures
            final(self)@ == (if specifier@ != name@ {
                SpecifierMapView {
                    denormalized: old(self)@.denormalized.insert(specifier@, name@),
                    ..old(self)@
                }
            } else {
                old(self)@
            }),
    {
        proof {
            use_type_invariant(&*self);
        }
        if !same_text(specifier.as_str(), name) {
            let key = specifier.as_str().to_owned();
            let value = name.to_owned();
            insert(&mut self.denormalized_specifiers, key, value);
        }
    }
}

/// The map after some specifiers were given names, one after the other.
pub open spec fn after_names(
    map: SpecifierMapView,
    hrefs: Seq<Seq<char>>,
    names: Seq<Seq<char>>,
) -> SpecifierMapView
    decreases hrefs.len(),
{
    if hrefs.len() == 0 {
        map
    } else {
        after_names(map, hrefs.drop_last(), names.drop_last()).after_name(
            hrefs.last(),
            names.last(),
        )
    }
}

/// Texts may be the names of specifiers that are given names one after the other.
pub open spec fn may_name_all(
    map: SpecifierMapView,
    hrefs: Seq<Seq<char>>,
    names: Seq<Seq<char>>,
) -> bool {
    &&& names.len() == hrefs.len()
    &&& forall|i: int|
        0 <= i < hrefs.len() ==> after_names(map, hrefs.take(i), names.take(i)).may_name(
            hrefs[i],
            #[trigger] names[i],
        )
}

impl TscSpecifierMap {
    /// The names under which the compiler knows some specifiers.
    pub fn denormalize_all(&mut self, specifiers: &Vec<ModuleSpecifier>) -> (r: Vec<String>)
        ensures
            may_name_all(
                old(self)@,
                views::seq_view(specifiers@),
                views::seq_view(r@),
            ),
            final(self)@ == after_names(
                old(self)@,
                views::seq_view(specifiers@),
                views::seq_view(r@),
            ),
    {
        let ghost map = self@;
        let ghost hrefs = views::seq_view(specifiers@);
        let mut names: Vec<String> = Vec::new();
        let mut i: usize = 0;
        proof {
            assert(hrefs.take(0) =~= Seq::empty());
        }
        while i < specifiers.len()
            invariant
                i <= specifiers@.len(),
                map == old(self)@,
                hrefs == views::seq_view(specifiers@),
                names@.len() == i,
                self@ == after_names(
                    map,
                    hrefs.take(i as int),
                    views::seq_view(names@),
                ),
                forall|j: int|
                    0 <= j < i ==> after_names(
                        map,
                        hrefs.take(j),
                        views::seq_view(names@).take(j),
                    ).may_name(hrefs[j], #[trigger] views::seq_view(names@)[j]),
            decreases specifiers.len() - i,
        {
            let ghost before = names@;
            let ghost seen = views::seq_view(before);
            let name = self.denormalize(&specifiers[i]);
            names.push(name);
            proof {
                views::lemma_push(before, name);
                let now = views::seq_view(names@);
                assert(now.drop_last() =~= seen);
                assert(hrefs.take(i + 1).drop_last() =~= hrefs.take(i as int));
                assert forall|j: int| 0 <= j < i + 1 implies after_names(
                    map,
                    hrefs.take(j),
                    now.take(j),
                ).may_name(hrefs[j], #[trigger] now[j]) by {
                    assert(now.take(j) =~= seen.take(j));
                    if j < i {
                        assert(now[j] == seen[j]);
                    } else {
                        assert(seen.take(j) =~= seen);
                    }
                }
            }
            i = i + 1;
        }
        assert(hrefs.take(i as int) =~= hrefs);
        names
    }
}

/// Giving names and reading specifiers keeps every name that the map holds leading back.
pub proof fn law_names_stay_sound(
    map: SpecifierMapView,
    href: Seq<char>,
    path_type: MediaType,
    name: Seq<char>,
)
    requires
        map.wf(),
        specifier::is_url(href),
        map.may_see(href, path_type),
    ensures
        map.after_name(href, map.name_of(href, path_type)).wf(),
        map.after_specifier(name).wf(),
{
}

/// The name made for a specifier is read back as that specifier, unless a name that was there
/// before is in the way: one made for another specifier, or the specifier itself with a doubled
/// declaration extension in it.
pub proof fn law_name_leads_back(map: SpecifierMapView, href: Seq<char>, path_type: MediaType)
    requires
        map.wf(),
        specifier::is_url(href),
        ({
            let name = map.name_of(href, path_type);
            name == href || map.denormalized.contains_key(href) ==> map.normalized.contains_key(
                name,
            ) ==> map.normalized[name] == href
        }),
        map.name_of(href, path_type) == href && !map.normalized.contains_key(href)
            ==> strings::replaced(href, ".d.ts.d.ts"@, ".d.ts"@) == href,
    ensures
        ({
            let name = map.name_of(href, path_type);
            map.after_name(href, name).specifier_of(name) == Some(href)
        }),
{
}

/// A name that is not its own specifier is made again for the specifier that was read from it.
pub proof fn law_specifier_leads_back(map: SpecifierMapView, name: Seq<char>, path_type: MediaType)
    requires
        map.wf(),
        !map.normalized.contains_key(name),
        plain_specifier(name) is Some,
        plain_specifier(name) != Some(name),
    ensures
        map.after_specifier(name).name_of(map.specifier_of(name)->0, path_type) == name,
{
}

/// A name that was made for a specifier is made for it again, where no other name was read for it
/// and every system splits it alike.
pub proof fn law_name_is_made_again(map: SpecifierMapView, name: Seq<char>)
    requires
        map.wf(),
        map.normalized.contains_key(name),
        !map.denormalized.contains_key(map.normalized[name]),
        specifier::is_portable_path(map.normalized[name]),
    ensures
        map.specifier_of(name) == Some(map.normalized[name]),
        map.name_of(
            map.normalized[name],
            specifier::path_media_type(map.normalized[name]),
        ) == name,
{
}

/// A name that was made for a specifier leads back to it for good: reading other names changes nothing
/// of that, nor does making names, unless the same name is made for another specifier.
pub proof fn law_name_goes_on_leading_back(
    map: SpecifierMapView,
    name: Seq<char>,
    other_name: Seq<char>,
    other_href: Seq<char>,
    path_type: MediaType,
)
    requires
        map.normalized.contains_key(name),
        map.name_of(other_href, path_type) == name ==> other_href == map.normalized[name],
    ensures
        map.after_specifier(other_name).specifier_of(name) == Some(map.normalized[name]),
        map.after_name(other_href, map.name_of(other_href, path_type)).specifier_of(name) == Some(
            map.normalized[name],
        ),
{
}

/// A specifier for which no other name was read is its own name where its media type is the same as a
/// URL and as a path. Where the two differ, the extension for the type of the URL stands behind it.
pub proof fn law_names_tell_the_media_type(
    map: SpecifierMapView,
    href: Seq<char>,
    path_type: MediaType,
)
    requires
        !map.denormalized.contains_key(href),
    ensures
        specifier::url_media_type(href) == path_type ==> map.name_of(href, path_type) == href,
        specifier::url_media_type(href) != path_type ==> map.name_of(href, path_type) == href
            + specifier::ts_extension(specifier::url_media_type(href)),
{
}

/// A name that was made stands for the specifier it was made for. Any other stands for the URL it is,
/// where a doubled extension of declarations counts once.
pub proof fn law_names_stand_for_specifiers(
    map: SpecifierMapView,
    name: Seq<char>,
    base: Seq<char>,
    rest: Seq<char>,
)
    requires
        forall|i: int|
            0 <= i < base.len() ==> !".d.ts.d.ts"@.is_prefix_of(
                #[trigger] (base + ".d.ts.d.ts"@ + rest).skip(i),
            ),
    ensures
        map.normalized.contains_key(name) ==> map.specifier_of(name) == Some(map.normalized[name]),
        !map.normalized.contains_key(name) && (forall|i: int|
            0 <= i < name.len() ==> !".d.ts.d.ts"@.is_prefix_of(#[trigger] name.skip(i)))
            ==> map.specifier_of(name) == specifier::parsed_url(name),
        !map.normalized.contains_key(name) && name == base + ".d.ts.d.ts"@ + rest
            ==> map.specifier_of(name) == specifier::parsed_url(
            base + ".d.ts"@ + strings::replaced(rest, ".d.ts.d.ts"@, ".d.ts"@),
        ),
{
    reveal_strlit(".d.ts.d.ts");
    strings::law_first_word_is_replaced(base, rest, ".d.ts.d.ts"@, ".d.ts"@);
    if forall|i: int| 0 <= i < name.len() ==> !".d.ts.d.ts"@.is_prefix_of(#[trigger] name.skip(i)) {
        strings::law_absent_word_is_not_replaced(name, ".d.ts.d.ts"@, ".d.ts"@);
    }
}

/// Making a name keeps it for its specifier where the two differ, and reading a name keeps it for the
/// specifier read where those differ; nothing else is kept or lost.
pub proof fn law_names_are_kept(
    map: SpecifierMapView,
    href: Seq<char>,
    name: Seq<char>,
    other: Seq<char>,
)
    ensures
        ({
            let named = map.after_name(href, name);
            &&& named.denormalized == map.denormalized
            &&& name != href && !map.denormalized.contains_key(href)
                ==> named.normalized.contains_key(name) && named.normalized[name] == href
            &&& other != name ==> named.normalized.contains_key(other)
                == map.normalized.contains_key(other) && (map.normalized.contains_key(other)
                ==> named.normalized[other] == map.normalized[other])
            &&& name == href ==> named == map
        }),
        ({
            let read = map.after_specifier(name);
            &&& read.normalized == map.normalized
            &&& map.normalized.contains_key(name) ==> read == map
            &&& !map.normalized.contains_key(name) ==> (map.specifier_of(name) matches Some(url)
                ==> {
                &&& url != name ==> read.denormalized.contains_key(url) && read.denormalized[url]
                    == name
                &&& url == name ==> read == map
                &&& other != url ==> read.denormalized.contains_key(other)
                    == map.denormalized.contains_key(other)
            })
        }),
{
}

proof fn lemma_may_name(map: SpecifierMapView, href: Seq<char>, name: Seq<char>)
    requires
        map.may_name(href, name),
    ensures
        map.denormalized.contains_key(href) ==> name == map.denormalized[href],
        !map.denormalized.contains_key(href) ==> name == href || name == href
            + specifier::ts_extension(specifier::url_media_type(href)),
        !map.denormalized.contains_key(href) && specifier::is_portable_path(href) ==> {
            &&& specifier::path_media_type(href) == specifier::url_media_type(href) ==> name == href
            &&& specifier::path_media_type(href) != specifier::url_media_type(href) ==> name == href
                + specifier::ts_extension(specifier::url_media_type(href))
        },
{
    let path_type = choose|path_type: MediaType|
        map.may_see(href, path_type) && name == #[trigger] map.name_of(href, path_type);
    assert(name == map.name_of(href, path_type));
}

/// A specifier is named by the name that was read for it, where there is one. Else its name is the
/// specifier itself or has the extension for its media type behind it: which of the two, its path
/// tells, by whether it shows that media type already.
pub proof fn law_specifiers_are_named_by_media_type(
    map: SpecifierMapView,
    href: Seq<char>,
    name: Seq<char>,
)
    requires
        map.may_name(href, name),
    ensures
        map.denormalized.contains_key(href) ==> name == map.denormalized[href],
        !map.denormalized.contains_key(href) ==> name == href || name == href
            + specifier::ts_extension(specifier::url_media_type(href)),
        !map.denormalized.contains_key(href) && specifier::is_portable_path(href) ==> {
            &&& specifier::path_media_type(href) == specifier::url_media_type(href) ==> name == href
            &&& specifier::path_media_type(href) != specifier::url_media_type(href) ==> name == href
                + specifier::ts_extension(specifier::url_media_type(href))
        },
{
    lemma_may_name(map, href, name);
}

proof fn lemma_names_read_stay(
    map: SpecifierMapView,
    hrefs: Seq<Seq<char>>,
    names: Seq<Seq<char>>,
)
    ensures
        after_names(map, hrefs, names).denormalized == map.denormalized,
    decreases hrefs.len(),
{
    if hrefs.len() > 0 {
        lemma_names_read_stay(map, hrefs.drop_last(), names.drop_last());
    }
}

/// Of a list of specifiers each is named as it would be by itself, in order.
pub proof fn law_lists_are_named_one_by_one(
    map: SpecifierMapView,
    hrefs: Seq<Seq<char>>,
    names: Seq<Seq<char>>,
    i: int,
)
    requires
        may_name_all(map, hrefs, names),
        0 <= i < hrefs.len(),
    ensures
        names.len() == hrefs.len(),
        map.denormalized.contains_key(hrefs[i]) ==> names[i] == map.denormalized[hrefs[i]],
        !map.denormalized.contains_key(hrefs[i]) ==> names[i] == hrefs[i] || names[i] == hrefs[i]
            + specifier::ts_extension(specifier::url_media_type(hrefs[i])),
        !map.denormalized.contains_key(hrefs[i]) && specifier::is_portable_path(hrefs[i])
            && specifier::path_media_type(hrefs[i]) == specifier::url_media_type(hrefs[i])
            ==> names[i] == hrefs[i],
{
    let before = after_names(map, hrefs.take(i), names.take(i));
    lemma_names_read_stay(map, hrefs.take(i), names.take(i));
    assert(before.may_name(hrefs[i], names[i]));
    lemma_may_name(before, hrefs[i], names[i]);
}

} // verus!
