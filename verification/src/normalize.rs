//! Reading the specifiers of the file names in what the compiler answers.

use vstd::prelude::*;
use vstd::string::*;
use crate::element::OneOrMany;
use crate::error::TscError;
use crate::specifier_map;
use crate::specifier_map::TscSpecifierMap;

verus! {

/// What reading a list of file names comes to: the map and the names after it, and whether every
/// name was read.
pub struct Reading {
    pub map: specifier_map::SpecifierMapView,
    pub names: Seq<Seq<char>>,
    pub ok: bool,
}

/// File names read one after the other, up to the first that is no URL.
pub open spec fn reading(
    map: specifier_map::SpecifierMapView,
    names: Seq<Seq<char>>,
) -> Reading
    decreases names.len(),
{
    if names.len() == 0 {
        Reading { map, names, ok: true }
    } else {
        match map.specifier_of(names[0]) {
            Some(href) => {
                let rest = reading(map.after_specifier(names[0]), names.skip(1));
                Reading { map: rest.map, names: seq![href] + rest.names, ok: rest.ok }
            },
            None => Reading { map, names, ok: false },
        }
    }
}

/// Reading one list and then another.
pub open spec fn reading_on(first: Reading, names: Seq<Seq<char>>) -> Reading {
    if first.ok {
        let rest = reading(first.map, names);
        Reading { map: rest.map, names: first.names + rest.names, ok: rest.ok }
    } else {
        Reading { names: first.names + names, ..first }
    }
}

/// Two lists are read together as one after the other.
pub proof fn lemma_reading_append(
    map: specifier_map::SpecifierMapView,
    a: Seq<Seq<char>>,
    b: Seq<Seq<char>>,
)
    ensures
        reading(map, a + b) == reading_on(reading(map, a), b),
    decreases a.len(),
{
    if a.len() == 0 {
        assert(a + b =~= b);
        assert(reading(map, a).names + reading(map, b).names =~= reading(map, b).names);
    } else {
        assert((a + b).skip(1) =~= a.skip(1) + b);
        match map.specifier_of(a[0]) {
            Some(href) => {
                let next = map.after_specifier(a[0]);
                lemma_reading_append(next, a.skip(1), b);
                let rest = reading(next, a.skip(1));
                if rest.ok {
                    assert(seq![href] + (rest.names + reading(rest.map, b).names) =~= (seq![href]
                        + rest.names) + reading(rest.map, b).names);
                } else {
                    assert(seq![href] + (rest.names + b) =~= (seq![href] + rest.names) + b);
                }
            },
            None => {},
        }
    }
}

/// A value that holds file names.
pub trait Named: Sized {
    /// The file names, in the order in which they are read.
    spec fn file_names(&self) -> Seq<Seq<char>>;

    /// The two values are the same but for their file names.
    spec fn same_but_names(&self, other: &Self) -> bool;

    /// A value is the same as itself.
    proof fn lemma_same(&self)
        ensures
            self.same_but_names(self),
    ;

    /// Puts specifiers in the place of the file names, up to the first that is no URL.
    fn normalize(&mut self, map: &mut TscSpecifierMap) -> (r: Result<(), TscError>)
        ensures
            final(map)@ == reading(old(map)@, old(self).file_names()).map,
            final(self).file_names() == reading(old(map)@, old(self).file_names()).names,
            final(self).same_but_names(old(self)),
            r is Ok == reading(old(map)@, old(self).file_names()).ok,
            r matches Err(err) ==> err == TscError::InvalidUrl,
    ;
}

/// The file names of a list of values.
pub open spec fn all_names<T: Named>(list: Seq<T>) -> Seq<Seq<char>>
    decreases list.len(),
{
    if list.len() == 0 {
        Seq::empty()
    } else {
        all_names(list.drop_last()) + list.last().file_names()
    }
}

/// Two lists hold values that are the same but for their file names.
pub open spec fn all_same_but_names<T: Named>(a: Seq<T>, b: Seq<T>) -> bool {
    &&& a.len() == b.len()
    &&& forall|i: int| 0 <= i < a.len() ==> (#[trigger] a[i]).same_but_names(&b[i])
}

/// The file names of a list are those of its first items and those of the rest.
pub proof fn lemma_all_names_split<T: Named>(list: Seq<T>, n: int)
    requires
        0 <= n <= list.len(),
    ensures
        all_names(list) == all_names(list.take(n)) + all_names(list.skip(n)),
    decreases list.len() - n,
{
    if n == list.len() {
        assert(list.take(n) =~= list);
        assert(all_names(list) + all_names(list.skip(n)) =~= all_names(list));
    } else {
        let before = list.drop_last();
        lemma_all_names_split(before, n);
        assert(before.take(n) =~= list.take(n));
        assert(before.skip(n) =~= list.skip(n).drop_last());
        assert(all_names(list.take(n)) + (all_names(before.skip(n)) + list.last().file_names())
            =~= all_names(list.take(n)) + all_names(before.skip(n)) + list.last().file_names());
    }
}

/// Puts specifiers in the place of one file name.
pub fn normalize_name(name: &mut String, map: &mut TscSpecifierMap) -> (r: Result<(), TscError>)
    ensures
        final(map)@ == reading(old(map)@, seq![old(name)@]).map,
        seq![final(name)@] == reading(old(map)@, seq![old(name)@]).names,
        r is Ok == reading(old(map)@, seq![old(name)@]).ok,
        r matches Err(err) ==> err == TscError::InvalidUrl,
        r is Err ==> *final(name) == *old(name),
{
    proof {
        reveal_with_fuel(reading, 2);
        assert(seq![name@].skip(1) =~= Seq::empty());
    }
    match map.normalize(name.as_str()) {
        Ok(specifier) => {
            *name = specifier.as_str().to_owned();
            assert(seq![name@] + Seq::<Seq<char>>::empty() =~= seq![name@]);
            Ok(())
        },
        Err(err) => Err(err),
    }
}

/// Puts specifiers in the place of the file names of a list of values, up to the first that is no
/// URL.
pub fn normalize_all<T: Named>(list: &mut Vec<T>, map: &mut TscSpecifierMap) -> (r: Result<
    (),
    TscError,
>)
    ensures
        final(map)@ == reading(old(map)@, all_names(old(list)@)).map,
        all_names(final(list)@) == reading(old(map)@, all_names(old(list)@)).names,
        all_same_but_names(final(list)@, old(list)@),
        r is Ok == reading(old(map)@, all_names(old(list)@)).ok,
        r matches Err(err) ==> err == TscError::InvalidUrl,
{
    let ghost start = list@;
    let ghost map0 = map@;
    let mut i: usize = 0;
    proof {
        assert(start.take(0) =~= Seq::empty());
        assert forall|j: int| 0 <= j < start.len() implies (#[trigger] start[j]).same_but_names(
            &start[j],
        ) by {
            start[j].lemma_same();
        }
    }
    while i < list.len()
        invariant
            i <= start.len(),
            map0 == old(map)@,
            start == old(list)@,
            list@.len() == start.len(),
            forall|j: int| i <= j < start.len() ==> list@[j] == start[j],
            forall|j: int| 0 <= j < start.len() ==> (#[trigger] list@[j]).same_but_names(&start[j]),
            reading(map0, all_names(start.take(i as int))).ok,
            reading(map0, all_names(start.take(i as int))).map == map@,
            reading(map0, all_names(start.take(i as int))).names == all_names(list@.take(i as int)),
        decreases start.len() - i,
    {
        let ghost before = list@;
        let ghost item = list@[i as int];
        let ghost map1 = map@;
        proof {
            lemma_all_names_split(start, i + 1);
            assert(start.take(i + 1).drop_last() =~= start.take(i as int));
            lemma_reading_append(map0, all_names(start.take(i as int)), item.file_names());
            lemma_reading_append(map0, all_names(start.take(i + 1)), all_names(start.skip(i + 1)));
        }
        let result = list[i].normalize(map);
        proof {
            assert(list@.take(i + 1).drop_last() =~= before.take(i as int));
            assert(list@ =~= before.update(i as int, list@[i as int]));
        }
        if let Err(err) = result {
            proof {
                lemma_all_names_split(list@, i + 1);
                assert(list@.skip(i + 1) =~= start.skip(i + 1));
            }
            return Err(err);
        }
        i = i + 1;
    }
    proof {
        assert(start.take(i as int) =~= start);
        assert(list@.take(i as int) =~= list@);
    }
    Ok(())
}

impl<T: Named> Named for Vec<T> {
    open spec fn file_names(&self) -> Seq<Seq<char>> {
        all_names(self@)
    }

    open spec fn same_but_names(&self, other: &Self) -> bool {
        all_same_but_names(self@, other@)
    }

    proof fn lemma_same(&self) {
        assert forall|i: int| 0 <= i < self@.len() implies (#[trigger] self@[i]).same_but_names(
            &self@[i],
        ) by {
            self@[i].lemma_same();
        }
    }

    fn normalize(&mut self, map: &mut TscSpecifierMap) -> (r: Result<(), TscError>) {
        normalize_all(self, map)
    }
}

impl<T: Named> Named for Option<T> {
    open spec fn file_names(&self) -> Seq<Seq<char>> {
        match *self {
            Some(value) => value.file_names(),
            None => Seq::empty(),
        }
    }

    open spec fn same_but_names(&self, other: &Self) -> bool {
        match (*self, *other) {
            (Some(a), Some(b)) => a.same_but_names(&b),
            (None, None) => true,
            _ => false,
        }
    }

    proof fn lemma_same(&self) {
        if let Some(value) = self {
            value.lemma_same();
        }
    }

    fn normalize(&mut self, map: &mut TscSpecifierMap) -> (r: Result<(), TscError>) {
        match self {
            Some(value) => value.normalize(map),
            None => Ok(()),
        }
    }
}

impl<T: Named> Named for OneOrMany<T> {
    open spec fn file_names(&self) -> Seq<Seq<char>> {
        match *self {
            OneOrMany::One(value) => value.file_names(),
            OneOrMany::Many(list) => all_names(list@),
        }
    }

    open spec fn same_but_names(&self, other: &Self) -> bool {
        match (*self, *other) {
            (OneOrMany::One(a), OneOrMany::One(b)) => a.same_but_names(&b),
            (OneOrMany::Many(a), OneOrMany::Many(b)) => all_same_but_names(a@, b@),
            _ => false,
        }
    }

    proof fn lemma_same(&self) {
        match self {
            OneOrMany::One(value) => value.lemma_same(),
            OneOrMany::Many(list) => list.lemma_same(),
        }
    }

    fn normalize(&mut self, map: &mut TscSpecifierMap) -> (r: Result<(), TscError>) {
        match self {
            OneOrMany::One(value) => value.normalize(map),
            OneOrMany::Many(list) => normalize_all(list, map),
        }
    }
}

/// Reading keeps every name that was made leading back, and reads none of them as anything else.
pub proof fn law_reading_keeps_names(
    map: specifier_map::SpecifierMapView,
    names: Seq<Seq<char>>,
)
    requires
        map.wf(),
    ensures
        reading(map, names).map.wf(),
        reading(map, names).map.normalized == map.normalized,
        reading(map, names).names.len() == names.len(),
    decreases names.len(),
{
    if names.len() > 0 && map.specifier_of(names[0]) is Some {
        law_reading_keeps_names(map.after_specifier(names[0]), names.skip(1));
    }
}

/// Where every name is read, each comes to the specifier that it has in the map as it was.
pub proof fn law_reading_is_one_by_one(
    map: specifier_map::SpecifierMapView,
    names: Seq<Seq<char>>,
    i: int,
)
    requires
        reading(map, names).ok,
        0 <= i < names.len(),
    ensures
        reading(map, names).names.len() == names.len(),
        map.specifier_of(names[i]) == Some(reading(map, names).names[i]),
    decreases names.len(),
{
    let next = map.after_specifier(names[0]);
    let rest = reading(next, names.skip(1));
    if names.len() > 1 {
        law_reading_is_one_by_one(next, names.skip(1), if i > 0 {
            i - 1
        } else {
            0
        });
    }
    if i > 0 {
        assert(reading(map, names).names[i] == rest.names[i - 1]);
        assert(next.specifier_of(names[i]) == map.specifier_of(names[i]));
    }
}

/// Names are read up to the first that is no URL: each before it gives way to its specifier, and it and
/// those behind it stay as they are. All is well just where there is no such name.
pub proof fn law_reading_stops_at_first_unknown(
    map: specifier_map::SpecifierMapView,
    names: Seq<Seq<char>>,
    n: int,
)
    requires
        0 <= n <= names.len(),
        forall|i: int| 0 <= i < n ==> map.specifier_of(#[trigger] names[i]) is Some,
        n < names.len() ==> map.specifier_of(names[n]) is None,
    ensures
        reading(map, names).ok <==> n == names.len(),
        reading(map, names).names.len() == names.len(),
        forall|i: int|
            0 <= i < n ==> Some(#[trigger] reading(map, names).names[i]) == map.specifier_of(
                names[i],
            ),
        forall|i: int|
            n <= i < names.len() ==> #[trigger] reading(map, names).names[i] == names[i],
    decreases names.len(),
{
    if n > 0 {
        let next = map.after_specifier(names[0]);
        let rest = names.skip(1);
        assert forall|i: int| 0 <= i < n - 1 implies next.specifier_of(
            #[trigger] rest[i],
        ) is Some by {
            assert(rest[i] == names[i + 1]);
            assert(next.specifier_of(rest[i]) == map.specifier_of(names[i + 1]));
        }
        if n < names.len() {
            assert(next.specifier_of(rest[n - 1]) == map.specifier_of(names[n]));
        }
        law_reading_stops_at_first_unknown(next, rest, n - 1);
        let read = reading(map, names).names;
        let later = reading(next, rest).names;
        assert forall|i: int| 0 <= i < n implies Some(#[trigger] read[i]) == map.specifier_of(
            names[i],
        ) by {
            if i > 0 {
                assert(read[i] == later[i - 1]);
                assert(next.specifier_of(rest[i - 1]) == map.specifier_of(names[i]));
            }
        }
        assert forall|i: int| n <= i < names.len() implies #[trigger] read[i] == names[i] by {
            assert(read[i] == later[i - 1]);
        }
    }
}

/// The names of a list are those of its items, in their order; none is left out.
pub proof fn law_names_of_lists<T: Named>(list: Seq<T>, more: T)
    ensures
        all_names::<T>(Seq::empty()).len() == 0,
        all_names(list.push(more)) == all_names(list) + more.file_names(),
{
    assert(list.push(more).drop_last() =~= list);
}

/// The names of a list whose items have one name each.
pub proof fn lemma_one_name_each<T: Named>(list: Seq<T>, i: int)
    requires
        forall|j: int| 0 <= j < list.len() ==> (#[trigger] list[j]).file_names().len() == 1,
        0 <= i < list.len(),
    ensures
        all_names(list).len() == list.len(),
        all_names(list)[i] == list[i].file_names()[0],
    decreases list.len(),
{
    let before = list.drop_last();
    assert forall|j: int| 0 <= j < before.len() implies (
    #[trigger] before[j]).file_names().len() == 1 by {
        assert(before[j] == list[j]);
    }
    assert(list[list.len() - 1].file_names().len() == 1);
    if i < before.len() {
        lemma_one_name_each(before, i);
    } else if before.len() > 0 {
        lemma_one_name_each(before, 0);
    }
}

/// What is optional has the names of what is there, and one value the same names as by itself.
pub proof fn law_names_of_optional_values<T: Named>(value: T, list: Vec<T>)
    ensures
        Some(value).file_names() == value.file_names(),
        None::<T>.file_names().len() == 0,
        OneOrMany::One(value).file_names() == value.file_names(),
        OneOrMany::Many(list).file_names() == all_names(list@),
        list.file_names() == all_names(list@),
{
}

/// Values that are the same but for their names are as many and of the same sort, and each is the same
/// but for its names.
pub proof fn law_same_values_are_as_many<T: Named>(
    a: Vec<T>,
    b: Vec<T>,
    c: Option<T>,
    d: Option<T>,
    i: int,
)
    ensures
        a.same_but_names(&b) ==> a@.len() == b@.len() && (0 <= i < a@.len()
            ==> a@[i].same_but_names(&b@[i])),
        c.same_but_names(&d) ==> (c is Some <==> d is Some) && (c matches Some(value)
            ==> value.same_but_names(&d->0)),
{
}

} // verus!
