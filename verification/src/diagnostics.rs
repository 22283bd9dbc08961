//! Diagnostics that the compiler reports.

use vstd::prelude::*;
use vstd::string::*;
use crate::error::TscError;
use crate::language_server;
use crate::normalize;
use crate::normalize::{normalize_name, Named};
use crate::specifier_map::TscSpecifierMap;
use crate::strings::same_text;

verus! {

/// A diagnostic. What else there is of it is a JSON text that is passed on as it is.
#[derive(Debug)]
pub struct Diagnostic {
    pub file_name: Option<String>,
    pub related_information: Option<Vec<Diagnostic>>,
    pub json: String,
}

/// The file name of a diagnostic, where it has one.
pub open spec fn own_names(file_name: Option<String>) -> Seq<Seq<char>> {
    match file_name {
        Some(file_name) => seq![file_name@],
        None => Seq::empty(),
    }
}

/// The file names in a diagnostic: its own, and those of what it is related to.
pub open spec fn diagnostic_names(diagnostic: Diagnostic) -> Seq<Seq<char>>
    decreases diagnostic,
{
    let own = own_names(diagnostic.file_name);
    match diagnostic.related_information {
        Some(list) => own + diagnostics_names(list@),
        None => own,
    }
}

/// The file names in the diagnostics of a list.
pub open spec fn diagnostics_names(list: Seq<Diagnostic>) -> Seq<Seq<char>>
    decreases list,
{
    if list.len() == 0 {
        Seq::empty()
    } else {
        diagnostics_names(list.drop_last()) + diagnostic_names(list.last())
    }
}

/// Two diagnostics are the same but for their file names.
pub open spec fn same_diagnostic(a: Diagnostic, b: Diagnostic) -> bool
    decreases a,
{
    &&& a.json == b.json
    &&& a.file_name is Some == b.file_name is Some
    &&& match (a.related_information, b.related_information) {
        (Some(x), Some(y)) => same_diagnostics(x@, y@),
        (None, None) => true,
        _ => false,
    }
}

/// The diagnostics of two lists are the same but for their file names.
pub open spec fn same_diagnostics(a: Seq<Diagnostic>, b: Seq<Diagnostic>) -> bool
    decreases a,
{
    a.len() == b.len() && (a.len() > 0 ==> same_diagnostics(a.drop_last(), b.drop_last())
        && same_diagnostic(a.last(), b.last()))
}

proof fn lemma_same_diagnostic(diagnostic: Diagnostic)
    ensures
        same_diagnostic(diagnostic, diagnostic),
    decreases diagnostic,
{
    match diagnostic.related_information {
        Some(list) => lemma_same_diagnostics(list@),
        None => {},
    }
}

proof fn lemma_same_diagnostics(list: Seq<Diagnostic>)
    ensures
        same_diagnostics(list, list),
    decreases list,
{
    if list.len() > 0 {
        lemma_same_diagnostics(list.drop_last());
        lemma_same_diagnostic(list.last());
    }
}

proof fn lemma_names_split(list: Seq<Diagnostic>, n: int)
    requires
        0 <= n <= list.len(),
    ensures
        diagnostics_names(list) == diagnostics_names(list.take(n)) + diagnostics_names(
            list.skip(n),
        ),
    decreases list.len() - n,
{
    if n == list.len() {
        assert(list.take(n) =~= list);
        assert(diagnostics_names(list) + diagnostics_names(list.skip(n)) =~= diagnostics_names(
            list,
        ));
    } else {
        let before = list.drop_last();
        lemma_names_split(before, n);
        assert(before.take(n) =~= list.take(n));
        assert(before.skip(n) =~= list.skip(n).drop_last());
        assert(diagnostics_names(list.take(n)) + (diagnostics_names(before.skip(n))
            + diagnostic_names(list.last())) =~= diagnostics_names(list.take(n))
            + diagnostics_names(before.skip(n)) + diagnostic_names(list.last()));
    }
}

/// Lists that agree from a place on, and are the same but for file names before it, are the same but
/// for file names.
proof fn lemma_same_rest(a: Seq<Diagnostic>, b: Seq<Diagnostic>, n: int)
    requires
        a.len() == b.len(),
        0 <= n <= a.len(),
        same_diagnostics(a.take(n), b.take(n)),
        forall|i: int| n <= i < a.len() ==> a[i] == b[i],
    ensures
        same_diagnostics(a, b),
    decreases a.len() - n,
{
    if n < a.len() {
        assert(a.take(n + 1).drop_last() =~= a.take(n));
        assert(b.take(n + 1).drop_last() =~= b.take(n));
        lemma_same_diagnostic(a[n]);
        lemma_same_rest(a, b, n + 1);
    } else {
        assert(a.take(n) =~= a);
        assert(b.take(n) =~= b);
    }
}

/// Puts specifiers in the place of the file names in a diagnostic, up to the first that is no URL.
pub fn normalize_diagnostic(diagnostic: &mut Diagnostic, specifier_map: &mut TscSpecifierMap) -> (r:
    Result<(), TscError>)
    ensures
        final(specifier_map)@ == normalize::reading(
            old(specifier_map)@,
            diagnostic_names(*old(diagnostic)),
        ).map,
        diagnostic_names(*final(diagnostic)) == normalize::reading(
            old(specifier_map)@,
            diagnostic_names(*old(diagnostic)),
        ).names,
        same_diagnostic(*final(diagnostic), *old(diagnostic)),
        r is Ok == normalize::reading(
            old(specifier_map)@,
            diagnostic_names(*old(diagnostic)),
        ).ok,
        r matches Err(err) ==> err == TscError::InvalidUrl,
    decreases *old(diagnostic), 1nat,
{
    let ghost map0 = specifier_map@;
    let ghost start = *diagnostic;
    let ghost own = own_names(start.file_name);
    let ghost related = match start.related_information {
        Some(list) => diagnostics_names(list@),
        None => Seq::empty(),
    };
    proof {
        assert(own + Seq::<Seq<char>>::empty() =~= own);
        assert(diagnostic_names(start) == own + related);
        normalize::lemma_reading_append(map0, own, related);
        lemma_same_diagnostic(start);
    }
    if let Some(file_name) = &mut diagnostic.file_name {
        if let Err(err) = normalize_name(file_name, specifier_map) {
            return Err(err);
        }
    }
    let ghost new_own = own_names(diagnostic.file_name);
    assert(new_own == normalize::reading(map0, own).names);
    let result = match &mut diagnostic.related_information {
        Some(list) => normalize_diagnostics(list, specifier_map),
        None => Ok(()),
    };
    proof {
        assert(new_own + Seq::<Seq<char>>::empty() =~= new_own);
    }
    result
}

/// Puts specifiers in the place of the file names in the diagnostics of a list, up to the first that
/// is no URL.
pub fn normalize_diagnostics(list: &mut Vec<Diagnostic>, specifier_map: &mut TscSpecifierMap) -> (r:
    Result<(), TscError>)
    ensures
        final(specifier_map)@ == normalize::reading(
            old(specifier_map)@,
            diagnostics_names(old(list)@),
        ).map,
        diagnostics_names(final(list)@) == normalize::reading(
            old(specifier_map)@,
            diagnostics_names(old(list)@),
        ).names,
        same_diagnostics(final(list)@, old(list)@),
        r is Ok == normalize::reading(
            old(specifier_map)@,
            diagnostics_names(old(list)@),
        ).ok,
        r matches Err(err) ==> err == TscError::InvalidUrl,
    decreases *old(list), 0nat,
{
    let ghost start = list@;
    let ghost map0 = specifier_map@;
    let mut i: usize = 0;
    proof {
        assert(start.take(0) =~= Seq::empty());
        assert(list@.take(0) =~= Seq::empty());
    }
    while i < list.len()
        invariant
            i <= start.len(),
            map0 == old(specifier_map)@,
            start == old(list)@,
            list@.len() == start.len(),
            forall|j: int| i <= j < start.len() ==> list@[j] == start[j],
            same_diagnostics(list@.take(i as int), start.take(i as int)),
            normalize::reading(map0, diagnostics_names(start.take(i as int))).ok,
            normalize::reading(map0, diagnostics_names(start.take(i as int))).map
                == specifier_map@,
            normalize::reading(map0, diagnostics_names(start.take(i as int))).names
                == diagnostics_names(list@.take(i as int)),
        decreases start.len() - i,
    {
        let ghost before = list@;
        proof {
            lemma_names_split(start, i + 1);
            assert(start.take(i + 1).drop_last() =~= start.take(i as int));
            normalize::lemma_reading_append(
                map0,
                diagnostics_names(start.take(i as int)),
                diagnostic_names(start[i as int]),
            );
            normalize::lemma_reading_append(
                map0,
                diagnostics_names(start.take(i + 1)),
                diagnostics_names(start.skip(i + 1)),
            );
            assert(decreases_to!(*old(list) => start[i as int]));
        }
        let result = normalize_diagnostic(&mut list[i], specifier_map);
        proof {
            assert(list@.take(i + 1).drop_last() =~= before.take(i as int));
            assert(list@ =~= before.update(i as int, list@[i as int]));
            assert(same_diagnostics(list@.take(i + 1), start.take(i + 1)));
        }
        if let Err(err) = result {
            proof {
                lemma_names_split(list@, i + 1);
                assert(list@.skip(i + 1) =~= start.skip(i + 1));
                lemma_same_rest(list@, start, i + 1);
            }
            return Err(err);
        }
        i = i + 1;
    }
    proof {
        assert(start.take(i as int) =~= start);
        assert(list@.take(i as int) =~= list@);
    }
    Ok(())
}

/// The diagnostics of one module.
#[derive(Debug)]
pub struct ModuleDiagnostics {
    pub specifier: String,
    pub diagnostics: Vec<Diagnostic>,
}

impl Named for ModuleDiagnostics {
    open spec fn file_names(&self) -> Seq<Seq<char>> {
        seq![self.specifier@] + diagnostics_names(self.diagnostics@)
    }

    open spec fn same_but_names(&self, other: &Self) -> bool {
        same_diagnostics(self.diagnostics@, other.diagnostics@)
    }

    proof fn lemma_same(&self) {
        lemma_same_diagnostics(self.diagnostics@);
    }

    fn normalize(&mut self, map: &mut TscSpecifierMap) -> (r: Result<(), TscError>) {
        proof {
            normalize::lemma_reading_append(
                map@,
                seq![self.specifier@],
                diagnostics_names(self.diagnostics@),
            );
            lemma_same_diagnostics(self.diagnostics@);
        }
        match normalize_name(&mut self.specifier, map) {
            Ok(()) => normalize_diagnostics(&mut self.diagnostics, map),
            Err(err) => Err(err),
        }
    }
}

/// The specifiers of a list of diagnostics by module.
pub open spec fn specifiers_of(list: Seq<ModuleDiagnostics>) -> Seq<Seq<char>> {
    Seq::new(list.len(), |i: int| list[i].specifier@)
}

/// The diagnostics of one more module, in the place of those that were there for it.
pub open spec fn put_module(
    list: Seq<ModuleDiagnostics>,
    item: ModuleDiagnostics,
) -> Seq<ModuleDiagnostics> {
    let n = language_server::first_of(specifiers_of(list), item.specifier@);
    if n < list.len() {
        list.update(n, item)
    } else {
        list.push(item)
    }
}

/// Diagnostics by module; of two for the same module, the later.
pub open spec fn by_module(list: Seq<ModuleDiagnostics>) -> Seq<ModuleDiagnostics>
    decreases list.len(),
{
    if list.len() == 0 {
        list
    } else {
        put_module(by_module(list.drop_last()), list.last())
    }
}

/// Diagnostics by module; of two for the same module, the later.
pub fn diagnostics_by_module(list: Vec<ModuleDiagnostics>) -> (r: Vec<ModuleDiagnostics>)
    ensures
        r@ == by_module(list@),
{
    let ghost all = list@;
    let mut out: Vec<ModuleDiagnostics> = Vec::new();
    assert(all.take(0) =~= Seq::empty());
    for item in it: list
        invariant
            it.seq() == all,
            out@ == by_module(all.take(it.index())),
    {
        proof {
            assert(all.take(it.index() + 1).drop_last() =~= all.take(it.index()));
        }
        let at: usize = find_module(&out, item.specifier.as_str());
        if at < out.len() {
            out.set(at, item);
        } else {
            out.push(item);
        }
    }
    assert(all.take(all.len() as int) =~= all);
    out
}

/// Where the diagnostics of a module stand, or the length of the list where there are none.
fn find_module(list: &Vec<ModuleDiagnostics>, specifier: &str) -> (r: usize)
    ensures
        r == language_server::first_of(specifiers_of(list@), specifier@),
        r <= list@.len(),
{
    let ghost specifiers = specifiers_of(list@);
    let mut i: usize = 0;
    while i < list.len()
        invariant
            i <= list@.len(),
            specifiers == specifiers_of(list@),
            forall|j: int| 0 <= j < i ==> specifiers[j] != specifier@,
        decreases list.len() - i,
    {
        if same_text(list[i].specifier.as_str(), specifier) {
            proof {
                language_server::lemma_first_of(specifiers, specifier@, i as int);
            }
            return i;
        }
        i = i + 1;
    }
    proof {
        language_server::lemma_first_of(specifiers, specifier@, i as int);
    }
    i
}

/// The last diagnostics given for a module are kept.
pub proof fn law_last_diagnostics_are_kept(list: Seq<ModuleDiagnostics>, i: int)
    requires
        0 <= i < list.len(),
        forall|j: int| i < j < list.len() ==> (#[trigger] list[j]).specifier@ != list[i].specifier@,
    ensures
        by_module(list).contains(list[i]),
    decreases list.len(),
{
    let before = by_module(list.drop_last());
    let after = by_module(list);
    let item = list.last();
    let keys = specifiers_of(before);
    let n = language_server::first_of(keys, item.specifier@);
    lemma_first_specifier(keys, item.specifier@);
    if i < list.len() - 1 {
        assert(list[list.len() - 1].specifier@ != list[i].specifier@);
        law_last_diagnostics_are_kept(list.drop_last(), i);
        let k = choose|k: int| 0 <= k < before.len() && before[k] == list[i];
        assert(keys[k] == before[k].specifier@);
        assert(after[k] == before[k]);
    } else if n < before.len() {
        assert(after[n] == item);
    } else {
        assert(after[before.len() as int] == item);
    }
}

/// No module is there twice.
pub proof fn law_modules_are_there_once(list: Seq<ModuleDiagnostics>, a: int, b: int)
    requires
        0 <= a < b < by_module(list).len(),
    ensures
        by_module(list)[a].specifier@ != by_module(list)[b].specifier@,
    decreases list.len(),
{
    let before = by_module(list.drop_last());
    let after = by_module(list);
    let item = list.last();
    let keys = specifiers_of(before);
    let n = language_server::first_of(keys, item.specifier@);
    lemma_first_specifier(keys, item.specifier@);
    assert(keys[a] == before[a].specifier@);
    if b < before.len() {
        law_modules_are_there_once(list.drop_last(), a, b);
        assert(keys[b] == before[b].specifier@);
        if n < before.len() {
            assert(keys[n] == before[n].specifier@);
        }
    } else {
        assert(keys.contains(keys[a]));
    }
}

/// Whatever diagnostics are kept were given.
pub proof fn law_kept_diagnostics_were_given(list: Seq<ModuleDiagnostics>, a: int)
    requires
        0 <= a < by_module(list).len(),
    ensures
        list.contains(by_module(list)[a]),
    decreases list.len(),
{
    if list.len() > 0 {
        let before = by_module(list.drop_last());
        let after = by_module(list);
        let item = list.last();
        let keys = specifiers_of(before);
        let n = language_server::first_of(keys, item.specifier@);
        lemma_first_specifier(keys, item.specifier@);
        if a < before.len() && a != n {
            law_kept_diagnostics_were_given(list.drop_last(), a);
            let k = choose|k: int|
                0 <= k < list.drop_last().len() && list.drop_last()[k] == before[a];
            assert(list[k] == after[a]);
        } else {
            assert(list[list.len() - 1] == after[a]);
        }
    }
}

proof fn lemma_first_specifier(list: Seq<Seq<char>>, text: Seq<char>)
    ensures
        0 <= language_server::first_of(list, text) <= list.len(),
        language_server::first_of(list, text) < list.len()
            ==> list[language_server::first_of(list, text)] == text,
        language_server::first_of(list, text) == list.len() ==> !list.contains(text),
    decreases list.len(),
{
    if list.len() > 0 && list[0] != text {
        lemma_first_specifier(list.skip(1), text);
        if list.contains(text) {
            let i = choose|i: int| 0 <= i < list.len() && list[i] == text;
            assert(list.skip(1)[i - 1] == text);
        }
    }
}

/// The names in a diagnostic are its own, where it has one, and then those of everything it is related
/// to. Those of a list are the names in each of its diagnostics, in order, and those of a module
/// come behind the name of the module itself.
pub proof fn law_names_in_diagnostics(
    diagnostic: Diagnostic,
    list: Seq<Diagnostic>,
    module: ModuleDiagnostics,
)
    ensures
        diagnostic.file_name is None && diagnostic.related_information is None
            ==> diagnostic_names(diagnostic).len() == 0,
        diagnostic.file_name matches Some(name) ==> diagnostic_names(diagnostic).len() > 0
            && diagnostic_names(diagnostic)[0] == name@,
        diagnostic.related_information matches Some(related) ==> {
            let own: int = if diagnostic.file_name is Some {
                1
            } else {
                0
            };
            &&& diagnostic_names(diagnostic).len() == own + diagnostics_names(related@).len()
            &&& diagnostic_names(diagnostic).skip(own) == diagnostics_names(related@)
        },
        diagnostics_names(Seq::empty()).len() == 0,
        diagnostics_names(list.push(diagnostic)) == diagnostics_names(list) + diagnostic_names(
            diagnostic,
        ),
        module.file_names().len() == 1 + diagnostics_names(module.diagnostics@).len(),
        module.file_names()[0] == module.specifier@,
        module.file_names().skip(1) == diagnostics_names(module.diagnostics@),
{
    assert(list.push(diagnostic).drop_last() =~= list);
    assert(module.file_names().skip(1) =~= diagnostics_names(module.diagnostics@));
    if diagnostic.related_information is Some {
        let related = diagnostics_names(diagnostic.related_information->0@);
        let own = own_names(diagnostic.file_name);
        assert(diagnostic_names(diagnostic).skip(own.len() as int) =~= related);
    }
}

/// Reading the names in diagnostics keeps everything else of each of them: what it says, whether it has
/// a file name, and what it is related to.
pub proof fn law_diagnostics_are_kept(a: Seq<Diagnostic>, b: Seq<Diagnostic>, i: int)
    requires
        same_diagnostics(a, b),
        0 <= i < a.len(),
    ensures
        a.len() == b.len(),
        a[i].json == b[i].json,
        a[i].file_name is Some <==> b[i].file_name is Some,
        a[i].related_information is Some <==> b[i].related_information is Some,
        a[i].related_information matches Some(related) ==> same_diagnostics(
            related@,
            b[i].related_information->0@,
        ),
    decreases a.len(),
{
    if i < a.len() - 1 {
        law_diagnostics_are_kept(a.drop_last(), b.drop_last(), i);
    } else {
        assert(same_diagnostic(a.last(), b.last()));
    }
}

} // verus!
