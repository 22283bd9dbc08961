//! The modules that the compiler is told of.

use vstd::prelude::*;
use vstd::string::*;
use crate::element::contains_text;
use crate::specifier;
use crate::specifier::ModuleSpecifier;
use crate::specifier_map;
use crate::specifier_map::TscSpecifierMap;
use crate::state;
use crate::state::{Dependency, DiagnosableDocument, Documents, State};
use crate::views;

verus! {

/// The specifiers that were come upon, and the modules that are told.
pub struct ScriptNames {
    pub seen: Seq<Seq<char>>,
    pub names: Seq<Seq<char>>,
}

/// What is told first: the types of Node, where they are injected.
pub open spec fn first_names(documents: Documents) -> ScriptNames {
    if documents.injected_types_node_package {
        ScriptNames { seen: seq![state::NODE_TYPES@], names: seq![state::NODE_TYPES@] }
    } else {
        ScriptNames { seen: Seq::empty(), names: Seq::empty() }
    }
}

/// A module that is imported by every other one, told where it was not come upon before.
pub open spec fn add_import(so_far: ScriptNames, href: Seq<char>) -> ScriptNames {
    if so_far.seen.contains(href) {
        so_far
    } else {
        ScriptNames { seen: so_far.seen.push(href), names: so_far.names.push(href) }
    }
}

/// The modules that are imported by every other one.
pub open spec fn add_imports(so_far: ScriptNames, hrefs: Seq<Seq<char>>) -> ScriptNames
    decreases hrefs.len(),
{
    if hrefs.len() == 0 {
        so_far
    } else {
        add_import(add_imports(so_far, hrefs.drop_last()), hrefs.last())
    }
}

/// A document or dependency, of which the module it stands for is told where it is known to exist
/// and the document or dependency was not come upon before.
pub open spec fn add_specifier(
    so_far: ScriptNames,
    href: Seq<char>,
    documents: Documents,
) -> ScriptNames {
    if so_far.seen.contains(href) {
        so_far
    } else {
        ScriptNames {
            seen: so_far.seen.push(href),
            names: match documents.resolved_specifier(href) {
                Some(resolved) if documents.has(resolved) => so_far.names.push(resolved),
                _ => so_far.names,
            },
        }
    }
}

/// Documents and dependencies, one after the other.
pub open spec fn add_specifiers(
    so_far: ScriptNames,
    hrefs: Seq<Seq<char>>,
    documents: Documents,
) -> ScriptNames
    decreases hrefs.len(),
{
    if hrefs.len() == 0 {
        so_far
    } else {
        add_specifier(
            add_specifiers(so_far, hrefs.drop_last(), documents),
            hrefs.last(),
            documents,
        )
    }
}

/// The specifiers of dependencies: for each the one of its types, or else that of its code.
pub open spec fn dependency_specifiers(dependencies: Seq<Dependency>) -> Seq<Seq<char>>
    decreases dependencies.len(),
{
    if dependencies.len() == 0 {
        Seq::empty()
    } else {
        let before = dependency_specifiers(dependencies.drop_last());
        match (dependencies.last().type_specifier, dependencies.last().code_specifier) {
            (Some(specifier), _) => before.push(specifier@),
            (None, Some(specifier)) => before.push(specifier@),
            (None, None) => before,
        }
    }
}

/// The specifiers of documents, each before those of its dependencies.
pub open spec fn document_specifiers(documents: Seq<DiagnosableDocument>) -> Seq<Seq<char>>
    decreases documents.len(),
{
    if documents.len() == 0 {
        Seq::empty()
    } else {
        document_specifiers(documents.drop_last()).push(documents.last().specifier@)
            + dependency_specifiers(documents.last().dependencies@)
    }
}

/// The modules that are told: the types of Node, where they are injected, what every module imports,
/// and the documents with their dependencies.
pub open spec fn script_names(documents: Documents) -> ScriptNames {
    add_specifiers(
        add_imports(first_names(documents), views::seq_view(documents.module_graph_imports@)),
        document_specifiers(documents.diagnosable@),
        documents,
    )
}

/// The map after modules were told under their names.
pub open spec fn after_telling(
    map: specifier_map::SpecifierMapView,
    names: Seq<Seq<char>>,
    told: Seq<Seq<char>>,
) -> specifier_map::SpecifierMapView
    decreases names.len(),
{
    if names.len() == 0 {
        map
    } else {
        let before = after_telling(map, names.drop_last(), told.drop_last());
        match specifier::parsed_url(names.last()) {
            Some(href) => before.after_name(href, told.last()),
            None => before,
        }
    }
}

/// Modules may be told as these texts: each under a name it may be given, or as it is where it is no
/// URL.
pub open spec fn may_tell(
    map: specifier_map::SpecifierMapView,
    names: Seq<Seq<char>>,
    told: Seq<Seq<char>>,
) -> bool {
    &&& told.len() == names.len()
    &&& forall|i: int|
        0 <= i < names.len() ==> match specifier::parsed_url(names[i]) {
            Some(href) => after_telling(map, names.take(i), told.take(i)).may_name(
                href,
                #[trigger] told[i],
            ),
            None => told[i] == names[i],
        }
}

/// The specifiers in a list of references.
pub open spec fn hrefs_of(list: Seq<&ModuleSpecifier>) -> Seq<Seq<char>> {
    Seq::new(list.len(), |i: int| list[i]@)
}

/// The specifiers of documents, each before those of its dependencies.
fn collect_specifiers(documents: &Vec<DiagnosableDocument>) -> (r: Vec<&ModuleSpecifier>)
    ensures
        hrefs_of(r@) == document_specifiers(documents@),
{
    let mut out: Vec<&ModuleSpecifier> = Vec::new();
    let mut i: usize = 0;
    assert(documents@.take(0) =~= Seq::empty());
    assert(hrefs_of(out@) =~= Seq::empty());
    while i < documents.len()
        invariant
            i <= documents@.len(),
            hrefs_of(out@) == document_specifiers(documents@.take(i as int)),
        decreases documents.len() - i,
    {
        let document = &documents[i];
        let ghost start = hrefs_of(out@).push(document.specifier@);
        out.push(&document.specifier);
        assert(hrefs_of(out@) =~= start);
        let mut j: usize = 0;
        assert(document.dependencies@.take(0) =~= Seq::empty());
        assert(start + Seq::<Seq<char>>::empty() =~= start);
        while j < document.dependencies.len()
            invariant
                j <= document.dependencies@.len(),
                hrefs_of(out@) == start + dependency_specifiers(
                    document.dependencies@.take(j as int),
                ),
            decreases document.dependencies.len() - j,
        {
            let dependency = &document.dependencies[j];
            let ghost before = hrefs_of(out@);
            assert(document.dependencies@.take(j + 1).drop_last()
                =~= document.dependencies@.take(j as int));
            if let Some(specifier) = &dependency.type_specifier {
                out.push(specifier);
                assert(hrefs_of(out@) =~= before.push(specifier@));
            } else if let Some(specifier) = &dependency.code_specifier {
                out.push(specifier);
                assert(hrefs_of(out@) =~= before.push(specifier@));
            }
            assert(hrefs_of(out@) =~= start + dependency_specifiers(
                document.dependencies@.take(j + 1),
            ));
            j = j + 1;
        }
        proof {
            assert(document.dependencies@.take(j as int) =~= document.dependencies@);
            assert(documents@.take(i + 1).drop_last() =~= documents@.take(i as int));
        }
        i = i + 1;
    }
    assert(documents@.take(i as int) =~= documents@);
    out
}

/// A copy of a text at the end of a list.
fn push_text(list: &mut Vec<String>, text: &str)
    ensures
        views::seq_view(final(list)@) == views::seq_view(old(list)@).push(text@),
{
    let copy = text.to_owned();
    proof {
        views::lemma_push(list@, copy);
    }
    list.push(copy);
}

/// The modules that are told.
pub fn collect_names(documents: &Documents) -> (r: Vec<String>)
    ensures
        views::seq_view(r@) == script_names(*documents).names,
{
    let mut seen: Vec<String> = Vec::new();
    let mut result: Vec<String> = Vec::new();
    if documents.injected_types_node_package {
        push_text(&mut result, state::NODE_TYPES);
        push_text(&mut seen, state::NODE_TYPES);
    }
    let ghost first = first_names(*documents);
    proof {
        assert(views::seq_view(seen@) =~= first.seen);
        assert(views::seq_view(result@) =~= first.names);
    }
    let imports = &documents.module_graph_imports;
    let ghost import_hrefs = views::seq_view(imports@);
    let mut i: usize = 0;
    assert(import_hrefs.take(0) =~= Seq::empty());
    while i < imports.len()
        invariant
            i <= imports@.len(),
            import_hrefs == views::seq_view(imports@),
            views::seq_view(seen@) == add_imports(first, import_hrefs.take(i as int)).seen,
            views::seq_view(result@) == add_imports(first, import_hrefs.take(i as int)).names,
        decreases imports.len() - i,
    {
        assert(import_hrefs.take(i + 1).drop_last() =~= import_hrefs.take(i as int));
        let import = imports[i].as_str();
        if !contains_text(&seen, import) {
            push_text(&mut seen, import);
            push_text(&mut result, import);
        }
        i = i + 1;
    }
    let ghost second = add_imports(first, import_hrefs);
    assert(import_hrefs.take(i as int) =~= import_hrefs);
    let specifiers = collect_specifiers(&documents.diagnosable);
    let ghost hrefs = hrefs_of(specifiers@);
    let mut k: usize = 0;
    assert(hrefs.take(0) =~= Seq::empty());
    while k < specifiers.len()
        invariant
            k <= specifiers@.len(),
            hrefs == hrefs_of(specifiers@),
            views::seq_view(seen@) == add_specifiers(
                second,
                hrefs.take(k as int),
                *documents,
            ).seen,
            views::seq_view(result@) == add_specifiers(
                second,
                hrefs.take(k as int),
                *documents,
            ).names,
        decreases specifiers.len() - k,
    {
        assert(hrefs.take(k + 1).drop_last() =~= hrefs.take(k as int));
        let specifier = specifiers[k];
        if !contains_text(&seen, specifier.as_str()) {
            push_text(&mut seen, specifier.as_str());
            if let Some(resolved) = documents.resolve_specifier(specifier) {
                if documents.is_known(resolved) {
                    push_text(&mut result, resolved.as_str());
                }
            }
        }
        k = k + 1;
    }
    assert(hrefs.take(k as int) =~= hrefs);
    result
}

impl State {
    /// The modules that the compiler is told of, under their names.
    pub fn op_script_names(&self, specifier_map: &mut TscSpecifierMap) -> (r: Vec<String>)
        ensures
            ({
                let names = script_names(self.state_snapshot.documents).names;
                let told = views::seq_view(r@);
                &&& may_tell(old(specifier_map)@, names, told)
                &&& final(specifier_map)@ == after_telling(old(specifier_map)@, names, told)
            }),
    {
        let ghost map = specifier_map@;
        let result = collect_names(&self.state_snapshot.documents);
        let ghost names = views::seq_view(result@);
        let mut out: Vec<String> = Vec::new();
        let mut i: usize = 0;
        proof {
            assert(names.take(0) =~= Seq::empty());
        }
        while i < result.len()
            invariant
                i <= result@.len(),
                map == old(specifier_map)@,
                names == views::seq_view(result@),
                out@.len() == i,
                specifier_map@ == after_telling(
                    map,
                    names.take(i as int),
                    views::seq_view(out@),
                ),
                forall|j: int|
                    0 <= j < i ==> match specifier::parsed_url(names[j]) {
                        Some(href) => after_telling(
                            map,
                            names.take(j),
                            views::seq_view(out@).take(j),
                        ).may_name(href, #[trigger] views::seq_view(out@)[j]),
                        None => views::seq_view(out@)[j] == names[j],
                    },
            decreases result.len() - i,
        {
            let ghost before = out@;
            let ghost seen = views::seq_view(before);
            let text = match ModuleSpecifier::parse(result[i].as_str()) {
                Ok(specifier) => specifier_map.denormalize(&specifier),
                Err(_) => result[i].clone(),
            };
            proof {
                views::lemma_push(before, text);
            }
            out.push(text);
            proof {
                let now = views::seq_view(out@);
                assert(now.drop_last() =~= seen);
                assert(names.take(i + 1).drop_last() =~= names.take(i as int));
                assert forall|j: int| 0 <= j < i + 1 implies match specifier::parsed_url(names[j]) {
                    Some(href) => after_telling(map, names.take(j), now.take(j)).may_name(
                        href,
                        #[trigger] now[j],
                    ),
                    None => now[j] == names[j],
                } by {
                    assert(now.take(j) =~= seen.take(j));
                    if j < i {
                        assert(now[j] == seen[j]);
                    } else {
                        assert(seen.take(j) =~= seen);
                    }
                }
            }
            i = i + 1;
        }
        assert(names.take(i as int) =~= names);
        out
    }
}

/// No text stands twice in a list.
pub open spec fn no_text_twice(list: Seq<Seq<char>>) -> bool {
    forall|i: int, j: int| 0 <= i < j < list.len() ==> #[trigger] list[i] != #[trigger] list[j]
}

proof fn lemma_seen_once(so_far: ScriptNames, hrefs: Seq<Seq<char>>, documents: Documents)
    requires
        no_text_twice(so_far.seen),
    ensures
        no_text_twice(add_imports(so_far, hrefs).seen),
        no_text_twice(add_specifiers(so_far, hrefs, documents).seen),
    decreases hrefs.len(),
{
    if hrefs.len() > 0 {
        lemma_seen_once(so_far, hrefs.drop_last(), documents);
    }
}

/// No specifier is looked at twice, and no more modules are told than were looked at.
pub proof fn law_each_module_is_looked_at_once(documents: Documents)
    ensures
        no_text_twice(script_names(documents).seen),
        script_names(documents).names.len() <= script_names(documents).seen.len(),
{
    let imports = views::seq_view(documents.module_graph_imports@);
    let hrefs = document_specifiers(documents.diagnosable@);
    let first = first_names(documents);
    lemma_seen_once(first, imports, documents);
    lemma_seen_once(add_imports(first, imports), hrefs, documents);
    lemma_fewer_names(first, imports, documents);
    lemma_fewer_names(add_imports(first, imports), hrefs, documents);
}

proof fn lemma_fewer_names(so_far: ScriptNames, hrefs: Seq<Seq<char>>, documents: Documents)
    requires
        so_far.names.len() <= so_far.seen.len(),
    ensures
        add_imports(so_far, hrefs).names.len() <= add_imports(so_far, hrefs).seen.len(),
        add_specifiers(so_far, hrefs, documents).names.len() <= add_specifiers(
            so_far,
            hrefs,
            documents,
        ).seen.len(),
    decreases hrefs.len(),
{
    if hrefs.len() > 0 {
        lemma_fewer_names(so_far, hrefs.drop_last(), documents);
    }
}

proof fn lemma_names_stay(so_far: ScriptNames, hrefs: Seq<Seq<char>>, documents: Documents)
    ensures
        so_far.names.is_prefix_of(add_imports(so_far, hrefs).names),
        so_far.names.is_prefix_of(add_specifiers(so_far, hrefs, documents).names),
    decreases hrefs.len(),
{
    if hrefs.len() > 0 {
        lemma_names_stay(so_far, hrefs.drop_last(), documents);
        let a = add_imports(so_far, hrefs).names;
        let b = add_specifiers(so_far, hrefs, documents).names;
        assert(a.subrange(0, so_far.names.len() as int) =~= so_far.names);
        assert(b.subrange(0, so_far.names.len() as int) =~= so_far.names);
    } else {
        assert(so_far.names.subrange(0, so_far.names.len() as int) =~= so_far.names);
    }
}

/// Where the types of Node are injected, they are told before every other module.
pub proof fn law_node_types_come_first(documents: Documents)
    requires
        documents.injected_types_node_package,
    ensures
        script_names(documents).names.len() > 0,
        script_names(documents).names[0] == state::NODE_TYPES@,
{
    let imports = views::seq_view(documents.module_graph_imports@);
    let hrefs = document_specifiers(documents.diagnosable@);
    let first = first_names(documents);
    let second = add_imports(first, imports);
    let third = add_specifiers(second, hrefs, documents);
    lemma_names_stay(first, imports, documents);
    lemma_names_stay(second, hrefs, documents);
    assert(second.names[0] == second.names.subrange(0, 1)[0]);
    assert(third.names[0] == third.names.subrange(0, second.names.len() as int)[0]);
}

/// What every module imports is told right behind the types of Node, before the documents and their
/// dependencies.
pub proof fn law_global_imports_come_next(documents: Documents)
    ensures
        ({
            let first = first_names(documents).names;
            let second = add_imports(
                first_names(documents),
                views::seq_view(documents.module_graph_imports@),
            ).names;
            &&& first.is_prefix_of(second)
            &&& second.is_prefix_of(script_names(documents).names)
            &&& forall|i: int|
                first.len() <= i < second.len() ==> views::seq_view(
                    documents.module_graph_imports@,
                ).contains(#[trigger] second[i])
        }),
{
    let imports = views::seq_view(documents.module_graph_imports@);
    let first = first_names(documents);
    lemma_names_stay(first, imports, documents);
    lemma_names_stay(
        add_imports(first, imports),
        document_specifiers(documents.diagnosable@),
        documents,
    );
    assert forall|i: int|
        first.names.len() <= i < add_imports(first, imports).names.len() implies imports.contains(
        #[trigger] add_imports(first, imports).names[i],
    ) by {
        lemma_only_imports(first, imports, i);
    }
}

proof fn lemma_only_imports(so_far: ScriptNames, hrefs: Seq<Seq<char>>, i: int)
    requires
        so_far.names.len() <= i < add_imports(so_far, hrefs).names.len(),
    ensures
        hrefs.contains(add_imports(so_far, hrefs).names[i]),
    decreases hrefs.len(),
{
    if hrefs.len() > 0 {
        let before = add_imports(so_far, hrefs.drop_last());
        if i < before.names.len() {
            lemma_only_imports(so_far, hrefs.drop_last(), i);
            let k = choose|k: int|
                0 <= k < hrefs.drop_last().len() && hrefs.drop_last()[k] == before.names[i];
            assert(hrefs[k] == before.names[i]);
        } else {
            assert(hrefs[hrefs.len() - 1] == hrefs.last());
        }
    }
}

proof fn lemma_only_existing(so_far: ScriptNames, hrefs: Seq<Seq<char>>, documents: Documents, i: int)
    requires
        so_far.names.len() <= i < add_specifiers(so_far, hrefs, documents).names.len(),
    ensures
        documents.has(add_specifiers(so_far, hrefs, documents).names[i]),
    decreases hrefs.len(),
{
    if hrefs.len() > 0 {
        let before = add_specifiers(so_far, hrefs.drop_last(), documents);
        if i < before.names.len() {
            lemma_only_existing(so_far, hrefs.drop_last(), documents, i);
        }
    }
}

/// Behind what every module imports, only modules that are known to exist are told.
pub proof fn law_only_existing_modules_are_told(documents: Documents, i: int)
    requires
        add_imports(
            first_names(documents),
            views::seq_view(documents.module_graph_imports@),
        ).names.len() <= i < script_names(documents).names.len(),
    ensures
        documents.has(script_names(documents).names[i]),
{
    lemma_only_existing(
        add_imports(first_names(documents), views::seq_view(documents.module_graph_imports@)),
        document_specifiers(documents.diagnosable@),
        documents,
        i,
    );
}

proof fn lemma_seen_stays(so_far: ScriptNames, hrefs: Seq<Seq<char>>, href: Seq<char>)
    requires
        so_far.seen == so_far.names,
    ensures
        add_imports(so_far, hrefs).seen == add_imports(so_far, hrefs).names,
        so_far.seen.contains(href) || hrefs.contains(href) <==> add_imports(
            so_far,
            hrefs,
        ).seen.contains(href),
    decreases hrefs.len(),
{
    let after = add_imports(so_far, hrefs);
    if hrefs.len() > 0 {
        let before = add_imports(so_far, hrefs.drop_last());
        let last = hrefs.last();
        lemma_seen_stays(so_far, hrefs.drop_last(), href);
        if hrefs.contains(href) {
            let i = choose|i: int| 0 <= i < hrefs.len() && hrefs[i] == href;
            if i < hrefs.len() - 1 {
                assert(hrefs.drop_last()[i] == href);
            }
        }
        if hrefs.drop_last().contains(href) {
            let i = choose|i: int|
                0 <= i < hrefs.drop_last().len() && hrefs.drop_last()[i] == href;
            assert(hrefs[i] == href);
        }
        assert(hrefs[hrefs.len() - 1] == last);
        if !before.seen.contains(last) {
            assert(after.seen[before.seen.len() as int] == last);
            if before.seen.contains(href) {
                let i = choose|i: int| 0 <= i < before.seen.len() && before.seen[i] == href;
                assert(after.seen[i] == href);
            }
            if after.seen.contains(href) && href != last {
                let i = choose|i: int| 0 <= i < after.seen.len() && after.seen[i] == href;
                assert(before.seen[i] == href);
            }
        }
    }
}

/// Every module that all others import is told.
pub proof fn law_every_global_import_is_told(documents: Documents, i: int)
    requires
        0 <= i < documents.module_graph_imports@.len(),
    ensures
        script_names(documents).names.contains(documents.module_graph_imports@[i]@),
{
    let imports = views::seq_view(documents.module_graph_imports@);
    let first = first_names(documents);
    let href = imports[i];
    assert(imports.contains(href));
    lemma_seen_stays(first, imports, href);
    let second = add_imports(first, imports);
    let k = choose|k: int| 0 <= k < second.names.len() && second.names[k] == href;
    lemma_names_stay(second, document_specifiers(documents.diagnosable@), documents);
    let all = script_names(documents).names;
    assert(all.subrange(0, second.names.len() as int)[k] == all[k]);
}

proof fn lemma_known_are_told(
    so_far: ScriptNames,
    hrefs: Seq<Seq<char>>,
    documents: Documents,
    href: Seq<char>,
    resolved: Seq<char>,
)
    requires
        hrefs.contains(href),
        !so_far.seen.contains(href),
        documents.resolved_specifier(href) == Some(resolved),
        documents.has(resolved),
    ensures
        add_specifiers(so_far, hrefs, documents).names.contains(resolved),
    decreases hrefs.len(),
{
    let before = add_specifiers(so_far, hrefs.drop_last(), documents);
    let after = add_specifiers(so_far, hrefs, documents);
    if hrefs.drop_last().contains(href) {
        lemma_known_are_told(so_far, hrefs.drop_last(), documents, href, resolved);
        let k = choose|k: int| 0 <= k < before.names.len() && before.names[k] == resolved;
        assert(after.names[k] == resolved);
    } else {
        let i = choose|i: int| 0 <= i < hrefs.len() && hrefs[i] == href;
        if i < hrefs.len() - 1 {
            assert(hrefs.drop_last()[i] == href);
        }
        lemma_seen_are_given(so_far, hrefs.drop_last(), documents, href);
        assert(after.names[before.names.len() as int] == resolved);
    }
}

proof fn lemma_seen_are_given(
    so_far: ScriptNames,
    hrefs: Seq<Seq<char>>,
    documents: Documents,
    href: Seq<char>,
)
    requires
        !so_far.seen.contains(href),
        !hrefs.contains(href),
    ensures
        !add_specifiers(so_far, hrefs, documents).seen.contains(href),
    decreases hrefs.len(),
{
    if hrefs.len() > 0 {
        let before = add_specifiers(so_far, hrefs.drop_last(), documents);
        let after = add_specifiers(so_far, hrefs, documents);
        assert forall|i: int| 0 <= i < hrefs.drop_last().len() implies hrefs.drop_last()[i]
            != href by {
            assert(hrefs[i] != href);
        }
        lemma_seen_are_given(so_far, hrefs.drop_last(), documents, href);
        assert(hrefs[hrefs.len() - 1] != href);
        assert forall|i: int| 0 <= i < after.seen.len() implies after.seen[i] != href by {
            if i < before.seen.len() {
                assert(before.seen[i] == after.seen[i]);
                assert(before.seen.contains(before.seen[i]));
            }
        }
    }
}

proof fn lemma_document_is_listed(documents: Seq<DiagnosableDocument>, i: int)
    requires
        0 <= i < documents.len(),
    ensures
        document_specifiers(documents).contains(documents[i].specifier@),
        forall|k: int|
            0 <= k < dependency_specifiers(documents[i].dependencies@).len()
                ==> document_specifiers(documents).contains(
                #[trigger] dependency_specifiers(documents[i].dependencies@)[k],
            ),
    decreases documents.len(),
{
    let before = document_specifiers(documents.drop_last());
    let own = documents.last().specifier@;
    let below = dependency_specifiers(documents.last().dependencies@);
    let all = document_specifiers(documents);
    assert(all == before.push(own) + below);
    let wanted = dependency_specifiers(documents[i].dependencies@);
    if i < documents.len() - 1 {
        lemma_document_is_listed(documents.drop_last(), i);
        let k = choose|k: int| 0 <= k < before.len() && before[k] == documents[i].specifier@;
        assert(all[k] == documents[i].specifier@);
        assert forall|k: int| 0 <= k < wanted.len() implies all.contains(#[trigger] wanted[k]) by {
            assert(before.contains(wanted[k]));
            let at = choose|at: int| 0 <= at < before.len() && before[at] == wanted[k];
            assert(all[at] == wanted[k]);
        }
    } else {
        assert(all[before.len() as int] == own);
        assert forall|k: int| 0 <= k < wanted.len() implies all.contains(#[trigger] wanted[k]) by {
            assert(all[before.len() as int + 1 + k] == below[k]);
        }
    }
}

proof fn lemma_dependency_is_listed(dependencies: Seq<Dependency>, j: int) -> (k: int)
    requires
        0 <= j < dependencies.len(),
        dependencies[j].type_specifier is Some || dependencies[j].code_specifier is Some,
    ensures
        0 <= k < dependency_specifiers(dependencies).len(),
        dependencies[j].type_specifier matches Some(specifier) ==> dependency_specifiers(
            dependencies,
        )[k] == specifier@,
        dependencies[j].type_specifier is None ==> dependency_specifiers(dependencies)[k]
            == dependencies[j].code_specifier->0@,
    decreases dependencies.len(),
{
    if j < dependencies.len() - 1 {
        let k = lemma_dependency_is_listed(dependencies.drop_last(), j);
        assert(dependency_specifiers(dependencies)[k] == dependency_specifiers(
            dependencies.drop_last(),
        )[k]);
        k
    } else {
        dependency_specifiers(dependencies).len() - 1
    }
}

/// Every document that stands for a module known to exist has that module told, and so has every
/// dependency of a document: that of its types where it has types, and else that of its code. What
/// every module imports, and the types of Node, are told by themselves.
pub proof fn law_documents_and_dependencies_are_told(
    documents: Documents,
    i: int,
    j: int,
    href: Seq<char>,
    resolved: Seq<char>,
)
    requires
        0 <= i < documents.diagnosable@.len(),
        href == documents.diagnosable@[i].specifier@ || ({
            let dependencies = documents.diagnosable@[i].dependencies@;
            &&& 0 <= j < dependencies.len()
            &&& dependencies[j].type_specifier matches Some(specifier) ==> href == specifier@
            &&& dependencies[j].type_specifier is None ==> (
            dependencies[j].code_specifier matches Some(specifier) && href == specifier@)
        }),
        documents.resolved_specifier(href) == Some(resolved),
        documents.has(resolved),
        href != state::NODE_TYPES@,
        forall|k: int|
            0 <= k < documents.module_graph_imports@.len() ==> (
            #[trigger] documents.module_graph_imports@[k])@ != href,
    ensures
        script_names(documents).names.contains(resolved),
{
    let imports = views::seq_view(documents.module_graph_imports@);
    let first = first_names(documents);
    let hrefs = document_specifiers(documents.diagnosable@);
    assert(!imports.contains(href)) by {
        if imports.contains(href) {
            let k = choose|k: int| 0 <= k < imports.len() && imports[k] == href;
            assert(documents.module_graph_imports@[k]@ == href);
        }
    }
    assert(!first.seen.contains(href));
    lemma_seen_stays(first, imports, href);
    lemma_document_is_listed(documents.diagnosable@, i);
    if href != documents.diagnosable@[i].specifier@ {
        let dependencies = documents.diagnosable@[i].dependencies@;
        let k = lemma_dependency_is_listed(dependencies, j);
        assert(hrefs.contains(dependency_specifiers(dependencies)[k]));
    }
    assert(hrefs.contains(href));
    lemma_known_are_told(add_imports(first, imports), hrefs, documents, href, resolved);
}

/// Only three sorts of modules are told: the types of Node, where they are injected, modules that all
/// others import, and modules that are known to exist.
pub proof fn law_nothing_else_is_told(documents: Documents, i: int)
    requires
        0 <= i < script_names(documents).names.len(),
    ensures
        ({
            let name = script_names(documents).names[i];
            ||| documents.injected_types_node_package && name == "asset:///node_types.d.ts"@
            ||| views::seq_view(documents.module_graph_imports@).contains(name)
            ||| views::seq_view(documents.existing@).contains(name)
        }),
{
    let imports = views::seq_view(documents.module_graph_imports@);
    let hrefs = document_specifiers(documents.diagnosable@);
    let first = first_names(documents);
    let second = add_imports(first, imports);
    let all = script_names(documents).names;
    lemma_names_stay(first, imports, documents);
    lemma_names_stay(second, hrefs, documents);
    if i < first.names.len() {
        assert(second.names.subrange(0, first.names.len() as int)[i] == second.names[i]);
        assert(all.subrange(0, second.names.len() as int)[i] == all[i]);
    } else if i < second.names.len() {
        lemma_only_imports(first, imports, i);
        assert(all.subrange(0, second.names.len() as int)[i] == all[i]);
    } else {
        lemma_only_existing(second, hrefs, documents, i);
    }
}

proof fn lemma_telling_keeps_read_names(
    map: specifier_map::SpecifierMapView,
    names: Seq<Seq<char>>,
    told: Seq<Seq<char>>,
)
    ensures
        after_telling(map, names, told).denormalized == map.denormalized,
    decreases names.len(),
{
    if names.len() > 0 {
        lemma_telling_keeps_read_names(map, names.drop_last(), told.drop_last());
    }
}

/// Every module is told once, in order, under the name that it would be given by itself; what is no URL
/// is told as it is.
pub proof fn law_modules_are_told_by_name(
    map: specifier_map::SpecifierMapView,
    names: Seq<Seq<char>>,
    told: Seq<Seq<char>>,
    i: int,
)
    requires
        may_tell(map, names, told),
        0 <= i < names.len(),
    ensures
        told.len() == names.len(),
        specifier::parsed_url(names[i]) is None ==> told[i] == names[i],
        specifier::parsed_url(names[i]) matches Some(href) ==> {
            &&& map.denormalized.contains_key(href) ==> told[i] == map.denormalized[href]
            &&& !map.denormalized.contains_key(href) ==> told[i] == href || told[i] == href
                + specifier::ts_extension(specifier::url_media_type(href))
            &&& !map.denormalized.contains_key(href) && specifier::is_portable_path(href)
                && specifier::path_media_type(href) == specifier::url_media_type(href) ==> told[i]
                == href
        },
{
    if let Some(href) = specifier::parsed_url(names[i]) {
        let before = after_telling(map, names.take(i), told.take(i));
        lemma_telling_keeps_read_names(map, names.take(i), told.take(i));
        assert(before.may_name(href, told[i]));
        specifier_map::law_specifiers_are_named_by_media_type(before, href, told[i]);
    } else {
        assert(told[i] == names[i]);
    }
}

/// Documents are looked at in their order, each before its dependencies; a dependency counts by its
/// types, or else by its code.
pub proof fn law_documents_are_looked_at_in_order(
    documents: Seq<DiagnosableDocument>,
    document: DiagnosableDocument,
    dependencies: Seq<Dependency>,
    dependency: Dependency,
)
    ensures
        document_specifiers(Seq::empty()).len() == 0,
        document_specifiers(documents.push(document)) == document_specifiers(documents) + seq![
            document.specifier@,
        ] + dependency_specifiers(document.dependencies@),
        dependency_specifiers(Seq::empty()).len() == 0,
        dependency.type_specifier matches Some(specifier) ==> dependency_specifiers(
            dependencies.push(dependency),
        ) == dependency_specifiers(dependencies).push(specifier@),
        dependency.type_specifier is None ==> (dependency.code_specifier matches Some(specifier)
            ==> dependency_specifiers(dependencies.push(dependency)) == dependency_specifiers(
            dependencies,
        ).push(specifier@)),
        dependency.type_specifier is None && dependency.code_specifier is None
            ==> dependency_specifiers(dependencies.push(dependency)) == dependency_specifiers(
            dependencies,
        ),
{
    assert(documents.push(document).drop_last() =~= documents);
    assert(dependencies.push(dependency).drop_last() =~= dependencies);
    assert(document_specifiers(documents.push(document)) =~= document_specifiers(documents) + seq![
        document.specifier@,
    ] + dependency_specifiers(document.dependencies@));
}

} // verus!
