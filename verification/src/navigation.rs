//! The navigation tree of a document, and what is found by navigating to it.

use std::sync::Arc;
use vstd::prelude::*;
use vstd::string::*;
use crate::element;
use crate::element::{contains_text, parse_kind_modifier, ScriptElementKind};
use crate::error::TscError;
use crate::language_server::Inner;
use crate::lsp;
use crate::lsp::{
    CodeLens, CodeLensSource, DocumentSymbol, Location, Range, SymbolInformation, SymbolKind,
    SymbolTag,
};
use crate::normalize;
use crate::normalize::{normalize_name, Named};
use crate::span;
use crate::span::{contains_range, intersects, TextSpan};
use crate::specifier;
use crate::specifier::ModuleSpecifier;
use crate::specifier_map::TscSpecifierMap;
use crate::strings::same_text;
use crate::sync::share;
use crate::text;
use crate::text::LineIndex;
use crate::views;

verus! {

/// A node of the navigation tree of a document.
#[derive(Debug)]
pub struct NavigationTree {
    pub text: String,
    pub kind: ScriptElementKind,
    pub kind_modifiers: String,
    pub spans: Vec<TextSpan>,
    pub name_span: Option<TextSpan>,
    pub child_items: Option<Vec<NavigationTree>>,
}

/// The nodes right below a node.
pub open spec fn children(tree: NavigationTree) -> Seq<NavigationTree> {
    match tree.child_items {
        Some(child_items) => child_items@,
        None => Seq::empty(),
    }
}

/// Every span in the tree ends at an offset that can be counted.
pub open spec fn tree_fits(tree: NavigationTree) -> bool
    decreases tree,
{
    &&& forall|i: int| 0 <= i < tree.spans@.len() ==> (#[trigger] tree.spans@[i]).fits()
    &&& tree.name_span matches Some(span) ==> span.fits()
    &&& match tree.child_items {
        Some(child_items) => forall|i: int|
            0 <= i < child_items@.len() ==> tree_fits(#[trigger] child_items@[i]),
        None => true,
    }
}

/// A node that is listed by itself, whatever is below it.
pub open spec fn is_entry(tree: NavigationTree) -> bool {
    tree.kind != ScriptElementKind::Alias && tree.text@.len() > 0 && tree.text@ != "<function>"@
        && tree.text@ != "<class>"@
}

/// One of the spans of a node meets a span.
pub open spec fn meets_any(span: TextSpan, spans: Seq<TextSpan>) -> bool {
    exists|i: int| 0 <= i < spans.len() && span::meets(span, #[trigger] spans[i])
}

/// The span that is selected for a node: its name, where that lies in the span listed.
pub open spec fn selection_span(tree: NavigationTree, span: TextSpan) -> TextSpan {
    match tree.name_span {
        Some(name_span) if span::holds(span, name_span) => name_span,
        _ => span,
    }
}

/// The name under which a node is listed.
pub open spec fn symbol_name(tree: NavigationTree) -> Seq<char> {
    match tree.kind {
        ScriptElementKind::MemberGetAccessorElement => "(get) "@ + tree.text@,
        ScriptElementKind::MemberSetAccessorElement => "(set) "@ + tree.text@,
        _ => tree.text@,
    }
}

/// The tags of a symbol with these modifiers.
pub open spec fn symbol_tags(kind_modifiers: Seq<char>) -> Option<Seq<SymbolTag>> {
    if element::has_modifier(kind_modifiers, "deprecated"@) {
        Some(seq![SymbolTag::Deprecated])
    } else {
        None
    }
}

/// The symbol for one span of a node, with the symbols inside it.
pub open spec fn symbol_for(
    tree: NavigationTree,
    span: TextSpan,
    inside: Seq<lsp::SymbolView>,
    lines: Seq<text::LineView>,
) -> lsp::SymbolView {
    lsp::SymbolView {
        name: symbol_name(tree),
        detail: None,
        kind: element::symbol_kind(tree.kind),
        tags: symbol_tags(tree.kind_modifiers@),
        range: span::range_of(span, lines),
        selection_range: span::range_of(selection_span(tree, span), lines),
        children: if inside.len() > 0 {
            Some(inside)
        } else {
            None
        },
    }
}

/// Symbols that were collected, and whether anything was listed.
pub struct Collected {
    pub symbols: Seq<lsp::SymbolView>,
    pub included: bool,
}

/// The symbols of a node: nothing where it is no entry and nothing is below it, else one for each
/// of its spans once the node or something below it is to be listed.
pub open spec fn collected(tree: NavigationTree, lines: Seq<text::LineView>) -> Collected
    decreases tree, 2int, 0nat,
{
    if !is_entry(tree) && children(tree).len() == 0 {
        Collected { symbols: Seq::empty(), included: false }
    } else {
        collected_spans(tree, lines, tree.spans@.len())
    }
}

/// The symbols for the first spans of a node.
pub open spec fn collected_spans(
    tree: NavigationTree,
    lines: Seq<text::LineView>,
    n: nat,
) -> Collected
    decreases tree, 1int, n,
{
    if n == 0 {
        Collected { symbols: Seq::empty(), included: is_entry(tree) }
    } else {
        let before = collected_spans(tree, lines, (n - 1) as nat);
        let span = tree.spans@[n - 1];
        let inside = collected_children(tree, lines, span, children(tree).len());
        let included = before.included || inside.included;
        Collected {
            symbols: if included {
                before.symbols.push(symbol_for(tree, span, inside.symbols, lines))
            } else {
                before.symbols
            },
            included,
        }
    }
}

/// The symbols of the first children of a node, as far as they meet a span.
pub open spec fn collected_children(
    tree: NavigationTree,
    lines: Seq<text::LineView>,
    span: TextSpan,
    n: nat,
) -> Collected
    decreases tree, 0int, n,
{
    if n == 0 || n > children(tree).len() {
        Collected { symbols: Seq::empty(), included: false }
    } else {
        let before = collected_children(tree, lines, span, (n - 1) as nat);
        match tree.child_items {
            Some(child_items) => {
                let child = child_items@[n - 1];
                if meets_any(span, child.spans@) {
                    let inside = collected(child, lines);
                    Collected {
                        symbols: before.symbols + inside.symbols,
                        included: before.included || inside.included,
                    }
                } else {
                    before
                }
            },
            None => before,
        }
    }
}

/// Whether one of the spans of a node meets a span.
fn any_meets(span: TextSpan, spans: &Vec<TextSpan>) -> (r: bool)
    requires
        span.fits(),
        forall|i: int| 0 <= i < spans@.len() ==> (#[trigger] spans@[i]).fits(),
    ensures
        r == meets_any(span, spans@),
{
    let mut i: usize = 0;
    while i < spans.len()
        invariant
            i <= spans@.len(),
            span.fits(),
            forall|j: int| 0 <= j < spans@.len() ==> (#[trigger] spans@[j]).fits(),
            forall|j: int| 0 <= j < i ==> !span::meets(span, #[trigger] spans@[j]),
        decreases spans.len() - i,
    {
        if intersects(span, spans[i]) {
            return true;
        }
        i = i + 1;
    }
    false
}

/// The tags of a symbol with these modifiers.
pub(crate) fn tags_of(kind_modifiers: &str) -> (r: Option<Vec<SymbolTag>>)
    ensures
        lsp::opt_items(r) == symbol_tags(kind_modifiers@),
{
    let kind_modifiers = parse_kind_modifier(kind_modifiers);
    if contains_text(&kind_modifiers, "deprecated") {
        let mut tags: Vec<SymbolTag> = Vec::new();
        tags.push(SymbolTag::Deprecated);
        assert(tags@ =~= seq![SymbolTag::Deprecated]);
        Some(tags)
    } else {
        None
    }
}

impl NavigationTree {
    /// The range of the node for a code lens: that of its name, or of its first span, or none.
    pub open spec fn lens_range(self, lines: Seq<text::LineView>) -> Range {
        match self.name_span {
            Some(name_span) => span::range_of(name_span, lines),
            None => if self.spans@.len() > 0 {
                span::range_of(self.spans@[0], lines)
            } else {
                Range {
                    start: lsp::Position { line: 0, character: 0 },
                    end: lsp::Position { line: 0, character: 0 },
                }
            },
        }
    }

    /// The code lens for the node.
    pub fn to_code_lens(
        &self,
        line_index: Arc<LineIndex>,
        specifier: &ModuleSpecifier,
        source: &CodeLensSource,
    ) -> (r: CodeLens)
        requires
            self.name_span matches Some(name_span) ==> name_span.fits(),
            self.name_span is None && self.spans@.len() > 0 ==> self.spans@[0].fits(),
        ensures
            r.range == self.lens_range(line_index@),
            self.name_span matches Some(named) ==> r.range.start == text::position_at(
                line_index@,
                named.start as nat,
            ) && r.range.end == text::position_at(
                line_index@,
                (named.start + named.length) as nat,
            ),
            self.name_span is None && self.spans@.len() > 0 ==> r.range.start
                == text::position_at(line_index@, self.spans@[0].start as nat) && r.range.end
                == text::position_at(
                line_index@,
                (self.spans@[0].start + self.spans@[0].length) as nat,
            ),
            self.name_span is None && self.spans@.len() == 0 ==> r.range.start.line == 0
                && r.range.start.character == 0 && r.range.end == r.range.start,
            r.specifier@ == specifier@,
            r.source == *source,
    {
        let range = match &self.name_span {
            Some(name_span) => name_span.to_range(line_index),
            None => if self.spans.len() > 0 {
                self.spans[0].to_range(line_index)
            } else {
                Range::default()
            },
        };
        CodeLens { range, specifier: specifier.clone(), source: *source }
    }

    /// Whether the node is listed by itself, whatever is below it.
    fn should_include_entry(&self) -> (r: bool)
        ensures
            r == is_entry(*self),
            r == !(self.kind == ScriptElementKind::Alias || self.text@.len() == 0 || self.text@
                == "<function>"@ || self.text@ == "<class>"@),
    {
        if self.kind == ScriptElementKind::Alias {
            return false;
        }
        let text = self.text.as_str();
        !text.is_empty() && !same_text(text, "<function>") && !same_text(text, "<class>")
    }

    /// The symbol for one span of the node, with the symbols inside it.
    fn symbol(
        &self,
        span: TextSpan,
        inside: Vec<DocumentSymbol>,
        line_index: Arc<LineIndex>,
    ) -> (r: DocumentSymbol)
        requires
            span.fits(),
            self.name_span matches Some(name_span) ==> name_span.fits(),
        ensures
            lsp::symbol_view(r) == symbol_for(
                *self,
                span,
                lsp::symbols_view(inside@),
                line_index@,
            ),
    {
        let mut selection_span = span;
        if let Some(name_span) = self.name_span {
            if contains_range(span, name_span) {
                selection_span = name_span;
            }
        }
        let name = if self.kind == ScriptElementKind::MemberGetAccessorElement {
            let mut name = "(get) ".to_owned();
            name.append(self.text.as_str());
            name
        } else if self.kind == ScriptElementKind::MemberSetAccessorElement {
            let mut name = "(set) ".to_owned();
            name.append(self.text.as_str());
            name
        } else {
            self.text.clone()
        };
        proof {
            lsp::lemma_symbols_len(inside@);
        }
        let children = if inside.len() > 0 {
            Some(inside)
        } else {
            None
        };
        DocumentSymbol {
            name,
            detail: None,
            kind: SymbolKind::from(self.kind),
            tags: tags_of(self.kind_modifiers.as_str()),
            range: span.to_range(share(&line_index)),
            selection_range: selection_span.to_range(line_index),
            children,
        }
    }

    /// Adds the symbols of the node to a list, and tells whether anything was listed.
    pub fn collect_document_symbols(
        &self,
        line_index: Arc<LineIndex>,
        document_symbols: &mut Vec<DocumentSymbol>,
    ) -> (r: bool)
        requires
            tree_fits(*self),
        ensures
            lsp::symbols_view(final(document_symbols)@) == lsp::symbols_view(
                old(document_symbols)@,
            ) + collected(*self, line_index@).symbols,
            r == collected(*self, line_index@).included,
            self.kind != ScriptElementKind::Alias && self.text@.len() > 0 && self.text@
                != "<function>"@ && self.text@ != "<class>"@ ==> r
                && final(document_symbols)@.len() == old(document_symbols)@.len()
                + self.spans@.len(),
        decreases *self,
    {
        let mut should_include = self.should_include_entry();
        let child_count: usize = match &self.child_items {
            Some(child_items) => child_items.len(),
            None => 0,
        };
        if !should_include && child_count == 0 {
            return false;
        }
        let ghost lines = line_index@;
        let ghost start = lsp::symbols_view(document_symbols@);
        let mut i: usize = 0;
        while i < self.spans.len()
            invariant
                i <= self.spans@.len(),
                tree_fits(*self),
                lines == line_index@,
                start == lsp::symbols_view(old(document_symbols)@),
                child_count == children(*self).len(),
                should_include == collected_spans(*self, lines, i as nat).included,
                lsp::symbols_view(document_symbols@) == start + collected_spans(
                    *self,
                    lines,
                    i as nat,
                ).symbols,
            decreases self.spans.len() - i,
        {
            let span = self.spans[i];
            let mut symbol_children: Vec<DocumentSymbol> = Vec::new();
            let ghost before = should_include;
            if let Some(child_items) = &self.child_items {
                let mut j: usize = 0;
                while j < child_items.len()
                    invariant
                        j <= child_items@.len(),
                        self.child_items == Some(*child_items),
                        tree_fits(*self),
                        span.fits(),
                        lines == line_index@,
                        should_include == (before || collected_children(
                            *self,
                            lines,
                            span,
                            j as nat,
                        ).included),
                        lsp::symbols_view(symbol_children@) == collected_children(
                            *self,
                            lines,
                            span,
                            j as nat,
                        ).symbols,
                    decreases child_items.len() - j,
                {
                    let child = &child_items[j];
                    assert(tree_fits(*child));
                    if any_meets(span, &child.spans) {
                        assert(decreases_to!(*self => child_items@[j as int]));
                        let included_child = child.collect_document_symbols(
                            share(&line_index),
                            &mut symbol_children,
                        );
                        should_include = should_include || included_child;
                    }
                    j = j + 1;
                }
            }
            let ghost inside = collected_children(*self, lines, span, children(*self).len());
            assert(lsp::symbols_view(symbol_children@) == inside.symbols);
            assert(should_include == (before || inside.included));
            if should_include {
                let symbol = self.symbol(span, symbol_children, share(&line_index));
                proof {
                    lsp::lemma_push_symbol(document_symbols@, symbol);
                }
                document_symbols.push(symbol);
            }
            proof {
                let after = collected_spans(*self, lines, (i + 1) as nat);
                assert(after.included == should_include);
                assert(lsp::symbols_view(document_symbols@) =~= start + after.symbols);
            }
            i = i + 1;
        }
        proof {
            lsp::lemma_symbols_len(document_symbols@);
            lsp::lemma_symbols_len(old(document_symbols)@);
            if is_entry(*self) {
                lemma_entry_is_listed(*self, lines, self.spans@.len());
            }
        }
        should_include
    }
}

/// The nodes of a tree, each before those below it, with the node right above each.
pub open spec fn visits<'a>(tree: &'a NavigationTree, parent: Option<&'a NavigationTree>) -> Seq<
    (&'a NavigationTree, Option<&'a NavigationTree>),
>
    decreases *tree, 1int, 0nat,
{
    seq![(tree, parent)] + visits_below(tree, children(*tree).len())
}

/// The nodes of the first subtrees right below a node.
pub open spec fn visits_below<'a>(tree: &'a NavigationTree, n: nat) -> Seq<
    (&'a NavigationTree, Option<&'a NavigationTree>),
>
    decreases *tree, 0int, n,
{
    if n == 0 || n > children(*tree).len() {
        Seq::empty()
    } else {
        match tree.child_items {
            Some(child_items) => visits_below(tree, (n - 1) as nat) + visits(
                &child_items@[n - 1],
                Some(tree),
            ),
            None => Seq::empty(),
        }
    }
}

impl NavigationTree {
    /// The node, below the given one, and every node below it, in the order in which they are walked.
    pub fn visit_list<'a>(&'a self, parent: Option<&'a NavigationTree>) -> (r: Vec<
        (&'a NavigationTree, Option<&'a NavigationTree>),
    >)
        ensures
            r@ == visits(self, parent),
        decreases *self,
    {
        let mut list: Vec<(&'a NavigationTree, Option<&'a NavigationTree>)> = Vec::new();
        list.push((self, parent));
        assert(list@ =~= seq![(self, parent)] + visits_below(self, 0));
        if let Some(child_items) = &self.child_items {
            let mut n: usize = 0;
            while n < child_items.len()
                invariant
                    n <= child_items@.len(),
                    self.child_items == Some(*child_items),
                    list@ == seq![(self, parent)] + visits_below(self, n as nat),
                decreases child_items.len() - n,
            {
                assert(decreases_to!(*self => child_items@[n as int]));
                let mut below = child_items[n].visit_list(Some(self));
                let ghost here = below@;
                list.append(&mut below);
                assert(list@ =~= seq![(self, parent)] + (visits_below(self, n as nat) + here));
                n = n + 1;
            }
        }
        list
    }

    /// Calls back with the node and every node below it, each with the node right above it: once for
    /// each of the visits of [`NavigationTree::visit_list`], in that order.
    pub fn walk<F>(&self, callback: &F) where F: Fn(&NavigationTree, Option<&NavigationTree>)
        requires
            forall|i: int|
                0 <= i < visits(self, None).len() ==> call_requires(
                    *callback,
                    #[trigger] visits(self, None)[i],
                ),
        ensures
            forall|i: int|
                0 <= i < visits(self, None).len() ==> call_ensures(
                    *callback,
                    #[trigger] visits(self, None)[i],
                    (),
                ),
    {
        let list = self.visit_list(None);
        let mut i: usize = 0;
        while i < list.len()
            invariant
                i <= list@.len(),
                list@ == visits(self, None),
                forall|j: int| 0 <= j < list@.len() ==> call_requires(*callback, #[trigger] list@[j]),
                forall|j: int|
                    0 <= j < i ==> call_ensures(*callback, #[trigger] list@[j], ()),
            decreases list.len() - i,
        {
            let (node, parent) = list[i];
            assert(list@[i as int] == (node, parent));
            callback(node, parent);
            i = i + 1;
        }
    }
}

/// Where nothing is to be listed, no symbol is.
pub proof fn law_no_symbols_unless_included(tree: NavigationTree, lines: Seq<text::LineView>)
    requires
        !collected(tree, lines).included,
    ensures
        collected(tree, lines).symbols.len() == 0,
{
    if is_entry(tree) || children(tree).len() > 0 {
        lemma_no_symbols_unless_included(tree, lines, tree.spans@.len());
    }
}

proof fn lemma_no_symbols_unless_included(
    tree: NavigationTree,
    lines: Seq<text::LineView>,
    n: nat,
)
    requires
        !collected_spans(tree, lines, n).included,
    ensures
        collected_spans(tree, lines, n).symbols.len() == 0,
    decreases n,
{
    if n > 0 {
        lemma_no_symbols_unless_included(tree, lines, (n - 1) as nat);
    }
}

/// A node that has a name and is no alias is listed once for each of its spans, in their order: under
/// its name, behind a mark where it is an accessor, at the place of the span, and with its name
/// selected where that lies in the span. A node is taken to have no name where its text is empty or
/// stands for a function or class without one.
pub proof fn law_entry_is_listed_for_each_span(tree: NavigationTree, lines: Seq<text::LineView>)
    requires
        tree.kind != ScriptElementKind::Alias,
        tree.text@.len() > 0,
        tree.text@ != "<function>"@,
        tree.text@ != "<class>"@,
    ensures
        collected(tree, lines).included,
        collected(tree, lines).symbols.len() == tree.spans@.len(),
        forall|i: int|
            0 <= i < tree.spans@.len() ==> {
                let symbol = #[trigger] collected(tree, lines).symbols[i];
                let listed = tree.spans@[i];
                let selected = match tree.name_span {
                    Some(named) => if listed.start <= named.start && named.start + named.length
                        <= listed.start + listed.length {
                        named
                    } else {
                        listed
                    },
                    None => listed,
                };
                &&& tree.kind == ScriptElementKind::MemberGetAccessorElement ==> symbol.name
                    == "(get) "@ + tree.text@
                &&& tree.kind == ScriptElementKind::MemberSetAccessorElement ==> symbol.name
                    == "(set) "@ + tree.text@
                &&& tree.kind != ScriptElementKind::MemberGetAccessorElement && tree.kind
                    != ScriptElementKind::MemberSetAccessorElement ==> symbol.name == tree.text@
                &&& symbol.detail is None
                &&& symbol.kind == element::symbol_kind(tree.kind)
                &&& symbol.tags == Some(seq![SymbolTag::Deprecated]) <==> element::has_modifier(
                    tree.kind_modifiers@,
                    "deprecated"@,
                )
                &&& symbol.tags is None <==> !element::has_modifier(
                    tree.kind_modifiers@,
                    "deprecated"@,
                )
                &&& symbol.range.start == text::position_at(lines, listed.start as nat)
                &&& symbol.range.end == text::position_at(
                    lines,
                    (listed.start + listed.length) as nat,
                )
                &&& symbol.selection_range.start == text::position_at(
                    lines,
                    selected.start as nat,
                )
                &&& symbol.selection_range.end == text::position_at(
                    lines,
                    (selected.start + selected.length) as nat,
                )
                &&& symbol.children matches Some(below) ==> below.len() > 0
            },
{
    lemma_entry_is_listed(tree, lines, tree.spans@.len());
}

proof fn lemma_entry_is_listed(tree: NavigationTree, lines: Seq<text::LineView>, n: nat)
    requires
        is_entry(tree),
        n <= tree.spans@.len(),
    ensures
        collected_spans(tree, lines, n).included,
        collected_spans(tree, lines, n).symbols.len() == n,
        forall|i: int|
            0 <= i < n ==> #[trigger] collected_spans(tree, lines, n).symbols[i] == symbol_for(
                tree,
                tree.spans@[i],
                collected_children(tree, lines, tree.spans@[i], children(tree).len()).symbols,
                lines,
            ),
    decreases n,
{
    if n > 0 {
        lemma_entry_is_listed(tree, lines, (n - 1) as nat);
    }
}

/// Every symbol of a node is for one of its spans, also where the node is listed only for what is below
/// it: it has the name, the kind and the tags of the node, and the place of the span.
pub proof fn law_symbols_are_of_the_node(tree: NavigationTree, lines: Seq<text::LineView>, k: int)
    requires
        0 <= k < collected(tree, lines).symbols.len(),
    ensures
        ({
            let symbol = collected(tree, lines).symbols[k];
            &&& tree.kind == ScriptElementKind::MemberGetAccessorElement ==> symbol.name
                == "(get) "@ + tree.text@
            &&& tree.kind == ScriptElementKind::MemberSetAccessorElement ==> symbol.name
                == "(set) "@ + tree.text@
            &&& tree.kind != ScriptElementKind::MemberGetAccessorElement && tree.kind
                != ScriptElementKind::MemberSetAccessorElement ==> symbol.name == tree.text@
            &&& symbol.kind == element::symbol_kind(tree.kind)
            &&& symbol.tags is Some <==> element::has_modifier(
                tree.kind_modifiers@,
                "deprecated"@,
            )
            &&& exists|i: int|
                {
                    &&& 0 <= i < tree.spans@.len()
                    &&& symbol.range.start == text::position_at(
                        lines,
                        (#[trigger] tree.spans@[i]).start as nat,
                    )
                    &&& symbol.range.end == text::position_at(
                        lines,
                        (tree.spans@[i].start + tree.spans@[i].length) as nat,
                    )
                }
        }),
{
    let i = lemma_symbol_is_for_span(tree, lines, tree.spans@.len(), k);
    assert(span::range_of(tree.spans@[i], lines) == collected(tree, lines).symbols[k].range);
}

proof fn lemma_symbol_is_for_span(
    tree: NavigationTree,
    lines: Seq<text::LineView>,
    n: nat,
    k: int,
) -> (i: int)
    requires
        0 <= k < collected_spans(tree, lines, n).symbols.len(),
    ensures
        0 <= i < n,
        collected_spans(tree, lines, n).symbols[k] == symbol_for(
            tree,
            tree.spans@[i],
            collected_children(tree, lines, tree.spans@[i], children(tree).len()).symbols,
            lines,
        ),
    decreases n,
{
    let before = collected_spans(tree, lines, (n - 1) as nat);
    if k < before.symbols.len() {
        lemma_symbol_is_for_span(tree, lines, (n - 1) as nat, k)
    } else {
        n - 1
    }
}

/// A node that has no name or is an alias is listed only for what is below it: a child that meets one of
/// its spans and is listed itself.
pub proof fn law_nameless_nodes_are_listed_for_children(
    tree: NavigationTree,
    lines: Seq<text::LineView>,
)
    requires
        tree.kind == ScriptElementKind::Alias || tree.text@.len() == 0 || tree.text@
            == "<function>"@ || tree.text@ == "<class>"@,
        collected(tree, lines).included,
    ensures
        exists|i: int, j: int|
            {
                &&& 0 <= i < tree.spans@.len()
                &&& 0 <= j < children(tree).len()
                &&& meets_any(#[trigger] tree.spans@[i], (#[trigger] children(tree)[j]).spans@)
                &&& collected(children(tree)[j], lines).included
            },
{
    let (i, j) = lemma_listed_for_child(tree, lines, tree.spans@.len());
    assert(meets_any(tree.spans@[i], children(tree)[j].spans@));
}

proof fn lemma_listed_for_child(tree: NavigationTree, lines: Seq<text::LineView>, n: nat) -> (r: (
    int,
    int,
))
    requires
        !is_entry(tree),
        n <= tree.spans@.len(),
        collected_spans(tree, lines, n).included,
    ensures
        0 <= r.0 < n,
        0 <= r.1 < children(tree).len(),
        meets_any(tree.spans@[r.0], children(tree)[r.1].spans@),
        collected(children(tree)[r.1], lines).included,
    decreases n,
{
    let before = collected_spans(tree, lines, (n - 1) as nat);
    if n > 0 && before.included {
        lemma_listed_for_child(tree, lines, (n - 1) as nat)
    } else {
        let j = lemma_listed_child(tree, lines, tree.spans@[n - 1], children(tree).len());
        (n - 1, j)
    }
}

proof fn lemma_listed_child(
    tree: NavigationTree,
    lines: Seq<text::LineView>,
    span: TextSpan,
    n: nat,
) -> (j: int)
    requires
        n <= children(tree).len(),
        collected_children(tree, lines, span, n).included,
    ensures
        0 <= j < n,
        meets_any(span, children(tree)[j].spans@),
        collected(children(tree)[j], lines).included,
    decreases n,
{
    let before = collected_children(tree, lines, span, (n - 1) as nat);
    if before.included {
        lemma_listed_child(tree, lines, span, (n - 1) as nat)
    } else {
        n - 1
    }
}

/// A node with nothing below it is not listed where it is an alias or has no name.
pub proof fn law_nameless_leaves_are_not_listed(tree: NavigationTree, lines: Seq<text::LineView>)
    requires
        tree.kind == ScriptElementKind::Alias || tree.text@.len() == 0 || tree.text@
            == "<function>"@ || tree.text@ == "<class>"@,
        tree.child_items is None || tree.child_items->0@.len() == 0,
    ensures
        !collected(tree, lines).included,
        collected(tree, lines).symbols.len() == 0,
{
}

/// What is listed below a child that meets a span of a node is listed inside that span.
proof fn lemma_child_is_inside(
    tree: NavigationTree,
    lines: Seq<text::LineView>,
    span: TextSpan,
    n: nat,
    j: int,
)
    requires
        0 <= j < n <= children(tree).len(),
        meets_any(span, children(tree)[j].spans@),
    ensures
        collected(children(tree)[j], lines).included ==> collected_children(
            tree,
            lines,
            span,
            n,
        ).included,
        forall|k: int|
            0 <= k < collected(children(tree)[j], lines).symbols.len()
                ==> collected_children(tree, lines, span, n).symbols.contains(
                #[trigger] collected(children(tree)[j], lines).symbols[k],
            ),
    decreases n,
{
    let before = collected_children(tree, lines, span, (n - 1) as nat);
    let after = collected_children(tree, lines, span, n);
    let child = collected(children(tree)[j], lines);
    if j < n - 1 {
        lemma_child_is_inside(tree, lines, span, (n - 1) as nat, j);
        assert forall|k: int| 0 <= k < child.symbols.len() implies after.symbols.contains(
            #[trigger] child.symbols[k],
        ) by {
            assert(before.symbols.contains(child.symbols[k]));
            let at = choose|at: int|
                0 <= at < before.symbols.len() && before.symbols[at] == child.symbols[k];
            assert(after.symbols[at] == child.symbols[k]);
        }
    } else {
        assert forall|k: int| 0 <= k < child.symbols.len() implies after.symbols.contains(
            #[trigger] child.symbols[k],
        ) by {
            assert(after.symbols[before.symbols.len() + k] == child.symbols[k]);
        }
    }
}

/// What is listed inside a span of a node is listed for a child that meets the span.
proof fn lemma_inside_is_of_child(
    tree: NavigationTree,
    lines: Seq<text::LineView>,
    span: TextSpan,
    n: nat,
    k: int,
) -> (j: int)
    requires
        n <= children(tree).len(),
        0 <= k < collected_children(tree, lines, span, n).symbols.len(),
    ensures
        0 <= j < n,
        meets_any(span, children(tree)[j].spans@),
        collected(children(tree)[j], lines).symbols.contains(
            collected_children(tree, lines, span, n).symbols[k],
        ),
    decreases n,
{
    let before = collected_children(tree, lines, span, (n - 1) as nat);
    let after = collected_children(tree, lines, span, n);
    if k < before.symbols.len() {
        assert(after.symbols[k] == before.symbols[k]);
        lemma_inside_is_of_child(tree, lines, span, (n - 1) as nat, k)
    } else {
        assert(after.symbols[k] == collected(children(tree)[n - 1], lines).symbols[k
            - before.symbols.len()]);
        n - 1
    }
}

/// Inside the symbol for a span of a listed node stand the symbols of its children that meet the span.
/// Two spans meet where neither begins after the end of the other.
pub proof fn law_children_are_listed_inside(
    tree: NavigationTree,
    lines: Seq<text::LineView>,
    i: int,
    j: int,
)
    requires
        tree.kind != ScriptElementKind::Alias,
        tree.text@.len() > 0,
        tree.text@ != "<function>"@,
        tree.text@ != "<class>"@,
        0 <= i < tree.spans@.len(),
        tree.child_items matches Some(below) && 0 <= j < below@.len(),
    ensures
        ({
            let below = tree.child_items->0@;
            let inside = collected(tree, lines).symbols[i].children;
            (exists|k: int|
                0 <= k < below[j].spans@.len() && {
                    let spot = #[trigger] below[j].spans@[k];
                    &&& tree.spans@[i].start <= spot.start + spot.length
                    &&& spot.start <= tree.spans@[i].start + tree.spans@[i].length
                }) ==> forall|k: int|
                0 <= k < collected(below[j], lines).symbols.len() ==> inside is Some
                    && inside->0.contains(#[trigger] collected(below[j], lines).symbols[k])
        }),
{
    let below = tree.child_items->0@;
    let span = tree.spans@[i];
    lemma_entry_is_listed(tree, lines, tree.spans@.len());
    if exists|k: int|
        0 <= k < below[j].spans@.len() && {
            let spot = #[trigger] below[j].spans@[k];
            &&& tree.spans@[i].start <= spot.start + spot.length
            &&& spot.start <= tree.spans@[i].start + tree.spans@[i].length
        } {
        let k = choose|k: int|
            0 <= k < below[j].spans@.len() && {
                let spot = #[trigger] below[j].spans@[k];
                &&& tree.spans@[i].start <= spot.start + spot.length
                &&& spot.start <= tree.spans@[i].start + tree.spans@[i].length
            };
        assert(span::meets(span, below[j].spans@[k]));
        lemma_child_is_inside(tree, lines, span, children(tree).len(), j);
        let inside = collected_children(tree, lines, span, children(tree).len()).symbols;
        assert(collected(tree, lines).symbols[i] == symbol_for(tree, span, inside, lines));
        let child = collected(below[j], lines).symbols;
        assert(child == collected(children(tree)[j], lines).symbols);
        assert forall|k: int| 0 <= k < child.len() implies inside.contains(#[trigger] child[k]) by {
            assert(inside.contains(collected(children(tree)[j], lines).symbols[k]));
        }
        if child.len() > 0 {
            assert(inside.contains(child[0]));
        }
    }
}

/// Whatever stands inside the symbol for a span of a listed node is a symbol of a child that meets the
/// span.
pub proof fn law_only_children_are_listed_inside(
    tree: NavigationTree,
    lines: Seq<text::LineView>,
    i: int,
    k: int,
)
    requires
        tree.kind != ScriptElementKind::Alias,
        tree.text@.len() > 0,
        tree.text@ != "<function>"@,
        tree.text@ != "<class>"@,
        0 <= i < tree.spans@.len(),
        collected(tree, lines).symbols[i].children matches Some(inside) && 0 <= k < inside.len(),
    ensures
        tree.child_items matches Some(below) && exists|c: int|
            {
                &&& 0 <= c < below@.len()
                &&& meets_any(tree.spans@[i], (#[trigger] below@[c]).spans@)
                &&& collected(below@[c], lines).symbols.contains(
                    collected(tree, lines).symbols[i].children->0[k],
                )
            },
{
    lemma_entry_is_listed(tree, lines, tree.spans@.len());
    let c = lemma_inside_is_of_child(tree, lines, tree.spans@[i], children(tree).len(), k);
    assert(meets_any(tree.spans@[i], tree.child_items->0@[c].spans@));
}

proof fn lemma_child_symbols_at(
    tree: NavigationTree,
    lines: Seq<text::LineView>,
    span: TextSpan,
    n: nat,
    j: int,
)
    requires
        0 <= j < n <= children(tree).len(),
        meets_any(span, children(tree)[j].spans@),
    ensures
        ({
            let from = collected_children(tree, lines, span, j as nat).symbols.len() as int;
            let to = collected_children(tree, lines, span, (j + 1) as nat).symbols.len() as int;
            let all = collected_children(tree, lines, span, n).symbols;
            &&& from <= to <= all.len()
            &&& all.subrange(from, to) == collected(children(tree)[j], lines).symbols
        }),
    decreases n,
{
    let before = collected_children(tree, lines, span, (n - 1) as nat).symbols;
    let all = collected_children(tree, lines, span, n).symbols;
    let from = collected_children(tree, lines, span, j as nat).symbols.len() as int;
    let to = collected_children(tree, lines, span, (j + 1) as nat).symbols.len() as int;
    if j < n - 1 {
        lemma_child_symbols_at(tree, lines, span, (n - 1) as nat, j);
        assert(all.subrange(from, to) =~= before.subrange(from, to));
    } else {
        assert(all.subrange(from, to) =~= collected(children(tree)[j], lines).symbols);
    }
}

proof fn lemma_children_grow(
    tree: NavigationTree,
    lines: Seq<text::LineView>,
    span: TextSpan,
    n: nat,
    m: nat,
)
    requires
        n <= m <= children(tree).len(),
    ensures
        collected_children(tree, lines, span, n).symbols.len() <= collected_children(
            tree,
            lines,
            span,
            m,
        ).symbols.len(),
    decreases m,
{
    if n < m {
        lemma_children_grow(tree, lines, span, n, (m - 1) as nat);
    }
}

/// Of two children that meet a span of a listed node, the symbols of the first stand inside it before
/// those of the second, each in their order.
pub proof fn law_children_are_listed_in_order(
    tree: NavigationTree,
    lines: Seq<text::LineView>,
    i: int,
    j: int,
    k: int,
)
    requires
        tree.kind != ScriptElementKind::Alias,
        tree.text@.len() > 0,
        tree.text@ != "<function>"@,
        tree.text@ != "<class>"@,
        0 <= i < tree.spans@.len(),
        tree.child_items matches Some(below) && 0 <= j < k < below@.len() && meets_any(
            tree.spans@[i],
            below@[j].spans@,
        ) && meets_any(tree.spans@[i], below@[k].spans@),
        collected(tree, lines).symbols[i].children is Some,
    ensures
        ({
            let inside = collected(tree, lines).symbols[i].children->0;
            let first = collected(tree.child_items->0@[j], lines).symbols;
            let second = collected(tree.child_items->0@[k], lines).symbols;
            exists|a: int, b: int, c: int, d: int|
                {
                    &&& 0 <= a <= b <= c <= d <= inside.len()
                    &&& #[trigger] inside.subrange(a, b) == first
                    &&& #[trigger] inside.subrange(c, d) == second
                }
        }),
{
    let span = tree.spans@[i];
    let n = children(tree).len();
    lemma_entry_is_listed(tree, lines, tree.spans@.len());
    lemma_child_symbols_at(tree, lines, span, n, j);
    lemma_child_symbols_at(tree, lines, span, n, k);
    lemma_children_grow(tree, lines, span, (j + 1) as nat, k as nat);
    let inside = collected_children(tree, lines, span, n).symbols;
    let first = collected(tree.child_items->0@[j], lines).symbols;
    let second = collected(tree.child_items->0@[k], lines).symbols;
    let a = collected_children(tree, lines, span, j as nat).symbols.len() as int;
    let b = collected_children(tree, lines, span, (j + 1) as nat).symbols.len() as int;
    let c = collected_children(tree, lines, span, k as nat).symbols.len() as int;
    let d = collected_children(tree, lines, span, (k + 1) as nat).symbols.len() as int;
    assert(collected(tree, lines).symbols[i] == symbol_for(tree, span, inside, lines));
    let shown = collected(tree, lines).symbols[i].children->0;
    assert(shown == inside);
    assert(0 <= a <= b <= c <= d <= shown.len());
    assert(shown.subrange(a, b) == first);
    assert(shown.subrange(c, d) == second);
}

/// A node is listed, whatever it is itself, where a child that meets one of its spans is.
pub proof fn law_parents_of_listed_nodes_are_listed(
    tree: NavigationTree,
    lines: Seq<text::LineView>,
    i: int,
    j: int,
)
    requires
        0 <= i < tree.spans@.len(),
        tree.child_items matches Some(below) && 0 <= j < below@.len() && meets_any(
            tree.spans@[i],
            below@[j].spans@,
        ) && collected(below@[j], lines).included,
    ensures
        collected(tree, lines).included,
        collected(tree, lines).symbols.len() > 0,
{
    lemma_child_is_inside(tree, lines, tree.spans@[i], children(tree).len(), j);
    lemma_included_stays(tree, lines, (i + 1) as nat, tree.spans@.len());
}

proof fn lemma_included_stays(tree: NavigationTree, lines: Seq<text::LineView>, n: nat, m: nat)
    requires
        n <= m,
        collected_spans(tree, lines, n).included,
    ensures
        collected_spans(tree, lines, m).included,
        collected_spans(tree, lines, n).symbols.len() <= collected_spans(
            tree,
            lines,
            m,
        ).symbols.len(),
    decreases m,
{
    if n < m {
        lemma_included_stays(tree, lines, n, (m - 1) as nat);
    }
}

/// How many nodes a tree has.
pub open spec fn node_count(tree: NavigationTree) -> nat
    decreases tree, 1int, 0nat,
{
    1 + node_count_below(tree, children(tree).len())
}

/// How many nodes the first subtrees right below a node have.
pub open spec fn node_count_below(tree: NavigationTree, n: nat) -> nat
    decreases tree, 0int, n,
{
    if n == 0 || n > children(tree).len() {
        0
    } else {
        match tree.child_items {
            Some(child_items) => node_count_below(tree, (n - 1) as nat) + node_count(
                child_items@[n - 1],
            ),
            None => 0,
        }
    }
}

proof fn lemma_visit_count<'a>(tree: &'a NavigationTree, parent: Option<&'a NavigationTree>)
    ensures
        visits(tree, parent).len() == node_count(*tree),
    decreases *tree, 1int, 0nat,
{
    lemma_visit_count_below(tree, children(*tree).len());
}

proof fn lemma_visit_count_below(tree: &NavigationTree, n: nat)
    ensures
        visits_below(tree, n).len() == node_count_below(*tree, n),
    decreases *tree, 0int, n,
{
    if 0 < n <= children(*tree).len() {
        lemma_visit_count_below(tree, (n - 1) as nat);
        match tree.child_items {
            Some(child_items) => {
                assert(decreases_to!(*tree => child_items@[n - 1]));
                lemma_visit_count(&child_items@[n - 1], Some(tree));
            },
            None => {},
        }
    }
}

proof fn lemma_visits_of_child(tree: &NavigationTree, n: nat, j: int)
    requires
        0 <= j < n <= children(*tree).len(),
    ensures
        ({
            let below = visits(&tree.child_items->0@[j], Some(tree));
            let from = visits_below(tree, j as nat).len() as int;
            let all = visits_below(tree, n);
            &&& from + below.len() <= all.len()
            &&& all.subrange(from, from + below.len()) == below
        }),
    decreases n,
{
    let below = visits(&tree.child_items->0@[j], Some(tree));
    let from = visits_below(tree, j as nat).len() as int;
    let all = visits_below(tree, n);
    if j < n - 1 {
        lemma_visits_of_child(tree, (n - 1) as nat, j);
        let before = visits_below(tree, (n - 1) as nat);
        assert(all.subrange(from, from + below.len()) =~= before.subrange(
            from,
            from + below.len(),
        ));
    } else {
        assert(all.subrange(from, from + below.len()) =~= below);
    }
}

/// A walk visits every node once. It begins with the node it starts from, below the parent given, and
/// goes on with the whole walk of each child in turn, below that node.
pub proof fn law_walk_visits_every_node<'a>(
    tree: &'a NavigationTree,
    parent: Option<&'a NavigationTree>,
    j: int,
)
    ensures
        visits(tree, parent).len() == node_count(*tree),
        visits(tree, parent)[0] == (tree, parent),
        tree.child_items matches Some(below) ==> 0 <= j < below@.len() ==> {
            let child = visits(&below@[j], Some(tree));
            let from = 1 + node_count_below(*tree, j as nat) as int;
            &&& from + child.len() <= visits(tree, parent).len()
            &&& visits(tree, parent).subrange(from, from + child.len()) == child
        },
{
    lemma_visit_count(tree, parent);
    if 0 <= j < children(*tree).len() {
        let all = visits_below(tree, children(*tree).len());
        let child = visits(&tree.child_items->0@[j], Some(tree));
        let from = visits_below(tree, j as nat).len() as int;
        lemma_visits_of_child(tree, children(*tree).len(), j);
        lemma_visit_count_below(tree, j as nat);
        assert(visits(tree, parent).subrange(1 + from, 1 + from + child.len()) =~= all.subrange(
            from,
            from + child.len(),
        ));
    }
}

/// How a search matched a name.
#[derive(Debug, Clone, Copy, PartialEq, Eq, Structural)]
pub enum MatchKind {
    Exact,
    Prefix,
    Substring,
    CamelCase,
}

/// A symbol of the workspace that was searched for.
#[derive(Debug)]
pub struct NavigateToItem {
    pub name: String,
    pub kind: ScriptElementKind,
    pub kind_modifiers: String,
    pub file_name: String,
    pub text_span: TextSpan,
    pub container_name: Option<String>,
}

impl Named for NavigateToItem {
    open spec fn file_names(&self) -> Seq<Seq<char>> {
        seq![self.file_name@]
    }

    open spec fn same_but_names(&self, other: &Self) -> bool {
        &&& self.name == other.name
        &&& self.kind == other.kind
        &&& self.kind_modifiers == other.kind_modifiers
        &&& self.text_span == other.text_span
        &&& self.container_name == other.container_name
    }

    proof fn lemma_same(&self) {
    }

    fn normalize(&mut self, map: &mut TscSpecifierMap) -> (r: Result<(), TscError>) {
        normalize_name(&mut self.file_name, map)
    }
}

impl NavigateToItem {
    /// The symbol in the file at a URL, where that is a document that the client knows.
    pub open spec fn symbol_in(self, href: Seq<char>, language_server: Inner) -> Option<
        lsp::SymbolInformationView,
    > {
        match (language_server.document(href), language_server.url_map.client_url(href)) {
            (Some(document), Some(uri)) => Some(
                lsp::SymbolInformationView {
                    name: self.name@,
                    kind: element::symbol_kind(self.kind),
                    tags: symbol_tags(self.kind_modifiers@),
                    location: lsp::LocationView {
                        uri,
                        range: span::range_of(self.text_span, document.lines()),
                    },
                    container_name: views::opt_view(self.container_name),
                },
            ),
            _ => None,
        }
    }

    /// The symbol, where its file is a document that the client knows.
    pub open spec fn symbol_information(self, language_server: Inner) -> Option<
        lsp::SymbolInformationView,
    > {
        match specifier::parsed_url(self.file_name@) {
            Some(href) => self.symbol_in(href, language_server),
            None => None,
        }
    }

    /// The symbol; none where its file is not a document that the client knows.
    pub fn to_symbol_information(&self, language_server: &Inner) -> (r: Option<SymbolInformation>)
        requires
            self.text_span.fits(),
        ensures
            views::opt_view(r) == self.symbol_information(*language_server),
            r is Some <==> (specifier::parsed_url(self.file_name@) matches Some(href)
                && language_server.document(href) is Some && language_server.url_map.client_url(
                href,
            ) is Some),
            r matches Some(symbol) ==> {
                let lines = language_server.document(specifier::parsed_url(self.file_name@)->0)->0.lines();
                &&& symbol.name@ == self.name@
                &&& symbol.kind == element::symbol_kind(self.kind)
                &&& symbol.tags is Some <==> element::has_modifier(
                    self.kind_modifiers@,
                    "deprecated"@,
                )
                &&& Some(symbol.location.uri@) == language_server.url_map.client_url(specifier::parsed_url(self.file_name@)->0)
                &&& symbol.location.range.start == text::position_at(
                    lines,
                    self.text_span.start as nat,
                )
                &&& symbol.location.range.end == text::position_at(
                    lines,
                    (self.text_span.start + self.text_span.length) as nat,
                )
                &&& symbol.container_name is Some <==> self.container_name is Some
                &&& self.container_name matches Some(container) ==> symbol.container_name->0@
                    == container@
            },
    {
        match ModuleSpecifier::parse(self.file_name.as_str()) {
            Ok(specifier) => self.to_symbol_information_in(&specifier, language_server),
            Err(_) => None,
        }
    }

    /// The symbol in the file of a specifier; none where that is not a document that the client
    /// knows.
    pub fn to_symbol_information_in(
        &self,
        specifier: &ModuleSpecifier,
        language_server: &Inner,
    ) -> (r: Option<SymbolInformation>)
        requires
            self.text_span.fits(),
        ensures
            views::opt_view(r) == self.symbol_in(specifier@, *language_server),
            r is Some <==> language_server.document(specifier@) is Some
                && language_server.url_map.client_url(specifier@) is Some,
            r matches Some(symbol) ==> {
                let lines = language_server.document(specifier@)->0.lines();
                &&& symbol.name@ == self.name@
                &&& symbol.kind == element::symbol_kind(self.kind)
                &&& symbol.tags is Some <==> element::has_modifier(
                    self.kind_modifiers@,
                    "deprecated"@,
                )
                &&& Some(symbol.location.uri@) == language_server.url_map.client_url(specifier@)
                &&& symbol.location.range.start == text::position_at(
                    lines,
                    self.text_span.start as nat,
                )
                &&& symbol.location.range.end == text::position_at(
                    lines,
                    (self.text_span.start + self.text_span.length) as nat,
                )
                &&& symbol.container_name is Some <==> self.container_name is Some
                &&& self.container_name matches Some(container) ==> symbol.container_name->0@
                    == container@
            },
    {
        let asset_or_doc = match language_server.get_asset_or_document(specifier) {
            Ok(document) => document,
            Err(_) => return None,
        };
        let line_index = asset_or_doc.line_index();
        let uri = match language_server.url_map.normalize_specifier(specifier) {
            Ok(uri) => uri,
            Err(_) => return None,
        };
        let range = self.text_span.to_range(line_index);
        let location = Location { uri: uri.into_url(), range };
        Some(
            SymbolInformation {
                name: self.name.clone(),
                kind: SymbolKind::from(self.kind),
                tags: tags_of(self.kind_modifiers.as_str()),
                location,
                container_name: self.container_name.clone(),
            },
        )
    }
}

/// What an inlay hint tells.
#[derive(Debug, Clone, Copy, PartialEq, Eq, Structural)]
pub enum InlayHintKind {
    Type,
    Parameter,
    Enum,
}

impl InlayHintKind {
    /// The kind for the client.
    pub fn to_lsp(&self) -> (r: Option<lsp::InlayHintKind>)
        ensures
            r == (match *self {
                InlayHintKind::Enum => None::<lsp::InlayHintKind>,
                InlayHintKind::Parameter => Some(lsp::InlayHintKind::Parameter),
                InlayHintKind::Type => Some(lsp::InlayHintKind::Type),
            }),
    {
        match self {
            InlayHintKind::Enum => None,
            InlayHintKind::Parameter => Some(lsp::InlayHintKind::Parameter),
            InlayHintKind::Type => Some(lsp::InlayHintKind::Type),
        }
    }
}

/// A hint shown between the characters of a document.
#[derive(Debug)]
pub struct InlayHint {
    pub text: String,
    pub position: u32,
    pub kind: InlayHintKind,
    pub whitespace_before: Option<bool>,
    pub whitespace_after: Option<bool>,
}

impl InlayHint {
    /// The hint for the client.
    pub fn to_lsp(&self, line_index: Arc<LineIndex>) -> (r: lsp::InlayHint)
        ensures
            r.position == text::position_at(line_index@, self.position as nat),
            r.label@ == self.text@,
            r.kind == (match self.kind {
                InlayHintKind::Enum => None::<lsp::InlayHintKind>,
                InlayHintKind::Parameter => Some(lsp::InlayHintKind::Parameter),
                InlayHintKind::Type => Some(lsp::InlayHintKind::Type),
            }),
            r.padding_left == self.whitespace_before,
            r.padding_right == self.whitespace_after,
    {
        lsp::InlayHint {
            position: line_index.position_tsc(self.position),
            label: self.text.clone(),
            kind: self.kind.to_lsp(),
            padding_left: self.whitespace_before,
            padding_right: self.whitespace_after,
        }
    }
}

/// The file name of a symbol that was searched for is read, and nothing else of it changes.
pub proof fn law_found_symbols_are_kept(a: NavigateToItem, b: NavigateToItem)
    ensures
        a.file_names() == seq![a.file_name@],
        a.same_but_names(&b) <==> a.name == b.name && a.kind == b.kind && a.kind_modifiers
            == b.kind_modifiers && a.text_span == b.text_span && a.container_name
            == b.container_name,
{
}

} // verus!
