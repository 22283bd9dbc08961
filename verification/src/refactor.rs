//! Refactors that the compiler offers.

use vstd::prelude::*;
use vstd::string::*;
use crate::links;
use crate::lsp;
use crate::lsp::{CodeAction, Range, RefactorCodeActionData};
use crate::patterns;
use crate::patterns::Found;
use crate::specifier::ModuleSpecifier;
use crate::strings;
use crate::strings::{same_text, starts_with};
use crate::views;

verus! {

/// How the names of actions that extract a constant begin.
pub const EXTRACT_CONSTANT: &'static str = "constant_";

/// How the names of actions that extract a type alias begin.
pub const EXTRACT_TYPE: &'static str = "Extract to type alias";

/// How the names of actions that extract an interface begin.
pub const EXTRACT_INTERFACE: &'static str = "Extract to interface";

/// The kind of an action, by its name.
pub open spec fn known_kind(name: Seq<char>) -> Seq<char> {
    if "function_"@.is_prefix_of(name) {
        "refactor.extract.function"@
    } else if "constant_"@.is_prefix_of(name) {
        "refactor.extract.constant"@
    } else if "Extract to type alias"@.is_prefix_of(name) {
        "refactor.extract.type"@
    } else if "Extract to interface"@.is_prefix_of(name) {
        "refactor.extract.interface"@
    } else if "Move to a new file"@.is_prefix_of(name) {
        "refactor.move.newFile"@
    } else if "Convert namespace import"@.is_prefix_of(name) || "Convert named imports"@.is_prefix_of(name) {
        "refactor.rewrite.import"@
    } else if "Convert default export"@.is_prefix_of(name) || "Convert named export"@.is_prefix_of(name) {
        "refactor.rewrite.export"@
    } else if "Add or remove braces in an arrow function"@.is_prefix_of(name) {
        "refactor.rewrite.arrow.braces"@
    } else if "Convert parameters to destructured object"@.is_prefix_of(name) {
        "refactor.rewrite.parameters.toDestructured"@
    } else if "Generate 'get' and 'set' accessors"@.is_prefix_of(name) {
        "refactor.rewrite.property.generateAccessors"@
    } else {
        "refactor"@
    }
}

/// The kind of an action, by its name.
pub fn kind_by_name(name: &str) -> (r: &'static str)
    ensures
        r@ == known_kind(name@),
{
    if starts_with(name, "function_") {
        "refactor.extract.function"
    } else if starts_with(name, "constant_") {
        "refactor.extract.constant"
    } else if starts_with(name, "Extract to type alias") {
        "refactor.extract.type"
    } else if starts_with(name, "Extract to interface") {
        "refactor.extract.interface"
    } else if starts_with(name, "Move to a new file") {
        "refactor.move.newFile"
    } else if starts_with(name, "Convert namespace import") || starts_with(name, "Convert named imports") {
        "refactor.rewrite.import"
    } else if starts_with(name, "Convert default export") || starts_with(name, "Convert named export") {
        "refactor.rewrite.export"
    } else if starts_with(name, "Add or remove braces in an arrow function") {
        "refactor.rewrite.arrow.braces"
    } else if starts_with(name, "Convert parameters to destructured object") {
        "refactor.rewrite.parameters.toDestructured"
    } else if starts_with(name, "Generate 'get' and 'set' accessors") {
        "refactor.rewrite.property.generateAccessors"
    } else {
        "refactor"
    }
}

/// The scope that a match of the scope pattern gives: the digit behind `scope_`, where it is an
/// ASCII one.
pub open spec fn found_scope(found: Option<patterns::FoundText>) -> Option<u32> {
    match found {
        Some(m) => {
            let c = links::group(m, 0)[0];
            if '0' <= c <= '9' {
                Some((c as u32 - 48) as u32)
            } else {
                None
            }
        },
        None => None,
    }
}

/// The scope in the name of an action.
pub open spec fn scope_of(name: Seq<char>) -> Option<u32> {
    found_scope(patterns::first_match(patterns::SCOPE@, name))
}

/// The scope that a match of the scope pattern gives.
pub fn read_scope(found: &Option<Found>) -> (r: Option<u32>)
    requires
        views::opt_view(*found) matches Some(m) ==> m.groups.len() == 1 && m.groups[0] is Some
            && links::group(m, 0).len() == 1,
    ensures
        r == found_scope(views::opt_view(*found)),
{
    match found {
        Some(m) => {
            let ghost seen = m@;
            assert(seen.groups[0] == views::opt_view(m.groups@[0]));
            let c: char = m.groups[0].as_ref().unwrap().as_str().get_char(0);
            if '0' <= c && c <= '9' {
                Some(c as u32 - 48)
            } else {
                None
            }
        },
        None => None,
    }
}

/// A scope comes before every one of a list that is there.
pub open spec fn precedes_all(scope: u32, others: Seq<Option<u32>>) -> bool {
    forall|i: int| 0 <= i < others.len() ==> (#[trigger] others[i] matches Some(other) ==> scope < other)
}

/// Whether a scope comes before every one of a list that is there.
pub fn is_first_scope(scope: u32, others: &Vec<Option<u32>>) -> (r: bool)
    ensures
        r == precedes_all(scope, others@),
{
    let mut i: usize = 0;
    while i < others.len()
        invariant
            i <= others@.len(),
            forall|j: int|
                0 <= j < i ==> (#[trigger] others@[j] matches Some(other) ==> scope < other),
        decreases others.len() - i,
    {
        if let Some(other) = others[i] {
            if scope >= other {
                return false;
            }
        }
        i = i + 1;
    }
    true
}

/// The scopes of the actions that extract a constant, as far as their names have one.
pub open spec fn constant_scopes(actions: Seq<RefactorActionInfo>) -> Seq<Option<u32>>
    decreases actions.len(),
{
    if actions.len() == 0 {
        Seq::empty()
    } else {
        let before = constant_scopes(actions.drop_last());
        if EXTRACT_CONSTANT@.is_prefix_of(actions.last().name@) {
            before.push(scope_of(actions.last().name@))
        } else {
            before
        }
    }
}

/// An action of a refactor.
#[derive(Debug)]
pub struct RefactorActionInfo {
    pub name: String,
    pub description: String,
    pub not_applicable_reason: Option<String>,
    pub kind: Option<String>,
}

impl RefactorActionInfo {
    /// The kind of the action.
    pub open spec fn action_kind(self) -> Seq<char> {
        match self.kind {
            Some(kind) => kind@,
            None => known_kind(self.name@),
        }
    }

    /// The action is preferred among those given: it extracts a constant in a scope that comes before
    /// those of all that do too, or it extracts a type alias or an interface.
    pub open spec fn preferred(self, all_actions: Seq<RefactorActionInfo>) -> bool {
        if EXTRACT_CONSTANT@.is_prefix_of(self.name@) {
            match scope_of(self.name@) {
                Some(scope) => precedes_all(scope, constant_scopes(all_actions)),
                None => false,
            }
        } else {
            EXTRACT_TYPE@.is_prefix_of(self.name@) || EXTRACT_INTERFACE@.is_prefix_of(self.name@)
        }
    }

    /// The kind of the action: the one it has, or else the one its name tells.
    pub fn get_action_kind(&self) -> (r: String)
        ensures
            r@ == self.action_kind(),
    {
        match &self.kind {
            Some(kind) => kind.clone(),
            None => kind_by_name(self.name.as_str()).to_owned(),
        }
    }

    /// The scope in the name of the action.
    fn scope(&self) -> (r: Option<u32>)
        ensures
            r == scope_of(self.name@),
    {
        let found = patterns::captures(patterns::SCOPE, self.name.as_str());
        read_scope(&found)
    }

    /// Whether the action is preferred among those given.
    pub fn is_preferred(&self, all_actions: &[RefactorActionInfo]) -> (r: bool)
        ensures
            r == self.preferred(all_actions@),
    {
        if starts_with(self.name.as_str(), EXTRACT_CONSTANT) {
            let scope: u32 = match self.scope() {
                Some(scope) => scope,
                None => return false,
            };
            let mut others: Vec<Option<u32>> = Vec::new();
            let mut i: usize = 0;
            assert(all_actions@.take(0) =~= Seq::empty());
            while i < all_actions.len()
                invariant
                    i <= all_actions@.len(),
                    others@ == constant_scopes(all_actions@.take(i as int)),
                decreases all_actions.len() - i,
            {
                assert(all_actions@.take(i + 1).drop_last() =~= all_actions@.take(i as int));
                let other = &all_actions[i];
                if starts_with(other.name.as_str(), EXTRACT_CONSTANT) {
                    others.push(other.scope());
                }
                i = i + 1;
            }
            assert(all_actions@.take(i as int) =~= all_actions@);
            return is_first_scope(scope, &others);
        }
        starts_with(self.name.as_str(), EXTRACT_TYPE) || starts_with(
            self.name.as_str(),
            EXTRACT_INTERFACE,
        )
    }
}

/// An action that extracts a constant is never preferred among actions that it is one of itself.
pub proof fn law_listed_constant_is_not_preferred(
    action: RefactorActionInfo,
    all_actions: Seq<RefactorActionInfo>,
)
    requires
        EXTRACT_CONSTANT@.is_prefix_of(action.name@),
        exists|i: int|
            0 <= i < all_actions.len() && (#[trigger] all_actions[i]).name@ == action.name@,
    ensures
        !action.preferred(all_actions),
{
    let i = choose|i: int|
        0 <= i < all_actions.len() && (#[trigger] all_actions[i]).name@ == action.name@;
    lemma_constant_scopes(all_actions, i);
    let scopes = constant_scopes(all_actions);
    let k = choose|k: int|
        0 <= k < scopes.len() && #[trigger] scopes[k] == scope_of(all_actions[i].name@);
    assert(scopes[k] == scope_of(action.name@));
}

/// The scope of an action that extracts a constant is among those of the list it is in.
proof fn lemma_constant_scopes(actions: Seq<RefactorActionInfo>, i: int)
    requires
        0 <= i < actions.len(),
        EXTRACT_CONSTANT@.is_prefix_of(actions[i].name@),
    ensures
        exists|k: int|
            0 <= k < constant_scopes(actions).len() && #[trigger] constant_scopes(actions)[k]
                == scope_of(actions[i].name@),
    decreases actions.len(),
{
    let scopes = constant_scopes(actions);
    if i == actions.len() - 1 {
        assert(scopes[scopes.len() - 1] == scope_of(actions[i].name@));
    } else {
        let before = constant_scopes(actions.drop_last());
        lemma_constant_scopes(actions.drop_last(), i);
        let k = choose|k: int|
            0 <= k < before.len() && #[trigger] before[k] == scope_of(
                actions.drop_last()[i].name@,
            );
        assert(scopes[k] == before[k]);
    }
}

/// A refactor that applies, with its actions.
#[derive(Debug)]
pub struct ApplicableRefactorInfo {
    pub name: String,
    pub actions: Vec<RefactorActionInfo>,
}

impl ApplicableRefactorInfo {
    /// The action that the client can offer for one of the actions.
    pub open spec fn code_action(
        self,
        action: RefactorActionInfo,
        specifier: Seq<char>,
        range: Range,
        refactor_name: Seq<char>,
    ) -> lsp::CodeActionView {
        lsp::CodeActionView {
            title: action.description@,
            kind: Some(action.action_kind()),
            is_preferred: Some(action.preferred(self.actions@)),
            disabled: views::opt_view(action.not_applicable_reason),
            data: Some(
                lsp::RefactorDataView {
                    specifier,
                    range,
                    refactor_name,
                    action_name: action.name@,
                },
            ),
        }
    }

    /// The actions that the client can offer.
    pub fn to_code_actions(&self, specifier: &ModuleSpecifier, range: &Range) -> (r: Vec<
        CodeAction,
    >)
        ensures
            views::seq_view(r@) == Seq::new(
                self.actions@.len(),
                |i: int| self.code_action(self.actions@[i], specifier@, *range, self.name@),
            ),
    {
        let mut code_actions: Vec<CodeAction> = Vec::new();
        let mut i: usize = 0;
        while i < self.actions.len()
            invariant
                i <= self.actions@.len(),
                code_actions@.len() == i,
                forall|j: int|
                    0 <= j < i ==> (#[trigger] code_actions@[j])@ == self.code_action(
                        self.actions@[j],
                        specifier@,
                        *range,
                        self.name@,
                    ),
            decreases self.actions.len() - i,
        {
            let action = self.as_inline_code_action(
                &self.actions[i],
                specifier,
                range,
                self.name.as_str(),
            );
            code_actions.push(action);
            i = i + 1;
        }
        code_actions
    }

    /// The action that the client can offer for one of the actions.
    fn as_inline_code_action(
        &self,
        action: &RefactorActionInfo,
        specifier: &ModuleSpecifier,
        range: &Range,
        refactor_name: &str,
    ) -> (r: CodeAction)
        ensures
            r@ == self.code_action(*action, specifier@, *range, refactor_name@),
    {
        CodeAction {
            title: action.description.clone(),
            kind: Some(action.get_action_kind()),
            is_preferred: Some(action.is_preferred(self.actions.as_slice())),
            disabled: action.not_applicable_reason.clone(),
            data: Some(
                RefactorCodeActionData {
                    specifier: specifier.clone(),
                    range: *range,
                    refactor_name: refactor_name.to_owned(),
                    action_name: action.name.clone(),
                },
            ),
        }
    }
}

/// Two texts that differ at a place do not both open a text.
proof fn lemma_not_both(a: Seq<char>, b: Seq<char>, name: Seq<char>, i: int)
    requires
        0 <= i < a.len(),
        i < b.len(),
        a[i] != b[i],
    ensures
        !(a.is_prefix_of(name) && b.is_prefix_of(name)),
{
    if a.is_prefix_of(name) && b.is_prefix_of(name) {
        assert(name.subrange(0, a.len() as int)[i] == name[i]);
        assert(name.subrange(0, b.len() as int)[i] == name[i]);
    }
}

/// A text that opens another has its characters.
proof fn lemma_opens_with(start: Seq<char>, name: Seq<char>, i: int)
    requires
        0 <= i < start.len(),
    ensures
        start.is_prefix_of(name) ==> i < name.len() && name[i] == start[i],
{
    if start.is_prefix_of(name) {
        assert(name.subrange(0, start.len() as int)[i] == name[i]);
    }
}

/// The name of an action tells its kind by how it begins, and a name that begins in no known way is
/// that of some refactor.
pub proof fn law_kinds_by_name(name: Seq<char>)
    ensures
        "function_"@.is_prefix_of(name) ==> known_kind(name) == "refactor.extract.function"@,
        "constant_"@.is_prefix_of(name) ==> known_kind(name) == "refactor.extract.constant"@,
        "Extract to type alias"@.is_prefix_of(name)
            ==> known_kind(name) == "refactor.extract.type"@,
        "Extract to interface"@.is_prefix_of(name)
            ==> known_kind(name) == "refactor.extract.interface"@,
        "Move to a new file"@.is_prefix_of(name) ==> known_kind(name) == "refactor.move.newFile"@,
        "Convert namespace import"@.is_prefix_of(name)
            ==> known_kind(name) == "refactor.rewrite.import"@,
        "Convert named imports"@.is_prefix_of(name)
            ==> known_kind(name) == "refactor.rewrite.import"@,
        "Convert default export"@.is_prefix_of(name)
            ==> known_kind(name) == "refactor.rewrite.export"@,
        "Convert named export"@.is_prefix_of(name)
            ==> known_kind(name) == "refactor.rewrite.export"@,
        "Add or remove braces in an arrow function"@.is_prefix_of(name)
            ==> known_kind(name) == "refactor.rewrite.arrow.braces"@,
        "Convert parameters to destructured object"@.is_prefix_of(name)
            ==> known_kind(name) == "refactor.rewrite.parameters.toDestructured"@,
        "Generate 'get' and 'set' accessors"@.is_prefix_of(name)
            ==> known_kind(name) == "refactor.rewrite.property.generateAccessors"@,
        !"function_"@.is_prefix_of(name) && !"constant_"@.is_prefix_of(name)
            && !"Extract to type alias"@.is_prefix_of(name)
            && !"Extract to interface"@.is_prefix_of(name)
            && !"Move to a new file"@.is_prefix_of(name)
            && !"Convert namespace import"@.is_prefix_of(name)
            && !"Convert named imports"@.is_prefix_of(name)
            && !"Convert default export"@.is_prefix_of(name)
            && !"Convert named export"@.is_prefix_of(name)
            && !"Add or remove braces in an arrow function"@.is_prefix_of(name)
            && !"Convert parameters to destructured object"@.is_prefix_of(name)
            && !"Generate 'get' and 'set' accessors"@.is_prefix_of(name)
            ==> known_kind(name) == "refactor"@,
{
    reveal_strlit("function_");
    reveal_strlit("constant_");
    reveal_strlit("Extract to type alias");
    reveal_strlit("Extract to interface");
    reveal_strlit("Move to a new file");
    reveal_strlit("Convert namespace import");
    reveal_strlit("Convert named imports");
    reveal_strlit("Convert default export");
    reveal_strlit("Convert named export");
    reveal_strlit("Add or remove braces in an arrow function");
    reveal_strlit("Convert parameters to destructured object");
    reveal_strlit("Generate 'get' and 'set' accessors");
    lemma_opens_with("function_"@, name, 0);
    lemma_opens_with("constant_"@, name, 0);
    lemma_opens_with("Extract to type alias"@, name, 0);
    lemma_opens_with("Extract to interface"@, name, 0);
    lemma_opens_with("Move to a new file"@, name, 0);
    lemma_opens_with("Convert namespace import"@, name, 0);
    lemma_opens_with("Convert named imports"@, name, 0);
    lemma_opens_with("Convert default export"@, name, 0);
    lemma_opens_with("Convert named export"@, name, 0);
    lemma_opens_with("Add or remove braces in an arrow function"@, name, 0);
    lemma_opens_with("Convert parameters to destructured object"@, name, 0);
    lemma_opens_with("Generate 'get' and 'set' accessors"@, name, 0);
    lemma_opens_with("Extract to type alias"@, name, 11);
    lemma_opens_with("Extract to interface"@, name, 11);
    lemma_opens_with("Convert namespace import"@, name, 8);
    lemma_opens_with("Convert named imports"@, name, 8);
    lemma_opens_with("Convert default export"@, name, 8);
    lemma_opens_with("Convert named export"@, name, 8);
    lemma_opens_with("Convert parameters to destructured object"@, name, 8);
    lemma_opens_with("Convert namespace import"@, name, 12);
    lemma_opens_with("Convert named imports"@, name, 12);
    lemma_opens_with("Convert named export"@, name, 12);
    lemma_opens_with("Convert named imports"@, name, 14);
    lemma_opens_with("Convert named export"@, name, 14);
}

/// An action is of the kind that it says it is of, whatever its name is.
pub proof fn law_given_kind_is_kept(action: RefactorActionInfo)
    ensures
        action.kind matches Some(kind) ==> action.action_kind() == kind@,
        action.kind is None ==> action.action_kind() == known_kind(action.name@),
{
}

proof fn lemma_scopes_are_of_constants(actions: Seq<RefactorActionInfo>, k: int) -> (i: int)
    requires
        0 <= k < constant_scopes(actions).len(),
    ensures
        0 <= i < actions.len(),
        EXTRACT_CONSTANT@.is_prefix_of(actions[i].name@),
        constant_scopes(actions)[k] == scope_of(actions[i].name@),
    decreases actions.len(),
{
    let before = constant_scopes(actions.drop_last());
    if k < before.len() {
        let i = lemma_scopes_are_of_constants(actions.drop_last(), k);
        assert(actions[i] == actions.drop_last()[i]);
        i
    } else {
        actions.len() - 1
    }
}

/// An action that extracts a constant is preferred where its name has a scope and every action given
/// that extracts a constant in some scope does so in a later one. One that extracts a type alias or
/// an interface is always preferred, and no other action is.
pub proof fn law_preferred_actions(action: RefactorActionInfo, all_actions: Seq<RefactorActionInfo>)
    ensures
        "constant_"@.is_prefix_of(action.name@) ==> (action.preferred(all_actions) <==> scope_of(
            action.name@,
        ) is Some && forall|i: int|
            0 <= i < all_actions.len() && "constant_"@.is_prefix_of(
                (#[trigger] all_actions[i]).name@,
            ) ==> (scope_of(all_actions[i].name@) matches Some(other) ==> scope_of(
                action.name@,
            )->0 < other)),
        "Extract to type alias"@.is_prefix_of(action.name@) ==> action.preferred(all_actions),
        "Extract to interface"@.is_prefix_of(action.name@) ==> action.preferred(all_actions),
        !"constant_"@.is_prefix_of(action.name@) && !"Extract to type alias"@.is_prefix_of(
            action.name@,
        ) && !"Extract to interface"@.is_prefix_of(action.name@) ==> !action.preferred(
            all_actions,
        ),
{
    reveal_strlit("constant_");
    reveal_strlit("Extract to type alias");
    reveal_strlit("Extract to interface");
    lemma_not_both("constant_"@, "Extract to type alias"@, action.name@, 0);
    lemma_not_both("constant_"@, "Extract to interface"@, action.name@, 0);
    let scopes = constant_scopes(all_actions);
    if "constant_"@.is_prefix_of(action.name@) && scope_of(action.name@) is Some {
        let scope = scope_of(action.name@)->0;
        if precedes_all(scope, scopes) {
            assert forall|i: int|
                0 <= i < all_actions.len() && "constant_"@.is_prefix_of(
                    (#[trigger] all_actions[i]).name@,
                ) implies (scope_of(all_actions[i].name@) matches Some(other)
                    ==> scope < other) by {
                lemma_constant_scopes(all_actions, i);
                let k = choose|k: int|
                    0 <= k < scopes.len() && #[trigger] scopes[k] == scope_of(
                        all_actions[i].name@,
                    );
                assert(scopes[k] == scope_of(all_actions[i].name@));
            }
        } else {
            let k = choose|k: int|
                0 <= k < scopes.len() && !(#[trigger] scopes[k] matches Some(other) ==> scope
                    < other);
            let i = lemma_scopes_are_of_constants(all_actions, k);
            assert("constant_"@.is_prefix_of(all_actions[i].name@));
        }
    }
}

/// The scope is the number that the digit found stands for.
pub proof fn law_scope_is_the_digit(m: patterns::FoundText, n: nat)
    requires
        n < 10,
        m.groups.len() == 1,
        m.groups[0] == Some(strings::decimal(n)),
    ensures
        found_scope(Some(m)) == Some(n as u32),
        found_scope(None) is None,
{
    assert(strings::decimal(n) =~= seq![strings::digit(n)]);
    let code = (('0' as u32) + n) as u32;
    assert((code as char) as u32 == code);
}

/// An action is offered under its description and is disabled for the reason that the compiler gives.
/// What it is carried out with names the module, the range, the refactor and the action.
pub proof fn law_actions_are_offered(
    refactor: ApplicableRefactorInfo,
    action: RefactorActionInfo,
    specifier: Seq<char>,
    range: Range,
    refactor_name: Seq<char>,
)
    ensures
        ({
            let offered = refactor.code_action(action, specifier, range, refactor_name);
            &&& offered.title == action.description@
            &&& offered.kind == Some(action.action_kind())
            &&& offered.is_preferred == Some(action.preferred(refactor.actions@))
            &&& offered.disabled is Some <==> action.not_applicable_reason is Some
            &&& action.not_applicable_reason matches Some(reason) ==> offered.disabled == Some(
                reason@,
            )
            &&& offered.data matches Some(data) && {
                &&& data.specifier == specifier
                &&& data.range == range
                &&& data.refactor_name == refactor_name
                &&& data.action_name == action.name@
            }
        }),
{
}

} // verus!
