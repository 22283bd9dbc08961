//! The kinds of elements that the compiler tells apart.

use vstd::prelude::*;
use vstd::string::*;
use crate::lsp::{CompletionItemKind, SymbolKind};
use crate::patterns;
use crate::strings::same_text;
use crate::views;

verus! {

/// The kind of an element of a script.
#[derive(Debug, Clone, Copy, PartialEq, Eq, Structural)]
pub enum ScriptElementKind {
    Unknown,
    Warning,
    Keyword,
    ScriptElement,
    ModuleElement,
    ClassElement,
    LocalClassElement,
    InterfaceElement,
    TypeElement,
    EnumElement,
    EnumMemberElement,
    VariableElement,
    LocalVariableElement,
    FunctionElement,
    LocalFunctionElement,
    MemberFunctionElement,
    MemberGetAccessorElement,
    MemberSetAccessorElement,
    MemberVariableElement,
    ConstructorImplementationElement,
    CallSignatureElement,
    IndexSignatureElement,
    ConstructSignatureElement,
    ParameterElement,
    TypeParameterElement,
    PrimitiveType,
    Label,
    Alias,
    ConstElement,
    LetElement,
    Directory,
    ExternalModuleName,
    JsxAttribute,
    String,
    Link,
    LinkName,
    LinkText,
}

impl Default for ScriptElementKind {
    fn default() -> (r: Self)
        ensures
            r == ScriptElementKind::Unknown,
    {
        ScriptElementKind::Unknown
    }
}

/// The kind under which an element is completed.
pub open spec fn completion_kind(kind: ScriptElementKind) -> CompletionItemKind {
    match kind {
        ScriptElementKind::PrimitiveType
        | ScriptElementKind::Keyword => CompletionItemKind::Keyword,
        ScriptElementKind::ConstElement
        | ScriptElementKind::LetElement
        | ScriptElementKind::VariableElement
        | ScriptElementKind::LocalVariableElement
        | ScriptElementKind::Alias
        | ScriptElementKind::ParameterElement => CompletionItemKind::Variable,
        ScriptElementKind::MemberVariableElement
        | ScriptElementKind::MemberGetAccessorElement
        | ScriptElementKind::MemberSetAccessorElement => CompletionItemKind::Field,
        ScriptElementKind::FunctionElement
        | ScriptElementKind::LocalFunctionElement => CompletionItemKind::Function,
        ScriptElementKind::MemberFunctionElement
        | ScriptElementKind::ConstructSignatureElement
        | ScriptElementKind::CallSignatureElement
        | ScriptElementKind::IndexSignatureElement => CompletionItemKind::Method,
        ScriptElementKind::EnumElement => CompletionItemKind::Enum,
        ScriptElementKind::EnumMemberElement => CompletionItemKind::EnumMember,
        ScriptElementKind::ModuleElement
        | ScriptElementKind::ExternalModuleName => CompletionItemKind::Module,
        ScriptElementKind::ClassElement
        | ScriptElementKind::TypeElement => CompletionItemKind::Class,
        ScriptElementKind::InterfaceElement => CompletionItemKind::Interface,
        ScriptElementKind::Warning => CompletionItemKind::Text,
        ScriptElementKind::ScriptElement => CompletionItemKind::File,
        ScriptElementKind::Directory => CompletionItemKind::Folder,
        ScriptElementKind::String => CompletionItemKind::Constant,
        _ => CompletionItemKind::Property,
    }
}

/// The kind under which an element is listed as a symbol.
pub open spec fn symbol_kind(kind: ScriptElementKind) -> SymbolKind {
    match kind {
        ScriptElementKind::ModuleElement => SymbolKind::Module,
        ScriptElementKind::TypeElement
        | ScriptElementKind::ClassElement => SymbolKind::Class,
        ScriptElementKind::EnumElement => SymbolKind::Enum,
        ScriptElementKind::EnumMemberElement => SymbolKind::EnumMember,
        ScriptElementKind::InterfaceElement => SymbolKind::Interface,
        ScriptElementKind::IndexSignatureElement
        | ScriptElementKind::CallSignatureElement
        | ScriptElementKind::MemberFunctionElement => SymbolKind::Method,
        ScriptElementKind::MemberVariableElement
        | ScriptElementKind::MemberGetAccessorElement
        | ScriptElementKind::MemberSetAccessorElement => SymbolKind::Field,
        ScriptElementKind::VariableElement
        | ScriptElementKind::LetElement
        | ScriptElementKind::ConstElement
        | ScriptElementKind::LocalVariableElement
        | ScriptElementKind::Alias => SymbolKind::Variable,
        ScriptElementKind::FunctionElement
        | ScriptElementKind::LocalFunctionElement => SymbolKind::Function,
        ScriptElementKind::ConstructSignatureElement
        | ScriptElementKind::ConstructorImplementationElement => SymbolKind::Constructor,
        ScriptElementKind::TypeParameterElement => SymbolKind::TypeParameter,
        ScriptElementKind::String => SymbolKind::String,
        _ => SymbolKind::Variable,
    }
}

impl vstd::std_specs::convert::FromSpecImpl<ScriptElementKind> for CompletionItemKind {
    open spec fn obeys_from_spec() -> bool {
        true
    }

    open spec fn from_spec(kind: ScriptElementKind) -> Self {
        completion_kind(kind)
    }
}

impl From<ScriptElementKind> for CompletionItemKind {
    fn from(kind: ScriptElementKind) -> Self {
        match kind {
            ScriptElementKind::PrimitiveType
            | ScriptElementKind::Keyword => CompletionItemKind::Keyword,
            ScriptElementKind::ConstElement
            | ScriptElementKind::LetElement
            | ScriptElementKind::VariableElement
            | ScriptElementKind::LocalVariableElement
            | ScriptElementKind::Alias
            | ScriptElementKind::ParameterElement => CompletionItemKind::Variable,
            ScriptElementKind::MemberVariableElement
            | ScriptElementKind::MemberGetAccessorElement
            | ScriptElementKind::MemberSetAccessorElement => CompletionItemKind::Field,
            ScriptElementKind::FunctionElement
            | ScriptElementKind::LocalFunctionElement => CompletionItemKind::Function,
            ScriptElementKind::MemberFunctionElement
            | ScriptElementKind::ConstructSignatureElement
            | ScriptElementKind::CallSignatureElement
            | ScriptElementKind::IndexSignatureElement => CompletionItemKind::Method,
            ScriptElementKind::EnumElement => CompletionItemKind::Enum,
            ScriptElementKind::EnumMemberElement => CompletionItemKind::EnumMember,
            ScriptElementKind::ModuleElement
            | ScriptElementKind::ExternalModuleName => CompletionItemKind::Module,
            ScriptElementKind::ClassElement
            | ScriptElementKind::TypeElement => CompletionItemKind::Class,
            ScriptElementKind::InterfaceElement => CompletionItemKind::Interface,
            ScriptElementKind::Warning => CompletionItemKind::Text,
            ScriptElementKind::ScriptElement => CompletionItemKind::File,
            ScriptElementKind::Directory => CompletionItemKind::Folder,
            ScriptElementKind::String => CompletionItemKind::Constant,
            _ => CompletionItemKind::Property,
        }
    }
}

impl vstd::std_specs::convert::FromSpecImpl<ScriptElementKind> for SymbolKind {
    open spec fn obeys_from_spec() -> bool {
        true
    }

    open spec fn from_spec(kind: ScriptElementKind) -> Self {
        symbol_kind(kind)
    }
}

impl From<ScriptElementKind> for SymbolKind {
    fn from(kind: ScriptElementKind) -> Self {
        match kind {
            ScriptElementKind::ModuleElement => SymbolKind::Module,
            ScriptElementKind::TypeElement
            | ScriptElementKind::ClassElement => SymbolKind::Class,
            ScriptElementKind::EnumElement => SymbolKind::Enum,
            ScriptElementKind::EnumMemberElement => SymbolKind::EnumMember,
            ScriptElementKind::InterfaceElement => SymbolKind::Interface,
            ScriptElementKind::IndexSignatureElement
            | ScriptElementKind::CallSignatureElement
            | ScriptElementKind::MemberFunctionElement => SymbolKind::Method,
            ScriptElementKind::MemberVariableElement
            | ScriptElementKind::MemberGetAccessorElement
            | ScriptElementKind::MemberSetAccessorElement => SymbolKind::Field,
            ScriptElementKind::VariableElement
            | ScriptElementKind::LetElement
            | ScriptElementKind::ConstElement
            | ScriptElementKind::LocalVariableElement
            | ScriptElementKind::Alias => SymbolKind::Variable,
            ScriptElementKind::FunctionElement
            | ScriptElementKind::LocalFunctionElement => SymbolKind::Function,
            ScriptElementKind::ConstructSignatureElement
            | ScriptElementKind::ConstructorImplementationElement => SymbolKind::Constructor,
            ScriptElementKind::TypeParameterElement => SymbolKind::TypeParameter,
            ScriptElementKind::String => SymbolKind::String,
            _ => SymbolKind::Variable,
        }
    }
}

/// The modifiers in a list of them.
pub fn parse_kind_modifier(kind_modifiers: &str) -> (r: Vec<String>)
    ensures
        views::seq_view(r@) == patterns::modifiers(kind_modifiers@),
{
    patterns::split(patterns::PART_KIND_MODIFIER, kind_modifiers)
}

/// Whether a text is among those of a list.
pub fn contains_text(list: &Vec<String>, text: &str) -> (r: bool)
    ensures
        r == views::seq_view(list@).contains(text@),
{
    let mut i: usize = 0;
    while i < list.len()
        invariant
            i <= list@.len(),
            forall|j: int| 0 <= j < i ==> (#[trigger] list@[j])@ != text@,
        decreases list.len() - i,
    {
        if same_text(list[i].as_str(), text) {
            assert(views::seq_view(list@)[i as int] == text@);
            return true;
        }
        i = i + 1;
    }
    assert forall|j: int| 0 <= j < views::seq_view(list@).len() implies #[trigger] views::seq_view(
        list@,
    )[j] != text@ by {
        assert(list@[j]@ != text@);
    }
    false
}

/// A modifier is among those of a list.
pub open spec fn has_modifier(kind_modifiers: Seq<char>, modifier: Seq<char>) -> bool {
    patterns::modifiers(kind_modifiers).contains(modifier)
}

/// Either one value or a list of them.
#[derive(Debug)]
pub enum OneOrMany<T> {
    One(T),
    Many(Vec<T>),
}

/// What each kind of completion stands for: every other element is completed as a property.
pub proof fn law_completion_kinds(kind: ScriptElementKind)
    ensures
        completion_kind(kind) == CompletionItemKind::Keyword
            <==> kind == ScriptElementKind::PrimitiveType || kind == ScriptElementKind::Keyword,
        completion_kind(kind) == CompletionItemKind::Variable
            <==> kind == ScriptElementKind::ConstElement || kind == ScriptElementKind::LetElement
            || kind == ScriptElementKind::VariableElement
            || kind == ScriptElementKind::LocalVariableElement || kind == ScriptElementKind::Alias
            || kind == ScriptElementKind::ParameterElement,
        completion_kind(kind) == CompletionItemKind::Field
            <==> kind == ScriptElementKind::MemberVariableElement
            || kind == ScriptElementKind::MemberGetAccessorElement
            || kind == ScriptElementKind::MemberSetAccessorElement,
        completion_kind(kind) == CompletionItemKind::Function
            <==> kind == ScriptElementKind::FunctionElement
            || kind == ScriptElementKind::LocalFunctionElement,
        completion_kind(kind) == CompletionItemKind::Method
            <==> kind == ScriptElementKind::MemberFunctionElement
            || kind == ScriptElementKind::ConstructSignatureElement
            || kind == ScriptElementKind::CallSignatureElement
            || kind == ScriptElementKind::IndexSignatureElement,
        completion_kind(kind) == CompletionItemKind::Enum
            <==> kind == ScriptElementKind::EnumElement,
        completion_kind(kind) == CompletionItemKind::EnumMember
            <==> kind == ScriptElementKind::EnumMemberElement,
        completion_kind(kind) == CompletionItemKind::Module
            <==> kind == ScriptElementKind::ModuleElement
            || kind == ScriptElementKind::ExternalModuleName,
        completion_kind(kind) == CompletionItemKind::Class
            <==> kind == ScriptElementKind::ClassElement || kind == ScriptElementKind::TypeElement,
        completion_kind(kind) == CompletionItemKind::Interface
            <==> kind == ScriptElementKind::InterfaceElement,
        completion_kind(kind) == CompletionItemKind::Text <==> kind == ScriptElementKind::Warning,
        completion_kind(kind) == CompletionItemKind::File
            <==> kind == ScriptElementKind::ScriptElement,
        completion_kind(kind) == CompletionItemKind::Folder
            <==> kind == ScriptElementKind::Directory,
        completion_kind(kind) == CompletionItemKind::Constant
            <==> kind == ScriptElementKind::String,
        completion_kind(kind) == CompletionItemKind::Property
            <==> kind != ScriptElementKind::PrimitiveType && kind != ScriptElementKind::Keyword
            && kind != ScriptElementKind::ConstElement && kind != ScriptElementKind::LetElement
            && kind != ScriptElementKind::VariableElement
            && kind != ScriptElementKind::LocalVariableElement && kind != ScriptElementKind::Alias
            && kind != ScriptElementKind::ParameterElement
            && kind != ScriptElementKind::MemberVariableElement
            && kind != ScriptElementKind::MemberGetAccessorElement
            && kind != ScriptElementKind::MemberSetAccessorElement
            && kind != ScriptElementKind::FunctionElement
            && kind != ScriptElementKind::LocalFunctionElement
            && kind != ScriptElementKind::MemberFunctionElement
            && kind != ScriptElementKind::ConstructSignatureElement
            && kind != ScriptElementKind::CallSignatureElement
            && kind != ScriptElementKind::IndexSignatureElement
            && kind != ScriptElementKind::EnumElement
            && kind != ScriptElementKind::EnumMemberElement
            && kind != ScriptElementKind::ModuleElement
            && kind != ScriptElementKind::ExternalModuleName
            && kind != ScriptElementKind::ClassElement && kind != ScriptElementKind::TypeElement
            && kind != ScriptElementKind::InterfaceElement && kind != ScriptElementKind::Warning
            && kind != ScriptElementKind::ScriptElement && kind != ScriptElementKind::Directory
            && kind != ScriptElementKind::String,
{
}

/// What each kind of symbol stands for: every other element is listed as a variable.
pub proof fn law_symbol_kinds(kind: ScriptElementKind)
    ensures
        symbol_kind(kind) == SymbolKind::Module <==> kind == ScriptElementKind::ModuleElement,
        symbol_kind(kind) == SymbolKind::Class <==> kind == ScriptElementKind::TypeElement
            || kind == ScriptElementKind::ClassElement,
        symbol_kind(kind) == SymbolKind::Enum <==> kind == ScriptElementKind::EnumElement,
        symbol_kind(kind) == SymbolKind::EnumMember
            <==> kind == ScriptElementKind::EnumMemberElement,
        symbol_kind(kind) == SymbolKind::Interface <==> kind == ScriptElementKind::InterfaceElement,
        symbol_kind(kind) == SymbolKind::Method
            <==> kind == ScriptElementKind::IndexSignatureElement
            || kind == ScriptElementKind::CallSignatureElement
            || kind == ScriptElementKind::MemberFunctionElement,
        symbol_kind(kind) == SymbolKind::Field <==> kind == ScriptElementKind::MemberVariableElement
            || kind == ScriptElementKind::MemberGetAccessorElement
            || kind == ScriptElementKind::MemberSetAccessorElement,
        symbol_kind(kind) == SymbolKind::Function <==> kind == ScriptElementKind::FunctionElement
            || kind == ScriptElementKind::LocalFunctionElement,
        symbol_kind(kind) == SymbolKind::Constructor
            <==> kind == ScriptElementKind::ConstructSignatureElement
            || kind == ScriptElementKind::ConstructorImplementationElement,
        symbol_kind(kind) == SymbolKind::TypeParameter
            <==> kind == ScriptElementKind::TypeParameterElement,
        symbol_kind(kind) == SymbolKind::String <==> kind == ScriptElementKind::String,
        symbol_kind(kind) == SymbolKind::Variable <==> kind != ScriptElementKind::ModuleElement
            && kind != ScriptElementKind::TypeElement && kind != ScriptElementKind::ClassElement
            && kind != ScriptElementKind::EnumElement
            && kind != ScriptElementKind::EnumMemberElement
            && kind != ScriptElementKind::InterfaceElement
            && kind != ScriptElementKind::IndexSignatureElement
            && kind != ScriptElementKind::CallSignatureElement
            && kind != ScriptElementKind::MemberFunctionElement
            && kind != ScriptElementKind::MemberVariableElement
            && kind != ScriptElementKind::MemberGetAccessorElement
            && kind != ScriptElementKind::MemberSetAccessorElement
            && kind != ScriptElementKind::FunctionElement
            && kind != ScriptElementKind::LocalFunctionElement
            && kind != ScriptElementKind::ConstructSignatureElement
            && kind != ScriptElementKind::ConstructorImplementationElement
            && kind != ScriptElementKind::TypeParameterElement && kind != ScriptElementKind::String,
{
}

/// A list has a modifier just where it is one of the pieces between its separators.
pub proof fn law_modifiers_are_looked_up(kind_modifiers: Seq<char>, modifier: Seq<char>)
    ensures
        has_modifier(kind_modifiers, modifier) <==> exists|i: int|
            0 <= i < patterns::modifiers(kind_modifiers).len() && #[trigger] patterns::modifiers(
                kind_modifiers,
            )[i] == modifier,
{
}

} // verus!
