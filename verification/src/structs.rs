//! What the parser reads out of an Elm module: the export clause of its
//! header and the declarations of its body.

use vstd::prelude::*;

verus! {

/// A type signature: its terms in the order written, the return type last.
pub type TypeSignature = Vec<String>;

/// An exported or declared type.
#[derive(Debug, PartialEq)]
pub struct Type<'a> {
    pub name: &'a str,
    pub definition: Option<&'a str>,
}

/// An exported or declared function.
#[derive(Debug, PartialEq)]
pub struct Function<'a> {
    pub name: &'a str,
    pub type_signature: Option<TypeSignature>,
}

/// One name of an export list.
#[derive(Debug, PartialEq)]
pub enum TypeOrFunction<'a> {
    Type(Type<'a>),
    Function(Function<'a>),
}

/// The export clause of a module header.
#[derive(Debug, PartialEq)]
pub enum ElmModule<'a> {
    All,
    List(Vec<TypeOrFunction<'a>>),
}

/// One top-level item of a module body.
#[derive(Debug, PartialEq)]
pub enum ElmCode<'a> {
    Comment,
    Declaration,
    Ignore,
    Function(Function<'a>),
    Type(Type<'a>),
}

/// The text of each term of a signature.
pub open spec fn signature_view(sig: Seq<String>) -> Seq<Seq<char>> {
    Seq::new(sig.len(), |i: int| sig[i]@)
}

/// The text of an optional string.
pub open spec fn optional_text(s: Option<&str>) -> Option<Seq<char>> {
    match s {
        Some(t) => Some(t@),
        None => None,
    }
}

/// The terms of an optional signature.
pub open spec fn optional_signature(s: Option<TypeSignature>) -> Option<Seq<Seq<char>>> {
    match s {
        Some(t) => Some(signature_view(t@)),
        None => None,
    }
}

/// A type, as text.
pub struct TypeView {
    pub name: Seq<char>,
    pub definition: Option<Seq<char>>,
}

/// A function, as text.
pub struct FunctionView {
    pub name: Seq<char>,
    pub type_signature: Option<Seq<Seq<char>>>,
}

/// An exported name, as text.
pub enum TypeOrFunctionView {
    Type(TypeView),
    Function(FunctionView),
}

/// An export clause, as text.
pub enum ElmModuleView {
    All,
    List(Seq<TypeOrFunctionView>),
}

/// A body item, as text.
pub enum ElmCodeView {
    Comment,
    Declaration,
    Ignore,
    Function(FunctionView),
    Type(TypeView),
}

impl<'a> View for Type<'a> {
    type V = TypeView;

    open spec fn view(&self) -> TypeView {
        TypeView { name: self.name@, definition: optional_text(self.definition) }
    }
}

impl<'a> View for Function<'a> {
    type V = FunctionView;

    open spec fn view(&self) -> FunctionView {
        FunctionView {
            name: self.name@,
            type_signature: optional_signature(self.type_signature),
        }
    }
}

impl<'a> View for TypeOrFunction<'a> {
    type V = TypeOrFunctionView;

    open spec fn view(&self) -> TypeOrFunctionView {
        match self {
            TypeOrFunction::Type(t) => TypeOrFunctionView::Type(t@),
            TypeOrFunction::Function(f) => TypeOrFunctionView::Function(f@),
        }
    }
}

/// The exported names of a list, as text.
pub open spec fn export_list_view(items: Seq<TypeOrFunction>) -> Seq<TypeOrFunctionView> {
    Seq::new(items.len(), |i: int| items[i]@)
}

impl<'a> View for ElmModule<'a> {
    type V = ElmModuleView;

    open spec fn view(&self) -> ElmModuleView {
        match self {
            ElmModule::All => ElmModuleView::All,
            ElmModule::List(items) => ElmModuleView::List(export_list_view(items@)),
        }
    }
}

impl<'a> View for ElmCode<'a> {
    type V = ElmCodeView;

    open spec fn view(&self) -> ElmCodeView {
        match self {
            ElmCode::Comment => ElmCodeView::Comment,
            ElmCode::Declaration => ElmCodeView::Declaration,
            ElmCode::Ignore => ElmCodeView::Ignore,
            ElmCode::Function(f) => ElmCodeView::Function(f@),
            ElmCode::Type(t) => ElmCodeView::Type(t@),
        }
    }
}

/// The items of a module body, as text.
pub open spec fn body_view(items: Seq<ElmCode>) -> Seq<ElmCodeView> {
    Seq::new(items.len(), |i: int| items[i]@)
}

impl TypeOrFunctionView {
    /// The exported name.
    pub open spec fn name(self) -> Seq<char> {
        match self {
            TypeOrFunctionView::Type(t) => t.name,
            TypeOrFunctionView::Function(f) => f.name,
        }
    }
}

} // verus!
