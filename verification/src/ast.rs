//! Data model of one expansion: generic parameters, substitution entries, and
//! the error taxonomy.

use vstd::prelude::*;

verus! {

/// A concrete generic argument: either a type identifier or a lifetime.
/// A lifetime carries its name without the leading tick, so `'a` is stored as
/// `LifetimeName("a")`.
#[derive(Debug)]
pub enum TypeOrLifetime {
    TypeName(String),
    LifetimeName(String),
}

/// Mathematical view of a `TypeOrLifetime`: the same tag over character
/// sequences.
pub enum TypeOrLifetimeView {
    TypeName(Seq<char>),
    LifetimeName(Seq<char>),
}

impl View for TypeOrLifetime {
    type V = TypeOrLifetimeView;

    open spec fn view(&self) -> TypeOrLifetimeView {
        match self {
            TypeOrLifetime::TypeName(s) => TypeOrLifetimeView::TypeName(s@),
            TypeOrLifetime::LifetimeName(s) => TypeOrLifetimeView::LifetimeName(s@),
        }
    }
}

/// One `name = value` pair of a substitution list: `name` nominally names a
/// generic parameter of the target function, `value` is the concrete
/// replacement.
#[derive(Debug)]
pub struct SubstEntry {
    pub name: TypeOrLifetime,
    pub value: TypeOrLifetime,
}

/// Mathematical view of a `SubstEntry`.
pub struct SubstEntryView {
    pub name: TypeOrLifetimeView,
    pub value: TypeOrLifetimeView,
}

impl View for SubstEntry {
    type V = SubstEntryView;

    open spec fn view(&self) -> SubstEntryView {
        SubstEntryView { name: self.name@, value: self.value@ }
    }
}

/// One declared generic parameter of the target function, in declaration
/// order.  A lifetime parameter carries its name without the leading tick.
/// Const parameters take part in no substitution and are carried only so that
/// a declaration list round-trips faithfully.
#[derive(Debug)]
pub enum GenericParam {
    TypeParam(String),
    LifetimeParam(String),
    ConstParam(String),
}

/// Mathematical view of a `GenericParam`.
pub enum GenericParamView {
    TypeParam(Seq<char>),
    LifetimeParam(Seq<char>),
    ConstParam(Seq<char>),
}

impl View for GenericParam {
    type V = GenericParamView;

    open spec fn view(&self) -> GenericParamView {
        match self {
            GenericParam::TypeParam(s) => GenericParamView::TypeParam(s@),
            GenericParam::LifetimeParam(s) => GenericParamView::LifetimeParam(s@),
            GenericParam::ConstParam(s) => GenericParamView::ConstParam(s@),
        }
    }
}

/// What the attribute transform reads of the annotated function: its name and
/// its ordered generic-parameter list.
#[derive(Debug)]
pub struct FnSig {
    pub ident: String,
    pub params: Vec<GenericParam>,
}

/// Mathematical view of a `FnSig`.
pub struct FnSigView {
    pub ident: Seq<char>,
    pub params: Seq<GenericParamView>,
}

impl View for FnSig {
    type V = FnSigView;

    open spec fn view(&self) -> FnSigView {
        FnSigView { ident: self.ident@, params: params_view(self.params@) }
    }
}

/// Why one expansion failed.  `ParseError` covers every malformed input:
/// attribute argument list, function item, or qualified path.
/// `IncompleteInstantiation` carries the name of the first declared type
/// parameter, in declaration order, that no substitution entry matches.
#[derive(Debug, PartialEq, Eq)]
pub enum MonoError {
    ParseError,
    IncompleteInstantiation(String),
}

/// Lifts a sequence of substitution entries to their views.
pub open spec fn entries_view(s: Seq<SubstEntry>) -> Seq<SubstEntryView> {
    s.map_values(|e: SubstEntry| e@)
}

/// Lifts a sequence of generic arguments to their views.
pub open spec fn args_view(s: Seq<TypeOrLifetime>) -> Seq<TypeOrLifetimeView> {
    s.map_values(|a: TypeOrLifetime| a@)
}

/// Lifts a sequence of generic parameters to their views.
pub open spec fn params_view(s: Seq<GenericParam>) -> Seq<GenericParamView> {
    s.map_values(|p: GenericParam| p@)
}

} // verus!
