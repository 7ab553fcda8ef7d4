//! What the generator emits, as a tree of values: one module for each
//! resource, holding the definitions of its parameter types, its action type
//! with one callable for each method and each child resource, one builder
//! type for each method, and the modules of its child resources.
//!
//! Every action and every builder holds, besides what is listed here, the
//! borrowed handle of the transport.

use crate::path::{TypePath, TypePathView};
use crate::text::{texts, views};
use vstd::prelude::*;

verus! {

/// The definition of a parameter type: an enumeration and its variants.
#[derive(Debug, PartialEq, Eq)]
pub struct TypeDef {
    pub ident: String,
    pub variants: Vec<String>,
}

#[verifier::ext_equal]
pub struct TypeDefView {
    pub ident: Seq<char>,
    pub variants: Seq<Seq<char>>,
}

impl View for TypeDef {
    type V = TypeDefView;

    open spec fn view(&self) -> TypeDefView {
        TypeDefView { ident: self.ident@, variants: texts(self.variants@) }
    }
}

/// How a callable takes an argument: anything that converts into the type,
/// or the type itself.
#[derive(Debug, PartialEq, Eq)]
pub enum ArgType {
    Convertible(TypePath),
    ByValue(TypePath),
}

#[verifier::ext_equal]
pub enum ArgTypeView {
    Convertible(TypePathView),
    ByValue(TypePathView),
}

impl View for ArgType {
    type V = ArgTypeView;

    open spec fn view(&self) -> ArgTypeView {
        match self {
            ArgType::Convertible(path) => ArgTypeView::Convertible(path@),
            ArgType::ByValue(path) => ArgTypeView::ByValue(path@),
        }
    }
}

/// An argument of a method's callable.
#[derive(Debug, PartialEq, Eq)]
pub struct Argument {
    pub name: String,
    pub ty: ArgType,
}

#[verifier::ext_equal]
pub struct ArgumentView {
    pub name: Seq<char>,
    pub ty: ArgTypeView,
}

impl View for Argument {
    type V = ArgumentView;

    open spec fn view(&self) -> ArgumentView {
        ArgumentView { name: self.name@, ty: self.ty@ }
    }
}

/// How a callable fills a field of the builder it makes: with the argument
/// of that name as it is, with that argument converted, or with nothing.
#[derive(Debug, PartialEq, Eq)]
pub enum Initializer {
    Shorthand(String),
    Converted(String),
    Absent(String),
}

#[verifier::ext_equal]
pub enum InitializerView {
    Shorthand(Seq<char>),
    Converted(Seq<char>),
    Absent(Seq<char>),
}

impl View for Initializer {
    type V = InitializerView;

    open spec fn view(&self) -> InitializerView {
        match self {
            Initializer::Shorthand(name) => InitializerView::Shorthand(name@),
            Initializer::Converted(name) => InitializerView::Converted(name@),
            Initializer::Absent(name) => InitializerView::Absent(name@),
        }
    }
}

impl InitializerView {
    /// The field that is filled.
    pub open spec fn field(self) -> Seq<char> {
        match self {
            InitializerView::Shorthand(name) => name,
            InitializerView::Converted(name) => name,
            InitializerView::Absent(name) => name,
        }
    }
}

/// The callable of a method on its resource's action type. It takes the
/// required arguments and returns the method's builder.
#[derive(Debug, PartialEq, Eq)]
pub struct MethodAction {
    pub doc: String,
    pub ident: String,
    pub builder: String,
    pub args: Vec<Argument>,
    pub inits: Vec<Initializer>,
}

#[verifier::ext_equal]
pub struct MethodActionView {
    pub doc: Seq<char>,
    pub ident: Seq<char>,
    pub builder: Seq<char>,
    pub args: Seq<ArgumentView>,
    pub inits: Seq<InitializerView>,
}

impl View for MethodAction {
    type V = MethodActionView;

    open spec fn view(&self) -> MethodActionView {
        MethodActionView {
            doc: self.doc@,
            ident: self.ident@,
            builder: self.builder@,
            args: views(self.args@),
            inits: views(self.inits@),
        }
    }
}

/// The callable of a child resource on its parent's action type. It takes
/// nothing and returns the action type `action` of the module `ident`, made
/// with the transport handle of the action it is called on.
#[derive(Debug, PartialEq, Eq)]
pub struct ResourceAction {
    pub doc: String,
    pub ident: String,
    pub action: String,
}

#[verifier::ext_equal]
pub struct ResourceActionView {
    pub doc: Seq<char>,
    pub ident: Seq<char>,
    pub action: Seq<char>,
}

impl View for ResourceAction {
    type V = ResourceActionView;

    open spec fn view(&self) -> ResourceActionView {
        ResourceActionView { doc: self.doc@, ident: self.ident@, action: self.action@ }
    }
}

/// A field of a builder. An optional field holds nothing until it is set.
#[derive(Debug, PartialEq, Eq)]
pub struct Field {
    pub name: String,
    pub ty: TypePath,
    pub optional: bool,
}

#[verifier::ext_equal]
pub struct FieldView {
    pub name: Seq<char>,
    pub ty: TypePathView,
    pub optional: bool,
}

impl View for Field {
    type V = FieldView;

    open spec fn view(&self) -> FieldView {
        FieldView { name: self.name@, ty: self.ty@, optional: self.optional }
    }
}

/// The builder type of a method: its name, the address that its requests go
/// to, and its fields.
#[derive(Debug, PartialEq, Eq)]
pub struct Builder {
    pub name: String,
    pub base_url: String,
    pub fields: Vec<Field>,
}

#[verifier::ext_equal]
pub struct BuilderView {
    pub name: Seq<char>,
    pub base_url: Seq<char>,
    pub fields: Seq<FieldView>,
}

impl View for Builder {
    type V = BuilderView;

    open spec fn view(&self) -> BuilderView {
        BuilderView { name: self.name@, base_url: self.base_url@, fields: views(self.fields@) }
    }
}

/// The module of a resource.
#[derive(Debug, PartialEq, Eq)]
pub struct Module {
    pub ident: String,
    pub type_defs: Vec<TypeDef>,
    pub action: String,
    pub method_actions: Vec<MethodAction>,
    pub resource_actions: Vec<ResourceAction>,
    pub builders: Vec<Builder>,
    pub modules: Vec<Module>,
}

#[verifier::ext_equal]
pub struct ModuleView {
    pub ident: Seq<char>,
    pub type_defs: Seq<TypeDefView>,
    pub action: Seq<char>,
    pub method_actions: Seq<MethodActionView>,
    pub resource_actions: Seq<ResourceActionView>,
    pub builders: Seq<BuilderView>,
    pub modules: Seq<ModuleView>,
}

/// The view of a module: the views of its parts, in their order.
pub open spec fn module_view(m: Module) -> ModuleView
    decreases m,
{
    ModuleView {
        ident: m.ident@,
        type_defs: views(m.type_defs@),
        action: m.action@,
        method_actions: views(m.method_actions@),
        resource_actions: views(m.resource_actions@),
        builders: views(m.builders@),
        modules: Seq::new(
            m.modules@.len(),
            |i: int|
                if 0 <= i < m.modules@.len() {
                    module_view(m.modules@[i])
                } else {
                    arbitrary()
                },
        ),
    }
}

impl View for Module {
    type V = ModuleView;

    open spec fn view(&self) -> ModuleView {
        module_view(*self)
    }
}

impl ModuleView {
    /// How many levels of modules lie below this one.
    pub open spec fn depth(self) -> nat
        decreases self, 0nat,
    {
        deepest(self.modules, self.modules.len())
    }
}

/// One more than the greatest depth among the first `n` of `modules`; zero
/// where there is none.
pub open spec fn deepest(modules: Seq<ModuleView>, n: nat) -> nat
    decreases modules, n,
{
    if n == 0 || n > modules.len() {
        0
    } else {
        let before = deepest(modules, (n - 1) as nat);
        let here = modules[n - 1].depth() + 1;
        if here > before {
            here
        } else {
            before
        }
    }
}

} // verus!
