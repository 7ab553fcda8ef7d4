//! The description of a service: its resources, their methods and the
//! parameters of the methods.
//!
//! A description is read, never changed. How a parameter is handed to the
//! callable of its method follows from its type alone.

use crate::artifact::{TypeDef, TypeDefView};
use crate::naming::{camel_case, is_identifier, snake_case, to_rust_typestr, to_rust_varstr};
use crate::path::{all_identifiers, identifiers, plain_path, TypePath, TypePathView};
use crate::text::{copy_text, copy_texts, distinct, find_repeat, lemma_first_repeat, texts, views};
use vstd::prelude::*;
use vstd::string::StringExecFns;

verus! {

/// The type of a parameter: a primitive, or an enumeration that needs a
/// definition of its own in the emitted code.
#[derive(Debug, PartialEq, Eq)]
pub enum ParamType {
    Text,
    Boolean,
    Int32,
    UInt32,
    Int64,
    UInt64,
    Float,
    Double,
    Enumeration { ident: String, variants: Vec<String> },
}

#[verifier::ext_equal]
pub enum ParamTypeView {
    Text,
    Boolean,
    Int32,
    UInt32,
    Int64,
    UInt64,
    Float,
    Double,
    Enumeration { ident: Seq<char>, variants: Seq<Seq<char>> },
}

impl View for ParamType {
    type V = ParamTypeView;

    open spec fn view(&self) -> ParamTypeView {
        match self {
            ParamType::Text => ParamTypeView::Text,
            ParamType::Boolean => ParamTypeView::Boolean,
            ParamType::Int32 => ParamTypeView::Int32,
            ParamType::UInt32 => ParamTypeView::UInt32,
            ParamType::Int64 => ParamTypeView::Int64,
            ParamType::UInt64 => ParamTypeView::UInt64,
            ParamType::Float => ParamTypeView::Float,
            ParamType::Double => ParamTypeView::Double,
            ParamType::Enumeration { ident, variants } => ParamTypeView::Enumeration {
                ident: ident@,
                variants: texts(variants@),
            },
        }
    }
}

/// How the callable of a method takes a required parameter.
#[derive(Debug, PartialEq, Eq)]
pub enum ParamInitMethod {
    /// Any value that converts into the given type.
    IntoImpl(TypePath),
    /// A value of the parameter's own type.
    ByValue,
}

#[verifier::ext_equal]
pub enum ParamInitMethodView {
    IntoImpl(TypePathView),
    ByValue,
}

impl View for ParamInitMethod {
    type V = ParamInitMethodView;

    open spec fn view(&self) -> ParamInitMethodView {
        match self {
            ParamInitMethod::IntoImpl(path) => ParamInitMethodView::IntoImpl(path@),
            ParamInitMethod::ByValue => ParamInitMethodView::ByValue,
        }
    }
}

impl ParamTypeView {
    /// An enumeration has an identifier for its name and distinct
    /// identifiers for its variants. A primitive is always valid.
    pub open spec fn valid(self) -> bool {
        match self {
            ParamTypeView::Enumeration { ident, variants } => {
                &&& is_identifier(ident)
                &&& all_identifiers(variants)
                &&& distinct(variants)
            },
            _ => true,
        }
    }

    /// The type as the emitted code writes it. The definition of an
    /// enumeration lies in the module `params` of the resource.
    pub open spec fn type_path(self) -> TypePathView {
        match self {
            ParamTypeView::Text => plain_path("String"@),
            ParamTypeView::Boolean => plain_path("bool"@),
            ParamTypeView::Int32 => plain_path("i32"@),
            ParamTypeView::UInt32 => plain_path("u32"@),
            ParamTypeView::Int64 => plain_path("i64"@),
            ParamTypeView::UInt64 => plain_path("u64"@),
            ParamTypeView::Float => plain_path("f32"@),
            ParamTypeView::Double => plain_path("f64"@),
            ParamTypeView::Enumeration { ident, variants } => TypePathView {
                absolute: false,
                segments: seq!["params"@, ident],
            },
        }
    }

    /// Text is taken by conversion, every other type by value.
    pub open spec fn init_method(self) -> ParamInitMethodView {
        match self {
            ParamTypeView::Text => ParamInitMethodView::IntoImpl(self.type_path()),
            _ => ParamInitMethodView::ByValue,
        }
    }

    /// The definition that the type needs, if it needs one.
    pub open spec fn type_def(self) -> Option<TypeDefView> {
        match self {
            ParamTypeView::Enumeration { ident, variants } => Some(TypeDefView { ident, variants }),
            _ => None,
        }
    }
}

impl ParamType {
    /// A copy of this type.
    pub fn copy(&self) -> (typ: ParamType)
        ensures
            typ@ == self@,
    {
        match self {
            ParamType::Text => ParamType::Text,
            ParamType::Boolean => ParamType::Boolean,
            ParamType::Int32 => ParamType::Int32,
            ParamType::UInt32 => ParamType::UInt32,
            ParamType::Int64 => ParamType::Int64,
            ParamType::UInt64 => ParamType::UInt64,
            ParamType::Float => ParamType::Float,
            ParamType::Double => ParamType::Double,
            ParamType::Enumeration { ident, variants } => ParamType::Enumeration {
                ident: copy_text(ident.as_str()),
                variants: copy_texts(variants),
            },
        }
    }

    /// Whether this type is valid.
    pub fn is_valid(&self) -> (valid: bool)
        ensures
            valid == self@.valid(),
    {
        match self {
            ParamType::Enumeration { ident, variants } => {
                proof {
                    lemma_first_repeat(texts(variants@), variants@.len());
                    texts(variants@).lemma_take_len();
                }
                crate::naming::is_ident(ident.as_str()) && identifiers(variants) && find_repeat(
                    variants,
                ).is_none()
            },
            _ => true,
        }
    }

    /// The type as the emitted code writes it.
    pub fn type_path(&self) -> (path: TypePath)
        ensures
            path@ == self@.type_path(),
    {
        match self {
            ParamType::Text => TypePath::plain("String"),
            ParamType::Boolean => TypePath::plain("bool"),
            ParamType::Int32 => TypePath::plain("i32"),
            ParamType::UInt32 => TypePath::plain("u32"),
            ParamType::Int64 => TypePath::plain("i64"),
            ParamType::UInt64 => TypePath::plain("u64"),
            ParamType::Float => TypePath::plain("f32"),
            ParamType::Double => TypePath::plain("f64"),
            ParamType::Enumeration { ident, variants } => {
                let mut segments: Vec<String> = Vec::new();
                segments.push(String::from_str("params"));
                segments.push(copy_text(ident.as_str()));
                assert(texts(segments@) =~= seq!["params"@, ident@]);
                TypePath { absolute: false, segments }
            },
        }
    }

    /// How a required parameter of this type is taken.
    pub fn init_method(&self) -> (method: ParamInitMethod)
        ensures
            method@ == self@.init_method(),
    {
        match self {
            ParamType::Text => ParamInitMethod::IntoImpl(self.type_path()),
            _ => ParamInitMethod::ByValue,
        }
    }

    /// The definition that the type needs, if it needs one.
    pub fn type_def(&self) -> (def: Option<TypeDef>)
        ensures
            match def {
                Some(d) => self@.type_def() == Some(d@),
                None => self@.type_def() is None,
            },
    {
        match self {
            ParamType::Enumeration { ident, variants } => Some(
                TypeDef { ident: copy_text(ident.as_str()), variants: copy_texts(variants) },
            ),
            _ => None,
        }
    }
}

/// A parameter of a method, or one that every method of the service shares.
#[derive(Debug, PartialEq, Eq)]
pub struct Param {
    pub ident: String,
    pub required: bool,
    pub typ: ParamType,
}

#[verifier::ext_equal]
pub struct ParamView {
    pub ident: Seq<char>,
    pub required: bool,
    pub typ: ParamTypeView,
}

impl View for Param {
    type V = ParamView;

    open spec fn view(&self) -> ParamView {
        ParamView { ident: self.ident@, required: self.required, typ: self.typ@ }
    }
}

impl ParamView {
    /// A parameter has an identifier for its name and a valid type.
    pub open spec fn valid(self) -> bool {
        is_identifier(self.ident) && self.typ.valid()
    }
}

impl Param {
    /// The parameter that a schema calls `name`.
    pub fn new(name: &str, required: bool, typ: ParamType) -> (param: Param)
        ensures
            param@ == (ParamView { ident: snake_case(name@), required, typ: typ@ }),
            typ@.valid() ==> param@.valid(),
    {
        Param { ident: to_rust_varstr(name), required, typ }
    }

    /// How the parameter is taken where it is required.
    pub fn init_method(&self) -> (method: ParamInitMethod)
        ensures
            method@ == self@.typ.init_method(),
    {
        self.typ.init_method()
    }

    /// Whether this parameter is valid.
    pub fn is_valid(&self) -> (valid: bool)
        ensures
            valid == self@.valid(),
    {
        crate::naming::is_ident(self.ident.as_str()) && self.typ.is_valid()
    }
}

/// An operation on a resource.
#[derive(Debug, PartialEq, Eq)]
pub struct Method {
    pub id: String,
    pub description: String,
    pub params: Vec<Param>,
    pub request: Option<TypePath>,
}

#[verifier::ext_equal]
pub struct MethodView {
    pub id: Seq<char>,
    pub description: Seq<char>,
    pub params: Seq<ParamView>,
    pub request: Option<TypePathView>,
}

/// The view of an optional path.
pub open spec fn optional_path(path: Option<TypePath>) -> Option<TypePathView> {
    match path {
        Some(p) => Some(p@),
        None => None,
    }
}

impl View for Method {
    type V = MethodView;

    open spec fn view(&self) -> MethodView {
        MethodView {
            id: self.id@,
            description: self.description@,
            params: views(self.params@),
            request: optional_path(self.request),
        }
    }
}

impl MethodView {
    /// The name of the callable: the method's id in snake case.
    pub open spec fn action_ident(self) -> Seq<char> {
        snake_case(self.id)
    }

    /// The name of the builder type: the method's id in camel case, and
    /// `MethodBuilder`.
    pub open spec fn builder_name(self) -> Seq<char> {
        camel_case(self.id) + "MethodBuilder"@
    }
}

impl Method {
    /// The name of the method's callable.
    pub fn action_ident(&self) -> (ident: String)
        ensures
            ident@ == self@.action_ident(),
    {
        to_rust_varstr(self.id.as_str())
    }

    /// The name of the method's builder type.
    pub fn builder_name(&self) -> (name: String)
        ensures
            name@ == self@.builder_name(),
    {
        to_rust_typestr(self.id.as_str()).concat("MethodBuilder")
    }
}

/// A node of the service's tree: its methods and its child resources.
#[derive(Debug, PartialEq, Eq)]
pub struct Resource {
    pub ident: String,
    pub methods: Vec<Method>,
    pub resources: Vec<Resource>,
}

#[verifier::ext_equal]
pub struct ResourceView {
    pub ident: Seq<char>,
    pub methods: Seq<MethodView>,
    pub resources: Seq<ResourceView>,
}

/// The view of a resource: its name, and the views of its methods and of
/// its child resources in their order.
pub open spec fn resource_view(r: Resource) -> ResourceView
    decreases r,
{
    ResourceView {
        ident: r.ident@,
        methods: views(r.methods@),
        resources: Seq::new(
            r.resources@.len(),
            |i: int|
                if 0 <= i < r.resources@.len() {
                    resource_view(r.resources@[i])
                } else {
                    arbitrary()
                },
        ),
    }
}

impl View for Resource {
    type V = ResourceView;

    open spec fn view(&self) -> ResourceView {
        resource_view(*self)
    }
}

impl ResourceView {
    /// The name of the action type: the resource's name in camel case, and
    /// `Action`.
    pub open spec fn action_type_name(self) -> Seq<char> {
        camel_case(self.ident) + "Action"@
    }

    /// How many levels of resources lie below this one.
    pub open spec fn depth(self) -> nat
        decreases self, 0nat,
    {
        deepest_resource(self.resources, self.resources.len())
    }
}

/// One more than the greatest depth among the first `n` of `resources`; zero
/// where there is none.
pub open spec fn deepest_resource(resources: Seq<ResourceView>, n: nat) -> nat
    decreases resources, n,
{
    if n == 0 || n > resources.len() {
        0
    } else {
        let before = deepest_resource(resources, (n - 1) as nat);
        let here = resources[n - 1].depth() + 1;
        if here > before {
            here
        } else {
            before
        }
    }
}

impl Resource {
    /// The name of the resource's action type.
    pub fn action_type_name(&self) -> (name: String)
        ensures
            name@ == self@.action_type_name(),
    {
        to_rust_typestr(self.ident.as_str()).concat("Action")
    }
}

/// A service: the address of its root, the path of the service below it, the
/// parameters that all its methods share, and its tree of resources.
#[derive(Debug, PartialEq, Eq)]
pub struct ServiceDescription {
    pub root_url: String,
    pub service_path: String,
    pub global_params: Vec<Param>,
    pub resource: Resource,
}

#[verifier::ext_equal]
pub struct ServiceDescriptionView {
    pub root_url: Seq<char>,
    pub service_path: Seq<char>,
    pub global_params: Seq<ParamView>,
    pub resource: ResourceView,
}

impl View for ServiceDescription {
    type V = ServiceDescriptionView;

    open spec fn view(&self) -> ServiceDescriptionView {
        ServiceDescriptionView {
            root_url: self.root_url@,
            service_path: self.service_path@,
            global_params: views(self.global_params@),
            resource: self.resource@,
        }
    }
}

} // verus!
