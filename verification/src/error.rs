//! What can be wrong with a description or with the manifest template.

use vstd::prelude::*;

verus! {

/// Why a description cannot be turned into a client.
///
/// Each error names the resource it was found in, the method where it lies
/// within one, and the parameter or identifier concerned.
#[derive(Debug, PartialEq, Eq)]
pub enum GenerateError {
    /// An identifier, a type path or a parameter type has no valid shape.
    SchemaShape { resource: String, method: Option<String>, param: Option<String> },
    /// Two items that share a scope of the emitted code have one name.
    IdentifierCollision { resource: String, method: Option<String>, ident: String },
}

#[verifier::ext_equal]
pub enum GenerateErrorView {
    SchemaShape { resource: Seq<char>, method: Option<Seq<char>>, param: Option<Seq<char>> },
    IdentifierCollision { resource: Seq<char>, method: Option<Seq<char>>, ident: Seq<char> },
}

/// The text of an optional string.
pub open spec fn optional_text(s: Option<String>) -> Option<Seq<char>> {
    match s {
        Some(text) => Some(text@),
        None => None,
    }
}

impl View for GenerateError {
    type V = GenerateErrorView;

    open spec fn view(&self) -> GenerateErrorView {
        match self {
            GenerateError::SchemaShape { resource, method, param } => GenerateErrorView::SchemaShape {
                resource: resource@,
                method: optional_text(*method),
                param: optional_text(*param),
            },
            GenerateError::IdentifierCollision {
                resource,
                method,
                ident,
            } => GenerateErrorView::IdentifierCollision {
                resource: resource@,
                method: optional_text(*method),
                ident: ident@,
            },
        }
    }
}

/// Why no manifest can be made of a template.
#[derive(Debug, Clone, Copy, PartialEq, Eq)]
pub enum ManifestError {
    /// The template is no TOML document.
    TemplateSyntax,
    /// The template has no field for the package's name or for its version.
    TemplateField,
}

} // verus!
