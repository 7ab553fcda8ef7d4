//! A generator of typed client libraries: from the description of a remote
//! service (a tree of resources, each with methods and their parameters) to
//! the package manifest and the module tree of a client for it.

pub mod artifact;
pub mod cargo;
pub mod check;
pub mod error;
pub mod laws;
pub mod method_builder;
pub mod model;
pub mod naming;
pub mod path;
pub mod render;
pub mod resource_builder;
pub mod text;
pub mod tokens;

pub use crate::cargo::cargo_toml;
pub use crate::error::{GenerateError, ManifestError};
pub use crate::model::{Method, Param, ParamInitMethod, ParamType, Resource, ServiceDescription};
pub use crate::naming::{to_ident, to_rust_typestr, to_rust_varstr};
pub use crate::path::TypePath;
pub use crate::resource_builder::{generate, generate_service};
