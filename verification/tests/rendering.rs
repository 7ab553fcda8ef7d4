use generator::method_builder;
use generator::render::{render, render_builder, render_method_action, token_stream};
use generator::tokens::{push_base_url_item, push_doc_attribute};
use generator::{generate, Method, Param, ParamType, Resource, TypePath};

const ROOT: &str = "https://www.googleapis.com/";
const PATH: &str = "drive/v3/";

fn files() -> Resource {
    Resource {
        ident: "files".to_string(),
        methods: vec![Method {
            id: "get".to_string(),
            description: "Gets a file.".to_string(),
            params: vec![Param::new("fileId", true, ParamType::Text)],
            request: None,
        }],
        resources: vec![Resource {
            ident: "permissions".to_string(),
            methods: vec![],
            resources: vec![],
        }],
    }
}

fn update() -> Method {
    Method {
        id: "update".to_string(),
        description: "Updates \"a\" file.\nCarefully".to_string(),
        params: vec![
            Param::new("fileId", true, ParamType::Int64),
            Param::new(
                "corpus",
                false,
                ParamType::Enumeration {
                    ident: "Corpus".to_string(),
                    variants: vec!["User".to_string(), "Domain".to_string()],
                },
            ),
        ],
        request: Some(TypePath {
            absolute: true,
            segments: vec!["schemas".to_string(), "File".to_string()],
        }),
    }
}

const FILES_TEXT: &str = "pub mod files {
pub mod params {
}
pub struct FilesAction<'a> {
pub(super) reqwest: &'a reqwest::Client,
}
impl<'a> FilesAction<'a> {
#[doc = \"Gets a file.\"]
pub fn get(&self, file_id: impl Into<String>) -> GetMethodBuilder {
GetMethodBuilder {
reqwest: &self.reqwest,
file_id: file_id.into(),
}
}
#[doc = \"Actions that can be performed on the permissions resource\"]
pub fn permissions(&self) -> permissions::PermissionsAction {
permissions::PermissionsAction {
reqwest: &self.reqwest,
}
}
}
pub struct GetMethodBuilder<'a> {
reqwest: &'a reqwest::Client,
file_id: String,
}
impl<'a> GetMethodBuilder<'a> {
pub const BASE_URL: &'static str = \"https://www.googleapis.com/drive/v3/\";
}
pub mod permissions {
pub mod params {
}
pub struct PermissionsAction<'a> {
pub(super) reqwest: &'a reqwest::Client,
}
impl<'a> PermissionsAction<'a> {
}
}
}
";

#[test]
fn files_module_text() {
    let made = generate(ROOT, PATH, &[], &files()).unwrap();
    assert_eq!(render(&made), FILES_TEXT);
}

#[test]
fn files_module_text_is_a_source_file() {
    let made = generate(ROOT, PATH, &[], &files()).unwrap();
    let file = syn::parse_file(&render(&made)).unwrap();
    assert_eq!(file.items.len(), 1);
    match &file.items[0] {
        syn::Item::Mod(module) => {
            assert_eq!(module.ident.to_string(), "files");
            let (_, items) = module.content.as_ref().unwrap();
            assert_eq!(items.len(), 6);
            assert!(matches!(items[0], syn::Item::Mod(_)));
            assert!(matches!(items[1], syn::Item::Struct(_)));
            assert!(matches!(items[2], syn::Item::Impl(_)));
            assert!(matches!(items[3], syn::Item::Struct(_)));
            assert!(matches!(items[4], syn::Item::Impl(_)));
            assert!(matches!(items[5], syn::Item::Mod(_)));
        }
        _ => panic!("a module was expected"),
    }
}

#[test]
fn child_callable_hands_on_the_transport_handle() {
    let made = generate(ROOT, PATH, &[], &files()).unwrap();
    let file = syn::parse_file(&render(&made)).unwrap();
    let items = match &file.items[0] {
        syn::Item::Mod(module) => &module.content.as_ref().unwrap().1,
        _ => panic!("a module was expected"),
    };
    let members = match &items[2] {
        syn::Item::Impl(block) => &block.items,
        _ => panic!("an impl was expected"),
    };
    assert_eq!(members.len(), 2);
    let callable = match &members[1] {
        syn::ImplItem::Fn(callable) => callable,
        _ => panic!("a callable was expected"),
    };
    assert_eq!(callable.sig.ident.to_string(), "permissions");
    assert_eq!(callable.sig.inputs.len(), 1);
    assert_eq!(callable.block.stmts.len(), 1);
    let made_action = match &callable.block.stmts[0] {
        syn::Stmt::Expr(syn::Expr::Struct(made_action), None) => made_action,
        _ => panic!("a struct expression was expected"),
    };
    let path: Vec<String> =
        made_action.path.segments.iter().map(|segment| segment.ident.to_string()).collect();
    assert_eq!(path, vec!["permissions", "PermissionsAction"]);
    assert_eq!(made_action.fields.len(), 1);
    match &made_action.fields[0].member {
        syn::Member::Named(name) => assert_eq!(name.to_string(), "reqwest"),
        _ => panic!("a named field was expected"),
    }
    match &made_action.fields[0].expr {
        syn::Expr::Reference(borrowed) => match &*borrowed.expr {
            syn::Expr::Field(field) => match (&*field.base, &field.member) {
                (syn::Expr::Path(base), syn::Member::Named(name)) => {
                    assert!(base.path.is_ident("self"));
                    assert_eq!(name.to_string(), "reqwest");
                }
                _ => panic!("a field of self was expected"),
            },
            _ => panic!("a field was expected"),
        },
        _ => panic!("a borrow was expected"),
    }
}

#[test]
fn method_action_text_with_escaped_documentation() {
    let globals = vec![Param::new("alt", true, ParamType::Text)];
    let callable = method_builder::action(&globals, &update());
    let expected = "#[doc = \"Updates \\\"a\\\" file.\\nCarefully\"]
pub fn update(&self, request: crate::schemas::File, file_id: i64) -> UpdateMethodBuilder {
UpdateMethodBuilder {
reqwest: &self.reqwest,
request,
alt: None,
file_id,
corpus: None,
}
}
";
    assert_eq!(render_method_action(&callable), expected);
}

#[test]
fn builder_text() {
    let globals = vec![Param::new("alt", true, ParamType::Text)];
    let made = method_builder::generate("https://example.com/", "api/", &globals, &update());
    let expected = "pub struct UpdateMethodBuilder<'a> {
reqwest: &'a reqwest::Client,
request: crate::schemas::File,
alt: Option<String>,
file_id: i64,
corpus: Option<params::Corpus>,
}
impl<'a> UpdateMethodBuilder<'a> {
pub const BASE_URL: &'static str = \"https://example.com/api/\";
}
";
    assert_eq!(render_builder(&made), expected);
}

#[test]
fn type_definitions_are_written_into_the_params_module() {
    let resource = Resource { ident: "files".to_string(), methods: vec![update()], resources: vec![] };
    let text = render(&generate(ROOT, PATH, &[], &resource).unwrap());
    assert!(text.starts_with(
        "pub mod files {\npub mod params {\npub enum Corpus {\nUser,\nDomain,\n}\n}\npub struct FilesAction<'a> {\n"
    ));
    assert!(syn::parse_file(&text).is_ok());
}

#[test]
fn rendering_is_repeatable() {
    let first = render(&generate(ROOT, PATH, &[], &files()).unwrap());
    let second = render(&generate(ROOT, PATH, &[], &files()).unwrap());
    assert_eq!(first.as_bytes(), second.as_bytes());
}

#[test]
fn doc_attribute_takes_the_literal_as_it_is() {
    let mut out = "x".to_string();
    push_doc_attribute(&mut out, "\"text\"");
    assert_eq!(out, "x#[doc = \"text\"]\n");
}

#[test]
fn base_url_item_takes_the_literal_as_it_is() {
    let mut out = String::new();
    push_base_url_item(&mut out, "\"u\"");
    assert_eq!(out, "pub const BASE_URL: &'static str = \"u\";\n");
}

#[test]
fn token_stream_holds_the_tokens_of_the_text() {
    let made = generate(ROOT, PATH, &[], &files()).unwrap();
    let stream = token_stream(&made).unwrap();
    let expected: proc_macro2::TokenStream = FILES_TEXT.parse().unwrap();
    assert_eq!(stream.to_string(), expected.to_string());
    assert!(!stream.is_empty());
    let first = stream.into_iter().next().unwrap();
    assert_eq!(first.to_string(), "pub");
}

#[test]
fn token_stream_of_nested_modules_parses_as_a_module() {
    let root = Resource {
        ident: "a".to_string(),
        methods: vec![update()],
        resources: vec![files()],
    };
    let made = generate(ROOT, PATH, &[Param::new("alt", false, ParamType::Text)], &root).unwrap();
    let stream = token_stream(&made).unwrap();
    let module: syn::ItemMod = syn::parse2(stream).unwrap();
    assert_eq!(module.ident.to_string(), "a");
}
