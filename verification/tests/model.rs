use generator::artifact::TypeDef;
use generator::{Method, Param, ParamInitMethod, ParamType, Resource, TypePath};

fn plain(name: &str) -> TypePath {
    TypePath { absolute: false, segments: vec![name.to_string()] }
}

fn corpus() -> ParamType {
    ParamType::Enumeration {
        ident: "Corpus".to_string(),
        variants: vec!["User".to_string(), "Domain".to_string()],
    }
}

#[test]
fn primitive_types_have_plain_paths() {
    assert_eq!(ParamType::Text.type_path(), plain("String"));
    assert_eq!(ParamType::Boolean.type_path(), plain("bool"));
    assert_eq!(ParamType::Int32.type_path(), plain("i32"));
    assert_eq!(ParamType::UInt32.type_path(), plain("u32"));
    assert_eq!(ParamType::Int64.type_path(), plain("i64"));
    assert_eq!(ParamType::UInt64.type_path(), plain("u64"));
    assert_eq!(ParamType::Float.type_path(), plain("f32"));
    assert_eq!(ParamType::Double.type_path(), plain("f64"));
}

#[test]
fn enumeration_lies_in_the_params_module() {
    assert_eq!(
        corpus().type_path(),
        TypePath { absolute: false, segments: vec!["params".to_string(), "Corpus".to_string()] }
    );
}

#[test]
fn text_is_taken_by_conversion() {
    assert_eq!(ParamType::Text.init_method(), ParamInitMethod::IntoImpl(plain("String")));
    let param = Param::new("fileId", true, ParamType::Text);
    assert_eq!(param.init_method(), ParamInitMethod::IntoImpl(plain("String")));
}

#[test]
fn other_types_are_taken_by_value() {
    let types = vec![
        ParamType::Boolean,
        ParamType::Int32,
        ParamType::UInt32,
        ParamType::Int64,
        ParamType::UInt64,
        ParamType::Float,
        ParamType::Double,
        corpus(),
    ];
    for typ in types {
        assert_eq!(typ.init_method(), ParamInitMethod::ByValue);
        let optional = Param { ident: "p".to_string(), required: false, typ: typ.copy() };
        assert_eq!(optional.init_method(), ParamInitMethod::ByValue);
    }
}

#[test]
fn only_an_enumeration_needs_a_definition() {
    assert_eq!(ParamType::Text.type_def(), None);
    assert_eq!(ParamType::Int64.type_def(), None);
    assert_eq!(ParamType::Boolean.type_def(), None);
    assert_eq!(
        corpus().type_def(),
        Some(TypeDef {
            ident: "Corpus".to_string(),
            variants: vec!["User".to_string(), "Domain".to_string()],
        })
    );
}

#[test]
fn param_new_normalises_the_name() {
    let param = Param::new("fileId", true, ParamType::Text);
    assert_eq!(param.ident, "file_id");
    assert!(param.required);
    assert_eq!(param.typ, ParamType::Text);
    assert!(param.is_valid());
    let param = Param::new("type", false, ParamType::Int32);
    assert_eq!(param.ident, "type_");
    assert!(!param.required);
    assert!(param.is_valid());
}

#[test]
fn param_validity_follows_name_and_type() {
    let good = Param { ident: "corpus".to_string(), required: false, typ: corpus() };
    assert!(good.is_valid());
    let bad_name = Param { ident: "file-id".to_string(), required: false, typ: ParamType::Text };
    assert!(!bad_name.is_valid());
    let keyword = Param { ident: "type".to_string(), required: false, typ: ParamType::Text };
    assert!(!keyword.is_valid());
}

#[test]
fn enumeration_validity() {
    assert!(corpus().is_valid());
    assert!(ParamType::Enumeration { ident: "Empty".to_string(), variants: vec![] }.is_valid());
    let bad_name =
        ParamType::Enumeration { ident: "my type".to_string(), variants: vec!["A".to_string()] };
    assert!(!bad_name.is_valid());
    let bad_variant =
        ParamType::Enumeration { ident: "T".to_string(), variants: vec!["a-b".to_string()] };
    assert!(!bad_variant.is_valid());
    let twice = ParamType::Enumeration {
        ident: "T".to_string(),
        variants: vec!["A".to_string(), "B".to_string(), "A".to_string()],
    };
    assert!(!twice.is_valid());
}

#[test]
fn copies_are_equal() {
    assert_eq!(corpus().copy(), corpus());
    assert_eq!(ParamType::Double.copy(), ParamType::Double);
    let path = TypePath { absolute: true, segments: vec!["schemas".to_string(), "File".to_string()] };
    assert_eq!(path.copy(), path);
}

#[test]
fn path_validity() {
    assert!(plain("String").is_valid());
    assert!(TypePath { absolute: true, segments: vec!["schemas".to_string(), "File".to_string()] }
        .is_valid());
    assert!(!TypePath { absolute: false, segments: vec![] }.is_valid());
    assert!(!TypePath { absolute: true, segments: vec![] }.is_valid());
    assert!(!plain("").is_valid());
    assert!(!plain("crate").is_valid());
    assert!(!TypePath { absolute: false, segments: vec!["a".to_string(), "b c".to_string()] }
        .is_valid());
    assert_eq!(TypePath::plain("bool"), plain("bool"));
}

#[test]
fn method_names() {
    let method = Method {
        id: "drive.files.get".to_string(),
        description: String::new(),
        params: vec![],
        request: None,
    };
    assert_eq!(method.action_ident(), "drive_files_get");
    assert_eq!(method.builder_name(), "DriveFilesGetMethodBuilder");
    let method =
        Method { id: "get".to_string(), description: String::new(), params: vec![], request: None };
    assert_eq!(method.action_ident(), "get");
    assert_eq!(method.builder_name(), "GetMethodBuilder");
}

#[test]
fn resource_action_type_name() {
    let resource = Resource { ident: "permissions".to_string(), methods: vec![], resources: vec![] };
    assert_eq!(resource.action_type_name(), "PermissionsAction");
    let resource = Resource { ident: "file_lists".to_string(), methods: vec![], resources: vec![] };
    assert_eq!(resource.action_type_name(), "FileListsAction");
}
