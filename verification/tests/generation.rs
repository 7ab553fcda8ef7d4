use generator::artifact::{
    ArgType, Argument, Builder, Field, Initializer, MethodAction, Module, ResourceAction, TypeDef,
};
use generator::method_builder;
use generator::resource_builder::module_of;
use generator::{generate, generate_service, Method, Param, ParamType, Resource, ServiceDescription, TypePath};

const ROOT: &str = "https://www.googleapis.com/";
const PATH: &str = "drive/v3/";

fn plain(name: &str) -> TypePath {
    TypePath { absolute: false, segments: vec![name.to_string()] }
}

fn schema(name: &str) -> TypePath {
    TypePath { absolute: true, segments: vec!["schemas".to_string(), name.to_string()] }
}

fn corpus() -> ParamType {
    ParamType::Enumeration {
        ident: "Corpus".to_string(),
        variants: vec!["User".to_string(), "Domain".to_string()],
    }
}

fn leaf(ident: &str) -> Resource {
    Resource { ident: ident.to_string(), methods: vec![], resources: vec![] }
}

fn empty_module(ident: &str, action: &str) -> Module {
    Module {
        ident: ident.to_string(),
        type_defs: vec![],
        action: action.to_string(),
        method_actions: vec![],
        resource_actions: vec![],
        builders: vec![],
        modules: vec![],
    }
}

fn files() -> Resource {
    Resource {
        ident: "files".to_string(),
        methods: vec![Method {
            id: "get".to_string(),
            description: "Gets a file.".to_string(),
            params: vec![Param::new("fileId", true, ParamType::Text)],
            request: None,
        }],
        resources: vec![leaf("permissions")],
    }
}

fn update() -> Method {
    Method {
        id: "update".to_string(),
        description: "Updates a file.".to_string(),
        params: vec![
            Param::new("fileId", true, ParamType::Int64),
            Param::new("corpus", false, corpus()),
        ],
        request: Some(schema("File")),
    }
}

#[test]
fn files_resource_gives_the_expected_module() {
    let made = generate(ROOT, PATH, &[], &files()).unwrap();
    let expected = Module {
        ident: "files".to_string(),
        type_defs: vec![],
        action: "FilesAction".to_string(),
        method_actions: vec![MethodAction {
            doc: "Gets a file.".to_string(),
            ident: "get".to_string(),
            builder: "GetMethodBuilder".to_string(),
            args: vec![Argument {
                name: "file_id".to_string(),
                ty: ArgType::Convertible(plain("String")),
            }],
            inits: vec![Initializer::Converted("file_id".to_string())],
        }],
        resource_actions: vec![ResourceAction {
            doc: "Actions that can be performed on the permissions resource".to_string(),
            ident: "permissions".to_string(),
            action: "PermissionsAction".to_string(),
        }],
        builders: vec![Builder {
            name: "GetMethodBuilder".to_string(),
            base_url: "https://www.googleapis.com/drive/v3/".to_string(),
            fields: vec![Field { name: "file_id".to_string(), ty: plain("String"), optional: false }],
        }],
        modules: vec![empty_module("permissions", "PermissionsAction")],
    };
    assert_eq!(made, expected);
}

#[test]
fn request_body_and_two_params() {
    let resource = Resource { ident: "files".to_string(), methods: vec![update()], resources: vec![] };
    let made = generate(ROOT, PATH, &[], &resource).unwrap();
    let callable = &made.method_actions[0];
    assert_eq!(
        callable.args,
        vec![
            Argument { name: "request".to_string(), ty: ArgType::ByValue(schema("File")) },
            Argument { name: "file_id".to_string(), ty: ArgType::ByValue(plain("i64")) },
        ]
    );
    assert_eq!(
        callable.inits,
        vec![
            Initializer::Shorthand("request".to_string()),
            Initializer::Shorthand("file_id".to_string()),
            Initializer::Absent("corpus".to_string()),
        ]
    );
    assert_eq!(
        made.type_defs,
        vec![TypeDef {
            ident: "Corpus".to_string(),
            variants: vec!["User".to_string(), "Domain".to_string()],
        }]
    );
    assert_eq!(
        made.builders[0].fields,
        vec![
            Field { name: "request".to_string(), ty: schema("File"), optional: false },
            Field { name: "file_id".to_string(), ty: plain("i64"), optional: false },
            Field {
                name: "corpus".to_string(),
                ty: TypePath {
                    absolute: false,
                    segments: vec!["params".to_string(), "Corpus".to_string()],
                },
                optional: true,
            },
        ]
    );
}

#[test]
fn method_without_params_or_body() {
    let method =
        Method { id: "list".to_string(), description: "Lists.".to_string(), params: vec![], request: None };
    let callable = method_builder::action(&[], &method);
    assert_eq!(callable.ident, "list");
    assert_eq!(callable.builder, "ListMethodBuilder");
    assert_eq!(callable.doc, "Lists.");
    assert!(callable.args.is_empty());
    assert!(callable.inits.is_empty());
    let made = method_builder::generate(ROOT, PATH, &[], &method);
    assert_eq!(made.name, "ListMethodBuilder");
    assert!(made.fields.is_empty());
}

#[test]
fn required_arguments_keep_declared_order_and_skip_optional_ones() {
    let method = Method {
        id: "search".to_string(),
        description: String::new(),
        params: vec![
            Param::new("a", false, ParamType::Text),
            Param::new("b", true, ParamType::Boolean),
            Param::new("c", false, ParamType::Int32),
            Param::new("d", true, ParamType::Text),
            Param::new("e", true, corpus()),
        ],
        request: None,
    };
    let globals = vec![
        Param::new("alt", false, ParamType::Text),
        Param::new("key", true, ParamType::Text),
    ];
    let callable = method_builder::action(&globals, &method);
    let names: Vec<&str> = callable.args.iter().map(|arg| arg.name.as_str()).collect();
    assert_eq!(names, vec!["b", "d", "e"]);
    assert_eq!(callable.args[0].ty, ArgType::ByValue(plain("bool")));
    assert_eq!(callable.args[1].ty, ArgType::Convertible(plain("String")));
    assert_eq!(
        callable.args[2].ty,
        ArgType::ByValue(TypePath {
            absolute: false,
            segments: vec!["params".to_string(), "Corpus".to_string()],
        })
    );
    let without_globals = method_builder::action(&[], &method);
    assert_eq!(without_globals.args, callable.args);
}

#[test]
fn shared_parameters_start_empty_even_if_required() {
    let globals = vec![
        Param::new("alt", false, ParamType::Text),
        Param::new("key", true, ParamType::Text),
    ];
    let callable = method_builder::action(&globals, &update());
    assert_eq!(
        callable.inits,
        vec![
            Initializer::Shorthand("request".to_string()),
            Initializer::Absent("alt".to_string()),
            Initializer::Absent("key".to_string()),
            Initializer::Shorthand("file_id".to_string()),
            Initializer::Absent("corpus".to_string()),
        ]
    );
    let made = method_builder::generate(ROOT, PATH, &globals, &update());
    let shape: Vec<(&str, bool)> =
        made.fields.iter().map(|field| (field.name.as_str(), field.optional)).collect();
    assert_eq!(
        shape,
        vec![("request", false), ("alt", true), ("key", true), ("file_id", false), ("corpus", true)]
    );
    assert_eq!(made.fields.len(), callable.inits.len());
}

#[test]
fn required_text_is_converted_and_other_required_types_are_not() {
    let method = Method {
        id: "m".to_string(),
        description: String::new(),
        params: vec![
            Param::new("name", true, ParamType::Text),
            Param::new("count", true, ParamType::UInt32),
            Param::new("ratio", true, ParamType::Double),
            Param::new("note", false, ParamType::Text),
        ],
        request: None,
    };
    let callable = method_builder::action(&[], &method);
    assert_eq!(
        callable.inits,
        vec![
            Initializer::Converted("name".to_string()),
            Initializer::Shorthand("count".to_string()),
            Initializer::Shorthand("ratio".to_string()),
            Initializer::Absent("note".to_string()),
        ]
    );
}

#[test]
fn filled_fields_are_the_arguments() {
    let globals = vec![Param::new("key", true, ParamType::Text)];
    let callable = method_builder::action(&globals, &update());
    let filled: Vec<&str> = callable
        .inits
        .iter()
        .filter_map(|init| match init {
            Initializer::Shorthand(name) | Initializer::Converted(name) => Some(name.as_str()),
            Initializer::Absent(_) => None,
        })
        .collect();
    let taken: Vec<&str> = callable.args.iter().map(|arg| arg.name.as_str()).collect();
    assert_eq!(filled, taken);
    assert_eq!(taken, vec!["request", "file_id"]);
}

#[test]
fn callables_refer_to_what_is_emitted_beside_them() {
    let made = generate(ROOT, PATH, &[], &files()).unwrap();
    assert_eq!(made.method_actions.len(), made.builders.len());
    for (callable, builder) in made.method_actions.iter().zip(made.builders.iter()) {
        assert_eq!(callable.builder, builder.name);
    }
    assert_eq!(made.resource_actions.len(), made.modules.len());
    for (callable, module) in made.resource_actions.iter().zip(made.modules.iter()) {
        assert_eq!(callable.ident, module.ident);
        assert_eq!(callable.action, module.action);
    }
}

#[test]
fn base_url_is_root_followed_by_path() {
    let made = method_builder::generate("https://example.com/", "api/v1/", &[], &update());
    assert_eq!(made.base_url, "https://example.com/api/v1/");
    let made = method_builder::generate("", "", &[], &update());
    assert_eq!(made.base_url, "");
}

#[test]
fn type_definitions_follow_methods_then_params_and_are_not_merged() {
    let status = ParamType::Enumeration {
        ident: "Status".to_string(),
        variants: vec!["On".to_string(), "Off".to_string()],
    };
    let first = Method {
        id: "first".to_string(),
        description: String::new(),
        params: vec![
            Param::new("s", false, status.copy()),
            Param::new("n", false, ParamType::Int32),
            Param::new("c", true, corpus()),
        ],
        request: None,
    };
    let second = Method {
        id: "second".to_string(),
        description: String::new(),
        params: vec![Param::new("c", false, corpus())],
        request: None,
    };
    let resource = Resource { ident: "r".to_string(), methods: vec![first, second], resources: vec![] };
    let globals = vec![Param::new("g", false, status.copy())];
    let made = generate(ROOT, PATH, &globals, &resource).unwrap();
    let names: Vec<&str> = made.type_defs.iter().map(|def| def.ident.as_str()).collect();
    assert_eq!(names, vec!["Status", "Corpus", "Corpus"]);
}

fn tree() -> Resource {
    Resource {
        ident: "a".to_string(),
        methods: vec![],
        resources: vec![
            Resource {
                ident: "b".to_string(),
                methods: vec![],
                resources: vec![Resource {
                    ident: "d".to_string(),
                    methods: vec![],
                    resources: vec![leaf("e")],
                }],
            },
            leaf("c"),
            Resource { ident: "f".to_string(), methods: vec![], resources: vec![leaf("g"), leaf("h")] },
        ],
    }
}

fn shape(module: &Module) -> String {
    let children: Vec<String> = module.modules.iter().map(shape).collect();
    format!("{}[{}]", module.ident, children.join(","))
}

fn resource_shape(resource: &Resource) -> String {
    let children: Vec<String> = resource.resources.iter().map(resource_shape).collect();
    format!("{}[{}]", resource.ident, children.join(","))
}

#[test]
fn modules_nest_as_resources_do() {
    let made = generate(ROOT, PATH, &[], &tree()).unwrap();
    assert_eq!(shape(&made), "a[b[d[e[]]],c[],f[g[],h[]]]");
    assert_eq!(shape(&made), resource_shape(&tree()));
    let callables: Vec<&str> =
        made.resource_actions.iter().map(|callable| callable.ident.as_str()).collect();
    assert_eq!(callables, vec!["b", "c", "f"]);
    assert_eq!(made.modules[0].modules[0].resource_actions[0].action, "EAction");
}

#[test]
fn resource_without_children_gives_module_without_modules() {
    let made = generate(ROOT, PATH, &[], &leaf("alone")).unwrap();
    assert_eq!(made, empty_module("alone", "AloneAction"));
}

#[test]
fn generation_is_repeatable() {
    let globals = vec![Param::new("alt", false, ParamType::Text)];
    let first = generate(ROOT, PATH, &globals, &files());
    let second = generate(ROOT, PATH, &globals, &files());
    assert_eq!(first, second);
    let first = generate(ROOT, PATH, &globals, &tree());
    let second = generate(ROOT, PATH, &globals, &tree());
    assert_eq!(first, second);
}

#[test]
fn service_generation_is_generation_of_its_parts() {
    let globals = vec![Param::new("alt", false, ParamType::Text)];
    let service = ServiceDescription {
        root_url: ROOT.to_string(),
        service_path: PATH.to_string(),
        global_params: vec![Param::new("alt", false, ParamType::Text)],
        resource: files(),
    };
    assert_eq!(generate_service(&service), generate(ROOT, PATH, &globals, &files()));
    assert_eq!(
        generate_service(&service).unwrap().builders[0].fields[0],
        Field { name: "alt".to_string(), ty: plain("String"), optional: true }
    );
}

#[test]
fn module_of_agrees_with_generate_on_a_sound_description() {
    assert_eq!(module_of(ROOT, PATH, &[], &files()), generate(ROOT, PATH, &[], &files()).unwrap());
}
