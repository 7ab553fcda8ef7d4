//! The walk over the tree of resources.
//!
//! A resource becomes a module that holds, in this order: the definitions of
//! the parameter types of its methods, its action type with one callable for
//! each method and one for each child resource, the builder of each method,
//! and the module of each child resource. Everything keeps its declared
//! order, and the modules nest as the resources do.

use crate::artifact::{
    Builder, BuilderView, MethodAction, MethodActionView, Module, ModuleView, ResourceAction,
    ResourceActionView, TypeDef, TypeDefView,
};
use crate::check::{check_description, description_defect, lemma_resource_children};
use crate::error::{GenerateError, GenerateErrorView};
use crate::method_builder;
use crate::model::{
    MethodView, Param, ParamView, Resource, ResourceView, ServiceDescription,
    ServiceDescriptionView,
};
use crate::text::{copy_text, views};
use vstd::prelude::*;
use vstd::string::StringExecFns;

verus! {

pub open spec fn to_type_def() -> spec_fn(ParamView) -> Option<TypeDefView> {
    |p: ParamView| p.typ.type_def()
}

/// The definitions that the parameters of one method need.
pub open spec fn to_type_defs() -> spec_fn(MethodView) -> Seq<TypeDefView> {
    |m: MethodView| m.params.filter_map(to_type_def())
}

/// The definitions of a resource's parameter types: those of each method in
/// turn, and within a method those of each parameter in turn. A type that
/// two parameters share is defined twice.
pub open spec fn type_defs(r: ResourceView) -> Seq<TypeDefView> {
    r.methods.flat_map(to_type_defs())
}

/// The callable of a child resource.
pub open spec fn resource_action(child: ResourceView) -> ResourceActionView {
    ResourceActionView {
        doc: "Actions that can be performed on the "@ + child.ident + " resource"@,
        ident: child.ident,
        action: child.action_type_name(),
    }
}

pub open spec fn to_resource_action() -> spec_fn(ResourceView) -> ResourceActionView {
    |child: ResourceView| resource_action(child)
}

pub open spec fn to_method_action(globals: Seq<ParamView>) -> spec_fn(MethodView) -> MethodActionView {
    |m: MethodView| method_builder::method_action(globals, m)
}

pub open spec fn to_builder(root_url: Seq<char>, service_path: Seq<char>, globals: Seq<ParamView>) -> spec_fn(
    MethodView,
) -> BuilderView {
    |m: MethodView| method_builder::builder(root_url, service_path, globals, m)
}

/// The module of a resource.
pub open spec fn module(
    root_url: Seq<char>,
    service_path: Seq<char>,
    globals: Seq<ParamView>,
    r: ResourceView,
) -> ModuleView
    decreases r,
{
    ModuleView {
        ident: r.ident,
        type_defs: type_defs(r),
        action: r.action_type_name(),
        method_actions: r.methods.map_values(to_method_action(globals)),
        resource_actions: r.resources.map_values(to_resource_action()),
        builders: r.methods.map_values(to_builder(root_url, service_path, globals)),
        modules: Seq::new(
            r.resources.len(),
            |i: int|
                if 0 <= i < r.resources.len() {
                    module(root_url, service_path, globals, r.resources[i])
                } else {
                    arbitrary()
                },
        ),
    }
}

/// What generation gives: the first defect of the description, or else the
/// module of its root resource.
pub open spec fn generation(
    root_url: Seq<char>,
    service_path: Seq<char>,
    globals: Seq<ParamView>,
    r: ResourceView,
) -> Result<ModuleView, GenerateErrorView> {
    match description_defect(globals, r) {
        Some(e) => Err(e),
        None => Ok(module(root_url, service_path, globals, r)),
    }
}

/// What a run has given, as values.
pub open spec fn outcome(made: Result<Module, GenerateError>) -> Result<ModuleView, GenerateErrorView> {
    match made {
        Ok(m) => Ok(m@),
        Err(e) => Err(e@),
    }
}

/// The modules of a module's view are the views of its modules.
pub proof fn lemma_module_children(made: &Module)
    ensures
        made@.modules == views(made.modules@),
{
    let a = made@.modules;
    let b = views(made.modules@);
    assert(a.len() == b.len());
    assert forall|i: int| 0 <= i < a.len() implies a[i] == b[i] by {
        assert(b[i] == made.modules@[i]@);
        assert(a[i] == made.modules@[i]@);
    }
    assert(a =~= b);
}

fn type_defs_of(resource: &Resource) -> (defs: Vec<TypeDef>)
    ensures
        views(defs@) == type_defs(resource@),
{
    let ghost methods = resource@.methods;
    let mut defs: Vec<TypeDef> = Vec::new();
    let mut i: usize = 0;
    assert(views(defs@) =~= methods.take(0).flat_map(to_type_defs())) by {
        assert(methods.take(0).map_values(to_type_defs()) =~= Seq::<Seq<TypeDefView>>::empty());
    }
    while i < resource.methods.len()
        invariant
            i <= resource.methods@.len(),
            methods == views(resource.methods@),
            views(defs@) == methods.take(i as int).flat_map(to_type_defs()),
        decreases resource.methods@.len() - i,
    {
        let method = &resource.methods[i];
        let ghost head = views(defs@);
        let ghost params = methods[i as int].params;
        let mut j: usize = 0;
        assert(views(defs@) =~= head + params.take(0).filter_map(to_type_def()));
        while j < method.params.len()
            invariant
                j <= method.params@.len(),
                params == views(method.params@),
                views(defs@) == head + params.take(j as int).filter_map(to_type_def()),
            decreases method.params@.len() - j,
        {
            proof {
                params.lemma_filter_map_take_succ(to_type_def(), j as int);
            }
            match method.params[j].typ.type_def() {
                Some(def) => {
                    let ghost before = defs@;
                    defs.push(def);
                    proof {
                        before.lemma_push_map_commute(|item: TypeDef| item@, def);
                        assert(views(defs@) =~= head + params.take(j + 1).filter_map(
                            to_type_def(),
                        ));
                    }
                },
                None => {},
            }
            j += 1;
        }
        proof {
            params.lemma_take_len();
            methods.lemma_flat_map_take_append(to_type_defs(), i as int);
        }
        i += 1;
    }
    proof {
        methods.lemma_take_len();
    }
    defs
}

fn resource_action_of(child: &Resource) -> (callable: ResourceAction)
    ensures
        callable@ == resource_action(child@),
{
    ResourceAction {
        doc: String::from_str("Actions that can be performed on the ").concat(
            child.ident.as_str(),
        ).concat(" resource"),
        ident: copy_text(child.ident.as_str()),
        action: child.action_type_name(),
    }
}

/// The module of `resource`, whatever the description holds.
pub fn module_of(root_url: &str, service_path: &str, global_params: &[Param], resource: &Resource) -> (made:
    Module)
    ensures
        made@ == module(root_url@, service_path@, views(global_params@), resource@),
    decreases resource,
{
    let ghost globals = views(global_params@);
    let ghost r = resource@;
    let ghost methods = r.methods;
    let ghost children = r.resources;
    proof {
        lemma_resource_children(resource);
    }
    let type_defs = type_defs_of(resource);

    let mut method_actions: Vec<MethodAction> = Vec::new();
    let mut builders: Vec<Builder> = Vec::new();
    let mut i: usize = 0;
    assert(views(method_actions@) =~= methods.take(0).map_values(to_method_action(globals)));
    assert(views(builders@) =~= methods.take(0).map_values(
        to_builder(root_url@, service_path@, globals),
    ));
    while i < resource.methods.len()
        invariant
            i <= resource.methods@.len(),
            methods == views(resource.methods@),
            globals == views(global_params@),
            views(method_actions@) == methods.take(i as int).map_values(to_method_action(globals)),
            views(builders@) == methods.take(i as int).map_values(
                to_builder(root_url@, service_path@, globals),
            ),
        decreases resource.methods@.len() - i,
    {
        let ghost actions_before = method_actions@;
        let ghost builders_before = builders@;
        let callable = method_builder::action(global_params, &resource.methods[i]);
        let made = method_builder::generate(
            root_url,
            service_path,
            global_params,
            &resource.methods[i],
        );
        method_actions.push(callable);
        builders.push(made);
        proof {
            actions_before.lemma_push_map_commute(|item: MethodAction| item@, callable);
            builders_before.lemma_push_map_commute(|item: Builder| item@, made);
            methods.lemma_map_take_succ(to_method_action(globals), i as int);
            methods.lemma_map_take_succ(to_builder(root_url@, service_path@, globals), i as int);
        }
        i += 1;
    }
    proof {
        methods.lemma_take_len();
    }

    let mut resource_actions: Vec<ResourceAction> = Vec::new();
    let mut modules: Vec<Module> = Vec::new();
    let mut k: usize = 0;
    assert(views(resource_actions@) =~= children.take(0).map_values(to_resource_action()));
    while k < resource.resources.len()
        invariant
            k <= resource.resources@.len(),
            children == views(resource.resources@),
            globals == views(global_params@),
            views(resource_actions@) == children.take(k as int).map_values(to_resource_action()),
            modules@.len() == k,
            forall|n: int|
                0 <= n < k ==> (#[trigger] modules@[n])@ == module(
                    root_url@,
                    service_path@,
                    globals,
                    children[n],
                ),
        decreases resource.resources@.len() - k,
    {
        let ghost actions_before = resource_actions@;
        let callable = resource_action_of(&resource.resources[k]);
        let sub = module_of(root_url, service_path, global_params, &resource.resources[k]);
        resource_actions.push(callable);
        modules.push(sub);
        proof {
            actions_before.lemma_push_map_commute(|item: ResourceAction| item@, callable);
            children.lemma_map_take_succ(to_resource_action(), k as int);
        }
        k += 1;
    }
    proof {
        children.lemma_take_len();
    }
    let made = Module {
        ident: copy_text(resource.ident.as_str()),
        type_defs,
        action: resource.action_type_name(),
        method_actions,
        resource_actions,
        builders,
        modules,
    };
    proof {
        lemma_module_children(&made);
        let wanted = module(root_url@, service_path@, globals, r);
        assert(made@.modules =~= wanted.modules);
        assert(made@ =~= wanted);
    }
    made
}

/// Generates the module of `resource` and of all that lies below it, for a
/// service at `root_url` and `service_path` whose methods share
/// `global_params`. Nothing is emitted for a description with a defect: the
/// first defect is returned.
pub fn generate(root_url: &str, service_path: &str, global_params: &[Param], resource: &Resource) -> (made:
    Result<Module, GenerateError>)
    ensures
        outcome(made) == generation(root_url@, service_path@, views(global_params@), resource@),
{
    match check_description(global_params, resource) {
        Some(e) => Err(e),
        None => Ok(module_of(root_url, service_path, global_params, resource)),
    }
}

impl ServiceDescriptionView {
    /// What generation gives for this service.
    pub open spec fn generation(self) -> Result<ModuleView, GenerateErrorView> {
        generation(self.root_url, self.service_path, self.global_params, self.resource)
    }
}

/// Generates the module tree of a service.
pub fn generate_service(service: &ServiceDescription) -> (made: Result<Module, GenerateError>)
    ensures
        outcome(made) == service@.generation(),
{
    generate(
        service.root_url.as_str(),
        service.service_path.as_str(),
        service.global_params.as_slice(),
        &service.resource,
    )
}

} // verus!
