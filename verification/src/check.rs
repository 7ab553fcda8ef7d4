//! What makes a description unfit for generation, and the search for it.
//!
//! A description is searched in the order in which it would be emitted: the
//! shared parameters, then the root resource. In a resource: its name, its
//! methods in declared order, the names of the callables of its action type,
//! the names of the items of its module, its child resources in declared
//! order. In a method: its request body, its parameters in declared order,
//! the names of the fields of its builder. The first defect found is the one
//! reported.

use crate::error::{optional_text, GenerateError, GenerateErrorView};
use crate::model::{Method, MethodView, Param, ParamView, Resource, ResourceView};
use crate::naming::{is_ident, is_identifier};
use crate::path::TypePathView;
use crate::text::{
    copy_text, distinct, find_repeat, first_repeat, lemma_first_repeat, texts, views,
};
use vstd::prelude::*;
use vstd::string::StringExecFns;

verus! {

/// The first value that `f` gives on `0`, `1`, ... below `n`.
pub open spec fn first_some<T>(n: nat, f: spec_fn(int) -> Option<T>) -> Option<T>
    decreases n,
{
    if n == 0 {
        None
    } else {
        match first_some((n - 1) as nat, f) {
            Some(x) => Some(x),
            None => f(n - 1),
        }
    }
}

/// What `first_some` has found below `m`, it finds below every larger `n`.
pub proof fn lemma_first_some_stays<T>(m: nat, n: nat, f: spec_fn(int) -> Option<T>)
    requires
        m <= n,
        first_some(m, f) is Some,
    ensures
        first_some(n, f) == first_some(m, f),
    decreases n,
{
    if m < n {
        lemma_first_some_stays((m) as nat, (n - 1) as nat, f);
    }
}

/// `first_some` finds nothing exactly where `f` gives nothing.
pub proof fn lemma_first_some_none<T>(n: nat, f: spec_fn(int) -> Option<T>)
    ensures
        first_some(n, f) is None <==> forall|i: int| 0 <= i < n ==> (#[trigger] f(i)) is None,
    decreases n,
{
    if n > 0 {
        lemma_first_some_none((n - 1) as nat, f);
    }
}

pub open spec fn shape(resource: Seq<char>, method: Option<Seq<char>>, param: Option<Seq<char>>) -> GenerateErrorView {
    GenerateErrorView::SchemaShape { resource, method, param }
}

pub open spec fn collision(resource: Seq<char>, method: Option<Seq<char>>, ident: Seq<char>) -> GenerateErrorView {
    GenerateErrorView::IdentifierCollision { resource, method, ident }
}

/// What is wrong with the parameter at each index: its shape, or nothing.
pub open spec fn param_check(resource: Seq<char>, method: Option<Seq<char>>, params: Seq<ParamView>) -> spec_fn(
    int,
) -> Option<GenerateErrorView> {
    |i: int|
        if 0 <= i < params.len() && !params[i].valid() {
            Some(shape(resource, method, Some(params[i].ident)))
        } else {
            None
        }
}

pub open spec fn to_param_ident() -> spec_fn(ParamView) -> Seq<char> {
    |p: ParamView| p.ident
}

pub open spec fn request_names(request: Option<TypePathView>) -> Seq<Seq<char>> {
    match request {
        Some(_) => seq!["request"@],
        None => Seq::empty(),
    }
}

/// The names of the fields of a method's builder, the transport's first.
pub open spec fn field_names(globals: Seq<ParamView>, m: MethodView) -> Seq<Seq<char>> {
    seq!["reqwest"@] + request_names(m.request) + globals.map_values(to_param_ident())
        + m.params.map_values(to_param_ident())
}

/// The first defect of a method of the resource named `resource`.
pub open spec fn method_defect(globals: Seq<ParamView>, resource: Seq<char>, m: MethodView) -> Option<
    GenerateErrorView,
> {
    let names = field_names(globals, m);
    if m.request matches Some(path) && !path.valid() {
        Some(shape(resource, Some(m.id), None))
    } else if first_some(m.params.len(), param_check(resource, Some(m.id), m.params)) is Some {
        first_some(m.params.len(), param_check(resource, Some(m.id), m.params))
    } else if first_repeat(names, names.len()) is Some {
        Some(collision(resource, Some(m.id), names[first_repeat(names, names.len()).unwrap()]))
    } else {
        None
    }
}

pub open spec fn method_check(globals: Seq<ParamView>, resource: Seq<char>, methods: Seq<MethodView>) -> spec_fn(
    int,
) -> Option<GenerateErrorView> {
    |i: int|
        if 0 <= i < methods.len() {
            method_defect(globals, resource, methods[i])
        } else {
            None
        }
}

pub open spec fn to_action_ident() -> spec_fn(MethodView) -> Seq<char> {
    |m: MethodView| m.action_ident()
}

pub open spec fn to_builder_name() -> spec_fn(MethodView) -> Seq<char> {
    |m: MethodView| m.builder_name()
}

pub open spec fn to_resource_ident() -> spec_fn(ResourceView) -> Seq<char> {
    |r: ResourceView| r.ident
}

/// The names of the callables of a resource's action type.
pub open spec fn member_names(r: ResourceView) -> Seq<Seq<char>> {
    r.methods.map_values(to_action_ident()) + r.resources.map_values(to_resource_ident())
}

/// The names of the items of a resource's module.
pub open spec fn item_names(r: ResourceView) -> Seq<Seq<char>> {
    seq!["params"@, r.action_type_name()] + r.methods.map_values(to_builder_name())
        + r.resources.map_values(to_resource_ident())
}

/// The first defect of a resource and of what lies below it.
pub open spec fn resource_defect(globals: Seq<ParamView>, r: ResourceView) -> Option<GenerateErrorView>
    decreases r,
{
    let members = member_names(r);
    let items = item_names(r);
    if !is_identifier(r.ident) {
        Some(shape(r.ident, None, None))
    } else if first_some(r.methods.len(), method_check(globals, r.ident, r.methods)) is Some {
        first_some(r.methods.len(), method_check(globals, r.ident, r.methods))
    } else if first_repeat(members, members.len()) is Some {
        Some(collision(r.ident, None, members[first_repeat(members, members.len()).unwrap()]))
    } else if first_repeat(items, items.len()) is Some {
        Some(collision(r.ident, None, items[first_repeat(items, items.len()).unwrap()]))
    } else {
        first_some(r.resources.len(), child_check(globals, r.resources))
    }
}

pub open spec fn child_check(globals: Seq<ParamView>, resources: Seq<ResourceView>) -> spec_fn(int) -> Option<
    GenerateErrorView,
>
    decreases resources,
{
    |i: int|
        if 0 <= i < resources.len() {
            resource_defect(globals, resources[i])
        } else {
            None
        }
}

/// The first defect of a description: of its shared parameters, which are
/// reported under the root resource's name, or else of its resources.
pub open spec fn description_defect(globals: Seq<ParamView>, r: ResourceView) -> Option<GenerateErrorView> {
    if first_some(globals.len(), param_check(r.ident, None, globals)) is Some {
        first_some(globals.len(), param_check(r.ident, None, globals))
    } else {
        resource_defect(globals, r)
    }
}

/// A method is sound if its request body has a valid path, its parameters
/// are valid, and the fields of its builder have distinct names.
pub open spec fn sound_method(globals: Seq<ParamView>, m: MethodView) -> bool {
    &&& m.request matches Some(path) ==> path.valid()
    &&& forall|k: int| 0 <= k < m.params.len() ==> (#[trigger] m.params[k]).valid()
    &&& distinct(field_names(globals, m))
}

/// A resource is sound if its name is an identifier, its methods are sound,
/// the callables of its action type have distinct names, the items of its
/// module have distinct names, and its child resources are sound.
pub open spec fn sound_resource(globals: Seq<ParamView>, r: ResourceView) -> bool
    decreases r,
{
    &&& is_identifier(r.ident)
    &&& forall|i: int| 0 <= i < r.methods.len() ==> sound_method(globals, #[trigger] r.methods[i])
    &&& distinct(member_names(r))
    &&& distinct(item_names(r))
    &&& forall|i: int|
        0 <= i < r.resources.len() ==> sound_resource(globals, #[trigger] r.resources[i])
}

/// A description is sound if its shared parameters are valid and its
/// resources are sound.
pub open spec fn sound_description(globals: Seq<ParamView>, r: ResourceView) -> bool {
    &&& forall|k: int| 0 <= k < globals.len() ==> (#[trigger] globals[k]).valid()
    &&& sound_resource(globals, r)
}

proof fn lemma_no_repeat(names: Seq<Seq<char>>)
    ensures
        first_repeat(names, names.len()) is None <==> distinct(names),
{
    lemma_first_repeat(names, names.len());
    names.lemma_take_len();
}

proof fn lemma_params_sound(resource: Seq<char>, method: Option<Seq<char>>, params: Seq<ParamView>)
    ensures
        first_some(params.len(), param_check(resource, method, params)) is None <==> forall|
            k: int,
        |
            0 <= k < params.len() ==> (#[trigger] params[k]).valid(),
{
    let check = param_check(resource, method, params);
    lemma_first_some_none(params.len(), check);
    if forall|k: int| 0 <= k < params.len() ==> (#[trigger] params[k]).valid() {
        assert forall|i: int| 0 <= i < params.len() implies (#[trigger] check(i)) is None by {
            assert(params[i].valid());
        }
    }
    if first_some(params.len(), check) is None {
        assert forall|k: int| 0 <= k < params.len() implies (#[trigger] params[k]).valid() by {
            assert(check(k) is None);
        }
    }
}

proof fn lemma_method_sound(globals: Seq<ParamView>, resource: Seq<char>, m: MethodView)
    ensures
        method_defect(globals, resource, m) is None <==> sound_method(globals, m),
{
    lemma_params_sound(resource, Some(m.id), m.params);
    lemma_no_repeat(field_names(globals, m));
}

/// A resource has no defect exactly if it is sound.
pub proof fn lemma_resource_sound(globals: Seq<ParamView>, r: ResourceView)
    ensures
        resource_defect(globals, r) is None <==> sound_resource(globals, r),
    decreases r,
{
    let methods = method_check(globals, r.ident, r.methods);
    let children = child_check(globals, r.resources);
    lemma_first_some_none(r.methods.len(), methods);
    lemma_first_some_none(r.resources.len(), children);
    lemma_no_repeat(member_names(r));
    lemma_no_repeat(item_names(r));
    assert forall|i: int| 0 <= i < r.methods.len() implies ((#[trigger] methods(i)) is None
        <==> sound_method(globals, r.methods[i])) by {
        lemma_method_sound(globals, r.ident, r.methods[i]);
    }
    assert forall|i: int| 0 <= i < r.resources.len() implies ((#[trigger] children(i)) is None
        <==> sound_resource(globals, r.resources[i])) by {
        lemma_resource_sound(globals, r.resources[i]);
    }
    if sound_resource(globals, r) {
        assert forall|i: int| 0 <= i < r.methods.len() implies (#[trigger] methods(i)) is None by {
            assert(sound_method(globals, r.methods[i]));
        }
        assert forall|i: int| 0 <= i < r.resources.len() implies (#[trigger] children(
            i,
        )) is None by {
            assert(sound_resource(globals, r.resources[i]));
        }
    }
    if resource_defect(globals, r) is None {
        assert forall|i: int| 0 <= i < r.methods.len() implies sound_method(
            globals,
            #[trigger] r.methods[i],
        ) by {
            assert(methods(i) is None);
        }
        assert forall|i: int| 0 <= i < r.resources.len() implies sound_resource(
            globals,
            #[trigger] r.resources[i],
        ) by {
            assert(children(i) is None);
        }
    }
}

/// A description has no defect exactly if it is sound. So generation gives
/// a module for the sound descriptions and for no other.
pub proof fn lemma_description_sound(globals: Seq<ParamView>, r: ResourceView)
    ensures
        description_defect(globals, r) is None <==> sound_description(globals, r),
{
    lemma_params_sound(r.ident, None, globals);
    lemma_resource_sound(globals, r);
}

/// Whether `found` is the defect `defect`.
pub open spec fn agrees(found: Option<GenerateError>, defect: Option<GenerateErrorView>) -> bool {
    match found {
        Some(e) => defect == Some(e@),
        None => defect is None,
    }
}

pub open spec fn optional_str(s: Option<&str>) -> Option<Seq<char>> {
    match s {
        Some(text) => Some(text@),
        None => None,
    }
}

fn copy_optional(s: Option<&str>) -> (copy: Option<String>)
    ensures
        optional_text(copy) == optional_str(s),
{
    match s {
        Some(text) => Some(copy_text(text)),
        None => None,
    }
}

fn check_params(resource: &str, method: Option<&str>, params: &[Param]) -> (found: Option<GenerateError>)
    ensures
        agrees(
            found,
            first_some(params@.len(), param_check(resource@, optional_str(method), views(params@))),
        ),
{
    let ghost check = param_check(resource@, optional_str(method), views(params@));
    let mut i: usize = 0;
    while i < params.len()
        invariant
            i <= params@.len(),
            check == param_check(resource@, optional_str(method), views(params@)),
            first_some(i as nat, check) is None,
        decreases params@.len() - i,
    {
        if !params[i].is_valid() {
            let e = GenerateError::SchemaShape {
                resource: copy_text(resource),
                method: copy_optional(method),
                param: Some(copy_text(params[i].ident.as_str())),
            };
            proof {
                assert(check(i as int) == Some(e@));
                assert(first_some((i + 1) as nat, check) == Some(e@));
                lemma_first_some_stays((i + 1) as nat, params@.len(), check);
            }
            return Some(e);
        }
        assert(check(i as int) is None);
        i += 1;
    }
    None
}

fn push_param_idents(names: &mut Vec<String>, params: &[Param])
    ensures
        texts(final(names)@) == texts(old(names)@) + views(params@).map_values(to_param_ident()),
{
    let ghost head = texts(names@);
    let ghost all = views(params@);
    let mut i: usize = 0;
    while i < params.len()
        invariant
            i <= params@.len(),
            all == views(params@),
            texts(names@) == head + all.take(i as int).map_values(to_param_ident()),
        decreases params@.len() - i,
    {
        let ghost before = names@;
        let name = copy_text(params[i].ident.as_str());
        names.push(name);
        proof {
            before.lemma_push_map_commute(|item: String| item@, name);
            all.lemma_map_take_succ(to_param_ident(), i as int);
            assert(texts(names@) =~= head + all.take(i + 1).map_values(to_param_ident()));
        }
        i += 1;
    }
    proof {
        all.lemma_take_len();
    }
}

fn field_names_of(globals: &[Param], method: &Method) -> (names: Vec<String>)
    ensures
        texts(names@) == field_names(views(globals@), method@),
{
    let mut names: Vec<String> = Vec::new();
    names.push(String::from_str("reqwest"));
    match &method.request {
        Some(_) => {
            names.push(String::from_str("request"));
        },
        None => {},
    }
    assert(texts(names@) =~= seq!["reqwest"@] + request_names(method@.request));
    push_param_idents(&mut names, globals);
    push_param_idents(&mut names, method.params.as_slice());
    names
}

fn check_method(globals: &[Param], resource: &str, method: &Method) -> (found: Option<GenerateError>)
    ensures
        agrees(found, method_defect(views(globals@), resource@, method@)),
{
    match &method.request {
        Some(path) => {
            if !path.is_valid() {
                return Some(
                    GenerateError::SchemaShape {
                        resource: copy_text(resource),
                        method: Some(copy_text(method.id.as_str())),
                        param: None,
                    },
                );
            }
        },
        None => {},
    }
    match check_params(resource, Some(method.id.as_str()), method.params.as_slice()) {
        Some(e) => {
            return Some(e);
        },
        None => {},
    }
    let names = field_names_of(globals, method);
    match find_repeat(&names) {
        Some(j) => {
            proof {
                lemma_first_repeat(texts(names@), names@.len());
            }
            Some(
                GenerateError::IdentifierCollision {
                    resource: copy_text(resource),
                    method: Some(copy_text(method.id.as_str())),
                    ident: copy_text(names[j].as_str()),
                },
            )
        },
        None => None,
    }
}

fn check_methods(globals: &[Param], resource: &str, methods: &[Method]) -> (found: Option<GenerateError>)
    ensures
        agrees(
            found,
            first_some(methods@.len(), method_check(views(globals@), resource@, views(methods@))),
        ),
{
    let ghost check = method_check(views(globals@), resource@, views(methods@));
    let mut i: usize = 0;
    while i < methods.len()
        invariant
            i <= methods@.len(),
            check == method_check(views(globals@), resource@, views(methods@)),
            first_some(i as nat, check) is None,
        decreases methods@.len() - i,
    {
        match check_method(globals, resource, &methods[i]) {
            Some(e) => {
                proof {
                    assert(check(i as int) == Some(e@));
                    assert(first_some((i + 1) as nat, check) == Some(e@));
                    lemma_first_some_stays((i + 1) as nat, methods@.len(), check);
                }
                return Some(e);
            },
            None => {},
        }
        assert(check(i as int) is None);
        i += 1;
    }
    None
}

/// The resources of a resource's view are the views of its resources.
pub proof fn lemma_resource_children(resource: &Resource)
    ensures
        resource@.resources == views(resource.resources@),
{
    let a = resource@.resources;
    let b = views(resource.resources@);
    assert(a.len() == b.len());
    assert forall|i: int| 0 <= i < a.len() implies a[i] == b[i] by {
        assert(b[i] == resource.resources@[i]@);
        assert(a[i] == resource.resources@[i]@);
    }
    assert(a =~= b);
}

fn member_names_of(resource: &Resource) -> (names: Vec<String>)
    ensures
        texts(names@) == member_names(resource@),
{
    let ghost methods = resource@.methods;
    let ghost children = resource@.resources;
    proof {
        lemma_resource_children(resource);
    }
    let mut names: Vec<String> = Vec::new();
    let mut i: usize = 0;
    assert(texts(names@) =~= methods.take(0).map_values(to_action_ident()));
    while i < resource.methods.len()
        invariant
            i <= resource.methods@.len(),
            methods == views(resource.methods@),
            texts(names@) == methods.take(i as int).map_values(to_action_ident()),
        decreases resource.methods@.len() - i,
    {
        let ghost before = names@;
        let name = resource.methods[i].action_ident();
        names.push(name);
        proof {
            before.lemma_push_map_commute(|item: String| item@, name);
            methods.lemma_map_take_succ(to_action_ident(), i as int);
        }
        i += 1;
    }
    proof {
        methods.lemma_take_len();
    }
    push_resource_idents(&mut names, resource.resources.as_slice());
    names
}

fn push_resource_idents(names: &mut Vec<String>, resources: &[Resource])
    ensures
        texts(final(names)@) == texts(old(names)@) + views(resources@).map_values(
            to_resource_ident(),
        ),
{
    let ghost head = texts(names@);
    let ghost all = views(resources@);
    let mut i: usize = 0;
    while i < resources.len()
        invariant
            i <= resources@.len(),
            all == views(resources@),
            texts(names@) == head + all.take(i as int).map_values(to_resource_ident()),
        decreases resources@.len() - i,
    {
        let ghost before = names@;
        let name = copy_text(resources[i].ident.as_str());
        names.push(name);
        proof {
            before.lemma_push_map_commute(|item: String| item@, name);
            all.lemma_map_take_succ(to_resource_ident(), i as int);
            assert(texts(names@) =~= head + all.take(i + 1).map_values(to_resource_ident()));
        }
        i += 1;
    }
    proof {
        all.lemma_take_len();
    }
}

fn item_names_of(resource: &Resource) -> (names: Vec<String>)
    ensures
        texts(names@) == item_names(resource@),
{
    let ghost methods = resource@.methods;
    proof {
        lemma_resource_children(resource);
    }
    let mut names: Vec<String> = Vec::new();
    names.push(String::from_str("params"));
    names.push(resource.action_type_name());
    let ghost head = seq!["params"@, resource@.action_type_name()];
    assert(texts(names@) =~= head + methods.take(0).map_values(to_builder_name()));
    let mut i: usize = 0;
    while i < resource.methods.len()
        invariant
            i <= resource.methods@.len(),
            methods == views(resource.methods@),
            texts(names@) == head + methods.take(i as int).map_values(to_builder_name()),
        decreases resource.methods@.len() - i,
    {
        let ghost before = names@;
        let name = resource.methods[i].builder_name();
        names.push(name);
        proof {
            before.lemma_push_map_commute(|item: String| item@, name);
            methods.lemma_map_take_succ(to_builder_name(), i as int);
            assert(texts(names@) =~= head + methods.take(i + 1).map_values(to_builder_name()));
        }
        i += 1;
    }
    proof {
        methods.lemma_take_len();
    }
    push_resource_idents(&mut names, resource.resources.as_slice());
    names
}

fn check_names(resource: &str, names: &Vec<String>) -> (found: Option<GenerateError>)
    ensures
        match found {
            Some(e) => first_repeat(texts(names@), names@.len()) matches Some(j) && e@ == collision(
                resource@,
                None,
                texts(names@)[j],
            ),
            None => first_repeat(texts(names@), names@.len()) is None,
        },
{
    match find_repeat(names) {
        Some(j) => {
            proof {
                lemma_first_repeat(texts(names@), names@.len());
            }
            Some(
                GenerateError::IdentifierCollision {
                    resource: copy_text(resource),
                    method: None,
                    ident: copy_text(names[j].as_str()),
                },
            )
        },
        None => None,
    }
}

/// Searches a resource and what lies below it.
pub fn check_resource(global_params: &[Param], resource: &Resource) -> (found: Option<GenerateError>)
    ensures
        agrees(found, resource_defect(views(global_params@), resource@)),
    decreases resource,
{
    let ghost globals = views(global_params@);
    let ghost r = resource@;
    proof {
        lemma_resource_children(resource);
    }
    if !is_ident(resource.ident.as_str()) {
        return Some(
            GenerateError::SchemaShape {
                resource: copy_text(resource.ident.as_str()),
                method: None,
                param: None,
            },
        );
    }
    match check_methods(global_params, resource.ident.as_str(), resource.methods.as_slice()) {
        Some(e) => {
            return Some(e);
        },
        None => {},
    }
    let members = member_names_of(resource);
    match check_names(resource.ident.as_str(), &members) {
        Some(e) => {
            return Some(e);
        },
        None => {},
    }
    let items = item_names_of(resource);
    match check_names(resource.ident.as_str(), &items) {
        Some(e) => {
            return Some(e);
        },
        None => {},
    }
    let ghost check = child_check(globals, r.resources);
    let mut i: usize = 0;
    while i < resource.resources.len()
        invariant
            i <= resource.resources@.len(),
            globals == views(global_params@),
            r == resource@,
            r.resources == views(resource.resources@),
            check == child_check(globals, r.resources),
            resource_defect(globals, r) == first_some(r.resources.len(), check),
            first_some(i as nat, check) is None,
        decreases resource.resources@.len() - i,
    {
        match check_resource(global_params, &resource.resources[i]) {
            Some(e) => {
                proof {
                    assert(check(i as int) == Some(e@));
                    assert(first_some((i + 1) as nat, check) == Some(e@));
                    lemma_first_some_stays((i + 1) as nat, resource.resources@.len(), check);
                }
                return Some(e);
            },
            None => {},
        }
        assert(check(i as int) is None);
        i += 1;
    }
    None
}

/// Searches a description: its shared parameters, then its resources.
pub fn check_description(global_params: &[Param], resource: &Resource) -> (found: Option<GenerateError>)
    ensures
        agrees(found, description_defect(views(global_params@), resource@)),
{
    match check_params(resource.ident.as_str(), None, global_params) {
        Some(e) => Some(e),
        None => check_resource(global_params, resource),
    }
}

} // verus!
