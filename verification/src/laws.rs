//! What holds of every generation, whatever the description.

use crate::artifact::{deepest, ArgumentView, InitializerView, Module, ModuleView};
use crate::check::{lemma_description_sound, sound_description};
use crate::error::GenerateError;
use crate::method_builder::{
    argument, builder, is_required, method_action, request_initializers, to_absent,
    to_initializer,
};
use crate::model::{deepest_resource, MethodView, ParamView, ResourceView, ServiceDescriptionView};
use crate::render::module_text;
use crate::resource_builder::{generation, module, outcome, resource_action};
use vstd::prelude::*;

verus! {

/// Generation is a function of the description: two runs on one description
/// end alike, with the same error or with modules of the same value and the
/// same text.
pub proof fn lemma_generation_is_deterministic(
    service: ServiceDescriptionView,
    first: Result<Module, GenerateError>,
    second: Result<Module, GenerateError>,
)
    requires
        outcome(first) == service.generation(),
        outcome(second) == service.generation(),
    ensures
        outcome(first) == outcome(second),
        match (first, second) {
            (Ok(a), Ok(b)) => module_text(a@) == module_text(b@),
            _ => true,
        },
{
}

/// Generation gives a module for every sound description, and for no other.
pub proof fn lemma_generation_succeeds_if_sound(
    root_url: Seq<char>,
    service_path: Seq<char>,
    globals: Seq<ParamView>,
    r: ResourceView,
)
    ensures
        generation(root_url, service_path, globals, r) is Ok <==> sound_description(globals, r),
{
    lemma_description_sound(globals, r);
}

/// A module mirrors a resource: it has the resource's name, and as many
/// modules as the resource has children, each mirroring the child at its
/// place.
pub open spec fn mirrors(m: ModuleView, r: ResourceView) -> bool
    decreases r,
{
    &&& m.ident == r.ident
    &&& m.modules.len() == r.resources.len()
    &&& forall|i: int|
        0 <= i < r.resources.len() ==> mirrors(m.modules[i], #[trigger] r.resources[i])
}

proof fn lemma_deepest(
    root_url: Seq<char>,
    service_path: Seq<char>,
    globals: Seq<ParamView>,
    r: ResourceView,
    n: nat,
)
    requires
        n <= r.resources.len(),
        forall|i: int|
            0 <= i < r.resources.len() ==> (#[trigger] module(
                root_url,
                service_path,
                globals,
                r.resources[i],
            )).depth() == r.resources[i].depth(),
    ensures
        deepest(module(root_url, service_path, globals, r).modules, n) == deepest_resource(
            r.resources,
            n,
        ),
    decreases n,
{
    if n > 0 {
        lemma_deepest(root_url, service_path, globals, r, (n - 1) as nat);
        let made = module(root_url, service_path, globals, r);
        assert(made.modules[n - 1] == module(root_url, service_path, globals, r.resources[n - 1]));
    }
}

/// The emitted modules nest as the resources do: the module of a resource
/// mirrors it, child by child in declared order, and is as deep as it.
pub proof fn lemma_modules_mirror_resources(
    root_url: Seq<char>,
    service_path: Seq<char>,
    globals: Seq<ParamView>,
    r: ResourceView,
)
    ensures
        mirrors(module(root_url, service_path, globals, r), r),
        module(root_url, service_path, globals, r).depth() == r.depth(),
        match generation(root_url, service_path, globals, r) {
            Ok(made) => mirrors(made, r) && made.depth() == r.depth(),
            Err(_) => true,
        },
    decreases r,
{
    let made = module(root_url, service_path, globals, r);
    assert forall|i: int| 0 <= i < r.resources.len() implies mirrors(
        made.modules[i],
        #[trigger] r.resources[i],
    ) && module(root_url, service_path, globals, r.resources[i]).depth()
        == r.resources[i].depth() by {
        lemma_modules_mirror_resources(root_url, service_path, globals, r.resources[i]);
    }
    lemma_deepest(root_url, service_path, globals, r, r.resources.len());
}

/// A module has, in declared order, one callable and one builder for each
/// method of its resource, and one callable and one module for each child
/// resource.
pub proof fn lemma_module_parts(
    root_url: Seq<char>,
    service_path: Seq<char>,
    globals: Seq<ParamView>,
    r: ResourceView,
)
    ensures
        ({
            let made = module(root_url, service_path, globals, r);
            &&& made.method_actions.len() == r.methods.len()
            &&& made.builders.len() == r.methods.len()
            &&& made.resource_actions.len() == r.resources.len()
            &&& made.modules.len() == r.resources.len()
            &&& forall|i: int|
                #![trigger r.methods[i]]
                0 <= i < r.methods.len() ==> made.method_actions[i] == method_action(
                    globals,
                    r.methods[i],
                ) && made.builders[i] == builder(root_url, service_path, globals, r.methods[i])
            &&& forall|i: int|
                #![trigger r.resources[i]]
                0 <= i < r.resources.len() ==> made.resource_actions[i] == resource_action(
                    r.resources[i],
                ) && made.modules[i] == module(root_url, service_path, globals, r.resources[i])
        }),
{
}

/// How many arguments the request body adds: one where there is one.
pub open spec fn request_count(m: MethodView) -> int {
    if m.request is Some {
        1
    } else {
        0
    }
}

/// The callable of a method takes the request body, where there is one, and
/// then one argument for each of the method's own required parameters, in
/// declared order. The shared parameters have no part in it.
pub proof fn lemma_required_arguments(globals: Seq<ParamView>, m: MethodView)
    ensures
        ({
            let args = method_action(globals, m).args;
            let required = m.params.filter(is_required());
            &&& args.len() == request_count(m) + required.len()
            &&& m.request is Some ==> args[0].name == "request"@
            &&& forall|k: int|
                #![trigger required[k]]
                0 <= k < required.len() ==> args[request_count(m) + k] == argument(required[k])
                    && args[request_count(m) + k].name == required[k].ident
        }),
        forall|others: Seq<ParamView>|
            (#[trigger] method_action(others, m)).args == method_action(globals, m).args,
{
}

/// A builder has one field for the request body, where there is one, one for
/// each shared parameter and one for each of the method's own, in this
/// order, and the callable fills each of them. The field of a shared
/// parameter starts empty. The field of one of the method's own parameters
/// starts empty exactly if the parameter is not required.
pub proof fn lemma_fields_and_initializers(
    root_url: Seq<char>,
    service_path: Seq<char>,
    globals: Seq<ParamView>,
    m: MethodView,
)
    ensures
        ({
            let fields = builder(root_url, service_path, globals, m).fields;
            let inits = method_action(globals, m).inits;
            let shared = request_count(m);
            let own = request_count(m) + globals.len();
            &&& fields.len() == request_count(m) + globals.len() + m.params.len()
            &&& inits.len() == fields.len()
            &&& forall|k: int|
                0 <= k < fields.len() ==> (#[trigger] inits[k]).field() == fields[k].name
            &&& m.request is Some ==> inits[0] == InitializerView::Shorthand("request"@)
                && !fields[0].optional
            &&& forall|k: int|
                #![trigger globals[k]]
                0 <= k < globals.len() ==> inits[shared + k] == InitializerView::Absent(
                    globals[k].ident,
                ) && fields[shared + k].optional
            &&& forall|k: int|
                #![trigger m.params[k]]
                0 <= k < m.params.len() ==> (inits[own + k] is Absent <==> !m.params[k].required)
                    && (fields[own + k].optional <==> !m.params[k].required)
                    && fields[own + k].name == m.params[k].ident
        }),
{
}

/// Picks the initializers that fill their field from an argument.
pub open spec fn is_filled() -> spec_fn(InitializerView) -> bool {
    |init: InitializerView| !(init is Absent)
}

pub open spec fn to_field_name() -> spec_fn(InitializerView) -> Seq<char> {
    |init: InitializerView| init.field()
}

pub open spec fn to_argument_name() -> spec_fn(ArgumentView) -> Seq<char> {
    |arg: ArgumentView| arg.name
}

proof fn lemma_filter_of_map<A, B>(
    s: Seq<A>,
    f: spec_fn(A) -> B,
    keep: spec_fn(B) -> bool,
    pick: spec_fn(A) -> bool,
)
    requires
        forall|x: A| keep(#[trigger] f(x)) == pick(x),
    ensures
        s.map_values(f).filter(keep) == s.filter(pick).map_values(f),
    decreases s.len(),
{
    reveal(Seq::filter);
    if s.len() == 0 {
        assert(s.map_values(f) =~= Seq::<B>::empty());
        assert(s.filter(pick).map_values(f) =~= Seq::<B>::empty());
    } else {
        let t = s.drop_last();
        let x = s.last();
        lemma_filter_of_map(t, f, keep, pick);
        assert(s =~= t.push(x));
        t.lemma_push_map_commute(f, x);
        t.map_values(f).lemma_filter_push(f(x), keep);
        t.lemma_filter_push(x, pick);
        t.filter(pick).lemma_push_map_commute(f, x);
    }
}

proof fn lemma_filter_nothing<A>(s: Seq<A>, keep: spec_fn(A) -> bool)
    requires
        forall|i: int| 0 <= i < s.len() ==> !keep(#[trigger] s[i]),
    ensures
        s.filter(keep) == Seq::<A>::empty(),
    decreases s.len(),
{
    reveal(Seq::filter);
    if s.len() > 0 {
        lemma_filter_nothing(s.drop_last(), keep);
    }
}

/// A callable uses each of its arguments, and nothing else: the fields that
/// it fills from an argument are, in order, the arguments that it takes.
pub proof fn lemma_arguments_are_used(globals: Seq<ParamView>, m: MethodView)
    ensures
        method_action(globals, m).inits.filter(is_filled()).map_values(to_field_name())
            == method_action(globals, m).args.map_values(to_argument_name()),
{
    let head = request_initializers(m.request);
    let shared = globals.map_values(to_absent());
    let own = m.params.map_values(to_initializer());
    let required = m.params.filter(is_required());
    assert(head.filter(is_filled()) == head) by {
        reveal_with_fuel(Seq::filter, 2);
        if m.request is Some {
            assert(head.drop_last() =~= Seq::<InitializerView>::empty());
            assert(head.filter(is_filled()) =~= head);
        }
    }
    lemma_filter_nothing(shared, is_filled());
    lemma_filter_of_map(m.params, to_initializer(), is_filled(), is_required());
    Seq::filter_distributes_over_add(head, shared, is_filled());
    Seq::filter_distributes_over_add(head + shared, own, is_filled());
    let used = method_action(globals, m).inits.filter(is_filled());
    assert(used =~= head + required.map_values(to_initializer()));
    assert(used.map_values(to_field_name()) =~= method_action(globals, m).args.map_values(
        to_argument_name(),
    ));
}

/// What a callable refers to is emitted beside it: the builder that the
/// callable of a method returns is the builder of that method, and the
/// action type that the callable of a child resource returns is the action
/// type of the module of that child.
pub proof fn lemma_cross_references(
    root_url: Seq<char>,
    service_path: Seq<char>,
    globals: Seq<ParamView>,
    r: ResourceView,
)
    ensures
        ({
            let made = module(root_url, service_path, globals, r);
            &&& forall|i: int|
                #![trigger made.method_actions[i]]
                0 <= i < made.method_actions.len() ==> made.method_actions[i].builder
                    == made.builders[i].name
            &&& forall|i: int|
                #![trigger made.resource_actions[i]]
                0 <= i < made.resource_actions.len() ==> made.resource_actions[i].ident
                    == made.modules[i].ident && made.resource_actions[i].action
                    == made.modules[i].action
        }),
{
    let made = module(root_url, service_path, globals, r);
    assert forall|i: int|
        #![trigger made.resource_actions[i]]
        0 <= i < made.resource_actions.len() implies made.resource_actions[i].ident
        == made.modules[i].ident && made.resource_actions[i].action
        == made.modules[i].action by {
        let child = module(root_url, service_path, globals, r.resources[i]);
        assert(made.modules[i] == child);
        assert(child.ident == r.resources[i].ident);
        assert(child.action == r.resources[i].action_type_name());
    }
}

/// Where no shared parameter is marked as required, a field starts empty
/// exactly if its parameter is not required.
pub proof fn lemma_required_never_absent(globals: Seq<ParamView>, m: MethodView)
    requires
        forall|k: int| 0 <= k < globals.len() ==> !(#[trigger] globals[k]).required,
    ensures
        ({
            let inits = method_action(globals, m).inits;
            let all = globals + m.params;
            forall|k: int|
                #![trigger all[k]]
                0 <= k < all.len() ==> (inits[request_count(m) + k] is Absent <==> !all[k].required)
        }),
{
    lemma_fields_and_initializers(Seq::empty(), Seq::empty(), globals, m);
    let inits = method_action(globals, m).inits;
    let all = globals + m.params;
    assert forall|k: int| #![trigger all[k]] 0 <= k < all.len() implies (inits[request_count(m)
        + k] is Absent <==> !all[k].required) by {
        if k < globals.len() {
            assert(all[k] == globals[k]);
        } else {
            let j = k - globals.len();
            assert(all[k] == m.params[j]);
        }
    }
}

} // verus!
