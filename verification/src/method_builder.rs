//! What is emitted for one method: its builder type, and its callable on the
//! action type of the resource.
//!
//! The callable takes the request body, where the method has one, and then
//! the method's own required parameters in their declared order. It fills
//! the builder's fields in this order: the request body, the parameters that
//! all methods share, the method's own parameters. A shared parameter is
//! never an argument, so its field starts empty whether or not the
//! description marks it as required.

use crate::artifact::{
    ArgType, ArgTypeView, Argument, ArgumentView, Builder, BuilderView, Field, FieldView,
    Initializer, InitializerView, MethodAction, MethodActionView,
};
use crate::model::{Method, MethodView, Param, ParamInitMethod, ParamInitMethodView, ParamView};
use crate::path::TypePathView;
use crate::text::{copy_text, views};
use vstd::prelude::*;
use vstd::string::StringExecFns;

verus! {

/// Picks the parameters that are required.
pub open spec fn is_required() -> spec_fn(ParamView) -> bool {
    |p: ParamView| p.required
}

/// The argument by which a required parameter is taken.
pub open spec fn argument(p: ParamView) -> ArgumentView {
    ArgumentView {
        name: p.ident,
        ty: match p.typ.init_method() {
            ParamInitMethodView::IntoImpl(target) => ArgTypeView::Convertible(target),
            ParamInitMethodView::ByValue => ArgTypeView::ByValue(p.typ.type_path()),
        },
    }
}

pub open spec fn to_argument() -> spec_fn(ParamView) -> ArgumentView {
    |p: ParamView| argument(p)
}

/// The argument for the request body, where there is one.
pub open spec fn request_arguments(request: Option<TypePathView>) -> Seq<ArgumentView> {
    match request {
        Some(path) => seq![ArgumentView { name: "request"@, ty: ArgTypeView::ByValue(path) }],
        None => Seq::empty(),
    }
}

/// The arguments of a method's callable.
pub open spec fn required_arguments(m: MethodView) -> Seq<ArgumentView> {
    request_arguments(m.request) + m.params.filter(is_required()).map_values(to_argument())
}

/// How the field of one of the method's own parameters is filled.
pub open spec fn initializer(p: ParamView) -> InitializerView {
    if p.required {
        match p.typ.init_method() {
            ParamInitMethodView::IntoImpl(_) => InitializerView::Converted(p.ident),
            ParamInitMethodView::ByValue => InitializerView::Shorthand(p.ident),
        }
    } else {
        InitializerView::Absent(p.ident)
    }
}

pub open spec fn to_initializer() -> spec_fn(ParamView) -> InitializerView {
    |p: ParamView| initializer(p)
}

/// The field of a shared parameter starts empty.
pub open spec fn to_absent() -> spec_fn(ParamView) -> InitializerView {
    |p: ParamView| InitializerView::Absent(p.ident)
}

pub open spec fn request_initializers(request: Option<TypePathView>) -> Seq<InitializerView> {
    match request {
        Some(_) => seq![InitializerView::Shorthand("request"@)],
        None => Seq::empty(),
    }
}

/// How a method's callable fills the fields of the builder.
pub open spec fn initializers(globals: Seq<ParamView>, m: MethodView) -> Seq<InitializerView> {
    request_initializers(m.request) + globals.map_values(to_absent()) + m.params.map_values(
        to_initializer(),
    )
}

/// The field of a shared parameter: always optional.
pub open spec fn to_global_field() -> spec_fn(ParamView) -> FieldView {
    |p: ParamView| FieldView { name: p.ident, ty: p.typ.type_path(), optional: true }
}

/// The field of one of the method's own parameters: optional unless the
/// parameter is required.
pub open spec fn to_method_field() -> spec_fn(ParamView) -> FieldView {
    |p: ParamView| FieldView { name: p.ident, ty: p.typ.type_path(), optional: !p.required }
}

pub open spec fn request_fields(request: Option<TypePathView>) -> Seq<FieldView> {
    match request {
        Some(path) => seq![FieldView { name: "request"@, ty: path, optional: false }],
        None => Seq::empty(),
    }
}

/// The fields of a method's builder.
pub open spec fn fields(globals: Seq<ParamView>, m: MethodView) -> Seq<FieldView> {
    request_fields(m.request) + globals.map_values(to_global_field()) + m.params.map_values(
        to_method_field(),
    )
}

/// The callable of a method. Its documentation is the method's description
/// as it stands.
pub open spec fn method_action(globals: Seq<ParamView>, m: MethodView) -> MethodActionView {
    MethodActionView {
        doc: m.description,
        ident: m.action_ident(),
        builder: m.builder_name(),
        args: required_arguments(m),
        inits: initializers(globals, m),
    }
}

/// The builder of a method. Its requests go to the service's path below the
/// root address.
pub open spec fn builder(
    root_url: Seq<char>,
    service_path: Seq<char>,
    globals: Seq<ParamView>,
    m: MethodView,
) -> BuilderView {
    BuilderView {
        name: m.builder_name(),
        base_url: root_url + service_path,
        fields: fields(globals, m),
    }
}

fn argument_of(param: &Param) -> (arg: Argument)
    ensures
        arg@ == argument(param@),
{
    let ty = match param.init_method() {
        ParamInitMethod::IntoImpl(target) => ArgType::Convertible(target),
        ParamInitMethod::ByValue => ArgType::ByValue(param.typ.type_path()),
    };
    Argument { name: copy_text(param.ident.as_str()), ty }
}

fn initializer_of(param: &Param) -> (init: Initializer)
    ensures
        init@ == initializer(param@),
{
    let name = copy_text(param.ident.as_str());
    if param.required {
        match param.init_method() {
            ParamInitMethod::IntoImpl(_) => Initializer::Converted(name),
            ParamInitMethod::ByValue => Initializer::Shorthand(name),
        }
    } else {
        Initializer::Absent(name)
    }
}

fn required_arguments_of(method: &Method) -> (args: Vec<Argument>)
    ensures
        views(args@) == required_arguments(method@),
{
    let mut args: Vec<Argument> = Vec::new();
    match &method.request {
        Some(path) => {
            args.push(Argument { name: String::from_str("request"), ty: ArgType::ByValue(path.copy()) });
        },
        None => {},
    }
    let ghost head = request_arguments(method@.request);
    let ghost params = method@.params;
    assert(views(args@) =~= head);
    assert(params.take(0).filter(is_required()) =~= Seq::<ParamView>::empty()) by {
        reveal(Seq::filter);
    }
    let mut i: usize = 0;
    while i < method.params.len()
        invariant
            i <= method.params@.len(),
            params == method@.params,
            params == views(method.params@),
            views(args@) == head + params.take(i as int).filter(is_required()).map_values(
                to_argument(),
            ),
        decreases method.params@.len() - i,
    {
        let ghost before = args@;
        let ghost picked = params.take(i as int).filter(is_required());
        proof {
            params.lemma_take_succ_push(i as int);
            params.take(i as int).lemma_filter_push(params[i as int], is_required());
        }
        if method.params[i].required {
            let arg = argument_of(&method.params[i]);
            args.push(arg);
            proof {
                before.lemma_push_map_commute(|item: Argument| item@, arg);
                picked.lemma_push_map_commute(to_argument(), params[i as int]);
                assert(views(args@) =~= head + picked.push(params[i as int]).map_values(
                    to_argument(),
                ));
            }
        }
        i += 1;
    }
    proof {
        params.lemma_take_len();
    }
    args
}

fn push_absent(inits: &mut Vec<Initializer>, params: &[Param])
    ensures
        views(final(inits)@) == views(old(inits)@) + views(params@).map_values(to_absent()),
{
    let ghost head = views(inits@);
    let ghost all = views(params@);
    let mut i: usize = 0;
    while i < params.len()
        invariant
            i <= params@.len(),
            all == views(params@),
            views(inits@) == head + all.take(i as int).map_values(to_absent()),
        decreases params@.len() - i,
    {
        let ghost before = inits@;
        let init = Initializer::Absent(copy_text(params[i].ident.as_str()));
        inits.push(init);
        proof {
            before.lemma_push_map_commute(|item: Initializer| item@, init);
            all.lemma_map_take_succ(to_absent(), i as int);
            assert(views(inits@) =~= head + all.take(i + 1).map_values(to_absent()));
        }
        i += 1;
    }
    proof {
        all.lemma_take_len();
    }
}

fn push_initializers(inits: &mut Vec<Initializer>, params: &[Param])
    ensures
        views(final(inits)@) == views(old(inits)@) + views(params@).map_values(to_initializer()),
{
    let ghost head = views(inits@);
    let ghost all = views(params@);
    let mut i: usize = 0;
    while i < params.len()
        invariant
            i <= params@.len(),
            all == views(params@),
            views(inits@) == head + all.take(i as int).map_values(to_initializer()),
        decreases params@.len() - i,
    {
        let ghost before = inits@;
        let init = initializer_of(&params[i]);
        inits.push(init);
        proof {
            before.lemma_push_map_commute(|item: Initializer| item@, init);
            all.lemma_map_take_succ(to_initializer(), i as int);
            assert(views(inits@) =~= head + all.take(i + 1).map_values(to_initializer()));
        }
        i += 1;
    }
    proof {
        all.lemma_take_len();
    }
}

fn push_global_fields(out: &mut Vec<Field>, params: &[Param])
    ensures
        views(final(out)@) == views(old(out)@) + views(params@).map_values(to_global_field()),
{
    let ghost head = views(out@);
    let ghost all = views(params@);
    let mut i: usize = 0;
    while i < params.len()
        invariant
            i <= params@.len(),
            all == views(params@),
            views(out@) == head + all.take(i as int).map_values(to_global_field()),
        decreases params@.len() - i,
    {
        let ghost before = out@;
        let field = Field {
            name: copy_text(params[i].ident.as_str()),
            ty: params[i].typ.type_path(),
            optional: true,
        };
        out.push(field);
        proof {
            before.lemma_push_map_commute(|item: Field| item@, field);
            all.lemma_map_take_succ(to_global_field(), i as int);
            assert(views(out@) =~= head + all.take(i + 1).map_values(to_global_field()));
        }
        i += 1;
    }
    proof {
        all.lemma_take_len();
    }
}

fn push_method_fields(out: &mut Vec<Field>, params: &[Param])
    ensures
        views(final(out)@) == views(old(out)@) + views(params@).map_values(to_method_field()),
{
    let ghost head = views(out@);
    let ghost all = views(params@);
    let mut i: usize = 0;
    while i < params.len()
        invariant
            i <= params@.len(),
            all == views(params@),
            views(out@) == head + all.take(i as int).map_values(to_method_field()),
        decreases params@.len() - i,
    {
        let ghost before = out@;
        let field = Field {
            name: copy_text(params[i].ident.as_str()),
            ty: params[i].typ.type_path(),
            optional: !params[i].required,
        };
        out.push(field);
        proof {
            before.lemma_push_map_commute(|item: Field| item@, field);
            all.lemma_map_take_succ(to_method_field(), i as int);
            assert(views(out@) =~= head + all.take(i + 1).map_values(to_method_field()));
        }
        i += 1;
    }
    proof {
        all.lemma_take_len();
    }
}

/// The callable of `method` on the action type of its resource.
pub fn action(global_params: &[Param], method: &Method) -> (callable: MethodAction)
    ensures
        callable@ == method_action(views(global_params@), method@),
{
    let mut inits: Vec<Initializer> = Vec::new();
    match &method.request {
        Some(_) => {
            inits.push(Initializer::Shorthand(String::from_str("request")));
        },
        None => {},
    }
    assert(views(inits@) =~= request_initializers(method@.request));
    push_absent(&mut inits, global_params);
    push_initializers(&mut inits, method.params.as_slice());
    MethodAction {
        doc: copy_text(method.description.as_str()),
        ident: method.action_ident(),
        builder: method.builder_name(),
        args: required_arguments_of(method),
        inits,
    }
}

/// The builder type of `method`.
pub fn generate(root_url: &str, service_path: &str, global_params: &[Param], method: &Method) -> (made:
    Builder)
    ensures
        made@ == builder(root_url@, service_path@, views(global_params@), method@),
{
    let mut out: Vec<Field> = Vec::new();
    match &method.request {
        Some(path) => {
            out.push(Field { name: String::from_str("request"), ty: path.copy(), optional: false });
        },
        None => {},
    }
    assert(views(out@) =~= request_fields(method@.request));
    push_global_fields(&mut out, global_params);
    push_method_fields(&mut out, method.params.as_slice());
    Builder {
        name: method.builder_name(),
        base_url: copy_text(root_url).concat(service_path),
        fields: out,
    }
}

} // verus!
