//! The text of what is emitted.
//!
//! Each part is written on lines of its own and without indentation.
//! Documentation is attached by a `doc` attribute whose value is the string
//! literal of the text.

use crate::artifact::{
    ArgType, ArgTypeView, Argument, ArgumentView, Builder, BuilderView, Field, FieldView,
    Initializer, InitializerView, MethodAction, MethodActionView, Module, ModuleView,
    ResourceAction, ResourceActionView, TypeDef, TypeDefView,
};
use crate::path::{TypePath, TypePathView};
use crate::resource_builder::lemma_module_children;
use crate::text::{texts, views};
use crate::tokens::{
    base_url_item, doc_attribute, lex, lexed, push_base_url_item, push_doc_attribute,
    stream_text, string_literal, string_literal_text,
};
use vstd::prelude::*;
use vstd::string::StringExecFns;

verus! {

/// The strings of `parts` with `separator` between each two.
pub open spec fn joined(parts: Seq<Seq<char>>, separator: Seq<char>) -> Seq<char>
    decreases parts.len(),
{
    if parts.len() == 0 {
        Seq::empty()
    } else if parts.len() == 1 {
        parts[0]
    } else {
        joined(parts.drop_last(), separator) + separator + parts.last()
    }
}

pub open spec fn path_text(path: TypePathView) -> Seq<char> {
    (if path.absolute {
        "crate::"@
    } else {
        Seq::empty()
    }) + joined(path.segments, "::"@)
}

pub open spec fn arg_type_text(ty: ArgTypeView) -> Seq<char> {
    match ty {
        ArgTypeView::Convertible(path) => "impl Into<"@ + path_text(path) + ">"@,
        ArgTypeView::ByValue(path) => path_text(path),
    }
}

/// An argument, as it follows the receiver of its callable.
pub open spec fn argument_text(arg: ArgumentView) -> Seq<char> {
    ", "@ + arg.name + ": "@ + arg_type_text(arg.ty)
}

pub open spec fn to_argument_text() -> spec_fn(ArgumentView) -> Seq<char> {
    |arg: ArgumentView| argument_text(arg)
}

pub open spec fn initializer_text(init: InitializerView) -> Seq<char> {
    match init {
        InitializerView::Shorthand(name) => name + ",\n"@,
        InitializerView::Converted(name) => name + ": "@ + name + ".into(),\n"@,
        InitializerView::Absent(name) => name + ": None,\n"@,
    }
}

pub open spec fn to_initializer_text() -> spec_fn(InitializerView) -> Seq<char> {
    |init: InitializerView| initializer_text(init)
}

pub open spec fn method_action_text(callable: MethodActionView) -> Seq<char> {
    doc_attribute(string_literal(callable.doc)) + "pub fn "@ + callable.ident + "(&self"@
        + callable.args.flat_map(to_argument_text()) + ") -> "@ + callable.builder + " {\n"@
        + callable.builder + " {\nreqwest: &self.reqwest,\n"@ + callable.inits.flat_map(
        to_initializer_text(),
    ) + "}\n}\n"@
}

pub open spec fn to_method_action_text() -> spec_fn(MethodActionView) -> Seq<char> {
    |callable: MethodActionView| method_action_text(callable)
}

/// The callable of a child resource. It makes the child's action with the
/// transport handle that its own action holds.
pub open spec fn resource_action_text(callable: ResourceActionView) -> Seq<char> {
    doc_attribute(string_literal(callable.doc)) + "pub fn "@ + callable.ident + "(&self) -> "@
        + callable.ident + "::"@ + callable.action + " {\n"@ + callable.ident + "::"@
        + callable.action + " {\nreqwest: &self.reqwest,\n}\n}\n"@
}

pub open spec fn to_resource_action_text() -> spec_fn(ResourceActionView) -> Seq<char> {
    |callable: ResourceActionView| resource_action_text(callable)
}

pub open spec fn field_text(field: FieldView) -> Seq<char> {
    field.name + ": "@ + (if field.optional {
        "Option<"@ + path_text(field.ty) + ">"@
    } else {
        path_text(field.ty)
    }) + ",\n"@
}

pub open spec fn to_field_text() -> spec_fn(FieldView) -> Seq<char> {
    |field: FieldView| field_text(field)
}

pub open spec fn builder_text(made: BuilderView) -> Seq<char> {
    "pub struct "@ + made.name + "<'a> {\nreqwest: &'a reqwest::Client,\n"@ + made.fields.flat_map(
        to_field_text(),
    ) + "}\nimpl<'a> "@ + made.name + "<'a> {\n"@ + base_url_item(string_literal(made.base_url))
        + "}\n"@
}

pub open spec fn to_builder_text() -> spec_fn(BuilderView) -> Seq<char> {
    |made: BuilderView| builder_text(made)
}

pub open spec fn to_variant_text() -> spec_fn(Seq<char>) -> Seq<char> {
    |variant: Seq<char>| variant + ",\n"@
}

pub open spec fn type_def_text(def: TypeDefView) -> Seq<char> {
    "pub enum "@ + def.ident + " {\n"@ + def.variants.flat_map(to_variant_text()) + "}\n"@
}

pub open spec fn to_type_def_text() -> spec_fn(TypeDefView) -> Seq<char> {
    |def: TypeDefView| type_def_text(def)
}

/// The text of a module: the definitions of the parameter types in a module
/// of their own, the action type and its callables, the builders, and the
/// modules of the child resources.
pub open spec fn module_text(m: ModuleView) -> Seq<char>
    decreases m, 0nat,
{
    "pub mod "@ + m.ident + " {\npub mod params {\n"@ + m.type_defs.flat_map(to_type_def_text())
        + "}\npub struct "@ + m.action + "<'a> {\npub(super) reqwest: &'a reqwest::Client,\n}\nimpl<'a> "@
        + m.action + "<'a> {\n"@ + m.method_actions.flat_map(to_method_action_text())
        + m.resource_actions.flat_map(to_resource_action_text()) + "}\n"@ + m.builders.flat_map(
        to_builder_text(),
    ) + modules_text(m.modules, m.modules.len()) + "}\n"@
}

/// The texts of the first `n` of `modules`, one after the other.
pub open spec fn modules_text(modules: Seq<ModuleView>, n: nat) -> Seq<char>
    decreases modules, n,
{
    if n == 0 || n > modules.len() {
        Seq::empty()
    } else {
        modules_text(modules, (n - 1) as nat) + module_text(modules[n - 1])
    }
}

proof fn lemma_flat_map_nothing<A>(items: Seq<A>, f: spec_fn(A) -> Seq<char>)
    ensures
        items.take(0).flat_map(f) == Seq::<char>::empty(),
{
    assert(items.take(0).map_values(f) =~= Seq::<Seq<char>>::empty());
}

fn push_joined(out: &mut String, parts: &Vec<String>, separator: &str)
    ensures
        final(out)@ == old(out)@ + joined(texts(parts@), separator@),
{
    let ghost head = out@;
    let ghost all = texts(parts@);
    let mut i: usize = 0;
    assert(out@ =~= head + joined(all.take(0), separator@));
    while i < parts.len()
        invariant
            i <= parts@.len(),
            all == texts(parts@),
            out@ == head + joined(all.take(i as int), separator@),
        decreases parts@.len() - i,
    {
        let ghost before = out@;
        if i > 0 {
            out.append(separator);
        }
        out.append(parts[i].as_str());
        proof {
            let longer = all.take(i + 1);
            assert(longer.drop_last() =~= all.take(i as int));
            assert(longer.last() == all[i as int]);
            if i == 0 {
                assert(joined(longer, separator@) == all[0]);
            }
            assert(out@ =~= head + joined(longer, separator@));
        }
        i += 1;
    }
    proof {
        all.lemma_take_len();
    }
}

fn push_path(out: &mut String, path: &TypePath)
    ensures
        final(out)@ == old(out)@ + path_text(path@),
{
    if path.absolute {
        out.append("crate::");
    }
    push_joined(out, &path.segments, "::");
    assert(out@ =~= old(out)@ + path_text(path@));
}

fn push_argument(out: &mut String, arg: &Argument)
    ensures
        final(out)@ == old(out)@ + argument_text(arg@),
{
    out.append(", ");
    out.append(arg.name.as_str());
    out.append(": ");
    match &arg.ty {
        ArgType::Convertible(path) => {
            out.append("impl Into<");
            push_path(out, path);
            out.append(">");
        },
        ArgType::ByValue(path) => {
            push_path(out, path);
        },
    }
    assert(out@ =~= old(out)@ + argument_text(arg@));
}

fn push_arguments(out: &mut String, args: &Vec<Argument>)
    ensures
        final(out)@ == old(out)@ + views(args@).flat_map(to_argument_text()),
{
    let ghost head = out@;
    let ghost all = views(args@);
    let mut i: usize = 0;
    proof {
        lemma_flat_map_nothing(all, to_argument_text());
        assert(out@ =~= head + all.take(0).flat_map(to_argument_text()));
    }
    while i < args.len()
        invariant
            i <= args@.len(),
            all == views(args@),
            out@ == head + all.take(i as int).flat_map(to_argument_text()),
        decreases args@.len() - i,
    {
        push_argument(out, &args[i]);
        proof {
            all.lemma_flat_map_take_append(to_argument_text(), i as int);
            assert(out@ =~= head + all.take(i + 1).flat_map(to_argument_text()));
        }
        i += 1;
    }
    proof {
        all.lemma_take_len();
    }
}

fn push_initializer(out: &mut String, init: &Initializer)
    ensures
        final(out)@ == old(out)@ + initializer_text(init@),
{
    match init {
        Initializer::Shorthand(name) => {
            out.append(name.as_str());
            out.append(",\n");
        },
        Initializer::Converted(name) => {
            out.append(name.as_str());
            out.append(": ");
            out.append(name.as_str());
            out.append(".into(),\n");
        },
        Initializer::Absent(name) => {
            out.append(name.as_str());
            out.append(": None,\n");
        },
    }
    assert(out@ =~= old(out)@ + initializer_text(init@));
}

fn push_initializers(out: &mut String, inits: &Vec<Initializer>)
    ensures
        final(out)@ == old(out)@ + views(inits@).flat_map(to_initializer_text()),
{
    let ghost head = out@;
    let ghost all = views(inits@);
    let mut i: usize = 0;
    proof {
        lemma_flat_map_nothing(all, to_initializer_text());
        assert(out@ =~= head + all.take(0).flat_map(to_initializer_text()));
    }
    while i < inits.len()
        invariant
            i <= inits@.len(),
            all == views(inits@),
            out@ == head + all.take(i as int).flat_map(to_initializer_text()),
        decreases inits@.len() - i,
    {
        push_initializer(out, &inits[i]);
        proof {
            all.lemma_flat_map_take_append(to_initializer_text(), i as int);
            assert(out@ =~= head + all.take(i + 1).flat_map(to_initializer_text()));
        }
        i += 1;
    }
    proof {
        all.lemma_take_len();
    }
}

fn push_method_action(out: &mut String, callable: &MethodAction)
    ensures
        final(out)@ == old(out)@ + method_action_text(callable@),
{
    let literal = string_literal_text(callable.doc.as_str());
    push_doc_attribute(out, literal.as_str());
    out.append("pub fn ");
    out.append(callable.ident.as_str());
    out.append("(&self");
    push_arguments(out, &callable.args);
    out.append(") -> ");
    out.append(callable.builder.as_str());
    out.append(" {\n");
    out.append(callable.builder.as_str());
    out.append(" {\nreqwest: &self.reqwest,\n");
    push_initializers(out, &callable.inits);
    out.append("}\n}\n");
    assert(out@ =~= old(out)@ + method_action_text(callable@));
}

fn push_method_actions(out: &mut String, callables: &Vec<MethodAction>)
    ensures
        final(out)@ == old(out)@ + views(callables@).flat_map(to_method_action_text()),
{
    let ghost head = out@;
    let ghost all = views(callables@);
    let mut i: usize = 0;
    proof {
        lemma_flat_map_nothing(all, to_method_action_text());
        assert(out@ =~= head + all.take(0).flat_map(to_method_action_text()));
    }
    while i < callables.len()
        invariant
            i <= callables@.len(),
            all == views(callables@),
            out@ == head + all.take(i as int).flat_map(to_method_action_text()),
        decreases callables@.len() - i,
    {
        push_method_action(out, &callables[i]);
        proof {
            all.lemma_flat_map_take_append(to_method_action_text(), i as int);
            assert(out@ =~= head + all.take(i + 1).flat_map(to_method_action_text()));
        }
        i += 1;
    }
    proof {
        all.lemma_take_len();
    }
}

fn push_resource_action(out: &mut String, callable: &ResourceAction)
    ensures
        final(out)@ == old(out)@ + resource_action_text(callable@),
{
    let literal = string_literal_text(callable.doc.as_str());
    push_doc_attribute(out, literal.as_str());
    out.append("pub fn ");
    out.append(callable.ident.as_str());
    out.append("(&self) -> ");
    out.append(callable.ident.as_str());
    out.append("::");
    out.append(callable.action.as_str());
    out.append(" {\n");
    out.append(callable.ident.as_str());
    out.append("::");
    out.append(callable.action.as_str());
    out.append(" {\nreqwest: &self.reqwest,\n}\n}\n");
    assert(out@ =~= old(out)@ + resource_action_text(callable@));
}

fn push_resource_actions(out: &mut String, callables: &Vec<ResourceAction>)
    ensures
        final(out)@ == old(out)@ + views(callables@).flat_map(to_resource_action_text()),
{
    let ghost head = out@;
    let ghost all = views(callables@);
    let mut i: usize = 0;
    proof {
        lemma_flat_map_nothing(all, to_resource_action_text());
        assert(out@ =~= head + all.take(0).flat_map(to_resource_action_text()));
    }
    while i < callables.len()
        invariant
            i <= callables@.len(),
            all == views(callables@),
            out@ == head + all.take(i as int).flat_map(to_resource_action_text()),
        decreases callables@.len() - i,
    {
        push_resource_action(out, &callables[i]);
        proof {
            all.lemma_flat_map_take_append(to_resource_action_text(), i as int);
            assert(out@ =~= head + all.take(i + 1).flat_map(to_resource_action_text()));
        }
        i += 1;
    }
    proof {
        all.lemma_take_len();
    }
}

fn push_field(out: &mut String, field: &Field)
    ensures
        final(out)@ == old(out)@ + field_text(field@),
{
    out.append(field.name.as_str());
    out.append(": ");
    if field.optional {
        out.append("Option<");
        push_path(out, &field.ty);
        out.append(">");
    } else {
        push_path(out, &field.ty);
    }
    out.append(",\n");
    assert(out@ =~= old(out)@ + field_text(field@));
}

fn push_fields(out: &mut String, fields: &Vec<Field>)
    ensures
        final(out)@ == old(out)@ + views(fields@).flat_map(to_field_text()),
{
    let ghost head = out@;
    let ghost all = views(fields@);
    let mut i: usize = 0;
    proof {
        lemma_flat_map_nothing(all, to_field_text());
        assert(out@ =~= head + all.take(0).flat_map(to_field_text()));
    }
    while i < fields.len()
        invariant
            i <= fields@.len(),
            all == views(fields@),
            out@ == head + all.take(i as int).flat_map(to_field_text()),
        decreases fields@.len() - i,
    {
        push_field(out, &fields[i]);
        proof {
            all.lemma_flat_map_take_append(to_field_text(), i as int);
            assert(out@ =~= head + all.take(i + 1).flat_map(to_field_text()));
        }
        i += 1;
    }
    proof {
        all.lemma_take_len();
    }
}

fn push_builder(out: &mut String, made: &Builder)
    ensures
        final(out)@ == old(out)@ + builder_text(made@),
{
    out.append("pub struct ");
    out.append(made.name.as_str());
    out.append("<'a> {\nreqwest: &'a reqwest::Client,\n");
    push_fields(out, &made.fields);
    out.append("}\nimpl<'a> ");
    out.append(made.name.as_str());
    out.append("<'a> {\n");
    let literal = string_literal_text(made.base_url.as_str());
    push_base_url_item(out, literal.as_str());
    out.append("}\n");
    assert(out@ =~= old(out)@ + builder_text(made@));
}

fn push_builders(out: &mut String, builders: &Vec<Builder>)
    ensures
        final(out)@ == old(out)@ + views(builders@).flat_map(to_builder_text()),
{
    let ghost head = out@;
    let ghost all = views(builders@);
    let mut i: usize = 0;
    proof {
        lemma_flat_map_nothing(all, to_builder_text());
        assert(out@ =~= head + all.take(0).flat_map(to_builder_text()));
    }
    while i < builders.len()
        invariant
            i <= builders@.len(),
            all == views(builders@),
            out@ == head + all.take(i as int).flat_map(to_builder_text()),
        decreases builders@.len() - i,
    {
        push_builder(out, &builders[i]);
        proof {
            all.lemma_flat_map_take_append(to_builder_text(), i as int);
            assert(out@ =~= head + all.take(i + 1).flat_map(to_builder_text()));
        }
        i += 1;
    }
    proof {
        all.lemma_take_len();
    }
}

fn push_type_def(out: &mut String, def: &TypeDef)
    ensures
        final(out)@ == old(out)@ + type_def_text(def@),
{
    out.append("pub enum ");
    out.append(def.ident.as_str());
    out.append(" {\n");
    let ghost head = out@;
    let ghost all = texts(def.variants@);
    let mut i: usize = 0;
    proof {
        lemma_flat_map_nothing(all, to_variant_text());
        assert(out@ =~= head + all.take(0).flat_map(to_variant_text()));
    }
    while i < def.variants.len()
        invariant
            i <= def.variants@.len(),
            all == texts(def.variants@),
            out@ == head + all.take(i as int).flat_map(to_variant_text()),
        decreases def.variants@.len() - i,
    {
        out.append(def.variants[i].as_str());
        out.append(",\n");
        proof {
            all.lemma_flat_map_take_append(to_variant_text(), i as int);
            assert(out@ =~= head + all.take(i + 1).flat_map(to_variant_text()));
        }
        i += 1;
    }
    proof {
        all.lemma_take_len();
    }
    out.append("}\n");
    assert(out@ =~= old(out)@ + type_def_text(def@));
}

fn push_type_defs(out: &mut String, defs: &Vec<TypeDef>)
    ensures
        final(out)@ == old(out)@ + views(defs@).flat_map(to_type_def_text()),
{
    let ghost head = out@;
    let ghost all = views(defs@);
    let mut i: usize = 0;
    proof {
        lemma_flat_map_nothing(all, to_type_def_text());
        assert(out@ =~= head + all.take(0).flat_map(to_type_def_text()));
    }
    while i < defs.len()
        invariant
            i <= defs@.len(),
            all == views(defs@),
            out@ == head + all.take(i as int).flat_map(to_type_def_text()),
        decreases defs@.len() - i,
    {
        push_type_def(out, &defs[i]);
        proof {
            all.lemma_flat_map_take_append(to_type_def_text(), i as int);
            assert(out@ =~= head + all.take(i + 1).flat_map(to_type_def_text()));
        }
        i += 1;
    }
    proof {
        all.lemma_take_len();
    }
}

fn push_module(out: &mut String, m: &Module)
    ensures
        final(out)@ == old(out)@ + module_text(m@),
    decreases m,
{
    proof {
        lemma_module_children(m);
    }
    out.append("pub mod ");
    out.append(m.ident.as_str());
    out.append(" {\npub mod params {\n");
    push_type_defs(out, &m.type_defs);
    out.append("}\npub struct ");
    out.append(m.action.as_str());
    out.append("<'a> {\npub(super) reqwest: &'a reqwest::Client,\n}\nimpl<'a> ");
    out.append(m.action.as_str());
    out.append("<'a> {\n");
    push_method_actions(out, &m.method_actions);
    push_resource_actions(out, &m.resource_actions);
    out.append("}\n");
    push_builders(out, &m.builders);
    let ghost head = out@;
    let ghost children = m@.modules;
    let mut i: usize = 0;
    assert(out@ =~= head + modules_text(children, 0));
    while i < m.modules.len()
        invariant
            i <= m.modules@.len(),
            children == views(m.modules@),
            out@ == head + modules_text(children, i as nat),
        decreases m.modules@.len() - i,
    {
        push_module(out, &m.modules[i]);
        proof {
            assert(children[i as int] == m.modules@[i as int]@);
            assert(out@ =~= head + modules_text(children, (i + 1) as nat));
        }
        i += 1;
    }
    out.append("}\n");
    assert(out@ =~= old(out)@ + module_text(m@));
}

/// The text of a module.
pub fn render(m: &Module) -> (text: String)
    ensures
        text@ == module_text(m@),
{
    let mut out = String::new();
    push_module(&mut out, m);
    assert(out@ =~= module_text(m@));
    out
}

/// The text of the callable of a method.
pub fn render_method_action(callable: &MethodAction) -> (text: String)
    ensures
        text@ == method_action_text(callable@),
{
    let mut out = String::new();
    push_method_action(&mut out, callable);
    assert(out@ =~= method_action_text(callable@));
    out
}

/// The text of a builder.
pub fn render_builder(made: &Builder) -> (text: String)
    ensures
        text@ == builder_text(made@),
{
    let mut out = String::new();
    push_builder(&mut out, made);
    assert(out@ =~= builder_text(made@));
    out
}

/// The token stream of a module, or nothing where the lexer rejects the
/// module's text.
pub fn token_stream(m: &Module) -> (made: Option<proc_macro2::TokenStream>)
    ensures
        match made {
            Some(stream) => lexed(module_text(m@)) == Some(stream_text(stream)),
            None => lexed(module_text(m@)) is None,
        },
{
    let text = render(m);
    match lex(text.as_str()) {
        Ok(stream) => Some(stream),
        Err(_) => None,
    }
}

} // verus!
