//! The boundary to the template engine. Everything in this file is taken on
//! trust: the contracts describe what the `tera` crate does and are not
//! proved here. Rendering is not among them: the engine may not return from
//! it, so the application asks the engine and hands the answer in.

use vstd::prelude::*;
use crate::context::ValueModel;
use crate::links::{link_faults, parse_view, Links, TemplateLinks};
use crate::template::{link_table, registered, sources_view, TemplateSource};

verus! {

#[verifier::external_type_specification]
#[verifier::external_body]
pub struct ExTera(tera::Tera);

#[verifier::external_type_specification]
#[verifier::external_body]
pub struct ExContext(tera::Context);

#[verifier::external_type_specification]
#[verifier::external_body]
pub struct ExValue(tera::Value);

/// What the engine's parser makes of a template source taken alone: the
/// parent and the files of macros that the template refers to, or the
/// parser's message if the source does not parse.
pub uninterp spec fn parse_result(name: Seq<char>, content: Seq<char>) -> Result<Links, Seq<char>>;

/// The templates a registry holds: each name with the source it was last
/// added with.
pub uninterp spec fn registry_templates(registry: tera::Tera) -> Map<Seq<char>, Seq<char>>;

/// The value that an engine value stands for.
pub uninterp spec fn engine_value(value: tera::Value) -> ValueModel;

/// The bindings an engine context holds.
pub uninterp spec fn context_bindings(context: tera::Context) -> Map<Seq<char>, ValueModel>;

/// `tera::Template::new`: parses one source on its own, without looking at
/// any other template. What comes back depends on the name and the text
/// alone: the parent named by the template and the files it imports macros
/// from, in the order of the text, or the parser's message.
#[verifier::external_body]
pub(crate) fn engine_parse(name: &str, content: &str) -> (r: Result<TemplateLinks, String>)
    ensures
        parse_view(r) == parse_result(name@, content@),
{
    match tera::Template::new(name, None, content) {
        Ok(t) => Ok(
            TemplateLinks {
                parent: t.parent,
                imports: t.imported_macro_files.into_iter().map(|(file, _)| file).collect(),
            },
        ),
        Err(e) => Err(e.to_string()),
    }
}

/// `tera::Tera::default`: a registry with the engine's own filters, tests
/// and functions and no template.
#[verifier::external_body]
pub(crate) fn engine_empty() -> (r: tera::Tera)
    ensures
        registry_templates(r).dom() == Set::<Seq<char>>::empty(),
{
    tera::Tera::default()
}

/// `tera::Tera::add_raw_templates`: parses every source, puts each under
/// its name (a later source replaces an earlier one of the same name) and
/// then links the whole set. Linking follows each template's parents and
/// does not return where they run in a circle that the template itself is
/// not part of, so such sets are left out. On a registry without templates,
/// with sources that all parse, whose parents and files of macros are all
/// present and whose parents run in no circle, the engine finds nothing to
/// refuse.
#[verifier::external_body]
pub(crate) fn engine_add_all(registry: &mut tera::Tera, sources: &Vec<TemplateSource>) -> (r:
    Result<(), String>)
    requires
        registry_templates(*old(registry)).dom() == Set::<Seq<char>>::empty(),
        forall|i: int|
            0 <= i < sources.len() ==> parse_result(sources[i].name@, sources[i].content@) is Ok,
        link_faults(link_table(sources_view(sources@))).len() == 0,
    ensures
        r is Ok,
        registry_templates(*final(registry)) == registered(
            registry_templates(*old(registry)),
            sources_view(sources@),
        ),
{
    let pairs = sources.iter().map(|s| (s.name.as_str(), s.content.as_str()));
    registry.add_raw_templates(pairs).map_err(|e| e.to_string())
}

/// `tera::Value::from` for a string slice: the text value.
#[verifier::external_body]
pub(crate) fn value_text(text: &str) -> (r: tera::Value)
    ensures
        engine_value(r) == ValueModel::Text(text@),
{
    tera::Value::from(text)
}

/// `tera::Value::from` for an `i64`: the whole number.
#[verifier::external_body]
pub(crate) fn value_number(number: i64) -> (r: tera::Value)
    ensures
        engine_value(r) == ValueModel::Number(number as int),
{
    tera::Value::from(number)
}

/// `tera::Value::from` for a `bool`: the flag.
#[verifier::external_body]
pub(crate) fn value_flag(flag: bool) -> (r: tera::Value)
    ensures
        engine_value(r) == ValueModel::Flag(flag),
{
    tera::Value::from(flag)
}

/// `tera::Value::from` for a vector of values: the list of them, in order.
#[verifier::external_body]
pub(crate) fn value_list(items: Vec<tera::Value>) -> (r: tera::Value)
    ensures
        engine_value(r) == ValueModel::List(
            Seq::new(items@.len(), |i: int| engine_value(items@[i])),
        ),
{
    tera::Value::from(items)
}

/// `tera::Context::new`: a context without bindings.
#[verifier::external_body]
pub(crate) fn context_new() -> (r: tera::Context)
    ensures
        context_bindings(r).dom() == Set::<Seq<char>>::empty(),
{
    tera::Context::new()
}

/// `tera::Context::insert` with a value of the engine: binds `key` to it,
/// in place of what `key` was bound to before.
#[verifier::external_body]
pub(crate) fn context_insert(context: &mut tera::Context, key: &str, value: &tera::Value)
    ensures
        context_bindings(*final(context)) == context_bindings(*old(context)).insert(
            key@,
            engine_value(*value),
        ),
{
    context.insert(key, value)
}

/// `tera::Context::into_json`: the mapping value with the context's
/// bindings.
#[verifier::external_body]
pub(crate) fn context_into_value(context: tera::Context) -> (r: tera::Value)
    ensures
        engine_value(r) == ValueModel::Mapping(context_bindings(context)),
{
    context.into_json()
}

} // verus!
