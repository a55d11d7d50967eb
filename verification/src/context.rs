//! The values a template is rendered with.

use vstd::prelude::*;
use crate::engine::{
    context_bindings, context_insert, context_into_value, context_new, engine_value, value_flag,
    value_list, value_number, value_text,
};

verus! {

/// A value in mathematical form.
pub ghost enum ValueModel {
    Text(Seq<char>),
    Number(int),
    Flag(bool),
    List(Seq<ValueModel>),
    Mapping(Map<Seq<char>, ValueModel>),
}

/// A value that a template variable can be bound to.
pub enum ContextValue {
    Text(String),
    Number(i64),
    Flag(bool),
    List(Vec<ContextValue>),
    Mapping(Vec<Binding>),
}

/// A variable's name with its value.
pub struct Binding {
    pub key: String,
    pub value: ContextValue,
}

/// The mapping that a list of bindings stands for: where a key is bound more
/// than once, the last binding holds.
pub open spec fn bindings_map(entries: Seq<(Seq<char>, ValueModel)>) -> Map<Seq<char>, ValueModel>
    decreases entries.len(),
{
    if entries.len() == 0 {
        Map::empty()
    } else {
        bindings_map(entries.drop_last()).insert(entries.last().0, entries.last().1)
    }
}

impl View for ContextValue {
    type V = ValueModel;

    open spec fn view(&self) -> ValueModel
        decreases self,
    {
        match self {
            ContextValue::Text(text) => ValueModel::Text(text@),
            ContextValue::Number(number) => ValueModel::Number(*number as int),
            ContextValue::Flag(flag) => ValueModel::Flag(*flag),
            ContextValue::List(items) => ValueModel::List(
                Seq::new(
                    items@.len(),
                    |i: int|
                        if 0 <= i < items@.len() {
                            items@[i].view()
                        } else {
                            ValueModel::Flag(false)
                        },
                ),
            ),
            ContextValue::Mapping(bindings) => ValueModel::Mapping(
                bindings_map(bindings_view(bindings@)),
            ),
        }
    }
}

/// A list of bindings as pairs of a name and a value.
pub open spec fn bindings_view(bindings: Seq<Binding>) -> Seq<(Seq<char>, ValueModel)>
    decreases bindings,
{
    Seq::new(
        bindings.len(),
        |i: int|
            if 0 <= i < bindings.len() {
                (bindings[i].key@, bindings[i].value.view())
            } else {
                (Seq::empty(), ValueModel::Flag(false))
            },
    )
}

/// The bindings a template is rendered with.
pub struct RenderContext {
    bindings: Vec<Binding>,
}

impl View for RenderContext {
    type V = Map<Seq<char>, ValueModel>;

    closed spec fn view(&self) -> Map<Seq<char>, ValueModel> {
        bindings_map(bindings_view(self.bindings@))
    }
}

impl RenderContext {
    /// A context without bindings.
    pub fn new() -> (r: RenderContext)
        ensures
            r@ == Map::<Seq<char>, ValueModel>::empty(),
    {
        let r = RenderContext { bindings: Vec::new() };
        assert(bindings_view(r.bindings@) =~= Seq::empty());
        r
    }

    /// Binds `key` to `value`, in place of what it was bound to before.
    pub fn insert(&mut self, key: String, value: ContextValue)
        ensures
            final(self)@ == old(self)@.insert(key@, value@),
    {
        let ghost before = bindings_view(self.bindings@);
        self.bindings.push(Binding { key, value });
        proof {
            let after = bindings_view(self.bindings@);
            assert(after.drop_last() =~= before);
            assert(after.last() == (key@, value@));
        }
    }

    /// The context of the engine that holds the same bindings.
    pub fn to_engine(&self) -> (r: tera::Context)
        ensures
            context_bindings(r) == self@,
    {
        to_engine_context(&self.bindings)
    }
}

impl Default for RenderContext {
    /// A context without bindings.
    fn default() -> (r: RenderContext)
        ensures
            r@ == Map::<Seq<char>, ValueModel>::empty(),
    {
        RenderContext::new()
    }
}

/// The engine's value for `value`.
fn to_engine_value(value: &ContextValue) -> (r: tera::Value)
    ensures
        engine_value(r) == value@,
    decreases value,
{
    match value {
        ContextValue::Text(text) => {
            let r = value_text(text.as_str());
            assert(engine_value(r) == value@);
            r
        },
        ContextValue::Number(number) => {
            let r = value_number(*number);
            assert(engine_value(r) == value@);
            r
        },
        ContextValue::Flag(flag) => {
            let r = value_flag(*flag);
            assert(engine_value(r) == value@);
            r
        },
        ContextValue::List(items) => {
            let made = to_engine_list(items);
            assert(Seq::new(made@.len(), |j: int| engine_value(made@[j])) =~= value@->List_0);
            let r = value_list(made);
            assert(engine_value(r) == value@);
            r
        },
        ContextValue::Mapping(bindings) => {
            let context = to_engine_context(bindings);
            let r = context_into_value(context);
            assert(engine_value(r) == value@);
            r
        },
    }
}

/// The engine's values for `items`, in order.
fn to_engine_list(items: &Vec<ContextValue>) -> (made: Vec<tera::Value>)
    ensures
        made.len() == items.len(),
        forall|j: int| 0 <= j < items.len() ==> engine_value(made@[j]) == items@[j]@,
    decreases items,
{
    let mut made: Vec<tera::Value> = Vec::new();
    let mut i: usize = 0;
    while i < items.len()
        invariant
            i <= items.len(),
            made.len() == i,
            forall|j: int| 0 <= j < i ==> engine_value(made@[j]) == items@[j]@,
        decreases items.len() - i,
    {
        made.push(to_engine_value(&items[i]));
        i = i + 1;
    }
    made
}

/// The engine's context for `bindings`.
fn to_engine_context(bindings: &Vec<Binding>) -> (r: tera::Context)
    ensures
        context_bindings(r) == bindings_map(bindings_view(bindings@)),
    decreases bindings,
{
    let ghost all = bindings_view(bindings@);
    let mut context = context_new();
    let mut i: usize = 0;
    assert(all.take(0) =~= Seq::empty());
    assert(context_bindings(context) =~= Map::empty());
    while i < bindings.len()
        invariant
            i <= bindings.len(),
            all == bindings_view(bindings@),
            context_bindings(context) == bindings_map(all.take(i as int)),
        decreases bindings.len() - i,
    {
        let value = to_engine_value(&bindings[i].value);
        context_insert(&mut context, bindings[i].key.as_str(), &value);
        proof {
            let next = all.take(i + 1);
            assert(next.drop_last() =~= all.take(i as int));
            assert(next.last() == all[i as int]);
        }
        i = i + 1;
    }
    assert(all.take(bindings.len() as int) =~= all);
    context
}

} // verus!
