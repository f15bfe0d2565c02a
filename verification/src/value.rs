//! A model of runtime values, on which the behaviour of the synthesized
//! statement is stated: what a pattern matches and which sub-values its
//! bindings receive.

use vstd::prelude::*;

verus! {

/// A runtime value: integers, booleans, strings, tuples, constructor
/// applications (a nullary constructor carries no arguments), records and
/// sequences.
#[derive(Debug, PartialEq)]
pub enum Value {
    Int(i64),
    Bool(bool),
    Str(String),
    Tuple(Vec<Value>),
    Ctor { path: String, args: Vec<Value> },
    Record { path: String, fields: Vec<FieldVal> },
    List(Vec<Value>),
}

/// One named field of a record value.
#[derive(Debug, PartialEq)]
pub struct FieldVal {
    pub name: String,
    pub value: Value,
}

/// The mathematical image of a `Value`, with strings as character
/// sequences and vectors as sequences.
pub enum ValueModel {
    Int(i64),
    Bool(bool),
    Str(Seq<char>),
    Tuple(Seq<ValueModel>),
    Ctor { path: Seq<char>, args: Seq<ValueModel> },
    Record { path: Seq<char>, fields: Seq<FieldModel> },
    List(Seq<ValueModel>),
}

/// The mathematical image of a record field.
pub struct FieldModel {
    pub name: Seq<char>,
    pub value: ValueModel,
}

/// The model of a value.
pub open spec fn value_model(v: Value) -> ValueModel
    decreases v,
{
    match v {
        Value::Int(i) => ValueModel::Int(i),
        Value::Bool(b) => ValueModel::Bool(b),
        Value::Str(s) => ValueModel::Str(s@),
        Value::Tuple(vs) => ValueModel::Tuple(values_model(vs@)),
        Value::Ctor { path, args } => ValueModel::Ctor {
            path: path@,
            args: values_model(args@),
        },
        Value::Record { path, fields } => ValueModel::Record {
            path: path@,
            fields: fields_model(fields@),
        },
        Value::List(vs) => ValueModel::List(values_model(vs@)),
    }
}

/// The models of a sequence of values, element by element.
pub open spec fn values_model(s: Seq<Value>) -> Seq<ValueModel>
    decreases s,
{
    if s.len() == 0 {
        Seq::empty()
    } else {
        seq![value_model(s[0])] + values_model(s.subrange(1, s.len() as int))
    }
}

/// The models of a sequence of record fields, element by element.
pub open spec fn fields_model(s: Seq<FieldVal>) -> Seq<FieldModel>
    decreases s,
{
    if s.len() == 0 {
        Seq::empty()
    } else {
        seq![FieldModel { name: s[0].name@, value: value_model(s[0].value) }] + fields_model(
            s.subrange(1, s.len() as int),
        )
    }
}

impl View for Value {
    type V = ValueModel;

    open spec fn view(&self) -> ValueModel {
        value_model(*self)
    }
}

/// `values_model` maps element by element: it keeps the length and models
/// each position.
pub proof fn lemma_values_model(s: Seq<Value>)
    ensures
        values_model(s).len() == s.len(),
        forall|i: int| 0 <= i < s.len() ==> #[trigger] values_model(s)[i] == value_model(s[i]),
    decreases s.len(),
{
    if s.len() > 0 {
        lemma_values_model(s.subrange(1, s.len() as int));
    }
}

/// `fields_model` maps element by element.
pub proof fn lemma_fields_model(s: Seq<FieldVal>)
    ensures
        fields_model(s).len() == s.len(),
        forall|i: int|
            0 <= i < s.len() ==> #[trigger] fields_model(s)[i] == (FieldModel {
                name: s[i].name@,
                value: value_model(s[i].value),
            }),
    decreases s.len(),
{
    if s.len() > 0 {
        lemma_fields_model(s.subrange(1, s.len() as int));
    }
}

/// A deep copy of a value: the copy has the same model.
pub fn clone_value(v: &Value) -> (r: Value)
    ensures
        r@ == v@,
    decreases *v,
{
    match v {
        Value::Int(i) => Value::Int(*i),
        Value::Bool(b) => Value::Bool(*b),
        Value::Str(s) => Value::Str(s.clone()),
        Value::Tuple(vs) => Value::Tuple(clone_values(vs)),
        Value::Ctor { path, args } => Value::Ctor {
            path: path.clone(),
            args: clone_values(args),
        },
        Value::Record { path, fields } => {
            Value::Record { path: path.clone(), fields: clone_fields(fields) }
        },
        Value::List(vs) => Value::List(clone_values(vs)),
    }
}

/// Deep copies of a vector of record fields, models kept element by
/// element.
pub fn clone_fields(fs: &Vec<FieldVal>) -> (r: Vec<FieldVal>)
    ensures
        fields_model(r@) == fields_model(fs@),
    decreases fs@,
{
    let mut nf: Vec<FieldVal> = Vec::new();
    let n = fs.len();
    for i in 0..n
        invariant
            n == fs.len(),
            nf@.len() == i,
            forall|j: int|
                0 <= j < i ==> (#[trigger] nf@[j]).name@ == fs@[j].name@ && value_model(
                    nf@[j].value,
                ) == value_model(fs@[j].value),
        decreases n - i,
    {
        let fv = FieldVal { name: fs[i].name.clone(), value: clone_value(&fs[i].value) };
        nf.push(fv);
    }
    proof {
        lemma_fields_model(nf@);
        lemma_fields_model(fs@);
        assert(fields_model(nf@) =~= fields_model(fs@));
    }
    nf
}

/// Deep copies of a vector of values, models kept element by element.
pub fn clone_values(vs: &Vec<Value>) -> (r: Vec<Value>)
    ensures
        values_model(r@) == values_model(vs@),
    decreases vs@,
{
    let mut r: Vec<Value> = Vec::new();
    let n = vs.len();
    for i in 0..n
        invariant
            n == vs.len(),
            r@.len() == i,
            forall|j: int|
                0 <= j < i ==> value_model(#[trigger] r@[j]) == value_model(vs@[j]),
        decreases n - i,
    {
        let c = clone_value(&vs[i]);
        r.push(c);
    }
    proof {
        lemma_values_model(r@);
        lemma_values_model(vs@);
        assert(values_model(r@) =~= values_model(vs@));
    }
    r
}

} // verus!
