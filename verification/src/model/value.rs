//! Bindable values and their rendering as SQL literals.

use vstd::prelude::*;

use crate::model::render::i64_text;
use crate::model::render::int_text;
use crate::model::render::join_with;
use crate::model::render::joined;
use crate::model::render::push_char;
use crate::model::render::quoted_literal;
use crate::model::render::quoted_literal_string;
use vstd::string::StringExecFns;

verus! {

/// Mathematical model of a bindable value.
pub enum SpecValue {
    /// A text value.
    Text(Seq<char>),
    /// A signed integer value.
    Integer(int),
    /// An ordered list of values, rendered as an array literal.
    List(Seq<SpecValue>),
    /// A marker wrapping a value that stands for a whole row or sub-query
    /// result; always treated membership-wise.
    Record(Box<SpecValue>),
}

/// A value destined for a SQL statement: a scalar, a list, or a record
/// marker around another value.
pub enum Value {
    /// A text value.
    String(String),
    /// A signed integer value.
    Integer(i64),
    /// An ordered list of values.
    List(Vec<Value>),
    /// A marker meaning "treat this value membership-wise".
    Record(Box<Value>),
}

/// The model of a value.
pub open spec fn value_view(v: Value) -> SpecValue
    decreases v,
{
    match v {
        Value::String(s) => SpecValue::Text(s@),
        Value::Integer(i) => SpecValue::Integer(i as int),
        Value::List(items) => SpecValue::List(seq_value_views(items@)),
        Value::Record(b) => SpecValue::Record(Box::new(value_view(*b))),
    }
}

/// The models of a sequence of values, in order.
pub open spec fn seq_value_views(s: Seq<Value>) -> Seq<SpecValue>
    decreases s,
{
    if s.len() == 0 {
        Seq::empty()
    } else {
        seq_value_views(s.drop_last()).push(value_view(s.last()))
    }
}

pub proof fn lemma_seq_value_views(s: Seq<Value>)
    ensures
        seq_value_views(s).len() == s.len(),
        forall|i: int| 0 <= i < s.len() ==> #[trigger] seq_value_views(s)[i] == value_view(s[i]),
    decreases s.len(),
{
    if s.len() > 0 {
        lemma_seq_value_views(s.drop_last());
    }
}

impl View for Value {
    type V = SpecValue;

    open spec fn view(&self) -> SpecValue {
        value_view(*self)
    }
}

/// Rendered text of a value: a single-quoted literal for text, decimal
/// digits for integers, a braced comma-separated array for lists, and the
/// inner value's text for a record marker.
pub open spec fn value_sql(v: SpecValue) -> Seq<char>
    decreases v,
{
    match v {
        SpecValue::Text(s) => quoted_literal(s),
        SpecValue::Integer(i) => int_text(i),
        SpecValue::List(items) => seq!['{'] + joined(seq_value_sqls(items), ", "@) + seq!['}'],
        SpecValue::Record(b) => value_sql(*b),
    }
}

/// Rendered texts of a sequence of values, in order.
pub open spec fn seq_value_sqls(items: Seq<SpecValue>) -> Seq<Seq<char>>
    decreases items,
{
    if items.len() == 0 {
        Seq::empty()
    } else {
        seq_value_sqls(items.drop_last()).push(value_sql(items.last()))
    }
}

pub proof fn lemma_seq_value_sqls(items: Seq<SpecValue>)
    ensures
        seq_value_sqls(items).len() == items.len(),
        forall|i: int|
            0 <= i < items.len() ==> #[trigger] seq_value_sqls(items)[i] == value_sql(items[i]),
    decreases items.len(),
{
    if items.len() > 0 {
        lemma_seq_value_sqls(items.drop_last());
    }
}

impl Clone for Value {
    fn clone(&self) -> (r: Self)
        ensures
            r@ == self@,
        decreases self,
    {
        match self {
            Value::String(s) => Value::String(s.clone()),
            Value::Integer(i) => Value::Integer(*i),
            Value::List(items) => {
                let mut copies: Vec<Value> = Vec::new();
                let mut i: usize = 0;
                while i < items.len()
                    invariant
                        i <= items.len(),
                        copies@.len() == i,
                        forall|j: int|
                            0 <= j < i ==> #[trigger] value_view(copies@[j]) == value_view(
                                items@[j],
                            ),
                        *self == Value::List(*items),
                    decreases items.len() - i,
                {
                    proof {
                        assert((*self)->List_0 == *items);
                        assert(decreases_to!(*self => (*self)->List_0));
                        assert(decreases_to!(*items => items@[i as int]));
                    }
                    let c = items[i].clone();
                    copies.push(c);
                    i = i + 1;
                }
                proof {
                    lemma_seq_value_views(copies@);
                    lemma_seq_value_views(items@);
                    assert(seq_value_views(copies@) =~= seq_value_views(items@));
                }
                Value::List(copies)
            },
            Value::Record(b) => Value::Record(Box::new((&**b).clone())),
        }
    }
}

impl Value {
    /// Rendered SQL literal text of the value.
    pub fn to_sql(&self) -> (r: String)
        ensures
            r@ == value_sql(self@),
        decreases self,
    {
        match self {
            Value::String(s) => quoted_literal_string(s.as_str()),
            Value::Integer(i) => i64_text(*i),
            Value::List(items) => {
                let mut parts: Vec<String> = Vec::new();
                let mut i: usize = 0;
                while i < items.len()
                    invariant
                        i <= items.len(),
                        parts@.len() == i,
                        forall|j: int|
                            0 <= j < i ==> #[trigger] parts@[j]@ == value_sql(value_view(
                                items@[j],
                            )),
                        *self == Value::List(*items),
                    decreases items.len() - i,
                {
                    proof {
                        assert((*self)->List_0 == *items);
                        assert(decreases_to!(*self => (*self)->List_0));
                        assert(decreases_to!(*items => items@[i as int]));
                    }
                    let p = items[i].to_sql();
                    parts.push(p);
                    i = i + 1;
                }
                let inner = join_with(&parts, ", ");
                let mut r = String::new();
                push_char(&mut r, '{');
                r.append(inner.as_str());
                push_char(&mut r, '}');
                proof {
                    lemma_seq_value_views(items@);
                    lemma_seq_value_sqls(seq_value_views(items@));
                    assert(parts@.map_values(|p: String| p@) =~= seq_value_sqls(
                        seq_value_views(items@),
                    ));
                    assert(r@ =~= value_sql(self@));
                }
                r
            },
            Value::Record(b) => (&**b).to_sql(),
        }
    }
}

/// Conversion into a [`Value`], with an exact model of the result.
pub trait ToValue {
    /// The model of the value this converts to.
    spec fn value_model(&self) -> SpecValue;

    /// Convert into a value.
    fn to_value(&self) -> (v: Value)
        ensures
            v@ == self.value_model(),
    ;
}

impl ToValue for Value {
    open spec fn value_model(&self) -> SpecValue {
        self@
    }

    fn to_value(&self) -> (v: Value) {
        self.clone()
    }
}

impl ToValue for i64 {
    open spec fn value_model(&self) -> SpecValue {
        SpecValue::Integer(*self as int)
    }

    fn to_value(&self) -> (v: Value) {
        Value::Integer(*self)
    }
}

impl ToValue for String {
    open spec fn value_model(&self) -> SpecValue {
        SpecValue::Text(self@)
    }

    fn to_value(&self) -> (v: Value) {
        Value::String(self.clone())
    }
}

impl ToValue for &str {
    open spec fn value_model(&self) -> SpecValue {
        SpecValue::Text(self@)
    }

    fn to_value(&self) -> (v: Value) {
        Value::String(String::from_str(self))
    }
}

} // verus!
