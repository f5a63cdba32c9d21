//! The `WHERE` clause of a SQL query: filters, comparisons, and their
//! structural merge algebra.

use vstd::prelude::*;

use crate::model::column::Column;
use crate::model::column::SpecColumn;
use crate::model::column::column_sql;
use crate::model::render::join_with;
use crate::model::render::joined;
use crate::model::render::push_char;
use crate::model::value::SpecValue;
use crate::model::value::ToValue;
use crate::model::value::Value;
use crate::model::value::value_sql;
use vstd::string::StringExecFns;

verus! {

/// Type of connecting operation between two predicates of a filter.
#[derive(Clone, Copy, PartialEq, Eq, Structural, Debug)]
pub enum JoinOp {
    /// AND
    And,
    /// OR
    Or,
}

impl Default for JoinOp {
    /// The default connecting operation is `AND`.
    fn default() -> (op: Self)
        ensures
            op == JoinOp::And,
    {
        JoinOp::And
    }
}

/// Rendered text of the operator keyword.
pub open spec fn join_op_text(op: JoinOp) -> Seq<char> {
    match op {
        JoinOp::And => "AND"@,
        JoinOp::Or => "OR"@,
    }
}

/// The separator placed between two rendered predicates of one filter.
pub open spec fn op_separator(op: JoinOp) -> Seq<char> {
    match op {
        JoinOp::And => " AND "@,
        JoinOp::Or => " OR "@,
    }
}

impl JoinOp {
    /// Rendered SQL keyword of the operator.
    pub fn to_sql(&self) -> (r: String)
        ensures
            r@ == join_op_text(*self),
    {
        match self {
            JoinOp::And => "AND".to_owned(),
            JoinOp::Or => "OR".to_owned(),
        }
    }
}

/// Mathematical model of a single predicate.
#[verifier::ext_equal]
pub enum SpecComparison {
    /// `x = 1`
    Equal(SpecColumn, SpecValue),
    /// `x = ANY({1, 2, 3})`
    In(SpecColumn, SpecValue),
    /// `x <> ANY({1, 2, 3})`
    NotIn(SpecColumn, SpecValue),
    /// `x <> 1`
    NotEqual(SpecColumn, SpecValue),
    /// `(x = 1 AND y = 2)`
    Filter(SpecFilter),
}

/// Mathematical model of a filter: predicate models in order, and the
/// connecting operator.
#[verifier::ext_equal]
pub struct SpecFilter {
    pub clauses: Seq<SpecComparison>,
    pub op: JoinOp,
}

/// A single predicate over a column/value pair, or a nested sub-filter.
pub enum Comparison {
    /// `x = 1`
    Equal((Column, Value)),
    /// `x = ANY({1, 2, 3})`
    In((Column, Value)),
    /// `x <> ANY({1, 2, 3})`
    NotIn((Column, Value)),
    /// `x <> 1`
    NotEqual((Column, Value)),
    /// `(x = 1 AND y = 2)`
    Filter(Filter),
}

/// A filter to be applied using the `WHERE` clause: an ordered collection
/// of predicates joined by a single operator.
pub struct Filter {
    pub clauses: Vec<Comparison>,
    pub op: JoinOp,
}

/// The model of a predicate.
pub open spec fn comparison_view(c: Comparison) -> SpecComparison
    decreases c,
{
    match c {
        Comparison::Equal(p) => SpecComparison::Equal(p.0@, p.1@),
        Comparison::In(p) => SpecComparison::In(p.0@, p.1@),
        Comparison::NotIn(p) => SpecComparison::NotIn(p.0@, p.1@),
        Comparison::NotEqual(p) => SpecComparison::NotEqual(p.0@, p.1@),
        Comparison::Filter(f) => SpecComparison::Filter(filter_view(f)),
    }
}

/// The model of a filter.
pub open spec fn filter_view(f: Filter) -> SpecFilter
    decreases f,
{
    SpecFilter { clauses: seq_comparison_views(f.clauses@), op: f.op }
}

/// The models of a sequence of predicates, in order.
pub open spec fn seq_comparison_views(s: Seq<Comparison>) -> Seq<SpecComparison>
    decreases s,
{
    if s.len() == 0 {
        Seq::empty()
    } else {
        seq_comparison_views(s.drop_last()).push(comparison_view(s.last()))
    }
}

pub proof fn lemma_seq_comparison_views(s: Seq<Comparison>)
    ensures
        seq_comparison_views(s).len() == s.len(),
        forall|i: int|
            0 <= i < s.len() ==> #[trigger] seq_comparison_views(s)[i] == comparison_view(s[i]),
    decreases s.len(),
{
    if s.len() > 0 {
        lemma_seq_comparison_views(s.drop_last());
    }
}

impl View for Comparison {
    type V = SpecComparison;

    open spec fn view(&self) -> SpecComparison {
        comparison_view(*self)
    }
}

impl View for Filter {
    type V = SpecFilter;

    open spec fn view(&self) -> SpecFilter {
        filter_view(*self)
    }
}

/// Rendered text of one predicate.
pub open spec fn comparison_sql(c: SpecComparison) -> Seq<char>
    decreases c,
{
    match c {
        SpecComparison::Equal(col, v) => column_sql(col) + " = "@ + value_sql(v),
        SpecComparison::In(col, v) => column_sql(col) + " = ANY("@ + value_sql(v) + seq![')'],
        SpecComparison::NotIn(col, v) => column_sql(col) + " <> ANY("@ + value_sql(v)
            + seq![')'],
        SpecComparison::NotEqual(col, v) => column_sql(col) + " <> "@ + value_sql(v),
        SpecComparison::Filter(f) => seq!['('] + filter_sql(f) + seq![')'],
    }
}

/// Rendered texts of a sequence of predicates, in order.
pub open spec fn seq_comparison_sqls(cs: Seq<SpecComparison>) -> Seq<Seq<char>>
    decreases cs,
{
    if cs.len() == 0 {
        Seq::empty()
    } else {
        seq_comparison_sqls(cs.drop_last()).push(comparison_sql(cs.last()))
    }
}

pub proof fn lemma_seq_comparison_sqls(cs: Seq<SpecComparison>)
    ensures
        seq_comparison_sqls(cs).len() == cs.len(),
        forall|i: int|
            0 <= i < cs.len() ==> #[trigger] seq_comparison_sqls(cs)[i] == comparison_sql(cs[i]),
    decreases cs.len(),
{
    if cs.len() > 0 {
        lemma_seq_comparison_sqls(cs.drop_last());
    }
}

/// Rendered text of a filter: each predicate's text joined by the filter's
/// operator.
pub open spec fn filter_sql(f: SpecFilter) -> Seq<char>
    decreases f,
{
    joined(seq_comparison_sqls(f.clauses), op_separator(f.op))
}

impl Clone for Comparison {
    fn clone(&self) -> (r: Self)
        ensures
            r@ == self@,
        decreases self,
    {
        match self {
            Comparison::Equal(p) => Comparison::Equal((p.0.clone(), p.1.clone())),
            Comparison::In(p) => Comparison::In((p.0.clone(), p.1.clone())),
            Comparison::NotIn(p) => Comparison::NotIn((p.0.clone(), p.1.clone())),
            Comparison::NotEqual(p) => Comparison::NotEqual((p.0.clone(), p.1.clone())),
            Comparison::Filter(f) => Comparison::Filter(f.clone()),
        }
    }
}

impl Clone for Filter {
    fn clone(&self) -> (r: Self)
        ensures
            r@ == self@,
        decreases self,
    {
        let mut copies: Vec<Comparison> = Vec::new();
        let mut i: usize = 0;
        while i < self.clauses.len()
            invariant
                i <= self.clauses.len(),
                copies@.len() == i,
                forall|j: int|
                    0 <= j < i ==> #[trigger] comparison_view(copies@[j]) == comparison_view(
                        self.clauses@[j],
                    ),
            decreases self.clauses.len() - i,
        {
            proof {
                assert(decreases_to!(*self => self.clauses));
                assert(decreases_to!(self.clauses => self.clauses@[i as int]));
            }
            let c = self.clauses[i].clone();
            copies.push(c);
            i = i + 1;
        }
        proof {
            lemma_seq_comparison_views(copies@);
            lemma_seq_comparison_views(self.clauses@);
            assert(seq_comparison_views(copies@) =~= seq_comparison_views(self.clauses@));
        }
        Filter { clauses: copies, op: self.op }
    }
}

impl Default for Filter {
    /// The default filter is empty and joins with `AND`.
    fn default() -> (f: Self)
        ensures
            f@ == (SpecFilter { clauses: Seq::<SpecComparison>::empty(), op: JoinOp::And }),
    {
        Filter { clauses: Vec::new(), op: JoinOp::And }
    }
}

/// The structural merge of two filters: merging into an empty filter yields
/// the other filter unchanged; otherwise both sides are wrapped as nested
/// sub-filters and joined under the requested operator.
pub open spec fn spec_join(a: SpecFilter, op: JoinOp, b: SpecFilter) -> SpecFilter {
    if a.clauses.len() == 0 {
        b
    } else {
        SpecFilter {
            clauses: seq![SpecComparison::Filter(a), SpecComparison::Filter(b)],
            op,
        }
    }
}

/// The predicate appended by [`Filter::add`]: list and record values are
/// membership tests, any other value an equality test.
pub open spec fn add_comparison(col: SpecColumn, v: SpecValue) -> SpecComparison {
    match v {
        SpecValue::Record(b) => SpecComparison::In(col, *b),
        SpecValue::List(items) => SpecComparison::In(col, SpecValue::List(items)),
        _ => SpecComparison::Equal(col, v),
    }
}

/// The predicate appended by [`Filter::add_not`]: list and record values are
/// negated membership tests, any other value an inequality test.
pub open spec fn add_not_comparison(col: SpecColumn, v: SpecValue) -> SpecComparison {
    match v {
        SpecValue::Record(b) => SpecComparison::NotIn(col, *b),
        SpecValue::List(items) => SpecComparison::NotIn(col, SpecValue::List(items)),
        _ => SpecComparison::NotEqual(col, v),
    }
}

/// Structural misuse of the filter algebra.
#[derive(Clone, Copy, PartialEq, Eq, Structural, Debug)]
pub enum FilterError {
    /// Two filters with different connecting operators cannot be
    /// concatenated without changing their meaning.
    OperatorMismatch,
}

impl Filter {
    /// Merge a filter using the OR operator, wrapping both sides in
    /// parentheses; merging into an empty filter yields `filter` unchanged.
    pub fn or(&self, filter: Filter) -> (r: Self)
        ensures
            r@ == spec_join(self@, JoinOp::Or, filter@),
    {
        self.join(JoinOp::Or, filter)
    }

    /// Merge a filter using the AND operator, wrapping both sides in
    /// parentheses; merging into an empty filter yields `filter` unchanged.
    pub fn and(&self, filter: Filter) -> (r: Self)
        ensures
            r@ == spec_join(self@, JoinOp::And, filter@),
    {
        self.join(JoinOp::And, filter)
    }

    /// Whether the filter holds no predicate at all.
    pub fn is_empty(&self) -> (r: bool)
        ensures
            r == (self@.clauses.len() == 0),
    {
        proof {
            lemma_seq_comparison_views(self.clauses@);
        }
        self.clauses.len() == 0
    }

    /// Add a predicate to the filter: a list or record value becomes a
    /// membership test, any other value an equality test.
    pub fn add(&mut self, column: Column, value: impl ToValue)
        ensures
            final(self)@ == (SpecFilter {
                clauses: old(self)@.clauses.push(add_comparison(column@, value.value_model())),
                op: old(self)@.op,
            }),
    {
        let ghost vm = value.value_model();
        let v = value.to_value();
        let cmp = match v {
            Value::Record(b) => Comparison::In((column, *b)),
            Value::List(items) => Comparison::In((column, Value::List(items))),
            other => Comparison::Equal((column, other)),
        };
        proof {
            assert(cmp@ == add_comparison(column@, vm));
        }
        self.clauses.push(cmp);
        proof {
            assert(self.clauses@.drop_last() =~= old(self).clauses@);
            assert(seq_comparison_views(self.clauses@) =~= seq_comparison_views(
                old(self).clauses@,
            ).push(add_comparison(column@, vm)));
            assert(final(self)@ =~= (SpecFilter {
                clauses: old(self)@.clauses.push(add_comparison(column@, value.value_model())),
                op: old(self)@.op,
            }));
        }
    }

    /// Add a negated predicate to the filter: a list or record value becomes
    /// a negated membership test, any other value an inequality test.
    pub fn add_not(&mut self, column: Column, value: impl ToValue)
        ensures
            final(self)@ == (SpecFilter {
                clauses: old(self)@.clauses.push(
                    add_not_comparison(column@, value.value_model()),
                ),
                op: old(self)@.op,
            }),
    {
        let ghost vm = value.value_model();
        let v = value.to_value();
        let cmp = match v {
            Value::Record(b) => Comparison::NotIn((column, *b)),
            Value::List(items) => Comparison::NotIn((column, Value::List(items))),
            other => Comparison::NotEqual((column, other)),
        };
        proof {
            assert(cmp@ == add_not_comparison(column@, vm));
        }
        self.clauses.push(cmp);
        proof {
            assert(self.clauses@.drop_last() =~= old(self).clauses@);
            assert(seq_comparison_views(self.clauses@) =~= seq_comparison_views(
                old(self).clauses@,
            ).push(add_not_comparison(column@, vm)));
            assert(final(self)@ =~= (SpecFilter {
                clauses: old(self)@.clauses.push(
                    add_not_comparison(column@, value.value_model()),
                ),
                op: old(self)@.op,
            }));
        }
    }

    /// Append all predicates of `filter` to this filter's own predicate
    /// list, without wrapping either side in parentheses. Both filters must
    /// join with the same operator; concatenating across operators would
    /// silently change meaning, so it is refused.
    pub fn concat(&self, filter: Filter) -> (r: Result<Filter, FilterError>)
        ensures
            self@.op == filter@.op ==> (r matches Ok(f) && f@ == (SpecFilter {
                clauses: self@.clauses + filter@.clauses,
                op: self@.op,
            })),
            self@.op != filter@.op ==> (r matches Err(e) && e
                == FilterError::OperatorMismatch),
    {
        if self.op == filter.op {
            let mut joined_filter = self.clone();
            let mut rest = filter;
            let ghost cloned_clauses = joined_filter.clauses@;
            let ghost rest_clauses = rest.clauses@;
            joined_filter.clauses.append(&mut rest.clauses);
            proof {
                lemma_seq_comparison_views_append(cloned_clauses, rest_clauses);
                assert(joined_filter@ =~= (SpecFilter {
                    clauses: self@.clauses + filter@.clauses,
                    op: self@.op,
                }));
            }
            Ok(joined_filter)
        } else {
            Err(FilterError::OperatorMismatch)
        }
    }

    fn join(&self, op: JoinOp, filter: Filter) -> (r: Self)
        ensures
            r@ == spec_join(self@, op, filter@),
    {
        if self.is_empty() {
            filter
        } else {
            let mut clauses: Vec<Comparison> = Vec::new();
            clauses.push(Comparison::Filter(self.clone()));
            clauses.push(Comparison::Filter(filter));
            let r = Filter { clauses, op };
            proof {
                lemma_seq_comparison_views(r.clauses@);
                assert(r@.clauses =~= spec_join(self@, op, filter@).clauses);
                assert(r@ =~= spec_join(self@, op, filter@));
            }
            r
        }
    }

    /// Rendered SQL text of the filter: each predicate joined by the
    /// filter's operator, nested sub-filters parenthesized.
    pub fn to_sql(&self) -> (r: String)
        ensures
            r@ == filter_sql(self@),
        decreases self,
    {
        let mut parts: Vec<String> = Vec::new();
        let mut i: usize = 0;
        while i < self.clauses.len()
            invariant
                i <= self.clauses.len(),
                parts@.len() == i,
                forall|j: int|
                    0 <= j < i ==> #[trigger] parts@[j]@ == comparison_sql(comparison_view(
                        self.clauses@[j],
                    )),
            decreases self.clauses.len() - i,
        {
            proof {
                assert(decreases_to!(*self => self.clauses));
                assert(decreases_to!(self.clauses => self.clauses@[i as int]));
            }
            let p = self.clauses[i].to_sql();
            parts.push(p);
            i = i + 1;
        }
        let sep: &str = match self.op {
            JoinOp::And => " AND ",
            JoinOp::Or => " OR ",
        };
        let r = join_with(&parts, sep);
        proof {
            lemma_seq_comparison_views(self.clauses@);
            lemma_seq_comparison_sqls(seq_comparison_views(self.clauses@));
            assert(parts@.map_values(|p: String| p@) =~= seq_comparison_sqls(
                seq_comparison_views(self.clauses@),
            ));
        }
        r
    }
}

impl Comparison {
    /// Rendered SQL text of one predicate.
    pub fn to_sql(&self) -> (r: String)
        ensures
            r@ == comparison_sql(self@),
        decreases self,
    {
        match self {
            Comparison::Equal(p) => {
                let mut r = p.0.to_sql();
                r.append(" = ");
                let v = p.1.to_sql();
                r.append(v.as_str());
                proof {
                    assert(r@ =~= comparison_sql(self@));
                }
                r
            },
            Comparison::In(p) => {
                let mut r = p.0.to_sql();
                r.append(" = ANY(");
                let v = p.1.to_sql();
                r.append(v.as_str());
                push_char(&mut r, ')');
                proof {
                    assert(r@ =~= comparison_sql(self@));
                }
                r
            },
            Comparison::NotIn(p) => {
                let mut r = p.0.to_sql();
                r.append(" <> ANY(");
                let v = p.1.to_sql();
                r.append(v.as_str());
                push_char(&mut r, ')');
                proof {
                    assert(r@ =~= comparison_sql(self@));
                }
                r
            },
            Comparison::NotEqual(p) => {
                let mut r = p.0.to_sql();
                r.append(" <> ");
                let v = p.1.to_sql();
                r.append(v.as_str());
                proof {
                    assert(r@ =~= comparison_sql(self@));
                }
                r
            },
            Comparison::Filter(f) => {
                let mut r = String::new();
                push_char(&mut r, '(');
                let inner = f.to_sql();
                r.append(inner.as_str());
                push_char(&mut r, ')');
                proof {
                    assert(r@ =~= comparison_sql(self@));
                }
                r
            },
        }
    }
}

/// Rendered text of a whole `WHERE` clause: empty for an empty filter, else
/// the keyword and the filter's text. The leading space and keyword are the
/// clause's own responsibility, so a filter stays reusable as a pure
/// sub-expression.
pub open spec fn where_clause_sql(f: SpecFilter) -> Seq<char> {
    if f.clauses.len() == 0 {
        Seq::empty()
    } else {
        " WHERE "@ + filter_sql(f)
    }
}

/// The `WHERE` clause of a SQL query: a mutable wrapper around one filter,
/// used to accumulate predicates incrementally.
pub struct WhereClause {
    filter: Filter,
}

impl View for WhereClause {
    type V = SpecFilter;

    closed spec fn view(&self) -> SpecFilter {
        self.filter@
    }
}

impl Default for WhereClause {
    /// A clause with no predicates, joining with `AND`.
    fn default() -> (w: Self)
        ensures
            w@ == (SpecFilter { clauses: Seq::<SpecComparison>::empty(), op: JoinOp::And }),
    {
        WhereClause { filter: Filter::default() }
    }
}

impl WhereClause {
    /// Add predicates to the clause using the OR operator.
    pub fn or(&mut self, filter: Filter)
        ensures
            final(self)@ == spec_join(old(self)@, JoinOp::Or, filter@),
    {
        self.filter = self.filter.or(filter);
    }

    /// Add predicates to the clause using the AND operator.
    pub fn and(&mut self, filter: Filter)
        ensures
            final(self)@ == spec_join(old(self)@, JoinOp::And, filter@),
    {
        self.filter = self.filter.and(filter);
    }

    /// Add a single predicate to the clause, joined with the clause's own
    /// operator.
    pub fn add(&mut self, column: Column, value: impl ToValue)
        ensures
            final(self)@ == (SpecFilter {
                clauses: old(self)@.clauses.push(add_comparison(column@, value.value_model())),
                op: old(self)@.op,
            }),
    {
        self.filter.add(column, value);
    }

    /// Append all predicates of `filter` into the clause; both sides must
    /// join with the same operator, else the clause is left unchanged and
    /// the mismatch is reported.
    pub fn concat(&mut self, filter: Filter) -> (r: Result<(), FilterError>)
        ensures
            old(self)@.op == filter@.op ==> (r matches Ok(u) && final(self)@ == (SpecFilter {
                clauses: old(self)@.clauses + filter@.clauses,
                op: old(self)@.op,
            })),
            old(self)@.op != filter@.op ==> (r matches Err(e) && e
                == FilterError::OperatorMismatch && final(self)@ == old(self)@),
    {
        match self.filter.concat(filter) {
            Ok(f) => {
                self.filter = f;
                Ok(())
            },
            Err(e) => Err(e),
        }
    }

    /// Remove all predicates; the operator is left unchanged.
    pub fn clear(&mut self)
        ensures
            final(self)@ == (SpecFilter {
                clauses: Seq::<SpecComparison>::empty(),
                op: old(self)@.op,
            }),
    {
        self.filter.clauses.clear();
        proof {
            assert(final(self)@ =~= (SpecFilter {
                clauses: Seq::<SpecComparison>::empty(),
                op: old(self)@.op,
            }));
        }
    }

    /// A copy of the current filter.
    pub fn filter(&self) -> (r: Filter)
        ensures
            r@ == self@,
    {
        self.filter.clone()
    }

    /// Rendered text of the clause: empty when no predicate is set, else
    /// ` WHERE ` followed by the filter's text.
    pub fn to_sql(&self) -> (r: String)
        ensures
            r@ == where_clause_sql(self@),
    {
        if self.filter.is_empty() {
            let r = String::new();
            proof {
                assert(r@ =~= where_clause_sql(self@));
            }
            r
        } else {
            let mut r = String::new();
            r.append(" WHERE ");
            let inner = self.filter.to_sql();
            r.append(inner.as_str());
            proof {
                assert(r@ =~= where_clause_sql(self@));
            }
            r
        }
    }
}

/// Law: the empty filter is the identity of a structural merge — for any
/// operator, merging a filter into an empty one yields that filter
/// unchanged, so the merged filter renders exactly as the other filter does.
pub proof fn lemma_merge_into_empty_is_identity(empty: SpecFilter, op: JoinOp, f: SpecFilter)
    requires
        empty.clauses.len() == 0,
    ensures
        spec_join(empty, op, f) == f,
        filter_sql(spec_join(empty, op, f)) == filter_sql(f),
{
}

/// Law: concatenation flattens while a cross-merge wraps — two non-empty
/// filters over one operator concatenate to the first filter's text, one
/// separator, and the second filter's text, with no parentheses added;
/// merging the same two filters with `and`/`or` instead parenthesizes each
/// side before joining.
pub proof fn lemma_concat_flattens_merge_wraps(a: SpecFilter, b: SpecFilter, op: JoinOp)
    requires
        a.op == b.op,
        a.clauses.len() > 0,
        b.clauses.len() > 0,
    ensures
        filter_sql(SpecFilter { clauses: a.clauses + b.clauses, op: a.op }) == filter_sql(a)
            + op_separator(a.op) + filter_sql(b),
        filter_sql(spec_join(a, op, b)) == seq!['('] + filter_sql(a) + seq![')'] + op_separator(
            op,
        ) + seq!['('] + filter_sql(b) + seq![')'],
{
    lemma_seq_comparison_sqls_append(a.clauses, b.clauses);
    lemma_seq_comparison_sqls(a.clauses);
    lemma_seq_comparison_sqls(b.clauses);
    crate::model::render::lemma_joined_append(
        seq_comparison_sqls(a.clauses),
        seq_comparison_sqls(b.clauses),
        op_separator(a.op),
    );
    let merged = spec_join(a, op, b);
    let two = seq_comparison_sqls(merged.clauses);
    let sql_a = comparison_sql(SpecComparison::Filter(a));
    let sql_b = comparison_sql(SpecComparison::Filter(b));
    lemma_seq_comparison_sqls(merged.clauses);
    assert(two =~= seq![sql_a, sql_b]);
    assert(two.drop_last() =~= seq![sql_a]);
    assert(joined(two, op_separator(op)) == joined(seq![sql_a], op_separator(op))
        + op_separator(op) + sql_b);
    assert(filter_sql(merged) == sql_a + op_separator(op) + sql_b);
}

/// Model sequences distribute over concatenation of predicate lists.
pub proof fn lemma_seq_comparison_views_append(xs: Seq<Comparison>, ys: Seq<Comparison>)
    ensures
        seq_comparison_views(xs + ys) == seq_comparison_views(xs) + seq_comparison_views(ys),
{
    lemma_seq_comparison_views(xs);
    lemma_seq_comparison_views(ys);
    lemma_seq_comparison_views(xs + ys);
    assert(seq_comparison_views(xs + ys) =~= seq_comparison_views(xs) + seq_comparison_views(
        ys,
    ));
}

/// Rendered texts distribute over concatenation of predicate model lists.
pub proof fn lemma_seq_comparison_sqls_append(xs: Seq<SpecComparison>, ys: Seq<SpecComparison>)
    ensures
        seq_comparison_sqls(xs + ys) == seq_comparison_sqls(xs) + seq_comparison_sqls(ys),
{
    lemma_seq_comparison_sqls(xs);
    lemma_seq_comparison_sqls(ys);
    lemma_seq_comparison_sqls(xs + ys);
    assert(seq_comparison_sqls(xs + ys) =~= seq_comparison_sqls(xs) + seq_comparison_sqls(
        ys,
    ));
}

} // verus!
