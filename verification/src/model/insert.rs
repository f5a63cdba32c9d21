//! The `INSERT` statement builder: columns, placeholders, and conflict
//! resolution.

use core::marker::PhantomData;
use vstd::prelude::*;

use crate::model::column::Column;
use crate::model::column::SpecColumn;
use crate::model::column::ToColumn;
use crate::model::column::column_sql;
use crate::model::placeholders::Placeholders;
use crate::model::render::dec_digits;
use crate::model::render::join_with;
use crate::model::render::joined;
use crate::model::render::push_char;
use crate::model::render::push_quoted_ident;
use crate::model::render::quoted_ident;
use crate::model::render::contains_text;
use crate::model::render::text_free_of;
use crate::model::render::u64_text;
use crate::model::value::SpecValue;
use crate::model::value::ToValue;
use crate::model::value::Value;
use vstd::string::StringExecFns;

verus! {

/// A typed record that can be inserted: its table, its column names in a
/// fixed order, and the values of one instance in that same order. Users of
/// the library implement this for their record types; nothing is assumed
/// about what an implementation returns.
pub trait Model {
    /// Name of the table this record belongs to.
    fn table_name() -> String;

    /// The record type's column names, in declaration order.
    fn column_names() -> Vec<String>;

    /// This record's values, in the same order as the column names.
    fn values(&self) -> Vec<Value>;
}

/// Mathematical model of an `INSERT` statement under construction.
#[verifier::ext_equal]
pub struct SpecInsert {
    pub table_name: Seq<char>,
    pub columns: Seq<SpecColumn>,
    pub placeholders: Seq<SpecValue>,
    pub no_conflict: bool,
    pub unique_by: Seq<SpecColumn>,
}

/// An `INSERT ... VALUES (...) [ON CONFLICT ...] RETURNING *` statement
/// builder for records of type `T`.
pub struct Insert<T> {
    table_name: String,
    columns: Vec<Column>,
    pub placeholders: Placeholders,
    marker: PhantomData<T>,
    no_conflict: bool,
    unique_by: Vec<Column>,
}

impl<T> View for Insert<T> {
    type V = SpecInsert;

    closed spec fn view(&self) -> SpecInsert {
        SpecInsert {
            table_name: self.table_name@,
            columns: self.columns@.map_values(|c: Column| c@),
            placeholders: self.placeholders@,
            no_conflict: self.no_conflict,
            unique_by: self.unique_by@.map_values(|c: Column| c@),
        }
    }
}

/// A column reference with its table qualifier stripped.
pub open spec fn unqualified(c: SpecColumn) -> SpecColumn {
    SpecColumn { table: None, name: c.name }
}

/// One `"col" = EXCLUDED."col"` assignment of an upsert's update list.
pub open spec fn excluded_update_sql(c: SpecColumn) -> Seq<char> {
    column_sql(c) + " = EXCLUDED."@ + column_sql(c)
}

/// The parameter markers `$1` to `$n`, in order.
pub open spec fn marker_texts(n: nat) -> Seq<Seq<char>> {
    Seq::new(n, |i: int| seq!['$'] + dec_digits((i + 1) as nat))
}

/// The conflict-resolution fragment of the statement, trailing space
/// included: `ON CONFLICT DO NOTHING ` when conflicts are ignored, an
/// `ON CONFLICT (...) DO UPDATE SET ...` upsert when conflict-target
/// columns are named (each rendered unqualified), and empty otherwise.
/// When both modes are set, ignoring conflicts wins.
pub open spec fn conflict_sql(m: SpecInsert) -> Seq<char> {
    if m.no_conflict {
        "ON CONFLICT DO NOTHING "@
    } else if m.unique_by.len() > 0 {
        "ON CONFLICT ("@ + joined(
            m.unique_by.map_values(|c: SpecColumn| column_sql(unqualified(c))),
            ", "@,
        ) + ") DO UPDATE SET "@ + joined(
            m.unique_by.map_values(|c: SpecColumn| excluded_update_sql(unqualified(c))),
            ", "@,
        ) + " "@
    } else {
        Seq::empty()
    }
}

/// Everything of the statement up to and including `VALUES (`.
pub open spec fn insert_head_sql(m: SpecInsert) -> Seq<char> {
    "INSERT INTO "@ + quoted_ident(m.table_name) + " ("@ + joined(
        m.columns.map_values(|c: SpecColumn| column_sql(c)),
        ", "@,
    ) + ") VALUES ("@
}

/// Everything of the statement after the parameter markers.
pub open spec fn insert_tail_sql(m: SpecInsert) -> Seq<char> {
    ") "@ + conflict_sql(m) + "RETURNING *"@
}

/// Rendered text of the whole statement. The markers are always generated
/// fresh, `$1` to `$N` in column order, and `RETURNING *` is always
/// appended.
pub open spec fn insert_sql(m: SpecInsert) -> Seq<char> {
    insert_head_sql(m) + joined(marker_texts(m.columns.len()), ", "@) + insert_tail_sql(m)
}

impl<T: Model> Insert<T> {
    /// An insert of one typed record: the column list comes from the type,
    /// the placeholder list from the record's values, both in the type's
    /// declared order. What the statement holds is pinned exactly by
    /// [`Insert::from_parts`]; this constructor only fixes the conflict
    /// policy, since nothing is assumed of a `Model` implementation.
    pub fn new(model: T) -> (r: Self)
        ensures
            r@.no_conflict == false,
            r@.unique_by.len() == 0,
            forall|i: int| 0 <= i < r@.columns.len() ==> #[trigger] r@.columns[i].table is None,
    {
        let table_name = T::table_name();
        let column_names = T::column_names();
        let values = model.values();
        Self::from_parts(table_name.as_str(), &column_names, &values)
    }

    /// An insert built from explicit parts: one unqualified column per given
    /// column name, and one placeholder per given value, in order.
    pub fn from_parts(table_name: &str, column_names: &Vec<String>, values: &Vec<Value>) -> (r:
        Self)
        ensures
            r@ == (SpecInsert {
                table_name: table_name@,
                columns: column_names@.map_values(
                    |n: String| SpecColumn { table: None, name: n@ },
                ),
                placeholders: values@.map_values(|v: Value| v@),
                no_conflict: false,
                unique_by: Seq::<SpecColumn>::empty(),
            }),
    {
        let mut columns: Vec<Column> = Vec::new();
        let mut i: usize = 0;
        while i < column_names.len()
            invariant
                i <= column_names.len(),
                columns@.len() == i,
                forall|j: int|
                    0 <= j < i ==> #[trigger] columns@[j]@ == (SpecColumn {
                        table: None,
                        name: column_names@[j]@,
                    }),
            decreases column_names.len() - i,
        {
            columns.push(Column::name(column_names[i].as_str()));
            i = i + 1;
        }
        let mut placeholders = Placeholders::new();
        let mut k: usize = 0;
        while k < values.len()
            invariant
                k <= values.len(),
                placeholders@.len() == k,
                forall|j: int| 0 <= j < k ==> #[trigger] placeholders@[j] == values@[j]@,
            decreases values.len() - k,
        {
            placeholders.add(&values[k]);
            k = k + 1;
        }
        let r = Insert {
            table_name: table_name.to_owned(),
            columns,
            placeholders,
            marker: PhantomData,
            no_conflict: false,
            unique_by: Vec::new(),
        };
        proof {
            assert(r@ =~= (SpecInsert {
                table_name: table_name@,
                columns: column_names@.map_values(
                    |n: String| SpecColumn { table: None, name: n@ },
                ),
                placeholders: values@.map_values(|v: Value| v@),
                no_conflict: false,
                unique_by: Seq::<SpecColumn>::empty(),
            }));
        }
        r
    }

    /// An insert built from parallel column and value lists. Each column is
    /// stored unqualified: a table-qualified column is illegal inside an
    /// `INSERT` column list. The table name comes from the record type.
    pub fn from_columns<C: ToColumn, V: ToValue>(columns: &[C], values: &[V]) -> (r: Self)
        ensures
            r@.columns == columns@.map_values(|c: C| unqualified(c.column_model())),
            r@.placeholders == values@.map_values(|v: V| v.value_model()),
            r@.no_conflict == false,
            r@.unique_by.len() == 0,
    {
        let mut cols: Vec<Column> = Vec::new();
        let mut i: usize = 0;
        while i < columns.len()
            invariant
                i <= columns.len(),
                cols@.len() == i,
                forall|j: int|
                    0 <= j < i ==> #[trigger] cols@[j]@ == unqualified(
                        columns@[j].column_model(),
                    ),
            decreases columns.len() - i,
        {
            let c = columns[i].to_column();
            cols.push(c.unqualify());
            i = i + 1;
        }
        let mut placeholders = Placeholders::new();
        let mut k: usize = 0;
        while k < values.len()
            invariant
                k <= values.len(),
                placeholders@.len() == k,
                forall|j: int| 0 <= j < k ==> #[trigger] placeholders@[j] == values@[j].value_model(),
            decreases values.len() - k,
        {
            let v = values[k].to_value();
            placeholders.add(&v);
            k = k + 1;
        }
        let table_name = T::table_name();
        let r = Insert {
            table_name,
            columns: cols,
            placeholders,
            marker: PhantomData,
            no_conflict: false,
            unique_by: Vec::new(),
        };
        proof {
            assert(r@.columns =~= columns@.map_values(|c: C| unqualified(c.column_model())));
            assert(r@.placeholders =~= values@.map_values(|v: V| v.value_model()));
        }
        r
    }

    /// Ignore conflicting rows: render `ON CONFLICT DO NOTHING`.
    pub fn no_conflict(self) -> (r: Self)
        ensures
            r@ == (SpecInsert {
                table_name: self@.table_name,
                columns: self@.columns,
                placeholders: self@.placeholders,
                no_conflict: true,
                unique_by: self@.unique_by,
            }),
    {
        let mut this = self;
        this.no_conflict = true;
        this
    }

    /// Upsert on the given conflict-target columns: render
    /// `ON CONFLICT (...) DO UPDATE SET ...` over them.
    pub fn unique_by<C: ToColumn>(self, columns: &[C]) -> (r: Self)
        ensures
            r@ == (SpecInsert {
                table_name: self@.table_name,
                columns: self@.columns,
                placeholders: self@.placeholders,
                no_conflict: self@.no_conflict,
                unique_by: columns@.map_values(|c: C| c.column_model()),
            }),
    {
        let mut unique: Vec<Column> = Vec::new();
        let mut i: usize = 0;
        while i < columns.len()
            invariant
                i <= columns.len(),
                unique@.len() == i,
                forall|j: int| 0 <= j < i ==> #[trigger] unique@[j]@ == columns@[j].column_model(),
            decreases columns.len() - i,
        {
            let c = columns[i].to_column();
            unique.push(c);
            i = i + 1;
        }
        let mut this = self;
        this.unique_by = unique;
        proof {
            assert(this@.unique_by =~= columns@.map_values(|c: C| c.column_model()));
            assert(this@ =~= (SpecInsert {
                table_name: self@.table_name,
                columns: self@.columns,
                placeholders: self@.placeholders,
                no_conflict: self@.no_conflict,
                unique_by: columns@.map_values(|c: C| c.column_model()),
            }));
        }
        this
    }
}

impl<T> Insert<T> {
    /// Rendered text of the whole statement.
    pub fn to_sql(&self) -> (r: String)
        ensures
            r@ == insert_sql(self@),
    {
        let mut r = String::new();
        r.append("INSERT INTO ");
        push_quoted_ident(&mut r, self.table_name.as_str());
        r.append(" (");
        let mut col_parts: Vec<String> = Vec::new();
        let mut i: usize = 0;
        while i < self.columns.len()
            invariant
                i <= self.columns.len(),
                col_parts@.len() == i,
                forall|j: int|
                    0 <= j < i ==> #[trigger] col_parts@[j]@ == column_sql(self.columns@[j]@),
            decreases self.columns.len() - i,
        {
            let p = self.columns[i].to_sql();
            col_parts.push(p);
            i = i + 1;
        }
        let cols = join_with(&col_parts, ", ");
        r.append(cols.as_str());
        r.append(") VALUES (");
        proof {
            assert(col_parts@.map_values(|p: String| p@) =~= self@.columns.map_values(
                |c: SpecColumn| column_sql(c),
            ));
            assert(r@ =~= insert_head_sql(self@));
        }
        let ghost head = r@;
        let mut mark_parts: Vec<String> = Vec::new();
        let mut k: usize = 0;
        while k < self.columns.len()
            invariant
                k <= self.columns.len(),
                mark_parts@.len() == k,
                forall|j: int|
                    0 <= j < k ==> #[trigger] mark_parts@[j]@ == seq!['$'] + dec_digits(
                        (j + 1) as nat,
                    ),
            decreases self.columns.len() - k,
        {
            let mut m = String::new();
            push_char(&mut m, '$');
            let digits = u64_text((k + 1) as u64);
            m.append(digits.as_str());
            proof {
                assert(m@ =~= seq!['$'] + dec_digits((k + 1) as nat));
            }
            mark_parts.push(m);
            k = k + 1;
        }
        let marks = join_with(&mark_parts, ", ");
        r.append(marks.as_str());
        r.append(") ");
        proof {
            assert(mark_parts@.map_values(|p: String| p@) =~= marker_texts(
                self@.columns.len(),
            ));
            assert(r@ == head + joined(marker_texts(self@.columns.len()), ", "@) + ") "@);
        }
        if self.no_conflict {
            r.append("ON CONFLICT DO NOTHING ");
        } else if self.unique_by.len() > 0 {
            r.append("ON CONFLICT (");
            let mut uq_parts: Vec<String> = Vec::new();
            let mut a: usize = 0;
            while a < self.unique_by.len()
                invariant
                    a <= self.unique_by.len(),
                    uq_parts@.len() == a,
                    forall|j: int|
                        0 <= j < a ==> #[trigger] uq_parts@[j]@ == column_sql(unqualified(
                            self.unique_by@[j]@,
                        )),
                decreases self.unique_by.len() - a,
            {
                let u = self.unique_by[a].unqualify();
                let p = u.to_sql();
                uq_parts.push(p);
                a = a + 1;
            }
            let uq = join_with(&uq_parts, ", ");
            r.append(uq.as_str());
            r.append(") DO UPDATE SET ");
            let mut set_parts: Vec<String> = Vec::new();
            let mut b: usize = 0;
            while b < self.unique_by.len()
                invariant
                    b <= self.unique_by.len(),
                    set_parts@.len() == b,
                    forall|j: int|
                        0 <= j < b ==> #[trigger] set_parts@[j]@ == excluded_update_sql(
                            unqualified(self.unique_by@[j]@),
                        ),
                decreases self.unique_by.len() - b,
            {
                let u = self.unique_by[b].unqualify();
                let mut s = u.to_sql();
                s.append(" = EXCLUDED.");
                let again = u.to_sql();
                s.append(again.as_str());
                proof {
                    assert(s@ =~= excluded_update_sql(unqualified(self.unique_by@[b as int]@)));
                }
                set_parts.push(s);
                b = b + 1;
            }
            let sets = join_with(&set_parts, ", ");
            r.append(sets.as_str());
            r.append(" ");
            proof {
                assert(uq_parts@.map_values(|p: String| p@) =~= self@.unique_by.map_values(
                    |c: SpecColumn| column_sql(unqualified(c)),
                ));
                assert(set_parts@.map_values(|p: String| p@) =~= self@.unique_by.map_values(
                    |c: SpecColumn| excluded_update_sql(unqualified(c)),
                ));
            }
        }
        r.append("RETURNING *");
        proof {
            assert(r@ =~= insert_sql(self@));
        }
        r
    }
}

/// Whether every character of a name is a lowercase ASCII letter, a digit
/// or an underscore: the ordinary shape of a SQL column name.
pub open spec fn plain_ident(s: Seq<char>) -> bool {
    forall|i: int|
        0 <= i < s.len() ==> ('a' <= #[trigger] s[i] <= 'z' || '0' <= s[i] <= '9' || s[i] == '_')
}

proof fn lemma_plain_part_free_of_g(name: Seq<char>)
    requires
        plain_ident(name),
    ensures
        text_free_of(column_sql(unqualified(SpecColumn { table: None, name })), 'G'),
        text_free_of(
            excluded_update_sql(unqualified(SpecColumn { table: None, name })),
            'G',
        ),
{
    assert(text_free_of(name, '"'));
    crate::model::render::lemma_escaped_free(name, '"');
    let quoted = column_sql(unqualified(SpecColumn { table: None, name }));
    assert(quoted == seq!['"'] + name + seq!['"']);
    assert(text_free_of(name, 'G'));
    crate::model::render::lemma_concat_free(seq!['"'], name, 'G');
    crate::model::render::lemma_concat_free(seq!['"'] + name, seq!['"'], 'G');
    reveal_strlit(" = EXCLUDED.");
    assert(text_free_of(" = EXCLUDED."@, 'G'));
    crate::model::render::lemma_concat_free(quoted, " = EXCLUDED."@, 'G');
    crate::model::render::lemma_concat_free(quoted + " = EXCLUDED."@, quoted, 'G');
}

/// Law: the conflict variants are mutually distinguishable. An insert that
/// ignores conflicts renders the conflict fragment `ON CONFLICT DO NOTHING `,
/// which never holds the text `DO UPDATE`; an upsert over conflict-target
/// columns whose names are ordinary lowercase identifiers renders a fragment
/// that holds `DO UPDATE` and never `DO NOTHING`.
pub proof fn lemma_conflict_variants_distinct(m1: SpecInsert, m2: SpecInsert)
    requires
        m1.no_conflict,
        !m2.no_conflict,
        m2.unique_by.len() > 0,
        forall|i: int|
            0 <= i < m2.unique_by.len() ==> plain_ident(#[trigger] m2.unique_by[i].name),
    ensures
        conflict_sql(m1) == "ON CONFLICT DO NOTHING "@,
        !contains_text(conflict_sql(m1), "DO UPDATE"@),
        contains_text(conflict_sql(m2), "DO UPDATE"@),
        !contains_text(conflict_sql(m2), "DO NOTHING"@),
{
    reveal_strlit("ON CONFLICT DO NOTHING ");
    reveal_strlit("DO UPDATE");
    reveal_strlit("DO NOTHING");
    reveal_strlit("ON CONFLICT (");
    reveal_strlit(") DO UPDATE SET ");
    reveal_strlit(" = EXCLUDED.");
    reveal_strlit(", ");
    reveal_strlit(" ");
    let s1 = conflict_sql(m1);
    assert(text_free_of(s1, 'U'));
    assert("DO UPDATE"@[3] == 'U');
    crate::model::render::lemma_free_char_no_contains(s1, "DO UPDATE"@, 3, 'U');
    let parts1 = m2.unique_by.map_values(|c: SpecColumn| column_sql(unqualified(c)));
    let parts2 = m2.unique_by.map_values(|c: SpecColumn| excluded_update_sql(unqualified(c)));
    let j1 = joined(parts1, ", "@);
    let j2 = joined(parts2, ", "@);
    let s2 = conflict_sql(m2);
    assert(s2 == "ON CONFLICT ("@ + j1 + ") DO UPDATE SET "@ + j2 + " "@);
    let k = ("ON CONFLICT ("@.len() + j1.len() + 2) as int;
    assert forall|t: int| 0 <= t < 9 implies #[trigger] s2[k + t] == ") DO UPDATE SET "@[2
        + t] by {
        assert(s2[k + t] == (") DO UPDATE SET "@ + j2 + " "@)[2 + t]);
    }
    assert(s2.subrange(k, k + 9) =~= "DO UPDATE"@);
    assert(contains_text(s2, "DO UPDATE"@));
    assert forall|i: int| 0 <= i < parts1.len() implies text_free_of(
        #[trigger] parts1[i],
        'G',
    ) by {
        lemma_plain_part_free_of_g(m2.unique_by[i].name);
        assert(unqualified(m2.unique_by[i]) == unqualified(
            SpecColumn { table: None, name: m2.unique_by[i].name },
        ));
        assert(parts1[i] == column_sql(unqualified(m2.unique_by[i])));
    }
    assert forall|i: int| 0 <= i < parts2.len() implies text_free_of(
        #[trigger] parts2[i],
        'G',
    ) by {
        lemma_plain_part_free_of_g(m2.unique_by[i].name);
        assert(unqualified(m2.unique_by[i]) == unqualified(
            SpecColumn { table: None, name: m2.unique_by[i].name },
        ));
        assert(parts2[i] == excluded_update_sql(unqualified(m2.unique_by[i])));
    }
    crate::model::render::lemma_joined_free(parts1, ", "@, 'G');
    crate::model::render::lemma_joined_free(parts2, ", "@, 'G');
    assert(text_free_of("ON CONFLICT ("@, 'G'));
    assert(text_free_of(") DO UPDATE SET "@, 'G'));
    assert(text_free_of(" "@, 'G'));
    crate::model::render::lemma_concat_free("ON CONFLICT ("@, j1, 'G');
    crate::model::render::lemma_concat_free("ON CONFLICT ("@ + j1, ") DO UPDATE SET "@, 'G');
    crate::model::render::lemma_concat_free(
        "ON CONFLICT ("@ + j1 + ") DO UPDATE SET "@,
        j2,
        'G',
    );
    crate::model::render::lemma_concat_free(
        "ON CONFLICT ("@ + j1 + ") DO UPDATE SET "@ + j2,
        " "@,
        'G',
    );
    assert("DO NOTHING"@[9] == 'G');
    crate::model::render::lemma_free_char_no_contains(s2, "DO NOTHING"@, 9, 'G');
}

/// Law: column/placeholder alignment — the rendered statement carries
/// exactly one parameter marker per column, numbered `$1` to `$N` in column
/// order, between the statement's head and tail.
pub proof fn lemma_insert_marker_alignment(m: SpecInsert)
    ensures
        insert_sql(m) == insert_head_sql(m) + joined(marker_texts(m.columns.len()), ", "@)
            + insert_tail_sql(m),
        marker_texts(m.columns.len()).len() == m.columns.len(),
        forall|i: int|
            0 <= i < m.columns.len() ==> #[trigger] marker_texts(m.columns.len())[i]
                == seq!['$'] + dec_digits((i + 1) as nat),
{
}

} // verus!
