//! Qualified and unqualified column identifiers and their rendering.

use vstd::prelude::*;

use crate::model::render::push_char;
use crate::model::render::push_quoted_ident;
use crate::model::render::quoted_ident;

verus! {

/// Mathematical model of a column reference: an optional table qualifier
/// and a column name.
pub struct SpecColumn {
    pub table: Option<Seq<char>>,
    pub name: Seq<char>,
}

/// A column reference, optionally qualified by a table name.
pub struct Column {
    table: Option<String>,
    name: String,
}

impl View for Column {
    type V = SpecColumn;

    closed spec fn view(&self) -> SpecColumn {
        SpecColumn {
            table: match self.table {
                Some(t) => Some(t@),
                None => None,
            },
            name: self.name@,
        }
    }
}

impl Clone for Column {
    fn clone(&self) -> (r: Self)
        ensures
            r@ == self@,
    {
        Column {
            table: match &self.table {
                Some(t) => Some(t.clone()),
                None => None,
            },
            name: self.name.clone(),
        }
    }
}

/// Rendered text of a column reference: `"table"."name"` when qualified,
/// `"name"` otherwise.
pub open spec fn column_sql(c: SpecColumn) -> Seq<char> {
    match c.table {
        Some(t) => quoted_ident(t) + seq!['.'] + quoted_ident(c.name),
        None => quoted_ident(c.name),
    }
}

impl Column {
    /// A column qualified by a table name.
    pub fn new(table: &str, name: &str) -> (c: Self)
        ensures
            c@ == (SpecColumn { table: Some(table@), name: name@ }),
    {
        Column { table: Some(table.to_owned()), name: name.to_owned() }
    }

    /// An unqualified column.
    pub fn name(name: &str) -> (c: Self)
        ensures
            c@ == (SpecColumn { table: None, name: name@ }),
    {
        Column { table: None, name: name.to_owned() }
    }

    /// A copy of this column with the table qualifier stripped.
    pub fn unqualify(&self) -> (c: Self)
        ensures
            c@ == (SpecColumn { table: None, name: self@.name }),
    {
        Column { table: None, name: self.name.clone() }
    }

    /// Rendered SQL text of the column reference.
    pub fn to_sql(&self) -> (r: String)
        ensures
            r@ == column_sql(self@),
    {
        let mut r = String::new();
        match &self.table {
            Some(t) => {
                push_quoted_ident(&mut r, t.as_str());
                push_char(&mut r, '.');
                push_quoted_ident(&mut r, self.name.as_str());
                proof {
                    assert(r@ =~= column_sql(self@));
                }
            },
            None => {
                push_quoted_ident(&mut r, self.name.as_str());
                proof {
                    assert(r@ =~= column_sql(self@));
                }
            },
        }
        r
    }
}

/// Conversion into a [`Column`], with an exact model of the result.
pub trait ToColumn {
    /// The model of the column this converts to.
    spec fn column_model(&self) -> SpecColumn;

    /// Convert into a column.
    fn to_column(&self) -> (c: Column)
        ensures
            c@ == self.column_model(),
    ;
}

impl ToColumn for Column {
    open spec fn column_model(&self) -> SpecColumn {
        self@
    }

    fn to_column(&self) -> (c: Column) {
        self.clone()
    }
}

impl ToColumn for String {
    open spec fn column_model(&self) -> SpecColumn {
        SpecColumn { table: None, name: self@ }
    }

    fn to_column(&self) -> (c: Column) {
        Column::name(self.as_str())
    }
}

impl ToColumn for &str {
    open spec fn column_model(&self) -> SpecColumn {
        SpecColumn { table: None, name: self@ }
    }

    fn to_column(&self) -> (c: Column) {
        Column::name(self)
    }
}

} // verus!
