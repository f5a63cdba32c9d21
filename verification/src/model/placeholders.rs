//! The ordered registry of values bound to a statement's parameters.

use vstd::prelude::*;

use crate::model::value::SpecValue;
use crate::model::value::Value;
use crate::model::value::lemma_seq_value_views;
use crate::model::value::seq_value_views;
use crate::model::value::value_view;

verus! {

/// An ordered sequence of bound values; the position in the sequence
/// determines the emitted parameter marker (1-indexed). Created fresh per
/// statement build and appended to in column/value order.
pub struct Placeholders {
    values: Vec<Value>,
}

impl View for Placeholders {
    type V = Seq<SpecValue>;

    closed spec fn view(&self) -> Seq<SpecValue> {
        seq_value_views(self.values@)
    }
}

impl Placeholders {
    /// An empty registry.
    pub fn new() -> (p: Self)
        ensures
            p@ == Seq::<SpecValue>::empty(),
    {
        Placeholders { values: Vec::new() }
    }

    /// Bind one more value, at the next parameter position.
    pub fn add(&mut self, value: &Value)
        ensures
            final(self)@ == old(self)@.push(value@),
    {
        let v = value.clone();
        self.values.push(v);
        proof {
            assert(self.values@.drop_last() =~= old(self).values@);
            assert(final(self)@ =~= old(self)@.push(value@));
        }
    }

    /// How many values are bound.
    pub fn len(&self) -> (n: usize)
        ensures
            n == self@.len(),
    {
        proof {
            lemma_seq_value_views(self.values@);
        }
        self.values.len()
    }

    /// The value bound at position `i` (0-indexed).
    pub fn get(&self, i: usize) -> (v: &Value)
        requires
            i < self@.len(),
        ensures
            v@ == self@[i as int],
    {
        proof {
            lemma_seq_value_views(self.values@);
        }
        &self.values[i]
    }
}

impl Clone for Placeholders {
    fn clone(&self) -> (r: Self)
        ensures
            r@ == self@,
    {
        let mut copies: Vec<Value> = Vec::new();
        let mut i: usize = 0;
        while i < self.values.len()
            invariant
                i <= self.values.len(),
                copies@.len() == i,
                forall|j: int|
                    0 <= j < i ==> #[trigger] value_view(copies@[j]) == value_view(
                        self.values@[j],
                    ),
            decreases self.values.len() - i,
        {
            let c = self.values[i].clone();
            copies.push(c);
            i = i + 1;
        }
        proof {
            lemma_seq_value_views(copies@);
            lemma_seq_value_views(self.values@);
            assert(seq_value_views(copies@) =~= seq_value_views(self.values@));
        }
        Placeholders { values: copies }
    }
}

} // verus!
