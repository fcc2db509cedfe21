//! Tuples: ordered, fixed-length sequences of tagged values.
//!
//! A tuple is immutable once built.  Tuples are constructed through
//! [`TupleBuilder`], which appends one tagged value at a time.

use vstd::prelude::*;

use crate::query_tuple::QueryTupleBuilder;
use crate::types::{Types, ValueModel};

verus! {

/// An ordered, fixed-length sequence of tagged values.
#[derive(Debug, PartialEq)]
pub struct Tuple {
    tuple: Vec<Types>,
}

impl View for Tuple {
    type V = Seq<ValueModel>;

    closed spec fn view(&self) -> Seq<ValueModel> {
        self.tuple@.map_values(|t: Types| t@)
    }
}

impl DeepView for Tuple {
    type V = Seq<ValueModel>;

    open spec fn deep_view(&self) -> Seq<ValueModel> {
        self.view()
    }
}

impl Clone for Tuple {
    fn clone(&self) -> (r: Self)
        ensures
            r@ == self@,
    {
        let mut values: Vec<Types> = Vec::new();
        let mut i: usize = 0;
        while i < self.tuple.len()
            invariant
                i <= self.tuple@.len(),
                values@.len() == i,
                forall|j: int| 0 <= j < i ==> values@[j]@ == #[trigger] self.tuple@[j]@,
            decreases self.tuple@.len() - i,
        {
            values.push(self.tuple[i].clone());
            i += 1;
        }
        let r = Tuple { tuple: values };
        proof {
            assert(r@ =~= self@);
        }
        r
    }
}

impl Tuple {
    /// Starts building a tuple of concrete values.
    pub fn builder() -> (r: TupleBuilder)
        ensures
            r@ == Seq::<ValueModel>::empty(),
    {
        TupleBuilder::default()
    }

    /// Starts building a pattern to match tuples against.
    pub fn query() -> (r: QueryTupleBuilder)
        ensures
            r@.len() == 0,
    {
        QueryTupleBuilder::default()
    }

    /// The number of values in the tuple.
    pub fn len(&self) -> (r: usize)
        ensures
            r == self@.len(),
    {
        self.tuple.len()
    }

    /// Whether the tuple has no values.
    pub fn is_empty(&self) -> (r: bool)
        ensures
            r == (self@.len() == 0),
    {
        self.tuple.is_empty()
    }

    /// A tuple over the given values.
    pub(crate) fn from_values(values: Vec<Types>) -> (r: Tuple)
        ensures
            r@ == values.deep_view(),
    {
        let r = Tuple { tuple: values };
        proof {
            assert(r@ =~= values.deep_view());
        }
        r
    }

    /// The value at one position of the tuple.
    pub fn get(&self, index: usize) -> (r: &Types)
        requires
            index < self@.len(),
        ensures
            r@ == self@[index as int],
    {
        &self.tuple[index]
    }
}

/// Builds a [`Tuple`] by appending one tagged value at a time.
pub struct TupleBuilder {
    tuple: Vec<Types>,
}

impl View for TupleBuilder {
    type V = Seq<ValueModel>;

    closed spec fn view(&self) -> Seq<ValueModel> {
        self.tuple@.map_values(|t: Types| t@)
    }
}

impl Default for TupleBuilder {
    fn default() -> (r: Self)
        ensures
            r@ == Seq::<ValueModel>::empty(),
    {
        let r = TupleBuilder { tuple: Vec::new() };
        proof {
            assert(r@ =~= Seq::<ValueModel>::empty());
        }
        r
    }
}

impl TupleBuilder {
    /// Finishes the tuple under construction.
    pub fn build(self) -> (r: Tuple)
        ensures
            r@ == self@,
    {
        let TupleBuilder { tuple } = self;
        Tuple { tuple }
    }

    /// Appends an integer value.
    pub fn integer(self, integer: i64) -> (r: Self)
        ensures
            r@ == self@.push(ValueModel::Integer(integer)),
    {
        let mut tuple = self.tuple;
        tuple.push(Types::Integer(integer));
        let r = TupleBuilder { tuple };
        proof {
            assert(r@ =~= self@.push(ValueModel::Integer(integer)));
        }
        r
    }

    /// Appends a float value, given as its IEEE-754 bit pattern.
    pub fn float(self, float: u64) -> (r: Self)
        ensures
            r@ == self@.push(ValueModel::Float(float)),
    {
        let mut tuple = self.tuple;
        tuple.push(Types::Float(float));
        let r = TupleBuilder { tuple };
        proof {
            assert(r@ =~= self@.push(ValueModel::Float(float)));
        }
        r
    }

    /// Appends a boolean value.
    pub fn boolean(self, boolean: bool) -> (r: Self)
        ensures
            r@ == self@.push(ValueModel::Boolean(boolean)),
    {
        let mut tuple = self.tuple;
        tuple.push(Types::Boolean(boolean));
        let r = TupleBuilder { tuple };
        proof {
            assert(r@ =~= self@.push(ValueModel::Boolean(boolean)));
        }
        r
    }

    /// Appends a string value.
    pub fn string(self, string: &str) -> (r: Self)
        ensures
            r@ == self@.push(ValueModel::String(string@)),
    {
        let mut tuple = self.tuple;
        tuple.push(Types::String(string.to_owned()));
        let r = TupleBuilder { tuple };
        proof {
            assert(r@ =~= self@.push(ValueModel::String(string@)));
        }
        r
    }
}

} // verus!
