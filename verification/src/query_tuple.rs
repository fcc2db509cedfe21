//! Patterns: ordered, fixed-length sequences of wildcard-or-exact matchers.
//!
//! A pattern is compared positionally against a tuple: it matches exactly
//! when both have the same length and every position satisfies the
//! per-position rule of [`crate::types::value_satisfies`].

use vstd::prelude::*;

use crate::tuple::Tuple;
use crate::types::{value_satisfies, QueryModel, QueryTypes, ValueModel};

verus! {

/// The match rule: a pattern matches a tuple exactly when both have the same
/// length and every position of the tuple satisfies the pattern element at
/// that position.  A length mismatch never matches.
pub open spec fn query_matches(q: Seq<QueryModel>, t: Seq<ValueModel>) -> bool {
    &&& q.len() == t.len()
    &&& forall|i: int| 0 <= i < q.len() ==> #[trigger] value_satisfies(q[i], t[i])
}

/// An ordered, fixed-length sequence of pattern elements.
#[derive(Debug, PartialEq)]
pub struct QueryTuple {
    query_tuple: Vec<QueryTypes>,
}

impl View for QueryTuple {
    type V = Seq<QueryModel>;

    closed spec fn view(&self) -> Seq<QueryModel> {
        self.query_tuple@.map_values(|q: QueryTypes| q@)
    }
}

impl Clone for QueryTuple {
    fn clone(&self) -> (r: Self)
        ensures
            r@ == self@,
    {
        let mut elements: Vec<QueryTypes> = Vec::new();
        let mut i: usize = 0;
        while i < self.query_tuple.len()
            invariant
                i <= self.query_tuple@.len(),
                elements@.len() == i,
                forall|j: int| 0 <= j < i ==> elements@[j]@ == #[trigger] self.query_tuple@[j]@,
            decreases self.query_tuple@.len() - i,
        {
            elements.push(self.query_tuple[i].clone());
            i += 1;
        }
        let r = QueryTuple { query_tuple: elements };
        proof {
            assert(r@ =~= self@);
        }
        r
    }
}

impl QueryTuple {
    /// The number of pattern elements.
    pub fn len(&self) -> (r: usize)
        ensures
            r == self@.len(),
    {
        self.query_tuple.len()
    }

    /// Whether the pattern has no elements.
    pub fn is_empty(&self) -> (r: bool)
        ensures
            r == (self@.len() == 0),
    {
        self.query_tuple.is_empty()
    }

    /// Starts building a pattern.
    pub fn builder() -> (r: QueryTupleBuilder)
        ensures
            r@.len() == 0,
    {
        QueryTupleBuilder::default()
    }

    /// The pattern element at one position.
    pub fn get(&self, index: usize) -> (r: &QueryTypes)
        requires
            index < self@.len(),
        ensures
            r@ == self@[index as int],
    {
        &self.query_tuple[index]
    }

    /// Decides whether this pattern matches the given tuple: equal length,
    /// and every position satisfies the per-position rule.
    pub fn matches(&self, tuple: &Tuple) -> (r: bool)
        ensures
            r == query_matches(self@, tuple@),
    {
        if self.query_tuple.len() != tuple.len() {
            return false;
        }
        let mut i: usize = 0;
        while i < self.query_tuple.len()
            invariant
                i <= self@.len(),
                self@.len() == tuple@.len(),
                forall|j: int| 0 <= j < i ==> #[trigger] value_satisfies(self@[j], tuple@[j]),
            decreases self@.len() - i,
        {
            if !self.query_tuple[i].satisfies(tuple.get(i)) {
                proof {
                    assert(!value_satisfies(self@[i as int], tuple@[i as int]));
                }
                return false;
            }
            i += 1;
        }
        true
    }
}

/// Builds a [`QueryTuple`] by appending one pattern element at a time.
pub struct QueryTupleBuilder {
    query_tuple: Vec<QueryTypes>,
}

impl View for QueryTupleBuilder {
    type V = Seq<QueryModel>;

    closed spec fn view(&self) -> Seq<QueryModel> {
        self.query_tuple@.map_values(|q: QueryTypes| q@)
    }
}

impl Default for QueryTupleBuilder {
    fn default() -> (r: Self)
        ensures
            r@ == Seq::<QueryModel>::empty(),
    {
        let r = QueryTupleBuilder { query_tuple: Vec::new() };
        proof {
            assert(r@ =~= Seq::<QueryModel>::empty());
        }
        r
    }
}

impl QueryTupleBuilder {
    /// Finishes the pattern under construction.
    pub fn build(self) -> (r: QueryTuple)
        ensures
            r@ == self@,
    {
        let QueryTupleBuilder { query_tuple } = self;
        QueryTuple { query_tuple }
    }

    /// Appends a wildcard that matches any value of any tag.
    pub fn any(self) -> (r: Self)
        ensures
            r@ == self@.push(QueryModel::Any),
    {
        self.push_element(QueryTypes::Any)
    }

    /// Appends a wildcard that matches any integer.
    pub fn any_integer(self) -> (r: Self)
        ensures
            r@ == self@.push(QueryModel::AnyInteger),
    {
        self.push_element(QueryTypes::AnyInteger)
    }

    /// Appends a matcher for one exact integer.
    pub fn integer(self, integer: i64) -> (r: Self)
        ensures
            r@ == self@.push(QueryModel::ExactInteger(integer)),
    {
        self.push_element(QueryTypes::ExactInteger(integer))
    }

    /// Appends a wildcard that matches any float.
    pub fn any_float(self) -> (r: Self)
        ensures
            r@ == self@.push(QueryModel::AnyFloat),
    {
        self.push_element(QueryTypes::AnyFloat)
    }

    /// Appends a matcher for one exact float, given as its IEEE-754 bit pattern.
    pub fn float(self, float: u64) -> (r: Self)
        ensures
            r@ == self@.push(QueryModel::ExactFloat(float)),
    {
        self.push_element(QueryTypes::ExactFloat(float))
    }

    /// Appends a wildcard that matches any boolean.
    pub fn any_boolean(self) -> (r: Self)
        ensures
            r@ == self@.push(QueryModel::AnyBoolean),
    {
        self.push_element(QueryTypes::AnyBoolean)
    }

    /// Appends a matcher for one exact boolean.
    pub fn boolean(self, boolean: bool) -> (r: Self)
        ensures
            r@ == self@.push(QueryModel::ExactBoolean(boolean)),
    {
        self.push_element(QueryTypes::ExactBoolean(boolean))
    }

    /// Appends a wildcard that matches any string.
    pub fn any_string(self) -> (r: Self)
        ensures
            r@ == self@.push(QueryModel::AnyString),
    {
        self.push_element(QueryTypes::AnyString)
    }

    /// Appends a matcher for one exact string.
    pub fn string(self, string: &str) -> (r: Self)
        ensures
            r@ == self@.push(QueryModel::ExactString(string@)),
    {
        self.push_element(QueryTypes::ExactString(string.to_owned()))
    }

    fn push_element(self, element: QueryTypes) -> (r: Self)
        ensures
            r@ == self@.push(element@),
    {
        let mut query_tuple = self.query_tuple;
        query_tuple.push(element);
        let r = QueryTupleBuilder { query_tuple };
        proof {
            assert(r@ =~= self@.push(element@));
        }
        r
    }
}

} // verus!
