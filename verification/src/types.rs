//! The tagged value types stored in tuples and their pattern counterparts.
//!
//! A stored value is one of four tags: boolean, 64-bit signed integer, 64-bit
//! float, or string.  Floating-point payloads are carried as their IEEE-754
//! bit patterns (`u64`), and two float payloads are equal exactly when their
//! bit patterns are equal.  A pattern element either matches any value
//! (`Any`), any value of one tag (`AnyX`), or exactly one value (`ExactX`).

use vstd::prelude::*;

verus! {

/// A tagged value held in one position of a tuple.
///
/// `Float` carries the IEEE-754 bit pattern of the number.
#[derive(Debug, PartialEq)]
pub enum Types {
    Boolean(bool),
    Integer(i64),
    Float(u64),
    String(String),
}

/// The mathematical model of a `Types` value: the same tags, with the
/// string payload abstracted to its character sequence.
pub enum ValueModel {
    Boolean(bool),
    Integer(i64),
    Float(u64),
    String(Seq<char>),
}

impl View for Types {
    type V = ValueModel;

    open spec fn view(&self) -> ValueModel {
        match self {
            Types::Boolean(b) => ValueModel::Boolean(*b),
            Types::Integer(i) => ValueModel::Integer(*i),
            Types::Float(bits) => ValueModel::Float(*bits),
            Types::String(s) => ValueModel::String(s@),
        }
    }
}

impl DeepView for Types {
    type V = ValueModel;

    open spec fn deep_view(&self) -> ValueModel {
        self.view()
    }
}

impl Clone for Types {
    fn clone(&self) -> (r: Self)
        ensures
            r@ == self@,
    {
        match self {
            Types::Boolean(b) => Types::Boolean(*b),
            Types::Integer(i) => Types::Integer(*i),
            Types::Float(bits) => Types::Float(*bits),
            Types::String(s) => Types::String(s.clone()),
        }
    }
}

/// One position of a pattern: a wildcard over all values, a wildcard over one
/// tag, or an exact value of one tag.  `ExactFloat` carries an IEEE-754 bit
/// pattern, compared bit for bit.
#[derive(Debug, PartialEq)]
pub enum QueryTypes {
    Any,
    ExactBoolean(bool),
    AnyBoolean,
    ExactInteger(i64),
    AnyInteger,
    ExactFloat(u64),
    AnyFloat,
    ExactString(String),
    AnyString,
}

/// The mathematical model of a `QueryTypes` value.
pub enum QueryModel {
    Any,
    ExactBoolean(bool),
    AnyBoolean,
    ExactInteger(i64),
    AnyInteger,
    ExactFloat(u64),
    AnyFloat,
    ExactString(Seq<char>),
    AnyString,
}

impl View for QueryTypes {
    type V = QueryModel;

    open spec fn view(&self) -> QueryModel {
        match self {
            QueryTypes::Any => QueryModel::Any,
            QueryTypes::ExactBoolean(b) => QueryModel::ExactBoolean(*b),
            QueryTypes::AnyBoolean => QueryModel::AnyBoolean,
            QueryTypes::ExactInteger(i) => QueryModel::ExactInteger(*i),
            QueryTypes::AnyInteger => QueryModel::AnyInteger,
            QueryTypes::ExactFloat(bits) => QueryModel::ExactFloat(*bits),
            QueryTypes::AnyFloat => QueryModel::AnyFloat,
            QueryTypes::ExactString(s) => QueryModel::ExactString(s@),
            QueryTypes::AnyString => QueryModel::AnyString,
        }
    }
}

impl Clone for QueryTypes {
    fn clone(&self) -> (r: Self)
        ensures
            r@ == self@,
    {
        match self {
            QueryTypes::Any => QueryTypes::Any,
            QueryTypes::ExactBoolean(b) => QueryTypes::ExactBoolean(*b),
            QueryTypes::AnyBoolean => QueryTypes::AnyBoolean,
            QueryTypes::ExactInteger(i) => QueryTypes::ExactInteger(*i),
            QueryTypes::AnyInteger => QueryTypes::AnyInteger,
            QueryTypes::ExactFloat(bits) => QueryTypes::ExactFloat(*bits),
            QueryTypes::AnyFloat => QueryTypes::AnyFloat,
            QueryTypes::ExactString(s) => QueryTypes::ExactString(s.clone()),
            QueryTypes::AnyString => QueryTypes::AnyString,
        }
    }
}

/// The per-position match rule: `Any` matches every value, `AnyX` matches
/// every value of tag X, and `ExactX(v)` matches exactly the value of tag X
/// whose payload equals `v`.
pub open spec fn value_satisfies(q: QueryModel, v: ValueModel) -> bool {
    match q {
        QueryModel::Any => true,
        QueryModel::ExactBoolean(b) => v == ValueModel::Boolean(b),
        QueryModel::AnyBoolean => v is Boolean,
        QueryModel::ExactInteger(i) => v == ValueModel::Integer(i),
        QueryModel::AnyInteger => v is Integer,
        QueryModel::ExactFloat(bits) => v == ValueModel::Float(bits),
        QueryModel::AnyFloat => v is Float,
        QueryModel::ExactString(s) => v == ValueModel::String(s),
        QueryModel::AnyString => v is String,
    }
}

impl QueryTypes {
    /// Decides the per-position match rule for one pattern element and one value.
    pub fn satisfies(&self, value: &Types) -> (r: bool)
        ensures
            r == value_satisfies(self@, value@),
    {
        match self {
            QueryTypes::Any => true,
            QueryTypes::ExactBoolean(lhs) => match value {
                Types::Boolean(rhs) => *lhs == *rhs,
                _ => false,
            },
            QueryTypes::AnyBoolean => matches!(value, Types::Boolean(_)),
            QueryTypes::ExactInteger(lhs) => match value {
                Types::Integer(rhs) => *lhs == *rhs,
                _ => false,
            },
            QueryTypes::AnyInteger => matches!(value, Types::Integer(_)),
            QueryTypes::ExactFloat(lhs) => match value {
                Types::Float(rhs) => *lhs == *rhs,
                _ => false,
            },
            QueryTypes::AnyFloat => matches!(value, Types::Float(_)),
            QueryTypes::ExactString(lhs) => match value {
                Types::String(rhs) => *lhs == *rhs,
                _ => false,
            },
            QueryTypes::AnyString => matches!(value, Types::String(_)),
        }
    }
}

} // verus!
