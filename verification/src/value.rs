//! The abstract value model: a discriminated union over the kinds of value a
//! host runtime can hand to the validator.

use vstd::prelude::*;

verus! {

/// A dynamically typed input value.
///
/// Host-native scalar kinds that the engine never looks into (dates, big
/// integers, symbols) are carried as bare tags: the validator only ever asks
/// "is this value of that host kind?". Numeric values are carried as signed
/// 64-bit integers.
pub enum Value {
    /// A host string.
    VStr(String),
    /// A host numeric value.
    VNum(i64),
    /// A host boolean.
    VBool(bool),
    /// A host sequence of values.
    VArr(Vec<Value>),
    /// A host keyed object: field name to value.
    VObj(Vec<(String, Value)>),
    /// The host "null" sentinel.
    VNull,
    /// The host "undefined"/absent sentinel.
    VUndef,
    /// A host date.
    VDate,
    /// A host arbitrary-precision integer.
    VBigInt,
    /// A host symbol.
    VSymbol,
}

} // verus!
