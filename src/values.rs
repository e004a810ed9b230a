use vstd::prelude::*;

verus! {

/// A number as the source format produced it.
#[derive(Clone, Debug, PartialEq)]
pub enum Number {
    /// An integer, printed without a decimal point.
    Int(i128),
    /// A floating value, held as the decimal text the source format gave it.
    Decimal(String),
}

/// A configuration value: the common form that every input format is turned into.
#[derive(Debug, PartialEq)]
pub enum VizValue {
    Null,
    Bool(bool),
    Number(Number),
    String(String),
    /// Elements in source order.
    Array(Vec<VizValue>),
    /// Key/value pairs in insertion order.
    Object(Vec<(String, VizValue)>),
}

} // verus!
