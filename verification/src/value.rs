use vstd::prelude::*;

verus! {

/// A dynamically typed, owned value.
///
/// The resource registry and the entity store are heterogeneous: they hold
/// data of many concrete types at once.  Instead of an opaque boxed trait
/// object recovered by a runtime type check, every stored datum is kept in
/// this one transparent representation, and each storable type says how it is
/// encoded into and decoded out of it (see the `Resource` trait).  The
/// decode-after-encode round trip is a proof obligation of that trait, so the
/// "downcast" can be shown, not just hoped, to succeed by construction.
#[derive(Debug)]
pub enum Value {
    /// The empty value.
    Unit,
    /// A boolean.
    Bool(bool),
    /// A signed machine integer.
    I64(i64),
    /// An unsigned machine integer.
    U64(u64),
    /// An owned string.
    Text(String),
    /// An ordered pair; nesting pairs builds tuples and lists.
    Pair(Box<Value>, Box<Value>),
}

impl Value {
    /// Structural copy.  A derived clone would say nothing about the result
    /// in specifications, so the copy is written out and fully specified.
    pub fn dup(&self) -> (r: Value)
        ensures
            r == *self,
        decreases *self,
    {
        match self {
            Value::Unit => Value::Unit,
            Value::Bool(b) => Value::Bool(*b),
            Value::I64(x) => Value::I64(*x),
            Value::U64(x) => Value::U64(*x),
            Value::Text(s) => Value::Text(s.clone()),
            Value::Pair(a, b) => Value::Pair(Box::new(a.dup()), Box::new(b.dup())),
        }
    }
}

} // verus!
