//! The values that statements bind and that result rows hold.
//!
//! Every payload is opaque to the store: it is compared for exact equality
//! and handed back unchanged, nothing more.

use vstd::prelude::*;

verus! {

/// The kind of value a column holds.
#[derive(Clone, Copy, Debug, PartialEq, Eq, Structural)]
pub enum ValueKind {
    /// A flag.
    Bool,
    /// An identifier or another piece of text.
    Text,
    /// An opaque payload.
    Blob,
    /// A point on the database's clock.
    Time,
}

/// The mathematical content of a [`Value`].
pub enum ValueView {
    Null,
    Bool(bool),
    Text(Seq<char>),
    Blob(Seq<u8>),
    Time(u64),
}

impl ValueView {
    /// The kind of a value that is not `NULL`.
    pub open spec fn kind(self) -> Option<ValueKind> {
        match self {
            ValueView::Null => None,
            ValueView::Bool(_) => Some(ValueKind::Bool),
            ValueView::Text(_) => Some(ValueKind::Text),
            ValueView::Blob(_) => Some(ValueKind::Blob),
            ValueView::Time(_) => Some(ValueKind::Time),
        }
    }

    /// Whether a parameter with this value can be compared with, or stored
    /// in, a column of kind `kind`: `NULL` always can, any other value only
    /// if it is of that kind.
    pub open spec fn fits(self, kind: ValueKind) -> bool {
        self is Null || self.kind() == Some(kind)
    }

    /// The position of a value on the clock, by which rows are ranked for
    /// eviction. Values that are no timestamp rank below every timestamp.
    pub open spec fn stamp(self) -> int {
        match self {
            ValueView::Time(t) => t as int,
            _ => -1,
        }
    }
}

/// A value bound to a statement parameter, or found in a result row.
#[derive(Debug, PartialEq, Eq)]
pub enum Value {
    Null,
    Bool(bool),
    Text(String),
    Blob(Vec<u8>),
    Time(u64),
}

impl View for Value {
    type V = ValueView;

    open spec fn view(&self) -> ValueView {
        match self {
            Value::Null => ValueView::Null,
            Value::Bool(b) => ValueView::Bool(*b),
            Value::Text(s) => ValueView::Text(s@),
            Value::Blob(b) => ValueView::Blob(b@),
            Value::Time(t) => ValueView::Time(*t),
        }
    }
}

impl Clone for Value {
    fn clone(&self) -> (r: Self)
        ensures
            r@ == self@,
    {
        match self {
            Value::Null => Value::Null,
            Value::Bool(b) => Value::Bool(*b),
            Value::Text(s) => Value::Text(s.clone()),
            Value::Blob(b) => Value::Blob(copy_bytes(b)),
            Value::Time(t) => Value::Time(*t),
        }
    }
}

/// A copy of a payload.
pub fn copy_bytes(bytes: &Vec<u8>) -> (r: Vec<u8>)
    ensures
        r@ == bytes@,
{
    let mut out: Vec<u8> = Vec::new();
    let mut i: usize = 0;
    while i < bytes.len()
        invariant
            i <= bytes.len(),
            out@ == bytes@.take(i as int),
        decreases bytes.len() - i,
    {
        out.push(bytes[i]);
        i += 1;
    }
    out
}

/// Whether two payloads are the same byte for byte.
pub fn same_bytes(a: &Vec<u8>, b: &Vec<u8>) -> (r: bool)
    ensures
        r == (a@ == b@),
{
    if a.len() != b.len() {
        return false;
    }
    let mut i: usize = 0;
    while i < a.len()
        invariant
            i <= a.len(),
            a.len() == b.len(),
            a@.take(i as int) == b@.take(i as int),
        decreases a.len() - i,
    {
        if a[i] != b[i] {
            return false;
        }
        assert(a@.take(i + 1) == a@.take(i as int).push(a@[i as int]));
        assert(b@.take(i + 1) == b@.take(i as int).push(b@[i as int]));
        i += 1;
    }
    assert(a@ == a@.take(a.len() as int));
    assert(b@ == b@.take(b.len() as int));
    true
}

impl Value {
    /// The kind of this value, `None` for `NULL`.
    pub fn kind(&self) -> (r: Option<ValueKind>)
        ensures
            r == self@.kind(),
    {
        match self {
            Value::Null => None,
            Value::Bool(_) => Some(ValueKind::Bool),
            Value::Text(_) => Some(ValueKind::Text),
            Value::Blob(_) => Some(ValueKind::Blob),
            Value::Time(_) => Some(ValueKind::Time),
        }
    }

    /// Whether this value is `NULL`.
    pub fn is_null(&self) -> (r: bool)
        ensures
            r == (self@ is Null),
    {
        match self {
            Value::Null => true,
            _ => false,
        }
    }

    /// Whether this value can stand for a column of kind `kind`.
    pub fn fits(&self, kind: ValueKind) -> (r: bool)
        ensures
            r == self@.fits(kind),
    {
        match self {
            Value::Null => true,
            Value::Bool(_) => kind == ValueKind::Bool,
            Value::Text(_) => kind == ValueKind::Text,
            Value::Blob(_) => kind == ValueKind::Blob,
            Value::Time(_) => kind == ValueKind::Time,
        }
    }

    /// Whether two values have the same content.
    pub fn same(&self, other: &Value) -> (r: bool)
        ensures
            r == (self@ == other@),
    {
        match (self, other) {
            (Value::Null, Value::Null) => true,
            (Value::Bool(a), Value::Bool(b)) => *a == *b,
            (Value::Text(a), Value::Text(b)) => *a == *b,
            (Value::Blob(a), Value::Blob(b)) => same_bytes(a, b),
            (Value::Time(a), Value::Time(b)) => *a == *b,
            _ => false,
        }
    }
}

} // verus!
