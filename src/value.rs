//! Plain scalar values: the parameters of a statement and the units of the
//! wire encoding.
use vstd::prelude::*;

verus! {

/// One scalar of a record. Amounts are carried as the IEEE-754 bit pattern of
/// the number (`Real` for 64-bit, `Single` for 32-bit), so that they pass
/// through unchanged.
#[derive(Clone, Debug)]
pub enum Value {
    Int(i32),
    Count(u32),
    Byte(u8),
    Tiny(i8),
    Flag(bool),
    Text(String),
    MaybeText(Option<String>),
    Real(u64),
    Single(u32),
    /// The length of a list that follows.
    Size(u64),
}

/// The shape of a value, without its content.
#[derive(Clone, Copy, Debug, PartialEq, Eq, Structural)]
pub enum Kind {
    Int,
    Count,
    Byte,
    Tiny,
    Flag,
    Text,
    MaybeText,
    Real,
    Single,
    Size,
}

/// What a value holds, with texts as character sequences.
pub enum Scalar {
    Int(i32),
    Count(u32),
    Byte(u8),
    Tiny(i8),
    Flag(bool),
    Text(Seq<char>),
    MaybeText(Option<Seq<char>>),
    Real(u64),
    Single(u32),
    Size(u64),
}

impl View for Value {
    type V = Scalar;

    open spec fn view(&self) -> Scalar {
        match self {
            Value::Int(x) => Scalar::Int(*x),
            Value::Count(x) => Scalar::Count(*x),
            Value::Byte(x) => Scalar::Byte(*x),
            Value::Tiny(x) => Scalar::Tiny(*x),
            Value::Flag(x) => Scalar::Flag(*x),
            Value::Text(s) => Scalar::Text(s@),
            Value::MaybeText(s) => Scalar::MaybeText(opt_view(*s)),
            Value::Real(x) => Scalar::Real(*x),
            Value::Single(x) => Scalar::Single(*x),
            Value::Size(x) => Scalar::Size(*x),
        }
    }
}

/// The characters of an optional text.
pub open spec fn opt_view(o: Option<String>) -> Option<Seq<char>> {
    match o {
        Some(s) => Some(s@),
        None => None,
    }
}

/// The views of values, in order.
pub open spec fn scalars(vs: Seq<Value>) -> Seq<Scalar> {
    vs.map_values(|v: Value| v@)
}

pub open spec fn scalar_kind(v: Scalar) -> Kind {
    match v {
        Scalar::Int(_) => Kind::Int,
        Scalar::Count(_) => Kind::Count,
        Scalar::Byte(_) => Kind::Byte,
        Scalar::Tiny(_) => Kind::Tiny,
        Scalar::Flag(_) => Kind::Flag,
        Scalar::Text(_) => Kind::Text,
        Scalar::MaybeText(_) => Kind::MaybeText,
        Scalar::Real(_) => Kind::Real,
        Scalar::Single(_) => Kind::Single,
        Scalar::Size(_) => Kind::Size,
    }
}

pub open spec fn kind_of(v: Value) -> Kind {
    match v {
        Value::Int(_) => Kind::Int,
        Value::Count(_) => Kind::Count,
        Value::Byte(_) => Kind::Byte,
        Value::Tiny(_) => Kind::Tiny,
        Value::Flag(_) => Kind::Flag,
        Value::Text(_) => Kind::Text,
        Value::MaybeText(_) => Kind::MaybeText,
        Value::Real(_) => Kind::Real,
        Value::Single(_) => Kind::Single,
        Value::Size(_) => Kind::Size,
    }
}

/// A copy of a text that equals it.
pub fn clone_text(s: &String) -> (r: String)
    ensures
        r == *s,
{
    s.clone()
}

/// A copy of an optional text that equals it.
pub fn clone_opt_text(s: &Option<String>) -> (r: Option<String>)
    ensures
        r == *s,
{
    match s {
        Some(t) => Some(t.clone()),
        None => None,
    }
}

} // verus!
