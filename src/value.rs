use vstd::prelude::*;

verus! {

/// The sign bit of an IEEE-754 double.
pub const SIGN_BIT: u64 = 0x8000_0000_0000_0000;

/// A runtime value. A number is held as the bit pattern of an IEEE-754
/// double; arithmetic other than negation is done by whoever drives the
/// machine (see `Step::Compute`).
#[derive(Clone, Copy, Debug)]
pub enum Value {
    Number(u64),
}

/// The additive inverse of a number: IEEE-754 negation flips the sign bit and
/// leaves every other bit as it is.
pub open spec fn negated(v: Value) -> Value {
    match v {
        Value::Number(bits) => Value::Number(bits ^ SIGN_BIT),
    }
}

impl Value {
    pub fn from_bits(bits: u64) -> (r: Value)
        ensures
            r == Value::Number(bits),
    {
        Value::Number(bits)
    }

    pub fn bits(self) -> (r: u64)
        ensures
            self == Value::Number(r),
    {
        match self {
            Value::Number(bits) => bits,
        }
    }

    pub fn negate(self) -> (r: Value)
        ensures
            r == negated(self),
    {
        match self {
            Value::Number(bits) => Value::Number(bits ^ SIGN_BIT),
        }
    }
}

} // verus!
