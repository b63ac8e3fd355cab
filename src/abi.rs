use vstd::prelude::*;

verus! {

/// The declared type of one contract-function parameter.
#[derive(Debug, PartialEq, Eq)]
pub enum AbiType {
    Address,
    Bytes,
    FixedBytes(usize),
    Int(usize),
    Uint(usize),
    Bool,
    String,
    Array(Box<AbiType>),
    FixedArray(Box<AbiType>, usize),
    Tuple(Vec<AbiType>),
}

/// A named, typed parameter of a function.
#[derive(Debug)]
pub struct AbiParam {
    pub name: String,
    pub kind: AbiType,
}

/// A contract function: its name and its ordered inputs.
#[derive(Debug)]
pub struct AbiFunction {
    pub name: String,
    pub inputs: Vec<AbiParam>,
}

/// A 256-bit unsigned value as four 64-bit limbs, least significant first.
#[derive(Debug, Clone, Copy, PartialEq, Eq)]
pub struct Word256 {
    pub limbs: [u64; 4],
}

pub open spec fn limb_base() -> int {
    0x1_0000_0000_0000_0000
}

impl Word256 {
    pub open spec fn value(self) -> int {
        self.limbs@[0] + limb_base() * (self.limbs@[1] + limb_base() * (self.limbs@[2] + limb_base()
            * self.limbs@[3]))
    }
}

/// A value tagged with the parameter type it satisfies.
#[derive(Debug, PartialEq, Eq)]
pub enum AbiToken {
    Address([u8; 20]),
    Bytes(Vec<u8>),
    FixedBytes(Vec<u8>),
    Int(Word256),
    Uint(Word256),
    Bool(bool),
    String(String),
    Array(Vec<AbiToken>),
    FixedArray(Vec<AbiToken>),
    Tuple(Vec<AbiToken>),
}

/// Why turning argument text into call data failed.
#[derive(Debug, Clone, Copy, PartialEq, Eq)]
pub enum ParseError {
    /// The interface description is malformed.
    Load,
    /// No function of that name exists.
    Lookup,
    /// Positional mode was used on a function without exactly one input.
    ArgumentCount,
    /// Text that had to be JSON of a given shape was not.
    Json,
    /// A named argument is missing or is not a JSON string.
    TypeMismatch,
    /// Text does not parse as the required scalar.
    ValueParse,
    /// A fixed-size container got the wrong number of items.
    LengthMismatch,
}

/// Whether `t` has the shape that `k` describes, as the call encoder checks it.
pub open spec fn fits(t: AbiToken, k: AbiType) -> bool
    decreases t,
{
    match t {
        AbiToken::Address(_) => k is Address,
        AbiToken::Bytes(_) => k is Bytes,
        AbiToken::FixedBytes(b) => k is FixedBytes && b.len() <= k->FixedBytes_0,
        AbiToken::Int(_) => k is Int,
        AbiToken::Uint(_) => k is Uint,
        AbiToken::Bool(_) => k is Bool,
        AbiToken::String(_) => k is String,
        AbiToken::Array(v) => k is Array && forall|i: int|
            0 <= i < v.len() ==> fits(#[trigger] v[i], *k->Array_0),
        AbiToken::FixedArray(v) => k is FixedArray && v.len() == k->FixedArray_1 && forall|i: int|
            0 <= i < v.len() ==> fits(#[trigger] v[i], *k->FixedArray_0),
        AbiToken::Tuple(v) => k is Tuple && v.len() == k->Tuple_0.len() && forall|i: int|
            0 <= i < v.len() ==> fits(#[trigger] v[i], k->Tuple_0[i]),
    }
}

/// Whether each token fits the type of the input at its position.
pub open spec fn fits_inputs(ts: Seq<AbiToken>, inputs: Seq<AbiParam>) -> bool {
    &&& ts.len() == inputs.len()
    &&& forall|i: int| 0 <= i < ts.len() ==> fits(#[trigger] ts[i], inputs[i].kind)
}

} // verus!
