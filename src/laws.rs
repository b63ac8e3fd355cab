//! General facts about parsing and call encoding.
use crate::abi::{AbiType, AbiFunction, ParseError};
use crate::call::{named_arg, named_error, named_outcome, named_tokens, unary_outcome};
use crate::external::{hex_bytes, is_hex_text, json_fields_of, json_items_of, trim_of};
use crate::parse::{items_error, parse_error};
use vstd::prelude::*;

verus! {

/// Fixed-size bytes: well-formed hex text of exactly the declared length is
/// accepted, and of any other length fails with a length error.
pub proof fn fixed_bytes_length(s: Seq<char>, n: usize)
    requires
        is_hex_text(s),
    ensures
        hex_bytes(s).len() == n ==> parse_error(s, AbiType::FixedBytes(n)) is None,
        hex_bytes(s).len() != n ==> parse_error(s, AbiType::FixedBytes(n)) == Some(
            ParseError::LengthMismatch,
        ),
{
}

/// Fixed-size arrays: a JSON array of valid elements is accepted when it has
/// exactly the declared number of them, and fails with a length error
/// otherwise.
pub proof fn fixed_array_length(s: Seq<char>, k: AbiType)
    requires
        k is FixedArray,
        json_items_of(s) is Some,
        items_error(json_items_of(s)->Some_0, *k->FixedArray_0, 0) is None,
    ensures
        json_items_of(s)->Some_0.len() == k->FixedArray_1 ==> parse_error(s, k) is None,
        json_items_of(s)->Some_0.len() != k->FixedArray_1 ==> parse_error(s, k) == Some(
            ParseError::LengthMismatch,
        ),
{
}

/// Tuples: a JSON array with another number of elements than the tuple has
/// fields always fails, with a length error.
pub proof fn tuple_length(s: Seq<char>, k: AbiType)
    requires
        k is Tuple,
        json_items_of(s) is Some,
        json_items_of(s)->Some_0.len() != k->Tuple_0.len(),
    ensures
        parse_error(s, k) == Some(ParseError::LengthMismatch),
{
}

proof fn lemma_named_error_agree(
    a: Seq<(Seq<char>, Option<Seq<char>>)>,
    b: Seq<(Seq<char>, Option<Seq<char>>)>,
    f: AbiFunction,
    i: int,
)
    requires
        0 <= i <= f.inputs.len(),
        forall|j: int|
            0 <= j < f.inputs.len() ==> named_arg(a, (#[trigger] f.inputs[j]).name@) == named_arg(
                b,
                f.inputs[j].name@,
            ),
    ensures
        named_error(a, f, i) == named_error(b, f, i),
    decreases f.inputs.len() - i,
{
    if i < f.inputs.len() {
        lemma_named_error_agree(a, b, f, i + 1);
    }
}

/// Named mode reads only the fields that name an input: two JSON objects
/// that give every input the same value (whatever other fields they hold)
/// give the same outcome.
pub proof fn named_ignores_other_fields(f: AbiFunction, t1: Seq<char>, t2: Seq<char>)
    requires
        json_fields_of(t1) is Some,
        json_fields_of(t2) is Some,
        forall|j: int|
            0 <= j < f.inputs.len() ==> named_arg(
                json_fields_of(t1)->Some_0,
                (#[trigger] f.inputs[j]).name@,
            ) == named_arg(json_fields_of(t2)->Some_0, f.inputs[j].name@),
    ensures
        forall|r: Result<Vec<u8>, ParseError>|
            #[trigger] named_outcome(f, t1, r) == named_outcome(f, t2, r),
{
    let a = json_fields_of(t1)->Some_0;
    let b = json_fields_of(t2)->Some_0;
    lemma_named_error_agree(a, b, f, 0);
    assert forall|tokens: Seq<crate::abi::AbiToken>|
        named_tokens(a, f, tokens) == named_tokens(b, f, tokens) by {
        if tokens.len() == f.inputs.len() {
            assert forall|i: int| 0 <= i < tokens.len() implies named_arg(a, f.inputs[i].name@)
                == named_arg(b, f.inputs[i].name@) by {}
        }
    }
}

proof fn lemma_named_error_reaches(
    fields: Seq<(Seq<char>, Option<Seq<char>>)>,
    f: AbiFunction,
    k: int,
    i: int,
)
    requires
        0 <= k <= i < f.inputs.len(),
        named_arg(fields, f.inputs[i].name@) is None,
    ensures
        named_error(fields, f, k) is Some,
    decreases i - k,
{
    if k < i {
        lemma_named_error_reaches(fields, f, k + 1, i);
    }
}

/// Named mode fails whenever some input has no field, or a field whose value
/// is not a JSON string.
pub proof fn named_missing_field_fails(f: AbiFunction, t: Seq<char>, i: int)
    requires
        json_fields_of(t) is Some,
        0 <= i < f.inputs.len(),
        named_arg(json_fields_of(t)->Some_0, f.inputs[i].name@) is None,
    ensures
        forall|r: Result<Vec<u8>, ParseError>| #[trigger] named_outcome(f, t, r) ==> r is Err,
{
    lemma_named_error_reaches(json_fields_of(t)->Some_0, f, 0, i);
}

/// Positional mode fails with an argument-count error on a function without
/// exactly one input; on a function with one input it fails exactly when
/// parsing the trimmed text against that input's type fails, with the same
/// error.
pub proof fn unary_follows_parsing(f: AbiFunction, arg: Seq<char>, r: Result<Vec<u8>, ParseError>)
    requires
        unary_outcome(f, arg, r),
    ensures
        f.inputs.len() != 1 ==> r == Err::<Vec<u8>, ParseError>(ParseError::ArgumentCount),
        f.inputs.len() == 1 ==> match parse_error(trim_of(arg), f.inputs[0].kind) {
            Some(err) => r == Err::<Vec<u8>, ParseError>(err),
            None => r is Ok,
        },
{
}

} // verus!
