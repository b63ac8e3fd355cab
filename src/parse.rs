//! Type-directed parsing of argument text into tokens.
use crate::abi::{fits, AbiToken, AbiType, ParseError};
use crate::external::{
    address_decode, dec_decode, dec_value, hex_bytes, hex_decode, is_dec_text, is_hex_text,
    json_array_items, json_items_of, lower_of, lowercase, strip_prefix, word_limit,
};
use vstd::prelude::*;

verus! {

/// Address text with an optional leading `0x` taken off.
pub open spec fn address_digits(s: Seq<char>) -> Seq<char> {
    if s.len() >= 2 && s[0] == '0' && s[1] == 'x' {
        s.skip(2)
    } else {
        s
    }
}

pub open spec fn true_text() -> Seq<char> {
    seq!['t', 'r', 'u', 'e']
}

pub open spec fn false_text() -> Seq<char> {
    seq!['f', 'a', 'l', 's', 'e']
}

/// The error that parsing `s` against `k` stops at, or `None` when it succeeds.
pub open spec fn parse_error(s: Seq<char>, k: AbiType) -> Option<ParseError>
    decreases k, 0int,
{
    match k {
        AbiType::Address => {
            let d = address_digits(s);
            if d.len() == 40 && is_hex_text(d) {
                None
            } else {
                Some(ParseError::ValueParse)
            }
        },
        AbiType::Bytes => if is_hex_text(s) {
            None
        } else {
            Some(ParseError::ValueParse)
        },
        AbiType::FixedBytes(n) => if !is_hex_text(s) {
            Some(ParseError::ValueParse)
        } else if hex_bytes(s).len() != n {
            Some(ParseError::LengthMismatch)
        } else {
            None
        },
        AbiType::Int(_) | AbiType::Uint(_) => if is_dec_text(s) && dec_value(s) < word_limit() {
            None
        } else {
            Some(ParseError::ValueParse)
        },
        AbiType::Bool => if lower_of(s) == true_text() || lower_of(s) == false_text() {
            None
        } else {
            Some(ParseError::ValueParse)
        },
        AbiType::String => None,
        AbiType::Array(e) => match json_items_of(s) {
            None => Some(ParseError::Json),
            Some(items) => items_error(items, *e, 0),
        },
        AbiType::FixedArray(e, n) => match json_items_of(s) {
            None => Some(ParseError::Json),
            Some(items) => match items_error(items, *e, 0) {
                Some(err) => Some(err),
                None => if items.len() != n {
                    Some(ParseError::LengthMismatch)
                } else {
                    None
                },
            },
        },
        AbiType::Tuple(fs) => match json_items_of(s) {
            None => Some(ParseError::Json),
            Some(items) => if items.len() != fs.len() {
                Some(ParseError::LengthMismatch)
            } else {
                fields_error(items, fs, 0)
            },
        },
    }
}

/// The first error among `items[i..]` parsed against one element type.
pub open spec fn items_error(items: Seq<Seq<char>>, e: AbiType, i: int) -> Option<ParseError>
    decreases e, items.len() - i,
{
    if i < 0 || i >= items.len() {
        None
    } else {
        match parse_error(items[i], e) {
            Some(err) => Some(err),
            None => items_error(items, e, i + 1),
        }
    }
}

/// The first error among `items[i..]` parsed each against the field type at
/// its position.
pub open spec fn fields_error(items: Seq<Seq<char>>, fs: Vec<AbiType>, i: int) -> Option<ParseError>
    decreases fs, items.len() - i,
{
    if i < 0 || i >= items.len() || i >= fs.len() {
        None
    } else {
        match parse_error(items[i], fs[i]) {
            Some(err) => Some(err),
            None => fields_error(items, fs, i + 1),
        }
    }
}

/// Whether `t` is the token that parsing `s` against `k` produces.
pub open spec fn parses_to(s: Seq<char>, k: AbiType, t: AbiToken) -> bool
    decreases k,
{
    match k {
        AbiType::Address => t is Address && t->Address_0@ == hex_bytes(address_digits(s)),
        AbiType::Bytes => t is Bytes && t->Bytes_0@ == hex_bytes(s),
        AbiType::FixedBytes(_) => t is FixedBytes && t->FixedBytes_0@ == hex_bytes(s),
        AbiType::Int(_) => t is Int && t->Int_0.value() == dec_value(s),
        AbiType::Uint(_) => t is Uint && t->Uint_0.value() == dec_value(s),
        AbiType::Bool => t is Bool && t->Bool_0 == (lower_of(s) == true_text()),
        AbiType::String => t is String && t->String_0@ == s,
        AbiType::Array(e) => {
            let items = json_items_of(s)->Some_0;
            &&& t is Array
            &&& t->Array_0.len() == items.len()
            &&& forall|i: int|
                0 <= i < items.len() ==> parses_to(items[i], *e, #[trigger] t->Array_0[i])
        },
        AbiType::FixedArray(e, _) => {
            let items = json_items_of(s)->Some_0;
            &&& t is FixedArray
            &&& t->FixedArray_0.len() == items.len()
            &&& forall|i: int|
                0 <= i < items.len() ==> parses_to(items[i], *e, #[trigger] t->FixedArray_0[i])
        },
        AbiType::Tuple(fs) => {
            let items = json_items_of(s)->Some_0;
            &&& t is Tuple
            &&& t->Tuple_0.len() == items.len()
            &&& forall|i: int|
                0 <= i < items.len() && i < fs.len() ==> parses_to(
                    items[i],
                    fs[i],
                    #[trigger] t->Tuple_0[i],
                )
        },
    }
}

proof fn lemma_items_error_skip(items: Seq<Seq<char>>, e: AbiType, k: int, i: int)
    requires
        0 <= k <= i <= items.len(),
        forall|j: int| 0 <= j < i ==> parse_error(#[trigger] items[j], e) is None,
    ensures
        items_error(items, e, k) == items_error(items, e, i),
    decreases i - k,
{
    if k < i {
        lemma_items_error_skip(items, e, k + 1, i);
    }
}

proof fn lemma_fields_error_skip(items: Seq<Seq<char>>, fs: Vec<AbiType>, k: int, i: int)
    requires
        0 <= k <= i <= items.len(),
        items.len() == fs.len(),
        forall|j: int| 0 <= j < i ==> parse_error(#[trigger] items[j], fs[j]) is None,
    ensures
        fields_error(items, fs, k) == fields_error(items, fs, i),
    decreases i - k,
{
    if k < i {
        lemma_fields_error_skip(items, fs, k + 1, i);
    }
}

/// Parses argument text against a declared type.
pub fn parse_arg(arg: &str, kind: &AbiType) -> (r: Result<AbiToken, ParseError>)
    ensures
        r is Err == parse_error(arg@, *kind) is Some,
        r is Err ==> parse_error(arg@, *kind) == Some(r->Err_0),
        r is Ok ==> parses_to(arg@, *kind, r->Ok_0),
        r is Ok ==> fits(r->Ok_0, *kind),
    decreases kind, 0int,
{
    match kind {
        AbiType::Address => {
            proof {
                reveal_strlit("0x");
                assert("0x"@ =~= seq!['0', 'x']);
                if arg@.len() >= 2 {
                    assert(arg@.take(2) =~= seq![arg@[0], arg@[1]]);
                }
            }
            let digits = match strip_prefix(arg, "0x") {
                Some(rest) => rest,
                None => arg,
            };
            assert(digits@ == address_digits(arg@));
            match address_decode(digits) {
                Some(a) => Ok(AbiToken::Address(a)),
                None => Err(ParseError::ValueParse),
            }
        },
        AbiType::Bytes => match hex_decode(arg) {
            Some(b) => Ok(AbiToken::Bytes(b)),
            None => Err(ParseError::ValueParse),
        },
        AbiType::Int(_) => match dec_decode(arg) {
            Some(w) => Ok(AbiToken::Int(w)),
            None => Err(ParseError::ValueParse),
        },
        AbiType::Uint(_) => match dec_decode(arg) {
            Some(w) => Ok(AbiToken::Uint(w)),
            None => Err(ParseError::ValueParse),
        },
        AbiType::Bool => match parse_bool_lowered(&lowercase(arg)) {
            Ok(b) => Ok(AbiToken::Bool(b)),
            Err(err) => Err(err),
        },
        AbiType::String => Ok(AbiToken::String(arg.to_owned())),
        AbiType::Array(e) => match parse_array(arg, e) {
            Ok(tokens) => Ok(AbiToken::Array(tokens)),
            Err(err) => Err(err),
        },
        AbiType::FixedBytes(n) => {
            let bytes = match hex_decode(arg) {
                Some(b) => b,
                None => return Err(ParseError::ValueParse),
            };
            if bytes.len() != *n {
                return Err(ParseError::LengthMismatch);
            }
            Ok(AbiToken::FixedBytes(bytes))
        },
        AbiType::FixedArray(e, n) => {
            let tokens = match parse_array(arg, e) {
                Ok(tokens) => tokens,
                Err(err) => return Err(err),
            };
            if tokens.len() != *n {
                return Err(ParseError::LengthMismatch);
            }
            Ok(AbiToken::FixedArray(tokens))
        },
        AbiType::Tuple(fs) => {
            let items = match json_array_items(arg) {
                Some(items) => items,
                None => return Err(ParseError::Json),
            };
            if items.len() != fs.len() {
                return Err(ParseError::LengthMismatch);
            }
            match parse_fields(arg, &items, fs) {
                Ok(tokens) => Ok(AbiToken::Tuple(tokens)),
                Err(err) => Err(err),
            }
        },
    }
}

/// Reads a boolean from text already folded to lower case.
pub fn parse_bool_lowered(lowered: &String) -> (r: Result<bool, ParseError>)
    ensures
        r is Ok == (lowered@ == true_text() || lowered@ == false_text()),
        r is Ok ==> r->Ok_0 == (lowered@ == true_text()),
        r is Err ==> r->Err_0 == ParseError::ValueParse,
{
    proof {
        reveal_strlit("true");
        reveal_strlit("false");
    }
    let t = "true".to_owned();
    let f = "false".to_owned();
    assert(t@ =~= true_text());
    assert(f@ =~= false_text());
    if lowered.eq(&t) {
        Ok(true)
    } else if lowered.eq(&f) {
        Ok(false)
    } else {
        Err(ParseError::ValueParse)
    }
}

/// Parses a JSON array, each element against the same type.
pub fn parse_array(arg: &str, elem: &AbiType) -> (r: Result<Vec<AbiToken>, ParseError>)
    ensures
        json_items_of(arg@) is None ==> r == Err::<Vec<AbiToken>, ParseError>(ParseError::Json),
        json_items_of(arg@) is Some ==> {
            let items = json_items_of(arg@)->Some_0;
            &&& r is Err == items_error(items, *elem, 0) is Some
            &&& r is Err ==> items_error(items, *elem, 0) == Some(r->Err_0)
            &&& r is Ok ==> r->Ok_0.len() == items.len()
            &&& r is Ok ==> forall|i: int|
                0 <= i < items.len() ==> parses_to(items[i], *elem, #[trigger] r->Ok_0[i])
                    && fits(r->Ok_0[i], *elem)
        },
    decreases elem, 1int,
{
    let items = match json_array_items(arg) {
        Some(items) => items,
        None => return Err(ParseError::Json),
    };
    let ghost spec_items = json_items_of(arg@)->Some_0;
    let mut tokens: Vec<AbiToken> = Vec::new();
    let mut i: usize = 0;
    while i < items.len()
        invariant
            json_items_of(arg@) is Some,
            spec_items == json_items_of(arg@)->Some_0,
            items.len() == spec_items.len(),
            forall|j: int| 0 <= j < items.len() ==> (#[trigger] items[j])@ == spec_items[j],
            0 <= i <= items.len(),
            tokens.len() == i,
            forall|j: int| 0 <= j < i ==> parse_error(#[trigger] spec_items[j], *elem) is None,
            forall|j: int|
                0 <= j < i ==> parses_to(spec_items[j], *elem, #[trigger] tokens[j]) && fits(
                    tokens[j],
                    *elem,
                ),
        decreases items.len() - i,
    {
        match parse_arg(items[i].as_str(), elem) {
            Ok(t) => tokens.push(t),
            Err(err) => {
                proof {
                    lemma_items_error_skip(spec_items, *elem, 0, i as int);
                }
                return Err(err);
            },
        }
        i = i + 1;
    }
    proof {
        lemma_items_error_skip(spec_items, *elem, 0, i as int);
    }
    Ok(tokens)
}

/// Parses the elements of a JSON array, each against the field type at its
/// position.
fn parse_fields(arg: &str, items: &Vec<String>, fields: &Vec<AbiType>) -> (r: Result<
    Vec<AbiToken>,
    ParseError,
>)
    requires
        json_items_of(arg@) is Some,
        items.len() == json_items_of(arg@)->Some_0.len(),
        forall|j: int|
            0 <= j < items.len() ==> (#[trigger] items[j])@ == json_items_of(arg@)->Some_0[j],
        items.len() == fields.len(),
    ensures
        r is Err == fields_error(json_items_of(arg@)->Some_0, *fields, 0) is Some,
        r is Err ==> fields_error(json_items_of(arg@)->Some_0, *fields, 0) == Some(r->Err_0),
        r is Ok ==> r->Ok_0.len() == items.len(),
        r is Ok ==> forall|i: int|
            0 <= i < items.len() ==> parses_to(
                json_items_of(arg@)->Some_0[i],
                fields[i],
                #[trigger] r->Ok_0[i],
            ) && fits(r->Ok_0[i], fields[i]),
    decreases fields, 1int,
{
    let ghost spec_items = json_items_of(arg@)->Some_0;
    let mut tokens: Vec<AbiToken> = Vec::new();
    let mut i: usize = 0;
    while i < items.len()
        invariant
            spec_items == json_items_of(arg@)->Some_0,
            items.len() == spec_items.len(),
            items.len() == fields.len(),
            forall|j: int| 0 <= j < items.len() ==> (#[trigger] items[j])@ == spec_items[j],
            0 <= i <= items.len(),
            tokens.len() == i,
            forall|j: int| 0 <= j < i ==> parse_error(#[trigger] spec_items[j], fields[j]) is None,
            forall|j: int|
                0 <= j < i ==> parses_to(spec_items[j], fields[j], #[trigger] tokens[j]) && fits(
                    tokens[j],
                    fields[j],
                ),
        decreases items.len() - i,
    {
        match parse_arg(items[i].as_str(), &fields[i]) {
            Ok(t) => tokens.push(t),
            Err(err) => {
                proof {
                    lemma_fields_error_skip(spec_items, *fields, 0, i as int);
                }
                return Err(err);
            },
        }
        i = i + 1;
    }
    proof {
        lemma_fields_error_skip(spec_items, *fields, 0, i as int);
    }
    Ok(tokens)
}

} // verus!
