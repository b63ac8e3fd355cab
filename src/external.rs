//! The calls this library makes into std and into outside crates, each with
//! the contract it relies on.
use crate::abi::{limb_base, AbiToken, AbiType, AbiFunction, AbiParam, Word256};
use ethabi::ParamType as EthKind;
use ethabi::Token as EthToken;
use ethabi::ethereum_types::U256 as EthWord;
use vstd::prelude::*;

verus! {

#[verifier::external_type_specification]
#[verifier::external_body]
pub struct ExEthParamType(ethabi::ParamType);

#[verifier::external_type_specification]
#[verifier::external_body]
pub struct ExEthToken(ethabi::Token);

#[verifier::external_type_specification]
#[verifier::external_body]
pub struct ExEthFunction(ethabi::Function);


/// The value of a hex digit, or -1 for any other character.
pub open spec fn hex_digit_value(c: char) -> int {
    if '0' <= c && c <= '9' {
        c as int - '0' as int
    } else if 'a' <= c && c <= 'f' {
        c as int - 'a' as int + 10
    } else if 'A' <= c && c <= 'F' {
        c as int - 'A' as int + 10
    } else {
        -1
    }
}

/// Text made of pairs of hex digits.
pub open spec fn is_hex_text(s: Seq<char>) -> bool {
    &&& s.len() % 2 == 0
    &&& forall|i: int| 0 <= i < s.len() ==> hex_digit_value(#[trigger] s[i]) >= 0
}

/// The bytes that hex text spells, two digits each, high digit first.
pub open spec fn hex_bytes(s: Seq<char>) -> Seq<u8> {
    Seq::new(
        (s.len() / 2) as nat,
        |i: int| (hex_digit_value(s[2 * i]) * 16 + hex_digit_value(s[2 * i + 1])) as u8,
    )
}

/// Text made of decimal digits only (the empty text included).
pub open spec fn is_dec_text(s: Seq<char>) -> bool {
    forall|i: int| 0 <= i < s.len() ==> '0' <= #[trigger] s[i] && s[i] <= '9'
}

/// The number that decimal digits spell.
pub open spec fn dec_value(s: Seq<char>) -> nat
    decreases s.len(),
{
    if s.len() == 0 {
        0
    } else {
        (dec_value(s.drop_last()) * 10 + (s.last() as int - '0' as int)) as nat
    }
}

/// 2^256, one past the largest 256-bit value.
pub open spec fn word_limit() -> int {
    limb_base() * limb_base() * limb_base() * limb_base()
}

/// The text that `str::to_lowercase` gives.
pub uninterp spec fn lower_of(s: Seq<char>) -> Seq<char>;

/// A character of Unicode's White_Space property.
pub open spec fn is_white_space(c: char) -> bool {
    let n = c as u32;
    ||| 0x9 <= n <= 0xd
    ||| n == 0x20 || n == 0x85 || n == 0xa0 || n == 0x1680
    ||| 0x2000 <= n <= 0x200a
    ||| n == 0x2028 || n == 0x2029 || n == 0x202f || n == 0x205f || n == 0x3000
}

/// `s` without its leading white space.
pub open spec fn trim_start(s: Seq<char>) -> Seq<char>
    decreases s.len(),
{
    if s.len() > 0 && is_white_space(s[0]) {
        trim_start(s.drop_first())
    } else {
        s
    }
}

/// `s` without its trailing white space.
pub open spec fn trim_end(s: Seq<char>) -> Seq<char>
    decreases s.len(),
{
    if s.len() > 0 && is_white_space(s.last()) {
        trim_end(s.drop_last())
    } else {
        s
    }
}

/// `s` without leading and trailing white space.
pub open spec fn trim_of(s: Seq<char>) -> Seq<char> {
    trim_end(trim_start(s))
}

/// When `s` is a JSON array, the compact JSON text of each of its elements.
pub uninterp spec fn json_items_of(s: Seq<char>) -> Option<Seq<Seq<char>>>;

/// When `s` is a JSON object, its fields, one per key, each with the contents
/// of its value where that value is a JSON string.
pub uninterp spec fn json_fields_of(s: Seq<char>) -> Option<Seq<(Seq<char>, Option<Seq<char>>)>>;

/// The four-byte selector of a function with this name and these inputs; it
/// depends on the input types alone, not on their names.
pub uninterp spec fn selector_of(name: Seq<char>, kinds: Seq<AbiType>) -> Seq<u8>;

/// What ethabi finds in interface description `text` under `name`: `None`
/// when the text does not load, `Some(None)` when it declares no function
/// of that name, else the first function declared under it.
pub uninterp spec fn function_named(text: Seq<char>, name: Seq<char>) -> Option<Option<AbiFunction>>;

/// The types of a sequence of parameters.
pub open spec fn kinds_of(inputs: Seq<AbiParam>) -> Seq<AbiType> {
    inputs.map_values(|p: AbiParam| p.kind)
}

/// A token that the encoding lays out as one 32-byte word, in place.
pub open spec fn is_one_word(t: AbiToken) -> bool {
    t is Address || t is Int || t is Uint || t is Bool
}

/// The number that bytes spell, most significant first.
pub open spec fn be_value(b: Seq<u8>) -> int
    decreases b.len(),
{
    if b.len() == 0 {
        0
    } else {
        be_value(b.drop_last()) * 256 + b.last()
    }
}

/// The number that the word of a one-word token holds.
pub open spec fn word_number(t: AbiToken) -> int {
    match t {
        AbiToken::Address(a) => be_value(a@),
        AbiToken::Int(w) => w.value(),
        AbiToken::Uint(w) => w.value(),
        AbiToken::Bool(b) => if b {
            1
        } else {
            0
        },
        _ => 0,
    }
}

/// The standard head-and-tail encoding of a token sequence.
pub uninterp spec fn encoding_of(tokens: Seq<AbiToken>) -> Seq<u8>;

pub open spec fn hex_alphabet() -> Seq<char> {
    seq!['0', '1', '2', '3', '4', '5', '6', '7', '8', '9', 'a', 'b', 'c', 'd', 'e', 'f']
}

/// Two lower-case hex digits for each byte, high digit first.
pub open spec fn hex_text(b: Seq<u8>) -> Seq<char> {
    Seq::new(
        2 * b.len(),
        |i: int|
            if i % 2 == 0 {
                hex_alphabet()[b[i / 2] as int / 16]
            } else {
                hex_alphabet()[b[i / 2] as int % 16]
            },
    )
}

/// Relies on `hex::encode`: two lower-case digits for each byte.
#[verifier::external_body]
pub(crate) fn hex_encode(b: &[u8]) -> (r: String)
    ensures
        r@ == hex_text(b@),
{
    hex::encode(b)
}

/// Relies on `str::chars`, collected: the characters of `s` in order.
#[verifier::external_body]
pub(crate) fn chars_of(s: &str) -> (r: Vec<char>)
    ensures
        r@ == s@,
{
    s.chars().collect()
}

/// Relies on `hex::decode`: it accepts exactly pairs of hex digits of either
/// case, and returns the bytes they spell.
#[verifier::external_body]
pub(crate) fn hex_decode(s: &str) -> (r: Option<Vec<u8>>)
    ensures
        r is Some == is_hex_text(s@),
        r is Some ==> r->Some_0@ == hex_bytes(s@),
{
    hex::decode(s).ok()
}

/// Relies on `aurora_engine_types::types::Address::decode`: it accepts
/// exactly forty hex digits, and returns the twenty bytes they spell.
#[verifier::external_body]
pub(crate) fn address_decode(s: &str) -> (r: Option<[u8; 20]>)
    ensures
        r is Some == (s@.len() == 40 && is_hex_text(s@)),
        r is Some ==> r->Some_0@ == hex_bytes(s@),
{
    aurora_engine_types::types::Address::decode(s).ok().map(|a| a.raw().0)
}

/// Relies on `U256::from_dec_str` (crate uint): it accepts decimal digits
/// whose value is below 2^256, and returns that value.
#[verifier::external_body]
pub(crate) fn dec_decode(s: &str) -> (r: Option<Word256>)
    ensures
        r is Some == (is_dec_text(s@) && dec_value(s@) < word_limit()),
        r is Some ==> r->Some_0.value() == dec_value(s@),
{
    aurora_engine_types::U256::from_dec_str(s).ok().map(|v| Word256 { limbs: v.0 })
}

/// Relies on `str::to_lowercase`: the result depends on the characters alone.
#[verifier::external_body]
pub(crate) fn lowercase(s: &str) -> (r: String)
    ensures
        r@ == lower_of(s@),
{
    s.to_lowercase()
}

/// Relies on `str::trim`: leading and trailing characters of Unicode's
/// White_Space property are taken off.
#[verifier::external_body]
pub(crate) fn trim(s: &str) -> (r: &str)
    ensures
        r@ == trim_of(s@),
{
    s.trim()
}

/// Relies on `str::strip_prefix`: the rest of `s` when it starts with `p`.
#[verifier::external_body]
pub(crate) fn strip_prefix<'a>(s: &'a str, p: &str) -> (r: Option<&'a str>)
    ensures
        r is Some == (p@.len() <= s@.len() && s@.take(p@.len() as int) == p@),
        r is Some ==> r->Some_0@ == s@.skip(p@.len() as int),
{
    s.strip_prefix(p)
}

/// Relies on `serde_json::from_str` to read a JSON array, and on the JSON
/// `Display` of `serde_json::Value` for the text of each element.
#[verifier::external_body]
pub(crate) fn json_array_items(s: &str) -> (r: Option<Vec<String>>)
    ensures
        r is Some == json_items_of(s@) is Some,
        r is Some ==> r->Some_0.len() == json_items_of(s@)->Some_0.len(),
        r is Some ==> forall|i: int|
            0 <= i < r->Some_0.len() ==> (#[trigger] r->Some_0[i])@ == json_items_of(s@)->Some_0[i],
{
    serde_json::from_str::<Vec<serde_json::Value>>(s).ok().map(|vs| vs.iter().map(|v| v.to_string()).collect())
}

/// Relies on `serde_json::from_str` to read a JSON object, and on
/// `serde_json::Value::as_str` for the contents of string values.
#[verifier::external_body]
pub(crate) fn json_object_fields(s: &str) -> (r: Option<Vec<(String, Option<String>)>>)
    ensures
        r is Some == json_fields_of(s@) is Some,
        r is Some ==> r->Some_0.len() == json_fields_of(s@)->Some_0.len(),
        r is Some ==> forall|i: int| 0 <= i < r->Some_0.len() ==> {
            let (k, v) = #[trigger] r->Some_0[i];
            let (fk, fv) = json_fields_of(s@)->Some_0[i];
            &&& k@ == fk
            &&& v is Some == fv is Some
            &&& v is Some ==> v->Some_0@ == fv->Some_0
        },
{
    serde_json::from_str::<serde_json::Map<String, serde_json::Value>>(s).ok().map(
        |m| m.iter().map(|(k, v)| (k.clone(), v.as_str().map(String::from))).collect(),
    )
}

/// Carries a parameter type over to ethabi's own representation, variant
/// for variant.
#[verifier::external_body]
fn to_eth_kind(k: &AbiType) -> EthKind {
    match k {
        AbiType::Address => EthKind::Address,
        AbiType::Bytes => EthKind::Bytes,
        AbiType::FixedBytes(n) => EthKind::FixedBytes(*n),
        AbiType::Int(n) => EthKind::Int(*n),
        AbiType::Uint(n) => EthKind::Uint(*n),
        AbiType::Bool => EthKind::Bool,
        AbiType::String => EthKind::String,
        AbiType::Array(e) => EthKind::Array(Box::new(to_eth_kind(e))),
        AbiType::FixedArray(e, n) => EthKind::FixedArray(Box::new(to_eth_kind(e)), *n),
        AbiType::Tuple(fs) => EthKind::Tuple(fs.iter().map(to_eth_kind).collect()),
    }
}

/// Carries a token over to ethabi's own representation, variant for variant.
#[verifier::external_body]
fn to_eth_token(t: &AbiToken) -> EthToken {
    match t {
        AbiToken::Address(a) => EthToken::Address(ethabi::Address::from(*a)),
        AbiToken::Bytes(b) => EthToken::Bytes(b.clone()),
        AbiToken::FixedBytes(b) => EthToken::FixedBytes(b.clone()),
        AbiToken::Int(w) => EthToken::Int(EthWord(w.limbs)),
        AbiToken::Uint(w) => EthToken::Uint(EthWord(w.limbs)),
        AbiToken::Bool(b) => EthToken::Bool(*b),
        AbiToken::String(s) => EthToken::String(s.clone()),
        AbiToken::Array(v) => EthToken::Array(to_eth_tokens(v)),
        AbiToken::FixedArray(v) => EthToken::FixedArray(to_eth_tokens(v)),
        AbiToken::Tuple(v) => EthToken::Tuple(to_eth_tokens(v)),
    }
}

/// Carries a parameter type over from ethabi's representation, variant for
/// variant.
#[verifier::external_body]
fn from_eth_kind(k: &EthKind) -> AbiType {
    match k {
        EthKind::Address => AbiType::Address,
        EthKind::Bytes => AbiType::Bytes,
        EthKind::FixedBytes(n) => AbiType::FixedBytes(*n),
        EthKind::Int(n) => AbiType::Int(*n),
        EthKind::Uint(n) => AbiType::Uint(*n),
        EthKind::Bool => AbiType::Bool,
        EthKind::String => AbiType::String,
        EthKind::Array(e) => AbiType::Array(Box::new(from_eth_kind(e))),
        EthKind::FixedArray(e, n) => AbiType::FixedArray(Box::new(from_eth_kind(e)), *n),
        EthKind::Tuple(fs) => AbiType::Tuple(fs.iter().map(from_eth_kind).collect()),
    }
}

/// Carries a function's name and inputs over from ethabi's representation.
#[verifier::external_body]
fn from_eth_function(f: &ethabi::Function) -> AbiFunction {
    let inputs = f.inputs.iter().map(|p| AbiParam { name: p.name.clone(), kind: from_eth_kind(&p.kind) });
    AbiFunction { name: f.name.clone(), inputs: inputs.collect() }
}

/// Whether the type reader can be run safely on every JSON string of `t`:
/// `t` has no escapes, and each string that ends in `]` or `)` is ASCII,
/// with each `]` closing a `[` followed by decimal digits only. Other
/// strings (names, for one) may hold any character.
pub open spec fn description_readable(t: Seq<char>) -> bool {
    forall|i: int|
        0 <= i < t.len() ==> {
            &&& (#[trigger] t[i]) != '\\'
            &&& (quotes_before(t, i) % 2 == 1 && ends_bracketed(t, i)) ==> {
                &&& t[i] as u32 <= 0x7f
                &&& t[i] == ']' ==> after_open_bracket(t, i)
            }
        }
}

/// The index of the first `"` in `t[i..]`, or the length of `t`.
pub open spec fn next_quote(t: Seq<char>, i: int) -> int
    decreases t.len() - i,
{
    if i < 0 || i >= t.len() {
        t.len() as int
    } else if t[i] == '"' {
        i
    } else {
        next_quote(t, i + 1)
    }
}

/// Whether the string that `t[i]` lies in is closed, and ends in `]` or `)`.
pub open spec fn ends_bracketed(t: Seq<char>, i: int) -> bool {
    let c = next_quote(t, i);
    &&& 1 <= c < t.len()
    &&& (t[c - 1] == ']' || t[c - 1] == ')')
}

/// How many `"` stand in `t[..i]`.
pub open spec fn quotes_before(t: Seq<char>, i: int) -> nat
    decreases i,
{
    if i <= 0 {
        0
    } else {
        quotes_before(t, i - 1) + if t[i - 1] == '"' {
            1nat
        } else {
            0nat
        }
    }
}

/// Whether `t[..i]` ends with `[` followed by decimal digits only.
pub open spec fn after_open_bracket(t: Seq<char>, i: int) -> bool
    decreases i,
{
    if i <= 0 {
        false
    } else if t[i - 1] == '[' {
        true
    } else {
        '0' <= t[i - 1] <= '9' && after_open_bracket(t, i - 1)
    }
}

/// Relies on `ethabi::Contract::load` to read a JSON interface description,
/// and on `Contract::function` to look a function up in it by name (the
/// first of those that share it). The type reader that `load` runs on each
/// parameter type cuts the text by character counts, but only on a type that
/// ends in `]` or `)`; on ASCII text it stays within bounds wherever each `]`
/// closes a `[` and digits. Functions are filed under their own names.
#[verifier::external_body]
pub(crate) fn load_function(text: &str, name: &str) -> (r: Option<Option<AbiFunction>>)
    requires
        description_readable(text@),
    ensures
        r == function_named(text@, name@),
        r matches Some(Some(f)) ==> f.name@ == name@,
{
    ethabi::Contract::load(text.as_bytes()).ok().map(|c| c.function(name).ok().map(from_eth_function))
}

/// Carries a token sequence over to ethabi's representation.
#[verifier::external_body]
fn to_eth_tokens(v: &Vec<AbiToken>) -> Vec<EthToken> {
    v.iter().map(to_eth_token).collect()
}

/// Relies on `ethabi::short_signature`: the first four bytes of the hash of
/// the function's signature text, made of its name and input types.
#[verifier::external_body]
pub(crate) fn short_signature(f: &AbiFunction) -> (r: [u8; 4])
    ensures
        r@ == selector_of(f.name@, kinds_of(f.inputs@)),
{
    ethabi::short_signature(&f.name, &f.inputs.iter().map(|p| to_eth_kind(&p.kind)).collect::<Vec<_>>())
}

/// Relies on `ethabi::encode`: the standard head-and-tail encoding, made of
/// whole 32-byte words. Addresses, integers and booleans each take one word
/// in place, right-aligned and padded with zeros (integers big-endian), so a
/// sequence of only those is their words in order.
#[verifier::external_body]
pub(crate) fn encode_tokens(tokens: &Vec<AbiToken>) -> (r: Vec<u8>)
    ensures
        r@ == encoding_of(tokens@),
        r@.len() % 32 == 0,
        (forall|i: int| 0 <= i < tokens.len() ==> is_one_word(#[trigger] tokens@[i])) ==> {
            &&& r@.len() == 32 * tokens.len()
            &&& forall|i: int|
                0 <= i < tokens.len() ==> be_value(r@.subrange(32 * i, 32 * i + 32)) == word_number(
                    #[trigger] tokens@[i],
                )
        },
{
    ethabi::encode(&to_eth_tokens(tokens))
}

} // verus!
