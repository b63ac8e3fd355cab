//! Building call data from argument text, positionally or by name.
use crate::abi::{fits, fits_inputs, AbiFunction, AbiToken, ParseError};
use crate::external::{
    after_open_bracket, ends_bracketed, next_quote, be_value, chars_of, dec_value, hex_bytes, is_one_word, lower_of, word_number, description_readable, encode_tokens, encoding_of,
    function_named, json_fields_of, json_object_fields, kinds_of, load_function, quotes_before, selector_of,
    short_signature, trim, trim_of,
};
use crate::abi::AbiType;
use crate::parse::{address_digits, parse_arg, parse_error, parses_to, true_text};
use vstd::prelude::*;

verus! {

/// The call data for `f` with these tokens: the selector, then the encoded
/// tokens.
pub open spec fn call_data(f: AbiFunction, tokens: Seq<AbiToken>) -> Seq<u8> {
    selector_of(f.name@, kinds_of(f.inputs@)) + encoding_of(tokens)
}

/// Encodes a call of `f` with tokens already parsed, one for each input and
/// of its type.
pub fn encode_call(f: &AbiFunction, tokens: &Vec<AbiToken>) -> (r: Vec<u8>)
    requires
        fits_inputs(tokens@, f.inputs@),
    ensures
        r@ == call_data(*f, tokens@),
        r@.len() >= 4,
        (r@.len() - 4) % 32 == 0,
        (forall|i: int| 0 <= i < tokens.len() ==> is_one_word(#[trigger] tokens@[i])) ==> {
            &&& r@.len() == 4 + 32 * tokens.len()
            &&& forall|i: int|
                0 <= i < tokens.len() ==> be_value(r@.subrange(4 + 32 * i, 36 + 32 * i))
                    == word_number(#[trigger] tokens@[i])
        },
{
    let selector = short_signature(f);
    let payload = encode_tokens(tokens);
    let mut out: Vec<u8> = Vec::new();
    let mut i: usize = 0;
    while i < 4
        invariant
            0 <= i <= 4,
            out@ == selector@.take(i as int),
        decreases 4 - i,
    {
        out.push(selector[i]);
        i = i + 1;
    }
    let mut j: usize = 0;
    while j < payload.len()
        invariant
            0 <= j <= payload.len(),
            out@ == selector@ + payload@.take(j as int),
        decreases payload.len() - j,
    {
        out.push(payload[j]);
        j = j + 1;
        assert(out@ =~= selector@ + payload@.take(j as int));
    }
    assert(payload@.take(j as int) =~= payload@);
    assert forall|i: int|
        0 <= i < tokens.len() && 36 + 32 * i <= out@.len() implies #[trigger] out@.subrange(
        4 + 32 * i,
        36 + 32 * i,
    ) =~= payload@.subrange(32 * i, 32 * i + 32) by {}
    out
}

/// A type whose values the encoding lays out as one word each.
pub open spec fn is_one_word_kind(k: AbiType) -> bool {
    k is Address || k is Int || k is Uint || k is Bool
}

/// The number that the word for argument text `s` of one-word type `k`
/// holds.
pub open spec fn arg_number(s: Seq<char>, k: AbiType) -> int {
    match k {
        AbiType::Address => be_value(hex_bytes(address_digits(s))),
        AbiType::Bool => if lower_of(s) == true_text() {
            1
        } else {
            0
        },
        _ => dec_value(s) as int,
    }
}

/// What positional mode gives for `f` and argument text `arg`.
pub open spec fn unary_outcome(f: AbiFunction, arg: Seq<char>, r: Result<Vec<u8>, ParseError>) -> bool {
    &&& f.inputs.len() != 1 ==> r == Err::<Vec<u8>, ParseError>(ParseError::ArgumentCount)
    &&& f.inputs.len() == 1 ==> {
        let s = trim_of(arg);
        let k = f.inputs[0].kind;
        &&& r is Err == parse_error(s, k) is Some
        &&& r is Err ==> parse_error(s, k) == Some(r->Err_0)
        &&& r is Ok ==> exists|t: AbiToken|
            #[trigger] parses_to(s, k, t) && r->Ok_0@ == call_data(f, seq![t])
    }
}

/// Call data for a function of one input, from the text of that input
/// (surrounding whitespace ignored).
pub fn encode_unary(f: &AbiFunction, arg: &str) -> (r: Result<Vec<u8>, ParseError>)
    ensures
        unary_outcome(*f, arg@, r),
        r is Ok ==> r->Ok_0@.len() >= 4 && (r->Ok_0@.len() - 4) % 32 == 0,
{
    if f.inputs.len() != 1 {
        return Err(ParseError::ArgumentCount);
    }
    let token = match parse_arg(trim(arg), &f.inputs[0].kind) {
        Ok(t) => t,
        Err(err) => return Err(err),
    };
    let tokens = vec![token];
    let r = encode_call(f, &tokens);
    assert(tokens@ =~= seq![tokens@[0]]);
    Ok(r)
}

/// The value of the first field named `name` among `fields[i..]`: `None`
/// when there is none, `Some(None)` when its value is not a JSON string.
pub open spec fn field_text(
    fields: Seq<(Seq<char>, Option<Seq<char>>)>,
    name: Seq<char>,
    i: int,
) -> Option<Option<Seq<char>>>
    decreases fields.len() - i,
{
    if i < 0 || i >= fields.len() {
        None
    } else if fields[i].0 == name {
        Some(fields[i].1)
    } else {
        field_text(fields, name, i + 1)
    }
}

/// The string argument given for input `name`, if there is one.
pub open spec fn named_arg(fields: Seq<(Seq<char>, Option<Seq<char>>)>, name: Seq<char>) -> Option<
    Seq<char>,
> {
    match field_text(fields, name, 0) {
        Some(Some(text)) => Some(text),
        _ => None,
    }
}

/// The first error met when parsing named arguments for `inputs[i..]`.
pub open spec fn named_error(
    fields: Seq<(Seq<char>, Option<Seq<char>>)>,
    f: AbiFunction,
    i: int,
) -> Option<ParseError>
    decreases f.inputs.len() - i,
{
    if i < 0 || i >= f.inputs.len() {
        None
    } else {
        match named_arg(fields, f.inputs[i].name@) {
            None => Some(ParseError::TypeMismatch),
            Some(text) => match parse_error(text, f.inputs[i].kind) {
                Some(err) => Some(err),
                None => named_error(fields, f, i + 1),
            },
        }
    }
}

/// Whether `tokens` are what the named arguments give for the inputs of `f`.
pub open spec fn named_tokens(
    fields: Seq<(Seq<char>, Option<Seq<char>>)>,
    f: AbiFunction,
    tokens: Seq<AbiToken>,
) -> bool {
    &&& tokens.len() == f.inputs.len()
    &&& forall|i: int|
        0 <= i < tokens.len() ==> parses_to(
            named_arg(fields, f.inputs[i].name@)->Some_0,
            f.inputs[i].kind,
            #[trigger] tokens[i],
        )
}

proof fn lemma_field_text_skip(
    fields: Seq<(Seq<char>, Option<Seq<char>>)>,
    name: Seq<char>,
    k: int,
    i: int,
)
    requires
        0 <= k <= i <= fields.len(),
        forall|j: int| 0 <= j < i ==> (#[trigger] fields[j]).0 != name,
    ensures
        field_text(fields, name, k) == field_text(fields, name, i),
    decreases i - k,
{
    if k < i {
        lemma_field_text_skip(fields, name, k + 1, i);
    }
}

proof fn lemma_named_error_skip(fields: Seq<(Seq<char>, Option<Seq<char>>)>, f: AbiFunction, k: int, i: int)
    requires
        0 <= k <= i <= f.inputs.len(),
        forall|j: int|
            0 <= j < i ==> named_arg(fields, (#[trigger] f.inputs[j]).name@) is Some && parse_error(
                named_arg(fields, f.inputs[j].name@)->Some_0,
                f.inputs[j].kind,
            ) is None,
    ensures
        named_error(fields, f, k) == named_error(fields, f, i),
    decreases i - k,
{
    if k < i {
        lemma_named_error_skip(fields, f, k + 1, i);
    }
}

/// Finds the first field named `name`.
fn find_field(fields: &Vec<(String, Option<String>)>, name: &String) -> (r: Option<usize>)
    ensures
        r is None ==> field_text(field_views(fields@), name@, 0) is None,
        r is Some ==> r->Some_0 < fields.len() && field_text(field_views(fields@), name@, 0) == Some(
            field_views(fields@)[r->Some_0 as int].1,
        ),
{
    let ghost fv = field_views(fields@);
    let mut i: usize = 0;
    while i < fields.len()
        invariant
            fv == field_views(fields@),
            0 <= i <= fields.len(),
            forall|j: int| 0 <= j < i ==> (#[trigger] fv[j]).0 != name@,
        decreases fields.len() - i,
    {
        if fields[i].0.eq(name) {
            proof {
                lemma_field_text_skip(fv, name@, 0, i as int);
            }
            return Some(i);
        }
        i = i + 1;
    }
    proof {
        lemma_field_text_skip(fv, name@, 0, i as int);
    }
    None
}

/// The views of the fields of a JSON object.
pub open spec fn field_views(fields: Seq<(String, Option<String>)>) -> Seq<
    (Seq<char>, Option<Seq<char>>),
> {
    fields.map_values(
        |e: (String, Option<String>)|
            (
                e.0@,
                match e.1 {
                    Some(v) => Some(v@),
                    None => None,
                },
            ),
    )
}

/// What named mode gives for `f` and argument text `arg`.
pub open spec fn named_outcome(f: AbiFunction, arg: Seq<char>, r: Result<Vec<u8>, ParseError>) -> bool {
    &&& json_fields_of(arg) is None ==> r == Err::<Vec<u8>, ParseError>(ParseError::Json)
    &&& json_fields_of(arg) is Some ==> {
        let fields = json_fields_of(arg)->Some_0;
        &&& r is Err == named_error(fields, f, 0) is Some
        &&& r is Err ==> named_error(fields, f, 0) == Some(r->Err_0)
        &&& r is Ok ==> exists|tokens: Seq<AbiToken>|
            #[trigger] named_tokens(fields, f, tokens) && r->Ok_0@ == call_data(f, tokens)
    }
}

/// Call data for `f` from a JSON object that gives each input, by name, as a
/// JSON string; fields that name no input are ignored.
pub fn encode_by_name(f: &AbiFunction, arg: &str) -> (r: Result<Vec<u8>, ParseError>)
    ensures
        named_outcome(*f, arg@, r),
        r is Ok ==> r->Ok_0@.len() >= 4 && (r->Ok_0@.len() - 4) % 32 == 0,
        r is Ok && (forall|i: int| 0 <= i < f.inputs.len() ==> is_one_word_kind(#[trigger] f.inputs[i].kind))
            ==> {
            let fields = json_fields_of(arg@)->Some_0;
            &&& r->Ok_0@.len() == 4 + 32 * f.inputs.len()
            &&& forall|i: int|
                0 <= i < f.inputs.len() ==> be_value(r->Ok_0@.subrange(4 + 32 * i, 36 + 32 * i))
                    == arg_number(named_arg(fields, (#[trigger] f.inputs[i]).name@)->Some_0, f.inputs[i].kind)
        },
{
    let fields = match json_object_fields(arg) {
        Some(fields) => fields,
        None => return Err(ParseError::Json),
    };
    let ghost fv = json_fields_of(arg@)->Some_0;
    assert(field_views(fields@) =~= fv);
    let mut tokens: Vec<AbiToken> = Vec::new();
    let mut i: usize = 0;
    while i < f.inputs.len()
        invariant
            json_fields_of(arg@) is Some,
            fv == json_fields_of(arg@)->Some_0,
            field_views(fields@) == fv,
            0 <= i <= f.inputs.len(),
            tokens.len() == i,
            forall|j: int|
                0 <= j < i ==> named_arg(fv, (#[trigger] f.inputs[j]).name@) is Some && parse_error(
                    named_arg(fv, f.inputs[j].name@)->Some_0,
                    f.inputs[j].kind,
                ) is None,
            forall|j: int|
                0 <= j < i ==> parses_to(
                    named_arg(fv, f.inputs[j].name@)->Some_0,
                    f.inputs[j].kind,
                    #[trigger] tokens[j],
                ),
            forall|j: int| 0 <= j < i ==> fits(#[trigger] tokens[j], f.inputs[j].kind),
        decreases f.inputs.len() - i,
    {
        let input = &f.inputs[i];
        let text = match find_field(&fields, &input.name) {
            Some(idx) => match &fields[idx].1 {
                Some(text) => text,
                None => {
                    proof {
                        lemma_named_error_skip(fv, *f, 0, i as int);
                    }
                    return Err(ParseError::TypeMismatch);
                },
            },
            None => {
                proof {
                    lemma_named_error_skip(fv, *f, 0, i as int);
                }
                return Err(ParseError::TypeMismatch);
            },
        };
        assert(named_arg(fv, input.name@) == Some(text@));
        match parse_arg(text.as_str(), &input.kind) {
            Ok(t) => tokens.push(t),
            Err(err) => {
                proof {
                    lemma_named_error_skip(fv, *f, 0, i as int);
                }
                return Err(err);
            },
        }
        i = i + 1;
    }
    proof {
        lemma_named_error_skip(fv, *f, 0, i as int);
        assert(named_tokens(fv, *f, tokens@));
    }
    let r = encode_call(f, &tokens);
    proof {
        if forall|j: int| 0 <= j < f.inputs.len() ==> is_one_word_kind(#[trigger] f.inputs[j].kind) {
            assert forall|j: int| 0 <= j < tokens.len() implies is_one_word(#[trigger] tokens@[j]) by {
                assert(is_one_word_kind(f.inputs[j].kind));
            }
            assert forall|j: int| 0 <= j < f.inputs.len() implies be_value(
                r@.subrange(4 + 32 * j, 36 + 32 * j),
            ) == arg_number(named_arg(fv, (#[trigger] f.inputs[j]).name@)->Some_0, f.inputs[j].kind) by {
                assert(is_one_word_kind(f.inputs[j].kind));
                assert(parses_to(named_arg(fv, f.inputs[j].name@)->Some_0, f.inputs[j].kind, tokens@[j]));
                assert(be_value(r@.subrange(4 + 32 * j, 36 + 32 * j)) == word_number(tokens@[j]));
            }
        }
    }
    Ok(r)
}

/// The argument text: the explicit value when there is one, else what was
/// read from standard input when that was asked for, else the empty text.
pub open spec fn arg_text(arg: Option<String>, stdin_arg: Option<bool>, stdin_text: Seq<char>) -> Seq<char> {
    match arg {
        Some(a) => a@,
        None => if stdin_arg == Some(true) {
            stdin_text
        } else {
            Seq::empty()
        },
    }
}

/// Whether the argument text has to be read from standard input.
pub fn reads_stdin(arg: &Option<String>, stdin_arg: Option<bool>) -> (r: bool)
    ensures
        r == (arg is None && stdin_arg == Some(true)),
{
    match arg {
        Some(_) => false,
        None => match stdin_arg {
            Some(b) => b,
            None => false,
        },
    }
}

/// Picks the argument text; `stdin_text` is what standard input held, where
/// it was read.
pub fn read_arg(arg: Option<String>, stdin_arg: Option<bool>, stdin_text: String) -> (r: String)
    ensures
        r@ == arg_text(arg, stdin_arg, stdin_text@),
{
    match arg {
        Some(a) => a,
        None => match stdin_arg {
            Some(true) => stdin_text,
            _ => String::new(),
        },
    }
}

/// Whether an interface description passes the check that reading it
/// safely needs (see `description_readable`).
pub fn description_is_readable(text: &str) -> (r: bool)
    ensures
        r == description_readable(text@),
{
    let t = chars_of(text);
    let mut in_string = false;
    let mut strict = false;
    let mut open = false;
    let mut i: usize = 0;
    while i < t.len()
        invariant
            t@ == text@,
            0 <= i <= t.len(),
            in_string == (quotes_before(t@, i as int) % 2 == 1),
            in_string ==> strict == ends_bracketed(t@, i as int),
            open == after_open_bracket(t@, i as int),
            forall|j: int|
                0 <= j < i ==> {
                    &&& (#[trigger] t@[j]) != '\\'
                    &&& (quotes_before(t@, j) % 2 == 1 && ends_bracketed(t@, j)) ==> {
                        &&& t@[j] as u32 <= 0x7f
                        &&& t@[j] == ']' ==> after_open_bracket(t@, j)
                    }
                },
        decreases t.len() - i,
    {
        let c = t[i];
        if c == '\\' || (in_string && strict && (c as u32 > 0x7f || (c == ']' && !open))) {
            return false;
        }
        if c == '"' {
            if in_string {
                in_string = false;
            } else {
                in_string = true;
                let mut j: usize = i + 1;
                while j < t.len() && t[j] != '"'
                    invariant
                        i + 1 <= j <= t.len(),
                        next_quote(t@, i + 1) == next_quote(t@, j as int),
                    decreases t.len() - j,
                {
                    j = j + 1;
                }
                strict = 1 <= j && j < t.len() && (t[j - 1] == ']' || t[j - 1] == ')');
            }
        }
        open = c == '[' || ('0' <= c && c <= '9' && open);
        i = i + 1;
    }
    true
}

/// The two ways of calling a contract function with argument text.
pub enum Solidity {
    /// A function of one input, given as plain text.
    UnaryCall { abi_path: String, method_name: String, arg: Option<String>, stdin_arg: Option<bool> },
    /// Allows invoking a contract function by passing in a JSON object.
    /// The names of the fields are the argument names of the function, and
    /// the values are strings that can be parsed into the correct types.
    CallArgsByName {
        abi_path: String,
        method_name: String,
        arg: Option<String>,
        stdin_arg: Option<bool>,
    },
}

impl Solidity {
    pub open spec fn spec_method_name(self) -> String {
        match self {
            Solidity::UnaryCall { method_name, .. } => method_name,
            Solidity::CallArgsByName { method_name, .. } => method_name,
        }
    }

    pub open spec fn spec_arg_text(self, stdin_text: Seq<char>) -> Seq<char> {
        match self {
            Solidity::UnaryCall { arg, stdin_arg, .. } => arg_text(arg, stdin_arg, stdin_text),
            Solidity::CallArgsByName { arg, stdin_arg, .. } => arg_text(arg, stdin_arg, stdin_text),
        }
    }

    /// Where the interface description is stored.
    pub fn abi_path(&self) -> (r: &String)
        ensures
            r == match *self {
                Solidity::UnaryCall { abi_path, .. } => abi_path,
                Solidity::CallArgsByName { abi_path, .. } => abi_path,
            },
    {
        match self {
            Solidity::UnaryCall { abi_path, .. } => abi_path,
            Solidity::CallArgsByName { abi_path, .. } => abi_path,
        }
    }

    /// Whether the argument text has to be read from standard input.
    pub fn needs_stdin(&self) -> (r: bool)
        ensures
            r == match *self {
                Solidity::UnaryCall { arg, stdin_arg, .. } => arg is None && stdin_arg == Some(true),
                Solidity::CallArgsByName { arg, stdin_arg, .. } => arg is None && stdin_arg
                    == Some(true),
            },
    {
        match self {
            Solidity::UnaryCall { arg, stdin_arg, .. } => reads_stdin(arg, *stdin_arg),
            Solidity::CallArgsByName { arg, stdin_arg, .. } => reads_stdin(arg, *stdin_arg),
        }
    }

    /// The function this request calls, as the interface description
    /// `abi_text` declares it, or the error that stops it first: a
    /// description that does not load, no function of that name, or, in
    /// positional mode, a function without exactly one input.
    pub open spec fn spec_resolve(self, abi_text: Seq<char>) -> Result<AbiFunction, ParseError> {
        if !description_readable(abi_text) {
            Err(ParseError::Load)
        } else {
            match function_named(abi_text, self.spec_method_name()@) {
                None => Err(ParseError::Load),
                Some(None) => Err(ParseError::Lookup),
                Some(Some(f)) => if self is UnaryCall && f.inputs.len() != 1 {
                    Err(ParseError::ArgumentCount)
                } else {
                    Ok(f)
                },
            }
        }
    }

    /// Finds the function to call in the interface description `abi_text`;
    /// this needs no argument text, so it can come before reading one.
    pub fn resolve(&self, abi_text: &str) -> (r: Result<AbiFunction, ParseError>)
        ensures
            r == self.spec_resolve(abi_text@),
    {
        if !description_is_readable(abi_text) {
            return Err(ParseError::Load);
        }
        let f = match load_function(abi_text, self.method_name().as_str()) {
            None => return Err(ParseError::Load),
            Some(None) => return Err(ParseError::Lookup),
            Some(Some(f)) => f,
        };
        if let Solidity::UnaryCall { .. } = self {
            if f.inputs.len() != 1 {
                return Err(ParseError::ArgumentCount);
            }
        }
        Ok(f)
    }

    /// Call data for the chosen function of the interface description
    /// `abi_text`; `stdin_text` is what standard input held, where it was read.
    pub fn abi_encode(self, abi_text: &str, stdin_text: String) -> (r: Result<Vec<u8>, ParseError>)
        ensures
            match self.spec_resolve(abi_text@) {
                Err(e) => r == Err::<Vec<u8>, ParseError>(e),
                Ok(f) => match self {
                    Solidity::UnaryCall { .. } => unary_outcome(f, self.spec_arg_text(stdin_text@), r),
                    Solidity::CallArgsByName { .. } => named_outcome(
                        f,
                        self.spec_arg_text(stdin_text@),
                        r,
                    ),
                },
            },
            r is Ok ==> r->Ok_0@.len() >= 4 && (r->Ok_0@.len() - 4) % 32 == 0,
    {
        let f = match self.resolve(abi_text) {
            Ok(f) => f,
            Err(e) => return Err(e),
        };
        self.encode_for(&f, stdin_text)
    }

    /// The function to call, by name.
    pub fn method_name(&self) -> (r: &String)
        ensures
            *r == self.spec_method_name(),
    {
        match self {
            Solidity::UnaryCall { method_name, .. } => method_name,
            Solidity::CallArgsByName { method_name, .. } => method_name,
        }
    }

    /// Call data for `f`, the function this request names, in this request's
    /// mode; `stdin_text` is what standard input held, where it was read.
    pub fn encode_for(self, f: &AbiFunction, stdin_text: String) -> (r: Result<Vec<u8>, ParseError>)
        ensures
            match self {
                Solidity::UnaryCall { .. } => unary_outcome(*f, self.spec_arg_text(stdin_text@), r),
                Solidity::CallArgsByName { .. } => named_outcome(
                    *f,
                    self.spec_arg_text(stdin_text@),
                    r,
                ),
            },
            r is Ok ==> r->Ok_0@.len() >= 4 && (r->Ok_0@.len() - 4) % 32 == 0,
    {
        match self {
            Solidity::UnaryCall { arg, stdin_arg, .. } => {
                let text = read_arg(arg, stdin_arg, stdin_text);
                encode_unary(f, text.as_str())
            },
            Solidity::CallArgsByName { arg, stdin_arg, .. } => {
                let text = read_arg(arg, stdin_arg, stdin_text);
                encode_by_name(f, text.as_str())
            },
        }
    }
}

} // verus!
