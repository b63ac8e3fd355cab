use abi_args::abi::{AbiToken, AbiType, AbiFunction, AbiParam, ParseError, Word256};
use abi_args::call::{
    description_is_readable, encode_by_name, encode_unary, read_arg, reads_stdin, Solidity,
};
use abi_args::parse::{parse_arg, parse_array, parse_bool_lowered};

const ERC20_ABI: &str = r#"[
  {"type":"function","name":"approve","inputs":[{"name":"spender","type":"address"},{"name":"amount","type":"uint256"}],"outputs":[{"name":"","type":"bool"}],"stateMutability":"nonpayable"},
  {"type":"function","name":"transfer","inputs":[{"name":"to","type":"address"},{"name":"amount","type":"uint256"}],"outputs":[{"name":"","type":"bool"}],"stateMutability":"nonpayable"},
  {"type":"function","name":"burn","inputs":[{"name":"amount","type":"uint256"}],"outputs":[],"stateMutability":"nonpayable"},
  {"type":"function","name":"totalSupply","inputs":[],"outputs":[{"name":"","type":"uint256"}],"stateMutability":"view"}
]"#;

fn param(name: &str, kind: AbiType) -> AbiParam {
    AbiParam { name: name.to_string(), kind }
}

fn transfer() -> AbiFunction {
    AbiFunction {
        name: "transfer".to_string(),
        inputs: vec![param("to", AbiType::Address), param("amount", AbiType::Uint(256))],
    }
}

fn approve() -> AbiFunction {
    AbiFunction {
        name: "approve".to_string(),
        inputs: vec![param("spender", AbiType::Address), param("amount", AbiType::Uint(256))],
    }
}

fn uint(v: u64) -> AbiToken {
    AbiToken::Uint(Word256 { limbs: [v, 0, 0, 0] })
}

fn word_of(v: u8) -> Vec<u8> {
    let mut w = vec![0u8; 32];
    w[31] = v;
    w
}

#[test]
fn positional_mode_rejects_two_inputs() {
    for arg in ["", "1", "0x0000000000000000000000000000000000000001", "[1,2]"] {
        assert_eq!(encode_unary(&transfer(), arg), Err(ParseError::ArgumentCount));
    }
}

#[test]
fn positional_mode_rejects_no_inputs() {
    let f = AbiFunction { name: "totalSupply".to_string(), inputs: vec![] };
    assert_eq!(encode_unary(&f, "1"), Err(ParseError::ArgumentCount));
}

#[test]
fn positional_mode_matches_single_value_parsing() {
    let f = AbiFunction { name: "burn".to_string(), inputs: vec![param("amount", AbiType::Uint(256))] };
    let bytes = encode_unary(&f, "\u{3000} 1000\n\t").unwrap();
    assert_eq!(bytes.len(), 4 + 32);
    assert_eq!(&bytes[4..], &{
        let mut w = vec![0u8; 32];
        w[30] = 0x03;
        w[31] = 0xe8;
        w
    }[..]);
    assert_eq!(encode_unary(&f, "12a"), Err(ParseError::ValueParse));
    assert_eq!(parse_arg("12a", &AbiType::Uint(256)), Err(ParseError::ValueParse));
}

#[test]
fn named_mode_approve() {
    let arg = r#"{"spender":"0x0000000000000000000000000000000000000001","amount":"1000"}"#;
    let bytes = encode_by_name(&approve(), arg).unwrap();
    assert_eq!(bytes.len(), 4 + 64);
    assert_eq!(&bytes[..4], &[0x09, 0x5e, 0xa7, 0xb3]);
    assert_eq!(&bytes[4..36], &word_of(1)[..]);
    let mut amount = vec![0u8; 32];
    amount[30] = 0x03;
    amount[31] = 0xe8;
    assert_eq!(&bytes[36..], &amount[..]);
}

#[test]
fn named_mode_ignores_extra_fields() {
    let plain = r#"{"spender":"0x0000000000000000000000000000000000000001","amount":"1000"}"#;
    let extra = r#"{"memo":"hi","spender":"0x0000000000000000000000000000000000000001","zzz":7,"amount":"1000"}"#;
    assert_eq!(encode_by_name(&approve(), plain), encode_by_name(&approve(), extra));
    assert!(encode_by_name(&approve(), extra).is_ok());
}

#[test]
fn named_mode_missing_or_non_string_field() {
    let missing = r#"{"spender":"0x0000000000000000000000000000000000000001"}"#;
    assert_eq!(encode_by_name(&approve(), missing), Err(ParseError::TypeMismatch));
    let number = r#"{"spender":"0x0000000000000000000000000000000000000001","amount":1000}"#;
    assert_eq!(encode_by_name(&approve(), number), Err(ParseError::TypeMismatch));
}

#[test]
fn named_mode_needs_a_json_object() {
    assert_eq!(encode_by_name(&approve(), "not json"), Err(ParseError::Json));
    assert_eq!(encode_by_name(&approve(), "[1,2]"), Err(ParseError::Json));
}

#[test]
fn named_mode_reports_value_errors() {
    let bad = r#"{"spender":"0x01","amount":"1000"}"#;
    assert_eq!(encode_by_name(&approve(), bad), Err(ParseError::ValueParse));
}

#[test]
fn burn_selector_is_standard() {
    let f = AbiFunction { name: "burn".to_string(), inputs: vec![param("amount", AbiType::Uint(256))] };
    let bytes = encode_unary(&f, "1").unwrap();
    assert_eq!(&bytes[..4], &[0x42, 0x96, 0x6c, 0x68]);
}

#[test]
fn bytes4_length() {
    let k = AbiType::FixedBytes(4);
    assert_eq!(parse_arg("aabbcc", &k), Err(ParseError::LengthMismatch));
    assert_eq!(parse_arg("aabbccdd", &k), Ok(AbiToken::FixedBytes(vec![0xaa, 0xbb, 0xcc, 0xdd])));
    assert_eq!(parse_arg("aabbccddee", &k), Err(ParseError::LengthMismatch));
    assert_eq!(parse_arg("aabbccd", &k), Err(ParseError::ValueParse));
}

#[test]
fn bytes_are_hex_decoded() {
    assert_eq!(parse_arg("0aFF", &AbiType::Bytes), Ok(AbiToken::Bytes(vec![0x0a, 0xff])));
    assert_eq!(parse_arg("", &AbiType::Bytes), Ok(AbiToken::Bytes(vec![])));
    assert_eq!(parse_arg("0g", &AbiType::Bytes), Err(ParseError::ValueParse));
    assert_eq!(parse_arg("abc", &AbiType::Bytes), Err(ParseError::ValueParse));
}

#[test]
fn bool_is_case_insensitive() {
    assert_eq!(parse_arg("True", &AbiType::Bool), Ok(AbiToken::Bool(true)));
    assert_eq!(parse_arg("FALSE", &AbiType::Bool), Ok(AbiToken::Bool(false)));
    assert_eq!(parse_arg("yes", &AbiType::Bool), Err(ParseError::ValueParse));
    assert_eq!(parse_bool_lowered(&"true".to_string()), Ok(true));
    assert_eq!(parse_bool_lowered(&"True".to_string()), Err(ParseError::ValueParse));
}

#[test]
fn uint_array() {
    let k = AbiType::Array(Box::new(AbiType::Uint(256)));
    assert_eq!(parse_arg("[1,2,3]", &k), Ok(AbiToken::Array(vec![uint(1), uint(2), uint(3)])));
    assert_eq!(parse_arg("[]", &k), Ok(AbiToken::Array(vec![])));
    assert_eq!(parse_arg("[1,\"x\"]", &k), Err(ParseError::ValueParse));
    assert_eq!(parse_arg("{}", &k), Err(ParseError::Json));
    assert_eq!(parse_array("[4]", &AbiType::Uint(8)), Ok(vec![uint(4)]));
}

#[test]
fn fixed_array_length() {
    let k = AbiType::FixedArray(Box::new(AbiType::Uint(256)), 2);
    assert_eq!(parse_arg("[1,2]", &k), Ok(AbiToken::FixedArray(vec![uint(1), uint(2)])));
    assert_eq!(parse_arg("[1]", &k), Err(ParseError::LengthMismatch));
    assert_eq!(parse_arg("[1,2,3]", &k), Err(ParseError::LengthMismatch));
}

#[test]
fn tuple_length() {
    let k = AbiType::Tuple(vec![AbiType::Uint(256), AbiType::Bool]);
    assert_eq!(parse_arg("[7,true]", &k), Ok(AbiToken::Tuple(vec![uint(7), AbiToken::Bool(true)])));
    assert_eq!(parse_arg("[7]", &k), Err(ParseError::LengthMismatch));
    assert_eq!(parse_arg("[7,true,1]", &k), Err(ParseError::LengthMismatch));
    assert_eq!(parse_arg("7", &k), Err(ParseError::Json));
}

#[test]
fn nested_elements_are_reserialized() {
    let k = AbiType::Array(Box::new(AbiType::String));
    assert_eq!(
        parse_arg(r#"["a", "b"]"#, &k),
        Ok(AbiToken::Array(vec![
            AbiToken::String("\"a\"".to_string()),
            AbiToken::String("\"b\"".to_string())
        ]))
    );
    let nested = AbiType::Array(Box::new(AbiType::Array(Box::new(AbiType::Uint(8)))));
    assert_eq!(
        parse_arg("[[1], [2, 3]]", &nested),
        Ok(AbiToken::Array(vec![
            AbiToken::Array(vec![uint(1)]),
            AbiToken::Array(vec![uint(2), uint(3)])
        ]))
    );
}

#[test]
fn integers_are_256_bit() {
    let max = "115792089237316195423570985008687907853269984665640564039457584007913129639935";
    assert_eq!(
        parse_arg(max, &AbiType::Uint(256)),
        Ok(AbiToken::Uint(Word256 { limbs: [u64::MAX; 4] }))
    );
    let over = "115792089237316195423570985008687907853269984665640564039457584007913129639936";
    assert_eq!(parse_arg(over, &AbiType::Uint(256)), Err(ParseError::ValueParse));
    // the declared width is not enforced: a uint8 takes 300
    assert_eq!(parse_arg("300", &AbiType::Uint(8)), Ok(uint(300)));
    assert_eq!(parse_arg("18446744073709551616", &AbiType::Int(256)), Ok(AbiToken::Int(Word256 { limbs: [0, 1, 0, 0] })));
    assert_eq!(parse_arg("-1", &AbiType::Int(256)), Err(ParseError::ValueParse));
}

#[test]
fn addresses_take_an_optional_prefix() {
    let mut expected = [0u8; 20];
    expected[19] = 0xab;
    let bare = "00000000000000000000000000000000000000AB";
    assert_eq!(parse_arg(bare, &AbiType::Address), Ok(AbiToken::Address(expected)));
    assert_eq!(parse_arg(&format!("0x{}", bare), &AbiType::Address), Ok(AbiToken::Address(expected)));
    assert_eq!(parse_arg("0xab", &AbiType::Address), Err(ParseError::ValueParse));
}

#[test]
fn strings_are_verbatim() {
    assert_eq!(parse_arg(" a\\n ", &AbiType::String), Ok(AbiToken::String(" a\\n ".to_string())));
}

#[test]
fn payload_is_whole_words() {
    let f = AbiFunction {
        name: "f".to_string(),
        inputs: vec![param("data", AbiType::Bytes)],
    };
    for arg in ["", "01", "0102030405060708090a0b0c0d0e0f101112131415161718191a1b1c1d1e1f2021"] {
        let bytes = encode_unary(&f, arg).unwrap();
        assert_eq!((bytes.len() - 4) % 32, 0);
    }
}

#[test]
fn argument_source() {
    assert_eq!(read_arg(Some("x".to_string()), Some(true), "y".to_string()), "x");
    assert_eq!(read_arg(None, Some(true), "y".to_string()), "y");
    assert_eq!(read_arg(None, Some(false), "y".to_string()), "");
    assert_eq!(read_arg(None, None, "y".to_string()), "");
    assert!(reads_stdin(&None, Some(true)));
    assert!(!reads_stdin(&Some("x".to_string()), Some(true)));
}

#[test]
fn unsafe_type_texts_are_refused() {
    let bad = r#"[{"type":"function","name":"f","inputs":[{"name":"a","type":"]"}],"outputs":[]}]"#;
    assert!(!description_is_readable(bad));
    let digits = r#"[{"type":"function","name":"f","inputs":[{"name":"a","type":"1]"}],"outputs":[]}]"#;
    assert!(!description_is_readable(digits));
    let wide = "[{\"type\":\"function\",\"name\":\"f\",\"inputs\":[{\"name\":\"a\",\"type\":\"\u{e9}[]\"}]}]";
    assert!(!description_is_readable(wide));
    assert!(!description_is_readable(r#"[{"name":"a\"b"}]"#));
    assert!(description_is_readable(ERC20_ABI));
    let unicode_name = "[{\"type\":\"function\",\"name\":\"f\",\"inputs\":[{\"name\":\"\u{e9}t\u{e9}\",\"type\":\"uint256[]\"}],\"outputs\":[]}]";
    assert!(description_is_readable(unicode_name));
    let named = Solidity::CallArgsByName {
        abi_path: "f.json".to_string(),
        method_name: "f".to_string(),
        arg: None,
        stdin_arg: None,
    };
    assert_eq!(named.resolve(unicode_name).unwrap().inputs[0].name, "\u{e9}t\u{e9}");
    assert!(!description_is_readable(r#"[{"type":"(uint256,])"}]"#));
    assert!(description_is_readable(r#"[{"type":"uint256[3][]"}]"#));
    let call = Solidity::UnaryCall {
        abi_path: "f.json".to_string(),
        method_name: "f".to_string(),
        arg: Some("1".to_string()),
        stdin_arg: None,
    };
    assert_eq!(call.abi_encode(bad, String::new()), Err(ParseError::Load));
}

#[test]
fn encode_for_a_chosen_function() {
    let call = Solidity::CallArgsByName {
        abi_path: "erc20.json".to_string(),
        method_name: "approve".to_string(),
        arg: None,
        stdin_arg: Some(true),
    };
    assert_eq!(call.method_name(), "approve");
    let text = r#"{"spender":"0x0000000000000000000000000000000000000001","amount":"1000"}"#;
    assert_eq!(call.encode_for(&approve(), text.to_string()), encode_by_name(&approve(), text));
}

#[test]
fn abi_encode_from_description() {
    let call = Solidity::CallArgsByName {
        abi_path: "erc20.json".to_string(),
        method_name: "approve".to_string(),
        arg: Some(r#"{"spender":"0x0000000000000000000000000000000000000001","amount":"1000"}"#.to_string()),
        stdin_arg: None,
    };
    let bytes = call.abi_encode(ERC20_ABI, String::new()).unwrap();
    assert_eq!(bytes, encode_by_name(&approve(), r#"{"spender":"0x0000000000000000000000000000000000000001","amount":"1000"}"#).unwrap());

    let unary = Solidity::UnaryCall {
        abi_path: "erc20.json".to_string(),
        method_name: "burn".to_string(),
        arg: None,
        stdin_arg: Some(true),
    };
    assert!(unary.needs_stdin());
    let bytes = unary.abi_encode(ERC20_ABI, "5\n".to_string()).unwrap();
    assert_eq!(&bytes[..4], &[0x42, 0x96, 0x6c, 0x68]);
    assert_eq!(&bytes[4..], &word_of(5)[..]);

    let pair = Solidity::UnaryCall {
        abi_path: "erc20.json".to_string(),
        method_name: "transfer".to_string(),
        arg: Some("1".to_string()),
        stdin_arg: None,
    };
    assert_eq!(pair.abi_encode(ERC20_ABI, String::new()), Err(ParseError::ArgumentCount));

    let missing = Solidity::UnaryCall {
        abi_path: "erc20.json".to_string(),
        method_name: "mint".to_string(),
        arg: Some("1".to_string()),
        stdin_arg: None,
    };
    assert_eq!(missing.abi_encode(ERC20_ABI, String::new()), Err(ParseError::Lookup));

    let broken = Solidity::UnaryCall {
        abi_path: "erc20.json".to_string(),
        method_name: "burn".to_string(),
        arg: Some("1".to_string()),
        stdin_arg: None,
    };
    assert_eq!(broken.abi_encode("{not an abi", String::new()), Err(ParseError::Load));
}

#[test]
fn empty_argument_fails_for_non_trivial_types() {
    let f = AbiFunction { name: "burn".to_string(), inputs: vec![param("amount", AbiType::Address)] };
    assert_eq!(encode_unary(&f, ""), Err(ParseError::ValueParse));
}

#[test]
fn resolve_finds_the_declared_function() {
    let named = Solidity::CallArgsByName {
        abi_path: "erc20.json".to_string(),
        method_name: "approve".to_string(),
        arg: None,
        stdin_arg: Some(true),
    };
    let f = named.resolve(ERC20_ABI).unwrap();
    assert_eq!(f.name, "approve");
    assert_eq!(f.inputs.len(), 2);
    assert_eq!(f.inputs[0].name, "spender");
    assert_eq!(f.inputs[0].kind, AbiType::Address);
    assert_eq!(f.inputs[1].kind, AbiType::Uint(256));

    let pair = Solidity::UnaryCall {
        abi_path: "erc20.json".to_string(),
        method_name: "transfer".to_string(),
        arg: None,
        stdin_arg: Some(true),
    };
    assert_eq!(pair.resolve(ERC20_ABI).unwrap_err(), ParseError::ArgumentCount);

    let missing = Solidity::CallArgsByName {
        abi_path: "erc20.json".to_string(),
        method_name: "mint".to_string(),
        arg: None,
        stdin_arg: None,
    };
    assert_eq!(missing.resolve(ERC20_ABI).unwrap_err(), ParseError::Lookup);
    assert_eq!(missing.resolve("[{").unwrap_err(), ParseError::Load);
}
