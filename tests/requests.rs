use abi_args::eth_method::{to_prefixed_hex, EthCall, EthMethod, RpcParam};

fn text(s: &str) -> RpcParam {
    RpcParam::Text(s.to_string())
}

#[test]
fn method_names() {
    assert_eq!(EthMethod::GetChainId.name(), "net_version");
    assert_eq!(EthMethod::GetTransactionCount([0; 20]).name(), "eth_getTransactionCount");
    assert_eq!(EthMethod::GetTransactionReceipt([0; 32]).name(), "eth_getTransactionReceipt");
    assert_eq!(EthMethod::DebugTraceTransaction([0; 32]).name(), "debug_traceTransaction");
    assert_eq!(EthMethod::SendRawTransaction(vec![]).name(), "eth_sendRawTransaction");
    let call = EthCall { from: None, to: None, data: None };
    assert_eq!(EthMethod::Call(call).name(), "eth_call");
}

#[test]
fn prefixed_hex_is_lower_case() {
    assert_eq!(to_prefixed_hex(&[0xAB, 0x01]), "0xab01");
    assert_eq!(to_prefixed_hex(&[]), "0x");
}

#[test]
fn params_of_simple_requests() {
    assert!(EthMethod::GetChainId.create_params().is_empty());
    let mut addr = [0u8; 20];
    addr[0] = 0x12;
    addr[19] = 0xff;
    assert_eq!(
        EthMethod::GetTransactionCount(addr).create_params(),
        vec![text("0x12000000000000000000000000000000000000ff")]
    );
    let hash = [0x0au8; 32];
    let expected = format!("0x{}", "0a".repeat(32));
    assert_eq!(EthMethod::GetTransactionReceipt(hash).create_params(), vec![text(&expected)]);
    assert_eq!(EthMethod::DebugTraceTransaction(hash).create_params(), vec![text(&expected)]);
    assert_eq!(
        EthMethod::SendRawTransaction(vec![0xf8, 0x6b]).create_params(),
        vec![text("0xf86b")]
    );
}

#[test]
fn call_object_has_given_fields_only() {
    let call = EthCall { from: None, to: Some([0x11; 20]), data: Some(vec![0xde, 0xad]) };
    assert_eq!(
        call.to_json(),
        RpcParam::Object(vec![
            ("to".to_string(), format!("0x{}", "11".repeat(20))),
            ("data".to_string(), "0xdead".to_string()),
        ])
    );
    let empty = EthCall { from: None, to: None, data: None };
    assert_eq!(EthMethod::Call(empty).create_params(), vec![RpcParam::Object(vec![])]);
    let full = EthCall { from: Some([0; 20]), to: None, data: None };
    assert_eq!(
        full.to_json(),
        RpcParam::Object(vec![("from".to_string(), format!("0x{}", "00".repeat(20)))])
    );
}
