//! Method names and parameter lists of the node requests this tool sends.
use crate::external::{hex_encode, hex_text};
use vstd::prelude::*;

verus! {

/// A request to a node. Addresses are twenty bytes, hashes thirty-two, and
/// a raw transaction is given by its encoded bytes.
pub enum EthMethod {
    GetChainId,
    GetTransactionCount([u8; 20]),
    GetTransactionReceipt([u8; 32]),
    DebugTraceTransaction([u8; 32]),
    SendRawTransaction(Vec<u8>),
    Call(EthCall),
}

/// The arguments of a read-only call.
pub struct EthCall {
    pub from: Option<[u8; 20]>,
    pub to: Option<[u8; 20]>,
    pub data: Option<Vec<u8>>,
}

/// One request parameter: a JSON string, or a JSON object whose values are
/// all strings, its fields in insertion order.
#[derive(Debug, PartialEq, Eq)]
pub enum RpcParam {
    Text(String),
    Object(Vec<(String, String)>),
}

/// `0x` followed by the bytes in hex.
pub open spec fn prefixed_hex(b: Seq<u8>) -> Seq<char> {
    seq!['0', 'x'] + hex_text(b)
}

/// Writes bytes as `0x`-prefixed lower-case hex.
pub fn to_prefixed_hex(b: &[u8]) -> (r: String)
    ensures
        r@ == prefixed_hex(b@),
{
    proof {
        reveal_strlit("0x");
        assert("0x"@ =~= seq!['0', 'x']);
    }
    let mut out = "0x".to_owned();
    let digits = hex_encode(b);
    out.append(digits.as_str());
    out
}

/// The node method that each request calls.
pub open spec fn method_name(m: EthMethod) -> Seq<char> {
    match m {
        EthMethod::GetChainId => "net_version"@,
        EthMethod::GetTransactionCount(_) => "eth_getTransactionCount"@,
        EthMethod::GetTransactionReceipt(_) => "eth_getTransactionReceipt"@,
        EthMethod::DebugTraceTransaction(_) => "debug_traceTransaction"@,
        EthMethod::SendRawTransaction(_) => "eth_sendRawTransaction"@,
        EthMethod::Call(_) => "eth_call"@,
    }
}

/// Whether `fields` are those of the JSON object for call `c`: `from`, `to`
/// and `data`, each where it is given, in that order.
pub open spec fn call_fields(c: EthCall, fields: Seq<(Seq<char>, Seq<char>)>) -> bool {
    let from: Seq<(Seq<char>, Seq<char>)> = match c.from {
        Some(a) => seq![("from"@, prefixed_hex(a@))],
        None => seq![],
    };
    let to: Seq<(Seq<char>, Seq<char>)> = match c.to {
        Some(a) => seq![("to"@, prefixed_hex(a@))],
        None => seq![],
    };
    let data: Seq<(Seq<char>, Seq<char>)> = match c.data {
        Some(d) => seq![("data"@, prefixed_hex(d@))],
        None => seq![],
    };
    fields == from + to + data
}

/// The views of string pairs.
pub open spec fn pair_views(v: Seq<(String, String)>) -> Seq<(Seq<char>, Seq<char>)> {
    v.map_values(|p: (String, String)| (p.0@, p.1@))
}

/// Whether `p` is a JSON string with text `t`.
pub open spec fn is_text(p: RpcParam, t: Seq<char>) -> bool {
    p is Text && p->Text_0@ == t
}

impl EthMethod {
    pub fn name(&self) -> (r: &'static str)
        ensures
            r@ == method_name(*self),
    {
        match self {
            EthMethod::GetChainId => "net_version",
            EthMethod::GetTransactionCount(_) => "eth_getTransactionCount",
            EthMethod::GetTransactionReceipt(_) => "eth_getTransactionReceipt",
            EthMethod::DebugTraceTransaction(_) => "debug_traceTransaction",
            EthMethod::SendRawTransaction(_) => "eth_sendRawTransaction",
            EthMethod::Call(_) => "eth_call",
        }
    }

    /// The parameter list of the request.
    pub fn create_params(&self) -> (r: Vec<RpcParam>)
        ensures
            match *self {
                EthMethod::GetChainId => r.len() == 0,
                EthMethod::GetTransactionCount(a) => r.len() == 1 && is_text(r[0], prefixed_hex(a@)),
                EthMethod::GetTransactionReceipt(h) => r.len() == 1 && is_text(
                    r[0],
                    prefixed_hex(h@),
                ),
                EthMethod::DebugTraceTransaction(h) => r.len() == 1 && is_text(
                    r[0],
                    prefixed_hex(h@),
                ),
                EthMethod::SendRawTransaction(tx) => r.len() == 1 && is_text(
                    r[0],
                    prefixed_hex(tx@),
                ),
                EthMethod::Call(c) => r.len() == 1 && r[0] is Object && call_fields(
                    c,
                    pair_views(r[0]->Object_0@),
                ),
            },
    {
        match self {
            EthMethod::GetChainId => Vec::new(),
            EthMethod::GetTransactionCount(a) => vec![RpcParam::Text(to_prefixed_hex(a))],
            EthMethod::GetTransactionReceipt(h) => vec![RpcParam::Text(to_prefixed_hex(h))],
            EthMethod::DebugTraceTransaction(h) => vec![RpcParam::Text(to_prefixed_hex(h))],
            EthMethod::SendRawTransaction(tx) => vec![RpcParam::Text(to_prefixed_hex(tx.as_slice()))],
            EthMethod::Call(c) => vec![c.to_json()],
        }
    }
}

impl EthCall {
    /// The call as a JSON object of `0x`-prefixed hex strings.
    pub fn to_json(&self) -> (r: RpcParam)
        ensures
            r is Object && call_fields(*self, pair_views(r->Object_0@)),
    {
        proof {
            reveal_strlit("from");
            reveal_strlit("to");
            reveal_strlit("data");
        }
        let ghost from_part: Seq<(Seq<char>, Seq<char>)> = match self.from {
            Some(a) => seq![("from"@, prefixed_hex(a@))],
            None => seq![],
        };
        let ghost to_part: Seq<(Seq<char>, Seq<char>)> = match self.to {
            Some(a) => seq![("to"@, prefixed_hex(a@))],
            None => seq![],
        };
        let ghost data_part: Seq<(Seq<char>, Seq<char>)> = if self.data is Some {
            seq![("data"@, prefixed_hex(self.data->Some_0@))]
        } else {
            seq![]
        };
        let mut obj: Vec<(String, String)> = Vec::new();
        if let Some(addr) = &self.from {
            obj.push(("from".to_owned(), to_prefixed_hex(addr)));
        }
        assert(pair_views(obj@) =~= from_part);
        if let Some(addr) = &self.to {
            obj.push(("to".to_owned(), to_prefixed_hex(addr)));
        }
        assert(pair_views(obj@) =~= from_part + to_part);
        if let Some(data) = &self.data {
            obj.push(("data".to_owned(), to_prefixed_hex(data.as_slice())));
        }
        assert(pair_views(obj@) =~= from_part + to_part + data_part);
        RpcParam::Object(obj)
    }
}

} // verus!
