//! Turns argument text into contract call data, guided by a function's
//! declared parameter types.
pub mod abi;
pub mod call;
pub mod eth_method;
pub mod laws;
pub mod external;
pub mod parse;
