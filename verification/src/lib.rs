//! The decision logic of an LLM gateway: runtime configuration, request
//! extraction, the Responses WebSocket bridge, edge dispatch and the checks on
//! server-sent event streams, each with a contract that Verus proves.

pub mod config;
pub mod edge;
pub mod extract;
pub mod fold;
pub mod gateway;
pub mod headers;
pub mod json;
pub mod laws;
pub mod reception;
pub mod responses_ws;
pub mod sse;
pub mod text;

