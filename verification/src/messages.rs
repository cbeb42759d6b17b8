//! The shapes of the JSON payloads that ZAP peers exchange.
use std::collections::HashMap;
use vstd::prelude::*;

verus! {

/// A request: its identifier, its method and its parameters.
#[derive(Clone, Debug)]
pub struct ZapRequest {
    pub id: String,
    pub method: String,
    pub params: Option<serde_json::Value>,
}

/// A response: the identifier of the request it answers, and a result or
/// an error.
#[derive(Clone, Debug)]
pub struct ZapResponse {
    pub id: String,
    pub result: Option<serde_json::Value>,
    pub error: Option<ZapErrorData>,
}

/// The error of a response.
#[derive(Clone, Debug)]
pub struct ZapErrorData {
    pub code: i32,
    pub message: String,
    pub data: Option<serde_json::Value>,
}

/// The handshake a client sends to open a session.
#[derive(Clone, Debug)]
pub struct Handshake {
    pub version: String,
    pub client_type: u8,
    pub client_id: String,
    pub capabilities: Vec<String>,
    pub metadata: Option<HashMap<String, String>>,
}

/// The server's answer to a handshake.
#[derive(Clone, Debug)]
pub struct HandshakeResponse {
    pub accepted: bool,
    pub client_id: String,
    pub server_version: String,
    pub capabilities: Vec<String>,
    pub error: Option<String>,
}

/// A tool that a server offers.
#[derive(Clone, Debug)]
pub struct Tool {
    pub name: String,
    pub description: Option<String>,
    pub schema: Option<serde_json::Value>,
}

/// What a tool call gives back.
#[derive(Clone, Debug)]
pub struct ToolResult {
    pub content: Vec<ContentItem>,
    pub is_error: Option<bool>,
}

/// One item of a tool's output.
#[derive(Clone, Debug)]
pub struct ContentItem {
    pub content_type: String,
    pub text: Option<String>,
    pub data: Option<String>,
    pub mime_type: Option<String>,
}

} // verus!
