//! The ZAP protocol: the binary wire format, the JSON texts a client sends,
//! and the bookkeeping of a client session, with their contracts.
pub mod client;
pub mod codes;
pub mod handlers;
pub mod ident;
pub mod json;
pub mod messages;
pub mod pending;
pub mod protocol;
pub mod session;
pub mod wire;
pub mod text;
