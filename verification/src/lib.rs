//! A verified core for a binary MCP (Model Context Protocol) stack: framing,
//! authentication, encryption, caching, shared-memory transfer and the
//! request handling of both ends of a connection.

pub mod buffer;
pub mod codec;
pub mod hex;
pub mod text;
pub mod error;
pub mod json;
pub mod frame;
pub mod acl;
pub mod auth;
pub mod compress;
pub mod crypto;
pub mod cache;
pub mod pipeline;
pub mod shm;
pub mod rpc;
pub mod message;
pub mod tools;
pub mod builtin;
pub mod ringframe;
pub mod softbus;
pub mod transport;
pub mod session;
pub mod client;
pub mod baseline;
pub mod server;
