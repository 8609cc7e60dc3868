//! The verified core of a minimal MCP client that talks to a server process over
//! newline-delimited JSON-RPC.

pub mod base64;
pub mod client;
pub mod command;
pub mod content;
pub mod error;
pub mod json;
pub mod lifecycle;
pub mod pending;
pub mod report;
pub mod response;
pub mod rpc;
pub mod text;
pub mod tools;

pub use client::McpStdioClient;
pub use content::{ContentBlock, ToolResult};
pub use error::{Fault, McpError};
pub use json::Json;
pub use tools::ToolDef;
