//! The framed JSON-RPC wire protocol of a job-application assistant's
//! remote-AI client, together with the assistant's plain data model.

pub mod claude_client;
pub mod commands;
pub mod db_models;
pub mod extract;
pub mod fields;
pub mod frame;
pub mod json;
pub mod rpc;
pub mod mcp_client;
pub mod text;
