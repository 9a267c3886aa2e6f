//! Plugin manifests, permissions, environments and the decisions of the
//! jilebi MCP runtime, with their contracts.
pub mod text;
pub mod origin;
pub mod toml_doc;
pub mod permissions;
pub mod manifest;
pub mod env;
pub mod keyed;
pub mod mcp;
pub mod context;
pub mod plugin;
pub mod store;
pub mod cli;
