//! A verified core for an Odoo command-line connector and MCP server.
pub mod text;
pub mod json;
pub mod client;
pub mod sources;
pub mod mcp;
pub mod paging;
pub mod config;
pub mod cli;
