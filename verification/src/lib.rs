//! Conjure: the rules behind turning local scripts into typed MCP tools.
//!
//! The library holds the decisions of the tool platform: how tool and
//! parameter definitions are validated, how settings are cleaned, how an
//! input schema is generated, how call arguments become environment
//! variables, how process output is captured, and how MCP requests are
//! answered.  Storage, processes and the network live around it.
pub mod capture;
pub mod cli;
pub mod command;
pub mod default_tools;
pub mod domain;
pub mod encode;
pub mod error;
pub mod float;
pub mod json;
pub mod logs;
pub mod mcp;
pub mod paths;
pub mod pattern;
pub mod plan;
pub mod registry;
pub mod rules;
pub mod run;
pub mod schema;
pub mod schema_check;
pub mod settings;
pub mod store;
pub mod text;
pub mod tool;
