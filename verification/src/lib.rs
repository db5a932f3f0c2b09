//! The logic of a set of Reticulum command line tools: a git transport with its
//! server and remote helper, a remote shell, a path and identity utility, a
//! throughput test, a page server, an announce monitor and a tool server.
//!
//! Everything here works on plain values. Reading files, running processes and
//! moving packets is left to the programs that use the library.

pub mod address;
pub mod args;
pub mod byte_map;
pub mod bytes;
pub mod client;
pub mod codec;
pub mod config;
pub mod config_laws;
pub mod digits;
pub mod fields;
pub mod git_cli;
pub mod git_client_laws;
pub mod git_laws;
pub mod git_remote;
pub mod gitutil;
pub mod hash;
pub mod identity_files;
pub mod identity_laws;
pub mod identity_store;
pub mod identity_tool;
pub mod json;
pub mod keys;
pub mod link;
pub mod mcp;
pub mod mcp_laws;
pub mod mcp_tools;
pub mod msgpack;
pub mod option_laws;
pub mod page;
pub mod path_laws;
pub mod path_tool;
pub mod perf;
pub mod perf_laws;
pub mod perms;
pub mod pieces;
pub mod rngit_config;
pub mod rpc;
pub mod rsg;
pub mod server;
pub mod server_laws;
pub mod service_laws;
pub mod shell;
pub mod shell_laws;
pub mod shell_session;
pub mod sniff;
pub mod text;
pub mod text_laws;
pub mod text_map;
pub mod transfer;
