//! Task, project and scheduling logic of OpenMgmt with machine-checked contracts.

pub mod agent;
pub mod api_keys;
pub mod ai;
pub mod local_ai;
pub mod mcp;
pub mod mcp_tools;
pub mod board;
pub mod bridge;
pub mod bridge_requests;
pub mod crypto;
pub mod domain;
pub mod error;
pub mod json;
pub mod models;
pub mod prompts;
pub mod protocol;
pub mod review;
pub mod scheduling;
pub mod scoring;
pub mod server;
pub mod sync;
pub mod sync_client;
pub mod text;
pub mod time;
