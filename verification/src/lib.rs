//! Retrieval-augmented-generation service core: the rules behind ingesting,
//! chunking, querying and storing documents, and the request translation of
//! the REST, legacy and MCP front ends.

pub mod text;
pub mod chunking;
pub mod domain;
pub mod query;
pub mod identity;
pub mod ingest;
pub mod extract;
pub mod storage;
pub mod http;
pub mod legacy;
pub mod mcp;
pub mod providers;
pub mod config;
