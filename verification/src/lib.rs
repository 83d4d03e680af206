//! Verified core of an MCP server for S2 durable streams: the access policy,
//! the operation catalog, the Code Mode TypeScript API generator and search
//! index, the bounded output envelopes, and the request validation rules.

pub mod api;
pub mod catalog;
pub mod codemode;
pub mod config;
pub mod dispatch;
pub mod envelope;
pub mod errors;
pub mod json;
pub mod launch;
pub mod ledger;
pub mod metrics;
pub mod pointer;
pub mod policy;
pub mod records;
pub mod resources;
pub mod schema;
pub mod search;
pub mod surface;
pub mod terms;
pub mod text;
pub mod toolset;
pub mod typescript;
pub mod worker;
