//! An agentic HTTP surface for a desktop application, with its routing, its
//! wire formats and its tool bridge verified.

pub mod client;
pub mod json;
pub mod laws;
pub mod mcp;
pub mod query;
pub mod registry;
pub mod serde_bridge;
pub mod server;
pub mod text;

pub use query::parse_query_string;
pub use registry::{assert_registry_routable, Action, ModuleRegistration, Param, ParamLocation};
pub use server::{AgenticCall, AgenticServer};
