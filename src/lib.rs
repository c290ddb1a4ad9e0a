//! Discovery-driven lifecycle management of MCP services.
//!
//! The library holds the decisions of the system: which configured launch
//! specification a discovered service gets, how its templates are resolved
//! (pausing to ask for missing values), and how the registry of live
//! connections evolves under add and cancel commands. The network, process
//! and actor plumbing around those decisions lives outside the library.
pub mod config;
pub mod discovery;
pub mod launch;
pub mod models;
pub mod registry;
pub mod template;

pub use config::{McpConfig, ServiceMcpMapping, ZeroConfig};
pub use discovery::{decide, Directive, DiscoveryEvent};
pub use launch::{LaunchAttempt, LaunchPlan, Progress, ResolveError};
pub use models::DiscoveredService;
pub use registry::{ActorState, Handled, ServiceActor, ServiceMessage};
pub use template::RenderContext;
