//! A small HTTP request router that dispatches requests to plugins mounted
//! under URL prefixes.
//!
//! The registry keeps the plugins by name together with a routing index from
//! mount prefix to name; the dispatcher validates the correlation header,
//! finds the plugin whose prefix leads the request path, rewrites the path and
//! stamps the answer.

pub mod handler;
pub mod http;
pub mod loader;
pub mod plugin;
pub mod registry;
pub mod routes;
pub mod table;
pub mod text;
pub mod wire;

pub use handler::Handler;
pub use http::{Method, Request, Response};
pub use loader::{Capability, DynLoader, LoadError, Loader, Opened, RequestHandler};
pub use plugin::Plugin;
pub use registry::PluginRegistry;
