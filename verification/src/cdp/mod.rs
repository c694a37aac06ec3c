//! A minimal client for the Chrome DevTools Protocol.
//!
//! - Blocks detectable commands such as `Runtime.enable`, unless told otherwise.
//! - Flags risky commands such as `Emulation.setUserAgentOverride`.

pub mod command;
pub mod connection;
pub mod discover;
pub mod http;
pub mod launch;
pub mod pending;
pub mod transport;
pub mod types;

pub use connection::{Connection, Session};
pub use discover::{auto_connect, discover_browser_ws, discover_pages, PageTarget};
pub use transport::Transport;
