//! A sans-I/O client for the Chrome DevTools Protocol.

pub mod browser;
pub mod cdp;
pub mod config;
pub mod decimal;
pub mod encoding;
pub mod error;
pub mod fetch;
pub mod json;
pub mod network;
pub mod page;
pub mod random;
pub mod session;
pub mod stealth;
pub mod text;
pub mod textmap;
pub mod unicode;

pub use browser::TabInfo;
pub use config::StealthConfig;
pub use error::Error;
pub use fetch::{BrowserFetchOutcome, BrowserFetchRequest, BrowserFetchResponse};
pub use network::{CapturedRequest, NetworkEvent, NetworkWatcher};
pub use session::{BrowserSession, BrowserState, SessionCookie};
