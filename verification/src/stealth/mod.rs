//! Looking like an ordinary browser.

pub mod evasions;
pub mod fingerprint;
pub mod places;
