//! Network isolation: allow rules, bridge parameters, proxy configuration.

pub mod params;
pub mod mitmproxy;
pub mod rule;
