//! Configuration of the anonymous transport.

use vstd::prelude::*;
use crate::client::onion::cover::PowerMode;

verus! {

/// Tor settings: whether Tor is used and the bridge lines configured.
#[derive(Debug, Clone)]
pub struct TorSettings {
    pub enabled: bool,
    pub bridge_lines: Vec<String>,
}

impl Default for TorSettings {
    /// Tor enabled, no bridges.
    fn default() -> (s: Self)
        ensures
            s.enabled,
            s.bridge_lines@.len() == 0,
    {
        TorSettings { enabled: true, bridge_lines: Vec::new() }
    }
}

/// Configuration of the anonymous transport service.
#[derive(Debug, Clone)]
pub struct AnonymousTransportConfig {
    pub power_mode: PowerMode,
    pub target_count: usize,
    pub tor: TorSettings,
}

impl Default for AnonymousTransportConfig {
    /// Desktop power mode, three warm relay circuits, default Tor settings.
    fn default() -> (c: Self)
        ensures
            c.power_mode == PowerMode::Desktop,
            c.target_count == 3,
            c.tor.enabled,
            c.tor.bridge_lines@.len() == 0,
    {
        AnonymousTransportConfig { power_mode: PowerMode::Desktop, target_count: 3, tor: TorSettings::default() }
    }
}

} // verus!
