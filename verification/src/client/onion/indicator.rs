//! The anonymity level of the inbox fetch transport.

use vstd::prelude::*;

verus! {

/// Anonymity level of the current inbox fetch transport.
#[derive(Debug, Clone, Copy, PartialEq, Eq, Structural)]
pub enum AnonymityLevel {
    /// Level 0: direct fetch.
    Direct,
    /// Level 2: one-hop relay.
    Relay,
    /// Level 3: Tor transport.
    Tor,
}

impl AnonymityLevel {
    /// The level's number.
    pub fn level(&self) -> (n: u8)
        ensures
            n == (match *self {
                AnonymityLevel::Direct => 0u8,
                AnonymityLevel::Relay => 2u8,
                AnonymityLevel::Tor => 3u8,
            }),
    {
        match self {
            AnonymityLevel::Direct => 0,
            AnonymityLevel::Relay => 2,
            AnonymityLevel::Tor => 3,
        }
    }

    /// A sentence describing the level.
    pub fn description(&self) -> (s: &'static str)
        ensures
            s@ == (match *self {
                AnonymityLevel::Direct => "Direct fetch"@,
                AnonymityLevel::Relay => "Inbox fetch routed through relay"@,
                AnonymityLevel::Tor => "Inbox fetch routed through Tor"@,
            }),
    {
        match self {
            AnonymityLevel::Direct => "Direct fetch",
            AnonymityLevel::Relay => "Inbox fetch routed through relay",
            AnonymityLevel::Tor => "Inbox fetch routed through Tor",
        }
    }

    /// The level as displayed: `Level <n> (<name>)`.
    pub fn to_display_string(&self) -> (s: String)
        ensures
            s@ == (match *self {
                AnonymityLevel::Direct => "Level 0 (Direct)"@,
                AnonymityLevel::Relay => "Level 2 (Relay)"@,
                AnonymityLevel::Tor => "Level 3 (Tor)"@,
            }),
    {
        let s = match self {
            AnonymityLevel::Direct => "Level 0 (Direct)",
            AnonymityLevel::Relay => "Level 2 (Relay)",
            AnonymityLevel::Tor => "Level 3 (Tor)",
        };
        s.to_string()
    }
}

/// The level the transport pool offers: Tor when a Tor transport is ready,
/// else the relay when a relay circuit is ready, else direct.
pub fn compute_level(tor_ready_count: usize, relay_ready_count: usize) -> (l: AnonymityLevel)
    ensures
        l == (if tor_ready_count > 0 {
            AnonymityLevel::Tor
        } else if relay_ready_count > 0 {
            AnonymityLevel::Relay
        } else {
            AnonymityLevel::Direct
        }),
{
    if tor_ready_count > 0 {
        AnonymityLevel::Tor
    } else if relay_ready_count > 0 {
        AnonymityLevel::Relay
    } else {
        AnonymityLevel::Direct
    }
}

} // verus!
