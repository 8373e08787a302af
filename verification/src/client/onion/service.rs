//! The anonymous transport service: the gateway's bootstrap, the current
//! configuration and the pool of warm circuits, with the decisions made on
//! them. Warming circuits, cover traffic and fetches are the caller's tasks.

use vstd::prelude::*;
use crate::common::error::{Result, protocol_error};
use crate::client::onion::bootstrap::{TransportBootstrap, has_capability, CAPABILITY_SIGNED_INBOX};
use crate::client::onion::config::AnonymousTransportConfig;
use crate::client::onion::indicator::{AnonymityLevel, compute_level};
use crate::client::onion::pool::TransportPool;

verus! {

/// The anonymous transport of one gateway connection.
pub struct AnonymousTransportService<T> {
    pub config: AnonymousTransportConfig,
    pub bootstrap: TransportBootstrap,
    pub pool: TransportPool<T>,
}

impl<T> AnonymousTransportService<T> {
    /// A service over a gateway's transport bootstrap, which must offer
    /// signed inbox responses (a protocol error otherwise). Its pool starts
    /// empty, warms circuits over the relay when the bootstrap offers one,
    /// and aims at the configured number of circuits, at least one.
    pub fn new(bootstrap: TransportBootstrap, config: AnonymousTransportConfig) -> (r: Result<Self>)
        ensures
            r is Ok <==> has_capability(bootstrap.capabilities, CAPABILITY_SIGNED_INBOX),
            r is Err ==> r->Err_0 is Protocol,
            r matches Ok(s) ==> ({
                &&& s.bootstrap == bootstrap
                &&& s.config == config
                &&& s.pool.circuits@.len() == 0
                &&& s.pool.has_relay == (bootstrap.relay is Some)
                &&& s.pool.target_count == (if config.target_count < 1 { 1 } else { config.target_count })
            }),
    {
        if !bootstrap.supports_signed_inbox() {
            return Err(protocol_error("transport bootstrap missing signed inbox capability"));
        }
        let has_relay = bootstrap.relay.is_some();
        let pool = TransportPool::new(has_relay).with_target_count(config.target_count);
        Ok(AnonymousTransportService { config, bootstrap, pool })
    }

    /// Replaces the configuration; cover traffic restarts under it.
    pub fn set_config(&mut self, config: AnonymousTransportConfig)
        ensures
            final(self).config == config,
            final(self).bootstrap == old(self).bootstrap,
            final(self).pool == old(self).pool,
    {
        self.config = config;
    }

    /// The anonymity level offered now, given how many Tor transports are
    /// ready: see `compute_level`.
    pub fn level(&self, tor_ready_count: usize) -> (l: AnonymityLevel)
        ensures
            l == (if tor_ready_count > 0 {
                AnonymityLevel::Tor
            } else if self.pool.circuits@.len() > 0 {
                AnonymityLevel::Relay
            } else {
                AnonymityLevel::Direct
            }),
    {
        compute_level(tor_ready_count, self.pool.relay_ready_count())
    }
}

} // verus!
