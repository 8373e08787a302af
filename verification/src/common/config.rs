//! Service addresses, with the defaults used when nothing overrides them.

use vstd::prelude::*;

verus! {

broadcast use vstd::string::group_string_axioms;

/// Addresses of the services; loading them from files and the environment
/// happens outside the library.
#[derive(Debug, Clone)]
pub struct AppConfig {
    pub gateway_addr: String,
    pub signaling_addr: String,
    pub relay_addr: String,
    pub ws_addr: String,
    pub stun_addr: String,
    pub redis_url: String,
    pub nats_url: String,
}

pub fn default_gateway_addr() -> (s: String)
    ensures
        s@ == "0.0.0.0:9100"@,
{
    "0.0.0.0:9100".to_string()
}

pub fn default_signaling_addr() -> (s: String)
    ensures
        s@ == "0.0.0.0:9200"@,
{
    "0.0.0.0:9200".to_string()
}

pub fn default_relay_addr() -> (s: String)
    ensures
        s@ == "0.0.0.0:9300"@,
{
    "0.0.0.0:9300".to_string()
}

pub fn default_ws_addr() -> (s: String)
    ensures
        s@ == "0.0.0.0:9101"@,
{
    "0.0.0.0:9101".to_string()
}

pub fn default_stun_addr() -> (s: String)
    ensures
        s@ == "0.0.0.0:3478"@,
{
    "0.0.0.0:3478".to_string()
}

pub fn default_redis_url() -> (s: String)
    ensures
        s@ == "redis://127.0.0.1:6379"@,
{
    "redis://127.0.0.1:6379".to_string()
}

pub fn default_nats_url() -> (s: String)
    ensures
        s@ == "nats://127.0.0.1:4222"@,
{
    "nats://127.0.0.1:4222".to_string()
}

impl AppConfig {
    /// Whether every field holds its default value.
    pub open spec fn is_default(&self) -> bool {
        &&& self.gateway_addr@ == "0.0.0.0:9100"@
        &&& self.signaling_addr@ == "0.0.0.0:9200"@
        &&& self.relay_addr@ == "0.0.0.0:9300"@
        &&& self.ws_addr@ == "0.0.0.0:9101"@
        &&& self.stun_addr@ == "0.0.0.0:3478"@
        &&& self.redis_url@ == "redis://127.0.0.1:6379"@
        &&& self.nats_url@ == "nats://127.0.0.1:4222"@
    }
}

impl Default for AppConfig {
    fn default() -> (c: Self)
        ensures
            c.is_default(),
    {
        AppConfig {
            gateway_addr: default_gateway_addr(),
            signaling_addr: default_signaling_addr(),
            relay_addr: default_relay_addr(),
            ws_addr: default_ws_addr(),
            stun_addr: default_stun_addr(),
            redis_url: default_redis_url(),
            nats_url: default_nats_url(),
        }
    }
}

} // verus!
