//! What the gateway tells a client about its anonymous transports, and the
//! signed inbox responses it serves.
//!
//! The protocol messages themselves are decoded by the protocol crate; this
//! module takes their fields as plain values (`TransportBootstrapInfo`,
//! `InboxMessages`) and whether a payload decoded as an inbox listing.

use vstd::prelude::*;
use vstd::bytes::{spec_u64_to_le_bytes, spec_u64_from_le_bytes, spec_u32_to_le_bytes, u64_from_le_bytes, u64_to_le_bytes, u32_to_le_bytes, lemma_auto_spec_u64_to_from_le_bytes};
use crate::common::byte_util::to_array;
use crate::common::error::{Result, protocol_error};
use crate::common::text::{spec_trim, trim};
use crate::crypto::primitives::{spec_ed25519_key_valid, spec_ed25519_verify, ed25519_key_is_valid, ed25519_verify};

verus! {

/// Capability bit: the gateway signs inbox responses.
pub const CAPABILITY_SIGNED_INBOX: u32 = 1;

/// Capability bit: the gateway offers a relay.
pub const CAPABILITY_RELAY: u32 = 2;

/// The transport bootstrap message's fields.
#[derive(Debug, Clone)]
pub struct TransportBootstrapInfo {
    pub relay_addr: String,
    pub relay_public_key: Vec<u8>,
    pub inbox_verifying_key: Vec<u8>,
    pub capabilities: u32,
}

/// A relay the client may route inbox fetches through.
#[derive(Debug, Clone)]
pub struct RelayBootstrap {
    pub addr: String,
    /// The relay's X25519 static public key.
    pub public_key: [u8; 32],
}

/// The transports a gateway offers.
#[derive(Debug, Clone)]
pub struct TransportBootstrap {
    pub relay: Option<RelayBootstrap>,
    /// Ed25519 key that signs inbox responses.
    pub inbox_verifying_key: [u8; 32],
    pub capabilities: u32,
}

/// Whether a capability bit is set.
pub open spec fn has_capability(capabilities: u32, bit: u32) -> bool {
    capabilities & bit != 0
}

/// When a bootstrap message is accepted: a valid 32-byte inbox key, and, if
/// a relay is offered, a non-blank address and a 32-byte relay key.
pub open spec fn spec_bootstrap_ok(info: TransportBootstrapInfo) -> bool {
    &&& info.inbox_verifying_key@.len() == 32
    &&& spec_ed25519_key_valid(info.inbox_verifying_key@)
    &&& has_capability(info.capabilities, CAPABILITY_RELAY) ==> spec_trim(info.relay_addr@).len() > 0
        && info.relay_public_key@.len() == 32
}

impl TransportBootstrap {
    /// Reads a bootstrap message. An inbox key that is not a 32-byte Ed25519
    /// point, or a relay capability without a non-blank address and 32-byte
    /// key, is a protocol error.
    pub fn from_proto(info: TransportBootstrapInfo) -> (r: Result<Self>)
        ensures
            r is Ok <==> spec_bootstrap_ok(info),
            r is Ok ==> ({
                let b = r->Ok_0;
                &&& b.inbox_verifying_key@ == info.inbox_verifying_key@
                &&& b.capabilities == info.capabilities
                &&& b.relay is Some <==> has_capability(info.capabilities, CAPABILITY_RELAY)
                &&& b.relay is Some ==> b.relay.unwrap().addr@ == info.relay_addr@
                    && b.relay.unwrap().public_key@ == info.relay_public_key@
            }),
            r is Err ==> r->Err_0 is Protocol,
    {
        if info.inbox_verifying_key.len() != 32 {
            return Err(protocol_error("invalid inbox verifying key length"));
        }
        let inbox_verifying_key: [u8; 32] = to_array(info.inbox_verifying_key.as_slice());
        if !ed25519_key_is_valid(&inbox_verifying_key) {
            return Err(protocol_error("invalid inbox verifying key"));
        }
        let relay = if info.capabilities & CAPABILITY_RELAY != 0 {
            let trimmed = trim(info.relay_addr.as_str());
            if trimmed.as_str().is_empty() {
                return Err(protocol_error("transport bootstrap missing relay_addr"));
            }
            if info.relay_public_key.len() != 32 {
                return Err(protocol_error("invalid relay public key length"));
            }
            let public_key: [u8; 32] = to_array(info.relay_public_key.as_slice());
            Some(RelayBootstrap { addr: info.relay_addr, public_key })
        } else {
            None
        };
        Ok(TransportBootstrap { relay, inbox_verifying_key, capabilities: info.capabilities })
    }

    /// Whether the gateway signs inbox responses.
    pub fn supports_signed_inbox(&self) -> (r: bool)
        ensures
            r == has_capability(self.capabilities, CAPABILITY_SIGNED_INBOX),
    {
        self.capabilities & CAPABILITY_SIGNED_INBOX != 0
    }
}

/// The fields of an inbox listing message.
#[derive(Debug, Clone)]
pub struct InboxMessages {
    pub messages: Vec<u8>,
    pub count: u32,
}

/// Length of the claim token trailer.
pub const CLAIM_TOKEN_LEN: usize = 40;

/// Length of the server signature trailer.
pub const SERVER_SIG_LEN: usize = 64;

/// Length of both trailers.
pub const TRAILER_LEN: usize = 104;

/// An inbox response: the protocol payload, and for a signed response the
/// claim token and the server's signature that trail it.
#[derive(Debug, Clone)]
pub struct SignedInboxResponse {
    pub proto_payload: Vec<u8>,
    pub claim_token: Option<Vec<u8>>,
    pub server_sig: Option<[u8; 64]>,
}

/// The bytes the server signs: messages, count (4 bytes LE), inbox id,
/// timestamp (8 bytes LE).
pub open spec fn spec_signed_inbox_bytes(messages: Seq<u8>, count: u32, inbox_id: Seq<u8>, timestamp: u64) -> Seq<u8> {
    messages + spec_u32_to_le_bytes(count) + inbox_id + spec_u64_to_le_bytes(timestamp)
}

impl SignedInboxResponse {
    /// Reads an inbox response. `payload_is_inbox` says whether the bytes
    /// before a 104-byte trailer decode as an inbox listing, `raw_is_inbox`
    /// whether the whole response does. A signed response (trailer after an
    /// inbox listing) is preferred; then a plain listing; anything else is a
    /// protocol error.
    pub fn parse(raw: &[u8], payload_is_inbox: bool, raw_is_inbox: bool) -> (r: Result<Self>)
        ensures
            raw@.len() > TRAILER_LEN && payload_is_inbox ==> r is Ok && ({
                let p = (raw@.len() - TRAILER_LEN) as int;
                &&& r->Ok_0.proto_payload@ == raw@.subrange(0, p)
                &&& r->Ok_0.claim_token is Some && r->Ok_0.claim_token.unwrap()@ == raw@.subrange(p, p + 40)
                &&& r->Ok_0.server_sig is Some && r->Ok_0.server_sig.unwrap()@ == raw@.subrange(
                    p + 40,
                    raw@.len() as int,
                )
            }),
            !(raw@.len() > TRAILER_LEN && payload_is_inbox) && raw_is_inbox ==> r is Ok
                && r->Ok_0.proto_payload@ == raw@ && r->Ok_0.claim_token is None && r->Ok_0.server_sig is None,
            !(raw@.len() > TRAILER_LEN && payload_is_inbox) && !raw_is_inbox ==> r is Err && r->Err_0 is Protocol,
    {
        if raw.len() > TRAILER_LEN && payload_is_inbox {
            let proto_len = raw.len() - TRAILER_LEN;
            let proto_payload = vstd::slice::slice_to_vec(vstd::slice::slice_subrange(raw, 0, proto_len));
            let claim_token = vstd::slice::slice_to_vec(
                vstd::slice::slice_subrange(raw, proto_len, proto_len + CLAIM_TOKEN_LEN),
            );
            let server_sig: [u8; 64] = to_array(vstd::slice::slice_subrange(raw, proto_len + CLAIM_TOKEN_LEN, raw.len()));
            return Ok(SignedInboxResponse { proto_payload, claim_token: Some(claim_token), server_sig: Some(server_sig) });
        }
        if raw_is_inbox {
            return Ok(SignedInboxResponse { proto_payload: vstd::slice::slice_to_vec(raw), claim_token: None, server_sig: None });
        }
        Err(protocol_error("invalid inbox response payload"))
    }

    /// Checks a signed response's signature. An unsigned response passes. A
    /// claim token without signature, a malformed claim token, a payload
    /// that is not an inbox listing (`inbox` is its decoding, if it decoded
    /// as one) or a signature that does not verify is a protocol error. The
    /// signature covers the listing, the inbox id and the token's timestamp.
    pub fn verify(&self, verifying_key: &[u8; 32], inbox_id: &[u8], inbox: Option<&InboxMessages>) -> (r: Result<()>)
        ensures
            self.claim_token is None ==> r is Ok,
            self.claim_token is Some ==> (r is Ok <==> ({
                &&& self.server_sig is Some
                &&& self.claim_token.unwrap()@.len() == CLAIM_TOKEN_LEN
                &&& inbox is Some
                &&& spec_ed25519_verify(
                    verifying_key@,
                    spec_signed_inbox_bytes(
                        inbox.unwrap().messages@,
                        inbox.unwrap().count,
                        inbox_id@,
                        spec_u64_from_le_bytes(self.claim_token.unwrap()@.subrange(0, 8)),
                    ),
                    self.server_sig.unwrap()@,
                )
            })),
            r is Err ==> r->Err_0 is Protocol,
    {
        let claim_token = match &self.claim_token {
            None => {
                return Ok(());
            },
            Some(t) => t,
        };
        let server_sig = match &self.server_sig {
            None => {
                return Err(protocol_error("missing inbox response signature"));
            },
            Some(s) => s,
        };
        let timestamp = claim_token_timestamp(claim_token.as_slice())?;
        let inbox = match inbox {
            None => {
                return Err(protocol_error("signed inbox response did not contain InboxMessages"));
            },
            Some(i) => i,
        };
        let mut signed: Vec<u8> = Vec::new();
        signed.extend_from_slice(inbox.messages.as_slice());
        let count_le = u32_to_le_bytes(inbox.count);
        signed.extend_from_slice(count_le.as_slice());
        signed.extend_from_slice(inbox_id);
        let ts_le = u64_to_le_bytes(timestamp);
        signed.extend_from_slice(ts_le.as_slice());
        proof {
            assert(signed@ =~= spec_signed_inbox_bytes(inbox.messages@, inbox.count, inbox_id@, timestamp));
        }
        if ed25519_verify(verifying_key, signed.as_slice(), server_sig) {
            Ok(())
        } else {
            Err(protocol_error("invalid inbox response signature"))
        }
    }
}

/// The timestamp of a claim token: its first 8 bytes, little-endian. A
/// token that is not 40 bytes long is a protocol error.
pub fn claim_token_timestamp(token: &[u8]) -> (r: Result<u64>)
    ensures
        r is Ok <==> token@.len() == CLAIM_TOKEN_LEN,
        r is Ok ==> r->Ok_0 == spec_u64_from_le_bytes(token@.subrange(0, 8)),
        r is Err ==> r->Err_0 is Protocol,
        forall|ts: u64, rest: Seq<u8>|
            #![trigger spec_u64_to_le_bytes(ts) + rest]
            rest.len() == 32 && token@ == spec_u64_to_le_bytes(ts) + rest ==> r is Ok && r->Ok_0 == ts,
{
    proof {
        lemma_auto_spec_u64_to_from_le_bytes();
        assert forall|ts: u64, rest: Seq<u8>|
            rest.len() == 32 && token@ == #[trigger] (spec_u64_to_le_bytes(ts) + rest) implies token@.len()
            == CLAIM_TOKEN_LEN && token@.subrange(0, 8) == spec_u64_to_le_bytes(ts) by {
            assert(token@.subrange(0, 8) =~= spec_u64_to_le_bytes(ts));
        }
    }
    if token.len() != CLAIM_TOKEN_LEN {
        return Err(protocol_error("invalid claim token length"));
    }
    Ok(u64_from_le_bytes(vstd::slice::slice_subrange(token, 0, 8)))
}

} // verus!
