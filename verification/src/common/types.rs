//! Identifiers exchanged between peers and the protocol-wide constants.

use vstd::prelude::*;
use crate::common::byte_util::to_array;
use crate::common::text::{hex_short, spec_hex_short, string_push};
use crate::crypto::primitives::random_bytes;

verus! {

/// Ephemeral peer identity (32 bytes, the Ed25519 verifying key).
#[derive(Clone, Copy, Debug, Hash, PartialEq, Eq)]
pub struct PeerId(pub [u8; 32]);

impl PeerId {
    /// The id whose bytes are `b`, when `b` has exactly 32 bytes.
    pub fn from_bytes(b: &[u8]) -> (r: Option<Self>)
        ensures
            r is Some <==> b@.len() == 32,
            r matches Some(p) ==> p.0@ == b@,
    {
        if b.len() == 32 {
            Some(PeerId(to_array(b)))
        } else {
            None
        }
    }

    pub fn as_bytes(&self) -> (b: &[u8; 32])
        ensures
            b@ == self.0@,
    {
        &self.0
    }

    pub fn to_vec(&self) -> (v: Vec<u8>)
        ensures
            v@ == self.0@,
    {
        vstd::slice::slice_to_vec(self.0.as_slice())
    }

    /// The text used when a peer id is shown: its first four bytes in hex
    /// followed by `...`.
    pub fn to_display_string(&self) -> (s: String)
        ensures
            s@ == spec_hex_short(self.0@),
    {
        hex_short(self.0.as_slice())
    }
}

/// Share link identifier (random, URL-safe).
#[derive(Clone, Debug, Hash, PartialEq, Eq)]
pub struct LinkId(pub String);

impl LinkId {
    /// A fresh link id: 16 random bytes in lowercase unpadded base32.
    pub fn generate() -> (id: Self)
        ensures
            exists|b: Seq<u8>| b.len() == 16 && id.0@ == spec_base32(b),
            id.0@.len() == 26,
    {
        let bytes: [u8; 16] = random_bytes();
        let s = base32_encode(bytes.as_slice());
        proof { assert(s@.len() == (8 * 16 + 4) / 5); }
        LinkId(s)
    }

    pub fn as_str(&self) -> (s: &str)
        ensures
            s@ == self.0@,
    {
        self.0.as_str()
    }
}

/// Session identifier.
#[derive(Clone, Copy, Debug, Hash, PartialEq, Eq)]
pub struct SessionId(pub u64);

/// File identifier (random 16 bytes).
#[derive(Clone, Copy, Debug, Hash, PartialEq, Eq)]
pub struct FileId(pub [u8; 16]);

impl FileId {
    /// A fresh random file id.
    pub fn generate() -> (id: Self) {
        FileId(random_bytes())
    }

    /// The id whose bytes are `b`, when `b` has exactly 16 bytes.
    pub fn from_bytes(b: &[u8]) -> (r: Option<Self>)
        ensures
            r is Some <==> b@.len() == 16,
            r matches Some(f) ==> f.0@ == b@,
    {
        if b.len() == 16 {
            Some(FileId(to_array(b)))
        } else {
            None
        }
    }

    pub fn to_vec(&self) -> (v: Vec<u8>)
        ensures
            v@ == self.0@,
    {
        vstd::slice::slice_to_vec(self.0.as_slice())
    }
}

/// File metadata for transfer offers.
#[derive(Clone, Debug)]
pub struct FileMeta {
    pub file_id: FileId,
    pub name: String,
    pub size: u64,
    pub chunk_count: u32,
    pub hash: Vec<u8>,
    /// Whether chunks are zstd-compressed before encryption.
    pub compressed: bool,
}

/// Transfer chunk size (256 KB).
pub const CHUNK_SIZE: usize = 262144;

/// Default window size for flow control.
pub const DEFAULT_WINDOW_SIZE: usize = 16;

/// Heartbeat interval in seconds.
pub const HEARTBEAT_INTERVAL_SECS: u64 = 30;

/// Max missed heartbeats before disconnect.
pub const MAX_MISSED_HEARTBEATS: u32 = 3;

/// Per-session message rate limit (tokens per second).
pub const MSG_RATE_LIMIT_PER_SEC: u32 = 100;

/// Per-session message rate limit burst size.
pub const MSG_RATE_LIMIT_BURST: u32 = 200;

/// Domain-separation prefix signed together with the gateway's `server_nonce`
/// during SESSION_INIT proof-of-possession (`cypher-session-auth-v1`).
pub const SESSION_AUTH_CONTEXT: [u8; 22] = [
    99, 121, 112, 104, 101, 114, 45, 115, 101, 115, 115, 105, 111, 110, 45, 97, 117, 116, 104, 45,
    118, 49,
];

/// Bit `j` of `data` read most-significant bit first; zero past the end.
pub open spec fn spec_bit(data: Seq<u8>, j: int) -> int {
    if 0 <= j < 8 * data.len() {
        ((data[j / 8] >> ((7 - j % 8) as u8)) & 1u8) as int
    } else {
        0
    }
}

/// The five-bit group `k` of `data` (zero-padded at the end).
pub open spec fn spec_base32_group(data: Seq<u8>, k: int) -> int {
    16 * spec_bit(data, 5 * k) + 8 * spec_bit(data, 5 * k + 1) + 4 * spec_bit(data, 5 * k + 2) + 2
        * spec_bit(data, 5 * k + 3) + spec_bit(data, 5 * k + 4)
}

/// The character of the alphabet `abcdefghijklmnopqrstuvwxyz234567`.
pub open spec fn spec_base32_char(v: int) -> char {
    if v < 26 {
        (97 + v) as char
    } else {
        (24 + v) as char
    }
}

/// Lowercase base32 (RFC 4648 alphabet) without padding.
pub open spec fn spec_base32(data: Seq<u8>) -> Seq<char> {
    Seq::new(((8 * data.len() + 4) / 5) as nat, |k: int| spec_base32_char(spec_base32_group(data, k)))
}

fn bit_at(data: &[u8], j: u128) -> (b: u8)
    ensures
        b as int == spec_bit(data@, j as int),
        b <= 1,
{
    if j / 8 < data.len() as u128 {
        let byte = data[(j / 8) as usize];
        let sh = (7 - j % 8) as u8;
        let r = (byte >> sh) & 1u8;
        assert(r <= 1) by (bit_vector)
            requires r == (byte >> sh) & 1u8;
        r
    } else {
        0
    }
}

/// Lowercase base32 encoding without padding.
pub fn base32_encode(data: &[u8]) -> (s: String)
    ensures
        s@ == spec_base32(data@),
{
    let mut s = String::new();
    let total: u128 = (8 * (data.len() as u128) + 4) / 5;
    let mut k: u128 = 0;
    while k < total
        invariant
            total == (8 * data@.len() + 4) / 5,
            data@.len() <= usize::MAX,
            k <= total,
            s@.len() == k,
            forall|i: int| 0 <= i < k ==> s@[i] == spec_base32_char(spec_base32_group(data@, i)),
        decreases total - k,
    {
        let v: u8 = 16 * bit_at(data, 5 * k) + 8 * bit_at(data, 5 * k + 1) + 4 * bit_at(data, 5 * k
            + 2) + 2 * bit_at(data, 5 * k + 3) + bit_at(data, 5 * k + 4);
        let c = if v < 26 {
            (97u8 + v) as char
        } else {
            (24u8 + v) as char
        };
        string_push(&mut s, c);
        k = k + 1;
    }
    assert(s@ =~= spec_base32(data@));
    s
}

} // verus!
