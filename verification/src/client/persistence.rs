//! Client-side persistence: the records kept for each conversation, the
//! framing of stored ratchet-state blobs, and the at-rest encryption they are
//! stored under (messages over 64 bytes are compressed before encryption).

use vstd::prelude::*;
use crate::common::error::{Result, crypto_error};
use crate::crypto::primitives::{zstd_compress, zstd_decompress, spec_zstd_compress, spec_zstd_decompress};
use crate::client::persistence::encryption::{
    ZSTD_LEVEL, NONCE_LEN, no_aad, spec_prepared, spec_sealed_record, decrypt_and_decompress,
};
use crate::crypto::primitives::{spec_aes_gcm_open, AES_GCM_P_MAX};

pub mod encryption;

verus! {

/// Direction of a stored message.
#[derive(Debug, Clone, Copy, PartialEq, Eq, Structural)]
pub enum Direction {
    Sent,
    Received,
}

impl Direction {
    /// The code stored for a direction: 0 sent, 1 received.
    pub fn code(&self) -> (c: u8)
        ensures
            c == (if *self == Direction::Sent { 0u8 } else { 1u8 }),
    {
        match self {
            Direction::Sent => 0,
            Direction::Received => 1,
        }
    }

    /// The direction a stored code reads as: 0 is sent, anything else received.
    pub fn from_code(c: u8) -> (d: Direction)
        ensures
            d == (if c == 0 { Direction::Sent } else { Direction::Received }),
    {
        if c == 0 { Direction::Sent } else { Direction::Received }
    }
}

/// A message retrieved from persistent storage.
#[derive(Debug, Clone)]
pub struct StoredMessage {
    pub id: u64,
    pub peer_id: Vec<u8>,
    pub direction: Direction,
    pub plaintext: Vec<u8>,
    pub timestamp: u64,
}

/// Summary of a conversation for the conversation list.
#[derive(Debug, Clone)]
pub struct Conversation {
    pub peer_id: Vec<u8>,
    pub nickname: Option<String>,
    pub created_at: u64,
    pub last_message_at: u64,
    /// Peer's blind inbox id for offline delivery.
    pub inbox_id: Option<Vec<u8>>,
}

/// Serialised ratchet states of at least this many bytes are compressed.
pub const RATCHET_BLOB_COMPRESS_MIN: usize = 1024;

/// Prefix of a blob stored raw.
pub const RATCHET_BLOB_RAW: u8 = 0x00;

/// Prefix of a blob stored zstd-compressed.
pub const RATCHET_BLOB_ZSTD: u8 = 0x01;

/// The blob stored for a serialised ratchet state.
pub open spec fn spec_ratchet_blob(serialized: Seq<u8>) -> Seq<u8> {
    if serialized.len() >= RATCHET_BLOB_COMPRESS_MIN {
        seq![RATCHET_BLOB_ZSTD] + spec_zstd_compress(serialized, ZSTD_LEVEL as int)
    } else {
        seq![RATCHET_BLOB_RAW] + serialized
    }
}

/// Frames a serialised ratchet state for storage: a prefix byte, then the
/// state raw (under 1 KiB) or zstd-compressed.
pub fn encode_ratchet_blob(serialized: &[u8]) -> (r: Result<Vec<u8>>)
    ensures
        r is Ok,
        r->Ok_0@ == spec_ratchet_blob(serialized@),
{
    let mut buf: Vec<u8> = Vec::new();
    if serialized.len() >= RATCHET_BLOB_COMPRESS_MIN {
        buf.push(RATCHET_BLOB_ZSTD);
        match zstd_compress(serialized, ZSTD_LEVEL) {
            Some(c) => buf.extend_from_slice(c.as_slice()),
            None => {
                return Err(crypto_error("zstd compress ratchet"));
            },
        }
    } else {
        buf.push(RATCHET_BLOB_RAW);
        buf.extend_from_slice(serialized);
    }
    proof {
        assert(buf@ =~= spec_ratchet_blob(serialized@));
    }
    Ok(buf)
}

/// Reads a stored ratchet blob back: prefix 0 is raw, prefix 1 is zstd; any
/// other first byte is the older format, zstd without a prefix. An empty
/// blob, or one that does not decompress, is a crypto error. What
/// `encode_ratchet_blob` stored reads back unchanged.
pub fn decode_ratchet_blob(payload: &[u8]) -> (r: Result<Vec<u8>>)
    ensures
        payload@.len() == 0 ==> r is Err,
        payload@.len() > 0 && payload@[0] == RATCHET_BLOB_RAW ==> r is Ok && r->Ok_0@ == payload@.subrange(
            1,
            payload@.len() as int,
        ),
        payload@.len() > 0 && payload@[0] == RATCHET_BLOB_ZSTD ==> (r is Ok <==> spec_zstd_decompress(
            payload@.subrange(1, payload@.len() as int),
        ) is Some),
        payload@.len() > 0 && payload@[0] != RATCHET_BLOB_RAW && payload@[0] != RATCHET_BLOB_ZSTD ==> (r is Ok
            <==> spec_zstd_decompress(payload@) is Some),
        payload@.len() > 0 && payload@[0] == RATCHET_BLOB_ZSTD && r is Ok ==> spec_zstd_decompress(
            payload@.subrange(1, payload@.len() as int),
        ) == Some(r->Ok_0@),
        payload@.len() > 0 && payload@[0] != RATCHET_BLOB_RAW && payload@[0] != RATCHET_BLOB_ZSTD && r is Ok
            ==> spec_zstd_decompress(payload@) == Some(r->Ok_0@),
        r is Err ==> r->Err_0 is Crypto,
        forall|s: Seq<u8>|
            #![trigger spec_ratchet_blob(s)]
            payload@ == spec_ratchet_blob(s) ==> r is Ok && r->Ok_0@ == s,
{
    if payload.len() == 0 {
        return Err(crypto_error("empty ratchet state blob"));
    }
    let rest = vstd::slice::slice_subrange(payload, 1, payload.len());
    proof {
        assert forall|s: Seq<u8>| payload@ == #[trigger] spec_ratchet_blob(s) implies rest@ == spec_ratchet_blob(
            s,
        ).subrange(1, spec_ratchet_blob(s).len() as int) by {}
        assert forall|s: Seq<u8>| s.len() < RATCHET_BLOB_COMPRESS_MIN implies (#[trigger] spec_ratchet_blob(
            s,
        )).subrange(1, spec_ratchet_blob(s).len() as int) == s by {
            assert(spec_ratchet_blob(s).subrange(1, spec_ratchet_blob(s).len() as int) =~= s);
        }
        assert forall|s: Seq<u8>| s.len() >= RATCHET_BLOB_COMPRESS_MIN implies (#[trigger] spec_ratchet_blob(
            s,
        )).subrange(1, spec_ratchet_blob(s).len() as int) == spec_zstd_compress(s, ZSTD_LEVEL as int) by {
            assert(spec_ratchet_blob(s).subrange(1, spec_ratchet_blob(s).len() as int) =~= spec_zstd_compress(
                s,
                ZSTD_LEVEL as int,
            ));
        }
    }
    if payload[0] == RATCHET_BLOB_RAW {
        Ok(vstd::slice::slice_to_vec(rest))
    } else if payload[0] == RATCHET_BLOB_ZSTD {
        match zstd_decompress(rest) {
            Some(d) => Ok(d),
            None => Err(crypto_error("zstd decompress ratchet")),
        }
    } else {
        match zstd_decompress(payload) {
            Some(d) => Ok(d),
            None => Err(crypto_error("zstd decompress ratchet (legacy)")),
        }
    }
}


/// A stored message as its row reads back: the plain columns, and the body
/// encrypted under its nonce, compressed first when the flag says so.
#[derive(Debug, Clone)]
pub struct StoredRow {
    pub id: u64,
    pub peer_id: Vec<u8>,
    pub direction: u8,
    pub ciphertext: Vec<u8>,
    pub nonce: Vec<u8>,
    pub compressed: bool,
    pub timestamp: u64,
}

/// Whether `plaintext` is what a row's body opens to under `key`: it
/// decrypts, and then decompresses to it when the row is compressed.
pub open spec fn spec_row_opens(key: Seq<u8>, row: StoredRow, plaintext: Seq<u8>) -> bool {
    let opened = spec_aes_gcm_open(key, row.nonce@, row.ciphertext@, no_aad());
    &&& opened is Some
    &&& if row.compressed {
        spec_zstd_decompress(opened.unwrap()) == Some(plaintext)
    } else {
        opened == Some(plaintext)
    }
}

/// Whether a row's body was stored from `data`.
pub open spec fn spec_row_holds(key: Seq<u8>, row: StoredRow, data: Seq<u8>) -> bool {
    &&& row.ciphertext@ == spec_sealed_record(key, row.nonce@, data, row.compressed)
    &&& spec_prepared(data, row.compressed).len() <= AES_GCM_P_MAX
}

/// The message a row reads back as, given its opened body.
pub open spec fn spec_row_message(row: StoredRow, m: StoredMessage) -> bool {
    &&& m.id == row.id
    &&& m.peer_id@ == row.peer_id@
    &&& m.direction == (if row.direction == 0 { Direction::Sent } else { Direction::Received })
    &&& m.timestamp == row.timestamp
}

/// Whether a row's body opens: it decrypts under `key`, and decompresses
/// when the row is compressed.
pub open spec fn spec_row_readable(key: Seq<u8>, row: StoredRow) -> bool {
    let opened = spec_aes_gcm_open(key, row.nonce@, row.ciphertext@, no_aad());
    opened is Some && (row.compressed ==> spec_zstd_decompress(opened.unwrap()) is Some)
}

/// Opens stored rows into messages, in the rows' order. The first row whose
/// body does not open fails the whole read (a crypto error). Rows stored by
/// `compress_and_encrypt` under `key` read back what was stored.
pub fn open_stored_rows(key: &[u8; 32], rows: Vec<StoredRow>) -> (r: Result<Vec<StoredMessage>>)
    requires
        forall|i: int| 0 <= i < rows@.len() ==> (#[trigger] rows@[i]).nonce@.len() == NONCE_LEN,
    ensures
        r is Ok <==> forall|i: int| 0 <= i < rows@.len() ==> spec_row_readable(key@, #[trigger] rows@[i]),
        r is Ok ==> r->Ok_0@.len() == rows@.len() && forall|i: int|
            #![trigger r->Ok_0@[i]]
            0 <= i < rows@.len() ==> spec_row_message(rows@[i], r->Ok_0@[i]) && spec_row_opens(
                key@,
                rows@[i],
                r->Ok_0@[i].plaintext@,
            ),
        (exists|i: int|
            0 <= i < rows@.len() && spec_aes_gcm_open(key@, (#[trigger] rows@[i]).nonce@, rows@[i].ciphertext@, no_aad())
                is None) ==> r is Err,
        (forall|i: int| 0 <= i < rows@.len() ==> exists|d: Seq<u8>| spec_row_holds(key@, #[trigger] rows@[i], d))
            ==> r is Ok,
        r is Ok ==> forall|i: int, d: Seq<u8>|
            #![trigger spec_row_holds(key@, rows@[i], d)]
            0 <= i < rows@.len() && spec_row_holds(key@, rows@[i], d) ==> r->Ok_0@[i].plaintext@ == d,
        r is Err ==> r->Err_0 is Crypto,
{
    let mut out: Vec<StoredMessage> = Vec::new();
    let n = rows.len();
    let mut i: usize = 0;
    while i < n
        invariant
            n == rows@.len(),
            i <= n,
            out@.len() == i,
            forall|k: int| 0 <= k < rows@.len() ==> (#[trigger] rows@[k]).nonce@.len() == NONCE_LEN,
            forall|k: int|
                #![trigger out@[k]]
                0 <= k < i ==> spec_row_message(rows@[k], out@[k]) && spec_row_opens(key@, rows@[k], out@[k].plaintext@),
            forall|k: int, d: Seq<u8>|
                #![trigger spec_row_holds(key@, rows@[k], d)]
                0 <= k < i && spec_row_holds(key@, rows@[k], d) ==> out@[k].plaintext@ == d,
        decreases n - i,
    {
        let row = &rows[i];
        let plaintext = match decrypt_and_decompress(
            key,
            row.ciphertext.as_slice(),
            row.nonce.as_slice(),
            row.compressed,
        ) {
            Ok(p) => p,
            Err(e) => {
                proof {
                    assert(!spec_row_readable(key@, rows@[i as int]));
                    assert forall|d: Seq<u8>| !spec_row_holds(key@, rows@[i as int], d) by {
                        if spec_row_holds(key@, rows@[i as int], d) {
                            assert(row.ciphertext@ == spec_sealed_record(key@, row.nonce@, d, row.compressed));
                        }
                    }
                }
                return Err(e);
            },
        };
        let m = StoredMessage {
            id: row.id,
            peer_id: row.peer_id.clone(),
            direction: Direction::from_code(row.direction),
            plaintext,
            timestamp: row.timestamp,
        };
        out.push(m);
        i = i + 1;
    }
    proof {
        assert forall|k: int| 0 <= k < rows@.len() implies spec_aes_gcm_open(
            key@,
            (#[trigger] rows@[k]).nonce@,
            rows@[k].ciphertext@,
            no_aad(),
        ) is Some by {
            assert(spec_row_opens(key@, rows@[k], out@[k].plaintext@));
        }
        assert forall|k: int| 0 <= k < rows@.len() implies spec_row_readable(key@, #[trigger] rows@[k]) by {
            assert(spec_row_opens(key@, rows@[k], out@[k].plaintext@));
        }
    }
    Ok(out)
}

} // verus!
