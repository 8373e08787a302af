//! The client runtime's handling of what the gateway delivers: JSON or
//! protocol frames, length-prefixed inbox batches, padded plaintexts and
//! byte arrays sent as JSON numbers.

use vstd::prelude::*;
use vstd::bytes::{
    spec_u32_from_le_bytes, spec_u32_to_le_bytes, u32_from_le_bytes, u32_to_le_bytes, lemma_auto_spec_u32_to_from_le_bytes,
};
use vstd::string::StringSliceAdditionalSpecFns;
use crate::common::error::{Error, Result, protocol_error};
use crate::common::text::{hex_decode, spec_hex_decode, hex_chunks_sliceable};
use crate::common::types::{FileId, FileMeta, PeerId};
use crate::client::crypto::KeyManager;
use crate::client::onion::padding::{unpad, spec_unpad};
use crate::crypto::aead::{spec_aead_open, spec_aead_seal};
use crate::crypto::primitives::AES_GCM_P_MAX;
use crate::crypto::ratchet::{spec_decrypt_overflows, spec_decrypt_state, spec_decrypt_key, spec_u32_be};

verus! {

/// A frame from the server is a JSON envelope when it starts with `{`;
/// otherwise it is a protocol payload from a peer.
pub fn is_json_frame(payload: &[u8]) -> (r: bool)
    ensures
        r == (payload@.len() > 0 && payload@[0] == 123u8),
{
    payload.len() > 0 && payload[0] == 123u8
}

/// The records of an inbox batch, each a 4-byte little-endian length then
/// that many bytes, from `offset` on; a record running past the end stops
/// the batch.
pub open spec fn spec_inbox_records(messages: Seq<u8>, offset: int) -> Seq<Seq<u8>>
    decreases messages.len() - offset,
{
    if offset < 0 || offset + 4 > messages.len() {
        Seq::empty()
    } else {
        let len = spec_u32_from_le_bytes(messages.subrange(offset, offset + 4)) as int;
        let start = offset + 4;
        if start + len > messages.len() {
            Seq::empty()
        } else {
            seq![messages.subrange(start, start + len)] + spec_inbox_records(messages, start + len)
        }
    }
}

/// An inbox batch: each record as its 4-byte little-endian length, then its
/// bytes, one after another.
pub open spec fn spec_frame_records(records: Seq<Seq<u8>>) -> Seq<u8>
    decreases records.len(),
{
    if records.len() == 0 {
        Seq::empty()
    } else {
        spec_u32_to_le_bytes(records[0].len() as u32) + records[0] + spec_frame_records(records.drop_first())
    }
}

proof fn lemma_inbox_records_after(prefix: Seq<u8>, records: Seq<Seq<u8>>)
    requires
        forall|i: int| 0 <= i < records.len() ==> (#[trigger] records[i]).len() <= u32::MAX,
    ensures
        spec_inbox_records(prefix + spec_frame_records(records), prefix.len() as int) == records,
    decreases records.len(),
{
    lemma_auto_spec_u32_to_from_le_bytes();
    let m = prefix + spec_frame_records(records);
    let off = prefix.len() as int;
    if records.len() == 0 {
        assert(m =~= prefix);
        assert(spec_inbox_records(m, off) =~= records);
    } else {
        let r0 = records[0];
        let le = spec_u32_to_le_bytes(r0.len() as u32);
        let rest = records.drop_first();
        assert forall|i: int| 0 <= i < rest.len() implies (#[trigger] rest[i]).len() <= u32::MAX by {
            assert(rest[i] == records[i + 1]);
        }
        let p2 = prefix + le + r0;
        assert(m =~= p2 + spec_frame_records(rest));
        assert(m.subrange(off, off + 4) =~= le);
        assert(spec_u32_from_le_bytes(le) == r0.len() as u32);
        assert(m.subrange(off + 4, off + 4 + r0.len()) =~= r0);
        lemma_inbox_records_after(p2, rest);
        assert(p2.len() == off + 4 + r0.len());
        assert(spec_inbox_records(m, off) =~= seq![r0] + rest);
        assert(seq![r0] + rest =~= records);
    }
}

/// Splitting undoes framing: a batch made of records, each shorter than
/// 2^32 bytes and framed by its 4-byte little-endian length, splits back into
/// exactly those records, in order.
pub proof fn lemma_inbox_records_roundtrip(records: Seq<Seq<u8>>)
    requires
        forall|i: int| 0 <= i < records.len() ==> (#[trigger] records[i]).len() <= u32::MAX,
    ensures
        spec_inbox_records(spec_frame_records(records), 0) == records,
{
    lemma_inbox_records_after(Seq::empty(), records);
    assert(Seq::<u8>::empty() + spec_frame_records(records) =~= spec_frame_records(records));
}

/// Splits an inbox batch into its records.
pub fn split_inbox_messages(messages: &[u8]) -> (records: Vec<Vec<u8>>)
    ensures
        records@.map_values(|r: Vec<u8>| r@) == spec_inbox_records(messages@, 0),
        forall|framed: Seq<Seq<u8>>|
            #![trigger spec_frame_records(framed)]
            messages@ == spec_frame_records(framed) && (forall|i: int|
                0 <= i < framed.len() ==> (#[trigger] framed[i]).len() <= u32::MAX) ==> records@.map_values(
                |r: Vec<u8>| r@,
            ) == framed,
{
    proof {
        assert forall|framed: Seq<Seq<u8>>|
            #![trigger spec_frame_records(framed)]
            messages@ == spec_frame_records(framed) && (forall|i: int|
                0 <= i < framed.len() ==> (#[trigger] framed[i]).len() <= u32::MAX) implies spec_inbox_records(
                messages@,
                0,
            ) == framed by {
            lemma_inbox_records_roundtrip(framed);
        }
    }
    let mut records: Vec<Vec<u8>> = Vec::new();
    let mut offset: usize = 0;
    let ghost mut done: Seq<Seq<u8>> = Seq::empty();
    while offset <= messages.len() && messages.len() - offset >= 4
        invariant
            offset <= messages@.len() + 4,
            records@.map_values(|r: Vec<u8>| r@) + spec_inbox_records(messages@, offset as int)
                == spec_inbox_records(messages@, 0),
            forall|framed: Seq<Seq<u8>>|
                #![trigger spec_frame_records(framed)]
                messages@ == spec_frame_records(framed) && (forall|i: int|
                    0 <= i < framed.len() ==> (#[trigger] framed[i]).len() <= u32::MAX) ==> spec_inbox_records(
                    messages@,
                    0,
                ) == framed,
        decreases messages@.len() + 4 - offset,
    {
        let len = u32_from_le_bytes(vstd::slice::slice_subrange(messages, offset, offset + 4)) as usize;
        let start = offset + 4;
        if len > messages.len() - start {
            proof {
                assert(spec_inbox_records(messages@, offset as int) =~= Seq::<Seq<u8>>::empty());
                assert(records@.map_values(|r: Vec<u8>| r@) + Seq::<Seq<u8>>::empty() =~= records@.map_values(
                    |r: Vec<u8>| r@,
                ));
            }
            return records;
        }
        let record = vstd::slice::slice_to_vec(vstd::slice::slice_subrange(messages, start, start + len));
        let ghost before = records@.map_values(|r: Vec<u8>| r@);
        records.push(record);
        proof {
            let rest = spec_inbox_records(messages@, (start + len) as int);
            assert(spec_inbox_records(messages@, offset as int) == seq![record@] + rest);
            assert(records@.map_values(|r: Vec<u8>| r@) =~= before.push(record@));
            assert(before.push(record@) + rest =~= before + (seq![record@] + rest));
        }
        offset = start + len;
    }
    proof {
        assert(spec_inbox_records(messages@, offset as int) =~= Seq::<Seq<u8>>::empty());
        assert(records@.map_values(|r: Vec<u8>| r@) + Seq::<Seq<u8>>::empty() =~= records@.map_values(
            |r: Vec<u8>| r@,
        ));
    }
    records
}

/// A plaintext without its padding, or as it is when it is not padded.
pub open spec fn spec_unpad_or_raw(p: Seq<u8>) -> Seq<u8> {
    match spec_unpad(p) {
        Some(u) => u,
        None => p,
    }
}

/// A decrypted chat plaintext without its padding, or as it is when it is
/// not padded.
pub fn unpad_or_raw(plaintext_raw: Vec<u8>) -> (p: Vec<u8>)
    ensures
        p@ == spec_unpad_or_raw(plaintext_raw@),
{
    match unpad(plaintext_raw.as_slice()) {
        Ok(unpadded) => vstd::slice::slice_to_vec(unpadded),
        Err(_) => plaintext_raw,
    }
}

/// The bytes of a JSON array of numbers, each 0 to 255. `values` is the
/// array (`None` when the field is missing or not an array), each element
/// the number it holds as a `u64` (`None` when it is not one). A missing
/// field or an element that is not a byte is a protocol error.
pub fn json_bytes_field(values: Option<&Vec<Option<u64>>>) -> (r: Result<Vec<u8>>)
    ensures
        values is None ==> r is Err && r->Err_0 is Protocol,
        values is Some ==> (r is Ok <==> forall|i: int|
            0 <= i < values.unwrap()@.len() ==> (#[trigger] values.unwrap()@[i]) is Some && values.unwrap()@[i].unwrap() <= 255),
        r is Ok ==> r->Ok_0@.len() == values.unwrap()@.len() && forall|i: int|
            0 <= i < values.unwrap()@.len() ==> (#[trigger] r->Ok_0@[i]) == values.unwrap()@[i].unwrap(),
        r is Err ==> r->Err_0 is Protocol,
{
    let arr = match values {
        None => {
            return Err(protocol_error("missing or non-array field"));
        },
        Some(a) => a,
    };
    let mut out: Vec<u8> = Vec::new();
    let mut i: usize = 0;
    while i < arr.len()
        invariant
            values is Some && values.unwrap()@ == arr@,
            0 <= i <= arr@.len(),
            out@.len() == i,
            forall|j: int| 0 <= j < i ==> (#[trigger] arr@[j]) is Some && arr@[j].unwrap() <= 255 && out@[j] == arr@[j].unwrap(),
        decreases arr@.len() - i,
    {
        match arr[i] {
            Some(n) => {
                if n > 255 {
                    assert(!(arr@[i as int] is Some && arr@[i as int].unwrap() <= 255));
                    return Err(protocol_error("invalid byte in field"));
                }
                out.push(n as u8);
            },
            None => {
                assert(!(arr@[i as int] is Some));
                return Err(protocol_error("invalid byte in field"));
            },
        }
        i = i + 1;
    }
    Ok(out)
}

/// The chunk indices a resume request holds: consecutive 4-byte
/// little-endian numbers; trailing bytes short of a number are ignored.
pub open spec fn spec_parse_indices(missing: Seq<u8>) -> Seq<u32> {
    Seq::new(missing.len() / 4, |k: int| spec_u32_from_le_bytes(missing.subrange(4 * k, 4 * k + 4)))
}

/// The bytes of a resume request for these chunk indices: each index as 4
/// little-endian bytes, in order.
pub open spec fn spec_pack_indices(indices: Seq<u32>) -> Seq<u8> {
    Seq::new(4 * indices.len(), |j: int| spec_u32_to_le_bytes(indices[j / 4])[j % 4])
}

/// Reads the chunk indices of a resume request.
pub fn parse_missing_indices(missing: &[u8]) -> (v: Vec<u32>)
    ensures
        v@ == spec_parse_indices(missing@),
{
    let mut v: Vec<u32> = Vec::new();
    let len = missing.len();
    let n = len / 4;
    let mut k: usize = 0;
    while k < n
        invariant
            len == missing@.len(),
            n == missing@.len() / 4,
            k <= n,
            v@.len() == k,
            forall|j: int| 0 <= j < k ==> #[trigger] v@[j] == spec_u32_from_le_bytes(missing@.subrange(4 * j, 4 * j + 4)),
        decreases n - k,
    {
        assert(4 * k + 4 <= len) by (nonlinear_arith)
            requires
                k < n,
                n == len / 4;
        v.push(u32_from_le_bytes(vstd::slice::slice_subrange(missing, 4 * k, 4 * k + 4)));
        k = k + 1;
    }
    assert(v@ =~= spec_parse_indices(missing@));
    v
}

/// Packs chunk indices into the bytes of a resume request.
pub fn pack_missing_indices(indices: &[u32]) -> (packed: Vec<u8>)
    requires
        4 * indices@.len() <= usize::MAX,
    ensures
        packed@ == spec_pack_indices(indices@),
{
    let mut packed: Vec<u8> = Vec::new();
    let mut i: usize = 0;
    while i < indices.len()
        invariant
            i <= indices@.len(),
            4 * indices@.len() <= usize::MAX,
            packed@.len() == 4 * i,
            forall|j: int| 0 <= j < 4 * i ==> #[trigger] packed@[j] == spec_u32_to_le_bytes(indices@[j / 4])[j % 4],
        decreases indices@.len() - i,
    {
        let b = u32_to_le_bytes(indices[i]);
        proof {
            lemma_auto_spec_u32_to_from_le_bytes();
        }
        let ghost before = packed@;
        packed.extend_from_slice(b.as_slice());
        proof {
            assert forall|j: int| 0 <= j < 4 * (i + 1) implies #[trigger] packed@[j] == spec_u32_to_le_bytes(
                indices@[j / 4],
            )[j % 4] by {
                if j >= 4 * i {
                    assert(j / 4 == i && j % 4 == j - 4 * i) by (nonlinear_arith)
                        requires
                            4 * i <= j < 4 * i + 4;
                } else {
                    assert(packed@[j] == before[j]);
                }
            }
        }
        i = i + 1;
    }
    assert(packed@ =~= spec_pack_indices(indices@));
    packed
}

/// A resume request reads back the chunk indices it was packed from.
pub proof fn lemma_missing_indices_roundtrip(indices: Seq<u32>)
    ensures
        spec_parse_indices(spec_pack_indices(indices)) == indices,
{
    let packed = spec_pack_indices(indices);
    lemma_auto_spec_u32_to_from_le_bytes();
    assert(packed.len() / 4 == indices.len()) by (nonlinear_arith)
        requires
            packed.len() == 4 * indices.len();
    assert forall|k: int| 0 <= k < indices.len() implies #[trigger] spec_parse_indices(packed)[k] == indices[k] by {
        let chunk = packed.subrange(4 * k, 4 * k + 4);
        assert forall|t: int| 0 <= t < 4 implies chunk[t] == spec_u32_to_le_bytes(indices[k])[t] by {
            assert((4 * k + t) / 4 == k && (4 * k + t) % 4 == t) by (nonlinear_arith)
                requires
                    0 <= t < 4;
        }
        assert(chunk =~= spec_u32_to_le_bytes(indices[k]));
    }
    assert(spec_parse_indices(packed) =~= indices);
}

/// The metadata of an offered file: its fields as offered, a fresh random id
/// when the offered one is not 16 bytes, compressed when the flag is
/// non-zero.
pub fn file_meta_from_offer(file_id: &[u8], name: String, size: u64, chunks: u32, hash: Vec<u8>, compressed: u8) -> (m: FileMeta)
    ensures
        file_id@.len() == 16 ==> m.file_id.0@ == file_id@,
        m.name@ == name@,
        m.size == size,
        m.chunk_count == chunks,
        m.hash@ == hash@,
        m.compressed == (compressed != 0),
{
    let id = match FileId::from_bytes(file_id) {
        Some(id) => id,
        None => FileId::generate(),
    };
    FileMeta { file_id: id, name, size, chunk_count: chunks, hash, compressed: compressed != 0 }
}

/// Opens a chat message from a peer: the sender's id must be 32 bytes and
/// the ratchet key 32 bytes (protocol errors otherwise); the peer's session
/// decrypts it; the plaintext is unpadded when it is padded. Returns the
/// sender and the plaintext.
pub fn open_chat_message(keys: &mut KeyManager, peer_id: &[u8], ciphertext: &[u8], ratchet_key: &[u8], msg_no: u32) -> (r: Result<(PeerId, Vec<u8>)>)
    requires
        old(keys).wf(),
        ratchet_key@.len() == 32 && old(keys).sessions().contains_key(peer_id@) ==> !spec_decrypt_overflows(
            old(keys).sessions()[peer_id@],
            ratchet_key@,
            msg_no,
        ),
    ensures
        final(keys).wf(),
        peer_id@.len() != 32 ==> r is Err && r->Err_0 is Protocol && final(keys).sessions() == old(keys).sessions(),
        peer_id@.len() == 32 && ratchet_key@.len() != 32 ==> r is Err && r->Err_0 is Protocol
            && final(keys).sessions() == old(keys).sessions(),
        peer_id@.len() == 32 && ratchet_key@.len() == 32 && !old(keys).sessions().contains_key(peer_id@) ==> r is Err
            && r->Err_0 is Session && final(keys).sessions() == old(keys).sessions(),
        peer_id@.len() == 32 && ratchet_key@.len() == 32 && old(keys).sessions().contains_key(peer_id@)
            ==> final(keys).sessions().dom() == old(keys).sessions().dom() && final(keys).sessions()[peer_id@]
            == spec_decrypt_state(
            old(keys).sessions()[peer_id@],
            ratchet_key@,
            msg_no,
            final(keys).sessions()[peer_id@].send_ratchet_secret,
        ),
        r is Ok ==> r->Ok_0.0.0@ == peer_id@,
        peer_id@.len() == 32 && ratchet_key@.len() == 32 && old(keys).sessions().contains_key(peer_id@) ==> ({
            let k = spec_decrypt_key(
                old(keys).sessions()[peer_id@],
                ratchet_key@,
                msg_no,
                final(keys).sessions()[peer_id@].send_ratchet_secret,
            );
            let opened = spec_aead_open(k.unwrap(), spec_u32_be(msg_no), ciphertext@, ratchet_key@);
            &&& k is None ==> r is Err
            &&& k is Some ==> (r is Ok <==> opened is Some)
            &&& k is Some && r is Ok ==> r->Ok_0.1@ == spec_unpad_or_raw(opened.unwrap())
            &&& forall|p: Seq<u8>|
                #![trigger spec_aead_seal(k.unwrap(), spec_u32_be(msg_no), p, ratchet_key@)]
                k is Some && ciphertext@ == spec_aead_seal(k.unwrap(), spec_u32_be(msg_no), p, ratchet_key@)
                    && p.len() <= AES_GCM_P_MAX ==> r is Ok && r->Ok_0.1@ == spec_unpad_or_raw(p)
        }),
{
    let from = match PeerId::from_bytes(peer_id) {
        Some(p) => p,
        None => {
            return Err(protocol_error("ChatSend with invalid peer_id"));
        },
    };
    if ratchet_key.len() != 32 {
        return Err(protocol_error("ChatSend ratchet_key != 32 bytes"));
    }
    let plaintext_raw = keys.decrypt_from_peer(peer_id, ciphertext, ratchet_key, msg_no)?;
    Ok((from, unpad_or_raw(plaintext_raw)))
}

/// Whether a signaling request succeeded: it did when the response's `found` field is
/// `true`; otherwise the protocol error carries its `error` text, or
/// `default_error` when it has none.
pub fn check_found(found: Option<bool>, error: Option<&str>, default_error: &str) -> (r: Result<()>)
    ensures
        r is Ok <==> found == Some(true),
        r is Err ==> r->Err_0 is Protocol && r->Err_0->Protocol_0@ == (match error {
            Some(e) => e@,
            None => default_error@,
        }),
{
    if found == Some(true) {
        return Ok(());
    }
    let msg = match error {
        Some(e) => e,
        None => default_error,
    };
    Err(Error::Protocol(msg.to_string()))
}

/// The peer id in a `join_link` response: the `peer_id` field's
/// hexadecimal text, which must be there and decode to 32 bytes (protocol
/// errors otherwise).
pub fn peer_id_from_response(peer_id_hex: Option<&str>) -> (r: Result<PeerId>)
    requires
        peer_id_hex matches Some(h) ==> hex_chunks_sliceable(h.spec_bytes()),
    ensures
        peer_id_hex is None ==> r is Err,
        peer_id_hex matches Some(h) ==> (r is Ok <==> (spec_hex_decode(h.spec_bytes()) is Some
            && spec_hex_decode(h.spec_bytes()).unwrap().len() == 32)),
        r is Ok ==> Some(r->Ok_0.0@) == spec_hex_decode(peer_id_hex.unwrap().spec_bytes()),
        r is Err ==> r->Err_0 is Protocol,
{
    let hex = match peer_id_hex {
        Some(h) => h,
        None => {
            return Err(protocol_error("missing peer_id in join_link response"));
        },
    };
    let bytes = hex_decode(hex)?;
    match PeerId::from_bytes(bytes.as_slice()) {
        Some(p) => Ok(p),
        None => Err(protocol_error("invalid peer_id bytes")),
    }
}


/// The request a signaling JSON reply answers.
#[derive(Clone, Copy, Debug, PartialEq, Eq, Structural)]
pub enum PendingKind {
    CreateLink,
    JoinLink,
    GetPrekeys,
}

/// What the runtime does with a JSON frame from the signaling server.
#[derive(Clone, Debug)]
pub enum JsonDispatch {
    /// A peer joined one of our links: announce it.
    PeerConnected(PeerId),
    /// The reply to a pending request of this kind: hand it over.
    Reply(PendingKind),
    /// Nothing to do.
    Ignored,
}

/// The kind of reply a JSON object without a `peer_joined` notice is: one with
/// a `link_id` answers link creation, else one with a `peer_id` answers
/// joining, else one with an `identity_key` or a `signed_prekey` answers a
/// prekey request.
pub open spec fn spec_reply_kind(has_link_id: bool, has_peer_id: bool, has_identity_key: bool, has_signed_prekey: bool) -> Option<PendingKind> {
    if has_link_id {
        Some(PendingKind::CreateLink)
    } else if has_peer_id {
        Some(PendingKind::JoinLink)
    } else if has_identity_key || has_signed_prekey {
        Some(PendingKind::GetPrekeys)
    } else {
        None
    }
}

/// How `classify_json` classifies fields, `text` being the `peer_id` text:
/// a `peer_joined: true` notice announces the peer whose id the text decodes
/// to (nothing when that is missing or not 32 bytes of hex); any other frame
/// is the reply of the kind `spec_reply_kind` gives, or ignored.
pub open spec fn spec_classify_json(
    peer_joined: Option<bool>,
    text: Option<Seq<char>>,
    has_link_id: bool,
    has_peer_id: bool,
    has_identity_key: bool,
    has_signed_prekey: bool,
    d: JsonDispatch,
) -> bool {
    let decoded = spec_hex_decode(vstd::utf8::encode_utf8(text.unwrap()));
    &&& peer_joined == Some(true) ==> !(d is Reply)
    &&& peer_joined == Some(true) ==> (d is PeerConnected <==> (text is Some && decoded is Some
        && decoded.unwrap().len() == 32))
    &&& d matches JsonDispatch::PeerConnected(p) ==> peer_joined == Some(true) && Some(p.0@) == decoded
    &&& peer_joined != Some(true) ==> match spec_reply_kind(has_link_id, has_peer_id, has_identity_key, has_signed_prekey) {
        Some(k) => d == JsonDispatch::Reply(k),
        None => d is Ignored,
    }
}

/// The characters of an optional string slice.
pub open spec fn opt_text(t: Option<&str>) -> Option<Seq<char>> {
    match t {
        Some(s) => Some(s@),
        None => None,
    }
}

/// Classifies a JSON frame by the fields it has. `peer_joined` is its
/// `peer_joined` field when that is a boolean, `peer_id_text` its `peer_id`
/// field when that is a string; the flags say which fields are present at all.
/// A `peer_joined: true` notice announces the peer whose id the `peer_id` text
/// decodes to, and is ignored when that is missing or not 32 bytes of hex.
pub fn classify_json(
    peer_joined: Option<bool>,
    peer_id_text: Option<&str>,
    has_link_id: bool,
    has_peer_id: bool,
    has_identity_key: bool,
    has_signed_prekey: bool,
) -> (d: JsonDispatch)
    requires
        peer_joined == Some(true) && peer_id_text is Some ==> hex_chunks_sliceable(peer_id_text.unwrap().spec_bytes()),
    ensures
        spec_classify_json(
            peer_joined,
            opt_text(peer_id_text),
            has_link_id,
            has_peer_id,
            has_identity_key,
            has_signed_prekey,
            d,
        ),
{
    if peer_joined == Some(true) {
        if let Some(hex) = peer_id_text {
            if let Ok(bytes) = hex_decode(hex) {
                if let Some(peer_id) = PeerId::from_bytes(bytes.as_slice()) {
                    return JsonDispatch::PeerConnected(peer_id);
                }
            }
        }
        return JsonDispatch::Ignored;
    }
    if has_link_id {
        JsonDispatch::Reply(PendingKind::CreateLink)
    } else if has_peer_id {
        JsonDispatch::Reply(PendingKind::JoinLink)
    } else if has_identity_key || has_signed_prekey {
        JsonDispatch::Reply(PendingKind::GetPrekeys)
    } else {
        JsonDispatch::Ignored
    }
}


/// The elements of a JSON number array, as `json_bytes_field` takes it.
pub open spec fn json_array_view(values: Option<&Vec<Option<u64>>>) -> Option<Seq<Option<u64>>> {
    match values {
        Some(v) => Some(v@),
        None => None,
    }
}

/// The bytes a JSON number array denotes: `None` when the array is missing or
/// one of its elements is not a number from 0 to 255.
pub open spec fn spec_json_bytes(values: Option<Seq<Option<u64>>>) -> Option<Seq<u8>> {
    match values {
        None => None,
        Some(v) => if forall|i: int| 0 <= i < v.len() ==> (#[trigger] v[i]) is Some && v[i].unwrap() <= 255 {
            Some(Seq::new(v.len(), |i: int| v[i].unwrap() as u8))
        } else {
            None
        },
    }
}

/// The bytes an optional hexadecimal text decodes to, if any.
pub open spec fn spec_hex_field(text: Option<&str>) -> Option<Seq<u8>> {
    match text {
        Some(h) => spec_hex_decode(h.spec_bytes()),
        None => None,
    }
}

/// The contents of an optional byte vector.
pub open spec fn opt_bytes_view(v: Option<Vec<u8>>) -> Option<Seq<u8>> {
    match v {
        Some(b) => Some(b@),
        None => None,
    }
}

/// Reads a JSON number array as bytes (see `json_bytes_field`).
fn json_bytes(values: Option<&Vec<Option<u64>>>) -> (r: Result<Vec<u8>>)
    ensures
        r is Ok <==> spec_json_bytes(json_array_view(values)) is Some,
        r is Ok ==> Some(r->Ok_0@) == spec_json_bytes(json_array_view(values)),
        r is Err ==> r->Err_0 is Protocol,
{
    let r = json_bytes_field(values);
    proof {
        if let Some(v) = values {
            if r is Ok {
                assert(r->Ok_0@ =~= spec_json_bytes(json_array_view(values)).unwrap());
            }
        }
    }
    r
}

/// Completes mutual session set-up from the signaling server's prekey
/// reply. `found`, `error`, `identity_key` and `signed_prekey` are the
/// reply's fields as `check_found` and `json_bytes_field` take them;
/// `inbox_id` is its `inbox_id` field when that is a string. A reply that was
/// not found, or whose keys are not byte arrays, is a protocol error, and
/// keys that are not 32 bytes are crypto errors; then the sessions are
/// unchanged. Otherwise the session is set up as `init_mutual_session` does;
/// the result says whether we became the sender, and carries the peer's
/// blind inbox id when the reply has one that decodes.
pub fn accept_prekey_reply(
    keys: &mut KeyManager,
    our_peer_id: &PeerId,
    peer_id: &PeerId,
    found: Option<bool>,
    error: Option<&str>,
    identity_key: Option<&Vec<Option<u64>>>,
    signed_prekey: Option<&Vec<Option<u64>>>,
    inbox_id: Option<&str>,
) -> (r: Result<(bool, Option<Vec<u8>>)>)
    requires
        old(keys).wf(),
        inbox_id matches Some(h) ==> hex_chunks_sliceable(h.spec_bytes()),
    ensures
        final(keys).wf(),
        final(keys).identity == old(keys).identity,
        final(keys).spk == old(keys).spk,
        r is Err ==> final(keys).sessions() == old(keys).sessions(),
        found != Some(true) ==> r is Err && r->Err_0 is Protocol && r->Err_0->Protocol_0@ == (match error {
            Some(e) => e@,
            None => "prekeys not found"@,
        }),
        found == Some(true) && (spec_json_bytes(json_array_view(identity_key)) is None || spec_json_bytes(
            json_array_view(signed_prekey),
        ) is None) ==> r is Err && r->Err_0 is Protocol,
        found == Some(true) && spec_json_bytes(json_array_view(identity_key)) is Some && spec_json_bytes(
            json_array_view(signed_prekey),
        ) is Some ==> (r is Ok <==> spec_json_bytes(json_array_view(identity_key)).unwrap().len() == 32
            && spec_json_bytes(json_array_view(signed_prekey)).unwrap().len() == 32) && (r is Err
            ==> r->Err_0 is Crypto),
        r is Ok ==> KeyManager::spec_mutual_session(
            *old(keys),
            *final(keys),
            our_peer_id.0@,
            peer_id.0@,
            spec_json_bytes(json_array_view(identity_key)).unwrap(),
            spec_json_bytes(json_array_view(signed_prekey)).unwrap(),
            r->Ok_0.0,
        ) && opt_bytes_view(r->Ok_0.1) == spec_hex_field(inbox_id),
{
    check_found(found, error, "prekeys not found")?;
    let ik = json_bytes(identity_key)?;
    let spk = json_bytes(signed_prekey)?;
    let peer_inbox: Option<Vec<u8>> = match inbox_id {
        Some(h) => match hex_decode(h) {
            Ok(b) => Some(b),
            Err(_) => None,
        },
        None => None,
    };
    let is_sender = keys.init_mutual_session(our_peer_id, peer_id, ik.as_slice(), spk.as_slice())?;
    Ok((is_sender, peer_inbox))
}

} // verus!
