//! Text helpers of the desktop client: peer ids and file ids as hexadecimal
//! text, with errors as messages for the user interface.

use vstd::prelude::*;
use vstd::string::StringSliceAdditionalSpecFns;
use base64::Engine;
use crate::common::text::{spec_hex_encode, spec_hex_decode, hex_chunks_sliceable};
use crate::common::types::PeerId;
use crate::common::text::string_push_str;
use crate::common::byte_util::bytes_eq;
use crate::client::onion::indicator::AnonymityLevel;

verus! {

/// A chat message as shown by the user interface.
#[derive(Debug, Clone)]
pub struct ChatMessage {
    pub from: String,
    pub text: String,
    pub timestamp: u64,
}

/// A share link as shown by the user interface.
#[derive(Debug, Clone)]
pub struct LinkInfo {
    pub link_id: String,
}

/// Lowercase hexadecimal text of bytes.
pub fn bytes_to_hex(b: &[u8]) -> (s: String)
    ensures
        s@ == spec_hex_encode(b@),
{
    crate::common::text::hex_encode(b)
}

/// Lowercase hexadecimal text of bytes.
pub fn hex_encode(bytes: &[u8]) -> (s: String)
    ensures
        s@ == spec_hex_encode(bytes@),
{
    crate::common::text::hex_encode(bytes)
}

/// The 64-character hexadecimal text of a peer id.
pub fn peer_id_hex(id: &PeerId) -> (s: String)
    ensures
        s@ == spec_hex_encode(id.0@),
{
    crate::common::text::hex_encode(id.0.as_slice())
}

/// Decodes hexadecimal text; an odd length or a bad digit is an error
/// message.
pub fn hex_decode(hex: &str) -> (r: Result<Vec<u8>, String>)
    requires
        hex_chunks_sliceable(hex.spec_bytes()),
    ensures
        r is Ok <==> spec_hex_decode(hex.spec_bytes()) is Some,
        r matches Ok(v) ==> spec_hex_decode(hex.spec_bytes()) == Some(v@),
        r is Err && hex.spec_bytes().len() % 2 != 0 ==> r->Err_0@ == "odd-length hex string"@,
{
    match crate::common::text::hex_decode(hex) {
        Ok(v) => Ok(v),
        Err(_) => {
            if hex.as_bytes().len() % 2 != 0 {
                Err("odd-length hex string".to_string())
            } else {
                Err("invalid hex: invalid digit found in string".to_string())
            }
        },
    }
}

/// The peer id a hexadecimal text denotes; text that does not decode to
/// exactly 32 bytes is an error message.
pub fn parse_peer_id(hex: &str) -> (r: Result<PeerId, String>)
    requires
        hex_chunks_sliceable(hex.spec_bytes()),
    ensures
        r is Ok <==> (spec_hex_decode(hex.spec_bytes()) is Some && spec_hex_decode(hex.spec_bytes()).unwrap().len() == 32),
        r matches Ok(p) ==> Some(p.0@) == spec_hex_decode(hex.spec_bytes()),
{
    let bytes = hex_decode(hex)?;
    match PeerId::from_bytes(bytes.as_slice()) {
        Some(p) => Ok(p),
        None => Err("peer_id must be 32 bytes".to_string()),
    }
}

/// The peer id of a chat message's recipient: exactly 64 hexadecimal
/// characters. Any other length, or a bad digit, is an error message.
pub fn parse_chat_peer_id(peer_id: &str) -> (r: Result<PeerId, String>)
    requires
        peer_id.spec_bytes().len() == 64 ==> hex_chunks_sliceable(peer_id.spec_bytes()),
    ensures
        peer_id.spec_bytes().len() != 64 ==> r is Err,
        peer_id.spec_bytes().len() == 64 ==> (r is Ok <==> spec_hex_decode(peer_id.spec_bytes()) is Some),
        r matches Ok(p) ==> Some(p.0@) == spec_hex_decode(peer_id.spec_bytes()),
{
    if peer_id.as_bytes().len() != 64 {
        return Err("peer_id must be exactly 64 hex characters (32 bytes)".to_string());
    }
    let bytes = match crate::common::text::hex_decode(peer_id) {
        Ok(b) => b,
        Err(_) => {
            return Err("invalid peer_id hex: invalid digit found in string".to_string());
        },
    };
    match PeerId::from_bytes(bytes.as_slice()) {
        Some(p) => Ok(p),
        None => Err("peer_id must be 32 bytes".to_string()),
    }
}


/// How a chat message reaches its recipient.
#[derive(Debug, Clone, Copy, PartialEq, Eq, Structural)]
pub enum ChatDelivery {
    /// Directly over the gateway, after starting a session when
    /// `start_session` is set.
    Online { start_session: bool },
    /// Into the peer's blind inbox, under the restored session.
    Offline,
}

/// Chooses how a chat message is delivered. A peer that is online is sent to
/// directly, a session being started first when there is none. To a peer that
/// is offline the message goes to its blind inbox, which needs the message
/// store, the peer's inbox id on record, and a session; the first of these
/// that is missing refuses the message with its reason.
pub fn plan_chat_delivery(is_online: bool, has_session: bool, store_available: bool, has_inbox_id: bool) -> (r: Result<
    ChatDelivery,
    String,
>)
    ensures
        is_online ==> r == Ok::<ChatDelivery, String>(ChatDelivery::Online { start_session: !has_session }),
        !is_online && store_available && has_inbox_id && has_session ==> r == Ok::<ChatDelivery, String>(
            ChatDelivery::Offline,
        ),
        !is_online && !store_available ==> r is Err && r->Err_0@ == "message store unavailable"@,
        !is_online && store_available && !has_inbox_id ==> r is Err && r->Err_0@
            == "Offline delivery is unavailable for this chat until the peer reconnects and completes a new key exchange."@,
        !is_online && store_available && has_inbox_id && !has_session ==> r is Err && r->Err_0@
            == "Offline delivery is unavailable because this chat has no restored secure session yet."@,
{
    if is_online {
        return Ok(ChatDelivery::Online { start_session: !has_session });
    }
    if !store_available {
        return Err("message store unavailable".to_string());
    }
    if !has_inbox_id {
        return Err(
            "Offline delivery is unavailable for this chat until the peer reconnects and completes a new key exchange.".to_string(),
        );
    }
    if !has_session {
        return Err("Offline delivery is unavailable because this chat has no restored secure session yet.".to_string());
    }
    Ok(ChatDelivery::Offline)
}


/// A client event as the desktop shell handles it: the ids each kind carries
/// (the rest of its fields go into the payload unchanged).
pub enum UiEvent {
    Connected(PeerId),
    Disconnected,
    PeerConnected(PeerId),
    MessageReceived(PeerId),
    FileOffered { from: PeerId, file_id: [u8; 16] },
    FileProgress(Vec<u8>),
    FileComplete(Vec<u8>),
    IceCandidateReceived(Vec<u8>),
    AnonymityLevelChanged(AnonymityLevel),
    Error,
}

/// A desktop notification the shell shows.
#[derive(Debug, Clone, Copy, PartialEq, Eq, Structural)]
pub enum Notice {
    /// "File Offered", naming the file and its size.
    FileOffered,
    /// "Transfer Complete".
    TransferComplete,
}

/// What the shell does for an event.
pub struct UiPlan {
    /// The event channel the payload is emitted on.
    pub channel: &'static str,
    /// The hexadecimal id of the peer the event is from or about, if any.
    pub peer_hex: Option<String>,
    /// The hexadecimal id of the file or candidate source, if any.
    pub id_hex: Option<String>,
    /// A newly connected peer: start an end-to-end session with it and save
    /// its conversation.
    pub start_session: Option<PeerId>,
    pub notice: Option<Notice>,
}

/// The channel an event is emitted on.
pub open spec fn spec_ui_channel(e: UiEvent) -> Seq<char> {
    match e {
        UiEvent::Connected(_) => "cypher://connected"@,
        UiEvent::Disconnected => "cypher://disconnected"@,
        UiEvent::PeerConnected(_) => "cypher://peer_connected"@,
        UiEvent::MessageReceived(_) => "cypher://message"@,
        UiEvent::FileOffered { .. } => "cypher://file_offered"@,
        UiEvent::FileProgress(_) => "cypher://file_progress"@,
        UiEvent::FileComplete(_) => "cypher://file_complete"@,
        UiEvent::IceCandidateReceived(_) => "cypher://ice_candidate"@,
        UiEvent::AnonymityLevelChanged(_) => "cypher://anonymity_level"@,
        UiEvent::Error => "cypher://error"@,
    }
}

/// The peer an event is from or about.
pub open spec fn spec_ui_peer(e: UiEvent) -> Option<PeerId> {
    match e {
        UiEvent::Connected(p) => Some(p),
        UiEvent::PeerConnected(p) => Some(p),
        UiEvent::MessageReceived(p) => Some(p),
        UiEvent::FileOffered { from, .. } => Some(from),
        _ => None,
    }
}

/// The other id an event carries.
pub open spec fn spec_ui_id(e: UiEvent) -> Option<Seq<u8>> {
    match e {
        UiEvent::FileOffered { file_id, .. } => Some(file_id@),
        UiEvent::FileProgress(id) => Some(id@),
        UiEvent::FileComplete(id) => Some(id@),
        UiEvent::IceCandidateReceived(from) => Some(from@),
        _ => None,
    }
}

/// Every event that is about a peer names it: `Connected`, `PeerConnected`,
/// a received message and an offered file carry the peer's id, so the plan
/// of `plan_ui_event` gives its lowercase hex in `peer_hex`; the other events
/// name no peer. Likewise the file of an offer, of progress and of a
/// completion, and the source of an ICE candidate, are given in `id_hex`.
pub proof fn lemma_ui_events_name_their_ids(e: UiEvent)
    ensures
        e matches UiEvent::Connected(p) ==> spec_ui_peer(e) == Some(p),
        e matches UiEvent::PeerConnected(p) ==> spec_ui_peer(e) == Some(p),
        e matches UiEvent::MessageReceived(p) ==> spec_ui_peer(e) == Some(p),
        e matches UiEvent::FileOffered { from, file_id } ==> spec_ui_peer(e) == Some(from) && spec_ui_id(e) == Some(
            file_id@,
        ),
        e matches UiEvent::FileProgress(id) ==> spec_ui_id(e) == Some(id@) && spec_ui_peer(e) is None,
        e matches UiEvent::FileComplete(id) ==> spec_ui_id(e) == Some(id@) && spec_ui_peer(e) is None,
        e matches UiEvent::IceCandidateReceived(from) ==> spec_ui_id(e) == Some(from@) && spec_ui_peer(e) is None,
        e is Disconnected || e is AnonymityLevelChanged || e is Error ==> spec_ui_peer(e) is None && spec_ui_id(e) is None,
        e is Connected || e is PeerConnected || e is MessageReceived ==> spec_ui_id(e) is None,
{
}

fn ui_channel(e: &UiEvent) -> (c: &'static str)
    ensures
        c@ == spec_ui_channel(*e),
{
    match e {
        UiEvent::Connected(_) => "cypher://connected",
        UiEvent::Disconnected => "cypher://disconnected",
        UiEvent::PeerConnected(_) => "cypher://peer_connected",
        UiEvent::MessageReceived(_) => "cypher://message",
        UiEvent::FileOffered { .. } => "cypher://file_offered",
        UiEvent::FileProgress(_) => "cypher://file_progress",
        UiEvent::FileComplete(_) => "cypher://file_complete",
        UiEvent::IceCandidateReceived(_) => "cypher://ice_candidate",
        UiEvent::AnonymityLevelChanged(_) => "cypher://anonymity_level",
        UiEvent::Error => "cypher://error",
    }
}

/// Whether the peer list holds `p`.
fn has_peer(peers: &Vec<PeerId>, p: &PeerId) -> (r: bool)
    ensures
        r == peers@.contains(*p),
{
    let mut i: usize = 0;
    while i < peers.len()
        invariant
            0 <= i <= peers@.len(),
            forall|j: int| 0 <= j < i ==> peers@[j] != *p,
        decreases peers@.len() - i,
    {
        if bytes_eq(peers[i].0.as_slice(), p.0.as_slice()) {
            assert(peers@[i as int].0@ == p.0@);
            assert(peers@[i as int].0 =~= p.0);
            return true;
        }
        assert(peers@[i as int].0@ != p.0@);
        i = i + 1;
    }
    false
}

/// Handles a client event in the desktop shell. The set of connected peers
/// is cleared on disconnection (sessions do not survive a reconnect) and
/// gains a peer that connects, each peer kept once. The plan names the
/// channel, the ids in hexadecimal, whether to start a session with a new
/// peer, and the notification shown for an offered or completed file.
pub fn plan_ui_event(event: UiEvent, peers: &mut Vec<PeerId>) -> (plan: UiPlan)
    ensures
        event is Disconnected ==> final(peers)@.len() == 0,
        event matches UiEvent::PeerConnected(p) ==> final(peers)@.to_set() == old(peers)@.to_set().insert(p)
            && (old(peers)@.no_duplicates() ==> final(peers)@.no_duplicates()),
        !(event is Disconnected) && !(event is PeerConnected) ==> final(peers)@ == old(peers)@,
        plan.channel@ == spec_ui_channel(event),
        event matches UiEvent::MessageReceived(p) ==> plan.peer_hex is Some && plan.peer_hex.unwrap()@
            == spec_hex_encode(p.0@),
        event matches UiEvent::Connected(p) ==> plan.peer_hex is Some && plan.peer_hex.unwrap()@ == spec_hex_encode(
            p.0@,
        ),
        event matches UiEvent::PeerConnected(p) ==> plan.peer_hex is Some && plan.peer_hex.unwrap()@
            == spec_hex_encode(p.0@),
        event matches UiEvent::FileOffered { from, .. } ==> plan.peer_hex is Some && plan.peer_hex.unwrap()@
            == spec_hex_encode(from.0@),
        match spec_ui_peer(event) {
            Some(p) => plan.peer_hex is Some && plan.peer_hex.unwrap()@ == spec_hex_encode(p.0@),
            None => plan.peer_hex is None,
        },
        match spec_ui_id(event) {
            Some(id) => plan.id_hex is Some && plan.id_hex.unwrap()@ == spec_hex_encode(id),
            None => plan.id_hex is None,
        },
        plan.start_session == (match event {
            UiEvent::PeerConnected(p) => Some(p),
            _ => None,
        }),
        plan.notice == (match event {
            UiEvent::FileOffered { .. } => Some(Notice::FileOffered),
            UiEvent::FileComplete(_) => Some(Notice::TransferComplete),
            _ => None,
        }),
{
    let channel = ui_channel(&event);
    match event {
        UiEvent::Disconnected => {
            peers.clear();
            UiPlan { channel, peer_hex: None, id_hex: None, start_session: None, notice: None }
        },
        UiEvent::PeerConnected(p) => {
            if !has_peer(peers, &p) {
                peers.push(p);
                proof {
                    assert(peers@ == old(peers)@.push(p));
                    assert(peers@.to_set() =~= old(peers)@.to_set().insert(p)) by {
                        assert forall|x: PeerId| peers@.to_set().contains(x) <==> old(peers)@.to_set().insert(p).contains(x) by {
                            if x != p && peers@.contains(x) {
                                let j = choose|j: int| 0 <= j < peers@.len() && peers@[j] == x;
                                assert(j < old(peers)@.len());
                                assert(old(peers)@[j] == x);
                            }
                            if old(peers)@.contains(x) {
                                let j = choose|j: int| 0 <= j < old(peers)@.len() && old(peers)@[j] == x;
                                assert(peers@[j] == x);
                            }
                            if x == p {
                                assert(peers@[old(peers)@.len() as int] == p);
                            }
                        }
                    }
                }
            } else {
                proof {
                    assert(old(peers)@.to_set().insert(p) =~= old(peers)@.to_set());
                }
            }
            let hex = peer_id_hex(&p);
            UiPlan { channel, peer_hex: Some(hex), id_hex: None, start_session: Some(p), notice: None }
        },
        UiEvent::Connected(p) => {
            UiPlan { channel, peer_hex: Some(peer_id_hex(&p)), id_hex: None, start_session: None, notice: None }
        },
        UiEvent::MessageReceived(p) => {
            UiPlan { channel, peer_hex: Some(peer_id_hex(&p)), id_hex: None, start_session: None, notice: None }
        },
        UiEvent::FileOffered { from, file_id } => {
            UiPlan {
                channel,
                peer_hex: Some(peer_id_hex(&from)),
                id_hex: Some(bytes_to_hex(file_id.as_slice())),
                start_session: None,
                notice: Some(Notice::FileOffered),
            }
        },
        UiEvent::FileProgress(id) => {
            UiPlan { channel, peer_hex: None, id_hex: Some(bytes_to_hex(id.as_slice())), start_session: None, notice: None }
        },
        UiEvent::FileComplete(id) => {
            UiPlan {
                channel,
                peer_hex: None,
                id_hex: Some(bytes_to_hex(id.as_slice())),
                start_session: None,
                notice: Some(Notice::TransferComplete),
            }
        },
        UiEvent::IceCandidateReceived(from) => {
            UiPlan { channel, peer_hex: None, id_hex: Some(bytes_to_hex(from.as_slice())), start_session: None, notice: None }
        },
        UiEvent::AnonymityLevelChanged(_) => {
            UiPlan { channel, peer_hex: None, id_hex: None, start_session: None, notice: None }
        },
        UiEvent::Error => {
            UiPlan { channel, peer_hex: None, id_hex: None, start_session: None, notice: None }
        },
    }
}


/// The PNG image (a quiet zone round the code, one pixel per module, 8-bit
/// grey) of the QR code of some bytes, or the text of the error when the
/// bytes do not fit in a QR code.
pub uninterp spec fn spec_qr_png(text: Seq<u8>) -> core::result::Result<Seq<u8>, Seq<char>>;

/// `QrCode::new(text)` from `qrcode`, rendered with
/// `render::<Luma<u8>>().quiet_zone(true).build()`, then written as PNG by
/// `image`'s `write_to` into an in-memory buffer. Errors come back as their
/// text. The result, image or error, is named: it depends on the bytes alone.
#[verifier::external_body]
fn qr_png(text: &[u8]) -> (r: core::result::Result<Vec<u8>, String>)
    ensures
        match spec_qr_png(text@) {
            Ok(png) => r is Ok && r->Ok_0@ == png,
            Err(e) => r is Err && r->Err_0@ == e,
        },
{
    let code = qrcode::QrCode::new(text).map_err(|e| e.to_string())?;
    let img = code.render::<image::Luma<u8>>().quiet_zone(true).build();
    let mut png = std::io::Cursor::new(Vec::new());
    img.write_to(&mut png, image::ImageFormat::Png).map_err(|e| e.to_string())?;
    Ok(png.into_inner())
}

/// The standard base64 text (with `=` padding) of some bytes.
pub uninterp spec fn spec_base64(data: Seq<u8>) -> Seq<char>;

/// `base64::engine::general_purpose::STANDARD.encode(data)`. Its length
/// computation overflows only for inputs longer than any slice can be.
#[verifier::external_body]
fn base64_encode(data: &[u8]) -> (s: String)
    ensures
        s@ == spec_base64(data@),
{
    base64::engine::general_purpose::STANDARD.encode(data)
}

/// A share link's QR code as a data URI: the PNG image, base64-encoded,
/// after `data:image/png;base64,`. A link id too long for a QR code gives
/// the QR encoder's error text.
pub fn generate_qr(link_id: &str) -> (r: Result<String, String>)
    ensures
        match spec_qr_png(link_id.spec_bytes()) {
            Ok(png) => r is Ok && r->Ok_0@ == "data:image/png;base64,"@ + spec_base64(png),
            Err(e) => r is Err && r->Err_0@ == e,
        },
{
    let png = qr_png(link_id.as_bytes())?;
    let b64 = base64_encode(png.as_slice());
    let mut uri = "data:image/png;base64,".to_string();
    string_push_str(&mut uri, b64.as_str());
    Ok(uri)
}

} // verus!
