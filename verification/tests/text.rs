use cypher::common::config::{default_gateway_addr, default_nats_url, AppConfig};
use cypher::common::error::Error;
use cypher::common::text::{hex_decode, hex_encode, trim};
use cypher::common::types::{base32_encode, FileId, LinkId, PeerId};
use cypher::desktop::{
    bytes_to_hex, generate_qr, parse_chat_peer_id, parse_peer_id, peer_id_hex, plan_chat_delivery, plan_ui_event, ChatDelivery,
    Notice, UiEvent,
};
use base64::Engine;

#[test]
fn hex_roundtrip() {
    let bytes = vec![0u8, 1, 0xab, 0xff];
    let h = hex_encode(&bytes);
    assert_eq!(h, "0001abff");
    assert_eq!(hex_decode(&h).unwrap(), bytes);
    assert_eq!(hex_decode("ABcd").unwrap(), vec![0xab, 0xcd]);
    assert!(matches!(hex_decode("abc"), Err(Error::Protocol(_))));
    assert!(matches!(hex_decode("zz"), Err(Error::Protocol(_))));
    assert!(matches!(hex_decode("+a"), Err(Error::Protocol(_))));
}

#[test]
fn peer_id_text() {
    let p = PeerId([0xab; 32]);
    assert_eq!(p.to_display_string(), "abababab...");
    let h = peer_id_hex(&p);
    assert_eq!(h.len(), 64);
    assert_eq!(parse_peer_id(&h).unwrap(), p);
    assert_eq!(parse_chat_peer_id(&h).unwrap(), p);
    assert!(parse_peer_id("abcd").is_err());
    assert!(parse_chat_peer_id("abcd").is_err());
    assert_eq!(bytes_to_hex(&[1, 2]), "0102");
    assert!(PeerId::from_bytes(&[0u8; 31]).is_none());
    assert_eq!(PeerId::from_bytes(&[7u8; 32]).unwrap().to_vec(), vec![7u8; 32]);
}

#[test]
fn base32_and_ids() {
    assert_eq!(base32_encode(b""), "");
    assert_eq!(base32_encode(b"f"), "my");
    assert_eq!(base32_encode(b"foobar"), "mzxw6ytboi");
    let l = LinkId::generate();
    assert_eq!(l.as_str().len(), 26);
    assert!(l.as_str().chars().all(|c| c.is_ascii_lowercase() || ('2'..='7').contains(&c)));
    let f = FileId::generate();
    assert_eq!(FileId::from_bytes(&f.to_vec()).unwrap(), f);
    assert!(FileId::from_bytes(&[0u8; 15]).is_none());
}

#[test]
fn trimming() {
    assert_eq!(trim("  a b \n"), "a b");
    assert_eq!(trim("\u{3000}x\u{85}"), "x");
    assert_eq!(trim(" \t "), "");
}

#[test]
fn config_defaults() {
    let c = AppConfig::default();
    assert_eq!(c.gateway_addr, "0.0.0.0:9100");
    assert_eq!(default_gateway_addr(), "0.0.0.0:9100");
    assert_eq!(default_nats_url(), "nats://127.0.0.1:4222");
}

#[test]
fn chat_delivery_routes() {
    assert_eq!(plan_chat_delivery(true, false, false, false), Ok(ChatDelivery::Online { start_session: true }));
    assert_eq!(plan_chat_delivery(true, true, true, true), Ok(ChatDelivery::Online { start_session: false }));
    assert_eq!(plan_chat_delivery(false, true, true, true), Ok(ChatDelivery::Offline));
    assert_eq!(plan_chat_delivery(false, true, false, true), Err("message store unavailable".to_string()));
    assert_eq!(
        plan_chat_delivery(false, true, true, false),
        Err("Offline delivery is unavailable for this chat until the peer reconnects and completes a new key exchange."
            .to_string())
    );
    assert_eq!(
        plan_chat_delivery(false, false, true, true),
        Err("Offline delivery is unavailable because this chat has no restored secure session yet.".to_string())
    );
}

#[test]
fn desktop_events_planned() {
    let a = PeerId([0xaa; 32]);
    let b = PeerId([0xbb; 32]);
    let mut peers = vec![a];
    let plan = plan_ui_event(UiEvent::PeerConnected(b), &mut peers);
    assert_eq!(plan.channel, "cypher://peer_connected");
    assert_eq!(plan.peer_hex, Some("bb".repeat(32)));
    assert_eq!(plan.start_session, Some(b));
    assert_eq!(peers, vec![a, b]);
    plan_ui_event(UiEvent::PeerConnected(a), &mut peers);
    assert_eq!(peers, vec![a, b]);
    let plan = plan_ui_event(UiEvent::FileOffered { from: a, file_id: [1; 16] }, &mut peers);
    assert_eq!(plan.channel, "cypher://file_offered");
    assert_eq!(plan.id_hex, Some("01".repeat(16)));
    assert_eq!(plan.notice, Some(Notice::FileOffered));
    let plan = plan_ui_event(UiEvent::FileComplete(vec![0xff]), &mut peers);
    assert_eq!(plan.channel, "cypher://file_complete");
    assert_eq!(plan.notice, Some(Notice::TransferComplete));
    let plan = plan_ui_event(UiEvent::Disconnected, &mut peers);
    assert_eq!(plan.channel, "cypher://disconnected");
    assert!(peers.is_empty());
    assert_eq!(plan_ui_event(UiEvent::Error, &mut peers).channel, "cypher://error");
}

#[test]
fn qr_codes_of_links() {
    let uri = generate_qr("ABCDEF123456").unwrap();
    let prefix = "data:image/png;base64,";
    assert!(uri.starts_with(prefix));
    let png = base64::engine::general_purpose::STANDARD.decode(&uri[prefix.len()..]).unwrap();
    assert_eq!(&png[..8], &[0x89, b'P', b'N', b'G', 0x0d, 0x0a, 0x1a, 0x0a]);
    assert_eq!(generate_qr("ABCDEF123456").unwrap(), uri);
    assert!(generate_qr(&"x".repeat(5000)).is_err());
}

#[test]
fn hex_error_texts() {
    match hex_decode("abc") {
        Err(Error::Protocol(m)) => assert_eq!(m, "odd-length hex string"),
        _ => panic!("expected a protocol error"),
    }
    match hex_decode("00ffzz11") {
        Err(Error::Protocol(m)) => assert_eq!(m, "invalid hex at offset 4"),
        _ => panic!("expected a protocol error"),
    }
}
