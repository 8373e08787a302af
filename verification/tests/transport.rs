use cypher::client::onion::bootstrap::{RelayBootstrap, TransportBootstrap};
use cypher::client::onion::service::AnonymousTransportService;
use cypher::client::onion::config::{AnonymousTransportConfig, TorSettings};
use cypher::client::onion::cover::{cover_dummy_ids, next_cover_interval, CoverStep, CoverTraffic, PowerMode};
use cypher::client::onion::fetcher::{collect_fetch_results, distribute_jobs, plan_fetch_jobs, transport_count, FetchJob};
use cypher::client::onion::indicator::{compute_level, AnonymityLevel};
use cypher::client::onion::jitter::pipeline_schedule;
use cypher::client::onion::pool::{Acquired, TransportPool};
use cypher::client::onion::relay_client::{relay_frame_action, FrameAction};
use cypher::client::onion::shadow::ShadowSession;
use cypher::client::onion::tor::{dedup_and_validate, resolve_bridge_lines};
use cypher::common::error::Error;
use cypher::common::types::PeerId;

#[test]
fn schedule_length() {
    let s = pipeline_schedule(vec![100; 9]);
    assert_eq!(s.len(), 9);
}

#[test]
fn schedule_has_long_pause() {
    let has_long = (0..100).any(|_| pipeline_schedule(vec![100; 9]).iter().any(|d| *d > 500));
    assert!(has_long);
}

#[test]
fn schedule_empty() {
    assert!(pipeline_schedule(Vec::new()).is_empty());
}

#[test]
fn schedule_adds_one_or_two_pauses() {
    for _ in 0..50 {
        let s = pipeline_schedule(vec![20, 500, 100]);
        let extra: u64 = s.iter().zip([20u64, 500, 100]).map(|(d, b)| d - b).sum();
        assert!((300..=2000).contains(&extra));
    }
}

#[test]
fn resolve_bridge_lines_uses_runtime_settings() {
    let settings = TorSettings { enabled: true, bridge_lines: vec!["obfs4 127.0.0.1:1111 abc cert=xyz iat-mode=0".into()] };
    let lines = resolve_bridge_lines(&settings);
    assert_eq!(lines.len(), 1);
    assert!(lines[0].starts_with("obfs4 127.0.0.1:1111"));
}

#[test]
fn resolve_bridge_lines_filters_duplicates() {
    let settings = TorSettings { enabled: true, bridge_lines: vec![" bridge-a ".into(), "bridge-a".into(), String::new()] };
    let lines = resolve_bridge_lines(&settings);
    assert_eq!(lines, vec!["bridge-a".to_string()]);
}

#[test]
fn resolve_bridge_lines_samples_eight() {
    let settings = TorSettings { enabled: true, bridge_lines: (0..20).map(|i| format!("bridge-{i}")).collect() };
    let lines = resolve_bridge_lines(&settings);
    assert_eq!(lines.len(), 8);
    for l in &lines {
        assert!(l.starts_with("bridge-"));
    }
    let mut sorted = lines.clone();
    sorted.sort();
    sorted.dedup();
    assert_eq!(sorted.len(), 8);
}

#[test]
fn dedup_drops_long_and_blank_lines() {
    let long = "x".repeat(1025);
    let ok = "y".repeat(1024);
    let out = dedup_and_validate(vec![long, "\t \u{3000}".to_string(), ok.clone(), " a\n".to_string(), "a".to_string()]);
    assert_eq!(out, vec![ok, "a".to_string()]);
}

#[test]
fn jobs_are_planned_with_dummies() {
    let ids = vec![vec![1u8; 8], vec![2u8; 8], vec![3u8; 8]];
    let jobs = plan_fetch_jobs(&ids);
    assert_eq!(jobs.len(), 5);
    let mut real: Vec<Vec<u8>> = jobs.iter().filter(|j| !j.is_dummy).map(|j| j.inbox_id.clone()).collect();
    real.sort();
    assert_eq!(real, ids);
    assert!(jobs.iter().filter(|j| j.is_dummy).all(|j| j.inbox_id.len() == 32));
    assert_eq!(plan_fetch_jobs(&vec![vec![9u8]]).len(), 2);
    assert!(plan_fetch_jobs(&Vec::new()).is_empty());
}

#[test]
fn jobs_are_distributed_round_robin() {
    let jobs: Vec<FetchJob> = (0..7u8).map(|i| FetchJob { inbox_id: vec![i], is_dummy: false }).collect();
    let chunks = distribute_jobs(jobs, 3);
    let ids: Vec<Vec<u8>> = chunks.iter().map(|c| c.iter().map(|j| j.inbox_id[0]).collect()).collect();
    assert_eq!(ids, vec![vec![0, 3, 6], vec![1, 4], vec![2, 5]]);
    assert_eq!(transport_count(0), 1);
    assert_eq!(transport_count(2), 2);
    assert_eq!(transport_count(9), 3);
}

#[test]
fn pool_acquire_and_release() {
    let mut pool: TransportPool<u32> = TransportPool::new(true).with_target_count(0);
    assert_eq!(pool.target_count, 1);
    assert_eq!(pool.initial_warm_count(), 1);
    let (a, warm) = pool.acquire();
    assert!(matches!(a, Acquired::Direct));
    assert!(warm);
    pool.add_warmed(7);
    pool.add_warmed(8);
    let (a, warm) = pool.acquire();
    assert!(matches!(a, Acquired::Relay(8)));
    assert!(!warm);
    assert_eq!(pool.relay_ready_count(), 1);
    assert_eq!(pool.release(8), Some(8));
    let (_, _) = pool.acquire();
    assert_eq!(pool.release(7), None);
    assert_eq!(pool.relay_ready_count(), 1);
    let mut no_relay: TransportPool<u32> = TransportPool::new(false);
    assert_eq!(no_relay.initial_warm_count(), 0);
    assert!(!no_relay.acquire().1);
}

#[test]
fn shadow_session_budget() {
    let mut s = ShadowSession::new((), PeerId([1u8; 32]));
    assert_eq!(s.remaining_requests(), 30);
    assert!(!s.is_expired(600_000));
    assert!(s.is_expired(600_001));
    for _ in 0..30 {
        s.begin_request(0).unwrap();
    }
    assert!(s.is_expired(0));
    assert_eq!(s.remaining_requests(), 0);
    assert!(matches!(s.begin_request(0), Err(Error::Transport(_))));
    assert_eq!(s.request_count, 30);
    assert_eq!(s.peer_id(), &PeerId([1u8; 32]));
}

#[test]
fn cover_intervals_by_mode() {
    for _ in 0..20 {
        let d = next_cover_interval(PowerMode::Desktop).unwrap();
        assert!((120..=300).contains(&d));
        let m = next_cover_interval(PowerMode::MobileForeground).unwrap();
        assert!((300..=600).contains(&m));
        let ids = cover_dummy_ids();
        assert!((1..=3).contains(&ids.len()));
        assert!(ids.iter().all(|i| i.len() == 32));
    }
    assert!(next_cover_interval(PowerMode::MobileBackground).is_none());
    assert!(next_cover_interval(PowerMode::BatterySaver).is_none());
}

#[test]
fn anonymity_levels() {
    assert_eq!(compute_level(1, 5), AnonymityLevel::Tor);
    assert_eq!(compute_level(0, 2), AnonymityLevel::Relay);
    assert_eq!(compute_level(0, 0), AnonymityLevel::Direct);
    assert_eq!(AnonymityLevel::Relay.level(), 2);
    assert_eq!(AnonymityLevel::Tor.to_display_string(), "Level 3 (Tor)");
    assert_eq!(AnonymityLevel::Direct.description(), "Direct fetch");
    assert_eq!(AnonymityLevel::Relay.description(), "Inbox fetch routed through relay");
}

#[test]
fn transport_config_defaults() {
    let c = AnonymousTransportConfig::default();
    assert_eq!(c.power_mode, PowerMode::Desktop);
    assert_eq!(c.target_count, 3);
    assert!(c.tor.enabled);
    assert!(c.tor.bridge_lines.is_empty());
}

#[test]
fn relay_frames() {
    assert_eq!(relay_frame_action(true, false), FrameAction::ReplyPong);
    assert_eq!(relay_frame_action(false, true), FrameAction::Skip);
    assert_eq!(relay_frame_action(false, false), FrameAction::Deliver);
}

#[test]
fn service_requires_signed_inbox() {
    let unsigned = TransportBootstrap { relay: None, inbox_verifying_key: [1; 32], capabilities: 2 };
    assert!(matches!(
        AnonymousTransportService::<u8>::new(unsigned, AnonymousTransportConfig::default()),
        Err(Error::Protocol(_))
    ));

    let relay = RelayBootstrap { addr: "relay:443".to_string(), public_key: [2; 32] };
    let signed = TransportBootstrap { relay: Some(relay), inbox_verifying_key: [1; 32], capabilities: 3 };
    let mut config = AnonymousTransportConfig::default();
    config.target_count = 0;
    let mut svc = AnonymousTransportService::<u8>::new(signed, config).unwrap();
    assert!(svc.pool.has_relay);
    assert_eq!(svc.pool.target_count, 1);
    assert_eq!(svc.pool.initial_warm_count(), 1);
    assert_eq!(svc.level(0), AnonymityLevel::Direct);
    svc.pool.add_warmed(7);
    assert_eq!(svc.level(0), AnonymityLevel::Relay);
    assert_eq!(svc.level(2), AnonymityLevel::Tor);
    let mut cfg = AnonymousTransportConfig::default();
    cfg.power_mode = PowerMode::BatterySaver;
    svc.set_config(cfg);
    assert_eq!(svc.config.power_mode, PowerMode::BatterySaver);
    assert_eq!(svc.pool.circuits, vec![7]);

    let direct_only = TransportBootstrap { relay: None, inbox_verifying_key: [1; 32], capabilities: 1 };
    let svc = AnonymousTransportService::<u8>::new(direct_only, AnonymousTransportConfig::default()).unwrap();
    assert_eq!(svc.pool.initial_warm_count(), 0);
    assert_eq!(svc.pool.target_count, 3);
}

#[test]
fn cover_loop_steps() {
    let mut cover = CoverTraffic::new(PowerMode::Desktop);
    for _ in 0..50 {
        match cover.next_step() {
            CoverStep::Fetch { wait_secs } => assert!((120..=300).contains(&wait_secs)),
            other => panic!("unexpected {:?}", other),
        }
    }
    cover.set_mode(PowerMode::MobileForeground);
    match cover.next_step() {
        CoverStep::Fetch { wait_secs } => assert!((300..=600).contains(&wait_secs)),
        other => panic!("unexpected {:?}", other),
    }
    cover.set_mode(PowerMode::BatterySaver);
    assert_eq!(cover.next_step(), CoverStep::Recheck { wait_secs: 60 });
    cover.set_mode(PowerMode::MobileBackground);
    assert_eq!(cover.next_step(), CoverStep::Recheck { wait_secs: 60 });
}

#[test]
fn pool_acquire_then_release_restores() {
    let mut pool = TransportPool::new(true).with_target_count(2);
    pool.add_warmed(10u8);
    pool.add_warmed(11u8);
    let (got, replenish) = pool.acquire();
    assert!(replenish);
    let c = match got {
        Acquired::Relay(c) => c,
        Acquired::Direct => panic!("expected a relay circuit"),
    };
    assert_eq!(c, 11);
    assert_eq!(pool.release(c), None);
    assert_eq!(pool.circuits, vec![10, 11]);
}

#[test]
fn fetch_results_collected_in_order() {
    let r = |id: u8, p: u8| (vec![id], vec![p]);
    let out = collect_fetch_results(vec![vec![r(1, 10), r(2, 20)], vec![], vec![r(3, 30)]]);
    assert_eq!(out, vec![r(1, 10), r(2, 20), r(3, 30)]);
    assert!(collect_fetch_results(vec![]).is_empty());
}
