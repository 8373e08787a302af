use cypher::client::runtime::{
    accept_message, connect_step, file_chunk_step, finalize_action, send_outcome, take_pending_offer, AcceptMessage,
    ChunkAction, ChunkFailure, ConnectAction, ConnectPhase, FinalizeAction, PendingOffer, SendFinish, StepOutcome,
};
use cypher::client::api::parse_missing_indices;
use cypher::common::error::Error;
use cypher::common::types::{FileId, FileMeta, PeerId};

fn run_connect(has_inbox: bool) -> Vec<String> {
    let mut phase = ConnectPhase::Tls;
    let mut actions = Vec::new();
    loop {
        let (next, action) = connect_step(phase, StepOutcome::Succeeded, has_inbox);
        actions.push(format!("{:?}", action));
        phase = next;
        if matches!(action, ConnectAction::Finish) {
            break;
        }
    }
    actions
}

#[test]
fn connect_runs_its_phases_in_order() {
    assert_eq!(
        run_connect(true),
        vec![
            "SendSessionInit", "UploadPrekeys", "FetchBootstrap", "StartService", "EmitConnected",
            "EmitAnonymityLevel", "FetchInbox", "Finish"
        ]
    );
    assert_eq!(
        run_connect(false),
        vec!["SendSessionInit", "UploadPrekeys", "FetchBootstrap", "StartService", "EmitConnected", "EmitAnonymityLevel", "Finish"]
    );
}

#[test]
fn connect_failures_end_the_run() {
    let (p, a) = connect_step(ConnectPhase::UploadPrekeys, StepOutcome::TimedOut, true);
    assert_eq!(p, ConnectPhase::Failed);
    match a {
        ConnectAction::Fail(Error::Transport(m)) => assert_eq!(m, "prekey upload timed out"),
        other => panic!("unexpected {:?}", other),
    }
    let (p, a) = connect_step(ConnectPhase::SessionInit, StepOutcome::Failed(Error::Protocol("no".into())), true);
    assert_eq!(p, ConnectPhase::Failed);
    assert!(matches!(a, ConnectAction::Fail(Error::Protocol(m)) if m == "no"));
    match connect_step(ConnectPhase::FetchInbox, StepOutcome::TimedOut, true).1 {
        ConnectAction::Fail(Error::Transport(m)) => assert_eq!(m, "blind inbox fetch timed out"),
        other => panic!("unexpected {:?}", other),
    }
}

#[test]
fn transfer_endings() {
    assert_eq!(send_outcome(false, true), SendFinish::ReaderInUse);
    assert_eq!(send_outcome(true, false), SendFinish::Failed);
    assert_eq!(send_outcome(true, true), SendFinish::Completed);
    assert_eq!(finalize_action(Some(true)), FinalizeAction::Complete);
    assert_eq!(finalize_action(Some(false)), FinalizeAction::IntegrityFailed);
    assert_eq!(finalize_action(None), FinalizeAction::VerifyError);
}

#[test]
fn chunk_steps() {
    assert_eq!(file_chunk_step(false, true, true, true, true, true), ChunkAction::Ignore);
    assert_eq!(file_chunk_step(true, false, false, true, true, true), ChunkAction::Report(ChunkFailure::Decrypt));
    assert_eq!(file_chunk_step(true, true, true, false, true, true), ChunkAction::Report(ChunkFailure::Decompress));
    assert_eq!(file_chunk_step(true, true, false, false, false, false), ChunkAction::Report(ChunkFailure::Write));
    assert_eq!(file_chunk_step(true, true, false, false, true, false), ChunkAction::Acknowledge { finalize: false });
    assert_eq!(file_chunk_step(true, true, true, true, true, true), ChunkAction::Acknowledge { finalize: true });
}

#[test]
fn accepting_offers() {
    match take_pending_offer(None) {
        Err(Error::Protocol(m)) => assert_eq!(m, "no pending file offer for that id"),
        _ => panic!("expected a protocol error"),
    }
    let meta = FileMeta { file_id: FileId([1; 16]), name: "a".into(), size: 3, chunk_count: 1, hash: vec![], compressed: false };
    let offer = take_pending_offer(Some(PendingOffer { meta, sender: PeerId([4; 32]) })).unwrap();
    assert_eq!(offer.sender, PeerId([4; 32]));
    match accept_message(&offer.sender, &[1; 16], None) {
        AcceptMessage::Accept { peer_id, file_id } => {
            assert_eq!(peer_id, PeerId([4; 32]));
            assert_eq!(file_id, vec![1; 16]);
        }
        _ => panic!("expected an acceptance"),
    }
    match accept_message(&offer.sender, &[1; 16], Some(vec![2, 9])) {
        AcceptMessage::Resume { peer_id, file_id, missing } => {
            assert_eq!(peer_id, PeerId([4; 32]));
            assert_eq!(file_id, vec![1; 16]);
            assert_eq!(parse_missing_indices(&missing), vec![2, 9]);
        }
        _ => panic!("expected a resume request"),
    }
}
