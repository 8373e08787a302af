//! The decisions of the client runtime's long-running tasks: connecting to
//! the gateway, finishing an outgoing transfer, receiving file chunks and
//! accepting an offered file. Each task alternates outside work (network,
//! disk, timers) with decisions; the caller does the work and asks the step
//! functions here what comes next.

use vstd::prelude::*;
use crate::common::error::{Error, Result};
use crate::common::types::{FileMeta, PeerId};
use crate::client::api::{pack_missing_indices, spec_pack_indices};

verus! {

/// The phases of connecting to the gateway, in order.
#[derive(Debug, Clone, Copy, PartialEq, Eq, Structural)]
pub enum ConnectPhase {
    /// Opening the TLS connection.
    Tls,
    /// The `SESSION_INIT` handshake.
    SessionInit,
    /// Uploading our pre-keys.
    UploadPrekeys,
    /// Fetching the transport bootstrap.
    Bootstrap,
    /// Starting the anonymous transport service and the I/O task.
    StartService,
    /// Announcing that we are connected.
    AnnounceConnected,
    /// Announcing the anonymity level.
    AnnounceLevel,
    /// Fetching our blind inbox.
    FetchInbox,
    /// Connected.
    Done,
    /// Gave up.
    Failed,
}

/// How the work of a phase ended.
#[derive(Debug)]
pub enum StepOutcome {
    Succeeded,
    Failed(Error),
    /// The phase's 10-second limit ran out.
    TimedOut,
}

/// What the caller does next while connecting.
#[derive(Debug)]
pub enum ConnectAction {
    SendSessionInit,
    UploadPrekeys,
    FetchBootstrap,
    StartService,
    EmitConnected,
    EmitAnonymityLevel,
    FetchInbox,
    /// Connecting is complete.
    Finish,
    /// Connecting failed with this error; nothing more is emitted.
    Fail(Error),
}

/// The phase after a phase that succeeded, and what to do in it.
pub open spec fn spec_connect_next(phase: ConnectPhase, has_inbox_id: bool) -> (ConnectPhase, ConnectAction) {
    match phase {
        ConnectPhase::Tls => (ConnectPhase::SessionInit, ConnectAction::SendSessionInit),
        ConnectPhase::SessionInit => (ConnectPhase::UploadPrekeys, ConnectAction::UploadPrekeys),
        ConnectPhase::UploadPrekeys => (ConnectPhase::Bootstrap, ConnectAction::FetchBootstrap),
        ConnectPhase::Bootstrap => (ConnectPhase::StartService, ConnectAction::StartService),
        ConnectPhase::StartService => (ConnectPhase::AnnounceConnected, ConnectAction::EmitConnected),
        ConnectPhase::AnnounceConnected => (ConnectPhase::AnnounceLevel, ConnectAction::EmitAnonymityLevel),
        ConnectPhase::AnnounceLevel => if has_inbox_id {
            (ConnectPhase::FetchInbox, ConnectAction::FetchInbox)
        } else {
            (ConnectPhase::Done, ConnectAction::Finish)
        },
        ConnectPhase::FetchInbox => (ConnectPhase::Done, ConnectAction::Finish),
        ConnectPhase::Done => (ConnectPhase::Done, ConnectAction::Finish),
        ConnectPhase::Failed => (ConnectPhase::Failed, ConnectAction::Finish),
    }
}

/// The error text of a phase that ran out of time.
pub open spec fn spec_timeout_message(phase: ConnectPhase) -> Seq<char> {
    match phase {
        ConnectPhase::SessionInit => "SESSION_INIT timed out"@,
        ConnectPhase::UploadPrekeys => "prekey upload timed out"@,
        ConnectPhase::Bootstrap => "transport bootstrap timed out"@,
        ConnectPhase::FetchInbox => "blind inbox fetch timed out"@,
        _ => "connect timed out"@,
    }
}

fn timeout_message(phase: ConnectPhase) -> (s: String)
    ensures
        s@ == spec_timeout_message(phase),
{
    match phase {
        ConnectPhase::SessionInit => "SESSION_INIT timed out".to_string(),
        ConnectPhase::UploadPrekeys => "prekey upload timed out".to_string(),
        ConnectPhase::Bootstrap => "transport bootstrap timed out".to_string(),
        ConnectPhase::FetchInbox => "blind inbox fetch timed out".to_string(),
        _ => "connect timed out".to_string(),
    }
}

/// One step of connecting: given the phase whose work just ended and how it
/// ended, the next phase and what to do. The phases run TLS, session
/// handshake, pre-key upload, transport bootstrap, service start, the
/// `Connected` announcement, the anonymity level announcement, then the
/// blind inbox fetch only when we have an inbox id. A phase that fails ends
/// connecting with its error; one that times out ends it with a transport
/// error naming the phase.
pub fn connect_step(phase: ConnectPhase, outcome: StepOutcome, has_inbox_id: bool) -> (r: (ConnectPhase, ConnectAction))
    ensures
        outcome is Succeeded ==> r == spec_connect_next(phase, has_inbox_id),
        outcome matches StepOutcome::Failed(e) ==> r.0 == ConnectPhase::Failed && r.1 == ConnectAction::Fail(e),
        outcome is TimedOut ==> r.0 == ConnectPhase::Failed && (r.1 matches ConnectAction::Fail(Error::Transport(m))
            && m@ == spec_timeout_message(phase)),
{
    match outcome {
        StepOutcome::Failed(e) => (ConnectPhase::Failed, ConnectAction::Fail(e)),
        StepOutcome::TimedOut => (ConnectPhase::Failed, ConnectAction::Fail(Error::Transport(timeout_message(phase)))),
        StepOutcome::Succeeded => match phase {
            ConnectPhase::Tls => (ConnectPhase::SessionInit, ConnectAction::SendSessionInit),
            ConnectPhase::SessionInit => (ConnectPhase::UploadPrekeys, ConnectAction::UploadPrekeys),
            ConnectPhase::UploadPrekeys => (ConnectPhase::Bootstrap, ConnectAction::FetchBootstrap),
            ConnectPhase::Bootstrap => (ConnectPhase::StartService, ConnectAction::StartService),
            ConnectPhase::StartService => (ConnectPhase::AnnounceConnected, ConnectAction::EmitConnected),
            ConnectPhase::AnnounceConnected => (ConnectPhase::AnnounceLevel, ConnectAction::EmitAnonymityLevel),
            ConnectPhase::AnnounceLevel => if has_inbox_id {
                (ConnectPhase::FetchInbox, ConnectAction::FetchInbox)
            } else {
                (ConnectPhase::Done, ConnectAction::Finish)
            },
            ConnectPhase::FetchInbox => (ConnectPhase::Done, ConnectAction::Finish),
            ConnectPhase::Done => (ConnectPhase::Done, ConnectAction::Finish),
            ConnectPhase::Failed => (ConnectPhase::Failed, ConnectAction::Finish),
        },
    }
}

/// The actions of a connection whose every phase succeeds, from the TLS
/// connection on.
pub open spec fn spec_connect_run(has_inbox_id: bool) -> Seq<ConnectAction> {
    seq![
        ConnectAction::SendSessionInit,
        ConnectAction::UploadPrekeys,
        ConnectAction::FetchBootstrap,
        ConnectAction::StartService,
        ConnectAction::EmitConnected,
        ConnectAction::EmitAnonymityLevel,
    ] + if has_inbox_id {
        seq![ConnectAction::FetchInbox, ConnectAction::Finish]
    } else {
        seq![ConnectAction::Finish]
    }
}

/// The phases a successful connection passes through, from TLS on.
pub open spec fn spec_connect_phases(has_inbox_id: bool) -> Seq<ConnectPhase> {
    seq![
        ConnectPhase::Tls,
        ConnectPhase::SessionInit,
        ConnectPhase::UploadPrekeys,
        ConnectPhase::Bootstrap,
        ConnectPhase::StartService,
        ConnectPhase::AnnounceConnected,
        ConnectPhase::AnnounceLevel,
    ] + if has_inbox_id {
        seq![ConnectPhase::FetchInbox]
    } else {
        Seq::empty()
    }
}

/// A connection whose every phase succeeds: stepping through its phases
/// gives its actions in order, ending in `Finish`. `Connected` is announced
/// before the anonymity level, the blind inbox is fetched only with an inbox
/// id and only after both announcements, and nothing follows `Finish`.
pub proof fn lemma_connect_sequence(has_inbox_id: bool)
    ensures
        spec_connect_phases(has_inbox_id).len() == spec_connect_run(has_inbox_id).len(),
        forall|i: int|
            0 <= i < spec_connect_phases(has_inbox_id).len() ==> spec_connect_next(
                #[trigger] spec_connect_phases(has_inbox_id)[i],
                has_inbox_id,
            ).1 == spec_connect_run(has_inbox_id)[i] && (i + 1 < spec_connect_phases(has_inbox_id).len()
                ==> spec_connect_next(spec_connect_phases(has_inbox_id)[i], has_inbox_id).0 == spec_connect_phases(
                has_inbox_id,
            )[i + 1]),
        spec_connect_run(has_inbox_id)[4] == ConnectAction::EmitConnected,
        spec_connect_run(has_inbox_id)[5] == ConnectAction::EmitAnonymityLevel,
        has_inbox_id <==> spec_connect_run(has_inbox_id).contains(ConnectAction::FetchInbox),
        spec_connect_run(has_inbox_id).last() == ConnectAction::Finish,
{
    let run = spec_connect_run(has_inbox_id);
    if !has_inbox_id {
        assert(!run.contains(ConnectAction::FetchInbox)) by {
            assert forall|i: int| 0 <= i < run.len() implies run[i] != ConnectAction::FetchInbox by {}
        }
    } else {
        assert(run[6] == ConnectAction::FetchInbox);
    }
}

/// How an outgoing transfer's task ends.
#[derive(Debug, Clone, Copy, PartialEq, Eq, Structural)]
pub enum SendFinish {
    /// The file's reader was still shared: report "file send failed: chunker
    /// still referenced"; the transfer stays registered.
    ReaderInUse,
    /// The windowed transfer failed: forget the transfer and report the
    /// error as `transfer: <error>`.
    Failed,
    /// Every chunk was acknowledged: forget the transfer, send the
    /// `FileComplete` frame to the peer and announce `FileComplete`.
    Completed,
}

/// The end of an outgoing transfer: `reader_free` says whether the task got
/// sole hold of the file's reader; `transferred` whether the windowed
/// transfer succeeded (not asked when the reader was shared).
pub fn send_outcome(reader_free: bool, transferred: bool) -> (f: SendFinish)
    ensures
        !reader_free ==> f == SendFinish::ReaderInUse,
        reader_free && !transferred ==> f == SendFinish::Failed,
        reader_free && transferred ==> f == SendFinish::Completed,
{
    if !reader_free {
        SendFinish::ReaderInUse
    } else if !transferred {
        SendFinish::Failed
    } else {
        SendFinish::Completed
    }
}

/// Which step of receiving a chunk failed.
#[derive(Debug, Clone, Copy, PartialEq, Eq, Structural)]
pub enum ChunkFailure {
    /// Decryption under the sender's session (reported as `chunk decrypt: ..`).
    Decrypt,
    /// Decompression of a compressed transfer (`chunk decompress: ..`).
    Decompress,
    /// Writing the chunk (`chunk error: ..`).
    Write,
}

/// What the runtime does with a received file chunk.
#[derive(Debug, Clone, Copy, PartialEq, Eq, Structural)]
pub enum ChunkAction {
    /// The chunk belongs to no transfer in progress: drop it silently.
    Ignore,
    /// Report one error event; no acknowledgement is sent.
    Report(ChunkFailure),
    /// Acknowledge the chunk and announce the progress; when the file is
    /// complete, finalize it.
    Acknowledge { finalize: bool },
}

/// Decides what becomes of a received chunk, given how its handling went.
/// `known`: it belongs to a transfer in progress; `decrypted`: it decrypted;
/// `compressed`: the transfer is compressed; `decompressed`: it decompressed
/// (asked only for compressed transfers); `written`: it was written;
/// `done`: it was the last missing chunk. Each step is tried only when the
/// ones before it succeeded.
pub fn file_chunk_step(
    known: bool,
    decrypted: bool,
    compressed: bool,
    decompressed: bool,
    written: bool,
    done: bool,
) -> (a: ChunkAction)
    ensures
        !known ==> a == ChunkAction::Ignore,
        known && !decrypted ==> a == ChunkAction::Report(ChunkFailure::Decrypt),
        known && decrypted && compressed && !decompressed ==> a == ChunkAction::Report(ChunkFailure::Decompress),
        known && decrypted && (!compressed || decompressed) && !written ==> a == ChunkAction::Report(ChunkFailure::Write),
        known && decrypted && (!compressed || decompressed) && written ==> a == (ChunkAction::Acknowledge { finalize: done }),
{
    if !known {
        return ChunkAction::Ignore;
    }
    if !decrypted {
        return ChunkAction::Report(ChunkFailure::Decrypt);
    }
    if compressed && !decompressed {
        return ChunkAction::Report(ChunkFailure::Decompress);
    }
    if !written {
        return ChunkAction::Report(ChunkFailure::Write);
    }
    ChunkAction::Acknowledge { finalize: done }
}

/// What finalizing a received file announces.
#[derive(Debug, Clone, Copy, PartialEq, Eq, Structural)]
pub enum FinalizeAction {
    /// The hash matched: clean up the resume state and announce `FileComplete`.
    Complete,
    /// The hash did not match: report "file integrity verification failed".
    IntegrityFailed,
    /// Verification itself failed: report the error.
    VerifyError,
}

/// Finalizing a received file, given its integrity check: `Some(matched)`
/// when the check ran, `None` when it failed.
pub fn finalize_action(verified: Option<bool>) -> (a: FinalizeAction)
    ensures
        verified == Some(true) ==> a == FinalizeAction::Complete,
        verified == Some(false) ==> a == FinalizeAction::IntegrityFailed,
        verified is None ==> a == FinalizeAction::VerifyError,
{
    match verified {
        Some(true) => FinalizeAction::Complete,
        Some(false) => FinalizeAction::IntegrityFailed,
        None => FinalizeAction::VerifyError,
    }
}

/// The offer being accepted: the file's metadata and its sender.
pub struct PendingOffer {
    pub meta: FileMeta,
    pub sender: PeerId,
}

/// The message that accepts an offered file.
pub enum AcceptMessage {
    /// Start the transfer from the beginning.
    Accept { peer_id: PeerId, file_id: Vec<u8> },
    /// Resume it: the chunk indices still missing, packed.
    Resume { peer_id: PeerId, file_id: Vec<u8>, missing: Vec<u8> },
}

/// Takes the pending offer for a file out of the caller's table: accepting
/// a file that has no pending offer is a protocol error.
pub fn take_pending_offer(pending: Option<PendingOffer>) -> (r: Result<PendingOffer>)
    ensures
        pending is None ==> r is Err && r->Err_0 is Protocol && r->Err_0->Protocol_0@
            == "no pending file offer for that id"@,
        pending matches Some(p) ==> r is Ok && r->Ok_0 == p,
{
    match pending {
        Some(p) => Ok(p),
        None => Err(Error::Protocol("no pending file offer for that id".to_string())),
    }
}

/// The message accepting an offer from `sender`: a resume request listing
/// the missing chunks when a partial download was found (`missing`), a plain
/// acceptance otherwise.
pub fn accept_message(sender: &PeerId, file_id: &[u8], missing: Option<Vec<u32>>) -> (m: AcceptMessage)
    requires
        missing matches Some(v) ==> 4 * v@.len() <= usize::MAX,
    ensures
        missing is None ==> (m matches AcceptMessage::Accept { peer_id, file_id: f } && peer_id == *sender && f@
            == file_id@),
        missing matches Some(v) ==> (m matches AcceptMessage::Resume { peer_id, file_id: f, missing: packed }
            && peer_id == *sender && f@ == file_id@ && packed@ == spec_pack_indices(v@)),
{
    let id = vstd::slice::slice_to_vec(file_id);
    match missing {
        Some(v) => AcceptMessage::Resume {
            peer_id: PeerId(sender.0),
            file_id: id,
            missing: pack_missing_indices(v.as_slice()),
        },
        None => AcceptMessage::Accept { peer_id: PeerId(sender.0), file_id: id },
    }
}

} // verus!
