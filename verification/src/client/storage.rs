//! In-memory bookkeeping of file transfers in progress: the source path of
//! each outgoing file and the metadata and destination of each incoming one,
//! by file id.

use vstd::prelude::*;
use crate::common::assoc::{keys_unique, assoc_map, lemma_assoc_index, lemma_assoc_push, lemma_assoc_update, lemma_assoc_remove, lemma_assoc_absent};
use crate::common::byte_util::bytes_eq;
use crate::common::types::{FileId, FileMeta};

verus! {

/// An outgoing transfer: file id and source path.
pub struct PendingSend {
    pub file_id: Vec<u8>,
    pub path: String,
}

/// An incoming transfer: file id, metadata and destination path.
pub struct PendingRecv {
    pub file_id: Vec<u8>,
    pub meta: FileMeta,
    pub dest: String,
}

pub open spec fn send_key_fn() -> spec_fn(PendingSend) -> Seq<u8> {
    |e: PendingSend| e.file_id@
}

pub open spec fn send_val_fn() -> spec_fn(PendingSend) -> Seq<char> {
    |e: PendingSend| e.path@
}

pub open spec fn recv_key_fn() -> spec_fn(PendingRecv) -> Seq<u8> {
    |e: PendingRecv| e.file_id@
}

pub open spec fn recv_val_fn() -> spec_fn(PendingRecv) -> (FileMeta, Seq<char>) {
    |e: PendingRecv| (e.meta, e.dest@)
}

/// Transfers in progress, one entry per file id in each direction.
pub struct LocalStorage {
    pub pending_sends: Vec<PendingSend>,
    pub pending_recvs: Vec<PendingRecv>,
}

impl LocalStorage {
    pub open spec fn wf(&self) -> bool {
        &&& keys_unique(self.pending_sends@, send_key_fn())
        &&& keys_unique(self.pending_recvs@, recv_key_fn())
    }

    /// Outgoing transfers: file id to source path.
    pub open spec fn sends(&self) -> Map<Seq<u8>, Seq<char>> {
        assoc_map(self.pending_sends@, send_key_fn(), send_val_fn())
    }

    /// Incoming transfers: file id to metadata and destination path.
    pub open spec fn recvs(&self) -> Map<Seq<u8>, (FileMeta, Seq<char>)> {
        assoc_map(self.pending_recvs@, recv_key_fn(), recv_val_fn())
    }

    /// No transfers.
    pub fn new() -> (s: Self)
        ensures
            s.wf(),
            s.sends() == Map::<Seq<u8>, Seq<char>>::empty(),
            s.recvs() == Map::<Seq<u8>, (FileMeta, Seq<char>)>::empty(),
    {
        let s = LocalStorage { pending_sends: Vec::new(), pending_recvs: Vec::new() };
        assert(s.sends() =~= Map::<Seq<u8>, Seq<char>>::empty());
        assert(s.recvs() =~= Map::<Seq<u8>, (FileMeta, Seq<char>)>::empty());
        s
    }

    fn find_send(&self, file_id: &[u8]) -> (r: Option<usize>)
        ensures
            r matches Some(i) ==> i < self.pending_sends@.len() && self.pending_sends@[i as int].file_id@ == file_id@,
            r is None ==> forall|i: int| 0 <= i < self.pending_sends@.len() ==> self.pending_sends@[i].file_id@ != file_id@,
    {
        let mut i: usize = 0;
        while i < self.pending_sends.len()
            invariant
                0 <= i <= self.pending_sends@.len(),
                forall|j: int| 0 <= j < i ==> self.pending_sends@[j].file_id@ != file_id@,
            decreases self.pending_sends@.len() - i,
        {
            if bytes_eq(self.pending_sends[i].file_id.as_slice(), file_id) {
                return Some(i);
            }
            i = i + 1;
        }
        None
    }

    fn find_recv(&self, file_id: &[u8]) -> (r: Option<usize>)
        ensures
            r matches Some(i) ==> i < self.pending_recvs@.len() && self.pending_recvs@[i as int].file_id@ == file_id@,
            r is None ==> forall|i: int| 0 <= i < self.pending_recvs@.len() ==> self.pending_recvs@[i].file_id@ != file_id@,
    {
        let mut i: usize = 0;
        while i < self.pending_recvs.len()
            invariant
                0 <= i <= self.pending_recvs@.len(),
                forall|j: int| 0 <= j < i ==> self.pending_recvs@[j].file_id@ != file_id@,
            decreases self.pending_recvs@.len() - i,
        {
            if bytes_eq(self.pending_recvs[i].file_id.as_slice(), file_id) {
                return Some(i);
            }
            i = i + 1;
        }
        None
    }

    /// Registers an outgoing transfer, replacing one with the same id.
    pub fn add_pending_send(&mut self, file_id: &FileId, path: String)
        requires
            old(self).wf(),
        ensures
            final(self).wf(),
            final(self).sends() == old(self).sends().insert(file_id.0@, path@),
            final(self).recvs() == old(self).recvs(),
    {
        let e = PendingSend { file_id: file_id.to_vec(), path };
        match self.find_send(e.file_id.as_slice()) {
            Some(i) => {
                proof {
                    lemma_assoc_update(self.pending_sends@, send_key_fn(), send_val_fn(), i as int, e);
                }
                self.pending_sends.set(i, e);
            },
            None => {
                proof {
                    lemma_assoc_push(self.pending_sends@, send_key_fn(), send_val_fn(), e);
                }
                self.pending_sends.push(e);
            },
        }
    }

    /// Registers an incoming transfer, replacing one with the same id.
    pub fn add_pending_recv(&mut self, file_id: &FileId, meta: FileMeta, dest: String)
        requires
            old(self).wf(),
        ensures
            final(self).wf(),
            final(self).recvs() == old(self).recvs().insert(file_id.0@, (meta, dest@)),
            final(self).sends() == old(self).sends(),
    {
        let e = PendingRecv { file_id: file_id.to_vec(), meta, dest };
        match self.find_recv(e.file_id.as_slice()) {
            Some(i) => {
                proof {
                    lemma_assoc_update(self.pending_recvs@, recv_key_fn(), recv_val_fn(), i as int, e);
                }
                self.pending_recvs.set(i, e);
            },
            None => {
                proof {
                    lemma_assoc_push(self.pending_recvs@, recv_key_fn(), recv_val_fn(), e);
                }
                self.pending_recvs.push(e);
            },
        }
    }

    /// The incoming transfer with this file id, if any: its metadata and
    /// destination path.
    pub fn get_pending_recv(&self, file_id: &[u8]) -> (r: Option<(FileMeta, String)>)
        requires
            self.wf(),
        ensures
            r is Some <==> self.recvs().contains_key(file_id@),
            r matches Some(p) ==> p.1@ == self.recvs()[file_id@].1 && p.0.file_id == self.recvs()[file_id@].0.file_id
                && p.0.size == self.recvs()[file_id@].0.size && p.0.chunk_count == self.recvs()[file_id@].0.chunk_count
                && p.0.compressed == self.recvs()[file_id@].0.compressed
                && p.0.name@ == self.recvs()[file_id@].0.name@ && p.0.hash@ == self.recvs()[file_id@].0.hash@,
    {
        match self.find_recv(file_id) {
            Some(i) => {
                proof {
                    lemma_assoc_index(self.pending_recvs@, recv_key_fn(), recv_val_fn(), i as int);
                }
                let e = &self.pending_recvs[i];
                let hash = e.meta.hash.clone();
                assert(hash@ =~= e.meta.hash@);
                let meta = FileMeta {
                    file_id: e.meta.file_id,
                    name: e.meta.name.clone(),
                    size: e.meta.size,
                    chunk_count: e.meta.chunk_count,
                    hash,
                    compressed: e.meta.compressed,
                };
                Some((meta, e.dest.clone()))
            },
            None => {
                proof {
                    lemma_assoc_absent(self.pending_recvs@, recv_key_fn(), recv_val_fn(), file_id@);
                }
                None
            },
        }
    }

    /// Forgets a completed or cancelled transfer, in either direction.
    pub fn remove_transfer(&mut self, file_id: &[u8])
        requires
            old(self).wf(),
        ensures
            final(self).wf(),
            final(self).sends() == old(self).sends().remove(file_id@),
            final(self).recvs() == old(self).recvs().remove(file_id@),
    {
        match self.find_send(file_id) {
            Some(i) => {
                proof {
                    lemma_assoc_remove(self.pending_sends@, send_key_fn(), send_val_fn(), i as int);
                }
                self.pending_sends.remove(i);
            },
            None => {
                proof {
                    lemma_assoc_absent(self.pending_sends@, send_key_fn(), send_val_fn(), file_id@);
                    assert(self.sends() =~= self.sends().remove(file_id@));
                }
            },
        }
        match self.find_recv(file_id) {
            Some(i) => {
                proof {
                    lemma_assoc_remove(self.pending_recvs@, recv_key_fn(), recv_val_fn(), i as int);
                }
                self.pending_recvs.remove(i);
            },
            None => {
                proof {
                    lemma_assoc_absent(self.pending_recvs@, recv_key_fn(), recv_val_fn(), file_id@);
                    assert(self.recvs() =~= self.recvs().remove(file_id@));
                }
            },
        }
    }
}

impl Default for LocalStorage {
    fn default() -> (s: Self)
        ensures
            s.wf(),
            s.sends() == Map::<Seq<u8>, Seq<char>>::empty(),
            s.recvs() == Map::<Seq<u8>, (FileMeta, Seq<char>)>::empty(),
    {
        LocalStorage::new()
    }
}

} // verus!
