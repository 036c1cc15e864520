//! Outgoing file transfer (sender side) with adaptive chunking.
use crate::session::file_transfer::state::FileTransferState;
use vstd::prelude::*;

verus! {

// Chunk sizes must fit within the DTLS/UDP MTU (~1400 bytes usable): the
// SCTP layer below does not fragment.
/// Smallest chunk size.
pub const MIN_CHUNK_SIZE: usize = 512;
/// Largest chunk size.
pub const MAX_CHUNK_SIZE: usize = 1200;
/// Chunk size a transfer starts with.
pub const INITIAL_CHUNK_SIZE: usize = 1024;

/// The chunk size that one more success leaves, after `successes` successes
/// in all.
pub open spec fn grown_size(size: nat, successes: nat) -> nat {
    if successes % 10 == 0 && size < MAX_CHUNK_SIZE {
        if size * 3 / 2 < MAX_CHUNK_SIZE {
            size * 3 / 2
        } else {
            MAX_CHUNK_SIZE as nat
        }
    } else {
        size
    }
}

/// The chunk size that one failure leaves.
pub open spec fn shrunk_size(size: nat) -> nat {
    if size / 2 > MIN_CHUNK_SIZE {
        size / 2
    } else {
        MIN_CHUNK_SIZE as nat
    }
}

/// Adaptive chunk sizing, like TCP slow start: the size grows by half after
/// every tenth success and halves on a failure, always within
/// `MIN_CHUNK_SIZE..=MAX_CHUNK_SIZE`.
#[derive(Debug)]
pub struct ChunkSizer {
    chunk_size: usize,
    successful_chunks: u64,
    failed_chunks: u64,
}

impl ChunkSizer {
    #[verifier::type_invariant]
    closed spec fn in_bounds(&self) -> bool {
        MIN_CHUNK_SIZE <= self.chunk_size <= MAX_CHUNK_SIZE
    }

    /// The current chunk size.
    pub closed spec fn size(&self) -> nat {
        self.chunk_size as nat
    }

    /// The number of successful chunks so far.
    pub closed spec fn successes(&self) -> nat {
        self.successful_chunks as nat
    }

    /// The number of failed chunks so far.
    pub closed spec fn failures(&self) -> nat {
        self.failed_chunks as nat
    }

    /// The initial sizing.
    pub fn new() -> (s: Self)
        ensures
            s.size() == INITIAL_CHUNK_SIZE,
            s.successes() == 0,
            s.failures() == 0,
    {
        ChunkSizer { chunk_size: INITIAL_CHUNK_SIZE, successful_chunks: 0, failed_chunks: 0 }
    }

    /// The current chunk size, always within the bounds.
    pub fn chunk_size(&self) -> (n: usize)
        ensures
            n == self.size(),
            MIN_CHUNK_SIZE <= n <= MAX_CHUNK_SIZE,
    {
        proof {
            use_type_invariant(self);
        }
        self.chunk_size
    }

    /// Records one chunk's outcome and adapts the size to it.
    pub fn adapt(&mut self, success: bool)
        requires
            success ==> old(self).successes() < u64::MAX,
            !success ==> old(self).failures() < u64::MAX,
        ensures
            success ==> final(self).successes() == old(self).successes() + 1 && final(self).failures() == old(self).failures() && final(self).size() == grown_size(
                old(self).size(),
                old(self).successes() + 1,
            ),
            !success ==> final(self).failures() == old(self).failures() + 1 && final(self).successes() == old(self).successes() && final(self).size() == shrunk_size(
                old(self).size(),
            ),
            MIN_CHUNK_SIZE <= final(self).size() <= MAX_CHUNK_SIZE,
    {
        proof {
            use_type_invariant(&*self);
        }
        if success {
            self.successful_chunks = self.successful_chunks + 1;
            if self.successful_chunks % 10 == 0 && self.chunk_size < MAX_CHUNK_SIZE {
                let grown = self.chunk_size * 3 / 2;
                self.chunk_size = if grown < MAX_CHUNK_SIZE {
                    grown
                } else {
                    MAX_CHUNK_SIZE
                };
            }
        } else {
            self.failed_chunks = self.failed_chunks + 1;
            let halved = self.chunk_size / 2;
            self.chunk_size = if halved > MIN_CHUNK_SIZE {
                halved
            } else {
                MIN_CHUNK_SIZE
            };
        }
        proof {
            use_type_invariant(&*self);
        }
    }
}

/// Outgoing file transfer (sender side) with adaptive chunking
#[derive(Debug)]
pub struct OutgoingTransfer {
    /// Unique transfer ID
    pub id: u64,
    /// File path
    pub path: std::path::PathBuf,
    /// Total file size
    pub total_size: u64,
    /// Bytes sent so far
    pub bytes_sent: u64,
    /// Current state
    pub state: FileTransferState,
    /// Adaptive chunk sizing
    pub sizer: ChunkSizer,
}

/// The read that the next chunk needs, if any: where it starts and how many
/// bytes it may take.
pub open spec fn chunk_request_spec(
    state: FileTransferState,
    bytes_sent: u64,
    total_size: u64,
    chunk_size: nat,
) -> Option<(u64, nat)> {
    if state != FileTransferState::Transferring || bytes_sent >= total_size {
        None
    } else if total_size - bytes_sent < chunk_size {
        Some((bytes_sent, (total_size - bytes_sent) as nat))
    } else {
        Some((bytes_sent, chunk_size))
    }
}

impl OutgoingTransfer {
    /// Create new outgoing transfer
    pub fn new(id: u64, path: std::path::PathBuf, size: u64) -> (t: Self)
        ensures
            t.id == id,
            t.path == path,
            t.total_size == size,
            t.bytes_sent == 0,
            t.state == FileTransferState::Pending,
            t.sizer.size() == INITIAL_CHUNK_SIZE,
            t.sizer.successes() == 0,
            t.sizer.failures() == 0,
    {
        OutgoingTransfer {
            id,
            path,
            total_size: size,
            bytes_sent: 0,
            state: FileTransferState::Pending,
            sizer: ChunkSizer::new(),
        }
    }

    /// Mark as accepted and start transferring
    pub fn accept(&mut self)
        ensures
            final(self).state == (if old(self).state == FileTransferState::Pending {
                FileTransferState::Transferring
            } else {
                old(self).state
            }),
            final(self).id == old(self).id,
            final(self).path == old(self).path,
            final(self).total_size == old(self).total_size,
            final(self).bytes_sent == old(self).bytes_sent,
            final(self).sizer == old(self).sizer,
    {
        if self.state == FileTransferState::Pending {
            self.state = FileTransferState::Transferring;
        }
    }

    /// Mark as rejected
    pub fn reject(&mut self)
        ensures
            final(self).state == FileTransferState::Cancelled,
            final(self).id == old(self).id,
            final(self).path == old(self).path,
            final(self).total_size == old(self).total_size,
            final(self).bytes_sent == old(self).bytes_sent,
            final(self).sizer == old(self).sizer,
    {
        self.state = FileTransferState::Cancelled;
    }

    /// Adapt chunk size based on success rate (like TCP slow start)
    pub fn adapt_chunk_size(&mut self, success: bool)
        requires
            success ==> old(self).sizer.successes() < u64::MAX,
            !success ==> old(self).sizer.failures() < u64::MAX,
        ensures
            success ==> final(self).sizer.successes() == old(self).sizer.successes() + 1 && final(self).sizer.failures() == old(self).sizer.failures() && final(self).sizer.size()
                == grown_size(old(self).sizer.size(), old(self).sizer.successes() + 1),
            !success ==> final(self).sizer.failures() == old(self).sizer.failures() + 1 && final(self).sizer.successes() == old(self).sizer.successes() && final(self).sizer.size()
                == shrunk_size(old(self).sizer.size()),
            MIN_CHUNK_SIZE <= final(self).sizer.size() <= MAX_CHUNK_SIZE,
            final(self).id == old(self).id,
            final(self).path == old(self).path,
            final(self).total_size == old(self).total_size,
            final(self).bytes_sent == old(self).bytes_sent,
            final(self).state == old(self).state,
    {
        self.sizer.adapt(success);
    }

    /// The read that the next chunk needs: its offset in the file and the
    /// most bytes it may take; `None` when nothing is left to send.
    pub fn chunk_request(&self) -> (r: Option<(u64, usize)>)
        ensures
            match r {
                Some((offset, len)) => chunk_request_spec(
                    self.state,
                    self.bytes_sent,
                    self.total_size,
                    self.sizer.size(),
                ) == Some((offset, len as nat)) && 0 < len <= MAX_CHUNK_SIZE,
                None => chunk_request_spec(
                    self.state,
                    self.bytes_sent,
                    self.total_size,
                    self.sizer.size(),
                ) is None,
            },
    {
        if self.state != FileTransferState::Transferring {
            return None;
        }
        if self.bytes_sent >= self.total_size {
            return None;
        }
        let remaining = self.total_size - self.bytes_sent;
        let chunk_size = self.sizer.chunk_size();
        if remaining < chunk_size as u64 {
            Some((self.bytes_sent, remaining as usize))
        } else {
            Some((self.bytes_sent, chunk_size))
        }
    }

    /// Records that `n` bytes of the requested chunk were read and go out;
    /// the transfer completes once everything is sent.
    pub fn record_chunk_sent(&mut self, n: usize)
        requires
            old(self).bytes_sent + n <= old(self).total_size,
        ensures
            final(self).bytes_sent == old(self).bytes_sent + n,
            final(self).state == (if final(self).bytes_sent >= old(self).total_size {
                FileTransferState::Completed
            } else {
                old(self).state
            }),
            final(self).id == old(self).id,
            final(self).path == old(self).path,
            final(self).total_size == old(self).total_size,
            final(self).sizer == old(self).sizer,
    {
        self.bytes_sent = self.bytes_sent + n as u64;
        if self.bytes_sent >= self.total_size {
            self.state = FileTransferState::Completed;
        }
    }
}

} // verus!
