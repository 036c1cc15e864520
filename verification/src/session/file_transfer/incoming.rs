//! Incoming file transfer (receiver side): the chunks received so far,
//! kept in offset order for reassembly.
use crate::bytes::push_all;
use crate::session::file_transfer::state::FileTransferState;
use crate::text::string_from_str;
use vstd::prelude::*;
use vstd::string::*;

verus! {

/// A chunk as its offset and its bytes.
pub type ChunkModel = (u64, Seq<u8>);

/// Whether the chunks' offsets strictly increase.
pub open spec fn offsets_increasing(s: Seq<ChunkModel>) -> bool {
    forall|i: int, j: int| 0 <= i < j < s.len() ==> s[i].0 < s[j].0
}

/// Whether some chunk starts at `offset`.
pub open spec fn has_offset(s: Seq<ChunkModel>, offset: u64) -> bool {
    exists|i: int| 0 <= i < s.len() && s[i].0 == offset
}

/// The number of bytes held by the chunks.
pub open spec fn total_len(s: Seq<ChunkModel>) -> nat
    decreases s.len(),
{
    if s.len() == 0 {
        0
    } else {
        total_len(s.drop_last()) + s.last().1.len()
    }
}

/// The chunks' bytes, one after the other.
pub open spec fn joined(s: Seq<ChunkModel>) -> Seq<u8>
    decreases s.len(),
{
    if s.len() == 0 {
        Seq::empty()
    } else {
        joined(s.drop_last()) + s.last().1
    }
}

/// Inserting a chunk anywhere adds its length to the total.
pub proof fn lemma_total_len_insert(s: Seq<ChunkModel>, i: int, c: ChunkModel)
    requires
        0 <= i <= s.len(),
    ensures
        total_len(s.insert(i, c)) == total_len(s) + c.1.len(),
    decreases s.len(),
{
    let t = s.insert(i, c);
    if i == s.len() {
        assert(t.drop_last() =~= s);
    } else {
        assert(t.drop_last() =~= s.drop_last().insert(i, c));
        lemma_total_len_insert(s.drop_last(), i, c);
    }
}

/// The length of the joined bytes is the total length.
pub proof fn lemma_joined_len(s: Seq<ChunkModel>)
    ensures
        joined(s).len() == total_len(s),
    decreases s.len(),
{
    if s.len() > 0 {
        lemma_joined_len(s.drop_last());
    }
}

/// Why a chunk was not taken.
#[derive(Debug, Clone, Copy, PartialEq, Eq, Structural)]
pub enum ChunkError {
    /// The transfer is not in progress
    NotInProgress,
    /// The chunk would exceed the announced size
    TooMuchData,
}

impl ChunkError {
    /// The human-readable text of the error.
    pub open spec fn message_text(&self) -> Seq<char> {
        match self {
            ChunkError::NotInProgress => "Transfer not in progress"@,
            ChunkError::TooMuchData => "Received more data than expected"@,
        }
    }

    /// Renders the error as text.
    pub fn to_string(&self) -> (s: String)
        ensures
            s@ == self.message_text(),
    {
        match self {
            ChunkError::NotInProgress => string_from_str("Transfer not in progress"),
            ChunkError::TooMuchData => string_from_str("Received more data than expected"),
        }
    }
}

/// The chunks of one transfer, kept in strictly increasing offset order.
#[derive(Debug)]
pub struct ChunkStore {
    entries: Vec<(u64, Vec<u8>)>,
}

impl View for ChunkStore {
    type V = Seq<ChunkModel>;

    closed spec fn view(&self) -> Seq<ChunkModel> {
        self.entries@.map_values(|c: (u64, Vec<u8>)| (c.0, c.1@))
    }
}

impl ChunkStore {
    #[verifier::type_invariant]
    closed spec fn ordered(&self) -> bool {
        offsets_increasing(self@)
    }

    /// No chunks.
    pub fn new() -> (c: Self)
        ensures
            c@ == Seq::<ChunkModel>::empty(),
    {
        let c = ChunkStore { entries: Vec::new() };
        assert(c@ =~= Seq::<ChunkModel>::empty());
        c
    }

    /// The position at which a chunk starting at `offset` belongs: the
    /// first chunk whose offset is not below it.
    fn position_of(&self, offset: u64) -> (i: usize)
        ensures
            i <= self@.len(),
            forall|j: int| 0 <= j < i ==> self@[j].0 < offset,
            i < self@.len() ==> self@[i as int].0 >= offset,
    {
        let mut i: usize = 0;
        while i < self.entries.len() && self.entries[i].0 < offset
            invariant
                i <= self.entries@.len(),
                self@.len() == self.entries@.len(),
                forall|j: int| 0 <= j < i ==> self@[j].0 < offset,
            decreases self.entries@.len() - i,
        {
            i = i + 1;
        }
        i
    }

    /// Whether some chunk starts at `offset`.
    pub fn contains(&self, offset: u64) -> (b: bool)
        ensures
            b == has_offset(self@, offset),
    {
        proof {
            use_type_invariant(self);
        }
        let i = self.position_of(offset);
        if i < self.entries.len() && self.entries[i].0 == offset {
            return true;
        }
        proof {
            if has_offset(self@, offset) {
                let k = choose|k: int| 0 <= k < self@.len() && self@[k].0 == offset;
                if k > i {
                    assert(self@[i as int].0 < self@[k].0);
                }
            }
        }
        false
    }

    /// Adds a chunk at an offset that no chunk starts at, in its place.
    pub fn insert(&mut self, offset: u64, data: Vec<u8>)
        requires
            !has_offset(old(self)@, offset),
        ensures
            exists|i: int|
                0 <= i <= old(self)@.len() && final(self)@ == old(self)@.insert(i, (offset, data@)),
    {
        proof {
            use_type_invariant(&*self);
        }
        let i = self.position_of(offset);
        let ghost before = self@;
        proof {
            if i < before.len() {
                assert(before[i as int].0 != offset);
            }
            let s = before.insert(i as int, (offset, data@));
            assert forall|a: int, b: int| 0 <= a < b < s.len() implies s[a].0 < s[b].0 by {
                if b < i {
                } else if b == i {
                } else if a < i {
                    assert(before[b - 1].0 >= before[i as int].0 || b - 1 == i);
                } else if a == i {
                } else {
                    assert(before[a - 1].0 < before[b - 1].0);
                }
            }
            assert(self.entries@.insert(i as int, (offset, data)).map_values(
                |c: (u64, Vec<u8>)| (c.0, c.1@),
            ) =~= s);
        }
        let mut entries: Vec<(u64, Vec<u8>)> = Vec::new();
        std::mem::swap(&mut entries, &mut self.entries);
        entries.insert(i, (offset, data));
        self.entries = entries;
        assert(self@ =~= before.insert(i as int, (offset, data@)));
    }

    /// The chunks' bytes in offset order.
    pub fn joined_bytes(&self) -> (r: Vec<u8>)
        ensures
            r@ == joined(self@),
    {
        let mut r: Vec<u8> = Vec::new();
        let mut i: usize = 0;
        while i < self.entries.len()
            invariant
                i <= self.entries@.len(),
                self@.len() == self.entries@.len(),
                r@ == joined(self@.take(i as int)),
            decreases self.entries@.len() - i,
        {
            push_all(&mut r, self.entries[i].1.as_slice());
            proof {
                let t = self@.take(i as int + 1);
                assert(t.drop_last() =~= self@.take(i as int));
                assert(t.last() == self@[i as int]);
            }
            i = i + 1;
        }
        assert(self@.take(i as int) =~= self@);
        r
    }
}

/// What taking in a chunk at `offset` does to a transfer: it is stored, and
/// its bytes counted, when the transfer is in progress, has no chunk at that
/// offset yet and stays within its announced size; otherwise nothing
/// changes.
pub open spec fn chunk_taken(
    before: IncomingTransfer,
    offset: u64,
    data: Seq<u8>,
    after: IncomingTransfer,
) -> bool {
    &&& after.total_size == before.total_size
    &&& after.state == before.state
    &&& after.save_path == before.save_path
    &&& if before.state == FileTransferState::Transferring && !has_offset(before.chunks@, offset)
        && before.bytes_received + data.len() <= before.total_size {
        &&& after.bytes_received == before.bytes_received + data.len()
        &&& exists|i: int|
            0 <= i <= before.chunks@.len() && after.chunks@ == before.chunks@.insert(i, (offset, data))
    } else {
        &&& after.bytes_received == before.bytes_received
        &&& after.chunks@ == before.chunks@
    }
}

/// Incoming file transfer (receiver side)
#[derive(Debug)]
pub struct IncomingTransfer {
    /// Total file size in bytes
    pub total_size: u64,
    /// Bytes received so far
    pub bytes_received: u64,
    /// Save path (set when accepted)
    pub save_path: Option<std::path::PathBuf>,
    /// Current state
    pub state: FileTransferState,
    /// Received chunks (for reassembly)
    pub chunks: ChunkStore,
}

impl IncomingTransfer {
    /// The bookkeeping holds together: the stored chunks hold exactly the
    /// bytes counted as received, and no more than the announced size.
    pub open spec fn wf(&self) -> bool {
        &&& self.bytes_received == total_len(self.chunks@)
        &&& self.bytes_received <= self.total_size
    }

    /// Create new incoming transfer
    pub fn new(size: u64) -> (t: Self)
        ensures
            t.wf(),
            t.total_size == size,
            t.bytes_received == 0,
            t.save_path is None,
            t.state == FileTransferState::Pending,
            t.chunks@ == Seq::<ChunkModel>::empty(),
    {
        IncomingTransfer {
            total_size: size,
            bytes_received: 0,
            save_path: None,
            state: FileTransferState::Pending,
            chunks: ChunkStore::new(),
        }
    }

    /// Accept the transfer and set save path
    pub fn accept(&mut self, save_path: std::path::PathBuf)
        ensures
            old(self).state == FileTransferState::Pending ==> final(self).save_path == Some(
                save_path,
            ) && final(self).state == FileTransferState::Transferring,
            old(self).state != FileTransferState::Pending ==> final(self).save_path == old(self).save_path && final(self).state == old(self).state,
            final(self).total_size == old(self).total_size,
            final(self).bytes_received == old(self).bytes_received,
            final(self).chunks == old(self).chunks,
    {
        if self.state == FileTransferState::Pending {
            self.save_path = Some(save_path);
            self.state = FileTransferState::Transferring;
        }
    }

    /// Reject the transfer
    pub fn reject(&mut self)
        ensures
            final(self).state == FileTransferState::Cancelled,
            final(self).save_path == old(self).save_path,
            final(self).total_size == old(self).total_size,
            final(self).bytes_received == old(self).bytes_received,
            final(self).chunks == old(self).chunks,
    {
        self.state = FileTransferState::Cancelled;
    }

    /// Receive a data chunk
    pub fn receive_chunk(&mut self, offset: u64, data: Vec<u8>) -> (r: Result<(), ChunkError>)
        requires
            old(self).wf(),
        ensures
            final(self).wf(),
            chunk_taken(*old(self), offset, data@, *final(self)),
            old(self).state != FileTransferState::Transferring ==> {
                &&& r == Err::<(), ChunkError>(ChunkError::NotInProgress)
                &&& final(self).chunks@ == old(self).chunks@
                &&& final(self).bytes_received == old(self).bytes_received
            },
            old(self).state == FileTransferState::Transferring && has_offset(
                old(self).chunks@,
                offset,
            ) ==> {
                &&& r is Ok
                &&& final(self).chunks@ == old(self).chunks@
                &&& final(self).bytes_received == old(self).bytes_received
            },
            old(self).state == FileTransferState::Transferring && !has_offset(
                old(self).chunks@,
                offset,
            ) && old(self).bytes_received + data@.len() > old(self).total_size ==> {
                &&& r == Err::<(), ChunkError>(ChunkError::TooMuchData)
                &&& final(self).chunks@ == old(self).chunks@
                &&& final(self).bytes_received == old(self).bytes_received
            },
            old(self).state == FileTransferState::Transferring && !has_offset(
                old(self).chunks@,
                offset,
            ) && old(self).bytes_received + data@.len() <= old(self).total_size ==> {
                &&& r is Ok
                &&& final(self).bytes_received == old(self).bytes_received + data@.len()
                &&& exists|i: int|
                    0 <= i <= old(self).chunks@.len() && final(self).chunks@ == old(self).chunks@.insert(i, (offset, data@))
            },
    {
        if self.state != FileTransferState::Transferring {
            return Err(ChunkError::NotInProgress);
        }
        let data_len = data.len() as u64;
        if self.chunks.contains(offset) {
            return Ok(());
        }
        if data_len > self.total_size - self.bytes_received {
            return Err(ChunkError::TooMuchData);
        }
        let ghost before = self.chunks@;
        let ghost d = data@;
        self.chunks.insert(offset, data);
        self.bytes_received = self.bytes_received + data_len;
        proof {
            let i = choose|i: int|
                0 <= i <= before.len() && self.chunks@ == before.insert(i, (offset, d));
            lemma_total_len_insert(before, i, (offset, d));
        }
        Ok(())
    }

    /// The received bytes in offset order: what the finished file holds.
    pub fn assembled_data(&self) -> (r: Vec<u8>)
        ensures
            r@ == joined(self.chunks@),
            self.wf() ==> r@.len() == self.bytes_received,
    {
        proof {
            lemma_joined_len(self.chunks@);
        }
        self.chunks.joined_bytes()
    }

    /// Marks the transfer as completed once its file is written.
    pub fn mark_completed(&mut self)
        ensures
            final(self).state == FileTransferState::Completed,
            final(self).save_path == old(self).save_path,
            final(self).total_size == old(self).total_size,
            final(self).bytes_received == old(self).bytes_received,
            final(self).chunks == old(self).chunks,
    {
        self.state = FileTransferState::Completed;
    }
}

} // verus!
