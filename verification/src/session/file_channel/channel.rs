//! A data channel that carries file transfers: it queues the messages to
//! send, turns received messages into transfer state and events, and paces
//! data chunks by the amount still buffered below it.
use crate::session::file_transfer::event::FileTransferEvent;
use crate::session::file_transfer::incoming::{chunk_taken, ChunkModel, IncomingTransfer};
use crate::session::file_transfer::message::{
    message_bytes, parse_spec, FileTransferMessage, MessageModel,
};
use crate::session::file_transfer::outgoing::{
    chunk_request_spec, grown_size, OutgoingTransfer, MAX_CHUNK_SIZE,
};
use crate::session::file_transfer::state::FileTransferState;
use crate::text::{chars_of, push_chars, string_from_str};
use vstd::prelude::*;
use vstd::string::*;

verus! {

/// Most bytes that may wait below the channel before data chunks pause (1 MB).
pub const MAX_BUFFERED_AMOUNT: usize = 1048576;

/// The mask that keeps the low 48 bits of the random first transfer id.
pub const TRANSFER_ID_MASK: u64 = 0x0000_FFFF_FFFF_FFFF;

/// `rand::random::<u64>()`: a value drawn from the thread-local generator.
/// Nothing is stated of it.
#[verifier::external_body]
fn random_u64() -> (r: u64) {
    rand::random::<u64>()
}

/// The position of the outgoing transfer with this id, if any.
pub open spec fn outgoing_index(s: Seq<OutgoingTransfer>, id: u64) -> Option<int> {
    if exists|i: int| 0 <= i < s.len() && s[i].id == id {
        Some(choose|i: int| 0 <= i < s.len() && s[i].id == id)
    } else {
        None
    }
}

/// The position of the incoming transfer with this id, if any.
pub open spec fn incoming_index(s: Seq<(u64, IncomingTransfer)>, id: u64) -> Option<int> {
    if exists|i: int| 0 <= i < s.len() && s[i].0 == id {
        Some(choose|i: int| 0 <= i < s.len() && s[i].0 == id)
    } else {
        None
    }
}

/// No two outgoing transfers share an id.
pub open spec fn outgoing_ids_distinct(s: Seq<OutgoingTransfer>) -> bool {
    forall|i: int, j: int| 0 <= i < s.len() && 0 <= j < s.len() && i != j ==> s[i].id != s[j].id
}

/// No two incoming transfers share an id, and each keeps its books.
pub open spec fn incoming_well_kept(s: Seq<(u64, IncomingTransfer)>) -> bool {
    &&& forall|i: int, j: int| 0 <= i < s.len() && 0 <= j < s.len() && i != j ==> s[i].0 != s[j].0
    &&& forall|i: int| 0 <= i < s.len() ==> #[trigger] s[i].1.wf()
}

/// The sequence without the element at `i` when `i` is some position.
pub open spec fn without<T>(s: Seq<T>, i: Option<int>) -> Seq<T> {
    match i {
        Some(k) => s.remove(k),
        None => s,
    }
}

/// The first outgoing transfer, in list order, whose state is
/// `Transferring`.
pub open spec fn first_transferring(s: Seq<OutgoingTransfer>) -> Option<int> {
    if exists|i: int| 0 <= i < s.len() && s[i].state == FileTransferState::Transferring {
        Some(
            choose|i: int|
                0 <= i < s.len() && s[i].state == FileTransferState::Transferring && forall|j: int|
                    0 <= j < i ==> s[j].state != FileTransferState::Transferring,
        )
    } else {
        None
    }
}

/// `after` is `before` with one more element at its end.
pub open spec fn one_more<T>(before: Seq<T>, after: Seq<T>) -> bool {
    after.len() == before.len() + 1 && after.drop_last() == before
}

/// Whether `t` is a transfer as `OutgoingTransfer::new(id, path, size)` makes it.
pub open spec fn fresh_outgoing(
    t: OutgoingTransfer,
    id: u64,
    path: std::path::PathBuf,
    size: u64,
) -> bool {
    &&& t.id == id
    &&& t.path == path
    &&& t.total_size == size
    &&& t.bytes_sent == 0
    &&& t.state == FileTransferState::Pending
    &&& t.sizer.size() == 1024
    &&& t.sizer.successes() == 0
    &&& t.sizer.failures() == 0
}

/// An incoming transfer once accepted into `path`.
pub open spec fn accepted_incoming(t: IncomingTransfer, path: std::path::PathBuf) -> IncomingTransfer {
    IncomingTransfer { save_path: Some(path), state: FileTransferState::Transferring, ..t }
}

/// An incoming transfer once rejected.
pub open spec fn rejected_incoming(t: IncomingTransfer) -> IncomingTransfer {
    IncomingTransfer { state: FileTransferState::Cancelled, ..t }
}

/// Whether `t` is a transfer as `IncomingTransfer::new(size)` makes it.
pub open spec fn fresh_incoming(t: IncomingTransfer, size: u64) -> bool {
    &&& t.wf()
    &&& t.total_size == size
    &&& t.bytes_received == 0
    &&& t.save_path is None
    &&& t.state == FileTransferState::Pending
    &&& t.chunks@ == Seq::<ChunkModel>::empty()
}

/// `after` is `before` after one success was recorded for its chunk sizing.
pub open spec fn adapted_on_success(before: OutgoingTransfer, after: OutgoingTransfer) -> bool {
    &&& after.id == before.id
    &&& after.path == before.path
    &&& after.total_size == before.total_size
    &&& after.bytes_sent == before.bytes_sent
    &&& after.state == before.state
    &&& after.sizer.successes() == before.sizer.successes() + 1
    &&& after.sizer.failures() == before.sizer.failures()
    &&& after.sizer.size() == grown_size(before.sizer.size(), before.sizer.successes() + 1)
}

/// The transfers left once those with the given ids are taken out, one id
/// after the other.
pub open spec fn without_ids(s: Seq<OutgoingTransfer>, ids: Seq<u64>) -> Seq<OutgoingTransfer>
    decreases ids.len(),
{
    if ids.len() == 0 {
        s
    } else {
        without_ids(without(s, outgoing_index(s, ids[0])), ids.drop_first())
    }
}

proof fn lemma_outgoing_remove(s: Seq<OutgoingTransfer>, k: int)
    requires
        outgoing_ids_distinct(s),
        0 <= k < s.len(),
    ensures
        outgoing_ids_distinct(s.remove(k)),
{
    let r = s.remove(k);
    assert forall|a: int, b: int| 0 <= a < r.len() && 0 <= b < r.len() && a != b implies r[a].id
        != r[b].id by {
        let a2 = if a < k { a } else { a + 1 };
        let b2 = if b < k { b } else { b + 1 };
        assert(r[a] == s[a2] && r[b] == s[b2]);
    }
}

/// Once the transfer with an id is taken out of transfers whose ids are
/// distinct, none with that id is left.
proof fn lemma_outgoing_gone(s: Seq<OutgoingTransfer>, id: u64)
    requires
        outgoing_ids_distinct(s),
    ensures
        outgoing_index(without(s, outgoing_index(s, id)), id) is None,
{
    match outgoing_index(s, id) {
        Some(k) => {
            let r = s.remove(k);
            assert(0 <= k < s.len() && s[k].id == id);
            assert forall|a: int| 0 <= a < r.len() implies r[a].id != id by {
                let a2 = if a < k { a } else { a + 1 };
                assert(r[a] == s[a2]);
            }
        },
        None => {},
    }
}

/// Once the transfer with an id is taken out of incoming transfers whose
/// ids are distinct, none with that id is left.
proof fn lemma_incoming_gone(s: Seq<(u64, IncomingTransfer)>, id: u64)
    requires
        incoming_well_kept(s),
    ensures
        incoming_index(without(s, incoming_index(s, id)), id) is None,
{
    match incoming_index(s, id) {
        Some(k) => {
            let r = s.remove(k);
            assert(0 <= k < s.len() && s[k].0 == id);
            assert forall|a: int| 0 <= a < r.len() implies r[a].0 != id by {
                let a2 = if a < k { a } else { a + 1 };
                assert(r[a] == s[a2]);
            }
        },
        None => {},
    }
}

proof fn lemma_outgoing_update(s: Seq<OutgoingTransfer>, k: int, t: OutgoingTransfer)
    requires
        outgoing_ids_distinct(s),
        0 <= k < s.len(),
        t.id == s[k].id,
    ensures
        outgoing_ids_distinct(s.update(k, t)),
{
    let r = s.update(k, t);
    assert forall|a: int, b: int| 0 <= a < r.len() && 0 <= b < r.len() && a != b implies r[a].id
        != r[b].id by {
        assert(r[a].id == s[a].id && r[b].id == s[b].id);
    }
}

proof fn lemma_incoming_remove(s: Seq<(u64, IncomingTransfer)>, k: int)
    requires
        incoming_well_kept(s),
        0 <= k < s.len(),
    ensures
        incoming_well_kept(s.remove(k)),
{
    let r = s.remove(k);
    assert forall|a: int, b: int| 0 <= a < r.len() && 0 <= b < r.len() && a != b implies r[a].0
        != r[b].0 by {
        let a2 = if a < k { a } else { a + 1 };
        let b2 = if b < k { b } else { b + 1 };
        assert(r[a] == s[a2] && r[b] == s[b2]);
    }
    assert forall|a: int| 0 <= a < r.len() implies #[trigger] r[a].1.wf() by {
        let a2 = if a < k { a } else { a + 1 };
        assert(r[a] == s[a2]);
    }
}

proof fn lemma_incoming_update(s: Seq<(u64, IncomingTransfer)>, k: int, t: (u64, IncomingTransfer))
    requires
        incoming_well_kept(s),
        0 <= k < s.len(),
        t.0 == s[k].0,
        t.1.wf(),
    ensures
        incoming_well_kept(s.update(k, t)),
{
    let r = s.update(k, t);
    assert forall|a: int, b: int| 0 <= a < r.len() && 0 <= b < r.len() && a != b implies r[a].0
        != r[b].0 by {
        assert(r[a].0 == s[a].0 && r[b].0 == s[b].0);
    }
    assert forall|a: int| 0 <= a < r.len() implies #[trigger] r[a].1.wf() by {
        if a != k {
            assert(r[a] == s[a]);
        }
    }
}

/// An outgoing transfer in another state.
pub open spec fn with_state(t: OutgoingTransfer, state: FileTransferState) -> OutgoingTransfer {
    OutgoingTransfer { state, ..t }
}

/// `after` matches `before` in everything that concerns sending: the
/// message queue, the buffer, the id counter, the channel id and the poll in
/// progress.
pub open spec fn same_sending(before: FileChannel, after: FileChannel) -> bool {
    &&& after.queue() == before.queue()
    &&& after.buffered() == before.buffered()
    &&& after.next_id() == before.next_id()
    &&& after.channel() == before.channel()
    &&& after.pending() == before.pending()
    &&& after.failed() == before.failed()
}

/// What an offer received from the peer does: a fresh incoming transfer
/// under its id (replacing one with that id) and an `IncomingOffer` event.
pub open spec fn offer_received(
    before: FileChannel,
    id: u64,
    filename: Seq<char>,
    size: u64,
    after: FileChannel,
) -> bool {
    &&& match incoming_index(before.incoming(), id) {
        Some(k) => {
            &&& after.incoming().len() == before.incoming().len()
            &&& forall|j: int|
                0 <= j < before.incoming().len() && j != k ==> after.incoming()[j]
                    == before.incoming()[j]
            &&& after.incoming()[k].0 == id
            &&& fresh_incoming(after.incoming()[k].1, size)
        },
        None => {
            &&& one_more(before.incoming(), after.incoming())
            &&& after.incoming().last().0 == id
            &&& fresh_incoming(after.incoming().last().1, size)
        },
    }
    &&& one_more(before.events(), after.events())
    &&& after.events().last() matches FileTransferEvent::IncomingOffer { id: eid, filename: f, size: z }
        && eid == id && f@ == filename && z == size
    &&& after.outgoing() == before.outgoing()
    &&& same_sending(before, after)
}

/// What an acceptance from the peer does: the outgoing transfer with that
/// id, if any, leaves `Pending` for `Transferring`, and an `Accepted` event
/// follows.
pub open spec fn accept_received(before: FileChannel, id: u64, after: FileChannel) -> bool {
    match outgoing_index(before.outgoing(), id) {
        None => after == before,
        Some(k) => {
            let t = before.outgoing()[k];
            &&& after.outgoing() == before.outgoing().update(
                k,
                with_state(
                    t,
                    if t.state == FileTransferState::Pending {
                        FileTransferState::Transferring
                    } else {
                        t.state
                    },
                ),
            )
            &&& after.events() == before.events().push(FileTransferEvent::Accepted { id })
            &&& after.incoming() == before.incoming()
            &&& same_sending(before, after)
        },
    }
}

/// What a rejection from the peer does: the outgoing transfer with that id,
/// if any, is cancelled, and a `Rejected` event carries the reason.
pub open spec fn reject_received(
    before: FileChannel,
    id: u64,
    reason: Seq<char>,
    after: FileChannel,
) -> bool {
    match outgoing_index(before.outgoing(), id) {
        None => after == before,
        Some(k) => {
            &&& after.outgoing() == before.outgoing().update(
                k,
                with_state(before.outgoing()[k], FileTransferState::Cancelled),
            )
            &&& one_more(before.events(), after.events())
            &&& after.events().last() matches FileTransferEvent::Rejected { id: eid, reason: r }
                && eid == id && r@ == reason
            &&& after.incoming() == before.incoming()
            &&& same_sending(before, after)
        },
    }
}

/// What a data chunk from the peer does: the incoming transfer with that
/// id, if any, takes the chunk, and a `Progress` event reports its count.
pub open spec fn data_received(
    before: FileChannel,
    id: u64,
    offset: u64,
    data: Seq<u8>,
    after: FileChannel,
) -> bool {
    match incoming_index(before.incoming(), id) {
        None => after == before,
        Some(k) => {
            let t = after.incoming()[k].1;
            &&& after.incoming().len() == before.incoming().len()
            &&& forall|j: int|
                0 <= j < before.incoming().len() && j != k ==> after.incoming()[j]
                    == before.incoming()[j]
            &&& after.incoming()[k].0 == id
            &&& chunk_taken(before.incoming()[k].1, offset, data, t)
            &&& after.events() == before.events().push(
                FileTransferEvent::Progress { id, bytes: t.bytes_received, total: t.total_size },
            )
            &&& after.outgoing() == before.outgoing()
            &&& same_sending(before, after)
        },
    }
}

/// What a completion notice from the peer does: an incoming transfer with
/// that id and a save path is handed to the caller to write out (`r` is its
/// id, nothing changes yet); one without a save path fails and leaves.
pub open spec fn complete_received(
    before: FileChannel,
    id: u64,
    r: Option<u64>,
    after: FileChannel,
) -> bool {
    match incoming_index(before.incoming(), id) {
        None => r is None && after == before,
        Some(k) => if before.incoming()[k].1.save_path is Some {
            r == Some(id) && after == before
        } else {
            &&& r is None
            &&& after.incoming() == before.incoming().remove(k)
            &&& one_more(before.events(), after.events())
            &&& after.events().last() matches FileTransferEvent::Failed { id: eid, reason: t }
                && eid == id && t@ == "No save path set"@
            &&& after.outgoing() == before.outgoing()
            &&& same_sending(before, after)
        },
    }
}

/// What a cancellation from the peer does: the transfers with that id leave
/// both sides, and a `Failed` event carries the reason.
pub open spec fn cancel_received(
    before: FileChannel,
    id: u64,
    reason: Seq<char>,
    after: FileChannel,
) -> bool {
    &&& after.outgoing() == without(before.outgoing(), outgoing_index(before.outgoing(), id))
    &&& after.incoming() == without(before.incoming(), incoming_index(before.incoming(), id))
    &&& outgoing_index(after.outgoing(), id) is None
    &&& incoming_index(after.incoming(), id) is None
    &&& one_more(before.events(), after.events())
    &&& after.events().last() matches FileTransferEvent::Failed { id: eid, reason: r } && eid
        == id && r@ == reason
    &&& same_sending(before, after)
}

/// What a received message does to the channel, and what `on_data` returns.
pub open spec fn message_received(
    before: FileChannel,
    m: MessageModel,
    r: Option<u64>,
    after: FileChannel,
) -> bool {
    match m {
        MessageModel::Offer { id, filename, size, .. } => r is None && offer_received(
            before,
            id,
            filename,
            size,
            after,
        ),
        MessageModel::Accept { id } => r is None && accept_received(before, id, after),
        MessageModel::Reject { id, reason } => r is None && reject_received(
            before,
            id,
            reason,
            after,
        ),
        MessageModel::Data { id, offset, data } => r is None && data_received(
            before,
            id,
            offset,
            data,
            after,
        ),
        MessageModel::Complete { id, .. } => complete_received(before, id, r, after),
        MessageModel::Cancel { id, reason } => r is None && cancel_received(
            before,
            id,
            reason,
            after,
        ),
    }
}

/// Whether the transfer has a chunk to read next.
pub open spec fn wants_chunk(t: OutgoingTransfer) -> bool {
    chunk_request_spec(t.state, t.bytes_sent, t.total_size, t.sizer.size()) is Some
}

/// The first transfer at or after `start`, in list order, that has a chunk
/// to read.
pub open spec fn next_reader(s: Seq<OutgoingTransfer>, start: int) -> Option<int> {
    if exists|i: int| start <= i < s.len() && wants_chunk(s[i]) {
        Some(
            choose|i: int|
                start <= i < s.len() && wants_chunk(s[i]) && forall|j: int|
                    start <= j < i ==> !wants_chunk(s[j]),
        )
    } else {
        None
    }
}

/// Whether `r` asks for the next chunk of transfer `t`.
pub open spec fn reads_chunk_of(r: SendStep, t: OutgoingTransfer) -> bool {
    r matches SendStep::Read { id, offset, len } && id == t.id && chunk_request_spec(
        t.state,
        t.bytes_sent,
        t.total_size,
        t.sizer.size(),
    ) == Some((offset, len as nat))
}

/// What scanning the outgoing transfers `s` from position `start` on does
/// to the sending side, with `failed` the reads that failed in this poll:
/// either it asks for the chunk of the first transfer there that has one,
/// or it ends the poll, dropping the transfers whose reads failed.
pub open spec fn scan_result(
    s: Seq<OutgoingTransfer>,
    failed: Seq<u64>,
    start: int,
    r: SendStep,
    after: FileChannel,
) -> bool {
    match next_reader(s, start) {
        Some(k) => {
            &&& reads_chunk_of(r, s[k])
            &&& after.pending() == Some(s[k].id)
            &&& after.outgoing() == s
            &&& after.failed() == failed
        },
        None => {
            &&& r is Idle
            &&& after.pending() is None
            &&& after.outgoing() == without_ids(s, failed)
            &&& after.failed() == Seq::<u64>::empty()
        },
    }
}

/// What scanning from position `start` on does to the whole channel.
pub open spec fn scanned(before: FileChannel, start: int, r: SendStep, after: FileChannel) -> bool {
    &&& after.incoming() == before.incoming()
    &&& after.events() == before.events()
    &&& after.queue() == before.queue()
    &&& after.buffered() == before.buffered()
    &&& after.next_id() == before.next_id()
    &&& after.channel() == before.channel()
    &&& scan_result(before.outgoing(), before.failed(), start, r, after)
}

/// What sending the last queued control message does: its bytes go out and
/// it leaves the queue; a `Complete` also retires the outgoing transfer it
/// names, with a `Completed` event carrying the transfer's path.
pub open spec fn sent_queued(before: FileChannel, r: SendStep, after: FileChannel) -> bool {
    let msg = before.queue().last();
    &&& r matches SendStep::Send(bytes) && bytes@ == message_bytes(msg@)
    &&& after.queue() == before.queue().drop_last()
    &&& match msg@ {
        MessageModel::Complete { id, .. } => match outgoing_index(before.outgoing(), id) {
            Some(k) => {
                &&& after.outgoing() == before.outgoing().remove(k)
                &&& after.events() == before.events().push(
                    FileTransferEvent::Completed { id, path: before.outgoing()[k].path },
                )
            },
            None => after.outgoing() == before.outgoing() && after.events() == before.events(),
        },
        _ => after.outgoing() == before.outgoing() && after.events() == before.events(),
    }
    &&& after.incoming() == before.incoming()
    &&& after.buffered() == before.buffered()
    &&& after.next_id() == before.next_id()
    &&& after.channel() == before.channel()
    &&& after.pending() == before.pending()
    &&& after.failed() == before.failed()
}

/// The outgoing transfer after `n` more of its bytes went out.
pub open spec fn advanced(t: OutgoingTransfer, n: nat) -> OutgoingTransfer {
    let sent = (t.bytes_sent + n) as u64;
    OutgoingTransfer {
        bytes_sent: sent,
        state: if sent >= t.total_size {
            FileTransferState::Completed
        } else {
            t.state
        },
        ..t
    }
}

/// What the bytes `data`, read for the next chunk of the outgoing transfer
/// at position `k`, do: as many of them as the chunk may take go out in a
/// `Data` message and count as sent, a `Progress` event reports the count,
/// a transfer that is thereby complete queues its `Complete` message, and
/// the poll ends.
pub open spec fn chunk_sent(
    before: FileChannel,
    k: int,
    data: Seq<u8>,
    r: SendStep,
    after: FileChannel,
) -> bool {
    let t = before.outgoing()[k];
    let req = chunk_request_spec(t.state, t.bytes_sent, t.total_size, t.sizer.size()).unwrap();
    let n: nat = if data.len() < req.1 {
        data.len()
    } else {
        req.1
    };
    let t2 = advanced(t, n);
    &&& r matches SendStep::Send(bytes) && bytes@ == message_bytes(
        MessageModel::Data { id: t.id, offset: req.0, data: data.take(n as int) },
    ) && after.buffered() == before.buffered() + bytes@.len()
    &&& after.outgoing() == without_ids(before.outgoing().update(k, t2), before.failed())
    &&& after.failed() == Seq::<u64>::empty()
    &&& after.pending() is None
    &&& after.events() == before.events().push(
        FileTransferEvent::Progress { id: t.id, bytes: t2.bytes_sent, total: t2.total_size },
    )
    &&& after.queue() == (if t2.state == FileTransferState::Completed {
        before.queue().push(FileTransferMessage::Complete { id: t.id, checksum: 0 })
    } else {
        before.queue()
    })
    &&& after.incoming() == before.incoming()
    &&& after.next_id() == before.next_id()
    &&& after.channel() == before.channel()
}

/// What `send_step` asks of the caller next.
#[derive(Debug)]
pub enum SendStep {
    /// These bytes go out on the data channel.
    Send(Vec<u8>),
    /// Read up to `len` bytes at `offset` of the file of outgoing transfer
    /// `id`, and hand them, or the error, to `on_chunk_read`.
    Read { id: u64, offset: u64, len: usize },
    /// Nothing to send now.
    Idle,
}

/// File channel for managing file transfers
#[derive(Debug)]
pub struct FileChannel {
    channel_id: u16,
    next_transfer_id: u64,
    outgoing: Vec<OutgoingTransfer>,
    incoming: Vec<(u64, IncomingTransfer)>,
    events: Vec<FileTransferEvent>,
    send_queue: Vec<FileTransferMessage>,
    /// Current buffered amount (bytes pending in SCTP buffer)
    buffered_amount: usize,
    /// Max buffered amount before pausing
    max_buffered_amount: usize,
    /// The outgoing transfer whose chunk the caller is reading, if any.
    pending_read: Option<u64>,
    /// Transfers whose read failed during the current poll; they leave at its end.
    failed_reads: Vec<u64>,
}

impl FileChannel {
    /// The data channel id.
    pub closed spec fn channel(&self) -> u16 {
        self.channel_id
    }

    /// The id the next offered file gets.
    pub closed spec fn next_id(&self) -> u64 {
        self.next_transfer_id
    }

    /// The outgoing transfers, in the order they were offered.
    pub closed spec fn outgoing(&self) -> Seq<OutgoingTransfer> {
        self.outgoing@
    }

    /// The incoming transfers with their ids, in the order they arrived.
    pub closed spec fn incoming(&self) -> Seq<(u64, IncomingTransfer)> {
        self.incoming@
    }

    /// The events not yet polled, oldest first.
    pub closed spec fn events(&self) -> Seq<FileTransferEvent> {
        self.events@
    }

    /// The control messages waiting to be sent; the last one goes first.
    pub closed spec fn queue(&self) -> Seq<FileTransferMessage> {
        self.send_queue@
    }

    /// Bytes handed to the channel and not yet reported sent.
    pub closed spec fn buffered(&self) -> nat {
        self.buffered_amount as nat
    }

    /// The outgoing transfer whose chunk the caller is reading, if any.
    pub closed spec fn pending(&self) -> Option<u64> {
        self.pending_read
    }

    /// Transfers whose chunk read failed during the current poll.
    pub closed spec fn failed(&self) -> Seq<u64> {
        self.failed_reads@
    }

    /// The channel's books hold together: transfer ids are unique on each
    /// side, each incoming transfer keeps its books, and a chunk read is only
    /// ever pending while the buffer has room.
    pub closed spec fn wf(&self) -> bool {
        &&& outgoing_ids_distinct(self.outgoing@)
        &&& incoming_well_kept(self.incoming@)
        &&& self.max_buffered_amount == MAX_BUFFERED_AMOUNT
        &&& (self.pending_read is Some ==> self.buffered_amount < MAX_BUFFERED_AMOUNT)
    }

    /// Create new file channel
    pub fn new(channel_id: u16) -> (c: Self)
        ensures
            c.wf(),
            c.channel() == channel_id,
            c.next_id() < 0x1_0000_0000_0000,
            c.outgoing() == Seq::<OutgoingTransfer>::empty(),
            c.incoming() == Seq::<(u64, IncomingTransfer)>::empty(),
            c.events() == Seq::<FileTransferEvent>::empty(),
            c.queue() == Seq::<FileTransferMessage>::empty(),
            c.buffered() == 0,
            c.pending() is None,
            c.failed() == Seq::<u64>::empty(),
    {
        Self::with_random(channel_id, random_u64())
    }

    /// A new channel whose first transfer id is the low 48 bits of `random`.
    pub fn with_random(channel_id: u16, random: u64) -> (c: Self)
        ensures
            c.wf(),
            c.channel() == channel_id,
            c.next_id() == random & TRANSFER_ID_MASK,
            c.next_id() < 0x1_0000_0000_0000,
            c.outgoing() == Seq::<OutgoingTransfer>::empty(),
            c.incoming() == Seq::<(u64, IncomingTransfer)>::empty(),
            c.events() == Seq::<FileTransferEvent>::empty(),
            c.queue() == Seq::<FileTransferMessage>::empty(),
            c.buffered() == 0,
            c.pending() is None,
            c.failed() == Seq::<u64>::empty(),
    {
        let first = random & TRANSFER_ID_MASK;
        assert(random & 0x0000_FFFF_FFFF_FFFFu64 < 0x1_0000_0000_0000u64) by (bit_vector);
        FileChannel {
            channel_id,
            next_transfer_id: first,
            outgoing: Vec::new(),
            incoming: Vec::new(),
            events: Vec::new(),
            send_queue: Vec::new(),
            buffered_amount: 0,
            max_buffered_amount: MAX_BUFFERED_AMOUNT,
            pending_read: None,
            failed_reads: Vec::new(),
        }
    }

    /// Get the data channel ID
    pub fn channel_id(&self) -> (id: u16)
        ensures
            id == self.channel(),
    {
        self.channel_id
    }

    /// Check if we can send more data (flow control)
    pub fn can_send(&self) -> (b: bool)
        requires
            self.wf(),
        ensures
            b == (self.buffered() < MAX_BUFFERED_AMOUNT),
    {
        self.buffered_amount < self.max_buffered_amount
    }

    fn find_outgoing(&self, id: u64) -> (r: Option<usize>)
        requires
            outgoing_ids_distinct(self.outgoing@),
        ensures
            match r {
                Some(i) => outgoing_index(self.outgoing@, id) == Some(i as int) && i
                    < self.outgoing@.len(),
                None => outgoing_index(self.outgoing@, id) is None,
            },
    {
        let mut i: usize = 0;
        while i < self.outgoing.len()
            invariant
                i <= self.outgoing@.len(),
                outgoing_ids_distinct(self.outgoing@),
                forall|j: int| 0 <= j < i ==> self.outgoing@[j].id != id,
            decreases self.outgoing@.len() - i,
        {
            if self.outgoing[i].id == id {
                proof {
                    let s = self.outgoing@;
                    assert(exists|k: int| 0 <= k < s.len() && s[k].id == id);
                    let c = choose|k: int| 0 <= k < s.len() && s[k].id == id;
                    assert(c == i);
                }
                return Some(i);
            }
            i = i + 1;
        }
        None
    }

    fn find_incoming(&self, id: u64) -> (r: Option<usize>)
        requires
            incoming_well_kept(self.incoming@),
        ensures
            match r {
                Some(i) => incoming_index(self.incoming@, id) == Some(i as int) && i
                    < self.incoming@.len(),
                None => incoming_index(self.incoming@, id) is None,
            },
    {
        let mut i: usize = 0;
        while i < self.incoming.len()
            invariant
                i <= self.incoming@.len(),
                incoming_well_kept(self.incoming@),
                forall|j: int| 0 <= j < i ==> self.incoming@[j].0 != id,
            decreases self.incoming@.len() - i,
        {
            if self.incoming[i].0 == id {
                proof {
                    let s = self.incoming@;
                    assert(exists|k: int| 0 <= k < s.len() && s[k].0 == id);
                    let c = choose|k: int| 0 <= k < s.len() && s[k].0 == id;
                    assert(c == i);
                }
                return Some(i);
            }
            i = i + 1;
        }
        None
    }

    /// Everything but the message queue and the events is as in `other`.
    pub open spec fn same_transfers(&self, other: &Self) -> bool {
        &&& self.outgoing() == other.outgoing()
        &&& self.incoming() == other.incoming()
        &&& self.buffered() == other.buffered()
        &&& self.next_id() == other.next_id()
        &&& self.channel() == other.channel()
        &&& self.pending() == other.pending()
        &&& self.failed() == other.failed()
    }

    /// Start sending a file: registers an outgoing transfer of `size`
    /// bytes read from `path` and queues its offer. The file's metadata are
    /// the caller's to read.
    pub fn offer_file(
        &mut self,
        path: std::path::PathBuf,
        filename: String,
        size: u64,
        mime_type: String,
    ) -> (id: u64)
        requires
            old(self).wf(),
            old(self).next_id() < u64::MAX,
        ensures
            final(self).wf(),
            id == old(self).next_id(),
            final(self).next_id() == id + 1,
            match outgoing_index(old(self).outgoing(), id) {
                Some(k) => final(self).outgoing().len() == old(self).outgoing().len() && (forall|
                    j: int,
                |
                    0 <= j < old(self).outgoing().len() && j != k ==> final(self).outgoing()[j]
                        == old(self).outgoing()[j]) && fresh_outgoing(
                    final(self).outgoing()[k],
                    id,
                    path,
                    size,
                ),
                None => one_more(old(self).outgoing(), final(self).outgoing()) && fresh_outgoing(
                    final(self).outgoing().last(),
                    id,
                    path,
                    size,
                ),
            },
            final(self).queue() == old(self).queue().push(
                FileTransferMessage::Offer { id, filename, size, mime_type },
            ),
            final(self).incoming() == old(self).incoming(),
            final(self).events() == old(self).events(),
            final(self).buffered() == old(self).buffered(),
            final(self).channel() == old(self).channel(),
            final(self).pending() == old(self).pending(),
            final(self).failed() == old(self).failed(),
    {
        let id = self.next_transfer_id;
        self.next_transfer_id = self.next_transfer_id + 1;
        let transfer = OutgoingTransfer::new(id, path, size);
        match self.find_outgoing(id) {
            Some(k) => {
                self.outgoing.set(k, transfer);
                assert(outgoing_ids_distinct(self.outgoing@)) by {
                    assert forall|a: int, b: int|
                        0 <= a < self.outgoing@.len() && 0 <= b < self.outgoing@.len() && a
                            != b implies self.outgoing@[a].id != self.outgoing@[b].id by {
                        if a != k && b != k {
                            assert(old(self).outgoing@[a].id != old(self).outgoing@[b].id);
                        } else if a == k {
                            assert(old(self).outgoing@[k as int].id != old(self).outgoing@[b].id);
                        } else {
                            assert(old(self).outgoing@[a].id != old(self).outgoing@[k as int].id);
                        }
                    }
                }
            },
            None => {
                self.outgoing.push(transfer);
                assert(outgoing_ids_distinct(self.outgoing@)) by {
                    let s = self.outgoing@;
                    assert forall|a: int, b: int|
                        0 <= a < s.len() && 0 <= b < s.len() && a != b implies s[a].id
                            != s[b].id by {
                        if a < s.len() - 1 && b < s.len() - 1 {
                            assert(old(self).outgoing@[a].id != old(self).outgoing@[b].id);
                        } else if a == s.len() - 1 {
                            assert(!(old(self).outgoing@[b].id == id));
                        } else {
                            assert(!(old(self).outgoing@[a].id == id));
                        }
                    }
                }
                assert(self.outgoing@.drop_last() =~= old(self).outgoing@);
            },
        }
        self.send_queue.push(FileTransferMessage::Offer { id, filename, size, mime_type });
        id
    }

    /// Accept an incoming file transfer
    pub fn accept_transfer(&mut self, id: u64, save_path: std::path::PathBuf) -> (r: Result<
        (),
        &'static str,
    >)
        requires
            old(self).wf(),
        ensures
            final(self).wf(),
            match incoming_index(old(self).incoming(), id) {
                None => r matches Err(e) && e@ == "Transfer not found"@ && *final(self) == *old(self),
                Some(i) => if old(self).incoming()[i].1.state != FileTransferState::Pending {
                    r matches Err(e) && e@ == "Transfer not pending"@ && *final(self) == *old(self)
                } else {
                    &&& r is Ok
                    &&& final(self).incoming() == old(self).incoming().update(
                        i,
                        (id, accepted_incoming(old(self).incoming()[i].1, save_path)),
                    )
                    &&& final(self).queue() == old(self).queue().push(
                        FileTransferMessage::Accept { id },
                    )
                    &&& final(self).events() == old(self).events()
                    &&& final(self).outgoing() == old(self).outgoing()
                    &&& final(self).buffered() == old(self).buffered()
                    &&& final(self).next_id() == old(self).next_id()
                    &&& final(self).channel() == old(self).channel()
                    &&& final(self).pending() == old(self).pending()
                    &&& final(self).failed() == old(self).failed()
                },
            },
    {
        let k = match self.find_incoming(id) {
            Some(k) => k,
            None => {
                return Err("Transfer not found");
            },
        };
        if self.incoming[k].1.state != FileTransferState::Pending {
            return Err("Transfer not pending");
        }
        let (tid, mut t) = self.incoming.remove(k);
        t.accept(save_path);
        self.incoming.insert(k, (tid, t));
        proof {
            assert(self.incoming@ =~= old(self).incoming@.update(k as int, (tid, t)));
            assert(t == accepted_incoming(old(self).incoming@[k as int].1, save_path));
            assert(incoming_well_kept(self.incoming@)) by {
                assert(forall|a: int| 0 <= a < self.incoming@.len() ==> #[trigger] self.incoming@[a].0
                    == old(self).incoming@[a].0);
                assert(forall|a: int| 0 <= a < self.incoming@.len() && a != k ==> #[trigger] self.incoming@[a]
                    == old(self).incoming@[a]);
                assert(old(self).incoming@[k as int].1.wf());
            }
        }
        self.send_queue.push(FileTransferMessage::Accept { id });
        Ok(())
    }

    /// Reject an incoming file transfer
    pub fn reject_transfer(&mut self, id: u64, reason: &str) -> (r: Result<(), &'static str>)
        requires
            old(self).wf(),
        ensures
            final(self).wf(),
            match incoming_index(old(self).incoming(), id) {
                None => r matches Err(e) && e@ == "Transfer not found"@ && *final(self) == *old(self),
                Some(i) => if old(self).incoming()[i].1.state != FileTransferState::Pending {
                    r matches Err(e) && e@ == "Transfer not pending"@ && *final(self) == *old(self)
                } else {
                    &&& r is Ok
                    &&& final(self).incoming() == old(self).incoming().update(
                        i,
                        (id, rejected_incoming(old(self).incoming()[i].1)),
                    )
                    &&& one_more(old(self).queue(), final(self).queue())
                    &&& final(self).queue().last() matches FileTransferMessage::Reject {
                        id: rid,
                        reason: text,
                    } && rid == id && text@ == reason@
                    &&& final(self).events() == old(self).events()
                    &&& final(self).outgoing() == old(self).outgoing()
                    &&& final(self).buffered() == old(self).buffered()
                    &&& final(self).next_id() == old(self).next_id()
                    &&& final(self).channel() == old(self).channel()
                    &&& final(self).pending() == old(self).pending()
                    &&& final(self).failed() == old(self).failed()
                },
            },
    {
        let k = match self.find_incoming(id) {
            Some(k) => k,
            None => {
                return Err("Transfer not found");
            },
        };
        if self.incoming[k].1.state != FileTransferState::Pending {
            return Err("Transfer not pending");
        }
        let (tid, mut t) = self.incoming.remove(k);
        t.reject();
        self.incoming.insert(k, (tid, t));
        proof {
            assert(self.incoming@ =~= old(self).incoming@.update(k as int, (tid, t)));
            assert(t == rejected_incoming(old(self).incoming@[k as int].1));
            assert(incoming_well_kept(self.incoming@)) by {
                assert(forall|a: int| 0 <= a < self.incoming@.len() ==> #[trigger] self.incoming@[a].0
                    == old(self).incoming@[a].0);
                assert(forall|a: int| 0 <= a < self.incoming@.len() && a != k ==> #[trigger] self.incoming@[a]
                    == old(self).incoming@[a]);
                assert(old(self).incoming@[k as int].1.wf());
            }
        }
        self.send_queue.push(FileTransferMessage::Reject { id, reason: string_from_str(reason) });
        assert(self.send_queue@.drop_last() =~= old(self).send_queue@);
        Ok(())
    }

    /// Cancel an ongoing transfer
    pub fn cancel_transfer(&mut self, id: u64, reason: &str) -> (r: Result<(), &'static str>)
        requires
            old(self).wf(),
        ensures
            final(self).wf(),
            outgoing_index(old(self).outgoing(), id) is None && incoming_index(
                old(self).incoming(),
                id,
            ) is None ==> (r matches Err(e) && e@ == "Transfer not found"@ && *final(self) == *old(
                self)),
            outgoing_index(old(self).outgoing(), id) is Some || incoming_index(
                old(self).incoming(),
                id,
            ) is Some ==> {
                &&& r is Ok
                &&& final(self).outgoing() == without(
                    old(self).outgoing(),
                    outgoing_index(old(self).outgoing(), id),
                )
                &&& final(self).incoming() == (if outgoing_index(old(self).outgoing(), id) is Some {
                    old(self).incoming()
                } else {
                    without(old(self).incoming(), incoming_index(old(self).incoming(), id))
                })
                &&& one_more(old(self).queue(), final(self).queue())
                &&& final(self).queue().last() matches FileTransferMessage::Cancel {
                    id: cid,
                    reason: text,
                } && cid == id && text@ == reason@
                &&& one_more(old(self).events(), final(self).events())
                &&& final(self).events().last() matches FileTransferEvent::Failed {
                    id: fid,
                    reason: text,
                } && fid == id && text@ == "Cancelled: "@ + reason@
                &&& final(self).buffered() == old(self).buffered()
                &&& final(self).next_id() == old(self).next_id()
                &&& final(self).channel() == old(self).channel()
                &&& final(self).pending() == old(self).pending()
                &&& final(self).failed() == old(self).failed()
            },
    {
        match self.find_outgoing(id) {
            Some(k) => {
                proof {
                    lemma_outgoing_remove(self.outgoing@, k as int);
                }
                self.outgoing.remove(k);
            },
            None => match self.find_incoming(id) {
                Some(k) => {
                    proof {
                        lemma_incoming_remove(self.incoming@, k as int);
                    }
                    self.incoming.remove(k);
                },
                None => {
                    return Err("Transfer not found");
                },
            },
        }
        self.send_queue.push(FileTransferMessage::Cancel { id, reason: string_from_str(reason) });
        let mut text = string_from_str("Cancelled: ");
        let reason_chars = chars_of(reason);
        push_chars(&mut text, reason_chars.as_slice());
        self.events.push(FileTransferEvent::Failed { id, reason: text });
        assert(self.send_queue@.drop_last() =~= old(self).send_queue@);
        assert(self.events@.drop_last() =~= old(self).events@);
        Ok(())
    }

    fn first_transferring_index(&self) -> (r: Option<usize>)
        ensures
            match r {
                Some(k) => first_transferring(self.outgoing@) == Some(k as int) && k
                    < self.outgoing@.len(),
                None => first_transferring(self.outgoing@) is None,
            },
    {
        let mut i: usize = 0;
        while i < self.outgoing.len()
            invariant
                i <= self.outgoing@.len(),
                forall|j: int| 0 <= j < i ==> self.outgoing@[j].state != FileTransferState::Transferring,
            decreases self.outgoing@.len() - i,
        {
            if self.outgoing[i].state == FileTransferState::Transferring {
                proof {
                    let s = self.outgoing@;
                    assert(exists|k: int| 0 <= k < s.len() && s[k].state == FileTransferState::Transferring);
                    let c = choose|k: int|
                        0 <= k < s.len() && s[k].state == FileTransferState::Transferring && forall|j: int|
                            0 <= j < k ==> s[j].state != FileTransferState::Transferring;
                    assert(0 <= c < s.len() && s[c].state == FileTransferState::Transferring && forall|j: int|
                            0 <= j < c ==> s[j].state != FileTransferState::Transferring);
                    if c < i {
                    } else if c > i {
                        assert(s[i as int].state != FileTransferState::Transferring);
                    }
                }
                return Some(i);
            }
            i = i + 1;
        }
        None
    }

    /// Notify that bytes were successfully sent (reduces buffered amount)
    pub fn on_bytes_sent(&mut self, bytes: usize)
        requires
            old(self).wf(),
            match first_transferring(old(self).outgoing()) {
                Some(k) => old(self).outgoing()[k].sizer.successes() < u64::MAX,
                None => true,
            },
        ensures
            final(self).wf(),
            final(self).buffered() == (if old(self).buffered() >= bytes {
                old(self).buffered() - bytes
            } else {
                0
            }),
            match first_transferring(old(self).outgoing()) {
                Some(k) => final(self).outgoing().len() == old(self).outgoing().len() && (forall|
                    j: int,
                |
                    0 <= j < old(self).outgoing().len() && j != k ==> final(self).outgoing()[j]
                        == old(self).outgoing()[j]) && adapted_on_success(
                    old(self).outgoing()[k],
                    final(self).outgoing()[k],
                ),
                None => final(self).outgoing() == old(self).outgoing(),
            },
            final(self).incoming() == old(self).incoming(),
            final(self).events() == old(self).events(),
            final(self).queue() == old(self).queue(),
            final(self).next_id() == old(self).next_id(),
            final(self).channel() == old(self).channel(),
            final(self).pending() == old(self).pending(),
            final(self).failed() == old(self).failed(),
    {
        self.buffered_amount = self.buffered_amount.saturating_sub(bytes);
        // Adaptive feedback: a successful send grows the chunk size of the
        // active transfer only.
        match self.first_transferring_index() {
            Some(k) => self.adapt_on_success(k),
            None => {},
        }
    }

    fn adapt_on_success(&mut self, k: usize)
        requires
            old(self).wf(),
            k < old(self).outgoing@.len(),
            old(self).outgoing@[k as int].sizer.successes() < u64::MAX,
        ensures
            final(self).wf(),
            final(self).outgoing@.len() == old(self).outgoing@.len(),
            forall|j: int|
                0 <= j < old(self).outgoing@.len() && j != k ==> final(self).outgoing@[j] == old(
                    self).outgoing@[j],
            adapted_on_success(old(self).outgoing@[k as int], final(self).outgoing@[k as int]),
            final(self).incoming == old(self).incoming,
            final(self).events == old(self).events,
            final(self).send_queue == old(self).send_queue,
            final(self).buffered_amount == old(self).buffered_amount,
            final(self).max_buffered_amount == old(self).max_buffered_amount,
            final(self).next_transfer_id == old(self).next_transfer_id,
            final(self).channel_id == old(self).channel_id,
            final(self).pending_read == old(self).pending_read,
            final(self).failed_reads == old(self).failed_reads,
    {
        let mut t = self.outgoing.remove(k);
        t.adapt_chunk_size(true);
        self.outgoing.insert(k, t);
        proof {
            assert(self.outgoing@ =~= old(self).outgoing@.update(k as int, t));
            lemma_outgoing_update(old(self).outgoing@, k as int, t);
        }
    }

    /// Process incoming data from data channel. Bytes that are no message
    /// are dropped. When the peer reports a transfer complete whose file
    /// can be written, its id comes back: the caller writes
    /// `incoming_file_data` to its save path and reports the outcome to
    /// `finish_incoming`.
    pub fn on_data(&mut self, data: &[u8]) -> (r: Option<u64>)
        requires
            old(self).wf(),
        ensures
            final(self).wf(),
            match parse_spec(data@) {
                Err(_) => r is None && *final(self) == *old(self),
                Ok(m) => message_received(*old(self), m, r, *final(self)),
            },
    {
        let msg = match FileTransferMessage::from_bytes(data) {
            Ok(m) => m,
            Err(_) => {
                return None;
            },
        };
        match msg {
            FileTransferMessage::Offer { id, filename, size, mime_type: _ } => {
                self.offer_received(id, filename, size);
                None
            },
            FileTransferMessage::Accept { id } => {
                self.accept_received(id);
                None
            },
            FileTransferMessage::Reject { id, reason } => {
                self.reject_received(id, reason);
                None
            },
            FileTransferMessage::Data { id, offset, data } => {
                self.data_received(id, offset, data);
                None
            },
            FileTransferMessage::Complete { id, .. } => self.complete_received(id),
            FileTransferMessage::Cancel { id, reason } => {
                self.cancel_received(id, reason);
                None
            },
        }
    }

    fn offer_received(&mut self, id: u64, filename: String, size: u64)
        requires
            old(self).wf(),
        ensures
            final(self).wf(),
            offer_received(*old(self), id, filename@, size, *final(self)),
    {
        let transfer = IncomingTransfer::new(size);
        match self.find_incoming(id) {
            Some(k) => {
                proof {
                    lemma_incoming_update(self.incoming@, k as int, (id, transfer));
                }
                self.incoming.set(k, (id, transfer));
            },
            None => {
                self.incoming.push((id, transfer));
                proof {
                    let s = self.incoming@;
                    assert forall|a: int, b: int|
                        0 <= a < s.len() && 0 <= b < s.len() && a != b implies s[a].0 != s[b].0 by {
                        if a < s.len() - 1 && b < s.len() - 1 {
                            assert(old(self).incoming@[a].0 != old(self).incoming@[b].0);
                        } else if a == s.len() - 1 {
                            assert(!(old(self).incoming@[b].0 == id));
                        } else {
                            assert(!(old(self).incoming@[a].0 == id));
                        }
                    }
                    assert forall|a: int| 0 <= a < s.len() implies #[trigger] s[a].1.wf() by {
                        if a < s.len() - 1 {
                            assert(s[a] == old(self).incoming@[a]);
                        }
                    }
                    assert(s.drop_last() =~= old(self).incoming@);
                }
            },
        }
        self.events.push(FileTransferEvent::IncomingOffer { id, filename, size });
        assert(self.events@.drop_last() =~= old(self).events@);
    }

    fn accept_received(&mut self, id: u64)
        requires
            old(self).wf(),
        ensures
            final(self).wf(),
            accept_received(*old(self), id, *final(self)),
    {
        match self.find_outgoing(id) {
            Some(k) => {
                let mut t = self.outgoing.remove(k);
                t.accept();
                self.outgoing.insert(k, t);
                proof {
                    assert(t == with_state(old(self).outgoing@[k as int], t.state));
                    assert(self.outgoing@ =~= old(self).outgoing@.update(k as int, t));
                    lemma_outgoing_update(old(self).outgoing@, k as int, t);
                }
                self.events.push(FileTransferEvent::Accepted { id });
            },
            None => {},
        }
    }

    fn reject_received(&mut self, id: u64, reason: String)
        requires
            old(self).wf(),
        ensures
            final(self).wf(),
            reject_received(*old(self), id, reason@, *final(self)),
    {
        match self.find_outgoing(id) {
            Some(k) => {
                let mut t = self.outgoing.remove(k);
                t.reject();
                self.outgoing.insert(k, t);
                proof {
                    assert(t == with_state(old(self).outgoing@[k as int], t.state));
                    assert(self.outgoing@ =~= old(self).outgoing@.update(k as int, t));
                    lemma_outgoing_update(old(self).outgoing@, k as int, t);
                }
                self.events.push(FileTransferEvent::Rejected { id, reason });
                assert(self.events@.drop_last() =~= old(self).events@);
            },
            None => {},
        }
    }

    fn data_received(&mut self, id: u64, offset: u64, data: Vec<u8>)
        requires
            old(self).wf(),
        ensures
            final(self).wf(),
            data_received(*old(self), id, offset, data@, *final(self)),
    {
        match self.find_incoming(id) {
            Some(k) => {
                let (tid, mut t) = self.incoming.remove(k);
                proof {
                    assert(old(self).incoming@[k as int].1.wf());
                }
                let _ = t.receive_chunk(offset, data);
                let bytes = t.bytes_received;
                let total = t.total_size;
                self.incoming.insert(k, (tid, t));
                proof {
                    assert(self.incoming@ =~= old(self).incoming@.update(k as int, (tid, t)));
                    lemma_incoming_update(old(self).incoming@, k as int, (tid, t));
                }
                self.events.push(FileTransferEvent::Progress { id, bytes, total });
            },
            None => {},
        }
    }

    fn complete_received(&mut self, id: u64) -> (r: Option<u64>)
        requires
            old(self).wf(),
        ensures
            final(self).wf(),
            complete_received(*old(self), id, r, *final(self)),
    {
        match self.find_incoming(id) {
            Some(k) => {
                if self.incoming[k].1.save_path.is_some() {
                    Some(id)
                } else {
                    proof {
                        lemma_incoming_remove(self.incoming@, k as int);
                    }
                    self.incoming.remove(k);
                    self.events.push(
                        FileTransferEvent::Failed { id, reason: string_from_str("No save path set") },
                    );
                    assert(self.events@.drop_last() =~= old(self).events@);
                    None
                }
            },
            None => None,
        }
    }

    fn cancel_received(&mut self, id: u64, reason: String)
        requires
            old(self).wf(),
        ensures
            final(self).wf(),
            cancel_received(*old(self), id, reason@, *final(self)),
    {
        match self.find_outgoing(id) {
            Some(k) => {
                proof {
                    lemma_outgoing_remove(self.outgoing@, k as int);
                }
                self.outgoing.remove(k);
            },
            None => {},
        }
        match self.find_incoming(id) {
            Some(k) => {
                proof {
                    lemma_incoming_remove(self.incoming@, k as int);
                }
                self.incoming.remove(k);
            },
            None => {},
        }
        self.events.push(FileTransferEvent::Failed { id, reason });
        assert(self.events@.drop_last() =~= old(self).events@);
        proof {
            lemma_outgoing_gone(old(self).outgoing@, id);
            lemma_incoming_gone(old(self).incoming@, id);
        }
    }

    /// The bytes of the incoming transfer `id`, in offset order, with the
    /// path they are to be saved at; `None` when there is no such transfer
    /// or it has no save path.
    pub fn incoming_file_data(&self, id: u64) -> (r: Option<(&std::path::PathBuf, Vec<u8>)>)
        requires
            self.wf(),
        ensures
            match incoming_index(self.incoming(), id) {
                Some(k) => match self.incoming()[k].1.save_path {
                    Some(p) => r matches Some((q, bytes)) && *q == p && bytes@ == crate::session::file_transfer::incoming::joined(
                        self.incoming()[k].1.chunks@,
                    ),
                    None => r is None,
                },
                None => r is None,
            },
    {
        match self.find_incoming(id) {
            Some(k) => match &self.incoming[k].1.save_path {
                Some(p) => Some((p, self.incoming[k].1.assembled_data())),
                None => None,
            },
            None => None,
        }
    }

    /// Ends the incoming transfer `id` once the caller tried to write its
    /// file: `Ok` gives a `Completed` event with its save path, `Err` a
    /// `Failed` event with the error's text; either way the transfer leaves.
    pub fn finish_incoming(&mut self, id: u64, outcome: Result<(), String>)
        requires
            old(self).wf(),
        ensures
            final(self).wf(),
            match incoming_index(old(self).incoming(), id) {
                None => *final(self) == *old(self),
                Some(k) => {
                    &&& final(self).incoming() == old(self).incoming().remove(k)
                    &&& one_more(old(self).events(), final(self).events())
                    &&& match outcome {
                        Ok(_) => match old(self).incoming()[k].1.save_path {
                            Some(p) => final(self).events().last() == FileTransferEvent::Completed {
                                id,
                                path: p,
                            },
                            None => final(self).events().last() matches FileTransferEvent::Failed {
                                id: eid,
                                reason: t,
                            } && eid == id && t@ == "No save path set"@,
                        },
                        Err(e) => final(self).events().last() == FileTransferEvent::Failed {
                            id,
                            reason: e,
                        },
                    }
                    &&& final(self).outgoing() == old(self).outgoing()
                    &&& same_sending(*old(self), *final(self))
                },
            },
    {
        match self.find_incoming(id) {
            Some(k) => {
                proof {
                    lemma_incoming_remove(self.incoming@, k as int);
                }
                let (_, t) = self.incoming.remove(k);
                let event = match outcome {
                    Ok(()) => match t.save_path {
                        Some(path) => FileTransferEvent::Completed { id, path },
                        None => FileTransferEvent::Failed {
                            id,
                            reason: string_from_str("No save path set"),
                        },
                    },
                    Err(e) => FileTransferEvent::Failed { id, reason: e },
                };
                self.events.push(event);
                assert(self.events@.drop_last() =~= old(self).events@);
            },
            None => {},
        }
    }

    fn drop_failed_reads(&mut self)
        requires
            old(self).wf(),
        ensures
            final(self).wf(),
            final(self).outgoing() == without_ids(old(self).outgoing(), old(self).failed()),
            final(self).failed() == Seq::<u64>::empty(),
            final(self).incoming() == old(self).incoming(),
            final(self).events() == old(self).events(),
            final(self).queue() == old(self).queue(),
            final(self).buffered() == old(self).buffered(),
            final(self).next_id() == old(self).next_id(),
            final(self).channel() == old(self).channel(),
            final(self).pending() == old(self).pending(),
    {
        let ghost ids = self.failed_reads@;
        let ghost target = without_ids(self.outgoing@, ids);
        let mut i: usize = 0;
        assert(ids.skip(0) =~= ids);
        while i < self.failed_reads.len()
            invariant
                self.wf(),
                self.failed_reads@ == ids,
                i <= ids.len(),
                without_ids(self.outgoing@, ids.skip(i as int)) == target,
                self.incoming == old(self).incoming,
                self.events == old(self).events,
                self.send_queue == old(self).send_queue,
                self.buffered_amount == old(self).buffered_amount,
                self.next_transfer_id == old(self).next_transfer_id,
                self.channel_id == old(self).channel_id,
                self.pending_read == old(self).pending_read,
            decreases ids.len() - i,
        {
            let id = self.failed_reads[i];
            let ghost before = self.outgoing@;
            assert(ids.skip(i as int)[0] == id);
            assert(ids.skip(i as int).drop_first() =~= ids.skip(i as int + 1));
            match self.find_outgoing(id) {
                Some(k) => {
                    proof {
                        lemma_outgoing_remove(self.outgoing@, k as int);
                    }
                    self.outgoing.remove(k);
                },
                None => {},
            }
            assert(self.outgoing@ == without(before, outgoing_index(before, id)));
            i = i + 1;
        }
        assert(ids.skip(i as int) =~= Seq::<u64>::empty());
        self.failed_reads = Vec::new();
    }

    fn scan_from(&mut self, start: usize) -> (r: SendStep)
        requires
            old(self).wf(),
            start <= old(self).outgoing().len(),
            old(self).buffered() < MAX_BUFFERED_AMOUNT,
        ensures
            final(self).wf(),
            scanned(*old(self), start as int, r, *final(self)),
    {
        let mut i: usize = start;
        while i < self.outgoing.len()
            invariant
                start <= i <= self.outgoing@.len(),
                self.outgoing@ == old(self).outgoing@,
                forall|j: int| start <= j < i ==> !wants_chunk(self.outgoing@[j]),
                *self == *old(self),
                old(self).wf(),
                old(self).buffered() < MAX_BUFFERED_AMOUNT,
            decreases self.outgoing@.len() - i,
        {
            match self.outgoing[i].chunk_request() {
                Some((offset, len)) => {
                    let id = self.outgoing[i].id;
                    self.pending_read = Some(id);
                    proof {
                        let s = old(self).outgoing@;
                        let c = choose|c: int|
                            start <= c < s.len() && wants_chunk(s[c]) && forall|j: int|
                                start <= j < c ==> !wants_chunk(s[j]);
                        assert(exists|c: int| start <= c < s.len() && wants_chunk(s[c]));
                        assert(start <= c < s.len() && wants_chunk(s[c]) && forall|j: int|
                                start <= j < c ==> !wants_chunk(s[j]));
                        if c < i {
                        } else if c > i {
                            assert(!wants_chunk(s[i as int]));
                        }
                    }
                    return SendStep::Read { id, offset, len };
                },
                None => {},
            }
            i = i + 1;
        }
        self.drop_failed_reads();
        self.pending_read = None;
        SendStep::Idle
    }

    /// Poll for next message to send. Queued control messages go first,
    /// the last queued first; then, while the buffer below has room, the
    /// next chunk of a transfer in progress, which the caller reads from
    /// its file and hands to `on_chunk_read`.
    pub fn poll_send(&mut self) -> (r: SendStep)
        requires
            old(self).wf(),
        ensures
            final(self).wf(),
            old(self).queue().len() > 0 ==> sent_queued(*old(self), r, *final(self)),
            old(self).queue().len() == 0 && old(self).buffered() >= MAX_BUFFERED_AMOUNT ==> r is Idle
                && *final(self) == *old(self),
            old(self).queue().len() == 0 && old(self).buffered() < MAX_BUFFERED_AMOUNT ==> scanned(
                *old(self),
                0,
                r,
                *final(self),
            ),
    {
        if self.send_queue.len() > 0 {
            let last = self.send_queue.len() - 1;
            let msg = self.send_queue.remove(last);
            assert(self.send_queue@ =~= old(self).send_queue@.drop_last());
            match &msg {
                FileTransferMessage::Complete { id, .. } => {
                    // The sender's side of the transfer is done.
                    match self.find_outgoing(*id) {
                        Some(k) => {
                            proof {
                                lemma_outgoing_remove(self.outgoing@, k as int);
                            }
                            let t = self.outgoing.remove(k);
                            self.events.push(FileTransferEvent::Completed { id: *id, path: t.path });
                        },
                        None => {},
                    }
                },
                _ => {},
            }
            return SendStep::Send(msg.to_bytes());
        }
        // Flow control: no data chunk while the buffer is full; the caller
        // waits for `on_bytes_sent`.
        if !self.can_send() {
            return SendStep::Idle;
        }
        self.scan_from(0)
    }

    /// Hands over what the caller read for the chunk that `poll_send` (or
    /// an earlier call of this function) asked for: the bytes read, an
    /// empty vector at the end of the file, or the read error's text. What
    /// comes back is the next step, as from `poll_send`. A report for a
    /// chunk that was not asked for is ignored.
    pub fn on_chunk_read(&mut self, id: u64, result: Result<Vec<u8>, String>) -> (r: SendStep)
        requires
            old(self).wf(),
        ensures
            final(self).wf(),
            old(self).pending() != Some(id) ==> r is Idle && *final(self) == *old(self),
            old(self).pending() == Some(id) ==> match outgoing_index(old(self).outgoing(), id) {
                None => scanned(*old(self), old(self).outgoing().len() as int, r, *final(self)),
                Some(k) => match result {
                    Ok(data) => if data@.len() > 0 && wants_chunk(old(self).outgoing()[k]) {
                        chunk_sent(*old(self), k, data@, r, *final(self))
                    } else {
                        scanned(*old(self), k + 1, r, *final(self))
                    },
                    Err(e) => {
                        &&& one_more(old(self).events(), final(self).events())
                        &&& final(self).events().last() matches FileTransferEvent::Failed {
                            id: fid,
                            reason: text,
                        } && fid == id && text@ == "File read error: "@ + e@
                        &&& scan_result(
                            old(self).outgoing(),
                            old(self).failed().push(id),
                            k + 1,
                            r,
                            *final(self),
                        )
                        &&& final(self).incoming() == old(self).incoming()
                        &&& final(self).queue() == old(self).queue()
                        &&& final(self).buffered() == old(self).buffered()
                        &&& final(self).next_id() == old(self).next_id()
                        &&& final(self).channel() == old(self).channel()
                    },
                },
            },
    {
        match self.pending_read {
            Some(p) => {
                if p != id {
                    return SendStep::Idle;
                }
            },
            None => {
                return SendStep::Idle;
            },
        }
        let k = match self.find_outgoing(id) {
            Some(k) => k,
            None => {
                let end = self.outgoing.len();
                return self.scan_from(end);
            },
        };
        let count = self.outgoing.len();
        assert(k < count);
        let next = k + 1;
        match result {
            Ok(data) => {
                if data.len() > 0 {
                    match self.outgoing[k].chunk_request() {
                        Some((offset, len)) => {
                            return self.send_chunk(k, offset, len, data);
                        },
                        None => {},
                    }
                }
                self.scan_from(next)
            },
            Err(e) => {
                let mut text = string_from_str("File read error: ");
                let error_chars = chars_of(e.as_str());
                push_chars(&mut text, error_chars.as_slice());
                self.events.push(FileTransferEvent::Failed { id, reason: text });
                self.failed_reads.push(id);
                assert(self.events@.drop_last() =~= old(self).events@);
                self.scan_from(next)
            },
        }
    }

    fn send_chunk(&mut self, k: usize, offset: u64, len: usize, data: Vec<u8>) -> (r: SendStep)
        requires
            old(self).wf(),
            old(self).buffered() < MAX_BUFFERED_AMOUNT,
            k < old(self).outgoing().len(),
            ({
                let t = old(self).outgoing()[k as int];
                chunk_request_spec(t.state, t.bytes_sent, t.total_size, t.sizer.size()) == Some(
                    (offset, len as nat),
                )
            }),
            0 < len <= MAX_CHUNK_SIZE,
            data@.len() > 0,
        ensures
            final(self).wf(),
            chunk_sent(*old(self), k as int, data@, r, *final(self)),
    {
        let ghost whole = data@;
        let mut data = data;
        if data.len() > len {
            data.truncate(len);
        }
        let n = data.len();
        assert(data@ == whole.take(n as int));
        let mut t = self.outgoing.remove(k);
        t.record_chunk_sent(n);
        let tid = t.id;
        let bytes_sent = t.bytes_sent;
        let total = t.total_size;
        let done = t.state == FileTransferState::Completed;
        self.outgoing.insert(k, t);
        proof {
            assert(t == advanced(old(self).outgoing@[k as int], n as nat));
            assert(self.outgoing@ =~= old(self).outgoing@.update(k as int, t));
            lemma_outgoing_update(old(self).outgoing@, k as int, t);
        }
        self.events.push(FileTransferEvent::Progress { id: tid, bytes: bytes_sent, total });
        if done {
            self.send_queue.push(FileTransferMessage::Complete { id: tid, checksum: 0 });
        }
        let message = FileTransferMessage::Data { id: tid, offset, data };
        let msg_bytes = message.to_bytes();
        assert(msg_bytes@.len() == 17 + n);
        // Track the buffered amount for flow control.
        self.pending_read = None;
        self.buffered_amount = self.buffered_amount + msg_bytes.len();
        self.drop_failed_reads();
        SendStep::Send(msg_bytes)
    }

    /// The file path of the outgoing transfer `id`, if there is one.
    pub fn outgoing_path(&self, id: u64) -> (r: Option<&std::path::PathBuf>)
        requires
            self.wf(),
        ensures
            match outgoing_index(self.outgoing(), id) {
                Some(i) => r == Some(&self.outgoing()[i].path),
                None => r is None,
            },
    {
        match self.find_outgoing(id) {
            Some(i) => Some(&self.outgoing[i].path),
            None => None,
        }
    }

    /// Poll for next event
    pub fn poll_event(&mut self) -> (e: Option<FileTransferEvent>)
        requires
            old(self).wf(),
        ensures
            final(self).wf(),
            old(self).events().len() == 0 ==> e is None && final(self).events() == old(self).events(),
            old(self).events().len() > 0 ==> e == Some(old(self).events()[0]) && final(self).events()
                == old(self).events().drop_first(),
            final(self).outgoing() == old(self).outgoing(),
            final(self).incoming() == old(self).incoming(),
            final(self).queue() == old(self).queue(),
            final(self).buffered() == old(self).buffered(),
            final(self).next_id() == old(self).next_id(),
            final(self).channel() == old(self).channel(),
            final(self).pending() == old(self).pending(),
            final(self).failed() == old(self).failed(),
    {
        if self.events.len() == 0 {
            None
        } else {
            let event = self.events.remove(0);
            assert(self.events@ =~= old(self).events@.drop_first());
            Some(event)
        }
    }

    /// In a channel whose books hold together, no two outgoing transfers and
    /// no two incoming transfers share an id.
    pub proof fn lemma_ids_unique(&self)
        requires
            self.wf(),
        ensures
            outgoing_ids_distinct(self.outgoing()),
            forall|i: int, j: int|
                0 <= i < self.incoming().len() && 0 <= j < self.incoming().len() && i != j
                    ==> self.incoming()[i].0 != self.incoming()[j].0,
    {
    }

    /// Get transfer progress (bytes_transferred, total_bytes)
    pub fn get_progress(&self, id: u64) -> (r: Option<(u64, u64)>)
        requires
            self.wf(),
        ensures
            r == (match outgoing_index(self.outgoing(), id) {
                Some(i) => Some((self.outgoing()[i].bytes_sent, self.outgoing()[i].total_size)),
                None => match incoming_index(self.incoming(), id) {
                    Some(i) => Some(
                        (self.incoming()[i].1.bytes_received, self.incoming()[i].1.total_size),
                    ),
                    None => None,
                },
            }),
    {
        match self.find_outgoing(id) {
            Some(i) => Some((self.outgoing[i].bytes_sent, self.outgoing[i].total_size)),
            None => match self.find_incoming(id) {
                Some(i) => Some((self.incoming[i].1.bytes_received, self.incoming[i].1.total_size)),
                None => None,
            },
        }
    }
}

} // verus!
