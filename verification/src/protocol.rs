//! The transport-facing frame decoder.
//!
//! Bytes arrive in arbitrary pieces.  They are appended to a bounded
//! accumulator, every complete `[id, len, payload]` frame at the front is
//! decoded and removed, and whatever is left waits for the next call, so a
//! frame may arrive split across any number of calls.  When more bytes are
//! offered than the accumulator can hold, the surplus is dropped; when even a
//! full accumulator holds no complete frame, the frame at its front can never
//! complete, so the accumulator is cleared.  Both losses bump a counter and
//! nothing else; the decoder never fails.

use vstd::prelude::*;
use crate::command::{Command, CommandView, spec_decode_command, decode_command};
use crate::hbuf::{byte_buf_bytes, byte_buf_new, byte_buf_contents, byte_buf_from};
use vstd::slice::slice_subrange;

verus! {

/// How many bytes the receive accumulator can hold.
pub const ACCUMULATOR_CAPACITY: usize = 256;

/// How many decoded commands may wait in the pending queue.
pub const COMMAND_QUEUE_CAPACITY: usize = 8;

/// One complete frame sits at the front of the buffer: the two header bytes
/// and as many payload bytes as the second header byte declares.
pub open spec fn frame_ready(buf: Seq<u8>) -> bool {
    buf.len() >= 2 && buf.len() >= 2 + (buf[1] as int)
}

/// The commands decoded from every complete frame at the front of the
/// buffer, in arrival order; frames whose payload breaks their command's
/// rules, or whose identifier is unknown, are passed over.
pub open spec fn extract_commands(buf: Seq<u8>) -> Seq<CommandView>
    decreases buf.len(),
{
    if frame_ready(buf) {
        let rest = extract_commands(buf.skip(2 + buf[1] as int));
        match spec_decode_command(buf[0], buf.subrange(2, 2 + buf[1] as int)) {
            Some(c) => seq![c] + rest,
            None => rest,
        }
    } else {
        Seq::empty()
    }
}

/// The bytes left over once every complete frame at the front of the buffer
/// has been removed: the start of a frame still waiting for its tail.
pub open spec fn extract_residue(buf: Seq<u8>) -> Seq<u8>
    decreases buf.len(),
{
    if frame_ready(buf) {
        extract_residue(buf.skip(2 + buf[1] as int))
    } else {
        buf
    }
}

/// What the accumulator holds after appending `data`: everything, when it
/// fits; otherwise what fits, the surplus being dropped.
pub open spec fn appended_stream(buf: Seq<u8>, data: Seq<u8>) -> Seq<u8> {
    if buf.len() + data.len() <= ACCUMULATOR_CAPACITY {
        buf + data
    } else {
        buf + data.take(ACCUMULATOR_CAPACITY - buf.len())
    }
}

/// The pending queue after new commands arrive: appended in order, dropping
/// whatever exceeds the queue capacity.
pub open spec fn queue_after(queue: Seq<CommandView>, cmds: Seq<CommandView>) -> Seq<CommandView> {
    let q = queue + cmds;
    if q.len() <= COMMAND_QUEUE_CAPACITY {
        q
    } else {
        q.take(COMMAND_QUEUE_CAPACITY as int)
    }
}

/// A wrapping increment for the loss counter.
pub open spec fn wrap_inc64(n: u64) -> u64 {
    if n == u64::MAX {
        0
    } else {
        (n + 1) as u64
    }
}

/// Everything one `process_received_data` call does, as a function of the old
/// accumulator, pending queue and loss counter: the new accumulator, queue
/// and counter.  The accumulator is cleared exactly when it ends the call
/// full with no complete frame, a state that could never make progress.
pub open spec fn spec_ingest(
    buf: Seq<u8>,
    queue: Seq<CommandView>,
    overflows: u64,
    data: Seq<u8>,
) -> (Seq<u8>, Seq<CommandView>, u64) {
    let stream = appended_stream(buf, data);
    let cmds = extract_commands(stream);
    let res = extract_residue(stream);
    let lost = buf.len() + data.len() > ACCUMULATOR_CAPACITY || res.len() == ACCUMULATOR_CAPACITY;
    (
        if res.len() == ACCUMULATOR_CAPACITY {
            Seq::<u8>::empty()
        } else {
            res
        },
        queue_after(queue, cmds),
        if lost {
            wrap_inc64(overflows)
        } else {
            overflows
        },
    )
}

/// The residue never starts with a complete frame: extraction only stops
/// when the front frame is still incomplete.
pub proof fn lemma_residue_not_ready(buf: Seq<u8>)
    ensures
        !frame_ready(extract_residue(buf)),
        extract_residue(buf).len() <= buf.len(),
    decreases buf.len(),
{
    if frame_ready(buf) {
        lemma_residue_not_ready(buf.skip(2 + buf[1] as int));
    }
}

/// Splitting a byte stream at any point changes nothing: extracting from the
/// whole stream gives the commands of the first part followed by the commands
/// of its residue joined with the second part, and the same final residue.
/// This is what lets a frame arrive in arbitrary pieces.
pub proof fn lemma_extract_chunked(a: Seq<u8>, b: Seq<u8>)
    ensures
        extract_commands(a + b) == extract_commands(a) + extract_commands(extract_residue(a) + b),
        extract_residue(a + b) == extract_residue(extract_residue(a) + b),
    decreases a.len(),
{
    if frame_ready(a) {
        let k = 2 + a[1] as int;
        assert(frame_ready(a + b));
        assert((a + b).skip(k) =~= a.skip(k) + b);
        assert((a + b).subrange(2, k) =~= a.subrange(2, k));
        lemma_extract_chunked(a.skip(k), b);
        assert(extract_commands(a + b) =~= extract_commands(a) + extract_commands(
            extract_residue(a) + b,
        ));
    } else {
        assert(extract_residue(a) + b =~= a + b);
        assert(extract_commands(a + b) =~= extract_commands(a) + extract_commands(
            extract_residue(a) + b,
        ));
    }
}

/// A residue as long as the buffer it came from is that buffer untouched:
/// nothing was extracted from it.
pub proof fn lemma_residue_full(buf: Seq<u8>)
    requires
        extract_residue(buf).len() == buf.len(),
    ensures
        extract_residue(buf) == buf,
        extract_commands(buf) == Seq::<CommandView>::empty(),
{
    if frame_ready(buf) {
        lemma_residue_not_ready(buf.skip(2 + buf[1] as int));
    }
}

/// Queueing two batches of commands one after the other fills the queue the
/// same way as queueing their concatenation.
pub proof fn lemma_queue_after_assoc(
    queue: Seq<CommandView>,
    c1: Seq<CommandView>,
    c2: Seq<CommandView>,
)
    ensures
        queue_after(queue_after(queue, c1), c2) == queue_after(queue, c1 + c2),
{
    assert(queue + c1 + c2 =~= queue + (c1 + c2));
    assert(queue_after(queue_after(queue, c1), c2) =~= queue_after(queue, c1 + c2));
}

/// Chunk-boundary independence: delivering a byte stream in two pieces, or
/// all at once, leaves the decoder in the same state — the same pending
/// commands in the same order, the same buffered residue, and the same loss
/// count — whenever the accumulator capacity is not exceeded along the way.
pub proof fn lemma_ingest_chunk_independent(
    buf: Seq<u8>,
    queue: Seq<CommandView>,
    overflows: u64,
    d1: Seq<u8>,
    d2: Seq<u8>,
)
    requires
        buf.len() + d1.len() + d2.len() <= ACCUMULATOR_CAPACITY,
        queue.len() <= COMMAND_QUEUE_CAPACITY,
    ensures
        ({
            let (b1, q1, o1) = spec_ingest(buf, queue, overflows, d1);
            spec_ingest(b1, q1, o1, d2) == spec_ingest(buf, queue, overflows, d1 + d2)
        }),
{
    let stream1 = appended_stream(buf, d1);
    assert(stream1 == buf + d1);
    let cmds1 = extract_commands(stream1);
    let res1 = extract_residue(stream1);
    lemma_residue_not_ready(stream1);
    let whole = appended_stream(buf, d1 + d2);
    assert(whole =~= stream1 + d2);
    lemma_extract_chunked(stream1, d2);
    if res1.len() == ACCUMULATOR_CAPACITY {
        // Only possible when the first chunk already filled the accumulator
        // exactly and the second chunk is empty.
        lemma_residue_full(stream1);
        assert(d2.len() == 0);
        assert(queue_after(queue, cmds1) =~= queue);
        let (b1, q1, o1) = spec_ingest(buf, queue, overflows, d1);
        assert(b1 == Seq::<u8>::empty());
        assert(appended_stream(b1, d2) =~= Seq::<u8>::empty());
        assert(spec_ingest(b1, q1, o1, d2).0 =~= spec_ingest(buf, queue, overflows, d1 + d2).0);
        assert(spec_ingest(b1, q1, o1, d2).1 =~= spec_ingest(buf, queue, overflows, d1 + d2).1);
    } else {
        let (b1, q1, o1) = spec_ingest(buf, queue, overflows, d1);
        assert(b1 == res1);
        assert(appended_stream(b1, d2) == res1 + d2);
        lemma_queue_after_assoc(queue, cmds1, extract_commands(res1 + d2));
        assert(spec_ingest(b1, q1, o1, d2).0 =~= spec_ingest(buf, queue, overflows, d1 + d2).0);
        assert(spec_ingest(b1, q1, o1, d2).1 =~= spec_ingest(buf, queue, overflows, d1 + d2).1);
        assert(spec_ingest(b1, q1, o1, d2).2 == spec_ingest(buf, queue, overflows, d1 + d2).2);
    }
}

/// Feeding more bytes than the whole accumulator capacity in one call, with
/// no complete frame among the bytes that fit, leaves a cleared accumulator
/// and no decoded commands; the loss is counted, and nothing else happens.
pub proof fn lemma_overflow_clears(queue: Seq<CommandView>, overflows: u64, data: Seq<u8>)
    requires
        data.len() > ACCUMULATOR_CAPACITY,
        queue.len() <= COMMAND_QUEUE_CAPACITY,
        !frame_ready(data.take(ACCUMULATOR_CAPACITY as int)),
    ensures
        spec_ingest(Seq::<u8>::empty(), queue, overflows, data) == (
            Seq::<u8>::empty(),
            queue,
            wrap_inc64(overflows),
        ),
{
    let stream = appended_stream(Seq::<u8>::empty(), data);
    assert(stream =~= data.take(ACCUMULATOR_CAPACITY as int));
    assert(extract_residue(stream) == stream);
    assert(queue_after(queue, extract_commands(stream)) =~= queue);
}

/// The frame decoder: a bounded receive accumulator and the queue of decoded
/// commands not yet taken.
pub struct FeagiProtocol {
    rx_buffer: heapless::Vec<u8, 256>,
    commands: Vec<Command>,
    overflow_count: u64,
}

impl FeagiProtocol {
    /// The bytes waiting in the receive accumulator, oldest first.
    pub closed spec fn buffered(&self) -> Seq<u8> {
        byte_buf_bytes(self.rx_buffer)
    }

    /// The decoded commands waiting to be taken, oldest first.
    pub closed spec fn pending(&self) -> Seq<CommandView> {
        self.commands@.map_values(|c: Command| c@)
    }

    /// How many times received bytes have been dropped for want of room.
    pub closed spec fn overflows(&self) -> u64 {
        self.overflow_count
    }

    /// Between calls the accumulator fits its capacity and never starts with
    /// a complete frame, and the queue fits its capacity.
    pub open spec fn wf(&self) -> bool {
        &&& self.buffered().len() <= ACCUMULATOR_CAPACITY
        &&& !frame_ready(self.buffered())
        &&& self.pending().len() <= COMMAND_QUEUE_CAPACITY
    }

    /// A fresh decoder: nothing buffered, nothing pending, nothing lost.
    pub fn new() -> (r: Self)
        ensures
            r.wf(),
            r.buffered() == Seq::<u8>::empty(),
            r.pending() == Seq::<CommandView>::empty(),
            r.overflows() == 0,
    {
        FeagiProtocol { rx_buffer: byte_buf_new(), commands: Vec::new(), overflow_count: 0 }
    }

    /// Append received bytes to the accumulator, then decode and queue every
    /// complete frame; `spec_ingest` states the outcome exactly.
    pub fn process_received_data(&mut self, data: &[u8])
        requires
            old(self).wf(),
        ensures
            final(self).wf(),
            (final(self).buffered(), final(self).pending(), final(self).overflows())
                == spec_ingest(
                old(self).buffered(),
                old(self).pending(),
                old(self).overflows(),
                data@,
            ),
    {
        let ghost old_buffered = self.buffered();
        let ghost old_pending = self.pending();
        let mut buf: Vec<u8> = byte_buf_contents(&self.rx_buffer);
        let mut appended: usize = 0;
        while appended < data.len() && buf.len() < ACCUMULATOR_CAPACITY
            invariant
                appended <= data@.len(),
                buf@ == old_buffered + data@.take(appended as int),
                buf@.len() <= ACCUMULATOR_CAPACITY,
                old_buffered.len() <= ACCUMULATOR_CAPACITY,
            decreases data@.len() - appended,
        {
            buf.push(data[appended]);
            appended += 1;
        }
        let truncated = appended < data.len();
        proof {
            assert(buf@ =~= appended_stream(old_buffered, data@));
        }
        let ghost stream = buf@;

        // Decode every complete frame, walking a cursor down the buffer.
        let mut pos: usize = 0;
        let ghost mut taken = Seq::<CommandView>::empty();
        proof {
            assert(stream.skip(0) =~= stream);
            assert(taken + extract_commands(stream) =~= extract_commands(stream));
            assert(queue_after(old_pending, taken) =~= old_pending);
        }
        loop
            invariant_except_break
                pos <= buf@.len(),
                buf@ == stream,
                extract_commands(stream) == taken + extract_commands(stream.skip(pos as int)),
                extract_residue(stream) == extract_residue(stream.skip(pos as int)),
                self.pending() == queue_after(old_pending, taken),
                old_pending.len() <= COMMAND_QUEUE_CAPACITY,
                self.overflow_count == old(self).overflow_count,
                self.rx_buffer == old(self).rx_buffer,
            ensures
                pos <= buf@.len(),
                buf@ == stream,
                !frame_ready(stream.skip(pos as int)),
                extract_commands(stream) == taken + extract_commands(stream.skip(pos as int)),
                extract_residue(stream) == extract_residue(stream.skip(pos as int)),
                self.pending() == queue_after(old_pending, extract_commands(stream)),
                self.overflow_count == old(self).overflow_count,
                self.rx_buffer == old(self).rx_buffer,
            decreases buf@.len() - pos,
        {
            let ghost s = stream.skip(pos as int);
            if buf.len() - pos < 2 {
                proof {
                    assert(!frame_ready(s));
                    assert(extract_commands(stream) =~= taken);
                }
                break;
            }
            let plen = buf[pos + 1] as usize;
            if buf.len() - pos < 2 + plen {
                proof {
                    assert(s[1] == stream[pos + 1]);
                    assert(!frame_ready(s));
                    assert(extract_commands(stream) =~= taken);
                }
                break;
            }
            let id = buf[pos];
            let payload = slice_subrange(buf.as_slice(), pos + 2, pos + 2 + plen);
            proof {
                assert(s[0] == stream[pos as int]);
                assert(s[1] == stream[pos + 1]);
                assert(frame_ready(s));
                assert(payload@ =~= s.subrange(2, 2 + s[1] as int));
                assert(s.skip(2 + s[1] as int) =~= stream.skip(pos + 2 + plen));
            }
            match decode_command(id, payload) {
                Some(c) => {
                    let ghost cv = c@;
                    let ghost pend0 = self.pending();
                    if self.commands.len() < COMMAND_QUEUE_CAPACITY {
                        self.commands.push(c);
                        proof {
                            assert(self.pending() =~= pend0 + seq![cv]);
                        }
                    }
                    proof {
                        taken = taken + seq![cv];
                        assert(extract_commands(s) == seq![cv] + extract_commands(
                            s.skip(2 + s[1] as int),
                        ));
                        assert(self.pending() =~= queue_after(old_pending, taken));
                        assert(extract_commands(stream) =~= taken + extract_commands(
                            stream.skip(pos + 2 + plen),
                        ));
                    }
                },
                None => {
                    proof {
                        assert(extract_commands(s) == extract_commands(s.skip(2 + s[1] as int)));
                    }
                },
            }
            pos = pos + 2 + plen;
        }

        // Keep what no complete frame accounted for; a full accumulator with
        // no complete frame can never drain, so it is abandoned instead.
        let residue = slice_subrange(buf.as_slice(), pos, buf.len());
        proof {
            assert(residue@ =~= stream.skip(pos as int));
        }
        let mut lost = truncated;
        if residue.len() == ACCUMULATOR_CAPACITY {
            self.rx_buffer = byte_buf_new();
            lost = true;
        } else {
            self.rx_buffer = byte_buf_from(residue);
        }
        if lost {
            self.overflow_count = if self.overflow_count == u64::MAX {
                0
            } else {
                self.overflow_count + 1
            };
        }
        proof {
            lemma_residue_not_ready(stream);
        }
    }

    /// How many bytes are waiting in the accumulator.
    pub fn buffered_len(&self) -> (r: usize)
        ensures
            r == self.buffered().len(),
    {
        byte_buf_contents(&self.rx_buffer).len()
    }

    /// How many times received bytes have been dropped for want of room.
    pub fn overflow_count(&self) -> (r: u64)
        ensures
            r == self.overflows(),
    {
        self.overflow_count
    }

    /// Take the oldest decoded command, if one is waiting.
    pub fn receive_command(&mut self) -> (r: Option<Command>)
        requires
            old(self).wf(),
        ensures
            final(self).wf(),
            final(self).buffered() == old(self).buffered(),
            final(self).overflows() == old(self).overflows(),
            old(self).pending().len() == 0 ==> r.is_none() && final(self).pending() == old(
                self,
            ).pending(),
            old(self).pending().len() > 0 ==> r.is_some() && r.unwrap()@ == old(self).pending()[0]
                && final(self).pending() == old(self).pending().drop_first(),
    {
        if self.commands.len() == 0 {
            None
        } else {
            let c = self.commands.remove(0);
            proof {
                assert(self.pending() =~= old(self).pending().drop_first());
            }
            Some(c)
        }
    }
}

impl Default for FeagiProtocol {
    /// Same as `new`: a fresh decoder.
    fn default() -> (r: Self)
        ensures
            r.wf(),
            r.buffered() == Seq::<u8>::empty(),
            r.pending() == Seq::<CommandView>::empty(),
            r.overflows() == 0,
    {
        FeagiProtocol::new()
    }
}

} // verus!
