//! The decode accumulator: the resumable state machine that gathers one
//! fixed-width buffer from a channel delivering bytes in arbitrary partial
//! chunks.
//!
//! The accumulator never talks to a channel itself. The caller offers the
//! channel room for the unfilled suffix, and reports what happened as a
//! [`ReadEvent`]; [`ReadAccumulator::on_event`] folds the event into the
//! saved state and says how to go on. Suspensions cost nothing: the buffer
//! and the progress counter survive unchanged, so resumption continues
//! exactly where the last delivery ended, never re-requesting a byte.
//!
//! The transparency laws at the bottom state that the bytes gathered depend
//! only on the concatenation of the delivered chunks: neither the chunk
//! boundaries nor interleaved not-ready responses can change the decoded
//! outcome.

use vstd::prelude::*;

verus! {

/// What the channel did when offered room for the unfilled suffix.
pub enum ReadEvent<F> {
    /// The channel cannot presently supply data; the caller should suspend
    /// and retry the same accumulator later.
    NotReady,
    /// The channel delivered these bytes, at most as many as were asked
    /// for. A ready channel delivering nothing signals end-of-stream.
    Delivered(Vec<u8>),
    /// The channel failed with a transport-level fault.
    Fault(F),
}

/// Why a decode ended without a value. Both are terminal.
#[derive(Debug)]
pub enum ReadError<F> {
    /// A ready channel delivered zero bytes before the buffer was full.
    UnexpectedEnd,
    /// The channel's own fault, passed through unchanged.
    Transport(F),
}

/// What the caller should do after an event has been folded in.
pub enum ReadOutcome<F> {
    /// Suspend; retry the same accumulator when the channel can progress.
    Suspend,
    /// Progress was made but the buffer is not yet full; continue
    /// immediately, a partial delivery does not mean the channel is done.
    Progress,
    /// The buffer is full; the value can be decoded from it.
    Complete,
    /// Terminal failure; no partial value is produced.
    Failed(ReadError<F>),
}

/// The resumable receive state for one fixed-width value: a scratch buffer
/// of exactly the target width and a count of bytes already gathered.
pub struct ReadAccumulator {
    buf: Vec<u8>,
    filled: usize,
}

impl ReadAccumulator {
    /// The width of the value being gathered, in bytes.
    pub closed spec fn width(self) -> nat {
        self.buf@.len()
    }

    /// The accumulator's invariant: a supported width, never overfilled.
    pub closed spec fn wf(self) -> bool {
        1 <= self.buf@.len() <= 16 && self.filled <= self.buf@.len()
    }

    /// The bytes gathered so far, in delivery order.
    pub closed spec fn received(self) -> Seq<u8> {
        self.buf@.take(self.filled as int)
    }

    /// Whether the buffer is full and ready to decode.
    pub closed spec fn is_complete(self) -> bool {
        self.filled == self.buf@.len()
    }

    /// A fresh accumulator for one value of `width` bytes.
    pub fn new(width: usize) -> (r: Self)
        requires
            1 <= width <= 16,
        ensures
            r.wf(),
            r.width() == width,
            r.received() == Seq::<u8>::empty(),
    {
        let r = ReadAccumulator { buf: vec![0u8; width], filled: 0 };
        proof {
            assert(r.received() =~= Seq::<u8>::empty());
        }
        r
    }

    /// How many bytes are still missing: the room to offer the channel on
    /// the next attempt.
    pub fn remaining(&self) -> (r: usize)
        requires
            self.wf(),
        ensures
            r == self.width() - self.received().len(),
            r == 0 <==> self.is_complete(),
    {
        self.buf.len() - self.filled
    }

    /// Folds one channel event into the saved state.
    ///
    /// A not-ready response and a fault leave the state untouched. An empty
    /// delivery from a ready channel is premature end-of-stream: a terminal
    /// error, never a retry. A nonempty delivery extends the gathered bytes
    /// by exactly the delivered chunk; the accumulator completes when the
    /// buffer is full. The channel is only ever offered the unfilled
    /// suffix, so a delivery can never exceed [`Self::remaining`].
    pub fn on_event<F>(&mut self, ev: ReadEvent<F>) -> (r: ReadOutcome<F>)
        requires
            old(self).wf(),
            !old(self).is_complete(),
            ev matches ReadEvent::Delivered(c) ==> c@.len() <= old(self).width() - old(
                self,
            ).received().len(),
        ensures
            final (self).wf(),
            final (self).width() == old(self).width(),
            benign_read_event(ev) ==> final (self).received() == old(self).received()
                + event_bytes(ev),
            match ev {
                ReadEvent::NotReady => {
                    &&& r is Suspend
                    &&& final (self).received() == old(self).received()
                },
                ReadEvent::Delivered(c) => {
                    if c@.len() == 0 {
                        &&& r == ReadOutcome::<F>::Failed(ReadError::UnexpectedEnd)
                        &&& final (self).received() == old(self).received()
                    } else {
                        &&& final (self).received() == old(self).received() + c@
                        &&& r == if final (self).is_complete() {
                            ReadOutcome::<F>::Complete
                        } else {
                            ReadOutcome::<F>::Progress
                        }
                    }
                },
                ReadEvent::Fault(f) => {
                    &&& r == ReadOutcome::Failed(ReadError::Transport(f))
                    &&& final (self).received() == old(self).received()
                },
            },
    {
        match ev {
            ReadEvent::NotReady => {
                proof {
                    assert(self.received() + Seq::<u8>::empty() =~= self.received());
                }
                ReadOutcome::Suspend
            },
            ReadEvent::Fault(f) => ReadOutcome::Failed(ReadError::Transport(f)),
            ReadEvent::Delivered(c) => {
                let n = c.len();
                if n == 0 {
                    ReadOutcome::Failed(ReadError::UnexpectedEnd)
                } else {
                    let mut k: usize = 0;
                    while k < n
                        invariant
                            k <= n,
                            n == c@.len(),
                            self.filled == old(self).filled,
                            self.buf@.len() == old(self).buf@.len(),
                            self.buf@.len() <= 16,
                            self.filled + n <= self.buf@.len(),
                            forall|j: int|
                                0 <= j < self.filled ==> self.buf@[j] == old(self).buf@[j],
                            forall|j: int|
                                0 <= j < k ==> self.buf@[self.filled + j] == c@[j],
                        decreases n - k,
                    {
                        let idx = self.filled + k;
                        self.buf.set(idx, c[k]);
                        k += 1;
                    }
                    self.filled = self.filled + n;
                    proof {
                        assert(self.received() =~= old(self).received() + c@);
                    }
                    if self.filled == self.buf.len() {
                        ReadOutcome::Complete
                    } else {
                        ReadOutcome::Progress
                    }
                }
            },
        }
    }

    /// Completion is exactly having gathered as many bytes as the width.
    pub proof fn lemma_completion(self)
        requires
            self.wf(),
        ensures
            self.is_complete() <==> self.received().len() == self.width(),
    {
    }

    /// The full buffer of a completed accumulator, ready for the codec.
    pub fn into_bytes(self) -> (r: Vec<u8>)
        requires
            self.wf(),
            self.is_complete(),
        ensures
            r@ == self.received(),
    {
        proof {
            assert(self.buf@.take(self.filled as int) =~= self.buf@);
        }
        self.buf
    }
}

/// What one attempt to receive a single byte produced. The one-byte width
/// needs no buffer or progress counter: a successful partial transfer is
/// already a complete transfer.
pub enum ByteReadOutcome<F> {
    /// The channel was not ready; retry the same single attempt.
    Suspend,
    /// The one byte, received whole.
    Complete(u8),
    /// Terminal failure, as for the multi-byte accumulator.
    Failed(ReadError<F>),
}

/// The single-byte specialization of the decode accumulator: one event
/// decides everything, and there is no partial state to preserve.
pub fn read_byte_step<F>(ev: ReadEvent<F>) -> (r: ByteReadOutcome<F>)
    requires
        ev matches ReadEvent::Delivered(c) ==> c@.len() <= 1,
    ensures
        match ev {
            ReadEvent::NotReady => r is Suspend,
            ReadEvent::Delivered(c) => {
                if c@.len() == 0 {
                    r == ByteReadOutcome::<F>::Failed(ReadError::UnexpectedEnd)
                } else {
                    r == ByteReadOutcome::<F>::Complete(c@[0])
                }
            },
            ReadEvent::Fault(f) => r == ByteReadOutcome::Failed(ReadError::Transport(f)),
        },
{
    match ev {
        ReadEvent::NotReady => ByteReadOutcome::Suspend,
        ReadEvent::Fault(f) => ByteReadOutcome::Failed(ReadError::Transport(f)),
        ReadEvent::Delivered(c) => {
            if c.len() == 0 {
                ByteReadOutcome::Failed(ReadError::UnexpectedEnd)
            } else {
                ByteReadOutcome::Complete(c[0])
            }
        },
    }
}

/// The bytes an event contributes to the buffer: a delivery's chunk,
/// nothing otherwise.
pub open spec fn event_bytes<F>(ev: ReadEvent<F>) -> Seq<u8> {
    match ev {
        ReadEvent::Delivered(c) => c@,
        _ => Seq::empty(),
    }
}

/// An event a running decode survives: a suspension, or a delivery that
/// actually carries bytes. An empty delivery or a fault ends the decode.
pub open spec fn benign_read_event<F>(ev: ReadEvent<F>) -> bool {
    match ev {
        ReadEvent::NotReady => true,
        ReadEvent::Delivered(c) => c@.len() > 0,
        ReadEvent::Fault(_) => false,
    }
}

/// The concatenation of all chunks the events deliver, in order.
pub open spec fn delivered_bytes<F>(evs: Seq<ReadEvent<F>>) -> Seq<u8>
    decreases evs.len(),
{
    if evs.len() == 0 {
        Seq::empty()
    } else {
        event_bytes(evs[0]) + delivered_bytes(evs.drop_first())
    }
}

/// The bytes an accumulator holds after folding in the events one by one,
/// starting from `data`: exactly the per-event transitions that
/// [`ReadAccumulator::on_event`] guarantees for benign events.
pub open spec fn read_run<F>(data: Seq<u8>, evs: Seq<ReadEvent<F>>) -> Seq<u8>
    decreases evs.len(),
{
    if evs.len() == 0 {
        data
    } else {
        read_run(data + event_bytes(evs[0]), evs.drop_first())
    }
}

/// Partial-progress invariant: after any event sequence, the gathered
/// bytes are the starting bytes followed by the concatenation of the
/// delivered chunks. How the chunks were cut contributes nothing, so every
/// split of a buffer into partial deliveries decodes to the same value as
/// one full delivery.
pub proof fn lemma_read_run_gathers_deliveries<F>(data: Seq<u8>, evs: Seq<ReadEvent<F>>)
    ensures
        read_run(data, evs) == data + delivered_bytes(evs),
    decreases evs.len(),
{
    if evs.len() == 0 {
        assert(read_run(data, evs) =~= data + delivered_bytes(evs));
    } else {
        lemma_read_run_gathers_deliveries(data + event_bytes(evs[0]), evs.drop_first());
        assert((data + event_bytes(evs[0])) + delivered_bytes(evs.drop_first()) =~= data
            + delivered_bytes(evs));
    }
}

/// Suspension transparency: inserting a not-ready response anywhere in an
/// event sequence leaves the gathered bytes, and hence the decoded
/// outcome, unchanged.
pub proof fn lemma_read_suspension_transparency<F>(data: Seq<u8>, evs: Seq<ReadEvent<F>>, i: int)
    requires
        0 <= i <= evs.len(),
    ensures
        read_run(data, evs.insert(i, ReadEvent::NotReady)) == read_run(data, evs),
{
    lemma_delivered_insert_not_ready(evs, i);
    lemma_read_run_gathers_deliveries(data, evs);
    lemma_read_run_gathers_deliveries(data, evs.insert(i, ReadEvent::NotReady));
}

/// Two deliveries of the same bytes decode to the same value, however
/// differently they were cut into chunks or interleaved with suspensions.
/// In particular any split of a buffer decodes exactly as one full
/// delivery of it does.
pub proof fn lemma_split_delivery_decodes_alike<F>(
    evs1: Seq<ReadEvent<F>>,
    evs2: Seq<ReadEvent<F>>,
    e: crate::endian::Endianness,
)
    requires
        delivered_bytes(evs1) == delivered_bytes(evs2),
    ensures
        read_run(Seq::empty(), evs1) == read_run(Seq::empty(), evs2),
        crate::codec::wire_value(read_run(Seq::empty(), evs1), e) == crate::codec::wire_value(
            read_run(Seq::empty(), evs2),
            e,
        ),
{
    lemma_read_run_gathers_deliveries(Seq::empty(), evs1);
    lemma_read_run_gathers_deliveries(Seq::empty(), evs2);
    assert(Seq::empty() + delivered_bytes(evs1) =~= delivered_bytes(evs1));
    assert(Seq::empty() + delivered_bytes(evs2) =~= delivered_bytes(evs2));
}

proof fn lemma_delivered_insert_not_ready<F>(evs: Seq<ReadEvent<F>>, i: int)
    requires
        0 <= i <= evs.len(),
    ensures
        delivered_bytes(evs.insert(i, ReadEvent::NotReady)) == delivered_bytes(evs),
    decreases evs.len(),
{
    let ins = evs.insert(i, ReadEvent::<F>::NotReady);
    if i == 0 {
        assert(ins.drop_first() =~= evs);
        assert(delivered_bytes(ins) =~= delivered_bytes(evs));
    } else {
        assert(ins[0] == evs[0]);
        assert(ins.drop_first() =~= evs.drop_first().insert(i - 1, ReadEvent::NotReady));
        lemma_delivered_insert_not_ready(evs.drop_first(), i - 1);
        assert(delivered_bytes(ins) =~= delivered_bytes(evs));
    }
}

} // verus!
