//! The encode accumulator: the resumable state machine that flushes one
//! pre-encoded fixed-width buffer to a channel accepting bytes in arbitrary
//! partial amounts.
//!
//! The buffer is fully populated at construction, so the machine only
//! tracks how much of it the channel has taken. The caller offers the
//! channel the unflushed suffix and reports what happened as a
//! [`WriteEvent`]; [`WriteAccumulator::on_event`] advances the progress
//! counter and says how to go on. Each byte is handed to the channel
//! exactly once and in order, across any number of partial acceptances and
//! suspensions.
//!
//! Unlike the decode side, a ready channel accepting zero bytes is not an
//! error here: writers may legitimately report no progress without
//! signaling exhaustion, so the machine simply stays pending and the caller
//! retries.

use vstd::prelude::*;

verus! {

/// What the channel did when offered the unflushed suffix.
pub enum WriteEvent<F> {
    /// The channel cannot presently accept data; the caller should suspend
    /// and retry the same accumulator later.
    NotReady,
    /// The channel accepted this many bytes of the offered suffix, from
    /// its front. Zero is allowed and means no progress, not failure.
    Accepted(usize),
    /// The channel failed with a transport-level fault.
    Fault(F),
}

/// Why an encode ended before the buffer was flushed. Terminal.
#[derive(Debug)]
pub enum WriteError<F> {
    /// The channel's own fault, passed through unchanged.
    Transport(F),
}

/// What the caller should do after an event has been folded in.
pub enum WriteOutcome<F> {
    /// Suspend; retry the same accumulator when the channel can progress.
    Suspend,
    /// Progress was made but bytes remain; continue immediately.
    Progress,
    /// The whole buffer has been handed to the channel.
    Complete,
    /// Terminal failure; what was already flushed stays with the channel.
    Failed(WriteError<F>),
}

/// The resumable send state for one fixed-width value: the pre-encoded
/// buffer and a count of bytes the channel has already taken.
pub struct WriteAccumulator {
    buf: Vec<u8>,
    written: usize,
}

impl WriteAccumulator {
    /// The whole buffer being sent.
    pub closed spec fn image(self) -> Seq<u8> {
        self.buf@
    }

    /// The width of the value being sent, in bytes.
    pub closed spec fn width(self) -> nat {
        self.buf@.len()
    }

    /// The accumulator's invariant: a supported width, never overflushed.
    pub closed spec fn wf(self) -> bool {
        1 <= self.buf@.len() <= 16 && self.written <= self.buf@.len()
    }

    /// The bytes the channel has taken so far: always a prefix of the
    /// buffer, each byte handed over exactly once and in order.
    pub closed spec fn flushed(self) -> Seq<u8> {
        self.buf@.take(self.written as int)
    }

    /// The bytes still to offer: the unflushed suffix of the buffer.
    pub closed spec fn pending(self) -> Seq<u8> {
        self.buf@.skip(self.written as int)
    }

    /// Whether every byte has been handed to the channel.
    pub closed spec fn is_complete(self) -> bool {
        self.written == self.buf@.len()
    }

    /// A fresh accumulator around one pre-encoded buffer.
    pub fn new(bytes: Vec<u8>) -> (r: Self)
        requires
            1 <= bytes@.len() <= 16,
        ensures
            r.wf(),
            r.image() == bytes@,
            r.flushed() == Seq::<u8>::empty(),
            r.pending() == bytes@,
    {
        let r = WriteAccumulator { buf: bytes, written: 0 };
        proof {
            assert(r.flushed() =~= Seq::<u8>::empty());
            assert(r.pending() =~= r.buf@);
        }
        r
    }

    /// The whole buffer; the suffix from [`Self::written`] on is what the
    /// channel should be offered next.
    pub fn buffer(&self) -> (r: &Vec<u8>)
        ensures
            r@ == self.image(),
    {
        &self.buf
    }

    /// How many bytes the channel has taken so far.
    pub fn written(&self) -> (r: usize)
        requires
            self.wf(),
        ensures
            r == self.flushed().len(),
            r <= self.image().len(),
    {
        self.written
    }

    /// How many bytes are still to be flushed.
    pub fn remaining(&self) -> (r: usize)
        requires
            self.wf(),
        ensures
            r == self.pending().len(),
            r == 0 <==> self.is_complete(),
    {
        self.buf.len() - self.written
    }

    /// Folds one channel event into the saved state.
    ///
    /// A not-ready response and a fault leave the state untouched. An
    /// acceptance of `n` bytes moves exactly the next `n` pending bytes
    /// into the flushed prefix; the accumulator completes when nothing is
    /// pending. Accepting zero bytes is no progress but also no error: the
    /// machine stays pending and the caller retries, in contrast to the
    /// decode side where an empty ready delivery is end-of-stream. The
    /// channel is only ever offered the unflushed suffix, so an acceptance
    /// can never exceed [`Self::remaining`].
    pub fn on_event<F>(&mut self, ev: WriteEvent<F>) -> (r: WriteOutcome<F>)
        requires
            old(self).wf(),
            !old(self).is_complete(),
            ev matches WriteEvent::Accepted(n) ==> n <= old(self).pending().len(),
        ensures
            final (self).wf(),
            final (self).image() == old(self).image(),
            benign_write_event(ev) ==> final (self).flushed().len() == old(
                self,
            ).flushed().len() + event_accepted(ev),
            match ev {
                WriteEvent::NotReady => {
                    &&& r is Suspend
                    &&& final (self).flushed() == old(self).flushed()
                },
                WriteEvent::Accepted(n) => {
                    &&& final (self).flushed() == old(self).flushed() + old(self).pending().take(
                        n as int,
                    )
                    &&& r == if n == 0 {
                        WriteOutcome::<F>::Suspend
                    } else if final (self).is_complete() {
                        WriteOutcome::<F>::Complete
                    } else {
                        WriteOutcome::<F>::Progress
                    }
                },
                WriteEvent::Fault(f) => {
                    &&& r == WriteOutcome::Failed(WriteError::Transport(f))
                    &&& final (self).flushed() == old(self).flushed()
                },
            },
    {
        match ev {
            WriteEvent::NotReady => WriteOutcome::Suspend,
            WriteEvent::Fault(f) => WriteOutcome::Failed(WriteError::Transport(f)),
            WriteEvent::Accepted(n) => {
                self.written = self.written + n;
                proof {
                    assert(self.flushed() =~= old(self).flushed() + old(self).pending().take(
                        n as int,
                    ));
                }
                if n == 0 {
                    WriteOutcome::Suspend
                } else if self.written == self.buf.len() {
                    WriteOutcome::Complete
                } else {
                    WriteOutcome::Progress
                }
            },
        }
    }
}

impl WriteAccumulator {
    /// Completion is exactly having flushed as many bytes as the width.
    pub proof fn lemma_completion(self)
        requires
            self.wf(),
        ensures
            self.is_complete() <==> self.flushed().len() == self.width(),
            self.pending().len() == self.width() - self.flushed().len(),
    {
    }
}

/// What one attempt to send a single byte produced. The one-byte width
/// needs no progress counter: the byte is either taken whole or not at
/// all.
pub enum ByteWriteOutcome<F> {
    /// No progress; retry the same single attempt.
    Suspend,
    /// The one byte has been handed to the channel.
    Complete,
    /// Terminal failure, as for the multi-byte accumulator.
    Failed(WriteError<F>),
}

/// The single-byte specialization of the encode accumulator: one event
/// decides everything, and there is no partial state to preserve. Zero
/// bytes accepted means retry, never failure.
pub fn write_byte_step<F>(ev: WriteEvent<F>) -> (r: ByteWriteOutcome<F>)
    requires
        ev matches WriteEvent::Accepted(n) ==> n <= 1,
    ensures
        match ev {
            WriteEvent::NotReady => r is Suspend,
            WriteEvent::Accepted(n) => r == if n == 0 {
                ByteWriteOutcome::<F>::Suspend
            } else {
                ByteWriteOutcome::<F>::Complete
            },
            WriteEvent::Fault(f) => r == ByteWriteOutcome::Failed(WriteError::Transport(f)),
        },
{
    match ev {
        WriteEvent::NotReady => ByteWriteOutcome::Suspend,
        WriteEvent::Fault(f) => ByteWriteOutcome::Failed(WriteError::Transport(f)),
        WriteEvent::Accepted(n) => {
            if n == 0 {
                ByteWriteOutcome::Suspend
            } else {
                ByteWriteOutcome::Complete
            }
        },
    }
}

/// The progress an event contributes: an acceptance's count, nothing
/// otherwise.
pub open spec fn event_accepted<F>(ev: WriteEvent<F>) -> nat {
    match ev {
        WriteEvent::Accepted(n) => n as nat,
        _ => 0,
    }
}

/// An event a running encode survives: anything but a fault. A zero
/// acceptance is benign here, unlike the empty delivery on the decode
/// side.
pub open spec fn benign_write_event<F>(ev: WriteEvent<F>) -> bool {
    !(ev matches WriteEvent::Fault(_))
}

/// The total number of bytes the events accept.
pub open spec fn accepted_count<F>(evs: Seq<WriteEvent<F>>) -> nat
    decreases evs.len(),
{
    if evs.len() == 0 {
        0
    } else {
        event_accepted(evs[0]) + accepted_count(evs.drop_first())
    }
}

/// The flush count after folding the events one by one, starting from
/// `written` bytes already taken: exactly the per-event transitions that
/// [`WriteAccumulator::on_event`] guarantees for benign events.
pub open spec fn write_run<F>(written: nat, evs: Seq<WriteEvent<F>>) -> nat
    decreases evs.len(),
{
    if evs.len() == 0 {
        written
    } else {
        write_run(written + event_accepted(evs[0]), evs.drop_first())
    }
}

/// Partial-progress invariant, encode side: after any event sequence the
/// flushed bytes are the first `written + accepted_count` bytes of the
/// buffer, whatever the acceptances were cut into. Once the counts sum to
/// the width, the whole buffer has been handed over, in order, each byte
/// exactly once.
pub proof fn lemma_write_run_counts_acceptances<F>(written: nat, evs: Seq<WriteEvent<F>>)
    ensures
        write_run(written, evs) == written + accepted_count(evs),
    decreases evs.len(),
{
    if evs.len() > 0 {
        lemma_write_run_counts_acceptances(written + event_accepted(evs[0]), evs.drop_first());
    }
}

/// Suspension transparency, encode side: inserting a not-ready response or
/// a zero acceptance anywhere in an event sequence leaves the flush
/// progress, and hence the bytes sent, unchanged.
pub proof fn lemma_write_suspension_transparency<F>(
    written: nat,
    evs: Seq<WriteEvent<F>>,
    i: int,
    ev: WriteEvent<F>,
)
    requires
        0 <= i <= evs.len(),
        event_accepted(ev) == 0,
    ensures
        write_run(written, evs.insert(i, ev)) == write_run(written, evs),
{
    lemma_accepted_insert_zero(evs, i, ev);
    lemma_write_run_counts_acceptances(written, evs);
    lemma_write_run_counts_acceptances(written, evs.insert(i, ev));
}

proof fn lemma_accepted_insert_zero<F>(evs: Seq<WriteEvent<F>>, i: int, ev: WriteEvent<F>)
    requires
        0 <= i <= evs.len(),
        event_accepted(ev) == 0,
    ensures
        accepted_count(evs.insert(i, ev)) == accepted_count(evs),
    decreases evs.len(),
{
    let ins = evs.insert(i, ev);
    if i == 0 {
        assert(ins.drop_first() =~= evs);
    } else {
        assert(ins[0] == evs[0]);
        assert(ins.drop_first() =~= evs.drop_first().insert(i - 1, ev));
        lemma_accepted_insert_zero(evs.drop_first(), i - 1, ev);
    }
}

} // verus!
