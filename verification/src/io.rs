//! The convenience surface: one read and one write method per numeric
//! width, attached to byte channels as extension traits.
//!
//! [`AsyncReadBytesExt`] and [`AsyncWriteBytesExt`] state, per width and
//! ordering, what a complete read or write of one value does to the
//! channel's byte stream. The crate implements them for its own in-memory
//! channels, [`SliceReader`] and [`VecWriter`], which construct the
//! matching accumulator and drive it to completion in one sitting — an
//! always-ready channel never suspends. Adapters around real asynchronous
//! transports live outside the verified core and mirror the same methods,
//! driving the same accumulators event by event.

use crate::codec;
use crate::codec::{lemma_pow256_pos, pow256, signed_value, unsigned_rep, wire_bytes, wire_value};
use crate::decode::{ReadAccumulator, ReadError, ReadEvent};
use crate::encode::{WriteAccumulator, WriteError, WriteEvent};
use crate::endian::Endianness;
use vstd::prelude::*;

verus! {

/// Extends a byte source with methods for reading numbers.
///
/// Every method consumes exactly the value's width from the front of
/// [`Self::stream`] and decodes it under the given ordering; a source with
/// too few bytes left reports [`ReadError::UnexpectedEnd`] and consumes
/// nothing. The single-byte reads take no ordering: one byte reads the
/// same either way.
pub trait AsyncReadBytesExt: Sized {
    /// The bytes not yet consumed.
    spec fn stream(self) -> Seq<u8>;

    /// Reads an unsigned 8 bit integer.
    fn read_u8(&mut self) -> (r: Result<u8, ReadError<()>>)
        ensures
            old(self).stream().len() >= 1 ==> {
                &&& r matches Ok(v) && v == old(self).stream()[0]
                &&& final (self).stream() == old(self).stream().skip(1)
            },
            old(self).stream().len() < 1 ==> {
                &&& r matches Err(e) && e == ReadError::<()>::UnexpectedEnd
                &&& final (self).stream() == old(self).stream()
            },
    ;

    /// Reads a signed 8 bit integer.
    fn read_i8(&mut self) -> (r: Result<i8, ReadError<()>>)
        ensures
            old(self).stream().len() >= 1 ==> {
                &&& r matches Ok(v) && v == signed_value(old(self).stream()[0] as nat, 1)
                &&& final (self).stream() == old(self).stream().skip(1)
            },
            old(self).stream().len() < 1 ==> {
                &&& r matches Err(e) && e == ReadError::<()>::UnexpectedEnd
                &&& final (self).stream() == old(self).stream()
            },
    ;

    /// Reads an unsigned 16 bit integer under the ordering `e`.
    fn read_u16(&mut self, e: Endianness) -> (r: Result<u16, ReadError<()>>)
        ensures
            old(self).stream().len() >= 2 ==> {
                &&& r matches Ok(v) && v == wire_value(old(self).stream().take(2), e)
                &&& final (self).stream() == old(self).stream().skip(2)
            },
            old(self).stream().len() < 2 ==> {
                &&& r matches Err(err) && err == ReadError::<()>::UnexpectedEnd
                &&& final (self).stream() == old(self).stream()
            },
    ;

    /// Reads a signed 16 bit integer under the ordering `e`.
    fn read_i16(&mut self, e: Endianness) -> (r: Result<i16, ReadError<()>>)
        ensures
            old(self).stream().len() >= 2 ==> {
                &&& r matches Ok(v) && v == signed_value(wire_value(old(self).stream().take(2), e), 2)
                &&& final (self).stream() == old(self).stream().skip(2)
            },
            old(self).stream().len() < 2 ==> {
                &&& r matches Err(err) && err == ReadError::<()>::UnexpectedEnd
                &&& final (self).stream() == old(self).stream()
            },
    ;

    /// Reads an unsigned 24 bit integer under the ordering `e`.
    fn read_u24(&mut self, e: Endianness) -> (r: Result<u32, ReadError<()>>)
        ensures
            old(self).stream().len() >= 3 ==> {
                &&& r matches Ok(v) && v == wire_value(old(self).stream().take(3), e)
                &&& final (self).stream() == old(self).stream().skip(3)
            },
            old(self).stream().len() < 3 ==> {
                &&& r matches Err(err) && err == ReadError::<()>::UnexpectedEnd
                &&& final (self).stream() == old(self).stream()
            },
    ;

    /// Reads a signed 24 bit integer under the ordering `e`,
    /// sign-extending from the most significant present byte.
    fn read_i24(&mut self, e: Endianness) -> (r: Result<i32, ReadError<()>>)
        ensures
            old(self).stream().len() >= 3 ==> {
                &&& r matches Ok(v) && v == signed_value(wire_value(old(self).stream().take(3), e), 3)
                &&& final (self).stream() == old(self).stream().skip(3)
            },
            old(self).stream().len() < 3 ==> {
                &&& r matches Err(err) && err == ReadError::<()>::UnexpectedEnd
                &&& final (self).stream() == old(self).stream()
            },
    ;

    /// Reads an unsigned 32 bit integer under the ordering `e`.
    fn read_u32(&mut self, e: Endianness) -> (r: Result<u32, ReadError<()>>)
        ensures
            old(self).stream().len() >= 4 ==> {
                &&& r matches Ok(v) && v == wire_value(old(self).stream().take(4), e)
                &&& final (self).stream() == old(self).stream().skip(4)
            },
            old(self).stream().len() < 4 ==> {
                &&& r matches Err(err) && err == ReadError::<()>::UnexpectedEnd
                &&& final (self).stream() == old(self).stream()
            },
    ;

    /// Reads a signed 32 bit integer under the ordering `e`.
    fn read_i32(&mut self, e: Endianness) -> (r: Result<i32, ReadError<()>>)
        ensures
            old(self).stream().len() >= 4 ==> {
                &&& r matches Ok(v) && v == signed_value(wire_value(old(self).stream().take(4), e), 4)
                &&& final (self).stream() == old(self).stream().skip(4)
            },
            old(self).stream().len() < 4 ==> {
                &&& r matches Err(err) && err == ReadError::<()>::UnexpectedEnd
                &&& final (self).stream() == old(self).stream()
            },
    ;

    /// Reads an unsigned 48 bit integer under the ordering `e`.
    fn read_u48(&mut self, e: Endianness) -> (r: Result<u64, ReadError<()>>)
        ensures
            old(self).stream().len() >= 6 ==> {
                &&& r matches Ok(v) && v == wire_value(old(self).stream().take(6), e)
                &&& final (self).stream() == old(self).stream().skip(6)
            },
            old(self).stream().len() < 6 ==> {
                &&& r matches Err(err) && err == ReadError::<()>::UnexpectedEnd
                &&& final (self).stream() == old(self).stream()
            },
    ;

    /// Reads a signed 48 bit integer under the ordering `e`,
    /// sign-extending from the most significant present byte.
    fn read_i48(&mut self, e: Endianness) -> (r: Result<i64, ReadError<()>>)
        ensures
            old(self).stream().len() >= 6 ==> {
                &&& r matches Ok(v) && v == signed_value(wire_value(old(self).stream().take(6), e), 6)
                &&& final (self).stream() == old(self).stream().skip(6)
            },
            old(self).stream().len() < 6 ==> {
                &&& r matches Err(err) && err == ReadError::<()>::UnexpectedEnd
                &&& final (self).stream() == old(self).stream()
            },
    ;

    /// Reads an unsigned 64 bit integer under the ordering `e`.
    fn read_u64(&mut self, e: Endianness) -> (r: Result<u64, ReadError<()>>)
        ensures
            old(self).stream().len() >= 8 ==> {
                &&& r matches Ok(v) && v == wire_value(old(self).stream().take(8), e)
                &&& final (self).stream() == old(self).stream().skip(8)
            },
            old(self).stream().len() < 8 ==> {
                &&& r matches Err(err) && err == ReadError::<()>::UnexpectedEnd
                &&& final (self).stream() == old(self).stream()
            },
    ;

    /// Reads a signed 64 bit integer under the ordering `e`.
    fn read_i64(&mut self, e: Endianness) -> (r: Result<i64, ReadError<()>>)
        ensures
            old(self).stream().len() >= 8 ==> {
                &&& r matches Ok(v) && v == signed_value(wire_value(old(self).stream().take(8), e), 8)
                &&& final (self).stream() == old(self).stream().skip(8)
            },
            old(self).stream().len() < 8 ==> {
                &&& r matches Err(err) && err == ReadError::<()>::UnexpectedEnd
                &&& final (self).stream() == old(self).stream()
            },
    ;

    /// Reads an unsigned 128 bit integer under the ordering `e`.
    fn read_u128(&mut self, e: Endianness) -> (r: Result<u128, ReadError<()>>)
        ensures
            old(self).stream().len() >= 16 ==> {
                &&& r matches Ok(v) && v == wire_value(old(self).stream().take(16), e)
                &&& final (self).stream() == old(self).stream().skip(16)
            },
            old(self).stream().len() < 16 ==> {
                &&& r matches Err(err) && err == ReadError::<()>::UnexpectedEnd
                &&& final (self).stream() == old(self).stream()
            },
    ;

    /// Reads a signed 128 bit integer under the ordering `e`.
    fn read_i128(&mut self, e: Endianness) -> (r: Result<i128, ReadError<()>>)
        ensures
            old(self).stream().len() >= 16 ==> {
                &&& r matches Ok(v) && v == signed_value(
                    wire_value(old(self).stream().take(16), e),
                    16,
                )
                &&& final (self).stream() == old(self).stream().skip(16)
            },
            old(self).stream().len() < 16 ==> {
                &&& r matches Err(err) && err == ReadError::<()>::UnexpectedEnd
                &&& final (self).stream() == old(self).stream()
            },
    ;
}

/// An in-memory byte source: the crate's model of a channel that is always
/// ready and delivers whatever it still holds.
pub struct SliceReader {
    data: Vec<u8>,
    pos: usize,
}

impl SliceReader {
    /// A source holding exactly `data`, nothing consumed yet.
    pub fn new(data: Vec<u8>) -> (r: Self)
        ensures
            r.stream() == data@,
    {
        let r = SliceReader { data, pos: 0 };
        proof {
            assert(r.stream() =~= r.data@);
        }
        r
    }

    /// Gathers the next `w` bytes by driving a fresh accumulator to
    /// completion with one whole delivery, as an always-ready channel
    /// allows.
    fn pull(&mut self, w: usize) -> (r: Result<Vec<u8>, ReadError<()>>)
        requires
            1 <= w <= 16,
        ensures
            old(self).stream().len() >= w ==> {
                &&& r matches Ok(b) && b@ == old(self).stream().take(w as int)
                &&& final (self).stream() == old(self).stream().skip(w as int)
            },
            old(self).stream().len() < w ==> {
                &&& r matches Err(err) && err == ReadError::<()>::UnexpectedEnd
                &&& final (self).stream() == old(self).stream()
            },
    {
        if self.pos > self.data.len() || self.data.len() - self.pos < w {
            return Err(ReadError::UnexpectedEnd);
        }
        let end = self.pos + w;
        let mut chunk: Vec<u8> = Vec::new();
        let mut k: usize = 0;
        while k < w
            invariant
                k <= w,
                w <= 16,
                self == old(self),
                end == self.pos + w,
                self.pos + w <= self.data@.len(),
                chunk@.len() == k,
                forall|j: int| 0 <= j < k ==> chunk@[j] == self.data@[self.pos + j],
            decreases w - k,
        {
            chunk.push(self.data[self.pos + k]);
            k += 1;
        }
        proof {
            assert(chunk@ =~= old(self).stream().take(w as int));
        }
        let mut acc = ReadAccumulator::new(w);
        proof {
            acc.lemma_completion();
        }
        let _outcome = acc.on_event::<()>(ReadEvent::Delivered(chunk));
        proof {
            acc.lemma_completion();
        }
        let bytes = acc.into_bytes();
        self.pos = self.pos + w;
        proof {
            assert(self.stream() =~= old(self).stream().skip(w as int));
        }
        Ok(bytes)
    }
}

impl AsyncReadBytesExt for SliceReader {
    /// The bytes at and after the read position.
    closed spec fn stream(self) -> Seq<u8> {
        if self.pos <= self.data@.len() {
            self.data@.skip(self.pos as int)
        } else {
            Seq::empty()
        }
    }

    fn read_u8(&mut self) -> (r: Result<u8, ReadError<()>>) {
        match self.pull(1) {
            Ok(b) => Ok(codec::read_u8(b.as_slice())),
            Err(err) => Err(err),
        }
    }

    fn read_i8(&mut self) -> (r: Result<i8, ReadError<()>>) {
        match self.pull(1) {
            Ok(b) => Ok(codec::read_i8(b.as_slice())),
            Err(err) => Err(err),
        }
    }

    fn read_u16(&mut self, e: Endianness) -> (r: Result<u16, ReadError<()>>) {
        match self.pull(2) {
            Ok(b) => Ok(codec::read_u16(b.as_slice(), e)),
            Err(err) => Err(err),
        }
    }

    fn read_i16(&mut self, e: Endianness) -> (r: Result<i16, ReadError<()>>) {
        match self.pull(2) {
            Ok(b) => Ok(codec::read_i16(b.as_slice(), e)),
            Err(err) => Err(err),
        }
    }

    fn read_u24(&mut self, e: Endianness) -> (r: Result<u32, ReadError<()>>) {
        match self.pull(3) {
            Ok(b) => Ok(codec::read_u24(b.as_slice(), e)),
            Err(err) => Err(err),
        }
    }

    fn read_i24(&mut self, e: Endianness) -> (r: Result<i32, ReadError<()>>) {
        match self.pull(3) {
            Ok(b) => Ok(codec::read_i24(b.as_slice(), e)),
            Err(err) => Err(err),
        }
    }

    fn read_u32(&mut self, e: Endianness) -> (r: Result<u32, ReadError<()>>) {
        match self.pull(4) {
            Ok(b) => Ok(codec::read_u32(b.as_slice(), e)),
            Err(err) => Err(err),
        }
    }

    fn read_i32(&mut self, e: Endianness) -> (r: Result<i32, ReadError<()>>) {
        match self.pull(4) {
            Ok(b) => Ok(codec::read_i32(b.as_slice(), e)),
            Err(err) => Err(err),
        }
    }

    fn read_u48(&mut self, e: Endianness) -> (r: Result<u64, ReadError<()>>) {
        match self.pull(6) {
            Ok(b) => Ok(codec::read_u48(b.as_slice(), e)),
            Err(err) => Err(err),
        }
    }

    fn read_i48(&mut self, e: Endianness) -> (r: Result<i64, ReadError<()>>) {
        match self.pull(6) {
            Ok(b) => Ok(codec::read_i48(b.as_slice(), e)),
            Err(err) => Err(err),
        }
    }

    fn read_u64(&mut self, e: Endianness) -> (r: Result<u64, ReadError<()>>) {
        match self.pull(8) {
            Ok(b) => Ok(codec::read_u64(b.as_slice(), e)),
            Err(err) => Err(err),
        }
    }

    fn read_i64(&mut self, e: Endianness) -> (r: Result<i64, ReadError<()>>) {
        match self.pull(8) {
            Ok(b) => Ok(codec::read_i64(b.as_slice(), e)),
            Err(err) => Err(err),
        }
    }

    fn read_u128(&mut self, e: Endianness) -> (r: Result<u128, ReadError<()>>) {
        match self.pull(16) {
            Ok(b) => Ok(codec::read_u128(b.as_slice(), e)),
            Err(err) => Err(err),
        }
    }

    fn read_i128(&mut self, e: Endianness) -> (r: Result<i128, ReadError<()>>) {
        match self.pull(16) {
            Ok(b) => Ok(codec::read_i128(b.as_slice(), e)),
            Err(err) => Err(err),
        }
    }
}

/// Extends a byte sink with methods for writing numbers.
///
/// Every method appends exactly the value's encoding under the given
/// ordering to [`Self::sink`]. The 24 and 48 bit widths keep only the low
/// bytes of their argument, per the truncation law; the single-byte writes
/// take no ordering.
pub trait AsyncWriteBytesExt: Sized {
    /// The bytes written so far.
    spec fn sink(self) -> Seq<u8>;

    /// Writes an unsigned 8 bit integer.
    fn write_u8(&mut self, n: u8) -> (r: Result<(), WriteError<()>>)
        ensures
            r is Ok,
            final (self).sink() == old(self).sink() + seq![n],
    ;

    /// Writes a signed 8 bit integer as one two's-complement byte.
    fn write_i8(&mut self, n: i8) -> (r: Result<(), WriteError<()>>)
        ensures
            r is Ok,
            final (self).sink() == old(self).sink() + seq![unsigned_rep(n as int, 1) as u8],
    ;

    /// Writes an unsigned 16 bit integer under the ordering `e`.
    fn write_u16(&mut self, n: u16, e: Endianness) -> (r: Result<(), WriteError<()>>)
        ensures
            r is Ok,
            final (self).sink() == old(self).sink() + wire_bytes(n as nat, 2, e),
    ;

    /// Writes a signed 16 bit integer under the ordering `e`.
    fn write_i16(&mut self, n: i16, e: Endianness) -> (r: Result<(), WriteError<()>>)
        ensures
            r is Ok,
            final (self).sink() == old(self).sink() + wire_bytes(unsigned_rep(n as int, 2), 2, e),
    ;

    /// Writes the low 24 bits of an unsigned 32 bit integer under `e`.
    fn write_u24(&mut self, n: u32, e: Endianness) -> (r: Result<(), WriteError<()>>)
        ensures
            r is Ok,
            final (self).sink() == old(self).sink() + wire_bytes(n as nat, 3, e),
    ;

    /// Writes the low 24 bits of a signed 32 bit integer under `e`.
    fn write_i24(&mut self, n: i32, e: Endianness) -> (r: Result<(), WriteError<()>>)
        ensures
            r is Ok,
            final (self).sink() == old(self).sink() + wire_bytes(unsigned_rep(n as int, 3), 3, e),
    ;

    /// Writes an unsigned 32 bit integer under the ordering `e`.
    fn write_u32(&mut self, n: u32, e: Endianness) -> (r: Result<(), WriteError<()>>)
        ensures
            r is Ok,
            final (self).sink() == old(self).sink() + wire_bytes(n as nat, 4, e),
    ;

    /// Writes a signed 32 bit integer under the ordering `e`.
    fn write_i32(&mut self, n: i32, e: Endianness) -> (r: Result<(), WriteError<()>>)
        ensures
            r is Ok,
            final (self).sink() == old(self).sink() + wire_bytes(unsigned_rep(n as int, 4), 4, e),
    ;

    /// Writes the low 48 bits of an unsigned 64 bit integer under `e`.
    fn write_u48(&mut self, n: u64, e: Endianness) -> (r: Result<(), WriteError<()>>)
        ensures
            r is Ok,
            final (self).sink() == old(self).sink() + wire_bytes(n as nat, 6, e),
    ;

    /// Writes the low 48 bits of a signed 64 bit integer under `e`.
    fn write_i48(&mut self, n: i64, e: Endianness) -> (r: Result<(), WriteError<()>>)
        ensures
            r is Ok,
            final (self).sink() == old(self).sink() + wire_bytes(unsigned_rep(n as int, 6), 6, e),
    ;

    /// Writes an unsigned 64 bit integer under the ordering `e`.
    fn write_u64(&mut self, n: u64, e: Endianness) -> (r: Result<(), WriteError<()>>)
        ensures
            r is Ok,
            final (self).sink() == old(self).sink() + wire_bytes(n as nat, 8, e),
    ;

    /// Writes a signed 64 bit integer under the ordering `e`.
    fn write_i64(&mut self, n: i64, e: Endianness) -> (r: Result<(), WriteError<()>>)
        ensures
            r is Ok,
            final (self).sink() == old(self).sink() + wire_bytes(unsigned_rep(n as int, 8), 8, e),
    ;

    /// Writes an unsigned 128 bit integer under the ordering `e`.
    fn write_u128(&mut self, n: u128, e: Endianness) -> (r: Result<(), WriteError<()>>)
        ensures
            r is Ok,
            final (self).sink() == old(self).sink() + wire_bytes(n as nat, 16, e),
    ;

    /// Writes a signed 128 bit integer under the ordering `e`.
    fn write_i128(&mut self, n: i128, e: Endianness) -> (r: Result<(), WriteError<()>>)
        ensures
            r is Ok,
            final (self).sink() == old(self).sink() + wire_bytes(unsigned_rep(n as int, 16), 16, e),
    ;
}

/// An in-memory byte sink: the crate's model of a channel that is always
/// ready and accepts everything it is offered.
pub struct VecWriter {
    data: Vec<u8>,
}

impl VecWriter {
    /// An empty sink.
    pub fn new() -> (r: Self)
        ensures
            r.sink() == Seq::<u8>::empty(),
    {
        VecWriter { data: Vec::new() }
    }

    /// The bytes written so far, surrendered.
    pub fn into_inner(self) -> (r: Vec<u8>)
        ensures
            r@ == self.sink(),
    {
        self.data
    }

    /// Flushes one pre-encoded buffer by driving a fresh accumulator to
    /// completion with one whole acceptance, as an always-ready channel
    /// allows.
    fn push_all(&mut self, bytes: Vec<u8>)
        requires
            1 <= bytes@.len() <= 16,
        ensures
            final (self).sink() == old(self).sink() + bytes@,
    {
        let ghost orig = bytes@;
        let mut acc = WriteAccumulator::new(bytes);
        proof {
            acc.lemma_completion();
        }
        let n = acc.remaining();
        let ghost acc0 = acc;
        let mut k: usize = 0;
        proof {
            assert(self.data@ =~= old(self).data@ + acc.image().take(0));
        }
        while k < n
            invariant
                k <= n,
                acc == acc0,
                acc.wf(),
                n == acc.image().len(),
                self.data@ == old(self).data@ + acc.image().take(k as int),
            decreases n - k,
        {
            let byte = acc.buffer()[k];
            self.data.push(byte);
            proof {
                assert(self.data@ =~= old(self).data@ + acc.image().take(k + 1));
            }
            k += 1;
        }
        let _outcome = acc.on_event::<()>(WriteEvent::Accepted(n));
        proof {
            assert(self.data@ =~= old(self).data@ + orig);
        }
    }
}

impl AsyncWriteBytesExt for VecWriter {
    /// The bytes accepted so far.
    closed spec fn sink(self) -> Seq<u8> {
        self.data@
    }

    fn write_u8(&mut self, n: u8) -> (r: Result<(), WriteError<()>>) {
        let b = codec::write_u8(n);
        self.push_all(b);
        Ok(())
    }

    fn write_i8(&mut self, n: i8) -> (r: Result<(), WriteError<()>>) {
        let b = codec::write_i8(n);
        self.push_all(b);
        proof {
            lemma_byte_rep(n);
            assert(old(self).sink() + b@ =~= old(self).sink() + seq![
                unsigned_rep(n as int, 1) as u8,
            ]);
        }
        Ok(())
    }

    fn write_u16(&mut self, n: u16, e: Endianness) -> (r: Result<(), WriteError<()>>) {
        let b = codec::write_u16(n, e);
        self.push_all(b);
        Ok(())
    }

    fn write_i16(&mut self, n: i16, e: Endianness) -> (r: Result<(), WriteError<()>>) {
        let b = codec::write_i16(n, e);
        self.push_all(b);
        Ok(())
    }

    fn write_u24(&mut self, n: u32, e: Endianness) -> (r: Result<(), WriteError<()>>) {
        let b = codec::write_u24(n, e);
        self.push_all(b);
        Ok(())
    }

    fn write_i24(&mut self, n: i32, e: Endianness) -> (r: Result<(), WriteError<()>>) {
        let b = codec::write_i24(n, e);
        self.push_all(b);
        Ok(())
    }

    fn write_u32(&mut self, n: u32, e: Endianness) -> (r: Result<(), WriteError<()>>) {
        let b = codec::write_u32(n, e);
        self.push_all(b);
        Ok(())
    }

    fn write_i32(&mut self, n: i32, e: Endianness) -> (r: Result<(), WriteError<()>>) {
        let b = codec::write_i32(n, e);
        self.push_all(b);
        Ok(())
    }

    fn write_u48(&mut self, n: u64, e: Endianness) -> (r: Result<(), WriteError<()>>) {
        let b = codec::write_u48(n, e);
        self.push_all(b);
        Ok(())
    }

    fn write_i48(&mut self, n: i64, e: Endianness) -> (r: Result<(), WriteError<()>>) {
        let b = codec::write_i48(n, e);
        self.push_all(b);
        Ok(())
    }

    fn write_u64(&mut self, n: u64, e: Endianness) -> (r: Result<(), WriteError<()>>) {
        let b = codec::write_u64(n, e);
        self.push_all(b);
        Ok(())
    }

    fn write_i64(&mut self, n: i64, e: Endianness) -> (r: Result<(), WriteError<()>>) {
        let b = codec::write_i64(n, e);
        self.push_all(b);
        Ok(())
    }

    fn write_u128(&mut self, n: u128, e: Endianness) -> (r: Result<(), WriteError<()>>) {
        let b = codec::write_u128(n, e);
        self.push_all(b);
        Ok(())
    }

    fn write_i128(&mut self, n: i128, e: Endianness) -> (r: Result<(), WriteError<()>>) {
        let b = codec::write_i128(n, e);
        self.push_all(b);
        Ok(())
    }
}

/// A signed byte's one-byte buffer is exactly its two's-complement
/// representative.
proof fn lemma_byte_rep(n: i8)
    ensures
        unsigned_rep(n as int, 1) < 256,
{
    assert(pow256(1) == 256) by {
        reveal_with_fuel(pow256, 2);
    }
    lemma_pow256_pos(1);
    vstd::arithmetic::div_mod::lemma_mod_division_less_than_divisor(n as int, pow256(1) as int);
}

} // verus!
