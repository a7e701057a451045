//! Byte-port abstraction shared by every host-side protocol client.
//!
//! A port is modelled by two sequences of bytes: `incoming`, the bytes that the
//! port will hand to the next reads, in order, and `outgoing`, every byte
//! written to it so far. Protocol clients state their contracts over these two
//! sequences.
//!
//! What is proved of a client holds of a run only where the port meets the
//! contracts of this trait over its own model. An implementation that keeps
//! the default model does not: with the defaults, the contracts say that a read
//! delivers no byte, that a write of one byte or more fails, that no error is a
//! timeout or an end of stream and that every error text is empty. A port
//! implemented outside verified code (a serial device) breaks these, so the
//! clients' contracts say nothing of runs over it.
use vstd::prelude::*;

verus! {

/// Whether `s` is what is left of `t` once some bytes were taken from its front.
pub open spec fn is_suffix(s: Seq<u8>, t: Seq<u8>) -> bool {
    s.len() <= t.len() && s == t.skip(t.len() - s.len())
}

/// A suffix of a suffix is a suffix.
pub proof fn lemma_suffix_trans(a: Seq<u8>, b: Seq<u8>, c: Seq<u8>)
    requires
        is_suffix(a, b),
        is_suffix(b, c),
    ensures
        is_suffix(a, c),
{
    assert(c.skip(c.len() - a.len()) =~= c.skip(c.len() - b.len()).skip(b.len() - a.len()));
}

/// A bidirectional byte port (serial port, tunnel, in-memory script, ...).
pub trait CtlPort {
    /// The error type for port operations.
    type Error;

    /// The bytes that the port will deliver to the next reads, in order
    /// (default: the empty sequence).
    open spec fn incoming(&self) -> Seq<u8> {
        Seq::empty()
    }

    /// The bytes written to the port so far (default: the empty sequence).
    open spec fn outgoing(&self) -> Seq<u8> {
        Seq::empty()
    }

    /// Whether the port works: its operations do not fail, and a read delivers
    /// at least one byte whenever some are coming (default: no).
    open spec fn healthy(&self) -> bool {
        false
    }

    /// How many of the incoming bytes were already received and wait to be read;
    /// the rest are still to come (default: none).
    open spec fn pending(&self) -> nat {
        0
    }

    /// Whether every byte written so far has been flushed (default: yes).
    open spec fn flushed(&self) -> bool {
        true
    }

    /// Whether an error stands for a read timeout (default: no).
    open spec fn timeout_error(e: &Self::Error) -> bool {
        false
    }

    /// Whether an error stands for an unexpected end of stream (default: no).
    open spec fn eof_error(e: &Self::Error) -> bool {
        false
    }

    /// The text of an error (default: empty).
    open spec fn error_text(e: &Self::Error) -> Seq<char> {
        Seq::empty()
    }

    /// Read bytes into the front of `buf`; returns how many were read.
    /// Zero means that nothing was available (timeout or end of stream).
    fn read(&mut self, buf: &mut [u8]) -> (r: Result<usize, Self::Error>)
        ensures
            final(buf)@.len() == old(buf)@.len(),
            final(self).outgoing() == old(self).outgoing(),
            final(self).flushed() == old(self).flushed(),
            r matches Ok(n) ==> {
                &&& n <= old(buf)@.len()
                &&& n <= old(self).incoming().len()
                &&& final(buf)@ == old(self).incoming().take(n as int) + old(buf)@.skip(n as int)
                &&& final(self).incoming() == old(self).incoming().skip(n as int)
            },
            old(self).healthy() ==> r is Ok && final(self).healthy(),
            old(self).healthy() && old(buf)@.len() > 0 && old(self).incoming().len() > 0 ==> (r matches Ok(n)
                && n > 0),
    ;

    /// Fill `buf` completely. On a working port the one failure is running out
    /// of bytes, an end-of-stream error.
    fn read_exact(&mut self, buf: &mut [u8]) -> (r: Result<(), Self::Error>)
        ensures
            final(buf)@.len() == old(buf)@.len(),
            final(self).outgoing() == old(self).outgoing(),
            final(self).flushed() == old(self).flushed(),
            r is Ok ==> {
                &&& old(buf)@.len() <= old(self).incoming().len()
                &&& final(buf)@ == old(self).incoming().take(old(buf)@.len() as int)
                &&& final(self).incoming() == old(self).incoming().skip(old(buf)@.len() as int)
            },
            old(self).healthy() ==> final(self).healthy() && (r is Ok <==> old(buf)@.len()
                <= old(self).incoming().len()),
            old(self).healthy() ==> (r matches Err(e) ==> Self::eof_error(&e)),
            old(self).healthy() && old(self).incoming().len() == 0 ==> final(self).incoming().len() == 0,
    ;

    /// Write every byte of `buf`.
    fn write_all(&mut self, buf: &[u8]) -> (r: Result<(), Self::Error>)
        ensures
            r is Ok ==> {
                &&& final(self).outgoing() == old(self).outgoing() + buf@
                &&& final(self).incoming() == old(self).incoming()
                &&& final(self).flushed() == (old(self).flushed() && buf@.len() == 0)
            },
            old(self).healthy() ==> r is Ok && final(self).healthy(),
    ;

    /// Flush buffered output.
    fn flush(&mut self) -> (r: Result<(), Self::Error>)
        ensures
            r is Ok ==> {
                &&& final(self).outgoing() == old(self).outgoing()
                &&& final(self).incoming() == old(self).incoming()
                &&& final(self).flushed()
            },
            old(self).healthy() ==> r is Ok && final(self).healthy(),
    ;

    /// Drop bytes that were received but not read yet.
    fn clear_buffer(&mut self)
        ensures
            final(self).outgoing() == old(self).outgoing(),
            final(self).flushed() == old(self).flushed(),
            old(self).healthy() ==> final(self).healthy(),
            exists|k: int|
                0 <= k <= old(self).incoming().len() && final(self).incoming()
                    == old(self).incoming().skip(k),
            old(self).pending() <= old(self).incoming().len() ==> final(self).incoming() == old(
                self,
            ).incoming().skip(old(self).pending() as int),
    ;

    /// Whether an error of this port stands for a read timeout.
    fn is_timeout(e: &Self::Error) -> (r: bool)
        ensures
            r == Self::timeout_error(e),
    ;

    /// Whether an error of this port stands for an unexpected end of stream.
    fn is_eof(e: &Self::Error) -> (r: bool)
        ensures
            r == Self::eof_error(e),
    ;

    /// A printable description of an error of this port.
    fn error_string(e: &Self::Error) -> (r: String)
        ensures
            r@ == Self::error_text(e),
    ;
}

/// An error that can be shown as text.
pub trait PortError {
    /// The error as text.
    fn to_error_string(&self) -> String;
}

/// Types that support a read timeout.
pub trait SetTimeout {
    /// The error of a failed change.
    type Error;

    /// The read timeout in force. Nothing is claimed of a type that keeps the
    /// default.
    open spec fn current_timeout(&self) -> Option<core::time::Duration> {
        None
    }

    /// Set the read timeout.
    fn set_timeout(&mut self, timeout: core::time::Duration) -> (r: Result<(), Self::Error>)
        ensures
            r is Ok && old(self).current_timeout() is Some ==> final(self).current_timeout() == Some(timeout),
    ;

    /// The current read timeout.
    fn timeout(&self) -> (r: core::time::Duration)
        ensures
            self.current_timeout() matches Some(t) ==> r == t,
    ;
}

/// Ports whose baud rate can be set.
pub trait SetBaudRate: CtlPort {
    /// The error of a failed change.
    type Error;

    /// The baud rate in force. Nothing is claimed of a type that keeps the default.
    open spec fn current_baud_rate(&self) -> Option<u32> {
        None
    }

    /// Set the baud rate. No byte is read or written by it.
    fn set_baud_rate(&mut self, baud_rate: u32) -> (r: Result<(), <Self as SetBaudRate>::Error>)
        ensures
            r is Ok && old(self).current_baud_rate() is Some ==> final(self).current_baud_rate() == Some(
                baud_rate,
            ),
            final(self).incoming() == old(self).incoming(),
            final(self).outgoing() == old(self).outgoing(),
            final(self).flushed() == old(self).flushed(),
            final(self).healthy() == old(self).healthy(),
            final(self).pending() == old(self).pending(),
    ;
}

/// Ports that can be split into a reader and a writer on the same device, and put
/// together again (a serial device opened twice, say).
pub trait SplitPort: CtlPort + Sized {
    /// The type of either half.
    type Half: CtlPort<Error = Self::Error>;

    /// Split into a reader, which gets the bytes coming in, and a writer, which
    /// carries on the bytes going out.
    fn split(self) -> (r: (Self::Half, Self::Half))
        ensures
            r.0.incoming() == self.incoming(),
            r.1.outgoing() == self.outgoing(),
            r.1.flushed() == self.flushed(),
            self.healthy() ==> r.0.healthy() && r.1.healthy(),
    ;

    /// Put a reader and a writer back together.
    fn join(reader: Self::Half, writer: Self::Half) -> (r: Self)
        ensures
            r.incoming() == reader.incoming(),
            r.outgoing() == writer.outgoing(),
            r.flushed() == writer.flushed(),
            reader.healthy() && writer.healthy() ==> r.healthy(),
    ;
}

/// Errors of the in-memory port.
#[derive(Debug, Clone, Copy, PartialEq, Eq, Structural)]
pub enum MemPortError {
    /// Fewer bytes were left than a read asked for.
    UnexpectedEof,
}

/// An in-memory port: reads are served from a fixed script of input bytes and
/// writes are recorded. Used for loopback and for exercising protocol clients.
pub struct MemPort {
    input: Vec<u8>,
    pos: usize,
    output: Vec<u8>,
    unflushed: bool,
}

impl MemPort {
    /// A port whose reads will deliver `input`, with nothing written yet.
    pub fn new(input: Vec<u8>) -> (p: Self)
        ensures
            p.incoming() == input@,
            p.outgoing() == Seq::<u8>::empty(),
            p.healthy(),
            p.flushed(),
    {
        let p = MemPort { input, pos: 0, output: Vec::new(), unflushed: false };
        assert(p.input@.skip(0) =~= input@);
        p
    }

    /// Append bytes to what later reads will deliver.
    pub fn push_input(&mut self, bytes: &[u8])
        ensures
            final(self).incoming() == old(self).incoming() + bytes@,
            final(self).outgoing() == old(self).outgoing(),
            final(self).flushed() == old(self).flushed(),
            final(self).healthy(),
    {
        if self.pos > self.input.len() {
            self.pos = self.input.len();
        }
        let mut i: usize = 0;
        while i < bytes.len()
            invariant
                i <= bytes.len(),
                self.pos <= self.input.len(),
                self.output == old(self).output,
                self.unflushed == old(self).unflushed,
                self.input@.skip(self.pos as int) == old(self).incoming() + bytes@.take(i as int),
            decreases bytes.len() - i,
        {
            let ghost before = self.input@;
            self.input.push(bytes[i]);
            assert(self.input@.skip(self.pos as int) =~= before.skip(self.pos as int) + seq![bytes[i as int]]);
            assert(bytes@.take(i + 1) =~= bytes@.take(i as int).push(bytes[i as int]));
            i = i + 1;
        }
        assert(bytes@.take(bytes.len() as int) =~= bytes@);
    }

    /// Every byte written so far.
    pub fn written(&self) -> (r: &Vec<u8>)
        ensures
            r@ == self.outgoing(),
    {
        &self.output
    }

    /// Number of bytes that reads have not consumed yet.
    pub fn remaining(&self) -> (r: usize)
        ensures
            r == self.incoming().len(),
    {
        if self.pos <= self.input.len() {
            self.input.len() - self.pos
        } else {
            0
        }
    }
}

impl CtlPort for MemPort {
    type Error = MemPortError;

    closed spec fn incoming(&self) -> Seq<u8> {
        if self.pos <= self.input.len() {
            self.input@.skip(self.pos as int)
        } else {
            Seq::empty()
        }
    }

    closed spec fn outgoing(&self) -> Seq<u8> {
        self.output@
    }

    closed spec fn healthy(&self) -> bool {
        true
    }

    closed spec fn flushed(&self) -> bool {
        !self.unflushed
    }

    closed spec fn timeout_error(e: &MemPortError) -> bool {
        false
    }

    closed spec fn eof_error(e: &MemPortError) -> bool {
        true
    }

    closed spec fn error_text(e: &MemPortError) -> Seq<char> {
        "UnexpectedEof"@
    }

    fn read(&mut self, buf: &mut [u8]) -> (r: Result<usize, MemPortError>)
        ensures
            r matches Ok(n) && n == (if old(buf)@.len() < old(self).incoming().len() {
                old(buf)@.len() as int
            } else {
                old(self).incoming().len() as int
            }),
    {
        let max = buf.len();
        if self.pos >= self.input.len() || max == 0 {
            proof {
                assert(old(self).incoming().take(0) + old(buf)@.skip(0) =~= buf@);
                assert(old(self).incoming().skip(0) =~= old(self).incoming());
            }
            return Ok(0);
        }
        let avail = self.input.len() - self.pos;
        let n = if max < avail { max } else { avail };
        let start = self.pos;
        let mut i: usize = 0;
        while i < n
            invariant
                i <= n,
                n <= max,
                max == buf@.len(),
                max == old(buf)@.len(),
                start + n <= self.input.len(),
                start == self.pos,
                *self == *old(self),
                buf@ == self.input@.subrange(start as int, start + i) + old(buf)@.skip(i as int),
            decreases n - i,
        {
            let b = self.input[start + i];
            let ghost prev = buf@;
            buf[i] = b;
            assert(buf@ == prev.update(i as int, b));
            assert forall|j: int| 0 <= j < buf@.len() implies buf@[j] == (self.input@.subrange(
                start as int,
                start + i + 1,
            ) + old(buf)@.skip(i + 1))[j] by {
                if j < i {
                    assert(prev[j] == self.input@.subrange(start as int, start + i)[j]);
                } else if j > i {
                    assert(prev[j] == old(buf)@.skip(i as int)[j - i]);
                }
            }
            assert(buf@ =~= self.input@.subrange(start as int, start + i + 1) + old(buf)@.skip(i + 1));
            i = i + 1;
        }
        self.pos = start + n;
        assert(old(self).incoming().take(n as int) =~= self.input@.subrange(start as int, start + n));
        assert(self.incoming() =~= old(self).incoming().skip(n as int));
        Ok(n)
    }

    fn read_exact(&mut self, buf: &mut [u8]) -> (r: Result<(), MemPortError>)
        ensures
            r is Ok <==> old(buf)@.len() <= old(self).incoming().len(),
            r is Err ==> *final(self) == *old(self) && final(buf)@ == old(buf)@,
    {
        if self.remaining() < buf.len() {
            return Err(MemPortError::UnexpectedEof);
        }
        let n = self.read(buf);
        proof {
            assert(buf@ =~= old(self).incoming().take(old(buf)@.len() as int));
        }
        match n {
            Ok(_) => Ok(()),
            Err(e) => Err(e),
        }
    }

    fn write_all(&mut self, buf: &[u8]) -> (r: Result<(), MemPortError>)
        ensures
            r is Ok,
    {
        let mut i: usize = 0;
        while i < buf.len()
            invariant
                i <= buf.len(),
                self.input == old(self).input,
                self.pos == old(self).pos,
                self.unflushed == old(self).unflushed,
                self.output@ == old(self).output@ + buf@.take(i as int),
            decreases buf.len() - i,
        {
            self.output.push(buf[i]);
            i = i + 1;
        }
        if buf.len() > 0 {
            self.unflushed = true;
        }
        assert(buf@.take(buf.len() as int) =~= buf@);
        Ok(())
    }

    fn flush(&mut self) -> (r: Result<(), MemPortError>)
        ensures
            r is Ok,
    {
        self.unflushed = false;
        Ok(())
    }

    fn clear_buffer(&mut self)
        ensures
            final(self).incoming() == old(self).incoming(),
    {
        assert(self.incoming().skip(0) =~= self.incoming());
    }

    fn is_timeout(e: &MemPortError) -> (r: bool)
        ensures
            !r,
    {
        false
    }

    fn is_eof(e: &MemPortError) -> (r: bool)
        ensures
            r,
    {
        true
    }

    fn error_string(e: &MemPortError) -> (r: String) {
        let r = String::from_str("UnexpectedEof");
        proof {
            reveal_strlit("UnexpectedEof");
        }
        r
    }
}

impl SetBaudRate for MemPort {
    type Error = MemPortError;

    /// An in-memory port has no baud rate: the change always succeeds.
    fn set_baud_rate(&mut self, baud_rate: u32) -> (r: Result<(), MemPortError>)
        ensures
            r is Ok,
    {
        Ok(())
    }
}

impl SplitPort for MemPort {
    type Half = MemPort;

    fn split(self) -> (r: (MemPort, MemPort)) {
        let reader = MemPort { input: self.input, pos: self.pos, output: Vec::new(), unflushed: false };
        let writer = MemPort { input: Vec::new(), pos: 0, output: self.output, unflushed: self.unflushed };
        (reader, writer)
    }

    fn join(reader: MemPort, writer: MemPort) -> (r: MemPort) {
        MemPort { input: reader.input, pos: reader.pos, output: writer.output, unflushed: writer.unflushed }
    }
}

} // verus!
