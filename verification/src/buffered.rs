//! Buffered reading over a port, and an adapter that can lend its port out.
use vstd::prelude::*;

use crate::port::{CtlPort, SetBaudRate, SetTimeout};

verus! {

/// Default size of the read buffer.
pub const DEFAULT_BUF_SIZE: usize = 8192;

/// Types that can drop the input they received but did not hand out yet.
pub trait ClearBuffer {
    /// Drop unread input.
    fn clear_buffer(&mut self);
}

/// A port wrapper that reads through a buffer and passes writes straight through.
pub struct BufferedPort<P> {
    port: P,
    read_buf: Vec<u8>,
    read_pos: usize,
    read_cap: usize,
}

impl<P> BufferedPort<P> {
    /// The wrapped port.
    pub closed spec fn inner(&self) -> P {
        self.port
    }

    /// Bytes read from the wrapped port and not handed out yet.
    pub closed spec fn buffered(&self) -> Seq<u8> {
        if self.read_pos <= self.read_cap && self.read_cap <= self.read_buf@.len() {
            self.read_buf@.subrange(self.read_pos as int, self.read_cap as int)
        } else {
            Seq::empty()
        }
    }

    /// Size of the read buffer.
    pub closed spec fn capacity(&self) -> nat {
        self.read_buf@.len()
    }

    /// Create a new buffered port with the default read buffer size.
    pub fn new(port: P) -> (b: Self)
        ensures
            b.inner() == port,
            b.buffered() == Seq::<u8>::empty(),
            b.capacity() == DEFAULT_BUF_SIZE,
    {
        Self::with_capacity(DEFAULT_BUF_SIZE, port)
    }

    /// Create a new buffered port with the given read buffer size.
    pub fn with_capacity(read_capacity: usize, port: P) -> (b: Self)
        ensures
            b.inner() == port,
            b.buffered() == Seq::<u8>::empty(),
            b.capacity() == read_capacity,
    {
        let b = BufferedPort { port, read_buf: vec![0u8; read_capacity], read_pos: 0, read_cap: 0 };
        assert(b.buffered() =~= Seq::<u8>::empty());
        b
    }

    /// Get a reference to the underlying port.
    pub fn get_ref(&self) -> (r: &P)
        ensures
            *r == self.inner(),
    {
        &self.port
    }

    /// Get a mutable reference to the underlying port.
    pub fn get_mut(&mut self) -> (r: &mut P)
        ensures
            *r == old(self).inner(),
            final(self).inner() == *final(r),
            final(self).buffered() == old(self).buffered(),
            final(self).capacity() == old(self).capacity(),
    {
        &mut self.port
    }

    /// Consume the buffered port and return the underlying port; buffered bytes are dropped.
    pub fn into_inner(self) -> (r: P)
        ensures
            r == self.inner(),
    {
        self.port
    }
}

impl<P: SetTimeout> BufferedPort<P> {
    /// Set the timeout for read operations; buffered bytes stay.
    pub fn set_timeout(&mut self, timeout: core::time::Duration) -> (r: Result<(), P::Error>)
        ensures
            final(self).buffered() == old(self).buffered(),
            final(self).capacity() == old(self).capacity(),
            r is Ok && old(self).inner().current_timeout() is Some ==> final(self).inner().current_timeout() == Some(
                timeout,
            ),
    {
        self.port.set_timeout(timeout)
    }

    /// Get the current timeout.
    pub fn timeout(&self) -> (r: core::time::Duration)
        ensures
            self.inner().current_timeout() matches Some(t) ==> r == t,
    {
        self.port.timeout()
    }
}

impl<P: SetBaudRate> BufferedPort<P> {
    /// Set the baud rate; buffered bytes stay.
    pub fn set_baud_rate(&mut self, baud_rate: u32) -> (r: Result<(), <P as SetBaudRate>::Error>)
        ensures
            final(self).buffered() == old(self).buffered(),
            final(self).capacity() == old(self).capacity(),
            r is Ok && old(self).inner().current_baud_rate() is Some ==> final(self).inner().current_baud_rate()
                == Some(baud_rate),
    {
        self.port.set_baud_rate(baud_rate)
    }
}

impl<P: CtlPort> BufferedPort<P> {
    /// Refill the buffer from the port when it is empty; returns the buffered bytes.
    fn fill_buf_internal(&mut self) -> (r: Result<Vec<u8>, P::Error>)
        ensures
            final(self).capacity() == old(self).capacity(),
            old(self).inner().healthy() ==> r is Ok && final(self).inner().healthy(),
            old(self).inner().healthy() && old(self).capacity() > 0 && old(self).buffered().len()
                + old(self).inner().incoming().len() > 0 ==> final(self).buffered().len() > 0,
            r is Ok ==> final(self).inner().outgoing() == old(self).inner().outgoing(),
            r is Ok ==> final(self).buffered() + final(self).inner().incoming() == old(self).buffered()
                + old(self).inner().incoming(),
            r matches Ok(v) ==> v@ == final(self).buffered(),
            r is Ok && old(self).buffered().len() > 0 ==> final(self).buffered() == old(self).buffered(),
    {
        if !(self.read_pos < self.read_cap && self.read_cap <= self.read_buf.len()) {
            let n = self.port.read(self.read_buf.as_mut_slice())?;
            self.read_cap = n;
            self.read_pos = 0;
            assert(self.buffered() =~= old(self).inner().incoming().take(n as int));
            assert(old(self).buffered() =~= Seq::<u8>::empty());
            assert(self.buffered() + self.port.incoming() =~= old(self).buffered() + old(self).inner().incoming());
        }
        let mut v: Vec<u8> = Vec::new();
        let mut i = self.read_pos;
        while i < self.read_cap
            invariant
                self.read_pos <= i <= self.read_cap <= self.read_buf@.len(),
                v@ == self.read_buf@.subrange(self.read_pos as int, i as int),
            decreases self.read_cap - i,
        {
            v.push(self.read_buf[i]);
            assert(self.read_buf@.subrange(self.read_pos as int, i + 1) =~= v@);
            i = i + 1;
        }
        Ok(v)
    }
}

impl<P: CtlPort> BufferedPort<P> {
    /// The buffered bytes, refilling the buffer from the port first when it is empty.
    pub fn fill_buf(&mut self) -> (r: Result<Vec<u8>, P::Error>)
        ensures
            final(self).capacity() == old(self).capacity(),
            old(self).inner().healthy() ==> r is Ok && final(self).inner().healthy(),
            old(self).inner().healthy() && old(self).capacity() > 0 && old(self).buffered().len()
                + old(self).inner().incoming().len() > 0 ==> final(self).buffered().len() > 0,
            r is Ok ==> final(self).inner().outgoing() == old(self).inner().outgoing(),
            r is Ok ==> final(self).buffered() + final(self).inner().incoming() == old(self).buffered()
                + old(self).inner().incoming(),
            r matches Ok(v) ==> v@ == final(self).buffered(),
            r is Ok && old(self).buffered().len() > 0 ==> final(self).buffered() == old(self).buffered(),
    {
        self.fill_buf_internal()
    }

    /// Mark `amt` buffered bytes as read (at most all of them).
    pub fn consume(&mut self, amt: usize)
        ensures
            final(self).inner() == old(self).inner(),
            final(self).capacity() == old(self).capacity(),
            final(self).buffered() == old(self).buffered().skip(
                if amt < old(self).buffered().len() { amt as int } else { old(self).buffered().len() as int },
            ),
    {
        if self.read_pos <= self.read_cap && self.read_cap <= self.read_buf.len() {
            let avail = self.read_cap - self.read_pos;
            let step = if amt < avail {
                amt
            } else {
                avail
            };
            self.read_pos = self.read_pos + step;
            assert(self.buffered() =~= old(self).buffered().skip(step as int));
        } else {
            assert(old(self).buffered() =~= Seq::<u8>::empty());
            assert(old(self).buffered().skip(0) =~= Seq::<u8>::empty());
        }
    }
}

impl<P: CtlPort> CtlPort for BufferedPort<P> {
    type Error = P::Error;

    closed spec fn incoming(&self) -> Seq<u8> {
        self.buffered() + self.port.incoming()
    }

    closed spec fn outgoing(&self) -> Seq<u8> {
        self.port.outgoing()
    }

    closed spec fn healthy(&self) -> bool {
        self.port.healthy()
    }

    closed spec fn flushed(&self) -> bool {
        self.port.flushed()
    }

    closed spec fn pending(&self) -> nat {
        self.buffered().len() + self.port.pending()
    }

    closed spec fn timeout_error(e: &P::Error) -> bool {
        P::timeout_error(e)
    }

    closed spec fn eof_error(e: &P::Error) -> bool {
        P::eof_error(e)
    }

    closed spec fn error_text(e: &P::Error) -> Seq<char> {
        P::error_text(e)
    }

    fn read(&mut self, buf: &mut [u8]) -> (r: Result<usize, P::Error>) {
        if !(self.read_pos < self.read_cap && self.read_cap <= self.read_buf.len()) {
            if buf.len() >= self.read_buf.len() {
                let r = self.port.read(buf);
                proof {
                    assert(old(self).buffered() =~= Seq::<u8>::empty());
                    if let Ok(n) = r {
                        assert(self.incoming() =~= old(self).incoming().skip(n as int));
                    }
                }
                return r;
            }
            let n = self.port.read(self.read_buf.as_mut_slice())?;
            self.read_cap = n;
            self.read_pos = 0;
            assert(self.buffered() =~= old(self).inner().incoming().take(n as int));
            assert(old(self).buffered() =~= Seq::<u8>::empty());
            assert(self.incoming() =~= old(self).incoming());
        }
        let ghost mid = self.incoming();
        let ghost buffered = self.buffered();
        let available = self.read_cap - self.read_pos;
        let to_copy = if available < buf.len() {
            available
        } else {
            buf.len()
        };
        let start = self.read_pos;
        let mut i: usize = 0;
        while i < to_copy
            invariant
                i <= to_copy <= buf@.len(),
                buf@.len() == old(buf)@.len(),
                start + to_copy <= self.read_cap <= self.read_buf@.len(),
                buffered == self.read_buf@.subrange(start as int, self.read_cap as int),
                buf@ == buffered.take(i as int) + old(buf)@.skip(i as int),
            decreases to_copy - i,
        {
            let b = self.read_buf[start + i];
            buf[i] = b;
            assert(buf@ =~= buffered.take(i + 1) + old(buf)@.skip(i + 1));
            i = i + 1;
        }
        self.read_pos = start + to_copy;
        proof {
            assert(self.buffered() =~= buffered.skip(to_copy as int));
            assert(mid.take(to_copy as int) =~= buffered.take(to_copy as int));
            assert(self.incoming() =~= mid.skip(to_copy as int));
        }
        Ok(to_copy)
    }

    fn read_exact(&mut self, buf: &mut [u8]) -> (r: Result<(), P::Error>) {
        let ghost inc0 = self.incoming();
        let need = buf.len();
        let mut filled: usize = 0;
        while filled < need && self.read_pos < self.read_cap && self.read_cap <= self.read_buf.len()
            invariant
                filled <= need,
                need == buf@.len(),
                buf@.len() == old(buf)@.len(),
                filled <= inc0.len(),
                self.incoming() == inc0.skip(filled as int),
                self.outgoing() == old(self).outgoing(),
                self.port == old(self).port,
                buf@.take(filled as int) == inc0.take(filled as int),
            decreases need - filled,
        {
            let ghost cur = self.incoming();
            let ghost b0 = self.buffered();
            assert(b0.len() > 0);
            let b = self.read_buf[self.read_pos];
            buf[filled] = b;
            self.read_pos = self.read_pos + 1;
            proof {
                assert(cur[0] == b);
                assert(self.buffered() =~= b0.skip(1));
                assert(self.incoming() =~= cur.skip(1));
                assert(cur.skip(1) =~= inc0.skip(filled + 1));
                assert(buf@.take(filled + 1) =~= inc0.take(filled + 1));
            }
            filled = filled + 1;
        }
        if filled < need {
            let missing = need - filled;
            let mut rest = vec![0u8; missing];
            let ghost cur = self.incoming();
            assert(self.buffered() =~= Seq::<u8>::empty());
            assert(cur == self.port.incoming());
            match self.port.read_exact(rest.as_mut_slice()) {
                Ok(()) => {},
                Err(e) => {
                    return Err(e);
                },
            }
            let mut j: usize = 0;
            while j < rest.len()
                invariant
                    j <= rest@.len(),
                    filled + rest@.len() == need,
                    need == buf@.len(),
                    buf@.take(filled as int) == inc0.take(filled as int),
                    forall|t: int| 0 <= t < j ==> buf@[filled + t] == rest@[t],
                decreases rest@.len() - j,
            {
                buf[filled + j] = rest[j];
                j = j + 1;
            }
            proof {
                assert(rest@ == cur.take(need - filled));
                assert(cur == inc0.skip(filled as int));
                assert forall|t: int| 0 <= t < need implies buf@[t] == inc0.take(need as int)[t] by {
                    if t < filled {
                        assert(buf@.take(filled as int)[t] == buf@[t]);
                        assert(inc0.take(filled as int)[t] == inc0[t]);
                    } else {
                        assert(buf@[filled + (t - filled)] == rest@[t - filled]);
                        assert(cur.take(need - filled)[t - filled] == cur[t - filled]);
                        assert(cur[t - filled] == inc0[t]);
                    }
                }
                assert(buf@ =~= inc0.take(need as int));
                assert(self.incoming() =~= inc0.skip(need as int));
            }
        } else {
            assert(buf@ =~= inc0.take(need as int));
        }
        Ok(())
    }

    fn write_all(&mut self, buf: &[u8]) -> (r: Result<(), P::Error>) {
        self.port.write_all(buf)
    }

    fn flush(&mut self) -> (r: Result<(), P::Error>) {
        self.port.flush()
    }

    fn clear_buffer(&mut self) {
        let ghost before = self.incoming();
        let ghost b = self.buffered();
        self.read_pos = self.read_cap;
        assert(self.buffered() =~= Seq::<u8>::empty());
        self.port.clear_buffer();
        proof {
            let k = choose|k: int|
                0 <= k <= old(self).inner().incoming().len() && self.port.incoming()
                    == old(self).inner().incoming().skip(k);
            assert(self.incoming() =~= before.skip(b.len() + k));
            if old(self).pending() <= before.len() {
                assert(self.incoming() =~= before.skip(old(self).pending() as int));
            }
        }
    }

    fn is_timeout(e: &P::Error) -> bool {
        P::is_timeout(e)
    }

    fn is_eof(e: &P::Error) -> bool {
        P::is_eof(e)
    }

    fn error_string(e: &P::Error) -> String {
        P::error_string(e)
    }
}

impl<P: CtlPort> ClearBuffer for BufferedPort<P> {
    /// Drop the buffered bytes and the port's unread input.
    fn clear_buffer(&mut self)
        ensures
            final(self).buffered() == Seq::<u8>::empty(),
            final(self).inner().outgoing() == old(self).inner().outgoing(),
    {
        self.read_pos = self.read_cap;
        assert(self.buffered() =~= Seq::<u8>::empty());
        self.port.clear_buffer();
    }
}

/// A holder of a port that can lend the port out and take it back.
pub struct SyncPortAdapter<P> {
    port: Option<P>,
}

impl<P> SyncPortAdapter<P> {
    /// The port, unless it has been taken.
    pub closed spec fn port(&self) -> Option<P> {
        self.port
    }

    /// Create a new adapter wrapping the given port.
    pub fn new(port: P) -> (a: Self)
        ensures
            a.port() == Some(port),
    {
        SyncPortAdapter { port: Some(port) }
    }

    /// Get a reference to the underlying port (which must not have been taken).
    pub fn get_ref(&self) -> (r: &P)
        requires
            self.port() is Some,
        ensures
            *r == self.port()->0,
    {
        match &self.port {
            Some(p) => p,
            None => vstd::pervasive::unreached(),
        }
    }

    /// Get a mutable reference to the underlying port (which must not have been taken).
    pub fn get_mut(&mut self) -> (r: &mut P)
        requires
            old(self).port() is Some,
        ensures
            *r == old(self).port()->0,
            final(self).port() == Some(*final(r)),
    {
        match &mut self.port {
            Some(p) => p,
            None => vstd::pervasive::unreached(),
        }
    }

    /// Consume the adapter and return the underlying port (which must not have been taken).
    pub fn into_inner(self) -> (r: P)
        requires
            self.port() is Some,
        ensures
            r == self.port()->0,
    {
        match self.port {
            Some(p) => p,
            None => vstd::pervasive::unreached(),
        }
    }

    /// Temporarily take the port out for exclusive use.
    pub fn take_port(&mut self) -> (r: P)
        requires
            old(self).port() is Some,
        ensures
            r == old(self).port()->0,
            final(self).port() is None,
    {
        match self.port.take() {
            Some(p) => p,
            None => vstd::pervasive::unreached(),
        }
    }

    /// Return a previously taken port.
    pub fn put_port(&mut self, port: P)
        requires
            old(self).port() is None,
        ensures
            final(self).port() == Some(port),
    {
        self.port = Some(port);
    }
}

} // verus!
