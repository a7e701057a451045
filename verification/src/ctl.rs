//! Host-side controller state: the port to the device and the buffers of
//! tunnelled UI and NET streams.
use vstd::prelude::*;

use crate::port::CtlPort;
use crate::tlv::{
    decode_header, encode_header, header_code, header_length, sync_word, tlv_bytes, value_bytes, value_from_slice,
    Tlv, TlvType, HEADER_SIZE, MAX_VALUE_SIZE, SYNC_WORD,
};

verus! {

/// Errors from controller operations.
#[derive(Debug)]
pub enum CtlError {
    /// Port I/O error (formatted as string for cross-platform compatibility).
    Port(String),
    /// Received an invalid TLV type.
    InvalidType(u16),
    /// TLV value too long.
    TooLong,
    /// Unexpected end of stream.
    UnexpectedEof,
    /// Received unexpected TLV type (expected vs actual).
    UnexpectedResponse { expected: &'static str, actual: String },
    /// Data mismatch (e.g., ping/pong data doesn't match).
    DataMismatch,
    /// Invalid response length.
    InvalidLength { expected: usize, actual: usize },
    /// Device returned an error.
    DeviceError(String),
    /// Invalid UTF-8 in response.
    InvalidUtf8,
    /// Invalid data format (deserialization failed).
    InvalidData,
    /// Timeout waiting for response.
    Timeout,
}

/// `TimedOut` in ASCII.
pub open spec fn timed_out_bytes() -> Seq<u8> {
    seq![0x54u8, 0x69u8, 0x6Du8, 0x65u8, 0x64u8, 0x4Fu8, 0x75u8, 0x74u8]
}

/// `timeout` in ASCII.
pub open spec fn timeout_bytes() -> Seq<u8> {
    seq![0x74u8, 0x69u8, 0x6Du8, 0x65u8, 0x6Fu8, 0x75u8, 0x74u8]
}

/// Whether `needle` occurs in `hay` at position `i`.
pub open spec fn occurs_at(hay: Seq<u8>, needle: Seq<u8>, i: int) -> bool {
    0 <= i && i + needle.len() <= hay.len() && hay.subrange(i, i + needle.len()) == needle
}

/// Whether `needle` occurs anywhere in `hay`.
pub open spec fn contains_bytes(hay: Seq<u8>, needle: Seq<u8>) -> bool {
    exists|i: int| occurs_at(hay, needle, i)
}

/// Whether an error stands for a timeout: `Timeout`, or a port error whose text
/// mentions `TimedOut` or `timeout`.
pub open spec fn is_timeout_error(e: CtlError) -> bool {
    match e {
        CtlError::Timeout => true,
        CtlError::Port(msg) => contains_bytes(vstd::utf8::encode_utf8(msg@), timed_out_bytes())
            || contains_bytes(vstd::utf8::encode_utf8(msg@), timeout_bytes()),
        _ => false,
    }
}

/// Whether `needle` occurs in `hay`.
fn find_bytes(hay: &[u8], needle: &[u8]) -> (r: bool)
    ensures
        r == contains_bytes(hay@, needle@),
{
    if needle.len() > hay.len() {
        proof {
            assert forall|i: int| !occurs_at(hay@, needle@, i) by {}
        }
        return false;
    }
    let last = hay.len() - needle.len();
    let mut i: usize = 0;
    while i <= last
        invariant
            needle@.len() <= hay@.len(),
            last == hay@.len() - needle@.len(),
            i <= last + 1,
            forall|j: int| 0 <= j < i ==> !occurs_at(hay@, needle@, j),
        decreases last + 1 - i,
    {
        let mut k: usize = 0;
        let mut same = true;
        while k < needle.len()
            invariant
                k <= needle@.len(),
                i + needle@.len() <= hay.len(),
                hay@.len() == hay.len(),
                same == (forall|t: int| 0 <= t < k ==> hay@[i + t] == needle@[t]),
            decreases needle@.len() - k,
        {
            if hay[i + k] != needle[k] {
                same = false;
            }
            k = k + 1;
        }
        if same {
            assert(hay@.subrange(i as int, i + needle@.len()) =~= needle@);
            assert(occurs_at(hay@, needle@, i as int));
            return true;
        }
        proof {
            assert(!occurs_at(hay@, needle@, i as int)) by {
                if hay@.subrange(i as int, i + needle@.len()) == needle@ {
                    assert forall|t: int| 0 <= t < needle@.len() implies hay@[i + t] == needle@[t] by {
                        assert(hay@.subrange(i as int, i + needle@.len())[t] == hay@[i + t]);
                    }
                }
            }
        }
        if i == last {
            proof {
                assert forall|j: int| !occurs_at(hay@, needle@, j) by {
                    if 0 <= j < i {
                    }
                }
            }
            return false;
        }
        i = i + 1;
    }
    false
}

impl CtlError {
    /// Returns true if this error represents a timeout.
    pub fn is_timeout(&self) -> (r: bool)
        ensures
            r == is_timeout_error(*self),
    {
        match self {
            CtlError::Timeout => true,
            CtlError::Port(msg) => {
                let bytes = msg.as_str().as_bytes();
                let timed_out: [u8; 8] = [0x54, 0x69, 0x6D, 0x65, 0x64, 0x4F, 0x75, 0x74];
                let timeout: [u8; 7] = [0x74, 0x69, 0x6D, 0x65, 0x6F, 0x75, 0x74];
                assert(timed_out@ =~= timed_out_bytes());
                assert(timeout@ =~= timeout_bytes());
                find_bytes(bytes, &timed_out) || find_bytes(bytes, &timeout)
            },
            _ => false,
        }
    }
}

/// One step of the sync-word matcher: how many bytes of `LINK` are matched after
/// byte `b`, with `m` matched before it.
pub open spec fn sync_step(m: nat, b: u8) -> nat {
    if b == sync_word()[m as int] {
        m + 1
    } else if b == sync_word()[0] {
        1
    } else {
        0
    }
}

/// The number of bytes read until the whole sync word is matched, starting with `m`
/// bytes matched; none when `inc` ends first.
pub open spec fn sync_scan(m: nat, inc: Seq<u8>) -> Option<nat>
    decreases inc.len(),
{
    if m >= 4 {
        Some(0)
    } else if inc.len() == 0 {
        None
    } else {
        match sync_scan(sync_step(m, inc[0]), inc.drop_first()) {
            Some(k) => Some(k + 1),
            None => None,
        }
    }
}

/// A scan result with `k` more bytes read.
pub open spec fn scan_plus(r: Option<nat>, k: nat) -> Option<nat> {
    match r {
        Some(n) => Some(n + k),
        None => None,
    }
}

/// On a working port that will deliver `inc`, which of the outcomes of reading a
/// TLV comes: nothing when no sync word comes; a port error when the header or the
/// value is cut short; a type or length error as the header says; else a TLV.
pub open spec fn tlv_read_verdict<T: TlvType>(r: Result<Option<Tlv<T>>, CtlError>, inc: Seq<u8>) -> bool {
    match sync_scan(0, inc) {
        None => r matches Ok(None),
        Some(k) => {
            let rest = inc.skip(k as int);
            let h = rest.take(HEADER_SIZE as int);
            let len = header_length(h) as int;
            if rest.len() < HEADER_SIZE {
                r matches Err(CtlError::Port(_))
            } else if T::from_code(header_code(h)) is None {
                r == Err::<Option<Tlv<T>>, CtlError>(CtlError::InvalidType(header_code(h)))
            } else if len > MAX_VALUE_SIZE {
                r matches Err(CtlError::TooLong)
            } else if rest.len() < HEADER_SIZE + len {
                r matches Err(CtlError::Port(_))
            } else {
                r matches Ok(Some(_))
            }
        },
    }
}

/// The answer that the host expects to a four-byte hello challenge: each byte XOR
/// the matching byte of `LINK`.
pub open spec fn expected_hello_of(challenge: Seq<u8>) -> Seq<u8> {
    Seq::new(4, |i: int| challenge[i] ^ sync_word()[i])
}

/// The answer that the host expects to a hello challenge.
pub fn expected_hello(challenge: &[u8; 4]) -> (r: [u8; 4])
    ensures
        r@ == expected_hello_of(challenge@),
{
    let r: [u8; 4] = [challenge[0] ^ 0x4C, challenge[1] ^ 0x49, challenge[2] ^ 0x4E, challenge[3] ^ 0x4B];
    assert(r@ =~= expected_hello_of(challenge@));
    r
}

/// The controller, generic over the port type.
///
/// It holds the port (which can be lent out and given back) and the buffers in
/// which tunnelled UI and NET data collects.
pub struct CtlCore<P: CtlPort> {
    port: Option<P>,
    ui_buffer: Vec<u8>,
    net_buffer: Vec<u8>,
}

impl<P: CtlPort> CtlCore<P> {
    /// The port, unless it has been taken.
    pub closed spec fn port(&self) -> Option<P> {
        self.port
    }

    /// Bytes of the UI stream received but not parsed yet.
    pub closed spec fn ui_pending(&self) -> Seq<u8> {
        self.ui_buffer@
    }

    /// Bytes of the NET stream received but not parsed yet.
    pub closed spec fn net_pending(&self) -> Seq<u8> {
        self.net_buffer@
    }

    /// Create a new controller wrapping the given port.
    pub fn new(port: P) -> (c: Self)
        ensures
            c.port() == Some(port),
            c.ui_pending() == Seq::<u8>::empty(),
            c.net_pending() == Seq::<u8>::empty(),
    {
        CtlCore { port: Some(port), ui_buffer: Vec::new(), net_buffer: Vec::new() }
    }

    /// Get a reference to the underlying port (which must not have been taken).
    pub fn port_ref(&self) -> (r: &P)
        requires
            self.port() is Some,
        ensures
            *r == self.port()->0,
    {
        match &self.port {
            Some(p) => p,
            None => vstd::pervasive::unreached(),
        }
    }

    /// Get a mutable reference to the underlying port (which must not have been taken).
    pub fn port_mut(&mut self) -> (r: &mut P)
        requires
            old(self).port() is Some,
        ensures
            *r == old(self).port()->0,
            final(self).port() == Some(*final(r)),
            final(self).ui_pending() == old(self).ui_pending(),
            final(self).net_pending() == old(self).net_pending(),
    {
        match &mut self.port {
            Some(p) => p,
            None => vstd::pervasive::unreached(),
        }
    }

    /// Consume the controller and return the underlying port (which must not have been taken).
    pub fn into_inner(self) -> (r: P)
        requires
            self.port() is Some,
        ensures
            r == self.port()->0,
    {
        match self.port {
            Some(p) => p,
            None => vstd::pervasive::unreached(),
        }
    }

    /// Temporarily take the port out for exclusive use (e.g., for flashing); it must
    /// be given back with `put_port` before any other operation.
    pub fn take_port(&mut self) -> (r: P)
        requires
            old(self).port() is Some,
        ensures
            r == old(self).port()->0,
            final(self).port() is None,
            final(self).ui_pending() == old(self).ui_pending(),
            final(self).net_pending() == old(self).net_pending(),
    {
        match self.port.take() {
            Some(p) => p,
            None => vstd::pervasive::unreached(),
        }
    }

    /// Return a previously taken port.
    pub fn put_port(&mut self, port: P)
        requires
            old(self).port() is None,
        ensures
            final(self).port() == Some(port),
            final(self).ui_pending() == old(self).ui_pending(),
            final(self).net_pending() == old(self).net_pending(),
    {
        self.port = Some(port);
    }

    /// Read a TLV from the port: skip bytes until the sync word `LINK` has been seen,
    /// then read the header and the value. `Ok(None)` when the port had nothing (no
    /// byte, or a timeout) while looking for the sync word.
    pub fn read_tlv<T: TlvType>(&mut self) -> (r: Result<Option<Tlv<T>>, CtlError>)
        requires
            old(self).port() is Some,
        ensures
            final(self).port() is Some,
            final(self).ui_pending() == old(self).ui_pending(),
            final(self).net_pending() == old(self).net_pending(),
            ({
                let inc = old(self).port()->0.incoming();
                &&& r matches Ok(Some(tlv)) ==> (sync_scan(0, inc) matches Some(k) && {
                    let rest = inc.skip(k as int);
                    let h = rest.take(HEADER_SIZE as int);
                    let len = header_length(h) as int;
                    &&& rest.len() >= HEADER_SIZE + len
                    &&& Some::<T>(tlv.tlv_type) == T::from_code(header_code(h))
                    &&& len <= MAX_VALUE_SIZE
                    &&& value_bytes(tlv.value) == rest.subrange(HEADER_SIZE as int, HEADER_SIZE + len)
                    &&& final(self).port()->0.incoming() == rest.skip(HEADER_SIZE + len)
                    &&& final(self).port()->0.outgoing() == old(self).port()->0.outgoing()
                })
                &&& r matches Err(CtlError::InvalidType(t)) ==> (sync_scan(0, inc) matches Some(k) && {
                    let rest = inc.skip(k as int);
                    rest.len() >= HEADER_SIZE && t == header_code(rest.take(HEADER_SIZE as int)) && T::from_code(t)
                        is None
                })
                &&& r matches Err(CtlError::TooLong) ==> (sync_scan(0, inc) matches Some(k) && {
                    let rest = inc.skip(k as int);
                    let h = rest.take(HEADER_SIZE as int);
                    rest.len() >= HEADER_SIZE && T::from_code(header_code(h)) is Some && header_length(h)
                        > MAX_VALUE_SIZE
                })
                &&& r matches Err(e) ==> (e is Port || e is InvalidType || e is TooLong)
            }),
            old(self).port()->0.healthy() ==> final(self).port()->0.healthy() && tlv_read_verdict(r, old(self).port()->0.incoming()),
    {
        let ghost inc0 = self.port()->0.incoming();
        let ghost out0 = self.port()->0.outgoing();
        let ghost mut k: nat = 0;
        let mut matched: usize = 0;
        let mut buf: [u8; 1] = [0u8];
        let sync: [u8; 4] = SYNC_WORD;
        assert(sync@ =~= sync_word());
        assert(inc0.skip(0) =~= inc0);
        while matched < 4
            invariant
                matched <= 4,
                sync@ == sync_word(),
                self.port() is Some,
                self.ui_pending() == old(self).ui_pending(),
                self.net_pending() == old(self).net_pending(),
                inc0 == old(self).port()->0.incoming(),
                out0 == old(self).port()->0.outgoing(),
                k <= inc0.len(),
                self.port()->0.incoming() == inc0.skip(k as int),
                self.port()->0.outgoing() == out0,
                old(self).port()->0.healthy() ==> self.port()->0.healthy(),
                sync_scan(0, inc0) == scan_plus(sync_scan(matched as nat, inc0.skip(k as int)), k),
            decreases inc0.len() - k, 4 - matched,
        {
            let ghost cur = inc0.skip(k as int);
            let n = match self.port_mut().read(&mut buf) {
                Ok(n) => n,
                Err(e) => {
                    if P::is_timeout(&e) {
                        return Ok(None);
                    }
                    return Err(CtlError::Port(P::error_string(&e)));
                },
            };
            if n == 0 {
                proof {
                    if old(self).port()->0.healthy() {
                        assert(cur.len() == 0);
                        assert(sync_scan(matched as nat, cur) is None);
                    }
                }
                return Ok(None);
            }
            let b = buf[0];
            proof {
                assert(b == cur[0]);
                assert(cur.drop_first() =~= inc0.skip((k + 1) as int));
                k = k + 1;
            }
            if b == sync[matched] {
                matched = matched + 1;
            } else {
                matched = 0;
                if b == sync[0] {
                    matched = 1;
                }
            }
        }
        let ghost rest = inc0.skip(k as int);
        proof {
            assert(sync_scan(0, inc0) == Some(k));
        }
        let mut header: [u8; HEADER_SIZE] = [0u8; HEADER_SIZE];
        match self.port_mut().read_exact(&mut header) {
            Ok(()) => {},
            Err(e) => {
                return Err(CtlError::Port(P::error_string(&e)));
            },
        }
        let ghost h = header@;
        assert(h == rest.take(HEADER_SIZE as int));
        let (tlv_type, length) = match decode_header::<T>(&header) {
            Ok(v) => v,
            Err(err) => {
                return Err(CtlError::InvalidType(err.number));
            },
        };
        if length > MAX_VALUE_SIZE {
            return Err(CtlError::TooLong);
        }
        let mut value_buf = vec![0u8; length];
        match self.port_mut().read_exact(value_buf.as_mut_slice()) {
            Ok(()) => {},
            Err(e) => {
                return Err(CtlError::Port(P::error_string(&e)));
            },
        }
        let value = match value_from_slice(value_buf.as_slice()) {
            Ok(v) => v,
            Err(_) => {
                return Err(CtlError::TooLong);
            },
        };
        proof {
            let after = rest.skip(HEADER_SIZE as int);
            assert(value_buf@ == after.take(length as int));
            assert(value_buf@ =~= rest.subrange(HEADER_SIZE as int, HEADER_SIZE + length));
            assert(after.skip(length as int) =~= rest.skip(HEADER_SIZE + length));
        }
        Ok(Some(Tlv { tlv_type, value }))
    }

    /// Write a TLV to the port, preceded by the sync word, then flush.
    pub fn write_tlv<T: TlvType>(&mut self, tlv_type: T, value: &[u8]) -> (r: Result<(), CtlError>)
        requires
            old(self).port() is Some,
        ensures
            final(self).port() is Some,
            final(self).ui_pending() == old(self).ui_pending(),
            final(self).net_pending() == old(self).net_pending(),
            r is Ok ==> final(self).port()->0.outgoing() == old(self).port()->0.outgoing() + sync_word()
                + tlv_bytes(tlv_type.code(), value@) && final(self).port()->0.incoming() == old(
                self,
            ).port()->0.incoming(),
            r matches Err(e) ==> e is Port,
            r is Ok ==> final(self).port()->0.flushed(),
            old(self).port()->0.healthy() ==> r is Ok && final(self).port()->0.healthy(),
    {
        let header = encode_header(tlv_type, value.len());
        let mut buf: Vec<u8> = Vec::new();
        let sync: [u8; 4] = SYNC_WORD;
        let mut i: usize = 0;
        while i < 4
            invariant
                i <= 4,
                buf@ == sync@.take(i as int),
            decreases 4 - i,
        {
            buf.push(sync[i]);
            assert(sync@.take(i + 1) =~= sync@.take(i as int).push(sync@[i as int]));
            i = i + 1;
        }
        let mut j: usize = 0;
        while j < HEADER_SIZE
            invariant
                j <= HEADER_SIZE,
                buf@ == sync@ + header@.take(j as int),
            decreases HEADER_SIZE - j,
        {
            buf.push(header[j]);
            assert(header@.take(j + 1) =~= header@.take(j as int).push(header@[j as int]));
            j = j + 1;
        }
        let mut t: usize = 0;
        while t < value.len()
            invariant
                t <= value@.len(),
                buf@ == sync@ + header@ + value@.take(t as int),
            decreases value@.len() - t,
        {
            buf.push(value[t]);
            assert(value@.take(t + 1) =~= value@.take(t as int).push(value@[t as int]));
            t = t + 1;
        }
        assert(sync@ =~= sync_word());
        assert(header@.take(HEADER_SIZE as int) =~= header@);
        assert(value@.take(value@.len() as int) =~= value@);
        assert(buf@ =~= sync_word() + tlv_bytes(tlv_type.code(), value@));
        match self.port_mut().write_all(buf.as_slice()) {
            Ok(()) => {},
            Err(e) => {
                return Err(CtlError::Port(P::error_string(&e)));
            },
        }
        match self.port_mut().flush() {
            Ok(()) => Ok(()),
            Err(e) => Err(CtlError::Port(P::error_string(&e))),
        }
    }

    /// Drop pending data: the tunnel buffers and the port's unread input.
    pub fn drain(&mut self)
        requires
            old(self).port() is Some,
        ensures
            final(self).port() is Some,
            final(self).ui_pending() == Seq::<u8>::empty(),
            final(self).net_pending() == Seq::<u8>::empty(),
            final(self).port()->0.outgoing() == old(self).port()->0.outgoing(),
            final(self).port()->0.flushed() == old(self).port()->0.flushed(),
            old(self).port()->0.healthy() ==> final(self).port()->0.healthy(),
            old(self).port()->0.pending() <= old(self).port()->0.incoming().len()
                ==> final(self).port()->0.incoming() == old(self).port()->0.incoming().skip(
                old(self).port()->0.pending() as int,
            ),
            exists|k: int|
                0 <= k <= old(self).port()->0.incoming().len() && final(self).port()->0.incoming()
                    == old(self).port()->0.incoming().skip(k),
    {
        self.ui_buffer.clear();
        self.net_buffer.clear();
        self.port_mut().clear_buffer();
    }
}

/// Upper-case hex digit of a nibble.
pub open spec fn hex_digit(n: u8) -> char {
    if n < 10 {
        (0x30 + n) as char
    } else {
        (0x41 + n - 10) as char
    }
}

/// How one byte is shown: an ASCII byte as itself, any other byte as `\xHH`.
pub open spec fn escape_byte_text(b: u8) -> Seq<char> {
    if b < 0x80 {
        seq![b as char]
    } else {
        seq!['\\', 'x', hex_digit(b >> 4u8), hex_digit(b & 0x0Fu8)]
    }
}

/// How a byte string is shown.
pub open spec fn escape_text(bytes: Seq<u8>) -> Seq<char>
    decreases bytes.len(),
{
    if bytes.len() == 0 {
        Seq::empty()
    } else {
        escape_text(bytes.drop_last()) + escape_byte_text(bytes.last())
    }
}

/// `String::push`: appends one character.
#[verifier::external_body]
fn string_push(s: &mut String, c: char)
    ensures
        final(s)@ == old(s)@.push(c),
{
    s.push(c)
}

/// The character of an ASCII byte.
fn ascii_char(b: u8) -> (c: char)
    requires
        b < 0x80,
    ensures
        c == b as char,
{
    b as char
}

/// Upper-case hex digit of a nibble.
fn hex_digit_char(n: u8) -> (c: char)
    requires
        n < 16,
    ensures
        c == hex_digit(n),
{
    if n < 10 {
        ascii_char(0x30 + n)
    } else {
        ascii_char(0x41 + n - 10)
    }
}

/// Show bytes as text: ASCII passes through, every non-ASCII byte becomes `\xHH`
/// (upper-case hex).
pub fn escape_non_ascii(bytes: &[u8]) -> (r: String)
    ensures
        r@ == escape_text(bytes@),
{
    let mut out = String::new();
    let mut i: usize = 0;
    while i < bytes.len()
        invariant
            i <= bytes@.len(),
            out@ == escape_text(bytes@.take(i as int)),
        decreases bytes@.len() - i,
    {
        let b = bytes[i];
        assert(bytes@.take(i + 1).drop_last() =~= bytes@.take(i as int));
        let ghost before = out@;
        if b < 0x80 {
            string_push(&mut out, ascii_char(b));
        } else {
            string_push(&mut out, '\\');
            string_push(&mut out, 'x');
            let hi = b >> 4u8;
            let lo = b & 0x0Fu8;
            assert(hi < 16) by (bit_vector)
                requires
                    hi == b >> 4u8,
            ;
            assert(lo < 16) by (bit_vector)
                requires
                    lo == b & 0x0Fu8,
            ;
            string_push(&mut out, hex_digit_char(hi));
            string_push(&mut out, hex_digit_char(lo));
        }
        assert(out@ =~= before + escape_byte_text(b));
        i = i + 1;
    }
    assert(bytes@.take(bytes@.len() as int) =~= bytes@);
    out
}

} // verus!
