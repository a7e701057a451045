//! SLIP framing (RFC 1055) as used by the ESP32 ROM bootloader.
//!
//! A frame is `END`, the escaped payload, `END`; inside the payload `END` is
//! sent as `ESC ESC_END` and `ESC` as `ESC ESC_ESC`.
use vstd::prelude::*;

verus! {

/// Frame delimiter.
pub const SLIP_END: u8 = 0xC0;

/// Escape byte.
pub const SLIP_ESC: u8 = 0xDB;

/// Escaped `END` (follows `ESC`).
pub const SLIP_ESC_END: u8 = 0xDC;

/// Escaped `ESC` (follows `ESC`).
pub const SLIP_ESC_ESC: u8 = 0xDD;

/// The bytes that stand for one payload byte.
pub open spec fn escape_byte(b: u8) -> Seq<u8> {
    if b == SLIP_END {
        seq![SLIP_ESC, SLIP_ESC_END]
    } else if b == SLIP_ESC {
        seq![SLIP_ESC, SLIP_ESC_ESC]
    } else {
        seq![b]
    }
}

/// The escaped form of a payload.
pub open spec fn escape(data: Seq<u8>) -> Seq<u8>
    decreases data.len(),
{
    if data.len() == 0 {
        Seq::empty()
    } else {
        escape(data.drop_last()) + escape_byte(data.last())
    }
}

/// A complete frame for a payload.
pub open spec fn frame(data: Seq<u8>) -> Seq<u8> {
    seq![SLIP_END] + escape(data) + seq![SLIP_END]
}

/// An escaped payload never holds the delimiter.
pub proof fn lemma_escape_has_no_end(data: Seq<u8>)
    ensures
        forall|i: int| 0 <= i < escape(data).len() ==> escape(data)[i] != SLIP_END,
    decreases data.len(),
{
    if data.len() > 0 {
        lemma_escape_has_no_end(data.drop_last());
        let p = escape(data.drop_last());
        let e = escape_byte(data.last());
        assert forall|i: int| 0 <= i < escape(data).len() implies escape(data)[i] != SLIP_END by {
            if i < p.len() {
                assert(escape(data)[i] == p[i]);
            } else {
                assert(escape(data)[i] == e[i - p.len()]);
            }
        }
    }
}

/// The length of an escaped payload: one byte each, two for `END` and `ESC`.
pub proof fn lemma_escape_len(data: Seq<u8>)
    ensures
        data.len() <= escape(data).len() <= 2 * data.len(),
    decreases data.len(),
{
    if data.len() > 0 {
        lemma_escape_len(data.drop_last());
    }
}

/// Append the escaped form of `data` to `out`.
pub fn escape_into(data: &[u8], out: &mut Vec<u8>)
    ensures
        final(out)@ == old(out)@ + escape(data@),
{
    let mut i: usize = 0;
    while i < data.len()
        invariant
            i <= data@.len(),
            out@ == old(out)@ + escape(data@.take(i as int)),
        decreases data@.len() - i,
    {
        let b = data[i];
        assert(data@.take(i + 1).drop_last() =~= data@.take(i as int));
        if b == SLIP_END {
            out.push(SLIP_ESC);
            out.push(SLIP_ESC_END);
        } else if b == SLIP_ESC {
            out.push(SLIP_ESC);
            out.push(SLIP_ESC_ESC);
        } else {
            out.push(b);
        }
        assert(out@ =~= old(out)@ + escape(data@.take(i + 1)));
        i = i + 1;
    }
    assert(data@.take(data@.len() as int) =~= data@);
}

/// Encode a payload as one complete frame.
pub fn encode(data: &[u8]) -> (r: Vec<u8>)
    ensures
        r@ == frame(data@),
{
    let mut out: Vec<u8> = Vec::new();
    out.push(SLIP_END);
    escape_into(data, &mut out);
    out.push(SLIP_END);
    assert(out@ =~= frame(data@));
    out
}

/// Incremental SLIP decoder: bytes outside a frame are ignored, an empty frame
/// restarts the frame, and an unknown escape keeps both bytes.
#[derive(Debug)]
pub struct SlipDecoder {
    buffer: Vec<u8>,
    in_escape: bool,
    in_frame: bool,
}

/// The abstract state of a decoder: the payload so far and the two flags.
pub struct DecoderModel {
    pub buffer: Seq<u8>,
    pub in_escape: bool,
    pub in_frame: bool,
}

/// One decoder step on one byte: the next state and, at the end of a frame, its payload.
pub open spec fn decode_step(s: DecoderModel, b: u8) -> (DecoderModel, Option<Seq<u8>>) {
    if b == SLIP_END {
        if s.in_frame && s.buffer.len() > 0 {
            (DecoderModel { buffer: Seq::empty(), in_escape: false, in_frame: false }, Some(s.buffer))
        } else {
            (DecoderModel { buffer: Seq::empty(), in_escape: s.in_escape, in_frame: true }, None)
        }
    } else if !s.in_frame {
        (s, None)
    } else if b == SLIP_ESC {
        (DecoderModel { in_escape: true, ..s }, None)
    } else if b == SLIP_ESC_END && s.in_escape {
        (DecoderModel { buffer: s.buffer.push(SLIP_END), in_escape: false, ..s }, None)
    } else if b == SLIP_ESC_ESC && s.in_escape {
        (DecoderModel { buffer: s.buffer.push(SLIP_ESC), in_escape: false, ..s }, None)
    } else if s.in_escape {
        (DecoderModel { buffer: s.buffer.push(SLIP_ESC).push(b), in_escape: false, ..s }, None)
    } else {
        (DecoderModel { buffer: s.buffer.push(b), ..s }, None)
    }
}

/// Feed bytes to a decoder until a frame completes.
pub open spec fn decode_run(s: DecoderModel, bytes: Seq<u8>) -> (DecoderModel, Option<Seq<u8>>)
    decreases bytes.len(),
{
    if bytes.len() == 0 {
        (s, None)
    } else {
        let (s2, o) = decode_step(s, bytes[0]);
        if o is Some {
            (s2, o)
        } else {
            decode_run(s2, bytes.drop_first())
        }
    }
}

/// The state of a fresh decoder.
pub open spec fn decoder_start() -> DecoderModel {
    DecoderModel { buffer: Seq::empty(), in_escape: false, in_frame: false }
}

impl SlipDecoder {
    /// The abstract state.
    pub closed spec fn model(&self) -> DecoderModel {
        DecoderModel { buffer: self.buffer@, in_escape: self.in_escape, in_frame: self.in_frame }
    }

    /// A decoder waiting for the start of a frame.
    pub fn new() -> (d: Self)
        ensures
            d.model() == decoder_start(),
    {
        SlipDecoder { buffer: Vec::new(), in_escape: false, in_frame: false }
    }

    /// Feed one received byte; at the end of a frame its payload is appended to `output`
    /// and `true` is returned.
    pub fn feed(&mut self, byte: u8, output: &mut Vec<u8>) -> (done: bool)
        ensures
            ({
                let (s2, o) = decode_step(old(self).model(), byte);
                &&& final(self).model() == s2
                &&& done ==> final(self).model() == decoder_start()
                &&& done == o is Some
                &&& final(output)@ == old(output)@ + (match o {
                    Some(p) => p,
                    None => Seq::empty(),
                })
            }),
    {
        if byte == SLIP_END {
            if self.in_frame && self.buffer.len() > 0 {
                let mut i: usize = 0;
                while i < self.buffer.len()
                    invariant
                        i <= self.buffer@.len(),
                        output@ == old(output)@ + self.buffer@.take(i as int),
                    decreases self.buffer@.len() - i,
                {
                    output.push(self.buffer[i]);
                    assert(self.buffer@.take(i + 1) =~= self.buffer@.take(i as int).push(self.buffer@[i as int]));
                    i = i + 1;
                }
                assert(self.buffer@.take(self.buffer@.len() as int) =~= self.buffer@);
                self.buffer.clear();
                self.in_frame = false;
                self.in_escape = false;
                assert(self.buffer@ =~= Seq::<u8>::empty());
                return true;
            } else {
                self.in_frame = true;
                self.buffer.clear();
                assert(self.buffer@ =~= Seq::<u8>::empty());
            }
        } else if !self.in_frame {
        } else if byte == SLIP_ESC {
            self.in_escape = true;
        } else if byte == SLIP_ESC_END && self.in_escape {
            self.buffer.push(SLIP_END);
            self.in_escape = false;
        } else if byte == SLIP_ESC_ESC && self.in_escape {
            self.buffer.push(SLIP_ESC);
            self.in_escape = false;
        } else {
            if self.in_escape {
                self.buffer.push(SLIP_ESC);
                self.in_escape = false;
            }
            self.buffer.push(byte);
        }
        assert(old(output)@ + Seq::<u8>::empty() =~= old(output)@);
        false
    }
}

/// Decoding the escaped form of a payload, inside a frame, collects exactly that payload.
proof fn lemma_decode_escaped(prefix: Seq<u8>, data: Seq<u8>)
    ensures
        decode_run(DecoderModel { buffer: prefix, in_escape: false, in_frame: true }, escape(data))
            == (DecoderModel { buffer: prefix + data, in_escape: false, in_frame: true }, None::<Seq<u8>>),
    decreases data.len(),
{
    if data.len() == 0 {
        assert(prefix + data =~= prefix);
    } else {
        let init = data.drop_last();
        let b = data.last();
        lemma_decode_escaped(prefix, init);
        let mid = DecoderModel { buffer: prefix + init, in_escape: false, in_frame: true };
        lemma_decode_run_append(DecoderModel { buffer: prefix, in_escape: false, in_frame: true }, escape(init), escape_byte(b));
        assert((prefix + init).push(b) =~= prefix + data);
        if b == SLIP_END || b == SLIP_ESC {
            let e = escape_byte(b);
            assert(e.drop_first() =~= seq![e[1]]);
            assert(e.drop_first().drop_first() =~= Seq::<u8>::empty());
            reveal_with_fuel(decode_run, 3);
        } else {
            let e = escape_byte(b);
            assert(e.drop_first() =~= Seq::<u8>::empty());
            reveal_with_fuel(decode_run, 2);
        }
    }
}

/// Running a decoder over `a + b` is running it over `a`, then, if no frame ended, over `b`.
pub proof fn lemma_decode_run_append(s: DecoderModel, a: Seq<u8>, b: Seq<u8>)
    ensures
        decode_run(s, a + b) == (if decode_run(s, a).1 is Some {
            decode_run(s, a)
        } else {
            decode_run(decode_run(s, a).0, b)
        }),
    decreases a.len(),
{
    if a.len() == 0 {
        assert(a + b =~= b);
    } else {
        let (s2, o) = decode_step(s, a[0]);
        assert((a + b)[0] == a[0]);
        assert((a + b).drop_first() =~= a.drop_first() + b);
        if o is None {
            lemma_decode_run_append(s2, a.drop_first(), b);
        }
    }
}

/// A decoder step that ends a frame leaves the decoder as a fresh one: nothing
/// collected, no escape pending, waiting for a frame.
pub proof fn lemma_frame_end_restarts(s: DecoderModel, b: u8)
    ensures
        decode_step(s, b).1 is Some ==> decode_step(s, b).0 == decoder_start(),
{
}

/// A fresh decoder that receives the frame of a non-empty payload gives back that
/// payload, and is then a fresh decoder again.
pub proof fn lemma_frame_roundtrip(data: Seq<u8>)
    requires
        data.len() > 0,
    ensures
        decode_run(decoder_start(), frame(data)).1 == Some(data),
        decode_run(decoder_start(), frame(data)).0 == decoder_start(),
{
    let inside = DecoderModel { buffer: Seq::empty(), in_escape: false, in_frame: true };
    assert(frame(data) =~= seq![SLIP_END] + (escape(data) + seq![SLIP_END]));
    lemma_decode_run_append(decoder_start(), seq![SLIP_END], escape(data) + seq![SLIP_END]);
    assert(seq![SLIP_END].drop_first() =~= Seq::<u8>::empty());
    reveal_with_fuel(decode_run, 2);
    assert(decode_run(decoder_start(), seq![SLIP_END]) == (inside, None::<Seq<u8>>));
    lemma_decode_run_append(inside, escape(data), seq![SLIP_END]);
    lemma_decode_escaped(Seq::empty(), data);
    assert(Seq::<u8>::empty() + data =~= data);
    let full = DecoderModel { buffer: data, in_escape: false, in_frame: true };
    assert(decode_run(full, seq![SLIP_END]).1 == Some(data));
}

/// A decoder run that ends a frame leaves a fresh decoder.
pub proof fn lemma_run_end_restarts(s: DecoderModel, bytes: Seq<u8>)
    ensures
        decode_run(s, bytes).1 is Some ==> decode_run(s, bytes).0 == decoder_start(),
    decreases bytes.len(),
{
    if bytes.len() > 0 {
        let (s2, o) = decode_step(s, bytes[0]);
        lemma_frame_end_restarts(s, bytes[0]);
        if o is None {
            lemma_run_end_restarts(s2, bytes.drop_first());
        }
    }
}

/// One decoder fed two frames back to back gives the first payload, then the
/// second, and is a fresh decoder after each.
pub proof fn lemma_consecutive_frames(p1: Seq<u8>, p2: Seq<u8>)
    requires
        p1.len() > 0,
        p2.len() > 0,
    ensures
        decode_run(decoder_start(), frame(p1) + frame(p2)) == (decoder_start(), Some(p1)),
        decode_run(decode_run(decoder_start(), frame(p1)).0, frame(p2)) == (decoder_start(), Some(p2)),
{
    lemma_frame_roundtrip(p1);
    lemma_frame_roundtrip(p2);
    lemma_decode_run_append(decoder_start(), frame(p1), frame(p2));
}

} // verus!
