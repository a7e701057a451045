//! STM32 USART bootloader protocol (AN3155), host side.
//!
//! Every command is sent as its code followed by the code's complement; the
//! bootloader answers each step with an ACK (0x79) or a NACK (0x1F).
//! Contracts speak of the writer's `outgoing` bytes and of the reader's
//! `incoming` bytes (see `CtlPort`).
use vstd::prelude::*;

use crate::port::{is_suffix, lemma_suffix_trans, CtlPort};
use crate::tlv::be32;

verus! {

/// ACK byte sent by the bootloader to acknowledge a command.
pub const ACK: u8 = 0x79;

/// NACK byte sent by the bootloader to reject a command.
pub const NACK: u8 = 0x1F;

/// Initialization byte that starts communication and triggers auto-baud detection.
pub const INIT: u8 = 0x7F;

/// Bootloader command codes.
#[derive(Debug, Clone, Copy, PartialEq, Eq, Structural)]
pub enum Command {
    /// Get the bootloader version and supported commands.
    Get,
    /// Get the bootloader protocol version.
    GetVersion,
    /// Get the chip ID.
    GetId,
    /// Read memory starting at an address.
    ReadMemory,
    /// Jump to an address and execute code.
    Go,
    /// Write memory starting at an address.
    WriteMemory,
    /// Erase flash memory pages (legacy, single-byte page numbers).
    Erase,
    /// Erase flash memory pages (extended, two-byte page numbers).
    ExtendedErase,
    /// Enable write protection for sectors.
    WriteProtect,
    /// Disable write protection for all sectors.
    WriteUnprotect,
    /// Enable read protection.
    ReadoutProtect,
    /// Disable read protection.
    ReadoutUnprotect,
}

impl Command {
    /// The command's code on the wire.
    pub open spec fn byte(self) -> u8 {
        match self {
            Command::Get => 0x00,
            Command::GetVersion => 0x01,
            Command::GetId => 0x02,
            Command::ReadMemory => 0x11,
            Command::Go => 0x21,
            Command::WriteMemory => 0x31,
            Command::Erase => 0x43,
            Command::ExtendedErase => 0x44,
            Command::WriteProtect => 0x63,
            Command::WriteUnprotect => 0x73,
            Command::ReadoutProtect => 0x82,
            Command::ReadoutUnprotect => 0x92,
        }
    }

    /// The command's code on the wire.
    pub fn as_u8(self) -> (r: u8)
        ensures
            r == self.byte(),
    {
        match self {
            Command::Get => 0x00,
            Command::GetVersion => 0x01,
            Command::GetId => 0x02,
            Command::ReadMemory => 0x11,
            Command::Go => 0x21,
            Command::WriteMemory => 0x31,
            Command::Erase => 0x43,
            Command::ExtendedErase => 0x44,
            Command::WriteProtect => 0x63,
            Command::WriteUnprotect => 0x73,
            Command::ReadoutProtect => 0x82,
            Command::ReadoutUnprotect => 0x92,
        }
    }
}

/// Errors that can occur during bootloader communication.
#[derive(Debug)]
pub enum Error<E> {
    /// The bootloader sent a NACK response.
    Nack,
    /// An unexpected response was received.
    UnexpectedResponse(u8),
    /// An I/O error occurred.
    Io(E),
    /// Unexpected end of stream while reading.
    UnexpectedEof,
    /// The provided buffer is too small.
    BufferTooSmall,
    /// The data length exceeds the maximum allowed (256 bytes).
    DataTooLarge,
    /// Invalid page count for erase operation.
    InvalidPageCount,
}

impl<E> Error<E> {
    /// Whether this error came from the port rather than from the protocol.
    pub open spec fn is_port_error(&self) -> bool {
        self is Io || self is UnexpectedEof
    }
}

/// Response from the Get command containing bootloader version and supported commands.
#[derive(Debug, Clone, Copy)]
pub struct GetResponse {
    /// Bootloader protocol version (e.g., 0x31 = v3.1).
    pub version: u8,
    /// List of supported command codes.
    pub commands: [u8; 16],
    /// Number of valid commands in the `commands` array.
    pub command_count: usize,
}

/// Response from the Get Version command.
#[derive(Debug, Clone, Copy)]
pub struct VersionResponse {
    /// Bootloader protocol version.
    pub version: u8,
    /// Option byte 1 (legacy, always 0x00).
    pub option1: u8,
    /// Option byte 2 (legacy, always 0x00).
    pub option2: u8,
}

/// Special erase codes for the Extended Erase command.
#[derive(Debug, Clone, Copy, PartialEq, Eq, Structural)]
pub enum SpecialErase {
    /// Erase all flash memory (mass erase).
    MassErase,
    /// Erase bank 1 only.
    Bank1Erase,
    /// Erase bank 2 only.
    Bank2Erase,
}

impl SpecialErase {
    /// The special erase code.
    pub open spec fn value(self) -> u16 {
        match self {
            SpecialErase::MassErase => 0xFFFF,
            SpecialErase::Bank1Erase => 0xFFFE,
            SpecialErase::Bank2Erase => 0xFFFD,
        }
    }

    /// The special erase code.
    pub fn code(self) -> (r: u16)
        ensures
            r == self.value(),
    {
        match self {
            SpecialErase::MassErase => 0xFFFF,
            SpecialErase::Bank1Erase => 0xFFFE,
            SpecialErase::Bank2Erase => 0xFFFD,
        }
    }
}

/// XOR of `seed` and every byte of `s`.
pub open spec fn xor_fold(seed: u8, s: Seq<u8>) -> u8
    decreases s.len(),
{
    if s.len() == 0 {
        seed
    } else {
        xor_fold(seed, s.drop_last()) ^ s.last()
    }
}

/// A command on the wire: its code, then the code's complement.
pub open spec fn command_frame(c: Command) -> Seq<u8> {
    seq![c.byte(), !c.byte()]
}

/// An address on the wire: four big-endian bytes and their XOR.
pub open spec fn address_frame(address: u32) -> Seq<u8> {
    be32(address) + seq![xor_fold(0, be32(address))]
}

/// A byte list on the wire: its length minus one (truncated to a byte), the bytes, and
/// the XOR of all of these.
pub open spec fn list_frame(bytes: Seq<u8>) -> Seq<u8> {
    let n = (bytes.len() - 1) as u8;
    seq![n] + bytes + seq![xor_fold(n, bytes)]
}

/// Big-endian bytes of each 16-bit page number, in order.
pub open spec fn pages_be(pages: Seq<u16>) -> Seq<u8>
    decreases pages.len(),
{
    if pages.len() == 0 {
        Seq::empty()
    } else {
        pages_be(pages.drop_last()) + seq![(pages.last() >> 8u16) as u8, (pages.last() & 0xFFu16) as u8]
    }
}

/// An Extended Erase page list on the wire: the count minus one (16 bits, big-endian),
/// the page numbers (big-endian), and the XOR of all of these.
pub open spec fn extended_list_frame(pages: Seq<u16>) -> Seq<u8> {
    let n = (pages.len() - 1) as u16;
    let hdr = seq![(n >> 8u16) as u8, (n & 0xFFu16) as u8];
    hdr + pages_be(pages) + seq![xor_fold(0, hdr + pages_be(pages))]
}

/// A special erase code on the wire: both bytes and their XOR.
pub open spec fn special_erase_frame(s: SpecialErase) -> Seq<u8> {
    let msb = (s.value() >> 8u16) as u8;
    let lsb = (s.value() & 0xFFu16) as u8;
    seq![msb, lsb, msb ^ lsb]
}

/// What a command sends after an answer: `frame` when the answer at `pos` of `inc`
/// is an ACK (the command goes on), else nothing (it stops there).
pub open spec fn after_ack(inc: Seq<u8>, pos: int, frame: Seq<u8>) -> Seq<u8> {
    if 0 <= pos < inc.len() && inc[pos] == ACK {
        frame
    } else {
        Seq::empty()
    }
}

/// What the Erase command sends after its command is acknowledged: `FF 00` for a
/// global erase, the framed page list, or nothing when the list is refused.
pub open spec fn erase_payload(pages: Option<Seq<u8>>) -> Seq<u8> {
    match pages {
        None => seq![0xFFu8, 0x00u8],
        Some(p) => if p.len() == 0 || p.len() > 256 {
            Seq::empty()
        } else {
            list_frame(p)
        },
    }
}

/// What the Extended Erase command sends after its command is acknowledged: the
/// special code, the framed page list, or nothing when there is neither.
pub open spec fn extended_erase_payload(pages: Option<Seq<u16>>, special: Option<SpecialErase>) -> Seq<u8> {
    match special {
        Some(s) => special_erase_frame(s),
        None => match pages {
            Some(p) => if p.len() == 0 {
                Seq::empty()
            } else {
                extended_list_frame(p)
            },
            None => Seq::empty(),
        },
    }
}

/// Whatever is a suffix of `t` with its first `k` bytes taken is a suffix of `t`.
proof fn lemma_suffix_after(t: Seq<u8>, k: int)
    requires
        0 <= k <= t.len(),
    ensures
        is_suffix(t.skip(k), t),
        forall|x: Seq<u8>| #[trigger] is_suffix(x, t.skip(k)) ==> is_suffix(x, t),
{
    assert(is_suffix(t.skip(k), t));
    assert forall|x: Seq<u8>| #[trigger] is_suffix(x, t.skip(k)) implies is_suffix(x, t) by {
        lemma_suffix_trans(x, t.skip(k), t);
    }
}

/// The protocol error that a response byte stands for, if it is not an ACK.
pub open spec fn ack_failure<E>(b: u8) -> Option<Error<E>> {
    if b == ACK {
        None
    } else if b == NACK {
        Some(Error::Nack)
    } else {
        Some(Error::UnexpectedResponse(b))
    }
}

/// The first protocol error among the ACKs expected at `positions` of `inc`,
/// in order; none when every expected ACK that the stream holds is an ACK.
pub open spec fn first_ack_failure<E>(inc: Seq<u8>, positions: Seq<int>) -> Option<Error<E>>
    decreases positions.len(),
{
    if positions.len() == 0 || positions[0] < 0 || positions[0] >= inc.len() {
        None
    } else if ack_failure::<E>(inc[positions[0]]) is Some {
        ack_failure::<E>(inc[positions[0]])
    } else {
        first_ack_failure::<E>(inc, positions.drop_first())
    }
}

/// Whether every position holds an ACK.
pub open spec fn all_acked(inc: Seq<u8>, positions: Seq<int>) -> bool {
    forall|i: int| 0 <= i < positions.len() ==> 0 <= #[trigger] positions[i] < inc.len() && inc[positions[i]] == ACK
}

/// What a protocol error says of the response bytes: it is the first failing ACK.
pub open spec fn protocol_error_matches<E>(r: Error<E>, inc: Seq<u8>, positions: Seq<int>) -> bool {
    (r is Nack || r is UnexpectedResponse) ==> first_ack_failure::<E>(inc, positions) == Some(r)
}

/// STM32 bootloader client over a reader and a writer.
pub struct Bootloader<R, W> {
    reader: R,
    writer: W,
}

impl<R, W> Bootloader<R, W> {
    /// The reader half.
    pub closed spec fn reader(&self) -> R {
        self.reader
    }

    /// The writer half.
    pub closed spec fn writer(&self) -> W {
        self.writer
    }

    /// Create a new bootloader client from reader and writer halves.
    pub fn new(reader: R, writer: W) -> (b: Self)
        ensures
            b.reader() == reader,
            b.writer() == writer,
    {
        Bootloader { reader, writer }
    }

    /// Consume the bootloader client and return the reader and writer.
    pub fn into_inner(self) -> (r: (R, W))
        ensures
            r.0 == self.reader(),
            r.1 == self.writer(),
    {
        (self.reader, self.writer)
    }
}

impl<R: CtlPort, W: CtlPort<Error = R::Error>> Bootloader<R, W> {
    /// Both halves work: every read and write succeeds, reads deliver what is coming.
    pub open spec fn ports_healthy(&self) -> bool {
        self.reader().healthy() && self.writer().healthy()
    }

    fn read_error(e: R::Error) -> (r: Error<R::Error>)
        ensures
            r.is_port_error(),
            R::eof_error(&e) ==> r is UnexpectedEof,
    {
        if R::is_eof(&e) {
            Error::UnexpectedEof
        } else {
            Error::Io(e)
        }
    }

    fn write_error(e: R::Error) -> (r: Error<R::Error>)
        ensures
            r.is_port_error(),
    {
        if W::is_eof(&e) {
            Error::UnexpectedEof
        } else {
            Error::Io(e)
        }
    }

    fn write_bytes(&mut self, bytes: &[u8]) -> (r: Result<(), Error<R::Error>>)
        ensures
            final(self).reader() == old(self).reader(),
            r is Ok ==> final(self).writer().outgoing() == old(self).writer().outgoing() + bytes@,
            r matches Err(e) ==> e.is_port_error(),
            old(self).writer().healthy() ==> r is Ok && final(self).writer().healthy(),
    {
        match self.writer.write_all(bytes) {
            Ok(()) => Ok(()),
            Err(e) => Err(Self::write_error(e)),
        }
    }

    fn write_byte(&mut self, byte: u8) -> (r: Result<(), Error<R::Error>>)
        ensures
            final(self).reader() == old(self).reader(),
            r is Ok ==> final(self).writer().outgoing() == old(self).writer().outgoing().push(byte),
            r matches Err(e) ==> e.is_port_error(),
            old(self).writer().healthy() ==> r is Ok && final(self).writer().healthy(),
    {
        let buf: [u8; 1] = [byte];
        let r = self.write_bytes(&buf);
        assert(old(self).writer().outgoing() + buf@ =~= old(self).writer().outgoing().push(byte));
        r
    }

    fn flush(&mut self) -> (r: Result<(), Error<R::Error>>)
        ensures
            final(self).reader() == old(self).reader(),
            r is Ok ==> final(self).writer().outgoing() == old(self).writer().outgoing()
                && final(self).writer().flushed(),
            old(self).writer().healthy() ==> r is Ok && final(self).writer().healthy(),
            r matches Err(e) ==> e.is_port_error(),
    {
        match self.writer.flush() {
            Ok(()) => Ok(()),
            Err(e) => Err(Self::write_error(e)),
        }
    }

    fn read_byte(&mut self) -> (r: Result<u8, Error<R::Error>>)
        ensures
            final(self).writer() == old(self).writer(),
            r matches Ok(b) ==> {
                &&& old(self).reader().incoming().len() >= 1
                &&& b == old(self).reader().incoming()[0]
                &&& final(self).reader().incoming() == old(self).reader().incoming().skip(1)
            },
            r matches Err(e) ==> e.is_port_error(),
            old(self).reader().healthy() ==> final(self).reader().healthy() && (r is Ok <==> old(
                self,
            ).reader().incoming().len() >= 1),
            old(self).reader().healthy() ==> (r matches Err(e) ==> e is UnexpectedEof),
            old(self).reader().healthy() && old(self).reader().incoming().len() == 0
                ==> final(self).reader().incoming().len() == 0,
    {
        let mut buf: [u8; 1] = [0u8];
        match self.reader.read_exact(&mut buf) {
            Ok(()) => {
                assert(buf@[0] == old(self).reader().incoming().take(1)[0]);
                Ok(buf[0])
            },
            Err(e) => Err(Self::read_error(e)),
        }
    }

    fn wait_ack(&mut self) -> (r: Result<(), Error<R::Error>>)
        ensures
            r is Ok ==> {
                &&& old(self).reader().incoming().len() >= 1
                &&& old(self).reader().incoming()[0] == ACK
                &&& final(self).reader().incoming() == old(self).reader().incoming().skip(1)
                &&& final(self).writer().outgoing() == old(self).writer().outgoing()
            },
            r matches Err(e) ==> e.is_port_error() || (old(self).reader().incoming().len() >= 1
                && ack_failure::<R::Error>(old(self).reader().incoming()[0]) == Some(e)),
            old(self).ports_healthy() ==> final(self).ports_healthy(),
            old(self).ports_healthy() && old(self).reader().incoming().len() >= 1 ==> ack_failure::<R::Error>(
                old(self).reader().incoming()[0],
            ) == match r {
                Ok(_) => None,
                Err(e) => Some(e),
            },
            old(self).ports_healthy() ==> final(self).writer().outgoing() == old(self).writer().outgoing()
                && final(self).writer().flushed(),
            old(self).ports_healthy() && old(self).reader().incoming().len() >= 1 ==> final(self).reader().incoming()
                == old(self).reader().incoming().skip(1),
            old(self).ports_healthy() && old(self).reader().incoming().len() == 0 ==> (r matches Err(e)
                && e is UnexpectedEof) && final(self).reader().incoming().len() == 0,
            old(self).ports_healthy() ==> is_suffix(final(self).reader().incoming(), old(self).reader().incoming()),
    {
        let ghost inc = self.reader().incoming();
        self.flush()?;
        let response = match self.read_byte() {
            Ok(b) => b,
            Err(e) => {
                proof {
                    if old(self).ports_healthy() {
                        assert(self.reader().incoming() =~= inc.skip(inc.len() as int));
                    }
                }
                return Err(e);
            },
        };
        if response == ACK {
            Ok(())
        } else if response == NACK {
            Err(Error::Nack)
        } else {
            Err(Error::UnexpectedResponse(response))
        }
    }

    fn send_command(&mut self, cmd: Command) -> (r: Result<(), Error<R::Error>>)
        ensures
            final(self).reader() == old(self).reader(),
            r is Ok ==> final(self).writer().outgoing() == old(self).writer().outgoing() + command_frame(cmd),
            r matches Err(e) ==> e.is_port_error(),
            old(self).writer().healthy() ==> r is Ok && final(self).writer().healthy(),
    {
        let code = cmd.as_u8();
        let buf: [u8; 2] = [code, !code];
        assert(buf@ =~= command_frame(cmd));
        self.write_bytes(&buf)
    }

    fn send_address(&mut self, address: u32) -> (r: Result<(), Error<R::Error>>)
        ensures
            final(self).reader() == old(self).reader(),
            r is Ok ==> final(self).writer().outgoing() == old(self).writer().outgoing() + address_frame(address),
            r matches Err(e) ==> e.is_port_error(),
            old(self).writer().healthy() ==> r is Ok && final(self).writer().healthy(),
    {
        let b0 = (address >> 24u32) as u8;
        let b1 = (address >> 16u32) as u8;
        let b2 = (address >> 8u32) as u8;
        let b3 = address as u8;
        let checksum = b0 ^ b1 ^ b2 ^ b3;
        let packet: [u8; 5] = [b0, b1, b2, b3, checksum];
        proof {
            let s = be32(address);
            assert(s.drop_last() =~= seq![b0, b1, b2]);
            assert(s.drop_last().drop_last() =~= seq![b0, b1]);
            assert(s.drop_last().drop_last().drop_last() =~= seq![b0]);
            assert(s.drop_last().drop_last().drop_last().drop_last() =~= Seq::<u8>::empty());
            reveal_with_fuel(xor_fold, 5);
            assert(xor_fold(0, s) == (((0u8 ^ b0) ^ b1) ^ b2) ^ b3);
            assert((((0u8 ^ b0) ^ b1) ^ b2) ^ b3 == b0 ^ b1 ^ b2 ^ b3) by (bit_vector);
            assert(packet@ =~= address_frame(address));
        }
        self.write_bytes(&packet)
    }

    /// Send the byte list `bytes` framed as a list (count, bytes, XOR); the checksum
    /// is computed first, then the frame goes out in three writes.
    fn send_list(&mut self, bytes: &[u8]) -> (r: Result<(), Error<R::Error>>)
        requires
            bytes@.len() >= 1,
        ensures
            final(self).reader() == old(self).reader(),
            r is Ok ==> final(self).writer().outgoing() == old(self).writer().outgoing() + list_frame(bytes@),
            r matches Err(e) ==> e.is_port_error(),
            old(self).writer().healthy() ==> r is Ok && final(self).writer().healthy(),
    {
        let n = (bytes.len() - 1) as u8;
        let mut checksum = n;
        let mut i: usize = 0;
        while i < bytes.len()
            invariant
                i <= bytes@.len(),
                checksum == xor_fold(n, bytes@.take(i as int)),
            decreases bytes@.len() - i,
        {
            assert(bytes@.take(i + 1).drop_last() =~= bytes@.take(i as int));
            checksum = checksum ^ bytes[i];
            i = i + 1;
        }
        assert(bytes@.take(bytes@.len() as int) =~= bytes@);
        self.write_byte(n)?;
        self.write_bytes(bytes)?;
        self.write_byte(checksum)?;
        assert(self.writer().outgoing() =~= old(self).writer().outgoing() + list_frame(bytes@));
        Ok(())
    }

    /// Initialize communication: send 0x7F (auto-baud) and wait for ACK.
    pub fn init(&mut self) -> (r: Result<(), Error<R::Error>>)
        ensures
            ({
                let inc = old(self).reader().incoming();
                &&& r is Ok ==> {
                    &&& all_acked(inc, seq![0])
                    &&& final(self).reader().incoming() == inc.skip(1)
                    &&& final(self).writer().outgoing() == old(self).writer().outgoing() + seq![INIT]
                }
                &&& r matches Err(e) ==> e.is_port_error() || first_ack_failure::<R::Error>(inc, seq![0]) == Some(e)
                &&& old(self).ports_healthy() ==> final(self).ports_healthy()
                &&& old(self).ports_healthy() && first_ack_failure::<R::Error>(inc, seq![0]) is Some ==> (r matches Err(e) && Some(e)
                    == first_ack_failure::<R::Error>(inc, seq![0]))
                &&& old(self).ports_healthy() && inc.len() >= 1 && all_acked(inc, seq![0]) ==> r is Ok
                &&& old(self).ports_healthy() ==> final(self).writer().outgoing() == old(self).writer().outgoing() + seq![INIT]
                    && final(self).writer().flushed()
                &&& old(self).ports_healthy() && inc.len() >= 1 ==> final(self).reader().incoming() == inc.skip(1)
                &&& old(self).ports_healthy() && inc.len() == 0 ==> (r matches Err(e) && e is UnexpectedEof)
            }),
    {
        let ghost inc = self.reader.incoming();
        proof { reveal_with_fuel(first_ack_failure, 2); }
        self.write_byte(INIT)?;
        self.wait_ack()?;
        assert(all_acked(inc, seq![0]) ==> inc[seq![0int][0]] == ACK);
        Ok(())
    }

    /// Execute the Get command: bootloader version and supported commands.
    pub fn get(&mut self) -> (r: Result<GetResponse, Error<R::Error>>)
        ensures
            ({
                let inc = old(self).reader().incoming();
                let n = inc[1] as int;
                let count = if n < 16 { n } else { 16 };
                &&& r matches Ok(resp) ==> {
                    &&& inc.len() >= n + 4
                    &&& all_acked(inc, seq![0, n + 3])
                    &&& resp.version == inc[2]
                    &&& resp.command_count == count
                    &&& resp.commands@ == inc.subrange(3, 3 + count) + Seq::new((16 - count) as nat, |i: int| 0u8)
                    &&& final(self).reader().incoming() == inc.skip(n + 4)
                    &&& final(self).writer().outgoing() == old(self).writer().outgoing() + command_frame(Command::Get)
                }
                &&& r matches Err(e) ==> e.is_port_error() || first_ack_failure::<R::Error>(inc, seq![0, n + 3]) == Some(e)
                &&& old(self).ports_healthy() ==> final(self).ports_healthy()
                &&& old(self).ports_healthy() && inc.len() >= 2 && first_ack_failure::<R::Error>(inc, seq![0, n + 3]) is Some ==> (r matches Err(e) && Some(e)
                    == first_ack_failure::<R::Error>(inc, seq![0, n + 3]))
                &&& old(self).ports_healthy() && inc.len() >= 2 && inc.len() >= n + 4 && all_acked(inc, seq![0, n + 3]) ==> r is Ok
                &&& old(self).ports_healthy() ==> final(self).writer().outgoing() == old(self).writer().outgoing() + command_frame(Command::Get)
            }),
    {
        let ghost inc = self.reader.incoming();
        let ghost out = self.writer.outgoing();
        proof {
            reveal_with_fuel(first_ack_failure, 3);
            let ps = seq![0int, inc[1] + 3];
            assert(ps[0] == 0 && ps[1] == inc[1] + 3);
        }
        self.send_command(Command::Get)?;
        self.wait_ack()?;
        let n = self.read_byte()? as usize;
        let version = self.read_byte()?;
        assert(self.reader.incoming() =~= inc.skip(3));
        proof {
            let ps = seq![0int, n + 3];
            assert(ps.drop_first() =~= seq![n + 3]);
            if inc.len() < n + 4 {
                assert(first_ack_failure::<R::Error>(inc, seq![n + 3]) is None);
                assert(first_ack_failure::<R::Error>(inc, ps) is None);
            }
        }
        let mut commands: [u8; 16] = [0u8; 16];
        let command_count: usize = if n < 16 { n } else { 16 };
        let mut i: usize = 0;
        while i < command_count
            invariant
                command_count == (if (n as int) < 16 { n as int } else { 16 }),
                n == inc[1],
                version == inc[2],
                inc[0] == ACK,
                i <= command_count,
                inc.len() >= 3 + i,
                self.reader.incoming() == inc.skip(3 + i),
                self.writer.outgoing() == out + command_frame(Command::Get),
                old(self).ports_healthy() ==> self.ports_healthy(),
                inc == old(self).reader().incoming(),
                out == old(self).writer().outgoing(),
                inc.len() < n + 4 ==> first_ack_failure::<R::Error>(inc, seq![0, n + 3]) is None,
                commands@ == inc.subrange(3, 3 + i) + Seq::new((16 - i) as nat, |k: int| 0u8),
            decreases command_count - i,
        {
            let b = self.read_byte()?;
            let ghost prev = commands@;
            commands[i] = b;
            assert(commands@ =~= inc.subrange(3, 3 + i + 1) + Seq::new((16 - (i + 1)) as nat, |k: int| 0u8));
            assert(self.reader.incoming() =~= inc.skip(3 + i + 1));
            i = i + 1;
        }
        while i < n
            invariant
                n == inc[1],
                inc[0] == ACK,
                command_count <= i <= n,
                inc.len() >= 3 + i,
                self.reader.incoming() == inc.skip(3 + i),
                self.writer.outgoing() == out + command_frame(Command::Get),
                old(self).ports_healthy() ==> self.ports_healthy(),
                inc == old(self).reader().incoming(),
                out == old(self).writer().outgoing(),
                inc.len() < n + 4 ==> first_ack_failure::<R::Error>(inc, seq![0, n + 3]) is None,
            decreases n - i,
        {
            let _ = self.read_byte()?;
            assert(self.reader.incoming() =~= inc.skip(3 + i + 1));
            i = i + 1;
        }
        assert(seq![0, n + 3].drop_first() =~= seq![n + 3]);
        self.wait_ack()?;
        assert(self.reader.incoming() =~= inc.skip(n + 4));
        Ok(GetResponse { version, commands, command_count })
    }

    /// Execute the Get Version command.
    pub fn get_version(&mut self) -> (r: Result<VersionResponse, Error<R::Error>>)
        ensures
            ({
                let inc = old(self).reader().incoming();
                &&& r matches Ok(v) ==> {
                    &&& inc.len() >= 5
                    &&& all_acked(inc, seq![0, 4])
                    &&& v.version == inc[1] && v.option1 == inc[2] && v.option2 == inc[3]
                    &&& final(self).reader().incoming() == inc.skip(5)
                    &&& final(self).writer().outgoing() == old(self).writer().outgoing() + command_frame(Command::GetVersion)
                }
                &&& r matches Err(e) ==> e.is_port_error() || first_ack_failure::<R::Error>(inc, seq![0, 4]) == Some(e)
                &&& old(self).ports_healthy() ==> final(self).ports_healthy()
                &&& old(self).ports_healthy() && first_ack_failure::<R::Error>(inc, seq![0, 4]) is Some ==> (r matches Err(e) && Some(e)
                    == first_ack_failure::<R::Error>(inc, seq![0, 4]))
                &&& old(self).ports_healthy() && inc.len() >= 5 && all_acked(inc, seq![0, 4]) ==> r is Ok
                &&& old(self).ports_healthy() ==> final(self).writer().outgoing() == old(self).writer().outgoing() + command_frame(Command::GetVersion)
            }),
    {
        let ghost inc = self.reader.incoming();
        proof { reveal_with_fuel(first_ack_failure, 3); }
        self.send_command(Command::GetVersion)?;
        self.wait_ack()?;
        let version = self.read_byte()?;
        let option1 = self.read_byte()?;
        let option2 = self.read_byte()?;
        assert(self.reader.incoming() =~= inc.skip(4));
        assert(seq![0int, 4int].drop_first() =~= seq![4int]);
        self.wait_ack()?;
        assert(self.reader.incoming() =~= inc.skip(5));
        Ok(VersionResponse { version, option1, option2 })
    }

    /// Execute the Get ID command: the chip product ID, most significant byte first.
    pub fn get_id(&mut self) -> (r: Result<u16, Error<R::Error>>)
        ensures
            ({
                let inc = old(self).reader().incoming();
                &&& r matches Ok(id) ==> {
                    &&& inc.len() >= 5
                    &&& all_acked(inc, seq![0, 4])
                    &&& id == (((inc[2] as u16) << 8u16) | (inc[3] as u16))
                    &&& final(self).reader().incoming() == inc.skip(5)
                    &&& final(self).writer().outgoing() == old(self).writer().outgoing() + command_frame(Command::GetId)
                }
                &&& r matches Err(e) ==> e.is_port_error() || first_ack_failure::<R::Error>(inc, seq![0, 4]) == Some(e)
                &&& old(self).ports_healthy() ==> final(self).ports_healthy()
                &&& old(self).ports_healthy() && first_ack_failure::<R::Error>(inc, seq![0, 4]) is Some ==> (r matches Err(e) && Some(e)
                    == first_ack_failure::<R::Error>(inc, seq![0, 4]))
                &&& old(self).ports_healthy() && inc.len() >= 5 && all_acked(inc, seq![0, 4]) ==> r is Ok
                &&& old(self).ports_healthy() ==> final(self).writer().outgoing() == old(self).writer().outgoing() + command_frame(Command::GetId)
            }),
    {
        let ghost inc = self.reader.incoming();
        proof { reveal_with_fuel(first_ack_failure, 3); }
        self.send_command(Command::GetId)?;
        self.wait_ack()?;
        let _n = self.read_byte()?;
        let msb = self.read_byte()?;
        let lsb = self.read_byte()?;
        assert(self.reader.incoming() =~= inc.skip(4));
        assert(seq![0int, 4int].drop_first() =~= seq![4int]);
        self.wait_ack()?;
        assert(self.reader.incoming() =~= inc.skip(5));
        Ok(((msb as u16) << 8u16) | (lsb as u16))
    }

    /// Execute the Read Memory command: read up to 256 bytes at `address` into the
    /// front of `buffer`; returns how many bytes were read.
    pub fn read_memory(&mut self, address: u32, buffer: &mut [u8]) -> (r: Result<usize, Error<R::Error>>)
        ensures
            final(buffer)@.len() == old(buffer)@.len(),
            ({
                let inc = old(self).reader().incoming();
                let len = if old(buffer)@.len() < 256 { old(buffer)@.len() as int } else { 256 };
                let n = (len - 1) as u8;
                &&& old(buffer)@.len() == 0 ==> (r matches Ok(0usize) && *final(self) == *old(self))
                &&& r matches Ok(k) ==> old(buffer)@.len() > 0 ==> {
                    &&& k == len
                    &&& inc.len() >= 3 + len
                    &&& all_acked(inc, seq![0, 1, 2])
                    &&& final(buffer)@ == inc.subrange(3, 3 + len) + old(buffer)@.skip(len)
                    &&& final(self).reader().incoming() == inc.skip(3 + len)
                    &&& final(self).writer().outgoing() == old(self).writer().outgoing()
                        + command_frame(Command::ReadMemory) + address_frame(address) + seq![n, !n]
                }
                &&& r matches Err(e) ==> e.is_port_error() || first_ack_failure::<R::Error>(inc, seq![0, 1, 2]) == Some(e)
                &&& old(self).ports_healthy() ==> final(self).ports_healthy()
                &&& old(self).ports_healthy() && old(buffer)@.len() > 0 && first_ack_failure::<R::Error>(inc, seq![0, 1, 2]) is Some ==> (r matches Err(e) && Some(e)
                    == first_ack_failure::<R::Error>(inc, seq![0, 1, 2]))
                &&& old(self).ports_healthy() && old(buffer)@.len() > 0 && inc.len() >= 3 + len && all_acked(inc, seq![0, 1, 2]) ==> r is Ok
                &&& old(self).ports_healthy() && old(buffer)@.len() > 0 ==> final(self).writer().outgoing() == old(self).writer().outgoing()
                    + command_frame(Command::ReadMemory) + after_ack(inc, 0, address_frame(address) + after_ack(inc, 1, seq![n, !n]))
            }),
    {
        if buffer.len() == 0 {
            return Ok(0);
        }
        let ghost inc = self.reader.incoming();
        let ghost out = self.writer.outgoing();
        proof {
            reveal_with_fuel(first_ack_failure, 4);
            let ps = seq![0int, 1int, 2int];
            assert(ps[0] == 0 && ps[1] == 1 && ps[2] == 2);
        }
        let len: usize = if buffer.len() < 256 { buffer.len() } else { 256 };
        self.send_command(Command::ReadMemory)?;
        self.wait_ack()?;
        self.send_address(address)?;
        assert(seq![0int, 1int, 2int].drop_first() =~= seq![1int, 2int]);
        assert(seq![1int, 2int].drop_first() =~= seq![2int]);
        self.wait_ack()?;
        assert(self.reader.incoming() =~= inc.skip(2));
        let n = (len - 1) as u8;
        let frame: [u8; 2] = [n, !n];
        self.write_bytes(&frame)?;
        self.wait_ack()?;
        assert(self.reader.incoming() =~= inc.skip(3));
        proof {
            let ps = seq![0int, 1int, 2int];
            assert(ps[0] == 0 && ps[1] == 1 && ps[2] == 2);
            assert(all_acked(inc, ps));
            assert(first_ack_failure::<R::Error>(inc, ps) is None);
            assert(inc[ps[0]] == ACK && inc[ps[1]] == ACK);
            assert(frame@ =~= seq![n, !n]);
            assert(after_ack(inc, 0, address_frame(address) + after_ack(inc, 1, seq![n, !n]))
                == address_frame(address) + frame@);
            assert(self.writer.outgoing() =~= out + command_frame(Command::ReadMemory) + after_ack(inc, 0,
                address_frame(address) + after_ack(inc, 1, seq![n, !n])));
        }
        let mut i: usize = 0;
        while i < len
            invariant
                len <= buffer@.len(),
                buffer@.len() == old(buffer)@.len(),
                i <= len,
                inc.len() >= 3 + i,
                self.reader.incoming() == inc.skip(3 + i),
                self.writer.outgoing() == out + command_frame(Command::ReadMemory) + address_frame(address) + frame@,
                self.writer.outgoing() == out + command_frame(Command::ReadMemory) + after_ack(inc, 0,
                    address_frame(address) + after_ack(inc, 1, seq![n, !n])),
                n == (len - 1) as u8,
                len >= 1,
                old(self).ports_healthy() ==> self.ports_healthy(),
                inc == old(self).reader().incoming(),
                out == old(self).writer().outgoing(),
                old(buffer)@.len() > 0,
                len == (if old(buffer)@.len() < 256 { old(buffer)@.len() as int } else { 256 }),
                all_acked(inc, seq![0, 1, 2]),
                first_ack_failure::<R::Error>(inc, seq![0, 1, 2]) is None,
                buffer@ == inc.subrange(3, 3 + i) + old(buffer)@.skip(i as int),
            decreases len - i,
        {
            let b = self.read_byte()?;
            buffer[i] = b;
            assert(buffer@ =~= inc.subrange(3, 3 + i + 1) + old(buffer)@.skip(i + 1));
            assert(self.reader.incoming() =~= inc.skip(3 + i + 1));
            i = i + 1;
        }
        assert(frame@ =~= seq![n, !n]);
        Ok(len)
    }

    /// Execute the Go command: jump to the code at `address`.
    pub fn go(&mut self, address: u32) -> (r: Result<(), Error<R::Error>>)
        ensures
            ({
                let inc = old(self).reader().incoming();
                &&& r is Ok ==> {
                    &&& all_acked(inc, seq![0, 1])
                    &&& final(self).reader().incoming() == inc.skip(2)
                    &&& final(self).writer().outgoing() == old(self).writer().outgoing()
                        + command_frame(Command::Go) + address_frame(address)
                }
                &&& r matches Err(e) ==> e.is_port_error() || first_ack_failure::<R::Error>(inc, seq![0, 1]) == Some(e)
                &&& old(self).ports_healthy() ==> final(self).ports_healthy()
                &&& old(self).ports_healthy() && first_ack_failure::<R::Error>(inc, seq![0, 1]) is Some ==> (r matches Err(e) && Some(e)
                    == first_ack_failure::<R::Error>(inc, seq![0, 1]))
                &&& old(self).ports_healthy() && inc.len() >= 2 && all_acked(inc, seq![0, 1]) ==> r is Ok
                &&& old(self).ports_healthy() ==> final(self).writer().outgoing() == old(self).writer().outgoing()
                    + command_frame(Command::Go) + after_ack(inc, 0, address_frame(address))
            }),
    {
        let ghost inc = self.reader.incoming();
        proof { reveal_with_fuel(first_ack_failure, 3); }
        self.send_command(Command::Go)?;
        self.wait_ack()?;
        self.send_address(address)?;
        assert(seq![0int, 1int].drop_first() =~= seq![1int]);
        self.wait_ack()?;
        assert(self.reader.incoming() =~= inc.skip(2));
        Ok(())
    }

    /// Execute the Write Memory command: write up to 256 bytes at `address`.
    pub fn write_memory(&mut self, address: u32, data: &[u8]) -> (r: Result<(), Error<R::Error>>)
        ensures
            ({
                let inc = old(self).reader().incoming();
                &&& data@.len() == 0 ==> r is Ok && *final(self) == *old(self)
                &&& (r matches Err(Error::DataTooLarge)) <==> data@.len() > 256
                &&& data@.len() > 256 ==> *final(self) == *old(self)
                &&& r is Ok ==> data@.len() > 0 ==> {
                    &&& all_acked(inc, seq![0, 1, 2])
                    &&& final(self).reader().incoming() == inc.skip(3)
                    &&& final(self).writer().outgoing() == old(self).writer().outgoing()
                        + command_frame(Command::WriteMemory) + address_frame(address) + list_frame(data@)
                }
                &&& r matches Err(e) ==> e is DataTooLarge || e.is_port_error()
                    || first_ack_failure::<R::Error>(inc, seq![0, 1, 2]) == Some(e)
                &&& old(self).ports_healthy() ==> final(self).ports_healthy()
                &&& old(self).ports_healthy() && 0 < data@.len() <= 256 && first_ack_failure::<R::Error>(inc, seq![0, 1, 2]) is Some ==> (r matches Err(e) && Some(e)
                    == first_ack_failure::<R::Error>(inc, seq![0, 1, 2]))
                &&& old(self).ports_healthy() && 0 < data@.len() <= 256 && inc.len() >= 3 && all_acked(inc, seq![0, 1, 2]) ==> r is Ok
                &&& old(self).ports_healthy() && 0 < data@.len() <= 256 ==> final(self).writer().outgoing() == old(self).writer().outgoing()
                    + command_frame(Command::WriteMemory) + after_ack(inc, 0, address_frame(address) + after_ack(inc, 1, list_frame(data@)))
            }),
    {
        if data.len() == 0 {
            return Ok(());
        }
        if data.len() > 256 {
            return Err(Error::DataTooLarge);
        }
        let ghost inc = self.reader.incoming();
        proof { reveal_with_fuel(first_ack_failure, 4); }
        self.send_command(Command::WriteMemory)?;
        self.wait_ack()?;
        self.send_address(address)?;
        assert(seq![0int, 1int, 2int].drop_first() =~= seq![1int, 2int]);
        assert(seq![1int, 2int].drop_first() =~= seq![2int]);
        self.wait_ack()?;
        assert(self.reader.incoming() =~= inc.skip(2));
        self.send_list(data)?;
        self.wait_ack()?;
        assert(self.reader.incoming() =~= inc.skip(3));
        Ok(())
    }

    /// Execute the Erase command (legacy, single-byte page numbers):
    /// `None` erases everything, `Some(pages)` erases the listed pages (1 to 256 of them).
    pub fn erase(&mut self, pages: Option<&[u8]>) -> (r: Result<(), Error<R::Error>>)
        ensures
            ({
                let inc = old(self).reader().incoming();
                let invalid = pages matches Some(p) && (p@.len() == 0 || p@.len() > 256);
                &&& r is Ok ==> {
                    &&& !invalid
                    &&& all_acked(inc, seq![0, 1])
                    &&& final(self).reader().incoming() == inc.skip(2)
                    &&& final(self).writer().outgoing() == old(self).writer().outgoing()
                        + command_frame(Command::Erase) + match pages {
                            None => seq![0xFFu8, 0x00u8],
                            Some(p) => list_frame(p@),
                        }
                }
                &&& r matches Err(Error::InvalidPageCount) ==> invalid && all_acked(inc, seq![0])
                &&& r matches Err(e) ==> e is InvalidPageCount || e.is_port_error()
                    || first_ack_failure::<R::Error>(inc, seq![0, 1]) == Some(e)
                &&& old(self).ports_healthy() ==> final(self).ports_healthy()
                &&& old(self).ports_healthy() && !invalid && first_ack_failure::<R::Error>(inc, seq![0, 1]) is Some ==> (r matches Err(e) && Some(e)
                    == first_ack_failure::<R::Error>(inc, seq![0, 1]))
                &&& old(self).ports_healthy() && !invalid && inc.len() >= 2 && all_acked(inc, seq![0, 1]) ==> r is Ok
                &&& r matches Err(Error::InvalidPageCount) ==> final(self).reader().incoming() == inc.skip(1)
                    && final(self).writer().outgoing() == old(self).writer().outgoing() + command_frame(Command::Erase)
                &&& old(self).ports_healthy() && invalid && inc.len() >= 1 && inc[0] == ACK ==> (r matches Err(Error::InvalidPageCount))
                &&& old(self).ports_healthy() && invalid && inc.len() >= 1 && inc[0] != ACK ==> (r matches Err(e) && Some(e)
                    == first_ack_failure::<R::Error>(inc, seq![0]))
                &&& old(self).ports_healthy() ==> is_suffix(final(self).reader().incoming(), inc)
                &&& old(self).ports_healthy() ==> final(self).writer().outgoing() == old(self).writer().outgoing()
                    + command_frame(Command::Erase) + after_ack(inc, 0, erase_payload(match pages {
                        Some(p) => Some(p@),
                        None => None,
                    }))
            }),
    {
        let ghost inc = self.reader.incoming();
        proof { reveal_with_fuel(first_ack_failure, 3); }
        self.send_command(Command::Erase)?;
        self.wait_ack()?;
        proof {
            lemma_suffix_after(inc, 1);
        }
        match pages {
            None => {
                let frame: [u8; 2] = [0xFF, 0x00];
                self.write_bytes(&frame)?;
                assert(frame@ =~= seq![0xFFu8, 0x00u8]);
            },
            Some(p) => {
                if p.len() == 0 || p.len() > 256 {
                    return Err(Error::InvalidPageCount);
                }
                self.send_list(p)?;
            },
        }
        assert(seq![0int, 1int].drop_first() =~= seq![1int]);
        self.wait_ack()?;
        assert(self.reader.incoming() =~= inc.skip(2));
        Ok(())
    }

    /// Execute the Extended Erase command (two-byte page numbers): a special erase when
    /// `special` is given, else the listed pages.
    pub fn extended_erase(&mut self, pages: Option<&[u16]>, special: Option<SpecialErase>) -> (r: Result<(), Error<R::Error>>)
        ensures
            ({
                let inc = old(self).reader().incoming();
                let invalid = special is None && (pages is None || (pages matches Some(p) && p@.len() == 0));
                &&& r is Ok ==> {
                    &&& !invalid
                    &&& all_acked(inc, seq![0, 1])
                    &&& final(self).reader().incoming() == inc.skip(2)
                    &&& final(self).writer().outgoing() == old(self).writer().outgoing()
                        + command_frame(Command::ExtendedErase) + match special {
                            Some(s) => special_erase_frame(s),
                            None => extended_list_frame(pages.unwrap()@),
                        }
                }
                &&& r matches Err(Error::InvalidPageCount) ==> invalid && all_acked(inc, seq![0])
                &&& r matches Err(e) ==> e is InvalidPageCount || e.is_port_error()
                    || first_ack_failure::<R::Error>(inc, seq![0, 1]) == Some(e)
                &&& old(self).ports_healthy() ==> final(self).ports_healthy()
                &&& old(self).ports_healthy() && !invalid && first_ack_failure::<R::Error>(inc, seq![0, 1]) is Some ==> (r matches Err(e) && Some(e)
                    == first_ack_failure::<R::Error>(inc, seq![0, 1]))
                &&& old(self).ports_healthy() && !invalid && inc.len() >= 2 && all_acked(inc, seq![0, 1]) ==> r is Ok
                &&& r matches Err(Error::InvalidPageCount) ==> final(self).reader().incoming() == inc.skip(1)
                    && final(self).writer().outgoing() == old(self).writer().outgoing() + command_frame(Command::ExtendedErase)
                &&& old(self).ports_healthy() && invalid && inc.len() >= 1 && inc[0] == ACK ==> (r matches Err(Error::InvalidPageCount))
                &&& old(self).ports_healthy() && invalid && inc.len() >= 1 && inc[0] != ACK ==> (r matches Err(e) && Some(e)
                    == first_ack_failure::<R::Error>(inc, seq![0]))
                &&& old(self).ports_healthy() ==> is_suffix(final(self).reader().incoming(), inc)
                &&& old(self).ports_healthy() ==> final(self).writer().outgoing() == old(self).writer().outgoing()
                    + command_frame(Command::ExtendedErase) + after_ack(inc, 0, extended_erase_payload(match pages {
                        Some(p) => Some(p@),
                        None => None,
                    }, special))
            }),
    {
        let ghost inc = self.reader.incoming();
        let ghost out = self.writer.outgoing();
        proof { reveal_with_fuel(first_ack_failure, 3); }
        self.send_command(Command::ExtendedErase)?;
        self.wait_ack()?;
        proof {
            lemma_suffix_after(inc, 1);
        }
        if let Some(special) = special {
            let code = special.code();
            let msb = (code >> 8u16) as u8;
            let lsb = (code & 0xFFu16) as u8;
            let frame: [u8; 3] = [msb, lsb, msb ^ lsb];
            self.write_bytes(&frame)?;
            assert(frame@ =~= special_erase_frame(special));
        } else if let Some(pages) = pages {
            if pages.len() == 0 {
                return Err(Error::InvalidPageCount);
            }
            let n = (pages.len() - 1) as u16;
            let n_msb = (n >> 8u16) as u8;
            let n_lsb = (n & 0xFFu16) as u8;
            let ghost hdr = seq![n_msb, n_lsb];
            let mut checksum = n_msb ^ n_lsb;
            let frame: [u8; 2] = [n_msb, n_lsb];
            self.write_bytes(&frame)?;
            proof {
                assert(frame@ =~= hdr);
                assert(hdr.drop_last() =~= seq![n_msb]);
                assert(hdr.drop_last().drop_last() =~= Seq::<u8>::empty());
                reveal_with_fuel(xor_fold, 3);
                assert((0u8 ^ n_msb) ^ n_lsb == n_msb ^ n_lsb) by (bit_vector);
                assert(pages@.take(0) =~= Seq::<u16>::empty());
                assert(hdr + pages_be(pages@.take(0)) =~= hdr);
            }
            let mut i: usize = 0;
            while i < pages.len()
                invariant
                    i <= pages@.len(),
                    self.reader.incoming() == inc.skip(1),
                    self.writer.outgoing() == out + command_frame(Command::ExtendedErase) + hdr + pages_be(pages@.take(i as int)),
                    old(self).ports_healthy() ==> self.ports_healthy(),
                    inc.len() >= 1 && inc[0] == ACK,
                    checksum == xor_fold(0, hdr + pages_be(pages@.take(i as int))),
                decreases pages@.len() - i,
            {
                let page = pages[i];
                let msb = (page >> 8u16) as u8;
                let lsb = (page & 0xFFu16) as u8;
                let two: [u8; 2] = [msb, lsb];
                self.write_bytes(&two)?;
                proof {
                    let before = hdr + pages_be(pages@.take(i as int));
                    assert(pages@.take(i + 1).drop_last() =~= pages@.take(i as int));
                    assert(pages_be(pages@.take(i + 1)) == pages_be(pages@.take(i as int)) + seq![msb, lsb]);
                    let after = hdr + pages_be(pages@.take(i + 1));
                    assert(after =~= before + seq![msb, lsb]);
                    assert(after.drop_last() =~= before.push(msb));
                    assert(after.drop_last().drop_last() =~= before);
                    reveal_with_fuel(xor_fold, 3);
                    let c = checksum;
                    assert(c ^ (msb ^ lsb) == (c ^ msb) ^ lsb) by (bit_vector);
                    assert(two@ =~= seq![msb, lsb]);
                }
                checksum = checksum ^ (msb ^ lsb);
                i = i + 1;
            }
            assert(pages@.take(pages@.len() as int) =~= pages@);
            self.write_byte(checksum)?;
            assert(self.writer.outgoing() =~= out + command_frame(Command::ExtendedErase) + extended_list_frame(pages@));
        } else {
            return Err(Error::InvalidPageCount);
        }
        assert(seq![0int, 1int].drop_first() =~= seq![1int]);
        self.wait_ack()?;
        assert(self.reader.incoming() =~= inc.skip(2));
        Ok(())
    }

    /// Execute the Write Protect command for the listed sectors.
    pub fn write_protect(&mut self, sectors: &[u8]) -> (r: Result<(), Error<R::Error>>)
        ensures
            ({
                let inc = old(self).reader().incoming();
                &&& (r matches Err(Error::InvalidPageCount)) <==> sectors@.len() == 0
                &&& sectors@.len() == 0 ==> *final(self) == *old(self)
                &&& r is Ok ==> {
                    &&& all_acked(inc, seq![0, 1])
                    &&& final(self).reader().incoming() == inc.skip(2)
                    &&& final(self).writer().outgoing() == old(self).writer().outgoing()
                        + command_frame(Command::WriteProtect) + list_frame(sectors@)
                }
                &&& r matches Err(e) ==> e is InvalidPageCount || e.is_port_error()
                    || first_ack_failure::<R::Error>(inc, seq![0, 1]) == Some(e)
                &&& old(self).ports_healthy() ==> final(self).ports_healthy()
                &&& old(self).ports_healthy() && sectors@.len() > 0 && first_ack_failure::<R::Error>(inc, seq![0, 1]) is Some ==> (r matches Err(e) && Some(e)
                    == first_ack_failure::<R::Error>(inc, seq![0, 1]))
                &&& old(self).ports_healthy() && sectors@.len() > 0 && inc.len() >= 2 && all_acked(inc, seq![0, 1]) ==> r is Ok
                &&& old(self).ports_healthy() && sectors@.len() > 0 ==> final(self).writer().outgoing() == old(self).writer().outgoing()
                    + command_frame(Command::WriteProtect) + after_ack(inc, 0, list_frame(sectors@))
            }),
    {
        if sectors.len() == 0 {
            return Err(Error::InvalidPageCount);
        }
        let ghost inc = self.reader.incoming();
        proof { reveal_with_fuel(first_ack_failure, 3); }
        self.send_command(Command::WriteProtect)?;
        self.wait_ack()?;
        self.send_list(sectors)?;
        assert(seq![0int, 1int].drop_first() =~= seq![1int]);
        self.wait_ack()?;
        assert(self.reader.incoming() =~= inc.skip(2));
        Ok(())
    }

    /// Send a command that the bootloader answers with two ACKs.
    fn command_two_acks(&mut self, cmd: Command) -> (r: Result<(), Error<R::Error>>)
        ensures
            ({
                let inc = old(self).reader().incoming();
                &&& r is Ok ==> {
                    &&& all_acked(inc, seq![0, 1])
                    &&& final(self).reader().incoming() == inc.skip(2)
                    &&& final(self).writer().outgoing() == old(self).writer().outgoing() + command_frame(cmd)
                }
                &&& r matches Err(e) ==> e.is_port_error() || first_ack_failure::<R::Error>(inc, seq![0, 1]) == Some(e)
                &&& old(self).ports_healthy() ==> final(self).ports_healthy()
                &&& old(self).ports_healthy() && first_ack_failure::<R::Error>(inc, seq![0, 1]) is Some ==> (r matches Err(e) && Some(e)
                    == first_ack_failure::<R::Error>(inc, seq![0, 1]))
                &&& old(self).ports_healthy() && inc.len() >= 2 && all_acked(inc, seq![0, 1]) ==> r is Ok
                &&& old(self).ports_healthy() ==> final(self).writer().outgoing() == old(self).writer().outgoing() + command_frame(cmd)
            }),
    {
        let ghost inc = self.reader.incoming();
        proof { reveal_with_fuel(first_ack_failure, 3); }
        self.send_command(cmd)?;
        self.wait_ack()?;
        assert(seq![0int, 1int].drop_first() =~= seq![1int]);
        self.wait_ack()?;
        assert(self.reader.incoming() =~= inc.skip(2));
        Ok(())
    }

    /// Execute the Write Unprotect command (the device resets afterwards).
    pub fn write_unprotect(&mut self) -> (r: Result<(), Error<R::Error>>)
        ensures
            ({
                let inc = old(self).reader().incoming();
                &&& r is Ok ==> {
                    &&& all_acked(inc, seq![0, 1])
                    &&& final(self).reader().incoming() == inc.skip(2)
                    &&& final(self).writer().outgoing() == old(self).writer().outgoing() + command_frame(Command::WriteUnprotect)
                }
                &&& r matches Err(e) ==> e.is_port_error() || first_ack_failure::<R::Error>(inc, seq![0, 1]) == Some(e)
                &&& old(self).ports_healthy() ==> final(self).ports_healthy()
                &&& old(self).ports_healthy() && first_ack_failure::<R::Error>(inc, seq![0, 1]) is Some ==> (r matches Err(e) && Some(e)
                    == first_ack_failure::<R::Error>(inc, seq![0, 1]))
                &&& old(self).ports_healthy() && inc.len() >= 2 && all_acked(inc, seq![0, 1]) ==> r is Ok
                &&& old(self).ports_healthy() ==> final(self).writer().outgoing() == old(self).writer().outgoing()
                    + command_frame(Command::WriteUnprotect)
            }),
    {
        self.command_two_acks(Command::WriteUnprotect)
    }

    /// Execute the Readout Protect command (the device resets afterwards).
    pub fn readout_protect(&mut self) -> (r: Result<(), Error<R::Error>>)
        ensures
            ({
                let inc = old(self).reader().incoming();
                &&& r is Ok ==> {
                    &&& all_acked(inc, seq![0, 1])
                    &&& final(self).reader().incoming() == inc.skip(2)
                    &&& final(self).writer().outgoing() == old(self).writer().outgoing() + command_frame(Command::ReadoutProtect)
                }
                &&& r matches Err(e) ==> e.is_port_error() || first_ack_failure::<R::Error>(inc, seq![0, 1]) == Some(e)
                &&& old(self).ports_healthy() ==> final(self).ports_healthy()
                &&& old(self).ports_healthy() && first_ack_failure::<R::Error>(inc, seq![0, 1]) is Some ==> (r matches Err(e) && Some(e)
                    == first_ack_failure::<R::Error>(inc, seq![0, 1]))
                &&& old(self).ports_healthy() && inc.len() >= 2 && all_acked(inc, seq![0, 1]) ==> r is Ok
                &&& old(self).ports_healthy() ==> final(self).writer().outgoing() == old(self).writer().outgoing()
                    + command_frame(Command::ReadoutProtect)
            }),
    {
        self.command_two_acks(Command::ReadoutProtect)
    }

    /// Execute the Readout Unprotect command (erases all flash; the device resets afterwards).
    pub fn readout_unprotect(&mut self) -> (r: Result<(), Error<R::Error>>)
        ensures
            ({
                let inc = old(self).reader().incoming();
                &&& r is Ok ==> {
                    &&& all_acked(inc, seq![0, 1])
                    &&& final(self).reader().incoming() == inc.skip(2)
                    &&& final(self).writer().outgoing() == old(self).writer().outgoing() + command_frame(Command::ReadoutUnprotect)
                }
                &&& r matches Err(e) ==> e.is_port_error() || first_ack_failure::<R::Error>(inc, seq![0, 1]) == Some(e)
                &&& old(self).ports_healthy() ==> final(self).ports_healthy()
                &&& old(self).ports_healthy() && first_ack_failure::<R::Error>(inc, seq![0, 1]) is Some ==> (r matches Err(e) && Some(e)
                    == first_ack_failure::<R::Error>(inc, seq![0, 1]))
                &&& old(self).ports_healthy() && inc.len() >= 2 && all_acked(inc, seq![0, 1]) ==> r is Ok
                &&& old(self).ports_healthy() ==> final(self).writer().outgoing() == old(self).writer().outgoing()
                    + command_frame(Command::ReadoutUnprotect)
            }),
    {
        self.command_two_acks(Command::ReadoutUnprotect)
    }
}


/// The name of a chip product ID.
pub open spec fn chip_name_of(product_id: u16) -> Seq<char> {
    match product_id {
        0x410 => "STM32F1 Medium-density"@,
        0x411 => "STM32F2"@,
        0x412 => "STM32F1 Low-density"@,
        0x413 => "STM32F4 (405/407/415/417)"@,
        0x414 => "STM32F1 High-density"@,
        0x415 => "STM32L4 (75/76)"@,
        0x416 => "STM32L1 Medium-density"@,
        0x417 => "STM32L0 (51/52/53/62/63)"@,
        0x418 => "STM32F1 Connectivity line"@,
        0x419 => "STM32F4 (27/29/37/39/69/79)"@,
        0x420 => "STM32F1 Medium-density VL"@,
        0x421 => "STM32F446"@,
        0x440 => "STM32F0 (30/51/71)"@,
        0x442 => "STM32F0 (30/91/98)"@,
        0x443 => "STM32F0 (3/4/5)"@,
        0x444 => "STM32F0 (3/4) small"@,
        0x445 => "STM32F0 (4/7)"@,
        0x448 => "STM32F0 (70/71/72)"@,
        0x460 => "STM32G0 (70/71/B1)"@,
        0x466 => "STM32G0 (30/31/41)"@,
        0x467 => "STM32G0 (B0/C1)"@,
        _ => "Unknown"@,
    }
}

/// Human-readable name of an STM32 chip product ID (as returned by Get ID).
pub fn chip_name(product_id: u16) -> (r: &'static str)
    ensures
        r@ == chip_name_of(product_id),
{
    match product_id {
        0x410 => "STM32F1 Medium-density",
        0x411 => "STM32F2",
        0x412 => "STM32F1 Low-density",
        0x413 => "STM32F4 (405/407/415/417)",
        0x414 => "STM32F1 High-density",
        0x415 => "STM32L4 (75/76)",
        0x416 => "STM32L1 Medium-density",
        0x417 => "STM32L0 (51/52/53/62/63)",
        0x418 => "STM32F1 Connectivity line",
        0x419 => "STM32F4 (27/29/37/39/69/79)",
        0x420 => "STM32F1 Medium-density VL",
        0x421 => "STM32F446",
        0x440 => "STM32F0 (30/51/71)",
        0x442 => "STM32F0 (30/91/98)",
        0x443 => "STM32F0 (3/4/5)",
        0x444 => "STM32F0 (3/4) small",
        0x445 => "STM32F0 (4/7)",
        0x448 => "STM32F0 (70/71/72)",
        0x460 => "STM32G0 (70/71/B1)",
        0x466 => "STM32G0 (30/31/41)",
        0x467 => "STM32G0 (B0/C1)",
        _ => "Unknown",
    }
}

/// The name of a command code.
pub open spec fn command_name_of(code: u8) -> Seq<char> {
    match code {
        0x0 => "Get"@,
        0x1 => "Get Version"@,
        0x2 => "Get ID"@,
        0x11 => "Read Memory"@,
        0x21 => "Go"@,
        0x31 => "Write Memory"@,
        0x43 => "Erase"@,
        0x44 => "Extended Erase"@,
        0x63 => "Write Protect"@,
        0x73 => "Write Unprotect"@,
        0x82 => "Readout Protect"@,
        0x92 => "Readout Unprotect"@,
        _ => "Unknown"@,
    }
}

/// Human-readable name of a bootloader command code.
pub fn command_name(code: u8) -> (r: &'static str)
    ensures
        r@ == command_name_of(code),
{
    match code {
        0x0 => "Get",
        0x1 => "Get Version",
        0x2 => "Get ID",
        0x11 => "Read Memory",
        0x21 => "Go",
        0x31 => "Write Memory",
        0x43 => "Erase",
        0x44 => "Extended Erase",
        0x63 => "Write Protect",
        0x73 => "Write Unprotect",
        0x82 => "Readout Protect",
        0x92 => "Readout Unprotect",
        _ => "Unknown",
    }
}

} // verus!
