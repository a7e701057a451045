//! ESP32 ROM bootloader protocol, host side.
//!
//! A request is a SLIP frame around `0x00`, the command code, the payload
//! length (16 bits, little-endian), a checksum (32 bits, little-endian) and
//! the payload. A response is a SLIP frame around `0x01`, the command code,
//! the length, a 32-bit value, the response data and two status bytes.
//!
//! Contracts speak of the reader's `incoming` bytes and of the writer's
//! `outgoing` bytes (see `CtlPort`). The spec functions below describe, for a
//! given stream of incoming bytes, what an exchange reads, what it sends and
//! what it returns.
use vstd::prelude::*;

use crate::port::CtlPort;
use crate::slip::{encode, escape, escape_byte, frame, lemma_escape_len, SLIP_END, SLIP_ESC, SLIP_ESC_END, SLIP_ESC_ESC};
use crate::stm::xor_fold;
use vstd::string::StringSliceAdditionalSpecFns;

verus! {

/// Direction byte of requests (host to device).
pub const DIRECTION_REQUEST: u8 = 0x00;

/// Direction byte of responses (device to host).
pub const DIRECTION_RESPONSE: u8 = 0x01;

/// Seed of the payload checksum.
pub const CHECKSUM_SEED: u8 = 0xEF;

/// Largest request payload.
pub const MAX_DATA_SIZE: usize = 1024;

/// Largest decoded response frame.
pub const MAX_FRAME_SIZE: usize = 1032;

/// Largest encoded request frame.
pub const MAX_ENCODED_SIZE: usize = 2050;

/// Number of responses read while looking for the answer to a request.
pub const RESPONSE_TRIES: usize = 8;

/// Bootloader command codes.
#[derive(Debug, Clone, Copy, PartialEq, Eq, Structural)]
pub enum Command {
    /// Initiate flash download.
    FlashBegin,
    /// Flash data transmission.
    FlashData,
    /// Complete flash download.
    FlashEnd,
    /// Start RAM download.
    MemBegin,
    /// Finish RAM download.
    MemEnd,
    /// RAM data transmission.
    MemData,
    /// Synchronization probe.
    Sync,
    /// Write 32-bit register.
    WriteReg,
    /// Read 32-bit register.
    ReadReg,
    /// Configure SPI flash parameters.
    SpiSetParams,
    /// Enable SPI interface.
    SpiAttach,
    /// Modify baud rate.
    ChangeBaudrate,
    /// Start compressed flash download.
    FlashDeflBegin,
    /// Compressed flash data transmission.
    FlashDeflData,
    /// End compressed flash download.
    FlashDeflEnd,
    /// Hash flash region (MD5).
    SpiFlashMd5,
    /// Read security data.
    GetSecurityInfo,
}

impl Command {
    /// The command's code on the wire.
    pub open spec fn code(self) -> u8 {
        match self {
            Command::FlashBegin => 0x02,
            Command::FlashData => 0x03,
            Command::FlashEnd => 0x04,
            Command::MemBegin => 0x05,
            Command::MemEnd => 0x06,
            Command::MemData => 0x07,
            Command::Sync => 0x08,
            Command::WriteReg => 0x09,
            Command::ReadReg => 0x0A,
            Command::SpiSetParams => 0x0B,
            Command::SpiAttach => 0x0D,
            Command::ChangeBaudrate => 0x0F,
            Command::FlashDeflBegin => 0x10,
            Command::FlashDeflData => 0x11,
            Command::FlashDeflEnd => 0x12,
            Command::SpiFlashMd5 => 0x13,
            Command::GetSecurityInfo => 0x14,
        }
    }

    /// The command's code on the wire.
    pub fn as_u8(self) -> (r: u8)
        ensures
            r == self.code(),
    {
        match self {
            Command::FlashBegin => 0x02,
            Command::FlashData => 0x03,
            Command::FlashEnd => 0x04,
            Command::MemBegin => 0x05,
            Command::MemEnd => 0x06,
            Command::MemData => 0x07,
            Command::Sync => 0x08,
            Command::WriteReg => 0x09,
            Command::ReadReg => 0x0A,
            Command::SpiSetParams => 0x0B,
            Command::SpiAttach => 0x0D,
            Command::ChangeBaudrate => 0x0F,
            Command::FlashDeflBegin => 0x10,
            Command::FlashDeflData => 0x11,
            Command::FlashDeflEnd => 0x12,
            Command::SpiFlashMd5 => 0x13,
            Command::GetSecurityInfo => 0x14,
        }
    }
}

/// Errors that can occur during bootloader communication.
#[derive(Debug, Clone, Copy, PartialEq, Eq)]
pub enum Error<E> {
    /// An I/O error occurred.
    Io(E),
    /// The response had an invalid direction byte.
    InvalidDirection(u8),
    /// The response command didn't match the request.
    CommandMismatch { expected: u8, got: u8 },
    /// The bootloader reported an error.
    BootloaderError(u8),
    /// The response was too short.
    ResponseTooShort,
    /// The SLIP frame was invalid.
    SlipError,
    /// Buffer overflow during SLIP encoding/decoding.
    BufferOverflow,
    /// Timeout waiting for response.
    Timeout,
    /// Sync failed after multiple attempts.
    SyncFailed,
    /// Invalid packet sequence number.
    InvalidSequence { expected: u32, got: u32 },
    /// Data size exceeds maximum.
    DataTooLarge,
}

impl<E> Error<E> {
    /// Whether this error came from the port: a failed write, or a read that did not
    /// deliver a byte.
    pub open spec fn is_port_error(&self) -> bool {
        self is Io || self is Timeout
    }
}

/// Response from the bootloader.
#[derive(Debug, Clone)]
pub struct Response {
    /// The command this is a response to.
    pub command: u8,
    /// The value field (used for READ_REG).
    pub value: u32,
    /// Status byte (0 = success).
    pub status: u8,
    /// Error code (if status != 0).
    pub error: u8,
    /// Response data payload (between header and status bytes).
    pub data: [u8; 256],
    /// Length of valid data in the data array.
    pub data_len: usize,
}

/// The plain contents of a response.
pub struct ResponseView {
    pub command: u8,
    pub value: u32,
    pub status: u8,
    pub error: u8,
    pub data: Seq<u8>,
    pub data_len: nat,
}

impl View for Response {
    type V = ResponseView;

    open spec fn view(&self) -> ResponseView {
        ResponseView {
            command: self.command,
            value: self.value,
            status: self.status,
            error: self.error,
            data: self.data@,
            data_len: self.data_len as nat,
        }
    }
}

/// Security information from the GET_SECURITY_INFO command.
#[derive(Debug, Clone, Copy)]
pub struct SecurityInfo {
    /// Security flags.
    pub flags: u32,
    /// Flash crypt count.
    pub flash_crypt_cnt: u8,
    /// Key purposes (7 bytes).
    pub key_purposes: [u8; 7],
    /// Chip ID.
    pub chip_id: u32,
    /// ECO version.
    pub eco_version: u8,
}

/// SPI flash parameters for the SPI_SET_PARAMS command.
#[derive(Debug, Clone, Copy)]
pub struct SpiParams {
    /// Flash ID.
    pub id: u32,
    /// Total flash size in bytes.
    pub total_size: u32,
    /// Block size in bytes.
    pub block_size: u32,
    /// Sector size in bytes.
    pub sector_size: u32,
    /// Page size in bytes.
    pub page_size: u32,
    /// Status mask.
    pub status_mask: u32,
}

impl Default for SpiParams {
    /// A 4 MiB flash with 64 KiB blocks, 4 KiB sectors and 256-byte pages.
    fn default() -> (p: Self)
        ensures
            p.id == 0,
            p.total_size == 4 * 1024 * 1024,
            p.block_size == 64 * 1024,
            p.sector_size == 4 * 1024,
            p.page_size == 256,
            p.status_mask == 0xFFFF,
    {
        SpiParams {
            id: 0,
            total_size: 4 * 1024 * 1024,
            block_size: 64 * 1024,
            sector_size: 4 * 1024,
            page_size: 256,
            status_mask: 0xFFFF,
        }
    }
}

/// Little-endian bytes of a 16-bit value.
pub open spec fn le16(v: u16) -> Seq<u8> {
    seq![v as u8, (v >> 8u16) as u8]
}

/// Little-endian bytes of a 32-bit value.
pub open spec fn le32(v: u32) -> Seq<u8> {
    seq![v as u8, (v >> 8u32) as u8, (v >> 16u32) as u8, (v >> 24u32) as u8]
}

/// The 32-bit value of four little-endian bytes.
pub open spec fn from_le32(b: Seq<u8>) -> u32 {
    (b[0] as u32) | ((b[1] as u32) << 8u32) | ((b[2] as u32) << 16u32) | ((b[3] as u32) << 24u32)
}

/// The checksum of a data payload: the seed XOR every byte.
pub open spec fn checksum_of(data: Seq<u8>) -> u32 {
    xor_fold(CHECKSUM_SEED, data) as u32
}

/// A request packet before SLIP framing.
pub open spec fn request_packet(code: u8, payload: Seq<u8>, checksum: u32) -> Seq<u8> {
    seq![DIRECTION_REQUEST, code] + le16(payload.len() as u16) + le32(checksum) + payload
}

/// State of the response decoder: the bytes decoded so far and two flags.
pub struct RxState {
    pub buf: Seq<u8>,
    pub in_frame: bool,
    pub in_escape: bool,
}

/// What one received byte does to the response decoder.
pub enum RxStep {
    /// Keep reading in the new state.
    More(RxState),
    /// A complete frame.
    Frame(Seq<u8>),
    /// An escape byte followed by something other than `ESC_END` or `ESC_ESC`.
    Slip,
    /// The frame does not fit the decode buffer.
    Overflow,
}

/// The decoder before the first byte.
pub open spec fn rx_start() -> RxState {
    RxState { buf: Seq::empty(), in_frame: false, in_escape: false }
}

/// One decoder step: bytes before the first `END` are skipped, an `END` after at
/// least one decoded byte ends the frame, and an unknown escape is an error.
pub open spec fn rx_step(s: RxState, b: u8) -> RxStep {
    if b == SLIP_END {
        if s.in_frame && s.buf.len() > 0 {
            RxStep::Frame(s.buf)
        } else {
            RxStep::More(RxState { in_frame: true, in_escape: false, ..s })
        }
    } else if !s.in_frame {
        RxStep::More(s)
    } else if s.in_escape {
        if b != SLIP_ESC_END && b != SLIP_ESC_ESC {
            RxStep::Slip
        } else if s.buf.len() >= MAX_FRAME_SIZE {
            RxStep::Overflow
        } else {
            RxStep::More(RxState {
                buf: s.buf.push(if b == SLIP_ESC_END { SLIP_END } else { SLIP_ESC }),
                in_escape: false,
                ..s
            })
        }
    } else if b == SLIP_ESC {
        RxStep::More(RxState { in_escape: true, ..s })
    } else if s.buf.len() >= MAX_FRAME_SIZE {
        RxStep::Overflow
    } else {
        RxStep::More(RxState { buf: s.buf.push(b), ..s })
    }
}

/// Run the decoder over the incoming bytes: the frame and the number of bytes
/// consumed, or the error; running out of bytes is a timeout.
pub open spec fn rx_run<E>(s: RxState, inc: Seq<u8>) -> Result<(Seq<u8>, nat), Error<E>>
    decreases inc.len(),
{
    if inc.len() == 0 {
        Err(Error::Timeout)
    } else {
        match rx_step(s, inc[0]) {
            RxStep::More(s2) => match rx_run::<E>(s2, inc.drop_first()) {
                Ok((f, n)) => Ok((f, n + 1)),
                Err(e) => Err(e),
            },
            RxStep::Frame(f) => Ok((f, 1)),
            RxStep::Slip => Err(Error::SlipError),
            RxStep::Overflow => Err(Error::BufferOverflow),
        }
    }
}

/// The response that a decoded frame stands for. The status and error bytes are
/// the last two bytes of a frame longer than the 8-byte header; the data lies
/// between the header and the status bytes, at most 256 bytes of it.
pub open spec fn parse_response<E>(f: Seq<u8>) -> Result<ResponseView, Error<E>> {
    let n = f.len();
    if n < 8 {
        Err(Error::ResponseTooShort)
    } else if f[0] != DIRECTION_RESPONSE {
        Err(Error::InvalidDirection(f[0]))
    } else {
        let status: u8 = if n > 8 { f[n - 2] } else { 0 };
        let error: u8 = if n > 8 { f[n - 1] } else { 0 };
        let end: int = if n > 10 { n - 2 } else { 8 };
        let len: int = if end - 8 < 256 { end - 8 } else { 256 };
        Ok(ResponseView {
            command: f[1],
            value: from_le32(f.subrange(4, 8)),
            status,
            error,
            data: f.subrange(8, 8 + len) + Seq::new((256 - len) as nat, |i: int| 0u8),
            data_len: len as nat,
        })
    }
}

/// Read one response frame of any command: the response and the bytes consumed.
pub open spec fn read_any<E>(inc: Seq<u8>) -> Result<(ResponseView, nat), Error<E>> {
    match rx_run::<E>(rx_start(), inc) {
        Ok((f, n)) => match parse_response::<E>(f) {
            Ok(v) => Ok((v, n)),
            Err(e) => Err(e),
        },
        Err(e) => Err(e),
    }
}

/// Read responses until one answers `code`, at most `tries` of them; a matching
/// response with a non-zero status is the bootloader's error.
pub open spec fn search<E>(inc: Seq<u8>, code: u8, tries: nat) -> Result<(ResponseView, nat), Error<E>>
    decreases tries,
{
    if tries == 0 {
        Err(Error::CommandMismatch { expected: code, got: 0 })
    } else {
        match read_any::<E>(inc) {
            Err(e) => Err(e),
            Ok((v, n)) => if v.command == code {
                if v.status != 0 {
                    Err(Error::BootloaderError(v.error))
                } else {
                    Ok((v, n))
                }
            } else {
                match search::<E>(inc.skip(n as int), code, (tries - 1) as nat) {
                    Ok((v2, m)) => Ok((v2, n + m)),
                    Err(e) => Err(e),
                }
            },
        }
    }
}

/// One request and its answer: the response, the bytes consumed and the bytes sent.
/// A request whose frame exceeds the encode buffer is refused before anything is sent.
#[verifier::opaque]
pub open spec fn exchange<E>(inc: Seq<u8>, code: u8, payload: Seq<u8>, checksum: u32) -> Result<
    (ResponseView, nat, Seq<u8>),
    Error<E>,
> {
    let f = frame(request_packet(code, payload, checksum));
    if f.len() > MAX_ENCODED_SIZE {
        Err(Error::BufferOverflow)
    } else {
        match search::<E>(inc, code, RESPONSE_TRIES as nat) {
            Ok((v, n)) => Ok((v, n, f)),
            Err(e) => Err(e),
        }
    }
}

/// An exchange whose result is the value `t` in place of the response.
pub open spec fn with_result<T, E>(ex: Result<(ResponseView, nat, Seq<u8>), Error<E>>, t: T) -> Result<
    (T, nat, Seq<u8>),
    Error<E>,
> {
    match ex {
        Ok((_, n, s)) => Ok((t, n, s)),
        Err(e) => Err(e),
    }
}

/// Whether a result is exactly what `spec` says: on success the value, with exactly
/// the spec's bytes consumed and sent; on failure the spec's error.
pub open spec fn conforms_exact<T, E>(
    spec: Result<(T, nat, Seq<u8>), Error<E>>,
    r: Result<T, Error<E>>,
    inc0: Seq<u8>,
    out0: Seq<u8>,
    inc1: Seq<u8>,
    out1: Seq<u8>,
) -> bool {
    match spec {
        Ok((v, n, s)) => r == Ok::<T, Error<E>>(v) && n <= inc0.len() && inc1 == inc0.skip(n as int) && out1 == out0
            + s,
        Err(e) => r == Err::<T, Error<E>>(e),
    }
}

/// Whether an operation behaved as `spec` says, unless the port failed.
pub open spec fn conforms<T, E>(
    spec: Result<(T, nat, Seq<u8>), Error<E>>,
    r: Result<T, Error<E>>,
    inc0: Seq<u8>,
    out0: Seq<u8>,
    inc1: Seq<u8>,
    out1: Seq<u8>,
) -> bool {
    ||| r matches Err(e) && e.is_port_error()
    ||| conforms_exact(spec, r, inc0, out0, inc1, out1)
}

/// The payload of SYNC: `07 07 12 20` followed by 32 bytes of `0x55`.
pub open spec fn sync_payload() -> Seq<u8> {
    seq![0x07u8, 0x07u8, 0x12u8, 0x20u8] + Seq::new(32, |i: int| 0x55u8)
}

/// What a sync does: two SYNC requests go out, then one response of any command is
/// read; it must answer SYNC.
pub open spec fn sync_spec<E>(inc: Seq<u8>) -> Result<((), nat, Seq<u8>), Error<E>> {
    let f = frame(request_packet(0x08, sync_payload(), 0));
    match read_any::<E>(inc) {
        Err(e) => Err(e),
        Ok((v, n)) => if v.command == 0x08 {
            Ok(((), n, f + f))
        } else {
            Err(Error::SyncFailed)
        },
    }
}

/// An exchange whose result is the response's value field.
pub open spec fn value_of<E>(ex: Result<(ResponseView, nat, Seq<u8>), Error<E>>) -> Result<(u32, nat, Seq<u8>), Error<E>> {
    match ex {
        Ok((v, n, s)) => Ok((v.value, n, s)),
        Err(e) => Err(e),
    }
}

/// The payload of WRITE_REG.
pub open spec fn write_reg_payload(address: u32, value: u32, mask: u32, delay_us: u32) -> Seq<u8> {
    le32(address) + le32(value) + le32(mask) + le32(delay_us)
}

/// The number of blocks of `block` bytes that hold `total` bytes.
pub open spec fn blocks_for(total: u32, block: u32) -> u32 {
    if total % block == 0 {
        (total / block) as u32
    } else {
        (total / block + 1) as u32
    }
}

/// The payload of MEM_BEGIN, FLASH_BEGIN and FLASH_DEFL_BEGIN.
pub open spec fn begin_payload(total: u32, block: u32, offset: u32) -> Seq<u8> {
    le32(total) + le32(blocks_for(total, block)) + le32(block) + le32(offset)
}

/// The payload of a data packet: length, sequence number, two zero words, the data.
pub open spec fn data_payload(data: Seq<u8>, sequence: u32) -> Seq<u8> {
    le32(data.len() as u32) + le32(sequence) + le32(0) + le32(0) + data
}

/// Largest data carried by one data packet.
pub const MAX_BLOCK_DATA: usize = 1008;

/// What sending one data packet does: too much data is refused before anything is sent.
pub open spec fn data_spec<E>(inc: Seq<u8>, code: u8, data: Seq<u8>, sequence: u32) -> Result<((), nat, Seq<u8>), Error<E>> {
    if data.len() > MAX_BLOCK_DATA {
        Err(Error::DataTooLarge)
    } else {
        with_result(exchange::<E>(inc, code, data_payload(data, sequence), checksum_of(data)), ())
    }
}

/// A 32-bit flag word: 0 when `b`, 1 otherwise.
pub open spec fn flag_word(b: bool) -> u32 {
    if b { 0 } else { 1 }
}

/// The payload of SPI_SET_PARAMS.
pub open spec fn spi_params_payload(p: SpiParams) -> Seq<u8> {
    le32(p.id) + le32(p.total_size) + le32(p.block_size) + le32(p.sector_size) + le32(p.page_size) + le32(
        p.status_mask,
    )
}

/// The payload of SPI_FLASH_MD5.
pub open spec fn md5_payload(address: u32, size: u32) -> Seq<u8> {
    le32(address) + le32(size) + le32(0) + le32(0)
}

/// The value of one ASCII hex digit; any other byte counts as 0.
pub open spec fn nibble(c: u8) -> u8 {
    if 0x30 <= c <= 0x39 {
        (c - 0x30) as u8
    } else if 0x61 <= c <= 0x66 {
        (c - 0x61 + 10) as u8
    } else if 0x41 <= c <= 0x46 {
        (c - 0x41 + 10) as u8
    } else {
        0
    }
}

/// The digest carried by an MD5 response: 32 hex digits from the ROM loader, 16 raw
/// bytes from the stub loader, zeros when the data is shorter.
pub open spec fn md5_of(v: ResponseView) -> Seq<u8> {
    if v.data_len == 32 {
        Seq::new(16, |i: int| ((nibble(v.data[2 * i]) as u8) << 4u8) | nibble(v.data[2 * i + 1]))
    } else if v.data_len >= 16 {
        v.data.take(16)
    } else {
        Seq::new(16, |i: int| 0u8)
    }
}

/// Base of the ESP32-S3 SPI1 (flash controller) registers.
pub const SPI1_BASE: u32 = 0x6000_2000;

/// SPI1 command register.
pub const SPI1_CMD_REG: u32 = 0x6000_2000;

/// SPI1 address register.
pub const SPI1_ADDR_REG: u32 = 0x6000_2004;

/// SPI1 user register.
pub const SPI1_USER_REG: u32 = 0x6000_2018;

/// SPI1 user register 1.
pub const SPI1_USER1_REG: u32 = 0x6000_201C;

/// SPI1 user register 2.
pub const SPI1_USER2_REG: u32 = 0x6000_2020;

/// SPI1 data-in length register.
pub const SPI1_MISO_DLEN_REG: u32 = 0x6000_2028;

/// First SPI1 data register.
pub const SPI1_W0_REG: u32 = 0x6000_2098;

/// SPI flash READ command.
pub const SPI_FLASH_READ_CMD: u32 = 0x03;

/// Largest chunk read by one SPI transaction.
pub const READ_CHUNK: usize = 64;

/// Number of polls of the command register while waiting for a transaction.
pub const POLL_TRIES: usize = 100;

/// The USR bit of the command register.
pub const SPI_USR_BIT: u32 = 0x0004_0000;

/// Join two results of consecutive steps: bytes consumed and sent add up.
pub open spec fn then_run<E>(n: nat, s: Seq<u8>, r: Result<(nat, Seq<u8>), Error<E>>) -> Result<(nat, Seq<u8>), Error<E>> {
    match r {
        Ok((m, t)) => Ok((n + m, s + t)),
        Err(e) => Err(e),
    }
}

/// Join a result with bytes read before it.
pub open spec fn then_bytes<E>(b: Seq<u8>, n: nat, s: Seq<u8>, r: Result<(Seq<u8>, nat, Seq<u8>), Error<E>>) -> Result<
    (Seq<u8>, nat, Seq<u8>),
    Error<E>,
> {
    match r {
        Ok((b2, m, t)) => Ok((b + b2, n + m, s + t)),
        Err(e) => Err(e),
    }
}

/// Whether an operation that returns bytes behaved as `spec` says.
pub open spec fn conforms_bytes<E>(
    spec: Result<(Seq<u8>, nat, Seq<u8>), Error<E>>,
    r: Result<Vec<u8>, Error<E>>,
    inc0: Seq<u8>,
    out0: Seq<u8>,
    inc1: Seq<u8>,
    out1: Seq<u8>,
) -> bool {
    &&& r matches Ok(v) ==> spec matches Ok((b, n, s)) && v@ == b && n <= inc0.len() && inc1 == inc0.skip(n as int)
        && out1 == out0 + s
    &&& r matches Err(e) ==> e.is_port_error() || spec == Err::<(Seq<u8>, nat, Seq<u8>), Error<E>>(e)
}

/// What WRITE_REG with a full mask and no delay does.
pub open spec fn set_reg_spec<E>(inc: Seq<u8>, reg: u32, value: u32) -> Result<((), nat, Seq<u8>), Error<E>> {
    with_result(exchange::<E>(inc, 0x09, write_reg_payload(reg, value, 0xFFFF_FFFF, 0), 0), ())
}

/// What READ_REG does.
pub open spec fn get_reg_spec<E>(inc: Seq<u8>, reg: u32) -> Result<(u32, nat, Seq<u8>), Error<E>> {
    value_of(exchange::<E>(inc, 0x0A, le32(reg), 0))
}

/// Registers written, in order, to set up one SPI read of `len` bytes at `addr`.
pub open spec fn read_setup(addr: u32, len: u32) -> Seq<(u32, u32)> {
    seq![
        (SPI1_USER_REG, 0x3800_0000u32),
        (SPI1_USER1_REG, 0x5C00_0000u32),
        (SPI1_USER2_REG, 0x7000_0003u32),
        (SPI1_ADDR_REG, addr << 8u32),
        (SPI1_MISO_DLEN_REG, (len * 8 - 1) as u32),
        (SPI1_CMD_REG, SPI_USR_BIT),
    ]
}

/// Write registers in order.
pub open spec fn run_writes<E>(inc: Seq<u8>, regs: Seq<(u32, u32)>) -> Result<(nat, Seq<u8>), Error<E>>
    decreases regs.len(),
{
    if regs.len() == 0 {
        Ok((0, Seq::empty()))
    } else {
        match set_reg_spec::<E>(inc, regs[0].0, regs[0].1) {
            Err(e) => Err(e),
            Ok((_, n, s)) => then_run(n, s, run_writes::<E>(inc.skip(n as int), regs.drop_first())),
        }
    }
}

/// Poll the command register until the USR bit clears, at most `tries` times.
pub open spec fn poll_spec<E>(inc: Seq<u8>, tries: nat) -> Result<(nat, Seq<u8>), Error<E>>
    decreases tries,
{
    if tries == 0 {
        Ok((0, Seq::empty()))
    } else {
        match get_reg_spec::<E>(inc, SPI1_CMD_REG) {
            Err(e) => Err(e),
            Ok((v, n, s)) => if v & SPI_USR_BIT == 0 {
                Ok((n, s))
            } else {
                then_run(n, s, poll_spec::<E>(inc.skip(n as int), (tries - 1) as nat))
            },
        }
    }
}

/// Read `count` data registers from `reg` on; the little-endian bytes of the words.
pub open spec fn read_words<E>(inc: Seq<u8>, reg: u32, count: nat) -> Result<(Seq<u8>, nat, Seq<u8>), Error<E>>
    decreases count,
{
    if count == 0 {
        Ok((Seq::empty(), 0, Seq::empty()))
    } else {
        match get_reg_spec::<E>(inc, reg) {
            Err(e) => Err(e),
            Ok((w, n, s)) => then_bytes(
                le32(w),
                n,
                s,
                read_words::<E>(inc.skip(n as int), (reg + 4) as u32, (count - 1) as nat),
            ),
        }
    }
}

/// One SPI read of `len` bytes (1 to 64) at `addr`: set up, start, wait, read the words.
pub open spec fn chunk_spec<E>(inc: Seq<u8>, addr: u32, len: nat) -> Result<(Seq<u8>, nat, Seq<u8>), Error<E>> {
    match run_writes::<E>(inc, read_setup(addr, len as u32)) {
        Err(e) => Err(e),
        Ok((n1, s1)) => match poll_spec::<E>(inc.skip(n1 as int), POLL_TRIES as nat) {
            Err(e) => Err(e),
            Ok((n2, s2)) => match read_words::<E>(inc.skip((n1 + n2) as int), SPI1_W0_REG, (len + 3) / 4) {
                Err(e) => Err(e),
                Ok((b, n3, s3)) => Ok((b.take(len as int), n1 + n2 + n3, s1 + s2 + s3)),
            },
        },
    }
}

/// Read `len` bytes of flash at `address`, from `offset` on, in chunks of at most 64 bytes.
pub open spec fn read_flash_spec<E>(inc: Seq<u8>, address: u32, len: nat, offset: nat) -> Result<
    (Seq<u8>, nat, Seq<u8>),
    Error<E>,
>
    decreases len - offset,
{
    if offset >= len {
        Ok((Seq::empty(), 0, Seq::empty()))
    } else {
        let c: nat = if len - offset < READ_CHUNK { (len - offset) as nat } else { READ_CHUNK as nat };
        match chunk_spec::<E>(inc, (address + offset) as u32, c) {
            Err(e) => Err(e),
            Ok((b, n, s)) => then_bytes(b, n, s, read_flash_spec::<E>(inc.skip(n as int), address, len, offset + c)),
        }
    }
}

/// A register-level result as a unit result.
pub open spec fn unit_of<E>(r: Result<(nat, Seq<u8>), Error<E>>) -> Result<((), nat, Seq<u8>), Error<E>> {
    match r {
        Ok((n, s)) => Ok(((), n, s)),
        Err(e) => Err(e),
    }
}

/// Joining consecutive steps does not depend on grouping.
pub proof fn lemma_then_run_assoc<E>(k: nat, a: Seq<u8>, n: nat, s: Seq<u8>, x: Result<(nat, Seq<u8>), Error<E>>)
    ensures
        then_run(k, a, then_run(n, s, x)) == then_run(k + n, a + s, x),
{
    if let Ok((m, t)) = x {
        assert(a + (s + t) =~= (a + s) + t);
    }
}

/// Joining consecutive byte results does not depend on grouping.
pub proof fn lemma_then_bytes_assoc<E>(
    b: Seq<u8>,
    k: nat,
    a: Seq<u8>,
    c: Seq<u8>,
    n: nat,
    s: Seq<u8>,
    x: Result<(Seq<u8>, nat, Seq<u8>), Error<E>>,
)
    ensures
        then_bytes(b, k, a, then_bytes(c, n, s, x)) == then_bytes(b + c, k + n, a + s, x),
{
    if let Ok((d, m, t)) = x {
        assert(a + (s + t) =~= (a + s) + t);
        assert(b + (c + d) =~= (b + c) + d);
    }
}

/// Consecutive chunks of `block` bytes of `data`; the last one may be shorter.
pub open spec fn chunks(data: Seq<u8>, block: nat) -> Seq<Seq<u8>>
    decreases data.len(),
{
    if data.len() == 0 || block == 0 {
        Seq::empty()
    } else if data.len() <= block {
        seq![data]
    } else {
        seq![data.take(block as int)] + chunks(data.skip(block as int), block)
    }
}

/// The smallest multiple of 4 that is at least `n`.
pub open spec fn ceil4(n: nat) -> nat {
    ((n + 3) / 4 * 4) as nat
}

/// A chunk padded with `0xFF` to a multiple of 4 bytes.
pub open spec fn pad4(c: Seq<u8>) -> Seq<u8> {
    c + Seq::new((ceil4(c.len()) - c.len()) as nat, |i: int| 0xFFu8)
}

/// Send each block as a data packet, numbered from `seqno` on (padded when `pad`).
pub open spec fn run_data<E>(inc: Seq<u8>, code: u8, blocks: Seq<Seq<u8>>, pad: bool, seqno: nat) -> Result<
    (nat, Seq<u8>),
    Error<E>,
>
    decreases blocks.len(),
{
    if blocks.len() == 0 {
        Ok((0, Seq::empty()))
    } else {
        let b = if pad { pad4(blocks[0]) } else { blocks[0] };
        match data_spec::<E>(inc, code, b, seqno as u32) {
            Err(e) => Err(e),
            Ok((_, n, s)) => then_run(n, s, run_data::<E>(inc.skip(n as int), code, blocks.drop_first(), pad, seqno + 1)),
        }
    }
}

/// A BEGIN, the data packets and an END.
pub open spec fn download_spec<E>(
    inc: Seq<u8>,
    begin: u8,
    begin_args: Seq<u8>,
    data_code: u8,
    blocks: Seq<Seq<u8>>,
    pad: bool,
    end: u8,
    end_args: Seq<u8>,
) -> Result<((), nat, Seq<u8>), Error<E>> {
    match exchange::<E>(inc, begin, begin_args, 0) {
        Err(e) => Err(e),
        Ok((_, n1, s1)) => match run_data::<E>(inc.skip(n1 as int), data_code, blocks, pad, 0) {
            Err(e) => Err(e),
            Ok((n2, s2)) => match exchange::<E>(inc.skip((n1 + n2) as int), end, end_args, 0) {
                Err(e) => Err(e),
                Ok((_, n3, s3)) => Ok(((), n1 + n2 + n3, s1 + s2 + s3)),
            },
        },
    }
}

/// What writing firmware to flash does: FLASH_BEGIN, one FLASH_DATA per block padded
/// to 4 bytes with `0xFF`, and FLASH_END asking to stay in the bootloader.
pub open spec fn write_flash_spec<E>(inc: Seq<u8>, address: u32, data: Seq<u8>, block_size: u32) -> Result<
    ((), nat, Seq<u8>),
    Error<E>,
> {
    download_spec::<E>(
        inc,
        0x02,
        begin_payload(data.len() as u32, block_size, address),
        0x03,
        chunks(data, block_size as nat),
        true,
        0x04,
        le32(flag_word(false)),
    )
}

/// What writing data to RAM does: MEM_BEGIN, one MEM_DATA per block, and MEM_END.
pub open spec fn write_mem_spec<E>(
    inc: Seq<u8>,
    address: u32,
    data: Seq<u8>,
    block_size: u32,
    execute: bool,
    entry_point: u32,
) -> Result<((), nat, Seq<u8>), Error<E>> {
    download_spec::<E>(
        inc,
        0x05,
        begin_payload(data.len() as u32, block_size, address),
        0x07,
        chunks(data, block_size as nat),
        false,
        0x06,
        le32(flag_word(execute)) + le32(entry_point),
    )
}

#[verifier::external_type_specification]
#[verifier::external_body]
pub struct ExHeaplessString<const N: usize>(heapless::String<N>);

/// The bytes that a partition name holds, in order.
pub uninterp spec fn name_bytes(s: heapless::String<16>) -> Seq<u8>;

/// `heapless::String::new`: an empty name.
#[verifier::external_body]
fn name_new() -> (s: heapless::String<16>)
    ensures
        name_bytes(s) == Seq::<u8>::empty(),
{
    heapless::String::new()
}

/// `heapless::String::push_str`: appends the string's bytes when they fit the
/// capacity of 16 bytes, and changes nothing otherwise.
#[verifier::external_body]
fn name_push_str(s: &mut heapless::String<16>, t: &str) -> (r: Result<(), ()>)
    ensures
        r is Ok <==> name_bytes(*old(s)).len() + t.spec_bytes().len() <= 16,
        r is Ok ==> name_bytes(*final(s)) == name_bytes(*old(s)) + t.spec_bytes(),
        r is Err ==> name_bytes(*final(s)) == name_bytes(*old(s)),
{
    s.push_str(t)
}

/// `core::str::from_utf8`: a string with the same bytes when they are valid UTF-8.
#[verifier::external_body]
pub(crate) fn str_from_utf8(bytes: &[u8]) -> (r: Option<&str>)
    ensures
        r is Some <==> vstd::utf8::valid_utf8(bytes@),
        r matches Some(s) ==> s.spec_bytes() == bytes@,
{
    core::str::from_utf8(bytes).ok()
}

/// A partition table entry from the ESP32 flash.
#[derive(Debug)]
pub struct PartitionEntry {
    /// Partition type (0x00 = app, 0x01 = data).
    pub part_type: u8,
    /// Partition subtype (for app: 0x00 = factory, 0x10+ = OTA).
    pub subtype: u8,
    /// Offset in flash.
    pub offset: u32,
    /// Size in bytes.
    pub size: u32,
    /// Partition name (up to 16 bytes).
    pub name: heapless::String<16>,
    /// Flags.
    pub flags: u32,
}

/// The plain contents of a partition entry.
pub struct PartitionEntryView {
    pub part_type: u8,
    pub subtype: u8,
    pub offset: u32,
    pub size: u32,
    pub name: Seq<u8>,
    pub flags: u32,
}

impl View for PartitionEntry {
    type V = PartitionEntryView;

    open spec fn view(&self) -> PartitionEntryView {
        PartitionEntryView {
            part_type: self.part_type,
            subtype: self.subtype,
            offset: self.offset,
            size: self.size,
            name: name_bytes(self.name),
            flags: self.flags,
        }
    }
}

/// The name of a partition type.
pub open spec fn type_name_of(part_type: u8) -> Seq<char> {
    match part_type {
        0x00 => "app"@,
        0x01 => "data"@,
        _ => "unknown"@,
    }
}

/// The name of a partition subtype.
pub open spec fn subtype_name_of(part_type: u8, subtype: u8) -> Seq<char> {
    if part_type == 0x00 && subtype == 0x00 {
        "factory"@
    } else if part_type == 0x00 && 0x10 <= subtype <= 0x1F {
        "ota"@
    } else if part_type == 0x00 && subtype == 0x20 {
        "test"@
    } else if part_type == 0x01 && subtype == 0x00 {
        "ota_data"@
    } else if part_type == 0x01 && subtype == 0x01 {
        "phy"@
    } else if part_type == 0x01 && subtype == 0x02 {
        "nvs"@
    } else if part_type == 0x01 && subtype == 0x03 {
        "coredump"@
    } else if part_type == 0x01 && subtype == 0x04 {
        "nvs_keys"@
    } else if part_type == 0x01 && subtype == 0x05 {
        "efuse"@
    } else if part_type == 0x01 && subtype == 0x80 {
        "esphttpd"@
    } else if part_type == 0x01 && subtype == 0x81 {
        "fat"@
    } else if part_type == 0x01 && subtype == 0x82 {
        "spiffs"@
    } else {
        "unknown"@
    }
}

impl PartitionEntry {
    /// Check if this is an app partition.
    pub fn is_app(&self) -> (r: bool)
        ensures
            r == (self.part_type == 0x00),
    {
        self.part_type == 0x00
    }

    /// Check if this is the factory app partition.
    pub fn is_factory_app(&self) -> (r: bool)
        ensures
            r == (self.part_type == 0x00 && self.subtype == 0x00),
    {
        self.part_type == 0x00 && self.subtype == 0x00
    }

    /// Get a human-readable name of the partition type.
    pub fn partition_type_name(&self) -> (r: &'static str)
        ensures
            r@ == type_name_of(self.part_type),
    {
        match self.part_type {
            0x00 => "app",
            0x01 => "data",
            _ => "unknown",
        }
    }

    /// Get a human-readable subtype name.
    pub fn subtype_name(&self) -> (r: &'static str)
        ensures
            r@ == subtype_name_of(self.part_type, self.subtype),
    {
        let t = self.part_type;
        let s = self.subtype;
        if t == 0x00 && s == 0x00 {
            "factory"
        } else if t == 0x00 && 0x10 <= s && s <= 0x1F {
            "ota"
        } else if t == 0x00 && s == 0x20 {
            "test"
        } else if t == 0x01 && s == 0x00 {
            "ota_data"
        } else if t == 0x01 && s == 0x01 {
            "phy"
        } else if t == 0x01 && s == 0x02 {
            "nvs"
        } else if t == 0x01 && s == 0x03 {
            "coredump"
        } else if t == 0x01 && s == 0x04 {
            "nvs_keys"
        } else if t == 0x01 && s == 0x05 {
            "efuse"
        } else if t == 0x01 && s == 0x80 {
            "esphttpd"
        } else if t == 0x01 && s == 0x81 {
            "fat"
        } else if t == 0x01 && s == 0x82 {
            "spiffs"
        } else {
            "unknown"
        }
    }
}

/// The entries that a partition list holds, in order.
pub uninterp spec fn partition_list(v: heapless::Vec<PartitionEntry, 16>) -> Seq<PartitionEntryView>;

/// `heapless::Vec::new`: an empty partition list.
#[verifier::external_body]
fn partition_list_new() -> (v: heapless::Vec<PartitionEntry, 16>)
    ensures
        partition_list(v) == Seq::<PartitionEntryView>::empty(),
{
    heapless::Vec::new()
}

/// `heapless::Vec::push`: appends when the list holds fewer than 16 entries and
/// hands the entry back otherwise.
#[verifier::external_body]
fn partition_list_push(v: &mut heapless::Vec<PartitionEntry, 16>, e: PartitionEntry) -> (r: Result<
    (),
    PartitionEntry,
>)
    ensures
        r is Ok <==> partition_list(*old(v)).len() < 16,
        r is Ok ==> partition_list(*final(v)) == partition_list(*old(v)).push(e@),
        r is Err ==> partition_list(*final(v)) == partition_list(*old(v)),
        r matches Err(x) ==> x@ == e@,
{
    v.push(e)
}

/// Flash offset of the partition table.
pub const PARTITION_TABLE_OFFSET: u32 = 0x8000;

/// Size of one partition table entry.
pub const PARTITION_ENTRY_SIZE: u32 = 32;

/// Index of the first zero byte of `s`, or its length when it holds none.
pub open spec fn first_zero(s: Seq<u8>) -> nat
    decreases s.len(),
{
    if s.len() == 0 {
        0
    } else if s[0] == 0 {
        0
    } else {
        1 + first_zero(s.drop_first())
    }
}

/// The name of a raw entry: bytes 12 to 28 up to the first zero, kept when they are
/// valid UTF-8 and empty otherwise.
pub open spec fn entry_name(e: Seq<u8>) -> Seq<u8> {
    let raw = e.subrange(12, 28);
    let n = raw.take(first_zero(raw) as int);
    if vstd::utf8::valid_utf8(n) {
        n
    } else {
        Seq::empty()
    }
}

/// A raw 32-byte entry decoded.
pub open spec fn parse_entry(e: Seq<u8>) -> PartitionEntryView {
    PartitionEntryView {
        part_type: e[2],
        subtype: e[3],
        offset: from_le32(e.subrange(4, 8)),
        size: from_le32(e.subrange(8, 12)),
        name: entry_name(e),
        flags: from_le32(e.subrange(28, 32)),
    }
}

/// Join entries found with those found after them.
pub open spec fn then_entries<E>(
    a: Seq<PartitionEntryView>,
    n: nat,
    s: Seq<u8>,
    r: Result<(Seq<PartitionEntryView>, nat, Seq<u8>), Error<E>>,
) -> Result<(Seq<PartitionEntryView>, nat, Seq<u8>), Error<E>> {
    match r {
        Ok((b, m, t)) => Ok((a + b, n + m, s + t)),
        Err(e) => Err(e),
    }
}

/// Read the partition table from entry `i` on: an entry with magic `AA 50` is kept,
/// the MD5 marker `EB EB` or an erased entry `FF FF` ends the table, and any other
/// entry is skipped; at most 16 entries are read.
pub open spec fn partition_run<E>(inc: Seq<u8>, i: nat) -> Result<(Seq<PartitionEntryView>, nat, Seq<u8>), Error<E>>
    decreases 16 - i,
{
    if i >= 16 {
        Ok((Seq::empty(), 0, Seq::empty()))
    } else {
        match read_flash_spec::<E>(inc, (PARTITION_TABLE_OFFSET + i * PARTITION_ENTRY_SIZE) as u32, 32, 0) {
            Err(e) => Err(e),
            Ok((e, n, s)) => if e[0] == 0xAA && e[1] == 0x50 {
                then_entries(seq![parse_entry(e)], n, s, partition_run::<E>(inc.skip(n as int), i + 1))
            } else if (e[0] == 0xEB && e[1] == 0xEB) || (e[0] == 0xFF && e[1] == 0xFF) {
                Ok((Seq::empty(), n, s))
            } else {
                then_entries(Seq::empty(), n, s, partition_run::<E>(inc.skip(n as int), i + 1))
            },
        }
    }
}

/// Entry `i` of the partition table is read from flash address `0x8000 + 32 * i`:
/// reading the table from entry `i` on fails as that flash read fails; otherwise it
/// first sends what that read sends, consumes at least what it consumes, and an
/// entry with the magic `AA 50` found there is the first one listed.
pub proof fn lemma_partition_entry_address<E>(inc: Seq<u8>, i: nat)
    requires
        i < 16,
    ensures
        (match read_flash_spec::<E>(inc, (0x8000 + 32 * i) as u32, 32, 0) {
            Err(x) => partition_run::<E>(inc, i) == Err::<(Seq<PartitionEntryView>, nat, Seq<u8>), Error<E>>(x),
            Ok((e, n, s)) => partition_run::<E>(inc, i) matches Ok((es, m, t)) ==> {
                &&& n <= m
                &&& s.len() <= t.len()
                &&& t.subrange(0, s.len() as int) == s
                &&& (e[0] == 0xAA && e[1] == 0x50) ==> es.len() >= 1 && es[0] == parse_entry(e)
            },
        }),
{
    assert((PARTITION_TABLE_OFFSET + i * PARTITION_ENTRY_SIZE) as u32 == (0x8000 + 32 * i) as u32);
    if let Ok((e, n, s)) = read_flash_spec::<E>(inc, (0x8000 + 32 * i) as u32, 32, 0) {
        if let Ok((es, m, t)) = partition_run::<E>(inc, i) {
            if e[0] == 0xAA && e[1] == 0x50 {
                let rest = partition_run::<E>(inc.skip(n as int), i + 1);
                if let Ok((b, m2, t2)) = rest {
                    assert((s + t2).subrange(0, s.len() as int) =~= s);
                }
            } else if (e[0] == 0xEB && e[1] == 0xEB) || (e[0] == 0xFF && e[1] == 0xFF) {
                assert(t.subrange(0, s.len() as int) =~= s);
            } else {
                let rest = partition_run::<E>(inc.skip(n as int), i + 1);
                if let Ok((b, m2, t2)) = rest {
                    assert((s + t2).subrange(0, s.len() as int) =~= s);
                }
            }
        }
    }
}

/// Decode a raw 32-byte entry.
fn decode_entry(e: &[u8; 32]) -> (r: PartitionEntry)
    ensures
        r@ == parse_entry(e@),
{
    let ghost raw = e@.subrange(12, 28);
    let mut name_len: usize = 0;
    assert(raw.skip(0) =~= raw);
    while name_len < 16 && e[12 + name_len] != 0
        invariant
            name_len <= 16,
            raw == e@.subrange(12, 28),
            first_zero(raw) == name_len + first_zero(raw.skip(name_len as int)),
        decreases 16 - name_len,
    {
        assert(raw.skip(name_len as int).drop_first() =~= raw.skip(name_len + 1));
        name_len = name_len + 1;
    }
    proof {
        if name_len == 16 {
            assert(raw.skip(16) =~= Seq::<u8>::empty());
        }
    }
    let name_slice = &e[12..12 + name_len];
    assert(name_slice@ =~= raw.take(first_zero(raw) as int));
    let mut name = name_new();
    match str_from_utf8(name_slice) {
        Some(s) => {
            let _ = name_push_str(&mut name, s);
        },
        None => {},
    }
    let offset = le32_value(e[4], e[5], e[6], e[7]);
    let size = le32_value(e[8], e[9], e[10], e[11]);
    let flags = le32_value(e[28], e[29], e[30], e[31]);
    assert(e@.subrange(4, 8) =~= seq![e[4], e[5], e[6], e[7]]);
    assert(e@.subrange(8, 12) =~= seq![e[8], e[9], e[10], e[11]]);
    assert(e@.subrange(28, 32) =~= seq![e[28], e[29], e[30], e[31]]);
    let entry = PartitionEntry { part_type: e[2], subtype: e[3], offset, size, name, flags };
    assert(name_bytes(entry.name) =~= entry_name(e@));
    entry
}


/// Run the decoder over all of `a`: the state after it, unless a frame ended or an
/// error occurred on the way.
pub open spec fn rx_walk(s: RxState, a: Seq<u8>) -> Option<RxState>
    decreases a.len(),
{
    if a.len() == 0 {
        Some(s)
    } else {
        match rx_step(s, a[0]) {
            RxStep::More(s2) => rx_walk(s2, a.drop_first()),
            _ => None,
        }
    }
}

/// Decoding `a + b` where `a` leaves the decoder in state `s2` is decoding `b` from `s2`.
proof fn lemma_rx_run_after_walk<E>(s: RxState, a: Seq<u8>, b: Seq<u8>)
    requires
        rx_walk(s, a) is Some,
    ensures
        rx_run::<E>(s, a + b) == add_consumed(rx_run::<E>(rx_walk(s, a)->0, b), a.len()),
    decreases a.len(),
{
    if a.len() == 0 {
        assert(a + b =~= b);
        if let Ok((f, n)) = rx_run::<E>(s, b) {
        }
    } else {
        assert((a + b)[0] == a[0]);
        assert((a + b).drop_first() =~= a.drop_first() + b);
        let s2 = rx_step(s, a[0])->More_0;
        lemma_rx_run_after_walk::<E>(s2, a.drop_first(), b);
    }
}

/// Walking over `a + b` is walking over `a`, then over `b`.
proof fn lemma_rx_walk_append(s: RxState, a: Seq<u8>, b: Seq<u8>)
    ensures
        rx_walk(s, a + b) == (match rx_walk(s, a) {
            Some(s2) => rx_walk(s2, b),
            None => None,
        }),
    decreases a.len(),
{
    if a.len() == 0 {
        assert(a + b =~= b);
    } else {
        assert((a + b)[0] == a[0]);
        assert((a + b).drop_first() =~= a.drop_first() + b);
        if let RxStep::More(s2) = rx_step(s, a[0]) {
            lemma_rx_walk_append(s2, a.drop_first(), b);
        }
    }
}

/// Inside a frame, the escaped form of a payload that fits decodes to that payload.
proof fn lemma_rx_walk_escaped(buf: Seq<u8>, data: Seq<u8>)
    requires
        buf.len() + data.len() <= MAX_FRAME_SIZE,
    ensures
        rx_walk(RxState { buf, in_frame: true, in_escape: false }, escape(data)) == Some(
            RxState { buf: buf + data, in_frame: true, in_escape: false },
        ),
    decreases data.len(),
{
    if data.len() == 0 {
        assert(buf + data =~= buf);
    } else {
        let init = data.drop_last();
        let b = data.last();
        lemma_rx_walk_escaped(buf, init);
        lemma_rx_walk_append(RxState { buf, in_frame: true, in_escape: false }, escape(init), escape_byte(b));
        let mid = RxState { buf: buf + init, in_frame: true, in_escape: false };
        assert((buf + init).push(b) =~= buf + data);
        let e = escape_byte(b);
        if b == SLIP_END || b == SLIP_ESC {
            assert(e.drop_first() =~= seq![e[1]]);
            assert(e.drop_first().drop_first() =~= Seq::<u8>::empty());
            reveal_with_fuel(rx_walk, 3);
        } else {
            assert(e.drop_first() =~= Seq::<u8>::empty());
            reveal_with_fuel(rx_walk, 2);
        }
    }
}

/// The response decoder reads back what the SLIP encoder writes: the frame of a
/// payload of 1 to 1032 bytes, followed by anything, decodes to exactly that payload
/// and consumes exactly the frame.
pub proof fn lemma_rx_frame_roundtrip<E>(payload: Seq<u8>, rest: Seq<u8>)
    requires
        1 <= payload.len() <= MAX_FRAME_SIZE,
    ensures
        rx_run::<E>(rx_start(), frame(payload) + rest) == Ok::<(Seq<u8>, nat), Error<E>>(
            (payload, frame(payload).len()),
        ),
{
    let inside = RxState { buf: Seq::empty(), in_frame: true, in_escape: false };
    let full = RxState { buf: payload, in_frame: true, in_escape: false };
    let e = escape(payload);
    assert(frame(payload) + rest =~= (seq![SLIP_END] + e) + (seq![SLIP_END] + rest));
    reveal_with_fuel(rx_walk, 2);
    assert(seq![SLIP_END].drop_first() =~= Seq::<u8>::empty());
    assert(rx_walk(rx_start(), seq![SLIP_END]) == Some(inside));
    lemma_rx_walk_escaped(Seq::empty(), payload);
    assert(Seq::<u8>::empty() + payload =~= payload);
    lemma_rx_walk_append(rx_start(), seq![SLIP_END], e);
    lemma_rx_run_after_walk::<E>(rx_start(), seq![SLIP_END] + e, seq![SLIP_END] + rest);
    assert((seq![SLIP_END] + rest)[0] == SLIP_END);
    assert(rx_run::<E>(full, seq![SLIP_END] + rest) == Ok::<(Seq<u8>, nat), Error<E>>((payload, 1)));
}
/// A decoder result with `k` more bytes consumed.
pub open spec fn add_consumed<E>(r: Result<(Seq<u8>, nat), Error<E>>, k: nat) -> Result<(Seq<u8>, nat), Error<E>> {
    match r {
        Ok((f, n)) => Ok((f, n + k)),
        Err(e) => Err(e),
    }
}

/// A search result with `k` more bytes consumed.
pub open spec fn add_used<E>(r: Result<(ResponseView, nat), Error<E>>, k: nat) -> Result<(ResponseView, nat), Error<E>> {
    match r {
        Ok((v, n)) => Ok((v, n + k)),
        Err(e) => Err(e),
    }
}

/// Append the little-endian bytes of `x`.
fn push_le32(v: &mut Vec<u8>, x: u32)
    ensures
        final(v)@ == old(v)@ + le32(x),
{
    v.push(x as u8);
    v.push((x >> 8) as u8);
    v.push((x >> 16) as u8);
    v.push((x >> 24) as u8);
    assert(final(v)@ =~= old(v)@ + le32(x));
}

/// Append every byte of `data`.
fn push_bytes(v: &mut Vec<u8>, data: &[u8])
    ensures
        final(v)@ == old(v)@ + data@,
{
    let mut i: usize = 0;
    while i < data.len()
        invariant
            i <= data@.len(),
            v@ == old(v)@ + data@.take(i as int),
        decreases data@.len() - i,
    {
        v.push(data[i]);
        assert(data@.take(i + 1) =~= data@.take(i as int).push(data@[i as int]));
        i = i + 1;
    }
    assert(data@.take(data@.len() as int) =~= data@);
}

/// Copy `bytes` into `data` at `offset`.
fn copy_into(data: &mut [u8], offset: usize, bytes: &Vec<u8>)
    requires
        offset + bytes@.len() <= old(data)@.len(),
    ensures
        final(data)@.len() == old(data)@.len(),
        final(data)@.take(offset + bytes@.len()) == old(data)@.take(offset as int) + bytes@,
{
    let mut j: usize = 0;
    while j < bytes.len()
        invariant
            j <= bytes@.len(),
            offset + bytes@.len() <= data@.len(),
            data@.len() == old(data)@.len(),
            data@.len() == data.len(),
            data@.take(offset as int) == old(data)@.take(offset as int),
            forall|t: int| 0 <= t < j ==> data@[offset + t] == bytes@[t],
        decreases bytes@.len() - j,
    {
        data[offset + j] = bytes[j];
        j = j + 1;
    }
    assert(data@.take(offset + bytes@.len()) =~= old(data)@.take(offset as int) + bytes@);
}

/// The request packet for a command, before SLIP framing.
fn build_request(code: u8, data: &[u8], checksum: u32) -> (r: Vec<u8>)
    requires
        data@.len() <= MAX_DATA_SIZE,
    ensures
        r@ == request_packet(code, data@, checksum),
{
    let mut p: Vec<u8> = Vec::new();
    p.push(DIRECTION_REQUEST);
    p.push(code);
    let size = data.len() as u16;
    p.push(size as u8);
    p.push((size >> 8) as u8);
    push_le32(&mut p, checksum);
    push_bytes(&mut p, data);
    assert(p@ =~= request_packet(code, data@, checksum));
    p
}

/// The 32-bit value of four little-endian bytes.
fn le32_value(b0: u8, b1: u8, b2: u8, b3: u8) -> (r: u32)
    ensures
        r == from_le32(seq![b0, b1, b2, b3]),
{
    (b0 as u32) | ((b1 as u32) << 8) | ((b2 as u32) << 16) | ((b3 as u32) << 24)
}

/// ESP32 bootloader client.
///
/// Wraps a serial connection (reader and writer) and provides methods
/// for interacting with the ESP32 ROM bootloader.
pub struct Bootloader<R, W> {
    reader: R,
    writer: W,
}

impl<R, W> Bootloader<R, W> {
    /// The reader half.
    pub closed spec fn reader(&self) -> R {
        self.reader
    }

    /// The writer half.
    pub closed spec fn writer(&self) -> W {
        self.writer
    }

    /// Create a new bootloader client from reader and writer halves.
    pub fn new(reader: R, writer: W) -> (b: Self)
        ensures
            b.reader() == reader,
            b.writer() == writer,
    {
        Bootloader { reader, writer }
    }

    /// Consume the bootloader client and return the reader and writer.
    pub fn into_inner(self) -> (r: (R, W))
        ensures
            r.0 == self.reader(),
            r.1 == self.writer(),
    {
        (self.reader, self.writer)
    }
}

impl<R: CtlPort, W: CtlPort<Error = R::Error>> Bootloader<R, W> {
    /// The bytes that the reader will deliver next.
    pub open spec fn inc(self) -> Seq<u8> {
        self.reader().incoming()
    }

    /// The bytes written so far.
    pub open spec fn out(self) -> Seq<u8> {
        self.writer().outgoing()
    }

    /// Both halves work: writes succeed, reads deliver what is coming.
    pub open spec fn ports_healthy(self) -> bool {
        self.reader().healthy() && self.writer().healthy()
    }

    /// Whether going from `self` to `next` with result `r` is what `spec` describes:
    /// exactly so when both ports work (a read past the incoming bytes is then the
    /// spec's timeout), else unless a port failed.
    pub open spec fn stepped<T>(
        self,
        next: Self,
        spec: Result<(T, nat, Seq<u8>), Error<R::Error>>,
        r: Result<T, Error<R::Error>>,
    ) -> bool {
        &&& conforms(spec, r, self.inc(), self.out(), next.inc(), next.out())
        &&& self.ports_healthy() ==> next.ports_healthy() && conforms_exact(
            spec,
            r,
            self.inc(),
            self.out(),
            next.inc(),
            next.out(),
        )
    }

    /// Calculate the checksum of a data payload.
    pub fn checksum(data: &[u8]) -> (r: u32)
        ensures
            r == checksum_of(data@),
    {
        let mut checksum: u8 = CHECKSUM_SEED;
        let mut i: usize = 0;
        while i < data.len()
            invariant
                i <= data@.len(),
                checksum == xor_fold(CHECKSUM_SEED, data@.take(i as int)),
            decreases data@.len() - i,
        {
            assert(data@.take(i + 1).drop_last() =~= data@.take(i as int));
            checksum = checksum ^ data[i];
            i = i + 1;
        }
        assert(data@.take(data@.len() as int) =~= data@);
        checksum as u32
    }

    fn read_byte(&mut self) -> (r: Result<u8, Error<R::Error>>)
        ensures
            final(self).writer() == old(self).writer(),
            r matches Ok(b) ==> {
                &&& old(self).inc().len() >= 1
                &&& b == old(self).inc()[0]
                &&& final(self).inc() == old(self).inc().skip(1)
            },
            r matches Err(e) ==> e is Timeout,
            old(self).reader().healthy() ==> final(self).reader().healthy() && (r is Ok <==> old(self).inc().len()
                >= 1),
    {
        let mut buf: [u8; 1] = [0u8];
        match self.reader.read_exact(&mut buf) {
            Ok(()) => {
                assert(buf@[0] == old(self).inc().take(1)[0]);
                Ok(buf[0])
            },
            Err(_) => Err(Error::Timeout),
        }
    }

    /// SLIP-encode `data` and write it, then flush.
    fn send_slip_packet(&mut self, data: &[u8]) -> (r: Result<(), Error<R::Error>>)
        ensures
            final(self).reader() == old(self).reader(),
            r is Ok ==> frame(data@).len() <= MAX_ENCODED_SIZE && final(self).out() == old(self).out()
                + frame(data@),
            r matches Err(e) ==> e is Io || (frame(data@).len() > MAX_ENCODED_SIZE && e is BufferOverflow),
            old(self).writer().healthy() ==> final(self).writer().healthy() && (r is Ok <==> frame(data@).len()
                <= MAX_ENCODED_SIZE) && (r matches Err(e) ==> e is BufferOverflow),
    {
        let encoded = encode(data);
        if encoded.len() > MAX_ENCODED_SIZE {
            return Err(Error::BufferOverflow);
        }
        match self.writer.write_all(encoded.as_slice()) {
            Ok(()) => {},
            Err(e) => {
                return Err(Error::Io(e));
            },
        }
        match self.writer.flush() {
            Ok(()) => Ok(()),
            Err(e) => Err(Error::Io(e)),
        }
    }

    /// Send a request without reading its response.
    fn send_slip_packet_with_command(&mut self, command: Command, data: &[u8], checksum: u32) -> (r: Result<
        (),
        Error<R::Error>,
    >)
        requires
            data@.len() <= MAX_DATA_SIZE,
        ensures
            final(self).reader() == old(self).reader(),
            ({
                let f = frame(request_packet(command.code(), data@, checksum));
                &&& r is Ok ==> f.len() <= MAX_ENCODED_SIZE && final(self).out() == old(self).out() + f
                &&& r matches Err(e) ==> e is Io || (f.len() > MAX_ENCODED_SIZE && e is BufferOverflow)
                &&& old(self).writer().healthy() ==> final(self).writer().healthy() && (r is Ok <==> f.len()
                    <= MAX_ENCODED_SIZE) && (r matches Err(e) ==> e is BufferOverflow)
            }),
    {
        let packet = build_request(command.as_u8(), data, checksum);
        self.send_slip_packet(packet.as_slice())
    }

    /// Read one SLIP frame from the reader, one byte at a time.
    fn read_frame(&mut self) -> (r: Result<Vec<u8>, Error<R::Error>>)
        ensures
            final(self).writer() == old(self).writer(),
            r matches Ok(f) ==> rx_run::<R::Error>(rx_start(), old(self).inc()) matches Ok((f2, n)) && f2
                == f@ && n <= old(self).inc().len() && final(self).inc() == old(self).inc().skip(n as int),
            r matches Err(e) ==> e is Timeout || rx_run::<R::Error>(rx_start(), old(self).inc()) == Err::<
                (Seq<u8>, nat),
                Error<R::Error>,
            >(e),
            old(self).reader().healthy() ==> final(self).reader().healthy() && (r matches Err(e) ==> rx_run::<
                R::Error,
            >(rx_start(), old(self).inc()) == Err::<(Seq<u8>, nat), Error<R::Error>>(e)),
    {
        let ghost inc0 = self.inc();
        let mut decoded: Vec<u8> = Vec::new();
        let mut in_frame = false;
        let mut in_escape = false;
        let ghost mut k: nat = 0;
        assert(inc0.skip(0) =~= inc0);
        loop
            invariant_except_break
                k <= inc0.len(),
                self.inc() == inc0.skip(k as int),
                rx_run::<R::Error>(rx_start(), inc0) == add_consumed(
                    rx_run::<R::Error>(RxState { buf: decoded@, in_frame, in_escape }, inc0.skip(k as int)),
                    k,
                ),
            invariant
                self.writer == old(self).writer,
                inc0 == old(self).inc(),
                old(self).reader().healthy() ==> self.reader().healthy(),
            ensures
                k <= inc0.len(),
                self.writer == old(self).writer,
                self.inc() == inc0.skip(k as int),
                rx_run::<R::Error>(rx_start(), inc0) == Ok::<(Seq<u8>, nat), Error<R::Error>>((decoded@, k)),
            decreases inc0.len() - k,
        {
            let ghost cur = inc0.skip(k as int);
            let ghost st = RxState { buf: decoded@, in_frame, in_escape };
            assert(rx_run::<R::Error>(rx_start(), inc0) == add_consumed(rx_run::<R::Error>(st, cur), k));
            let b = match self.read_byte() {
                Ok(b) => b,
                Err(e) => {
                    proof {
                        if old(self).reader().healthy() {
                            assert(cur.len() == 0);
                        }
                    }
                    return Err(e);
                },
            };
            proof {
                assert(cur[0] == b);
                assert(cur.drop_first() =~= inc0.skip((k + 1) as int));
            }
            if b == SLIP_END {
                if in_frame && decoded.len() > 0 {
                    proof {
                        assert(rx_run::<R::Error>(st, cur) == Ok::<(Seq<u8>, nat), Error<R::Error>>((decoded@, 1)));
                        k = k + 1;
                    }
                    break;
                }
                in_frame = true;
                in_escape = false;
                proof {
                    k = k + 1;
                }
                continue;
            }
            if !in_frame {
                proof {
                    k = k + 1;
                }
                continue;
            }
            if in_escape {
                in_escape = false;
                let db: u8 = if b == SLIP_ESC_END {
                    SLIP_END
                } else if b == SLIP_ESC_ESC {
                    SLIP_ESC
                } else {
                    assert(rx_run::<R::Error>(st, cur) == Err::<(Seq<u8>, nat), Error<R::Error>>(Error::SlipError));
                    assert(rx_run::<R::Error>(rx_start(), inc0) == Err::<(Seq<u8>, nat), Error<R::Error>>(Error::SlipError));
                    return Err(Error::SlipError);
                };
                if decoded.len() >= MAX_FRAME_SIZE {
                    assert(rx_step(st, b) == RxStep::Overflow);
                    assert(rx_run::<R::Error>(st, cur) == Err::<(Seq<u8>, nat), Error<R::Error>>(Error::BufferOverflow));
                    return Err(Error::BufferOverflow);
                }
                decoded.push(db);
            } else if b == SLIP_ESC {
                in_escape = true;
            } else {
                if decoded.len() >= MAX_FRAME_SIZE {
                    assert(rx_step(st, b) == RxStep::Overflow);
                    assert(rx_run::<R::Error>(st, cur) == Err::<(Seq<u8>, nat), Error<R::Error>>(Error::BufferOverflow));
                    return Err(Error::BufferOverflow);
                }
                decoded.push(b);
            }
            proof {
                k = k + 1;
            }
        }
        Ok(decoded)
    }

    /// Read a response without checking the command type.
    /// Returns (command, response) on success.
    fn read_response_any(&mut self) -> (r: Result<(u8, Response), Error<R::Error>>)
        ensures
            final(self).writer() == old(self).writer(),
            r matches Ok((c, resp)) ==> read_any::<R::Error>(old(self).inc()) matches Ok((v, n)) && v
                == resp@ && c == v.command && n <= old(self).inc().len() && final(self).inc()
                == old(self).inc().skip(n as int),
            r matches Err(e) ==> e is Timeout || read_any::<R::Error>(old(self).inc()) == Err::<
                (ResponseView, nat),
                Error<R::Error>,
            >(e),
            old(self).reader().healthy() ==> final(self).reader().healthy() && (r matches Err(e) ==> read_any::<
                R::Error,
            >(old(self).inc()) == Err::<(ResponseView, nat), Error<R::Error>>(e)),
    {
        let decoded = self.read_frame()?;
        let ghost f = decoded@;
        let pos = decoded.len();
        if pos < 8 {
            return Err(Error::ResponseTooShort);
        }
        let direction = decoded[0];
        if direction != DIRECTION_RESPONSE {
            return Err(Error::InvalidDirection(direction));
        }
        let command = decoded[1];
        let value = le32_value(decoded[4], decoded[5], decoded[6], decoded[7]);
        assert(f.subrange(4, 8) =~= seq![decoded[4], decoded[5], decoded[6], decoded[7]]);
        let status: u8 = if pos > 8 {
            decoded[pos - 2]
        } else {
            0
        };
        let error: u8 = if pos > 8 {
            decoded[pos - 1]
        } else {
            0
        };
        let data_end: usize = if pos > 10 {
            pos - 2
        } else {
            8
        };
        let data_len: usize = if data_end - 8 < 256 {
            data_end - 8
        } else {
            256
        };
        let mut data: [u8; 256] = [0u8; 256];
        let mut i: usize = 0;
        while i < data_len
            invariant
                i <= data_len <= 256,
                8 + data_len <= decoded@.len(),
                data@.len() == 256,
                forall|j: int| 0 <= j < i ==> data@[j] == decoded@[8 + j],
                forall|j: int| i <= j < 256 ==> data@[j] == 0u8,
            decreases data_len - i,
        {
            data[i] = decoded[8 + i];
            i = i + 1;
        }
        let response = Response { command, value, status, error, data, data_len };
        proof {
            let ghost len = data_len as int;
            assert(data@ =~= f.subrange(8, 8 + len) + Seq::new((256 - len) as nat, |i: int| 0u8));
        }
        Ok((command, response))
    }

    /// Read responses until one answers `expected`, skipping up to eight others
    /// (such as leftover sync responses).
    fn read_response(&mut self, expected: Command) -> (r: Result<Response, Error<R::Error>>)
        ensures
            final(self).writer() == old(self).writer(),
            r matches Ok(resp) ==> search::<R::Error>(old(self).inc(), expected.code(), RESPONSE_TRIES as nat)
                matches Ok((v, n)) && v == resp@ && n <= old(self).inc().len() && final(self).inc()
                == old(self).inc().skip(n as int),
            r matches Err(e) ==> e is Timeout || search::<R::Error>(
                old(self).inc(),
                expected.code(),
                RESPONSE_TRIES as nat,
            ) == Err::<(ResponseView, nat), Error<R::Error>>(e),
            old(self).reader().healthy() ==> final(self).reader().healthy() && (r matches Err(e) ==> search::<
                R::Error,
            >(old(self).inc(), expected.code(), RESPONSE_TRIES as nat) == Err::<(ResponseView, nat), Error<R::Error>>(
                e,
            )),
    {
        let code = expected.as_u8();
        let ghost inc0 = self.inc();
        let ghost mut k: nat = 0;
        assert(inc0.skip(0) =~= inc0);
        let mut i: usize = 0;
        while i < RESPONSE_TRIES
            invariant
                i <= RESPONSE_TRIES,
                code == expected.code(),
                inc0 == old(self).inc(),
                self.writer == old(self).writer,
                k <= inc0.len(),
                self.inc() == inc0.skip(k as int),
                old(self).reader().healthy() ==> self.reader().healthy(),
                search::<R::Error>(inc0, code, RESPONSE_TRIES as nat) == add_used(
                    search::<R::Error>(inc0.skip(k as int), code, (RESPONSE_TRIES - i) as nat),
                    k,
                ),
            decreases RESPONSE_TRIES - i,
        {
            let ghost cur = inc0.skip(k as int);
            let (cmd, response) = match self.read_response_any() {
                Ok(x) => x,
                Err(e) => {
                    proof {
                        if !(e is Timeout) || old(self).reader().healthy() {
                            assert(search::<R::Error>(cur, code, (RESPONSE_TRIES - i) as nat) == Err::<(ResponseView, nat), Error<R::Error>>(e));
                        }
                    }
                    return Err(e);
                },
            };
            if cmd == code {
                if response.status != 0 {
                    assert(search::<R::Error>(cur, code, (RESPONSE_TRIES - i) as nat) == Err::<(ResponseView, nat), Error<R::Error>>(Error::BootloaderError(response.error)));
                    return Err(Error::BootloaderError(response.error));
                }
                return Ok(response);
            }
            proof {
                let n = match read_any::<R::Error>(cur) {
                    Ok((v, n)) => n,
                    Err(_) => 0,
                };
                assert(cur.skip(n as int) =~= inc0.skip((k + n) as int));
                k = k + n;
            }
            i = i + 1;
        }
        Err(Error::CommandMismatch { expected: code, got: 0 })
    }

    /// Send a command and wait for its response.
    fn send_command(&mut self, command: Command, data: &[u8], checksum: u32) -> (r: Result<
        Response,
        Error<R::Error>,
    >)
        requires
            data@.len() <= MAX_DATA_SIZE,
        ensures
            r matches Ok(resp) ==> exchange::<R::Error>(old(self).inc(), command.code(), data@, checksum)
                matches Ok((v, n, s)) && v == resp@ && n <= old(self).inc().len() && final(self).inc()
                == old(self).inc().skip(n as int) && final(self).out() == old(self).out() + s,
            r matches Err(e) ==> e.is_port_error() || exchange::<R::Error>(
                old(self).inc(),
                command.code(),
                data@,
                checksum,
            ) == Err::<(ResponseView, nat, Seq<u8>), Error<R::Error>>(e),
            old(self).ports_healthy() ==> final(self).ports_healthy() && (r matches Err(e) ==> exchange::<R::Error>(
                old(self).inc(),
                command.code(),
                data@,
                checksum,
            ) == Err::<(ResponseView, nat, Seq<u8>), Error<R::Error>>(e)),
    {
        proof {
            reveal(exchange);
        }
        self.send_slip_packet_with_command(command, data, checksum)?;
        self.read_response(command)
    }

    /// Synchronize with the bootloader.
    ///
    /// Sends two SYNC commands and reads one response to confirm sync works.
    /// This must be called first after the ESP32 enters bootloader mode.
    /// Leftover sync responses are skipped later by the response search.
    pub fn sync(&mut self) -> (r: Result<(), Error<R::Error>>)
        ensures
            old(self).stepped(*final(self), sync_spec::<R::Error>(old(self).inc()), r),
    {
        let mut sync_data: Vec<u8> = Vec::new();
        sync_data.push(0x07);
        sync_data.push(0x07);
        sync_data.push(0x12);
        sync_data.push(0x20);
        let mut i: usize = 0;
        while i < 32
            invariant
                i <= 32,
                sync_data@ == seq![0x07u8, 0x07u8, 0x12u8, 0x20u8] + Seq::new(i as nat, |j: int| 0x55u8),
            decreases 32 - i,
        {
            sync_data.push(0x55);
            assert(sync_data@ =~= seq![0x07u8, 0x07u8, 0x12u8, 0x20u8] + Seq::new((i + 1) as nat, |j: int| 0x55u8));
            i = i + 1;
        }
        let ghost f = frame(request_packet(0x08, sync_payload(), 0));
        proof {
            assert(sync_data@ =~= sync_payload());
            lemma_escape_len(request_packet(0x08, sync_payload(), 0));
            assert(f.len() <= MAX_ENCODED_SIZE);
        }
        match self.send_slip_packet_with_command(Command::Sync, sync_data.as_slice(), 0) {
            Ok(()) => {},
            Err(Error::Io(e)) => {
                return Err(Error::Io(e));
            },
            Err(_) => {
                return Err(Error::SyncFailed);
            },
        }
        match self.send_slip_packet_with_command(Command::Sync, sync_data.as_slice(), 0) {
            Ok(()) => {},
            Err(Error::Io(e)) => {
                return Err(Error::Io(e));
            },
            Err(_) => {
                return Err(Error::SyncFailed);
            },
        }
        assert(self.out() =~= old(self).out() + (f + f));
        let (cmd, _) = self.read_response_any()?;
        if cmd != Command::Sync.as_u8() {
            return Err(Error::SyncFailed);
        }
        Ok(())
    }

    /// Read a 32-bit register value.
    pub fn read_reg(&mut self, address: u32) -> (r: Result<u32, Error<R::Error>>)
        ensures
            old(self).stepped(
                *final(self),
                value_of(exchange::<R::Error>(old(self).inc(), Command::ReadReg.code(), le32(address), 0)),
                r,
            ),
    {
        let mut data: Vec<u8> = Vec::new();
        push_le32(&mut data, address);
        assert(data@ =~= le32(address));
        let response = self.send_command(Command::ReadReg, data.as_slice(), 0)?;
        Ok(response.value)
    }

    /// Write a 32-bit register value.
    ///
    /// The mask parameter allows selective bit modification.
    /// The delay parameter specifies microseconds to wait after the write.
    pub fn write_reg(&mut self, address: u32, value: u32, mask: u32, delay_us: u32) -> (r: Result<
        (),
        Error<R::Error>,
    >)
        ensures
            old(self).stepped(
                *final(self),
                with_result(
                    exchange::<R::Error>(
                        old(self).inc(),
                        Command::WriteReg.code(),
                        write_reg_payload(address, value, mask, delay_us),
                        0,
                    ),
                    (),
                ),
                r,
            ),
    {
        let mut data: Vec<u8> = Vec::new();
        push_le32(&mut data, address);
        push_le32(&mut data, value);
        push_le32(&mut data, mask);
        push_le32(&mut data, delay_us);
        assert(data@ =~= write_reg_payload(address, value, mask, delay_us));
        self.send_command(Command::WriteReg, data.as_slice(), 0)?;
        Ok(())
    }

    /// Send a BEGIN command; returns the number of blocks to send.
    fn begin(&mut self, command: Command, total_size: u32, block_size: u32, offset: u32) -> (r: Result<
        u32,
        Error<R::Error>,
    >)
        requires
            block_size > 0,
        ensures
            old(self).stepped(
                *final(self),
                with_result(
                    exchange::<R::Error>(
                        old(self).inc(),
                        command.code(),
                        begin_payload(total_size, block_size, offset),
                        0,
                    ),
                    blocks_for(total_size, block_size),
                ),
                r,
            ),
    {
        let packet_count: u32 = if total_size % block_size == 0 {
            total_size / block_size
        } else {
            assert(total_size / block_size < 0xFFFF_FFFF) by (nonlinear_arith)
                requires
                    block_size >= 2,
            ;
            total_size / block_size + 1
        };
        let mut data: Vec<u8> = Vec::new();
        push_le32(&mut data, total_size);
        push_le32(&mut data, packet_count);
        push_le32(&mut data, block_size);
        push_le32(&mut data, offset);
        assert(data@ =~= begin_payload(total_size, block_size, offset));
        self.send_command(command, data.as_slice(), 0)?;
        Ok(packet_count)
    }

    /// Send one data packet: header, data, and the data's checksum.
    fn data_packet(&mut self, command: Command, data: &[u8], sequence: u32) -> (r: Result<
        (),
        Error<R::Error>,
    >)
        ensures
            old(self).stepped(*final(self), data_spec::<R::Error>(old(self).inc(), command.code(), data@, sequence), r),
    {
        if data.len() > MAX_BLOCK_DATA {
            return Err(Error::DataTooLarge);
        }
        let mut packet: Vec<u8> = Vec::new();
        push_le32(&mut packet, data.len() as u32);
        push_le32(&mut packet, sequence);
        push_le32(&mut packet, 0);
        push_le32(&mut packet, 0);
        push_bytes(&mut packet, data);
        assert(packet@ =~= data_payload(data@, sequence));
        let checksum = Self::checksum(data);
        self.send_command(command, packet.as_slice(), checksum)?;
        Ok(())
    }

    /// Send an END command carrying one flag word.
    fn end_flag(&mut self, command: Command, flag: bool) -> (r: Result<(), Error<R::Error>>)
        ensures
            old(self).stepped(
                *final(self),
                with_result(exchange::<R::Error>(old(self).inc(), command.code(), le32(flag_word(flag)), 0), ()),
                r,
            ),
    {
        let word: u32 = if flag {
            0
        } else {
            1
        };
        let mut data: Vec<u8> = Vec::new();
        push_le32(&mut data, word);
        assert(data@ =~= le32(flag_word(flag)));
        self.send_command(command, data.as_slice(), 0)?;
        Ok(())
    }

    /// Begin a memory (RAM) write operation.
    ///
    /// Returns the number of packets that should be sent.
    pub fn mem_begin(&mut self, total_size: u32, block_size: u32, offset: u32) -> (r: Result<
        u32,
        Error<R::Error>,
    >)
        requires
            block_size > 0,
        ensures
            old(self).stepped(
                *final(self),
                with_result(
                    exchange::<R::Error>(
                        old(self).inc(),
                        Command::MemBegin.code(),
                        begin_payload(total_size, block_size, offset),
                        0,
                    ),
                    blocks_for(total_size, block_size),
                ),
                r,
            ),
    {
        self.begin(Command::MemBegin, total_size, block_size, offset)
    }

    /// Send a memory data packet.
    ///
    /// The sequence number should start at 0 and increment for each packet.
    pub fn mem_data(&mut self, data: &[u8], sequence: u32) -> (r: Result<(), Error<R::Error>>)
        ensures
            old(self).stepped(
                *final(self),
                data_spec::<R::Error>(old(self).inc(), Command::MemData.code(), data@, sequence),
                r,
            ),
    {
        self.data_packet(Command::MemData, data, sequence)
    }

    /// End a memory write operation.
    ///
    /// If `execute` is true, the bootloader will jump to `entry_point`.
    pub fn mem_end(&mut self, execute: bool, entry_point: u32) -> (r: Result<(), Error<R::Error>>)
        ensures
            old(self).stepped(
                *final(self),
                with_result(
                    exchange::<R::Error>(
                        old(self).inc(),
                        Command::MemEnd.code(),
                        le32(flag_word(execute)) + le32(entry_point),
                        0,
                    ),
                    (),
                ),
                r,
            ),
    {
        let word: u32 = if execute {
            0
        } else {
            1
        };
        let mut data: Vec<u8> = Vec::new();
        push_le32(&mut data, word);
        push_le32(&mut data, entry_point);
        assert(data@ =~= le32(flag_word(execute)) + le32(entry_point));
        self.send_command(Command::MemEnd, data.as_slice(), 0)?;
        Ok(())
    }

    /// Begin a flash write operation.
    ///
    /// Returns the number of packets that should be sent.
    pub fn flash_begin(&mut self, total_size: u32, block_size: u32, offset: u32) -> (r: Result<
        u32,
        Error<R::Error>,
    >)
        requires
            block_size > 0,
        ensures
            old(self).stepped(
                *final(self),
                with_result(
                    exchange::<R::Error>(
                        old(self).inc(),
                        Command::FlashBegin.code(),
                        begin_payload(total_size, block_size, offset),
                        0,
                    ),
                    blocks_for(total_size, block_size),
                ),
                r,
            ),
    {
        self.begin(Command::FlashBegin, total_size, block_size, offset)
    }

    /// Send a flash data packet.
    ///
    /// The sequence number should start at 0 and increment for each packet.
    pub fn flash_data(&mut self, data: &[u8], sequence: u32) -> (r: Result<(), Error<R::Error>>)
        ensures
            old(self).stepped(
                *final(self),
                data_spec::<R::Error>(old(self).inc(), Command::FlashData.code(), data@, sequence),
                r,
            ),
    {
        self.data_packet(Command::FlashData, data, sequence)
    }

    /// End a flash write operation; with `reboot` false the bootloader reboots when done.
    pub fn flash_end(&mut self, reboot: bool) -> (r: Result<(), Error<R::Error>>)
        ensures
            old(self).stepped(
                *final(self),
                with_result(
                    exchange::<R::Error>(old(self).inc(), Command::FlashEnd.code(), le32(flag_word(reboot)), 0),
                    (),
                ),
                r,
            ),
    {
        self.end_flag(Command::FlashEnd, reboot)
    }

    /// Begin a compressed flash write operation.
    ///
    /// Returns the number of packets that should be sent.
    pub fn flash_defl_begin(&mut self, uncompressed_size: u32, compressed_block_size: u32, offset: u32) -> (r:
        Result<u32, Error<R::Error>>)
        requires
            compressed_block_size > 0,
        ensures
            old(self).stepped(
                *final(self),
                with_result(
                    exchange::<R::Error>(
                        old(self).inc(),
                        Command::FlashDeflBegin.code(),
                        begin_payload(uncompressed_size, compressed_block_size, offset),
                        0,
                    ),
                    blocks_for(uncompressed_size, compressed_block_size),
                ),
                r,
            ),
    {
        self.begin(Command::FlashDeflBegin, uncompressed_size, compressed_block_size, offset)
    }

    /// Send a compressed flash data packet (the data should be deflated).
    pub fn flash_defl_data(&mut self, data: &[u8], sequence: u32) -> (r: Result<(), Error<R::Error>>)
        ensures
            old(self).stepped(
                *final(self),
                data_spec::<R::Error>(old(self).inc(), Command::FlashDeflData.code(), data@, sequence),
                r,
            ),
    {
        self.data_packet(Command::FlashDeflData, data, sequence)
    }

    /// End a compressed flash write operation.
    pub fn flash_defl_end(&mut self, reboot: bool) -> (r: Result<(), Error<R::Error>>)
        ensures
            old(self).stepped(
                *final(self),
                with_result(
                    exchange::<R::Error>(old(self).inc(), Command::FlashDeflEnd.code(), le32(flag_word(reboot)), 0),
                    (),
                ),
                r,
            ),
    {
        self.end_flag(Command::FlashDeflEnd, reboot)
    }

    /// Attach the SPI flash: 0 for the default SPI, 1 for HSPI.
    pub fn spi_attach(&mut self, config: u32) -> (r: Result<(), Error<R::Error>>)
        ensures
            old(self).stepped(
                *final(self),
                with_result(
                    exchange::<R::Error>(old(self).inc(), Command::SpiAttach.code(), le32(config) + le32(0), 0),
                    (),
                ),
                r,
            ),
    {
        let mut data: Vec<u8> = Vec::new();
        push_le32(&mut data, config);
        push_le32(&mut data, 0);
        assert(data@ =~= le32(config) + le32(0));
        self.send_command(Command::SpiAttach, data.as_slice(), 0)?;
        Ok(())
    }

    /// Set SPI flash parameters.
    pub fn spi_set_params(&mut self, params: &SpiParams) -> (r: Result<(), Error<R::Error>>)
        ensures
            old(self).stepped(
                *final(self),
                with_result(
                    exchange::<R::Error>(old(self).inc(), Command::SpiSetParams.code(), spi_params_payload(*params), 0),
                    (),
                ),
                r,
            ),
    {
        let mut data: Vec<u8> = Vec::new();
        push_le32(&mut data, params.id);
        push_le32(&mut data, params.total_size);
        push_le32(&mut data, params.block_size);
        push_le32(&mut data, params.sector_size);
        push_le32(&mut data, params.page_size);
        push_le32(&mut data, params.status_mask);
        assert(data@ =~= spi_params_payload(*params));
        self.send_command(Command::SpiSetParams, data.as_slice(), 0)?;
        Ok(())
    }

    /// Change the baud rate; `old_baud` is the current rate (0 for the ROM loader).
    pub fn change_baudrate(&mut self, new_baud: u32, old_baud: u32) -> (r: Result<(), Error<R::Error>>)
        ensures
            old(self).stepped(
                *final(self),
                with_result(
                    exchange::<R::Error>(
                        old(self).inc(),
                        Command::ChangeBaudrate.code(),
                        le32(new_baud) + le32(old_baud),
                        0,
                    ),
                    (),
                ),
                r,
            ),
    {
        let mut data: Vec<u8> = Vec::new();
        push_le32(&mut data, new_baud);
        push_le32(&mut data, old_baud);
        assert(data@ =~= le32(new_baud) + le32(old_baud));
        self.send_command(Command::ChangeBaudrate, data.as_slice(), 0)?;
        Ok(())
    }

    /// Convert a hex ASCII character to its nibble value.
    fn hex_char_to_nibble(c: u8) -> (r: u8)
        ensures
            r == nibble(c),
    {
        if 0x30 <= c && c <= 0x39 {
            c - 0x30
        } else if 0x61 <= c && c <= 0x66 {
            c - 0x61 + 10
        } else if 0x41 <= c && c <= 0x46 {
            c - 0x41 + 10
        } else {
            0
        }
    }

    /// The MD5 digest that a response carries.
    fn md5_from_response(response: &Response) -> (m: [u8; 16])
        ensures
            m@ == md5_of(response@),
    {
        let mut md5: [u8; 16] = [0u8; 16];
        if response.data_len == 32 {
            let mut i: usize = 0;
            while i < 16
                invariant
                    i <= 16,
                    response.data_len == 32,
                    md5@.len() == 16,
                    forall|j: int| 0 <= j < i ==> md5@[j] == md5_of(response@)[j],
                    forall|j: int| i <= j < 16 ==> md5@[j] == 0u8,
                decreases 16 - i,
            {
                let hi = Self::hex_char_to_nibble(response.data[i * 2]);
                let lo = Self::hex_char_to_nibble(response.data[i * 2 + 1]);
                md5[i] = (hi << 4u8) | lo;
                i = i + 1;
            }
        } else if response.data_len >= 16 {
            let mut i: usize = 0;
            while i < 16
                invariant
                    i <= 16,
                    response.data_len >= 16,
                    response.data_len != 32,
                    md5@.len() == 16,
                    forall|j: int| 0 <= j < i ==> md5@[j] == response.data@[j],
                decreases 16 - i,
            {
                md5[i] = response.data[i];
                i = i + 1;
            }
        }
        assert(md5@ =~= md5_of(response@));
        md5
    }

    /// Calculate the MD5 hash of a flash region; returns the 16-byte digest.
    pub fn spi_flash_md5(&mut self, address: u32, size: u32) -> (r: Result<[u8; 16], Error<R::Error>>)
        ensures
            ({
                let ex = exchange::<R::Error>(old(self).inc(), Command::SpiFlashMd5.code(), md5_payload(address, size), 0);
                &&& r matches Ok(m) ==> ex matches Ok((v, n, s)) && m@ == md5_of(v) && n <= old(self).inc().len()
                    && final(self).inc() == old(self).inc().skip(n as int) && final(self).out() == old(self).out() + s
                &&& r matches Err(e) ==> e.is_port_error() || ex == Err::<(ResponseView, nat, Seq<u8>), Error<R::Error>>(e)
                &&& old(self).ports_healthy() ==> final(self).ports_healthy() && (r matches Err(e) ==> ex == Err::<
                    (ResponseView, nat, Seq<u8>),
                    Error<R::Error>,
                >(e))
            }),
    {
        let mut data: Vec<u8> = Vec::new();
        push_le32(&mut data, address);
        push_le32(&mut data, size);
        push_le32(&mut data, 0);
        push_le32(&mut data, 0);
        assert(data@ =~= md5_payload(address, size));
        let response = self.send_command(Command::SpiFlashMd5, data.as_slice(), 0)?;
        Ok(Self::md5_from_response(&response))
    }

    /// Get security information from the chip. The response is not decoded: on
    /// success every field is zero.
    pub fn get_security_info(&mut self) -> (r: Result<SecurityInfo, Error<R::Error>>)
        ensures
            ({
                let ex = exchange::<R::Error>(old(self).inc(), Command::GetSecurityInfo.code(), Seq::empty(), 0);
                &&& r matches Ok(info) ==> ex matches Ok((v, n, s)) && n <= old(self).inc().len()
                    && final(self).inc() == old(self).inc().skip(n as int) && final(self).out() == old(self).out() + s
                    && info.flags == 0 && info.flash_crypt_cnt == 0 && info.key_purposes@ == Seq::new(7, |i: int| 0u8)
                    && info.chip_id == 0 && info.eco_version == 0
                &&& r matches Err(e) ==> e.is_port_error() || ex == Err::<(ResponseView, nat, Seq<u8>), Error<R::Error>>(e)
                &&& old(self).ports_healthy() ==> final(self).ports_healthy() && (r matches Err(e) ==> ex == Err::<
                    (ResponseView, nat, Seq<u8>),
                    Error<R::Error>,
                >(e))
            }),
    {
        let empty: [u8; 0] = [];
        assert(empty@ =~= Seq::<u8>::empty());
        let _response = self.send_command(Command::GetSecurityInfo, &empty, 0)?;
        let key_purposes: [u8; 7] = [0u8; 7];
        assert(key_purposes@ =~= Seq::new(7, |i: int| 0u8));
        Ok(SecurityInfo { flags: 0, flash_crypt_cnt: 0, key_purposes, chip_id: 0, eco_version: 0 })
    }

    /// Write registers in order, each with a full mask and no delay.
    fn write_regs(&mut self, regs: &[(u32, u32)]) -> (r: Result<(), Error<R::Error>>)
        ensures
            old(self).stepped(*final(self), unit_of(run_writes::<R::Error>(old(self).inc(), regs@)), r),
    {
        let ghost inc0 = self.inc();
        let ghost out0 = self.out();
        let ghost mut k: nat = 0;
        let ghost mut sent: Seq<u8> = Seq::empty();
        assert(inc0.skip(0) =~= inc0);
        assert(out0 + sent =~= out0);
        assert(regs@.skip(0) =~= regs@);
        proof {
            lemma_then_run_assoc::<R::Error>(0, Seq::empty(), 0, Seq::empty(), run_writes::<R::Error>(inc0, regs@));
            assert(Seq::<u8>::empty() + Seq::<u8>::empty() =~= Seq::<u8>::empty());
            if let Ok((m, t)) = run_writes::<R::Error>(inc0, regs@) {
                assert(Seq::<u8>::empty() + t =~= t);
            }
        }
        let mut i: usize = 0;
        while i < regs.len()
            invariant
                i <= regs@.len(),
                inc0 == old(self).inc(),
                out0 == old(self).out(),
                old(self).ports_healthy() ==> self.ports_healthy(),
                k <= inc0.len(),
                self.inc() == inc0.skip(k as int),
                self.out() == out0 + sent,
                run_writes::<R::Error>(inc0, regs@) == then_run(k, sent, run_writes::<R::Error>(self.inc(), regs@.skip(i as int))),
            decreases regs@.len() - i,
        {
            let ghost cur = self.inc();
            let (reg, value) = regs[i];
            assert(regs@.skip(i as int)[0] == regs@[i as int]);
            assert(regs@.skip(i as int).drop_first() =~= regs@.skip(i + 1));
            match self.write_reg(reg, value, 0xFFFF_FFFF, 0) {
                Ok(()) => {},
                Err(e) => {
                    return Err(e);
                },
            }
            proof {
                let (_, n, s) = set_reg_spec::<R::Error>(cur, reg, value)->Ok_0;
                lemma_then_run_assoc::<R::Error>(k, sent, n, s, run_writes::<R::Error>(cur.skip(n as int), regs@.skip(i + 1)));
                assert(cur.skip(n as int) =~= inc0.skip((k + n) as int));
                assert(out0 + sent + s =~= out0 + (sent + s));
                k = k + n;
                sent = sent + s;
            }
            i = i + 1;
        }
        proof {
            assert(sent + Seq::<u8>::empty() =~= sent);
        }
        Ok(())
    }

    /// Poll the command register until the USR bit clears, at most 100 times.
    fn wait_idle(&mut self) -> (r: Result<(), Error<R::Error>>)
        ensures
            old(self).stepped(*final(self), unit_of(poll_spec::<R::Error>(old(self).inc(), POLL_TRIES as nat)), r),
    {
        let ghost inc0 = self.inc();
        let ghost out0 = self.out();
        let ghost mut k: nat = 0;
        let ghost mut sent: Seq<u8> = Seq::empty();
        assert(inc0.skip(0) =~= inc0);
        assert(out0 + sent =~= out0);
        proof {
            if let Ok((m, t)) = poll_spec::<R::Error>(inc0, POLL_TRIES as nat) {
                assert(Seq::<u8>::empty() + t =~= t);
            }
        }
        let mut i: usize = 0;
        while i < POLL_TRIES
            invariant_except_break
                poll_spec::<R::Error>(inc0, POLL_TRIES as nat) == then_run(
                    k,
                    sent,
                    poll_spec::<R::Error>(self.inc(), (POLL_TRIES - i) as nat),
                ),
            invariant
                i <= POLL_TRIES,
                inc0 == old(self).inc(),
                out0 == old(self).out(),
                old(self).ports_healthy() ==> self.ports_healthy(),
                k <= inc0.len(),
                self.inc() == inc0.skip(k as int),
                self.out() == out0 + sent,
            ensures
                poll_spec::<R::Error>(inc0, POLL_TRIES as nat) == Ok::<(nat, Seq<u8>), Error<R::Error>>((k, sent)),
            decreases POLL_TRIES - i,
        {
            let ghost cur = self.inc();
            let cmd = match self.read_reg(SPI1_CMD_REG) {
                Ok(v) => v,
                Err(e) => {
                    return Err(e);
                },
            };
            proof {
                let (_, n, s) = get_reg_spec::<R::Error>(cur, SPI1_CMD_REG)->Ok_0;
                lemma_then_run_assoc::<R::Error>(k, sent, n, s, poll_spec::<R::Error>(cur.skip(n as int), (POLL_TRIES - i - 1) as nat));
                assert(cur.skip(n as int) =~= inc0.skip((k + n) as int));
                assert(out0 + sent + s =~= out0 + (sent + s));
                k = k + n;
                sent = sent + s;
            }
            if cmd & SPI_USR_BIT == 0 {
                break;
            }
            i = i + 1;
        }
        proof {
            assert(sent + Seq::<u8>::empty() =~= sent);
        }
        Ok(())
    }

    /// Read `count` data registers from W0 on; the words' little-endian bytes.
    fn read_data_words(&mut self, count: usize) -> (r: Result<Vec<u8>, Error<R::Error>>)
        requires
            count <= 16,
        ensures
            conforms_bytes(
                read_words::<R::Error>(old(self).inc(), SPI1_W0_REG, count as nat),
                r,
                old(self).inc(),
                old(self).out(),
                final(self).inc(),
                final(self).out(),
            ),
            r matches Ok(v) ==> v@.len() == 4 * count,
            old(self).ports_healthy() ==> final(self).ports_healthy() && (r matches Err(e) ==> read_words::<
                R::Error,
            >(old(self).inc(), SPI1_W0_REG, count as nat) == Err::<(Seq<u8>, nat, Seq<u8>), Error<R::Error>>(e)),
    {
        let ghost inc0 = self.inc();
        let ghost out0 = self.out();
        let ghost mut k: nat = 0;
        let ghost mut sent: Seq<u8> = Seq::empty();
        let mut bytes: Vec<u8> = Vec::new();
        assert(inc0.skip(0) =~= inc0);
        assert(out0 + sent =~= out0);
        proof {
            if let Ok((b, m, t)) = read_words::<R::Error>(inc0, SPI1_W0_REG, count as nat) {
                assert(Seq::<u8>::empty() + t =~= t);
                assert(Seq::<u8>::empty() + b =~= b);
            }
        }
        let mut i: usize = 0;
        while i < count
            invariant
                i <= count <= 16,
                inc0 == old(self).inc(),
                out0 == old(self).out(),
                old(self).ports_healthy() ==> self.ports_healthy(),
                k <= inc0.len(),
                self.inc() == inc0.skip(k as int),
                self.out() == out0 + sent,
                bytes@.len() == 4 * i,
                read_words::<R::Error>(inc0, SPI1_W0_REG, count as nat) == then_bytes(
                    bytes@,
                    k,
                    sent,
                    read_words::<R::Error>(self.inc(), (SPI1_W0_REG + 4 * i) as u32, (count - i) as nat),
                ),
            decreases count - i,
        {
            let ghost cur = self.inc();
            let reg: u32 = SPI1_W0_REG + (i as u32) * 4;
            let word = match self.read_reg(reg) {
                Ok(v) => v,
                Err(e) => {
                    return Err(e);
                },
            };
            let ghost before = bytes@;
            push_le32(&mut bytes, word);
            proof {
                let (_, n, s) = get_reg_spec::<R::Error>(cur, reg)->Ok_0;
                assert((reg + 4) as u32 == (SPI1_W0_REG + 4 * (i + 1)) as u32);
                lemma_then_bytes_assoc::<R::Error>(
                    before,
                    k,
                    sent,
                    le32(word),
                    n,
                    s,
                    read_words::<R::Error>(cur.skip(n as int), (reg + 4) as u32, (count - i - 1) as nat),
                );
                assert(cur.skip(n as int) =~= inc0.skip((k + n) as int));
                assert(out0 + sent + s =~= out0 + (sent + s));
                k = k + n;
                sent = sent + s;
            }
            i = i + 1;
        }
        proof {
            assert(sent + Seq::<u8>::empty() =~= sent);
            assert(bytes@ + Seq::<u8>::empty() =~= bytes@);
        }
        Ok(bytes)
    }

    /// Read `len` bytes (1 to 64) of flash at `addr` with one SPI transaction.
    fn read_chunk(&mut self, addr: u32, len: usize) -> (r: Result<Vec<u8>, Error<R::Error>>)
        requires
            1 <= len <= READ_CHUNK,
        ensures
            conforms_bytes(
                chunk_spec::<R::Error>(old(self).inc(), addr, len as nat),
                r,
                old(self).inc(),
                old(self).out(),
                final(self).inc(),
                final(self).out(),
            ),
            r matches Ok(v) ==> v@.len() == len,
            old(self).ports_healthy() ==> final(self).ports_healthy() && (r matches Err(e) ==> chunk_spec::<
                R::Error,
            >(old(self).inc(), addr, len as nat) == Err::<(Seq<u8>, nat, Seq<u8>), Error<R::Error>>(e)),
    {
        let ghost inc0 = self.inc();
        let ghost out0 = self.out();
        let setup: [(u32, u32); 6] = [
            (SPI1_USER_REG, 0x3800_0000u32),
            (SPI1_USER1_REG, 0x5C00_0000u32),
            (SPI1_USER2_REG, 0x7000_0003u32),
            (SPI1_ADDR_REG, addr << 8u32),
            (SPI1_MISO_DLEN_REG, (len as u32) * 8 - 1),
            (SPI1_CMD_REG, SPI_USR_BIT),
        ];
        assert(setup@ =~= read_setup(addr, len as u32));
        self.write_regs(&setup)?;
        let ghost inc1 = self.inc();
        let ghost out1 = self.out();
        self.wait_idle()?;
        let ghost inc2 = self.inc();
        let ghost out2 = self.out();
        proof {
            let (n1, s1) = run_writes::<R::Error>(inc0, read_setup(addr, len as u32))->Ok_0;
            let (n2, s2) = poll_spec::<R::Error>(inc1, POLL_TRIES as nat)->Ok_0;
            assert(inc2 =~= inc0.skip((n1 + n2) as int));
        }
        let words = self.read_data_words((len + 3) / 4)?;
        let mut out: Vec<u8> = Vec::new();
        let mut i: usize = 0;
        while i < len
            invariant
                i <= len <= words@.len(),
                out@ == words@.take(i as int),
            decreases len - i,
        {
            out.push(words[i]);
            assert(words@.take(i + 1) =~= words@.take(i as int).push(words@[i as int]));
            i = i + 1;
        }
        proof {
            let (n1, s1) = run_writes::<R::Error>(inc0, read_setup(addr, len as u32))->Ok_0;
            let (n2, s2) = poll_spec::<R::Error>(inc1, POLL_TRIES as nat)->Ok_0;
            let (b, n3, s3) = read_words::<R::Error>(inc2, SPI1_W0_REG, ((len + 3) / 4) as nat)->Ok_0;
            assert(inc1 == inc0.skip(n1 as int));
            assert(inc2 =~= inc0.skip((n1 + n2) as int));
            assert(self.inc() =~= inc0.skip((n1 + n2 + n3) as int));
            assert(self.out() =~= out0 + (s1 + s2 + s3));
        }
        Ok(out)
    }

    /// Read data from flash using SPI peripheral registers.
    #[verifier::rlimit(40)]
    ///
    /// This reads up to 64 bytes at a time by controlling the SPI1 flash
    /// peripheral directly via READ_REG/WRITE_REG commands (ESP32-S3 SPI1 at 0x60002000).
    pub fn read_flash(&mut self, address: u32, data: &mut [u8]) -> (r: Result<(), Error<R::Error>>)
        requires
            old(data)@.len() == 0 || address + 64 * ((old(data)@.len() - 1) / 64) <= u32::MAX,
        ensures
            final(data)@.len() == old(data)@.len(),
            ({
                let spec = read_flash_spec::<R::Error>(old(self).inc(), address, old(data)@.len(), 0);
                &&& r is Ok ==> (spec matches Ok((b, n, s)) && final(data)@ == b && n <= old(self).inc().len()
                    && final(self).inc() == old(self).inc().skip(n as int) && final(self).out() == old(self).out() + s)
                &&& r matches Err(e) ==> e.is_port_error() || spec == Err::<(Seq<u8>, nat, Seq<u8>), Error<R::Error>>(e)
                &&& old(self).ports_healthy() ==> final(self).ports_healthy() && (r matches Err(e) ==> spec == Err::<
                    (Seq<u8>, nat, Seq<u8>),
                    Error<R::Error>,
                >(e))
            }),
    {
        let ghost inc0 = self.inc();
        let ghost out0 = self.out();
        let ghost len = data@.len();
        let ghost mut k: nat = 0;
        let ghost mut sent: Seq<u8> = Seq::empty();
        assert(inc0.skip(0) =~= inc0);
        assert(out0 + sent =~= out0);
        proof {
            if let Ok((b, m, t)) = read_flash_spec::<R::Error>(inc0, address, len, 0) {
                assert(Seq::<u8>::empty() + t =~= t);
                assert(Seq::<u8>::empty() + b =~= b);
            }
        }
        let mut offset: usize = 0;
        while offset < data.len()
            invariant
                offset <= len,
                len == data@.len(),
                len == old(data)@.len(),
                offset < len ==> offset % 64 == 0,
                len == 0 || address + 64 * ((len - 1) / 64) <= u32::MAX,
                inc0 == old(self).inc(),
                out0 == old(self).out(),
                old(self).ports_healthy() ==> self.ports_healthy(),
                k <= inc0.len(),
                self.inc() == inc0.skip(k as int),
                self.out() == out0 + sent,
                read_flash_spec::<R::Error>(inc0, address, len, 0) == then_bytes(
                    data@.take(offset as int),
                    k,
                    sent,
                    read_flash_spec::<R::Error>(self.inc(), address, len, offset as nat),
                ),
            decreases len - offset,
        {
            let ghost cur = self.inc();
            let chunk_len: usize = if data.len() - offset < READ_CHUNK {
                data.len() - offset
            } else {
                READ_CHUNK
            };
            assert(offset <= 64 * ((len - 1) / 64)) by (nonlinear_arith)
                requires
                    offset % 64 == 0,
                    offset < len,
            ;
            let flash_addr: u32 = address + offset as u32;
            let bytes = match self.read_chunk(flash_addr, chunk_len) {
                Ok(b) => b,
                Err(e) => {
                    return Err(e);
                },
            };
            let ghost before = data@;
            copy_into(data, offset, &bytes);
            proof {
                let (b, n, s) = chunk_spec::<R::Error>(cur, flash_addr, chunk_len as nat)->Ok_0;
                assert(data@.take(offset + chunk_len) =~= before.take(offset as int) + b);
                lemma_then_bytes_assoc::<R::Error>(
                    before.take(offset as int),
                    k,
                    sent,
                    b,
                    n,
                    s,
                    read_flash_spec::<R::Error>(cur.skip(n as int), address, len, (offset + chunk_len) as nat),
                );
                assert(cur.skip(n as int) =~= inc0.skip((k + n) as int));
                assert(out0 + sent + s =~= out0 + (sent + s));
                k = k + n;
                sent = sent + s;
            }
            offset = offset + chunk_len;
        }
        proof {
            assert(sent + Seq::<u8>::empty() =~= sent);
            assert(data@.take(len as int) =~= data@);
            assert(data@ + Seq::<u8>::empty() =~= data@);
        }
        Ok(())
    }

    /// Send `data` in blocks of `block` bytes as numbered data packets.
    #[verifier::rlimit(30)]
    fn send_blocks(&mut self, command: Command, data: &[u8], block: usize, pad: bool) -> (r: Result<
        (),
        Error<R::Error>,
    >)
        requires
            block > 0,
            pad ==> (block <= 1024 || data@.len() <= 1024),
        ensures
            old(self).stepped(
                *final(self),
                unit_of(run_data::<R::Error>(old(self).inc(), command.code(), chunks(data@, block as nat), pad, 0)),
                r,
            ),
    {
        let ghost inc0 = self.inc();
        let ghost out0 = self.out();
        let ghost code = command.code();
        let ghost mut k: nat = 0;
        let ghost mut sent: Seq<u8> = Seq::empty();
        assert(inc0.skip(0) =~= inc0);
        assert(out0 + sent =~= out0);
        assert(data@.skip(0) =~= data@);
        proof {
            if let Ok((m, t)) = run_data::<R::Error>(inc0, code, chunks(data@, block as nat), pad, 0) {
                assert(Seq::<u8>::empty() + t =~= t);
            }
        }
        let mut start: usize = 0;
        let mut seqno: usize = 0;
        while start < data.len()
            invariant
                start <= data@.len(),
                seqno <= start,
                block > 0,
                pad ==> (block <= 1024 || data@.len() <= 1024),
                code == command.code(),
                inc0 == old(self).inc(),
                out0 == old(self).out(),
                old(self).ports_healthy() ==> self.ports_healthy(),
                k <= inc0.len(),
                self.inc() == inc0.skip(k as int),
                self.out() == out0 + sent,
                run_data::<R::Error>(inc0, code, chunks(data@, block as nat), pad, 0) == then_run(
                    k,
                    sent,
                    run_data::<R::Error>(self.inc(), code, chunks(data@.skip(start as int), block as nat), pad, seqno as nat),
                ),
            decreases data@.len() - start,
        {
            let ghost cur = self.inc();
            let ghost rest = data@.skip(start as int);
            let end: usize = if data.len() - start <= block {
                data.len()
            } else {
                start + block
            };
            let chunk = &data[start..end];
            proof {
                lemma_chunks_step(data@, start as nat, end as nat, block as nat);
                assert(chunk@ =~= data@.subrange(start as int, end as int));
                let blocks = chunks(rest, block as nat);
                assert(blocks[0] == chunk@);
                assert(blocks.drop_first() =~= chunks(data@.skip(end as int), block as nat));
            }
            let result = if pad {
                let padded = pad_block(chunk);
                self.data_packet(command, padded.as_slice(), seqno as u32)
            } else {
                self.data_packet(command, chunk, seqno as u32)
            };
            match result {
                Ok(()) => {},
                Err(e) => {
                    return Err(e);
                },
            }
            proof {
                let b = if pad { pad4(chunk@) } else { chunk@ };
                let (_, n, s) = data_spec::<R::Error>(cur, code, b, seqno as u32)->Ok_0;
                lemma_then_run_assoc::<R::Error>(
                    k,
                    sent,
                    n,
                    s,
                    run_data::<R::Error>(cur.skip(n as int), code, chunks(data@.skip(end as int), block as nat), pad, (seqno + 1) as nat),
                );
                assert(cur.skip(n as int) =~= inc0.skip((k + n) as int));
                assert(out0 + sent + s =~= out0 + (sent + s));
                k = k + n;
                sent = sent + s;
            }
            start = end;
            seqno = seqno + 1;
        }
        proof {
            assert(data@.skip(start as int) =~= Seq::<u8>::empty());
            assert(sent + Seq::<u8>::empty() =~= sent);
        }
        Ok(())
    }
}

/// The chunks from `start` on are the chunk up to `end`, then the chunks from `end` on.
proof fn lemma_chunks_step(data: Seq<u8>, start: nat, end: nat, block: nat)
    requires
        start < data.len(),
        block > 0,
        end == (if data.len() - start <= block { data.len() } else { start + block }),
    ensures
        chunks(data.skip(start as int), block) == seq![data.subrange(start as int, end as int)] + chunks(
            data.skip(end as int),
            block,
        ),
{
    let rest = data.skip(start as int);
    if rest.len() <= block {
        assert(rest =~= data.subrange(start as int, end as int));
        assert(data.skip(end as int) =~= Seq::<u8>::empty());
        assert(seq![rest] + Seq::<Seq<u8>>::empty() =~= seq![rest]);
    } else {
        assert(rest.take(block as int) =~= data.subrange(start as int, end as int));
        assert(rest.skip(block as int) =~= data.skip(end as int));
    }
}

/// A chunk padded with `0xFF` to a multiple of 4 bytes.
fn pad_block(chunk: &[u8]) -> (r: Vec<u8>)
    requires
        chunk@.len() <= 1024,
    ensures
        r@ == pad4(chunk@),
{
    let mut v: Vec<u8> = Vec::new();
    push_bytes(&mut v, chunk);
    let padded_len: usize = (chunk.len() + 3) / 4 * 4;
    let mut i: usize = chunk.len();
    while i < padded_len
        invariant
            chunk@.len() <= i <= padded_len,
            padded_len == ceil4(chunk@.len()),
            v@ == chunk@ + Seq::new((i - chunk@.len()) as nat, |j: int| 0xFFu8),
        decreases padded_len - i,
    {
        v.push(0xFF);
        assert(v@ =~= chunk@ + Seq::new((i + 1 - chunk@.len()) as nat, |j: int| 0xFFu8));
        i = i + 1;
    }
    v
}

/// Write firmware to flash memory: FLASH_BEGIN, the data in blocks of `block_size`
/// bytes (each padded with `0xFF` to 4 bytes), then FLASH_END.
pub fn write_flash<R: CtlPort, W: CtlPort<Error = R::Error>>(
    bootloader: &mut Bootloader<R, W>,
    address: u32,
    data: &[u8],
    block_size: u32,
) -> (r: Result<(), Error<R::Error>>)
    requires
        block_size > 0,
        block_size <= 1024 || data@.len() <= 1024,
    ensures
        old(bootloader).stepped(
            *final(bootloader),
            write_flash_spec::<R::Error>(old(bootloader).inc(), address, data@, block_size),
            r,
        ),
{
    let mut end_args: Vec<u8> = Vec::new();
    push_le32(&mut end_args, 1);
    assert(end_args@ =~= le32(flag_word(false)));
    download(bootloader, Command::FlashBegin, Command::FlashData, address, data, block_size, true, Command::FlashEnd, &end_args)
}

/// Write data to RAM memory: MEM_BEGIN, the data in blocks of `block_size` bytes,
/// then MEM_END (which jumps to `entry_point` when `execute`).
pub fn write_mem<R: CtlPort, W: CtlPort<Error = R::Error>>(
    bootloader: &mut Bootloader<R, W>,
    address: u32,
    data: &[u8],
    block_size: u32,
    execute: bool,
    entry_point: u32,
) -> (r: Result<(), Error<R::Error>>)
    requires
        block_size > 0,
    ensures
        old(bootloader).stepped(
            *final(bootloader),
            write_mem_spec::<R::Error>(old(bootloader).inc(), address, data@, block_size, execute, entry_point),
            r,
        ),
{
    let word: u32 = if execute {
        0
    } else {
        1
    };
    let mut end_args: Vec<u8> = Vec::new();
    push_le32(&mut end_args, word);
    push_le32(&mut end_args, entry_point);
    assert(end_args@ =~= le32(flag_word(execute)) + le32(entry_point));
    download(bootloader, Command::MemBegin, Command::MemData, address, data, block_size, false, Command::MemEnd, &end_args)
}

/// BEGIN, data packets, END: shared by the flash and RAM downloads.
#[verifier::rlimit(100)]
#[verifier::spinoff_prover]
fn download<R: CtlPort, W: CtlPort<Error = R::Error>>(
    bootloader: &mut Bootloader<R, W>,
    begin: Command,
    data_cmd: Command,
    address: u32,
    data: &[u8],
    block_size: u32,
    pad: bool,
    end: Command,
    end_args: &Vec<u8>,
) -> (r: Result<(), Error<R::Error>>)
    requires
        block_size > 0,
        pad ==> (block_size <= 1024 || data@.len() <= 1024),
        end_args@.len() <= MAX_DATA_SIZE,
    ensures
        old(bootloader).stepped(
            *final(bootloader),
            download_spec::<R::Error>(
                old(bootloader).inc(),
                begin.code(),
                begin_payload(data@.len() as u32, block_size, address),
                data_cmd.code(),
                chunks(data@, block_size as nat),
                pad,
                end.code(),
                end_args@,
            ),
            r,
        ),
{
    let ghost inc0 = bootloader.inc();
    let ghost out0 = bootloader.out();
    let _packet_count = bootloader.begin(begin, data.len() as u32, block_size, address)?;
    let ghost inc1 = bootloader.inc();
    bootloader.send_blocks(data_cmd, data, block_size as usize, pad)?;
    let ghost inc2 = bootloader.inc();
    proof {
        let (_, n1, s1) = exchange::<R::Error>(
            inc0,
            begin.code(),
            begin_payload(data@.len() as u32, block_size, address),
            0,
        )->Ok_0;
        let (n2, s2) = run_data::<R::Error>(inc1, data_cmd.code(), chunks(data@, block_size as nat), pad, 0)->Ok_0;
        assert(inc2 =~= inc0.skip((n1 + n2) as int));
    }
    bootloader.send_command(end, end_args.as_slice(), 0)?;
    proof {
        let (_, n1, s1) = exchange::<R::Error>(
            inc0,
            begin.code(),
            begin_payload(data@.len() as u32, block_size, address),
            0,
        )->Ok_0;
        let (n2, s2) = run_data::<R::Error>(inc1, data_cmd.code(), chunks(data@, block_size as nat), pad, 0)->Ok_0;
        let (_, n3, s3) = exchange::<R::Error>(inc2, end.code(), end_args@, 0)->Ok_0;
        assert(bootloader.inc() =~= inc0.skip((n1 + n2 + n3) as int));
        assert(bootloader.out() =~= out0 + (s1 + s2 + s3));
    }
    Ok(())
}
impl<R: CtlPort, W: CtlPort<Error = R::Error>> Bootloader<R, W> {
    /// Read the partition table from flash offset 0x8000 using direct SPI flash reads;
    /// returns up to 16 entries.
    #[verifier::rlimit(30)]
    pub fn read_partition_table(&mut self) -> (r: Result<heapless::Vec<PartitionEntry, 16>, Error<R::Error>>)
        ensures
            ({
                let spec = partition_run::<R::Error>(old(self).inc(), 0);
                &&& r matches Ok(v) ==> spec matches Ok((es, n, s)) && partition_list(v) == es && n
                    <= old(self).inc().len() && final(self).inc() == old(self).inc().skip(n as int)
                    && final(self).out() == old(self).out() + s
                &&& r matches Err(e) ==> e.is_port_error() || spec == Err::<
                    (Seq<PartitionEntryView>, nat, Seq<u8>),
                    Error<R::Error>,
                >(e)
                &&& old(self).ports_healthy() ==> final(self).ports_healthy() && (r matches Err(e) ==> spec == Err::<
                    (Seq<PartitionEntryView>, nat, Seq<u8>),
                    Error<R::Error>,
                >(e))
                &&& r is Ok ==> (read_flash_spec::<R::Error>(old(self).inc(), 0x8000, 32, 0) matches Ok((e, n, s))
                    && final(self).out().subrange(old(self).out().len() as int, (old(self).out().len() + s.len()) as int) == s)
            }),
    {
        let ghost inc0 = self.inc();
        let ghost out0 = self.out();
        let ghost mut k: nat = 0;
        let ghost mut sent: Seq<u8> = Seq::empty();
        proof {
            lemma_partition_entry_address::<R::Error>(inc0, 0);
        }
        let mut entries = partition_list_new();
        assert(inc0.skip(0) =~= inc0);
        assert(out0 + sent =~= out0);
        proof {
            if let Ok((es, m, t)) = partition_run::<R::Error>(inc0, 0) {
                assert(Seq::<u8>::empty() + t =~= t);
                assert(Seq::<PartitionEntryView>::empty() + es =~= es);
            }
        }
        let mut i: u32 = 0;
        while i < 16
            invariant_except_break
                partition_run::<R::Error>(inc0, 0) == then_entries(
                    partition_list(entries),
                    k,
                    sent,
                    partition_run::<R::Error>(self.inc(), i as nat),
                ),
            invariant
                i <= 16,
                partition_list(entries).len() <= i,
                inc0 == old(self).inc(),
                out0 == old(self).out(),
                old(self).ports_healthy() ==> self.ports_healthy(),
                k <= inc0.len(),
                self.inc() == inc0.skip(k as int),
                self.out() == out0 + sent,
            ensures
                partition_run::<R::Error>(inc0, 0) == Ok::<(Seq<PartitionEntryView>, nat, Seq<u8>), Error<R::Error>>(
                    (partition_list(entries), k, sent),
                ),
            decreases 16 - i,
        {
            let ghost cur = self.inc();
            let entry_addr: u32 = PARTITION_TABLE_OFFSET + i * PARTITION_ENTRY_SIZE;
            let mut entry_data: [u8; 32] = [0u8; 32];
            match self.read_flash(entry_addr, &mut entry_data) {
                Ok(()) => {},
                Err(e) => {
                    return Err(e);
                },
            }
            let ghost before = partition_list(entries);
            let ghost (e, n, s) = read_flash_spec::<R::Error>(cur, entry_addr, 32, 0)->Ok_0;
            proof {
                assert(cur.skip(n as int) =~= inc0.skip((k + n) as int));
                assert(out0 + sent + s =~= out0 + (sent + s));
            }
            if entry_data[0] == 0xAA && entry_data[1] == 0x50 {
                let entry = decode_entry(&entry_data);
                let _ = partition_list_push(&mut entries, entry);
                proof {
                    let rest = partition_run::<R::Error>(cur.skip(n as int), (i + 1) as nat);
                    if let Ok((b, m, t)) = rest {
                        assert(before + (seq![parse_entry(e)] + b) =~= before.push(parse_entry(e)) + b);
                        assert(sent + (s + t) =~= (sent + s) + t);
                    }
                    k = k + n;
                    sent = sent + s;
                }
            } else if (entry_data[0] == 0xEB && entry_data[1] == 0xEB) || (entry_data[0] == 0xFF
                && entry_data[1] == 0xFF) {
                proof {
                    assert(before + Seq::<PartitionEntryView>::empty() =~= before);
                    k = k + n;
                    sent = sent + s;
                }
                break;
            } else {
                proof {
                    let rest = partition_run::<R::Error>(cur.skip(n as int), (i + 1) as nat);
                    if let Ok((b, m, t)) = rest {
                        assert(before + (Seq::<PartitionEntryView>::empty() + b) =~= before + b);
                        assert(sent + (s + t) =~= (sent + s) + t);
                    }
                    k = k + n;
                    sent = sent + s;
                }
            }
            i = i + 1;
        }
        proof {
            if i == 16 {
                assert(partition_list(entries) + Seq::<PartitionEntryView>::empty() =~= partition_list(entries));
                assert(sent + Seq::<u8>::empty() =~= sent);
            }
            if let Ok((e, n, s)) = read_flash_spec::<R::Error>(inc0, 0x8000, 32, 0) {
                assert((out0 + sent).subrange(out0.len() as int, (out0.len() + s.len()) as int) =~= sent.subrange(
                    0,
                    s.len() as int,
                ));
            }
        }
        Ok(entries)
    }
}

} // verus!
