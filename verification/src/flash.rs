//! Flashing the STM32 chips through their bootloaders: the MGMT chip (STM32F072,
//! 2 KB pages) and the UI chip (STM32F405, sectors of 16 to 128 KB); what the
//! MGMT bootloader reports; its DATA0 option byte.
//!
//! The contracts speak of the bootloader link's `incoming` and `outgoing` bytes
//! (see `CtlPort`): what a flashing sends, in which order, and which answers make
//! it succeed.
use vstd::prelude::*;

use crate::esp::from_le32;
use crate::stm::{
    address_frame, all_acked, command_frame, extended_list_frame, list_frame, Bootloader, Command, Error,
    ACK, INIT,
};
use crate::ctl::CtlCore;
use crate::port::{is_suffix, lemma_suffix_trans, CtlPort, SetBaudRate, SplitPort};

verus! {

/// Information retrieved from the MGMT chip when it's in bootloader mode.
#[derive(Debug, Clone)]
pub struct MgmtBootloaderInfo {
    /// Bootloader protocol version (e.g., 0x31 = v3.1).
    pub bootloader_version: u8,
    /// Chip product ID.
    pub chip_id: u16,
    /// Supported command codes.
    pub commands: [u8; 16],
    /// Number of valid commands in the `commands` array.
    pub command_count: usize,
    /// First 32 bytes of flash memory (vector table).
    pub flash_sample: Option<[u8; 32]>,
}

impl Default for MgmtBootloaderInfo {
    fn default() -> (r: Self)
        ensures
            r.bootloader_version == 0,
            r.chip_id == 0,
            r.commands@ == Seq::new(16, |i: int| 0u8),
            r.command_count == 0,
            r.flash_sample is None,
    {
        let commands: [u8; 16] = [0u8; 16];
        assert(commands@ =~= Seq::new(16, |i: int| 0u8));
        MgmtBootloaderInfo { bootloader_version: 0, chip_id: 0, commands, command_count: 0, flash_sample: None }
    }
}

/// The little-endian word at `offset` of a flash sample.
pub open spec fn sample_word(f: [u8; 32], offset: int) -> u32 {
    from_le32(f@.subrange(offset, offset + 4))
}

impl MgmtBootloaderInfo {
    /// Initial stack pointer: the first word of the vector table.
    pub open spec fn spec_sp(&self) -> Option<u32> {
        match self.flash_sample {
            Some(f) => Some(sample_word(f, 0)),
            None => None,
        }
    }

    /// Reset handler: the second word of the vector table.
    pub open spec fn spec_reset_handler(&self) -> Option<u32> {
        match self.flash_sample {
            Some(f) => Some(sample_word(f, 4)),
            None => None,
        }
    }

    /// Major version number (upper nibble of bootloader_version).
    pub fn version_major(&self) -> (r: u8)
        ensures
            r == self.bootloader_version / 16,
    {
        let v = self.bootloader_version;
        assert(v >> 4u8 == v / 16) by (bit_vector);
        v >> 4u8
    }

    /// Minor version number (lower nibble of bootloader_version).
    pub fn version_minor(&self) -> (r: u8)
        ensures
            r == self.bootloader_version % 16,
    {
        let v = self.bootloader_version;
        assert(v & 0x0Fu8 == v % 16) by (bit_vector);
        v & 0x0Fu8
    }

    /// Initial stack pointer from the vector table, if the flash sample is available.
    pub fn sp(&self) -> (r: Option<u32>)
        ensures
            r == self.spec_sp(),
    {
        match &self.flash_sample {
            Some(f) => {
                assert(f@.subrange(0, 4) =~= seq![f[0], f[1], f[2], f[3]]);
                Some((f[0] as u32) | ((f[1] as u32) << 8u32) | ((f[2] as u32) << 16u32) | ((f[3] as u32) << 24u32))
            },
            None => None,
        }
    }

    /// Reset handler address from the vector table, if the flash sample is available.
    pub fn reset_handler(&self) -> (r: Option<u32>)
        ensures
            r == self.spec_reset_handler(),
    {
        match &self.flash_sample {
            Some(f) => {
                assert(f@.subrange(4, 8) =~= seq![f[4], f[5], f[6], f[7]]);
                Some((f[4] as u32) | ((f[5] as u32) << 8u32) | ((f[6] as u32) << 16u32) | ((f[7] as u32) << 24u32))
            },
            None => None,
        }
    }

    /// Whether the initial SP appears valid: it points into SRAM (0x2000_0000 up to
    /// 0x2002_0000).
    pub fn sp_valid(&self) -> (r: bool)
        ensures
            r == (self.spec_sp() matches Some(sp) && 0x2000_0000 <= sp < 0x2002_0000),
    {
        match self.sp() {
            Some(sp) => 0x2000_0000 <= sp && sp < 0x2002_0000,
            None => false,
        }
    }

    /// Whether the reset handler appears valid: it points into flash (0x0800_0000 up
    /// to 0x0810_0000) with the Thumb bit set.
    pub fn reset_valid(&self) -> (r: bool)
        ensures
            r == (self.spec_reset_handler() matches Some(a) && 0x0800_0000 <= a < 0x0810_0000 && a & 1 == 1),
    {
        match self.reset_handler() {
            Some(a) => 0x0800_0000 <= a && a < 0x0810_0000 && (a & 1) == 1,
            None => false,
        }
    }
}

/// Phase of the flash operation, reported to progress callbacks.
#[derive(Debug, Clone, Copy, PartialEq, Eq, Structural)]
pub enum FlashPhase {
    /// Compressing firmware data.
    Compressing,
    /// Erasing flash memory.
    Erasing,
    /// Writing firmware data.
    Writing,
    /// Verifying written data.
    Verifying,
}

/// The name of a phase.
pub open spec fn phase_name(p: FlashPhase) -> Seq<char> {
    match p {
        FlashPhase::Compressing => "compressing"@,
        FlashPhase::Erasing => "erasing"@,
        FlashPhase::Writing => "writing"@,
        FlashPhase::Verifying => "verifying"@,
    }
}

impl FlashPhase {
    /// The phase as lower-case text.
    pub fn as_str(&self) -> (r: &'static str)
        ensures
            r@ == phase_name(*self),
    {
        match self {
            FlashPhase::Compressing => "compressing",
            FlashPhase::Erasing => "erasing",
            FlashPhase::Writing => "writing",
            FlashPhase::Verifying => "verifying",
        }
    }
}

/// How the MGMT chip entered its bootloader.
#[derive(Debug, Clone, Copy, PartialEq, Eq, Structural)]
pub enum MgmtBootloaderEntry {
    /// Successfully entered bootloader via DTR/RTS reset.
    AutoReset,
    /// Bootloader was already active (user pre-reset the device).
    AlreadyActive,
    /// Could not detect bootloader - manual intervention required.
    NotDetected,
}

/// A provider of delays.
pub trait AsyncDelay {
    /// Delay for the specified number of milliseconds.
    fn delay_ms(&self, ms: u32);
}

/// Sector sizes of the STM32F405 flash: four of 16 KB, one of 64 KB, seven of 128 KB.
pub open spec fn f405_sector_size(i: int) -> nat {
    if i < 4 {
        0x4000
    } else if i == 4 {
        0x10000
    } else {
        0x20000
    }
}

/// The size of the first `n` sectors.
pub open spec fn f405_prefix(n: int) -> nat
    decreases n,
{
    if n <= 0 {
        0
    } else {
        f405_prefix(n - 1) + f405_sector_size(n - 1)
    }
}

/// The whole flash is 1 MB.
proof fn lemma_f405_prefix_bound(n: int)
    requires
        0 <= n <= 12,
    ensures
        f405_prefix(n) <= 0x100000,
    decreases 12 - n,
{
    if n < 12 {
        lemma_f405_prefix_bound(n + 1);
    } else {
        reveal_with_fuel(f405_prefix, 13);
    }
}

/// The number of sectors that hold `size` bytes: the fewest sectors from the start
/// whose sizes add up to at least `size`, at least one, and all 12 when even the
/// eleven first do not suffice.
pub open spec fn f405_sectors(size: nat) -> nat {
    if size <= f405_prefix(1) {
        1
    } else {
        choose_sectors(size, 2)
    }
}

/// The first `n` from `i` on (up to 12) whose prefix holds `size`.
pub open spec fn choose_sectors(size: nat, i: nat) -> nat
    decreases 12 - i,
{
    if i >= 12 {
        12
    } else if size <= f405_prefix(i as int) {
        i
    } else {
        choose_sectors(size, i + 1)
    }
}

/// The number of sectors needed for a firmware of `size` bytes on the STM32F405.
pub fn sectors_for_size_f405(size: usize) -> (r: usize)
    ensures
        r == f405_sectors(size as nat),
{
    let sizes: [usize; 12] = [0x4000, 0x4000, 0x4000, 0x4000, 0x10000, 0x20000, 0x20000, 0x20000, 0x20000, 0x20000, 0x20000, 0x20000];
    let mut total: usize = 0;
    let mut i: usize = 0;
    while i < 12
        invariant
            i <= 12,
            total == f405_prefix(i as int),
            total <= 0x100000,
            forall|j: int| 0 <= j < 12 ==> sizes@[j] == f405_sector_size(j),
            i <= 1 || size > f405_prefix((i - 1) as int),
            i >= 2 ==> f405_sectors(size as nat) == choose_sectors(size as nat, i as nat),
        decreases 12 - i,
    {
        if total >= size {
            proof {
                if i >= 2 {
                    assert(choose_sectors(size as nat, i as nat) == i);
                } else {
                    reveal_with_fuel(f405_prefix, 2);
                }
            }
            return if i > 1 {
                i
            } else {
                1
            };
        }
        proof {
            reveal_with_fuel(f405_prefix, 2);
            lemma_f405_prefix_bound(i + 1);
        }
        total = total + sizes[i];
        i = i + 1;
    }
    12
}


/// Start of the MGMT chip's (STM32F072) flash, where its firmware starts.
pub const F072_FLASH_BASE: u32 = 0x0800_0000;

/// Size of a flash page of the MGMT chip: 2 KB.
pub const F072_PAGE_SIZE: usize = 2048;

/// Bytes written, or read back, per bootloader command when flashing.
pub const WRITE_CHUNK_SIZE: usize = 256;

/// Errors that can occur during flash operations.
#[derive(Debug)]
pub enum FlashError<E> {
    /// Bootloader protocol error.
    Bootloader(Error<E>),
    /// Verification failed: the bytes read back at `address` are not those written.
    VerifyFailed { address: u32, expected: Vec<u8>, actual: Vec<u8> },
}

/// Concatenation of byte strings, in order.
pub open spec fn concat_all(pieces: Seq<Seq<u8>>) -> Seq<u8>
    decreases pieces.len(),
{
    if pieces.len() == 0 {
        Seq::empty()
    } else {
        concat_all(pieces.drop_last()) + pieces.last()
    }
}

/// `n` ACK bytes.
pub open spec fn acks(n: nat) -> Seq<u8> {
    Seq::new(n, |i: int| ACK)
}

/// The number of 2 KB pages that `len` bytes cover, and at least one.
pub open spec fn f072_pages(len: nat) -> nat {
    let p = (len + 2047) / 2048;
    if p == 0 {
        1
    } else {
        p
    }
}

/// What erasing page `p` sends when it succeeds: an Extended Erase of the page, or,
/// when that was refused (before or after the page list), a legacy Erase of it.
pub open spec fn page_erased_by(p: nat, e: Seq<u8>) -> bool {
    let ext = command_frame(Command::ExtendedErase);
    let ext_list = extended_list_frame(seq![p as u16]);
    let legacy = command_frame(Command::Erase) + list_frame(seq![p as u8]);
    ||| e == ext + ext_list
    ||| e == ext + legacy
    ||| e == ext + ext_list + legacy
}

/// What erasing pages `0..n` with Extended Erase sends when every page is acknowledged.
pub open spec fn extended_erase_frames(n: nat) -> Seq<u8>
    decreases n,
{
    if n == 0 {
        Seq::empty()
    } else {
        extended_erase_frames((n - 1) as nat) + command_frame(Command::ExtendedErase) + extended_list_frame(
            seq![(n - 1) as u16],
        )
    }
}

/// Progress reports of the erase phase: one per page before it is erased, then one
/// for the whole.
pub open spec fn erase_log(n: nat) -> Seq<(FlashPhase, usize, usize)> {
    Seq::new(n + 1, |i: int| (FlashPhase::Erasing, i as usize, n as usize))
}

/// Erase pages `0..n`, each with Extended Erase, falling back to the legacy Erase
/// when the bootloader refuses it; reports progress before each page and once done.
fn erase_pages<R: CtlPort, W: CtlPort<Error = R::Error>>(
    bl: &mut Bootloader<R, W>,
    n: usize,
    progress: &mut Vec<(FlashPhase, usize, usize)>,
) -> (r: Result<(), Error<R::Error>>)
    ensures
        r is Ok ==> final(progress)@ == old(progress)@ + erase_log(n as nat),
        old(bl).ports_healthy() ==> final(bl).ports_healthy(),
        old(bl).ports_healthy() ==> is_suffix(final(bl).reader().incoming(), old(bl).reader().incoming()),
        r is Ok && old(bl).ports_healthy() ==> exists|pieces: Seq<Seq<u8>>|
            #![trigger concat_all(pieces)]
            pieces.len() == n && (forall|p: int| 0 <= p < n ==> page_erased_by(p as nat, #[trigger] pieces[p]))
                && final(bl).writer().outgoing() == old(bl).writer().outgoing() + concat_all(pieces),
        old(bl).ports_healthy() && old(bl).reader().incoming().len() >= 2 * n && old(bl).reader().incoming().take(
            2 * n,
        ) == acks(2 * n as nat) ==> r is Ok && final(bl).reader().incoming() == old(bl).reader().incoming().skip(
            2 * n,
        ) && final(bl).writer().outgoing() == old(bl).writer().outgoing() + extended_erase_frames(n as nat),
{
    let ghost inc0 = bl.reader().incoming();
    let ghost out0 = bl.writer().outgoing();
    let ghost happy = bl.ports_healthy() && inc0.len() >= 2 * n && inc0.take(2 * n) == acks(2 * n as nat);
    let ghost mut pieces: Seq<Seq<u8>> = Seq::empty();
    assert(inc0.skip(0) =~= inc0);
    let mut page: usize = 0;
    while page < n
        invariant
            page <= n,
            progress@ == old(progress)@ + erase_log(n as nat).take(page as int),
            old(bl).ports_healthy() ==> bl.ports_healthy(),
            old(bl).ports_healthy() ==> is_suffix(bl.reader().incoming(), inc0),
            old(bl).ports_healthy() ==> pieces.len() == page && (forall|p: int|
                0 <= p < page ==> page_erased_by(p as nat, #[trigger] pieces[p])) && bl.writer().outgoing() == out0
                + concat_all(pieces),
            happy ==> bl.reader().incoming() == inc0.skip(2 * page) && bl.writer().outgoing() == out0
                + extended_erase_frames(page as nat),
            happy == (old(bl).ports_healthy() && inc0.len() >= 2 * n && inc0.take(2 * n) == acks(2 * n as nat)),
            inc0 == old(bl).reader().incoming(),
            out0 == old(bl).writer().outgoing(),
        decreases n - page,
    {
        progress.push((FlashPhase::Erasing, page, n));
        assert(progress@ =~= old(progress)@ + erase_log(n as nat).take(page + 1));
        let ghost before = bl.writer().outgoing();
        let ghost inc_p = bl.reader().incoming();
        proof {
            if happy {
                assert(inc_p[0] == inc0.take(2 * n)[2 * page]);
                assert(inc_p[1] == inc0.take(2 * n)[2 * page + 1]);
                assert(inc_p[0] == ACK && inc_p[1] == ACK);
            }
        }
        let one: [u16; 1] = [page as u16];
        assert(one@ =~= seq![page as u16]);
        let ghost mut e: Seq<u8> = Seq::empty();
        if bl.extended_erase(Some(&one), None).is_err() {
            let legacy: [u8; 1] = [page as u8];
            assert(legacy@ =~= seq![page as u8]);
            let ghost mid = bl.reader().incoming();
            let er = bl.erase(Some(&legacy));
            proof {
                if old(bl).ports_healthy() {
                    lemma_suffix_trans(bl.reader().incoming(), mid, inc_p);
                    lemma_suffix_trans(bl.reader().incoming(), inc_p, inc0);
                }
            }
            match er {
                Ok(()) => {},
                Err(e) => {
                    return Err(e);
                },
            }
            proof {
                if old(bl).ports_healthy() {
                    e = bl.writer().outgoing().subrange(before.len() as int, bl.writer().outgoing().len() as int);
                    assert(bl.writer().outgoing() =~= before + e);
                    let ext = command_frame(Command::ExtendedErase);
                    let ext_list = extended_list_frame(seq![page as u16]);
                    let legacy_f = command_frame(Command::Erase) + list_frame(seq![page as u8]);
                    if inc_p.len() >= 1 && inc_p[0] == ACK {
                        assert(e =~= ext + ext_list + legacy_f);
                    } else {
                        assert(e =~= ext + legacy_f);
                    }
                }
            }
        } else {
            proof {
                e = command_frame(Command::ExtendedErase) + extended_list_frame(seq![page as u16]);
                assert(bl.writer().outgoing() =~= before + e);
            }
        }
        proof {
            if old(bl).ports_healthy() {
                lemma_suffix_trans(bl.reader().incoming(), inc_p, inc0);
                assert(page_erased_by(page as nat, e));
                let prev = pieces;
                pieces = prev.push(e);
                assert(pieces.drop_last() =~= prev);
                assert(concat_all(pieces) == concat_all(prev) + e);
                assert(bl.writer().outgoing() =~= out0 + concat_all(pieces));
                assert forall|p: int| 0 <= p < page + 1 implies page_erased_by(p as nat, #[trigger] pieces[p]) by {
                    if p < page {
                        assert(pieces[p] == prev[p]);
                    }
                }
            }
            if happy {
                assert(bl.reader().incoming() =~= inc0.skip(2 * (page + 1)));
            }
        }
        page = page + 1;
    }
    progress.push((FlashPhase::Erasing, n, n));
    assert(progress@ =~= old(progress)@ + erase_log(n as nat));
    Ok(())
}


/// The number of 256-byte chunks that `len` bytes make.
pub open spec fn chunk_count(len: nat) -> nat {
    (len + 255) / 256
}

/// The `i`-th 256-byte chunk of `fw` (the last one may be shorter).
pub open spec fn chunk_of(fw: Seq<u8>, i: nat) -> Seq<u8> {
    let start = 256 * (i as int);
    let end = if start + 256 < fw.len() {
        start + 256
    } else {
        fw.len() as int
    };
    fw.subrange(start, end)
}

/// The address of the `i`-th chunk.
pub open spec fn chunk_address(base: u32, i: nat) -> u32 {
    (base + 256 * i) as u32
}

/// What writing the first `i` chunks of `fw` at `base` sends, one Write Memory each.
pub open spec fn write_frames(fw: Seq<u8>, base: u32, i: nat) -> Seq<u8>
    decreases i,
{
    if i == 0 {
        Seq::empty()
    } else {
        let j = (i - 1) as nat;
        write_frames(fw, base, j) + command_frame(Command::WriteMemory) + address_frame(chunk_address(base, j))
            + list_frame(chunk_of(fw, j))
    }
}

/// What reading back the first `i` chunks of `fw` at `base` sends, one Read Memory each.
pub open spec fn read_frames(fw: Seq<u8>, base: u32, i: nat) -> Seq<u8>
    decreases i,
{
    if i == 0 {
        Seq::empty()
    } else {
        let j = (i - 1) as nat;
        let n = (chunk_of(fw, j).len() - 1) as u8;
        read_frames(fw, base, j) + command_frame(Command::ReadMemory) + address_frame(chunk_address(base, j)) + seq![
            n,
            !n,
        ]
    }
}

/// The answers of a bootloader whose flash holds `fw` to the reads of the first `i`
/// chunks: three ACKs, then the chunk, for each.
pub open spec fn readback_answers(fw: Seq<u8>, i: nat) -> Seq<u8>
    decreases i,
{
    if i == 0 {
        Seq::empty()
    } else {
        let j = (i - 1) as nat;
        readback_answers(fw, j) + acks(3) + chunk_of(fw, j)
    }
}

/// Progress reports of the write (or verify) phase after `i` chunks of `len` bytes.
pub open spec fn chunk_log(phase: FlashPhase, len: nat, i: nat) -> Seq<(FlashPhase, usize, usize)> {
    Seq::new(
        i,
        |k: int|
            (phase, (if 256 * (k + 1) < len {
                256 * (k + 1)
            } else {
                len as int
            }) as usize, len as usize),
    )
}

proof fn lemma_chunk_count(len: nat, i: nat)
    requires
        (i == 0 && len == 0) || (i > 0 && 256 * (i - 1) < len <= 256 * i),
    ensures
        chunk_count(len) == i,
{
    assert((len + 255) / 256 == i) by (nonlinear_arith)
        requires
            (i == 0 && len == 0) || (i > 0 && 256 * (i - 1) < len <= 256 * i),
    ;
}

/// A copy of `v[start..end]`.
fn copy_range(v: &[u8], start: usize, end: usize) -> (r: Vec<u8>)
    requires
        start <= end <= v@.len(),
    ensures
        r@ == v@.subrange(start as int, end as int),
{
    let mut r: Vec<u8> = Vec::new();
    let mut k: usize = start;
    while k < end
        invariant
            start <= k <= end <= v@.len(),
            r@ == v@.subrange(start as int, k as int),
        decreases end - k,
    {
        r.push(v[k]);
        assert(r@ =~= v@.subrange(start as int, k + 1));
        k = k + 1;
    }
    r
}

/// Whether two byte strings are equal.
fn same_bytes(a: &[u8], b: &[u8]) -> (r: bool)
    ensures
        r == (a@ == b@),
{
    if a.len() != b.len() {
        return false;
    }
    let mut k: usize = 0;
    while k < a.len()
        invariant
            a@.len() == b@.len(),
            k <= a@.len(),
            forall|j: int| 0 <= j < k ==> a@[j] == b@[j],
        decreases a@.len() - k,
    {
        if a[k] != b[k] {
            return false;
        }
        k = k + 1;
    }
    assert(a@ =~= b@);
    true
}

/// Write `fw` at `base` in 256-byte chunks, reporting progress after each.
fn write_chunks<R: CtlPort, W: CtlPort<Error = R::Error>>(
    bl: &mut Bootloader<R, W>,
    fw: &[u8],
    base: u32,
    progress: &mut Vec<(FlashPhase, usize, usize)>,
) -> (r: Result<(), Error<R::Error>>)
    requires
        base + fw@.len() <= u32::MAX,
    ensures
        ({
            let c = chunk_count(fw@.len());
            let inc = old(bl).reader().incoming();
            &&& r is Ok ==> {
                &&& inc.len() >= 3 * c
                &&& inc.take(3 * c as int) == acks(3 * c)
                &&& final(bl).reader().incoming() == inc.skip(3 * c as int)
                &&& final(bl).writer().outgoing() == old(bl).writer().outgoing() + write_frames(fw@, base, c)
                &&& final(progress)@ == old(progress)@ + chunk_log(FlashPhase::Writing, fw@.len(), c)
            }
            &&& old(bl).ports_healthy() ==> final(bl).ports_healthy()
            &&& old(bl).ports_healthy() && inc.len() >= 3 * c && inc.take(3 * c as int) == acks(3 * c) ==> r is Ok
        }),
{
    let ghost inc0 = bl.reader().incoming();
    let ghost out0 = bl.writer().outgoing();
    let len = fw.len();
    let mut written: usize = 0;
    let mut i: usize = 0;
    while written < len
        invariant
            len == fw@.len(),
            base + len <= u32::MAX,
            written == (if 256 * i < len { 256 * i } else { len as int }),
            i == 0 || 256 * (i - 1) < len,
            inc0.len() >= 3 * i,
            inc0.take(3 * i) == acks(3 * i as nat),
            bl.reader().incoming() == inc0.skip(3 * i),
            bl.writer().outgoing() == out0 + write_frames(fw@, base, i as nat),
            progress@ == old(progress)@ + chunk_log(FlashPhase::Writing, len as nat, i as nat),
            old(bl).ports_healthy() ==> bl.ports_healthy(),
            inc0 == old(bl).reader().incoming(),
            out0 == old(bl).writer().outgoing(),
        decreases len - written,
    {
        let end = if len - written > 256 { written + 256 } else { len };
        let chunk = copy_range(fw, written, end);
        assert(chunk@ == chunk_of(fw@, i as nat));
        let address = base + written as u32;
        assert(address == chunk_address(base, i as nat));
        let ghost inc_i = bl.reader().incoming();
        let ghost out_i = bl.writer().outgoing();
        let r = bl.write_memory(address, chunk.as_slice());
        match r {
            Ok(()) => {},
            Err(e) => {
                proof {
                    let c = chunk_count(len as nat);
                    if old(bl).ports_healthy() && inc0.len() >= 3 * c && inc0.take(3 * c as int) == acks(3 * c) {
                        assert(i < c) by (nonlinear_arith)
                            requires
                                written == (if 256 * i < len { 256 * i } else { len as int }),
                                written < len,
                                c == (len + 255) / 256,
                        ;
                        assert(inc_i[0] == inc0.take(3 * c as int)[3 * i]);
                        assert(inc_i[1] == inc0.take(3 * c as int)[3 * i + 1]);
                        assert(inc_i[2] == inc0.take(3 * c as int)[3 * i + 2]);
                        assert(false);
                    }
                }
                return Err(e);
            },
        }
        proof {
            assert(inc0.take(3 * (i + 1)) =~= inc0.take(3 * i) + inc_i.take(3));
            assert(inc_i.take(3) =~= acks(3));
            assert(inc0.take(3 * (i + 1)) =~= acks(3 * (i + 1) as nat));
            assert(bl.reader().incoming() =~= inc0.skip(3 * (i + 1)));
        }
        written = end;
        i = i + 1;
        progress.push((FlashPhase::Writing, written, len));
        assert(progress@ =~= old(progress)@ + chunk_log(FlashPhase::Writing, len as nat, i as nat));
    }
    proof {
        lemma_chunk_count(len as nat, i as nat);
    }
    Ok(())
}


/// Read one chunk back from `address` and compare it with `chunk`.
fn read_back_chunk<R: CtlPort, W: CtlPort<Error = R::Error>>(
    bl: &mut Bootloader<R, W>,
    address: u32,
    chunk: Vec<u8>,
) -> (r: Result<(), FlashError<R::Error>>)
    requires
        0 < chunk@.len() <= 256,
    ensures
        ({
            let inc = old(bl).reader().incoming();
            let k = chunk@.len() as int;
            let n = (k - 1) as u8;
            &&& r is Ok ==> {
                &&& inc.len() >= 3 + k
                &&& inc.take(3 + k) == acks(3) + chunk@
                &&& final(bl).reader().incoming() == inc.skip(3 + k)
                &&& final(bl).writer().outgoing() == old(bl).writer().outgoing() + command_frame(Command::ReadMemory)
                    + address_frame(address) + seq![n, !n]
            }
            &&& r matches Err(FlashError::VerifyFailed { address: a, expected, actual }) ==> {
                &&& a == address
                &&& expected@ == chunk@
                &&& actual@ != chunk@
                &&& inc.len() >= 3 + k
                &&& inc.take(3) == acks(3)
                &&& actual@ == inc.subrange(3, 3 + k)
            }
            &&& old(bl).ports_healthy() ==> final(bl).ports_healthy()
            &&& old(bl).ports_healthy() && inc.len() >= 3 + k && inc.take(3 + k) == acks(3) + chunk@ ==> r is Ok
        }),
{
    let ghost inc = bl.reader().incoming();
    let clen = chunk.len();
    let mut buf: Vec<u8> = vec![0u8; clen];
    let got = bl.read_memory(address, buf.as_mut_slice());
    match got {
        Ok(_) => {},
        Err(e) => {
            proof {
                if bl.ports_healthy() && inc.len() >= 3 + clen && inc.take(3 + clen) == acks(3) + chunk@ {
                    assert(inc[0] == inc.take(3 + clen)[0]);
                    assert(inc[1] == inc.take(3 + clen)[1]);
                    assert(inc[2] == inc.take(3 + clen)[2]);
                    let ps = seq![0int, 1int, 2int];
                    assert(ps[0] == 0 && ps[1] == 1 && ps[2] == 2);
                    assert(all_acked(inc, ps));
                }
            }
            return Err(FlashError::Bootloader(e));
        },
    }
    proof {
        let ps = seq![0int, 1int, 2int];
        assert(ps[0] == 0 && ps[1] == 1 && ps[2] == 2);
        assert(inc[ps[0]] == ACK && inc[ps[1]] == ACK && inc[ps[2]] == ACK);
        assert(inc.take(3) =~= acks(3));
        assert(buf@ =~= inc.subrange(3, 3 + clen));
    }
    if !same_bytes(buf.as_slice(), chunk.as_slice()) {
        proof {
            if inc.take(3 + clen) == acks(3) + chunk@ {
                assert(inc.subrange(3, 3 + clen) =~= (acks(3) + chunk@).subrange(3, 3 + clen));
                assert((acks(3) + chunk@).subrange(3, 3 + clen) =~= chunk@);
            }
        }
        return Err(FlashError::VerifyFailed { address, expected: chunk, actual: buf });
    }
    assert(inc.take(3 + clen) =~= inc.take(3) + inc.subrange(3, 3 + clen));
    Ok(())
}

/// Read `fw` back from `base` in 256-byte chunks and compare; reports progress after
/// each chunk that matched. The first chunk whose bytes differ ends it with
/// `VerifyFailed`.
fn verify_chunks<R: CtlPort, W: CtlPort<Error = R::Error>>(
    bl: &mut Bootloader<R, W>,
    fw: &[u8],
    base: u32,
    progress: &mut Vec<(FlashPhase, usize, usize)>,
) -> (r: Result<(), FlashError<R::Error>>)
    requires
        base + fw@.len() <= u32::MAX,
    ensures
        ({
            let c = chunk_count(fw@.len());
            let inc = old(bl).reader().incoming();
            let ra = readback_answers(fw@, c);
            &&& r is Ok ==> {
                &&& inc.len() >= ra.len()
                &&& inc.take(ra.len() as int) == ra
                &&& final(bl).reader().incoming() == inc.skip(ra.len() as int)
                &&& final(bl).writer().outgoing() == old(bl).writer().outgoing() + read_frames(fw@, base, c)
                &&& final(progress)@ == old(progress)@ + chunk_log(FlashPhase::Verifying, fw@.len(), c)
            }
            &&& r matches Err(FlashError::VerifyFailed { address, expected, actual }) ==> exists|i: nat|
                #![trigger readback_answers(fw@, i)]
                {
                    let before = readback_answers(fw@, i).len() as int;
                    &&& i < c
                    &&& address == chunk_address(base, i)
                    &&& expected@ == chunk_of(fw@, i)
                    &&& actual@ != expected@
                    &&& inc.len() >= before + 3 + expected@.len()
                    &&& inc.take(before) == readback_answers(fw@, i)
                    &&& inc.subrange(before, before + 3) == acks(3)
                    &&& actual@ == inc.subrange(before + 3, before + 3 + expected@.len())
                }
            &&& old(bl).ports_healthy() ==> final(bl).ports_healthy()
            &&& old(bl).ports_healthy() && inc.len() >= ra.len() && inc.take(ra.len() as int) == ra ==> r is Ok
        }),
{
    let ghost inc0 = bl.reader().incoming();
    let ghost out0 = bl.writer().outgoing();
    let ghost c = chunk_count(fw@.len());
    let len = fw.len();
    let mut verified: usize = 0;
    let mut i: usize = 0;
    while verified < len
        invariant
            len == fw@.len(),
            c == chunk_count(len as nat),
            base + len <= u32::MAX,
            verified == (if 256 * i < len { 256 * i } else { len as int }),
            i == 0 || 256 * (i - 1) < len,
            inc0.len() >= readback_answers(fw@, i as nat).len(),
            inc0.take(readback_answers(fw@, i as nat).len() as int) == readback_answers(fw@, i as nat),
            bl.reader().incoming() == inc0.skip(readback_answers(fw@, i as nat).len() as int),
            bl.writer().outgoing() == out0 + read_frames(fw@, base, i as nat),
            progress@ == old(progress)@ + chunk_log(FlashPhase::Verifying, len as nat, i as nat),
            old(bl).ports_healthy() ==> bl.ports_healthy(),
            inc0 == old(bl).reader().incoming(),
            out0 == old(bl).writer().outgoing(),
        decreases len - verified,
    {
        let ghost ra_i = readback_answers(fw@, i as nat);
        let ghost inc_i = bl.reader().incoming();
        let end = if len - verified > 256 { verified + 256 } else { len };
        let chunk = copy_range(fw, verified, end);
        assert(chunk@ == chunk_of(fw@, i as nat));
        let address = base + verified as u32;
        assert(address == chunk_address(base, i as nat));
        let ghost nxt = readback_answers(fw@, (i + 1) as nat);
        assert(nxt == ra_i + acks(3) + chunk@);
        proof {
            assert(i < c) by (nonlinear_arith)
                requires
                    verified == (if 256 * i < len { 256 * i } else { len as int }),
                    verified < len,
                    c == (len + 255) / 256,
            ;
            let ra = readback_answers(fw@, c);
            if old(bl).ports_healthy() && inc0.len() >= ra.len() && inc0.take(ra.len() as int) == ra {
                lemma_readback_prefix(fw@, (i + 1) as nat, c);
                assert(inc0.take(nxt.len() as int) =~= ra.take(nxt.len() as int));
                assert(inc_i.take(3 + chunk@.len() as int) =~= nxt.skip(ra_i.len() as int)) by {
                    assert(inc_i.take(3 + chunk@.len() as int) =~= inc0.take(nxt.len() as int).skip(ra_i.len() as int));
                }
                assert(nxt.skip(ra_i.len() as int) =~= acks(3) + chunk@);
            }
        }
        let r = read_back_chunk(bl, address, chunk);
        match r {
            Ok(()) => {},
            Err(e) => {
                proof {
                    if let FlashError::VerifyFailed { address: a, expected, actual } = &e {
                        let before = ra_i.len() as int;
                        assert(inc0.take(before) == ra_i);
                        assert(inc0.subrange(before, before + 3) =~= inc_i.take(3));
                        assert(inc0.subrange(before + 3, before + 3 + expected@.len() as int) =~= inc_i.subrange(
                            3,
                            3 + expected@.len() as int,
                        ));
                    }
                }
                return Err(e);
            },
        }
        proof {
            assert(inc0.take(nxt.len() as int) =~= nxt) by {
                assert(inc0.take(nxt.len() as int) =~= inc0.take(ra_i.len() as int) + inc_i.take(
                    3 + chunk_of(fw@, i as nat).len() as int,
                ));
            }
            assert(bl.reader().incoming() =~= inc0.skip(nxt.len() as int));
        }
        verified = end;
        i = i + 1;
        progress.push((FlashPhase::Verifying, verified, len));
        assert(progress@ =~= old(progress)@ + chunk_log(FlashPhase::Verifying, len as nat, i as nat));
    }
    proof {
        lemma_chunk_count(len as nat, i as nat);
    }
    Ok(())
}

/// The answers to the first `i` reads are a prefix of those to the first `j`.
proof fn lemma_readback_prefix(fw: Seq<u8>, i: nat, j: nat)
    requires
        i <= j,
    ensures
        readback_answers(fw, i).len() <= readback_answers(fw, j).len(),
        readback_answers(fw, j).take(readback_answers(fw, i).len() as int) == readback_answers(fw, i),
    decreases j - i,
{
    if i < j {
        lemma_readback_prefix(fw, i, (j - 1) as nat);
        let a = readback_answers(fw, i);
        let b = readback_answers(fw, (j - 1) as nat);
        assert(readback_answers(fw, j).take(a.len() as int) =~= b.take(a.len() as int));
    } else {
        assert(readback_answers(fw, j).take(readback_answers(fw, i).len() as int) =~= readback_answers(fw, i));
    }
}


/// The answers of a working MGMT bootloader, whose flash ends up holding `fw`, to a
/// flashing in which every command is acknowledged: the ACK of the
/// initialization (unless skipped), two ACKs per page erased, three per chunk
/// written, three and the chunk per chunk read back, and two for the jump.
pub open spec fn f072_answers(fw: Seq<u8>, skip_init: bool) -> Seq<u8> {
    let c = chunk_count(fw.len());
    (if skip_init {
        Seq::empty()
    } else {
        acks(1)
    }) + acks(2 * f072_pages(fw.len())) + acks(3 * c) + readback_answers(fw, c) + acks(2)
}

/// What a flashing of `fw` sends after the initialization (when not skipped) and the
/// erase: the writes, the reads back and the jump to the new firmware.
pub open spec fn f072_tail_frames(fw: Seq<u8>) -> Seq<u8> {
    let c = chunk_count(fw.len());
    write_frames(fw, F072_FLASH_BASE, c) + read_frames(fw, F072_FLASH_BASE, c) + command_frame(Command::Go)
        + address_frame(F072_FLASH_BASE)
}

/// The initialization byte, unless skipped.
pub open spec fn init_frame(skip_init: bool) -> Seq<u8> {
    if skip_init {
        Seq::empty()
    } else {
        seq![INIT]
    }
}

/// Flash firmware to the MGMT chip (STM32F072) through its bootloader: initialize
/// (unless `skip_init`), erase the 2 KB pages that the firmware covers, write it in
/// 256-byte chunks from the start of flash, read every chunk back and compare, then
/// jump to the new firmware. `progress` receives (phase, done, total) reports.
#[verifier::rlimit(100)]
#[verifier::spinoff_prover]
pub fn flash_f072<R: CtlPort, W: CtlPort<Error = R::Error>>(
    bl: &mut Bootloader<R, W>,
    firmware: &[u8],
    skip_init: bool,
    progress: &mut Vec<(FlashPhase, usize, usize)>,
) -> (r: Result<(), FlashError<R::Error>>)
    requires
        F072_FLASH_BASE + firmware@.len() <= u32::MAX,
    ensures
        ({
            let fw = firmware@;
            let np = f072_pages(fw.len());
            let c = chunk_count(fw.len());
            let inc = old(bl).reader().incoming();
            let out = old(bl).writer().outgoing();
            let ra = readback_answers(fw, c);
            &&& r is Ok ==> final(progress)@ == old(progress)@ + erase_log(np) + chunk_log(FlashPhase::Writing, fw.len(), c)
                + chunk_log(FlashPhase::Verifying, fw.len(), c)
            &&& r is Ok && old(bl).ports_healthy() ==> exists|k: int|
                0 <= k <= inc.len() && #[trigger] inc.skip(k).take(ra.len() as int) == ra
            &&& r is Ok && old(bl).ports_healthy() ==> exists|pieces: Seq<Seq<u8>>|
                #![trigger concat_all(pieces)]
                pieces.len() == np && (forall|p: int| 0 <= p < np ==> page_erased_by(p as nat, #[trigger] pieces[p]))
                    && final(bl).writer().outgoing() == out + init_frame(skip_init) + concat_all(pieces)
                    + f072_tail_frames(fw)
            &&& r matches Err(FlashError::VerifyFailed { address, expected, actual }) ==> exists|i: nat|
                #![trigger chunk_of(fw, i)]
                i < c && address == chunk_address(F072_FLASH_BASE, i) && expected@ == chunk_of(fw, i) && actual@
                    != expected@ && actual@.len() == expected@.len()
            &&& old(bl).ports_healthy() ==> final(bl).ports_healthy()
            &&& old(bl).ports_healthy() && inc.len() >= f072_answers(fw, skip_init).len() && inc.take(
                f072_answers(fw, skip_init).len() as int,
            ) == f072_answers(fw, skip_init) ==> r is Ok && final(bl).writer().outgoing() == out + init_frame(
                skip_init,
            ) + extended_erase_frames(np) + f072_tail_frames(fw) && final(bl).reader().incoming() == inc.skip(
                f072_answers(fw, skip_init).len() as int,
            )
        }),
{
    let ghost fw = firmware@;
    let ghost inc0 = bl.reader().incoming();
    let ghost out0 = bl.writer().outgoing();
    let ghost c = chunk_count(fw.len());
    let ghost all = f072_answers(fw, skip_init);
    let ghost happy = bl.ports_healthy() && inc0.len() >= all.len() && inc0.take(all.len() as int) == all;
    let ghost pre = init_frame(skip_init);
    let ghost pre_in: Seq<u8> = if skip_init { Seq::empty() } else { acks(1) };
    if !skip_init {
        match bl.init() {
            Ok(()) => {},
            Err(e) => {
                proof {
                    if happy {
                        assert(inc0[0] == all[0]);
                        let ps = seq![0int];
                        assert(ps[0] == 0);
                    }
                }
                return Err(FlashError::Bootloader(e));
            },
        }
    }
    assert(bl.writer().outgoing() =~= out0 + pre);
    assert(bl.reader().incoming() =~= inc0.skip(pre_in.len() as int));
    let len = firmware.len();
    let pages = (len + 2047) / 2048;
    let pages = if pages == 0 {
        1
    } else {
        pages
    };
    let ghost np = f072_pages(fw.len());
    assert(pages == np);
    let ghost inc1 = bl.reader().incoming();
    let ghost out1 = bl.writer().outgoing();
    proof {
        if happy {
            let a0 = pre_in.len() as int;
            let e0 = (2 * np) as int;
            assert(inc1.take(e0) =~= all.subrange(a0, a0 + e0));
            assert(all.subrange(a0, a0 + e0) =~= acks(2 * np));
        }
    }
    match erase_pages(bl, pages, progress) {
        Ok(()) => {},
        Err(e) => {
            return Err(FlashError::Bootloader(e));
        },
    }
    let ghost inc2 = bl.reader().incoming();
    let ghost out2 = bl.writer().outgoing();
    proof {
        if happy {
            let a1 = (pre_in.len() + 2 * np) as int;
            let w0 = (3 * c) as int;
            assert(inc2 =~= inc0.skip(a1));
            assert(inc2.take(w0) =~= all.subrange(a1, a1 + w0));
            assert(all.subrange(a1, a1 + w0) =~= acks(3 * c));
        }
    }
    match write_chunks(bl, firmware, F072_FLASH_BASE, progress) {
        Ok(()) => {},
        Err(e) => {
            return Err(FlashError::Bootloader(e));
        },
    }
    let ghost inc3 = bl.reader().incoming();
    let ghost ra = readback_answers(fw, c);
    proof {
        if old(bl).ports_healthy() {
            assert(is_suffix(inc1, inc0));
            lemma_suffix_trans(inc2, inc1, inc0);
            assert(is_suffix(inc3, inc2));
            lemma_suffix_trans(inc3, inc2, inc0);
        }
        if happy {
            let s0 = (pre_in.len() + 2 * np + 3 * c) as int;
            let rl = ra.len() as int;
            assert(inc3 =~= inc0.skip(s0));
            assert(inc3.take(rl) =~= all.subrange(s0, s0 + rl));
            assert(all.subrange(s0, s0 + rl) =~= ra);
        }
    }
    let v = verify_chunks(bl, firmware, F072_FLASH_BASE, progress);
    match v {
        Ok(()) => {},
        Err(e) => {
            proof {
                if let FlashError::VerifyFailed { address, expected, actual } = &e {
                    let i = choose|i: nat| #![trigger readback_answers(fw, i)] {
                        let before = readback_answers(fw, i).len() as int;
                        &&& i < c
                        &&& address == chunk_address(F072_FLASH_BASE, i)
                        &&& expected@ == chunk_of(fw, i)
                        &&& actual@ != expected@
                        &&& inc3.len() >= before + 3 + expected@.len()
                        &&& inc3.take(before) == readback_answers(fw, i)
                        &&& inc3.subrange(before, before + 3) == acks(3)
                        &&& actual@ == inc3.subrange(before + 3, before + 3 + expected@.len())
                    };
                    assert(chunk_of(fw, i) == expected@);
                }
            }
            return Err(e);
        },
    }
    let ghost inc4 = bl.reader().incoming();
    proof {
        if old(bl).ports_healthy() {
            let k = inc0.len() - inc3.len();
            assert(inc0.skip(k) == inc3);
            assert(inc0.skip(k).take(ra.len() as int) == ra);
        }
        if happy {
            let s1 = (pre_in.len() + 2 * np + 3 * c + ra.len()) as int;
            assert(inc4 =~= inc0.skip(s1));
            assert(inc4[0] == all[s1]);
            assert(inc4[1] == all[s1 + 1]);
            let ps = seq![0int, 1int];
            assert(ps[0] == 0 && ps[1] == 1);
        }
    }
    match bl.go(F072_FLASH_BASE) {
        Ok(()) => {},
        Err(e) => {
            return Err(FlashError::Bootloader(e));
        },
    }
    proof {
        if old(bl).ports_healthy() {
            let pieces = choose|pieces: Seq<Seq<u8>>| #![trigger concat_all(pieces)]
                pieces.len() == np && (forall|p: int| 0 <= p < np ==> page_erased_by(p as nat, #[trigger] pieces[p]))
                    && out2 == out1 + concat_all(pieces);
            assert(bl.writer().outgoing() =~= out0 + pre + concat_all(pieces) + f072_tail_frames(fw));
        }
        if happy {
            assert(bl.writer().outgoing() =~= out0 + pre + extended_erase_frames(np) + f072_tail_frames(fw));
            assert(bl.reader().incoming() =~= inc0.skip(all.len() as int));
        }
    }
    Ok(())
}


/// Whether it is known what a port's input is once a drain (skipped with
/// `skip_init`) has dropped what was already received.
pub open spec fn drain_known<P: CtlPort>(p: P, skip_init: bool) -> bool {
    skip_init || p.pending() <= p.incoming().len()
}

/// A port's input once a drain (skipped with `skip_init`) has dropped what was
/// already received.
pub open spec fn input_after_drain<P: CtlPort>(p: P, skip_init: bool) -> Seq<u8> {
    if skip_init {
        p.incoming()
    } else {
        p.incoming().skip(p.pending() as int)
    }
}

/// Baud rate of the link to the STM32 bootloader.
pub const STM32_BOOTLOADER_BAUD: u32 = 115_200;

/// Baud rate of the host link in normal operation.
pub const HIGH_SPEED_BAUD: u32 = 1_000_000;

impl<P: SplitPort + SetBaudRate> CtlCore<P> {
    /// Flash firmware to the MGMT chip, which must already be in its bootloader: switch
    /// the link to the bootloader's baud rate, drain stale input (unless `skip_init`,
    /// when the bootloader was already initialized), run `flash_f072` over the port,
    /// and switch the link back to its normal baud rate, whatever the outcome. Resetting
    /// the chip afterwards is the caller's.
    pub fn flash_mgmt(
        &mut self,
        firmware: &[u8],
        skip_init: bool,
        progress: &mut Vec<(FlashPhase, usize, usize)>,
    ) -> (r: Result<(), FlashError<<P as CtlPort>::Error>>)
        requires
            old(self).port() is Some,
            F072_FLASH_BASE + firmware@.len() <= u32::MAX,
        ensures
            final(self).port() is Some,
            skip_init ==> final(self).ui_pending() == old(self).ui_pending() && final(self).net_pending() == old(
                self,
            ).net_pending(),
            !skip_init ==> final(self).ui_pending() == Seq::<u8>::empty() && final(self).net_pending() == Seq::<
                u8,
            >::empty(),
            ({
                let p0 = old(self).port()->0;
                let p1 = final(self).port()->0;
                let fw = firmware@;
                let np = f072_pages(fw.len());
                let c = chunk_count(fw.len());
                &&& r is Ok ==> final(progress)@ == old(progress)@ + erase_log(np) + chunk_log(FlashPhase::Writing, fw.len(), c)
                    + chunk_log(FlashPhase::Verifying, fw.len(), c)
                &&& r is Ok && p0.healthy() ==> exists|k: int|
                    0 <= k <= p0.incoming().len() && #[trigger] p0.incoming().skip(k).take(
                        readback_answers(fw, c).len() as int,
                    ) == readback_answers(fw, c)
                &&& r is Ok && p0.healthy() ==> exists|pieces: Seq<Seq<u8>>|
                    #![trigger concat_all(pieces)]
                    pieces.len() == np && (forall|p: int| 0 <= p < np ==> page_erased_by(p as nat, #[trigger] pieces[p]))
                        && p1.outgoing() == p0.outgoing() + init_frame(skip_init) + concat_all(pieces) + f072_tail_frames(fw)
                &&& r matches Err(FlashError::VerifyFailed { address, expected, actual }) ==> exists|i: nat|
                    #![trigger chunk_of(fw, i)]
                    i < c && address == chunk_address(F072_FLASH_BASE, i) && expected@ == chunk_of(fw, i) && actual@
                        != expected@ && actual@.len() == expected@.len()
                &&& p0.healthy() ==> p1.healthy()
                &&& p0.healthy() && drain_known(p0, skip_init) && input_after_drain(p0, skip_init).len() >= f072_answers(
                    fw,
                    skip_init,
                ).len() && input_after_drain(p0, skip_init).take(f072_answers(fw, skip_init).len() as int)
                    == f072_answers(fw, skip_init) ==> r is Ok && p1.outgoing() == p0.outgoing() + init_frame(skip_init)
                    + extended_erase_frames(np) + f072_tail_frames(fw) && p1.incoming() == input_after_drain(
                    p0,
                    skip_init,
                ).skip(f072_answers(fw, skip_init).len() as int)
            }),
    {
        let _ = self.port_mut().set_baud_rate(STM32_BOOTLOADER_BAUD);
        if !skip_init {
            self.drain();
        }
        let ghost inc0 = old(self).port()->0.incoming();
        let port = self.take_port();
        let ghost inc1 = port.incoming();
        proof {
            if skip_init {
                assert(inc1 =~= inc0.skip(0));
            }
            if drain_known(old(self).port()->0, skip_init) {
                assert(inc1 == input_after_drain(old(self).port()->0, skip_init));
            }
        }
        let (reader, writer) = port.split();
        let mut bl = Bootloader::new(reader, writer);
        let r = flash_f072(&mut bl, firmware, skip_init, progress);
        proof {
            let ra = readback_answers(firmware@, chunk_count(firmware@.len()));
            if r is Ok && old(self).port()->0.healthy() {
                let k1 = choose|k1: int| 0 <= k1 <= inc0.len() && inc1 == inc0.skip(k1);
                let k2 = choose|k2: int| 0 <= k2 <= inc1.len() && #[trigger] inc1.skip(k2).take(ra.len() as int) == ra;
                assert(inc0.skip(k1 + k2) =~= inc1.skip(k2));
                assert(inc0.skip(k1 + k2).take(ra.len() as int) == ra);
            }
        }
        let (reader, writer) = bl.into_inner();
        self.put_port(P::join(reader, writer));
        let _ = self.port_mut().set_baud_rate(HIGH_SPEED_BAUD);
        r
    }
}


/// Erase sectors `0..n` with Extended Erase, reporting progress before each sector
/// and once done.
fn erase_sectors<R: CtlPort, W: CtlPort<Error = R::Error>>(
    bl: &mut Bootloader<R, W>,
    n: usize,
    progress: &mut Vec<(FlashPhase, usize, usize)>,
) -> (r: Result<(), Error<R::Error>>)
    ensures
        r is Ok ==> final(progress)@ == old(progress)@ + erase_log(n as nat),
        r is Ok ==> old(bl).reader().incoming().len() >= 2 * n && old(bl).reader().incoming().take(2 * n) == acks(
            2 * n as nat,
        ) && final(bl).reader().incoming() == old(bl).reader().incoming().skip(2 * n)
            && final(bl).writer().outgoing() == old(bl).writer().outgoing() + extended_erase_frames(n as nat),
        old(bl).ports_healthy() ==> final(bl).ports_healthy(),
        old(bl).ports_healthy() && old(bl).reader().incoming().len() >= 2 * n && old(bl).reader().incoming().take(
            2 * n,
        ) == acks(2 * n as nat) ==> r is Ok,
{
    let ghost inc0 = bl.reader().incoming();
    let ghost out0 = bl.writer().outgoing();
    let mut sector: usize = 0;
    while sector < n
        invariant
            sector <= n,
            progress@ == old(progress)@ + erase_log(n as nat).take(sector as int),
            old(bl).ports_healthy() ==> bl.ports_healthy(),
            inc0.len() >= 2 * sector,
            inc0.take(2 * sector) == acks(2 * sector as nat),
            bl.reader().incoming() == inc0.skip(2 * sector),
            bl.writer().outgoing() == out0 + extended_erase_frames(sector as nat),
            inc0 == old(bl).reader().incoming(),
            out0 == old(bl).writer().outgoing(),
        decreases n - sector,
    {
        progress.push((FlashPhase::Erasing, sector, n));
        assert(progress@ =~= old(progress)@ + erase_log(n as nat).take(sector + 1));
        let ghost inc_s = bl.reader().incoming();
        proof {
            if old(bl).ports_healthy() && inc0.len() >= 2 * n && inc0.take(2 * n) == acks(2 * n as nat) {
                assert(inc_s[0] == inc0.take(2 * n)[2 * sector]);
                assert(inc_s[1] == inc0.take(2 * n)[2 * sector + 1]);
                let ps = seq![0int, 1int];
                assert(ps[0] == 0 && ps[1] == 1);
            }
        }
        let one: [u16; 1] = [sector as u16];
        assert(one@ =~= seq![sector as u16]);
        bl.extended_erase(Some(&one), None)?;
        proof {
            let ps = seq![0int, 1int];
            assert(ps[0] == 0 && ps[1] == 1);
            assert(inc_s[ps[0]] == ACK && inc_s[ps[1]] == ACK);
            assert(inc0.take(2 * (sector + 1)) =~= inc0.take(2 * sector) + inc_s.take(2));
            assert(inc0.take(2 * (sector + 1)) =~= acks(2 * (sector + 1) as nat));
            assert(bl.reader().incoming() =~= inc0.skip(2 * (sector + 1)));
        }
        sector = sector + 1;
    }
    progress.push((FlashPhase::Erasing, n, n));
    assert(progress@ =~= old(progress)@ + erase_log(n as nat));
    Ok(())
}

/// The answers of a working UI bootloader to a flashing of `fw` in which every
/// command is acknowledged: the ACK of the initialization, two ACKs per sector
/// erased, three per chunk written, and, when verifying, three and the chunk per
/// chunk read back.
pub open spec fn f405_answers(fw: Seq<u8>, verify: bool) -> Seq<u8> {
    let c = chunk_count(fw.len());
    acks(1) + acks(2 * f405_sectors(fw.len())) + acks(3 * c) + (if verify {
        readback_answers(fw, c)
    } else {
        Seq::empty()
    })
}

/// What a flashing of `fw` to the UI chip sends: the initialization byte, one
/// Extended Erase per sector, one Write Memory per chunk, and, when verifying, one
/// Read Memory per chunk.
pub open spec fn f405_frames(fw: Seq<u8>, verify: bool) -> Seq<u8> {
    let c = chunk_count(fw.len());
    seq![INIT] + extended_erase_frames(f405_sectors(fw.len())) + write_frames(fw, F072_FLASH_BASE, c) + (if verify {
        read_frames(fw, F072_FLASH_BASE, c)
    } else {
        Seq::empty()
    })
}

/// Flash firmware to the UI chip (STM32F405), already in its bootloader: initialize,
/// erase the sectors that the firmware covers, write it in 256-byte chunks from the
/// start of flash, and, when `verify`, read every chunk back and compare.
/// `progress` receives (phase, done, total) reports.
#[verifier::rlimit(100)]
#[verifier::spinoff_prover]
pub fn flash_f405<R: CtlPort, W: CtlPort<Error = R::Error>>(
    bl: &mut Bootloader<R, W>,
    firmware: &[u8],
    verify: bool,
    progress: &mut Vec<(FlashPhase, usize, usize)>,
) -> (r: Result<(), FlashError<R::Error>>)
    requires
        F072_FLASH_BASE + firmware@.len() <= u32::MAX,
    ensures
        ({
            let fw = firmware@;
            let ns = f405_sectors(fw.len());
            let c = chunk_count(fw.len());
            let inc = old(bl).reader().incoming();
            let all = f405_answers(fw, verify);
            &&& r is Ok ==> final(progress)@ == old(progress)@ + erase_log(ns) + chunk_log(FlashPhase::Writing, fw.len(), c)
                + (if verify {
                chunk_log(FlashPhase::Verifying, fw.len(), c)
            } else {
                Seq::empty()
            })
            &&& r is Ok ==> inc.len() >= all.len() && inc.take(all.len() as int) == all && final(bl).reader().incoming()
                == inc.skip(all.len() as int) && final(bl).writer().outgoing() == old(bl).writer().outgoing()
                + f405_frames(fw, verify)
            &&& r matches Err(FlashError::VerifyFailed { address, expected, actual }) ==> verify && exists|i: nat|
                #![trigger chunk_of(fw, i)]
                i < c && address == chunk_address(F072_FLASH_BASE, i) && expected@ == chunk_of(fw, i) && actual@
                    != expected@ && actual@.len() == expected@.len()
            &&& old(bl).ports_healthy() ==> final(bl).ports_healthy()
            &&& old(bl).ports_healthy() && inc.len() >= all.len() && inc.take(all.len() as int) == all ==> r is Ok
        }),
{
    let ghost fw = firmware@;
    let ghost inc0 = bl.reader().incoming();
    let ghost out0 = bl.writer().outgoing();
    let ghost c = chunk_count(fw.len());
    let ghost all = f405_answers(fw, verify);
    let ghost happy = bl.ports_healthy() && inc0.len() >= all.len() && inc0.take(all.len() as int) == all;
    proof {
        if happy {
            assert(inc0[0] == all[0]);
            let ps = seq![0int];
            assert(ps[0] == 0);
        }
    }
    match bl.init() {
        Ok(()) => {},
        Err(e) => {
            return Err(FlashError::Bootloader(e));
        },
    }
    let sectors = sectors_for_size_f405(firmware.len());
    let ghost ns = f405_sectors(fw.len());
    let ghost inc1 = bl.reader().incoming();
    proof {
        assert(inc0.take(1) =~= acks(1)) by {
            let ps = seq![0int];
            assert(ps[0] == 0);
        }
        if happy {
            let e0 = (2 * ns) as int;
            assert(inc1.take(e0) =~= all.subrange(1, 1 + e0));
            assert(all.subrange(1, 1 + e0) =~= acks(2 * ns));
        }
    }
    match erase_sectors(bl, sectors, progress) {
        Ok(()) => {},
        Err(e) => {
            return Err(FlashError::Bootloader(e));
        },
    }
    let ghost inc2 = bl.reader().incoming();
    proof {
        let a1 = (1 + 2 * ns) as int;
        let w0 = (3 * c) as int;
        assert(inc2 =~= inc0.skip(a1));
        if happy {
            assert(inc2.take(w0) =~= all.subrange(a1, a1 + w0));
            assert(all.subrange(a1, a1 + w0) =~= acks(3 * c));
        }
    }
    match write_chunks(bl, firmware, F072_FLASH_BASE, progress) {
        Ok(()) => {},
        Err(e) => {
            return Err(FlashError::Bootloader(e));
        },
    }
    let ghost inc3 = bl.reader().incoming();
    let ghost ra = readback_answers(fw, c);
    proof {
        let s0 = (1 + 2 * ns + 3 * c) as int;
        assert(inc3 =~= inc0.skip(s0));
        assert(inc0.take(s0) =~= acks(1) + acks(2 * ns) + acks(3 * c)) by {
            assert(inc0.take(s0) =~= inc0.take(1) + inc1.take((2 * ns) as int) + inc2.take((3 * c) as int));
        }
        if happy && verify {
            let rl = ra.len() as int;
            assert(inc3.take(rl) =~= all.subrange(s0, s0 + rl));
            assert(all.subrange(s0, s0 + rl) =~= ra);
        }
        if !verify {
            assert(all =~= acks(1) + acks(2 * ns) + acks(3 * c));
        }
    }
    if verify {
        let v = verify_chunks(bl, firmware, F072_FLASH_BASE, progress);
        match v {
            Ok(()) => {},
            Err(e) => {
                proof {
                    if let FlashError::VerifyFailed { address, expected, actual } = &e {
                        let i = choose|i: nat| #![trigger readback_answers(fw, i)] {
                            let before = readback_answers(fw, i).len() as int;
                            &&& i < c
                            &&& address == chunk_address(F072_FLASH_BASE, i)
                            &&& expected@ == chunk_of(fw, i)
                            &&& actual@ != expected@
                            &&& inc3.len() >= before + 3 + expected@.len()
                            &&& inc3.take(before) == readback_answers(fw, i)
                            &&& inc3.subrange(before, before + 3) == acks(3)
                            &&& actual@ == inc3.subrange(before + 3, before + 3 + expected@.len())
                        };
                        assert(chunk_of(fw, i) == expected@);
                    }
                }
                return Err(e);
            },
        }
        proof {
            let s0 = (1 + 2 * ns + 3 * c) as int;
            assert(inc0.take(s0 + ra.len()) =~= inc0.take(s0) + inc3.take(ra.len() as int));
            assert(bl.reader().incoming() =~= inc0.skip(s0 + ra.len()));
        }
    }
    assert(bl.writer().outgoing() =~= out0 + f405_frames(fw, verify));
    Ok(())
}


/// The answers that the MGMT bootloader's initialization consumes: one byte unless
/// skipped.
pub open spec fn after_init(inc: Seq<u8>, skip_init: bool) -> Seq<u8> {
    if skip_init {
        inc
    } else {
        inc.skip(1)
    }
}

/// Query the MGMT bootloader: initialize (unless `skip_init`), Get, Get ID, read the
/// first 32 bytes of flash (none when the read is refused, as under read
/// protection), then jump back to the firmware.
pub fn read_mgmt_bootloader_info<R: CtlPort, W: CtlPort<Error = R::Error>>(
    bl: &mut Bootloader<R, W>,
    skip_init: bool,
) -> (r: Result<MgmtBootloaderInfo, Error<R::Error>>)
    ensures
        ({
            let inc = old(bl).reader().incoming();
            let inc1 = after_init(inc, skip_init);
            let n = inc1[1] as int;
            let count = if n < 16 { n } else { 16 };
            let inc2 = inc1.skip(n + 4);
            let inc3 = inc2.skip(5);
            &&& r matches Ok(info) ==> {
                &&& (!skip_init ==> inc.len() >= 1 && inc[0] == ACK)
                &&& inc1.len() >= n + 4
                &&& info.bootloader_version == inc1[2]
                &&& info.command_count == count
                &&& info.commands@ == inc1.subrange(3, 3 + count) + Seq::new((16 - count) as nat, |i: int| 0u8)
                &&& inc2.len() >= 5
                &&& info.chip_id == (((inc2[2] as u16) << 8u16) | (inc2[3] as u16))
                &&& info.flash_sample matches Some(f) ==> inc3.len() >= 35 && f@ == inc3.subrange(3, 35)
                    && final(bl).writer().outgoing() == old(bl).writer().outgoing() + init_frame(skip_init)
                    + command_frame(Command::Get) + command_frame(Command::GetId) + command_frame(Command::ReadMemory)
                    + address_frame(F072_FLASH_BASE) + seq![31u8, !31u8] + command_frame(Command::Go) + address_frame(
                    F072_FLASH_BASE,
                )
            }
            &&& old(bl).ports_healthy() ==> final(bl).ports_healthy()
            &&& old(bl).ports_healthy() && (!skip_init ==> inc.len() >= 1 && inc[0] == ACK) && inc1.len() >= 2
                && inc1.len() >= n + 4 && inc1[0] == ACK && inc1[n + 3] == ACK && inc2.len() >= 5 && inc2[0] == ACK
                && inc2[4] == ACK && inc3.len() >= 37 && inc3.take(3) == acks(3) && inc3[35] == ACK && inc3[36]
                == ACK ==> (r matches Ok(info) && info.flash_sample is Some)
        }),
{
    let ghost inc = bl.reader().incoming();
    let ghost out0 = bl.writer().outgoing();
    if !skip_init {
        bl.init()?;
        proof {
            let ps = seq![0int];
            assert(ps[0] == 0);
        }
    }
    let ghost inc1 = bl.reader().incoming();
    assert(inc1 == after_init(inc, skip_init));
    let info = bl.get()?;
    let chip_id = bl.get_id()?;
    let ghost inc3 = bl.reader().incoming();
    proof {
        if bl.ports_healthy() && inc3.len() >= 37 && inc3.take(3) == acks(3) {
            let ps = seq![0int, 1int, 2int];
            assert(ps[0] == 0 && ps[1] == 1 && ps[2] == 2);
            assert(inc3[0] == inc3.take(3)[0] && inc3[1] == inc3.take(3)[1] && inc3[2] == inc3.take(3)[2]);
            assert(all_acked(inc3, ps));
        }
    }
    let mut sample: [u8; 32] = [0u8; 32];
    let flash_result = bl.read_memory(F072_FLASH_BASE, &mut sample);
    let flash_sample = match flash_result {
        Ok(_) => Some(sample),
        Err(_) => None,
    };
    proof {
        if bl.ports_healthy() && flash_result is Ok && inc3.len() >= 37 && inc3[35] == ACK && inc3[36] == ACK {
            let inc4 = bl.reader().incoming();
            assert(inc4 == inc3.skip(35));
            assert(inc4[0] == inc3[35] && inc4[1] == inc3[36]);
            let ps = seq![0int, 1int];
            assert(ps[0] == 0 && ps[1] == 1);
            assert(all_acked(inc4, ps));
        }
    }
    bl.go(F072_FLASH_BASE)?;
    proof {
        if flash_sample is Some {
            assert(sample@ =~= inc3.subrange(3, 35));
            assert(bl.writer().outgoing() =~= out0 + init_frame(skip_init) + command_frame(Command::Get)
                + command_frame(Command::GetId) + command_frame(Command::ReadMemory) + address_frame(F072_FLASH_BASE)
                + seq![31u8, !31u8] + command_frame(Command::Go) + address_frame(F072_FLASH_BASE));
        }
    }
    Ok(
        MgmtBootloaderInfo {
            bootloader_version: info.version,
            chip_id,
            commands: info.commands,
            command_count: info.command_count,
            flash_sample,
        },
    )
}

impl<P: SplitPort> CtlCore<P> {
    /// Get the MGMT bootloader's information over the controller's port (the chip must
    /// already be in its bootloader): drain stale input unless `skip_init`, then
    /// `read_mgmt_bootloader_info`.
    pub fn get_mgmt_bootloader_info(&mut self, skip_init: bool) -> (r: Result<
        MgmtBootloaderInfo,
        Error<P::Error>,
    >)
        requires
            old(self).port() is Some,
        ensures
            final(self).port() is Some,
            old(self).port()->0.healthy() ==> final(self).port()->0.healthy(),
            drain_known(old(self).port()->0, skip_init) ==> (r matches Ok(info) ==> {
                let inc = input_after_drain(old(self).port()->0, skip_init);
                let inc1 = after_init(inc, skip_init);
                let n = inc1[1] as int;
                let count = if n < 16 { n } else { 16 };
                let inc2 = inc1.skip(n + 4);
                &&& (!skip_init ==> inc.len() >= 1 && inc[0] == ACK)
                &&& inc1.len() >= n + 4
                &&& info.bootloader_version == inc1[2]
                &&& info.command_count == count
                &&& info.commands@ == inc1.subrange(3, 3 + count) + Seq::new((16 - count) as nat, |i: int| 0u8)
                &&& inc2.len() >= 5
                &&& info.chip_id == (((inc2[2] as u16) << 8u16) | (inc2[3] as u16))
                &&& info.flash_sample matches Some(f) ==> inc2.skip(5).len() >= 35 && f@ == inc2.skip(5).subrange(3, 35)
            }),
            drain_known(old(self).port()->0, skip_init) && old(self).port()->0.healthy() ==> ({
                let inc = input_after_drain(old(self).port()->0, skip_init);
                let inc1 = after_init(inc, skip_init);
                let n = inc1[1] as int;
                let inc2 = inc1.skip(n + 4);
                let inc3 = inc2.skip(5);
                (!skip_init ==> inc.len() >= 1 && inc[0] == ACK) && inc1.len() >= 2 && inc1.len() >= n + 4 && inc1[0]
                    == ACK && inc1[n + 3] == ACK && inc2.len() >= 5 && inc2[0] == ACK && inc2[4] == ACK && inc3.len()
                    >= 37 && inc3.take(3) == acks(3) && inc3[35] == ACK && inc3[36] == ACK
            }) ==> (r matches Ok(info) && info.flash_sample is Some),
            r matches Ok(info) && info.flash_sample is Some ==> final(self).port()->0.outgoing() == old(
                self,
            ).port()->0.outgoing() + init_frame(skip_init) + command_frame(Command::Get) + command_frame(Command::GetId)
                + command_frame(Command::ReadMemory) + address_frame(F072_FLASH_BASE) + seq![31u8, !31u8]
                + command_frame(Command::Go) + address_frame(F072_FLASH_BASE),
    {
        if !skip_init {
            self.drain();
        }
        let port = self.take_port();
        proof {
            if drain_known(old(self).port()->0, skip_init) {
                assert(port.incoming() == input_after_drain(old(self).port()->0, skip_init));
            }
        }
        let (reader, writer) = port.split();
        let mut bl = Bootloader::new(reader, writer);
        let r = read_mgmt_bootloader_info(&mut bl, skip_init);
        let (reader, writer) = bl.into_inner();
        self.put_port(P::join(reader, writer));
        r
    }
}


/// Address of the MGMT chip's DATA0 option byte (and its complement) among its
/// option bytes.
pub const F072_DATA0_BLOCK_ADDR: u32 = 0x1FFF_F804;

/// Read the MGMT chip's DATA0 option byte through its bootloader: initialize
/// (unless `skip_init`), then read the four bytes of its block; the byte is the
/// first.
pub fn read_data0_option_byte<R: CtlPort, W: CtlPort<Error = R::Error>>(
    bl: &mut Bootloader<R, W>,
    skip_init: bool,
) -> (r: Result<u8, Error<R::Error>>)
    ensures
        ({
            let inc = old(bl).reader().incoming();
            let inc1 = after_init(inc, skip_init);
            &&& r matches Ok(b) ==> {
                &&& (!skip_init ==> inc.len() >= 1 && inc[0] == ACK)
                &&& inc1.len() >= 7
                &&& inc1.take(3) == acks(3)
                &&& b == inc1[3]
                &&& final(bl).reader().incoming() == inc1.skip(7)
                &&& final(bl).writer().outgoing() == old(bl).writer().outgoing() + init_frame(skip_init)
                    + command_frame(Command::ReadMemory) + address_frame(F072_DATA0_BLOCK_ADDR) + seq![3u8, !3u8]
            }
            &&& old(bl).ports_healthy() ==> final(bl).ports_healthy()
            &&& old(bl).ports_healthy() && (!skip_init ==> inc.len() >= 1 && inc[0] == ACK) && inc1.len() >= 7
                && inc1.take(3) == acks(3) ==> r is Ok
        }),
{
    let ghost inc = bl.reader().incoming();
    let ghost out0 = bl.writer().outgoing();
    proof {
        let ps = seq![0int];
        assert(ps[0] == 0);
    }
    if !skip_init {
        bl.init()?;
    }
    let ghost inc1 = bl.reader().incoming();
    assert(inc1 == after_init(inc, skip_init));
    proof {
        let ps = seq![0int, 1int, 2int];
        assert(ps[0] == 0 && ps[1] == 1 && ps[2] == 2);
        if inc1.len() >= 7 && inc1.take(3) == acks(3) {
            assert(inc1[0] == inc1.take(3)[0] && inc1[1] == inc1.take(3)[1] && inc1[2] == inc1.take(3)[2]);
            assert(all_acked(inc1, ps));
        }
    }
    let mut data: [u8; 4] = [0u8; 4];
    bl.read_memory(F072_DATA0_BLOCK_ADDR, &mut data)?;
    proof {
        let ps = seq![0int, 1int, 2int];
        assert(ps[0] == 0 && ps[1] == 1 && ps[2] == 2);
        assert(inc1[ps[0]] == ACK && inc1[ps[1]] == ACK && inc1[ps[2]] == ACK);
        assert(inc1.take(3) =~= acks(3));
        assert(data@[0] == inc1.subrange(3, 7)[0]);
        assert(bl.writer().outgoing() =~= out0 + init_frame(skip_init) + command_frame(Command::ReadMemory)
            + address_frame(F072_DATA0_BLOCK_ADDR) + seq![3u8, !3u8]);
    }
    Ok(data[0])
}

impl<P: SplitPort> CtlCore<P> {
    /// Read the MGMT chip's DATA0 option byte over the controller's port (the chip must
    /// already be in its bootloader): drain stale input unless `skip_init`, then
    /// `read_data0_option_byte`.
    pub fn get_mgmt_data0_option_byte(&mut self, skip_init: bool) -> (r: Result<
        u8,
        Error<P::Error>,
    >)
        requires
            old(self).port() is Some,
        ensures
            final(self).port() is Some,
            old(self).port()->0.healthy() ==> final(self).port()->0.healthy(),
            r is Ok ==> final(self).port()->0.outgoing() == old(self).port()->0.outgoing() + init_frame(skip_init)
                + command_frame(Command::ReadMemory) + address_frame(F072_DATA0_BLOCK_ADDR) + seq![3u8, !3u8],
            drain_known(old(self).port()->0, skip_init) ==> (r matches Ok(b) ==> {
                let inc = input_after_drain(old(self).port()->0, skip_init);
                let inc1 = after_init(inc, skip_init);
                &&& (!skip_init ==> inc.len() >= 1 && inc[0] == ACK)
                &&& inc1.len() >= 7
                &&& inc1.take(3) == acks(3)
                &&& b == inc1[3]
            }),
            drain_known(old(self).port()->0, skip_init) && old(self).port()->0.healthy() ==> ({
                let inc = input_after_drain(old(self).port()->0, skip_init);
                let inc1 = after_init(inc, skip_init);
                (!skip_init ==> inc.len() >= 1 && inc[0] == ACK) && inc1.len() >= 7 && inc1.take(3) == acks(3)
            }) ==> r is Ok,
    {
        if !skip_init {
            self.drain();
        }
        let port = self.take_port();
        proof {
            if drain_known(old(self).port()->0, skip_init) {
                assert(port.incoming() == input_after_drain(old(self).port()->0, skip_init));
            }
        }
        let (reader, writer) = port.split();
        let mut bl = Bootloader::new(reader, writer);
        let r = read_data0_option_byte(&mut bl, skip_init);
        let (reader, writer) = bl.into_inner();
        self.put_port(P::join(reader, writer));
        r
    }
}


impl<P: CtlPort> CtlCore<P> {
    /// Probe whether the MGMT bootloader is active: drop stale input, send the
    /// initialization byte and read one answer; true when it is an ACK. (This uses up
    /// the initialization: what follows passes `skip_init`.)
    pub fn probe_mgmt_bootloader(&mut self) -> (r: bool)
        requires
            old(self).port() is Some,
        ensures
            final(self).port() is Some,
            final(self).ui_pending() == old(self).ui_pending(),
            final(self).net_pending() == old(self).net_pending(),
            ({
                let p0 = old(self).port()->0;
                let p1 = final(self).port()->0;
                &&& r ==> p1.outgoing() == p0.outgoing() + seq![INIT] && p1.flushed() && exists|k: int|
                    0 <= k < p0.incoming().len() && #[trigger] p0.incoming()[k] == ACK && p1.incoming() == p0.incoming().skip(
                        k + 1,
                    )
                &&& p0.healthy() ==> p1.healthy() && p1.outgoing() == p0.outgoing() + seq![INIT] && p1.flushed()
                &&& p0.healthy() && drain_known(p0, false) ==> {
                    let d = input_after_drain(p0, false);
                    &&& r == (d.len() >= 1 && d[0] == ACK)
                    &&& d.len() >= 1 ==> p1.incoming() == d.skip(1)
                }
            }),
    {
        let ghost inc0 = self.port()->0.incoming();
        self.port_mut().clear_buffer();
        let ghost inc1 = self.port()->0.incoming();
        let init: [u8; 1] = [INIT];
        assert(init@ =~= seq![INIT]);
        if self.port_mut().write_all(&init).is_err() {
            return false;
        }
        if self.port_mut().flush().is_err() {
            return false;
        }
        let mut response: [u8; 1] = [0u8];
        match self.port_mut().read_exact(&mut response) {
            Ok(()) => {
                proof {
                    let k = inc0.len() - inc1.len();
                    assert(inc1 == inc0.skip(k));
                    assert(response@[0] == inc1[0]);
                    assert(inc0[k] == inc1[0]);
                    assert(self.port()->0.incoming() =~= inc0.skip(k + 1));
                }
                response[0] == ACK
            },
            Err(_) => false,
        }
    }
}

} // verus!
