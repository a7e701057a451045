//! Flash parameters of ESP32 targets and the security information that the
//! ROM loader reports.
use vstd::prelude::*;

use crate::esp::{from_le32, le32};
use vstd::string::StringSliceAdditionalSpecFns;

verus! {

/// Errors of decoding flash parameters or device responses.
#[derive(Debug, Clone, Copy, PartialEq, Eq)]
pub enum FlasherError {
    /// A flash size or detected flash ID that is not supported.
    UnsupportedFlash(u8),
    /// A response shorter than expected.
    ResponseTooShort { expected: usize, received: usize },
}

/// Supported flash frequencies. Not all frequencies are supported by each target device.
#[derive(Debug, Clone, Copy, PartialEq, Eq, Structural, Hash)]
pub enum FlashFrequency {
    /// 12 MHz
    _12Mhz,
    /// 15 MHz
    _15Mhz,
    /// 16 MHz
    _16Mhz,
    /// 20 MHz
    _20Mhz,
    /// 24 MHz
    _24Mhz,
    /// 26 MHz
    _26Mhz,
    /// 30 MHz
    _30Mhz,
    /// 40 MHz
    _40Mhz,
    /// 48 MHz
    _48Mhz,
    /// 60 MHz
    _60Mhz,
    /// 80 MHz
    _80Mhz,
}

impl Default for FlashFrequency {
    fn default() -> (r: Self)
        ensures
            r == FlashFrequency::_40Mhz,
    {
        FlashFrequency::_40Mhz
    }
}

/// Supported flash modes.
#[derive(Debug, Clone, Copy, PartialEq, Eq, Structural, Hash)]
pub enum FlashMode {
    /// Quad I/O (4 pins used for address & data)
    Qio,
    /// Quad Output (4 pins used for data)
    Qout,
    /// Dual I/O (2 pins used for address & data)
    Dio,
    /// Dual Output (2 pins used for data)
    Dout,
}

impl Default for FlashMode {
    fn default() -> (r: Self)
        ensures
            r == FlashMode::Dio,
    {
        FlashMode::Dio
    }
}

/// Supported flash sizes. Not all sizes are supported by each target device.
#[derive(Debug, Clone, Copy, PartialEq, Eq, Structural, Hash)]
pub enum FlashSize {
    /// 256 KB
    _256Kb,
    /// 512 KB
    _512Kb,
    /// 1 MB
    _1Mb,
    /// 2 MB
    _2Mb,
    /// 4 MB
    _4Mb,
    /// 8 MB
    _8Mb,
    /// 16 MB
    _16Mb,
    /// 32 MB
    _32Mb,
    /// 64 MB
    _64Mb,
    /// 128 MB
    _128Mb,
    /// 256 MB
    _256Mb,
}

impl Default for FlashSize {
    fn default() -> (r: Self)
        ensures
            r == FlashSize::_4Mb,
    {
        FlashSize::_4Mb
    }
}

impl FlashSize {
    /// The position of the size in the list of sizes, from 256 KB up.
    pub open spec fn index(self) -> u8 {
        match self {
            FlashSize::_256Kb => 0,
            FlashSize::_512Kb => 1,
            FlashSize::_1Mb => 2,
            FlashSize::_2Mb => 3,
            FlashSize::_4Mb => 4,
            FlashSize::_8Mb => 5,
            FlashSize::_16Mb => 6,
            FlashSize::_32Mb => 7,
            FlashSize::_64Mb => 8,
            FlashSize::_128Mb => 9,
            FlashSize::_256Mb => 10,
        }
    }

    /// The size in bytes: 256 KB doubled once per step.
    pub open spec fn bytes(self) -> u32 {
        match self {
            FlashSize::_256Kb => 0x0040000,
            FlashSize::_512Kb => 0x0080000,
            FlashSize::_1Mb => 0x0100000,
            FlashSize::_2Mb => 0x0200000,
            FlashSize::_4Mb => 0x0400000,
            FlashSize::_8Mb => 0x0800000,
            FlashSize::_16Mb => 0x1000000,
            FlashSize::_32Mb => 0x2000000,
            FlashSize::_64Mb => 0x4000000,
            FlashSize::_128Mb => 0x8000000,
            FlashSize::_256Mb => 0x10000000,
        }
    }

    /// The size as detected from a flash ID byte, if supported.
    pub open spec fn detected(value: u8) -> Option<FlashSize> {
        if value == 0x12 || value == 0x32 {
            Some(FlashSize::_256Kb)
        } else if value == 0x13 || value == 0x33 {
            Some(FlashSize::_512Kb)
        } else if value == 0x14 || value == 0x34 {
            Some(FlashSize::_1Mb)
        } else if value == 0x15 || value == 0x35 {
            Some(FlashSize::_2Mb)
        } else if value == 0x16 || value == 0x36 {
            Some(FlashSize::_4Mb)
        } else if value == 0x17 || value == 0x37 {
            Some(FlashSize::_8Mb)
        } else if value == 0x18 || value == 0x38 {
            Some(FlashSize::_16Mb)
        } else if value == 0x19 || value == 0x39 {
            Some(FlashSize::_32Mb)
        } else if value == 0x20 || value == 0x1A || value == 0x3A {
            Some(FlashSize::_64Mb)
        } else if value == 0x21 || value == 0x1B {
            Some(FlashSize::_128Mb)
        } else if value == 0x22 || value == 0x1C {
            Some(FlashSize::_256Mb)
        } else {
            None
        }
    }

    /// Encodes the flash size into the format used by the bootloader: 0 for 1 MB up to
    /// 8 for 256 MB; the two smallest sizes have no encoding.
    pub fn encode_flash_size(self) -> (r: Result<u8, FlasherError>)
        ensures
            self.index() >= 2 ==> r == Ok::<u8, FlasherError>((self.index() - 2) as u8),
            self.index() < 2 ==> r == Err::<u8, FlasherError>(FlasherError::UnsupportedFlash(self.index())),
    {
        match self {
            FlashSize::_1Mb => Ok(0),
            FlashSize::_2Mb => Ok(1),
            FlashSize::_4Mb => Ok(2),
            FlashSize::_8Mb => Ok(3),
            FlashSize::_16Mb => Ok(4),
            FlashSize::_32Mb => Ok(5),
            FlashSize::_64Mb => Ok(6),
            FlashSize::_128Mb => Ok(7),
            FlashSize::_256Mb => Ok(8),
            FlashSize::_256Kb => Err(FlasherError::UnsupportedFlash(0)),
            FlashSize::_512Kb => Err(FlasherError::UnsupportedFlash(1)),
        }
    }

    /// The flash size that a detected flash ID byte stands for.
    pub fn from_detected(value: u8) -> (r: Result<FlashSize, FlasherError>)
        ensures
            size_id_in_range(value) ==> (r matches Ok(s) && s.bytes() as nat == vstd::arithmetic::power2::pow2(
                size_id_exponent(value),
            )),
            FlashSize::detected(value) matches Some(s) ==> r == Ok::<FlashSize, FlasherError>(s),
            FlashSize::detected(value) is None ==> r == Err::<FlashSize, FlasherError>(
                FlasherError::UnsupportedFlash(value),
            ),
            !size_id_in_range(value) ==> r == Err::<FlashSize, FlasherError>(FlasherError::UnsupportedFlash(value)),
    {
        proof {
            if size_id_in_range(value) {
                lemma_detected_size_is_power_of_two(value);
            }
        }
        if value == 0x12 || value == 0x32 {
            Ok(FlashSize::_256Kb)
        } else if value == 0x13 || value == 0x33 {
            Ok(FlashSize::_512Kb)
        } else if value == 0x14 || value == 0x34 {
            Ok(FlashSize::_1Mb)
        } else if value == 0x15 || value == 0x35 {
            Ok(FlashSize::_2Mb)
        } else if value == 0x16 || value == 0x36 {
            Ok(FlashSize::_4Mb)
        } else if value == 0x17 || value == 0x37 {
            Ok(FlashSize::_8Mb)
        } else if value == 0x18 || value == 0x38 {
            Ok(FlashSize::_16Mb)
        } else if value == 0x19 || value == 0x39 {
            Ok(FlashSize::_32Mb)
        } else if value == 0x20 || value == 0x1A || value == 0x3A {
            Ok(FlashSize::_64Mb)
        } else if value == 0x21 || value == 0x1B {
            Ok(FlashSize::_128Mb)
        } else if value == 0x22 || value == 0x1C {
            Ok(FlashSize::_256Mb)
        } else {
            Err(FlasherError::UnsupportedFlash(value))
        }
    }

    /// Returns the flash size in bytes.
    pub fn size(self) -> (r: u32)
        ensures
            r == self.bytes(),
    {
        match self {
            FlashSize::_256Kb => 0x0040000,
            FlashSize::_512Kb => 0x0080000,
            FlashSize::_1Mb => 0x0100000,
            FlashSize::_2Mb => 0x0200000,
            FlashSize::_4Mb => 0x0400000,
            FlashSize::_8Mb => 0x0800000,
            FlashSize::_16Mb => 0x1000000,
            FlashSize::_32Mb => 0x2000000,
            FlashSize::_64Mb => 0x4000000,
            FlashSize::_128Mb => 0x8000000,
            FlashSize::_256Mb => 0x10000000,
        }
    }
}

/// Whether a flash ID's size byte is one whose size follows from it: 0x12 to 0x1C,
/// 0x32 to 0x3A, or 0x20 to 0x22.
pub open spec fn size_id_in_range(value: u8) -> bool {
    (0x12 <= value <= 0x1C) || (0x32 <= value <= 0x3A) || (0x20 <= value <= 0x22)
}

/// The base-2 logarithm of the flash size in bytes that a size byte stands for: its
/// low five bits, except for 0x20 to 0x22, which stand for 2^26 to 2^28.
pub open spec fn size_id_exponent(value: u8) -> nat {
    if 0x20 <= value <= 0x22 {
        (value - 6) as nat
    } else {
        (value & 0x1Fu8) as nat
    }
}

/// Each flash size is 256 KB doubled once per step up the list of sizes: 2 to the
/// power of 18 plus its position.
pub proof fn lemma_size_bytes_doubling(s: FlashSize)
    ensures
        s.bytes() as nat == vstd::arithmetic::power2::pow2(18 + s.index() as nat),
{
    vstd::arithmetic::power2::lemma2_to64();
}

/// The size detected from a flash ID byte is 2 to the power that the byte gives.
pub proof fn lemma_detected_size_is_power_of_two(value: u8)
    requires
        size_id_in_range(value),
    ensures
        FlashSize::detected(value) matches Some(s) && s.bytes() as nat == vstd::arithmetic::power2::pow2(
            size_id_exponent(value),
        ),
{
    vstd::arithmetic::power2::lemma2_to64();
    assert(0x12 <= value <= 0x1C ==> value & 0x1Fu8 == value) by (bit_vector);
    assert(0x32 <= value <= 0x3A ==> value & 0x1Fu8 == value - 0x20) by (bit_vector);
}

/// Flash settings to use when flashing a device.
#[derive(Debug, Clone, Copy, PartialEq, Eq, Structural, Hash)]
pub struct FlashSettings {
    /// Flash mode.
    pub mode: Option<FlashMode>,
    /// Flash size.
    pub size: Option<FlashSize>,
    /// Flash frequency.
    pub freq: Option<FlashFrequency>,
}

impl FlashSettings {
    /// The settings with every field unset.
    pub fn default() -> (r: Self)
        ensures
            r.mode is None && r.size is None && r.freq is None,
    {
        FlashSettings { mode: None, size: None, freq: None }
    }

    /// Settings with the given mode, size and frequency.
    pub fn new(mode: Option<FlashMode>, size: Option<FlashSize>, freq: Option<FlashFrequency>) -> (r: Self)
        ensures
            r.mode == mode && r.size == size && r.freq == freq,
    {
        FlashSettings { mode, size, freq }
    }
}

impl Default for FlashSettings {
    /// The settings with every field unset.
    fn default() -> (r: Self)
        ensures
            r.mode is None && r.size is None && r.freq is None,
    {
        FlashSettings { mode: None, size: None, freq: None }
    }
}

/// The plain contents of SPI flash parameters.
pub struct SpiSetParamsView {
    pub fl_id: u32,
    pub total_size: u32,
    pub block_size: u32,
    pub sector_size: u32,
    pub page_size: u32,
    pub status_mask: u32,
}

/// Parameters of the attached SPI flash chip (sizes, etc).
#[derive(Debug, Clone, Copy, PartialEq, Eq, Structural, Hash)]
pub struct SpiSetParams {
    /// Flash chip ID
    fl_id: u32,
    /// Total size in bytes
    total_size: u32,
    /// Block size
    block_size: u32,
    /// Sector size
    sector_size: u32,
    /// Page size
    page_size: u32,
    /// Status mask
    status_mask: u32,
}

impl View for SpiSetParams {
    type V = SpiSetParamsView;

    closed spec fn view(&self) -> SpiSetParamsView {
        SpiSetParamsView {
            fl_id: self.fl_id,
            total_size: self.total_size,
            block_size: self.block_size,
            sector_size: self.sector_size,
            page_size: self.page_size,
            status_mask: self.status_mask,
        }
    }
}

/// The little-endian encoding of SPI flash parameters, field by field.
pub open spec fn spi_set_params_bytes(p: SpiSetParamsView) -> Seq<u8> {
    le32(p.fl_id) + le32(p.total_size) + le32(p.block_size) + le32(p.sector_size) + le32(p.page_size) + le32(
        p.status_mask,
    )
}

/// Append the little-endian bytes of `x`.
fn push_le32(v: &mut Vec<u8>, x: u32)
    ensures
        final(v)@ == old(v)@ + le32(x),
{
    v.push(x as u8);
    v.push((x >> 8) as u8);
    v.push((x >> 16) as u8);
    v.push((x >> 24) as u8);
    assert(final(v)@ =~= old(v)@ + le32(x));
}

impl SpiSetParams {
    /// Parameters for a flash of `size` bytes: 64 KB blocks, 4 KB sectors, 256-byte pages.
    pub fn default(size: u32) -> (r: Self)
        ensures
            r@ == (SpiSetParamsView {
                fl_id: 0,
                total_size: size,
                block_size: 0x10000u32,
                sector_size: 0x1000u32,
                page_size: 256,
                status_mask: 0xFFFF,
            }),
    {
        SpiSetParams {
            fl_id: 0,
            total_size: size,
            block_size: 64 * 1024,
            sector_size: 4 * 1024,
            page_size: 256,
            status_mask: 0xFFFF,
        }
    }

    /// Encode the parameters into a byte array.
    pub fn encode(&self) -> (r: Vec<u8>)
        ensures
            r@ == spi_set_params_bytes(self@),
    {
        let mut encoded: Vec<u8> = Vec::new();
        push_le32(&mut encoded, self.fl_id);
        push_le32(&mut encoded, self.total_size);
        push_le32(&mut encoded, self.block_size);
        push_le32(&mut encoded, self.sector_size);
        push_le32(&mut encoded, self.page_size);
        push_le32(&mut encoded, self.status_mask);
        assert(encoded@ =~= spi_set_params_bytes(self@));
        encoded
    }
}

/// The plain contents of SPI attach parameters: the pins of the flash.
pub struct SpiAttachParamsView {
    pub clk: u8,
    pub q: u8,
    pub d: u8,
    pub hd: u8,
    pub cs: u8,
}

/// Parameters for attaching to a target device's SPI flash.
#[derive(Debug, Clone, Copy, PartialEq, Eq, Structural, Hash)]
pub struct SpiAttachParams {
    clk: u8,
    q: u8,
    d: u8,
    hd: u8,
    cs: u8,
}

impl View for SpiAttachParams {
    type V = SpiAttachParamsView;

    closed spec fn view(&self) -> SpiAttachParamsView {
        SpiAttachParamsView { clk: self.clk, q: self.q, d: self.d, hd: self.hd, cs: self.cs }
    }
}

/// The pins packed into one word: HD at bit 24, CS at 18, D at 12, Q at 6, CLK at 0.
pub open spec fn spi_attach_word(p: SpiAttachParamsView) -> u32 {
    ((p.hd as u32) << 24u32) | ((p.cs as u32) << 18u32) | ((p.d as u32) << 12u32) | ((p.q as u32) << 6u32) | (
    p.clk as u32)
}

/// The encoded attach parameters: the packed word, and for the ROM loader four zero bytes.
pub open spec fn spi_attach_bytes(p: SpiAttachParamsView, stub: bool) -> Seq<u8> {
    if stub {
        le32(spi_attach_word(p))
    } else {
        le32(spi_attach_word(p)) + seq![0u8, 0u8, 0u8, 0u8]
    }
}

impl SpiAttachParams {
    /// Every pin 0: use the pins from the fuses.
    pub fn default() -> (r: Self)
        ensures
            r@ == (SpiAttachParamsView { clk: 0, q: 0, d: 0, hd: 0, cs: 0 }),
    {
        SpiAttachParams { clk: 0, q: 0, d: 0, hd: 0, cs: 0 }
    }

    /// Default SPI parameters for ESP32-PICO-D4.
    pub fn esp32_pico_d4() -> (r: Self)
        ensures
            r@ == (SpiAttachParamsView { clk: 6, q: 17, d: 8, hd: 11, cs: 16 }),
    {
        SpiAttachParams { clk: 6, q: 17, d: 8, hd: 11, cs: 16 }
    }

    /// Encode the parameters into a byte array.
    pub fn encode(self, stub: bool) -> (r: Vec<u8>)
        ensures
            r@ == spi_attach_bytes(self@, stub),
    {
        let packed = ((self.hd as u32) << 24u32) | ((self.cs as u32) << 18u32) | ((self.d as u32) << 12u32) | ((
        self.q as u32) << 6u32) | (self.clk as u32);
        let mut encoded: Vec<u8> = Vec::new();
        push_le32(&mut encoded, packed);
        if !stub {
            encoded.push(0);
            encoded.push(0);
            encoded.push(0);
            encoded.push(0);
        }
        assert(encoded@ =~= spi_attach_bytes(self@, stub));
        encoded
    }
}

/// Security information reported by the ROM loader.
#[derive(Debug, Clone, Copy, PartialEq, Eq, Hash)]
pub struct SecurityInfo {
    /// 32 bits flags
    pub flags: u32,
    /// 1 byte flash_crypt_cnt
    pub flash_crypt_cnt: u8,
    /// 7 bytes key purposes
    pub key_purposes: [u8; 7],
    /// 32-bit word chip id
    pub chip_id: Option<u32>,
    /// 32-bit word eco version
    pub eco_version: Option<u32>,
}

/// The byte sequences equal.
pub(crate) fn eq_bytes(a: &[u8], b: &[u8]) -> (r: bool)
    ensures
        r == (a@ == b@),
{
    if a.len() != b.len() {
        return false;
    }
    let mut i: usize = 0;
    while i < a.len()
        invariant
            i <= a@.len(),
            a@.len() == b@.len(),
            a@.take(i as int) == b@.take(i as int),
        decreases a@.len() - i,
    {
        if a[i] != b[i] {
            assert(a@[i as int] != b@[i as int]);
            return false;
        }
        assert(a@.take(i + 1) =~= b@.take(i + 1));
        i = i + 1;
    }
    assert(a@ =~= a@.take(a@.len() as int));
    assert(b@ =~= b@.take(b@.len() as int));
    true
}

/// The bytes of each security flag name, with its bit.
pub open spec fn security_flag_names() -> Seq<(Seq<u8>, u32)> {
    seq![
        (seq![0x53u8, 0x45u8, 0x43u8, 0x55u8, 0x52u8, 0x45u8, 0x5Fu8, 0x42u8, 0x4Fu8, 0x4Fu8, 0x54u8, 0x5Fu8, 0x45u8, 0x4Eu8], 1u32),
        (seq![0x53u8, 0x45u8, 0x43u8, 0x55u8, 0x52u8, 0x45u8, 0x5Fu8, 0x42u8, 0x4Fu8, 0x4Fu8, 0x54u8, 0x5Fu8, 0x41u8, 0x47u8, 0x47u8, 0x52u8, 0x45u8, 0x53u8, 0x53u8, 0x49u8, 0x56u8, 0x45u8, 0x5Fu8, 0x52u8, 0x45u8, 0x56u8, 0x4Fu8, 0x4Bu8, 0x45u8], 2u32),
        (seq![0x53u8, 0x45u8, 0x43u8, 0x55u8, 0x52u8, 0x45u8, 0x5Fu8, 0x44u8, 0x4Fu8, 0x57u8, 0x4Eu8, 0x4Cu8, 0x4Fu8, 0x41u8, 0x44u8, 0x5Fu8, 0x45u8, 0x4Eu8, 0x41u8, 0x42u8, 0x4Cu8, 0x45u8], 4u32),
        (seq![0x53u8, 0x45u8, 0x43u8, 0x55u8, 0x52u8, 0x45u8, 0x5Fu8, 0x42u8, 0x4Fu8, 0x4Fu8, 0x54u8, 0x5Fu8, 0x4Bu8, 0x45u8, 0x59u8, 0x5Fu8, 0x52u8, 0x45u8, 0x56u8, 0x4Fu8, 0x4Bu8, 0x45u8, 0x30u8], 8u32),
        (seq![0x53u8, 0x45u8, 0x43u8, 0x55u8, 0x52u8, 0x45u8, 0x5Fu8, 0x42u8, 0x4Fu8, 0x4Fu8, 0x54u8, 0x5Fu8, 0x4Bu8, 0x45u8, 0x59u8, 0x5Fu8, 0x52u8, 0x45u8, 0x56u8, 0x4Fu8, 0x4Bu8, 0x45u8, 0x31u8], 16u32),
        (seq![0x53u8, 0x45u8, 0x43u8, 0x55u8, 0x52u8, 0x45u8, 0x5Fu8, 0x42u8, 0x4Fu8, 0x4Fu8, 0x54u8, 0x5Fu8, 0x4Bu8, 0x45u8, 0x59u8, 0x5Fu8, 0x52u8, 0x45u8, 0x56u8, 0x4Fu8, 0x4Bu8, 0x45u8, 0x32u8], 32u32),
        (seq![0x53u8, 0x4Fu8, 0x46u8, 0x54u8, 0x5Fu8, 0x44u8, 0x49u8, 0x53u8, 0x5Fu8, 0x4Au8, 0x54u8, 0x41u8, 0x47u8], 64u32),
        (seq![0x48u8, 0x41u8, 0x52u8, 0x44u8, 0x5Fu8, 0x44u8, 0x49u8, 0x53u8, 0x5Fu8, 0x4Au8, 0x54u8, 0x41u8, 0x47u8], 128u32),
        (seq![0x44u8, 0x49u8, 0x53u8, 0x5Fu8, 0x55u8, 0x53u8, 0x42u8], 256u32),
        (seq![0x44u8, 0x49u8, 0x53u8, 0x5Fu8, 0x44u8, 0x4Fu8, 0x57u8, 0x4Eu8, 0x4Cu8, 0x4Fu8, 0x41u8, 0x44u8, 0x5Fu8, 0x44u8, 0x43u8, 0x41u8, 0x43u8, 0x48u8, 0x45u8], 512u32),
        (seq![0x44u8, 0x49u8, 0x53u8, 0x5Fu8, 0x44u8, 0x4Fu8, 0x57u8, 0x4Eu8, 0x4Cu8, 0x4Fu8, 0x41u8, 0x44u8, 0x5Fu8, 0x49u8, 0x43u8, 0x41u8, 0x43u8, 0x48u8, 0x45u8], 1024u32),
    ]
}

/// The security flag names with their bits.
fn security_flag_table() -> (t: Vec<(Vec<u8>, u32)>)
    ensures
        t@.len() == security_flag_names().len(),
        forall|i: int| 0 <= i < t@.len() ==> t@[i].0@ == security_flag_names()[i].0 && t@[i].1 == security_flag_names()[i].1,
{
    let mut t: Vec<(Vec<u8>, u32)> = Vec::new();
    t.push((vec![0x53, 0x45, 0x43, 0x55, 0x52, 0x45, 0x5F, 0x42, 0x4F, 0x4F, 0x54, 0x5F, 0x45, 0x4E], 1u32));
    t.push((vec![0x53, 0x45, 0x43, 0x55, 0x52, 0x45, 0x5F, 0x42, 0x4F, 0x4F, 0x54, 0x5F, 0x41, 0x47, 0x47, 0x52, 0x45, 0x53, 0x53, 0x49, 0x56, 0x45, 0x5F, 0x52, 0x45, 0x56, 0x4F, 0x4B, 0x45], 2u32));
    t.push((vec![0x53, 0x45, 0x43, 0x55, 0x52, 0x45, 0x5F, 0x44, 0x4F, 0x57, 0x4E, 0x4C, 0x4F, 0x41, 0x44, 0x5F, 0x45, 0x4E, 0x41, 0x42, 0x4C, 0x45], 4u32));
    t.push((vec![0x53, 0x45, 0x43, 0x55, 0x52, 0x45, 0x5F, 0x42, 0x4F, 0x4F, 0x54, 0x5F, 0x4B, 0x45, 0x59, 0x5F, 0x52, 0x45, 0x56, 0x4F, 0x4B, 0x45, 0x30], 8u32));
    t.push((vec![0x53, 0x45, 0x43, 0x55, 0x52, 0x45, 0x5F, 0x42, 0x4F, 0x4F, 0x54, 0x5F, 0x4B, 0x45, 0x59, 0x5F, 0x52, 0x45, 0x56, 0x4F, 0x4B, 0x45, 0x31], 16u32));
    t.push((vec![0x53, 0x45, 0x43, 0x55, 0x52, 0x45, 0x5F, 0x42, 0x4F, 0x4F, 0x54, 0x5F, 0x4B, 0x45, 0x59, 0x5F, 0x52, 0x45, 0x56, 0x4F, 0x4B, 0x45, 0x32], 32u32));
    t.push((vec![0x53, 0x4F, 0x46, 0x54, 0x5F, 0x44, 0x49, 0x53, 0x5F, 0x4A, 0x54, 0x41, 0x47], 64u32));
    t.push((vec![0x48, 0x41, 0x52, 0x44, 0x5F, 0x44, 0x49, 0x53, 0x5F, 0x4A, 0x54, 0x41, 0x47], 128u32));
    t.push((vec![0x44, 0x49, 0x53, 0x5F, 0x55, 0x53, 0x42], 256u32));
    t.push((vec![0x44, 0x49, 0x53, 0x5F, 0x44, 0x4F, 0x57, 0x4E, 0x4C, 0x4F, 0x41, 0x44, 0x5F, 0x44, 0x43, 0x41, 0x43, 0x48, 0x45], 512u32));
    t.push((vec![0x44, 0x49, 0x53, 0x5F, 0x44, 0x4F, 0x57, 0x4E, 0x4C, 0x4F, 0x41, 0x44, 0x5F, 0x49, 0x43, 0x41, 0x43, 0x48, 0x45], 1024u32));
    assert(t@.len() == security_flag_names().len());
    assert forall|i: int| 0 <= i < t@.len() implies t@[i].0@ == security_flag_names()[i].0 && t@[i].1 == security_flag_names()[i].1 by {
        assert(t@[i].0@ =~= security_flag_names()[i].0);
    }
    t
}

/// The bit of the first table entry named `name`.
pub open spec fn flag_lookup(table: Seq<(Seq<u8>, u32)>, name: Seq<u8>) -> Option<u32>
    decreases table.len(),
{
    if table.len() == 0 {
        None
    } else if table[0].0 == name {
        Some(table[0].1)
    } else {
        flag_lookup(table.drop_first(), name)
    }
}

/// The number of set bits of a byte.
pub open spec fn ones(b: u8) -> nat {
    ((b & 1u8) + ((b >> 1u8) & 1u8) + ((b >> 2u8) & 1u8) + ((b >> 3u8) & 1u8) + ((b >> 4u8) & 1u8) + ((b
        >> 5u8) & 1u8) + ((b >> 6u8) & 1u8) + ((b >> 7u8) & 1u8)) as nat
}

impl SecurityInfo {
    /// Decode a GET_SECURITY_INFO response: 12 bytes (ESP32-S2: flags, flash crypt
    /// count, key purposes) or at least 20 (the same, then chip ID and ECO version).
    pub fn try_from(bytes: &[u8]) -> (r: Result<SecurityInfo, FlasherError>)
        ensures
            bytes@.len() < 12 ==> r == Err::<SecurityInfo, FlasherError>(
                FlasherError::ResponseTooShort { expected: 12, received: bytes@.len() as usize },
            ),
            12 < bytes@.len() < 20 ==> r == Err::<SecurityInfo, FlasherError>(
                FlasherError::ResponseTooShort { expected: 20, received: bytes@.len() as usize },
            ),
            (bytes@.len() == 12 || bytes@.len() >= 20) ==> (r matches Ok(info) && info.flags == from_le32(
                bytes@.subrange(0, 4),
            ) && info.flash_crypt_cnt == bytes@[4] && info.key_purposes@ == bytes@.subrange(5, 12) && (if bytes@.len()
                == 12 {
                info.chip_id is None && info.eco_version is None
            } else {
                info.chip_id == Some(from_le32(bytes@.subrange(12, 16))) && info.eco_version == Some(
                    from_le32(bytes@.subrange(16, 20)),
                )
            })),
    {
        let esp32s2 = bytes.len() == 12;
        if bytes.len() < 12 {
            return Err(FlasherError::ResponseTooShort { expected: 12, received: bytes.len() });
        }
        let flags = (bytes[0] as u32) | ((bytes[1] as u32) << 8u32) | ((bytes[2] as u32) << 16u32) | ((bytes[3] as u32)
            << 24u32);
        assert(bytes@.subrange(0, 4) =~= seq![bytes[0], bytes[1], bytes[2], bytes[3]]);
        let flash_crypt_cnt = bytes[4];
        let key_purposes: [u8; 7] = [bytes[5], bytes[6], bytes[7], bytes[8], bytes[9], bytes[10], bytes[11]];
        assert(key_purposes@ =~= bytes@.subrange(5, 12));
        if esp32s2 {
            return Ok(SecurityInfo { flags, flash_crypt_cnt, key_purposes, chip_id: None, eco_version: None });
        }
        if bytes.len() < 20 {
            return Err(FlasherError::ResponseTooShort { expected: 20, received: bytes.len() });
        }
        let chip_id = (bytes[12] as u32) | ((bytes[13] as u32) << 8u32) | ((bytes[14] as u32) << 16u32) | ((
        bytes[15] as u32) << 24u32);
        let eco_version = (bytes[16] as u32) | ((bytes[17] as u32) << 8u32) | ((bytes[18] as u32) << 16u32) | ((
        bytes[19] as u32) << 24u32);
        assert(bytes@.subrange(12, 16) =~= seq![bytes[12], bytes[13], bytes[14], bytes[15]]);
        assert(bytes@.subrange(16, 20) =~= seq![bytes[16], bytes[17], bytes[18], bytes[19]]);
        Ok(SecurityInfo {
            flags,
            flash_crypt_cnt,
            key_purposes,
            chip_id: Some(chip_id),
            eco_version: Some(eco_version),
        })
    }

    /// Whether the named security flag is set; an unknown name reads as unset.
    pub fn security_flag_status(&self, flag_name: &str) -> (r: bool)
        ensures
            r == (flag_lookup(security_flag_names(), flag_name.spec_bytes()) matches Some(bit) && self.flags & bit
                != 0),
    {
        let name = flag_name.as_bytes();
        let table = security_flag_table();
        let mut i: usize = 0;
        assert(security_flag_names().skip(0) =~= security_flag_names());
        while i < table.len()
            invariant
                i <= table@.len(),
                table@.len() == security_flag_names().len(),
                forall|j: int|
                    0 <= j < table@.len() ==> table@[j].0@ == security_flag_names()[j].0 && table@[j].1
                        == security_flag_names()[j].1,
                name@ == flag_name.spec_bytes(),
                flag_lookup(security_flag_names(), name@) == flag_lookup(security_flag_names().skip(i as int), name@),
            decreases table@.len() - i,
        {
            assert(security_flag_names().skip(i as int)[0] == security_flag_names()[i as int]);
            assert(security_flag_names().skip(i as int).drop_first() =~= security_flag_names().skip(i + 1));
            if eq_bytes(table[i].0.as_slice(), name) {
                let bit = table[i].1;
                assert(flag_lookup(security_flag_names().skip(i as int), name@) == Some(bit));
                return (self.flags & bit) != 0;
            }
            i = i + 1;
        }
        false
    }
}

/// Interpret ESP32 security fuse bits: `(secure_boot, flash_encryption)`. Secure boot
/// is bit 0 of the flags; flash encryption is on when the crypt count has an odd
/// number of set bits.
pub fn interpret_esp32_security(info: &SecurityInfo) -> (r: (bool, bool))
    ensures
        r.0 == (info.flags & 1 != 0),
        r.1 == (ones(info.flash_crypt_cnt) % 2 == 1),
{
    let secure_boot = (info.flags & 1) != 0;
    let b = info.flash_crypt_cnt;
    let b0 = b & 1u8;
    let b1 = (b >> 1u8) & 1u8;
    let b2 = (b >> 2u8) & 1u8;
    let b3 = (b >> 3u8) & 1u8;
    let b4 = (b >> 4u8) & 1u8;
    let b5 = (b >> 5u8) & 1u8;
    let b6 = (b >> 6u8) & 1u8;
    let b7 = (b >> 7u8) & 1u8;
    assert(b0 <= 1 && b1 <= 1 && b2 <= 1 && b3 <= 1 && b4 <= 1 && b5 <= 1 && b6 <= 1 && b7 <= 1) by (bit_vector)
        requires
            b0 == b & 1u8,
            b1 == (b >> 1u8) & 1u8,
            b2 == (b >> 2u8) & 1u8,
            b3 == (b >> 3u8) & 1u8,
            b4 == (b >> 4u8) & 1u8,
            b5 == (b >> 5u8) & 1u8,
            b6 == (b >> 6u8) & 1u8,
            b7 == (b >> 7u8) & 1u8,
    ;
    let count: u8 = b0 + b1 + b2 + b3 + b4 + b5 + b6 + b7;
    let flash_encryption = count % 2 != 0;
    (secure_boot, flash_encryption)
}

} // verus!
