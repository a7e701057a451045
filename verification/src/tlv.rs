//! Type-length-value framing used between the chips.
//!
//! A TLV on the wire is a big-endian 16-bit type, a big-endian 32-bit length
//! and the value bytes. Guarded links prefix each TLV with the sync word
//! `LINK` so that a reader can resynchronise after noise.
use vstd::prelude::*;

use crate::port::CtlPort;

verus! {

/// Raw TLV type field.
pub type Type = u16;

/// Raw TLV length field.
pub type Length = u32;

/// Size of the header: type (2 bytes) and length (4 bytes).
pub const HEADER_SIZE: usize = 6;

/// Largest value a TLV may carry.
pub const MAX_VALUE_SIZE: usize = 32;

/// Largest encoded TLV: header and value.
pub const MAX_TLV_SIZE: usize = 38;

/// Sync word that precedes every TLV on a guarded link ("LINK" in ASCII).
pub const SYNC_WORD: [u8; 4] = [0x4C, 0x49, 0x4E, 0x4B];

/// The sync word as a sequence.
pub open spec fn sync_word() -> Seq<u8> {
    seq![0x4Cu8, 0x49u8, 0x4Eu8, 0x4Bu8]
}

/// A bounded TLV value.
pub type Value = heapless::Vec<u8, MAX_VALUE_SIZE>;

/// A bounded encoded TLV.
pub type TlvVec = heapless::Vec<u8, MAX_TLV_SIZE>;

#[verifier::external_type_specification]
#[verifier::external_body]
#[verifier::reject_recursive_types(T)]
pub struct ExHeaplessVec<T, const N: usize>(heapless::Vec<T, N>);

/// The bytes that a TLV value holds, in order.
pub uninterp spec fn value_bytes(v: heapless::Vec<u8, MAX_VALUE_SIZE>) -> Seq<u8>;

/// The bytes that an encoded TLV buffer holds, in order.
pub uninterp spec fn tlv_vec_bytes(v: heapless::Vec<u8, MAX_TLV_SIZE>) -> Seq<u8>;

/// `heapless::Vec::new`: an empty vector.
#[verifier::external_body]
fn value_new() -> (v: Value)
    ensures
        value_bytes(v) == Seq::<u8>::empty(),
{
    heapless::Vec::new()
}

/// `heapless::Vec::from_slice`: fails exactly when the slice exceeds the capacity.
#[verifier::external_body]
pub(crate) fn value_from_slice(s: &[u8]) -> (r: Result<Value, ()>)
    ensures
        r is Ok <==> s@.len() <= MAX_VALUE_SIZE,
        r matches Ok(v) ==> value_bytes(v) == s@,
{
    heapless::Vec::from_slice(s)
}

/// `heapless::Vec::push`: appends when the vector is not full; hands the item back otherwise.
#[verifier::external_body]
fn value_push(v: &mut Value, b: u8) -> (r: Result<(), u8>)
    ensures
        r is Ok <==> value_bytes(*old(v)).len() < MAX_VALUE_SIZE,
        r is Ok ==> value_bytes(*final(v)) == value_bytes(*old(v)).push(b),
        r matches Err(x) ==> x == b && value_bytes(*final(v)) == value_bytes(*old(v)),
{
    v.push(b)
}

/// `heapless::Vec::as_slice`: the vector's contents, which never exceed its capacity.
#[verifier::external_body]
pub(crate) fn value_as_slice(v: &Value) -> (r: &[u8])
    ensures
        r@ == value_bytes(*v),
        r@.len() <= MAX_VALUE_SIZE,
{
    v.as_slice()
}

/// `heapless::Vec::from_slice` for an encoded TLV buffer.
#[verifier::external_body]
fn tlv_vec_from_slice(s: &[u8]) -> (r: Result<TlvVec, ()>)
    ensures
        r is Ok <==> s@.len() <= MAX_TLV_SIZE,
        r matches Ok(v) ==> tlv_vec_bytes(v) == s@,
{
    heapless::Vec::from_slice(s)
}

/// `heapless::Vec::as_slice` for an encoded TLV buffer.
#[verifier::external_body]
pub(crate) fn tlv_vec_as_slice(v: &TlvVec) -> (r: &[u8])
    ensures
        r@ == tlv_vec_bytes(*v),
{
    v.as_slice()
}

/// A message type that has a 16-bit code on the wire.
pub trait TlvType: Sized {
    /// The wire code of this message type.
    spec fn code(self) -> u16;

    /// The message type that a wire code stands for, if any.
    spec fn from_code(raw: u16) -> Option<Self>;

    /// The wire code.
    fn into_u16(self) -> (r: u16)
        ensures
            r == self.code(),
    ;

    /// Decode a wire code.
    fn try_from_u16(raw: u16) -> (r: Option<Self>)
        ensures
            r == Self::from_code(raw),
    ;

    /// Decoding the code of a type gives the type back.
    proof fn lemma_code_roundtrip(t: Self)
        ensures
            Self::from_code(t.code()) == Some(t),
    ;

    /// A decoded type has the code that it was decoded from.
    proof fn lemma_from_code(raw: u16)
        ensures
            Self::from_code(raw) matches Some(t) ==> t.code() == raw,
    ;
}

/// Messages from the host controller to the management chip.
#[derive(Copy, Clone, PartialEq, Eq, Debug, Structural)]
pub enum CtlToMgmt {
    Ping,
    ToUi,
    ToNet,
    UiFirstCircularPing,
    NetFirstCircularPing,
}

impl TlvType for CtlToMgmt {
    open spec fn code(self) -> u16 {
        match self {
            CtlToMgmt::Ping => 0x00,
            CtlToMgmt::ToUi => 0x01,
            CtlToMgmt::ToNet => 0x02,
            CtlToMgmt::UiFirstCircularPing => 0x03,
            CtlToMgmt::NetFirstCircularPing => 0x04,
        }
    }

    open spec fn from_code(raw: u16) -> Option<Self> {
        if raw == 0x00 {
            Some(CtlToMgmt::Ping)
        } else if raw == 0x01 {
            Some(CtlToMgmt::ToUi)
        } else if raw == 0x02 {
            Some(CtlToMgmt::ToNet)
        } else if raw == 0x03 {
            Some(CtlToMgmt::UiFirstCircularPing)
        } else if raw == 0x04 {
            Some(CtlToMgmt::NetFirstCircularPing)
        } else {
            None
        }
    }

    fn into_u16(self) -> (r: u16) {
        match self {
            CtlToMgmt::Ping => 0x00,
            CtlToMgmt::ToUi => 0x01,
            CtlToMgmt::ToNet => 0x02,
            CtlToMgmt::UiFirstCircularPing => 0x03,
            CtlToMgmt::NetFirstCircularPing => 0x04,
        }
    }

    fn try_from_u16(raw: u16) -> (r: Option<Self>) {
        if raw == 0x00 {
            Some(CtlToMgmt::Ping)
        } else if raw == 0x01 {
            Some(CtlToMgmt::ToUi)
        } else if raw == 0x02 {
            Some(CtlToMgmt::ToNet)
        } else if raw == 0x03 {
            Some(CtlToMgmt::UiFirstCircularPing)
        } else if raw == 0x04 {
            Some(CtlToMgmt::NetFirstCircularPing)
        } else {
            None
        }
    }

    proof fn lemma_code_roundtrip(t: Self) {
    }

    proof fn lemma_from_code(raw: u16) {
    }
}

/// Messages from the management chip to the host controller.
#[derive(Copy, Clone, PartialEq, Eq, Debug, Structural)]
pub enum MgmtToCtl {
    Pong,
    FromUi,
    FromNet,
    UiFirstCircularPing,
}

impl TlvType for MgmtToCtl {
    open spec fn code(self) -> u16 {
        match self {
            MgmtToCtl::Pong => 0x10,
            MgmtToCtl::FromUi => 0x11,
            MgmtToCtl::FromNet => 0x12,
            MgmtToCtl::UiFirstCircularPing => 0x13,
        }
    }

    open spec fn from_code(raw: u16) -> Option<Self> {
        if raw == 0x10 {
            Some(MgmtToCtl::Pong)
        } else if raw == 0x11 {
            Some(MgmtToCtl::FromUi)
        } else if raw == 0x12 {
            Some(MgmtToCtl::FromNet)
        } else if raw == 0x13 {
            Some(MgmtToCtl::UiFirstCircularPing)
        } else {
            None
        }
    }

    fn into_u16(self) -> (r: u16) {
        match self {
            MgmtToCtl::Pong => 0x10,
            MgmtToCtl::FromUi => 0x11,
            MgmtToCtl::FromNet => 0x12,
            MgmtToCtl::UiFirstCircularPing => 0x13,
        }
    }

    fn try_from_u16(raw: u16) -> (r: Option<Self>) {
        if raw == 0x10 {
            Some(MgmtToCtl::Pong)
        } else if raw == 0x11 {
            Some(MgmtToCtl::FromUi)
        } else if raw == 0x12 {
            Some(MgmtToCtl::FromNet)
        } else if raw == 0x13 {
            Some(MgmtToCtl::UiFirstCircularPing)
        } else {
            None
        }
    }

    proof fn lemma_code_roundtrip(t: Self) {
    }

    proof fn lemma_from_code(raw: u16) {
    }
}

/// Messages from the management chip to the UI chip.
#[derive(Copy, Clone, PartialEq, Eq, Debug, Structural)]
pub enum MgmtToUi {
    Ping,
    CircularPing,
}

impl TlvType for MgmtToUi {
    open spec fn code(self) -> u16 {
        match self {
            MgmtToUi::Ping => 0x20,
            MgmtToUi::CircularPing => 0x21,
        }
    }

    open spec fn from_code(raw: u16) -> Option<Self> {
        if raw == 0x20 {
            Some(MgmtToUi::Ping)
        } else if raw == 0x21 {
            Some(MgmtToUi::CircularPing)
        } else {
            None
        }
    }

    fn into_u16(self) -> (r: u16) {
        match self {
            MgmtToUi::Ping => 0x20,
            MgmtToUi::CircularPing => 0x21,
        }
    }

    fn try_from_u16(raw: u16) -> (r: Option<Self>) {
        if raw == 0x20 {
            Some(MgmtToUi::Ping)
        } else if raw == 0x21 {
            Some(MgmtToUi::CircularPing)
        } else {
            None
        }
    }

    proof fn lemma_code_roundtrip(t: Self) {
    }

    proof fn lemma_from_code(raw: u16) {
    }
}

/// Messages from the UI chip to the management chip.
#[derive(Copy, Clone, PartialEq, Eq, Debug, Structural)]
pub enum UiToMgmt {
    Pong,
    CircularPing,
}

impl TlvType for UiToMgmt {
    open spec fn code(self) -> u16 {
        match self {
            UiToMgmt::Pong => 0x30,
            UiToMgmt::CircularPing => 0x31,
        }
    }

    open spec fn from_code(raw: u16) -> Option<Self> {
        if raw == 0x30 {
            Some(UiToMgmt::Pong)
        } else if raw == 0x31 {
            Some(UiToMgmt::CircularPing)
        } else {
            None
        }
    }

    fn into_u16(self) -> (r: u16) {
        match self {
            UiToMgmt::Pong => 0x30,
            UiToMgmt::CircularPing => 0x31,
        }
    }

    fn try_from_u16(raw: u16) -> (r: Option<Self>) {
        if raw == 0x30 {
            Some(UiToMgmt::Pong)
        } else if raw == 0x31 {
            Some(UiToMgmt::CircularPing)
        } else {
            None
        }
    }

    proof fn lemma_code_roundtrip(t: Self) {
    }

    proof fn lemma_from_code(raw: u16) {
    }
}

/// Messages from the management chip to the network chip.
#[derive(Copy, Clone, PartialEq, Eq, Debug, Structural)]
pub enum MgmtToNet {
    Ping,
    CircularPing,
}

impl TlvType for MgmtToNet {
    open spec fn code(self) -> u16 {
        match self {
            MgmtToNet::Ping => 0x40,
            MgmtToNet::CircularPing => 0x41,
        }
    }

    open spec fn from_code(raw: u16) -> Option<Self> {
        if raw == 0x40 {
            Some(MgmtToNet::Ping)
        } else if raw == 0x41 {
            Some(MgmtToNet::CircularPing)
        } else {
            None
        }
    }

    fn into_u16(self) -> (r: u16) {
        match self {
            MgmtToNet::Ping => 0x40,
            MgmtToNet::CircularPing => 0x41,
        }
    }

    fn try_from_u16(raw: u16) -> (r: Option<Self>) {
        if raw == 0x40 {
            Some(MgmtToNet::Ping)
        } else if raw == 0x41 {
            Some(MgmtToNet::CircularPing)
        } else {
            None
        }
    }

    proof fn lemma_code_roundtrip(t: Self) {
    }

    proof fn lemma_from_code(raw: u16) {
    }
}

/// Messages from the network chip to the management chip.
#[derive(Copy, Clone, PartialEq, Eq, Debug, Structural)]
pub enum NetToMgmt {
    Pong,
    CircularPing,
}

impl TlvType for NetToMgmt {
    open spec fn code(self) -> u16 {
        match self {
            NetToMgmt::Pong => 0x50,
            NetToMgmt::CircularPing => 0x51,
        }
    }

    open spec fn from_code(raw: u16) -> Option<Self> {
        if raw == 0x50 {
            Some(NetToMgmt::Pong)
        } else if raw == 0x51 {
            Some(NetToMgmt::CircularPing)
        } else {
            None
        }
    }

    fn into_u16(self) -> (r: u16) {
        match self {
            NetToMgmt::Pong => 0x50,
            NetToMgmt::CircularPing => 0x51,
        }
    }

    fn try_from_u16(raw: u16) -> (r: Option<Self>) {
        if raw == 0x50 {
            Some(NetToMgmt::Pong)
        } else if raw == 0x51 {
            Some(NetToMgmt::CircularPing)
        } else {
            None
        }
    }

    proof fn lemma_code_roundtrip(t: Self) {
    }

    proof fn lemma_from_code(raw: u16) {
    }
}

/// Messages from the UI chip to the network chip.
#[derive(Copy, Clone, PartialEq, Eq, Debug, Structural)]
pub enum UiToNet {
    CircularPing,
}

impl TlvType for UiToNet {
    open spec fn code(self) -> u16 {
        match self {
            UiToNet::CircularPing => 0x60,
        }
    }

    open spec fn from_code(raw: u16) -> Option<Self> {
        if raw == 0x60 {
            Some(UiToNet::CircularPing)
        } else {
            None
        }
    }

    fn into_u16(self) -> (r: u16) {
        match self {
            UiToNet::CircularPing => 0x60,
        }
    }

    fn try_from_u16(raw: u16) -> (r: Option<Self>) {
        if raw == 0x60 {
            Some(UiToNet::CircularPing)
        } else {
            None
        }
    }

    proof fn lemma_code_roundtrip(t: Self) {
    }

    proof fn lemma_from_code(raw: u16) {
    }
}

/// Messages from the network chip to the UI chip.
#[derive(Copy, Clone, PartialEq, Eq, Debug, Structural)]
pub enum NetToUi {
    CircularPing,
}

impl TlvType for NetToUi {
    open spec fn code(self) -> u16 {
        match self {
            NetToUi::CircularPing => 0x70,
        }
    }

    open spec fn from_code(raw: u16) -> Option<Self> {
        if raw == 0x70 {
            Some(NetToUi::CircularPing)
        } else {
            None
        }
    }

    fn into_u16(self) -> (r: u16) {
        match self {
            NetToUi::CircularPing => 0x70,
        }
    }

    fn try_from_u16(raw: u16) -> (r: Option<Self>) {
        if raw == 0x70 {
            Some(NetToUi::CircularPing)
        } else {
            None
        }
    }

    proof fn lemma_code_roundtrip(t: Self) {
    }

    proof fn lemma_from_code(raw: u16) {
    }
}

/// Big-endian bytes of a 16-bit value.
pub open spec fn be16(v: u16) -> Seq<u8> {
    seq![(v >> 8u16) as u8, v as u8]
}

/// Big-endian bytes of a 32-bit value.
pub open spec fn be32(v: u32) -> Seq<u8> {
    seq![(v >> 24u32) as u8, (v >> 16u32) as u8, (v >> 8u32) as u8, v as u8]
}

/// The 16-bit value of two big-endian bytes.
pub open spec fn from_be16(b0: u8, b1: u8) -> u16 {
    ((b0 as u16) << 8u16) | (b1 as u16)
}

/// The 32-bit value of four big-endian bytes.
pub open spec fn from_be32(b0: u8, b1: u8, b2: u8, b3: u8) -> u32 {
    ((b0 as u32) << 24u32) | ((b1 as u32) << 16u32) | ((b2 as u32) << 8u32) | (b3 as u32)
}

/// The header of a TLV with the given type code and length.
pub open spec fn header_bytes(code: u16, length: u32) -> Seq<u8> {
    be16(code) + be32(length)
}

/// The type code held by a header.
pub open spec fn header_code(h: Seq<u8>) -> u16 {
    from_be16(h[0], h[1])
}

/// The length held by a header.
pub open spec fn header_length(h: Seq<u8>) -> u32 {
    from_be32(h[2], h[3], h[4], h[5])
}

/// A complete TLV encoding: header followed by the value.
pub open spec fn tlv_bytes(code: u16, value: Seq<u8>) -> Seq<u8> {
    header_bytes(code, value.len() as u32) + value
}

/// Reading back the fields of an encoded header gives the fields that were encoded.
pub proof fn lemma_header_roundtrip(code: u16, length: u32)
    ensures
        header_bytes(code, length).len() == HEADER_SIZE,
        header_code(header_bytes(code, length)) == code,
        header_length(header_bytes(code, length)) == length,
{
    let h = header_bytes(code, length);
    assert(h[0] == (code >> 8u16) as u8 && h[1] == code as u8);
    assert(h[2] == (length >> 24u32) as u8 && h[3] == (length >> 16u32) as u8);
    assert(h[4] == (length >> 8u32) as u8 && h[5] == length as u8);
    assert(((((code >> 8u16) as u8) as u16) << 8u16) | ((code as u8) as u16) == code)
        by (bit_vector);
    assert(((((length >> 24u32) as u8) as u32) << 24u32) | ((((length >> 16u32) as u8) as u32)
        << 16u32) | ((((length >> 8u32) as u8) as u32) << 8u32) | ((length as u8) as u32) == length)
        by (bit_vector);
}

/// Encoding a header from its fields gives the header back.
pub proof fn lemma_header_encode_decode(h: Seq<u8>)
    requires
        h.len() == HEADER_SIZE,
    ensures
        header_bytes(header_code(h), header_length(h)) == h,
{
    let (b0, b1, b2, b3, b4, b5) = (h[0], h[1], h[2], h[3], h[4], h[5]);
    let c = from_be16(b0, b1);
    let l = from_be32(b2, b3, b4, b5);
    assert((((((b0 as u16) << 8u16) | (b1 as u16)) >> 8u16) as u8) == b0) by (bit_vector);
    assert(((((b0 as u16) << 8u16) | (b1 as u16)) as u8) == b1) by (bit_vector);
    assert((((((b2 as u32) << 24u32) | ((b3 as u32) << 16u32) | ((b4 as u32) << 8u32) | (
    b5 as u32)) >> 24u32) as u8) == b2) by (bit_vector);
    assert((((((b2 as u32) << 24u32) | ((b3 as u32) << 16u32) | ((b4 as u32) << 8u32) | (
    b5 as u32)) >> 16u32) as u8) == b3) by (bit_vector);
    assert((((((b2 as u32) << 24u32) | ((b3 as u32) << 16u32) | ((b4 as u32) << 8u32) | (
    b5 as u32)) >> 8u32) as u8) == b4) by (bit_vector);
    assert(((((b2 as u32) << 24u32) | ((b3 as u32) << 16u32) | ((b4 as u32) << 8u32) | (
    b5 as u32)) as u8) == b5) by (bit_vector);
    assert(header_bytes(c, l) =~= h);
}

/// The error of decoding a type code that no message type has.
#[derive(Debug, Clone, Copy, PartialEq, Eq, Structural)]
pub struct TryFromCodeError {
    /// The code that was read.
    pub number: u16,
}

/// Decode a header into its message type and value length.
pub fn decode_header<T: TlvType>(header: &[u8; HEADER_SIZE]) -> (r: Result<(T, usize), TryFromCodeError>)
    ensures
        r == (match T::from_code(header_code(header@)) {
            Some(t) => Ok((t, header_length(header@) as usize)),
            None => Err(TryFromCodeError { number: header_code(header@) }),
        }),
{
    let raw_type: u16 = ((header[0] as u16) << 8u16) | (header[1] as u16);
    let length: u32 = ((header[2] as u32) << 24u32) | ((header[3] as u32) << 16u32) | ((
    header[4] as u32) << 8u32) | (header[5] as u32);
    match T::try_from_u16(raw_type) {
        Some(t) => Ok((t, length as usize)),
        None => Err(TryFromCodeError { number: raw_type }),
    }
}

/// Encode the header of a TLV of the given type and value length.
/// The length field holds `length` truncated to 32 bits.
pub fn encode_header<T: TlvType>(tlv_type: T, length: usize) -> (h: [u8; HEADER_SIZE])
    ensures
        h@ == header_bytes(tlv_type.code(), length as u32),
{
    let type_val: u16 = tlv_type.into_u16();
    let length_val: u32 = length as u32;
    let h: [u8; HEADER_SIZE] = [
        (type_val >> 8u16) as u8,
        type_val as u8,
        (length_val >> 24u32) as u8,
        (length_val >> 16u32) as u8,
        (length_val >> 8u32) as u8,
        length_val as u8,
    ];
    assert(h@ =~= header_bytes(tlv_type.code(), length as u32));
    h
}


/// A decoded TLV.
#[derive(Debug)]
pub struct Tlv<T> {
    /// The message type.
    pub tlv_type: T,
    /// The value.
    pub value: Value,
}

impl<T: TlvType> Tlv<T> {
    /// Encode a TLV (header and value) into a bounded buffer.
    pub fn encode(tlv_type: T, value: &[u8]) -> (enc: TlvVec)
        requires
            value@.len() <= MAX_VALUE_SIZE,
        ensures
            tlv_vec_bytes(enc) == tlv_bytes(tlv_type.code(), value@),
    {
        let mut buf: Vec<u8> = Vec::new();
        buf.write_tlv(tlv_type, value);
        match tlv_vec_from_slice(buf.as_slice()) {
            Ok(v) => v,
            Err(_) => {
                assert(false);
                tlv_vec_from_slice(&[]).unwrap()
            },
        }
    }
}

/// Errors of reading a TLV.
#[derive(Debug)]
pub enum ReadError<E> {
    /// The underlying reader failed.
    Io(E),
    /// The type code names no message type.
    InvalidType,
    /// The value does not fit (longer than `MAX_VALUE_SIZE`, or than what is left).
    TooLong,
}

/// A sink of TLVs.
pub trait WriteTlv<T: TlvType> {
    /// The error of a failed write.
    type Error;

    /// Write one TLV.
    fn write_tlv(&mut self, tlv_type: T, value: &[u8]) -> (r: Result<(), Self::Error>);
}

/// A source of TLVs.
pub trait ReadTlv<T: TlvType> {
    /// The error of a failed read.
    type Error;

    /// Read one TLV; `Ok(None)` when the input ended before a complete TLV.
    fn read_tlv(&mut self) -> (r: Result<Option<Tlv<T>>, Self::Error>);
}

/// In-memory encoding: the TLV is appended to the buffer.
impl<T: TlvType> WriteTlv<T> for Vec<u8> {
    type Error = ();

    fn write_tlv(&mut self, tlv_type: T, value: &[u8]) -> (r: Result<(), ()>)
        ensures
            r is Ok,
            final(self)@ == old(self)@ + tlv_bytes(tlv_type.code(), value@),
    {
        let header = encode_header(tlv_type, value.len());
        let mut i: usize = 0;
        while i < HEADER_SIZE
            invariant
                i <= HEADER_SIZE,
                header@ == header_bytes(tlv_type.code(), value@.len() as u32),
                self@ == old(self)@ + header@.take(i as int),
            decreases HEADER_SIZE - i,
        {
            self.push(header[i]);
            assert(header@.take(i + 1) =~= header@.take(i as int).push(header@[i as int]));
            i = i + 1;
        }
        let mut j: usize = 0;
        while j < value.len()
            invariant
                j <= value@.len(),
                header@ == header_bytes(tlv_type.code(), value@.len() as u32),
                self@ == old(self)@ + header@ + value@.take(j as int),
            decreases value@.len() - j,
        {
            self.push(value[j]);
            assert(value@.take(j + 1) =~= value@.take(j as int).push(value@[j as int]));
            j = j + 1;
        }
        assert(header@.take(HEADER_SIZE as int) =~= header@);
        assert(value@.take(value@.len() as int) =~= value@);
        assert(self@ =~= old(self)@ + tlv_bytes(tlv_type.code(), value@));
        Ok(())
    }
}

/// In-memory decoding: the TLV is read from the front of the slice, which advances past it.
impl<'a, T: TlvType> ReadTlv<T> for &'a [u8] {
    type Error = ReadError<()>;

    fn read_tlv(&mut self) -> (r: Result<Option<Tlv<T>>, ReadError<()>>)
        ensures
            ({
                let d = old(self)@;
                let h = d.take(HEADER_SIZE as int);
                let rest = d.skip(HEADER_SIZE as int);
                let len = header_length(h) as int;
                if d.len() < HEADER_SIZE {
                    r matches Ok(None) && final(self)@ == d
                } else if T::from_code(header_code(h)) is None {
                    r matches Err(ReadError::InvalidType) && final(self)@ == rest
                } else if rest.len() < len || len > MAX_VALUE_SIZE {
                    r matches Err(ReadError::TooLong) && final(self)@ == rest
                } else {
                    &&& r matches Ok(Some(tlv))
                    &&& Some::<T>(tlv.tlv_type) == T::from_code(header_code(h))
                    &&& value_bytes(tlv.value) == rest.take(len)
                    &&& final(self)@ == rest.skip(len)
                }
            }),
    {
        let data: &[u8] = *self;
        if data.len() < HEADER_SIZE {
            return Ok(None);
        }
        let header: [u8; HEADER_SIZE] = [data[0], data[1], data[2], data[3], data[4], data[5]];
        assert(header@ =~= data@.take(HEADER_SIZE as int));
        let rest: &[u8] = slice_tail(data, HEADER_SIZE);
        *self = rest;
        let (tlv_type, length) = match decode_header::<T>(&header) {
            Ok(v) => v,
            Err(_) => return Err(ReadError::InvalidType),
        };
        if rest.len() < length {
            return Err(ReadError::TooLong);
        }
        let value = match value_from_slice(slice_head(rest, length)) {
            Ok(v) => v,
            Err(_) => return Err(ReadError::TooLong),
        };
        *self = slice_tail(rest, length);
        Ok(Some(Tlv { tlv_type, value }))
    }
}

/// The bytes of `s` from position `n` on.
fn slice_tail(s: &[u8], n: usize) -> (r: &[u8])
    requires
        n <= s@.len(),
    ensures
        r@ == s@.skip(n as int),
{
    let r = &s[n..s.len()];
    assert(r@ =~= s@.skip(n as int));
    r
}

/// The first `n` bytes of `s`.
fn slice_head(s: &[u8], n: usize) -> (r: &[u8])
    requires
        n <= s@.len(),
    ensures
        r@ == s@.take(n as int),
{
    let r = &s[0..n];
    assert(r@ =~= s@.take(n as int));
    r
}


/// A TLV writer for a guarded link: each write sequence starts with the sync word.
pub struct LabeledWriter<W> {
    label: &'static str,
    writer: W,
    needs_sync: bool,
}

impl<W> LabeledWriter<W> {
    /// The underlying writer.
    pub closed spec fn inner(&self) -> W {
        self.writer
    }

    /// Whether the next write starts a new sequence (and so sends the sync word).
    pub closed spec fn pending_sync(&self) -> bool {
        self.needs_sync
    }

    /// The label that names the link in traces.
    pub closed spec fn tag(&self) -> &'static str {
        self.label
    }

    /// A writer that will send the sync word before its first bytes.
    pub fn new(label: &'static str, writer: W) -> (w: Self)
        ensures
            w.inner() == writer,
            w.pending_sync(),
            w.tag() == label,
    {
        LabeledWriter { label, writer, needs_sync: true }
    }

    /// The label given at construction.
    pub fn label(&self) -> (r: &'static str)
        ensures
            r == self.tag(),
    {
        self.label
    }

    /// Give back the underlying writer.
    pub fn into_inner(self) -> (w: W)
        ensures
            w == self.inner(),
    {
        self.writer
    }
}

/// The bytes that start a write sequence: the sync word when one is pending.
pub open spec fn sync_prefix(pending: bool) -> Seq<u8> {
    if pending {
        sync_word()
    } else {
        Seq::empty()
    }
}

impl<W: CtlPort> LabeledWriter<W> {
    /// Write raw bytes, preceded by the sync word at the start of a sequence.
    pub fn write(&mut self, buf: &[u8]) -> (r: Result<usize, W::Error>)
        ensures
            r matches Ok(n) ==> {
                &&& n == buf@.len()
                &&& final(self).inner().outgoing() == old(self).inner().outgoing()
                    + sync_prefix(old(self).pending_sync()) + buf@
                &&& final(self).inner().incoming() == old(self).inner().incoming()
                &&& !final(self).pending_sync()
            },
            old(self).inner().healthy() ==> r is Ok && final(self).inner().healthy(),
    {
        if self.needs_sync {
            let sync: [u8; 4] = SYNC_WORD;
            assert(sync@ =~= sync_word());
            match self.writer.write_all(&sync) {
                Ok(()) => {},
                Err(e) => return Err(e),
            }
            self.needs_sync = false;
        }
        match self.writer.write_all(buf) {
            Ok(()) => {},
            Err(e) => return Err(e),
        }
        assert(self.writer.outgoing() =~= old(self).writer.outgoing() + sync_prefix(
            old(self).needs_sync,
        ) + buf@);
        Ok(buf.len())
    }

    /// Flush the underlying writer; the next write starts a new sequence.
    pub fn flush(&mut self) -> (r: Result<(), W::Error>)
        ensures
            final(self).pending_sync(),
            r is Ok ==> final(self).inner().outgoing() == old(self).inner().outgoing()
                && final(self).inner().incoming() == old(self).inner().incoming() && final(self).inner().flushed(),
            old(self).inner().healthy() ==> r is Ok && final(self).inner().healthy(),
    {
        let result = self.writer.flush();
        self.needs_sync = true;
        result
    }
}

impl<T: TlvType, W: CtlPort> WriteTlv<T> for LabeledWriter<W> {
    type Error = W::Error;

    fn write_tlv(&mut self, tlv_type: T, value: &[u8]) -> (r: Result<(), W::Error>)
        ensures
            r is Ok ==> {
                &&& final(self).inner().outgoing() == old(self).inner().outgoing()
                    + sync_prefix(old(self).pending_sync()) + tlv_bytes(tlv_type.code(), value@)
                &&& final(self).inner().incoming() == old(self).inner().incoming()
                &&& final(self).pending_sync()
                &&& final(self).inner().flushed()
            },
            old(self).inner().healthy() ==> r is Ok && final(self).inner().healthy(),
    {
        let ghost code = tlv_type.code();
        if self.needs_sync {
            let sync: [u8; 4] = SYNC_WORD;
            assert(sync@ =~= sync_word());
            match self.writer.write_all(&sync) {
                Ok(()) => {},
                Err(e) => return Err(e),
            }
            self.needs_sync = false;
        }
        let header = encode_header(tlv_type, value.len());
        match self.writer.write_all(&header) {
            Ok(()) => {},
            Err(e) => return Err(e),
        }
        match self.writer.write_all(value) {
            Ok(()) => {},
            Err(e) => return Err(e),
        }
        match self.writer.flush() {
            Ok(()) => {},
            Err(e) => return Err(e),
        }
        self.needs_sync = true;
        assert(self.writer.outgoing() =~= old(self).writer.outgoing() + sync_prefix(
            old(self).needs_sync,
        ) + tlv_bytes(code, value@));
        Ok(())
    }
}


/// One poll of the underlying reader, as seen by a `LabeledReader`.
pub enum ReadEvent<E> {
    /// One byte was read.
    Byte(u8),
    /// The read returned no data (zero bytes: nothing yet, or end of stream).
    Empty,
    /// The read failed.
    Error(E),
}

/// Where a `LabeledReader` stands in the current TLV.
pub enum ScanState {
    /// Looking for the sync word; `matched` bytes of it were just seen.
    Scanning { matched: usize, discarded: usize },
    /// Collecting the header bytes.
    Header { bytes: Vec<u8> },
    /// Collecting the value of a TLV whose header has been read.
    Body { code: u16, length: usize, value: Value },
}

/// The abstract state of a `LabeledReader`.
pub enum ScanModel {
    Scanning { matched: nat, discarded: nat },
    Header { bytes: Seq<u8> },
    Body { code: u16, length: nat, bytes: Seq<u8> },
}

/// What one step of the reader produced: nothing yet, or the outcome of the read.
pub type ScanOutcome<E> = Option<Result<Option<(u16, Seq<u8>)>, ReadError<E>>>;

/// `a + b`, saturating at `usize::MAX`.
pub open spec fn sat_add(a: nat, b: nat) -> nat {
    if a + b > usize::MAX {
        usize::MAX as nat
    } else {
        a + b
    }
}

/// The state in which every read starts.
pub open spec fn scan_start() -> ScanModel {
    ScanModel::Scanning { matched: 0, discarded: 0 }
}

/// One step of the reader on one event.
pub open spec fn scan_step<T: TlvType, E>(m: ScanModel, ev: ReadEvent<E>) -> (ScanModel, ScanOutcome<E>) {
    match m {
        ScanModel::Scanning { matched, discarded } => match ev {
            ReadEvent::Byte(b) => if b == sync_word()[matched as int] {
                if matched + 1 == 4 {
                    (ScanModel::Header { bytes: Seq::empty() }, None)
                } else {
                    (ScanModel::Scanning { matched: matched + 1, discarded }, None)
                }
            } else if b == sync_word()[0] {
                (ScanModel::Scanning { matched: 1, discarded: sat_add(discarded, matched) }, None)
            } else {
                (ScanModel::Scanning { matched: 0, discarded: sat_add(discarded, matched + 1) }, None)
            },
            ReadEvent::Empty => (m, None),
            ReadEvent::Error(_) => (ScanModel::Scanning { matched: 0, discarded: sat_add(discarded, 1) }, None),
        },
        ScanModel::Header { bytes } => match ev {
            ReadEvent::Byte(b) => {
                let h = bytes.push(b);
                if h.len() < HEADER_SIZE {
                    (ScanModel::Header { bytes: h }, None)
                } else if T::from_code(header_code(h)) is None {
                    (scan_start(), Some(Err(ReadError::InvalidType)))
                } else if header_length(h) > MAX_VALUE_SIZE {
                    (scan_start(), Some(Err(ReadError::TooLong)))
                } else if header_length(h) == 0 {
                    (scan_start(), Some(Ok(Some((header_code(h), Seq::empty())))))
                } else {
                    (ScanModel::Body { code: header_code(h), length: header_length(h) as nat, bytes: Seq::empty() }, None)
                }
            },
            ReadEvent::Empty => (scan_start(), Some(Ok(None))),
            ReadEvent::Error(e) => (scan_start(), Some(Err(ReadError::Io(e)))),
        },
        ScanModel::Body { code, length, bytes } => match ev {
            ReadEvent::Byte(b) => {
                let v = bytes.push(b);
                if v.len() >= length {
                    if T::from_code(code) is Some {
                        (scan_start(), Some(Ok(Some((code, v)))))
                    } else {
                        (scan_start(), Some(Err(ReadError::InvalidType)))
                    }
                } else {
                    (ScanModel::Body { code, length, bytes: v }, None)
                }
            },
            ReadEvent::Empty => (scan_start(), Some(Ok(None))),
            ReadEvent::Error(e) => (scan_start(), Some(Err(ReadError::Io(e)))),
        },
    }
}

/// Feed a stream of bytes to the reader until it produces an outcome.
pub open spec fn scan_run<T: TlvType, E>(m: ScanModel, bytes: Seq<u8>) -> (ScanModel, ScanOutcome<E>)
    decreases bytes.len(),
{
    if bytes.len() == 0 {
        (m, None)
    } else {
        let (m2, o) = scan_step::<T, E>(m, ReadEvent::Byte(bytes[0]));
        if o is Some {
            (m2, o)
        } else {
            scan_run::<T, E>(m2, bytes.drop_first())
        }
    }
}

/// The outcome that a reader result stands for.
pub open spec fn outcome_of<T: TlvType, E>(r: Option<Result<Option<Tlv<T>>, ReadError<E>>>) -> ScanOutcome<E> {
    match r {
        None => None,
        Some(Ok(None)) => Some(Ok(None)),
        Some(Ok(Some(tlv))) => Some(Ok(Some((tlv.tlv_type.code(), value_bytes(tlv.value))))),
        Some(Err(e)) => Some(Err(e)),
    }
}

impl ScanState {
    /// The abstract state.
    pub closed spec fn model(&self) -> ScanModel {
        match self {
            ScanState::Scanning { matched, discarded } => ScanModel::Scanning { matched: *matched as nat, discarded: *discarded as nat },
            ScanState::Header { bytes } => ScanModel::Header { bytes: bytes@ },
            ScanState::Body { code, length, value } => ScanModel::Body { code: *code, length: *length as nat, bytes: value_bytes(*value) },
        }
    }

    /// The bounds that every reachable state keeps.
    pub closed spec fn wf(&self) -> bool {
        match self {
            ScanState::Scanning { matched, .. } => *matched < 4,
            ScanState::Header { bytes } => bytes@.len() < HEADER_SIZE,
            ScanState::Body { length, value, .. } => value_bytes(*value).len() < *length <= MAX_VALUE_SIZE,
        }
    }
}

/// A TLV reader for a guarded link: it skips everything up to the sync word,
/// then reads one header and value.
///
/// The reader is driven by its owner, who polls the underlying reader and
/// hands each result to `feed` until an outcome comes back.
pub struct LabeledReader<R> {
    label: &'static str,
    reader: R,
    state: ScanState,
}

impl<R> LabeledReader<R> {
    /// The underlying reader.
    pub closed spec fn inner(&self) -> R {
        self.reader
    }

    /// Where the reader stands in the current TLV.
    pub closed spec fn model(&self) -> ScanModel {
        self.state.model()
    }

    /// The bounds that every reachable reader keeps.
    pub closed spec fn wf(&self) -> bool {
        self.state.wf()
    }

    /// The label that names the link in traces.
    pub closed spec fn tag(&self) -> &'static str {
        self.label
    }

    /// A reader that starts by looking for the sync word.
    pub fn new(label: &'static str, reader: R) -> (r: Self)
        ensures
            r.inner() == reader,
            r.model() == scan_start(),
            r.wf(),
            r.tag() == label,
    {
        LabeledReader { label, reader, state: ScanState::Scanning { matched: 0, discarded: 0 } }
    }

    /// The label given at construction.
    pub fn label(&self) -> (r: &'static str)
        ensures
            r == self.tag(),
    {
        self.label
    }

    /// Give back the underlying reader.
    pub fn into_inner(self) -> (r: R)
        ensures
            r == self.inner(),
    {
        self.reader
    }

    /// Whether the reader is still looking for the sync word.
    fn is_scanning(&self) -> (r: bool)
        ensures
            r == (self.model() is Scanning),
    {
        match self.state {
            ScanState::Scanning { .. } => true,
            _ => false,
        }
    }

    /// The underlying reader, to be polled by the owner.
    pub fn reader_mut(&mut self) -> (r: &mut R)
        ensures
            *r == old(self).inner(),
            final(self).inner() == *final(r),
            final(self).model() == old(self).model(),
            final(self).wf() == old(self).wf(),
    {
        &mut self.reader
    }

    /// Hand one poll result of the underlying reader to the TLV reader.
    /// Returns `None` while the TLV is incomplete, else the outcome of the read.
    pub fn feed<T: TlvType, E>(&mut self, ev: ReadEvent<E>) -> (r: Option<Result<Option<Tlv<T>>, ReadError<E>>>)
        requires
            old(self).wf(),
        ensures
            final(self).wf(),
            final(self).inner() == old(self).inner(),
            (final(self).model(), outcome_of(r)) == scan_step::<T, E>(old(self).model(), ev),
    {
        let mut st = ScanState::Scanning { matched: 0, discarded: 0 };
        core::mem::swap(&mut st, &mut self.state);
        let (next, out) = match st {
            ScanState::Scanning { matched, discarded } => feed_scanning::<T, E>(matched, discarded, ev),
            ScanState::Header { bytes } => feed_header::<T, E>(bytes, ev),
            ScanState::Body { code, length, value } => feed_body::<T, E>(code, length, value, ev),
        };
        self.state = next;
        out
    }
}

fn feed_scanning<T: TlvType, E>(matched: usize, discarded: usize, ev: ReadEvent<E>) -> (r: (ScanState, Option<Result<Option<Tlv<T>>, ReadError<E>>>))
    requires
        matched < 4,
    ensures
        r.0.wf(),
        (r.0.model(), outcome_of(r.1)) == scan_step::<T, E>(ScanModel::Scanning { matched: matched as nat, discarded: discarded as nat }, ev),
{
    match ev {
        ReadEvent::Byte(b) => {
            let sync: [u8; 4] = SYNC_WORD;
            assert(sync@ =~= sync_word());
            if b == sync[matched] {
                if matched + 1 == 4 {
                    let st = ScanState::Header { bytes: Vec::new() };
                    assert(st.model() == ScanModel::Header { bytes: Seq::<u8>::empty() });
                    (st, None)
                } else {
                    (ScanState::Scanning { matched: matched + 1, discarded }, None)
                }
            } else if b == sync[0] {
                (ScanState::Scanning { matched: 1, discarded: discarded.saturating_add(matched) }, None)
            } else {
                (ScanState::Scanning { matched: 0, discarded: discarded.saturating_add(matched + 1) }, None)
            }
        },
        ReadEvent::Empty => (ScanState::Scanning { matched, discarded }, None),
        ReadEvent::Error(_) => (ScanState::Scanning { matched: 0, discarded: discarded.saturating_add(1) }, None),
    }
}

fn feed_header<T: TlvType, E>(bytes: Vec<u8>, ev: ReadEvent<E>) -> (r: (ScanState, Option<Result<Option<Tlv<T>>, ReadError<E>>>))
    requires
        bytes@.len() < HEADER_SIZE,
    ensures
        r.0.wf(),
        (r.0.model(), outcome_of(r.1)) == scan_step::<T, E>(ScanModel::Header { bytes: bytes@ }, ev),
{
    let start = ScanState::Scanning { matched: 0, discarded: 0 };
    let mut bytes = bytes;
    match ev {
        ReadEvent::Byte(b) => {
            bytes.push(b);
            if bytes.len() < HEADER_SIZE {
                return (ScanState::Header { bytes }, None);
            }
            let header: [u8; HEADER_SIZE] = [bytes[0], bytes[1], bytes[2], bytes[3], bytes[4], bytes[5]];
            assert(header@ =~= bytes@);
            match decode_header::<T>(&header) {
                Err(_) => (start, Some(Err(ReadError::InvalidType))),
                Ok((tlv_type, length)) => {
                    proof { T::lemma_from_code(header_code(header@)); }
                    if length > MAX_VALUE_SIZE {
                        (start, Some(Err(ReadError::TooLong)))
                    } else if length == 0 {
                        let value = value_new();
                        (start, Some(Ok(Some(Tlv { tlv_type, value }))))
                    } else {
                        let code = tlv_type.into_u16();
                        (ScanState::Body { code, length, value: value_new() }, None)
                    }
                },
            }
        },
        ReadEvent::Empty => (start, Some(Ok(None))),
        ReadEvent::Error(e) => (start, Some(Err(ReadError::Io(e)))),
    }
}

fn feed_body<T: TlvType, E>(code: u16, length: usize, value: Value, ev: ReadEvent<E>) -> (r: (ScanState, Option<Result<Option<Tlv<T>>, ReadError<E>>>))
    requires
        value_bytes(value).len() < length <= MAX_VALUE_SIZE,
    ensures
        r.0.wf(),
        (r.0.model(), outcome_of(r.1)) == scan_step::<T, E>(ScanModel::Body { code, length: length as nat, bytes: value_bytes(value) }, ev),
{
    let start = ScanState::Scanning { matched: 0, discarded: 0 };
    let mut bytes = value;
    match ev {
        ReadEvent::Byte(b) => {
            let _ = value_push(&mut bytes, b);
            if value_as_slice(&bytes).len() >= length {
                match T::try_from_u16(code) {
                    Some(tlv_type) => {
                        proof { T::lemma_from_code(code); }
                        (start, Some(Ok(Some(Tlv { tlv_type, value: bytes }))))
                    },
                    None => (start, Some(Err(ReadError::InvalidType))),
                }
            } else {
                (ScanState::Body { code, length, value: bytes }, None)
            }
        },
        ReadEvent::Empty => (start, Some(Ok(None))),
        ReadEvent::Error(e) => (start, Some(Err(ReadError::Io(e)))),
    }
}


/// What one read of at most one byte delivered: the byte, nothing, or an error.
pub open spec fn read_event_matches<E>(ev: ReadEvent<E>, inc0: Seq<u8>, inc1: Seq<u8>) -> bool {
    match ev {
        ReadEvent::Byte(b) => inc0.len() >= 1 && b == inc0[0] && inc1 == inc0.skip(1),
        ReadEvent::Empty => inc1 == inc0,
        ReadEvent::Error(_) => true,
    }
}

/// What one read of at most one byte delivers from a working port: the next byte,
/// or nothing when no byte is coming.
pub open spec fn next_event<E>(inc: Seq<u8>) -> ReadEvent<E> {
    if inc.len() > 0 {
        ReadEvent::Byte(inc[0])
    } else {
        ReadEvent::Empty
    }
}

/// What is left of `inc` after one such read.
pub open spec fn after_event(inc: Seq<u8>) -> Seq<u8> {
    if inc.len() > 0 {
        inc.skip(1)
    } else {
        inc
    }
}

impl<R: CtlPort> LabeledReader<R> {
    /// Read at most one byte from the underlying reader and hand the result to the
    /// TLV reader. Returns `None` while the TLV is incomplete, else the outcome.
    pub fn poll<T: TlvType>(&mut self) -> (r: Option<Result<Option<Tlv<T>>, ReadError<R::Error>>>)
        requires
            old(self).wf(),
        ensures
            final(self).wf(),
            exists|ev: ReadEvent<R::Error>|
                read_event_matches(ev, old(self).inner().incoming(), final(self).inner().incoming()) && (
                final(self).model(),
                outcome_of(r),
            ) == scan_step::<T, R::Error>(old(self).model(), ev),
            old(self).inner().healthy() ==> {
                &&& final(self).inner().healthy()
                &&& final(self).inner().incoming() == after_event(old(self).inner().incoming())
                &&& final(self).inner().outgoing() == old(self).inner().outgoing()
                &&& (final(self).model(), outcome_of(r)) == scan_step::<T, R::Error>(
                    old(self).model(),
                    next_event(old(self).inner().incoming()),
                )
            },
    {
        let mut buf: [u8; 1] = [0u8];
        let ev = match self.reader.read(&mut buf) {
            Ok(0) => ReadEvent::Empty,
            Ok(_) => {
                assert(buf@[0] == old(self).inner().incoming().take(1)[0]);
                ReadEvent::Byte(buf[0])
            },
            Err(e) => ReadEvent::Error(e),
        };
        let ghost ev_model = ev;
        proof {
            if let ReadEvent::Empty = ev {
                assert(self.reader.incoming() =~= old(self).inner().incoming());
            }
        }
        let r = self.feed::<T, R::Error>(ev);
        assert(read_event_matches(ev_model, old(self).inner().incoming(), self.inner().incoming()));
        r
    }
}

/// How many of `bytes` the reader takes from state `m` before it has an outcome
/// (all of them when it has none).
pub open spec fn scan_used<T: TlvType, E>(m: ScanModel, bytes: Seq<u8>) -> nat
    decreases bytes.len(),
{
    if bytes.len() == 0 {
        0
    } else {
        let (m2, o) = scan_step::<T, E>(m, ReadEvent::Byte(bytes[0]));
        if o is Some {
            1
        } else {
            1 + scan_used::<T, E>(m2, bytes.drop_first())
        }
    }
}

impl<R: CtlPort> LabeledReader<R> {
    /// Read one TLV: skip bytes up to the sync word, then read the header and the
    /// value. `Ok(None)` when the input runs out first; while looking for the sync
    /// word, a failed read ends the read with that error.
    ///
    /// On a working port this is the reader's step model run over the bytes that
    /// are coming: the outcome is the model's, and exactly the bytes up to the end
    /// of the TLV are taken.
    pub fn read_tlv<T: TlvType>(&mut self) -> (r: Result<Option<Tlv<T>>, ReadError<R::Error>>)
        requires
            old(self).wf(),
        ensures
            final(self).wf(),
            final(self).inner().outgoing() == old(self).inner().outgoing(),
            old(self).inner().healthy() ==> final(self).inner().healthy() && ({
                let inc = old(self).inner().incoming();
                let (m2, o) = scan_run::<T, R::Error>(old(self).model(), inc);
                if o is Some {
                    &&& outcome_of(Some(r)) == o
                    &&& final(self).model() == m2
                    &&& final(self).inner().incoming() == inc.skip(scan_used::<T, R::Error>(old(self).model(), inc) as int)
                } else {
                    &&& r matches Ok(None)
                    &&& final(self).inner().incoming().len() == 0
                    &&& final(self).model() == scan_step::<T, R::Error>(m2, ReadEvent::Empty).0
                }
            }),
    {
        let ghost m0 = self.model();
        let ghost inc0 = self.inner().incoming();
        let ghost mut k: int = 0;
        assert(inc0.skip(0) =~= inc0);
        loop
            invariant
                self.wf(),
                self.inner().outgoing() == old(self).inner().outgoing(),
                m0 == old(self).model(),
                inc0 == old(self).inner().incoming(),
                old(self).inner().healthy() ==> {
                    &&& self.inner().healthy()
                    &&& 0 <= k <= inc0.len()
                    &&& self.inner().incoming() == inc0.skip(k)
                    &&& scan_run::<T, R::Error>(m0, inc0) == scan_run::<T, R::Error>(self.model(), inc0.skip(k))
                    &&& scan_used::<T, R::Error>(m0, inc0) == k + scan_used::<T, R::Error>(self.model(), inc0.skip(k))
                },
            decreases self.inner().incoming().len(),
        {
            let ghost m = self.model();
            let ghost cur = self.inner().incoming();
            let scanning = self.is_scanning();
            let mut buf: [u8; 1] = [0u8];
            let ev = match self.reader.read(&mut buf) {
                Ok(0) => ReadEvent::Empty,
                Ok(_) => {
                    assert(buf@[0] == cur.take(1)[0]);
                    ReadEvent::Byte(buf[0])
                },
                Err(e) => ReadEvent::Error(e),
            };
            if scanning {
                match ev {
                    ReadEvent::Empty => {
                        return Ok(None);
                    },
                    ReadEvent::Error(e) => {
                        return Err(ReadError::Io(e));
                    },
                    ReadEvent::Byte(_) => {},
                }
            }
            let ghost gev = ev;
            let out = self.feed::<T, R::Error>(ev);
            proof {
                if old(self).inner().healthy() {
                    if let ReadEvent::Byte(b) = gev {
                        assert(cur.drop_first() =~= inc0.skip(k + 1));
                        k = k + 1;
                    }
                }
            }
            match out {
                Some(o) => {
                    return o;
                },
                None => {},
            }
        }
    }
}

/// Whether the sync word occurs somewhere in `s`.
pub open spec fn contains_sync(s: Seq<u8>) -> bool {
    exists|i: int| 0 <= i && i + 4 <= s.len() && #[trigger] s.subrange(i, i + 4) == sync_word()
}

/// Whether `s` ends with the first `k` bytes of the sync word.
pub open spec fn ends_with_sync_prefix(s: Seq<u8>, k: nat) -> bool {
    k <= s.len() && s.subrange(s.len() - k, s.len() as int) == sync_word().take(k as int)
}

/// Running the reader over `a + b` is running it over `a`, then, if it produced
/// nothing, over `b`.
pub proof fn lemma_scan_run_append<T: TlvType, E>(m: ScanModel, a: Seq<u8>, b: Seq<u8>)
    ensures
        scan_run::<T, E>(m, a + b) == (if scan_run::<T, E>(m, a).1 is Some {
            scan_run::<T, E>(m, a)
        } else {
            scan_run::<T, E>(scan_run::<T, E>(m, a).0, b)
        }),
    decreases a.len(),
{
    if a.len() == 0 {
        assert(a + b =~= b);
    } else {
        let (m2, o) = scan_step::<T, E>(m, ReadEvent::Byte(a[0]));
        assert((a + b)[0] == a[0]);
        assert((a + b).drop_first() =~= a.drop_first() + b);
        if o is None {
            lemma_scan_run_append::<T, E>(m2, a.drop_first(), b);
        }
    }
}

/// Garbage that holds no sync word leaves the reader scanning, with no outcome.
proof fn lemma_scan_garbage<T: TlvType, E>(q: Seq<u8>, matched: nat, discarded: nat, g: Seq<u8>)
    requires
        matched < 4,
        ends_with_sync_prefix(q, matched),
        !contains_sync(q + g),
    ensures
        scan_run::<T, E>(ScanModel::Scanning { matched, discarded }, g).1 is None,
        scan_run::<T, E>(ScanModel::Scanning { matched, discarded }, g).0 matches ScanModel::Scanning { matched: m2, .. } && m2 < 4,
    decreases g.len(),
{
    if g.len() > 0 {
        let b = g[0];
        let q2 = q.push(b);
        assert(q2 + g.drop_first() =~= q + g);
        let (m2, o) = scan_step::<T, E>(ScanModel::Scanning { matched, discarded }, ReadEvent::Byte(b));
        assert(o is None);
        if b == sync_word()[matched as int] {
            assert(q2.subrange(q2.len() - (matched + 1), q2.len() as int) =~= q.subrange(
                q.len() - matched,
                q.len() as int,
            ).push(b));
            assert(sync_word().take(matched + 1 as int) =~= sync_word().take(matched as int).push(b));
            if matched + 1 == 4 {
                let i = q2.len() - 4;
                assert(q2.subrange(i, i + 4) =~= (q + g).subrange(i, i + 4));
                assert(sync_word().take(4) =~= sync_word());
                assert(contains_sync(q + g));
            }
            lemma_scan_garbage::<T, E>(q2, matched + 1, discarded, g.drop_first());
        } else if b == sync_word()[0] {
            assert(q2.subrange(q2.len() - 1, q2.len() as int) =~= sync_word().take(1));
            lemma_scan_garbage::<T, E>(q2, 1, sat_add(discarded, matched), g.drop_first());
        } else {
            assert(q2.subrange(q2.len() as int, q2.len() as int) =~= sync_word().take(0));
            lemma_scan_garbage::<T, E>(q2, 0, sat_add(discarded, matched + 1), g.drop_first());
        }
    }
}

/// The sync word takes a scanning reader to the header, whatever it had matched before.
proof fn lemma_scan_sync<T: TlvType, E>(matched: nat, discarded: nat)
    requires
        matched < 4,
    ensures
        scan_run::<T, E>(ScanModel::Scanning { matched, discarded }, sync_word()) == (ScanModel::Header { bytes: Seq::<u8>::empty() }, None::<Result<Option<(u16, Seq<u8>)>, ReadError<E>>>),
{
    let s = sync_word();
    let m0 = ScanModel::Scanning { matched, discarded };
    let (m1, o1) = scan_step::<T, E>(m0, ReadEvent::Byte(s[0]));
    assert(m1 matches ScanModel::Scanning { matched: m, .. } && m == 1);
    let (m2, o2) = scan_step::<T, E>(m1, ReadEvent::Byte(s[1]));
    let (m3, o3) = scan_step::<T, E>(m2, ReadEvent::Byte(s[2]));
    let (m4, o4) = scan_step::<T, E>(m3, ReadEvent::Byte(s[3]));
    assert(s.drop_first() =~= seq![s[1], s[2], s[3]]);
    assert(s.drop_first().drop_first() =~= seq![s[2], s[3]]);
    assert(s.drop_first().drop_first().drop_first() =~= seq![s[3]]);
    assert(s.drop_first().drop_first().drop_first().drop_first() =~= Seq::<u8>::empty());
    reveal_with_fuel(scan_run, 5);
}

/// Feeding the rest of a value completes the TLV.
proof fn lemma_scan_body<T: TlvType, E>(code: u16, value: Seq<u8>, k: nat)
    requires
        T::from_code(code) is Some,
        k < value.len() <= MAX_VALUE_SIZE,
    ensures
        scan_run::<T, E>(ScanModel::Body { code, length: value.len(), bytes: value.take(k as int) }, value.skip(k as int)).1
            == Some(Ok::<Option<(u16, Seq<u8>)>, ReadError<E>>(Some((code, value)))),
    decreases value.len() - k,
{
    let rest = value.skip(k as int);
    assert(rest[0] == value[k as int]);
    assert(value.take(k as int).push(value[k as int]) =~= value.take(k + 1 as int));
    if k + 1 == value.len() {
        assert(value.take(k + 1 as int) =~= value);
    } else {
        assert(rest.drop_first() =~= value.skip(k + 1 as int));
        lemma_scan_body::<T, E>(code, value, k + 1);
    }
}

/// Feeding a TLV to a reader that is about to read a header produces that TLV.
proof fn lemma_scan_tlv<T: TlvType, E>(t: T, value: Seq<u8>)
    requires
        value.len() <= MAX_VALUE_SIZE,
    ensures
        scan_run::<T, E>(ScanModel::Header { bytes: Seq::empty() }, tlv_bytes(t.code(), value)).1
            == Some(Ok::<Option<(u16, Seq<u8>)>, ReadError<E>>(Some((t.code(), value)))),
{
    let h = header_bytes(t.code(), value.len() as u32);
    lemma_header_roundtrip(t.code(), value.len() as u32);
    T::lemma_code_roundtrip(t);
    let h0 = ScanModel::Header { bytes: Seq::<u8>::empty() };
    let m5 = ScanModel::Header { bytes: h.take(5) };
    let last = h.subrange(5, 6);
    assert(h.take(0) =~= Seq::<u8>::empty());
    lemma_scan_header_prefix::<T, E>(h, 0);
    assert(scan_run::<T, E>(h0, h.subrange(0, 5)) == (m5, None::<Result<Option<(u16, Seq<u8>)>, ReadError<E>>>));
    assert(h.subrange(0, 5) + (last + value) =~= tlv_bytes(t.code(), value));
    lemma_scan_run_append::<T, E>(h0, h.subrange(0, 5), last + value);
    assert(scan_run::<T, E>(h0, tlv_bytes(t.code(), value)) == scan_run::<T, E>(m5, last + value));
    lemma_scan_run_append::<T, E>(m5, last, value);
    assert(h.take(5).push(h[5]) =~= h);
    assert(last[0] == h[5]);
    assert(last.drop_first() =~= Seq::<u8>::empty());
    let (m6, o6) = scan_step::<T, E>(m5, ReadEvent::Byte(h[5]));
    assert(header_code(h) == t.code());
    assert(header_length(h) == value.len());
    if value.len() > 0 {
        assert(o6 is None);
        assert(m6 == ScanModel::Body { code: t.code(), length: value.len(), bytes: Seq::<u8>::empty() });
        assert(scan_run::<T, E>(m6, Seq::<u8>::empty()) == (m6, o6));
        assert(scan_run::<T, E>(m5, last) == (m6, o6));
        assert(value.take(0) =~= Seq::<u8>::empty());
        assert(value.skip(0) =~= value);
        lemma_scan_body::<T, E>(t.code(), value, 0);
    } else {
        assert(value =~= Seq::<u8>::empty());
        assert(scan_run::<T, E>(m5, last) == (m6, o6));
    }
}

/// Header bytes before the last one only accumulate.
proof fn lemma_scan_header_prefix<T: TlvType, E>(h: Seq<u8>, j: int)
    requires
        h.len() == HEADER_SIZE,
        0 <= j <= 5,
    ensures
        scan_run::<T, E>(ScanModel::Header { bytes: h.take(j) }, h.subrange(j, 5))
            == (ScanModel::Header { bytes: h.take(5) }, None::<Result<Option<(u16, Seq<u8>)>, ReadError<E>>>),
    decreases 5 - j,
{
    if j < 5 {
        assert(h.take(j).push(h[j]) =~= h.take(j + 1));
        assert(h.subrange(j, 5)[0] == h[j]);
        assert(h.subrange(j, 5).drop_first() =~= h.subrange(j + 1, 5));
        lemma_scan_header_prefix::<T, E>(h, j + 1);
    } else {
        assert(h.subrange(5, 5) =~= Seq::<u8>::empty());
    }
}

/// The bytes taken over `a + b`: those taken over `a` when it already gives an
/// outcome, else all of `a` and those taken over `b` from where `a` left the reader.
proof fn lemma_scan_used_append<T: TlvType, E>(m: ScanModel, a: Seq<u8>, b: Seq<u8>)
    ensures
        scan_used::<T, E>(m, a + b) == (if scan_run::<T, E>(m, a).1 is Some {
            scan_used::<T, E>(m, a)
        } else {
            a.len() + scan_used::<T, E>(scan_run::<T, E>(m, a).0, b)
        }),
    decreases a.len(),
{
    if a.len() == 0 {
        assert(a + b =~= b);
    } else {
        let (m2, o) = scan_step::<T, E>(m, ReadEvent::Byte(a[0]));
        assert((a + b)[0] == a[0]);
        assert((a + b).drop_first() =~= a.drop_first() + b);
        if o is None {
            lemma_scan_used_append::<T, E>(m2, a.drop_first(), b);
        }
    }
}

/// When the outcome comes with the last byte of `a`, all of `a` is taken.
proof fn lemma_scan_used_exact<T: TlvType, E>(m: ScanModel, a: Seq<u8>)
    requires
        a.len() > 0,
        scan_run::<T, E>(m, a.drop_last()).1 is None,
    ensures
        scan_used::<T, E>(m, a) == a.len(),
{
    let last = seq![a.last()];
    assert(a.drop_last() + last =~= a);
    lemma_scan_used_append::<T, E>(m, a.drop_last(), last);
    assert(last.drop_first() =~= Seq::<u8>::empty());
    reveal_with_fuel(scan_used, 2);
}

/// Value bytes short of the last one leave the reader in the body, with no outcome.
proof fn lemma_scan_body_partial<T: TlvType, E>(code: u16, value: Seq<u8>, k: nat)
    requires
        k < value.len(),
    ensures
        scan_run::<T, E>(ScanModel::Body { code, length: value.len(), bytes: value.take(k as int) }, value.subrange(
            k as int,
            value.len() - 1,
        )).1 is None,
    decreases value.len() - k,
{
    if k + 1 < value.len() {
        let rest = value.subrange(k as int, value.len() - 1);
        assert(rest[0] == value[k as int]);
        assert(value.take(k as int).push(value[k as int]) =~= value.take(k + 1 as int));
        assert(rest.drop_first() =~= value.subrange(k + 1 as int, value.len() - 1));
        lemma_scan_body_partial::<T, E>(code, value, k + 1);
    } else {
        assert(value.subrange(k as int, value.len() - 1) =~= Seq::<u8>::empty());
    }
}

/// A framed TLV short of its last byte gives a reader at the header no outcome.
proof fn lemma_scan_tlv_partial<T: TlvType, E>(t: T, value: Seq<u8>)
    requires
        value.len() <= MAX_VALUE_SIZE,
    ensures
        scan_run::<T, E>(ScanModel::Header { bytes: Seq::empty() }, tlv_bytes(t.code(), value).drop_last()).1 is None,
{
    let h = header_bytes(t.code(), value.len() as u32);
    lemma_header_roundtrip(t.code(), value.len() as u32);
    T::lemma_code_roundtrip(t);
    let h0 = ScanModel::Header { bytes: Seq::<u8>::empty() };
    let m5 = ScanModel::Header { bytes: h.take(5) };
    assert(h.take(0) =~= Seq::<u8>::empty());
    lemma_scan_header_prefix::<T, E>(h, 0);
    if value.len() == 0 {
        assert(tlv_bytes(t.code(), value).drop_last() =~= h.subrange(0, 5));
    } else {
        let last = h.subrange(5, 6);
        let vpart = value.subrange(0, value.len() - 1);
        assert(tlv_bytes(t.code(), value).drop_last() =~= h.subrange(0, 5) + (last + vpart));
        lemma_scan_run_append::<T, E>(h0, h.subrange(0, 5), last + vpart);
        lemma_scan_run_append::<T, E>(m5, last, vpart);
        assert(h.take(5).push(h[5]) =~= h);
        assert(last[0] == h[5]);
        assert(last.drop_first() =~= Seq::<u8>::empty());
        assert(header_code(h) == t.code());
        assert(header_length(h) == value.len());
        let m6 = ScanModel::Body { code: t.code(), length: value.len(), bytes: Seq::<u8>::empty() };
        let (m6b, o6) = scan_step::<T, E>(m5, ReadEvent::Byte(h[5]));
        assert(o6 is None);
        assert(m6b == m6);
        assert(scan_run::<T, E>(m6, Seq::<u8>::empty()) == (m6, o6));
        assert(scan_run::<T, E>(m5, last) == (m6, None::<Result<Option<(u16, Seq<u8>)>, ReadError<E>>>));
        assert(value.take(0) =~= Seq::<u8>::empty());
        assert(vpart == value.subrange(0, value.len() - 1));
        lemma_scan_body_partial::<T, E>(t.code(), value, 0);
    }
}

/// What a labeled writer sends for one TLV at the start of a write sequence is
/// read back by a fresh labeled reader, whatever bytes without a sync word came first;
/// the reader stops at the end of that TLV, so what follows it (`rest`) is left for
/// the next read.
pub proof fn lemma_labeled_roundtrip<T: TlvType, E>(garbage: Seq<u8>, t: T, value: Seq<u8>, rest: Seq<u8>)
    requires
        !contains_sync(garbage),
        value.len() <= MAX_VALUE_SIZE,
    ensures
        scan_run::<T, E>(scan_start(), garbage + sync_prefix(true) + tlv_bytes(t.code(), value)).1
            == Some(Ok::<Option<(u16, Seq<u8>)>, ReadError<E>>(Some((t.code(), value)))),
        scan_run::<T, E>(scan_start(), garbage + sync_prefix(true) + tlv_bytes(t.code(), value) + rest)
            == scan_run::<T, E>(scan_start(), garbage + sync_prefix(true) + tlv_bytes(t.code(), value)),
        scan_used::<T, E>(scan_start(), garbage + sync_prefix(true) + tlv_bytes(t.code(), value) + rest)
            == (garbage + sync_prefix(true) + tlv_bytes(t.code(), value)).len(),
{
    let empty = Seq::<u8>::empty();
    assert(empty + garbage =~= garbage);
    assert(empty.subrange(0, 0) =~= sync_word().take(0));
    lemma_scan_garbage::<T, E>(empty, 0, 0, garbage);
    let after = scan_run::<T, E>(scan_start(), garbage).0;
    lemma_scan_run_append::<T, E>(scan_start(), garbage, sync_word() + tlv_bytes(t.code(), value));
    lemma_scan_run_append::<T, E>(after, sync_word(), tlv_bytes(t.code(), value));
    match after {
        ScanModel::Scanning { matched, discarded } => {
            lemma_scan_sync::<T, E>(matched, discarded);
        },
        _ => {},
    }
    lemma_scan_tlv::<T, E>(t, value);
    assert(garbage + sync_prefix(true) + tlv_bytes(t.code(), value) =~= garbage + (sync_word() + tlv_bytes(t.code(), value)));
    lemma_scan_run_append::<T, E>(scan_start(), garbage + sync_prefix(true) + tlv_bytes(t.code(), value), rest);
    let x = garbage + sync_prefix(true) + tlv_bytes(t.code(), value);
    lemma_scan_used_append::<T, E>(scan_start(), x, rest);
    lemma_scan_tlv_partial::<T, E>(t, value);
    assert(x.drop_last() =~= garbage + (sync_word() + tlv_bytes(t.code(), value).drop_last()));
    lemma_scan_run_append::<T, E>(scan_start(), garbage, sync_word() + tlv_bytes(t.code(), value).drop_last());
    lemma_scan_run_append::<T, E>(after, sync_word(), tlv_bytes(t.code(), value).drop_last());
    lemma_scan_used_exact::<T, E>(scan_start(), x);
}

/// A TLV encoded in memory, followed by any bytes, decodes to its type and value
/// and leaves those bytes.
pub proof fn lemma_slice_roundtrip<T: TlvType>(t: T, value: Seq<u8>, rest: Seq<u8>)
    requires
        value.len() <= MAX_VALUE_SIZE,
    ensures
        ({
            let d = tlv_bytes(t.code(), value) + rest;
            let h = d.take(HEADER_SIZE as int);
            &&& d.len() >= HEADER_SIZE
            &&& T::from_code(header_code(h)) == Some(t)
            &&& header_length(h) == value.len()
            &&& d.skip(HEADER_SIZE as int).take(value.len() as int) == value
            &&& d.skip(HEADER_SIZE as int).skip(value.len() as int) == rest
        }),
{
    let d = tlv_bytes(t.code(), value) + rest;
    let hb = header_bytes(t.code(), value.len() as u32);
    lemma_header_roundtrip(t.code(), value.len() as u32);
    T::lemma_code_roundtrip(t);
    assert(d.take(HEADER_SIZE as int) =~= hb);
    assert(d.skip(HEADER_SIZE as int).take(value.len() as int) =~= value);
    assert(d.skip(HEADER_SIZE as int).skip(value.len() as int) =~= rest);
}

} // verus!
