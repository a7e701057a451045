//! The management chip's message routing: it answers pings from the host,
//! passes host payloads to the UI and NET chips, and passes their traffic back.
use vstd::prelude::*;

use crate::port::CtlPort;
use crate::route::{completed, forward_raw, poll_step, polled, sent_raw, sent_tlv};
use crate::ctl::expected_hello_of;
use crate::tlv::{
    be32, from_be32, sync_word, tlv_bytes, value_as_slice, value_bytes, tlv_vec_as_slice, CtlToMgmt, LabeledReader, LabeledWriter, MgmtToCtl,
    MgmtToNet, MgmtToUi, NetToMgmt, Tlv, TlvType, WriteTlv,
};

verus! {

/// Where the management chip sends a host message, and as what.
pub enum MgmtRoute {
    /// Answer the host with a TLV of this type carrying the same value.
    ToCtl(MgmtToCtl),
    /// Pass the value to the UI chip as it is.
    RawToUi,
    /// Pass the value to the NET chip as it is.
    RawToNet,
    /// Send the value to the UI chip as a TLV of this type.
    ToUi(MgmtToUi),
    /// Send the value to the NET chip as a TLV of this type.
    ToNet(MgmtToNet),
}

/// The route of a host message.
pub open spec fn route_ctl(t: CtlToMgmt) -> MgmtRoute {
    match t {
        CtlToMgmt::Ping => MgmtRoute::ToCtl(MgmtToCtl::Pong),
        CtlToMgmt::ToUi => MgmtRoute::RawToUi,
        CtlToMgmt::ToNet => MgmtRoute::RawToNet,
        CtlToMgmt::UiFirstCircularPing => MgmtRoute::ToUi(MgmtToUi::CircularPing),
        CtlToMgmt::NetFirstCircularPing => MgmtRoute::ToNet(MgmtToNet::CircularPing),
    }
}

/// The management chip's application: guarded links to the host, UI and NET chips.
pub struct App<W, R> {
    to_ctl: LabeledWriter<W>,
    to_ui: LabeledWriter<W>,
    to_net: LabeledWriter<W>,
    from_ctl: LabeledReader<R>,
    from_ui: LabeledReader<R>,
    from_net: LabeledReader<R>,
}

impl<W, R> App<W, R> {
    /// The link to the host.
    pub closed spec fn to_ctl(&self) -> LabeledWriter<W> {
        self.to_ctl
    }

    /// The link to the UI chip.
    pub closed spec fn to_ui(&self) -> LabeledWriter<W> {
        self.to_ui
    }

    /// The link to the NET chip.
    pub closed spec fn to_net(&self) -> LabeledWriter<W> {
        self.to_net
    }

    /// The link from the host.
    pub closed spec fn from_ctl(&self) -> LabeledReader<R> {
        self.from_ctl
    }

    /// The link from the UI chip.
    pub closed spec fn from_ui(&self) -> LabeledReader<R> {
        self.from_ui
    }

    /// The link from the NET chip.
    pub closed spec fn from_net(&self) -> LabeledReader<R> {
        self.from_net
    }

    /// The readers are in a consistent state.
    pub closed spec fn wf(&self) -> bool {
        self.from_ctl.wf() && self.from_ui.wf() && self.from_net.wf()
    }

    /// An application over the six link halves; every writer starts a new sequence.
    pub fn new(to_ctl: W, from_ctl: R, to_ui: W, from_ui: R, to_net: W, from_net: R) -> (a: Self)
        ensures
            a.wf(),
            a.to_ctl().inner() == to_ctl && a.to_ctl().pending_sync(),
            a.to_ui().inner() == to_ui && a.to_ui().pending_sync(),
            a.to_net().inner() == to_net && a.to_net().pending_sync(),
    {
        App {
            to_ctl: LabeledWriter::new("mgmt->ctl", to_ctl),
            to_ui: LabeledWriter::new("mgmt->ui", to_ui),
            to_net: LabeledWriter::new("mgmt->net", to_net),
            from_ctl: LabeledReader::new("ctl->mgmt", from_ctl),
            from_ui: LabeledReader::new("ui->mgmt", from_ui),
            from_net: LabeledReader::new("net->mgmt", from_net),
        }
    }
}

impl<W: CtlPort, R> App<W, R> {
    /// Whether the writer that a route of a host message uses works.
    pub open spec fn route_healthy(&self, route: MgmtRoute) -> bool {
        match route {
            MgmtRoute::ToCtl(_) => self.to_ctl().inner().healthy(),
            MgmtRoute::RawToUi => self.to_ui().inner().healthy(),
            MgmtRoute::RawToNet => self.to_net().inner().healthy(),
            MgmtRoute::ToUi(_) => self.to_ui().inner().healthy(),
            MgmtRoute::ToNet(_) => self.to_net().inner().healthy(),
        }
    }

    /// Whether all three writers work.
    pub open spec fn writers_healthy(&self) -> bool {
        self.to_ctl().inner().healthy() && self.to_ui().inner().healthy() && self.to_net().inner().healthy()
    }
}

impl<W: CtlPort, R: CtlPort> App<W, R> {
    /// Handle a message from the host: answer a ping with a pong carrying the same
    /// value, pass payloads to the UI or NET chip, start circular pings.
    pub fn handle_ctl(&mut self, tlv: &Tlv<CtlToMgmt>) -> (r: Result<(), W::Error>)
        ensures
            final(self).wf() == old(self).wf(),
            final(self).from_ctl() == old(self).from_ctl(),
            final(self).from_ui() == old(self).from_ui(),
            final(self).from_net() == old(self).from_net(),
            old(self).route_healthy(route_ctl(tlv.tlv_type)) ==> r is Ok,
            r is Ok ==> ({
                let v = value_bytes(tlv.value);
                match route_ctl(tlv.tlv_type) {
                    MgmtRoute::ToCtl(t) => sent_tlv(old(self).to_ctl(), final(self).to_ctl(), t.code(), v)
                        && final(self).to_ui() == old(self).to_ui() && final(self).to_net() == old(self).to_net(),
                    MgmtRoute::RawToUi => sent_raw(old(self).to_ui(), final(self).to_ui(), v)
                        && final(self).to_ctl() == old(self).to_ctl() && final(self).to_net() == old(self).to_net(),
                    MgmtRoute::RawToNet => sent_raw(old(self).to_net(), final(self).to_net(), v)
                        && final(self).to_ctl() == old(self).to_ctl() && final(self).to_ui() == old(self).to_ui(),
                    MgmtRoute::ToUi(t) => sent_tlv(old(self).to_ui(), final(self).to_ui(), t.code(), v)
                        && final(self).to_ctl() == old(self).to_ctl() && final(self).to_net() == old(self).to_net(),
                    MgmtRoute::ToNet(t) => sent_tlv(old(self).to_net(), final(self).to_net(), t.code(), v)
                        && final(self).to_ctl() == old(self).to_ctl() && final(self).to_ui() == old(self).to_ui(),
                }
            }),
    {
        let value = value_as_slice(&tlv.value);
        match tlv.tlv_type {
            CtlToMgmt::Ping => self.to_ctl.write_tlv(MgmtToCtl::Pong, value),
            CtlToMgmt::ToUi => forward_raw(&mut self.to_ui, value),
            CtlToMgmt::ToNet => forward_raw(&mut self.to_net, value),
            CtlToMgmt::UiFirstCircularPing => self.to_ui.write_tlv(MgmtToUi::CircularPing, value),
            CtlToMgmt::NetFirstCircularPing => self.to_net.write_tlv(MgmtToNet::CircularPing, value),
        }
    }

    /// Read from the host link once; when that completes a TLV, handle it and return it.
    pub fn poll_ctl(&mut self) -> (r: Result<Option<Tlv<CtlToMgmt>>, W::Error>)
        requires
            old(self).wf(),
        ensures
            final(self).wf(),
            old(self).from_ctl().inner().healthy() ==> polled::<CtlToMgmt, R>(old(self).from_ctl(), final(self).from_ctl()),
            old(self).from_ctl().inner().healthy() && completed(poll_step::<CtlToMgmt, R>(old(self).from_ctl()).1) is None
                ==> r matches Ok(None),
            old(self).from_ctl().inner().healthy() && old(self).writers_healthy() && completed(
                poll_step::<CtlToMgmt, R>(old(self).from_ctl()).1,
            ) is Some ==> (r matches Ok(Some(tlv)) && completed(poll_step::<CtlToMgmt, R>(old(self).from_ctl()).1) == Some(
                (tlv.tlv_type.code(), value_bytes(tlv.value)),
            )),
            r matches Ok(None) ==> final(self).to_ctl() == old(self).to_ctl() && final(self).to_ui() == old(
                self,
            ).to_ui() && final(self).to_net() == old(self).to_net(),
            r matches Ok(Some(tlv)) ==> ({
                let v = value_bytes(tlv.value);
                match route_ctl(tlv.tlv_type) {
                    MgmtRoute::ToCtl(t) => sent_tlv(old(self).to_ctl(), final(self).to_ctl(), t.code(), v)
                        && final(self).to_ui() == old(self).to_ui() && final(self).to_net() == old(self).to_net(),
                    MgmtRoute::RawToUi => sent_raw(old(self).to_ui(), final(self).to_ui(), v)
                        && final(self).to_ctl() == old(self).to_ctl() && final(self).to_net() == old(self).to_net(),
                    MgmtRoute::RawToNet => sent_raw(old(self).to_net(), final(self).to_net(), v)
                        && final(self).to_ctl() == old(self).to_ctl() && final(self).to_ui() == old(self).to_ui(),
                    MgmtRoute::ToUi(t) => sent_tlv(old(self).to_ui(), final(self).to_ui(), t.code(), v)
                        && final(self).to_ctl() == old(self).to_ctl() && final(self).to_net() == old(self).to_net(),
                    MgmtRoute::ToNet(t) => sent_tlv(old(self).to_net(), final(self).to_net(), t.code(), v)
                        && final(self).to_ctl() == old(self).to_ctl() && final(self).to_ui() == old(self).to_ui(),
                }
            }),
    {
        match self.from_ctl.poll::<CtlToMgmt>() {
            Some(Ok(Some(tlv))) => {
                self.handle_ctl(&tlv)?;
                Ok(Some(tlv))
            },
            _ => Ok(None),
        }
    }

    /// Read up to 32 bytes from the UI link once; pass what arrived to the host.
    /// Returns the number of bytes passed on.
    pub fn poll_ui(&mut self) -> (r: Result<usize, W::Error>)
        requires
            old(self).wf(),
        ensures
            final(self).wf(),
            final(self).from_ctl() == old(self).from_ctl(),
            final(self).from_net() == old(self).from_net(),
            r matches Ok(n) ==> (n > 0 ==> {
                let inc = old(self).from_ui().inner().incoming();
                &&& n <= 32 && n <= inc.len()
                &&& final(self).from_ui().inner().incoming() == inc.skip(n as int)
                &&& sent_tlv(old(self).to_ctl(), final(self).to_ctl(), MgmtToCtl::FromUi.code(), inc.take(n as int))
            }),
            old(self).from_ui().inner().healthy() && old(self).to_ctl().inner().healthy() ==> (r matches Ok(n) && (n
                == 0 <==> old(self).from_ui().inner().incoming().len() == 0)),
            final(self).to_ui() == old(self).to_ui(),
            final(self).to_net() == old(self).to_net(),
            r matches Ok(0) ==> final(self).to_ctl() == old(self).to_ctl(),
    {
        let mut buffer: [u8; 32] = [0u8; 32];
        let ghost inc = self.from_ui.inner().incoming();
        let n = match self.from_ui.reader_mut().read(&mut buffer) {
            Ok(n) => n,
            Err(_) => {
                return Ok(0);
            },
        };
        if n == 0 {
            return Ok(0);
        }
        let data = &buffer[0..n];
        assert(data@ =~= inc.take(n as int));
        self.handle_ui(data)?;
        Ok(n)
    }

    /// Read from the NET link once; when that completes a TLV, handle it and return it.
    pub fn poll_net(&mut self) -> (r: Result<Option<Tlv<NetToMgmt>>, W::Error>)
        requires
            old(self).wf(),
        ensures
            final(self).wf(),
            old(self).from_net().inner().healthy() ==> polled::<NetToMgmt, R>(old(self).from_net(), final(self).from_net()),
            old(self).from_net().inner().healthy() && completed(poll_step::<NetToMgmt, R>(old(self).from_net()).1) is None
                ==> r matches Ok(None),
            old(self).from_net().inner().healthy() && old(self).writers_healthy() && completed(
                poll_step::<NetToMgmt, R>(old(self).from_net()).1,
            ) is Some ==> (r matches Ok(Some(tlv)) && completed(poll_step::<NetToMgmt, R>(old(self).from_net()).1) == Some(
                (tlv.tlv_type.code(), value_bytes(tlv.value)),
            )),
            r matches Ok(Some(tlv)) ==> ({
                let v = value_bytes(tlv.value);
                match tlv.tlv_type {
                    NetToMgmt::Pong => sent_tlv(
                        old(self).to_ctl(),
                        final(self).to_ctl(),
                        MgmtToCtl::FromNet.code(),
                        tlv_bytes(NetToMgmt::Pong.code(), v),
                    ),
                    NetToMgmt::CircularPing => sent_tlv(
                        old(self).to_ctl(),
                        final(self).to_ctl(),
                        MgmtToCtl::UiFirstCircularPing.code(),
                        v,
                    ),
                }
            }),
            final(self).to_ui() == old(self).to_ui(),
            final(self).to_net() == old(self).to_net(),
            r matches Ok(None) ==> final(self).to_ctl() == old(self).to_ctl(),
    {
        match self.from_net.poll::<NetToMgmt>() {
            Some(Ok(Some(tlv))) => {
                self.handle_net(&tlv)?;
                Ok(Some(tlv))
            },
            _ => Ok(None),
        }
    }

    /// Give back the link halves: the writers to the host, UI and NET chips, then the
    /// readers from them.
    pub fn into_inner(self) -> (r: (W, W, W, R, R, R))
        ensures
            r.0 == self.to_ctl().inner() && r.1 == self.to_ui().inner() && r.2 == self.to_net().inner(),
    {
        (
            self.to_ctl.into_inner(),
            self.to_ui.into_inner(),
            self.to_net.into_inner(),
            self.from_ctl.into_inner(),
            self.from_ui.into_inner(),
            self.from_net.into_inner(),
        )
    }

    /// Handle raw bytes from the UI chip: pass them to the host as `FromUi`.
    pub fn handle_ui(&mut self, data: &[u8]) -> (r: Result<(), W::Error>)
        ensures
            final(self).wf() == old(self).wf(),
            final(self).from_ctl() == old(self).from_ctl(),
            final(self).from_ui() == old(self).from_ui(),
            final(self).from_net() == old(self).from_net(),
            old(self).to_ctl().inner().healthy() ==> r is Ok,
            r is Ok ==> sent_tlv(old(self).to_ctl(), final(self).to_ctl(), MgmtToCtl::FromUi.code(), data@),
            final(self).to_ui() == old(self).to_ui(),
            final(self).to_net() == old(self).to_net(),
    {
        self.to_ctl.write_tlv(MgmtToCtl::FromUi, data)
    }

    /// Handle a message from the NET chip: a pong goes to the host encoded whole inside
    /// `FromNet`; a circular ping comes back to the host as `UiFirstCircularPing`.
    pub fn handle_net(&mut self, tlv: &Tlv<NetToMgmt>) -> (r: Result<(), W::Error>)
        ensures
            final(self).wf() == old(self).wf(),
            final(self).from_ctl() == old(self).from_ctl(),
            final(self).from_ui() == old(self).from_ui(),
            final(self).from_net() == old(self).from_net(),
            old(self).to_ctl().inner().healthy() ==> r is Ok,
            final(self).to_ui() == old(self).to_ui(),
            final(self).to_net() == old(self).to_net(),
            r is Ok ==> ({
                let v = value_bytes(tlv.value);
                match tlv.tlv_type {
                    NetToMgmt::Pong => sent_tlv(
                        old(self).to_ctl(),
                        final(self).to_ctl(),
                        MgmtToCtl::FromNet.code(),
                        tlv_bytes(NetToMgmt::Pong.code(), v),
                    ),
                    NetToMgmt::CircularPing => sent_tlv(
                        old(self).to_ctl(),
                        final(self).to_ctl(),
                        MgmtToCtl::UiFirstCircularPing.code(),
                        v,
                    ),
                }
            }),
    {
        let value = value_as_slice(&tlv.value);
        match tlv.tlv_type {
            NetToMgmt::Pong => {
                let encoded = Tlv::encode(NetToMgmt::Pong, value);
                self.to_ctl.write_tlv(MgmtToCtl::FromNet, tlv_vec_as_slice(&encoded))
            },
            NetToMgmt::CircularPing => self.to_ctl.write_tlv(MgmtToCtl::UiFirstCircularPing, value),
        }
    }
}

/// The answer to a hello challenge: each of the first four value bytes XOR the
/// matching byte of `LINK`; bytes missing from the value leave zeros.
pub open spec fn hello_answer(v: Seq<u8>) -> Seq<u8> {
    Seq::new(4, |i: int| if i < v.len() { v[i] ^ sync_word()[i] } else { 0u8 })
}

/// Answer a hello challenge.
pub fn hello_response(value: &[u8]) -> (r: [u8; 4])
    ensures
        r@ == hello_answer(value@),
{
    let magic: [u8; 4] = [0x4C, 0x49, 0x4E, 0x4B];
    let mut response: [u8; 4] = [0u8; 4];
    let mut i: usize = 0;
    while i < 4 && i < value.len()
        invariant
            i <= 4,
            i <= value@.len(),
            magic@ == sync_word(),
            response@.len() == 4,
            forall|j: int| 0 <= j < i ==> response@[j] == value@[j] ^ sync_word()[j],
            forall|j: int| i <= j < 4 ==> response@[j] == 0u8,
        decreases 4 - i,
    {
        response[i] = value[i] ^ magic[i];
        i = i + 1;
    }
    assert(response@ =~= hello_answer(value@));
    response
}

/// The byte at `i`, or zero past the end.
pub open spec fn byte_or_zero(v: Seq<u8>, i: int) -> u8 {
    if i < v.len() {
        v[i]
    } else {
        0
    }
}

/// The baud rate carried by a value: its first four bytes, big-endian, with missing
/// bytes counted as zero.
pub open spec fn baud_of(v: Seq<u8>) -> u32 {
    from_be32(byte_or_zero(v, 0), byte_or_zero(v, 1), byte_or_zero(v, 2), byte_or_zero(v, 3))
}

/// The byte at `i`, or zero past the end.
fn get_or_zero(v: &[u8], i: usize) -> (r: u8)
    ensures
        r == byte_or_zero(v@, i as int),
{
    if i < v.len() {
        v[i]
    } else {
        0
    }
}

/// Parse a baud rate request: four big-endian bytes, missing ones zero.
pub fn parse_baud_rate(value: &[u8]) -> (r: u32)
    ensures
        r == baud_of(value@),
{
    let b0 = get_or_zero(value, 0);
    let b1 = get_or_zero(value, 1);
    let b2 = get_or_zero(value, 2);
    let b3 = get_or_zero(value, 3);
    ((b0 as u32) << 24u32) | ((b1 as u32) << 16u32) | ((b2 as u32) << 8u32) | (b3 as u32)
}

/// A device answers a four-byte hello challenge with exactly what the host expects.
pub proof fn lemma_hello_handshake(challenge: Seq<u8>)
    requires
        challenge.len() == 4,
    ensures
        hello_answer(challenge) == expected_hello_of(challenge),
{
    assert(hello_answer(challenge) =~= expected_hello_of(challenge));
}

/// Answering an answer gives the challenge back: XOR with `LINK` undoes itself.
pub proof fn lemma_hello_involution(challenge: Seq<u8>)
    requires
        challenge.len() == 4,
    ensures
        hello_answer(hello_answer(challenge)) == challenge,
{
    assert forall|i: int| 0 <= i < 4 implies hello_answer(hello_answer(challenge))[i] == challenge[i] by {
        let c = challenge[i];
        let m = sync_word()[i];
        assert((c ^ m) ^ m == c) by (bit_vector);
    }
    assert(hello_answer(hello_answer(challenge)) =~= challenge);
}

/// A baud rate that the host sends as four big-endian bytes parses back to itself.
pub proof fn lemma_baud_roundtrip(baud: u32)
    ensures
        baud_of(be32(baud)) == baud,
{
    let b = be32(baud);
    assert(from_be32((baud >> 24u32) as u8, (baud >> 16u32) as u8, (baud >> 8u32) as u8, baud as u8) == baud)
        by (bit_vector);
}


/// Host commands that the management firmware of the link board handles (their
/// wire codes belong to the protocol definition, not to this crate).
#[derive(Debug, Clone, Copy, PartialEq, Eq, Structural)]
pub enum LinkCtlToMgmt {
    Ping,
    ToUi,
    ToNet,
    Hello,
    SetPin,
    SetNetBaudRate,
    SetCtlBaudRate,
    GetStackInfo,
    RepaintStack,
}

/// Answers of the management firmware to the host.
#[derive(Debug, Clone, Copy, PartialEq, Eq, Structural)]
pub enum LinkMgmtToCtl {
    Pong,
    Hello,
    Ack,
    StackInfo,
}

/// A UART baud rate change that the caller completes on the receive side.
#[derive(Debug, Clone, Copy, PartialEq, Eq, Structural)]
pub enum BaudRateChange {
    /// No change.
    Unchanged,
    /// The host UART (transmit side already changed).
    Ctl(u32),
    /// The NET UART (transmit side already changed).
    Net(u32),
}

/// What the management firmware does for one host command, in order.
#[derive(Debug)]
pub enum MgmtAction {
    /// Answer the host with a TLV of this type and value.
    Reply(LinkMgmtToCtl, Vec<u8>),
    /// Write the bytes to the UI UART as they are, then flush.
    ForwardUi(Vec<u8>),
    /// Write the bytes to the NET UART as they are, then flush.
    ForwardNet(Vec<u8>),
    /// Set the pin with this id to the level with this id (either decodes to nothing:
    /// no pin changes), then answer `Ack`.
    SetPin { pin: u8, level: u8 },
    /// Flush the NET UART, set its transmit baud rate, then answer `Ack`.
    SetNetBaud(u32),
    /// Answer `Ack`, flush the host UART, wait 5 ms, then set its transmit baud rate.
    SetCtlBaud(u32),
    /// Measure the stack and answer `StackInfo`.
    StackInfo,
    /// Repaint the stack, then answer `Ack`.
    RepaintStack,
}

/// A copy of a byte slice.
pub(crate) fn copy_bytes(v: &[u8]) -> (r: Vec<u8>)
    ensures
        r@ == v@,
{
    let mut out: Vec<u8> = Vec::new();
    let mut i: usize = 0;
    while i < v.len()
        invariant
            i <= v@.len(),
            out@ == v@.take(i as int),
        decreases v@.len() - i,
    {
        out.push(v[i]);
        assert(v@.take(i + 1) =~= v@.take(i as int).push(v@[i as int]));
        i = i + 1;
    }
    assert(v@.take(v@.len() as int) =~= v@);
    out
}

/// Decide what the management firmware does for a host command with value `value`:
/// a ping is answered with its value; UI and NET payloads are passed on as they are;
/// a hello is answered with its first four bytes XOR `LINK` (missing bytes zero);
/// a pin command names the pin and the level by the first two bytes (missing bytes
/// zero); a baud rate is the first four bytes, big-endian (missing bytes zero).
pub fn mgmt_ctl_action(t: LinkCtlToMgmt, value: &[u8]) -> (a: MgmtAction)
    ensures
        match t {
            LinkCtlToMgmt::Ping => a matches MgmtAction::Reply(k, v) && k == LinkMgmtToCtl::Pong && v@ == value@,
            LinkCtlToMgmt::ToUi => a matches MgmtAction::ForwardUi(v) && v@ == value@,
            LinkCtlToMgmt::ToNet => a matches MgmtAction::ForwardNet(v) && v@ == value@,
            LinkCtlToMgmt::Hello => a matches MgmtAction::Reply(k, v) && k == LinkMgmtToCtl::Hello && v@
                == hello_answer(value@),
            LinkCtlToMgmt::SetPin => a matches MgmtAction::SetPin { pin, level } && pin == byte_or_zero(value@, 0)
                && level == byte_or_zero(value@, 1),
            LinkCtlToMgmt::SetNetBaudRate => a matches MgmtAction::SetNetBaud(b) && b == baud_of(value@),
            LinkCtlToMgmt::SetCtlBaudRate => a matches MgmtAction::SetCtlBaud(b) && b == baud_of(value@),
            LinkCtlToMgmt::GetStackInfo => a is StackInfo,
            LinkCtlToMgmt::RepaintStack => a is RepaintStack,
        },
{
    match t {
        LinkCtlToMgmt::Ping => MgmtAction::Reply(LinkMgmtToCtl::Pong, copy_bytes(value)),
        LinkCtlToMgmt::ToUi => MgmtAction::ForwardUi(copy_bytes(value)),
        LinkCtlToMgmt::ToNet => MgmtAction::ForwardNet(copy_bytes(value)),
        LinkCtlToMgmt::Hello => {
            let answer = hello_response(value);
            MgmtAction::Reply(LinkMgmtToCtl::Hello, copy_bytes(&answer))
        },
        LinkCtlToMgmt::SetPin => MgmtAction::SetPin { pin: get_or_zero(value, 0), level: get_or_zero(value, 1) },
        LinkCtlToMgmt::SetNetBaudRate => MgmtAction::SetNetBaud(parse_baud_rate(value)),
        LinkCtlToMgmt::SetCtlBaudRate => MgmtAction::SetCtlBaud(parse_baud_rate(value)),
        LinkCtlToMgmt::GetStackInfo => MgmtAction::StackInfo,
        LinkCtlToMgmt::RepaintStack => MgmtAction::RepaintStack,
    }
}

/// The baud rate change that an action leaves for the caller to complete.
pub fn baud_rate_change(a: &MgmtAction) -> (r: BaudRateChange)
    ensures
        r == match a {
            MgmtAction::SetNetBaud(b) => BaudRateChange::Net(*b),
            MgmtAction::SetCtlBaud(b) => BaudRateChange::Ctl(*b),
            _ => BaudRateChange::Unchanged,
        },
{
    match a {
        MgmtAction::SetNetBaud(b) => BaudRateChange::Net(*b),
        MgmtAction::SetCtlBaud(b) => BaudRateChange::Ctl(*b),
        _ => BaudRateChange::Unchanged,
    }
}

} // verus!
