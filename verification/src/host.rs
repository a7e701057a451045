//! The host's side of the chip protocol: it sends pings into the chain of chips
//! through the management chip and checks the answers that come back.
//!
//! Sending a ping writes one TLV to the management chip; the answer is read by
//! polling (`poll_reply`) until a TLV is complete, and `check_reply` decides
//! whether it is the answer that the ping asked for.
use vstd::prelude::*;

use crate::flasher::eq_bytes;
use crate::mgmt::{route_ctl, MgmtRoute};
use crate::port::CtlPort;
use crate::route::sent_tlv;
use crate::tlv::{
    contains_sync, header_code, header_length, lemma_labeled_roundtrip, lemma_slice_roundtrip, outcome_of, scan_run,
    scan_start, sync_prefix, tlv_bytes, tlv_vec_as_slice, value_as_slice,
    value_bytes, CtlToMgmt, LabeledReader, LabeledWriter, MgmtToCtl, MgmtToNet, MgmtToUi, NetToMgmt, ReadError,
    NetToUi, ReadEvent, ReadTlv, Tlv, TlvType, UiToMgmt, UiToNet, WriteTlv, HEADER_SIZE, MAX_VALUE_SIZE,
};

verus! {

/// The pings that the host sends.
#[derive(Debug, Clone, Copy, PartialEq, Eq, Structural)]
pub enum PingKind {
    /// Ping the management chip.
    Mgmt,
    /// Ping the UI chip through the management chip.
    Ui,
    /// Ping the NET chip through the management chip.
    Net,
    /// A ping that goes to the UI chip, then the NET chip, then back.
    UiFirstCircular,
    /// A ping that goes to the NET chip, then the UI chip, then back.
    NetFirstCircular,
}

/// Why an answer to a ping was refused.
#[derive(Debug, Clone, Copy, PartialEq, Eq, Structural)]
pub enum PingError {
    /// The answer, or the TLV inside it, has another type than the ping asks for.
    UnexpectedResponse,
    /// The answer does not hold a complete TLV where one is expected.
    Malformed,
    /// The answer carries other data than the ping.
    DataMismatch,
}

/// The TLV (type code and value) that the host sends to the management chip for a ping.
pub open spec fn request_of(kind: PingKind, data: Seq<u8>) -> (u16, Seq<u8>) {
    match kind {
        PingKind::Mgmt => (CtlToMgmt::Ping.code(), data),
        PingKind::Ui => (CtlToMgmt::ToUi.code(), tlv_bytes(MgmtToUi::Ping.code(), data)),
        PingKind::Net => (CtlToMgmt::ToNet.code(), tlv_bytes(MgmtToNet::Ping.code(), data)),
        PingKind::UiFirstCircular => (CtlToMgmt::ToUi.code(), tlv_bytes(MgmtToUi::CircularPing.code(), data)),
        PingKind::NetFirstCircular => (CtlToMgmt::NetFirstCircularPing.code(), data),
    }
}

/// The TLV at the front of `d`, when reading one from a slice finds it.
pub open spec fn slice_tlv<T: TlvType>(d: Seq<u8>) -> Option<(u16, Seq<u8>)> {
    let h = d.take(HEADER_SIZE as int);
    let rest = d.skip(HEADER_SIZE as int);
    let len = header_length(h) as int;
    if d.len() >= HEADER_SIZE && T::from_code(header_code(h)) is Some && len <= rest.len() && len
        <= MAX_VALUE_SIZE {
        Some((header_code(h), rest.take(len)))
    } else {
        None
    }
}

/// The TLV that a labeled reader finds in `d` (after skipping to the sync word), if
/// it finds a complete one.
pub open spec fn labeled_tlv<T: TlvType>(d: Seq<u8>) -> Option<(u16, Seq<u8>)> {
    match scan_run::<T, ()>(scan_start(), d).1 {
        Some(Ok(Some(x))) => Some(x),
        _ => None,
    }
}

/// The verdict on a TLV found inside an answer: it must exist, have type `code` and
/// carry `data`.
pub open spec fn inner_outcome(found: Option<(u16, Seq<u8>)>, code: u16, data: Seq<u8>) -> Result<(), PingError> {
    match found {
        None => Err(PingError::Malformed),
        Some((c, w)) => if c != code {
            Err(PingError::UnexpectedResponse)
        } else if w != data {
            Err(PingError::DataMismatch)
        } else {
            Ok(())
        },
    }
}

/// The verdict on an answer of type `t` and value `v` to a ping of `kind` with `data`.
pub open spec fn ping_outcome(kind: PingKind, data: Seq<u8>, t: MgmtToCtl, v: Seq<u8>) -> Result<(), PingError> {
    match kind {
        PingKind::Mgmt => if t != MgmtToCtl::Pong {
            Err(PingError::UnexpectedResponse)
        } else {
            inner_outcome(Some((MgmtToCtl::Pong.code(), v)), MgmtToCtl::Pong.code(), data)
        },
        PingKind::Ui => if t != MgmtToCtl::FromUi {
            Err(PingError::UnexpectedResponse)
        } else {
            inner_outcome(labeled_tlv::<UiToMgmt>(v), UiToMgmt::Pong.code(), data)
        },
        PingKind::Net => if t != MgmtToCtl::FromNet {
            Err(PingError::UnexpectedResponse)
        } else {
            inner_outcome(slice_tlv::<NetToMgmt>(v), NetToMgmt::Pong.code(), data)
        },
        PingKind::UiFirstCircular => if t != MgmtToCtl::UiFirstCircularPing {
            Err(PingError::UnexpectedResponse)
        } else {
            inner_outcome(Some((MgmtToCtl::UiFirstCircularPing.code(), v)), MgmtToCtl::UiFirstCircularPing.code(), data)
        },
        PingKind::NetFirstCircular => if t != MgmtToCtl::FromUi {
            Err(PingError::UnexpectedResponse)
        } else {
            inner_outcome(labeled_tlv::<UiToMgmt>(v), UiToMgmt::CircularPing.code(), data)
        },
    }
}

/// Run a labeled reader over the bytes of `d` and return the TLV it completes, if any.
fn scan_slice<T: TlvType>(d: &[u8]) -> (r: Option<Tlv<T>>)
    ensures
        match r {
            Some(tlv) => labeled_tlv::<T>(d@) == Some((tlv.tlv_type.code(), value_bytes(tlv.value))),
            None => labeled_tlv::<T>(d@) is None,
        },
{
    let mut reader: LabeledReader<()> = LabeledReader::new("ui->ctl", ());
    let mut i: usize = 0;
    assert(d@.skip(0) =~= d@);
    while i < d.len()
        invariant
            i <= d@.len(),
            reader.wf(),
            scan_run::<T, ()>(scan_start(), d@) == scan_run::<T, ()>(reader.model(), d@.skip(i as int)),
        decreases d@.len() - i,
    {
        let ghost m = reader.model();
        let ghost s = d@.skip(i as int);
        assert(s[0] == d@[i as int]);
        assert(s.drop_first() =~= d@.skip(i + 1));
        let out = reader.feed::<T, ()>(ReadEvent::Byte(d[i]));
        match out {
            Some(Ok(Some(tlv))) => {
                return Some(tlv);
            },
            Some(_) => {
                return None;
            },
            None => {},
        }
        i = i + 1;
    }
    assert(d@.skip(i as int) =~= Seq::<u8>::empty());
    None
}

/// The verdict on a TLV found inside an answer.
fn check_inner<T: TlvType>(found: Option<Tlv<T>>, expected: T, data: &[u8]) -> (r: Result<(), PingError>)
    ensures
        r == inner_outcome(
            match found {
                Some(tlv) => Some((tlv.tlv_type.code(), value_bytes(tlv.value))),
                None => None,
            },
            expected.code(),
            data@,
        ),
{
    match found {
        None => Err(PingError::Malformed),
        Some(tlv) => {
            let c = tlv.tlv_type.into_u16();
            let e = expected.into_u16();
            if c != e {
                Err(PingError::UnexpectedResponse)
            } else if !eq_bytes(value_as_slice(&tlv.value), data) {
                Err(PingError::DataMismatch)
            } else {
                Ok(())
            }
        },
    }
}

/// Decide whether `reply` is the answer to a ping of `kind` carrying `data`.
pub fn check_reply(kind: PingKind, data: &[u8], reply: &Tlv<MgmtToCtl>) -> (r: Result<(), PingError>)
    ensures
        r == ping_outcome(kind, data@, reply.tlv_type, value_bytes(reply.value)),
{
    let v = value_as_slice(&reply.value);
    match kind {
        PingKind::Mgmt => {
            if reply.tlv_type != MgmtToCtl::Pong {
                return Err(PingError::UnexpectedResponse);
            }
            if !eq_bytes(v, data) {
                return Err(PingError::DataMismatch);
            }
            Ok(())
        },
        PingKind::Ui => {
            if reply.tlv_type != MgmtToCtl::FromUi {
                return Err(PingError::UnexpectedResponse);
            }
            check_inner(scan_slice::<UiToMgmt>(v), UiToMgmt::Pong, data)
        },
        PingKind::Net => {
            if reply.tlv_type != MgmtToCtl::FromNet {
                return Err(PingError::UnexpectedResponse);
            }
            let mut rest: &[u8] = v;
            let found: Option<Tlv<NetToMgmt>> = match rest.read_tlv() {
                Ok(Some(tlv)) => Some(tlv),
                _ => None,
            };
            check_inner(found, NetToMgmt::Pong, data)
        },
        PingKind::UiFirstCircular => {
            if reply.tlv_type != MgmtToCtl::UiFirstCircularPing {
                return Err(PingError::UnexpectedResponse);
            }
            if !eq_bytes(v, data) {
                return Err(PingError::DataMismatch);
            }
            Ok(())
        },
        PingKind::NetFirstCircular => {
            if reply.tlv_type != MgmtToCtl::FromUi {
                return Err(PingError::UnexpectedResponse);
            }
            check_inner(scan_slice::<UiToMgmt>(v), UiToMgmt::CircularPing, data)
        },
    }
}


/// The host's application: a guarded link to the management chip.
pub struct App<R, W> {
    to_mgmt: LabeledWriter<W>,
    from_mgmt: LabeledReader<R>,
}

impl<R, W> App<R, W> {
    /// The link to the management chip.
    pub closed spec fn to_mgmt(&self) -> LabeledWriter<W> {
        self.to_mgmt
    }

    /// The link from the management chip.
    pub closed spec fn from_mgmt(&self) -> LabeledReader<R> {
        self.from_mgmt
    }

    /// The reader is in a consistent state.
    pub closed spec fn wf(&self) -> bool {
        self.from_mgmt.wf()
    }

    /// An application over the two halves of the link to the management chip.
    pub fn new(to_mgmt: W, from_mgmt: R) -> (a: Self)
        ensures
            a.wf(),
            a.to_mgmt().inner() == to_mgmt && a.to_mgmt().pending_sync(),
            a.from_mgmt().inner() == from_mgmt && a.from_mgmt().model() == scan_start(),
    {
        App { to_mgmt: LabeledWriter::new("ctl->mgmt", to_mgmt), from_mgmt: LabeledReader::new("mgmt->ctl", from_mgmt) }
    }

    /// Give back the link halves: the writer to the management chip, then the reader.
    pub fn into_inner(self) -> (r: (W, R))
        ensures
            r.0 == self.to_mgmt().inner() && r.1 == self.from_mgmt().inner(),
    {
        (self.to_mgmt.into_inner(), self.from_mgmt.into_inner())
    }
}

impl<R, W: CtlPort> App<R, W> {
    /// Send the request of a ping: one TLV to the management chip.
    fn send_request(&mut self, kind: PingKind, data: &[u8]) -> (r: Result<(), W::Error>)
        requires
            data@.len() <= MAX_VALUE_SIZE || kind == PingKind::Mgmt || kind == PingKind::NetFirstCircular,
        ensures
            final(self).from_mgmt() == old(self).from_mgmt(),
            final(self).wf() == old(self).wf(),
            old(self).to_mgmt().inner().healthy() ==> r is Ok && final(self).to_mgmt().inner().healthy(),
            r is Ok ==> sent_tlv(old(self).to_mgmt(), final(self).to_mgmt(), request_of(kind, data@).0, request_of(kind, data@).1),
    {
        match kind {
            PingKind::Mgmt => self.to_mgmt.write_tlv(CtlToMgmt::Ping, data),
            PingKind::Ui => {
                let payload = Tlv::encode(MgmtToUi::Ping, data);
                self.to_mgmt.write_tlv(CtlToMgmt::ToUi, tlv_vec_as_slice(&payload))
            },
            PingKind::Net => {
                let payload = Tlv::encode(MgmtToNet::Ping, data);
                self.to_mgmt.write_tlv(CtlToMgmt::ToNet, tlv_vec_as_slice(&payload))
            },
            PingKind::UiFirstCircular => {
                let payload = Tlv::encode(MgmtToUi::CircularPing, data);
                self.to_mgmt.write_tlv(CtlToMgmt::ToUi, tlv_vec_as_slice(&payload))
            },
            PingKind::NetFirstCircular => self.to_mgmt.write_tlv(CtlToMgmt::NetFirstCircularPing, data),
        }
    }

    /// Ping the management chip: send `Ping` with `data`. The answer, read with
    /// `poll_reply`, is checked with `check_reply(PingKind::Mgmt, ..)`.
    pub fn send_mgmt_ping(&mut self, data: &[u8]) -> (r: Result<(), W::Error>)
        ensures
            final(self).from_mgmt() == old(self).from_mgmt(),
            final(self).wf() == old(self).wf(),
            old(self).to_mgmt().inner().healthy() ==> r is Ok && final(self).to_mgmt().inner().healthy(),
            r is Ok ==> sent_tlv(old(self).to_mgmt(), final(self).to_mgmt(), CtlToMgmt::Ping.code(), data@),
    {
        self.send_request(PingKind::Mgmt, data)
    }

    /// Ping the UI chip: send `ToUi` carrying the encoded UI `Ping` with `data`.
    pub fn send_ui_ping(&mut self, data: &[u8]) -> (r: Result<(), W::Error>)
        requires
            data@.len() <= MAX_VALUE_SIZE,
        ensures
            final(self).from_mgmt() == old(self).from_mgmt(),
            final(self).wf() == old(self).wf(),
            old(self).to_mgmt().inner().healthy() ==> r is Ok && final(self).to_mgmt().inner().healthy(),
            r is Ok ==> sent_tlv(
                old(self).to_mgmt(),
                final(self).to_mgmt(),
                CtlToMgmt::ToUi.code(),
                tlv_bytes(MgmtToUi::Ping.code(), data@),
            ),
    {
        self.send_request(PingKind::Ui, data)
    }

    /// Ping the NET chip: send `ToNet` carrying the encoded NET `Ping` with `data`.
    pub fn send_net_ping(&mut self, data: &[u8]) -> (r: Result<(), W::Error>)
        requires
            data@.len() <= MAX_VALUE_SIZE,
        ensures
            final(self).from_mgmt() == old(self).from_mgmt(),
            final(self).wf() == old(self).wf(),
            old(self).to_mgmt().inner().healthy() ==> r is Ok && final(self).to_mgmt().inner().healthy(),
            r is Ok ==> sent_tlv(
                old(self).to_mgmt(),
                final(self).to_mgmt(),
                CtlToMgmt::ToNet.code(),
                tlv_bytes(MgmtToNet::Ping.code(), data@),
            ),
    {
        self.send_request(PingKind::Net, data)
    }

    /// Start a circular ping at the UI chip: send `ToUi` carrying the encoded UI
    /// `CircularPing` with `data`.
    pub fn ui_first_circular_ping(&mut self, data: &[u8]) -> (r: Result<(), W::Error>)
        requires
            data@.len() <= MAX_VALUE_SIZE,
        ensures
            final(self).from_mgmt() == old(self).from_mgmt(),
            final(self).wf() == old(self).wf(),
            old(self).to_mgmt().inner().healthy() ==> r is Ok && final(self).to_mgmt().inner().healthy(),
            r is Ok ==> sent_tlv(
                old(self).to_mgmt(),
                final(self).to_mgmt(),
                CtlToMgmt::ToUi.code(),
                tlv_bytes(MgmtToUi::CircularPing.code(), data@),
            ),
    {
        self.send_request(PingKind::UiFirstCircular, data)
    }

    /// Start a circular ping at the NET chip: send `NetFirstCircularPing` with `data`.
    pub fn net_first_circular_ping(&mut self, data: &[u8]) -> (r: Result<(), W::Error>)
        ensures
            final(self).from_mgmt() == old(self).from_mgmt(),
            final(self).wf() == old(self).wf(),
            old(self).to_mgmt().inner().healthy() ==> r is Ok && final(self).to_mgmt().inner().healthy(),
            r is Ok ==> sent_tlv(old(self).to_mgmt(), final(self).to_mgmt(), CtlToMgmt::NetFirstCircularPing.code(), data@),
    {
        self.send_request(PingKind::NetFirstCircular, data)
    }
}

impl<R: CtlPort, W> App<R, W> {
    /// Read from the management chip once; returns the outcome once a TLV is
    /// complete (or the read failed), `None` before.
    pub fn poll_reply(&mut self) -> (r: Option<Result<Option<Tlv<MgmtToCtl>>, ReadError<R::Error>>>)
        requires
            old(self).wf(),
        ensures
            final(self).wf(),
            final(self).to_mgmt() == old(self).to_mgmt(),
            exists|ev: ReadEvent<R::Error>|
                crate::tlv::read_event_matches(ev, old(self).from_mgmt().inner().incoming(), final(self).from_mgmt().inner().incoming())
                    && (final(self).from_mgmt().model(), outcome_of(r)) == crate::tlv::scan_step::<MgmtToCtl, R::Error>(
                    old(self).from_mgmt().model(),
                    ev,
                ),
            old(self).from_mgmt().inner().healthy() ==> {
                &&& final(self).from_mgmt().inner().healthy()
                &&& final(self).from_mgmt().inner().incoming() == crate::tlv::after_event(
                    old(self).from_mgmt().inner().incoming(),
                )
                &&& (final(self).from_mgmt().model(), outcome_of(r)) == crate::tlv::scan_step::<MgmtToCtl, R::Error>(
                    old(self).from_mgmt().model(),
                    crate::tlv::next_event(old(self).from_mgmt().inner().incoming()),
                )
            },
    {
        self.from_mgmt.poll::<MgmtToCtl>()
    }
}


/// A labeled reader that starts on `bytes` completes the TLV with type code `code`
/// and value `v`.
pub open spec fn reads_as<T: TlvType, E>(bytes: Seq<u8>, code: u16, v: Seq<u8>) -> bool {
    scan_run::<T, E>(scan_start(), bytes).1 == Some(Ok::<Option<(u16, Seq<u8>)>, ReadError<E>>(Some((code, v))))
}

/// What a labeled writer sends for one TLV at the start of a sequence.
pub open spec fn framed(code: u16, v: Seq<u8>) -> Seq<u8> {
    sync_prefix(true) + tlv_bytes(code, v)
}

/// A fresh labeled reader reads back what a labeled writer framed.
proof fn lemma_reads_framed<T: TlvType, E>(t: T, v: Seq<u8>)
    requires
        v.len() <= MAX_VALUE_SIZE,
    ensures
        reads_as::<T, E>(framed(t.code(), v), t.code(), v),
{
    let empty = Seq::<u8>::empty();
    assert(!contains_sync(empty));
    lemma_labeled_roundtrip::<T, E>(empty, t, v, Seq::empty());
    assert(empty + framed(t.code(), v) =~= framed(t.code(), v));
}

/// A ping of the management chip is answered: the chip reads the host's `Ping`,
/// answers with a `Pong` carrying the same data, and the host reads that answer
/// and accepts it.
pub proof fn lemma_mgmt_ping_answered<E>(data: Seq<u8>)
    requires
        data.len() <= MAX_VALUE_SIZE,
    ensures
        request_of(PingKind::Mgmt, data) == (CtlToMgmt::Ping.code(), data),
        reads_as::<CtlToMgmt, E>(framed(CtlToMgmt::Ping.code(), data), CtlToMgmt::Ping.code(), data),
        route_ctl(CtlToMgmt::Ping) == MgmtRoute::ToCtl(MgmtToCtl::Pong),
        reads_as::<MgmtToCtl, E>(framed(MgmtToCtl::Pong.code(), data), MgmtToCtl::Pong.code(), data),
        ping_outcome(PingKind::Mgmt, data, MgmtToCtl::Pong, data) is Ok,
{
    lemma_reads_framed::<CtlToMgmt, E>(CtlToMgmt::Ping, data);
    lemma_reads_framed::<MgmtToCtl, E>(MgmtToCtl::Pong, data);
}

/// A ping of the UI chip is answered, for data that leaves room for the framing
/// inside one answer: the management chip reads `ToUi` and passes its payload to
/// the UI chip as it is; the UI chip reads its `Ping` and answers `Pong` with the
/// same data; the management chip passes those bytes to the host as `FromUi`,
/// which the host reads and accepts.
pub proof fn lemma_ui_ping_answered<E>(data: Seq<u8>)
    requires
        data.len() + 4 + HEADER_SIZE <= MAX_VALUE_SIZE,
    ensures
        ({
            let payload = tlv_bytes(MgmtToUi::Ping.code(), data);
            let answer = framed(UiToMgmt::Pong.code(), data);
            &&& request_of(PingKind::Ui, data) == (CtlToMgmt::ToUi.code(), payload)
            &&& reads_as::<CtlToMgmt, E>(framed(CtlToMgmt::ToUi.code(), payload), CtlToMgmt::ToUi.code(), payload)
            &&& route_ctl(CtlToMgmt::ToUi) == MgmtRoute::RawToUi
            &&& reads_as::<MgmtToUi, E>(sync_prefix(true) + payload, MgmtToUi::Ping.code(), data)
            &&& crate::ui::route_mgmt(MgmtToUi::Ping) == crate::ui::UiRoute::ToMgmt(UiToMgmt::Pong)
            &&& reads_as::<MgmtToCtl, E>(framed(MgmtToCtl::FromUi.code(), answer), MgmtToCtl::FromUi.code(), answer)
            &&& ping_outcome(PingKind::Ui, data, MgmtToCtl::FromUi, answer) is Ok
        }),
{
    let payload = tlv_bytes(MgmtToUi::Ping.code(), data);
    let answer = framed(UiToMgmt::Pong.code(), data);
    lemma_reads_framed::<CtlToMgmt, E>(CtlToMgmt::ToUi, payload);
    lemma_reads_framed::<MgmtToUi, E>(MgmtToUi::Ping, data);
    lemma_reads_framed::<MgmtToCtl, E>(MgmtToCtl::FromUi, answer);
    lemma_reads_framed::<UiToMgmt, ()>(UiToMgmt::Pong, data);
}

/// A ping of the NET chip is answered, for data that leaves room for a header
/// inside one message: the management chip reads `ToNet` and passes its payload to
/// the NET chip as it is; the NET chip reads its `Ping` and answers `Pong` with the
/// same data; the management chip reads that and sends it, encoded whole, to the
/// host as `FromNet`, which the host reads and accepts.
pub proof fn lemma_net_ping_answered<E>(data: Seq<u8>)
    requires
        data.len() + HEADER_SIZE <= MAX_VALUE_SIZE,
    ensures
        ({
            let payload = tlv_bytes(MgmtToNet::Ping.code(), data);
            let answer = tlv_bytes(NetToMgmt::Pong.code(), data);
            &&& request_of(PingKind::Net, data) == (CtlToMgmt::ToNet.code(), payload)
            &&& reads_as::<CtlToMgmt, E>(framed(CtlToMgmt::ToNet.code(), payload), CtlToMgmt::ToNet.code(), payload)
            &&& route_ctl(CtlToMgmt::ToNet) == MgmtRoute::RawToNet
            &&& reads_as::<MgmtToNet, E>(sync_prefix(true) + payload, MgmtToNet::Ping.code(), data)
            &&& crate::net::route_mgmt(MgmtToNet::Ping) == crate::net::NetRoute::ToMgmt(NetToMgmt::Pong)
            &&& reads_as::<NetToMgmt, E>(framed(NetToMgmt::Pong.code(), data), NetToMgmt::Pong.code(), data)
            &&& reads_as::<MgmtToCtl, E>(framed(MgmtToCtl::FromNet.code(), answer), MgmtToCtl::FromNet.code(), answer)
            &&& ping_outcome(PingKind::Net, data, MgmtToCtl::FromNet, answer) is Ok
        }),
{
    let payload = tlv_bytes(MgmtToNet::Ping.code(), data);
    let answer = tlv_bytes(NetToMgmt::Pong.code(), data);
    lemma_reads_framed::<CtlToMgmt, E>(CtlToMgmt::ToNet, payload);
    lemma_reads_framed::<MgmtToNet, E>(MgmtToNet::Ping, data);
    lemma_reads_framed::<NetToMgmt, E>(NetToMgmt::Pong, data);
    lemma_reads_framed::<MgmtToCtl, E>(MgmtToCtl::FromNet, answer);
    lemma_slice_roundtrip::<NetToMgmt>(NetToMgmt::Pong, data, Seq::empty());
    assert(answer + Seq::<u8>::empty() =~= answer);
}

/// A circular ping started at the UI chip comes back, for data that leaves room for
/// a header inside one message: the UI chip reads its `CircularPing` and passes it
/// to the NET chip, which passes it to the management chip, which sends it to the
/// host as `UiFirstCircularPing`; the host reads and accepts it.
pub proof fn lemma_ui_first_circular_ping_answered<E>(data: Seq<u8>)
    requires
        data.len() + HEADER_SIZE <= MAX_VALUE_SIZE,
    ensures
        ({
            let payload = tlv_bytes(MgmtToUi::CircularPing.code(), data);
            &&& request_of(PingKind::UiFirstCircular, data) == (CtlToMgmt::ToUi.code(), payload)
            &&& reads_as::<CtlToMgmt, E>(framed(CtlToMgmt::ToUi.code(), payload), CtlToMgmt::ToUi.code(), payload)
            &&& route_ctl(CtlToMgmt::ToUi) == MgmtRoute::RawToUi
            &&& reads_as::<MgmtToUi, E>(sync_prefix(true) + payload, MgmtToUi::CircularPing.code(), data)
            &&& crate::ui::route_mgmt(MgmtToUi::CircularPing) == crate::ui::UiRoute::ToNet(UiToNet::CircularPing)
            &&& reads_as::<UiToNet, E>(framed(UiToNet::CircularPing.code(), data), UiToNet::CircularPing.code(), data)
            &&& crate::net::route_ui(UiToNet::CircularPing) == crate::net::NetRoute::ToMgmt(NetToMgmt::CircularPing)
            &&& reads_as::<NetToMgmt, E>(framed(NetToMgmt::CircularPing.code(), data), NetToMgmt::CircularPing.code(), data)
            &&& reads_as::<MgmtToCtl, E>(
                framed(MgmtToCtl::UiFirstCircularPing.code(), data),
                MgmtToCtl::UiFirstCircularPing.code(),
                data,
            )
            &&& ping_outcome(PingKind::UiFirstCircular, data, MgmtToCtl::UiFirstCircularPing, data) is Ok
        }),
{
    let payload = tlv_bytes(MgmtToUi::CircularPing.code(), data);
    lemma_reads_framed::<CtlToMgmt, E>(CtlToMgmt::ToUi, payload);
    lemma_reads_framed::<MgmtToUi, E>(MgmtToUi::CircularPing, data);
    lemma_reads_framed::<UiToNet, E>(UiToNet::CircularPing, data);
    lemma_reads_framed::<NetToMgmt, E>(NetToMgmt::CircularPing, data);
    lemma_reads_framed::<MgmtToCtl, E>(MgmtToCtl::UiFirstCircularPing, data);
}

/// A circular ping started at the NET chip comes back, for data that leaves room for
/// the framing inside one answer: the management chip sends it to the NET chip as a
/// `CircularPing`, which passes it to the UI chip, which answers the management
/// chip; the management chip passes those bytes to the host as `FromUi`, which the
/// host reads and accepts.
pub proof fn lemma_net_first_circular_ping_answered<E>(data: Seq<u8>)
    requires
        data.len() + 4 + HEADER_SIZE <= MAX_VALUE_SIZE,
    ensures
        ({
            let answer = framed(UiToMgmt::CircularPing.code(), data);
            &&& request_of(PingKind::NetFirstCircular, data) == (CtlToMgmt::NetFirstCircularPing.code(), data)
            &&& reads_as::<CtlToMgmt, E>(
                framed(CtlToMgmt::NetFirstCircularPing.code(), data),
                CtlToMgmt::NetFirstCircularPing.code(),
                data,
            )
            &&& route_ctl(CtlToMgmt::NetFirstCircularPing) == MgmtRoute::ToNet(MgmtToNet::CircularPing)
            &&& reads_as::<MgmtToNet, E>(framed(MgmtToNet::CircularPing.code(), data), MgmtToNet::CircularPing.code(), data)
            &&& crate::net::route_mgmt(MgmtToNet::CircularPing) == crate::net::NetRoute::ToUi(NetToUi::CircularPing)
            &&& reads_as::<NetToUi, E>(framed(NetToUi::CircularPing.code(), data), NetToUi::CircularPing.code(), data)
            &&& crate::ui::route_net(NetToUi::CircularPing) == crate::ui::UiRoute::ToMgmt(UiToMgmt::CircularPing)
            &&& reads_as::<MgmtToCtl, E>(framed(MgmtToCtl::FromUi.code(), answer), MgmtToCtl::FromUi.code(), answer)
            &&& ping_outcome(PingKind::NetFirstCircular, data, MgmtToCtl::FromUi, answer) is Ok
        }),
{
    let answer = framed(UiToMgmt::CircularPing.code(), data);
    lemma_reads_framed::<CtlToMgmt, E>(CtlToMgmt::NetFirstCircularPing, data);
    lemma_reads_framed::<MgmtToNet, E>(MgmtToNet::CircularPing, data);
    lemma_reads_framed::<NetToUi, E>(NetToUi::CircularPing, data);
    lemma_reads_framed::<MgmtToCtl, E>(MgmtToCtl::FromUi, answer);
    lemma_reads_framed::<UiToMgmt, ()>(UiToMgmt::CircularPing, data);
}

} // verus!
