//! The UI chip's message routing: it answers pings from the management chip and
//! passes circular pings on towards the NET chip and back.
use vstd::prelude::*;

use crate::port::CtlPort;
use crate::route::{completed, poll_step, polled, sent_tlv};
use crate::tlv::{
    value_as_slice, value_bytes, LabeledReader, LabeledWriter, MgmtToUi, NetToUi, Tlv, TlvType, UiToMgmt, UiToNet,
    WriteTlv,
};

verus! {

/// Where the UI chip sends a message, and as what.
pub enum UiRoute {
    /// To the management chip as this type, same value.
    ToMgmt(UiToMgmt),
    /// To the NET chip as this type, same value.
    ToNet(UiToNet),
}

/// The route of a message from the management chip.
pub open spec fn route_mgmt(t: MgmtToUi) -> UiRoute {
    match t {
        MgmtToUi::Ping => UiRoute::ToMgmt(UiToMgmt::Pong),
        MgmtToUi::CircularPing => UiRoute::ToNet(UiToNet::CircularPing),
    }
}

/// The route of a message from the NET chip.
pub open spec fn route_net(t: NetToUi) -> UiRoute {
    match t {
        NetToUi::CircularPing => UiRoute::ToMgmt(UiToMgmt::CircularPing),
    }
}

/// The UI chip's application: guarded links to the management and NET chips.
pub struct App<W, R> {
    to_mgmt: LabeledWriter<W>,
    to_net: LabeledWriter<W>,
    from_mgmt: LabeledReader<R>,
    from_net: LabeledReader<R>,
}

impl<W, R> App<W, R> {
    /// The link to the management chip.
    pub closed spec fn to_mgmt(&self) -> LabeledWriter<W> {
        self.to_mgmt
    }

    /// The link to the NET chip.
    pub closed spec fn to_net(&self) -> LabeledWriter<W> {
        self.to_net
    }

    /// The link from the management chip.
    pub closed spec fn from_mgmt(&self) -> LabeledReader<R> {
        self.from_mgmt
    }

    /// The link from the NET chip.
    pub closed spec fn from_net(&self) -> LabeledReader<R> {
        self.from_net
    }

    /// The readers are in a consistent state.
    pub closed spec fn wf(&self) -> bool {
        self.from_mgmt.wf() && self.from_net.wf()
    }

    /// An application over the four link halves; every writer starts a new sequence.
    pub fn new(to_mgmt: W, from_mgmt: R, to_net: W, from_net: R) -> (a: Self)
        ensures
            a.wf(),
            a.to_mgmt().inner() == to_mgmt && a.to_mgmt().pending_sync(),
            a.to_net().inner() == to_net && a.to_net().pending_sync(),
    {
        App {
            to_mgmt: LabeledWriter::new("ui->mgmt", to_mgmt),
            to_net: LabeledWriter::new("ui->net", to_net),
            from_mgmt: LabeledReader::new("mgmt->ui", from_mgmt),
            from_net: LabeledReader::new("net->ui", from_net),
        }
    }
}

impl<W: CtlPort, R> App<W, R> {
    /// Whether the writer that a route uses works.
    pub open spec fn route_healthy(&self, route: UiRoute) -> bool {
        match route {
            UiRoute::ToMgmt(_) => self.to_mgmt().inner().healthy(),
            UiRoute::ToNet(_) => self.to_net().inner().healthy(),
        }
    }
}

impl<W: CtlPort, R: CtlPort> App<W, R> {
    /// Send a value along a route.
    fn send(&mut self, route: UiRoute, value: &[u8]) -> (r: Result<(), W::Error>)
        ensures
            final(self).wf() == old(self).wf(),
            final(self).from_mgmt() == old(self).from_mgmt(),
            final(self).from_net() == old(self).from_net(),
            old(self).route_healthy(route) ==> r is Ok && final(self).route_healthy(route),
            r is Ok ==> match route {
                UiRoute::ToMgmt(t) => sent_tlv(old(self).to_mgmt(), final(self).to_mgmt(), t.code(), value@)
                    && final(self).to_net() == old(self).to_net(),
                UiRoute::ToNet(t) => sent_tlv(old(self).to_net(), final(self).to_net(), t.code(), value@)
                    && final(self).to_mgmt() == old(self).to_mgmt(),
            },
    {
        match route {
            UiRoute::ToMgmt(t) => self.to_mgmt.write_tlv(t, value),
            UiRoute::ToNet(t) => self.to_net.write_tlv(t, value),
        }
    }

    /// Handle a message from the management chip: answer a ping with a pong carrying
    /// the same value; pass a circular ping on to the NET chip.
    pub fn handle_mgmt(&mut self, tlv: &Tlv<MgmtToUi>) -> (r: Result<(), W::Error>)
        ensures
            final(self).wf() == old(self).wf(),
            final(self).from_mgmt() == old(self).from_mgmt(),
            final(self).from_net() == old(self).from_net(),
            old(self).route_healthy(route_mgmt(tlv.tlv_type)) ==> r is Ok,
            r is Ok ==> match route_mgmt(tlv.tlv_type) {
                UiRoute::ToMgmt(t) => sent_tlv(old(self).to_mgmt(), final(self).to_mgmt(), t.code(), value_bytes(tlv.value))
                    && final(self).to_net() == old(self).to_net(),
                UiRoute::ToNet(t) => sent_tlv(old(self).to_net(), final(self).to_net(), t.code(), value_bytes(tlv.value))
                    && final(self).to_mgmt() == old(self).to_mgmt(),
            },
    {
        let route = match tlv.tlv_type {
            MgmtToUi::Ping => UiRoute::ToMgmt(UiToMgmt::Pong),
            MgmtToUi::CircularPing => UiRoute::ToNet(UiToNet::CircularPing),
        };
        self.send(route, value_as_slice(&tlv.value))
    }

    /// Handle a message from the NET chip: a circular ping goes on to the management chip.
    pub fn handle_net(&mut self, tlv: &Tlv<NetToUi>) -> (r: Result<(), W::Error>)
        ensures
            final(self).wf() == old(self).wf(),
            final(self).from_mgmt() == old(self).from_mgmt(),
            final(self).from_net() == old(self).from_net(),
            old(self).route_healthy(route_net(tlv.tlv_type)) ==> r is Ok,
            r is Ok ==> match route_net(tlv.tlv_type) {
                UiRoute::ToMgmt(t) => sent_tlv(old(self).to_mgmt(), final(self).to_mgmt(), t.code(), value_bytes(tlv.value))
                    && final(self).to_net() == old(self).to_net(),
                UiRoute::ToNet(t) => sent_tlv(old(self).to_net(), final(self).to_net(), t.code(), value_bytes(tlv.value))
                    && final(self).to_mgmt() == old(self).to_mgmt(),
            },
    {
        let route = match tlv.tlv_type {
            NetToUi::CircularPing => UiRoute::ToMgmt(UiToMgmt::CircularPing),
        };
        self.send(route, value_as_slice(&tlv.value))
    }
    /// Read from the mgmt link once; when that completes a TLV, handle it and return it.
    pub fn poll_mgmt(&mut self) -> (r: Result<Option<Tlv<MgmtToUi>>, W::Error>)
        requires
            old(self).wf(),
        ensures
            final(self).wf(),
            r matches Ok(None) ==> final(self).to_mgmt() == old(self).to_mgmt() && final(self).to_net() == old(self).to_net(),
            old(self).from_mgmt().inner().healthy() ==> polled::<MgmtToUi, R>(old(self).from_mgmt(), final(self).from_mgmt()),
            old(self).from_mgmt().inner().healthy() && completed(poll_step::<MgmtToUi, R>(old(self).from_mgmt()).1) is None
                ==> r matches Ok(None),
            old(self).from_mgmt().inner().healthy() && old(self).to_mgmt().inner().healthy() && old(self).to_net().inner().healthy()
                && completed(poll_step::<MgmtToUi, R>(old(self).from_mgmt()).1) is Some ==> (r matches Ok(Some(tlv))
                && completed(poll_step::<MgmtToUi, R>(old(self).from_mgmt()).1) == Some((tlv.tlv_type.code(), value_bytes(tlv.value)))),
            r matches Ok(Some(tlv)) ==> match route_mgmt(tlv.tlv_type) {
                UiRoute::ToMgmt(t) => sent_tlv(old(self).to_mgmt(), final(self).to_mgmt(), t.code(), value_bytes(tlv.value))
                    && final(self).to_net() == old(self).to_net(),
                UiRoute::ToNet(t) => sent_tlv(old(self).to_net(), final(self).to_net(), t.code(), value_bytes(tlv.value))
                    && final(self).to_mgmt() == old(self).to_mgmt(),
            },
    {
        match self.from_mgmt.poll::<MgmtToUi>() {
            Some(Ok(Some(tlv))) => {
                self.handle_mgmt(&tlv)?;
                Ok(Some(tlv))
            },
            _ => Ok(None),
        }
    }

    /// Read from the net link once; when that completes a TLV, handle it and return it.
    pub fn poll_net(&mut self) -> (r: Result<Option<Tlv<NetToUi>>, W::Error>)
        requires
            old(self).wf(),
        ensures
            final(self).wf(),
            r matches Ok(None) ==> final(self).to_mgmt() == old(self).to_mgmt() && final(self).to_net() == old(self).to_net(),
            old(self).from_net().inner().healthy() ==> polled::<NetToUi, R>(old(self).from_net(), final(self).from_net()),
            old(self).from_net().inner().healthy() && completed(poll_step::<NetToUi, R>(old(self).from_net()).1) is None
                ==> r matches Ok(None),
            old(self).from_net().inner().healthy() && old(self).to_mgmt().inner().healthy() && old(self).to_net().inner().healthy()
                && completed(poll_step::<NetToUi, R>(old(self).from_net()).1) is Some ==> (r matches Ok(Some(tlv))
                && completed(poll_step::<NetToUi, R>(old(self).from_net()).1) == Some((tlv.tlv_type.code(), value_bytes(tlv.value)))),
            r matches Ok(Some(tlv)) ==> match route_net(tlv.tlv_type) {
                UiRoute::ToMgmt(t) => sent_tlv(old(self).to_mgmt(), final(self).to_mgmt(), t.code(), value_bytes(tlv.value))
                    && final(self).to_net() == old(self).to_net(),
                UiRoute::ToNet(t) => sent_tlv(old(self).to_net(), final(self).to_net(), t.code(), value_bytes(tlv.value))
                    && final(self).to_mgmt() == old(self).to_mgmt(),
            },
    {
        match self.from_net.poll::<NetToUi>() {
            Some(Ok(Some(tlv))) => {
                self.handle_net(&tlv)?;
                Ok(Some(tlv))
            },
            _ => Ok(None),
        }
    }

    /// Give back the link halves: the writers to the mgmt and net chips, then the
    /// readers from them.
    pub fn into_inner(self) -> (r: (W, W, R, R))
        ensures
            r.0 == self.to_mgmt().inner() && r.1 == self.to_net().inner(),
    {
        (self.to_mgmt.into_inner(), self.to_net.into_inner(), self.from_mgmt.into_inner(), self.from_net.into_inner())
    }
}

} // verus!
