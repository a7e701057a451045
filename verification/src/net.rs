//! The NET chip's message routing: it answers pings from the management chip and
//! passes circular pings on towards the UI chip and back.
use vstd::prelude::*;

use crate::port::CtlPort;
use crate::route::{completed, poll_step, polled, sent_tlv};
use crate::tlv::{
    value_as_slice, value_bytes, LabeledReader, LabeledWriter, MgmtToNet, NetToMgmt, NetToUi, Tlv, TlvType, UiToNet,
    WriteTlv,
};

verus! {

/// Where the NET chip sends a message, and as what.
pub enum NetRoute {
    /// To the management chip as this type, same value.
    ToMgmt(NetToMgmt),
    /// To the UI chip as this type, same value.
    ToUi(NetToUi),
}

/// The route of a message from the management chip.
pub open spec fn route_mgmt(t: MgmtToNet) -> NetRoute {
    match t {
        MgmtToNet::Ping => NetRoute::ToMgmt(NetToMgmt::Pong),
        MgmtToNet::CircularPing => NetRoute::ToUi(NetToUi::CircularPing),
    }
}

/// The route of a message from the UI chip.
pub open spec fn route_ui(t: UiToNet) -> NetRoute {
    match t {
        UiToNet::CircularPing => NetRoute::ToMgmt(NetToMgmt::CircularPing),
    }
}

/// WebSocket routing mode: where received WebSocket data goes.
#[derive(Debug, Clone, Copy, PartialEq, Eq, Structural)]
pub enum WsMode {
    /// Normal operation: route received data to UI for audio playback.
    Normal,
}

impl Default for WsMode {
    fn default() -> (m: Self)
        ensures
            m == WsMode::Normal,
    {
        WsMode::Normal
    }
}

/// The NET chip's application: guarded links to the management and UI chips.
pub struct App<W, R> {
    to_mgmt: LabeledWriter<W>,
    to_ui: LabeledWriter<W>,
    from_mgmt: LabeledReader<R>,
    from_ui: LabeledReader<R>,
}

impl<W, R> App<W, R> {
    /// The link to the management chip.
    pub closed spec fn to_mgmt(&self) -> LabeledWriter<W> {
        self.to_mgmt
    }

    /// The link to the UI chip.
    pub closed spec fn to_ui(&self) -> LabeledWriter<W> {
        self.to_ui
    }

    /// The link from the management chip.
    pub closed spec fn from_mgmt(&self) -> LabeledReader<R> {
        self.from_mgmt
    }

    /// The link from the UI chip.
    pub closed spec fn from_ui(&self) -> LabeledReader<R> {
        self.from_ui
    }

    /// The readers are in a consistent state.
    pub closed spec fn wf(&self) -> bool {
        self.from_mgmt.wf() && self.from_ui.wf()
    }

    /// An application over the four link halves; every writer starts a new sequence.
    pub fn new(to_mgmt: W, from_mgmt: R, to_ui: W, from_ui: R) -> (a: Self)
        ensures
            a.wf(),
            a.to_mgmt().inner() == to_mgmt && a.to_mgmt().pending_sync(),
            a.to_ui().inner() == to_ui && a.to_ui().pending_sync(),
    {
        App {
            to_mgmt: LabeledWriter::new("net->mgmt", to_mgmt),
            to_ui: LabeledWriter::new("net->ui", to_ui),
            from_mgmt: LabeledReader::new("mgmt->net", from_mgmt),
            from_ui: LabeledReader::new("ui->net", from_ui),
        }
    }
}

impl<W: CtlPort, R> App<W, R> {
    /// Whether the writer that a route uses works.
    pub open spec fn route_healthy(&self, route: NetRoute) -> bool {
        match route {
            NetRoute::ToMgmt(_) => self.to_mgmt().inner().healthy(),
            NetRoute::ToUi(_) => self.to_ui().inner().healthy(),
        }
    }
}

impl<W: CtlPort, R: CtlPort> App<W, R> {
    /// Send a value along a route.
    fn send(&mut self, route: NetRoute, value: &[u8]) -> (r: Result<(), W::Error>)
        ensures
            final(self).wf() == old(self).wf(),
            final(self).from_mgmt() == old(self).from_mgmt(),
            final(self).from_ui() == old(self).from_ui(),
            old(self).route_healthy(route) ==> r is Ok && final(self).route_healthy(route),
            r is Ok ==> match route {
                NetRoute::ToMgmt(t) => sent_tlv(old(self).to_mgmt(), final(self).to_mgmt(), t.code(), value@)
                    && final(self).to_ui() == old(self).to_ui(),
                NetRoute::ToUi(t) => sent_tlv(old(self).to_ui(), final(self).to_ui(), t.code(), value@)
                    && final(self).to_mgmt() == old(self).to_mgmt(),
            },
    {
        match route {
            NetRoute::ToMgmt(t) => self.to_mgmt.write_tlv(t, value),
            NetRoute::ToUi(t) => self.to_ui.write_tlv(t, value),
        }
    }

    /// Handle a message from the management chip: answer a ping with a pong carrying
    /// the same value; pass a circular ping on to the UI chip.
    pub fn handle_mgmt(&mut self, tlv: &Tlv<MgmtToNet>) -> (r: Result<(), W::Error>)
        ensures
            final(self).wf() == old(self).wf(),
            final(self).from_mgmt() == old(self).from_mgmt(),
            final(self).from_ui() == old(self).from_ui(),
            old(self).route_healthy(route_mgmt(tlv.tlv_type)) ==> r is Ok,
            r is Ok ==> match route_mgmt(tlv.tlv_type) {
                NetRoute::ToMgmt(t) => sent_tlv(old(self).to_mgmt(), final(self).to_mgmt(), t.code(), value_bytes(tlv.value))
                    && final(self).to_ui() == old(self).to_ui(),
                NetRoute::ToUi(t) => sent_tlv(old(self).to_ui(), final(self).to_ui(), t.code(), value_bytes(tlv.value))
                    && final(self).to_mgmt() == old(self).to_mgmt(),
            },
    {
        let route = match tlv.tlv_type {
            MgmtToNet::Ping => NetRoute::ToMgmt(NetToMgmt::Pong),
            MgmtToNet::CircularPing => NetRoute::ToUi(NetToUi::CircularPing),
        };
        self.send(route, value_as_slice(&tlv.value))
    }

    /// Handle a message from the UI chip: a circular ping goes on to the management chip.
    pub fn handle_ui(&mut self, tlv: &Tlv<UiToNet>) -> (r: Result<(), W::Error>)
        ensures
            final(self).wf() == old(self).wf(),
            final(self).from_mgmt() == old(self).from_mgmt(),
            final(self).from_ui() == old(self).from_ui(),
            old(self).route_healthy(route_ui(tlv.tlv_type)) ==> r is Ok,
            r is Ok ==> match route_ui(tlv.tlv_type) {
                NetRoute::ToMgmt(t) => sent_tlv(old(self).to_mgmt(), final(self).to_mgmt(), t.code(), value_bytes(tlv.value))
                    && final(self).to_ui() == old(self).to_ui(),
                NetRoute::ToUi(t) => sent_tlv(old(self).to_ui(), final(self).to_ui(), t.code(), value_bytes(tlv.value))
                    && final(self).to_mgmt() == old(self).to_mgmt(),
            },
    {
        let route = match tlv.tlv_type {
            UiToNet::CircularPing => NetRoute::ToMgmt(NetToMgmt::CircularPing),
        };
        self.send(route, value_as_slice(&tlv.value))
    }
    /// Read from the mgmt link once; when that completes a TLV, handle it and return it.
    pub fn poll_mgmt(&mut self) -> (r: Result<Option<Tlv<MgmtToNet>>, W::Error>)
        requires
            old(self).wf(),
        ensures
            final(self).wf(),
            r matches Ok(None) ==> final(self).to_mgmt() == old(self).to_mgmt() && final(self).to_ui() == old(self).to_ui(),
            old(self).from_mgmt().inner().healthy() ==> polled::<MgmtToNet, R>(old(self).from_mgmt(), final(self).from_mgmt()),
            old(self).from_mgmt().inner().healthy() && completed(poll_step::<MgmtToNet, R>(old(self).from_mgmt()).1) is None
                ==> r matches Ok(None),
            old(self).from_mgmt().inner().healthy() && old(self).to_mgmt().inner().healthy() && old(self).to_ui().inner().healthy()
                && completed(poll_step::<MgmtToNet, R>(old(self).from_mgmt()).1) is Some ==> (r matches Ok(Some(tlv))
                && completed(poll_step::<MgmtToNet, R>(old(self).from_mgmt()).1) == Some((tlv.tlv_type.code(), value_bytes(tlv.value)))),
            r matches Ok(Some(tlv)) ==> match route_mgmt(tlv.tlv_type) {
                NetRoute::ToMgmt(t) => sent_tlv(old(self).to_mgmt(), final(self).to_mgmt(), t.code(), value_bytes(tlv.value))
                    && final(self).to_ui() == old(self).to_ui(),
                NetRoute::ToUi(t) => sent_tlv(old(self).to_ui(), final(self).to_ui(), t.code(), value_bytes(tlv.value))
                    && final(self).to_mgmt() == old(self).to_mgmt(),
            },
    {
        match self.from_mgmt.poll::<MgmtToNet>() {
            Some(Ok(Some(tlv))) => {
                self.handle_mgmt(&tlv)?;
                Ok(Some(tlv))
            },
            _ => Ok(None),
        }
    }

    /// Read from the ui link once; when that completes a TLV, handle it and return it.
    pub fn poll_ui(&mut self) -> (r: Result<Option<Tlv<UiToNet>>, W::Error>)
        requires
            old(self).wf(),
        ensures
            final(self).wf(),
            r matches Ok(None) ==> final(self).to_mgmt() == old(self).to_mgmt() && final(self).to_ui() == old(self).to_ui(),
            old(self).from_ui().inner().healthy() ==> polled::<UiToNet, R>(old(self).from_ui(), final(self).from_ui()),
            old(self).from_ui().inner().healthy() && completed(poll_step::<UiToNet, R>(old(self).from_ui()).1) is None
                ==> r matches Ok(None),
            old(self).from_ui().inner().healthy() && old(self).to_mgmt().inner().healthy() && old(self).to_ui().inner().healthy()
                && completed(poll_step::<UiToNet, R>(old(self).from_ui()).1) is Some ==> (r matches Ok(Some(tlv))
                && completed(poll_step::<UiToNet, R>(old(self).from_ui()).1) == Some((tlv.tlv_type.code(), value_bytes(tlv.value)))),
            r matches Ok(Some(tlv)) ==> match route_ui(tlv.tlv_type) {
                NetRoute::ToMgmt(t) => sent_tlv(old(self).to_mgmt(), final(self).to_mgmt(), t.code(), value_bytes(tlv.value))
                    && final(self).to_ui() == old(self).to_ui(),
                NetRoute::ToUi(t) => sent_tlv(old(self).to_ui(), final(self).to_ui(), t.code(), value_bytes(tlv.value))
                    && final(self).to_mgmt() == old(self).to_mgmt(),
            },
    {
        match self.from_ui.poll::<UiToNet>() {
            Some(Ok(Some(tlv))) => {
                self.handle_ui(&tlv)?;
                Ok(Some(tlv))
            },
            _ => Ok(None),
        }
    }

    /// Give back the link halves: the writers to the mgmt and ui chips, then the
    /// readers from them.
    pub fn into_inner(self) -> (r: (W, W, R, R))
        ensures
            r.0 == self.to_mgmt().inner() && r.1 == self.to_ui().inner(),
    {
        (self.to_mgmt.into_inner(), self.to_ui.into_inner(), self.from_mgmt.into_inner(), self.from_ui.into_inner())
    }
}

} // verus!
