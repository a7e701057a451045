use link::mgmt;
use link::net;
use link::port::MemPort;
use link::tlv::{
    CtlToMgmt, LabeledReader, MgmtToCtl, MgmtToNet, MgmtToUi, NetToMgmt, ReadEvent,
    ReadTlv, Tlv, UiToMgmt, WriteTlv, SYNC_WORD,
};
use link::ui;

fn guarded<T: link::tlv::TlvType>(t: T, value: &[u8]) -> Vec<u8> {
    let mut v = SYNC_WORD.to_vec();
    WriteTlv::<T>::write_tlv(&mut v, t, value).unwrap();
    v
}

fn empty() -> MemPort {
    MemPort::new(vec![])
}

fn decode_guarded<T: link::tlv::TlvType>(bytes: &[u8]) -> Tlv<T> {
    let mut r = LabeledReader::new("test", ());
    for &b in bytes {
        if let Some(out) = r.feed::<T, ()>(ReadEvent::Byte(b)) {
            return out.unwrap().unwrap();
        }
    }
    panic!("no complete TLV");
}

/// Run the management chip on one message from the host; returns what it wrote to
/// the host, the UI chip and the NET chip.
fn mgmt_on_ctl(input: Vec<u8>) -> (Vec<u8>, Vec<u8>, Vec<u8>) {
    let mut app = mgmt::App::new(empty(), MemPort::new(input), empty(), empty(), empty(), empty());
    let mut handled = false;
    for _ in 0..200 {
        if app.poll_ctl().unwrap().is_some() {
            handled = true;
            break;
        }
    }
    assert!(handled);
    let (c, u, n, _, _, _) = app.into_inner();
    (c.written().clone(), u.written().clone(), n.written().clone())
}

#[test]
fn mgmt_answers_ping() {
    let (to_ctl, to_ui, to_net) = mgmt_on_ctl(guarded(CtlToMgmt::Ping, b"hello mgmt"));
    assert_eq!(to_ctl, guarded(MgmtToCtl::Pong, b"hello mgmt"));
    assert!(to_ui.is_empty() && to_net.is_empty());
}

#[test]
fn mgmt_ui_ping_route() {
    let payload = Tlv::encode(MgmtToUi::Ping, b"hello ui");
    let (_, to_ui, _) = mgmt_on_ctl(guarded(CtlToMgmt::ToUi, payload.as_slice()));
    let mut ui_app = ui::App::new(empty(), MemPort::new(to_ui), empty(), empty());
    let mut got = None;
    for _ in 0..200 {
        if let Some(t) = ui_app.poll_mgmt().unwrap() {
            got = Some(t);
            break;
        }
    }
    assert_eq!(got.unwrap().tlv_type, MgmtToUi::Ping);
    let (to_mgmt, to_net, _, _) = ui_app.into_inner();
    assert!(to_net.written().is_empty());
    let mut mgmt_app = mgmt::App::new(empty(), empty(), empty(), MemPort::new(to_mgmt.written().clone()), empty(), empty());
    let mut total = 0;
    for _ in 0..10 {
        total += mgmt_app.poll_ui().unwrap();
    }
    assert!(total > 0);
    let (to_ctl, _, _, _, _, _) = mgmt_app.into_inner();
    let from_ui: Tlv<MgmtToCtl> = decode_guarded(to_ctl.written());
    assert_eq!(from_ui.tlv_type, MgmtToCtl::FromUi);
    let inner: Tlv<UiToMgmt> = decode_guarded(from_ui.value.as_slice());
    assert_eq!(inner.tlv_type, UiToMgmt::Pong);
    assert_eq!(inner.value.as_slice(), b"hello ui");
}

#[test]
fn mgmt_net_ping_route() {
    let payload = Tlv::encode(MgmtToNet::Ping, b"hello net");
    let (_, _, to_net) = mgmt_on_ctl(guarded(CtlToMgmt::ToNet, payload.as_slice()));
    let mut net_app = net::App::new(empty(), MemPort::new(to_net), empty(), empty());
    let mut got = None;
    for _ in 0..200 {
        if let Some(t) = net_app.poll_mgmt().unwrap() {
            got = Some(t);
            break;
        }
    }
    assert_eq!(got.unwrap().tlv_type, MgmtToNet::Ping);
    let (to_mgmt, _, _, _) = net_app.into_inner();
    let mut mgmt_app = mgmt::App::new(empty(), empty(), empty(), empty(), empty(), MemPort::new(to_mgmt.written().clone()));
    let mut handled = false;
    for _ in 0..200 {
        if mgmt_app.poll_net().unwrap().is_some() {
            handled = true;
            break;
        }
    }
    assert!(handled);
    let (to_ctl, _, _, _, _, _) = mgmt_app.into_inner();
    let from_net: Tlv<MgmtToCtl> = decode_guarded(to_ctl.written());
    assert_eq!(from_net.tlv_type, MgmtToCtl::FromNet);
    let mut s: &[u8] = from_net.value.as_slice();
    let pong: Tlv<NetToMgmt> = s.read_tlv().unwrap().unwrap();
    assert_eq!(pong.tlv_type, NetToMgmt::Pong);
    assert_eq!(pong.value.as_slice(), b"hello net");
}

#[test]
fn ui_first_circular_route() {
    let payload = Tlv::encode(MgmtToUi::CircularPing, b"hello ui circular");
    let (_, to_ui, _) = mgmt_on_ctl(guarded(CtlToMgmt::ToUi, payload.as_slice()));
    let mut ui_app = ui::App::new(empty(), MemPort::new(to_ui), empty(), empty());
    for _ in 0..200 {
        if ui_app.poll_mgmt().unwrap().is_some() {
            break;
        }
    }
    let (_, ui_to_net, _, _) = ui_app.into_inner();
    let mut net_app = net::App::new(empty(), empty(), empty(), MemPort::new(ui_to_net.written().clone()));
    for _ in 0..200 {
        if net_app.poll_ui().unwrap().is_some() {
            break;
        }
    }
    let (net_to_mgmt, _, _, _) = net_app.into_inner();
    let mut mgmt_app = mgmt::App::new(empty(), empty(), empty(), empty(), empty(), MemPort::new(net_to_mgmt.written().clone()));
    for _ in 0..200 {
        if mgmt_app.poll_net().unwrap().is_some() {
            break;
        }
    }
    let (to_ctl, _, _, _, _, _) = mgmt_app.into_inner();
    let back: Tlv<MgmtToCtl> = decode_guarded(to_ctl.written());
    assert_eq!(back.tlv_type, MgmtToCtl::UiFirstCircularPing);
    assert_eq!(back.value.as_slice(), b"hello ui circular");
}

#[test]
fn net_first_circular_route() {
    let (_, _, to_net) = mgmt_on_ctl(guarded(CtlToMgmt::NetFirstCircularPing, b"hello net circular"));
    let mut net_app = net::App::new(empty(), MemPort::new(to_net), empty(), empty());
    for _ in 0..200 {
        if net_app.poll_mgmt().unwrap().is_some() {
            break;
        }
    }
    let (_, net_to_ui, _, _) = net_app.into_inner();
    let mut ui_app = ui::App::new(empty(), empty(), empty(), MemPort::new(net_to_ui.written().clone()));
    for _ in 0..200 {
        if ui_app.poll_net().unwrap().is_some() {
            break;
        }
    }
    let (ui_to_mgmt, _, _, _) = ui_app.into_inner();
    let mut mgmt_app = mgmt::App::new(empty(), empty(), empty(), MemPort::new(ui_to_mgmt.written().clone()), empty(), empty());
    for _ in 0..10 {
        mgmt_app.poll_ui().unwrap();
    }
    let (to_ctl, _, _, _, _, _) = mgmt_app.into_inner();
    let from_ui: Tlv<MgmtToCtl> = decode_guarded(to_ctl.written());
    assert_eq!(from_ui.tlv_type, MgmtToCtl::FromUi);
    let inner: Tlv<UiToMgmt> = decode_guarded(from_ui.value.as_slice());
    assert_eq!(inner.tlv_type, UiToMgmt::CircularPing);
    assert_eq!(inner.value.as_slice(), b"hello net circular");
}

#[test]
fn ws_mode_default() {
    assert_eq!(net::WsMode::default(), net::WsMode::Normal);
}
