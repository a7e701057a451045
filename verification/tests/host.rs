use link::host::{check_reply, App, PingError, PingKind};
use link::mgmt;
use link::net;
use link::port::MemPort;
use link::tlv::{
    CtlToMgmt, MgmtToCtl, MgmtToUi, NetToMgmt, Tlv, UiToMgmt, WriteTlv, SYNC_WORD,
};
use link::ui;

fn framed_tlv<T: link::tlv::TlvType>(t: T, value: &[u8]) -> Vec<u8> {
    let mut v = SYNC_WORD.to_vec();
    WriteTlv::<T>::write_tlv(&mut v, t, value).unwrap();
    v
}

fn no_input() -> MemPort {
    MemPort::new(vec![])
}

/// What the host writes for one request.
fn host_request(send: impl FnOnce(&mut App<MemPort, MemPort>)) -> Vec<u8> {
    let mut host = App::new(no_input(), no_input());
    send(&mut host);
    let (to_mgmt, _) = host.into_inner();
    to_mgmt.written().clone()
}

/// Let the host read an answer and check it.
fn host_check(kind: PingKind, data: &[u8], answer: Vec<u8>) -> Result<(), PingError> {
    let mut host = App::new(no_input(), MemPort::new(answer));
    for _ in 0..400 {
        if let Some(out) = host.poll_reply() {
            let reply = out.ok().unwrap().unwrap();
            return check_reply(kind, data, &reply);
        }
    }
    panic!("no answer");
}

/// Run the management chip on host bytes; returns its output to the host, UI and NET.
fn mgmt_step(input: Vec<u8>) -> (Vec<u8>, Vec<u8>, Vec<u8>) {
    let mut app = mgmt::App::new(no_input(), MemPort::new(input), no_input(), no_input(), no_input(), no_input());
    for _ in 0..400 {
        if app.poll_ctl().unwrap().is_some() {
            break;
        }
    }
    let (c, u, n, _, _, _) = app.into_inner();
    (c.written().clone(), u.written().clone(), n.written().clone())
}

/// The management chip passing UI bytes to the host.
fn mgmt_from_ui(bytes: Vec<u8>) -> Vec<u8> {
    let mut app = mgmt::App::new(no_input(), no_input(), no_input(), MemPort::new(bytes), no_input(), no_input());
    for _ in 0..10 {
        app.poll_ui().unwrap();
    }
    app.into_inner().0.written().clone()
}

/// The management chip handling one NET message.
fn mgmt_from_net(bytes: Vec<u8>) -> Vec<u8> {
    let mut app = mgmt::App::new(no_input(), no_input(), no_input(), no_input(), no_input(), MemPort::new(bytes));
    for _ in 0..400 {
        if app.poll_net().unwrap().is_some() {
            break;
        }
    }
    app.into_inner().0.written().clone()
}

/// The UI chip on bytes from the management chip (`from_mgmt`) or the NET chip;
/// returns its output to the management and NET chips.
fn ui_step(bytes: Vec<u8>, from_mgmt: bool) -> (Vec<u8>, Vec<u8>) {
    let mut app = if from_mgmt {
        ui::App::new(no_input(), MemPort::new(bytes), no_input(), no_input())
    } else {
        ui::App::new(no_input(), no_input(), no_input(), MemPort::new(bytes))
    };
    for _ in 0..400 {
        let done = if from_mgmt { app.poll_mgmt().unwrap().is_some() } else { app.poll_net().unwrap().is_some() };
        if done {
            break;
        }
    }
    let (m, n, _, _) = app.into_inner();
    (m.written().clone(), n.written().clone())
}

/// The NET chip on bytes from the management chip (`from_mgmt`) or the UI chip;
/// returns its output to the management and UI chips.
fn net_step(bytes: Vec<u8>, from_mgmt: bool) -> (Vec<u8>, Vec<u8>) {
    let mut app = if from_mgmt {
        net::App::new(no_input(), MemPort::new(bytes), no_input(), no_input())
    } else {
        net::App::new(no_input(), no_input(), no_input(), MemPort::new(bytes))
    };
    for _ in 0..400 {
        let done = if from_mgmt { app.poll_mgmt().unwrap().is_some() } else { app.poll_ui().unwrap().is_some() };
        if done {
            break;
        }
    }
    let (m, u, _, _) = app.into_inner();
    (m.written().clone(), u.written().clone())
}

#[test]
fn host_mgmt_ping_request_bytes() {
    let sent = host_request(|h| h.send_mgmt_ping(b"hello").unwrap());
    assert_eq!(sent, framed_tlv(CtlToMgmt::Ping, b"hello"));
}

#[test]
fn host_ui_ping_request_bytes() {
    let sent = host_request(|h| h.send_ui_ping(b"hi").unwrap());
    let payload = Tlv::encode(MgmtToUi::Ping, b"hi");
    assert_eq!(sent, framed_tlv(CtlToMgmt::ToUi, payload.as_slice()));
}

#[test]
fn lib_ctl_mgmt_ping() {
    let (to_ctl, _, _) = mgmt_step(host_request(|h| h.send_mgmt_ping(b"hello mgmt").unwrap()));
    assert_eq!(host_check(PingKind::Mgmt, b"hello mgmt", to_ctl), Ok(()));
}

#[test]
fn ctl_mgmt_ui_ping() {
    let (_, to_ui, _) = mgmt_step(host_request(|h| h.send_ui_ping(b"hello ui").unwrap()));
    let (ui_to_mgmt, _) = ui_step(to_ui, true);
    let to_ctl = mgmt_from_ui(ui_to_mgmt);
    assert_eq!(host_check(PingKind::Ui, b"hello ui", to_ctl), Ok(()));
}

#[test]
fn ctl_mgmt_net_ping() {
    let (_, _, to_net) = mgmt_step(host_request(|h| h.send_net_ping(b"hello net").unwrap()));
    let (net_to_mgmt, _) = net_step(to_net, true);
    let to_ctl = mgmt_from_net(net_to_mgmt);
    assert_eq!(host_check(PingKind::Net, b"hello net", to_ctl), Ok(()));
}

#[test]
fn lib_ui_first_circular_ping() {
    let (_, to_ui, _) = mgmt_step(host_request(|h| h.ui_first_circular_ping(b"hello ui circular").unwrap()));
    let (_, ui_to_net) = ui_step(to_ui, true);
    let (net_to_mgmt, _) = net_step(ui_to_net, false);
    let to_ctl = mgmt_from_net(net_to_mgmt);
    assert_eq!(host_check(PingKind::UiFirstCircular, b"hello ui circular", to_ctl), Ok(()));
}

#[test]
fn lib_net_first_circular_ping() {
    let (_, _, to_net) = mgmt_step(host_request(|h| h.net_first_circular_ping(b"hello net circular").unwrap()));
    let (_, net_to_ui) = net_step(to_net, true);
    let (ui_to_mgmt, _) = ui_step(net_to_ui, false);
    let to_ctl = mgmt_from_ui(ui_to_mgmt);
    assert_eq!(host_check(PingKind::NetFirstCircular, b"hello net circular", to_ctl), Ok(()));
}

fn reply(t: MgmtToCtl, v: &[u8]) -> Tlv<MgmtToCtl> {
    Tlv { tlv_type: t, value: heapless::Vec::from_slice(v).unwrap() }
}

#[test]
fn check_reply_wrong_type() {
    assert_eq!(check_reply(PingKind::Mgmt, b"x", &reply(MgmtToCtl::FromUi, b"x")), Err(PingError::UnexpectedResponse));
    assert_eq!(check_reply(PingKind::Net, b"x", &reply(MgmtToCtl::Pong, b"x")), Err(PingError::UnexpectedResponse));
}

#[test]
fn check_reply_data_mismatch() {
    assert_eq!(check_reply(PingKind::Mgmt, b"abc", &reply(MgmtToCtl::Pong, b"abd")), Err(PingError::DataMismatch));
    let inner = framed_tlv(UiToMgmt::Pong, b"abd");
    assert_eq!(check_reply(PingKind::Ui, b"abc", &reply(MgmtToCtl::FromUi, &inner)), Err(PingError::DataMismatch));
}

#[test]
fn check_reply_inner_type() {
    let inner = framed_tlv(UiToMgmt::CircularPing, b"abc");
    assert_eq!(check_reply(PingKind::Ui, b"abc", &reply(MgmtToCtl::FromUi, &inner)), Err(PingError::UnexpectedResponse));
    assert_eq!(check_reply(PingKind::NetFirstCircular, b"abc", &reply(MgmtToCtl::FromUi, &inner)), Ok(()));
}

#[test]
fn check_reply_malformed() {
    assert_eq!(check_reply(PingKind::Ui, b"abc", &reply(MgmtToCtl::FromUi, b"no sync here")), Err(PingError::Malformed));
    let mut net_inner: Vec<u8> = Vec::new();
    WriteTlv::<NetToMgmt>::write_tlv(&mut net_inner, NetToMgmt::Pong, b"abc").unwrap();
    net_inner.pop();
    assert_eq!(check_reply(PingKind::Net, b"abc", &reply(MgmtToCtl::FromNet, &net_inner)), Err(PingError::Malformed));
}

#[test]
fn check_reply_net_pong() {
    let mut net_inner: Vec<u8> = Vec::new();
    WriteTlv::<NetToMgmt>::write_tlv(&mut net_inner, NetToMgmt::Pong, b"abc").unwrap();
    assert_eq!(check_reply(PingKind::Net, b"abc", &reply(MgmtToCtl::FromNet, &net_inner)), Ok(()));
}
