use link::mgmt::{baud_rate_change, mgmt_ctl_action, BaudRateChange, LinkCtlToMgmt, LinkMgmtToCtl, MgmtAction};
use link::mocks::MemorySettingsStore;
use link::net_ctl::{
    error_text, handle_mgmt, net_after_save, net_ctl_step, CtlToNet, NetAction, NetError, NetLimits, NetLoopbackMode,
    NetOutput, NetReply, NetSettings, NetToCtl, WsCommand,
};

fn limits() -> NetLimits {
    NetLimits { wifi_ssids: 2, ssid_len: 8, password_len: 8, relay_url_len: 16 }
}

#[test]
fn mgmt_hello_xors_link() {
    match mgmt_ctl_action(LinkCtlToMgmt::Hello, &[0x12, 0x34, 0x56, 0x78]) {
        MgmtAction::Reply(k, v) => {
            assert_eq!(k, LinkMgmtToCtl::Hello);
            assert_eq!(v, vec![0x12 ^ b'L', 0x34 ^ b'I', 0x56 ^ b'N', 0x78 ^ b'K']);
        }
        _ => panic!("not a reply"),
    }
}

#[test]
fn mgmt_ping_and_forward() {
    assert!(matches!(mgmt_ctl_action(LinkCtlToMgmt::Ping, b"hi"), MgmtAction::Reply(LinkMgmtToCtl::Pong, v) if v == b"hi"));
    assert!(matches!(mgmt_ctl_action(LinkCtlToMgmt::ToUi, b"ab"), MgmtAction::ForwardUi(v) if v == b"ab"));
    assert!(matches!(mgmt_ctl_action(LinkCtlToMgmt::ToNet, b"cd"), MgmtAction::ForwardNet(v) if v == b"cd"));
}

#[test]
fn mgmt_set_pin_and_baud() {
    assert!(matches!(mgmt_ctl_action(LinkCtlToMgmt::SetPin, &[3]), MgmtAction::SetPin { pin: 3, level: 0 }));
    let a = mgmt_ctl_action(LinkCtlToMgmt::SetCtlBaudRate, &[0x00, 0x0E, 0x10, 0x00]);
    assert_eq!(baud_rate_change(&a), BaudRateChange::Ctl(921600));
    let a = mgmt_ctl_action(LinkCtlToMgmt::SetNetBaudRate, &[0x00, 0x01, 0xC2, 0x00]);
    assert_eq!(baud_rate_change(&a), BaudRateChange::Net(115200));
    let a = mgmt_ctl_action(LinkCtlToMgmt::RepaintStack, &[]);
    assert_eq!(baud_rate_change(&a), BaudRateChange::Unchanged);
}

#[test]
fn net_wifi_add_and_full() {
    let mut s = NetSettings::new(limits());
    let mut lb = NetLoopbackMode::Off;
    assert!(matches!(net_ctl_step(&mut s, &mut lb, CtlToNet::AddWifiSsid, b"", Some((b"Net1", b"Pass1"))), NetAction::Save));
    assert!(matches!(net_ctl_step(&mut s, &mut lb, CtlToNet::AddWifiSsid, b"", Some((b"Net2", b"Pass2"))), NetAction::Save));
    assert!(matches!(net_ctl_step(&mut s, &mut lb, CtlToNet::AddWifiSsid, b"", Some((b"Net3", b"Pass3"))), NetAction::Fail(NetError::Add)));
    assert!(matches!(net_ctl_step(&mut s, &mut lb, CtlToNet::AddWifiSsid, b"", None), NetAction::Fail(NetError::Deserialize)));
    assert_eq!(s.wifi_count(), 2);
    assert_eq!(s.wifi_at(1), (&b"Net2"[..], &b"Pass2"[..]));
    assert!(matches!(net_ctl_step(&mut s, &mut lb, CtlToNet::ClearWifiSsids, b"", None), NetAction::Save));
    assert_eq!(s.wifi_count(), 0);
}

#[test]
fn net_relay_url() {
    let mut s = NetSettings::new(limits());
    let mut lb = NetLoopbackMode::Off;
    assert!(matches!(net_ctl_step(&mut s, &mut lb, CtlToNet::SetRelayUrl, &[0xFF], None), NetAction::Fail(NetError::Utf8)));
    assert!(matches!(net_ctl_step(&mut s, &mut lb, CtlToNet::SetRelayUrl, b"https://a.very.long.relay", None), NetAction::Fail(NetError::SetFailed)));
    let a = net_ctl_step(&mut s, &mut lb, CtlToNet::SetRelayUrl, b"wss://relay", None);
    assert!(matches!(&a, NetAction::SaveThenConnect(u) if u == b"wss://relay"));
    assert!(matches!(net_after_save(&a, true), NetReply::ConnectThenAck(u) if u == b"wss://relay"));
    assert!(matches!(net_after_save(&a, false), NetReply::Fail(NetError::Save)));
    assert!(matches!(net_ctl_step(&mut s, &mut lb, CtlToNet::GetRelayUrl, b"", None), NetAction::Reply(NetToCtl::RelayUrl, u) if u == b"wss://relay"));
}

#[test]
fn net_loopback_and_logs() {
    let mut s = NetSettings::new(limits());
    let mut lb = NetLoopbackMode::Off;
    assert!(matches!(net_ctl_step(&mut s, &mut lb, CtlToNet::SetLoopback, &[2], None), NetAction::Reply(NetToCtl::Ack, _)));
    assert_eq!(lb, NetLoopbackMode::Moq);
    assert!(matches!(net_ctl_step(&mut s, &mut lb, CtlToNet::GetLoopback, b"", None), NetAction::Reply(NetToCtl::Loopback, v) if v == [2]));
    assert!(matches!(net_ctl_step(&mut s, &mut lb, CtlToNet::SetLogsEnabled, b"", None), NetAction::Save));
    assert!(matches!(net_ctl_step(&mut s, &mut lb, CtlToNet::GetLogsEnabled, b"", None), NetAction::Reply(NetToCtl::LogsEnabled, v) if v == [1]));
}

#[test]
fn net_text_settings() {
    let mut s = NetSettings::new(limits());
    let mut lb = NetLoopbackMode::Off;
    assert!(matches!(net_ctl_step(&mut s, &mut lb, CtlToNet::SetLanguage, b"en-US", None), NetAction::Save));
    assert!(matches!(net_ctl_step(&mut s, &mut lb, CtlToNet::GetLanguage, b"", None), NetAction::Reply(NetToCtl::Language, v) if v == b"en-US"));
    assert!(matches!(net_ctl_step(&mut s, &mut lb, CtlToNet::SetLanguage, b"a-language-name-too-long", None), NetAction::Fail(NetError::Length)));
    assert!(matches!(net_ctl_step(&mut s, &mut lb, CtlToNet::BurnJtagEfuse, b"", None), NetAction::Fail(NetError::NotImplemented)));
    assert_eq!(error_text(NetError::NotImplemented), "not implemented");
    assert!(matches!(net_after_save(&NetAction::Save, true), NetReply::Ack));
}

fn storage_limits() -> NetLimits {
    NetLimits { wifi_ssids: 4, ssid_len: 32, password_len: 64, relay_url_len: 128 }
}

#[test]
fn default_storage_empty() {
    let storage = NetSettings::new(storage_limits());
    assert_eq!(storage.wifi_count(), 0);
    assert_eq!(storage.get_relay_url(), b"");
}

#[test]
fn storage_add_and_get_wifi_ssid() {
    let mut storage = NetSettings::new(storage_limits());
    storage.add_wifi_ssid(b"MyNetwork", b"MyPassword").unwrap();
    assert_eq!(storage.wifi_count(), 1);
    assert_eq!(storage.wifi_at(0), (&b"MyNetwork"[..], &b"MyPassword"[..]));
}

#[test]
fn add_multiple_wifi_ssids() {
    let mut storage = NetSettings::new(storage_limits());
    storage.add_wifi_ssid(b"Network1", b"Pass1").unwrap();
    storage.add_wifi_ssid(b"Network2", b"Pass2").unwrap();
    storage.add_wifi_ssid(b"Network3", b"Pass3").unwrap();
    assert_eq!(storage.wifi_count(), 3);
}

#[test]
fn storage_clear_wifi_ssids() {
    let mut storage = NetSettings::new(storage_limits());
    storage.add_wifi_ssid(b"Network1", b"Pass1").unwrap();
    storage.add_wifi_ssid(b"Network2", b"Pass2").unwrap();
    storage.clear_wifi_ssids();
    assert_eq!(storage.wifi_count(), 0);
}

#[test]
fn storage_set_and_get_relay_url() {
    let mut storage = NetSettings::new(storage_limits());
    storage.set_relay_url(b"https://relay.example.com/stream").unwrap();
    assert_eq!(storage.get_relay_url(), b"https://relay.example.com/stream");
}

#[test]
fn max_wifi_ssids() {
    let lim = storage_limits();
    let mut storage = NetSettings::new(lim);
    for i in 0..lim.wifi_ssids {
        storage.add_wifi_ssid(format!("Net{}", i).as_bytes(), format!("Pass{}", i).as_bytes()).unwrap();
    }
    assert!(storage.add_wifi_ssid(b"Overflow", b"Pass").is_err());
}

#[test]
fn handle_mgmt_set_relay_url_queues_connect() {
    let mut storage = NetSettings::new(storage_limits());
    let mut store = MemorySettingsStore::new();
    let mut out: Vec<NetOutput> = Vec::new();
    let mut loopback = NetLoopbackMode::Off;
    let wanted = handle_mgmt(
        CtlToNet::SetRelayUrl,
        b"wss://relay.example.com",
        None,
        &mut storage,
        &mut store,
        &mut out,
        &mut loopback,
    );
    assert!(!wanted);
    assert_eq!(storage.get_relay_url(), b"wss://relay.example.com");
    assert_eq!(store.last_saved().unwrap().get_relay_url(), b"wss://relay.example.com");
    assert_eq!(out.len(), 2);
    match &out[0] {
        NetOutput::ToRelay(WsCommand::Connect(url)) => assert_eq!(url, b"wss://relay.example.com"),
        _ => panic!("Expected WsCommand::Connect"),
    }
    assert!(matches!(&out[1], NetOutput::ToMgmt(NetToCtl::Ack, v) if v.is_empty()));
    assert!(!out.iter().any(|o| matches!(o, NetOutput::ToUi(_))));
    assert_eq!(loopback, NetLoopbackMode::Off);
}

#[test]
fn handle_mgmt_failed_save_answers_error() {
    let mut storage = NetSettings::new(storage_limits());
    let mut store = MemorySettingsStore::failing();
    let mut out: Vec<NetOutput> = Vec::new();
    let mut loopback = NetLoopbackMode::Off;
    handle_mgmt(CtlToNet::SetRelayUrl, b"wss://r", None, &mut storage, &mut store, &mut out, &mut loopback);
    assert!(store.last_saved().is_none());
    assert_eq!(out.len(), 1);
    assert!(matches!(&out[0], NetOutput::ToMgmt(NetToCtl::Error, v) if v == b"save"));
}

#[test]
fn handle_mgmt_get_relay_url_returns_stored_url() {
    let mut storage = NetSettings::new(storage_limits());
    storage.set_relay_url(b"wss://test.relay").unwrap();
    let mut store = MemorySettingsStore::new();
    let mut out: Vec<NetOutput> = Vec::new();
    let mut loopback = NetLoopbackMode::Off;
    handle_mgmt(CtlToNet::GetRelayUrl, b"", None, &mut storage, &mut store, &mut out, &mut loopback);
    assert_eq!(out.len(), 1);
    assert!(matches!(&out[0], NetOutput::ToMgmt(NetToCtl::RelayUrl, v) if v == b"wss://test.relay"));
    assert!(store.last_saved().is_none());
}

#[test]
fn handle_mgmt_ping_sends_pong() {
    let mut storage = NetSettings::new(storage_limits());
    let mut store = MemorySettingsStore::new();
    let mut out: Vec<NetOutput> = Vec::new();
    let mut loopback = NetLoopbackMode::Off;
    handle_mgmt(CtlToNet::Ping, b"hello", None, &mut storage, &mut store, &mut out, &mut loopback);
    assert_eq!(out.len(), 1);
    assert!(matches!(&out[0], NetOutput::ToMgmt(NetToCtl::Pong, v) if v == b"hello"));
}
