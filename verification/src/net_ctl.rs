//! The NET firmware's handling of host commands: the settings it keeps (Wi-Fi
//! networks, relay URL, language, channel, AI configuration, log flag), the
//! loopback mode held in RAM, and the answer to each command.
//!
//! `net_ctl_step` decides a command: a command that changes stored settings asks
//! for a save (`NetAction::Save` or `NetAction::SaveThenConnect`), and
//! `net_after_save` gives the answer once the save succeeded or failed.
//! `handle_mgmt` carries the decision out: it saves through a `SettingsStore` and
//! queues, in order, what goes to the management chip, the UI chip and the relay
//! connection. Decoding a Wi-Fi entry from JSON and encoding the network list as
//! JSON are the caller's.
use vstd::prelude::*;

use crate::esp::str_from_utf8;
use crate::mgmt::copy_bytes;

verus! {

/// Longest language setting, in bytes.
pub const MAX_LANGUAGE_LEN: usize = 16;

/// Longest channel configuration, in bytes.
pub const MAX_CHANNEL_LEN: usize = 256;

/// Longest AI configuration, in bytes.
pub const MAX_AI_LEN: usize = 512;

/// Host commands for the NET firmware (their wire codes belong to the protocol
/// definition, not to this crate).
#[derive(Debug, Clone, Copy, PartialEq, Eq, Structural)]
pub enum CtlToNet {
    Ping,
    CircularPing,
    AddWifiSsid,
    GetWifiSsids,
    ClearWifiSsids,
    GetRelayUrl,
    SetRelayUrl,
    SetLoopback,
    GetLoopback,
    GetLogsEnabled,
    SetLogsEnabled,
    ClearStorage,
    GetLanguage,
    SetLanguage,
    GetChannel,
    SetChannel,
    GetAi,
    SetAi,
    BurnJtagEfuse,
}

/// Answers of the NET firmware to the host.
#[derive(Debug, Clone, Copy, PartialEq, Eq, Structural)]
pub enum NetToCtl {
    Pong,
    Ack,
    Error,
    WifiSsids,
    RelayUrl,
    Loopback,
    LogsEnabled,
    Language,
    Channel,
    Ai,
}

/// What the NET chip does with audio: normal, raw loopback, or loopback through
/// the relay.
#[derive(Debug, Clone, Copy, PartialEq, Eq, Structural)]
pub enum NetLoopbackMode {
    Off,
    Raw,
    Moq,
}

/// The number that stands for a loopback mode on the wire.
pub open spec fn loopback_code(m: NetLoopbackMode) -> u8 {
    match m {
        NetLoopbackMode::Off => 0,
        NetLoopbackMode::Raw => 1,
        NetLoopbackMode::Moq => 2,
    }
}

/// The loopback mode that a number selects: 1 raw, 2 relay, anything else off.
pub open spec fn loopback_of(b: u8) -> NetLoopbackMode {
    if b == 1 {
        NetLoopbackMode::Raw
    } else if b == 2 {
        NetLoopbackMode::Moq
    } else {
        NetLoopbackMode::Off
    }
}

/// Why a command failed; the host receives the text as the value of `Error`.
#[derive(Debug, Clone, Copy, PartialEq, Eq, Structural)]
pub enum NetError {
    /// The Wi-Fi entry could not be decoded.
    Deserialize,
    /// The Wi-Fi list is full, or the name or password is too long.
    Add,
    /// Writing the settings to flash failed.
    Save,
    /// The relay URL is not UTF-8.
    Utf8,
    /// The relay URL is too long.
    SetFailed,
    /// The setting is too long.
    Length,
    /// The command is not implemented.
    NotImplemented,
}

/// The text of an error.
pub open spec fn error_text_of(e: NetError) -> Seq<char> {
    match e {
        NetError::Deserialize => "deserialize"@,
        NetError::Add => "add"@,
        NetError::Save => "save"@,
        NetError::Utf8 => "utf8"@,
        NetError::SetFailed => "set"@,
        NetError::Length => "length"@,
        NetError::NotImplemented => "not implemented"@,
    }
}

/// The text of an error.
pub fn error_text(e: NetError) -> (r: &'static str)
    ensures
        r@ == error_text_of(e),
{
    proof {
        reveal_strlit("deserialize");
        reveal_strlit("add");
        reveal_strlit("save");
        reveal_strlit("utf8");
        reveal_strlit("set");
        reveal_strlit("length");
        reveal_strlit("not implemented");
    }
    match e {
        NetError::Deserialize => "deserialize",
        NetError::Add => "add",
        NetError::Save => "save",
        NetError::Utf8 => "utf8",
        NetError::SetFailed => "set",
        NetError::Length => "length",
        NetError::NotImplemented => "not implemented",
    }
}

/// Capacities of the stored settings that the protocol definition fixes.
#[derive(Debug, Clone, Copy, PartialEq, Eq, Structural)]
pub struct NetLimits {
    /// Most Wi-Fi networks kept.
    pub wifi_ssids: usize,
    /// Longest network name, in bytes.
    pub ssid_len: usize,
    /// Longest password, in bytes.
    pub password_len: usize,
    /// Longest relay URL, in bytes.
    pub relay_url_len: usize,
}

/// The settings that the NET chip keeps in flash.
pub struct NetSettings {
    limits: NetLimits,
    ssids: Vec<Vec<u8>>,
    passwords: Vec<Vec<u8>>,
    relay_url: Vec<u8>,
    language: Vec<u8>,
    channel: Vec<u8>,
    ai: Vec<u8>,
    logs_enabled: bool,
}

/// The plain contents of the settings.
pub struct NetSettingsView {
    pub wifi: Seq<(Seq<u8>, Seq<u8>)>,
    pub relay_url: Seq<u8>,
    pub language: Seq<u8>,
    pub channel: Seq<u8>,
    pub ai: Seq<u8>,
    pub logs_enabled: bool,
}

/// Settings with nothing stored.
pub open spec fn empty_settings() -> NetSettingsView {
    NetSettingsView {
        wifi: Seq::empty(),
        relay_url: Seq::empty(),
        language: Seq::empty(),
        channel: Seq::empty(),
        ai: Seq::empty(),
        logs_enabled: false,
    }
}

impl View for NetSettings {
    type V = NetSettingsView;

    closed spec fn view(&self) -> NetSettingsView {
        NetSettingsView {
            wifi: Seq::new(self.ssids@.len(), |i: int| (self.ssids@[i]@, self.passwords@[i]@)),
            relay_url: self.relay_url@,
            language: self.language@,
            channel: self.channel@,
            ai: self.ai@,
            logs_enabled: self.logs_enabled,
        }
    }
}

impl NetSettings {
    /// The capacities.
    pub closed spec fn limits(&self) -> NetLimits {
        self.limits
    }

    /// The lists of names and passwords have one entry per network.
    pub closed spec fn wf(&self) -> bool {
        self.ssids@.len() == self.passwords@.len()
    }

    /// Settings with nothing stored.
    pub fn new(limits: NetLimits) -> (s: Self)
        ensures
            s.wf(),
            s.limits() == limits,
            s@ == empty_settings(),
    {
        let s = NetSettings {
            limits,
            ssids: Vec::new(),
            passwords: Vec::new(),
            relay_url: Vec::new(),
            language: Vec::new(),
            channel: Vec::new(),
            ai: Vec::new(),
            logs_enabled: false,
        };
        assert(s@.wifi =~= Seq::<(Seq<u8>, Seq<u8>)>::empty());
        s
    }

    /// Number of stored Wi-Fi networks.
    pub fn wifi_count(&self) -> (r: usize)
        requires
            self.wf(),
        ensures
            r == self@.wifi.len(),
    {
        self.ssids.len()
    }

    /// Name and password of the `i`-th stored network.
    pub fn wifi_at(&self, i: usize) -> (r: (&[u8], &[u8]))
        requires
            self.wf(),
            i < self@.wifi.len(),
        ensures
            (r.0@, r.1@) == self@.wifi[i as int],
    {
        (self.ssids[i].as_slice(), self.passwords[i].as_slice())
    }

    /// The relay URL.
    pub fn relay_url(&self) -> (r: &[u8])
        ensures
            r@ == self@.relay_url,
    {
        self.relay_url.as_slice()
    }

    /// The relay URL.
    pub fn get_relay_url(&self) -> (r: &[u8])
        ensures
            r@ == self@.relay_url,
    {
        self.relay_url.as_slice()
    }

    /// Add a Wi-Fi network; refused (and nothing changes) when the list is full or
    /// the name or password is too long.
    pub fn add_wifi_ssid(&mut self, ssid: &[u8], password: &[u8]) -> (r: Result<(), ()>)
        requires
            old(self).wf(),
        ensures
            final(self).wf(),
            final(self).limits() == old(self).limits(),
            r is Ok <==> (old(self)@.wifi.len() < old(self).limits().wifi_ssids && ssid@.len()
                <= old(self).limits().ssid_len && password@.len() <= old(self).limits().password_len),
            r is Ok ==> final(self)@ == (NetSettingsView { wifi: old(self)@.wifi.push((ssid@, password@)), ..old(self)@ }),
            r is Err ==> final(self)@ == old(self)@,
    {
        if self.ssids.len() >= self.limits.wifi_ssids || ssid.len() > self.limits.ssid_len || password.len()
            > self.limits.password_len {
            return Err(());
        }
        let ghost s0 = self@;
        self.ssids.push(copy_bytes(ssid));
        self.passwords.push(copy_bytes(password));
        assert(self@.wifi =~= s0.wifi.push((ssid@, password@)));
        Ok(())
    }

    /// Forget every Wi-Fi network.
    pub fn clear_wifi_ssids(&mut self)
        ensures
            final(self).wf(),
            final(self).limits() == old(self).limits(),
            final(self)@ == (NetSettingsView { wifi: Seq::empty(), ..old(self)@ }),
    {
        self.ssids = Vec::new();
        self.passwords = Vec::new();
        assert(self@.wifi =~= Seq::<(Seq<u8>, Seq<u8>)>::empty());
    }

    /// Set the relay URL; refused (and nothing changes) when it is too long.
    pub fn set_relay_url(&mut self, url: &[u8]) -> (r: Result<(), ()>)
        requires
            old(self).wf(),
        ensures
            final(self).wf(),
            final(self).limits() == old(self).limits(),
            r is Ok <==> url@.len() <= old(self).limits().relay_url_len,
            r is Ok ==> final(self)@ == (NetSettingsView { relay_url: url@, ..old(self)@ }),
            r is Err ==> final(self)@ == old(self)@,
    {
        if url.len() > self.limits.relay_url_len {
            return Err(());
        }
        let ghost s0 = self@;
        self.relay_url = copy_bytes(url);
        assert(self@.wifi =~= s0.wifi);
        Ok(())
    }

    /// Whether log output is on.
    pub fn get_logs_enabled(&self) -> (r: bool)
        ensures
            r == self@.logs_enabled,
    {
        self.logs_enabled
    }

    /// A copy of the settings.
    pub fn copy(&self) -> (r: Self)
        requires
            self.wf(),
        ensures
            r.wf(),
            r.limits() == self.limits(),
            r@ == self@,
    {
        let mut ssids: Vec<Vec<u8>> = Vec::new();
        let mut passwords: Vec<Vec<u8>> = Vec::new();
        let mut i: usize = 0;
        while i < self.ssids.len()
            invariant
                self.wf(),
                i <= self.ssids@.len(),
                ssids@.len() == i,
                passwords@.len() == i,
                forall|j: int| 0 <= j < i ==> #[trigger] ssids@[j]@ == self.ssids@[j]@ && passwords@[j]@
                    == self.passwords@[j]@,
            decreases self.ssids@.len() - i,
        {
            ssids.push(copy_bytes(self.ssids[i].as_slice()));
            passwords.push(copy_bytes(self.passwords[i].as_slice()));
            i = i + 1;
        }
        let r = NetSettings {
            limits: self.limits,
            ssids,
            passwords,
            relay_url: copy_bytes(self.relay_url.as_slice()),
            language: copy_bytes(self.language.as_slice()),
            channel: copy_bytes(self.channel.as_slice()),
            ai: copy_bytes(self.ai.as_slice()),
            logs_enabled: self.logs_enabled,
        };
        assert(r@.wifi =~= self@.wifi);
        r
    }
}

/// What the NET firmware does for one host command.
#[derive(Debug)]
pub enum NetAction {
    /// Answer the management chip with a TLV of this type and value.
    Reply(NetToCtl, Vec<u8>),
    /// Answer `Error` with the error's text.
    Fail(NetError),
    /// Send the value to the UI chip as a circular ping.
    CircularToUi(Vec<u8>),
    /// Answer `WifiSsids` with the stored networks encoded as JSON.
    SendWifiSsids,
    /// Save the settings, then answer (see `net_after_save`).
    Save,
    /// Save the settings, then reconnect to this relay URL and answer (see
    /// `net_after_save`).
    SaveThenConnect(Vec<u8>),
}

/// What follows a save.
#[derive(Debug)]
pub enum NetReply {
    /// Answer `Ack`.
    Ack,
    /// Answer `Error` with the error's text.
    Fail(NetError),
    /// Send the relay a connect to this URL, then answer `Ack`.
    ConnectThenAck(Vec<u8>),
    /// Nothing more to do.
    Done,
}

/// Whether bytes are valid UTF-8.
fn is_utf8(b: &[u8]) -> (r: bool)
    ensures
        r == vstd::utf8::valid_utf8(b@),
{
    str_from_utf8(b).is_some()
}

/// The first byte of a value, or `d` when it is empty.
pub open spec fn first_or(v: Seq<u8>, d: u8) -> u8 {
    if v.len() > 0 {
        v[0]
    } else {
        d
    }
}

/// A text setting as stored from a value: the value when it is UTF-8, else empty.
pub open spec fn text_or_empty(v: Seq<u8>) -> Seq<u8> {
    if vstd::utf8::valid_utf8(v) {
        v
    } else {
        Seq::empty()
    }
}

/// Store a text setting of at most `max` bytes; `false` (and no change) when longer.
fn set_text(dst: &mut Vec<u8>, value: &[u8], max: usize) -> (ok: bool)
    ensures
        ok == (text_or_empty(value@).len() <= max),
        ok ==> final(dst)@ == text_or_empty(value@),
        !ok ==> final(dst)@ == old(dst)@,
{
    if is_utf8(value) {
        if value.len() > max {
            return false;
        }
        *dst = copy_bytes(value);
    } else {
        *dst = Vec::new();
    }
    true
}

/// A Wi-Fi entry as plain bytes.
pub open spec fn wifi_view(w: Option<(&[u8], &[u8])>) -> Option<(Seq<u8>, Seq<u8>)> {
    match w {
        Some((n, p)) => Some((n@, p@)),
        None => None,
    }
}

/// What one host command does: from settings `s` (with capacities `lim`) and
/// loopback mode `lb`, command `t` with value `v` (and decoded Wi-Fi entry `wifi`)
/// leads to action `a`, settings `f` and loopback mode `lb2`.
pub open spec fn net_step(
    s: NetSettingsView,
    lim: NetLimits,
    lb: NetLoopbackMode,
    t: CtlToNet,
    v: Seq<u8>,
    wifi: Option<(Seq<u8>, Seq<u8>)>,
    a: NetAction,
    f: NetSettingsView,
    lb2: NetLoopbackMode,
) -> bool {
    match t {
            CtlToNet::Ping => a matches NetAction::Reply(k, w) && k == NetToCtl::Pong && w@ == v && f == s
                && lb2 == lb,
            CtlToNet::CircularPing => a matches NetAction::CircularToUi(w) && w@ == v && f == s
                && lb2 == lb,
            CtlToNet::AddWifiSsid => lb2 == lb && match wifi {
                None => a == NetAction::Fail(NetError::Deserialize) && f == s,
                Some((n, p)) => if s.wifi.len() >= lim.wifi_ssids || n.len() > lim.ssid_len || p.len()
                    > lim.password_len {
                    a == NetAction::Fail(NetError::Add) && f == s
                } else {
                    a is Save && f == NetSettingsView { wifi: s.wifi.push((n, p)), ..s }
                },
            },
            CtlToNet::GetWifiSsids => a is SendWifiSsids && f == s && lb2 == lb,
            CtlToNet::ClearWifiSsids => a is Save && f == NetSettingsView { wifi: Seq::empty(), ..s }
                && lb2 == lb,
            CtlToNet::GetRelayUrl => a matches NetAction::Reply(k, w) && k == NetToCtl::RelayUrl && w@
                == s.relay_url && f == s && lb2 == lb,
            CtlToNet::SetRelayUrl => lb2 == lb && if !vstd::utf8::valid_utf8(v) {
                a == NetAction::Fail(NetError::Utf8) && f == s
            } else if v.len() > lim.relay_url_len {
                a == NetAction::Fail(NetError::SetFailed) && f == s
            } else {
                a matches NetAction::SaveThenConnect(u) && u@ == v && f == NetSettingsView { relay_url: v, ..s }
            },
            CtlToNet::SetLoopback => a matches NetAction::Reply(k, w) && k == NetToCtl::Ack && w@.len() == 0
                && f == s && lb2 == loopback_of(first_or(v, 0)),
            CtlToNet::GetLoopback => a matches NetAction::Reply(k, w) && k == NetToCtl::Loopback && w@ == seq![
                loopback_code(lb),
            ] && f == s && lb2 == lb,
            CtlToNet::GetLogsEnabled => a matches NetAction::Reply(k, w) && k == NetToCtl::LogsEnabled && w@
                == seq![if s.logs_enabled { 1u8 } else { 0u8 }] && f == s && lb2 == lb,
            CtlToNet::SetLogsEnabled => a is Save && f == NetSettingsView { logs_enabled: first_or(v, 1) != 0, ..s }
                && lb2 == lb,
            CtlToNet::ClearStorage => a is Save && f == empty_settings() && lb2 == lb,
            CtlToNet::GetLanguage => a matches NetAction::Reply(k, w) && k == NetToCtl::Language && w@
                == s.language && f == s && lb2 == lb,
            CtlToNet::SetLanguage => lb2 == lb && if text_or_empty(v).len()
                > MAX_LANGUAGE_LEN {
                a == NetAction::Fail(NetError::Length) && f == s
            } else {
                a is Save && f == NetSettingsView { language: text_or_empty(v), ..s }
            },
            CtlToNet::GetChannel => a matches NetAction::Reply(k, w) && k == NetToCtl::Channel && w@
                == s.channel && f == s && lb2 == lb,
            CtlToNet::SetChannel => lb2 == lb && if text_or_empty(v).len()
                > MAX_CHANNEL_LEN {
                a == NetAction::Fail(NetError::Length) && f == s
            } else {
                a is Save && f == NetSettingsView { channel: text_or_empty(v), ..s }
            },
            CtlToNet::GetAi => a matches NetAction::Reply(k, w) && k == NetToCtl::Ai && w@ == s.ai && f == s
                && lb2 == lb,
            CtlToNet::SetAi => lb2 == lb && if text_or_empty(v).len() > MAX_AI_LEN {
                a == NetAction::Fail(NetError::Length) && f == s
            } else {
                a is Save && f == NetSettingsView { ai: text_or_empty(v), ..s }
            },
            CtlToNet::BurnJtagEfuse => a == NetAction::Fail(NetError::NotImplemented) && f == s
                && lb2 == lb,
        }
}

/// Handle one host command. `wifi` is the decoded Wi-Fi entry of `AddWifiSsid`
/// (name and password), `None` when its JSON did not decode.
pub fn net_ctl_step(
    settings: &mut NetSettings,
    loopback: &mut NetLoopbackMode,
    t: CtlToNet,
    value: &[u8],
    wifi: Option<(&[u8], &[u8])>,
) -> (a: NetAction)
    requires
        old(settings).wf(),
    ensures
        final(settings).wf(),
        final(settings).limits() == old(settings).limits(),
        t == CtlToNet::SetLogsEnabled ==> final(settings)@.logs_enabled == (value@.len() == 0 || value@[0] != 0),
        net_step(old(settings)@, old(settings).limits(), *old(loopback), t, value@, wifi_view(wifi), a, final(settings)@,
            *final(loopback)),
{
    let ghost s0 = settings@;
    match t {
        CtlToNet::Ping => NetAction::Reply(NetToCtl::Pong, copy_bytes(value)),
        CtlToNet::CircularPing => NetAction::CircularToUi(copy_bytes(value)),
        CtlToNet::AddWifiSsid => {
            match wifi {
                None => NetAction::Fail(NetError::Deserialize),
                Some((n, p)) => {
                    if settings.ssids.len() >= settings.limits.wifi_ssids || n.len() > settings.limits.ssid_len
                        || p.len() > settings.limits.password_len {
                        return NetAction::Fail(NetError::Add);
                    }
                    settings.ssids.push(copy_bytes(n));
                    settings.passwords.push(copy_bytes(p));
                    assert(settings@.wifi =~= s0.wifi.push((n@, p@)));
                    NetAction::Save
                },
            }
        },
        CtlToNet::GetWifiSsids => NetAction::SendWifiSsids,
        CtlToNet::ClearWifiSsids => {
            settings.ssids = Vec::new();
            settings.passwords = Vec::new();
            assert(settings@.wifi =~= Seq::<(Seq<u8>, Seq<u8>)>::empty());
            NetAction::Save
        },
        CtlToNet::GetRelayUrl => NetAction::Reply(NetToCtl::RelayUrl, copy_bytes(settings.relay_url.as_slice())),
        CtlToNet::SetRelayUrl => {
            if !is_utf8(value) {
                return NetAction::Fail(NetError::Utf8);
            }
            if value.len() > settings.limits.relay_url_len {
                return NetAction::Fail(NetError::SetFailed);
            }
            settings.relay_url = copy_bytes(value);
            assert(settings@.wifi =~= s0.wifi);
            NetAction::SaveThenConnect(copy_bytes(value))
        },
        CtlToNet::SetLoopback => {
            let b: u8 = if value.len() > 0 {
                value[0]
            } else {
                0
            };
            *loopback = if b == 1 {
                NetLoopbackMode::Raw
            } else if b == 2 {
                NetLoopbackMode::Moq
            } else {
                NetLoopbackMode::Off
            };
            NetAction::Reply(NetToCtl::Ack, Vec::new())
        },
        CtlToNet::GetLoopback => {
            let code: u8 = match *loopback {
                NetLoopbackMode::Off => 0,
                NetLoopbackMode::Raw => 1,
                NetLoopbackMode::Moq => 2,
            };
            let mut w: Vec<u8> = Vec::new();
            w.push(code);
            assert(w@ =~= seq![loopback_code(*old(loopback))]);
            NetAction::Reply(NetToCtl::Loopback, w)
        },
        CtlToNet::GetLogsEnabled => {
            let mut w: Vec<u8> = Vec::new();
            w.push(if settings.logs_enabled { 1u8 } else { 0u8 });
            assert(w@ =~= seq![if s0.logs_enabled { 1u8 } else { 0u8 }]);
            NetAction::Reply(NetToCtl::LogsEnabled, w)
        },
        CtlToNet::SetLogsEnabled => {
            let b: u8 = if value.len() > 0 {
                value[0]
            } else {
                1
            };
            settings.logs_enabled = b != 0;
            assert(settings@.wifi =~= s0.wifi);
            NetAction::Save
        },
        CtlToNet::ClearStorage => {
            let limits = settings.limits;
            *settings = NetSettings::new(limits);
            NetAction::Save
        },
        CtlToNet::GetLanguage => NetAction::Reply(NetToCtl::Language, copy_bytes(settings.language.as_slice())),
        CtlToNet::SetLanguage => {
            if !set_text(&mut settings.language, value, MAX_LANGUAGE_LEN) {
                return NetAction::Fail(NetError::Length);
            }
            assert(settings@.wifi =~= s0.wifi);
            NetAction::Save
        },
        CtlToNet::GetChannel => NetAction::Reply(NetToCtl::Channel, copy_bytes(settings.channel.as_slice())),
        CtlToNet::SetChannel => {
            if !set_text(&mut settings.channel, value, MAX_CHANNEL_LEN) {
                return NetAction::Fail(NetError::Length);
            }
            assert(settings@.wifi =~= s0.wifi);
            NetAction::Save
        },
        CtlToNet::GetAi => NetAction::Reply(NetToCtl::Ai, copy_bytes(settings.ai.as_slice())),
        CtlToNet::SetAi => {
            if !set_text(&mut settings.ai, value, MAX_AI_LEN) {
                return NetAction::Fail(NetError::Length);
            }
            assert(settings@.wifi =~= s0.wifi);
            NetAction::Save
        },
        CtlToNet::BurnJtagEfuse => NetAction::Fail(NetError::NotImplemented),
    }
}

/// What follows a save, once it succeeded (`saved`) or failed.
pub open spec fn save_outcome(a: NetAction, saved: bool) -> NetReplyKind {
    match a {
        NetAction::Save => if saved {
            NetReplyKind::Ack
        } else {
            NetReplyKind::Fail(NetError::Save)
        },
        NetAction::SaveThenConnect(_) => if saved {
            NetReplyKind::ConnectThenAck
        } else {
            NetReplyKind::Fail(NetError::Save)
        },
        _ => NetReplyKind::Done,
    }
}

/// The kind of a reply after a save.
pub enum NetReplyKind {
    Ack,
    Fail(NetError),
    ConnectThenAck,
    Done,
}

/// Finish a command after the save it asked for: `Ack` when the save succeeded (for
/// a new relay URL, first a connect to it), else `Error` with the text `save`.
pub fn net_after_save(a: &NetAction, saved: bool) -> (r: NetReply)
    ensures
        match save_outcome(*a, saved) {
            NetReplyKind::Ack => r is Ack,
            NetReplyKind::Fail(e) => r == NetReply::Fail(e),
            NetReplyKind::ConnectThenAck => r matches NetReply::ConnectThenAck(u) && a matches NetAction::SaveThenConnect(
                u0,
            ) && u@ == u0@,
            NetReplyKind::Done => r is Done,
        },
{
    match a {
        NetAction::Save => if saved {
            NetReply::Ack
        } else {
            NetReply::Fail(NetError::Save)
        },
        NetAction::SaveThenConnect(u) => if saved {
            NetReply::ConnectThenAck(copy_bytes(u.as_slice()))
        } else {
            NetReply::Fail(NetError::Save)
        },
        _ => NetReply::Done,
    }
}


/// A command for the relay connection.
#[derive(Debug)]
pub enum WsCommand {
    /// Send data to the relay.
    Send(Vec<u8>),
    /// Connect, or reconnect, to the relay at this URL.
    Connect(Vec<u8>),
}

/// Something that the NET firmware sends, in the order it sends it.
#[derive(Debug)]
pub enum NetOutput {
    /// A TLV to the management chip.
    ToMgmt(NetToCtl, Vec<u8>),
    /// A circular ping to the UI chip.
    ToUi(Vec<u8>),
    /// A command for the relay connection.
    ToRelay(WsCommand),
}

/// Whether `o` is a TLV of type `k` with value `v` to the management chip.
pub open spec fn is_to_mgmt(o: NetOutput, k: NetToCtl, v: Seq<u8>) -> bool {
    o matches NetOutput::ToMgmt(k2, w) && k2 == k && w@ == v
}

/// Whether `o` is a circular ping with value `v` to the UI chip.
pub open spec fn is_to_ui(o: NetOutput, v: Seq<u8>) -> bool {
    o matches NetOutput::ToUi(w) && w@ == v
}

/// Whether `o` tells the relay connection to connect to `url`.
pub open spec fn is_connect(o: NetOutput, url: Seq<u8>) -> bool {
    o matches NetOutput::ToRelay(WsCommand::Connect(w)) && w@ == url
}

/// Whether `after` is `before` followed by `n` more outputs.
pub open spec fn extends_by(before: Seq<NetOutput>, after: Seq<NetOutput>, n: nat) -> bool {
    after.len() == before.len() + n && after.subrange(0, before.len() as int) == before
}

/// The bytes of an error's text, as sent in `Error`.
pub open spec fn error_bytes(e: NetError) -> Seq<u8> {
    vstd::utf8::encode_utf8(error_text_of(e))
}

/// Where the settings are kept across power cycles.
pub trait SettingsStore {
    /// Every version of the settings written so far, oldest first.
    spec fn saved(&self) -> Seq<NetSettingsView>;

    /// Write the settings; false when the write failed, and then nothing was written.
    fn save(&mut self, settings: &NetSettings) -> (ok: bool)
        requires
            settings.wf(),
        ensures
            ok ==> final(self).saved() == old(self).saved().push(settings@),
            !ok ==> final(self).saved() == old(self).saved(),
    ;
}

/// What carrying out action `a` did: with the settings then `f`, the store went
/// from `saved0` to `saved1` and the outputs from `out0` to `out1`.
pub open spec fn carried_out(
    a: NetAction,
    f: NetSettingsView,
    saved0: Seq<NetSettingsView>,
    saved1: Seq<NetSettingsView>,
    out0: Seq<NetOutput>,
    out1: Seq<NetOutput>,
) -> bool {
    let n = out0.len() as int;
    let save_failed = saved1 == saved0 && extends_by(out0, out1, 1) && is_to_mgmt(
        out1[n],
        NetToCtl::Error,
        error_bytes(NetError::Save),
    );
    match a {
        NetAction::Reply(k, w) => saved1 == saved0 && extends_by(out0, out1, 1) && is_to_mgmt(out1[n], k, w@),
        NetAction::Fail(e) => saved1 == saved0 && extends_by(out0, out1, 1) && is_to_mgmt(
            out1[n],
            NetToCtl::Error,
            error_bytes(e),
        ),
        NetAction::CircularToUi(w) => saved1 == saved0 && extends_by(out0, out1, 1) && is_to_ui(out1[n], w@),
        NetAction::SendWifiSsids => saved1 == saved0 && out1 == out0,
        NetAction::Save => save_failed || (saved1 == saved0.push(f) && extends_by(out0, out1, 1) && is_to_mgmt(
            out1[n],
            NetToCtl::Ack,
            Seq::empty(),
        )),
        NetAction::SaveThenConnect(u) => save_failed || (saved1 == saved0.push(f) && extends_by(out0, out1, 2)
            && is_connect(out1[n], u@) && is_to_mgmt(out1[n + 1], NetToCtl::Ack, Seq::empty())),
    }
}

/// Send a TLV to the management chip.
fn send_mgmt(out: &mut Vec<NetOutput>, k: NetToCtl, v: Vec<u8>)
    ensures
        extends_by(old(out)@, final(out)@, 1),
        is_to_mgmt(final(out)@[old(out)@.len() as int], k, v@),
{
    out.push(NetOutput::ToMgmt(k, v));
    assert(out@.subrange(0, old(out)@.len() as int) =~= old(out)@);
}

/// Carry out a command's action: answer the management chip, pass a circular
/// ping to the UI chip, or save the settings and then answer (for a new relay URL,
/// first telling the relay connection to connect to it). Returns true when the
/// stored networks are to be sent as `WifiSsids`, encoded as JSON, which is left
/// to the caller.
pub fn carry_out<S: SettingsStore>(a: NetAction, settings: &NetSettings, store: &mut S, out: &mut Vec<NetOutput>) -> (list_wanted: bool)
    requires
        settings.wf(),
    ensures
        list_wanted == (a is SendWifiSsids),
        carried_out(a, settings@, old(store).saved(), final(store).saved(), old(out)@, final(out)@),
{
    let ghost n = out@.len() as int;
    match a {
        NetAction::Reply(k, w) => {
            send_mgmt(out, k, w);
            false
        },
        NetAction::Fail(e) => {
            send_mgmt(out, NetToCtl::Error, copy_bytes(error_text(e).as_bytes()));
            false
        },
        NetAction::CircularToUi(w) => {
            out.push(NetOutput::ToUi(w));
            assert(out@.subrange(0, n) =~= old(out)@);
            false
        },
        NetAction::SendWifiSsids => true,
        NetAction::Save => {
            if store.save(settings) {
                let empty: Vec<u8> = Vec::new();
                send_mgmt(out, NetToCtl::Ack, empty);
            } else {
                send_mgmt(out, NetToCtl::Error, copy_bytes(error_text(NetError::Save).as_bytes()));
            }
            false
        },
        NetAction::SaveThenConnect(u) => {
            if store.save(settings) {
                let ghost url = u@;
                out.push(NetOutput::ToRelay(WsCommand::Connect(u)));
                let ghost mid = out@;
                let empty: Vec<u8> = Vec::new();
                send_mgmt(out, NetToCtl::Ack, empty);
                assert(out@.subrange(0, n) =~= old(out)@) by {
                    assert(mid.subrange(0, n) =~= old(out)@);
                    assert(out@.subrange(0, n) =~= mid.subrange(0, n));
                }
                assert(out@[n] == mid[n]);
            } else {
                send_mgmt(out, NetToCtl::Error, copy_bytes(error_text(NetError::Save).as_bytes()));
            }
            false
        },
    }
}

/// Handle one host command from the management chip: decide it (see `net_step`)
/// and carry out what it asks for, in order. Returns true when the stored
/// networks are to be sent as `WifiSsids` (their JSON encoding is the caller's).
///
/// A new relay URL (valid UTF-8, not too long) is stored and saved; once the save
/// succeeds the relay connection is told to connect to it, and only then is the
/// `Ack` sent; nothing goes to the UI chip.
pub fn handle_mgmt<S: SettingsStore>(
    t: CtlToNet,
    value: &[u8],
    wifi: Option<(&[u8], &[u8])>,
    settings: &mut NetSettings,
    store: &mut S,
    out: &mut Vec<NetOutput>,
    loopback: &mut NetLoopbackMode,
) -> (list_wanted: bool)
    requires
        old(settings).wf(),
    ensures
        final(settings).wf(),
        final(settings).limits() == old(settings).limits(),
        list_wanted == (t == CtlToNet::GetWifiSsids),
        exists|a: NetAction|
            #![trigger net_step(old(settings)@, old(settings).limits(), *old(loopback), t, value@, wifi_view(wifi), a, final(settings)@, *final(loopback))]
            net_step(
                old(settings)@,
                old(settings).limits(),
                *old(loopback),
                t,
                value@,
                wifi_view(wifi),
                a,
                final(settings)@,
                *final(loopback),
            ) && carried_out(a, final(settings)@, old(store).saved(), final(store).saved(), old(out)@, final(out)@),
        t == CtlToNet::SetRelayUrl && vstd::utf8::valid_utf8(value@) && value@.len() <= old(settings).limits().relay_url_len
            ==> {
            let n = old(out)@.len() as int;
            &&& final(settings)@ == (NetSettingsView { relay_url: value@, ..old(settings)@ })
            &&& *final(loopback) == *old(loopback)
            &&& final(store).saved() == old(store).saved().push(final(settings)@) ==> extends_by(old(out)@, final(out)@, 2)
                && is_connect(final(out)@[n], value@) && is_to_mgmt(final(out)@[n + 1], NetToCtl::Ack, Seq::empty())
            &&& final(store).saved() == old(store).saved() ==> extends_by(old(out)@, final(out)@, 1) && is_to_mgmt(
                final(out)@[n],
                NetToCtl::Error,
                error_bytes(NetError::Save),
            )
            &&& final(store).saved() == old(store).saved() || final(store).saved() == old(store).saved().push(final(settings)@)
        },
{
    let ghost s0 = store.saved();
    let ghost relay = t == CtlToNet::SetRelayUrl && vstd::utf8::valid_utf8(value@) && value@.len()
        <= settings.limits().relay_url_len;
    let a = net_ctl_step(settings, loopback, t, value, wifi);
    proof {
        if relay {
            assert(a matches NetAction::SaveThenConnect(u) && u@ == value@);
        }
    }
    let r = carry_out(a, settings, store, out);
    proof {
        if relay && store.saved() == s0.push(settings@) {
            assert(store.saved().len() == s0.len() + 1);
            assert(store.saved() != s0);
        }
    }
    r
}


/// Turning logs on or off sets the stored flag from the first byte of the value
/// (nonzero: on; an empty value turns them on), and a later `GetLogsEnabled`
/// answers that flag as one byte, 1 or 0.
pub proof fn lemma_logs_flag_roundtrip(
    s: NetSettingsView,
    lim: NetLimits,
    lb: NetLoopbackMode,
    v: Seq<u8>,
    w: Option<(Seq<u8>, Seq<u8>)>,
    a1: NetAction,
    f1: NetSettingsView,
    lb1: NetLoopbackMode,
    v2: Seq<u8>,
    w2: Option<(Seq<u8>, Seq<u8>)>,
    a2: NetAction,
    f2: NetSettingsView,
    lb2: NetLoopbackMode,
)
    requires
        net_step(s, lim, lb, CtlToNet::SetLogsEnabled, v, w, a1, f1, lb1),
        net_step(f1, lim, lb1, CtlToNet::GetLogsEnabled, v2, w2, a2, f2, lb2),
    ensures
        f1.logs_enabled == (v.len() == 0 || v[0] != 0),
        v.len() > 0 && v[0] == 0 ==> !f1.logs_enabled,
        a1 is Save,
        a2 matches NetAction::Reply(k, r) && k == NetToCtl::LogsEnabled && r@ == seq![
            if v.len() == 0 || v[0] != 0 { 1u8 } else { 0u8 },
        ],
        f1.wifi == s.wifi && f1.relay_url == s.relay_url,
{
}


/// A loopback mode set with its number (0, 1 or 2) is answered with that number.
pub proof fn lemma_loopback_roundtrip(
    s: NetSettingsView,
    lim: NetLimits,
    lb: NetLoopbackMode,
    v: Seq<u8>,
    w: Option<(Seq<u8>, Seq<u8>)>,
    a1: NetAction,
    f1: NetSettingsView,
    lb1: NetLoopbackMode,
    v2: Seq<u8>,
    w2: Option<(Seq<u8>, Seq<u8>)>,
    a2: NetAction,
    f2: NetSettingsView,
    lb2: NetLoopbackMode,
)
    requires
        net_step(s, lim, lb, CtlToNet::SetLoopback, v, w, a1, f1, lb1),
        net_step(f1, lim, lb1, CtlToNet::GetLoopback, v2, w2, a2, f2, lb2),
        v.len() > 0,
        v[0] <= 2,
    ensures
        a2 matches NetAction::Reply(k, r) && k == NetToCtl::Loopback && r@ == seq![v[0]],
        f1 == s,
{
}

/// A relay URL that is UTF-8 and fits is stored and answered back as it was given.
pub proof fn lemma_relay_url_roundtrip(
    s: NetSettingsView,
    lim: NetLimits,
    lb: NetLoopbackMode,
    v: Seq<u8>,
    w: Option<(Seq<u8>, Seq<u8>)>,
    a1: NetAction,
    f1: NetSettingsView,
    lb1: NetLoopbackMode,
    v2: Seq<u8>,
    w2: Option<(Seq<u8>, Seq<u8>)>,
    a2: NetAction,
    f2: NetSettingsView,
    lb2: NetLoopbackMode,
)
    requires
        net_step(s, lim, lb, CtlToNet::SetRelayUrl, v, w, a1, f1, lb1),
        net_step(f1, lim, lb1, CtlToNet::GetRelayUrl, v2, w2, a2, f2, lb2),
        vstd::utf8::valid_utf8(v),
        v.len() <= lim.relay_url_len,
    ensures
        a1 matches NetAction::SaveThenConnect(u) && u@ == v,
        a2 matches NetAction::Reply(k, r) && k == NetToCtl::RelayUrl && r@ == v,
        f1.wifi == s.wifi && f1.logs_enabled == s.logs_enabled,
{
}

/// A text setting (language, channel or AI configuration) given as UTF-8 that fits
/// its limit is stored and answered back as given; a value that is not UTF-8 stores
/// the empty text; a UTF-8 value over the limit is refused with `Length` and leaves
/// the settings as they were.
pub proof fn lemma_text_setting_roundtrip(
    s: NetSettingsView,
    lim: NetLimits,
    lb: NetLoopbackMode,
    t: CtlToNet,
    v: Seq<u8>,
    w: Option<(Seq<u8>, Seq<u8>)>,
    a1: NetAction,
    f1: NetSettingsView,
    lb1: NetLoopbackMode,
    g: CtlToNet,
    v2: Seq<u8>,
    w2: Option<(Seq<u8>, Seq<u8>)>,
    a2: NetAction,
    f2: NetSettingsView,
    lb2: NetLoopbackMode,
    max: usize,
)
    requires
        (t == CtlToNet::SetLanguage && g == CtlToNet::GetLanguage && max == 16) || (t == CtlToNet::SetChannel && g
            == CtlToNet::GetChannel && max == 256) || (t == CtlToNet::SetAi && g == CtlToNet::GetAi && max == 512),
        net_step(s, lim, lb, t, v, w, a1, f1, lb1),
        net_step(f1, lim, lb1, g, v2, w2, a2, f2, lb2),
    ensures
        vstd::utf8::valid_utf8(v) && v.len() <= max ==> a1 is Save && (a2 matches NetAction::Reply(k, r) && r@ == v),
        !vstd::utf8::valid_utf8(v) ==> a1 is Save && (a2 matches NetAction::Reply(k, r) && r@.len() == 0),
        vstd::utf8::valid_utf8(v) && v.len() > max ==> a1 == NetAction::Fail(NetError::Length) && f1 == s,
        f1.wifi == s.wifi && f1.relay_url == s.relay_url && f1.logs_enabled == s.logs_enabled,
{
}

/// A Wi-Fi network added while there is room and its name and password fit is kept
/// after those already stored; otherwise the command fails with `Add` and nothing
/// changes. Clearing the networks leaves none.
pub proof fn lemma_wifi_add(
    s: NetSettingsView,
    lim: NetLimits,
    lb: NetLoopbackMode,
    v: Seq<u8>,
    n: Seq<u8>,
    p: Seq<u8>,
    a: NetAction,
    f: NetSettingsView,
    lb1: NetLoopbackMode,
)
    requires
        net_step(s, lim, lb, CtlToNet::AddWifiSsid, v, Some((n, p)), a, f, lb1),
    ensures
        s.wifi.len() < lim.wifi_ssids && n.len() <= lim.ssid_len && p.len() <= lim.password_len ==> a is Save
            && f.wifi.len() == s.wifi.len() + 1 && f.wifi.last() == (n, p) && f.wifi.take(s.wifi.len() as int)
            == s.wifi,
        !(s.wifi.len() < lim.wifi_ssids && n.len() <= lim.ssid_len && p.len() <= lim.password_len) ==> a
            == NetAction::Fail(NetError::Add) && f == s,
        f.relay_url == s.relay_url && f.logs_enabled == s.logs_enabled,
{
    assert(s.wifi.push((n, p)).take(s.wifi.len() as int) =~= s.wifi);
}

/// Clearing the Wi-Fi networks leaves none and keeps the other settings.
pub proof fn lemma_wifi_clear(
    s: NetSettingsView,
    lim: NetLimits,
    lb: NetLoopbackMode,
    v: Seq<u8>,
    w: Option<(Seq<u8>, Seq<u8>)>,
    a: NetAction,
    f: NetSettingsView,
    lb1: NetLoopbackMode,
)
    requires
        net_step(s, lim, lb, CtlToNet::ClearWifiSsids, v, w, a, f, lb1),
    ensures
        a is Save,
        f.wifi.len() == 0,
        f.relay_url == s.relay_url && f.language == s.language && f.channel == s.channel && f.ai == s.ai
            && f.logs_enabled == s.logs_enabled,
{
}

/// Clearing the storage forgets every setting: no networks, empty texts and logs
/// off, so a later `GetLogsEnabled` answers 0.
pub proof fn lemma_clear_storage(
    s: NetSettingsView,
    lim: NetLimits,
    lb: NetLoopbackMode,
    v: Seq<u8>,
    w: Option<(Seq<u8>, Seq<u8>)>,
    a1: NetAction,
    f1: NetSettingsView,
    lb1: NetLoopbackMode,
    v2: Seq<u8>,
    w2: Option<(Seq<u8>, Seq<u8>)>,
    a2: NetAction,
    f2: NetSettingsView,
    lb2: NetLoopbackMode,
)
    requires
        net_step(s, lim, lb, CtlToNet::ClearStorage, v, w, a1, f1, lb1),
        net_step(f1, lim, lb1, CtlToNet::GetLogsEnabled, v2, w2, a2, f2, lb2),
    ensures
        a1 is Save,
        f1.wifi.len() == 0 && f1.relay_url.len() == 0 && f1.language.len() == 0 && f1.channel.len() == 0
            && f1.ai.len() == 0 && !f1.logs_enabled,
        a2 matches NetAction::Reply(k, r) && r@ == seq![0u8],
{
}

} // verus!
