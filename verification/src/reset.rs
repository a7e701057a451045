//! Reset strategies for the ESP32 serial bootloader.
//!
//! A strategy is a sequence of steps on the serial control lines (DTR drives
//! IO0, RTS drives EN) and pauses. The sequences are computed here; whoever
//! owns the serial port carries them out in order.
use vstd::prelude::*;
use vstd::string::StringSliceAdditionalSpecFns;

verus! {

/// Default time to wait before releasing the boot pin after a reset.
pub const DEFAULT_RESET_DELAY: u64 = 50;

/// Amount of time to wait if the default reset delay does not work.
pub const EXTRA_RESET_DELAY: u64 = 500;

/// USB product ID of the USB-JTAG-Serial peripheral.
pub const USB_SERIAL_JTAG_PID: u16 = 0x1001;

/// One step of a reset sequence.
#[derive(Debug, Clone, Copy, PartialEq, Eq, Structural)]
pub enum ResetStep {
    /// Set RTS to the level.
    Rts(bool),
    /// Set DTR to the level.
    Dtr(bool),
    /// Wait this many milliseconds.
    DelayMs(u32),
}

/// Reset strategy types for resetting a target device.
#[derive(Debug, Clone, Copy, Hash)]
pub enum ResetStrategy {
    /// Classic reset sequence, sets DTR and RTS sequentially.
    Classic { delay_ms: u64 },
    /// UNIX-only reset sequence with a tighter ordering.
    UnixTight { delay_ms: u64 },
    /// Custom reset sequence for the USB-JTAG-Serial peripheral.
    UsbJtagSerial,
}

/// The delay of a strategy: the extra delay when asked for, the default otherwise.
pub open spec fn reset_delay(extra_delay: bool) -> u64 {
    if extra_delay {
        EXTRA_RESET_DELAY
    } else {
        DEFAULT_RESET_DELAY
    }
}

/// The steps of a strategy.
pub open spec fn strategy_steps(s: ResetStrategy) -> Seq<ResetStep> {
    match s {
        ResetStrategy::Classic { delay_ms } => seq![
            ResetStep::Rts(false),
            ResetStep::Dtr(false),
            ResetStep::Rts(true),
            ResetStep::Dtr(true),
            ResetStep::Rts(true),
            ResetStep::Dtr(false),
            ResetStep::DelayMs(100),
            ResetStep::Rts(false),
            ResetStep::Dtr(true),
            ResetStep::DelayMs(delay_ms as u32),
            ResetStep::Rts(false),
            ResetStep::Dtr(false),
        ],
        ResetStrategy::UnixTight { delay_ms } => seq![
            ResetStep::Dtr(false),
            ResetStep::Rts(false),
            ResetStep::Dtr(true),
            ResetStep::Rts(true),
            ResetStep::Dtr(false),
            ResetStep::Rts(true),
            ResetStep::DelayMs(100),
            ResetStep::Dtr(true),
            ResetStep::Rts(false),
            ResetStep::DelayMs(delay_ms as u32),
            ResetStep::Dtr(false),
            ResetStep::Rts(false),
        ],
        ResetStrategy::UsbJtagSerial => seq![
            ResetStep::Rts(false),
            ResetStep::Dtr(false),
            ResetStep::DelayMs(100),
            ResetStep::Rts(false),
            ResetStep::Dtr(true),
            ResetStep::DelayMs(100),
            ResetStep::Rts(true),
            ResetStep::Dtr(false),
            ResetStep::Rts(true),
            ResetStep::DelayMs(100),
            ResetStep::Rts(false),
            ResetStep::Dtr(false),
        ],
    }
}

/// The steps that reset the chip into a normal boot after flashing.
pub open spec fn after_flash_steps(pid: u16) -> Seq<ResetStep> {
    if pid == USB_SERIAL_JTAG_PID {
        seq![
            ResetStep::DelayMs(100),
            ResetStep::Dtr(false),
            ResetStep::DelayMs(100),
            ResetStep::Rts(true),
            ResetStep::Dtr(false),
            ResetStep::Rts(true),
            ResetStep::DelayMs(100),
            ResetStep::Rts(false),
        ]
    } else {
        seq![ResetStep::DelayMs(100), ResetStep::Rts(true), ResetStep::DelayMs(100), ResetStep::Rts(false)]
    }
}

/// The levels of the two control lines, (RTS, DTR), after the steps, both released
/// (false) at the start. RTS drives EN low and DTR drives IO0 low when asserted.
pub open spec fn lines_after(steps: Seq<ResetStep>) -> (bool, bool)
    decreases steps.len(),
{
    if steps.len() == 0 {
        (false, false)
    } else {
        let (rts, dtr) = lines_after(steps.drop_last());
        match steps.last() {
            ResetStep::Rts(b) => (b, dtr),
            ResetStep::Dtr(b) => (rts, b),
            ResetStep::DelayMs(_) => (rts, dtr),
        }
    }
}

/// Whether the steps hold the chip in reset (EN low, IO0 high) for a pause of 100 ms,
/// then let it start with IO0 low (EN high, IO0 low) for a pause of `delay` ms, and end
/// with both lines released: the way into the serial bootloader.
pub open spec fn pulses_into_bootloader(st: Seq<ResetStep>, delay: u32) -> bool {
    &&& exists|i: int, j: int|
        #![trigger st[i], st[j]]
        0 <= i < j < st.len() && st[i] == ResetStep::DelayMs(100) && st[j] == ResetStep::DelayMs(delay)
            && lines_after(st.take(i)) == (true, false) && lines_after(st.take(j)) == (false, true)
    &&& lines_after(st) == (false, false)
}

/// The classic sequence resets the chip into its bootloader: during the 100 ms pulse
/// EN is held low with IO0 high, during the following pause EN is high with IO0 low,
/// and both lines are released at the end.
pub proof fn lemma_classic_enters_bootloader(delay_ms: u64)
    ensures
        pulses_into_bootloader(strategy_steps(ResetStrategy::Classic { delay_ms }), delay_ms as u32),
{
    reveal_with_fuel(lines_fold, 13);
    let st = strategy_steps(ResetStrategy::Classic { delay_ms });
    lemma_lines_prefix(st, 6);
    lemma_lines_prefix(st, 9);
    lemma_lines_prefix(st, 12);
    assert(st.take(12) =~= st);
    assert(st[6] == ResetStep::DelayMs(100) && st[9] == ResetStep::DelayMs(delay_ms as u32));
}

/// The tight UNIX sequence resets the chip into its bootloader in the same way.
pub proof fn lemma_unix_tight_enters_bootloader(delay_ms: u64)
    ensures
        pulses_into_bootloader(strategy_steps(ResetStrategy::UnixTight { delay_ms }), delay_ms as u32),
{
    reveal_with_fuel(lines_fold, 13);
    let st = strategy_steps(ResetStrategy::UnixTight { delay_ms });
    lemma_lines_prefix(st, 6);
    lemma_lines_prefix(st, 9);
    lemma_lines_prefix(st, 12);
    assert(st.take(12) =~= st);
    assert(st[6] == ResetStep::DelayMs(100) && st[9] == ResetStep::DelayMs(delay_ms as u32));
}

/// The USB-JTAG-Serial sequence first pulls IO0 low with EN high, then holds the
/// chip in reset with IO0 released, and releases both lines at the end.
pub proof fn lemma_usb_jtag_sequence()
    ensures
        ({
            let st = strategy_steps(ResetStrategy::UsbJtagSerial);
            &&& st[5] == ResetStep::DelayMs(100) && lines_after(st.take(5)) == (false, true)
            &&& st[9] == ResetStep::DelayMs(100) && lines_after(st.take(9)) == (true, false)
            &&& lines_after(st) == (false, false)
        }),
{
    reveal_with_fuel(lines_fold, 13);
    let st = strategy_steps(ResetStrategy::UsbJtagSerial);
    lemma_lines_prefix(st, 5);
    lemma_lines_prefix(st, 9);
    lemma_lines_prefix(st, 12);
    assert(st.take(12) =~= st);
}

/// After flashing through a USB-UART bridge, EN is held low for a pause and then
/// released, with IO0 left released: the chip starts its new firmware.
pub proof fn lemma_after_flash_resets(pid: u16)
    requires
        pid != USB_SERIAL_JTAG_PID,
    ensures
        ({
            let st = after_flash_steps(pid);
            &&& st[2] == ResetStep::DelayMs(100) && lines_after(st.take(2)) == (true, false)
            &&& lines_after(st) == (false, false)
        }),
{
    reveal_with_fuel(lines_fold, 13);
    let st = after_flash_steps(pid);
    lemma_lines_prefix(st, 2);
    lemma_lines_prefix(st, 4);
    assert(st.take(4) =~= st);
}

/// The levels after the first `k` steps, step by step.
proof fn lemma_lines_prefix(st: Seq<ResetStep>, k: int)
    requires
        0 <= k <= st.len(),
    ensures
        lines_after(st.take(k)) == lines_fold(st, k),
    decreases k,
{
    if k > 0 {
        assert(st.take(k).drop_last() =~= st.take(k - 1));
        assert(st.take(k).last() == st[k - 1]);
        lemma_lines_prefix(st, k - 1);
    } else {
        assert(st.take(0) =~= Seq::<ResetStep>::empty());
    }
}

/// The levels after the first `k` steps of `st`, step by step.
spec fn lines_fold(st: Seq<ResetStep>, k: int) -> (bool, bool)
    decreases k,
{
    if k <= 0 {
        (false, false)
    } else {
        let (rts, dtr) = lines_fold(st, k - 1);
        match st[k - 1] {
            ResetStep::Rts(b) => (b, dtr),
            ResetStep::Dtr(b) => (rts, b),
            ResetStep::DelayMs(_) => (rts, dtr),
        }
    }
}

/// Append every step of `steps`.
fn push_steps(v: &mut Vec<ResetStep>, steps: &[ResetStep])
    ensures
        final(v)@ == old(v)@ + steps@,
{
    let mut i: usize = 0;
    while i < steps.len()
        invariant
            i <= steps@.len(),
            v@ == old(v)@ + steps@.take(i as int),
        decreases steps@.len() - i,
    {
        v.push(steps[i]);
        assert(steps@.take(i + 1) =~= steps@.take(i as int).push(steps@[i as int]));
        i = i + 1;
    }
    assert(steps@.take(steps@.len() as int) =~= steps@);
}

impl ResetStrategy {
    /// Create a classic reset strategy.
    pub fn classic(extra_delay: bool) -> (s: Self)
        ensures
            s == (ResetStrategy::Classic { delay_ms: reset_delay(extra_delay) }),
    {
        let delay_ms = if extra_delay {
            EXTRA_RESET_DELAY
        } else {
            DEFAULT_RESET_DELAY
        };
        ResetStrategy::Classic { delay_ms }
    }

    /// Create a UNIX tight reset strategy.
    pub fn unix_tight(extra_delay: bool) -> (s: Self)
        ensures
            s == (ResetStrategy::UnixTight { delay_ms: reset_delay(extra_delay) }),
    {
        let delay_ms = if extra_delay {
            EXTRA_RESET_DELAY
        } else {
            DEFAULT_RESET_DELAY
        };
        ResetStrategy::UnixTight { delay_ms }
    }

    /// Create a USB JTAG serial reset strategy.
    pub fn usb_jtag_serial() -> (s: Self)
        ensures
            s == ResetStrategy::UsbJtagSerial,
    {
        ResetStrategy::UsbJtagSerial
    }

    /// The control-line steps and pauses of this strategy, in order.
    pub fn steps(&self) -> (r: Vec<ResetStep>)
        ensures
            r@ == strategy_steps(*self),
            *self matches ResetStrategy::Classic { delay_ms } ==> pulses_into_bootloader(r@, delay_ms as u32),
            *self matches ResetStrategy::UnixTight { delay_ms } ==> pulses_into_bootloader(r@, delay_ms as u32),
    {
        proof {
            match *self {
                ResetStrategy::Classic { delay_ms } => lemma_classic_enters_bootloader(delay_ms),
                ResetStrategy::UnixTight { delay_ms } => lemma_unix_tight_enters_bootloader(delay_ms),
                ResetStrategy::UsbJtagSerial => {},
            }
        }
        let mut v: Vec<ResetStep> = Vec::new();
        match self {
            ResetStrategy::Classic { delay_ms } => {
                let d = *delay_ms as u32;
                let s: [ResetStep; 12] = [
                    ResetStep::Rts(false),
                    ResetStep::Dtr(false),
                    ResetStep::Rts(true),
                    ResetStep::Dtr(true),
                    ResetStep::Rts(true),
                    ResetStep::Dtr(false),
                    ResetStep::DelayMs(100),
                    ResetStep::Rts(false),
                    ResetStep::Dtr(true),
                    ResetStep::DelayMs(d),
                    ResetStep::Rts(false),
                    ResetStep::Dtr(false),
                ];
                push_steps(&mut v, &s);
            },
            ResetStrategy::UnixTight { delay_ms } => {
                let d = *delay_ms as u32;
                let s: [ResetStep; 12] = [
                    ResetStep::Dtr(false),
                    ResetStep::Rts(false),
                    ResetStep::Dtr(true),
                    ResetStep::Rts(true),
                    ResetStep::Dtr(false),
                    ResetStep::Rts(true),
                    ResetStep::DelayMs(100),
                    ResetStep::Dtr(true),
                    ResetStep::Rts(false),
                    ResetStep::DelayMs(d),
                    ResetStep::Dtr(false),
                    ResetStep::Rts(false),
                ];
                push_steps(&mut v, &s);
            },
            ResetStrategy::UsbJtagSerial => {
                let s: [ResetStep; 12] = [
                    ResetStep::Rts(false),
                    ResetStep::Dtr(false),
                    ResetStep::DelayMs(100),
                    ResetStep::Rts(false),
                    ResetStep::Dtr(true),
                    ResetStep::DelayMs(100),
                    ResetStep::Rts(true),
                    ResetStep::Dtr(false),
                    ResetStep::Rts(true),
                    ResetStep::DelayMs(100),
                    ResetStep::Rts(false),
                    ResetStep::Dtr(false),
                ];
                push_steps(&mut v, &s);
            },
        }
        assert(v@ =~= strategy_steps(*self));
        v
    }
}

/// The steps that reset the target into a normal boot after flashing.
pub fn reset_after_flash(pid: u16) -> (r: Vec<ResetStep>)
    ensures
        r@ == after_flash_steps(pid),
{
    let mut v: Vec<ResetStep> = Vec::new();
    if pid == USB_SERIAL_JTAG_PID {
        let s: [ResetStep; 8] = [
            ResetStep::DelayMs(100),
            ResetStep::Dtr(false),
            ResetStep::DelayMs(100),
            ResetStep::Rts(true),
            ResetStep::Dtr(false),
            ResetStep::Rts(true),
            ResetStep::DelayMs(100),
            ResetStep::Rts(false),
        ];
        push_steps(&mut v, &s);
    } else {
        let s: [ResetStep; 4] = [
            ResetStep::DelayMs(100),
            ResetStep::Rts(true),
            ResetStep::DelayMs(100),
            ResetStep::Rts(false),
        ];
        push_steps(&mut v, &s);
    }
    assert(v@ =~= after_flash_steps(pid));
    v
}

/// The steps of a hard reset: the same as after flashing.
pub fn hard_reset(pid: u16) -> (r: Vec<ResetStep>)
    ensures
        r@ == after_flash_steps(pid),
{
    reset_after_flash(pid)
}

/// Enum to represent different reset behaviors before an operation.
#[derive(Debug, Clone, Copy, PartialEq, Eq, Structural, Hash)]
pub enum ResetBeforeOperation {
    /// Uses DTR & RTS serial control lines to try to reset the chip into
    /// bootloader mode.
    DefaultReset,
    /// Skips DTR/RTS control signal assignments and just start sending a serial
    /// synchronisation command to the chip.
    NoReset,
    /// Skips DTR/RTS control signal assignments and also skips the serial
    /// synchronization command.
    NoResetNoSync,
    /// Reset sequence for USB-JTAG-Serial peripheral.
    UsbReset,
}

impl Default for ResetBeforeOperation {
    fn default() -> (r: Self)
        ensures
            r == ResetBeforeOperation::DefaultReset,
    {
        ResetBeforeOperation::DefaultReset
    }
}

/// Enum to represent different reset behaviors after an operation.
#[derive(Debug, Clone, Copy, PartialEq, Eq, Structural, Hash)]
pub enum ResetAfterOperation {
    /// The DTR serial control line is used to reset the chip into a normal boot
    /// sequence.
    HardReset,
    /// Leaves the chip in the serial bootloader, no reset is performed.
    NoReset,
    /// Leaves the chip in the stub bootloader, no reset is performed.
    NoResetNoStub,
    /// Hard-resets the chip by triggering an internal watchdog reset.
    WatchdogReset,
}

impl Default for ResetAfterOperation {
    fn default() -> (r: Self)
        ensures
            r == ResetAfterOperation::HardReset,
    {
        ResetAfterOperation::HardReset
    }
}

/// `rfc2217:` in ASCII.
pub open spec fn rfc2217_prefix() -> Seq<u8> {
    seq![0x72u8, 0x66u8, 0x63u8, 0x32u8, 0x32u8, 0x31u8, 0x37u8, 0x3Au8]
}

/// The strategies to try, in order: the USB-JTAG-Serial one for that peripheral (or
/// when asked for), otherwise the UNIX tight ones and then the classic ones, short
/// delay first; a network port (`rfc2217:`) gets only the classic ones.
pub open spec fn strategy_sequence(port_name: Seq<u8>, pid: u16, mode: ResetBeforeOperation, unix_host: bool) -> Seq<
    ResetStrategy,
> {
    if pid == USB_SERIAL_JTAG_PID || mode == ResetBeforeOperation::UsbReset {
        seq![ResetStrategy::UsbJtagSerial]
    } else if unix_host && !(port_name.len() >= 8 && port_name.take(8) == rfc2217_prefix()) {
        seq![
            ResetStrategy::UnixTight { delay_ms: DEFAULT_RESET_DELAY },
            ResetStrategy::UnixTight { delay_ms: EXTRA_RESET_DELAY },
            ResetStrategy::Classic { delay_ms: DEFAULT_RESET_DELAY },
            ResetStrategy::Classic { delay_ms: EXTRA_RESET_DELAY },
        ]
    } else {
        seq![
            ResetStrategy::Classic { delay_ms: DEFAULT_RESET_DELAY },
            ResetStrategy::Classic { delay_ms: EXTRA_RESET_DELAY },
        ]
    }
}

/// Whether `s` starts with `prefix`.
fn starts_with_bytes(s: &[u8], prefix: &[u8]) -> (r: bool)
    ensures
        r == (s@.len() >= prefix@.len() && s@.take(prefix@.len() as int) == prefix@),
{
    if s.len() < prefix.len() {
        return false;
    }
    let mut i: usize = 0;
    while i < prefix.len()
        invariant
            i <= prefix@.len() <= s@.len(),
            s@.take(i as int) == prefix@.take(i as int),
        decreases prefix@.len() - i,
    {
        if s[i] != prefix[i] {
            assert(s@.take(prefix@.len() as int)[i as int] != prefix@[i as int]);
            return false;
        }
        assert(s@.take(i + 1) =~= prefix@.take(i + 1));
        i = i + 1;
    }
    assert(prefix@.take(prefix@.len() as int) =~= prefix@);
    true
}

/// Constructs the sequence of reset strategies to attempt, in order, for a port;
/// `unix_host` tells whether the host is a UNIX system (where the tight reset
/// strategies are tried first).
pub fn construct_reset_strategy_sequence(
    port_name: &str,
    pid: u16,
    mode: ResetBeforeOperation,
    unix_host: bool,
) -> (r: Vec<ResetStrategy>)
    ensures
        r@ == strategy_sequence(port_name.spec_bytes(), pid, mode, unix_host),
{
    let mut v: Vec<ResetStrategy> = Vec::new();
    if pid == USB_SERIAL_JTAG_PID || mode == ResetBeforeOperation::UsbReset {
        v.push(ResetStrategy::usb_jtag_serial());
        assert(v@ =~= strategy_sequence(port_name.spec_bytes(), pid, mode, unix_host));
        return v;
    }
    let prefix: [u8; 8] = [0x72, 0x66, 0x63, 0x32, 0x32, 0x31, 0x37, 0x3A];
    assert(prefix@ =~= rfc2217_prefix());
    if unix_host && !starts_with_bytes(port_name.as_bytes(), &prefix) {
        v.push(ResetStrategy::unix_tight(false));
        v.push(ResetStrategy::unix_tight(true));
        v.push(ResetStrategy::classic(false));
        v.push(ResetStrategy::classic(true));
        assert(v@ =~= strategy_sequence(port_name.spec_bytes(), pid, mode, unix_host));
        return v;
    }
    v.push(ResetStrategy::classic(false));
    v.push(ResetStrategy::classic(true));
    assert(v@ =~= strategy_sequence(port_name.spec_bytes(), pid, mode, unix_host));
    v
}

} // verus!
