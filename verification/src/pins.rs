//! Output pins, the RGB status LED, and the reset and boot-mode pins of the
//! UI and NET chips.
use vstd::prelude::*;

use crate::flash::AsyncDelay;

verus! {

/// A digital output pin whose level can be set and read back.
pub trait OutputPin {
    /// The error of a failed pin operation.
    type Error;

    /// Whether the pin is driven high.
    spec fn is_high(&self) -> bool;

    /// Whether every operation of this pin type succeeds.
    spec fn never_fails() -> bool;

    /// The levels that the pin was told to take, one per call of `set_low` (false)
    /// or `set_high` (true), in order, whether the call succeeded or not.
    spec fn commands(&self) -> Seq<bool>;

    /// Drive the pin low.
    fn set_low(&mut self) -> (r: Result<(), Self::Error>)
        ensures
            Self::never_fails() ==> r is Ok,
            r is Ok ==> !final(self).is_high(),
            final(self).commands() == old(self).commands().push(false),
    ;

    /// Drive the pin high.
    fn set_high(&mut self) -> (r: Result<(), Self::Error>)
        ensures
            Self::never_fails() ==> r is Ok,
            r is Ok ==> final(self).is_high(),
            final(self).commands() == old(self).commands().push(true),
    ;
}

/// Wrapper that inverts pin logic (for pins wired with opposite polarity).
pub struct InvertedPin<P>(pub P);

impl<P: OutputPin> OutputPin for InvertedPin<P> {
    type Error = P::Error;

    open spec fn is_high(&self) -> bool {
        !self.0.is_high()
    }

    open spec fn never_fails() -> bool {
        P::never_fails()
    }

    open spec fn commands(&self) -> Seq<bool> {
        self.0.commands().map_values(|b: bool| !b)
    }

    fn set_low(&mut self) -> (r: Result<(), P::Error>) {
        let r = self.0.set_high();
        assert(self.commands() =~= old(self).commands().push(false));
        r
    }

    fn set_high(&mut self) -> (r: Result<(), P::Error>) {
        let r = self.0.set_low();
        assert(self.commands() =~= old(self).commands().push(true));
        r
    }
}

/// All 8 possible RGB colors (3-bit color space).
#[derive(Copy, Clone, Debug, PartialEq, Eq, Structural)]
pub enum Color {
    Black,
    Red,
    Green,
    Blue,
    Yellow,
    Cyan,
    Magenta,
    White,
}

impl Color {
    /// Which of red, green and blue are on.
    pub open spec fn spec_rgb(self) -> (bool, bool, bool) {
        match self {
            Color::Black => (false, false, false),
            Color::Red => (true, false, false),
            Color::Green => (false, true, false),
            Color::Blue => (false, false, true),
            Color::Yellow => (true, true, false),
            Color::Cyan => (false, true, true),
            Color::Magenta => (true, false, true),
            Color::White => (true, true, true),
        }
    }

    /// Returns (red, green, blue) as booleans (true = on).
    pub fn rgb(self) -> (r: (bool, bool, bool))
        ensures
            r == self.spec_rgb(),
    {
        match self {
            Color::Black => (false, false, false),
            Color::Red => (true, false, false),
            Color::Green => (false, true, false),
            Color::Blue => (false, false, true),
            Color::Yellow => (true, true, false),
            Color::Cyan => (false, true, true),
            Color::Magenta => (true, false, true),
            Color::White => (true, true, true),
        }
    }
}

/// RGB LED abstraction over three individual output pins (active low).
pub struct Led<R, G, B> {
    red: R,
    green: G,
    blue: B,
}

/// Drive an active-low LED pin: low turns it on.
fn drive_active_low<P: OutputPin>(pin: &mut P, on: bool)
    ensures
        P::never_fails() ==> final(pin).is_high() == !on,
        final(pin).commands() == old(pin).commands().push(!on),
{
    if on {
        let _ = pin.set_low();
    } else {
        let _ = pin.set_high();
    }
}

impl<R: OutputPin, G: OutputPin, B: OutputPin> Led<R, G, B> {
    /// The red pin.
    pub closed spec fn red(&self) -> R {
        self.red
    }

    /// The green pin.
    pub closed spec fn green(&self) -> G {
        self.green
    }

    /// The blue pin.
    pub closed spec fn blue(&self) -> B {
        self.blue
    }

    /// An LED over three pins, left as they are.
    pub fn new(red: R, green: G, blue: B) -> (l: Self)
        ensures
            l.red() == red,
            l.green() == green,
            l.blue() == blue,
    {
        Led { red, green, blue }
    }

    /// Give the three pins back.
    pub fn into_pins(self) -> (r: (R, G, B))
        ensures
            r.0 == self.red(),
            r.1 == self.green(),
            r.2 == self.blue(),
    {
        (self.red, self.green, self.blue)
    }

    /// Set the LED to the color (active low / common anode: a pin that is on is low).
    pub fn set(&mut self, color: Color)
        ensures
            R::never_fails() ==> final(self).red().is_high() == !color.spec_rgb().0,
            G::never_fails() ==> final(self).green().is_high() == !color.spec_rgb().1,
            B::never_fails() ==> final(self).blue().is_high() == !color.spec_rgb().2,
            final(self).red().commands() == old(self).red().commands().push(!color.spec_rgb().0),
            final(self).green().commands() == old(self).green().commands().push(!color.spec_rgb().1),
            final(self).blue().commands() == old(self).blue().commands().push(!color.spec_rgb().2),
    {
        let (r, g, b) = color.rgb();
        drive_active_low(&mut self.red, r);
        drive_active_low(&mut self.green, g);
        drive_active_low(&mut self.blue, b);
    }
}

/// Drive a pin to a level.
fn drive<P: OutputPin>(pin: &mut P, high: bool)
    ensures
        P::never_fails() ==> final(pin).is_high() == high,
        final(pin).commands() == old(pin).commands().push(high),
{
    if high {
        let _ = pin.set_high();
    } else {
        let _ = pin.set_low();
    }
}

/// A reset or boot-mode pin of the UI or NET chip.
#[derive(Debug, Clone, Copy, PartialEq, Eq, Structural)]
pub enum ResetPin {
    /// The UI chip's BOOT0.
    Boot0,
    /// The UI chip's BOOT1.
    Boot1,
    /// The NET chip's BOOT (GPIO0).
    Boot,
    /// The chip's RST (EN on the NET chip).
    Rst,
}

/// One step of a reset sequence, in the order the steps are taken.
#[derive(Debug, Clone, Copy, PartialEq, Eq, Structural)]
pub enum ResetStep {
    /// The pin was told to take a level (true = high).
    Drive(ResetPin, bool),
    /// A pause of this many milliseconds.
    Wait(u32),
}

/// The GPIO pins that control the UI chip's reset and boot mode.
///
/// BOOT0=1, BOOT1=0 enters the bootloader (system memory); BOOT0=0, BOOT1=1 boots
/// from flash.
pub struct UiResetPins<Boot0, Boot1, Rst> {
    pub boot0: Boot0,
    pub boot1: Boot1,
    pub rst: Rst,
    /// Every step taken by the methods below, in order, across the pins.
    pub steps: Ghost<Seq<ResetStep>>,
}

impl<Boot0: OutputPin, Boot1: OutputPin, Rst: OutputPin> UiResetPins<Boot0, Boot1, Rst> {
    /// Every step that the methods below took, in order, across the three pins.
    pub open spec fn steps(&self) -> Seq<ResetStep> {
        self.steps@
    }

    /// The pins, left as they are.
    pub fn new(boot0: Boot0, boot1: Boot1, rst: Rst) -> (p: Self)
        ensures
            p.boot0 == boot0 && p.boot1 == boot1 && p.rst == rst,
            p.steps() == Seq::<ResetStep>::empty(),
    {
        UiResetPins { boot0, boot1, rst, steps: Ghost(Seq::empty()) }
    }

    fn set_boot0(&mut self, high: bool)
        ensures
            Boot0::never_fails() ==> final(self).boot0.is_high() == high,
            final(self).boot0.commands() == old(self).boot0.commands().push(high),
            final(self).boot1 == old(self).boot1,
            final(self).rst == old(self).rst,
            final(self).steps() == old(self).steps().push(ResetStep::Drive(ResetPin::Boot0, high)),
    {
        drive(&mut self.boot0, high);
        self.steps = Ghost(self.steps@.push(ResetStep::Drive(ResetPin::Boot0, high)));
    }

    fn set_boot1(&mut self, high: bool)
        ensures
            Boot1::never_fails() ==> final(self).boot1.is_high() == high,
            final(self).boot1.commands() == old(self).boot1.commands().push(high),
            final(self).boot0 == old(self).boot0,
            final(self).rst == old(self).rst,
            final(self).steps() == old(self).steps().push(ResetStep::Drive(ResetPin::Boot1, high)),
    {
        drive(&mut self.boot1, high);
        self.steps = Ghost(self.steps@.push(ResetStep::Drive(ResetPin::Boot1, high)));
    }

    fn set_rst(&mut self, high: bool)
        ensures
            Rst::never_fails() ==> final(self).rst.is_high() == high,
            final(self).rst.commands() == old(self).rst.commands().push(high),
            final(self).boot0 == old(self).boot0,
            final(self).boot1 == old(self).boot1,
            final(self).steps() == old(self).steps().push(ResetStep::Drive(ResetPin::Rst, high)),
    {
        drive(&mut self.rst, high);
        self.steps = Ghost(self.steps@.push(ResetStep::Drive(ResetPin::Rst, high)));
    }

    fn wait<D: AsyncDelay>(&mut self, delay: &D, ms: u32)
        ensures
            final(self).boot0 == old(self).boot0,
            final(self).boot1 == old(self).boot1,
            final(self).rst == old(self).rst,
            final(self).steps() == old(self).steps().push(ResetStep::Wait(ms)),
    {
        delay.delay_ms(ms);
        self.steps = Ghost(self.steps@.push(ResetStep::Wait(ms)));
    }

    /// Reset the UI chip into bootloader mode: BOOT0=1, BOOT1=0, then RST low, a
    /// 10 ms pause and RST high.
    pub fn reset_to_bootloader<D: AsyncDelay>(&mut self, delay: &D)
        ensures
            Boot0::never_fails() ==> final(self).boot0.is_high(),
            Boot1::never_fails() ==> !final(self).boot1.is_high(),
            Rst::never_fails() ==> final(self).rst.is_high(),
            final(self).boot0.commands() == old(self).boot0.commands().push(true),
            final(self).boot1.commands() == old(self).boot1.commands().push(false),
            final(self).rst.commands() == old(self).rst.commands().push(false).push(true),
            final(self).steps() == old(self).steps() + seq![
                ResetStep::Drive(ResetPin::Boot0, true),
                ResetStep::Drive(ResetPin::Boot1, false),
                ResetStep::Drive(ResetPin::Rst, false),
                ResetStep::Wait(10),
                ResetStep::Drive(ResetPin::Rst, true),
            ],
    {
        self.set_boot0(true);
        self.set_boot1(false);
        self.set_rst(false);
        self.wait(delay, 10);
        self.set_rst(true);
        assert(self.steps() =~= old(self).steps() + seq![
            ResetStep::Drive(ResetPin::Boot0, true),
            ResetStep::Drive(ResetPin::Boot1, false),
            ResetStep::Drive(ResetPin::Rst, false),
            ResetStep::Wait(10),
            ResetStep::Drive(ResetPin::Rst, true),
        ]);
    }

    /// Reset the UI chip into user mode: BOOT0=0, BOOT1=1, then RST low, a 10 ms
    /// pause and RST high.
    pub fn reset_to_user<D: AsyncDelay>(&mut self, delay: &D)
        ensures
            Boot0::never_fails() ==> !final(self).boot0.is_high(),
            Boot1::never_fails() ==> final(self).boot1.is_high(),
            Rst::never_fails() ==> final(self).rst.is_high(),
            final(self).boot0.commands() == old(self).boot0.commands().push(false),
            final(self).boot1.commands() == old(self).boot1.commands().push(true),
            final(self).rst.commands() == old(self).rst.commands().push(false).push(true),
            final(self).steps() == old(self).steps() + seq![
                ResetStep::Drive(ResetPin::Boot0, false),
                ResetStep::Drive(ResetPin::Boot1, true),
                ResetStep::Drive(ResetPin::Rst, false),
                ResetStep::Wait(10),
                ResetStep::Drive(ResetPin::Rst, true),
            ],
    {
        self.set_boot0(false);
        self.set_boot1(true);
        self.set_rst(false);
        self.wait(delay, 10);
        self.set_rst(true);
        assert(self.steps() =~= old(self).steps() + seq![
            ResetStep::Drive(ResetPin::Boot0, false),
            ResetStep::Drive(ResetPin::Boot1, true),
            ResetStep::Drive(ResetPin::Rst, false),
            ResetStep::Wait(10),
            ResetStep::Drive(ResetPin::Rst, true),
        ]);
    }

    /// Hold the UI chip in reset (RST low).
    pub fn hold_reset(&mut self)
        ensures
            final(self).boot0 == old(self).boot0,
            final(self).boot1 == old(self).boot1,
            Rst::never_fails() ==> !final(self).rst.is_high(),
            final(self).rst.commands() == old(self).rst.commands().push(false),
            final(self).steps() == old(self).steps().push(ResetStep::Drive(ResetPin::Rst, false)),
    {
        self.set_rst(false);
    }

    /// Release the UI chip from reset (RST high).
    pub fn release_reset(&mut self)
        ensures
            final(self).boot0 == old(self).boot0,
            final(self).boot1 == old(self).boot1,
            Rst::never_fails() ==> final(self).rst.is_high(),
            final(self).rst.commands() == old(self).rst.commands().push(true),
            final(self).steps() == old(self).steps().push(ResetStep::Drive(ResetPin::Rst, true)),
    {
        self.set_rst(true);
    }
}

/// The GPIO pins that control the NET chip's reset and boot mode.
///
/// The boot pin works the other way from the UI chip's: low enters the
/// bootloader, high boots from flash.
pub struct NetResetPins<Boot, Rst> {
    pub boot: Boot,
    pub rst: Rst,
    /// Every step taken by the methods below, in order, across the pins.
    pub steps: Ghost<Seq<ResetStep>>,
}

impl<Boot: OutputPin, Rst: OutputPin> NetResetPins<Boot, Rst> {
    /// Every step that the methods below took, in order, across the two pins.
    pub open spec fn steps(&self) -> Seq<ResetStep> {
        self.steps@
    }

    /// The pins, left as they are.
    pub fn new(boot: Boot, rst: Rst) -> (p: Self)
        ensures
            p.boot == boot && p.rst == rst,
            p.steps() == Seq::<ResetStep>::empty(),
    {
        NetResetPins { boot, rst, steps: Ghost(Seq::empty()) }
    }

    fn drive_boot(&mut self, high: bool)
        ensures
            Boot::never_fails() ==> final(self).boot.is_high() == high,
            final(self).boot.commands() == old(self).boot.commands().push(high),
            final(self).rst == old(self).rst,
            final(self).steps() == old(self).steps().push(ResetStep::Drive(ResetPin::Boot, high)),
    {
        drive(&mut self.boot, high);
        self.steps = Ghost(self.steps@.push(ResetStep::Drive(ResetPin::Boot, high)));
    }

    fn drive_rst(&mut self, high: bool)
        ensures
            Rst::never_fails() ==> final(self).rst.is_high() == high,
            final(self).rst.commands() == old(self).rst.commands().push(high),
            final(self).boot == old(self).boot,
            final(self).steps() == old(self).steps().push(ResetStep::Drive(ResetPin::Rst, high)),
    {
        drive(&mut self.rst, high);
        self.steps = Ghost(self.steps@.push(ResetStep::Drive(ResetPin::Rst, high)));
    }

    fn wait<D: AsyncDelay>(&mut self, delay: &D, ms: u32)
        ensures
            final(self).boot == old(self).boot,
            final(self).rst == old(self).rst,
            final(self).steps() == old(self).steps().push(ResetStep::Wait(ms)),
    {
        delay.delay_ms(ms);
        self.steps = Ghost(self.steps@.push(ResetStep::Wait(ms)));
    }

    /// Reset the NET chip into bootloader mode: a power cycle, BOOT low, and a second
    /// power cycle (the ESP32 samples BOOT when RST goes high); BOOT stays low.
    pub fn reset_to_bootloader<D: AsyncDelay>(&mut self, delay: &D)
        ensures
            Boot::never_fails() ==> !final(self).boot.is_high(),
            Rst::never_fails() ==> final(self).rst.is_high(),
            final(self).boot.commands() == old(self).boot.commands().push(false),
            final(self).rst.commands() == old(self).rst.commands().push(false).push(true).push(false).push(true),
            final(self).steps() == old(self).steps() + seq![
                ResetStep::Drive(ResetPin::Rst, false),
                ResetStep::Wait(10),
                ResetStep::Drive(ResetPin::Rst, true),
                ResetStep::Drive(ResetPin::Boot, false),
                ResetStep::Drive(ResetPin::Rst, false),
                ResetStep::Wait(10),
                ResetStep::Drive(ResetPin::Rst, true),
            ],
    {
        self.drive_rst(false);
        self.wait(delay, 10);
        self.drive_rst(true);
        self.drive_boot(false);
        self.drive_rst(false);
        self.wait(delay, 10);
        self.drive_rst(true);
        assert(self.steps() =~= old(self).steps() + seq![
            ResetStep::Drive(ResetPin::Rst, false),
            ResetStep::Wait(10),
            ResetStep::Drive(ResetPin::Rst, true),
            ResetStep::Drive(ResetPin::Boot, false),
            ResetStep::Drive(ResetPin::Rst, false),
            ResetStep::Wait(10),
            ResetStep::Drive(ResetPin::Rst, true),
        ]);
    }

    /// Reset the NET chip into user mode: BOOT high, RST low, a 10 ms pause, RST high.
    pub fn reset_to_user<D: AsyncDelay>(&mut self, delay: &D)
        ensures
            Boot::never_fails() ==> final(self).boot.is_high(),
            Rst::never_fails() ==> final(self).rst.is_high(),
            final(self).boot.commands() == old(self).boot.commands().push(true),
            final(self).rst.commands() == old(self).rst.commands().push(false).push(true),
            final(self).steps() == old(self).steps() + seq![
                ResetStep::Drive(ResetPin::Boot, true),
                ResetStep::Drive(ResetPin::Rst, false),
                ResetStep::Wait(10),
                ResetStep::Drive(ResetPin::Rst, true),
            ],
    {
        self.drive_boot(true);
        self.drive_rst(false);
        self.wait(delay, 10);
        self.drive_rst(true);
        assert(self.steps() =~= old(self).steps() + seq![
            ResetStep::Drive(ResetPin::Boot, true),
            ResetStep::Drive(ResetPin::Rst, false),
            ResetStep::Wait(10),
            ResetStep::Drive(ResetPin::Rst, true),
        ]);
    }

    /// Set the BOOT/GPIO0 pin: high boots from flash, low enters the bootloader.
    pub fn set_boot(&mut self, high: bool)
        ensures
            final(self).rst == old(self).rst,
            Boot::never_fails() ==> final(self).boot.is_high() == high,
            final(self).boot.commands() == old(self).boot.commands().push(high),
            final(self).steps() == old(self).steps().push(ResetStep::Drive(ResetPin::Boot, high)),
    {
        self.drive_boot(high);
    }

    /// Set the RST/EN pin: high runs the chip, low holds it in reset.
    pub fn set_rst(&mut self, high: bool)
        ensures
            final(self).boot == old(self).boot,
            Rst::never_fails() ==> final(self).rst.is_high() == high,
            final(self).rst.commands() == old(self).rst.commands().push(high),
            final(self).steps() == old(self).steps().push(ResetStep::Drive(ResetPin::Rst, high)),
    {
        self.drive_rst(high);
    }

    /// Hold the NET chip in reset (RST low).
    pub fn hold_reset(&mut self)
        ensures
            final(self).boot == old(self).boot,
            Rst::never_fails() ==> !final(self).rst.is_high(),
            final(self).rst.commands() == old(self).rst.commands().push(false),
            final(self).steps() == old(self).steps().push(ResetStep::Drive(ResetPin::Rst, false)),
    {
        self.drive_rst(false);
    }
}

/// Persistent storage for the MGMT chip's CTL baud rate.
pub trait BaudRateStorage {
    /// Read the stored CTL baud rate; `None` if no valid stored value exists.
    fn get(&mut self) -> Option<u32>;

    /// Store a new CTL baud rate value; returns true if storage succeeded.
    fn set(&mut self, baud_rate: u32) -> bool;
}

} // verus!
