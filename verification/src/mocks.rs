//! In-memory stand-ins for hardware: pins, delays, an EEPROM, a flash.
use vstd::prelude::*;

use crate::flash::AsyncDelay;
use crate::net_ctl::{NetSettings, NetSettingsView, SettingsStore};
use crate::pins::OutputPin;

verus! {

/// A pin that remembers the level it was driven to, and every level it was told
/// to take.
#[derive(Debug)]
pub struct MockPin {
    state: bool,
    driven: Vec<bool>,
}

impl MockPin {
    /// A pin driven low, told nothing yet.
    pub fn new() -> (p: Self)
        ensures
            !p.is_high(),
            p.commands() == Seq::<bool>::empty(),
    {
        MockPin { state: false, driven: Vec::new() }
    }

    /// Every level the pin was told to take, in order (true = high).
    pub fn driven(&self) -> (r: &Vec<bool>)
        ensures
            r@ == self.commands(),
    {
        &self.driven
    }

    /// Whether the pin is driven high.
    pub fn is_set_high(&self) -> (r: bool)
        ensures
            r == self.is_high(),
    {
        self.state
    }

    /// Whether the pin is driven low.
    pub fn is_set_low(&self) -> (r: bool)
        ensures
            r == !self.is_high(),
    {
        !self.state
    }
}

impl Default for MockPin {
    fn default() -> (p: Self)
        ensures
            !p.is_high(),
            p.commands() == Seq::<bool>::empty(),
    {
        MockPin::new()
    }
}

impl OutputPin for MockPin {
    type Error = core::convert::Infallible;

    closed spec fn is_high(&self) -> bool {
        self.state
    }

    open spec fn never_fails() -> bool {
        true
    }

    closed spec fn commands(&self) -> Seq<bool> {
        self.driven@
    }

    fn set_low(&mut self) -> (r: Result<(), core::convert::Infallible>) {
        self.state = false;
        self.driven.push(false);
        Ok(())
    }

    fn set_high(&mut self) -> (r: Result<(), core::convert::Infallible>) {
        self.state = true;
        self.driven.push(true);
        Ok(())
    }
}

/// Create a tuple of mock LED pins, all low.
pub fn mock_led_pins() -> (r: (MockPin, MockPin, MockPin))
    ensures
        !r.0.is_high() && !r.1.is_high() && !r.2.is_high(),
        r.0.commands().len() == 0 && r.1.commands().len() == 0 && r.2.commands().len() == 0,
{
    (MockPin::new(), MockPin::new(), MockPin::new())
}

/// A delay that returns at once.
pub struct MockDelay;

impl AsyncDelay for MockDelay {
    fn delay_ms(&self, ms: u32) {
    }
}

/// Mock EEPROM device (256 bytes, erased to `0xFF`).
pub struct MockEeprom {
    data: [u8; 256],
}

/// I2C address of the EEPROM.
pub const EEPROM_I2C_ADDR: u8 = 0x50;

impl MockEeprom {
    /// The stored bytes.
    pub closed spec fn contents(&self) -> Seq<u8> {
        self.data@
    }

    /// An erased EEPROM: every byte `0xFF`.
    pub fn new() -> (e: Self)
        ensures
            e.contents() == Seq::new(256, |i: int| 0xFFu8),
    {
        let data: [u8; 256] = [0xFFu8; 256];
        assert(data@ =~= Seq::new(256, |i: int| 0xFFu8));
        MockEeprom { data }
    }
}

impl Default for MockEeprom {
    fn default() -> (e: Self)
        ensures
            e.contents() == Seq::new(256, |i: int| 0xFFu8),
    {
        MockEeprom::new()
    }
}

/// Mock flash storage for testing (4 KB, erased to `0xFF`).
pub struct MockFlash {
    pub data: [u8; 4096],
}

impl MockFlash {
    /// An erased flash: every byte `0xFF`.
    pub fn new() -> (f: Self)
        ensures
            f.data@ == Seq::new(4096, |i: int| 0xFFu8),
    {
        let data: [u8; 4096] = [0xFFu8; 4096];
        assert(data@ =~= Seq::new(4096, |i: int| 0xFFu8));
        MockFlash { data }
    }

    /// The size of the flash.
    pub fn capacity(&self) -> (r: usize)
        ensures
            r == 4096,
    {
        4096
    }

    /// Read `bytes.len()` bytes at `offset`.
    pub fn read(&self, offset: u32, bytes: &mut [u8])
        requires
            offset + old(bytes)@.len() <= 4096,
        ensures
            final(bytes)@ == self.data@.subrange(offset as int, offset + old(bytes)@.len()),
    {
        let start = offset as usize;
        let mut i: usize = 0;
        while i < bytes.len()
            invariant
                start == offset,
                start + bytes@.len() <= 4096,
                bytes@.len() == old(bytes)@.len(),
                i <= bytes@.len(),
                forall|j: int| 0 <= j < i ==> bytes@[j] == self.data@[start + j],
            decreases bytes@.len() - i,
        {
            bytes[i] = self.data[start + i];
            i = i + 1;
        }
        assert(bytes@ =~= self.data@.subrange(offset as int, offset + old(bytes)@.len()));
    }

    /// Write `bytes` at `offset`.
    pub fn write(&mut self, offset: u32, bytes: &[u8])
        requires
            offset + bytes@.len() <= 4096,
        ensures
            final(self).data@ == old(self).data@.subrange(0, offset as int) + bytes@ + old(self).data@.subrange(
                offset + bytes@.len(),
                4096,
            ),
    {
        let start = offset as usize;
        let mut i: usize = 0;
        while i < bytes.len()
            invariant
                start == offset,
                start + bytes@.len() <= 4096,
                i <= bytes@.len(),
                self.data@.len() == 4096,
                forall|j: int| 0 <= j < start ==> self.data@[j] == old(self).data@[j],
                forall|j: int| start + bytes@.len() <= j < 4096 ==> self.data@[j] == old(self).data@[j],
                forall|j: int| 0 <= j < i ==> self.data@[start + j] == bytes@[j],
            decreases bytes@.len() - i,
        {
            self.data[start + i] = bytes[i];
            i = i + 1;
        }
        assert(self.data@ =~= old(self).data@.subrange(0, offset as int) + bytes@ + old(self).data@.subrange(
            offset + bytes@.len(),
            4096,
        ));
    }
}

impl Default for MockFlash {
    fn default() -> (f: Self)
        ensures
            f.data@ == Seq::new(4096, |i: int| 0xFFu8),
    {
        MockFlash::new()
    }
}

/// Mock audio stream that numbers the frames it produces.
pub struct MockAudioStream {
    frame_counter: u16,
}

impl MockAudioStream {
    /// The number that the next frame will carry.
    pub closed spec fn counter(&self) -> u16 {
        self.frame_counter
    }

    /// A stream whose first frame is number 0.
    pub fn new() -> (s: Self)
        ensures
            s.counter() == 0,
    {
        MockAudioStream { frame_counter: 0 }
    }

    /// The number of the next frame; the numbers wrap around after 65535.
    pub fn next_frame_id(&mut self) -> (r: u16)
        ensures
            r == old(self).counter(),
            final(self).counter() == (if old(self).counter() == u16::MAX { 0 } else { old(self).counter() + 1 }),
    {
        let id = self.frame_counter;
        self.frame_counter = if id == u16::MAX {
            0
        } else {
            id + 1
        };
        id
    }
}

impl Default for MockAudioStream {
    fn default() -> (s: Self)
        ensures
            s.counter() == 0,
    {
        MockAudioStream::new()
    }
}


/// A settings store in memory: it keeps the last settings written, and can be
/// made to fail every write.
pub struct MemorySettingsStore {
    last: Option<NetSettings>,
    fail: bool,
    history: Ghost<Seq<NetSettingsView>>,
}

impl MemorySettingsStore {
    /// The last settings kept are the last ones written; a failing store keeps none.
    #[verifier::type_invariant]
    spec fn kept_last(&self) -> bool {
        &&& self.fail ==> self.history@.len() == 0
        &&& (self.last is None <==> self.history@.len() == 0)
        &&& self.last matches Some(x) ==> x@ == self.history@.last() && x.wf()
    }

    /// A store whose writes succeed, with nothing written yet.
    pub fn new() -> (r: Self)
        ensures
            r.saved() == Seq::<NetSettingsView>::empty(),
    {
        MemorySettingsStore { last: None, fail: false, history: Ghost(Seq::empty()) }
    }

    /// A store whose writes all fail.
    pub fn failing() -> (r: Self)
        ensures
            r.saved() == Seq::<NetSettingsView>::empty(),
    {
        MemorySettingsStore { last: None, fail: true, history: Ghost(Seq::empty()) }
    }

    /// The settings written last, if any.
    pub fn last_saved(&self) -> (r: Option<&NetSettings>)
        ensures
            r is None <==> self.saved().len() == 0,
            r matches Some(x) ==> x@ == self.saved().last(),
    {
        proof {
            use_type_invariant(self);
        }
        match &self.last {
            Some(x) => Some(x),
            None => None,
        }
    }
}

impl SettingsStore for MemorySettingsStore {
    closed spec fn saved(&self) -> Seq<NetSettingsView> {
        self.history@
    }

    fn save(&mut self, settings: &NetSettings) -> (ok: bool) {
        proof {
            use_type_invariant(&*self);
        }
        if self.fail {
            return false;
        }
        let kept = settings.copy();
        let history = Ghost(self.history@.push(settings@));
        *self = MemorySettingsStore { last: Some(kept), fail: false, history };
        true
    }
}

} // verus!
