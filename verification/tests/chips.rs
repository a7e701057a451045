use link::flash::{sectors_for_size_f405, FlashPhase, MgmtBootloaderEntry, MgmtBootloaderInfo};
use link::flasher::{
    interpret_esp32_security, FlashFrequency, FlashMode, FlashSettings, FlashSize, FlasherError, SecurityInfo,
    SpiAttachParams, SpiSetParams,
};
use link::mocks::{mock_led_pins, MockAudioStream, MockDelay, MockEeprom, MockFlash, MockPin};
use link::pins::{Color, InvertedPin, Led, NetResetPins, OutputPin, UiResetPins};
use link::reset::{
    construct_reset_strategy_sequence, hard_reset, reset_after_flash, ResetAfterOperation, ResetBeforeOperation,
    ResetStep, ResetStrategy,
};
use link::slip::SlipDecoder;

#[test]
fn reset_strategy_constructors() {
    assert!(matches!(ResetStrategy::classic(false), ResetStrategy::Classic { delay_ms: 50 }));
    assert!(matches!(ResetStrategy::classic(true), ResetStrategy::Classic { delay_ms: 500 }));
    assert!(matches!(ResetStrategy::unix_tight(true), ResetStrategy::UnixTight { delay_ms: 500 }));
    assert!(matches!(ResetStrategy::usb_jtag_serial(), ResetStrategy::UsbJtagSerial));
}

#[test]
fn reset_sequences() {
    let seq = construct_reset_strategy_sequence("/dev/ttyUSB0", 0x6001, ResetBeforeOperation::DefaultReset, true);
    assert_eq!(seq.len(), 4);
    assert!(matches!(seq[0], ResetStrategy::UnixTight { delay_ms: 50 }));
    assert!(matches!(seq[3], ResetStrategy::Classic { delay_ms: 500 }));
    let seq = construct_reset_strategy_sequence("rfc2217://host:4000", 0x6001, ResetBeforeOperation::DefaultReset, true);
    assert_eq!(seq.len(), 2);
    assert!(matches!(seq[0], ResetStrategy::Classic { delay_ms: 50 }));
    let seq = construct_reset_strategy_sequence("/dev/ttyACM0", 0x1001, ResetBeforeOperation::NoReset, true);
    assert_eq!(seq.len(), 1);
    assert!(matches!(seq[0], ResetStrategy::UsbJtagSerial));
    let seq = construct_reset_strategy_sequence("x", 0, ResetBeforeOperation::UsbReset, false);
    assert!(matches!(seq[0], ResetStrategy::UsbJtagSerial));
    let seq = construct_reset_strategy_sequence("COM3", 0x6001, ResetBeforeOperation::DefaultReset, false);
    assert_eq!(seq.len(), 2);
    assert!(matches!(seq[0], ResetStrategy::Classic { delay_ms: 50 }));
    assert_eq!(ResetBeforeOperation::default(), ResetBeforeOperation::DefaultReset);
    assert_eq!(ResetAfterOperation::default(), ResetAfterOperation::HardReset);
}

#[test]
fn reset_steps() {
    let steps = ResetStrategy::classic(false).steps();
    assert_eq!(steps.len(), 12);
    assert_eq!(steps[5], ResetStep::Dtr(false));
    assert_eq!(steps[9], ResetStep::DelayMs(50));
    let steps = ResetStrategy::unix_tight(true).steps();
    assert_eq!(steps[0], ResetStep::Dtr(false));
    assert_eq!(steps[9], ResetStep::DelayMs(500));
    assert_eq!(ResetStrategy::usb_jtag_serial().steps()[4], ResetStep::Dtr(true));
    assert_eq!(
        reset_after_flash(0x6001),
        vec![ResetStep::DelayMs(100), ResetStep::Rts(true), ResetStep::DelayMs(100), ResetStep::Rts(false)]
    );
    assert_eq!(hard_reset(0x1001).len(), 8);
}

#[test]
fn flash_size_encoding() {
    assert_eq!(FlashSize::_4Mb.encode_flash_size(), Ok(2));
    assert_eq!(FlashSize::_256Mb.encode_flash_size(), Ok(8));
    assert_eq!(FlashSize::_512Kb.encode_flash_size(), Err(FlasherError::UnsupportedFlash(1)));
    assert_eq!(FlashSize::from_detected(0x16), Ok(FlashSize::_4Mb));
    assert_eq!(FlashSize::from_detected(0x3A), Ok(FlashSize::_64Mb));
    assert_eq!(FlashSize::from_detected(0x99), Err(FlasherError::UnsupportedFlash(0x99)));
    assert_eq!(FlashSize::_16Mb.size(), 16 * 1024 * 1024);
    assert_eq!(FlashSize::_256Kb.size(), 256 * 1024);
    assert_eq!(FlashSize::default(), FlashSize::_4Mb);
    assert_eq!(FlashMode::default(), FlashMode::Dio);
    assert_eq!(FlashFrequency::default(), FlashFrequency::_40Mhz);
}

#[test]
fn flash_settings() {
    let d = FlashSettings::default();
    assert!(d.mode.is_none() && d.size.is_none() && d.freq.is_none());
    assert_eq!(d, <FlashSettings as Default>::default());
    assert_eq!(d, FlashSettings { mode: None, size: None, freq: None });
    let s = FlashSettings::new(Some(FlashMode::Qio), Some(FlashSize::_8Mb), None);
    assert_eq!(s.mode, Some(FlashMode::Qio));
    assert_eq!(s.size, Some(FlashSize::_8Mb));
}

#[test]
fn spi_params_encoding() {
    let enc = SpiSetParams::default(0x40_0000).encode();
    assert_eq!(enc.len(), 24);
    assert_eq!(&enc[0..8], &[0, 0, 0, 0, 0, 0, 0x40, 0]);
    assert_eq!(&enc[20..24], &[0xFF, 0xFF, 0, 0]);
    assert_eq!(SpiAttachParams::default().encode(true), vec![0, 0, 0, 0]);
    assert_eq!(SpiAttachParams::default().encode(false), vec![0; 8]);
    let packed: u32 = (11 << 24) | (16 << 18) | (8 << 12) | (17 << 6) | 6;
    assert_eq!(SpiAttachParams::esp32_pico_d4().encode(true), packed.to_le_bytes().to_vec());
}

#[test]
fn security_info_parsing() {
    let mut bytes = vec![0x01, 0x00, 0x00, 0x00, 0x03, 1, 2, 3, 4, 5, 6, 7];
    let s2 = SecurityInfo::try_from(&bytes).unwrap();
    assert_eq!(s2.flags, 1);
    assert_eq!(s2.flash_crypt_cnt, 3);
    assert_eq!(s2.key_purposes, [1, 2, 3, 4, 5, 6, 7]);
    assert_eq!(s2.chip_id, None);
    assert_eq!(interpret_esp32_security(&s2), (true, false));
    bytes.extend_from_slice(&[9, 0, 0, 0, 2, 0, 0, 0]);
    let s3 = SecurityInfo::try_from(&bytes).unwrap();
    assert_eq!(s3.chip_id, Some(9));
    assert_eq!(s3.eco_version, Some(2));
    assert!(s3.security_flag_status("SECURE_BOOT_EN"));
    assert!(!s3.security_flag_status("DIS_USB"));
    assert!(!s3.security_flag_status("NOT_A_FLAG"));
    assert_eq!(
        SecurityInfo::try_from(&bytes[..5]),
        Err(FlasherError::ResponseTooShort { expected: 12, received: 5 })
    );
    assert_eq!(
        SecurityInfo::try_from(&bytes[..15]),
        Err(FlasherError::ResponseTooShort { expected: 20, received: 15 })
    );
    let odd = SecurityInfo { flags: 0, flash_crypt_cnt: 0b0000_0111, key_purposes: [0; 7], chip_id: None, eco_version: None };
    assert_eq!(interpret_esp32_security(&odd), (false, true));
}

#[test]
fn mgmt_bootloader_info() {
    let mut info = MgmtBootloaderInfo::default();
    info.bootloader_version = 0x31;
    assert_eq!((info.version_major(), info.version_minor()), (3, 1));
    assert_eq!(info.sp(), None);
    assert!(!info.sp_valid());
    let mut sample = [0u8; 32];
    sample[0..4].copy_from_slice(&0x2000_5000u32.to_le_bytes());
    sample[4..8].copy_from_slice(&0x0800_0101u32.to_le_bytes());
    info.flash_sample = Some(sample);
    assert_eq!(info.sp(), Some(0x2000_5000));
    assert_eq!(info.reset_handler(), Some(0x0800_0101));
    assert!(info.sp_valid());
    assert!(info.reset_valid());
    sample[4..8].copy_from_slice(&0x0800_0100u32.to_le_bytes());
    info.flash_sample = Some(sample);
    assert!(!info.reset_valid());
    assert_eq!(FlashPhase::Writing.as_str(), "writing");
    assert_ne!(MgmtBootloaderEntry::AutoReset, MgmtBootloaderEntry::NotDetected);
}

#[test]
fn f405_sectors() {
    assert_eq!(sectors_for_size_f405(0), 1);
    assert_eq!(sectors_for_size_f405(1), 1);
    assert_eq!(sectors_for_size_f405(16 * 1024), 1);
    assert_eq!(sectors_for_size_f405(16 * 1024 + 1), 2);
    assert_eq!(sectors_for_size_f405(64 * 1024), 4);
    assert_eq!(sectors_for_size_f405(128 * 1024), 5);
    assert_eq!(sectors_for_size_f405(128 * 1024 + 1), 6);
    assert_eq!(sectors_for_size_f405(1024 * 1024), 12);
    assert_eq!(sectors_for_size_f405(2 * 1024 * 1024), 12);
}

#[test]
fn led_is_active_low() {
    let (r, g, b) = mock_led_pins();
    let mut led = Led::new(r, g, b);
    led.set(Color::Yellow);
    assert_eq!(Color::Magenta.rgb(), (true, false, true));
    let mut led2 = Led::new(MockPin::new(), InvertedPin(MockPin::new()), MockPin::default());
    led2.set(Color::Green);
    led.set(Color::Black);
}

#[test]
fn mock_pin_levels() {
    let mut p = MockPin::new();
    assert!(p.is_set_low());
    p.set_high().unwrap();
    assert!(p.is_set_high());
    let mut inv = InvertedPin(MockPin::new());
    inv.set_low().unwrap();
    assert!(inv.0.is_set_high());
}

#[test]
fn reset_pins() {
    let mut ui = UiResetPins::new(MockPin::new(), MockPin::new(), MockPin::new());
    ui.reset_to_bootloader(&MockDelay);
    assert!(ui.boot0.is_set_high() && ui.boot1.is_set_low() && ui.rst.is_set_high());
    ui.reset_to_user(&MockDelay);
    assert!(ui.boot0.is_set_low() && ui.boot1.is_set_high());
    ui.hold_reset();
    assert!(ui.rst.is_set_low());
    ui.release_reset();
    assert!(ui.rst.is_set_high());
    let mut net = NetResetPins::new(MockPin::new(), MockPin::new());
    net.reset_to_bootloader(&MockDelay);
    assert!(net.boot.is_set_low() && net.rst.is_set_high());
    net.reset_to_user(&MockDelay);
    assert!(net.boot.is_set_high());
    net.set_boot(false);
    net.set_rst(false);
    assert!(net.boot.is_set_low() && net.rst.is_set_low());
    net.hold_reset();
    assert!(net.rst.is_set_low());
}

#[test]
fn mocks() {
    let _ = MockEeprom::new();
    let mut f = MockFlash::new();
    assert_eq!(f.capacity(), 4096);
    f.write(10, &[1, 2, 3]);
    let mut buf = [0u8; 5];
    f.read(9, &mut buf);
    assert_eq!(buf, [0xFF, 1, 2, 3, 0xFF]);
    let mut s = MockAudioStream::new();
    assert_eq!(s.next_frame_id(), 0);
    assert_eq!(s.next_frame_id(), 1);
}

#[test]
fn slip_decoder_roundtrip() {
    let payload = [0x01, 0xC0, 0xDB, 0x02];
    let frame = link::slip::encode(&payload);
    assert_eq!(frame, vec![0xC0, 0x01, 0xDB, 0xDC, 0xDB, 0xDD, 0x02, 0xC0]);
    let mut d = SlipDecoder::new();
    let mut out = Vec::new();
    let mut done = false;
    for b in b"junk".iter().chain(frame.iter()) {
        if d.feed(*b, &mut out) {
            done = true;
            break;
        }
    }
    assert!(done);
    assert_eq!(out, payload.to_vec());
}

#[test]
fn led_set_drives_each_pin_once() {
    let (r, g, b) = mock_led_pins();
    let mut led = Led::new(r, g, b);
    led.set(Color::Yellow);
    let (r, g, b) = led.into_pins();
    assert_eq!(r.driven(), &vec![false]);
    assert_eq!(g.driven(), &vec![false]);
    assert_eq!(b.driven(), &vec![true]);
}

#[test]
fn reset_pin_calls_are_exact() {
    let mut net = NetResetPins::new(MockPin::new(), MockPin::new());
    net.set_boot(true);
    assert_eq!(net.boot.driven(), &vec![true]);
    net.set_boot(false);
    assert_eq!(net.boot.driven(), &vec![true, false]);
    assert!(net.rst.driven().is_empty());
    net.reset_to_bootloader(&MockDelay);
    assert_eq!(net.rst.driven(), &vec![false, true, false, true]);
    let mut ui = UiResetPins::new(MockPin::new(), MockPin::new(), MockPin::new());
    ui.hold_reset();
    assert_eq!(ui.rst.driven(), &vec![false]);
    assert!(ui.boot0.driven().is_empty() && ui.boot1.driven().is_empty());
    ui.reset_to_bootloader(&MockDelay);
    assert_eq!(ui.boot0.driven(), &vec![true]);
    assert_eq!(ui.boot1.driven(), &vec![false]);
    assert_eq!(ui.rst.driven(), &vec![false, false, true]);
}

#[test]
fn inverted_pin_records_inverted_levels() {
    let mut inv = InvertedPin(MockPin::new());
    inv.set_low().unwrap();
    inv.set_high().unwrap();
    assert_eq!(inv.0.driven(), &vec![true, false]);
}
