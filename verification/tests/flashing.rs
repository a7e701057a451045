use link::ctl::CtlCore;
use link::flash::{flash_f405, FlashError, FlashPhase};
use link::port::MemPort;
use link::stm::{Bootloader, ACK, NACK};

fn firmware(len: usize) -> Vec<u8> {
    (0..len).map(|i| (i % 251) as u8).collect()
}

fn xor(bytes: &[u8]) -> u8 {
    bytes.iter().fold(0, |a, b| a ^ b)
}

fn address(a: u32) -> Vec<u8> {
    let b = a.to_be_bytes();
    let mut v = b.to_vec();
    v.push(xor(&b));
    v
}

fn write_frame(a: u32, chunk: &[u8]) -> Vec<u8> {
    let n = (chunk.len() - 1) as u8;
    let mut v = vec![0x31, 0xCE];
    v.extend(address(a));
    v.push(n);
    v.extend_from_slice(chunk);
    v.push(n ^ xor(chunk));
    v
}

fn read_frame(a: u32, len: usize) -> Vec<u8> {
    let n = (len - 1) as u8;
    let mut v = vec![0x11, 0xEE];
    v.extend(address(a));
    v.extend([n, !n]);
    v
}

fn ext_erase_frame(page: u16) -> Vec<u8> {
    let p = page.to_be_bytes();
    vec![0x44, 0xBB, 0x00, 0x00, p[0], p[1], p[0] ^ p[1]]
}

fn answers(fw: &[u8], init: bool, pages: usize, readback: &[u8]) -> Vec<u8> {
    let mut v = Vec::new();
    if init {
        v.push(ACK);
    }
    v.extend(vec![ACK; 2 * pages]);
    let chunks = (fw.len() + 255) / 256;
    v.extend(vec![ACK; 3 * chunks]);
    for c in readback.chunks(256) {
        v.extend([ACK, ACK, ACK]);
        v.extend_from_slice(c);
    }
    v
}

fn expected_out(fw: &[u8], init: bool, erase: Vec<u8>, verify: bool, go: bool) -> Vec<u8> {
    let mut v = Vec::new();
    if init {
        v.push(0x7F);
    }
    v.extend(erase);
    for (i, c) in fw.chunks(256).enumerate() {
        v.extend(write_frame(0x0800_0000 + 256 * i as u32, c));
    }
    if verify {
        for (i, c) in fw.chunks(256).enumerate() {
            v.extend(read_frame(0x0800_0000 + 256 * i as u32, c.len()));
        }
    }
    if go {
        v.extend([0x21, 0xDE]);
        v.extend(address(0x0800_0000));
    }
    v
}

#[test]
fn flash_mgmt_writes_verifies_and_jumps() {
    let fw = firmware(300);
    let mut input = answers(&fw, true, 1, &fw);
    input.extend([ACK, ACK]);
    let mut core = CtlCore::new(MemPort::new(input));
    let mut progress = Vec::new();
    core.flash_mgmt(&fw, false, &mut progress).unwrap();
    let port = core.into_inner();
    assert_eq!(port.written(), &expected_out(&fw, true, ext_erase_frame(0), true, true));
    assert_eq!(port.remaining(), 0);
    assert_eq!(
        progress,
        vec![
            (FlashPhase::Erasing, 0, 1),
            (FlashPhase::Erasing, 1, 1),
            (FlashPhase::Writing, 256, 300),
            (FlashPhase::Writing, 300, 300),
            (FlashPhase::Verifying, 256, 300),
            (FlashPhase::Verifying, 300, 300),
        ]
    );
}

#[test]
fn flash_mgmt_erases_one_page_per_two_kilobytes() {
    let fw = firmware(2049);
    let mut input = answers(&fw, false, 2, &fw);
    input.extend([ACK, ACK]);
    let mut core = CtlCore::new(MemPort::new(input));
    let mut progress = Vec::new();
    core.flash_mgmt(&fw, true, &mut progress).unwrap();
    let mut erase = ext_erase_frame(0);
    erase.extend(ext_erase_frame(1));
    assert_eq!(core.into_inner().written(), &expected_out(&fw, false, erase, true, true));
    assert_eq!(progress[..3], [(FlashPhase::Erasing, 0, 2), (FlashPhase::Erasing, 1, 2), (FlashPhase::Erasing, 2, 2)]);
}

#[test]
fn flash_mgmt_falls_back_to_legacy_erase() {
    let fw = firmware(16);
    let mut input = vec![ACK, NACK, ACK, ACK];
    input.extend([ACK, ACK, ACK]);
    input.extend([ACK, ACK, ACK]);
    input.extend_from_slice(&fw);
    input.extend([ACK, ACK]);
    let mut core = CtlCore::new(MemPort::new(input));
    let mut progress = Vec::new();
    core.flash_mgmt(&fw, false, &mut progress).unwrap();
    let erase = vec![0x44, 0xBB, 0x43, 0xBC, 0x00, 0x00, 0x00];
    assert_eq!(core.into_inner().written(), &expected_out(&fw, true, erase, true, true));
}

#[test]
fn flash_mgmt_reports_the_first_chunk_that_differs() {
    let fw = firmware(600);
    let mut readback = fw.clone();
    readback[300] ^= 0xFF;
    let input = answers(&fw, true, 1, &readback);
    let mut core = CtlCore::new(MemPort::new(input));
    let mut progress = Vec::new();
    match core.flash_mgmt(&fw, false, &mut progress) {
        Err(FlashError::VerifyFailed { address, expected, actual }) => {
            assert_eq!(address, 0x0800_0100);
            assert_eq!(expected, fw[256..512].to_vec());
            assert_eq!(actual, readback[256..512].to_vec());
        }
        other => panic!("expected a verify failure, got {:?}", other.is_ok()),
    }
    assert_eq!(progress.last(), Some(&(FlashPhase::Verifying, 256, 600)));
}

#[test]
fn flash_mgmt_nack_on_write_is_a_bootloader_error() {
    let fw = firmware(10);
    let input = vec![ACK, ACK, ACK, NACK];
    let mut core = CtlCore::new(MemPort::new(input));
    let mut progress = Vec::new();
    assert!(matches!(core.flash_mgmt(&fw, false, &mut progress), Err(FlashError::Bootloader(link::stm::Error::Nack))));
}

#[test]
fn flash_ui_writes_sectors_and_optionally_verifies() {
    let fw = firmware(100);
    let input = answers(&fw, true, 1, &[]);
    let mut bl = Bootloader::new(MemPort::new(input), MemPort::new(vec![]));
    let mut progress = Vec::new();
    flash_f405(&mut bl, &fw, false, &mut progress).unwrap();
    let (_, w) = bl.into_inner();
    assert_eq!(w.written(), &expected_out(&fw, true, ext_erase_frame(0), false, false));
    let input = answers(&fw, true, 1, &fw);
    let mut bl = Bootloader::new(MemPort::new(input), MemPort::new(vec![]));
    let mut progress = Vec::new();
    flash_f405(&mut bl, &fw, true, &mut progress).unwrap();
    assert_eq!(progress.last(), Some(&(FlashPhase::Verifying, 100, 100)));
}

#[test]
fn mgmt_bootloader_info_reads_get_id_and_sample() {
    let mut input = vec![ACK, 1, 0x31, 0x00, ACK];
    input.extend([ACK, 1, 0x04, 0x48, ACK]);
    input.extend([ACK, ACK, ACK]);
    let mut sample = vec![0u8; 32];
    sample[..8].copy_from_slice(&[0x00, 0x40, 0x00, 0x20, 0xC1, 0x00, 0x00, 0x08]);
    input.extend_from_slice(&sample);
    input.extend([ACK, ACK]);
    let mut core = CtlCore::new(MemPort::new(input));
    let info = core.get_mgmt_bootloader_info(true).unwrap();
    assert_eq!(info.bootloader_version, 0x31);
    assert_eq!(info.command_count, 1);
    assert_eq!(info.commands[0], 0x00);
    assert_eq!(info.chip_id, 0x0448);
    assert_eq!(info.sp(), Some(0x2000_4000));
    assert_eq!(info.reset_handler(), Some(0x0800_00C1));
    let mut out = vec![0x00, 0xFF, 0x02, 0xFD];
    out.extend(read_frame(0x0800_0000, 32));
    out.extend([0x21, 0xDE]);
    out.extend(address(0x0800_0000));
    assert_eq!(core.into_inner().written(), &out);
}

#[test]
fn mgmt_bootloader_info_without_sample_under_read_protection() {
    let mut input = vec![ACK, ACK, 1, 0x31, 0x00, ACK];
    input.extend([ACK, 1, 0x04, 0x48, ACK]);
    input.push(NACK);
    input.extend([ACK, ACK]);
    let mut core = CtlCore::new(MemPort::new(input));
    let info = core.get_mgmt_bootloader_info(false).unwrap();
    assert!(info.flash_sample.is_none());
}

#[test]
fn data0_option_byte_is_the_first_of_its_block() {
    let input = vec![ACK, ACK, ACK, ACK, 0xAA, 0x55, 0xFF, 0x00];
    let mut core = CtlCore::new(MemPort::new(input));
    assert_eq!(core.get_mgmt_data0_option_byte(false).unwrap(), 0xAA);
    let mut out = vec![0x7F, 0x11, 0xEE];
    out.extend(address(0x1FFF_F804));
    out.extend([0x03, 0xFC]);
    assert_eq!(core.into_inner().written(), &out);
}

#[test]
fn data0_option_byte_nack_is_an_error() {
    let mut core = CtlCore::new(MemPort::new(vec![NACK]));
    assert!(matches!(core.get_mgmt_data0_option_byte(true), Err(link::stm::Error::Nack)));
}

#[test]
fn probe_sees_the_bootloader_ack() {
    let mut core = CtlCore::new(MemPort::new(vec![ACK]));
    assert!(core.probe_mgmt_bootloader());
    assert_eq!(core.into_inner().written(), &vec![0x7F]);
    let mut core = CtlCore::new(MemPort::new(vec![NACK]));
    assert!(!core.probe_mgmt_bootloader());
    let mut core = CtlCore::new(MemPort::new(vec![]));
    assert!(!core.probe_mgmt_bootloader());
}
