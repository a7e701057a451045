use link::esp::{write_flash, write_mem, Bootloader, Command, Error, SpiParams};
use link::port::{MemPort, MemPortError};
use link::slip::encode;

type Boot = Bootloader<MemPort, MemPort>;

fn response(cmd: u8, value: u32, data: &[u8], status: u8, err: u8) -> Vec<u8> {
    let mut p = vec![0x01, cmd];
    p.extend_from_slice(&((data.len() + 2) as u16).to_le_bytes());
    p.extend_from_slice(&value.to_le_bytes());
    p.extend_from_slice(data);
    p.push(status);
    p.push(err);
    encode(&p)
}

fn request(cmd: u8, payload: &[u8], checksum: u32) -> Vec<u8> {
    let mut p = vec![0x00, cmd];
    p.extend_from_slice(&(payload.len() as u16).to_le_bytes());
    p.extend_from_slice(&checksum.to_le_bytes());
    p.extend_from_slice(payload);
    encode(&p)
}

fn boot(input: Vec<u8>) -> Boot {
    Bootloader::new(MemPort::new(input), MemPort::new(vec![]))
}

fn sent(b: Boot) -> Vec<u8> {
    let (_, w) = b.into_inner();
    w.written().clone()
}

fn le_words(words: &[(u32, u32, u32, u32)]) -> Vec<u8> {
    let mut v = Vec::new();
    for &(a, b, c, d) in words {
        v.extend_from_slice(&a.to_le_bytes());
        v.extend_from_slice(&b.to_le_bytes());
        v.extend_from_slice(&c.to_le_bytes());
        v.extend_from_slice(&d.to_le_bytes());
    }
    v
}

#[test]
fn command_codes() {
    assert_eq!(Command::FlashBegin.as_u8(), 0x02);
    assert_eq!(Command::SpiAttach.as_u8(), 0x0D);
    assert_eq!(Command::GetSecurityInfo.as_u8(), 0x14);
}

#[test]
fn checksum_is_seeded_xor() {
    assert_eq!(Boot::checksum(&[]), 0xEF);
    assert_eq!(Boot::checksum(&[0x01, 0x02, 0x03]), 0xEF);
    assert_eq!(Boot::checksum(&[0xFF]), 0x10);
}

#[test]
fn read_reg_returns_value() {
    let mut b = boot(response(0x0A, 0xDEAD_BEEF, &[], 0, 0));
    assert_eq!(b.read_reg(0x6000_2000).unwrap(), 0xDEAD_BEEF);
    assert_eq!(sent(b), request(0x0A, &0x6000_2000u32.to_le_bytes(), 0));
}

#[test]
fn read_reg_skips_other_responses() {
    let mut input = response(0x08, 0, &[], 0, 0);
    input.extend(response(0x08, 0, &[], 0, 0));
    input.extend(response(0x0A, 7, &[], 0, 0));
    let mut b = boot(input);
    assert_eq!(b.read_reg(0).unwrap(), 7);
}

#[test]
fn bootloader_error_status() {
    let mut b = boot(response(0x0A, 0, &[], 1, 5));
    assert!(matches!(b.read_reg(0), Err(Error::BootloaderError(5))));
}

#[test]
fn command_mismatch_after_eight_responses() {
    let mut input = Vec::new();
    for _ in 0..8 {
        input.extend(response(0x08, 0, &[], 0, 0));
    }
    input.extend(response(0x0A, 1, &[], 0, 0));
    let mut b = boot(input);
    assert!(matches!(b.read_reg(0), Err(Error::CommandMismatch { expected: 0x0A, got: 0 })));
}

#[test]
fn decode_errors() {
    let mut b = boot(vec![]);
    assert!(matches!(b.read_reg(0), Err(Error::Timeout)));
    let mut b = boot(vec![0xC0, 0x01, 0xDB, 0x00, 0xC0]);
    assert!(matches!(b.read_reg(0), Err(Error::SlipError)));
    let mut b = boot(vec![0xC0, 0x01, 0x0A, 0x00, 0xC0]);
    assert!(matches!(b.read_reg(0), Err(Error::ResponseTooShort)));
    let mut b = boot(encode(&[0x02, 0x0A, 0, 0, 0, 0, 0, 0, 0, 0]));
    assert!(matches!(b.read_reg(0), Err(Error::InvalidDirection(0x02))));
    let mut frame = vec![0xC0];
    frame.extend(vec![0x01; 1100]);
    let mut b = boot(frame);
    assert!(matches!(b.read_reg(0), Err(Error::BufferOverflow)));
}

#[test]
fn escaped_response_bytes() {
    let mut b = boot(response(0x0A, 0xC0DB_C0DB, &[], 0, 0));
    assert_eq!(b.read_reg(0).unwrap(), 0xC0DB_C0DB);
}

#[test]
fn sync_sends_two_probes() {
    let mut b = boot(response(0x08, 0, &[], 0, 0));
    b.sync().unwrap();
    let mut payload = vec![0x07, 0x07, 0x12, 0x20];
    payload.extend(vec![0x55; 32]);
    let mut expected = request(0x08, &payload, 0);
    expected.extend(request(0x08, &payload, 0));
    assert_eq!(sent(b), expected);
}

#[test]
fn sync_rejects_other_command() {
    let mut b = boot(response(0x0A, 0, &[], 0, 0));
    assert!(matches!(b.sync(), Err(Error::SyncFailed)));
}

#[test]
fn write_reg_payload() {
    let mut b = boot(response(0x09, 0, &[], 0, 0));
    b.write_reg(1, 2, 3, 4).unwrap();
    let payload = le_words(&[(1, 2, 3, 4)]);
    assert_eq!(sent(b), request(0x09, &payload, 0));
}

#[test]
fn begin_counts_blocks() {
    let mut b = boot(response(0x05, 0, &[], 0, 0));
    assert_eq!(b.mem_begin(10, 4, 0x4000_0000).unwrap(), 3);
    assert_eq!(sent(b), request(0x05, &le_words(&[(10, 3, 4, 0x4000_0000)]), 0));
    let mut b = boot(response(0x02, 0, &[], 0, 0));
    assert_eq!(b.flash_begin(8, 4, 0).unwrap(), 2);
    let mut b = boot(response(0x10, 0, &[], 0, 0));
    assert_eq!(b.flash_defl_begin(0, 4, 0).unwrap(), 0);
}

#[test]
fn data_packet_and_limits() {
    let mut b = boot(response(0x07, 0, &[], 0, 0));
    b.mem_data(&[1, 2, 3], 5).unwrap();
    let mut payload = le_words(&[(3, 5, 0, 0)]);
    payload.extend_from_slice(&[1, 2, 3]);
    assert_eq!(sent(b), request(0x07, &payload, 0xEF));
    let mut b = boot(vec![]);
    assert!(matches!(b.flash_data(&vec![0u8; 1009], 0), Err(Error::DataTooLarge)));
    assert!(sent(b).is_empty());
}

#[test]
fn end_flags() {
    let mut b = boot(response(0x04, 0, &[], 0, 0));
    b.flash_end(false).unwrap();
    assert_eq!(sent(b), request(0x04, &1u32.to_le_bytes(), 0));
    let mut b = boot(response(0x06, 0, &[], 0, 0));
    b.mem_end(true, 0x4008_0000).unwrap();
    let mut payload = 0u32.to_le_bytes().to_vec();
    payload.extend_from_slice(&0x4008_0000u32.to_le_bytes());
    assert_eq!(sent(b), request(0x06, &payload, 0));
    let mut b = boot(response(0x12, 0, &[], 0, 0));
    b.flash_defl_end(true).unwrap();
    assert_eq!(sent(b), request(0x12, &0u32.to_le_bytes(), 0));
}

#[test]
fn spi_commands() {
    let mut b = boot(response(0x0D, 0, &[], 0, 0));
    b.spi_attach(1).unwrap();
    assert_eq!(sent(b), request(0x0D, &[1, 0, 0, 0, 0, 0, 0, 0], 0));
    let p = SpiParams::default();
    assert_eq!(p.total_size, 4 * 1024 * 1024);
    let mut b = boot(response(0x0B, 0, &[], 0, 0));
    b.spi_set_params(&p).unwrap();
    let mut payload = le_words(&[(0, 4 * 1024 * 1024, 64 * 1024, 4 * 1024)]);
    payload.extend_from_slice(&256u32.to_le_bytes());
    payload.extend_from_slice(&0xFFFFu32.to_le_bytes());
    assert_eq!(sent(b), request(0x0B, &payload, 0));
    let mut b = boot(response(0x0F, 0, &[], 0, 0));
    b.change_baudrate(921600, 115200).unwrap();
}

#[test]
fn md5_from_rom_hex_and_stub_bytes() {
    let hex = b"d41d8cd98f00b204e9800998ECF8427E";
    let mut b = boot(response(0x13, 0, hex, 0, 0));
    let md5 = b.spi_flash_md5(0, 0x1000).unwrap();
    assert_eq!(
        md5,
        [0xd4, 0x1d, 0x8c, 0xd9, 0x8f, 0x00, 0xb2, 0x04, 0xe9, 0x80, 0x09, 0x98, 0xec, 0xf8, 0x42, 0x7e]
    );
    let raw: Vec<u8> = (0u8..16).collect();
    let mut b = boot(response(0x13, 0, &raw, 0, 0));
    assert_eq!(b.spi_flash_md5(0, 16).unwrap().to_vec(), raw);
    let mut b = boot(response(0x13, 0, &[1, 2], 0, 0));
    assert_eq!(b.spi_flash_md5(0, 16).unwrap(), [0u8; 16]);
}

#[test]
fn security_info_is_zeroed() {
    let mut b = boot(response(0x14, 0, &[1, 2, 3], 0, 0));
    let info = b.get_security_info().unwrap();
    assert_eq!(info.flags, 0);
    assert_eq!(info.key_purposes, [0u8; 7]);
    assert_eq!(sent(b), request(0x14, &[], 0));
}

fn flash_read_responses(bytes: &[u8]) -> Vec<u8> {
    let mut input = Vec::new();
    for chunk in bytes.chunks(64) {
        for _ in 0..6 {
            input.extend(response(0x09, 0, &[], 0, 0));
        }
        input.extend(response(0x0A, 0, &[], 0, 0));
        for word in chunk.chunks(4) {
            let mut w = [0u8; 4];
            w[..word.len()].copy_from_slice(word);
            input.extend(response(0x0A, u32::from_le_bytes(w), &[], 0, 0));
        }
    }
    input
}

#[test]
fn read_flash_through_registers() {
    let mut b = boot(flash_read_responses(&[0x11, 0x22, 0x33, 0x44, 0x55]));
    let mut data = [0u8; 5];
    b.read_flash(0x1000, &mut data).unwrap();
    assert_eq!(data, [0x11, 0x22, 0x33, 0x44, 0x55]);
    let out = sent(b);
    let mut expected = Vec::new();
    for (reg, val) in [
        (0x6000_2018u32, 0x3800_0000u32),
        (0x6000_201C, 0x5C00_0000),
        (0x6000_2020, 0x7000_0003),
        (0x6000_2004, 0x1000 << 8),
        (0x6000_2028, 5 * 8 - 1),
        (0x6000_2000, 1 << 18),
    ] {
        expected.extend(request(0x09, &le_words(&[(reg, val, 0xFFFF_FFFF, 0)]), 0));
    }
    expected.extend(request(0x0A, &0x6000_2000u32.to_le_bytes(), 0));
    expected.extend(request(0x0A, &0x6000_2098u32.to_le_bytes(), 0));
    expected.extend(request(0x0A, &0x6000_209Cu32.to_le_bytes(), 0));
    assert_eq!(out, expected);
}

#[test]
fn read_partition_table_stops_at_erased_entry() {
    let mut entry = vec![0xAA, 0x50, 0x00, 0x00];
    entry.extend_from_slice(&0x10000u32.to_le_bytes());
    entry.extend_from_slice(&0x100000u32.to_le_bytes());
    let mut name = b"factory".to_vec();
    name.resize(16, 0);
    entry.extend_from_slice(&name);
    entry.extend_from_slice(&1u32.to_le_bytes());
    let mut input = flash_read_responses(&entry);
    input.extend(flash_read_responses(&[0xFF; 32]));
    let mut b = boot(input);
    let table = b.read_partition_table().unwrap();
    assert_eq!(table.len(), 1);
    let e = &table[0];
    assert_eq!((e.part_type, e.subtype, e.offset, e.size, e.flags), (0, 0, 0x10000, 0x100000, 1));
    assert_eq!(e.name.as_str(), "factory");
    assert!(e.is_app());
    assert!(e.is_factory_app());
    assert_eq!(e.partition_type_name(), "app");
    assert_eq!(e.subtype_name(), "factory");
}

#[test]
fn write_flash_pads_blocks() {
    let mut input = response(0x02, 0, &[], 0, 0);
    input.extend(response(0x03, 0, &[], 0, 0));
    input.extend(response(0x03, 0, &[], 0, 0));
    input.extend(response(0x04, 0, &[], 0, 0));
    let mut b = boot(input);
    write_flash(&mut b, 0x1_0000, &[1, 2, 3, 4, 5], 4).unwrap();
    let mut expected = request(0x02, &le_words(&[(5, 2, 4, 0x1_0000)]), 0);
    let mut p0 = le_words(&[(4, 0, 0, 0)]);
    p0.extend_from_slice(&[1, 2, 3, 4]);
    expected.extend(request(0x03, &p0, 0xEF ^ 1 ^ 2 ^ 3 ^ 4));
    let mut p1 = le_words(&[(4, 1, 0, 0)]);
    p1.extend_from_slice(&[5, 0xFF, 0xFF, 0xFF]);
    expected.extend(request(0x03, &p1, 0xEF ^ 5 ^ 0xFF ^ 0xFF ^ 0xFF));
    expected.extend(request(0x04, &1u32.to_le_bytes(), 0));
    assert_eq!(sent(b), expected);
}

#[test]
fn write_mem_sends_chunks() {
    let mut input = response(0x05, 0, &[], 0, 0);
    input.extend(response(0x07, 0, &[], 0, 0));
    input.extend(response(0x06, 0, &[], 0, 0));
    let mut b = boot(input);
    write_mem(&mut b, 0x4000_0000, &[9, 8, 7], 16, true, 0x4000_0400).unwrap();
    let out = sent(b);
    assert!(out.starts_with(&request(0x05, &le_words(&[(3, 1, 16, 0x4000_0000)]), 0)));
}

#[test]
fn write_flash_propagates_device_error() {
    let mut input = response(0x02, 0, &[], 0, 0);
    input.extend(response(0x03, 0, &[], 1, 7));
    let mut b = boot(input);
    assert!(matches!(write_flash(&mut b, 0, &[1, 2, 3, 4], 4), Err(Error::BootloaderError(7))));
}

#[test]
fn port_error_type() {
    let e: Error<MemPortError> = Error::Io(MemPortError::UnexpectedEof);
    assert!(matches!(e, Error::Io(MemPortError::UnexpectedEof)));
}
