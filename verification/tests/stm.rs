use link::port::MemPort;
use link::stm::{chip_name, command_name, Bootloader, Command, Error, SpecialErase, ACK, NACK};

fn boot(input: Vec<u8>) -> Bootloader<MemPort, MemPort> {
    Bootloader::new(MemPort::new(input), MemPort::new(vec![]))
}

fn sent(b: Bootloader<MemPort, MemPort>) -> Vec<u8> {
    let (_, w) = b.into_inner();
    w.written().clone()
}

#[test]
fn init_sends_autobaud_and_waits_for_ack() {
    let mut b = boot(vec![ACK]);
    b.init().unwrap();
    assert_eq!(sent(b), vec![0x7F]);
}

#[test]
fn init_nack_and_unexpected() {
    let mut b = boot(vec![NACK]);
    assert!(matches!(b.init(), Err(Error::Nack)));
    let mut b = boot(vec![0x42]);
    assert!(matches!(b.init(), Err(Error::UnexpectedResponse(0x42))));
    let mut b = boot(vec![]);
    assert!(matches!(b.init(), Err(Error::UnexpectedEof)));
}

#[test]
fn get_parses_commands() {
    let mut b = boot(vec![ACK, 3, 0x31, 0x00, 0x01, 0x02, ACK]);
    let r = b.get().unwrap();
    assert_eq!(r.version, 0x31);
    assert_eq!(r.command_count, 3);
    assert_eq!(&r.commands[..3], &[0x00, 0x01, 0x02]);
    assert_eq!(&r.commands[3..], &[0u8; 13]);
    assert_eq!(sent(b), vec![0x00, 0xFF]);
}

#[test]
fn get_version_and_id() {
    let mut b = boot(vec![ACK, 0x31, 0x00, 0x00, ACK]);
    let v = b.get_version().unwrap();
    assert_eq!((v.version, v.option1, v.option2), (0x31, 0, 0));
    let mut b = boot(vec![ACK, 1, 0x04, 0x13, ACK]);
    assert_eq!(b.get_id().unwrap(), 0x0413);
    assert_eq!(sent(b), vec![0x02, 0xFD]);
}

#[test]
fn read_memory_frames_address_and_length() {
    let mut b = boot(vec![ACK, ACK, ACK, 0xAA, 0xBB, 0xCC, 0xDD]);
    let mut buf = [0u8; 4];
    assert_eq!(b.read_memory(0x0800_0000, &mut buf).unwrap(), 4);
    assert_eq!(buf, [0xAA, 0xBB, 0xCC, 0xDD]);
    assert_eq!(sent(b), vec![0x11, 0xEE, 0x08, 0x00, 0x00, 0x00, 0x08, 0x03, 0xFC]);
}

#[test]
fn write_memory_frames_data_with_checksum() {
    let mut b = boot(vec![ACK, ACK, ACK]);
    b.write_memory(0x2000_0000, &[1, 2, 3]).unwrap();
    assert_eq!(sent(b), vec![0x31, 0xCE, 0x20, 0x00, 0x00, 0x00, 0x20, 0x02, 1, 2, 3, 0x02]);
}

#[test]
fn write_memory_limits() {
    let mut b = boot(vec![]);
    assert!(b.write_memory(0, &[]).is_ok());
    let big = vec![0u8; 257];
    assert!(matches!(b.write_memory(0, &big), Err(Error::DataTooLarge)));
    assert!(sent(b).is_empty());
}

#[test]
fn go_sends_address() {
    let mut b = boot(vec![ACK, ACK]);
    b.go(0x0800_0000).unwrap();
    assert_eq!(sent(b), vec![0x21, 0xDE, 0x08, 0x00, 0x00, 0x00, 0x08]);
}

#[test]
fn erase_global_and_pages() {
    let mut b = boot(vec![ACK, ACK]);
    b.erase(None).unwrap();
    assert_eq!(sent(b), vec![0x43, 0xBC, 0xFF, 0x00]);
    let mut b = boot(vec![ACK, ACK]);
    b.erase(Some(&[1, 2])).unwrap();
    assert_eq!(sent(b), vec![0x43, 0xBC, 0x01, 1, 2, 0x02]);
    let mut b = boot(vec![ACK]);
    assert!(matches!(b.erase(Some(&[])), Err(Error::InvalidPageCount)));
}

#[test]
fn extended_erase_special_and_pages() {
    let mut b = boot(vec![ACK, ACK]);
    b.extended_erase(None, Some(SpecialErase::MassErase)).unwrap();
    assert_eq!(sent(b), vec![0x44, 0xBB, 0xFF, 0xFF, 0x00]);
    let mut b = boot(vec![ACK, ACK]);
    b.extended_erase(Some(&[0x0001, 0x0102]), None).unwrap();
    assert_eq!(sent(b), vec![0x44, 0xBB, 0x00, 0x01, 0x00, 0x01, 0x01, 0x02, 0x03]);
    assert_eq!(SpecialErase::Bank2Erase.code(), 0xFFFD);
}

#[test]
fn protection_commands() {
    let mut b = boot(vec![ACK, ACK]);
    b.write_unprotect().unwrap();
    assert_eq!(sent(b), vec![0x73, 0x8C]);
    let mut b = boot(vec![ACK, ACK]);
    b.readout_protect().unwrap();
    assert_eq!(sent(b), vec![0x82, 0x7D]);
    let mut b = boot(vec![ACK, ACK]);
    b.readout_unprotect().unwrap();
    assert_eq!(sent(b), vec![0x92, 0x6D]);
    let mut b = boot(vec![ACK, ACK]);
    b.write_protect(&[0, 1]).unwrap();
    assert_eq!(sent(b), vec![0x63, 0x9C, 0x01, 0, 1, 0x00]);
}

#[test]
fn names() {
    assert_eq!(chip_name(0x413), "STM32F4 (405/407/415/417)");
    assert_eq!(chip_name(0x448), "STM32F0 (70/71/72)");
    assert_eq!(chip_name(0x999), "Unknown");
    assert_eq!(command_name(0x00), "Get");
    assert_eq!(Command::ExtendedErase.as_u8(), 0x44);
}

#[test]
fn get_version_and_id_known_answers() {
    let mut b = boot(vec![ACK, 0x31, 0x00, 0x00, ACK]);
    let v = b.get_version().unwrap();
    assert_eq!((v.version, v.option1, v.option2), (0x31, 0x00, 0x00));
    assert_eq!(sent(b), vec![0x01, 0xFE]);
    let mut b = boot(vec![ACK, 0x01, 0x04, 0x13, ACK]);
    assert_eq!(b.get_id().unwrap(), 0x0413);
    assert_eq!(sent(b), vec![0x02, 0xFD]);
}

#[test]
fn write_memory_known_answer() {
    let mut b = boot(vec![ACK, ACK, ACK]);
    b.write_memory(0x0800_0000, &[1, 2, 3, 4]).unwrap();
    assert_eq!(sent(b), vec![0x31, 0xCE, 0x08, 0x00, 0x00, 0x00, 0x08, 0x03, 0x01, 0x02, 0x03, 0x04, 0x07]);
}

#[test]
fn erase_invalid_page_count_writes_only_the_command() {
    let mut b = boot(vec![ACK, ACK]);
    let empty: [u8; 0] = [];
    assert!(matches!(b.erase(Some(&empty)), Err(Error::InvalidPageCount)));
    assert_eq!(sent(b), vec![0x43, 0xBC]);
}

#[test]
fn init_sends_only_autobaud_whatever_the_answer() {
    for input in [vec![NACK], vec![0x42], vec![]] {
        let mut b = boot(input);
        assert!(b.init().is_err());
        assert_eq!(sent(b), vec![0x7F]);
    }
}

#[test]
fn readout_protect_nack_sends_only_the_command() {
    let mut b = boot(vec![ACK, NACK]);
    assert!(matches!(b.readout_protect(), Err(Error::Nack)));
    assert_eq!(sent(b), vec![0x82, 0x7D]);
}

#[test]
fn readout_unprotect_unexpected_sends_only_the_command() {
    let mut b = boot(vec![ACK, 0x55]);
    assert!(matches!(b.readout_unprotect(), Err(Error::UnexpectedResponse(0x55))));
    assert_eq!(sent(b), vec![0x92, 0x6D]);
}

#[test]
fn write_memory_stops_at_the_first_nack() {
    let mut b = boot(vec![NACK]);
    assert!(matches!(b.write_memory(0x0800_0000, &[1, 2, 3, 4]), Err(Error::Nack)));
    assert_eq!(sent(b), vec![0x31, 0xCE]);
    let mut b = boot(vec![ACK, NACK]);
    assert!(matches!(b.write_memory(0x0800_0000, &[1, 2, 3, 4]), Err(Error::Nack)));
    assert_eq!(sent(b), vec![0x31, 0xCE, 0x08, 0x00, 0x00, 0x00, 0x08]);
}

#[test]
fn extended_erase_nack_sends_only_the_command() {
    let mut b = boot(vec![NACK]);
    assert!(matches!(b.extended_erase(Some(&[1, 2]), None), Err(Error::Nack)));
    assert_eq!(sent(b), vec![0x44, 0xBB]);
    let mut b = boot(vec![ACK, NACK]);
    assert!(matches!(b.extended_erase(Some(&[1, 2]), None), Err(Error::Nack)));
    assert_eq!(sent(b), vec![0x44, 0xBB, 0x00, 0x01, 0x00, 0x01, 0x00, 0x02, 0x02]);
}

#[test]
fn erase_at_end_of_stream_sends_only_the_command() {
    let mut b = boot(vec![]);
    assert!(matches!(b.erase(None), Err(Error::UnexpectedEof)));
    assert_eq!(sent(b), vec![0x43, 0xBC]);
}
