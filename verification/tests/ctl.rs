use link::buffered::{BufferedPort, ClearBuffer, SyncPortAdapter, DEFAULT_BUF_SIZE};
use link::ctl::{escape_non_ascii, expected_hello, CtlCore, CtlError};
use link::mgmt::{hello_response, parse_baud_rate};
use link::port::{CtlPort, MemPort};
use link::tlv::{MgmtToCtl, MgmtToUi, Tlv, SYNC_WORD};

#[test]
fn timeout_errors() {
    assert!(CtlError::Timeout.is_timeout());
    assert!(CtlError::Port("Custom { kind: TimedOut }".to_string()).is_timeout());
    assert!(CtlError::Port("read timeout".to_string()).is_timeout());
    assert!(!CtlError::Port("broken pipe".to_string()).is_timeout());
    assert!(!CtlError::Port("time out".to_string()).is_timeout());
    assert!(!CtlError::TooLong.is_timeout());
}

#[test]
fn escape_non_ascii_known_answers() {
    assert_eq!(escape_non_ascii(b"hello"), "hello");
    assert_eq!(escape_non_ascii(b"a\nb\r\tc"), "a\nb\r\tc");
    assert_eq!(escape_non_ascii(&[0x00, 0x7F, 0xFF, 0x1B]), "\u{0}\u{7f}\\xFF\u{1b}");
    assert_eq!(escape_non_ascii(&[0x41, 0x0A, 0x00, 0xFF]), "A\n\u{0}\\xFF");
    assert_eq!(escape_non_ascii(&[b'x', 0xC3, b'y']), "x\\xC3y");
    assert_eq!(escape_non_ascii(&[]), "");
}

#[test]
fn hello_challenge_answer() {
    let challenge = [0x12, 0x34, 0x56, 0x78];
    let expected = expected_hello(&challenge);
    assert_eq!(expected, [0x12 ^ b'L', 0x34 ^ b'I', 0x56 ^ b'N', 0x78 ^ b'K']);
    assert_eq!(hello_response(&challenge), expected);
    assert_eq!(hello_response(&expected), challenge);
    assert_eq!(hello_response(&[0x01]), [0x01 ^ b'L', 0, 0, 0]);
    assert_eq!(hello_response(&[1, 2, 3, 4, 5, 6]), [1 ^ b'L', 2 ^ b'I', 3 ^ b'N', 4 ^ b'K']);
}

#[test]
fn baud_rate_parsing() {
    assert_eq!(parse_baud_rate(&921600u32.to_be_bytes()), 921600);
    assert_eq!(parse_baud_rate(&[0x00, 0x01]), 0x0001_0000);
    assert_eq!(parse_baud_rate(&[]), 0);
}

#[test]
fn core_port_lending() {
    let mut core = CtlCore::new(MemPort::new(vec![1, 2, 3]));
    assert_eq!(core.port_ref().remaining(), 3);
    let port = core.take_port();
    assert_eq!(port.remaining(), 3);
    core.put_port(port);
    core.drain();
    core.port_mut().push_input(&[9]);
    let port = core.into_inner();
    assert_eq!(port.remaining(), 4);
}

#[test]
fn core_writes_tlv_with_sync() {
    let mut core = CtlCore::new(MemPort::new(vec![]));
    core.write_tlv(MgmtToUi::Ping, b"ab").unwrap();
    let port = core.into_inner();
    let mut expected = SYNC_WORD.to_vec();
    expected.extend_from_slice(&[0x00, 0x20, 0, 0, 0, 2, b'a', b'b']);
    assert_eq!(port.written(), &expected);
}

#[test]
fn core_reads_tlv_after_noise() {
    let mut input = b"boot spam LIN".to_vec();
    input.extend_from_slice(&SYNC_WORD);
    input.extend_from_slice(&[0x00, 0x10, 0, 0, 0, 3, 1, 2, 3]);
    let mut core = CtlCore::new(MemPort::new(input));
    let tlv: Tlv<MgmtToCtl> = core.read_tlv().unwrap().unwrap();
    assert_eq!(tlv.tlv_type, MgmtToCtl::Pong);
    assert_eq!(tlv.value.as_slice(), &[1, 2, 3]);
    let none: Option<Tlv<MgmtToCtl>> = core.read_tlv().unwrap();
    assert!(none.is_none());
}

#[test]
fn core_read_tlv_errors() {
    let mut input = SYNC_WORD.to_vec();
    input.extend_from_slice(&[0x00, 0x99, 0, 0, 0, 0]);
    let mut core = CtlCore::new(MemPort::new(input));
    let r: Result<Option<Tlv<MgmtToCtl>>, CtlError> = core.read_tlv();
    assert!(matches!(r, Err(CtlError::InvalidType(0x0099))));

    let mut input = SYNC_WORD.to_vec();
    input.extend_from_slice(&[0x00, 0x10, 0, 0, 0, 33]);
    let mut core = CtlCore::new(MemPort::new(input));
    let r: Result<Option<Tlv<MgmtToCtl>>, CtlError> = core.read_tlv();
    assert!(matches!(r, Err(CtlError::TooLong)));

    let mut input = SYNC_WORD.to_vec();
    input.extend_from_slice(&[0x00, 0x10, 0]);
    let mut core = CtlCore::new(MemPort::new(input));
    let r: Result<Option<Tlv<MgmtToCtl>>, CtlError> = core.read_tlv();
    assert!(matches!(r, Err(CtlError::Port(_))));
}

#[test]
fn buffered_port_reads_through() {
    let mut p = BufferedPort::with_capacity(4, MemPort::new(vec![1, 2, 3, 4, 5, 6]));
    let mut buf = [0u8; 3];
    assert_eq!(p.read(&mut buf).unwrap(), 3);
    assert_eq!(buf, [1, 2, 3]);
    assert_eq!(p.read(&mut buf).unwrap(), 1);
    assert_eq!(buf[0], 4);
    let mut big = [0u8; 8];
    assert_eq!(p.read(&mut big).unwrap(), 2);
    assert_eq!(&big[..2], &[5, 6]);
    assert_eq!(p.read(&mut buf).unwrap(), 0);
    p.write_all(b"w").unwrap();
    p.flush().unwrap();
    assert_eq!(p.get_ref().written(), &b"w".to_vec());
}

#[test]
fn buffered_port_read_exact_and_fill() {
    let mut p = BufferedPort::with_capacity(2, MemPort::new(vec![1, 2, 3, 4, 5]));
    assert_eq!(p.fill_buf().unwrap(), vec![1, 2]);
    p.consume(1);
    let mut three = [0u8; 3];
    p.read_exact(&mut three).unwrap();
    assert_eq!(three, [2, 3, 4]);
    let mut two = [0u8; 2];
    assert!(p.read_exact(&mut two).is_err());
    let fresh = BufferedPort::new(MemPort::new(vec![]));
    assert_eq!(fresh.into_inner().remaining(), 0);
    assert_eq!(DEFAULT_BUF_SIZE, 8192);
}

#[test]
fn buffered_port_clear() {
    let mut p = BufferedPort::with_capacity(8, MemPort::new(vec![1, 2, 3]));
    let mut one = [0u8; 1];
    p.read(&mut one).unwrap();
    ClearBuffer::clear_buffer(&mut p);
    assert_eq!(p.read(&mut one).unwrap(), 0);
    p.get_mut().push_input(&[7]);
    assert_eq!(p.read(&mut one).unwrap(), 1);
    assert_eq!(one[0], 7);
}

#[test]
fn sync_adapter_lending() {
    let mut a = SyncPortAdapter::new(MemPort::new(vec![5]));
    assert_eq!(a.get_ref().remaining(), 1);
    let p = a.take_port();
    a.put_port(p);
    a.get_mut().push_input(&[6]);
    assert_eq!(a.into_inner().remaining(), 2);
}
