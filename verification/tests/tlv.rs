use link::port::{CtlPort, MemPort};
use link::tlv::{
    decode_header, encode_header, CtlToMgmt, LabeledReader, LabeledWriter,
    MgmtToCtl, MgmtToNet, MgmtToUi, NetToMgmt, NetToUi, ReadError, ReadEvent, ReadTlv, Tlv, TlvType, UiToMgmt,
    UiToNet, WriteTlv, SYNC_WORD,
};

#[test]
fn write_tlv_known_answer() {
    let mut buf: Vec<u8> = Vec::new();
    let r = WriteTlv::<CtlToMgmt>::write_tlv(&mut buf, CtlToMgmt::Ping, b"hi");
    assert!(r.is_ok());
    assert_eq!(buf, vec![0x00, 0x00, 0x00, 0x00, 0x00, 0x02, 0x68, 0x69]);
}

#[test]
fn write_tlv_empty_value() {
    let mut buf: Vec<u8> = Vec::new();
    WriteTlv::<MgmtToCtl>::write_tlv(&mut buf, MgmtToCtl::Pong, &[]).unwrap();
    assert_eq!(buf, vec![0x00, 0x10, 0x00, 0x00, 0x00, 0x00]);
}

#[test]
fn header_roundtrip() {
    let h = encode_header(NetToMgmt::CircularPing, 0x1234);
    assert_eq!(h, [0x00, 0x51, 0x00, 0x00, 0x12, 0x34]);
    let (t, len): (NetToMgmt, usize) = decode_header(&h).unwrap();
    assert_eq!(t, NetToMgmt::CircularPing);
    assert_eq!(len, 0x1234);
}

#[test]
fn decode_header_invalid_type() {
    let h = [0x12, 0x34, 0, 0, 0, 1];
    let r: Result<(MgmtToUi, usize), _> = decode_header(&h);
    assert_eq!(r.unwrap_err().number, 0x1234);
}

#[test]
fn codes_roundtrip() {
    assert_eq!(CtlToMgmt::UiFirstCircularPing.into_u16(), 0x03);
    assert_eq!(CtlToMgmt::try_from_u16(0x04), Some(CtlToMgmt::NetFirstCircularPing));
    assert_eq!(MgmtToCtl::try_from_u16(0x13), Some(MgmtToCtl::UiFirstCircularPing));
    assert_eq!(MgmtToUi::try_from_u16(0x21), Some(MgmtToUi::CircularPing));
    assert_eq!(UiToMgmt::Pong.into_u16(), 0x30);
    assert_eq!(MgmtToNet::Ping.into_u16(), 0x40);
    assert_eq!(UiToNet::CircularPing.into_u16(), 0x60);
    assert_eq!(NetToUi::CircularPing.into_u16(), 0x70);
    assert_eq!(NetToUi::try_from_u16(0x71), None);
}

#[test]
fn slice_roundtrip_two_tlvs() {
    let mut buf: Vec<u8> = Vec::new();
    WriteTlv::<MgmtToUi>::write_tlv(&mut buf, MgmtToUi::Ping, b"abc").unwrap();
    WriteTlv::<MgmtToUi>::write_tlv(&mut buf, MgmtToUi::CircularPing, b"").unwrap();
    let mut s: &[u8] = &buf;
    let first: Tlv<MgmtToUi> = s.read_tlv().unwrap().unwrap();
    assert_eq!(first.tlv_type, MgmtToUi::Ping);
    assert_eq!(first.value.as_slice(), b"abc");
    let second: Tlv<MgmtToUi> = s.read_tlv().unwrap().unwrap();
    assert_eq!(second.tlv_type, MgmtToUi::CircularPing);
    assert!(second.value.as_slice().is_empty());
    let third: Option<Tlv<MgmtToUi>> = s.read_tlv().unwrap();
    assert!(third.is_none());
}

#[test]
fn slice_read_errors() {
    let bad_type = [0x00, 0x99, 0, 0, 0, 0];
    let mut s: &[u8] = &bad_type;
    let r: Result<Option<Tlv<MgmtToUi>>, _> = s.read_tlv();
    assert!(matches!(r, Err(ReadError::InvalidType)));

    let too_long = [0x00, 0x20, 0, 0, 0, 5, 1, 2];
    let mut s: &[u8] = &too_long;
    let r: Result<Option<Tlv<MgmtToUi>>, _> = s.read_tlv();
    assert!(matches!(r, Err(ReadError::TooLong)));

    let over_max = [0x00, 0x20, 0, 0, 0, 33];
    let mut s: &[u8] = &over_max;
    let r: Result<Option<Tlv<MgmtToUi>>, _> = s.read_tlv();
    assert!(matches!(r, Err(ReadError::TooLong)));

    let short = [0x00, 0x20, 0];
    let mut s: &[u8] = &short;
    let r: Result<Option<Tlv<MgmtToUi>>, _> = s.read_tlv();
    assert!(matches!(r, Ok(None)));
}

#[test]
fn tlv_encode_bytes() {
    let enc = Tlv::encode(MgmtToNet::Ping, b"xy");
    assert_eq!(enc.as_slice(), &[0x00, 0x40, 0, 0, 0, 2, b'x', b'y']);
}

#[test]
fn labeled_writer_prefixes_sync() {
    let mut w = LabeledWriter::new("test", MemPort::new(vec![]));
    assert_eq!(w.label(), "test");
    WriteTlv::<UiToMgmt>::write_tlv(&mut w, UiToMgmt::Pong, b"ok").unwrap();
    WriteTlv::<UiToMgmt>::write_tlv(&mut w, UiToMgmt::Pong, b"").unwrap();
    let port = w.into_inner();
    let mut expected = SYNC_WORD.to_vec();
    expected.extend_from_slice(&[0x00, 0x30, 0, 0, 0, 2, b'o', b'k']);
    expected.extend_from_slice(&SYNC_WORD);
    expected.extend_from_slice(&[0x00, 0x30, 0, 0, 0, 0]);
    assert_eq!(port.written(), &expected);
}

#[test]
fn labeled_writer_raw_sequence() {
    let mut w = LabeledWriter::new("raw", MemPort::new(vec![]));
    assert_eq!(w.write(b"ab").unwrap(), 2);
    assert_eq!(w.write(b"cd").unwrap(), 2);
    w.flush().unwrap();
    assert_eq!(w.write(b"e").unwrap(), 1);
    let port = w.into_inner();
    assert_eq!(port.written(), &b"LINKabcdLINKe".to_vec());
}

fn feed_all(r: &mut LabeledReader<()>, bytes: &[u8]) -> Option<Result<Option<Tlv<MgmtToUi>>, ReadError<()>>> {
    for &b in bytes {
        if let Some(out) = r.feed::<MgmtToUi, ()>(ReadEvent::Byte(b)) {
            return Some(out);
        }
    }
    None
}

#[test]
fn labeled_reader_skips_garbage() {
    let mut r = LabeledReader::new("rx", ());
    let mut bytes = vec![0x00, 0x4C, 0x49, 0x4C, 0x12];
    bytes.extend_from_slice(&SYNC_WORD);
    bytes.extend_from_slice(&[0x00, 0x20, 0, 0, 0, 3, 7, 8, 9]);
    let out = feed_all(&mut r, &bytes).unwrap().unwrap().unwrap();
    assert_eq!(out.tlv_type, MgmtToUi::Ping);
    assert_eq!(out.value.as_slice(), &[7, 8, 9]);
}

#[test]
fn labeled_reader_overlapping_sync() {
    let mut r = LabeledReader::new("rx", ());
    let bytes = [b'L', b'L', b'I', b'N', b'K', 0x00, 0x21, 0, 0, 0, 0];
    let out = feed_all(&mut r, &bytes).unwrap().unwrap().unwrap();
    assert_eq!(out.tlv_type, MgmtToUi::CircularPing);
}

#[test]
fn labeled_reader_errors() {
    let mut r = LabeledReader::new("rx", ());
    let bytes = [b'L', b'I', b'N', b'K', 0x00, 0x99, 0, 0, 0, 0];
    assert!(matches!(feed_all(&mut r, &bytes), Some(Err(ReadError::InvalidType))));
    let bytes = [b'L', b'I', b'N', b'K', 0x00, 0x20, 0, 0, 0, 40];
    assert!(matches!(feed_all(&mut r, &bytes), Some(Err(ReadError::TooLong))));
    let bytes = [b'L', b'I', b'N', b'K', 0x00];
    assert!(feed_all(&mut r, &bytes).is_none());
    assert!(matches!(r.feed::<MgmtToUi, ()>(ReadEvent::Empty), Some(Ok(None))));
    assert!(matches!(r.feed::<MgmtToUi, ()>(ReadEvent::Error(())), None));
}

#[test]
fn labeled_reader_polls_port() {
    let mut bytes = b"noise".to_vec();
    bytes.extend_from_slice(&SYNC_WORD);
    bytes.extend_from_slice(&[0x00, 0x20, 0, 0, 0, 1, 0xAA]);
    let mut r = LabeledReader::new("rx", MemPort::new(bytes));
    let mut result = None;
    for _ in 0..100 {
        if let Some(out) = r.poll::<MgmtToUi>() {
            result = Some(out);
            break;
        }
    }
    let tlv = result.unwrap().unwrap().unwrap();
    assert_eq!(tlv.tlv_type, MgmtToUi::Ping);
    assert_eq!(tlv.value.as_slice(), &[0xAA]);
    assert_eq!(r.reader_mut().remaining(), 0);
}

#[test]
fn mem_port_reads_and_writes() {
    let mut p = MemPort::new(vec![1, 2, 3]);
    let mut buf = [0u8; 2];
    assert_eq!(p.read(&mut buf).unwrap(), 2);
    assert_eq!(buf, [1, 2]);
    p.push_input(&[4]);
    assert_eq!(p.remaining(), 2);
    let mut three = [0u8; 3];
    assert!(p.read_exact(&mut three).is_err());
    let mut two = [0u8; 2];
    p.read_exact(&mut two).unwrap();
    assert_eq!(two, [3, 4]);
    assert_eq!(p.read(&mut buf).unwrap(), 0);
    p.write_all(b"out").unwrap();
    assert_eq!(p.written(), &b"out".to_vec());
}

#[test]
fn read_tlv_known_answer() {
    let data: &[u8] = &[0x00, 0x10, 0x00, 0x00, 0x00, 0x02, 0xAB, 0xCD];
    let mut slice = data;
    let tlv: Tlv<MgmtToCtl> = slice.read_tlv().unwrap().unwrap();
    assert_eq!(tlv.tlv_type, MgmtToCtl::Pong);
    assert_eq!(tlv.value.as_slice(), &[0xAB, 0xCD]);
}

#[test]
fn roundtrip_byte_slice() {
    let sent_type = MgmtToUi::CircularPing;
    let sent_value = b"round trip test";
    let mut buf: Vec<u8> = Vec::new();
    WriteTlv::<MgmtToUi>::write_tlv(&mut buf, sent_type, sent_value).unwrap();
    let mut read_slice: &[u8] = &buf[..6 + sent_value.len()];
    let tlv: Tlv<MgmtToUi> = read_slice.read_tlv().unwrap().unwrap();
    assert_eq!(tlv.tlv_type, sent_type);
    assert_eq!(tlv.value.as_slice(), sent_value);
}

/// Poll a labeled reader over `bytes` until it produces an outcome.
fn poll_port<T: TlvType>(bytes: Vec<u8>) -> Result<Option<Tlv<T>>, ReadError<link::port::MemPortError>> {
    let mut r = LabeledReader::new("test-reader", MemPort::new(bytes));
    r.read_tlv::<T>()
}

#[test]
fn roundtrip_labeled_reader_writer() {
    let mut labeled_writer = LabeledWriter::new("test-writer", MemPort::new(vec![]));
    WriteTlv::<NetToMgmt>::write_tlv(&mut labeled_writer, NetToMgmt::Pong, b"async roundtrip").unwrap();
    let sent = labeled_writer.into_inner().written().clone();
    let tlv: Tlv<NetToMgmt> = poll_port(sent).unwrap().unwrap();
    assert_eq!(tlv.tlv_type, NetToMgmt::Pong);
    assert_eq!(tlv.value.as_slice(), b"async roundtrip");
}

#[test]
fn roundtrip_with_garbage_prefix() {
    let mut port = MemPort::new(vec![]);
    port.write_all(b"garbage data here").unwrap();
    port.flush().unwrap();
    let mut labeled_writer = LabeledWriter::new("test-writer", port);
    WriteTlv::<UiToMgmt>::write_tlv(&mut labeled_writer, UiToMgmt::Pong, b"found me").unwrap();
    let sent = labeled_writer.into_inner().written().clone();
    let tlv: Tlv<UiToMgmt> = poll_port(sent).unwrap().unwrap();
    assert_eq!(tlv.tlv_type, UiToMgmt::Pong);
    assert_eq!(tlv.value.as_slice(), b"found me");
}

#[test]
fn read_error_invalid_type() {
    let data: &[u8] = &[0xFF, 0x00, 0x00, 0x00, 0x00, 0x01, 0x42];
    let mut slice = data;
    let result: Result<Option<Tlv<CtlToMgmt>>, _> = slice.read_tlv();
    assert!(matches!(result, Err(ReadError::InvalidType)));
}

#[test]
fn read_error_length_exceeds_max() {
    let data: &[u8] = &[0x00, 0x00, 0x00, 0x00, 0x00, 0x64];
    let mut slice = data;
    let result: Result<Option<Tlv<CtlToMgmt>>, _> = slice.read_tlv();
    assert!(matches!(result, Err(ReadError::TooLong)));
}

#[test]
fn read_error_length_exceeds_available() {
    let data: &[u8] = &[0x00, 0x00, 0x00, 0x00, 0x00, 0x0A, 0x01, 0x02, 0x03];
    let mut slice = data;
    let result: Result<Option<Tlv<CtlToMgmt>>, _> = slice.read_tlv();
    assert!(matches!(result, Err(ReadError::TooLong)));
}

#[test]
fn read_returns_none_for_short_buffer() {
    let data: &[u8] = &[0x00, 0x01, 0x02];
    let mut slice = data;
    let result: Result<Option<Tlv<CtlToMgmt>>, _> = slice.read_tlv();
    assert!(matches!(result, Ok(None)));
}

#[test]
fn labeled_reader_invalid_type() {
    let mut bytes = SYNC_WORD.to_vec();
    bytes.extend_from_slice(&[0xFF, 0xFF, 0x00, 0x00, 0x00, 0x01, 0x42]);
    let result: Result<Option<Tlv<CtlToMgmt>>, _> = poll_port(bytes);
    assert!(matches!(result, Err(ReadError::InvalidType)));
}

#[test]
fn labeled_reader_length_exceeds_max() {
    let mut bytes = SYNC_WORD.to_vec();
    bytes.extend_from_slice(&[0x00, 0x00, 0x00, 0x00, 0x01, 0x00]);
    let result: Result<Option<Tlv<CtlToMgmt>>, _> = poll_port(bytes);
    assert!(matches!(result, Err(ReadError::TooLong)));
}

#[test]
fn read_tlv_skips_partial_sync_and_leaves_the_rest() {
    for garbage in [&b"L"[..], b"LI", b"LIN", b"xxLINxLI"] {
        let mut w = LabeledWriter::new("w", MemPort::new(vec![]));
        WriteTlv::<UiToMgmt>::write_tlv(&mut w, UiToMgmt::Pong, b"found me").unwrap();
        let mut bytes = garbage.to_vec();
        bytes.extend(w.into_inner().written().iter());
        bytes.extend(b"rest");
        let mut r = LabeledReader::new("r", MemPort::new(bytes));
        let tlv: Tlv<UiToMgmt> = r.read_tlv().unwrap().unwrap();
        assert_eq!(tlv.tlv_type, UiToMgmt::Pong);
        assert_eq!(tlv.value.as_slice(), b"found me");
        assert_eq!(r.into_inner().remaining(), 4);
    }
}

#[test]
fn read_tlv_on_an_empty_port_is_none() {
    let mut r = LabeledReader::new("r", MemPort::new(b"no sync here".to_vec()));
    assert!(matches!(r.read_tlv::<UiToMgmt>(), Ok(None)));
}
