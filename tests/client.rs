use git_transport::capabilities::{detect_protocol, Capabilities, Error as CapError, Protocol};
use git_transport::client::{RequestWriter, ResponseReader};
use git_transport::non_io_types::{Error, MessageKind, WriteMode};
use git_transport::packetline::{DecodeError, EncodeError, PacketLine, MAX_DATA_LEN};

#[test]
fn default_write_mode_is_one_line_per_call() {
    assert_eq!(WriteMode::default(), WriteMode::OneLfTerminatedLinePerWriteCall);
}

#[test]
fn text_write_adds_line_feed_once() {
    let mut a = RequestWriter::new(WriteMode::OneLfTerminatedLinePerWriteCall);
    a.write(b"command=ls-refs").unwrap();
    let mut b = RequestWriter::new(WriteMode::OneLfTerminatedLinePerWriteCall);
    b.write(b"command=ls-refs\n").unwrap();
    let a = a.finalize(MessageKind::Flush).unwrap();
    let b = b.finalize(MessageKind::Flush).unwrap();
    assert_eq!(a, b"0014command=ls-refs\n0000".to_vec());
    assert_eq!(a, b);
}

#[test]
fn text_write_of_empty_bytes_is_a_bare_line_feed() {
    let mut w = RequestWriter::new(WriteMode::OneLfTerminatedLinePerWriteCall);
    w.write(b"").unwrap();
    assert_eq!(w.finalize(MessageKind::Delimiter).unwrap(), b"0005\n0001".to_vec());
}

#[test]
fn text_write_refuses_overlong_line() {
    let mut w = RequestWriter::new(WriteMode::OneLfTerminatedLinePerWriteCall);
    let line = vec![b'a'; MAX_DATA_LEN];
    assert_eq!(w.write(&line), Err(EncodeError::DataLengthLimitExceeded));
    assert_eq!(w.finalize(MessageKind::Flush).unwrap(), b"0000".to_vec());
}

#[test]
fn binary_write_splits_into_largest_frames() {
    let mut w = RequestWriter::new(WriteMode::Binary);
    assert_eq!(w.mode(), WriteMode::Binary);
    let data = vec![7u8; MAX_DATA_LEN + 3];
    w.write(&data).unwrap();
    w.write(b"").unwrap();
    let out = w.finalize(MessageKind::ResponseEnd).unwrap();
    assert_eq!(out.len(), 4 + MAX_DATA_LEN + 4 + 3 + 4);
    assert_eq!(&out[..4], b"fff0");
    assert_eq!(&out[4 + MAX_DATA_LEN..4 + MAX_DATA_LEN + 4], b"0007");
    assert_eq!(&out[out.len() - 4..], b"0002");
}

#[test]
fn binary_write_keeps_bytes_verbatim() {
    let mut w = RequestWriter::new(WriteMode::Binary);
    w.write(b"PACK").unwrap();
    assert_eq!(w.finalize(MessageKind::Flush).unwrap(), b"0008PACK0000".to_vec());
}

#[test]
fn finalize_with_text_frames_it_as_the_mode_does() {
    let w = RequestWriter::new(WriteMode::Binary);
    assert_eq!(w.finalize(MessageKind::Text(b"done")).unwrap(), b"0008done".to_vec());
    let w = RequestWriter::new(WriteMode::OneLfTerminatedLinePerWriteCall);
    assert_eq!(w.finalize(MessageKind::Text(b"done")).unwrap(), b"0009done\n".to_vec());
    let w = RequestWriter::new(WriteMode::OneLfTerminatedLinePerWriteCall);
    assert_eq!(w.finalize(MessageKind::Text(b"done\n")).unwrap(), b"0009done\n".to_vec());
}

#[test]
fn reader_keeps_position_when_capabilities_are_missing() {
    let mut r = ResponseReader::new(b"0000".to_vec());
    assert!(matches!(r.read_capabilities(), Err(Error::ExpectedDataLine)));
    assert_eq!(r.next_frame(), Ok(PacketLine::Flush));
}

#[test]
fn reader_reads_data_and_peeks_markers() {
    let mut r = ResponseReader::new(b"0009hello0001000aworld\n0000".to_vec());
    assert_eq!(r.peek_marker(), Ok(None));
    assert_eq!(r.read_line(), Ok(b"hello".to_vec()));
    assert_eq!(r.peek_marker(), Ok(Some(MessageKind::Delimiter)));
    assert_eq!(r.read_line(), Err(Error::ExpectedDataLine));
    assert_eq!(r.next_frame(), Ok(PacketLine::Delimiter));
    assert_eq!(r.read_line(), Ok(b"world\n".to_vec()));
    assert_eq!(r.peek_marker(), Ok(Some(MessageKind::Flush)));
    assert_eq!(r.next_frame(), Ok(PacketLine::Flush));
    assert_eq!(
        r.read_line(),
        Err(Error::LineDecode { err: DecodeError::NotEnoughData })
    );
}

#[test]
fn reader_reports_malformed_frame() {
    let mut r = ResponseReader::new(b"zzzz".to_vec());
    assert_eq!(r.peek_marker(), Err(Error::LineDecode { err: DecodeError::HexDecode }));
    assert_eq!(r.read_line(), Err(Error::LineDecode { err: DecodeError::HexDecode }));
}

#[test]
fn parses_advertised_capabilities() {
    let caps = Capabilities::from_line(b"agent=foo symref=HEAD:refs/heads/main").unwrap();
    assert_eq!(caps.len(), 2);
    assert_eq!(caps.value_of(b"agent"), Some(Some(b"foo".to_vec())));
    assert_eq!(caps.value_of(b"symref"), Some(Some(b"HEAD:refs/heads/main".to_vec())));
    assert_eq!(caps.value_of(b"thin-pack"), None);
}

#[test]
fn bare_and_empty_valued_capabilities() {
    let caps = Capabilities::from_line(b"  thin-pack\tofs-delta  filter= \n").unwrap();
    assert_eq!(caps.len(), 3);
    assert!(caps.contains(b"thin-pack"));
    assert_eq!(caps.value_of(b"ofs-delta"), Some(None));
    assert_eq!(caps.value_of(b"filter"), Some(Some(Vec::new())));
    assert!(!caps.contains(b"agent"));
    assert_eq!(Capabilities::from_line(b"").unwrap().len(), 0);
}

#[test]
fn malformed_capability_tokens_are_reported() {
    assert_eq!(
        Capabilities::from_line(b"agent=foo a=b=c"),
        Err(CapError::MalformedToken { token: b"a=b=c".to_vec() })
    );
    assert_eq!(
        Capabilities::from_line(b"=x agent=foo"),
        Err(CapError::MalformedToken { token: b"=x".to_vec() })
    );
}

#[test]
fn reader_wraps_capability_errors() {
    let mut r = ResponseReader::new(b"000fagent=foo=1".to_vec());
    match r.read_capabilities() {
        Err(Error::Capabilities { err }) => {
            assert_eq!(
                err,
                git_transport::capabilities::Error::MalformedToken { token: b"agent=foo=1".to_vec() }
            );
        }
        other => panic!("unexpected {:?}", other),
    }
    let mut r = ResponseReader::new(b"000eagent=foo\n0000".to_vec());
    let caps = r.read_capabilities().unwrap();
    assert_eq!(caps.value_of(b"agent"), Some(Some(b"foo".to_vec())));
    assert_eq!(r.peek_marker(), Ok(Some(MessageKind::Flush)));
}

#[test]
fn detects_announced_protocol() {
    assert_eq!(detect_protocol(b"version 2\n"), Ok(Protocol::V2));
    assert_eq!(detect_protocol(b"version 1"), Ok(Protocol::V1));
    assert_eq!(detect_protocol(b"agent=foo"), Ok(Protocol::V0));
    assert_eq!(detect_protocol(b""), Ok(Protocol::V0));
    assert_eq!(
        detect_protocol(b"version 3\n"),
        Err(Error::UnsupportedProtocolVersion(b"3".to_vec()))
    );
}

#[test]
fn missing_required_line_is_named() {
    let mut r = ResponseReader::new(b"0000".to_vec());
    assert_eq!(r.read_required_line("version"), Err(Error::ExpectedLine("version")));
    let mut r = ResponseReader::new(b"000eversion 2\n0000".to_vec());
    let line = r.read_required_line("version").unwrap();
    assert_eq!(line, b"version 2\n".to_vec());
    assert_eq!(detect_protocol(&line), Ok(Protocol::V2));
}
