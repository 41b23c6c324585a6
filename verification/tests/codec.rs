use bytes::Bytes;
use tftp::error::{open_failure, Error, OpenFailure};
use tftp::options::{OptionBuilder, Options};
use tftp::packet::{
    accepted_mode, ack, data, error, oack, parse_blocknum, parse_error, parse_oack, parse_opcode,
    parse_request, request, Request,
};
use tftp::{ErrorCode, OpCode};

#[test]
fn opcodes_have_their_wire_numbers() {
    assert_eq!(1, OpCode::Rrq.code());
    assert_eq!(2, OpCode::Wrq.code());
    assert_eq!(3, OpCode::Data.code());
    assert_eq!(4, OpCode::Ack.code());
    assert_eq!(5, OpCode::Error.code());
    assert_eq!(6, OpCode::Oack.code());
    for code in 1..=6u16 {
        assert_eq!(code, OpCode::from_code(code).unwrap().code());
    }
    assert_eq!(None, OpCode::from_code(0));
    assert_eq!(None, OpCode::from_code(7));
    assert_eq!(None, OpCode::from_code(256));
}

#[test]
fn error_codes_have_their_wire_numbers() {
    assert_eq!(0, ErrorCode::NotDefined.code());
    assert_eq!(1, ErrorCode::FileNotFound.code());
    assert_eq!(2, ErrorCode::AccessViolation.code());
    assert_eq!(3, ErrorCode::DiskFull.code());
    assert_eq!(4, ErrorCode::IllegalTftpOp.code());
    assert_eq!(5, ErrorCode::UnknownTId.code());
    assert_eq!(6, ErrorCode::FileAlreadyExists.code());
    assert_eq!(7, ErrorCode::NoSuchUser.code());
    assert_eq!(8, ErrorCode::OptionNotSupport.code());
}

#[test]
fn errors_map_to_their_codes() {
    assert_eq!(ErrorCode::FileNotFound, Error::FileNotFound.error_code());
    assert_eq!(ErrorCode::FileAlreadyExists, Error::FileAlreadyExists.error_code());
    assert_eq!(ErrorCode::NotDefined, Error::Refused(1, "x".to_string()).error_code());
    assert_eq!(ErrorCode::IllegalTftpOp, Error::InvalidFileName.error_code());
    assert_eq!(ErrorCode::IllegalTftpOp, Error::InvalidMode.error_code());
    assert_eq!(ErrorCode::IllegalTftpOp, Error::InvalidOpCode.error_code());
    assert_eq!(ErrorCode::IllegalTftpOp, Error::InvalidPacketLength.error_code());
    assert_eq!(ErrorCode::IllegalTftpOp, Error::MissingErrorMessage.error_code());
    assert_eq!(ErrorCode::IllegalTftpOp, Error::MissingFileName.error_code());
    assert_eq!(ErrorCode::IllegalTftpOp, Error::MissingMode.error_code());
    assert_eq!(ErrorCode::NotDefined, Error::Timedout.error_code());
    assert_eq!(ErrorCode::NotDefined, Error::Io("x".to_string()).error_code());
    assert_eq!(ErrorCode::NotDefined, Error::Utf8("x".to_string()).error_code());
    assert_eq!(ErrorCode::NotDefined, Error::AddrParse("x".to_string()).error_code());
}

#[test]
fn errors_have_their_texts() {
    assert_eq!(&b"FileNotFound"[..], &Error::FileNotFound.text()[..]);
    assert_eq!(&b"FileAlreadyExists"[..], &Error::FileAlreadyExists.text()[..]);
    assert_eq!(
        &b"Refused(1, File not found)"[..],
        &Error::Refused(1, "File not found".to_string()).text()[..]
    );
    assert_eq!(&b"Refused(65535, )"[..], &Error::Refused(65535, String::new()).text()[..]);
    assert_eq!(&b"InvalidFileName"[..], &Error::InvalidFileName.text()[..]);
    assert_eq!(&b"InvalidMode"[..], &Error::InvalidMode.text()[..]);
    assert_eq!(&b"InvalidOpCode"[..], &Error::InvalidOpCode.text()[..]);
    assert_eq!(&b"InvalidPacketLength"[..], &Error::InvalidPacketLength.text()[..]);
    assert_eq!(&b"MissingErrorMessage"[..], &Error::MissingErrorMessage.text()[..]);
    assert_eq!(&b"MissingFileName"[..], &Error::MissingFileName.text()[..]);
    assert_eq!(&b"MissingMode"[..], &Error::MissingMode.text()[..]);
    assert_eq!(&b"Timedout"[..], &Error::Timedout.text()[..]);
    assert_eq!(&b"Io(Kind(NotFound))"[..], &Error::Io("Kind(NotFound)".to_string()).text()[..]);
    assert_eq!(&b"Utf8(bad)"[..], &Error::Utf8("bad".to_string()).text()[..]);
    assert_eq!(&b"AddrParse(Socket)"[..], &Error::AddrParse("Socket".to_string()).text()[..]);
}

#[test]
fn open_failure_gives_each_kind_its_error() {
    assert!(matches!(open_failure(OpenFailure::NotFound), Error::FileNotFound));
    assert!(matches!(open_failure(OpenFailure::AlreadyExists), Error::FileAlreadyExists));
    assert!(matches!(
        open_failure(OpenFailure::Other("denied".to_string())),
        Error::Io(ref text) if text == "denied"
    ));
    assert_eq!(1, open_failure(OpenFailure::NotFound).error_code().code());
    assert_eq!(6, open_failure(OpenFailure::AlreadyExists).error_code().code());
    assert_eq!(0, open_failure(OpenFailure::Other(String::new())).error_code().code());
    assert_eq!(
        &b"\x00\x05\x00\x06FileAlreadyExists\x00"[..],
        error(open_failure(OpenFailure::AlreadyExists)).as_ref()
    );
}

#[test]
fn ack_packet_bytes() {
    assert_eq!(&[0u8, 4, 0, 0][..], ack(0).as_ref());
    assert_eq!(&[0u8, 4, 0, 1][..], ack(1).as_ref());
    assert_eq!(&[0u8, 4, 1, 2][..], ack(258).as_ref());
    assert_eq!(&[0u8, 4, 255, 255][..], ack(65535).as_ref());
}

#[test]
fn data_packet_bytes() {
    assert_eq!(&[0u8, 3, 0, 1, 1, 2, 3, 4][..], data(1, &[1, 2, 3, 4]).as_ref());
    assert_eq!(&[0u8, 3, 0x12, 0x34][..], data(0x1234, &[]).as_ref());
    assert_eq!(&[0u8, 3, 0, 2, 0][..], data(2, &[0]).as_ref());
}

#[test]
fn error_packet_bytes() {
    assert_eq!(&b"\x00\x05\x00\x01FileNotFound\x00"[..], error(Error::FileNotFound).as_ref());
    assert_eq!(&b"\x00\x05\x00\x04InvalidMode\x00"[..], error(Error::InvalidMode).as_ref());
    assert_eq!(&b"\x00\x05\x00\x00Timedout\x00"[..], error(Error::Timedout).as_ref());
    assert_eq!(
        &b"\x00\x05\x00\x00Io(denied)\x00"[..],
        error(Error::Io("denied".to_string())).as_ref()
    );
}

#[test]
fn oack_packet_bytes() {
    let options = OptionBuilder::default().blksize(8).windowsize(2).build();
    assert_eq!(&b"\x00\x06blksize\x008\x00windowsize\x002\x00"[..], oack(&options).as_ref());
    assert_eq!(&[0u8, 6][..], oack(&Options::default()).as_ref());
}

#[test]
fn request_packet_bytes() {
    let plain = Request::rrq("a", "octet", &Options::default());
    assert_eq!(&b"\x00\x01a\x00octet\x00"[..], request(&plain).as_ref());
    let options = OptionBuilder::default().timeout(1).tsize().build();
    let write = Request::wrq("dir/b.txt", "netascii", &options);
    assert_eq!(
        &b"\x00\x02dir/b.txt\x00netascii\x00timeout\x001\x00tsize\x000\x00"[..],
        request(&write).as_ref()
    );
}

#[test]
fn request_accessors() {
    let options = OptionBuilder::default().blksize(16).build();
    let mut req = Request::wrq("f", "octet", &options);
    assert_eq!(OpCode::Wrq, *req.op_code());
    assert_eq!("f", req.filename());
    assert_eq!("octet", req.mode());
    assert_eq!(16, req.options().blksize());
    req.options_mut().cut_off(&OptionBuilder::default().blksize(8).build());
    assert_eq!(8, req.options().blksize());
    assert_eq!(OpCode::Rrq, *Request::rrq("f", "octet", &options).op_code());
}

#[test]
fn parse_blocknum_reads_big_endian_and_advances() {
    let mut buf = Bytes::from(&[0x12, 0x34, 9, 8][..]);
    assert_eq!(0x1234, parse_blocknum(&mut buf).unwrap());
    assert_eq!(&[9u8, 8][..], buf.as_ref());
    let mut short = Bytes::from(&[7][..]);
    assert!(matches!(parse_blocknum(&mut short), Err(Error::InvalidPacketLength)));
    assert_eq!(&[7u8][..], short.as_ref());
    let mut empty = Bytes::new();
    assert!(matches!(parse_blocknum(&mut empty), Err(Error::InvalidPacketLength)));
}

#[test]
fn parse_opcode_reads_each_kind() {
    for (code, op) in [
        (1u8, OpCode::Rrq),
        (2, OpCode::Wrq),
        (3, OpCode::Data),
        (4, OpCode::Ack),
        (5, OpCode::Error),
        (6, OpCode::Oack),
    ] {
        let mut buf = Bytes::copy_from_slice(&[0, code, 1]);
        assert_eq!(Some(op), parse_opcode(&mut buf).unwrap());
        assert_eq!(&[1u8][..], buf.as_ref());
    }
}

#[test]
fn parse_opcode_unknown_and_short() {
    let mut unknown = Bytes::from(&[0, 7][..]);
    assert_eq!(None, parse_opcode(&mut unknown).unwrap());
    let mut zero = Bytes::from(&[0, 0][..]);
    assert_eq!(None, parse_opcode(&mut zero).unwrap());
    let mut high = Bytes::from(&[1, 1][..]);
    assert_eq!(None, parse_opcode(&mut high).unwrap());
    let mut short = Bytes::from(&[0][..]);
    assert!(matches!(parse_opcode(&mut short), Err(Error::InvalidPacketLength)));
}

#[test]
fn parse_error_reads_code_and_message() {
    let mut buf = Bytes::from(&b"\x00\x02denied\x00trailing"[..]);
    let e = parse_error(&mut buf).unwrap();
    assert_eq!(2, e.error_code());
    assert_eq!("denied", e.message());
    let mut open = Bytes::from(&b"\x01\x00no nul"[..]);
    let e = parse_error(&mut open).unwrap();
    assert_eq!(256, e.error_code());
    assert_eq!("no nul", e.message());
}

#[test]
fn parse_error_refuses_a_message_that_is_not_utf8() {
    let mut buf = Bytes::from(&b"\x00\x02\xff\xfe\x00"[..]);
    assert!(matches!(parse_error(&mut buf), Err(Error::Utf8(_))));
}

#[test]
fn parse_oack_reads_the_options() {
    let mut buf = Bytes::from(&b"blksize\x001024\x00windowsize\x008\x00"[..]);
    let options = parse_oack(&mut buf).unwrap();
    assert_eq!(1024, options.blksize());
    assert_eq!(8, options.windowsize());
    assert_eq!(10, options.timeout());
}

#[test]
fn parse_request_invalid_packet_length() {
    let mut buf = Bytes::from(&[0, 1, 97, 0, 0][..]);
    assert!(matches!(parse_request(&mut buf), Err(Error::InvalidPacketLength)));
    assert_eq!(5, buf.len());
}

#[test]
fn parse_request_invalid_opcode() {
    let mut buf = Bytes::from(&b"\x00\x09a\x00octet\x00"[..]);
    assert!(matches!(parse_request(&mut buf), Err(Error::InvalidOpCode)));
}

#[test]
fn parse_request_file_name_not_utf8() {
    let mut buf = Bytes::from(&b"\x00\x01\xff\x00octet\x00"[..]);
    assert!(matches!(parse_request(&mut buf), Err(Error::Utf8(_))));
}

#[test]
fn parse_request_missing_mode() {
    let mut buf = Bytes::from(&b"\x00\x01abcdef"[..]);
    assert!(matches!(parse_request(&mut buf), Err(Error::MissingMode)));
}

#[test]
fn parse_request_mode_not_utf8() {
    let mut buf = Bytes::from(&b"\x00\x01a\x00oct\xffet\x00"[..]);
    assert!(matches!(parse_request(&mut buf), Err(Error::Utf8(_))));
}

#[test]
fn parse_request_invalid_mode() {
    let mut buf = Bytes::from(&b"\x00\x01a\x00binary\x00"[..]);
    assert!(matches!(parse_request(&mut buf), Err(Error::InvalidMode)));
    let mut empty = Bytes::from(&b"\x00\x01abc\x00\x00"[..]);
    assert!(matches!(parse_request(&mut empty), Err(Error::InvalidMode)));
}

#[test]
fn parse_request_accepts_the_three_modes_in_any_case() {
    for mode in ["netascii", "octet", "mail", "NETASCII", "Octet", "mAIL"] {
        let req = Request::wrq("f", mode, &Options::default());
        let mut buf = request(&req);
        let back = parse_request(&mut buf).unwrap();
        assert_eq!(mode, back.mode());
        assert_eq!(OpCode::Wrq, *back.op_code());
    }
}

#[test]
fn accepted_mode_takes_lower_case_names_only() {
    assert!(accepted_mode("netascii"));
    assert!(accepted_mode("octet"));
    assert!(accepted_mode("mail"));
    assert!(!accepted_mode("OCTET"));
    assert!(!accepted_mode(""));
    assert!(!accepted_mode("octets"));
}

#[test]
fn parse_request_takes_an_empty_file_name() {
    let mut buf = Bytes::from(&b"\x00\x01\x00octet\x00"[..]);
    let req = parse_request(&mut buf).unwrap();
    assert_eq!("", req.filename());
    assert_eq!("octet", req.mode());
}

#[test]
fn parse_request_takes_a_mode_without_its_nul() {
    let mut buf = Bytes::from(&b"\x00\x02a\x00octet"[..]);
    let req = parse_request(&mut buf).unwrap();
    assert_eq!("octet", req.mode());
    assert!(!req.options().has_option());
}

#[test]
fn parse_request_moves_the_buffer_past_the_opcode() {
    let mut buf = Bytes::from(&b"\x00\x01a\x00octet\x00"[..]);
    parse_request(&mut buf).unwrap();
    assert_eq!(&b"a\x00octet\x00"[..], buf.as_ref());
}

#[test]
fn parse_request_reads_a_file_name_that_names_an_option() {
    let mut buf = Bytes::from(&b"\x00\x01blksize\x00octet\x00tsize\x005\x00"[..]);
    let req = parse_request(&mut buf).unwrap();
    assert_eq!("blksize", req.filename());
    assert_eq!(512, req.options().blksize());
    assert_eq!(5, req.options().tsize());
}

#[test]
fn request_round_trip() {
    let options = OptionBuilder::default()
        .blksize(1428)
        .timeout(5)
        .tsize()
        .windowsize(16)
        .build();
    for req in [
        Request::rrq("boot/pxelinux.0", "octet", &options),
        Request::wrq("notes.txt", "netascii", &Options::default()),
        Request::rrq("\u{65e5}\u{672c}\u{8a9e}.txt", "octet", &OptionBuilder::default().tsize().build()),
    ] {
        let packet = request(&req);
        let mut buf = packet.clone();
        let back = parse_request(&mut buf).unwrap();
        assert_eq!(req.op_code(), back.op_code());
        assert_eq!(req.filename(), back.filename());
        assert_eq!(req.mode(), back.mode());
        assert_eq!(req.options().as_bytes(), back.options().as_bytes());
        assert_eq!(packet, request(&back));
    }
}
