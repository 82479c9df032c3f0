use nbd::bytes::{push_u16, push_u32, push_u64};
use nbd::proto::{
    text_of, Cmd, CmdFlags, ErrorType, ExportList, InfoRequest, InfoType, IoErrorKind, Opt,
    OptReply, OptType, ProtocolError, ReplyType, Request, SimpleReply,
};

#[test]
fn test_opt_get_put() {
    let opt = Opt {
        typ: OptType::INFO,
        data: vec![2, 3, 4, 5],
    };
    let mut buf = vec![];
    opt.clone().put(&mut buf);
    assert_eq!(Opt::get(&buf[..]).unwrap(), opt);
}

#[test]
fn test_request_get_put_read() {
    let req = Request {
        flags: CmdFlags::empty(),
        typ: Cmd::READ,
        handle: 1234,
        offset: 5123,
        len: 698123,
        data_len: 0,
    };
    let mut buf = vec![];
    req.clone().put(&[], &mut buf);
    assert_eq!(Request::get(&buf[..], &mut []).unwrap(), req);
}

#[test]
fn test_request_get_put_write() {
    let req = Request {
        flags: CmdFlags::fua(),
        typ: Cmd::WRITE,
        handle: 1234,
        offset: 5123,
        len: 12,
        data_len: 12,
    };
    let data = vec![1; 12];
    let mut buf = vec![];
    req.clone().put(&data, &mut buf);
    let mut data_read = vec![0; 12];
    assert_eq!(Request::get(&buf[..], &mut data_read).unwrap(), req);
    assert_eq!(data, data_read);
}

#[test]
fn big_endian_fields_are_written_most_significant_first() {
    let mut out = vec![];
    push_u16(&mut out, 0x0102);
    push_u32(&mut out, 0x03040506);
    push_u64(&mut out, 0x0708090a0b0c0d0e);
    assert_eq!(
        out,
        vec![1, 2, 3, 4, 5, 6, 7, 8, 9, 10, 11, 12, 13, 14]
    );
}

#[test]
fn big_endian_fields_are_read_most_significant_first() {
    let mut reply = vec![0x67, 0x44, 0x66, 0x98, 0, 0, 0, 0];
    reply.extend_from_slice(&[1, 2, 3, 4, 5, 6, 7, 8]);
    let r = SimpleReply::get(&reply, 0).unwrap();
    assert_eq!(r.handle, 0x0102030405060708);
    let info = [0, 0, 0, 1, b'x', 0x00, 0x01, 0x00, 0x03];
    assert_eq!(InfoRequest::get(&info).unwrap().typs, vec![InfoType::BLOCK_SIZE]);
    let mut opt = b"IHAVEOPT".to_vec();
    opt.extend_from_slice(&[0, 0, 0, 6, 0, 0, 0, 0]);
    assert_eq!(Opt::get(&opt).unwrap().typ, OptType::INFO);
}

#[test]
fn option_frame_bytes() {
    let mut out = vec![];
    Opt {
        typ: OptType::EXPORT_NAME,
        data: b"default".to_vec(),
    }
    .put(&mut out);
    let mut expected = b"IHAVEOPT".to_vec();
    expected.extend_from_slice(&[0, 0, 0, 1, 0, 0, 0, 7]);
    expected.extend_from_slice(b"default");
    assert_eq!(out, expected);
}

#[test]
fn option_round_trip_for_each_type() {
    let types = [
        OptType::EXPORT_NAME,
        OptType::ABORT,
        OptType::LIST,
        OptType::PEEK_EXPORT,
        OptType::STARTTLS,
        OptType::INFO,
        OptType::GO,
    ];
    for typ in types {
        let opt = Opt {
            typ,
            data: vec![9; 10000],
        };
        let mut buf = vec![];
        opt.clone().put(&mut buf);
        assert_eq!(Opt::get(&buf).unwrap(), opt);
    }
}

#[test]
fn option_errors() {
    let mut buf = vec![];
    Opt {
        typ: OptType::LIST,
        data: vec![],
    }
    .put(&mut buf);
    assert_eq!(Opt::get(&buf[..15]), Err(ProtocolError::Truncated));

    let mut bad_magic = buf.clone();
    bad_magic[0] = b'X';
    assert!(matches!(Opt::get(&bad_magic), Err(ProtocolError::BadMagic(_))));

    let mut unknown = buf.clone();
    unknown[11] = 42;
    assert_eq!(Opt::get(&unknown), Err(ProtocolError::UnknownOption(42)));

    let mut too_long = b"IHAVEOPT".to_vec();
    too_long.extend_from_slice(&[0, 0, 0, 3]);
    too_long.extend_from_slice(&10001u32.to_be_bytes());
    assert_eq!(
        Opt::get(&too_long),
        Err(ProtocolError::OptionTooLarge(10001))
    );

    let mut short_payload = b"IHAVEOPT".to_vec();
    short_payload.extend_from_slice(&[0, 0, 0, 1, 0, 0, 0, 4, 1, 2]);
    assert_eq!(Opt::get(&short_payload), Err(ProtocolError::Truncated));
}

#[test]
fn option_reply_frame_bytes() {
    let mut out = vec![];
    OptReply::new(OptType::STARTTLS, ReplyType::ERR_UNSUP, vec![]).put(&mut out);
    assert_eq!(
        out,
        vec![0, 3, 0xe8, 0x89, 0x04, 0x55, 0x65, 0xa9, 0, 0, 0, 5, 0x80, 0, 0, 1, 0, 0, 0, 0]
    );
    let mut ack = vec![];
    OptReply::ack(OptType::LIST).put(&mut ack);
    assert_eq!(&ack[8..16], &[0, 0, 0, 3, 0, 0, 0, 1]);
}

#[test]
fn export_list_sends_each_name_then_ack() {
    let mut out = vec![];
    ExportList::new(vec!["a".to_string(), "bc".to_string()]).put(&mut out);
    assert_eq!(out.len(), 25 + 26 + 20);
    assert_eq!(&out[12..16], &[0, 0, 0, 2]);
    assert_eq!(&out[20..25], &[0, 0, 0, 1, b'a']);
    assert_eq!(&out[45..51], &[0, 0, 0, 2, b'b', b'c']);
    assert_eq!(&out[63..67], &[0, 0, 0, 1]);
}

#[test]
fn info_request_parses() {
    let mut b = vec![0, 0, 0, 7];
    b.extend_from_slice(b"default");
    b.extend_from_slice(&[0, 2, 0, 3, 0, 0]);
    let req = InfoRequest::get(&b).unwrap();
    assert_eq!(req.name, "default");
    assert_eq!(req.typs, vec![InfoType::BLOCK_SIZE, InfoType::EXPORT]);
}

#[test]
fn info_request_errors() {
    let mut bad_name = vec![0, 0, 0, 1, 0xff, 0, 0];
    assert_eq!(InfoRequest::get(&bad_name).unwrap_err(), ProtocolError::InvalidUtf8);
    bad_name[4] = b'x';
    assert_eq!(InfoRequest::get(&bad_name).unwrap().typs, vec![]);
    let unknown = vec![0, 0, 0, 0, 0, 1, 0, 9];
    assert_eq!(
        InfoRequest::get(&unknown).unwrap_err(),
        ProtocolError::UnknownInfoType(9)
    );
    let short = vec![0, 0, 0, 0, 0, 2, 0, 1];
    assert_eq!(InfoRequest::get(&short).unwrap_err(), ProtocolError::Truncated);
    assert_eq!(InfoRequest::get(&[0, 0, 0, 5, b'a']).unwrap_err(), ProtocolError::Truncated);
}

#[test]
fn utf8_check() {
    assert_eq!(text_of("héllo".as_bytes()), Some("héllo".to_string()));
    assert_eq!(text_of(&[0xc3]), None);
    assert_eq!(text_of(&[]), Some(String::new()));
}

#[test]
fn request_errors() {
    let req = Request {
        flags: CmdFlags::empty(),
        typ: Cmd::FLUSH,
        handle: 7,
        offset: 0,
        len: 0,
        data_len: 0,
    };
    let mut buf = vec![];
    req.put(&[], &mut buf);
    assert_eq!(Request::get(&buf[..27], &mut []), Err(ProtocolError::Truncated));

    let mut bad_magic = buf.clone();
    bad_magic[3] = 0;
    assert_eq!(
        Request::get(&bad_magic, &mut []),
        Err(ProtocolError::BadMagic(0x25609500))
    );

    let mut bad_flags = buf.clone();
    bad_flags[5] = 0x20;
    assert_eq!(
        Request::get(&bad_flags, &mut []),
        Err(ProtocolError::UnknownCommandFlags(0x20))
    );

    let mut bad_cmd = buf.clone();
    bad_cmd[7] = 9;
    assert_eq!(
        Request::get(&bad_cmd, &mut []),
        Err(ProtocolError::UnknownCommand(9))
    );
}

#[test]
fn write_payload_is_cut_to_the_buffer() {
    let req = Request {
        flags: CmdFlags::empty(),
        typ: Cmd::WRITE,
        handle: 1,
        offset: 0,
        len: 6,
        data_len: 6,
    };
    let mut buf = vec![];
    req.put(&[1, 2, 3, 4, 5, 6], &mut buf);
    let mut small = vec![0u8; 4];
    let got = Request::get(&buf, &mut small).unwrap();
    assert_eq!(got.data_len, 4);
    assert_eq!(got.len, 6);
    assert_eq!(small, vec![1, 2, 3, 4]);
}

#[test]
fn simple_reply_round_trip() {
    let req = Request::new(Cmd::READ, 0, 3);
    let mut out = vec![];
    SimpleReply::data(&req, &[7, 8, 9]).put(&mut out);
    let back = SimpleReply::get(&out, 3).unwrap();
    assert_eq!(back.err, ErrorType::OK);
    assert_eq!(back.handle, req.handle);
    assert_eq!(back.data, vec![7, 8, 9]);

    let mut err = vec![];
    SimpleReply::err(ErrorType::EIO, &req).put(&mut err);
    assert_eq!(err.len(), 16);
    assert_eq!(&err[0..8], &[0x67, 0x44, 0x66, 0x98, 0, 0, 0, 5]);
    let back = SimpleReply::get(&err, 3).unwrap();
    assert_eq!(back.err, ErrorType::EIO);
    assert!(back.data.is_empty());

    let mut bad = err.clone();
    bad[7] = 6;
    assert_eq!(
        SimpleReply::get(&bad, 0).unwrap_err(),
        ProtocolError::UnknownErrorType(6)
    );
    assert_eq!(SimpleReply::get(&out, 4).unwrap_err(), ProtocolError::Truncated);
}

#[test]
fn fresh_requests_get_random_handles() {
    let a = Request::new(Cmd::READ, 1, 2);
    let b = Request::new(Cmd::READ, 1, 2);
    assert_ne!(a.handle, b.handle);
    assert_eq!(a.data_len, 0);
    assert_eq!(Request::new(Cmd::WRITE, 0, 9).data_len, 9);
}

#[test]
fn io_errors_map_to_reply_errors() {
    assert_eq!(
        ErrorType::from_io_kind(IoErrorKind::PermissionDenied),
        ErrorType::EPERM
    );
    assert_eq!(
        ErrorType::from_io_kind(IoErrorKind::InvalidInput),
        ErrorType::EOVERFLOW
    );
    assert_eq!(
        ErrorType::from_io_kind(IoErrorKind::UnexpectedEof),
        ErrorType::EOVERFLOW
    );
    assert_eq!(ErrorType::from_io_kind(IoErrorKind::Other), ErrorType::EIO);
}

#[test]
fn codes_match_the_protocol() {
    assert_eq!(ReplyType::ERR_UNSUP.to_u32(), (1 << 31) + 1);
    assert_eq!(ReplyType::ERR_TOO_BIG.to_u32(), (1 << 31) + 9);
    assert_eq!(ErrorType::ESHUTDOWN.to_u32(), 108);
    assert_eq!(ErrorType::from_u32(75), Some(ErrorType::EOVERFLOW));
    assert_eq!(Cmd::from_u16(8), Some(Cmd::RESIZE));
    assert_eq!(Cmd::from_u16(9), None);
    assert_eq!(OptType::from_u32(7), Some(OptType::GO));
    assert_eq!(InfoType::BLOCK_SIZE.to_u16(), 3);
}

#[test]
fn protocol_error_with_message() {
    assert_eq!(
        ProtocolError::new("no export"),
        ProtocolError::Other("no export".to_string())
    );
}

#[test]
fn command_flags() {
    assert_eq!(CmdFlags::from_bits(0x1f).map(|f| f.bits()), Some(0x1f));
    assert_eq!(CmdFlags::from_bits(0x20), None);
    assert!(CmdFlags::fua().contains_fua());
    assert!(!CmdFlags::fua().has_other_than_fua());
    assert!(CmdFlags::from_bits(2).unwrap().has_other_than_fua());
}
