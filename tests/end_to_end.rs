use nbd::blocks::{Blocks, MemBlocks};
use nbd::client::{Client, ClientError, EXPORT_INFO_LEN, GREETING_LEN};
use nbd::kernel::{close, set_client, DeviceOp};
use nbd::proto::{
    Cmd, CmdFlags, ErrorType, Opt, OptType, ProtocolError, Request, SimpleReply,
    SIMPLE_REPLY_HEADER_LEN,
};
use nbd::server::{Phase, Server, ServerError, Session, BUFFER_SIZE};

/// A server session and a client, joined by byte buffers.
struct ServerClient {
    server: Server<MemBlocks>,
    session: Session,
    client: Client,
}

/// Hands `bytes` to the session chunk by chunk, as a socket would, and
/// returns what the server sent back.
fn feed(server: &mut Server<MemBlocks>, session: &mut Session, bytes: &[u8]) -> Result<Vec<u8>, ServerError> {
    let mut out = vec![];
    let mut pos = 0;
    while pos < bytes.len() && session.phase() != Phase::Closed {
        let n = session.wanted();
        assert!(pos + n <= bytes.len(), "frame cut short");
        server.step(session, &bytes[pos..pos + n], &mut out)?;
        pos += n;
    }
    Ok(out)
}

/// Greets, agrees on flags, and asks for the export.
fn handshake(server: &mut Server<MemBlocks>, session: &mut Session) -> Vec<u8> {
    let mut greeting = vec![];
    server.greet(&mut greeting);
    assert_eq!(greeting.len(), GREETING_LEN);
    let mut answer = vec![];
    Client::handshake(&greeting, &mut answer).unwrap();
    feed(server, session, &answer).unwrap()
}

fn start_server_client(data: Vec<u8>) -> ServerClient {
    let mut server = Server::new(MemBlocks::new(data));
    let mut session = Session::new();
    let info = handshake(&mut server, &mut session);
    assert_eq!(info.len(), EXPORT_INFO_LEN);
    let client = Client::new(&info).unwrap();
    assert_eq!(session.phase(), Phase::RequestHeader);
    ServerClient {
        server,
        session,
        client,
    }
}

impl ServerClient {
    fn read(&mut self, offset: u64, len: u32) -> Result<Vec<u8>, ClientError> {
        let mut req = vec![];
        self.client.read(offset, len, &mut req);
        let reply = feed(&mut self.server, &mut self.session, &req).unwrap();
        let n = Client::reply_payload_len(&reply[..SIMPLE_REPLY_HEADER_LEN], len as usize).unwrap();
        assert_eq!(reply.len(), SIMPLE_REPLY_HEADER_LEN + n);
        Client::read_reply(&reply, len as usize)
    }

    fn write(&mut self, offset: u64, data: &[u8]) -> Result<(), ClientError> {
        let mut req = vec![];
        self.client.write(offset, data, &mut req);
        let reply = feed(&mut self.server, &mut self.session, &req).unwrap();
        Client::get_ack(&reply)
    }

    fn flush(&mut self) -> Result<(), ClientError> {
        let mut req = vec![];
        self.client.flush(&mut req);
        let reply = feed(&mut self.server, &mut self.session, &req).unwrap();
        Client::get_ack(&reply)
    }

    fn shutdown(mut self) {
        let mut req = vec![];
        self.client.disconnect(&mut req);
        let reply = feed(&mut self.server, &mut self.session, &req).unwrap();
        assert!(reply.is_empty());
        assert_eq!(self.session.phase(), Phase::Closed);
        assert_eq!(self.session.at_eof(), Ok(()));
    }
}

#[test]
fn run_client_server_handshake() {
    let data = vec![1u8; 1024 * 10];
    let sc = start_server_client(data);
    sc.shutdown();
}

#[test]
fn client_hard_disconnect() {
    let data = vec![1u8; 1024 * 10];
    let ServerClient {
        server: _,
        session,
        client,
    } = start_server_client(data);
    drop(client);
    assert_eq!(session.at_eof(), Ok(()));
}

#[test]
fn client_export_size() {
    let len = 15341;
    let data = vec![1u8; len];
    let sc = start_server_client(data);
    assert_eq!(sc.client.size(), len as u64);
    sc.shutdown();
}

#[test]
fn run_client_server_read_write() {
    let data = vec![1u8; 1024 * 10];
    let mut sc = start_server_client(data);

    let buf = sc.read(3, 5).unwrap();
    assert_eq!(buf, [1u8; 5]);
    sc.write(4, &[9u8; 7]).unwrap();
    sc.flush().unwrap();
    let buf = sc.read(2, 4).unwrap();
    assert_eq!(buf, [1, 1, 9, 9]);

    sc.shutdown();
}

/// Greets and agrees on flags, leaving the session haggling.
fn haggling() -> (Server<MemBlocks>, Session) {
    let mut server = Server::new(MemBlocks::new(vec![1u8; 10240]));
    let mut session = Session::new();
    assert!(feed(&mut server, &mut session, &[0, 0, 0, 3]).unwrap().is_empty());
    assert_eq!(session.phase(), Phase::OptionHeader);
    assert!(session.no_zeroes());
    (server, session)
}

fn option(typ: OptType, data: Vec<u8>) -> Vec<u8> {
    let mut out = vec![];
    Opt { typ, data }.put(&mut out);
    out
}

fn unsupported_reply(code: u8) -> Vec<u8> {
    vec![0, 3, 0xe8, 0x89, 0x04, 0x55, 0x65, 0xa9, 0, 0, 0, code, 0x80, 0, 0, 1, 0, 0, 0, 0]
}

#[test]
fn unsupported_option_then_export_name() {
    let (mut server, mut session) = haggling();
    let reply = feed(&mut server, &mut session, &option(OptType::STARTTLS, vec![])).unwrap();
    assert_eq!(reply, unsupported_reply(5));
    assert_eq!(session.phase(), Phase::OptionHeader);
    let info = feed(
        &mut server,
        &mut session,
        &option(OptType::EXPORT_NAME, b"default".to_vec()),
    )
    .unwrap();
    let client = Client::new(&info).unwrap();
    assert_eq!(client.size(), 10240);
    assert_eq!(session.phase(), Phase::RequestHeader);
}

#[test]
fn peek_export_is_unsupported_even_with_a_payload() {
    let (mut server, mut session) = haggling();
    let reply = feed(&mut server, &mut session, &option(OptType::PEEK_EXPORT, vec![1, 2, 3])).unwrap();
    assert_eq!(reply, unsupported_reply(4));
    assert_eq!(session.phase(), Phase::OptionHeader);
}

#[test]
fn export_list() {
    let (mut server, mut session) = haggling();
    let reply = feed(&mut server, &mut session, &option(OptType::LIST, vec![])).unwrap();
    let mut expected = vec![0, 3, 0xe8, 0x89, 0x04, 0x55, 0x65, 0xa9, 0, 0, 0, 3, 0, 0, 0, 2, 0, 0, 0, 11];
    expected.extend_from_slice(&[0, 0, 0, 7]);
    expected.extend_from_slice(b"default");
    expected.extend_from_slice(&[0, 3, 0xe8, 0x89, 0x04, 0x55, 0x65, 0xa9, 0, 0, 0, 3, 0, 0, 0, 1, 0, 0, 0, 0]);
    assert_eq!(reply, expected);
    assert_eq!(session.phase(), Phase::OptionHeader);
}

fn info_payload(typs: &[u16]) -> Vec<u8> {
    let mut b = vec![0, 0, 0, 7];
    b.extend_from_slice(b"default");
    b.extend_from_slice(&(typs.len() as u16).to_be_bytes());
    for t in typs {
        b.extend_from_slice(&t.to_be_bytes());
    }
    b
}

#[test]
fn go_answers_block_size_and_export_then_transmits() {
    let (mut server, mut session) = haggling();
    let reply = feed(&mut server, &mut session, &option(OptType::GO, info_payload(&[3]))).unwrap();
    assert_eq!(reply.len(), (20 + 14) + (20 + 12) + 20);
    assert_eq!(&reply[12..20], &[0, 0, 0, 3, 0, 0, 0, 14]);
    assert_eq!(&reply[20..34], &[0, 3, 0, 0, 0, 1, 0, 0, 0x10, 0, 0, 2, 0, 0]);
    assert_eq!(&reply[46..54], &[0, 0, 0, 3, 0, 0, 0, 12]);
    assert_eq!(&reply[54..66], &[0, 0, 0, 0, 0, 0, 0, 0, 0x28, 0, 0, 13]);
    assert_eq!(&reply[78..86], &[0, 0, 0, 1, 0, 0, 0, 0]);
    assert_eq!(session.phase(), Phase::RequestHeader);
}

#[test]
fn info_does_not_repeat_export_and_stays_haggling() {
    let (mut server, mut session) = haggling();
    let reply = feed(&mut server, &mut session, &option(OptType::INFO, info_payload(&[0]))).unwrap();
    assert_eq!(reply.len(), (20 + 12) + 20);
    assert_eq!(session.phase(), Phase::OptionHeader);
}

#[test]
fn info_name_is_unsupported_and_ends_the_exchange() {
    let (mut server, mut session) = haggling();
    let reply = feed(&mut server, &mut session, &option(OptType::INFO, info_payload(&[1, 3]))).unwrap();
    assert_eq!(reply, unsupported_reply(6));
    assert_eq!(session.phase(), Phase::OptionHeader);
}

#[test]
fn abort_closes_without_reply() {
    let (mut server, mut session) = haggling();
    let reply = feed(&mut server, &mut session, &option(OptType::ABORT, vec![])).unwrap();
    assert!(reply.is_empty());
    assert_eq!(session.phase(), Phase::Closed);
}

#[test]
fn export_info_is_padded_without_no_zeroes() {
    let mut server = Server::new(MemBlocks::new(vec![0u8; 100]));
    let mut session = Session::new();
    feed(&mut server, &mut session, &[0, 0, 0, 1]).unwrap();
    assert!(!session.no_zeroes());
    let info = feed(
        &mut server,
        &mut session,
        &option(OptType::EXPORT_NAME, b"x".to_vec()),
    )
    .unwrap();
    assert_eq!(info.len(), 10 + 124);
    assert_eq!(&info[..10], &[0, 0, 0, 0, 0, 0, 0, 100, 0, 13]);
    assert!(info[10..].iter().all(|b| *b == 0));
}

#[test]
fn handshake_errors() {
    let mut server = Server::new(MemBlocks::new(vec![0u8; 10]));
    let mut session = Session::new();
    assert_eq!(
        feed(&mut server, &mut session, &[0, 0, 0, 2]),
        Err(ServerError::Protocol(ProtocolError::NoFixedNewstyle))
    );
    let mut session = Session::new();
    assert_eq!(
        feed(&mut server, &mut session, &[0, 0, 0, 5]),
        Err(ServerError::Protocol(ProtocolError::UnknownHandshakeFlags(5)))
    );
    let mut session = Session::new();
    assert!(session.at_eof().is_err());
    feed(&mut server, &mut session, &[0, 0, 0, 1]).unwrap();
    assert_eq!(
        feed(&mut server, &mut session, &option(OptType::EXPORT_NAME, vec![0xff])),
        Err(ServerError::Protocol(ProtocolError::InvalidUtf8))
    );
}

#[test]
fn client_refuses_a_bad_greeting() {
    let server = Server::new(MemBlocks::new(vec![0u8; 10]));
    let mut greeting = vec![];
    server.greet(&mut greeting);
    let mut out = vec![];
    let mut bad = greeting.clone();
    bad[17] = 1;
    assert_eq!(
        Client::handshake(&bad, &mut out),
        Err(ProtocolError::ServerFlagsMissing(1))
    );
    bad[17] = 7;
    assert_eq!(
        Client::handshake(&bad, &mut out),
        Err(ProtocolError::UnknownHandshakeFlags(7))
    );
    assert!(out.is_empty());
}

fn request(flags: u16, typ: Cmd, handle: u64, offset: u64, len: u32, data: &[u8]) -> Vec<u8> {
    let req = Request {
        flags: CmdFlags::from_bits(flags).unwrap(),
        typ,
        handle,
        offset,
        len,
        data_len: data.len(),
    };
    let mut out = vec![];
    req.put(data, &mut out);
    out
}

fn reply_of(bytes: &[u8], len: usize) -> SimpleReply {
    SimpleReply::get(bytes, len).unwrap()
}

#[test]
fn large_read_is_cut_to_the_buffer() {
    let mut sc = start_server_client(vec![3u8; BUFFER_SIZE + 1000]);
    let reply = feed(
        &mut sc.server,
        &mut sc.session,
        &request(0, Cmd::READ, 77, 0, BUFFER_SIZE as u32 + 1, &[]),
    )
    .unwrap();
    assert_eq!(reply.len(), SIMPLE_REPLY_HEADER_LEN + BUFFER_SIZE);
    let r = reply_of(&reply, BUFFER_SIZE);
    assert_eq!(r.err, ErrorType::OK);
    assert_eq!(r.handle, 77);
    assert!(r.data.iter().all(|b| *b == 3));
}

#[test]
fn large_write_overflows_and_ends_the_session() {
    let mut sc = start_server_client(vec![3u8; 1024]);
    let mut req = request(0, Cmd::WRITE, 78, 0, BUFFER_SIZE as u32 + 1, &[]);
    req.extend_from_slice(&vec![5u8; BUFFER_SIZE]);
    let reply = feed(&mut sc.server, &mut sc.session, &req).unwrap();
    let r = reply_of(&reply, 0);
    assert_eq!(r.err, ErrorType::EOVERFLOW);
    assert_eq!(r.handle, 78);
    assert_eq!(reply.len(), SIMPLE_REPLY_HEADER_LEN);
    assert_eq!(sc.session.phase(), Phase::Closed);
}

#[test]
fn replies_echo_handles_in_order() {
    let mut sc = start_server_client(vec![0u8; 4096]);
    let reqs = vec![
        (request(0, Cmd::READ, 11, 0, 8, &[]), 8),
        (request(1, Cmd::WRITE, 12, 8, 3, &[1, 2, 3]), 0),
        (request(0, Cmd::FLUSH, 13, 0, 0, &[]), 0),
        (request(0, Cmd::TRIM, 14, 0, 100, &[]), 0),
        (request(0, Cmd::READ, 15, 4095, 2, &[]), 0),
        (request(2, Cmd::READ, 16, 0, 2, &[]), 0),
    ];
    let mut all = vec![];
    for (r, _) in &reqs {
        all.extend_from_slice(r);
    }
    let replies = feed(&mut sc.server, &mut sc.session, &all).unwrap();
    let mut pos = 0;
    let expected = [
        (11, ErrorType::OK),
        (12, ErrorType::OK),
        (13, ErrorType::OK),
        (14, ErrorType::OK),
        (15, ErrorType::EOVERFLOW),
        (16, ErrorType::ENOTSUP),
    ];
    for (i, (handle, err)) in expected.iter().enumerate() {
        let len = reqs[i].1;
        let r = reply_of(&replies[pos..], len);
        assert_eq!(r.handle, *handle);
        assert_eq!(r.err, *err);
        pos += SIMPLE_REPLY_HEADER_LEN + r.data.len();
    }
    assert_eq!(pos, replies.len());
    assert_eq!(sc.session.phase(), Phase::RequestHeader);
    assert_eq!(sc.read(8, 3).unwrap(), vec![1, 2, 3]);
}

#[test]
fn disconnect_gets_no_reply() {
    let mut sc = start_server_client(vec![0u8; 16]);
    let reply = feed(
        &mut sc.server,
        &mut sc.session,
        &request(0, Cmd::DISCONNECT, 5, 0, 0, &[]),
    )
    .unwrap();
    assert!(reply.is_empty());
    assert_eq!(sc.session.phase(), Phase::Closed);
    assert_eq!(sc.session.wanted(), 0);
}

#[test]
fn unsupported_command_ends_the_session() {
    let mut sc = start_server_client(vec![0u8; 16]);
    let reply = feed(&mut sc.server, &mut sc.session, &request(0, Cmd::CACHE, 9, 0, 4, &[])).unwrap();
    let r = reply_of(&reply, 0);
    assert_eq!(r.err, ErrorType::ENOTSUP);
    assert_eq!(r.handle, 9);
    assert_eq!(sc.session.phase(), Phase::Closed);
}

#[test]
fn out_of_range_write_is_reported() {
    let mut sc = start_server_client(vec![0u8; 16]);
    assert_eq!(
        sc.write(14, &[1, 2, 3]),
        Err(ClientError::Failed(ErrorType::EOVERFLOW))
    );
    assert_eq!(sc.read(15, 2), Err(ClientError::Failed(ErrorType::EOVERFLOW)));
    assert_eq!(sc.session.phase(), Phase::RequestHeader);
}

#[test]
fn malformed_request_is_fatal() {
    let mut sc = start_server_client(vec![0u8; 16]);
    let mut req = request(0, Cmd::READ, 1, 0, 1, &[]);
    req[0] = 0;
    assert!(matches!(
        feed(&mut sc.server, &mut sc.session, &req),
        Err(ServerError::Protocol(ProtocolError::BadMagic(_)))
    ));
}

#[test]
fn device_attach_and_detach_sequences() {
    assert_eq!(
        set_client(10 * 1024 * 1024),
        vec![
            DeviceOp::SetBlksize(4096),
            DeviceOp::SetSizeBlocks(2560),
            DeviceOp::SetFlags(5),
            DeviceOp::ClearSock,
            DeviceOp::SetSock,
        ]
    );
    assert_eq!(close(), vec![DeviceOp::Disconnect, DeviceOp::ClearSock]);
}

#[test]
fn client_refuses_bad_export_info() {
    let mut info = vec![0, 0, 0, 0, 0, 0, 0x10, 0, 0x10, 0x01];
    assert_eq!(
        Client::new(&info).unwrap_err(),
        ProtocolError::UnknownTransmitFlags(0x1001)
    );
    info[8] = 0;
    assert_eq!(Client::new(&info).unwrap().size(), 4096);
    assert_eq!(Client::new(&info[..9]).unwrap_err(), ProtocolError::Truncated);
}

#[test]
fn client_reply_checks() {
    let header = [0x67, 0x44, 0x66, 0x98, 0, 0, 0, 5, 0, 0, 0, 0, 0, 0, 0, 1];
    assert_eq!(Client::reply_payload_len(&header, 9), Ok(0));
    assert_eq!(
        Client::read_reply(&header, 9),
        Err(ClientError::Failed(ErrorType::EIO))
    );
    let mut ok = header.to_vec();
    ok[7] = 0;
    assert_eq!(Client::reply_payload_len(&ok, 9), Ok(9));
    assert_eq!(
        Client::read_reply(&ok, 9),
        Err(ClientError::Protocol(ProtocolError::Truncated))
    );
    ok.extend_from_slice(&[4; 9]);
    assert_eq!(Client::read_reply(&ok, 9), Ok(vec![4; 9]));
    let mut bad = header.to_vec();
    bad[0] = 0;
    assert_eq!(
        Client::get_ack(&bad),
        Err(ClientError::Protocol(ProtocolError::BadMagic(0x00446698)))
    );
}

#[test]
fn refused_writes_leave_the_store_alone() {
    let mut sc = start_server_client(vec![2u8; 64]);
    let reply = feed(
        &mut sc.server,
        &mut sc.session,
        &request(2, Cmd::WRITE, 21, 0, 4, &[7, 7, 7, 7]),
    )
    .unwrap();
    assert_eq!(reply_of(&reply, 0).err, ErrorType::ENOTSUP);
    assert_eq!(sc.read(0, 4).unwrap(), vec![2, 2, 2, 2]);

    let mut big = request(0, Cmd::WRITE, 22, 0, BUFFER_SIZE as u32 + 1, &[]);
    big.extend_from_slice(&vec![9u8; BUFFER_SIZE]);
    let reply = feed(&mut sc.server, &mut sc.session, &big).unwrap();
    assert_eq!(reply_of(&reply, 0).err, ErrorType::EOVERFLOW);
    let mut buf = [0u8; 64];
    sc.server.store().read_at(&mut buf, 0).unwrap();
    assert_eq!(buf, [2u8; 64]);
}
