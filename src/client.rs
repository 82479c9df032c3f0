//! The client side of a connection, for a server such as this crate's.
//!
//! The client checks the server's greeting, asks for the default export,
//! reads its size, and then frames requests and checks replies. The caller
//! moves the bytes: [`GREETING_LEN`] bytes of greeting, [`EXPORT_INFO_LEN`]
//! bytes of export information, and for each request a reply header of
//! `SIMPLE_REPLY_HEADER_LEN` bytes followed by [`Client::reply_payload_len`]
//! bytes.
use crate::bytes::{
    be_u16, be_u64, lemma_u16_round_trip, lemma_u64_round_trip, push_u32, read_u16_at, read_u64_at,
    u16_be, u32_be, u64_be,
};
use crate::proto::{
    option_frame, request_header_frame, parse_simple_reply, Cmd, ErrorType, Opt, OptType,
    ProtocolError, Request, SimpleReply, C_FIXED_NEWSTYLE, C_NO_ZEROES, IHAVEOPT,
    KNOWN_TRANSMIT_FLAGS, MAGIC,
};
use crate::server::{export_info_frame, greeting_frame, TRANSMIT_FLAGS};
use vstd::prelude::*;

verus! {

/// The length of the server's greeting.
pub const GREETING_LEN: usize = 18;

/// The length of the export information when the zero padding is left out.
pub const EXPORT_INFO_LEN: usize = 10;

/// The handshake flags that a server may offer.
pub const KNOWN_SERVER_FLAGS: u16 = 3;

/// The name of the export that the client asks for, as it travels.
pub open spec fn default_export_bytes() -> Seq<u8> {
    seq![100u8, 101u8, 102u8, 97u8, 117u8, 108u8, 116u8]
}

/// Whether the server's greeting is one this client can go on with: the two
/// magic numbers, and flags that offer both FIXED_NEWSTYLE and NO_ZEROES.
pub open spec fn check_greeting(s: Seq<u8>) -> Result<(), ProtocolError> {
    if s.len() < GREETING_LEN {
        Err(ProtocolError::Truncated)
    } else if be_u64(s.subrange(0, 8)) != MAGIC {
        Err(ProtocolError::BadMagic(be_u64(s.subrange(0, 8))))
    } else if be_u64(s.subrange(8, 16)) != IHAVEOPT {
        Err(ProtocolError::BadMagic(be_u64(s.subrange(8, 16))))
    } else {
        let f = be_u16(s.subrange(16, 18));
        if f & !KNOWN_SERVER_FLAGS != 0 {
            Err(ProtocolError::UnknownHandshakeFlags(f as u32))
        } else if f & 3 != 3 {
            Err(ProtocolError::ServerFlagsMissing(f))
        } else {
            Ok(())
        }
    }
}

/// What the client sends once it accepts the greeting: its flags
/// C_FIXED_NEWSTYLE | C_NO_ZEROES, and EXPORT_NAME for the default export.
pub open spec fn handshake_frames() -> Seq<u8> {
    u32_be(3) + option_frame(OptType::EXPORT_NAME, default_export_bytes())
}

/// The export information at the start of `s`: the export's size and its
/// transmission flags.
pub open spec fn parse_export_info(s: Seq<u8>) -> Result<(u64, u16), ProtocolError> {
    if s.len() < EXPORT_INFO_LEN {
        Err(ProtocolError::Truncated)
    } else {
        let flags = be_u16(s.subrange(8, 10));
        if flags & !KNOWN_TRANSMIT_FLAGS != 0 {
            Err(ProtocolError::UnknownTransmitFlags(flags))
        } else {
            Ok((be_u64(s.subrange(0, 8)), flags))
        }
    }
}

/// Why a client operation failed.
#[derive(Debug, Clone, PartialEq, Eq)]
pub enum ClientError {
    /// The server's bytes were malformed.
    Protocol(ProtocolError),
    /// The server reported this error for the request.
    Failed(ErrorType),
}

/// What the client knows of the export.
#[derive(Debug)]
pub struct Export {
    pub size: u64,
}

/// A client of one export of a remote NBD server.
#[derive(Debug)]
pub struct Client {
    export: Export,
}

impl Client {
    /// The size of the export that the server reported.
    pub closed spec fn spec_size(&self) -> u64 {
        self.export.size
    }

    /// Checks the server's greeting and appends the client's flags.
    fn initial_handshake(greeting: &[u8], out: &mut Vec<u8>) -> (r: Result<(), ProtocolError>)
        ensures
            r == check_greeting(greeting@),
            r is Ok ==> final(out)@ == old(out)@ + u32_be(3),
            r is Err ==> final(out)@ == old(out)@,
    {
        if greeting.len() < GREETING_LEN {
            return Err(ProtocolError::Truncated);
        }
        let magic = read_u64_at(greeting, 0);
        if magic != MAGIC {
            return Err(ProtocolError::BadMagic(magic));
        }
        let opt_magic = read_u64_at(greeting, 8);
        if opt_magic != IHAVEOPT {
            return Err(ProtocolError::BadMagic(opt_magic));
        }
        let f = read_u16_at(greeting, 16);
        if f & !KNOWN_SERVER_FLAGS != 0 {
            return Err(ProtocolError::UnknownHandshakeFlags(f as u32));
        }
        if f & 3 != 3 {
            return Err(ProtocolError::ServerFlagsMissing(f));
        }
        push_u32(out, C_FIXED_NEWSTYLE | C_NO_ZEROES);
        assert(C_FIXED_NEWSTYLE | C_NO_ZEROES == 3) by (bit_vector);
        Ok(())
    }

    /// Appends EXPORT_NAME for the default export.
    fn handshake_haggle(out: &mut Vec<u8>)
        ensures
            final(out)@ == old(out)@ + option_frame(OptType::EXPORT_NAME, default_export_bytes()),
    {
        let mut data: Vec<u8> = Vec::new();
        data.push(100u8);
        data.push(101u8);
        data.push(102u8);
        data.push(97u8);
        data.push(117u8);
        data.push(108u8);
        data.push(116u8);
        assert(data@ =~= default_export_bytes());
        Opt { typ: OptType::EXPORT_NAME, data }.put(out);
    }

    /// Checks the server's greeting and appends what the client answers: its
    /// flags and a request for the default export.
    pub fn handshake(greeting: &[u8], out: &mut Vec<u8>) -> (r: Result<(), ProtocolError>)
        ensures
            r == check_greeting(greeting@),
            r is Ok ==> final(out)@ == old(out)@ + handshake_frames(),
            r is Err ==> final(out)@ == old(out)@,
    {
        match Client::initial_handshake(greeting, out) {
            Err(e) => Err(e),
            Ok(()) => {
                Client::handshake_haggle(out);
                assert(out@ =~= old(out)@ + handshake_frames());
                Ok(())
            },
        }
    }

    /// Parses the export information.
    fn get_export_info(b: &[u8]) -> (r: Result<(Export, u16), ProtocolError>)
        ensures
            match r {
                Ok((e, f)) => parse_export_info(b@) == Ok::<(u64, u16), ProtocolError>((e.size, f)),
                Err(e) => parse_export_info(b@) == Err::<(u64, u16), ProtocolError>(e),
            },
    {
        if b.len() < EXPORT_INFO_LEN {
            return Err(ProtocolError::Truncated);
        }
        let size = read_u64_at(b, 0);
        let flags = read_u16_at(b, 8);
        if flags & !KNOWN_TRANSMIT_FLAGS != 0 {
            return Err(ProtocolError::UnknownTransmitFlags(flags));
        }
        Ok((Export { size }, flags))
    }

    /// A client ready for use, from the export information that answered the
    /// handshake.
    pub fn new(export_info: &[u8]) -> (r: Result<Client, ProtocolError>)
        ensures
            match r {
                Ok(c) => parse_export_info(export_info@) matches Ok((size, _)) && c.spec_size()
                    == size,
                Err(e) => parse_export_info(export_info@) == Err::<(u64, u16), ProtocolError>(e),
            },
    {
        match Client::get_export_info(export_info) {
            Ok((export, _flags)) => Ok(Client { export }),
            Err(e) => Err(e),
        }
    }

    /// The size of the export, as the server reported it during the
    /// handshake.
    pub fn size(&self) -> (r: u64)
        ensures
            r == self.spec_size(),
    {
        self.export.size
    }

    /// How many payload bytes follow a reply header: `len` after success,
    /// none after an error.
    pub fn reply_payload_len(header: &[u8], len: usize) -> (r: Result<usize, ProtocolError>)
        ensures
            match r {
                Ok(n) => parse_simple_reply(header@, 0) matches Ok((e, _, _)) && n == (if e
                    == ErrorType::OK {
                    len
                } else {
                    0
                }),
                Err(e) => parse_simple_reply(header@, 0) == Err::<
                    (ErrorType, u64, Seq<u8>),
                    ProtocolError,
                >(e),
            },
    {
        match SimpleReply::get(header, 0) {
            Err(e) => Err(e),
            Ok(reply) => if reply.err == ErrorType::OK {
                Ok(len)
            } else {
                Ok(0)
            },
        }
    }

    /// Checks a reply that should carry `len` bytes and returns them.
    fn get_reply_data(reply: &[u8], len: usize) -> (r: Result<Vec<u8>, ClientError>)
        ensures
            match parse_simple_reply(reply@, len as nat) {
                Err(e) => r == Err::<Vec<u8>, ClientError>(ClientError::Protocol(e)),
                Ok((err, _, d)) => if err == ErrorType::OK {
                    r matches Ok(v) && v@ == d
                } else {
                    r == Err::<Vec<u8>, ClientError>(ClientError::Failed(err))
                },
            },
    {
        match SimpleReply::get(reply, len) {
            Err(e) => Err(ClientError::Protocol(e)),
            Ok(r) => if r.err != ErrorType::OK {
                Err(ClientError::Failed(r.err))
            } else {
                Ok(r.data)
            },
        }
    }

    /// Checks a reply that carries no payload.
    pub fn get_ack(reply: &[u8]) -> (r: Result<(), ClientError>)
        ensures
            match parse_simple_reply(reply@, 0) {
                Err(e) => r == Err::<(), ClientError>(ClientError::Protocol(e)),
                Ok((err, _, _)) => if err == ErrorType::OK {
                    r is Ok
                } else {
                    r == Err::<(), ClientError>(ClientError::Failed(err))
                },
            },
    {
        match Client::get_reply_data(reply, 0) {
            Ok(_) => Ok(()),
            Err(e) => Err(e),
        }
    }

    /// Appends a READ of `len` bytes at `offset`, under a fresh handle.
    pub fn read(&self, offset: u64, len: u32, out: &mut Vec<u8>) -> (r: Request)
        ensures
            r.typ == Cmd::READ && r.offset == offset && r.len == len && r.flags.bits == 0
                && r.data_len == 0,
            final(out)@ == old(out)@ + request_header_frame(r.header()),
    {
        let req = Request::new(Cmd::READ, offset, len);
        req.put(&[], out);
        assert(out@ =~= old(out)@ + request_header_frame(req.header()));
        req
    }

    /// Checks the reply to a READ of `len` bytes and returns the bytes read.
    pub fn read_reply(reply: &[u8], len: usize) -> (r: Result<Vec<u8>, ClientError>)
        ensures
            match parse_simple_reply(reply@, len as nat) {
                Err(e) => r == Err::<Vec<u8>, ClientError>(ClientError::Protocol(e)),
                Ok((err, _, d)) => if err == ErrorType::OK {
                    r matches Ok(v) && v@ == d
                } else {
                    r == Err::<Vec<u8>, ClientError>(ClientError::Failed(err))
                },
            },
    {
        Client::get_reply_data(reply, len)
    }

    /// Appends a WRITE of `data` at `offset`, under a fresh handle.
    pub fn write(&self, offset: u64, data: &[u8], out: &mut Vec<u8>) -> (r: Request)
        requires
            data@.len() <= u32::MAX,
        ensures
            r.typ == Cmd::WRITE && r.offset == offset && r.len == data@.len() && r.flags.bits
                == 0 && r.data_len == data@.len(),
            final(out)@ == old(out)@ + request_header_frame(r.header()) + data@,
    {
        let req = Request::new(Cmd::WRITE, offset, data.len() as u32);
        req.put(data, out);
        assert(data@.subrange(0, data@.len() as int) =~= data@);
        req
    }

    /// Appends a FLUSH, under a fresh handle.
    pub fn flush(&self, out: &mut Vec<u8>) -> (r: Request)
        ensures
            r.typ == Cmd::FLUSH && r.offset == 0 && r.len == 0 && r.flags.bits == 0,
            final(out)@ == old(out)@ + request_header_frame(r.header()),
    {
        let req = Request::new(Cmd::FLUSH, 0, 0);
        req.put(&[], out);
        assert(out@ =~= old(out)@ + request_header_frame(req.header()));
        req
    }

    /// Appends a DISC; the server sends no reply to it.
    pub fn disconnect(self, out: &mut Vec<u8>) -> (r: Request)
        ensures
            r.typ == Cmd::DISCONNECT && r.offset == 0 && r.len == 0 && r.flags.bits == 0,
            final(out)@ == old(out)@ + request_header_frame(r.header()),
    {
        let req = Request::new(Cmd::DISCONNECT, 0, 0);
        req.put(&[], out);
        assert(out@ =~= old(out)@ + request_header_frame(req.header()));
        req
    }
}

/// The client accepts the greeting that this crate's server sends.
pub proof fn lemma_client_accepts_greeting()
    ensures
        check_greeting(greeting_frame()) == Ok::<(), ProtocolError>(()),
{
    let s = greeting_frame();
    lemma_u64_round_trip(MAGIC);
    lemma_u64_round_trip(IHAVEOPT);
    lemma_u16_round_trip(3);
    assert(s.subrange(0, 8) =~= u64_be(MAGIC));
    assert(s.subrange(8, 16) =~= u64_be(IHAVEOPT));
    assert(s.subrange(16, 18) =~= u16_be(3));
    assert(3u16 & !KNOWN_SERVER_FLAGS == 0 && 3u16 & 3 == 3) by (bit_vector);
}

/// Size query: the export information that the server sends to a client
/// that negotiated NO_ZEROES gives that client the server's size exactly.
pub proof fn lemma_export_size_reaches_client(size: u64)
    ensures
        parse_export_info(export_info_frame(size, true)) == Ok::<(u64, u16), ProtocolError>(
            (size, TRANSMIT_FLAGS),
        ),
{
    let s = export_info_frame(size, true);
    lemma_u64_round_trip(size);
    lemma_u16_round_trip(TRANSMIT_FLAGS);
    assert(s.subrange(0, 8) =~= u64_be(size));
    assert(s.subrange(8, 10) =~= u16_be(TRANSMIT_FLAGS));
    assert(TRANSMIT_FLAGS & !KNOWN_TRANSMIT_FLAGS == 0) by (bit_vector);
}

} // verus!
