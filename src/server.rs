//! The server side of a connection: the handshake, option haggling and the
//! dispatch of requests onto a backing store.
//!
//! A [`Session`] is the state of one connection. It says how many bytes it
//! needs next; the caller reads exactly those from the client and hands them
//! to [`Server::step`], which appends what is to be sent back. A session that
//! reaches [`Phase::Closed`] is done.
use crate::blocks::{lemma_write_then_read, mem_read, mem_write, Blocks};
use crate::bytes::{be_u32, push_u16, push_u32, push_u64, read_u32_at, u16_be, u32_be, u64_be};
use crate::proto::{
    export_list_frames, lemma_option_round_trip, lemma_request_round_trip, option_frame, option_reply_frame, parse_info_request,
    parse_option_header, parse_request_header, payload_len, request_header_frame,
    simple_reply_frame, text_of, Cmd, CmdFlags, ErrorType, ExportList, InfoRequest, InfoType,
    IoErrorKind, Opt, OptReply, OptType, ProtocolError, ReplyType, Request, RequestHeader,
    SimpleReply, C_FIXED_NEWSTYLE, C_NO_ZEROES, FIXED_NEWSTYLE, FUA, HAS_FLAGS, IHAVEOPT,
    KNOWN_CMD_FLAGS, MAGIC, MAX_OPTION_LEN, NO_ZEROES, SEND_FLUSH, SEND_FUA,
};
use vstd::prelude::*;

verus! {

/// The size of each session's scratch buffer, which bounds the payload of a
/// READ or WRITE.
pub const BUFFER_SIZE: usize = 262144;

/// The transmission flags that this server advertises.
pub const TRANSMIT_FLAGS: u16 = HAS_FLAGS | SEND_FLUSH | SEND_FUA;

/// The number of zero bytes that pad the export information unless the client
/// asked to leave them out.
pub const EXPORT_INFO_PAD: usize = 124;

/// The smallest block size that the server advertises.
pub const MIN_BLOCK_SIZE: u32 = 1;

/// The preferred block size that the server advertises.
pub const PREFERRED_BLOCK_SIZE: u32 = 4096;

/// The largest block size that the server advertises.
pub const MAX_BLOCK_SIZE: u32 = 131072;

/// The name of the single export.
pub open spec fn export_name() -> Seq<char> {
    "default"@
}

/// The name of the single export as it travels.
pub open spec fn export_name_bytes() -> Seq<u8> {
    vstd::utf8::encode_utf8(export_name())
}

/// The server's greeting: magic, IHAVEOPT, and the handshake flags
/// FIXED_NEWSTYLE | NO_ZEROES.
pub open spec fn greeting_frame() -> Seq<u8> {
    u64_be(MAGIC) + u64_be(IHAVEOPT) + u16_be(3)
}

/// The answer to EXPORT_NAME: the size, the transmission flags, and the zero
/// padding unless the client negotiated NO_ZEROES.
pub open spec fn export_info_frame(size: u64, no_zeroes: bool) -> Seq<u8> {
    u64_be(size) + u16_be(TRANSMIT_FLAGS) + if no_zeroes {
        Seq::empty()
    } else {
        Seq::new(EXPORT_INFO_PAD as nat, |i: int| 0u8)
    }
}

/// The payload of an INFO reply of type EXPORT.
pub open spec fn info_export_payload(size: u64) -> Seq<u8> {
    u16_be(0) + u64_be(size) + u16_be(TRANSMIT_FLAGS)
}

/// The payload of an INFO reply of type BLOCK_SIZE.
pub open spec fn info_block_size_payload() -> Seq<u8> {
    u16_be(3) + u32_be(MIN_BLOCK_SIZE) + u32_be(PREFERRED_BLOCK_SIZE) + u32_be(MAX_BLOCK_SIZE)
}

/// The information types that the server answers: those asked for, with
/// EXPORT added at the end when it was not asked for.
pub open spec fn answered_types(typs: Seq<InfoType>) -> Seq<InfoType> {
    if typs.contains(InfoType::EXPORT) {
        typs
    } else {
        typs.push(InfoType::EXPORT)
    }
}

/// The replies to the information types from index `i` of `typs` on: an INFO
/// reply for each EXPORT or BLOCK_SIZE, an ERR_UNSUP that ends the exchange at
/// the first NAME or DESCRIPTION, and otherwise an ACK at the end.
pub open spec fn info_frames_from(opt: OptType, typs: Seq<InfoType>, i: int, size: u64) -> Seq<u8>
    decreases typs.len() - i,
{
    if i < 0 || i >= typs.len() {
        option_reply_frame(opt, ReplyType::ACK, Seq::empty())
    } else {
        match typs[i] {
            InfoType::EXPORT => option_reply_frame(opt, ReplyType::INFO, info_export_payload(size))
                + info_frames_from(opt, typs, i + 1, size),
            InfoType::BLOCK_SIZE => option_reply_frame(
                opt,
                ReplyType::INFO,
                info_block_size_payload(),
            ) + info_frames_from(opt, typs, i + 1, size),
            _ => option_reply_frame(opt, ReplyType::ERR_UNSUP, Seq::empty()),
        }
    }
}

/// The whole answer to INFO or GO that asks for `typs`.
pub open spec fn info_frames(opt: OptType, typs: Seq<InfoType>, size: u64) -> Seq<u8> {
    info_frames_from(opt, answered_types(typs), 0, size)
}

/// The single export of a server, over a backing store.
pub struct Export<F: Blocks>(pub F);

impl<F: Blocks> Export<F> {
    /// The name of the single export, for listing; the server ignores the
    /// names that clients ask for.
    pub fn name(&self) -> (r: String)
        ensures
            r@ == export_name(),
    {
        "default".to_owned()
    }

    /// Reads `len` bytes at `off` into the start of `buf`, or as many as `buf`
    /// holds where `len` is larger. Returns how many bytes were read; what
    /// follows them in `buf` stays as it was.
    pub fn read(&self, off: u64, len: u32, buf: &mut [u8]) -> (r: Result<usize, ErrorType>)
        ensures
            final(buf)@.len() == old(buf)@.len(),
            match r {
                Ok(n) => n == read_len(len, old(buf)@.len()) && final(buf)@.subrange(
                    n as int,
                    old(buf)@.len() as int,
                ) == old(buf)@.subrange(n as int, old(buf)@.len() as int) && (self.0.modeled()
                    ==> mem_read(self.0.contents(), off as int, n as nat) == Ok::<
                    Seq<u8>,
                    IoErrorKind,
                >(final(buf)@.subrange(0, n as int))),
                Err(e) => exists|k: IoErrorKind| e == ErrorType::of_io_kind(k),
            },
            self.0.modeled() && self.0.reliable() && mem_read(
                self.0.contents(),
                off as int,
                read_len(len, old(buf)@.len()),
            ) is Ok ==> r is Ok,
    {
        let n: usize = if (len as u64) <= (buf.len() as u64) {
            len as usize
        } else {
            buf.len()
        };
        let ghost whole = buf@;
        let (head, tail) = buf.split_at_mut(n);
        let r = self.0.read_at(head, off);
        proof {
            assert(tail@ =~= whole.subrange(n as int, whole.len() as int));
        }
        match r {
            Ok(()) => {
                assert(buf@.subrange(n as int, buf@.len() as int) =~= tail@);
                assert(buf@.subrange(0, n as int) =~= head@);
                Ok(n)
            },
            Err(k) => {
                assert(buf@.subrange(n as int, buf@.len() as int) =~= tail@);
                Err(ErrorType::from_io_kind(k))
            },
        }
    }

    /// Writes the first `len` bytes of `data` at `off`; EOVERFLOW where
    /// `data` holds fewer.
    pub fn write(&mut self, off: u64, len: usize, data: &[u8]) -> (r: Result<(), ErrorType>)
        ensures
            final(self).0.modeled() == old(self).0.modeled(),
            final(self).0.reliable() == old(self).0.reliable(),
            len > data@.len() ==> r == Err::<(), ErrorType>(ErrorType::EOVERFLOW) && *final(self)
                == *old(self),
            len <= data@.len() ==> match r {
                Ok(_) => old(self).0.modeled() ==> mem_write(
                    old(self).0.contents(),
                    off as int,
                    data@.subrange(0, len as int),
                ) == Ok::<Seq<u8>, IoErrorKind>(final(self).0.contents()),
                Err(e) => exists|k: IoErrorKind| e == ErrorType::of_io_kind(k),
            },
            old(self).0.modeled() && old(self).0.reliable() && len <= data@.len() && mem_write(
                old(self).0.contents(),
                off as int,
                data@.subrange(0, len as int),
            ) is Ok ==> r is Ok,
    {
        if len > data.len() {
            return Err(ErrorType::EOVERFLOW);
        }
        match self.0.write_at(&data[0..len], off) {
            Ok(()) => Ok(()),
            Err(k) => Err(ErrorType::from_io_kind(k)),
        }
    }

    /// Makes every write so far durable.
    pub fn flush(&mut self) -> (r: Result<(), IoErrorKind>)
        ensures
            final(self).0.modeled() == old(self).0.modeled(),
            final(self).0.reliable() == old(self).0.reliable(),
            old(self).0.modeled() ==> final(self).0.contents() == old(self).0.contents(),
            old(self).0.modeled() && r is Ok ==> final(self).0.durable(),
            old(self).0.modeled() && old(self).0.reliable() ==> r is Ok,
    {
        self.0.flush()
    }

    /// The size of the export in bytes.
    pub fn size(&self) -> (r: Result<u64, IoErrorKind>)
        ensures
            self.0.modeled() ==> (r matches Ok(n) ==> n == self.0.contents().len()),
            self.0.modeled() && self.0.reliable() ==> r is Ok,
    {
        self.0.size()
    }
}

/// How many bytes a READ of `len` bytes returns through a buffer of
/// `capacity` bytes.
pub open spec fn read_len(len: u32, capacity: nat) -> nat {
    if len <= capacity {
        len as nat
    } else {
        capacity
    }
}

/// Appends the greeting that opens a connection.
pub fn send_greeting(out: &mut Vec<u8>)
    ensures
        final(out)@ == old(out)@ + greeting_frame(),
{
    push_u64(out, MAGIC);
    push_u64(out, IHAVEOPT);
    push_u16(out, FIXED_NEWSTYLE | NO_ZEROES);
    assert(FIXED_NEWSTYLE | NO_ZEROES == 3) by (bit_vector);
    assert(final(out)@ =~= old(out)@ + greeting_frame());
}

/// Appends the answer to EXPORT_NAME.
pub fn send_export_info(size: u64, no_zeroes: bool, out: &mut Vec<u8>)
    ensures
        final(out)@ == old(out)@ + export_info_frame(size, no_zeroes),
{
    push_u64(out, size);
    push_u16(out, TRANSMIT_FLAGS);
    if !no_zeroes {
        let mut i: usize = 0;
        while i < EXPORT_INFO_PAD
            invariant
                0 <= i <= EXPORT_INFO_PAD,
                out@ == old(out)@ + u64_be(size) + u16_be(TRANSMIT_FLAGS) + Seq::new(
                    i as nat,
                    |j: int| 0u8,
                ),
            decreases EXPORT_INFO_PAD - i,
        {
            out.push(0u8);
            i = i + 1;
            assert(out@ =~= old(out)@ + u64_be(size) + u16_be(TRANSMIT_FLAGS) + Seq::new(
                i as nat,
                |j: int| 0u8,
            ));
        }
    }
    assert(final(out)@ =~= old(out)@ + export_info_frame(size, no_zeroes));
}

/// Appends the answer to LIST: the single export, then an ACK.
pub fn send_export_list<F: Blocks>(export: &Export<F>, out: &mut Vec<u8>)
    ensures
        final(out)@ == old(out)@ + export_list_frames(seq![export_name_bytes()]),
{
    let name = export.name();
    let mut names: Vec<String> = Vec::new();
    names.push(name);
    let list = ExportList::new(names);
    proof {
        let ghost n = list.export_names@[0];
        assert(vstd::utf8::encode_utf8(n@).len() + 4 <= u32::MAX) by {
            reveal_strlit("default");
            assert(n@ =~= seq!['d', 'e', 'f', 'a', 'u', 'l', 't']);
            assert(vstd::utf8::is_ascii_chars(n@));
            vstd::utf8::is_ascii_chars_encode_utf8(n@);
        }
        assert(list.names() =~= seq![export_name_bytes()]);
    }
    list.put(out);
}

/// Appends the answer to INFO or GO asking for `typs`.
pub fn info_responses(opt: OptType, typs: &Vec<InfoType>, size: u64, out: &mut Vec<u8>)
    ensures
        final(out)@ == old(out)@ + info_frames(opt, typs@, size),
{
    let mut all: Vec<InfoType> = Vec::new();
    let mut has_export = false;
    let mut i: usize = 0;
    while i < typs.len()
        invariant
            0 <= i <= typs@.len(),
            all@ == typs@.subrange(0, i as int),
            has_export == typs@.subrange(0, i as int).contains(InfoType::EXPORT),
        decreases typs@.len() - i,
    {
        let t = typs[i];
        if t == InfoType::EXPORT {
            has_export = true;
        }
        all.push(t);
        proof {
            let prev = typs@.subrange(0, i as int);
            let next = typs@.subrange(0, i + 1);
            assert(next =~= prev.push(t));
            if has_export {
                if t == InfoType::EXPORT {
                    assert(next[i as int] == InfoType::EXPORT);
                } else {
                    let k = choose|k: int| 0 <= k < prev.len() && prev[k] == InfoType::EXPORT;
                    assert(next[k] == InfoType::EXPORT);
                }
            } else {
                assert forall|k: int| 0 <= k < next.len() implies next[k] != InfoType::EXPORT by {
                    if k < i {
                        assert(next[k] == prev[k]);
                    }
                }
            }
        }
        i = i + 1;
    }
    assert(typs@.subrange(0, typs@.len() as int) =~= typs@);
    if !has_export {
        all.push(InfoType::EXPORT);
    }
    assert(all@ == answered_types(typs@));
    let n = all.len();
    let mut j: usize = 0;
    while j < n
        invariant
            n == all@.len(),
            all@ == answered_types(typs@),
            0 <= j <= n,
            old(out)@ + info_frames_from(opt, all@, 0, size) == out@ + info_frames_from(
                opt,
                all@,
                j as int,
                size,
            ),
        decreases n - j,
    {
        let mut data: Vec<u8> = Vec::new();
        match all[j] {
            InfoType::EXPORT => {
                push_u16(&mut data, InfoType::EXPORT.to_u16());
                push_u64(&mut data, size);
                push_u16(&mut data, TRANSMIT_FLAGS);
                assert(data@ =~= info_export_payload(size));
                OptReply::new(opt, ReplyType::INFO, data).put(out);
            },
            InfoType::BLOCK_SIZE => {
                push_u16(&mut data, InfoType::BLOCK_SIZE.to_u16());
                push_u32(&mut data, MIN_BLOCK_SIZE);
                push_u32(&mut data, PREFERRED_BLOCK_SIZE);
                push_u32(&mut data, MAX_BLOCK_SIZE);
                assert(data@ =~= info_block_size_payload());
                OptReply::new(opt, ReplyType::INFO, data).put(out);
            },
            _ => {
                OptReply::new(opt, ReplyType::ERR_UNSUP, data).put(out);
                assert(out@ =~= old(out)@ + info_frames_from(opt, all@, 0, size));
                return ;
            },
        }
        proof {
            assert(out@ + info_frames_from(opt, all@, j + 1, size) =~= old(out)@
                + info_frames_from(opt, all@, 0, size));
        }
        j = j + 1;
    }
    OptReply::ack(opt).put(out);
    assert(out@ =~= old(out)@ + info_frames_from(opt, all@, 0, size));
}


/// The handshake flags that a client may send.
pub const KNOWN_CLIENT_FLAGS: u32 = 3;

/// Where a connection stands, and what it waits for.
#[derive(Debug, Clone, Copy, PartialEq, Eq, Structural)]
pub enum Phase {
    /// The greeting was sent; the client's flags come next.
    Greeting,
    /// Haggling: the header of an option comes next.
    OptionHeader,
    /// Haggling: the payload of an option comes next.
    OptionData { typ: OptType, len: u32 },
    /// Transmission: the header of a request comes next.
    RequestHeader,
    /// Transmission: the payload of a WRITE comes next.
    RequestData { req: Request },
    /// The connection is over.
    Closed,
}

/// How many bytes a connection in phase `p` needs next.
pub open spec fn wanted_len(p: Phase) -> nat {
    match p {
        Phase::Greeting => 4,
        Phase::OptionHeader => 16,
        Phase::OptionData { len, .. } => len as nat,
        Phase::RequestHeader => 28,
        Phase::RequestData { req } => req.data_len as nat,
        Phase::Closed => 0,
    }
}

/// Why a connection ended in failure.
#[derive(Debug, Clone, PartialEq, Eq)]
pub enum ServerError {
    /// The client sent something malformed or unsupported.
    Protocol(ProtocolError),
    /// The backing store failed where the protocol has no reply for it.
    Io(IoErrorKind),
}

/// The state of a connection that the protocol sees.
pub struct SessionView {
    pub phase: Phase,
    /// Whether the client asked to leave out the zero padding.
    pub no_zeroes: bool,
}

/// What the backing store answered during one step: its size, a read, a
/// write and a flush, each where the step asked for it.
pub struct StoreAnswers {
    pub size: Result<u64, IoErrorKind>,
    pub read: Result<Seq<u8>, IoErrorKind>,
    pub write: Result<(), IoErrorKind>,
    pub flush: Result<(), IoErrorKind>,
}

/// Answers for a step that asks the store nothing.
pub open spec fn no_answers() -> StoreAnswers {
    StoreAnswers {
        size: Err(IoErrorKind::Other),
        read: Err(IoErrorKind::Other),
        write: Err(IoErrorKind::Other),
        flush: Err(IoErrorKind::Other),
    }
}

/// The result of a step: the new state and the bytes to send, or the error
/// that ends the connection.
pub type StepResult = Result<(SessionView, Seq<u8>), ServerError>;

/// The client's handshake flags arrive.
pub open spec fn greeting_step(input: Seq<u8>) -> StepResult {
    let f = be_u32(input.subrange(0, 4));
    if f & !KNOWN_CLIENT_FLAGS != 0 {
        Err(ServerError::Protocol(ProtocolError::UnknownHandshakeFlags(f)))
    } else if f & C_FIXED_NEWSTYLE == 0 {
        Err(ServerError::Protocol(ProtocolError::NoFixedNewstyle))
    } else {
        Ok(
            (
                SessionView { phase: Phase::OptionHeader, no_zeroes: f & C_NO_ZEROES != 0 },
                Seq::empty(),
            ),
        )
    }
}

/// An option `typ` with payload `data` arrives while haggling.
pub open spec fn option_step(typ: OptType, data: Seq<u8>, no_zeroes: bool, a: StoreAnswers) -> StepResult {
    let haggle = SessionView { phase: Phase::OptionHeader, no_zeroes };
    let transmit = SessionView { phase: Phase::RequestHeader, no_zeroes };
    match typ {
        OptType::EXPORT_NAME => if !vstd::utf8::valid_utf8(data) {
            Err(ServerError::Protocol(ProtocolError::InvalidUtf8))
        } else {
            match a.size {
                Err(k) => Err(ServerError::Io(k)),
                Ok(size) => Ok((transmit, export_info_frame(size, no_zeroes))),
            }
        },
        OptType::LIST => Ok((haggle, export_list_frames(seq![export_name_bytes()]))),
        OptType::INFO | OptType::GO => match parse_info_request(data) {
            Err(e) => Err(ServerError::Protocol(e)),
            Ok((_, typs)) => match a.size {
                Err(k) => Err(ServerError::Io(k)),
                Ok(size) => Ok(
                    (
                        if typ == OptType::INFO {
                            haggle
                        } else {
                            transmit
                        },
                        info_frames(typ, typs, size),
                    ),
                ),
            },
        },
        OptType::ABORT => Ok((SessionView { phase: Phase::Closed, no_zeroes }, Seq::empty())),
        _ => Ok((haggle, option_reply_frame(typ, ReplyType::ERR_UNSUP, Seq::empty()))),
    }
}

/// The simple reply to `req` that reports `err` with no payload.
pub open spec fn error_reply(err: ErrorType, req: Request) -> Seq<u8> {
    simple_reply_frame(err, req.handle, Seq::empty())
}

/// A request arrives, with its payload where it is a WRITE.
pub open spec fn request_step(req: Request, no_zeroes: bool, a: StoreAnswers) -> StepResult {
    let transmit = SessionView { phase: Phase::RequestHeader, no_zeroes };
    let closed = SessionView { phase: Phase::Closed, no_zeroes };
    let ok = error_reply(ErrorType::OK, req);
    if req.flags.bits & !FUA != 0 {
        Ok((transmit, error_reply(ErrorType::ENOTSUP, req)))
    } else {
        match req.typ {
            Cmd::READ => Ok(
                (
                    transmit,
                    match a.read {
                        Ok(d) => simple_reply_frame(ErrorType::OK, req.handle, d),
                        Err(k) => error_reply(ErrorType::of_io_kind(k), req),
                    },
                ),
            ),
            Cmd::WRITE => if req.len > req.data_len {
                Ok((closed, error_reply(ErrorType::EOVERFLOW, req)))
            } else {
                match a.write {
                    Err(k) => Ok((transmit, error_reply(ErrorType::of_io_kind(k), req))),
                    Ok(_) => if req.flags.bits & FUA != 0 {
                        match a.flush {
                            Err(k) => Err(ServerError::Io(k)),
                            Ok(_) => Ok((transmit, ok)),
                        }
                    } else {
                        Ok((transmit, ok))
                    },
                }
            },
            Cmd::DISCONNECT => Ok((closed, Seq::empty())),
            Cmd::FLUSH => match a.flush {
                Err(k) => Err(ServerError::Io(k)),
                Ok(_) => Ok((transmit, ok)),
            },
            Cmd::TRIM => Ok((transmit, ok)),
            _ => Ok((closed, error_reply(ErrorType::ENOTSUP, req))),
        }
    }
}

/// The request that a header announces, with the length of its payload.
pub open spec fn request_of(h: RequestHeader) -> Request {
    Request {
        flags: CmdFlags { bits: h.flags },
        typ: h.typ,
        handle: h.handle,
        offset: h.offset,
        len: h.len,
        data_len: payload_len(h.typ, h.len, BUFFER_SIZE as nat) as usize,
    }
}

/// One step of a connection in state `v` that receives `input`, given what
/// the store answered.
pub open spec fn step_spec(v: SessionView, input: Seq<u8>, a: StoreAnswers) -> StepResult {
    match v.phase {
        Phase::Greeting => greeting_step(input),
        Phase::OptionHeader => match parse_option_header(input) {
            Err(e) => Err(ServerError::Protocol(e)),
            Ok((typ, len)) => if len == 0 {
                option_step(typ, Seq::empty(), v.no_zeroes, a)
            } else {
                Ok(
                    (
                        SessionView { phase: Phase::OptionData { typ, len }, no_zeroes: v.no_zeroes },
                        Seq::empty(),
                    ),
                )
            },
        },
        Phase::OptionData { typ, .. } => option_step(typ, input, v.no_zeroes, a),
        Phase::RequestHeader => match parse_request_header(input) {
            Err(e) => Err(ServerError::Protocol(e)),
            Ok(h) => {
                let req = request_of(h);
                if req.data_len == 0 {
                    request_step(req, v.no_zeroes, a)
                } else {
                    Ok(
                        (
                            SessionView { phase: Phase::RequestData { req }, no_zeroes: v.no_zeroes },
                            Seq::empty(),
                        ),
                    )
                }
            },
        },
        Phase::RequestData { req } => request_step(req, v.no_zeroes, a),
        Phase::Closed => Ok((v, Seq::empty())),
    }
}

/// The store's answers fit the step: a successful read returns as many bytes
/// as a READ of the request's length gets through the session buffer.
pub open spec fn answers_fit(v: SessionView, input: Seq<u8>, a: StoreAnswers) -> bool {
    a.read matches Ok(d) ==> match v.phase {
        Phase::RequestHeader => match parse_request_header(input) {
            Ok(h) => d.len() == read_len(h.len, BUFFER_SIZE as nat),
            Err(_) => true,
        },
        Phase::RequestData { req } => d.len() == read_len(req.len, BUFFER_SIZE as nat),
        _ => true,
    }
}

/// The option that a step answers, with its payload, if any.
pub open spec fn step_option(v: SessionView, input: Seq<u8>) -> Option<(OptType, Seq<u8>)> {
    match v.phase {
        Phase::OptionHeader => match parse_option_header(input) {
            Ok((typ, len)) => if len == 0 {
                Some((typ, Seq::empty()))
            } else {
                None
            },
            Err(_) => None,
        },
        Phase::OptionData { typ, .. } => Some((typ, input)),
        _ => None,
    }
}

/// The request that a step completes, if any.
pub open spec fn step_request(v: SessionView, input: Seq<u8>) -> Option<Request> {
    match v.phase {
        Phase::RequestHeader => match parse_request_header(input) {
            Ok(h) => if request_of(h).data_len == 0 {
                Some(request_of(h))
            } else {
                None
            },
            Err(_) => None,
        },
        Phase::RequestData { req } => Some(req),
        _ => None,
    }
}

/// The payload that came with the request that a step completes.
pub open spec fn step_payload(v: SessionView, input: Seq<u8>) -> Seq<u8> {
    match v.phase {
        Phase::RequestData { .. } => input,
        _ => Seq::empty(),
    }
}

/// Whether answering option `typ` with payload `data` asks the store its size:
/// a valid EXPORT_NAME, INFO or GO.
pub open spec fn asks_size(typ: OptType, data: Seq<u8>) -> bool {
    match typ {
        OptType::EXPORT_NAME => vstd::utf8::valid_utf8(data),
        OptType::INFO | OptType::GO => parse_info_request(data) is Ok,
        _ => false,
    }
}

/// Whether the request's flags are ones the server honours: FUA at most.
pub open spec fn flags_supported(req: Request) -> bool {
    req.flags.bits & !FUA == 0
}

/// Whether the request reads the store.
pub open spec fn reads_store(req: Request) -> bool {
    flags_supported(req) && req.typ == Cmd::READ
}

/// Whether the request hands its payload to the store: a WRITE with honoured
/// flags whose payload arrived whole.
pub open spec fn writes_store(req: Request) -> bool {
    flags_supported(req) && req.typ == Cmd::WRITE && req.len <= req.data_len
}

/// Whether the request flushes the store: a FLUSH, or a WRITE with FUA whose
/// write succeeded.
pub open spec fn flushes_store(req: Request, a: StoreAnswers) -> bool {
    ||| flags_supported(req) && req.typ == Cmd::FLUSH
    ||| writes_store(req) && a.write is Ok && req.flags.bits & FUA != 0
}

/// The store's answer to an option agrees with what it holds: the size is its
/// length, and a reliable store answers it.
pub open spec fn option_answers_agree<F: Blocks>(
    typ: OptType,
    data: Seq<u8>,
    a: StoreAnswers,
    store: F,
) -> bool {
    store.modeled() ==> {
        &&& a.size matches Ok(n) ==> n == store.contents().len()
        &&& store.reliable() && asks_size(typ, data) ==> a.size is Ok
    }
}

/// The store's answers to a request agree with what it holds: a read returns
/// its bytes at the request's offset, and a reliable store answers every
/// read, write and flush within its bounds.
pub open spec fn request_answers_agree<F: Blocks>(
    req: Request,
    payload: Seq<u8>,
    a: StoreAnswers,
    store: F,
) -> bool {
    store.modeled() ==> {
        &&& a.read matches Ok(d) ==> mem_read(store.contents(), req.offset as int, d.len()) == Ok::<
            Seq<u8>,
            IoErrorKind,
        >(d)
        &&& store.reliable() && reads_store(req) && mem_read(
            store.contents(),
            req.offset as int,
            read_len(req.len, BUFFER_SIZE as nat),
        ) is Ok ==> a.read is Ok
        &&& store.reliable() && writes_store(req) && mem_write(
            store.contents(),
            req.offset as int,
            payload,
        ) is Ok ==> a.write is Ok
        &&& store.reliable() && flushes_store(req, a) ==> a.flush is Ok
    }
}

/// What a request does to the store. A WRITE that reaches it writes its
/// payload at the request's offset when the store reports success (a failed
/// write leaves the contents unknown). A successful flush leaves it durable.
/// Any other request leaves the store as it was.
pub open spec fn request_store_after<F: Blocks>(
    req: Request,
    payload: Seq<u8>,
    a: StoreAnswers,
    before: F,
    after: F,
) -> bool {
    if writes_store(req) || flushes_store(req, a) {
        &&& after.modeled() == before.modeled()
        &&& after.reliable() == before.reliable()
        &&& before.modeled() ==> {
            &&& writes_store(req) && a.write is Ok ==> mem_write(
                before.contents(),
                req.offset as int,
                payload,
            ) == Ok::<Seq<u8>, IoErrorKind>(after.contents())
            &&& !writes_store(req) ==> after.contents() == before.contents()
            &&& flushes_store(req, a) && a.flush is Ok ==> after.durable()
        }
    } else {
        after == before
    }
}

/// What a step did to and with the store: its answers agree with what it
/// held, and it changed as the request completed by the step says. A step
/// that completes no request leaves the store as it was.
pub open spec fn store_done<F: Blocks>(
    v: SessionView,
    input: Seq<u8>,
    a: StoreAnswers,
    before: F,
    after: F,
) -> bool {
    &&& step_option(v, input) matches Some((typ, data)) ==> option_answers_agree(
        typ,
        data,
        a,
        before,
    )
    &&& match step_request(v, input) {
        Some(req) => request_answers_agree(req, step_payload(v, input), a, before)
            && request_store_after(req, step_payload(v, input), a, before, after),
        None => after == before,
    }
}

/// What a step did: for some answers of the store that fit it and agree
/// with what it held, the session and the bytes sent follow `step_spec`, and
/// the store changed as `store_done` says.
pub open spec fn step_done<F: Blocks>(
    before: SessionView,
    input: Seq<u8>,
    after: SessionView,
    sent: Seq<u8>,
    r: Result<(), ServerError>,
    a: StoreAnswers,
    store_before: F,
    store_after: F,
) -> bool {
    &&& answers_fit(before, input, a)
    &&& store_done(before, input, a, store_before, store_after)
    &&& match step_spec(before, input, a) {
        Ok((v, o)) => r is Ok && after == v && sent == o,
        Err(e) => r == Err::<(), ServerError>(e),
    }
}

/// One connection: where it stands, and its scratch buffer for READ.
pub struct Session {
    phase: Phase,
    no_zeroes: bool,
    buf: Vec<u8>,
}

impl View for Session {
    type V = SessionView;

    closed spec fn view(&self) -> SessionView {
        SessionView { phase: self.phase, no_zeroes: self.no_zeroes }
    }
}

impl Session {
    /// The scratch buffer has its full size.
    pub closed spec fn wf(&self) -> bool {
        self.buf@.len() == BUFFER_SIZE
    }

    /// A connection that has just been greeted.
    pub fn new() -> (r: Session)
        ensures
            r@ == (SessionView { phase: Phase::Greeting, no_zeroes: false }),
            r.wf(),
    {
        Session { phase: Phase::Greeting, no_zeroes: false, buf: vec![0u8; BUFFER_SIZE] }
    }

    pub fn phase(&self) -> (r: Phase)
        ensures
            r == self@.phase,
    {
        self.phase
    }

    /// Whether the client asked to leave out the zero padding.
    pub fn no_zeroes(&self) -> (r: bool)
        ensures
            r == self@.no_zeroes,
    {
        self.no_zeroes
    }

    /// How many bytes the connection needs next.
    pub fn wanted(&self) -> (r: usize)
        ensures
            r == wanted_len(self@.phase),
    {
        match self.phase {
            Phase::Greeting => 4,
            Phase::OptionHeader => 16,
            Phase::OptionData { len, .. } => len as usize,
            Phase::RequestHeader => 28,
            Phase::RequestData { req } => req.data_len,
            Phase::Closed => 0,
        }
    }

    /// The client closed its side before the next frame was whole: a clean
    /// end once transmission has begun, and a failure before.
    pub fn at_eof(&self) -> (r: Result<(), ServerError>)
        ensures
            r is Ok <==> (self@.phase is RequestHeader || self@.phase is RequestData
                || self@.phase is Closed),
            r matches Err(e) ==> e == ServerError::Io(IoErrorKind::UnexpectedEof),
    {
        match self.phase {
            Phase::RequestHeader | Phase::RequestData { .. } | Phase::Closed => Ok(()),
            _ => Err(ServerError::Io(IoErrorKind::UnexpectedEof)),
        }
    }

    /// Takes the client's handshake flags.
    fn initial_handshake(&mut self, input: &[u8]) -> (r: Result<(), ServerError>)
        requires
            input@.len() == 4,
            old(self).wf(),
        ensures
            final(self).wf(),
            match greeting_step(input@) {
                Ok((v, o)) => r is Ok && final(self)@ == v && o.len() == 0,
                Err(e) => r == Err::<(), ServerError>(e),
            },
    {
        let f = read_u32_at(input, 0);
        if f & !KNOWN_CLIENT_FLAGS != 0 {
            return Err(ServerError::Protocol(ProtocolError::UnknownHandshakeFlags(f)));
        }
        if f & C_FIXED_NEWSTYLE == 0 {
            return Err(ServerError::Protocol(ProtocolError::NoFixedNewstyle));
        }
        self.phase = Phase::OptionHeader;
        self.no_zeroes = f & C_NO_ZEROES != 0;
        Ok(())
    }

    /// Answers one option while haggling.
    fn handshake_haggle<F: Blocks>(
        &mut self,
        export: &Export<F>,
        typ: OptType,
        data: &[u8],
        out: &mut Vec<u8>,
    ) -> (r: (Result<(), ServerError>, Ghost<StoreAnswers>))
        requires
            old(self).wf(),
        ensures
            final(self).wf(),
            r.1@.read is Err,
            option_answers_agree(typ, data@, r.1@, export.0),
            r.0 is Err ==> final(out)@ == old(out)@,
            match option_step(typ, data@, old(self)@.no_zeroes, r.1@) {
                Ok((v, o)) => r.0 is Ok && final(self)@ == v && final(out)@ == old(out)@ + o,
                Err(e) => r.0 == Err::<(), ServerError>(e),
            },
    {
        let ghost mut a = no_answers();
        self.phase = Phase::OptionHeader;
        match typ {
            OptType::EXPORT_NAME => {
                if text_of(data).is_none() {
                    return (Err(ServerError::Protocol(ProtocolError::InvalidUtf8)), Ghost(a));
                }
                let size = export.size();
                proof {
                    a.size = size;
                }
                match size {
                    Err(k) => (Err(ServerError::Io(k)), Ghost(a)),
                    Ok(size) => {
                        send_export_info(size, self.no_zeroes, out);
                        self.phase = Phase::RequestHeader;
                        (Ok(()), Ghost(a))
                    },
                }
            },
            OptType::LIST => {
                send_export_list(export, out);
                (Ok(()), Ghost(a))
            },
            OptType::INFO | OptType::GO => {
                let info = match InfoRequest::get(data) {
                    Ok(info) => info,
                    Err(e) => return (Err(ServerError::Protocol(e)), Ghost(a)),
                };
                let size = export.size();
                proof {
                    a.size = size;
                }
                match size {
                    Err(k) => (Err(ServerError::Io(k)), Ghost(a)),
                    Ok(size) => {
                        info_responses(typ, &info.typs, size, out);
                        if typ == OptType::GO {
                            self.phase = Phase::RequestHeader;
                        }
                        (Ok(()), Ghost(a))
                    },
                }
            },
            OptType::ABORT => {
                self.phase = Phase::Closed;
                (Ok(()), Ghost(a))
            },
            _ => {
                OptReply::new(typ, ReplyType::ERR_UNSUP, Vec::new()).put(out);
                (Ok(()), Ghost(a))
            },
        }
    }

    /// Carries out one request of the transmission phase; `payload` is what
    /// came with a WRITE.
    fn handle_ops<F: Blocks>(
        &mut self,
        export: &mut Export<F>,
        req: Request,
        payload: &[u8],
        out: &mut Vec<u8>,
    ) -> (r: (Result<(), ServerError>, Ghost<StoreAnswers>))
        requires
            payload@.len() == req.data_len,
            old(self).wf(),
        ensures
            final(self).wf(),
            r.1@.read matches Ok(d) ==> d.len() == read_len(req.len, BUFFER_SIZE as nat),
            request_answers_agree(req, payload@, r.1@, old(export).0),
            request_store_after(req, payload@, r.1@, old(export).0, final(export).0),
            r.0 is Err ==> final(out)@ == old(out)@,
            match request_step(req, old(self)@.no_zeroes, r.1@) {
                Ok((v, o)) => r.0 is Ok && final(self)@ == v && final(out)@ == old(out)@ + o,
                Err(e) => r.0 == Err::<(), ServerError>(e),
            },
    {
        let ghost mut a = no_answers();
        if req.flags.has_other_than_fua() {
            SimpleReply::err(ErrorType::ENOTSUP, &req).put(out);
            self.phase = Phase::RequestHeader;
            return (Ok(()), Ghost(a));
        }
        match req.typ {
            Cmd::READ => {
                match export.read(req.offset, req.len, self.buf.as_mut_slice()) {
                    Ok(n) => {
                        proof {
                            a.read = Ok(self.buf@.subrange(0, n as int));
                        }
                        SimpleReply::data(&req, &self.buf.as_slice()[0..n]).put(out);
                    },
                    Err(e) => {
                        proof {
                            let k = choose|k: IoErrorKind| e == ErrorType::of_io_kind(k);
                            a.read = Err(k);
                        }
                        SimpleReply::err(e, &req).put(out);
                    },
                }
                self.phase = Phase::RequestHeader;
                (Ok(()), Ghost(a))
            },
            Cmd::WRITE => {
                if req.len as u64 > req.data_len as u64 {
                    SimpleReply::err(ErrorType::EOVERFLOW, &req).put(out);
                    self.phase = Phase::Closed;
                    return (Ok(()), Ghost(a));
                }
                proof {
                    assert(payload@.subrange(0, req.data_len as int) =~= payload@);
                }
                match export.write(req.offset, req.data_len, payload) {
                    Err(e) => {
                        proof {
                            let k = choose|k: IoErrorKind| e == ErrorType::of_io_kind(k);
                            a.write = Err(k);
                        }
                        SimpleReply::err(e, &req).put(out);
                        self.phase = Phase::RequestHeader;
                        (Ok(()), Ghost(a))
                    },
                    Ok(()) => {
                        proof {
                            a.write = Ok(());
                        }
                        if req.flags.contains_fua() {
                            let f = export.flush();
                            proof {
                                a.flush = f;
                            }
                            if let Err(k) = f {
                                return (Err(ServerError::Io(k)), Ghost(a));
                            }
                        }
                        SimpleReply::ok(&req).put(out);
                        self.phase = Phase::RequestHeader;
                        (Ok(()), Ghost(a))
                    },
                }
            },
            Cmd::DISCONNECT => {
                self.phase = Phase::Closed;
                (Ok(()), Ghost(a))
            },
            Cmd::FLUSH => {
                let f = export.flush();
                proof {
                    a.flush = f;
                }
                match f {
                    Err(k) => (Err(ServerError::Io(k)), Ghost(a)),
                    Ok(()) => {
                        SimpleReply::ok(&req).put(out);
                        self.phase = Phase::RequestHeader;
                        (Ok(()), Ghost(a))
                    },
                }
            },
            Cmd::TRIM => {
                SimpleReply::ok(&req).put(out);
                self.phase = Phase::RequestHeader;
                (Ok(()), Ghost(a))
            },
            _ => {
                SimpleReply::err(ErrorType::ENOTSUP, &req).put(out);
                self.phase = Phase::Closed;
                (Ok(()), Ghost(a))
            },
        }
    }
}

/// A server of a single export.
pub struct Server<F: Blocks> {
    export: Export<F>,
}

impl<F: Blocks> Server<F> {
    /// A server that exports `blocks`.
    pub fn new(blocks: F) -> (r: Server<F>)
        ensures
            r.blocks() == blocks,
    {
        Server { export: Export(blocks) }
    }

    /// The backing store.
    pub closed spec fn blocks(&self) -> F {
        self.export.0
    }

    /// The backing store.
    pub fn store(&self) -> (r: &F)
        ensures
            *r == self.blocks(),
    {
        &self.export.0
    }

    /// Appends the greeting that opens a connection.
    pub fn greet(&self, out: &mut Vec<u8>)
        ensures
            final(out)@ == old(out)@ + greeting_frame(),
    {
        send_greeting(out);
    }

    /// Hands `input`, the bytes that `session` waits for, to the connection,
    /// and appends what it answers to `out`.
    pub fn step(&mut self, session: &mut Session, input: &[u8], out: &mut Vec<u8>) -> (r: Result<
        (),
        ServerError,
    >)
        requires
            input@.len() == wanted_len(old(session)@.phase),
            old(session).wf(),
        ensures
            final(session).wf(),
            exists|a: StoreAnswers|
                #[trigger] step_done(
                    old(session)@,
                    input@,
                    final(session)@,
                    final(out)@.subrange(old(out)@.len() as int, final(out)@.len() as int),
                    r,
                    a,
                    old(self).blocks(),
                    final(self).blocks(),
                ),
            r is Ok ==> final(out)@.subrange(0, old(out)@.len() as int) == old(out)@,
            r is Err ==> final(out)@ == old(out)@,
    {
        let ghost before = session@;
        let ghost start = out@;
        let res: (Result<(), ServerError>, Ghost<StoreAnswers>) = match session.phase {
            Phase::Greeting => (session.initial_handshake(input), Ghost(no_answers())),
            Phase::OptionHeader => match Opt::get_header(input) {
                Err(e) => (Err(ServerError::Protocol(e)), Ghost(no_answers())),
                Ok((typ, len)) => if len == 0 {
                    session.handshake_haggle(&self.export, typ, &input[0..0], out)
                } else {
                    session.phase = Phase::OptionData { typ, len };
                    (Ok(()), Ghost(no_answers()))
                },
            },
            Phase::OptionData { typ, .. } => session.handshake_haggle(&self.export, typ, input, out),
            Phase::RequestHeader => match Request::get_header(input, BUFFER_SIZE) {
                Err(e) => (Err(ServerError::Protocol(e)), Ghost(no_answers())),
                Ok(req) => {
                    assert(req == request_of(req.header()));
                    if req.data_len == 0 {
                        session.handle_ops(&mut self.export, req, &input[0..0], out)
                    } else {
                        session.phase = Phase::RequestData { req };
                        (Ok(()), Ghost(no_answers()))
                    }
                },
            },
            Phase::RequestData { req } => session.handle_ops(&mut self.export, req, input, out),
            Phase::Closed => (Ok(()), Ghost(no_answers())),
        };
        let (r, Ghost(a)) = res;
        proof {
            match step_spec(before, input@, a) {
                Ok((v, o)) => {
                    assert(out@.subrange(start.len() as int, out@.len() as int) =~= o);
                    assert(out@.subrange(0, start.len() as int) =~= start);
                },
                Err(e) => {},
            }
            assert(step_done(
                before,
                input@,
                session@,
                out@.subrange(start.len() as int, out@.len() as int),
                r,
                a,
                old(self).blocks(),
                self.blocks(),
            ));
        }
        r
    }
}


/// Whether `o` is one simple reply that carries `handle`.
pub open spec fn is_reply_to(o: Seq<u8>, handle: u64) -> bool {
    exists|e: ErrorType, d: Seq<u8>| #[trigger] simple_reply_frame(e, handle, d) == o
}

/// A request is answered by at most one simple reply, and that reply carries
/// the request's handle.
pub proof fn lemma_request_reply_echoes_handle(req: Request, no_zeroes: bool, a: StoreAnswers)
    ensures
        request_step(req, no_zeroes, a) matches Ok((_, o)) ==> o.len() == 0 || is_reply_to(
            o,
            req.handle,
        ),
{
    match request_step(req, no_zeroes, a) {
        Ok((_, o)) => {
            if o.len() != 0 {
                let d = match a.read {
                    Ok(d) => d,
                    Err(_) => Seq::empty(),
                };
                assert(simple_reply_frame(ErrorType::OK, req.handle, d) == o
                    || simple_reply_frame(ErrorType::OK, req.handle, Seq::empty()) == o
                    || simple_reply_frame(ErrorType::ENOTSUP, req.handle, Seq::empty()) == o
                    || simple_reply_frame(ErrorType::EOVERFLOW, req.handle, Seq::empty()) == o
                    || (a.read matches Err(k) && simple_reply_frame(
                        ErrorType::of_io_kind(k),
                        req.handle,
                        Seq::empty(),
                    ) == o) || (a.write matches Err(k) && simple_reply_frame(
                        ErrorType::of_io_kind(k),
                        req.handle,
                        Seq::empty(),
                    ) == o));
            }
        },
        Err(_) => {},
    }
}

/// Handle echo: in the transmission phase every step sends nothing or exactly
/// one simple reply, and that reply carries the handle of the request that the
/// step completes, so replies follow their requests one for one.
pub proof fn lemma_handle_echo(v: SessionView, input: Seq<u8>, a: StoreAnswers)
    requires
        v.phase is RequestHeader || v.phase is RequestData,
    ensures
        step_spec(v, input, a) matches Ok((_, o)) ==> o.len() == 0 || match v.phase {
            Phase::RequestData { req } => is_reply_to(o, req.handle),
            _ => parse_request_header(input) matches Ok(h) && is_reply_to(o, h.handle),
        },
{
    match v.phase {
        Phase::RequestData { req } => lemma_request_reply_echoes_handle(req, v.no_zeroes, a),
        _ => {
            if let Ok(h) = parse_request_header(input) {
                lemma_request_reply_echoes_handle(request_of(h), v.no_zeroes, a);
            }
        },
    }
}

/// Bounded buffers, for READ: a READ of more bytes than the session buffer
/// holds is answered, when the store succeeds, with exactly a buffer's worth.
pub proof fn lemma_large_read_is_cut(v: SessionView, h: RequestHeader, a: StoreAnswers)
    requires
        v.phase == Phase::RequestHeader,
        h.typ == Cmd::READ,
        h.flags & !FUA == 0,
        h.len > BUFFER_SIZE,
        answers_fit(v, request_header_frame(h), a),
        a.read is Ok,
    ensures
        step_spec(v, request_header_frame(h), a) == Ok::<(SessionView, Seq<u8>), ServerError>(
            (
                SessionView { phase: Phase::RequestHeader, no_zeroes: v.no_zeroes },
                simple_reply_frame(ErrorType::OK, h.handle, a.read->Ok_0),
            ),
        ),
        a.read->Ok_0.len() == BUFFER_SIZE,
{
    let flags = h.flags;
    assert(flags & !FUA == 0 ==> flags & !KNOWN_CMD_FLAGS == 0) by (bit_vector);
    lemma_request_round_trip(h, Seq::empty(), BUFFER_SIZE as nat);
    assert(request_header_frame(h) + Seq::<u8>::empty() =~= request_header_frame(h));
    lemma_header_parses(h);
}

/// Bounded buffers, for WRITE: a WRITE of more bytes than the session buffer
/// holds takes a buffer's worth of payload, is answered with EOVERFLOW, and
/// ends the connection.
pub proof fn lemma_large_write_overflows(
    v: SessionView,
    h: RequestHeader,
    payload: Seq<u8>,
    a: StoreAnswers,
    b: StoreAnswers,
)
    requires
        v.phase == Phase::RequestHeader,
        h.typ == Cmd::WRITE,
        h.flags & !FUA == 0,
        h.len > BUFFER_SIZE,
        payload.len() == BUFFER_SIZE,
    ensures
        step_spec(v, request_header_frame(h), a) == Ok::<(SessionView, Seq<u8>), ServerError>(
            (
                SessionView {
                    phase: Phase::RequestData { req: request_of(h) },
                    no_zeroes: v.no_zeroes,
                },
                Seq::empty(),
            ),
        ),
        request_of(h).data_len == BUFFER_SIZE,
        step_spec(
            SessionView { phase: Phase::RequestData { req: request_of(h) }, no_zeroes: v.no_zeroes },
            payload,
            b,
        ) == Ok::<(SessionView, Seq<u8>), ServerError>(
            (
                SessionView { phase: Phase::Closed, no_zeroes: v.no_zeroes },
                simple_reply_frame(ErrorType::EOVERFLOW, h.handle, Seq::empty()),
            ),
        ),
{
    let flags = h.flags;
    assert(flags & !FUA == 0 ==> flags & !KNOWN_CMD_FLAGS == 0) by (bit_vector);
    lemma_header_parses(h);
}

/// A request header frame parses back to its fields.
proof fn lemma_header_parses(h: RequestHeader)
    requires
        h.flags & !KNOWN_CMD_FLAGS == 0,
    ensures
        parse_request_header(request_header_frame(h)) == Ok::<RequestHeader, ProtocolError>(h),
{
    let s = request_header_frame(h);
    lemma_request_round_trip(h, Seq::empty(), 0);
    assert(s + Seq::<u8>::empty() =~= s);
    assert(payload_len(h.typ, h.len, 0) == 0 || h.typ == Cmd::WRITE);
    if h.typ == Cmd::WRITE {
        assert(payload_len(h.typ, h.len, 0) == 0);
    }
}

/// Unknown option: an option that the server does not support (PEEK_EXPORT or
/// STARTTLS) gets exactly one reply, ERR_UNSUP with an empty payload, and the
/// server then waits for the next option. This holds of the step that takes
/// a bare option header and of the step that takes an option's payload.
pub proof fn lemma_unsupported_option(typ: OptType, data: Seq<u8>, no_zeroes: bool, a: StoreAnswers)
    requires
        typ == OptType::PEEK_EXPORT || typ == OptType::STARTTLS,
        data.len() <= MAX_OPTION_LEN,
    ensures
        data.len() == 0 ==> step_spec(
            SessionView { phase: Phase::OptionHeader, no_zeroes },
            option_frame(typ, data),
            a,
        ) == Ok::<(SessionView, Seq<u8>), ServerError>(
            (
                SessionView { phase: Phase::OptionHeader, no_zeroes },
                option_reply_frame(typ, ReplyType::ERR_UNSUP, Seq::empty()),
            ),
        ),
        data.len() > 0 ==> step_spec(
            SessionView {
                phase: Phase::OptionData { typ, len: data.len() as u32 },
                no_zeroes,
            },
            data,
            a,
        ) == Ok::<(SessionView, Seq<u8>), ServerError>(
            (
                SessionView { phase: Phase::OptionHeader, no_zeroes },
                option_reply_frame(typ, ReplyType::ERR_UNSUP, Seq::empty()),
            ),
        ),
{
    lemma_option_round_trip(typ, data);
    let s = option_frame(typ, data);
    if data.len() == 0 {
        assert(parse_option_header(s) == Ok::<(OptType, u32), ProtocolError>((typ, 0u32)));
    }
}

/// A READ of a range inside a reliable store is answered with the store's
/// bytes there: a store that no one has written yet returns the bytes it was
/// made with.
pub proof fn lemma_read_returns_store_bytes<F: Blocks>(
    req: Request,
    no_zeroes: bool,
    a: StoreAnswers,
    store: F,
)
    requires
        store.modeled(),
        store.reliable(),
        reads_store(req),
        req.len <= BUFFER_SIZE,
        req.offset + req.len <= store.contents().len(),
        request_answers_agree(req, Seq::empty(), a, store),
        a.read matches Ok(d) ==> d.len() == read_len(req.len, BUFFER_SIZE as nat),
    ensures
        request_step(req, no_zeroes, a) == Ok::<(SessionView, Seq<u8>), ServerError>(
            (
                SessionView { phase: Phase::RequestHeader, no_zeroes },
                simple_reply_frame(
                    ErrorType::OK,
                    req.handle,
                    store.contents().subrange(req.offset as int, req.offset + req.len),
                ),
            ),
        ),
{
}

/// Write-then-read consistency: once a WRITE of `payload` at an offset has
/// succeeded, a READ of the same range from a store that holds what the write
/// left (a flush and other connections' reads in between change nothing) is
/// answered with `payload`.
pub proof fn lemma_write_then_read_through_session<F: Blocks>(
    wreq: Request,
    payload: Seq<u8>,
    aw: StoreAnswers,
    written: F,
    after_write: F,
    rreq: Request,
    no_zeroes: bool,
    ar: StoreAnswers,
    at_read: F,
)
    requires
        written.modeled(),
        writes_store(wreq),
        payload.len() == wreq.data_len,
        wreq.data_len <= BUFFER_SIZE,
        aw.write is Ok,
        request_store_after(wreq, payload, aw, written, after_write),
        at_read.modeled(),
        at_read.reliable(),
        at_read.contents() == after_write.contents(),
        reads_store(rreq),
        rreq.offset == wreq.offset,
        rreq.len == payload.len(),
        request_answers_agree(rreq, Seq::empty(), ar, at_read),
        ar.read matches Ok(d) ==> d.len() == read_len(rreq.len, BUFFER_SIZE as nat),
    ensures
        request_step(rreq, no_zeroes, ar) == Ok::<(SessionView, Seq<u8>), ServerError>(
            (
                SessionView { phase: Phase::RequestHeader, no_zeroes },
                simple_reply_frame(ErrorType::OK, rreq.handle, payload),
            ),
        ),
{
    lemma_write_then_read(written.contents(), wreq.offset as int, payload);
    let c = after_write.contents();
    assert(mem_read(c, rreq.offset as int, payload.len()) == Ok::<Seq<u8>, IoErrorKind>(
        payload,
    ));
}

/// A client that sends DISC gets no reply, the connection ends, and ending
/// it there is no failure.
pub proof fn lemma_disconnect(req: Request, no_zeroes: bool, a: StoreAnswers, input: Seq<u8>)
    requires
        req.typ == Cmd::DISCONNECT,
        req.flags.bits & !FUA == 0,
    ensures
        request_step(req, no_zeroes, a) == Ok::<(SessionView, Seq<u8>), ServerError>(
            (SessionView { phase: Phase::Closed, no_zeroes }, Seq::empty()),
        ),
        step_spec(SessionView { phase: Phase::Closed, no_zeroes }, input, a) == Ok::<
            (SessionView, Seq<u8>),
            ServerError,
        >((SessionView { phase: Phase::Closed, no_zeroes }, Seq::empty())),
        wanted_len(Phase::Closed) == 0,
{
}

} // verus!
