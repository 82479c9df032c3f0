//! Protocol constants, the values that travel in each frame, and the frames'
//! encoders and parsers.
//!
//! Every parser takes the bytes that were received and every encoder appends
//! to the bytes that will be sent, so that nothing here touches a stream.
#![allow(non_camel_case_types)]
use crate::bytes::{
    be_u16, be_u32, be_u64, bytes_equal, bytes_to_vec, lemma_u16_round_trip, lemma_u32_round_trip,
    lemma_u64_round_trip, push_bytes, push_u16, push_u32, push_u64, read_u16_at, read_u32_at,
    read_u64_at, u16_be, u32_be, u64_be,
};
use rand::Rng;
use vstd::prelude::*;

verus! {

/// The port on which the server listens.
pub const TCP_PORT: u16 = 10809;

/// The server's opening greeting, "NBDMAGIC".
pub const MAGIC: u64 = 0x4e42444d41474943;

/// "IHAVEOPT": the second word of the greeting and the start of each option.
pub const IHAVEOPT: u64 = 0x49484156454F5054;

/// The start of each reply to an option.
pub const REPLY_MAGIC: u64 = 0x3e889045565a9;

/// The start of each request of the transmission phase.
pub const REQUEST_MAGIC: u32 = 0x25609513;

/// The start of each simple reply of the transmission phase.
pub const SIMPLE_REPLY_MAGIC: u32 = 0x67446698;

/// The largest option payload that the server accepts.
pub const MAX_OPTION_LEN: u32 = 10000;

/// Handshake flag of the server: it speaks the fixed newstyle handshake.
pub const FIXED_NEWSTYLE: u16 = 0x1;

/// Handshake flag of the server: it can leave out the zero padding.
pub const NO_ZEROES: u16 = 0x2;

/// Handshake flag of the client: it speaks the fixed newstyle handshake.
pub const C_FIXED_NEWSTYLE: u32 = 0x1;

/// Handshake flag of the client: the zero padding is to be left out.
pub const C_NO_ZEROES: u32 = 0x2;

/// Transmission flag: the flags field is meaningful.
pub const HAS_FLAGS: u16 = 0x1;

/// Transmission flag: the export is read-only.
pub const READ_ONLY: u16 = 0x2;

/// Transmission flag: the server honours FLUSH.
pub const SEND_FLUSH: u16 = 0x4;

/// Transmission flag: the server honours the FUA command flag.
pub const SEND_FUA: u16 = 0x8;

/// Every transmission flag that the protocol defines.
pub const KNOWN_TRANSMIT_FLAGS: u16 = 0xfff;

/// Command flag: force unit access.
pub const FUA: u16 = 0x1;

/// Every command flag that the protocol defines.
pub const KNOWN_CMD_FLAGS: u16 = 0x1f;

/// What a flag word holds: no bit outside `known`.
pub open spec fn only_known_bits_u16(bits: u16, known: u16) -> bool {
    bits & !known == 0
}

/// What a flag word holds: no bit outside `known`.
pub open spec fn only_known_bits_u32(bits: u32, known: u32) -> bool {
    bits & !known == 0
}

/// A malformed frame, or a peer that does not speak what this side needs.
/// Any of them ends the connection.
#[derive(Debug, Clone, PartialEq, Eq)]
pub enum ProtocolError {
    /// The bytes end before the frame does.
    Truncated,
    /// A frame starts with another magic number than its own.
    BadMagic(u64),
    /// An option code that the protocol does not define.
    UnknownOption(u32),
    /// An option payload longer than `MAX_OPTION_LEN`.
    OptionTooLarge(u32),
    /// Handshake flags with a bit that the protocol does not define.
    UnknownHandshakeFlags(u32),
    /// The client does not speak the fixed newstyle handshake.
    NoFixedNewstyle,
    /// The server does not offer both fixed newstyle and no zeroes.
    ServerFlagsMissing(u16),
    /// Transmission flags with a bit that the protocol does not define.
    UnknownTransmitFlags(u16),
    /// A command code that the protocol does not define.
    UnknownCommand(u16),
    /// Command flags with a bit that the protocol does not define.
    UnknownCommandFlags(u16),
    /// An error code that the protocol does not define.
    UnknownErrorType(u32),
    /// An information type that the protocol does not define.
    UnknownInfoType(u16),
    /// An export name that is not UTF-8.
    InvalidUtf8,
    /// Any other failure, described in words.
    Other(String),
}

impl ProtocolError {
    /// An error described by `s`.
    pub fn new(s: &str) -> (r: ProtocolError)
        ensures
            r matches ProtocolError::Other(m) && m@ == s@,
    {
        ProtocolError::Other(s.to_owned())
    }
}

/// The options that a client may send while haggling.
#[derive(Debug, Clone, Copy, PartialEq, Eq, Structural)]
pub enum OptType {
    EXPORT_NAME,
    ABORT,
    LIST,
    PEEK_EXPORT,
    STARTTLS,
    INFO,
    GO,
}

impl OptType {
    /// The code of this option on the wire.
    pub open spec fn code(self) -> u32 {
        match self {
            OptType::EXPORT_NAME => 1,
            OptType::ABORT => 2,
            OptType::LIST => 3,
            OptType::PEEK_EXPORT => 4,
            OptType::STARTTLS => 5,
            OptType::INFO => 6,
            OptType::GO => 7,
        }
    }

    /// The option that `n` stands for, if any.
    pub open spec fn of_code(n: u32) -> Option<OptType> {
        if n == 1 {
            Some(OptType::EXPORT_NAME)
        } else if n == 2 {
            Some(OptType::ABORT)
        } else if n == 3 {
            Some(OptType::LIST)
        } else if n == 4 {
            Some(OptType::PEEK_EXPORT)
        } else if n == 5 {
            Some(OptType::STARTTLS)
        } else if n == 6 {
            Some(OptType::INFO)
        } else if n == 7 {
            Some(OptType::GO)
        } else {
            None
        }
    }

    pub fn to_u32(self) -> (r: u32)
        ensures
            r == self.code(),
    {
        match self {
            OptType::EXPORT_NAME => 1,
            OptType::ABORT => 2,
            OptType::LIST => 3,
            OptType::PEEK_EXPORT => 4,
            OptType::STARTTLS => 5,
            OptType::INFO => 6,
            OptType::GO => 7,
        }
    }

    pub fn from_u32(n: u32) -> (r: Option<OptType>)
        ensures
            r == OptType::of_code(n),
    {
        match n {
            1 => Some(OptType::EXPORT_NAME),
            2 => Some(OptType::ABORT),
            3 => Some(OptType::LIST),
            4 => Some(OptType::PEEK_EXPORT),
            5 => Some(OptType::STARTTLS),
            6 => Some(OptType::INFO),
            7 => Some(OptType::GO),
            _ => None,
        }
    }
}

/// The information that INFO and GO may ask for.
#[derive(Debug, Clone, Copy, PartialEq, Eq, Structural)]
pub enum InfoType {
    EXPORT,
    NAME,
    DESCRIPTION,
    BLOCK_SIZE,
}

impl InfoType {
    /// The code of this information type on the wire.
    pub open spec fn code(self) -> u16 {
        match self {
            InfoType::EXPORT => 0,
            InfoType::NAME => 1,
            InfoType::DESCRIPTION => 2,
            InfoType::BLOCK_SIZE => 3,
        }
    }

    /// The information type that `n` stands for, if any.
    pub open spec fn of_code(n: u16) -> Option<InfoType> {
        if n == 0 {
            Some(InfoType::EXPORT)
        } else if n == 1 {
            Some(InfoType::NAME)
        } else if n == 2 {
            Some(InfoType::DESCRIPTION)
        } else if n == 3 {
            Some(InfoType::BLOCK_SIZE)
        } else {
            None
        }
    }

    pub fn to_u16(self) -> (r: u16)
        ensures
            r == self.code(),
    {
        match self {
            InfoType::EXPORT => 0,
            InfoType::NAME => 1,
            InfoType::DESCRIPTION => 2,
            InfoType::BLOCK_SIZE => 3,
        }
    }

    pub fn from_u16(n: u16) -> (r: Option<InfoType>)
        ensures
            r == InfoType::of_code(n),
    {
        match n {
            0 => Some(InfoType::EXPORT),
            1 => Some(InfoType::NAME),
            2 => Some(InfoType::DESCRIPTION),
            3 => Some(InfoType::BLOCK_SIZE),
            _ => None,
        }
    }
}

/// The kinds of reply to an option.
#[derive(Debug, Clone, Copy, PartialEq, Eq, Structural)]
pub enum ReplyType {
    ACK,
    SERVER,
    INFO,
    ERR_UNSUP,
    ERR_POLICY,
    ERR_INVALID,
    ERR_TLS_REQD,
    ERR_UNKNOWN,
    ERR_SHUTDOWN,
    ERR_BLOCK_SIZE_REQD,
    ERR_TOO_BIG,
}

impl ReplyType {
    /// The code of this reply type on the wire.
    pub open spec fn code(self) -> u32 {
        match self {
            ReplyType::ACK => 1,
            ReplyType::SERVER => 2,
            ReplyType::INFO => 3,
            ReplyType::ERR_UNSUP => 0x8000_0001,
            ReplyType::ERR_POLICY => 0x8000_0002,
            ReplyType::ERR_INVALID => 0x8000_0003,
            ReplyType::ERR_TLS_REQD => 0x8000_0005,
            ReplyType::ERR_UNKNOWN => 0x8000_0006,
            ReplyType::ERR_SHUTDOWN => 0x8000_0007,
            ReplyType::ERR_BLOCK_SIZE_REQD => 0x8000_0008,
            ReplyType::ERR_TOO_BIG => 0x8000_0009,
        }
    }

    pub fn to_u32(self) -> (r: u32)
        ensures
            r == self.code(),
    {
        match self {
            ReplyType::ACK => 1,
            ReplyType::SERVER => 2,
            ReplyType::INFO => 3,
            ReplyType::ERR_UNSUP => 0x8000_0001,
            ReplyType::ERR_POLICY => 0x8000_0002,
            ReplyType::ERR_INVALID => 0x8000_0003,
            ReplyType::ERR_TLS_REQD => 0x8000_0005,
            ReplyType::ERR_UNKNOWN => 0x8000_0006,
            ReplyType::ERR_SHUTDOWN => 0x8000_0007,
            ReplyType::ERR_BLOCK_SIZE_REQD => 0x8000_0008,
            ReplyType::ERR_TOO_BIG => 0x8000_0009,
        }
    }
}

/// The commands of the transmission phase.
#[derive(Debug, Clone, Copy, PartialEq, Eq, Structural)]
pub enum Cmd {
    READ,
    WRITE,
    DISCONNECT,
    FLUSH,
    TRIM,
    CACHE,
    WRITE_ZEROES,
    BLOCK_STATUS,
    RESIZE,
}

impl Cmd {
    /// The code of this command on the wire.
    pub open spec fn code(self) -> u16 {
        match self {
            Cmd::READ => 0,
            Cmd::WRITE => 1,
            Cmd::DISCONNECT => 2,
            Cmd::FLUSH => 3,
            Cmd::TRIM => 4,
            Cmd::CACHE => 5,
            Cmd::WRITE_ZEROES => 6,
            Cmd::BLOCK_STATUS => 7,
            Cmd::RESIZE => 8,
        }
    }

    /// The command that `n` stands for, if any.
    pub open spec fn of_code(n: u16) -> Option<Cmd> {
        if n == 0 {
            Some(Cmd::READ)
        } else if n == 1 {
            Some(Cmd::WRITE)
        } else if n == 2 {
            Some(Cmd::DISCONNECT)
        } else if n == 3 {
            Some(Cmd::FLUSH)
        } else if n == 4 {
            Some(Cmd::TRIM)
        } else if n == 5 {
            Some(Cmd::CACHE)
        } else if n == 6 {
            Some(Cmd::WRITE_ZEROES)
        } else if n == 7 {
            Some(Cmd::BLOCK_STATUS)
        } else if n == 8 {
            Some(Cmd::RESIZE)
        } else {
            None
        }
    }

    pub fn to_u16(self) -> (r: u16)
        ensures
            r == self.code(),
    {
        match self {
            Cmd::READ => 0,
            Cmd::WRITE => 1,
            Cmd::DISCONNECT => 2,
            Cmd::FLUSH => 3,
            Cmd::TRIM => 4,
            Cmd::CACHE => 5,
            Cmd::WRITE_ZEROES => 6,
            Cmd::BLOCK_STATUS => 7,
            Cmd::RESIZE => 8,
        }
    }

    pub fn from_u16(n: u16) -> (r: Option<Cmd>)
        ensures
            r == Cmd::of_code(n),
    {
        match n {
            0 => Some(Cmd::READ),
            1 => Some(Cmd::WRITE),
            2 => Some(Cmd::DISCONNECT),
            3 => Some(Cmd::FLUSH),
            4 => Some(Cmd::TRIM),
            5 => Some(Cmd::CACHE),
            6 => Some(Cmd::WRITE_ZEROES),
            7 => Some(Cmd::BLOCK_STATUS),
            8 => Some(Cmd::RESIZE),
            _ => None,
        }
    }
}

/// How an operation on the backing store failed, as far as the protocol
/// cares.
#[derive(Debug, Clone, Copy, PartialEq, Eq, Structural)]
pub enum IoErrorKind {
    PermissionDenied,
    InvalidInput,
    UnexpectedEof,
    Other,
}

/// The error codes of a simple reply.
#[derive(Debug, Clone, Copy, PartialEq, Eq, Structural)]
pub enum ErrorType {
    OK,
    EPERM,
    EIO,
    ENOMEM,
    EINVAL,
    ENOSPC,
    EOVERFLOW,
    ENOTSUP,
    ESHUTDOWN,
}

impl ErrorType {
    /// The code of this error on the wire.
    pub open spec fn code(self) -> u32 {
        match self {
            ErrorType::OK => 0,
            ErrorType::EPERM => 1,
            ErrorType::EIO => 5,
            ErrorType::ENOMEM => 12,
            ErrorType::EINVAL => 22,
            ErrorType::ENOSPC => 28,
            ErrorType::EOVERFLOW => 75,
            ErrorType::ENOTSUP => 95,
            ErrorType::ESHUTDOWN => 108,
        }
    }

    /// The error that `n` stands for, if any.
    pub open spec fn of_code(n: u32) -> Option<ErrorType> {
        if n == 0 {
            Some(ErrorType::OK)
        } else if n == 1 {
            Some(ErrorType::EPERM)
        } else if n == 5 {
            Some(ErrorType::EIO)
        } else if n == 12 {
            Some(ErrorType::ENOMEM)
        } else if n == 22 {
            Some(ErrorType::EINVAL)
        } else if n == 28 {
            Some(ErrorType::ENOSPC)
        } else if n == 75 {
            Some(ErrorType::EOVERFLOW)
        } else if n == 95 {
            Some(ErrorType::ENOTSUP)
        } else if n == 108 {
            Some(ErrorType::ESHUTDOWN)
        } else {
            None
        }
    }

    /// The reply error for a failed operation on the backing store.
    pub open spec fn of_io_kind(kind: IoErrorKind) -> ErrorType {
        match kind {
            IoErrorKind::PermissionDenied => ErrorType::EPERM,
            IoErrorKind::InvalidInput => ErrorType::EOVERFLOW,
            IoErrorKind::UnexpectedEof => ErrorType::EOVERFLOW,
            IoErrorKind::Other => ErrorType::EIO,
        }
    }

    pub fn to_u32(self) -> (r: u32)
        ensures
            r == self.code(),
    {
        match self {
            ErrorType::OK => 0,
            ErrorType::EPERM => 1,
            ErrorType::EIO => 5,
            ErrorType::ENOMEM => 12,
            ErrorType::EINVAL => 22,
            ErrorType::ENOSPC => 28,
            ErrorType::EOVERFLOW => 75,
            ErrorType::ENOTSUP => 95,
            ErrorType::ESHUTDOWN => 108,
        }
    }

    pub fn from_u32(n: u32) -> (r: Option<ErrorType>)
        ensures
            r == ErrorType::of_code(n),
    {
        match n {
            0 => Some(ErrorType::OK),
            1 => Some(ErrorType::EPERM),
            5 => Some(ErrorType::EIO),
            12 => Some(ErrorType::ENOMEM),
            22 => Some(ErrorType::EINVAL),
            28 => Some(ErrorType::ENOSPC),
            75 => Some(ErrorType::EOVERFLOW),
            95 => Some(ErrorType::ENOTSUP),
            108 => Some(ErrorType::ESHUTDOWN),
            _ => None,
        }
    }

    /// The reply error for a failed operation on the backing store: a refused
    /// permission is EPERM, an invalid argument or a short read is EOVERFLOW,
    /// anything else is EIO.
    pub fn from_io_kind(kind: IoErrorKind) -> (r: ErrorType)
        ensures
            r == ErrorType::of_io_kind(kind),
    {
        match kind {
            IoErrorKind::PermissionDenied => ErrorType::EPERM,
            IoErrorKind::InvalidInput => ErrorType::EOVERFLOW,
            IoErrorKind::UnexpectedEof => ErrorType::EOVERFLOW,
            IoErrorKind::Other => ErrorType::EIO,
        }
    }
}

/// Every code decodes back to the value it was made from.
pub proof fn lemma_codes_round_trip(o: OptType, i: InfoType, c: Cmd, e: ErrorType)
    ensures
        OptType::of_code(o.code()) == Some(o),
        InfoType::of_code(i.code()) == Some(i),
        Cmd::of_code(c.code()) == Some(c),
        ErrorType::of_code(e.code()) == Some(e),
{
}

/// The flags of a request. A received request holds only the bits that the
/// protocol defines.
#[derive(Debug, Clone, Copy, PartialEq, Eq, Structural)]
pub struct CmdFlags {
    pub bits: u16,
}

impl CmdFlags {
    /// No flag.
    pub fn empty() -> (r: CmdFlags)
        ensures
            r.bits == 0,
    {
        CmdFlags { bits: 0 }
    }

    /// Force unit access alone.
    pub fn fua() -> (r: CmdFlags)
        ensures
            r.bits == FUA,
    {
        CmdFlags { bits: FUA }
    }

    /// The flags whose bits are `bits`, where the protocol defines each of them.
    pub fn from_bits(bits: u16) -> (r: Option<CmdFlags>)
        ensures
            r is Some <==> only_known_bits_u16(bits, KNOWN_CMD_FLAGS),
            r matches Some(f) ==> f.bits == bits,
    {
        if bits & !KNOWN_CMD_FLAGS == 0 {
            Some(CmdFlags { bits })
        } else {
            None
        }
    }

    pub fn bits(&self) -> (r: u16)
        ensures
            r == self.bits,
    {
        self.bits
    }

    /// Whether force unit access is set.
    pub fn contains_fua(&self) -> (r: bool)
        ensures
            r == (self.bits & FUA != 0),
    {
        self.bits & FUA != 0
    }

    /// Whether a flag other than force unit access is set.
    pub fn has_other_than_fua(&self) -> (r: bool)
        ensures
            r == (self.bits & !FUA != 0),
    {
        self.bits & !FUA != 0
    }
}


// ---------------------------------------------------------------------------
// Handshake frames
// ---------------------------------------------------------------------------

/// The length of an option header: magic, option code and payload length.
pub const OPTION_HEADER_LEN: usize = 16;

/// An option frame as the client sends it.
pub open spec fn option_frame(typ: OptType, data: Seq<u8>) -> Seq<u8> {
    u64_be(IHAVEOPT) + u32_be(typ.code()) + u32_be(data.len() as u32) + data
}

/// What the first `OPTION_HEADER_LEN` bytes of `s` announce: an option and
/// the length of its payload.
pub open spec fn parse_option_header(s: Seq<u8>) -> Result<(OptType, u32), ProtocolError> {
    if s.len() < OPTION_HEADER_LEN {
        Err(ProtocolError::Truncated)
    } else if be_u64(s.subrange(0, 8)) != IHAVEOPT {
        Err(ProtocolError::BadMagic(be_u64(s.subrange(0, 8))))
    } else {
        let code = be_u32(s.subrange(8, 12));
        let len = be_u32(s.subrange(12, 16));
        match OptType::of_code(code) {
            None => Err(ProtocolError::UnknownOption(code)),
            Some(t) => if len > MAX_OPTION_LEN {
                Err(ProtocolError::OptionTooLarge(len))
            } else {
                Ok((t, len))
            },
        }
    }
}

/// The option at the start of `s`, with its payload.
pub open spec fn parse_option(s: Seq<u8>) -> Result<(OptType, Seq<u8>), ProtocolError> {
    match parse_option_header(s) {
        Err(e) => Err(e),
        Ok((t, len)) => if s.len() < OPTION_HEADER_LEN + len {
            Err(ProtocolError::Truncated)
        } else {
            Ok((t, s.subrange(OPTION_HEADER_LEN as int, OPTION_HEADER_LEN + len)))
        },
    }
}

/// A reply to an option as the server sends it.
pub open spec fn option_reply_frame(opt: OptType, reply: ReplyType, data: Seq<u8>) -> Seq<u8> {
    u64_be(REPLY_MAGIC) + u32_be(opt.code()) + u32_be(reply.code()) + u32_be(data.len() as u32)
        + data
}

/// An option sent by the client while haggling.
#[derive(Debug, Clone)]
pub struct Opt {
    pub typ: OptType,
    pub data: Vec<u8>,
}

impl PartialEq for Opt {
    fn eq(&self, o: &Opt) -> (r: bool) {
        self.typ == o.typ && bytes_equal(self.data.as_slice(), o.data.as_slice())
    }
}

impl vstd::std_specs::cmp::PartialEqSpecImpl for Opt {
    open spec fn obeys_eq_spec() -> bool {
        true
    }

    open spec fn eq_spec(&self, o: &Opt) -> bool {
        self.typ == o.typ && self.data@ == o.data@
    }
}

impl Opt {
    /// Parses the header of an option: the option and its payload length.
    pub fn get_header(b: &[u8]) -> (r: Result<(OptType, u32), ProtocolError>)
        ensures
            r == parse_option_header(b@),
    {
        if b.len() < OPTION_HEADER_LEN {
            return Err(ProtocolError::Truncated);
        }
        let magic = read_u64_at(b, 0);
        if magic != IHAVEOPT {
            return Err(ProtocolError::BadMagic(magic));
        }
        let code = read_u32_at(b, 8);
        let len = read_u32_at(b, 12);
        match OptType::from_u32(code) {
            None => Err(ProtocolError::UnknownOption(code)),
            Some(t) => if len > MAX_OPTION_LEN {
                Err(ProtocolError::OptionTooLarge(len))
            } else {
                Ok((t, len))
            },
        }
    }

    /// Parses an option frame.
    pub fn get(b: &[u8]) -> (r: Result<Opt, ProtocolError>)
        ensures
            match r {
                Ok(o) => parse_option(b@) == Ok::<(OptType, Seq<u8>), ProtocolError>((o.typ, o.data@)),
                Err(e) => parse_option(b@) == Err::<(OptType, Seq<u8>), ProtocolError>(e),
            },
    {
        let (typ, len) = match Opt::get_header(b) {
            Ok(h) => h,
            Err(e) => return Err(e),
        };
        let len = len as usize;
        if b.len() - OPTION_HEADER_LEN < len {
            return Err(ProtocolError::Truncated);
        }
        let data = bytes_to_vec(&b[OPTION_HEADER_LEN..OPTION_HEADER_LEN + len]);
        Ok(Opt { typ, data })
    }

    /// Appends this option's frame.
    pub fn put(self, out: &mut Vec<u8>)
        requires
            self.data@.len() <= u32::MAX,
        ensures
            final(out)@ == old(out)@ + option_frame(self.typ, self.data@),
    {
        push_u64(out, IHAVEOPT);
        push_u32(out, self.typ.to_u32());
        push_u32(out, self.data.len() as u32);
        push_bytes(out, self.data.as_slice());
        assert(final(out)@ =~= old(out)@ + option_frame(self.typ, self.data@));
    }
}

/// An option frame parses back to the option it was made from, whenever its
/// payload is short enough for the server to accept.
pub proof fn lemma_option_round_trip(typ: OptType, data: Seq<u8>)
    requires
        data.len() <= MAX_OPTION_LEN,
    ensures
        parse_option(option_frame(typ, data)) == Ok::<(OptType, Seq<u8>), ProtocolError>((typ, data)),
{
    let s = option_frame(typ, data);
    lemma_u64_round_trip(IHAVEOPT);
    lemma_u32_round_trip(typ.code());
    lemma_u32_round_trip(data.len() as u32);
    assert(s.subrange(0, 8) =~= u64_be(IHAVEOPT));
    assert(s.subrange(8, 12) =~= u32_be(typ.code()));
    assert(s.subrange(12, 16) =~= u32_be(data.len() as u32));
    assert(s.subrange(16, 16 + data.len() as int) =~= data);
}

/// A reply to one option.
pub struct OptReply {
    pub opt: OptType,
    pub reply_type: ReplyType,
    pub data: Vec<u8>,
}

impl OptReply {
    /// The acknowledgement of `opt`, with no payload.
    pub fn ack(opt: OptType) -> (r: OptReply)
        ensures
            r.opt == opt,
            r.reply_type == ReplyType::ACK,
            r.data@ == Seq::<u8>::empty(),
    {
        OptReply { opt, reply_type: ReplyType::ACK, data: Vec::new() }
    }

    pub fn new(opt: OptType, reply_type: ReplyType, data: Vec<u8>) -> (r: OptReply)
        ensures
            r.opt == opt,
            r.reply_type == reply_type,
            r.data@ == data@,
    {
        OptReply { opt, reply_type, data }
    }

    /// Appends this reply's frame.
    pub fn put(self, out: &mut Vec<u8>)
        requires
            self.data@.len() <= u32::MAX,
        ensures
            final(out)@ == old(out)@ + option_reply_frame(self.opt, self.reply_type, self.data@),
    {
        push_u64(out, REPLY_MAGIC);
        push_u32(out, self.opt.to_u32());
        push_u32(out, self.reply_type.to_u32());
        push_u32(out, self.data.len() as u32);
        push_bytes(out, self.data.as_slice());
        assert(final(out)@ =~= old(out)@ + option_reply_frame(
            self.opt,
            self.reply_type,
            self.data@,
        ));
    }
}

/// The SERVER reply that lists one export by its name.
pub open spec fn export_entry(name: Seq<u8>) -> Seq<u8> {
    option_reply_frame(OptType::LIST, ReplyType::SERVER, u32_be(name.len() as u32) + name)
}

/// The SERVER replies that list the exports named `names`, in order.
pub open spec fn export_entries(names: Seq<Seq<u8>>) -> Seq<u8>
    decreases names.len(),
{
    if names.len() == 0 {
        Seq::empty()
    } else {
        export_entries(names.drop_last()) + export_entry(names.last())
    }
}

/// The whole answer to LIST: one SERVER reply per export, then an ACK.
pub open spec fn export_list_frames(names: Seq<Seq<u8>>) -> Seq<u8> {
    export_entries(names) + option_reply_frame(OptType::LIST, ReplyType::ACK, Seq::empty())
}

/// The bytes of a name as it travels: its UTF-8 encoding.
pub open spec fn name_bytes(name: String) -> Seq<u8> {
    vstd::utf8::encode_utf8(name@)
}

/// The answer to LIST.
pub struct ExportList {
    pub export_names: Vec<String>,
}

impl ExportList {
    pub fn new(export_names: Vec<String>) -> (r: ExportList)
        ensures
            r.export_names@ == export_names@,
    {
        ExportList { export_names }
    }

    /// The names of the exports, as they travel.
    pub open spec fn names(&self) -> Seq<Seq<u8>> {
        self.export_names@.map_values(|n: String| name_bytes(n))
    }

    /// Appends one SERVER reply per export and then an ACK.
    pub fn put(self, out: &mut Vec<u8>)
        requires
            forall|i: int|
                0 <= i < self.export_names@.len() ==> name_bytes(#[trigger] self.export_names@[i]).len()
                    + 4 <= u32::MAX,
        ensures
            final(out)@ == old(out)@ + export_list_frames(self.names()),
    {
        let ghost names = self.names();
        let n = self.export_names.len();
        let mut i: usize = 0;
        while i < n
            invariant
                n == self.export_names@.len(),
                names == self.names(),
                0 <= i <= n,
                out@ == old(out)@ + export_entries(names.subrange(0, i as int)),
                forall|j: int|
                    0 <= j < self.export_names@.len() ==> name_bytes(#[trigger] self.export_names@[j]).len()
                        + 4 <= u32::MAX,
            decreases n - i,
        {
            let name: &[u8] = self.export_names[i].as_str().as_bytes();
            assert(name@ == names[i as int]);
            let mut data: Vec<u8> = Vec::new();
            push_u32(&mut data, name.len() as u32);
            push_bytes(&mut data, name);
            OptReply::new(OptType::LIST, ReplyType::SERVER, data).put(out);
            assert(names.subrange(0, i + 1).drop_last() =~= names.subrange(0, i as int));
            assert(out@ =~= old(out)@ + export_entries(names.subrange(0, i + 1)));
            i = i + 1;
        }
        assert(names.subrange(0, n as int) =~= names);
        OptReply::ack(OptType::LIST).put(out);
        assert(out@ =~= old(out)@ + export_list_frames(names));
    }
}

/// Relies on `String::from_utf8`: it succeeds exactly on valid UTF-8, and the
/// string then holds the characters that the bytes encode.
#[verifier::external_body]
fn utf8_string(b: Vec<u8>) -> (r: Option<String>)
    ensures
        r is Some <==> vstd::utf8::valid_utf8(b@),
        r matches Some(s) ==> s@ == vstd::utf8::decode_utf8(b@),
{
    String::from_utf8(b).ok()
}

/// Checks that `b` is UTF-8 and returns the text it encodes.
pub fn text_of(b: &[u8]) -> (r: Option<String>)
    ensures
        r is Some <==> vstd::utf8::valid_utf8(b@),
        r matches Some(s) ==> s@ == vstd::utf8::decode_utf8(b@),
{
    utf8_string(bytes_to_vec(b))
}

/// The information types listed from offset `at` of `s`, `n` of them, two
/// bytes each.
pub open spec fn parse_info_types(s: Seq<u8>, at: int, n: nat) -> Result<
    Seq<InfoType>,
    ProtocolError,
>
    decreases n,
{
    if n == 0 {
        Ok(Seq::empty())
    } else {
        match parse_info_types(s, at, (n - 1) as nat) {
            Err(e) => Err(e),
            Ok(ts) => {
                let pos = at + 2 * (n - 1);
                if s.len() < pos + 2 {
                    Err(ProtocolError::Truncated)
                } else {
                    let code = be_u16(s.subrange(pos, pos + 2));
                    match InfoType::of_code(code) {
                        None => Err(ProtocolError::UnknownInfoType(code)),
                        Some(t) => Ok(ts.push(t)),
                    }
                }
            },
        }
    }
}

/// The payload of INFO and GO: an export name and the information asked for.
pub open spec fn parse_info_request(s: Seq<u8>) -> Result<(Seq<char>, Seq<InfoType>), ProtocolError> {
    if s.len() < 4 {
        Err(ProtocolError::Truncated)
    } else {
        let name_len = be_u32(s.subrange(0, 4)) as int;
        if s.len() < 4 + name_len {
            Err(ProtocolError::Truncated)
        } else {
            let name = s.subrange(4, 4 + name_len);
            if !vstd::utf8::valid_utf8(name) {
                Err(ProtocolError::InvalidUtf8)
            } else if s.len() < 4 + name_len + 2 {
                Err(ProtocolError::Truncated)
            } else {
                let n = be_u16(s.subrange(4 + name_len, 4 + name_len + 2));
                match parse_info_types(s, 4 + name_len + 2, n as nat) {
                    Err(e) => Err(e),
                    Ok(ts) => Ok((vstd::utf8::decode_utf8(name), ts)),
                }
            }
        }
    }
}

/// What INFO or GO asks for.
#[derive(Debug, Clone)]
pub struct InfoRequest {
    /// The export that the client names; this server has only one.
    pub name: String,
    pub typs: Vec<InfoType>,
}

impl InfoRequest {
    /// Parses the payload of INFO or GO.
    pub fn get(b: &[u8]) -> (r: Result<InfoRequest, ProtocolError>)
        ensures
            match r {
                Ok(q) => parse_info_request(b@) == Ok::<(Seq<char>, Seq<InfoType>), ProtocolError>(
                    (q.name@, q.typs@),
                ),
                Err(e) => parse_info_request(b@) == Err::<(Seq<char>, Seq<InfoType>), ProtocolError>(e),
            },
    {
        if b.len() < 4 {
            return Err(ProtocolError::Truncated);
        }
        let name_len = read_u32_at(b, 0);
        if ((b.len() - 4) as u64) < name_len as u64 {
            return Err(ProtocolError::Truncated);
        }
        let name_end = 4 + name_len as usize;
        let name = match text_of(&b[4..name_end]) {
            Some(name) => name,
            None => return Err(ProtocolError::InvalidUtf8),
        };
        if b.len() - name_end < 2 {
            return Err(ProtocolError::Truncated);
        }
        let n = read_u16_at(b, name_end);
        let start = name_end + 2;
        let blen = b.len();
        let ghost name_bytes = b@.subrange(4, name_end as int);
        assert(name_bytes == b@.subrange(4, 4 + be_u32(b@.subrange(0, 4)) as int));
        let mut typs: Vec<InfoType> = Vec::new();
        let mut i: u16 = 0;
        while i < n
            invariant
                0 <= i <= n,
                blen == b@.len(),
                start <= b@.len(),
                parse_info_request(b@) == match parse_info_types(b@, start as int, n as nat) {
                    Err(e) => Err(e),
                    Ok(ts) => Ok::<(Seq<char>, Seq<InfoType>), ProtocolError>((name@, ts)),
                },
                parse_info_types(b@, start as int, i as nat) == Ok::<Seq<InfoType>, ProtocolError>(
                    typs@,
                ),
            decreases n - i,
        {
            if blen - start < 2 * (i as usize) + 2 {
                proof {
                    lemma_info_types_stop(b@, start as int, (i + 1) as nat, n as nat);
                }
                return Err(ProtocolError::Truncated);
            }
            let pos = start + 2 * (i as usize);
            let code = read_u16_at(b, pos);
            match InfoType::from_u16(code) {
                None => {
                    proof {
                        lemma_info_types_stop(b@, start as int, (i + 1) as nat, n as nat);
                    }
                    return Err(ProtocolError::UnknownInfoType(code));
                },
                Some(t) => typs.push(t),
            }
            i = i + 1;
        }
        Ok(InfoRequest { name, typs })
    }
}

/// Once listing the information types fails, listing more fails the same way.
proof fn lemma_info_types_stop(s: Seq<u8>, at: int, k: nat, n: nat)
    requires
        k <= n,
        parse_info_types(s, at, k) is Err,
    ensures
        parse_info_types(s, at, n) == parse_info_types(s, at, k),
    decreases n - k,
{
    if k < n {
        lemma_info_types_stop(s, at, k, (n - 1) as nat);
    }
}

// ---------------------------------------------------------------------------
// Transmission frames
// ---------------------------------------------------------------------------

/// The length of a request header.
pub const REQUEST_HEADER_LEN: usize = 28;

/// The length of a simple reply header.
pub const SIMPLE_REPLY_HEADER_LEN: usize = 16;

/// The fields of a request header.
pub struct RequestHeader {
    pub flags: u16,
    pub typ: Cmd,
    pub handle: u64,
    pub offset: u64,
    pub len: u32,
}

/// A request header as the client sends it.
pub open spec fn request_header_frame(h: RequestHeader) -> Seq<u8> {
    u32_be(REQUEST_MAGIC) + u16_be(h.flags) + u16_be(h.typ.code()) + u64_be(h.handle) + u64_be(
        h.offset,
    ) + u32_be(h.len)
}

/// How many payload bytes follow a request header, for a receiver whose
/// buffer holds `capacity` bytes: a WRITE's length cut down to the buffer, and
/// nothing for the other commands.
pub open spec fn payload_len(typ: Cmd, len: u32, capacity: nat) -> nat {
    if typ == Cmd::WRITE {
        if len <= capacity {
            len as nat
        } else {
            capacity
        }
    } else {
        0
    }
}

/// The request header at the start of `s`.
pub open spec fn parse_request_header(s: Seq<u8>) -> Result<RequestHeader, ProtocolError> {
    if s.len() < REQUEST_HEADER_LEN {
        Err(ProtocolError::Truncated)
    } else if be_u32(s.subrange(0, 4)) != REQUEST_MAGIC {
        Err(ProtocolError::BadMagic(be_u32(s.subrange(0, 4)) as u64))
    } else {
        let flags = be_u16(s.subrange(4, 6));
        let code = be_u16(s.subrange(6, 8));
        if !only_known_bits_u16(flags, KNOWN_CMD_FLAGS) {
            Err(ProtocolError::UnknownCommandFlags(flags))
        } else {
            match Cmd::of_code(code) {
                None => Err(ProtocolError::UnknownCommand(code)),
                Some(typ) => Ok(
                    RequestHeader {
                        flags,
                        typ,
                        handle: be_u64(s.subrange(8, 16)),
                        offset: be_u64(s.subrange(16, 24)),
                        len: be_u32(s.subrange(24, 28)),
                    },
                ),
            }
        }
    }
}

/// The request at the start of `s` with its payload, for a receiver whose
/// buffer holds `capacity` bytes.
pub open spec fn parse_request(s: Seq<u8>, capacity: nat) -> Result<
    (RequestHeader, Seq<u8>),
    ProtocolError,
> {
    match parse_request_header(s) {
        Err(e) => Err(e),
        Ok(h) => {
            let n = payload_len(h.typ, h.len, capacity);
            if s.len() < REQUEST_HEADER_LEN + n {
                Err(ProtocolError::Truncated)
            } else {
                Ok((h, s.subrange(REQUEST_HEADER_LEN as int, REQUEST_HEADER_LEN + n)))
            }
        },
    }
}

/// A request of the transmission phase. A WRITE's payload travels beside it.
#[derive(Debug, Clone, Copy, PartialEq, Eq, Structural)]
pub struct Request {
    pub flags: CmdFlags,
    pub typ: Cmd,
    pub handle: u64,
    pub offset: u64,
    /// The length to read or write.
    pub len: u32,
    /// How many payload bytes were received with this request.
    pub data_len: usize,
}

impl Request {
    /// The header fields of this request.
    pub open spec fn header(self) -> RequestHeader {
        RequestHeader {
            flags: self.flags.bits,
            typ: self.typ,
            handle: self.handle,
            offset: self.offset,
            len: self.len,
        }
    }

    /// A request with no flags and a fresh random handle. A WRITE's payload is
    /// `len` bytes long.
    pub fn new(typ: Cmd, offset: u64, len: u32) -> (r: Request)
        ensures
            r.flags.bits == 0,
            r.typ == typ,
            r.offset == offset,
            r.len == len,
            r.data_len == (if typ == Cmd::WRITE {
                len as nat
            } else {
                0
            }),
    {
        let handle = random_handle();
        let data_len: usize = if typ == Cmd::WRITE {
            len as usize
        } else {
            0
        };
        Request { flags: CmdFlags::empty(), typ, handle, offset, len, data_len }
    }

    /// Parses a request header, for a receiver whose buffer holds `capacity`
    /// bytes; `data_len` is the length of the payload that follows it.
    pub fn get_header(b: &[u8], capacity: usize) -> (r: Result<Request, ProtocolError>)
        ensures
            match r {
                Ok(q) => parse_request_header(b@) == Ok::<RequestHeader, ProtocolError>(q.header())
                    && q.data_len == payload_len(q.typ, q.len, capacity as nat),
                Err(e) => parse_request_header(b@) == Err::<RequestHeader, ProtocolError>(e),
            },
    {
        if b.len() < REQUEST_HEADER_LEN {
            return Err(ProtocolError::Truncated);
        }
        let magic = read_u32_at(b, 0);
        if magic != REQUEST_MAGIC {
            return Err(ProtocolError::BadMagic(magic as u64));
        }
        let bits = read_u16_at(b, 4);
        let code = read_u16_at(b, 6);
        let flags = match CmdFlags::from_bits(bits) {
            Some(f) => f,
            None => return Err(ProtocolError::UnknownCommandFlags(bits)),
        };
        let typ = match Cmd::from_u16(code) {
            Some(t) => t,
            None => return Err(ProtocolError::UnknownCommand(code)),
        };
        let handle = read_u64_at(b, 8);
        let offset = read_u64_at(b, 16);
        let len = read_u32_at(b, 24);
        let data_len: usize = if typ == Cmd::WRITE {
            if (len as u64) <= (capacity as u64) {
                len as usize
            } else {
                capacity
            }
        } else {
            0
        };
        Ok(Request { flags, typ, handle, offset, len, data_len })
    }

    /// Parses a request; a WRITE's payload, cut down to the length of `buf`,
    /// is copied to the start of `buf`.
    pub fn get(b: &[u8], buf: &mut [u8]) -> (r: Result<Request, ProtocolError>)
        ensures
            match r {
                Ok(q) => {
                    &&& parse_request(b@, old(buf)@.len()) == Ok::<
                        (RequestHeader, Seq<u8>),
                        ProtocolError,
                    >((q.header(), final(buf)@.subrange(0, q.data_len as int)))
                    &&& q.data_len == payload_len(q.typ, q.len, old(buf)@.len())
                    &&& final(buf)@.len() == old(buf)@.len()
                    &&& final(buf)@.subrange(q.data_len as int, old(buf)@.len() as int)
                        == old(buf)@.subrange(q.data_len as int, old(buf)@.len() as int)
                },
                Err(e) => parse_request(b@, old(buf)@.len()) == Err::<
                    (RequestHeader, Seq<u8>),
                    ProtocolError,
                >(e) && final(buf)@ == old(buf)@,
            },
    {
        let q = match Request::get_header(b, buf.len()) {
            Ok(q) => q,
            Err(e) => return Err(e),
        };
        let n = q.data_len;
        if b.len() - REQUEST_HEADER_LEN < n {
            return Err(ProtocolError::Truncated);
        }
        let blen = b.len();
        let mut i: usize = 0;
        while i < n
            invariant
                0 <= i <= n,
                blen == b@.len(),
                n <= buf@.len(),
                REQUEST_HEADER_LEN + n <= b@.len(),
                buf@.len() == old(buf)@.len(),
                forall|j: int| 0 <= j < i ==> buf@[j] == b@[REQUEST_HEADER_LEN + j],
                forall|j: int| n <= j < buf@.len() ==> buf@[j] == old(buf)@[j],
            decreases n - i,
        {
            buf[i] = b[REQUEST_HEADER_LEN + i];
            i = i + 1;
        }
        assert(buf@.subrange(0, n as int) =~= b@.subrange(
            REQUEST_HEADER_LEN as int,
            REQUEST_HEADER_LEN + n,
        ));
        assert(buf@.subrange(n as int, buf@.len() as int) =~= old(buf)@.subrange(
            n as int,
            old(buf)@.len() as int,
        ));
        Ok(q)
    }

    /// Appends this request's header and, for a WRITE, the first `data_len`
    /// bytes of `data`.
    pub fn put(self, data: &[u8], out: &mut Vec<u8>)
        requires
            self.data_len <= data@.len(),
        ensures
            final(out)@ == old(out)@ + request_header_frame(self.header()) + data@.subrange(
                0,
                self.data_len as int,
            ),
    {
        push_u32(out, REQUEST_MAGIC);
        push_u16(out, self.flags.bits());
        push_u16(out, self.typ.to_u16());
        push_u64(out, self.handle);
        push_u64(out, self.offset);
        push_u32(out, self.len);
        push_bytes(out, &data[0..self.data_len]);
        assert(final(out)@ =~= old(out)@ + request_header_frame(self.header()) + data@.subrange(
            0,
            self.data_len as int,
        ));
    }
}

/// A request header with the payload that its receiver expects parses back to
/// the same header and payload.
pub proof fn lemma_request_round_trip(h: RequestHeader, data: Seq<u8>, capacity: nat)
    requires
        only_known_bits_u16(h.flags, KNOWN_CMD_FLAGS),
        data.len() == payload_len(h.typ, h.len, capacity),
    ensures
        parse_request(request_header_frame(h) + data, capacity) == Ok::<
            (RequestHeader, Seq<u8>),
            ProtocolError,
        >((h, data)),
{
    let s = request_header_frame(h) + data;
    lemma_u32_round_trip(REQUEST_MAGIC);
    lemma_u16_round_trip(h.flags);
    lemma_u16_round_trip(h.typ.code());
    lemma_u64_round_trip(h.handle);
    lemma_u64_round_trip(h.offset);
    lemma_u32_round_trip(h.len);
    assert(s.subrange(0, 4) =~= u32_be(REQUEST_MAGIC));
    assert(s.subrange(4, 6) =~= u16_be(h.flags));
    assert(s.subrange(6, 8) =~= u16_be(h.typ.code()));
    assert(s.subrange(8, 16) =~= u64_be(h.handle));
    assert(s.subrange(16, 24) =~= u64_be(h.offset));
    assert(s.subrange(24, 28) =~= u32_be(h.len));
    assert(s.subrange(28, 28 + data.len() as int) =~= data);
    assert(Cmd::of_code(h.typ.code()) == Some(h.typ));
}

/// Relies on rand's `thread_rng().gen::<u64>()` for a request handle; any
/// value may come back.
#[verifier::external_body]
fn random_handle() -> (r: u64) {
    rand::thread_rng().gen::<u64>()
}

/// A simple reply as the server sends it.
pub open spec fn simple_reply_frame(err: ErrorType, handle: u64, data: Seq<u8>) -> Seq<u8> {
    u32_be(SIMPLE_REPLY_MAGIC) + u32_be(err.code()) + u64_be(handle) + data
}

/// The simple reply at the start of `s`, to a request that asked for `len`
/// bytes: they follow the header when the reply reports success, and nothing
/// follows an error.
pub open spec fn parse_simple_reply(s: Seq<u8>, len: nat) -> Result<
    (ErrorType, u64, Seq<u8>),
    ProtocolError,
> {
    if s.len() < SIMPLE_REPLY_HEADER_LEN {
        Err(ProtocolError::Truncated)
    } else if be_u32(s.subrange(0, 4)) != SIMPLE_REPLY_MAGIC {
        Err(ProtocolError::BadMagic(be_u32(s.subrange(0, 4)) as u64))
    } else {
        let code = be_u32(s.subrange(4, 8));
        let handle = be_u64(s.subrange(8, 16));
        match ErrorType::of_code(code) {
            None => Err(ProtocolError::UnknownErrorType(code)),
            Some(err) => if err != ErrorType::OK {
                Ok((err, handle, Seq::empty()))
            } else if s.len() < SIMPLE_REPLY_HEADER_LEN + len {
                Err(ProtocolError::Truncated)
            } else {
                Ok(
                    (
                        err,
                        handle,
                        s.subrange(SIMPLE_REPLY_HEADER_LEN as int, SIMPLE_REPLY_HEADER_LEN + len),
                    ),
                )
            },
        }
    }
}

/// The reply to one request.
#[derive(Debug, Clone)]
pub struct SimpleReply {
    pub err: ErrorType,
    /// The handle of the request that this reply answers.
    pub handle: u64,
    /// What a successful READ returns; empty otherwise.
    pub data: Vec<u8>,
}

impl SimpleReply {
    /// A successful reply to `req` carrying `data`.
    pub fn data(req: &Request, data: &[u8]) -> (r: SimpleReply)
        ensures
            r.err == ErrorType::OK,
            r.handle == req.handle,
            r.data@ == data@,
    {
        SimpleReply { err: ErrorType::OK, handle: req.handle, data: bytes_to_vec(data) }
    }

    /// A successful reply to `req` with no payload.
    pub fn ok(req: &Request) -> (r: SimpleReply)
        ensures
            r.err == ErrorType::OK,
            r.handle == req.handle,
            r.data@ == Seq::<u8>::empty(),
    {
        SimpleReply { err: ErrorType::OK, handle: req.handle, data: Vec::new() }
    }

    /// A reply to `req` that reports `err`, with no payload.
    pub fn err(err: ErrorType, req: &Request) -> (r: SimpleReply)
        ensures
            r.err == err,
            r.handle == req.handle,
            r.data@ == Seq::<u8>::empty(),
    {
        SimpleReply { err, handle: req.handle, data: Vec::new() }
    }

    /// Parses a simple reply to a request that asked for `len` bytes.
    pub fn get(b: &[u8], len: usize) -> (r: Result<SimpleReply, ProtocolError>)
        ensures
            match r {
                Ok(p) => parse_simple_reply(b@, len as nat) == Ok::<
                    (ErrorType, u64, Seq<u8>),
                    ProtocolError,
                >((p.err, p.handle, p.data@)),
                Err(e) => parse_simple_reply(b@, len as nat) == Err::<
                    (ErrorType, u64, Seq<u8>),
                    ProtocolError,
                >(e),
            },
    {
        if b.len() < SIMPLE_REPLY_HEADER_LEN {
            return Err(ProtocolError::Truncated);
        }
        let magic = read_u32_at(b, 0);
        if magic != SIMPLE_REPLY_MAGIC {
            return Err(ProtocolError::BadMagic(magic as u64));
        }
        let code = read_u32_at(b, 4);
        let handle = read_u64_at(b, 8);
        let err = match ErrorType::from_u32(code) {
            Some(e) => e,
            None => return Err(ProtocolError::UnknownErrorType(code)),
        };
        let mut data: Vec<u8> = Vec::new();
        if err == ErrorType::OK {
            if b.len() - SIMPLE_REPLY_HEADER_LEN < len {
                return Err(ProtocolError::Truncated);
            }
            data = bytes_to_vec(&b[SIMPLE_REPLY_HEADER_LEN..SIMPLE_REPLY_HEADER_LEN + len]);
        }
        Ok(SimpleReply { err, handle, data })
    }

    /// Appends this reply's frame.
    pub fn put(self, out: &mut Vec<u8>)
        ensures
            final(out)@ == old(out)@ + simple_reply_frame(self.err, self.handle, self.data@),
    {
        push_u32(out, SIMPLE_REPLY_MAGIC);
        push_u32(out, self.err.to_u32());
        push_u64(out, self.handle);
        push_bytes(out, self.data.as_slice());
        assert(final(out)@ =~= old(out)@ + simple_reply_frame(self.err, self.handle, self.data@));
    }
}

/// A simple reply parses back to the error, handle and payload it was made
/// from, when its payload is as long as the request asked for on success and
/// empty on error.
pub proof fn lemma_simple_reply_round_trip(err: ErrorType, handle: u64, data: Seq<u8>)
    requires
        err != ErrorType::OK ==> data.len() == 0,
    ensures
        parse_simple_reply(simple_reply_frame(err, handle, data), data.len()) == Ok::<
            (ErrorType, u64, Seq<u8>),
            ProtocolError,
        >((err, handle, data)),
{
    let s = simple_reply_frame(err, handle, data);
    lemma_u32_round_trip(SIMPLE_REPLY_MAGIC);
    lemma_u32_round_trip(err.code());
    lemma_u64_round_trip(handle);
    assert(s.subrange(0, 4) =~= u32_be(SIMPLE_REPLY_MAGIC));
    assert(s.subrange(4, 8) =~= u32_be(err.code()));
    assert(s.subrange(8, 16) =~= u64_be(handle));
    assert(s.subrange(16, 16 + data.len() as int) =~= data);
    assert(ErrorType::of_code(err.code()) == Some(err));
    assert(data.len() == 0 ==> data =~= Seq::<u8>::empty());
}

} // verus!
