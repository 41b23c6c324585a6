//! The wire format: parsing and building the six kinds of packet.

use crate::buffer;
use crate::buffer::{be16, be16_bytes, contents, max_len, written};
use crate::error;
use crate::options::{
    apply_pair, find_nul, lemma_apply_no_number, lemma_nul_from_is, lemma_options_round_trip,
    lemma_parse_from_shift, nul_from, options_bytes, parse_from, parse_options, Options,
    OptionsView,
};
use crate::text::{
    ascii_lower_char, ascii_lowercase, decoded_text, from_utf8, is_digit, lemma_text_no_nul,
    lowered_text, no_nul, str_eq, to_lowercase, utf8_error_text,
};
use crate::OpCode;
use bytes::Bytes;
use vstd::prelude::*;
use vstd::slice::{slice_subrange, slice_to_vec};
use vstd::utf8::*;

verus! {

/// What a `Request` holds.
pub struct RequestView {
    pub op_code: OpCode,
    pub filename: Seq<char>,
    pub mode: Seq<char>,
    pub options: OptionsView,
}

/// A read or write request: the packet that opens a transfer.
#[derive(Debug)]
pub struct Request {
    op_code: OpCode,
    filename: String,
    mode: String,
    options: Options,
}

impl View for Request {
    type V = RequestView;

    closed spec fn view(&self) -> RequestView {
        RequestView {
            op_code: self.op_code,
            filename: self.filename@,
            mode: self.mode@,
            options: self.options@,
        }
    }
}

impl Request {
    /// A request to read `filename` from the peer.
    pub fn rrq(filename: &str, mode: &str, options: &Options) -> (req: Request)
        ensures
            req@ == (RequestView {
                op_code: OpCode::Rrq,
                filename: filename@,
                mode: mode@,
                options: options@,
            }),
    {
        Request {
            op_code: OpCode::Rrq,
            filename: filename.to_owned(),
            mode: mode.to_owned(),
            options: *options,
        }
    }

    /// A request to write `filename` to the peer.
    pub fn wrq(filename: &str, mode: &str, options: &Options) -> (req: Request)
        ensures
            req@ == (RequestView {
                op_code: OpCode::Wrq,
                filename: filename@,
                mode: mode@,
                options: options@,
            }),
    {
        Request {
            op_code: OpCode::Wrq,
            filename: filename.to_owned(),
            mode: mode.to_owned(),
            options: *options,
        }
    }

    pub fn op_code(&self) -> (op_code: &OpCode)
        ensures
            *op_code == self@.op_code,
    {
        &self.op_code
    }

    pub fn filename(&self) -> (filename: &str)
        ensures
            filename@ == self@.filename,
    {
        self.filename.as_str()
    }

    pub fn mode(&self) -> (mode: &str)
        ensures
            mode@ == self@.mode,
    {
        self.mode.as_str()
    }

    pub fn options(&self) -> (options: &Options)
        ensures
            options@ == self@.options,
    {
        &self.options
    }

    pub fn options_mut(&mut self) -> (options: &mut Options)
        ensures
            options@ == old(self)@.options,
            final(self)@ == (RequestView { options: final(options)@, ..old(self)@ }),
    {
        &mut self.options
    }
}

/// What an `Error` packet holds.
pub struct ErrorView {
    pub error_code: u16,
    pub message: Seq<char>,
}

/// The content of an ERROR packet.
pub struct Error {
    error_code: u16,
    message: String,
}

impl View for Error {
    type V = ErrorView;

    closed spec fn view(&self) -> ErrorView {
        ErrorView { error_code: self.error_code, message: self.message@ }
    }
}

impl Error {
    pub fn error_code(&self) -> (error_code: u16)
        ensures
            error_code == self@.error_code,
    {
        self.error_code
    }

    pub fn message(&self) -> (message: &str)
        ensures
            message@ == self@.message,
    {
        self.message.as_str()
    }
}

/// The bytes in front of the first NUL, or all of them.
pub open spec fn first_field(s: Seq<u8>) -> Seq<u8> {
    s.subrange(0, nul_from(s, 0))
}

/// There is a NUL, so a second field begins behind it.
pub open spec fn has_second_field(s: Seq<u8>) -> bool {
    nul_from(s, 0) < s.len()
}

/// The bytes between the first NUL and the second, or the end.
pub open spec fn second_field(s: Seq<u8>) -> Seq<u8> {
    s.subrange(nul_from(s, 0) + 1, nul_from(s, nul_from(s, 0) + 1))
}

/// The transfer mode, in lower case, is one that a request may name.
pub open spec fn mode_accepted(lower: Seq<char>) -> bool {
    lower == "netascii"@ || lower == "octet"@ || lower == "mail"@
}

/// The kind that the first two bytes of a packet name.
pub open spec fn packet_opcode(b: Seq<u8>) -> Option<OpCode> {
    OpCode::spec_from_code(be16(b[0], b[1]))
}

/// The request that a packet holds, where it holds one: six bytes or more,
/// a known kind, a file name and a mode in UTF-8, the mode an accepted one.
pub open spec fn parsed_request(b: Seq<u8>) -> Option<RequestView> {
    let rest = b.skip(2);
    if b.len() >= 6 && packet_opcode(b) is Some && valid_utf8(first_field(rest))
        && has_second_field(rest) && valid_utf8(second_field(rest)) && mode_accepted(
        lowered_text(decode_utf8(second_field(rest))),
    ) {
        Some(
            RequestView {
                op_code: packet_opcode(b)->0,
                filename: decode_utf8(first_field(rest)),
                mode: decode_utf8(second_field(rest)),
                options: parse_options(rest),
            },
        )
    } else {
        None
    }
}

/// The content of an ERROR packet, where the bytes behind the opcode hold
/// one: three bytes or more, the message in UTF-8.
pub open spec fn parsed_error(b: Seq<u8>) -> Option<ErrorView> {
    if b.len() >= 3 && valid_utf8(first_field(b.skip(2))) {
        Some(
            ErrorView {
                error_code: be16(b[0], b[1]),
                message: decode_utf8(first_field(b.skip(2))),
            },
        )
    } else {
        None
    }
}

/// The failure with which bytes that hold no request are refused. The
/// checks are made in the order of the packet: its length, its opcode, its
/// file name, its mode.
pub open spec fn request_failure(b: Seq<u8>, e: error::Error) -> bool {
    let rest = b.skip(2);
    if b.len() < 6 {
        e is InvalidPacketLength
    } else if packet_opcode(b) is None {
        e is InvalidOpCode
    } else if !valid_utf8(first_field(rest)) {
        e is Utf8
    } else if !has_second_field(rest) {
        e is MissingMode
    } else if !valid_utf8(second_field(rest)) {
        e is Utf8
    } else {
        e is InvalidMode
    }
}

/// The failure with which bytes that hold no content of an ERROR packet
/// are refused.
pub open spec fn error_failure(b: Seq<u8>, e: error::Error) -> bool {
    if b.len() < 3 {
        e is InvalidPacketLength
    } else {
        e is Utf8
    }
}

/// An ACK packet.
pub open spec fn ack_bytes(blocknum: u16) -> Seq<u8> {
    be16_bytes(4) + be16_bytes(blocknum)
}

/// A DATA packet.
pub open spec fn data_bytes(blocknum: u16, payload: Seq<u8>) -> Seq<u8> {
    be16_bytes(3) + be16_bytes(blocknum) + payload
}

/// An ERROR packet.
pub open spec fn error_bytes(code: u16, message: Seq<u8>) -> Seq<u8> {
    be16_bytes(5) + be16_bytes(code) + message + seq![0u8]
}

/// An OACK packet.
pub open spec fn oack_bytes(options: OptionsView) -> Seq<u8> {
    be16_bytes(6) + options_bytes(options)
}

/// A request packet.
pub open spec fn request_bytes(req: RequestView) -> Seq<u8> {
    be16_bytes(req.op_code.spec_code()) + encode_utf8(req.filename) + seq![0u8] + encode_utf8(
        req.mode,
    ) + seq![0u8] + options_bytes(req.options)
}

/// The accepted modes are made of small ASCII letters, four at least.
pub proof fn lemma_mode_letters(lower: Seq<char>)
    requires
        mode_accepted(lower),
    ensures
        lower.len() >= 4,
        forall|i: int| 0 <= i < lower.len() ==> 'a' <= #[trigger] lower[i] <= 'z',
{
    reveal_strlit("netascii");
    reveal_strlit("octet");
    reveal_strlit("mail");
}

/// The bytes of an ASCII mode that is accepted: one letter for each
/// character, so no NUL among them and no number at their head.
pub proof fn lemma_mode_bytes(mode: Seq<char>)
    requires
        is_ascii_chars(mode),
        mode_accepted(lowered_text(mode)),
    ensures
        encode_utf8(mode).len() >= 4,
        forall|i: int| 0 <= i < encode_utf8(mode).len() ==> #[trigger] encode_utf8(mode)[i] != 0,
        encode_utf8(mode)[0] != 43,
        !is_digit(encode_utf8(mode)[0]),
{
    let lower = ascii_lowercase(mode);
    lemma_mode_letters(lower);
    is_ascii_chars_encode_utf8(mode);
    let m = encode_utf8(mode);
    assert forall|i: int| 0 <= i < m.len() implies 65 <= #[trigger] m[i] <= 122 by {
        assert('a' <= lower[i] <= 'z');
        assert(lower[i] == ascii_lower_char(mode[i]));
        assert(m[i] == mode[i] as u8);
    }
    assert(65 <= m[0] <= 122);
}

/// The two fields at the head of a byte string: what stands in front of
/// the first NUL, and what stands between it and the second.
pub proof fn lemma_two_fields(f: Seq<u8>, m: Seq<u8>, tail: Seq<u8>)
    requires
        forall|i: int| 0 <= i < f.len() ==> f[i] != 0,
        forall|i: int| 0 <= i < m.len() ==> m[i] != 0,
    ensures
        nul_from(f + seq![0u8] + m + seq![0u8] + tail, 0) == f.len(),
        nul_from(f + seq![0u8] + m + seq![0u8] + tail, f.len() as int + 1) == f.len() + 1 + m.len(),
        first_field(f + seq![0u8] + m + seq![0u8] + tail) == f,
        has_second_field(f + seq![0u8] + m + seq![0u8] + tail),
        second_field(f + seq![0u8] + m + seq![0u8] + tail) == m,
{
    let s = f + seq![0u8] + m + seq![0u8] + tail;
    let k = f.len() as int;
    let v = k + 1 + m.len();
    assert forall|j: int| 0 <= j < k implies s[j] != 0 by {
        assert(s[j] == f[j]);
    }
    assert(s[k] == 0);
    lemma_nul_from_is(s, 0, k);
    assert forall|j: int| k + 1 <= j < v implies s[j] != 0 by {
        assert(s[j] == m[j - k - 1]);
    }
    assert(s[v] == 0);
    lemma_nul_from_is(s, k + 1, v);
    assert(s.subrange(0, k) =~= f);
    assert(s.subrange(k + 1, v) =~= m);
}

/// What follows the opcode in a request packet.
pub open spec fn request_body(req: RequestView) -> Seq<u8> {
    encode_utf8(req.filename) + seq![0u8] + encode_utf8(req.mode) + seq![0u8] + options_bytes(
        req.options,
    )
}

/// The head of a request packet is its opcode; the body follows.
pub proof fn lemma_request_head(r: RequestView)
    ensures
        request_bytes(r).len() == 2 + request_body(r).len(),
        request_bytes(r).skip(2) == request_body(r),
        packet_opcode(request_bytes(r)) == Some(r.op_code),
{
    let code = r.op_code.spec_code();
    let b = request_bytes(r);
    assert(b =~= be16_bytes(code) + request_body(r));
    assert(b.skip(2) =~= request_body(r));
    assert(b[0] == (code / 256) as u8 && b[1] == (code % 256) as u8);
}

/// The options of a request are read from behind its file name and mode,
/// which are themselves read as a name and a value that change nothing.
pub proof fn lemma_request_options(f: Seq<u8>, m: Seq<u8>, o: OptionsView)
    requires
        forall|i: int| 0 <= i < f.len() ==> f[i] != 0,
        forall|i: int| 0 <= i < m.len() ==> m[i] != 0,
        m.len() > 0,
        m[0] != 43,
        !is_digit(m[0]),
        encode_utf8(decoded_text(m)) == m,
        o.in_range(),
    ensures
        parse_options(f + seq![0u8] + m + seq![0u8] + options_bytes(o)) == o,
{
    let tail = options_bytes(o);
    let rest = f + seq![0u8] + m + seq![0u8] + tail;
    let head = f + seq![0u8] + m + seq![0u8];
    let none = OptionsView::none();
    let k = f.len() as int;
    let v = k + 1 + m.len();
    lemma_two_fields(f, m, tail);
    lemma_apply_no_number(none, lowered_text(decoded_text(f)), m);
    assert(apply_pair(none, f, m) == none);
    assert(rest =~= head + tail);
    assert(head.len() == v + 1);
    lemma_parse_from_shift(head, tail, 0, none);
    lemma_options_round_trip(o);
    assert(parse_from(rest, 0, none) == parse_from(rest, v + 1, none));
}

/// Codec round trip: a request whose fields are in range is read back
/// from its packet as it was written. In range means: no NUL in the file
/// name, an accepted mode in ASCII, and option values that a peer accepts.
pub proof fn lemma_request_round_trip(r: RequestView)
    requires
        no_nul(r.filename),
        is_ascii_chars(r.mode),
        mode_accepted(lowered_text(r.mode)),
        r.options.in_range(),
    ensures
        parsed_request(request_bytes(r)) == Some(r),
{
    let f = encode_utf8(r.filename);
    let m = encode_utf8(r.mode);
    lemma_request_head(r);
    lemma_mode_bytes(r.mode);
    lemma_text_no_nul(r.filename);
    lemma_two_fields(f, m, options_bytes(r.options));
    encode_utf8_valid_utf8(r.filename);
    encode_utf8_decode_utf8(r.filename);
    encode_utf8_valid_utf8(r.mode);
    encode_utf8_decode_utf8(r.mode);
    lemma_request_options(f, m, r.options);
}

/// Reads a block number, two bytes in network byte order, off the front of
/// the buffer.
pub fn parse_blocknum(buf: &mut Bytes) -> (r: Result<u16, error::Error>)
    ensures
        contents(*old(buf)).len() < 2 ==> (r matches Err(error::Error::InvalidPacketLength))
            && contents(*final(buf)) == contents(*old(buf)),
        contents(*old(buf)).len() >= 2 ==> r == Ok::<u16, error::Error>(
            be16(contents(*old(buf))[0], contents(*old(buf))[1]),
        ) && contents(*final(buf)) == contents(*old(buf)).skip(2),
{
    if buffer::len(buf) < 2 {
        return Err(error::Error::InvalidPacketLength);
    }
    Ok(buffer::get_u16(buf))
}

/// Reads the content of an ERROR packet, from behind its opcode: the code,
/// then the message up to the first NUL.
pub fn parse_error(buf: &mut Bytes) -> (r: Result<Error, error::Error>)
    ensures
        r matches Ok(e) ==> parsed_error(contents(*old(buf))) == Some(e@),
        r matches Err(e) ==> parsed_error(contents(*old(buf))) is None && error_failure(
            contents(*old(buf)),
            e,
        ),
        contents(*final(buf)) == if contents(*old(buf)).len() < 3 {
            contents(*old(buf))
        } else {
            contents(*old(buf)).skip(2)
        },
{
    if buffer::len(buf) < 3 {
        return Err(error::Error::InvalidPacketLength);
    }
    let error_code = buffer::get_u16(buf);
    let s = buffer::as_slice(buf);
    let end = find_nul(s, 0);
    match from_utf8(slice_to_vec(slice_subrange(s, 0, end))) {
        Ok(message) => Ok(Error { error_code, message }),
        Err(e) => Err(error::Error::Utf8(utf8_error_text(&e))),
    }
}

/// Reads the options of an OACK packet, from behind its opcode.
pub fn parse_oack(buf: &mut Bytes) -> (r: Result<Options, error::Error>)
    ensures
        r matches Ok(options) && options@ == parse_options(contents(*old(buf))),
        contents(*final(buf)) == contents(*old(buf)),
{
    Ok(Options::from(buf))
}

/// Reads the opcode off the front of the buffer. A number that names no
/// kind of packet gives `None`.
pub fn parse_opcode(buf: &mut Bytes) -> (r: Result<Option<OpCode>, error::Error>)
    ensures
        contents(*old(buf)).len() < 2 ==> (r matches Err(error::Error::InvalidPacketLength))
            && contents(*final(buf)) == contents(*old(buf)),
        contents(*old(buf)).len() >= 2 ==> r == Ok::<Option<OpCode>, error::Error>(
            packet_opcode(contents(*old(buf))),
        ) && contents(*final(buf)) == contents(*old(buf)).skip(2),
{
    if buffer::len(buf) < 2 {
        return Err(error::Error::InvalidPacketLength);
    }
    Ok(OpCode::from_code(buffer::get_u16(buf)))
}

/// The mode, already in lower case, is one that a request may name.
pub fn accepted_mode(lower: &str) -> (r: bool)
    ensures
        r == mode_accepted(lower@),
{
    str_eq(lower, "netascii") || str_eq(lower, "octet") || str_eq(lower, "mail")
}

/// Reads a request: the opcode, the file name, the mode, the options.
pub fn parse_request(buf: &mut Bytes) -> (r: Result<Request, error::Error>)
    ensures
        r matches Ok(req) ==> parsed_request(contents(*old(buf))) == Some(req@),
        r matches Err(e) ==> parsed_request(contents(*old(buf))) is None && request_failure(
            contents(*old(buf)),
            e,
        ),
        contents(*final(buf)) == if contents(*old(buf)).len() < 6 {
            contents(*old(buf))
        } else {
            contents(*old(buf)).skip(2)
        },
{
    if buffer::len(buf) < 6 {
        return Err(error::Error::InvalidPacketLength);
    }
    let op_code = match OpCode::from_code(buffer::get_u16(buf)) {
        Some(op_code) => op_code,
        None => {
            return Err(error::Error::InvalidOpCode);
        },
    };
    let s = buffer::as_slice(buf);
    let name_end = find_nul(s, 0);
    let filename = match from_utf8(slice_to_vec(slice_subrange(s, 0, name_end))) {
        Ok(filename) => filename,
        Err(e) => {
            return Err(error::Error::Utf8(utf8_error_text(&e)));
        },
    };
    if name_end >= s.len() {
        return Err(error::Error::MissingMode);
    }
    let mode_end = find_nul(s, name_end + 1);
    let mode = match from_utf8(slice_to_vec(slice_subrange(s, name_end + 1, mode_end))) {
        Ok(mode) => mode,
        Err(e) => {
            return Err(error::Error::Utf8(utf8_error_text(&e)));
        },
    };
    let lower = to_lowercase(mode.as_str());
    if !accepted_mode(lower.as_str()) {
        return Err(error::Error::InvalidMode);
    }
    let options = Options::parse(s);
    Ok(Request { op_code, filename, mode, options })
}

/// Builds an ACK packet.
pub fn ack(blocknum_ack: u16) -> (bytes: Bytes)
    ensures
        contents(bytes) == ack_bytes(blocknum_ack),
{
    let mut bytes = buffer::new_buffer();
    buffer::put_u16(&mut bytes, OpCode::Ack.code());
    buffer::put_u16(&mut bytes, blocknum_ack);
    buffer::freeze(bytes)
}

/// Builds a DATA packet. No byte follows the payload.
pub fn data(num: u16, payload: &[u8]) -> (bytes: Bytes)
    requires
        4 + payload@.len() <= max_len(),
    ensures
        contents(bytes) == data_bytes(num, payload@),
{
    let mut bytes = buffer::new_buffer();
    buffer::put_u16(&mut bytes, OpCode::Data.code());
    buffer::put_u16(&mut bytes, num);
    buffer::put(&mut bytes, payload);
    buffer::freeze(bytes)
}

/// Builds the ERROR packet that tells a peer of a failure.
pub fn error(err: error::Error) -> (bytes: Bytes)
    requires
        5 + err.spec_text().len() <= max_len(),
    ensures
        contents(bytes) == error_bytes(err.spec_error_code().spec_code(), err.spec_text()),
{
    let mut bytes = buffer::new_buffer();
    buffer::put_u16(&mut bytes, OpCode::Error.code());
    buffer::put_u16(&mut bytes, err.error_code().code());
    let text = err.text();
    buffer::put(&mut bytes, text.as_slice());
    buffer::put_u8(&mut bytes, 0);
    buffer::freeze(bytes)
}

/// Builds an OACK packet.
pub fn oack(options: &Options) -> (bytes: Bytes)
    ensures
        contents(bytes) == oack_bytes(options@),
{
    let mut bytes = buffer::new_buffer();
    buffer::put_u16(&mut bytes, OpCode::Oack.code());
    let list = options.as_bytes();
    buffer::put(&mut bytes, buffer::as_slice(&list));
    buffer::freeze(bytes)
}

/// Builds a request packet.
pub fn request(req: &Request) -> (bytes: Bytes)
    requires
        request_bytes(req@).len() <= max_len(),
    ensures
        contents(bytes) == request_bytes(req@),
{
    let mut bytes = buffer::new_buffer();
    buffer::put_u16(&mut bytes, req.op_code().code());
    buffer::put(&mut bytes, req.filename().as_bytes());
    buffer::put_u8(&mut bytes, 0);
    buffer::put(&mut bytes, req.mode().as_bytes());
    buffer::put_u8(&mut bytes, 0);
    let list = req.options().as_bytes();
    buffer::put(&mut bytes, buffer::as_slice(&list));
    assert(written(bytes) =~= request_bytes(req@));
    buffer::freeze(bytes)
}

} // verus!
