//! Requests and responses of a proxied TCP stream.

use bytes::BytesMut;
use vstd::prelude::*;
use vstd::utf8::*;

use crate::hysteria2::address::{
    address_bytes, address_round_trip, address_spec, is_plain, read_back, to_socksaddr,
};
use crate::buffer::{buffer_advance, buffer_bytes, buffer_extend, buffered};
use crate::hysteria2::error::CodecError;
use crate::hysteria2::padding::{is_alphanumeric, padding};
use crate::hysteria2::varint::{
    peek_varint, varint_bytes, varint_decode, varint_encode, varint_fits, varint_round_trip,
    varint_rest, varint_spec,
};
use crate::net::addr::{SocksAddr, Target};
use crate::text::{bytes_between, bytes_of, string_from_utf8, utf8_fault};

verus! {

pub const REQUEST_ID: u32 = 0x401;
pub const MAX_HY2_TCP_ADDR_LEN: usize = 1024;
pub const MAX_HY2_TCP_PADDING_LEN: usize = 0x4000;
pub const PADDING_MIN: u32 = 64;
pub const PADDING_MAX: u32 = 512;

/// The client's side of a proxied stream: writes requests, reads responses.
pub struct Hy2TcpCodec;

/// A response: status, message length, message, padding length, padding. A
/// status of zero means success.
#[derive(Debug)]
pub struct Hy2TcpResp {
    pub status: u8,
    pub msg: String,
}

/// The server's side: reads requests.
pub struct Hy2TcpReqCodec;

#[derive(Debug)]
pub struct Hy2TcpReq {
    pub addr: SocksAddr,
}

/// The server's side: writes responses.
pub struct Hy2TcpRespEncoder;

#[derive(Debug)]
pub struct Hy2TcpRespMsg {
    pub status: u8,
    pub msg: String,
}

impl Hy2TcpRespMsg {
    /// The response to a request that succeeded.
    pub fn ok() -> (msg: Self)
        ensures
            msg.status == 0,
            msg.msg@ == Seq::<char>::empty(),
    {
        Self { status: 0, msg: String::new() }
    }
}

/// What the front of an input holds.
pub enum Decoded {
    /// Bytes are missing.
    More,
    /// A request for a destination, and how many bytes it takes.
    Request(Target, int),
    Bad(CodecError),
}

/// The request at the front of `input`: identifier, address length, address,
/// padding length, padding.
pub open spec fn request_spec(input: Seq<u8>) -> Decoded {
    match varint_spec(input) {
        None => Decoded::More,
        Some((id, id_len)) => if id != REQUEST_ID {
            Decoded::Bad(CodecError::RequestId(id))
        } else {
            match varint_spec(input.skip(id_len)) {
                None => Decoded::More,
                Some((addr_len, addr_len_len)) => {
                    let addr_start = id_len + addr_len_len;
                    let addr_end = addr_start + addr_len;
                    if addr_len > usize::MAX {
                        Decoded::Bad(CodecError::AddressTooLong)
                    } else if addr_len > MAX_HY2_TCP_ADDR_LEN {
                        Decoded::Bad(CodecError::AddressLimit(addr_len as usize))
                    } else if input.len() < addr_end {
                        Decoded::More
                    } else {
                        padded_request_spec(input, addr_start, addr_end)
                    }
                },
            }
        },
    }
}

/// The rest of a request whose address lies between `addr_start` and `addr_end`.
pub open spec fn padded_request_spec(input: Seq<u8>, addr_start: int, addr_end: int) -> Decoded {
    match varint_spec(input.skip(addr_end)) {
        None => Decoded::More,
        Some((padding_len, padding_len_len)) => {
            let end = addr_end + padding_len_len + padding_len;
            if padding_len > usize::MAX {
                Decoded::Bad(CodecError::PaddingTooLong)
            } else if padding_len > MAX_HY2_TCP_PADDING_LEN {
                Decoded::Bad(CodecError::PaddingLimit(padding_len as usize))
            } else if input.len() < end {
                Decoded::More
            } else {
                match address_spec(input.subrange(addr_start, addr_end)) {
                    Ok(target) => Decoded::Request(target, end),
                    Err(error) => Decoded::Bad(error),
                }
            }
        },
    }
}

impl Hy2TcpReqCodec {
    /// Takes the request at the front of `src`. While bytes are missing, and
    /// where it is malformed, the buffer stays as it is.
    pub fn decode(&mut self, src: &mut BytesMut) -> (request: Result<
        Option<Hy2TcpReq>,
        CodecError,
    >)
        ensures
            match request_spec(buffered(*old(src))) {
                Decoded::More => request == Ok::<Option<Hy2TcpReq>, CodecError>(None) && buffered(
                    *final(src),
                ) == buffered(*old(src)),
                Decoded::Request(target, len) => {
                    &&& request matches Ok(Some(req))
                    &&& req.addr@ == target
                    &&& buffered(*final(src)) == buffered(*old(src)).skip(len)
                },
                Decoded::Bad(error) => request == Err::<Option<Hy2TcpReq>, CodecError>(error)
                    && buffered(*final(src)) == buffered(*old(src)),
            },
    {
        let ghost input = buffered(*src);
        let bytes: &[u8] = buffer_bytes(src);
        assert(bytes@.skip(0) =~= bytes@);
        let (id, id_len) = match peek_varint(bytes, 0) {
            Some(found) => found,
            None => {
                return Ok(None);
            },
        };
        if id != REQUEST_ID as u64 {
            return Err(CodecError::RequestId(id));
        }
        let (addr_len, addr_len_len) = match peek_varint(bytes, id_len) {
            Some(found) => found,
            None => {
                return Ok(None);
            },
        };
        if addr_len > usize::MAX as u64 {
            return Err(CodecError::AddressTooLong);
        }
        if addr_len > MAX_HY2_TCP_ADDR_LEN as u64 {
            return Err(CodecError::AddressLimit(addr_len as usize));
        }
        let addr_start: usize = id_len + addr_len_len;
        if bytes.len() - addr_start < addr_len as usize {
            return Ok(None);
        }
        let addr_end: usize = addr_start + addr_len as usize;
        assert(request_spec(input) == padded_request_spec(
            input,
            addr_start as int,
            addr_end as int,
        ));
        let (padding_len, padding_len_len) = match peek_varint(bytes, addr_end) {
            Some(found) => found,
            None => {
                return Ok(None);
            },
        };
        if padding_len > usize::MAX as u64 {
            return Err(CodecError::PaddingTooLong);
        }
        if padding_len > MAX_HY2_TCP_PADDING_LEN as u64 {
            return Err(CodecError::PaddingLimit(padding_len as usize));
        }
        let padding_start: usize = addr_end + padding_len_len;
        if bytes.len() - padding_start < padding_len as usize {
            return Ok(None);
        }
        let end: usize = padding_start + padding_len as usize;
        let addr_bytes = bytes_between(bytes, addr_start, addr_end);
        match to_socksaddr(addr_bytes.as_slice()) {
            Ok(addr) => {
                buffer_advance(src, end);
                Ok(Some(Hy2TcpReq { addr }))
            },
            Err(error) => Err(error),
        }
    }
}

/// The bytes of a request for `target` with the given padding. The length of the
/// address is written as far as 32 bits hold it.
pub open spec fn request_bytes(target: Target, padding: Seq<u8>) -> Seq<u8> {
    varint_bytes(REQUEST_ID as u64) + varint_bytes(address_bytes(target).len() as u32 as u64)
        + address_bytes(target) + varint_bytes(padding.len() as u64) + padding
}

/// The bytes of a response with the given padding. The length of the message is
/// written as far as 32 bits hold it.
pub open spec fn response_bytes(status: u8, msg: Seq<u8>, padding: Seq<u8>) -> Seq<u8> {
    seq![status] + varint_bytes(msg.len() as u32 as u64) + msg + varint_bytes(padding.len() as u64)
        + padding
}

/// A request is read back as the destination that it was written for, as the
/// textual form tells it, and exactly its bytes are taken: what follows is the
/// stream's own.
pub proof fn request_round_trip(target: Target, padding: Seq<u8>, rest: Seq<u8>)
    requires
        address_bytes(target).len() <= MAX_HY2_TCP_ADDR_LEN,
        padding.len() <= MAX_HY2_TCP_PADDING_LEN,
    ensures
        request_spec(request_bytes(target, padding) + rest) == Decoded::Request(
            read_back(target),
            request_bytes(target, padding).len() as int,
        ),
        is_plain(target) ==> read_back(target) == target,
{
    let addr = address_bytes(target);
    let id = varint_bytes(REQUEST_ID as u64);
    let addr_len = varint_bytes(addr.len() as u64);
    let padding_len = varint_bytes(padding.len() as u64);
    let input = request_bytes(target, padding) + rest;
    let tail3 = padding + rest;
    let tail2 = addr + padding_len + padding + rest;
    let tail1 = addr_len + addr + padding_len + padding + rest;
    varint_round_trip(REQUEST_ID as u64, tail1);
    varint_round_trip(addr.len() as u64, tail2);
    varint_round_trip(padding.len() as u64, tail3);
    assert(input =~= id + tail1);
    assert(input.skip(id.len() as int) =~= addr_len + tail2);
    let addr_start = (id.len() + addr_len.len()) as int;
    let addr_end = addr_start + addr.len();
    assert(input.skip(addr_end) =~= padding_len + tail3);
    assert(input.subrange(addr_start, addr_end) =~= addr);
    address_round_trip(target);
}

impl Hy2TcpCodec {
    /// Appends a request for `item`, padded with letters and digits. The server
    /// reads the destination back, whatever follows.
    pub fn encode(&mut self, item: &SocksAddr, buf: &mut BytesMut) -> (done: Result<(), CodecError>)
        ensures
            done is Ok,
            exists|padding: Seq<u8>|
                {
                    &&& 64 <= padding.len() <= 512
                    &&& forall|i: int|
                        0 <= i < padding.len() ==> is_alphanumeric(#[trigger] padding[i])
                    &&& buffered(*final(buf)) == buffered(*old(buf)) + #[trigger] request_bytes(
                        item@,
                        padding,
                    )
                    &&& address_bytes(item@).len() <= 1024 ==> forall|
                        rest: Seq<u8>,
                    |
                        request_spec(#[trigger] (request_bytes(item@, padding) + rest))
                            == Decoded::Request(
                            read_back(item@),
                            request_bytes(item@, padding).len() as int,
                        )
                },
    {
        let pad = padding(PADDING_MIN, PADDING_MAX);
        let text = item.text();
        let addr = bytes_of(text.as_str().as_bytes());
        varint_encode(REQUEST_ID, buf);
        varint_encode(addr.len() as u32, buf);
        buffer_extend(buf, addr.as_slice());
        varint_encode(pad.len() as u32, buf);
        buffer_extend(buf, pad.as_slice());
        assert(buffered(*buf) =~= buffered(*old(buf)) + request_bytes(item@, pad@));
        proof {
            if address_bytes(item@).len() <= MAX_HY2_TCP_ADDR_LEN {
                assert forall|rest: Seq<u8>|
                    request_spec(#[trigger] (request_bytes(item@, pad@) + rest))
                        == Decoded::Request(
                        read_back(item@),
                        request_bytes(item@, pad@).len() as int,
                    ) by {
                    request_round_trip(item@, pad@, rest);
                }
            }
        }
        Ok(())
    }

    /// Takes the response at the front of `src`.
    pub fn decode(&mut self, src: &mut BytesMut) -> (response: Result<
        Option<Hy2TcpResp>,
        CodecError,
    >)
        ensures
            match response_spec(buffered(*old(src))) {
                Ok((status, msg, _)) => {
                    &&& response matches Ok(Some(resp))
                    &&& resp.status == status
                    &&& resp.msg@ == msg
                },
                Err(error) => response == Err::<Option<Hy2TcpResp>, CodecError>(error),
            },
            buffered(*final(src)) == response_rest(buffered(*old(src))),
    {
        let ghost input = buffered(*src);
        if buffer_bytes(src).len() == 0 {
            return Err(CodecError::UnexpectedEof);
        }
        let status: u8 = buffer_bytes(src)[0];
        buffer_advance(src, 1);
        let ghost after_status = buffered(*src);
        proof {
            varint_fits(after_status);
        }
        let msg_len: u64 = match varint_decode(src) {
            Some(len) => len,
            None => {
                return Err(CodecError::MessageLength);
            },
        };
        let ghost len_len = (varint_spec(after_status)->0).1;
        assert(buffered(*src) =~= input.skip(1 + len_len));
        if (buffer_bytes(src).len() as u64) < msg_len {
            return Err(CodecError::UnexpectedEof);
        }
        let msg_bytes = bytes_between(buffer_bytes(src), 0, msg_len as usize);
        let ghost msg_start = 1 + len_len;
        let ghost msg_end = msg_start + msg_len;
        assert(msg_bytes@ =~= input.subrange(msg_start, msg_end));
        buffer_advance(src, msg_len as usize);
        assert(buffered(*src) =~= input.skip(msg_end));
        let msg: String = match string_from_utf8(msg_bytes) {
            Ok(msg) => msg,
            Err((at, len)) => {
                return Err(CodecError::MessageUtf8(at, len));
            },
        };
        proof {
            varint_fits(buffered(*src));
        }
        let padding_len: u64 = match varint_decode(src) {
            Some(len) => len,
            None => {
                return Err(CodecError::UnexpectedEof);
            },
        };
        if (buffer_bytes(src).len() as u64) < padding_len {
            return Err(CodecError::UnexpectedEof);
        }
        buffer_advance(src, padding_len as usize);
        assert(buffered(*src) =~= input.skip(
            msg_end + (varint_spec(input.skip(msg_end))->0).1 + padding_len,
        ));
        Ok(Some(Hy2TcpResp { status, msg }))
    }
}

/// The response at the front of `input`: its status, its message and its length.
pub open spec fn response_spec(input: Seq<u8>) -> Result<(u8, Seq<char>, int), CodecError> {
    if input.len() == 0 {
        Err(CodecError::UnexpectedEof)
    } else {
        match varint_spec(input.skip(1)) {
            None => Err(CodecError::MessageLength),
            Some((msg_len, len_len)) => {
                let msg_start = 1 + len_len;
                let msg_end = msg_start + msg_len;
                let msg = input.subrange(msg_start, msg_end);
                if input.len() < msg_end {
                    Err(CodecError::UnexpectedEof)
                } else if !valid_utf8(msg) {
                    let (at, len) = utf8_fault(msg);
                    Err(CodecError::MessageUtf8(at, len))
                } else {
                    match varint_spec(input.skip(msg_end)) {
                        None => Err(CodecError::UnexpectedEof),
                        Some((padding_len, padding_len_len)) => {
                            let end = msg_end + padding_len_len + padding_len;
                            if input.len() < end {
                                Err(CodecError::UnexpectedEof)
                            } else {
                                Ok((input[0], decode_utf8(msg), end))
                            }
                        },
                    }
                }
            },
        }
    }
}

/// What is left once reading a response has come to an end: what follows it, or
/// what stands behind the place where reading broke off.
pub open spec fn response_rest(input: Seq<u8>) -> Seq<u8> {
    if input.len() == 0 {
        input
    } else {
        match varint_spec(input.skip(1)) {
            None => varint_rest(input.skip(1)),
            Some((msg_len, len_len)) => {
                let msg_start = 1 + len_len;
                let msg_end = msg_start + msg_len;
                if input.len() < msg_end {
                    input.skip(msg_start)
                } else if !valid_utf8(input.subrange(msg_start, msg_end)) {
                    input.skip(msg_end)
                } else {
                    match response_spec(input) {
                        Ok((_, _, end)) => input.skip(end),
                        Err(_) => varint_rest(input.skip(msg_end)),
                    }
                }
            },
        }
    }
}

/// A response is read back with its status and message, and exactly its bytes
/// are taken.
pub proof fn response_round_trip(status: u8, msg: Seq<char>, padding: Seq<u8>, rest: Seq<u8>)
    requires
        encode_utf8(msg).len() <= u32::MAX,
        padding.len() <= u32::MAX,
    ensures
        response_spec(response_bytes(status, encode_utf8(msg), padding) + rest) == Ok::<
            (u8, Seq<char>, int),
            CodecError,
        >((status, msg, response_bytes(status, encode_utf8(msg), padding).len() as int)),
{
    let bytes = encode_utf8(msg);
    encode_utf8_valid_utf8(msg);
    encode_utf8_decode_utf8(msg);
    let msg_len = varint_bytes(bytes.len() as u64);
    let padding_len = varint_bytes(padding.len() as u64);
    let input = response_bytes(status, bytes, padding) + rest;
    let tail2 = padding + rest;
    let tail1 = bytes + padding_len + padding + rest;
    varint_round_trip(bytes.len() as u64, tail1);
    varint_round_trip(padding.len() as u64, tail2);
    assert(input.skip(1) =~= msg_len + tail1);
    let msg_start = 1 + msg_len.len() as int;
    let msg_end = msg_start + bytes.len();
    assert(input.subrange(msg_start, msg_end) =~= bytes);
    assert(input.skip(msg_end) =~= padding_len + tail2);
}

impl Hy2TcpRespEncoder {
    /// Appends a response. The client reads back its status and message.
    pub fn encode(&mut self, item: Hy2TcpRespMsg, buf: &mut BytesMut) -> (done: Result<
        (),
        CodecError,
    >)
        ensures
            done is Ok,
            exists|padding: Seq<u8>|
                {
                    &&& 64 <= padding.len() <= 512
                    &&& forall|i: int|
                        0 <= i < padding.len() ==> is_alphanumeric(#[trigger] padding[i])
                    &&& buffered(*final(buf)) == buffered(*old(buf)) + #[trigger] response_bytes(
                        item.status,
                        encode_utf8(item.msg@),
                        padding,
                    )
                },
    {
        let pad = padding(PADDING_MIN, PADDING_MAX);
        let msg = bytes_of(item.msg.as_str().as_bytes());
        let status: [u8; 1] = [item.status];
        assert(status@ =~= seq![item.status]);
        buffer_extend(buf, &status);
        varint_encode(msg.len() as u32, buf);
        buffer_extend(buf, msg.as_slice());
        varint_encode(pad.len() as u32, buf);
        buffer_extend(buf, pad.as_slice());
        assert(buffered(*buf) =~= buffered(*old(buf)) + response_bytes(
            item.status,
            encode_utf8(item.msg@),
            pad@,
        ));
        Ok(())
    }
}

} // verus!
