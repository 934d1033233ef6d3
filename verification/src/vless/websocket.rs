//! The websocket handshake in front of a connection.

use vstd::prelude::*;
use vstd::string::*;
use vstd::utf8::encode_utf8;

use crate::config::parts::HeaderPair;
use crate::digest::{base64url_decode, base64url_text};
use crate::text::same_text;
use crate::web::{
    all_visible, header_name, is_header_name, lower_bytes, read_visible, visible_text,
};

verus! {

pub const MAX_WS_EARLY_DATA_LEN: usize = 2048;

pub const VLESS_HANDSHAKE_TIMEOUT_SECS: u64 = 10;

pub const VLESS_WS_MAX_MESSAGE_SIZE: usize = 0x10_0000;

pub const VLESS_WS_MAX_FRAME_SIZE: usize = 0x4_0000;

/// What comes of a handshake.
#[derive(Debug)]
pub enum WsVerdict {
    /// Go on; the client sent data ahead, and may get a header back.
    Accept { early_data: Vec<u8>, echo: Option<HeaderPair> },
    /// Answer with a status and a text.
    Reject { status: u16, body: String },
}

/// What a handshake for `requested` comes to at a listener on `path`, where the
/// header for early data is `name` and holds `value`.
pub open spec fn verdict_matches(
    requested: Seq<char>,
    path: Seq<char>,
    name: Option<Seq<char>>,
    value: Option<Seq<u8>>,
    verdict: WsVerdict,
) -> bool {
    if requested != path {
        verdict matches WsVerdict::Reject { status, body } && status == 404 && body@
            == "websocket path not found"@
    } else if name is None || value is None {
        verdict matches WsVerdict::Accept { early_data, echo } && early_data@.len() == 0
            && echo is None
    } else if !all_visible(value->0) {
        verdict matches WsVerdict::Reject { status, body } && status == 400 && body@
            == "invalid early data header"@
    } else {
        match verdict {
            WsVerdict::Accept { early_data, echo } => {
                &&& base64url_text(early_data@) == visible_text(value->0)
                &&& early_data@.len() <= MAX_WS_EARLY_DATA_LEN
                &&& echo is Some <==> is_header_name(encode_utf8(name->0))
                &&& echo matches Some(header) ==> {
                    &&& header.value@ == visible_text(value->0)
                    &&& header.name@ == lower_bytes(encode_utf8(name->0))
                }
            },
            WsVerdict::Reject { status, body } => {
                ||| {
                    &&& status == 400
                    &&& body@ == "invalid early data encoding"@
                    &&& forall|data: Seq<u8>| #[trigger]
                        base64url_text(data) != visible_text(value->0)
                }
                ||| {
                    &&& status == 413
                    &&& body@ == "early data too large"@
                    &&& exists|data: Seq<u8>| #[trigger]
                        base64url_text(data) == visible_text(value->0) && data.len()
                            > MAX_WS_EARLY_DATA_LEN
                }
            },
        }
    }
}

/// Judges a handshake: the path must be the listener's, and what the client
/// sent ahead must be base64 and not too long.
pub fn validate_ws_request(
    requested: &str,
    path: &str,
    early_data_header_name: Option<&str>,
    header_value: Option<&[u8]>,
) -> (verdict: WsVerdict)
    ensures
        verdict_matches(
            requested@,
            path@,
            match early_data_header_name {
                Some(name) => Some(name@),
                None => None,
            },
            match header_value {
                Some(value) => Some(value@),
                None => None,
            },
            verdict,
        ),
{
    if !same_text(requested, path) {
        return WsVerdict::Reject { status: 404, body: "websocket path not found".to_owned() };
    }
    match (early_data_header_name, header_value) {
        (Some(name), Some(value)) => {
            let text = match read_visible(value) {
                Some(text) => text,
                None => {
                    return WsVerdict::Reject {
                        status: 400,
                        body: "invalid early data header".to_owned(),
                    };
                },
            };
            let early_data = match base64url_decode(text.as_str()) {
                Some(data) => data,
                None => {
                    return WsVerdict::Reject {
                        status: 400,
                        body: "invalid early data encoding".to_owned(),
                    };
                },
            };
            if early_data.len() > MAX_WS_EARLY_DATA_LEN {
                return WsVerdict::Reject { status: 413, body: "early data too large".to_owned() };
            }
            let echo = match header_name(name.as_bytes()) {
                Some(name) => Some(HeaderPair { name, value: text }),
                None => None,
            };
            WsVerdict::Accept { early_data, echo }
        },
        _ => WsVerdict::Accept { early_data: Vec::new(), echo: None },
    }
}

} // verus!
