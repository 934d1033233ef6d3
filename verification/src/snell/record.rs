//! Records: the framing of a Snell stream in its three modes.
//!
//! A writer turns payloads into bytes, a reader turns bytes back into
//! payloads. Neither performs I/O: the writer returns what is to be sent, the
//! reader is handed what has arrived.

use vstd::prelude::*;
use vstd::string::*;

use crate::snell::cipher::{aes128gcm_open, decrypt, make_cipher, next_nonce, stream_key};
use crate::snell::error::SnellError;
use crate::snell::profile::Profile;
use crate::text::{bytes_between, same_text};

verus! {

pub const HEADER_VERSION: u8 = 4;

pub const MAX_PAYLOAD: usize = 0xffff;

#[derive(Clone, Copy, Debug, PartialEq, Eq, Structural)]
pub enum Mode {
    Default,
    Unshaped,
    UnsafeRaw,
}

impl Mode {
    pub open spec fn parse_spec(value: Seq<char>) -> Option<Mode> {
        if value == ""@ || value == "default"@ {
            Some(Mode::Default)
        } else if value == "unshaped"@ {
            Some(Mode::Unshaped)
        } else if value == "unsafe-raw"@ {
            Some(Mode::UnsafeRaw)
        } else {
            None
        }
    }

    pub fn parse(value: &str) -> (mode: Result<Self, SnellError>)
        ensures
            match mode {
                Ok(m) => Self::parse_spec(value@) == Some(m),
                Err(SnellError::UnknownMode(text)) => {
                    Self::parse_spec(value@) is None && text@ == value@
                },
                Err(_) => false,
            },
    {
        if same_text(value, "") || same_text(value, "default") {
            Ok(Mode::Default)
        } else if same_text(value, "unshaped") {
            Ok(Mode::Unshaped)
        } else if same_text(value, "unsafe-raw") {
            Ok(Mode::UnsafeRaw)
        } else {
            Err(SnellError::UnknownMode(value.to_owned()))
        }
    }
}

/// The plain header of a record: version, two reserved zeros, and the lengths
/// of padding and payload, big-endian.
pub open spec fn header_spec(padding_len: int, payload_len: int) -> Seq<u8> {
    seq![
        HEADER_VERSION,
        0u8,
        0u8,
        (padding_len / 256) as u8,
        (padding_len % 256) as u8,
        (payload_len / 256) as u8,
        (payload_len % 256) as u8,
    ]
}

pub fn header(padding_len: usize, payload_len: usize) -> (bytes: [u8; 7])
    requires
        padding_len <= 0xffff,
        payload_len <= 0xffff,
    ensures
        bytes@ == header_spec(padding_len as int, payload_len as int),
{
    let bytes: [u8; 7] = [
        HEADER_VERSION,
        0,
        0,
        (padding_len / 256) as u8,
        (padding_len % 256) as u8,
        (payload_len / 256) as u8,
        (payload_len % 256) as u8,
    ];
    assert(bytes@ =~= header_spec(padding_len as int, payload_len as int));
    bytes
}

/// The padding and payload lengths in a header, or what is wrong with it.
pub open spec fn parse_header_spec(header: Seq<u8>, strict_reserved: bool) -> Result<
    (int, int),
    SnellError,
> {
    if header.len() != 7 || header[0] != HEADER_VERSION {
        Err(SnellError::RecordVersion)
    } else if strict_reserved && (header[1] != 0 || header[2] != 0) {
        Err(SnellError::ReservedBytes)
    } else {
        Ok((header[3] * 256 + header[4], header[5] * 256 + header[6]))
    }
}

pub fn parse_header(header: &[u8], strict_reserved: bool) -> (lens: Result<
    (usize, usize),
    SnellError,
>)
    ensures
        match lens {
            Ok((padding, payload)) => {
                &&& parse_header_spec(header@, strict_reserved) == Ok::<(int, int), SnellError>(
                    (padding as int, payload as int),
                )
                &&& padding <= 0xffff
                &&& payload <= 0xffff
            },
            Err(error) => parse_header_spec(header@, strict_reserved) == Err::<
                (int, int),
                SnellError,
            >(error),
        },
{
    if header.len() != 7 || header[0] != HEADER_VERSION {
        Err(SnellError::RecordVersion)
    } else if strict_reserved && (header[1] != 0 || header[2] != 0) {
        Err(SnellError::ReservedBytes)
    } else {
        Ok(
            (
                header[3] as usize * 256 + header[4] as usize,
                header[5] as usize * 256 + header[6] as usize,
            ),
        )
    }
}

/// A header that was written is read back with the same lengths, under either
/// reading of the reserved bytes.
pub proof fn header_round_trip(padding_len: int, payload_len: int, strict_reserved: bool)
    requires
        0 <= padding_len <= 0xffff,
        0 <= payload_len <= 0xffff,
    ensures
        parse_header_spec(header_spec(padding_len, payload_len), strict_reserved) == Ok::<
            (int, int),
            SnellError,
        >((padding_len, payload_len)),
{
}

/// One direction of a stream, as its reader sees it.
#[verifier::ext_equal]
pub struct Incoming {
    pub mode: Mode,
    pub psk: Seq<u8>,
    pub profile: Option<Profile>,
    pub key: Option<Seq<u8>>,
    pub nonce: Seq<u8>,
    pub sequence: u32,
}

/// What the front of an input holds.
pub enum Reading {
    /// Bytes are missing.
    More,
    /// A record: its payload, how many bytes it takes, and the stream after it.
    Record(Seq<u8>, int, Incoming),
    /// The record that ends a stream.
    End(int, Incoming),
    /// No record, and the stream as far as it was read.
    Bad(SnellError, Incoming),
}

impl Incoming {
    pub open spec fn wf(self) -> bool {
        &&& self.mode == Mode::Default ==> self.profile is Some
        &&& self.profile matches Some(profile) ==> profile.wf()
        &&& self.nonce.len() == 12
        &&& self.key matches Some(key) ==> key.len() == 16
    }

    /// Bytes in front of the first record.
    pub open spec fn opening_len(self) -> int {
        if self.key is Some {
            0
        } else {
            match self.mode {
                Mode::UnsafeRaw => 0,
                Mode::Unshaped => 16,
                Mode::Default => self.profile->0.salt_block_len as int,
            }
        }
    }

    /// The salt in the bytes in front of the first record.
    pub open spec fn opening_salt(self, input: Seq<u8>) -> Seq<u8> {
        let block = input.take(self.opening_len());
        if self.mode == Mode::Default {
            self.profile->0.salt_of(block)
        } else {
            block
        }
    }

    /// The key of the stream, from what it knows or from its opening bytes.
    pub open spec fn key_for(self, input: Seq<u8>) -> Option<Seq<u8>> {
        match self.key {
            Some(key) => Some(key),
            None => stream_key(self.psk, self.opening_salt(input)),
        }
    }

    /// Reads a record of a stream without encryption.
    pub open spec fn read_raw_spec(self, input: Seq<u8>) -> Reading {
        if input.len() < 7 {
            Reading::More
        } else {
            match parse_header_spec(input.take(7), true) {
                Err(error) => Reading::Bad(error, self),
                Ok((padding, payload)) => if padding != 0 {
                    Reading::Bad(SnellError::RawPadding, self)
                } else if payload == 0 {
                    Reading::End(7, self)
                } else if input.len() < 7 + payload {
                    Reading::More
                } else {
                    Reading::Record(input.subrange(7, 7 + payload), 7 + payload, self)
                },
            }
        }
    }

    /// Reads an encrypted record that starts at `start`.
    pub open spec fn read_unshaped_spec(self, key: Seq<u8>, start: int, input: Seq<u8>) -> Reading {
        let body_start = start + 23;
        let opened = Incoming { key: Some(key), ..self };
        let after_header = Incoming { nonce: next_nonce(self.nonce), ..opened };
        if input.len() < body_start {
            Reading::More
        } else {
            match aes128gcm_open(
                key,
                self.nonce,
                Seq::<u8>::empty(),
                input.subrange(start, body_start),
            ) {
                None => Reading::Bad(SnellError::RecordAuthentication, opened),
                Some(plain) => match parse_header_spec(plain, true) {
                    Err(error) => Reading::Bad(error, after_header),
                    Ok((padding, payload)) => {
                        let end = body_start + payload + 16;
                        if padding != 0 {
                            Reading::Bad(SnellError::UnshapedPadding, after_header)
                        } else if payload == 0 {
                            Reading::End(body_start, after_header)
                        } else if input.len() < end {
                            Reading::More
                        } else {
                            match aes128gcm_open(
                                key,
                                after_header.nonce,
                                Seq::<u8>::empty(),
                                input.subrange(body_start, end),
                            ) {
                                None => Reading::Bad(
                                    SnellError::RecordAuthentication,
                                    after_header,
                                ),
                                Some(body) => Reading::Record(
                                    body,
                                    end,
                                    Incoming {
                                        nonce: next_nonce(after_header.nonce),
                                        ..after_header
                                    },
                                ),
                            }
                        }
                    },
                },
            }
        }
    }

    /// Reads an encrypted and shaped record that starts at `start`.
    pub open spec fn read_shaped_spec(self, key: Seq<u8>, start: int, input: Seq<u8>) -> Reading {
        let profile = self.profile->0;
        let header_start = start + profile.prefix_len_spec(self.sequence);
        let padding_start = header_start + 23;
        let opened = Incoming { key: Some(key), ..self };
        if input.len() < padding_start {
            Reading::More
        } else {
            match aes128gcm_open(
                key,
                self.nonce,
                input.subrange(start, header_start),
                input.subrange(header_start, padding_start),
            ) {
                None => Reading::Bad(SnellError::RecordAuthentication, opened),
                Some(plain) => match parse_header_spec(plain, false) {
                    Err(error) => Reading::Bad(
                        error,
                        Incoming { nonce: next_nonce(self.nonce), ..opened },
                    ),
                    Ok((padding_len, payload)) => {
                        let after_header = Incoming {
                            nonce: next_nonce(self.nonce),
                            sequence: self.sequence.wrapping_add(1),
                            ..opened
                        };
                        let body_start = padding_start + padding_len;
                        let end = body_start + payload + 16;
                        if payload == 0 {
                            if input.len() < body_start {
                                Reading::More
                            } else {
                                Reading::End(body_start, after_header)
                            }
                        } else if input.len() < end {
                            Reading::More
                        } else {
                            let padding = input.subrange(padding_start, body_start);
                            let body = input.subrange(body_start, end);
                            match aes128gcm_open(
                                key,
                                after_header.nonce,
                                profile.mixed(self.sequence, padding, body),
                                profile.mixed(self.sequence, body, padding),
                            ) {
                                None => Reading::Bad(
                                    SnellError::RecordAuthentication,
                                    after_header,
                                ),
                                Some(bytes) => Reading::Record(
                                    bytes,
                                    end,
                                    Incoming {
                                        nonce: next_nonce(after_header.nonce),
                                        ..after_header
                                    },
                                ),
                            }
                        }
                    },
                },
            }
        }
    }

    /// Reads the record at the front of `input`.
    #[verifier::opaque]
    pub open spec fn read_spec(self, input: Seq<u8>) -> Reading {
        if self.mode == Mode::UnsafeRaw {
            self.read_raw_spec(input)
        } else if input.len() < self.opening_len() {
            Reading::More
        } else {
            match self.key_for(input) {
                None => Reading::Bad(SnellError::KeyDerivation, self),
                Some(key) => if self.mode == Mode::Unshaped {
                    self.read_unshaped_spec(key, self.opening_len(), input)
                } else {
                    self.read_shaped_spec(key, self.opening_len(), input)
                },
            }
        }
    }
}

/// What a reader found at the front of its input.
#[derive(Debug)]
pub enum ReadStep {
    /// Bytes are missing: call again with more of the stream.
    More,
    /// A payload, and how many bytes of the input it took.
    Record(Vec<u8>, usize),
    /// The end of the stream, and how many bytes of the input it took.
    End(usize),
}

pub struct RecordReader {
    pub mode: Mode,
    pub psk: Vec<u8>,
    pub profile: Option<Profile>,
    pub key: Option<[u8; 16]>,
    pub nonce: [u8; 12],
    pub sequence: u32,
}

impl View for RecordReader {
    type V = Incoming;

    open spec fn view(&self) -> Incoming {
        Incoming {
            mode: self.mode,
            psk: self.psk@,
            profile: self.profile,
            key: match self.key {
                Some(key) => Some(key@),
                None => None,
            },
            nonce: self.nonce@,
            sequence: self.sequence,
        }
    }
}

/// `step` is what a reader in state `before` makes of `input`, and leaves it in `after`.
pub open spec fn step_matches(
    before: Incoming,
    input: Seq<u8>,
    step: Result<ReadStep, SnellError>,
    after: Incoming,
) -> bool {
    match before.read_spec(input) {
        Reading::More => step matches Ok(ReadStep::More) && after == before,
        Reading::Record(payload, len, next) => {
            &&& step matches Ok(ReadStep::Record(bytes, consumed))
            &&& bytes@ == payload
            &&& consumed == len
            &&& after == next
        },
        Reading::End(len, next) => {
            &&& step matches Ok(ReadStep::End(consumed))
            &&& consumed == len
            &&& after == next
        },
        Reading::Bad(error, next) => {
            &&& step matches Err(e)
            &&& e == error
            &&& after == next
        },
    }
}

impl RecordReader {
    pub open spec fn wf(&self) -> bool {
        self@.wf()
    }

    pub fn new(mode: Mode, psk: Vec<u8>, profile: Option<Profile>) -> (reader: Self)
        requires
            mode == Mode::Default ==> profile is Some,
            profile matches Some(p) ==> p.wf(),
        ensures
            reader.wf(),
            reader@ == (Incoming {
                mode,
                psk: psk@,
                profile,
                key: None,
                nonce: Seq::new(12, |i: int| 0u8),
                sequence: 0,
            }),
    {
        let reader = Self { mode, psk, profile, key: None, nonce: [0; 12], sequence: 0 };
        assert(reader.nonce@ =~= Seq::new(12, |i: int| 0u8));
        reader
    }

    /// Reads the record at the front of `input`. Where bytes are missing, the
    /// reader stays as it was; where the input is not a record, it stands where
    /// reading broke off.
    pub fn read_record(&mut self, input: &[u8]) -> (step: Result<ReadStep, SnellError>)
        requires
            old(self).wf(),
        ensures
            final(self).wf(),
            step_matches(old(self)@, input@, step, final(self)@),
    {
        proof {
            reveal(Incoming::read_spec);
        }
        match self.mode {
            Mode::UnsafeRaw => self.read_raw(input),
            Mode::Unshaped => {
                let (start, key) = match self.key {
                    Some(key) => (0, key),
                    None => {
                        if input.len() < 16 {
                            return Ok(ReadStep::More);
                        }
                        let mut salt: [u8; 16] = [0; 16];
                        let mut i: usize = 0;
                        while i < 16
                            invariant
                                i <= 16 <= input@.len(),
                                forall|j: int| 0 <= j < i ==> #[trigger] salt@[j] == input@[j],
                            decreases 16 - i,
                        {
                            salt[i] = input[i];
                            i += 1;
                        }
                        assert(salt@ =~= input@.take(16));
                        match make_cipher(self.psk.as_slice(), &salt) {
                            Ok(key) => (16, key),
                            Err(error) => {
                                return Err(error);
                            },
                        }
                    },
                };
                self.read_unshaped(key, start, input)
            },
            Mode::Default => {
                let (start, key) = match self.key {
                    Some(key) => (0, key),
                    None => {
                        let profile: &Profile = match &self.profile {
                            Some(profile) => profile,
                            None => {
                                return Ok(ReadStep::More);
                            },
                        };
                        let block_len: usize = profile.salt_block_len;
                        if input.len() < block_len {
                            return Ok(ReadStep::More);
                        }
                        let block = bytes_between(input, 0, block_len);
                        assert(block@ =~= input@.take(block_len as int));
                        let salt = profile.extract_salt(block.as_slice());
                        match make_cipher(self.psk.as_slice(), &salt) {
                            Ok(key) => (block_len, key),
                            Err(error) => {
                                return Err(error);
                            },
                        }
                    },
                };
                self.read_shaped(key, start, input)
            },
        }
    }

    fn read_raw(&mut self, input: &[u8]) -> (step: Result<ReadStep, SnellError>)
        requires
            old(self).wf(),
            old(self).mode == Mode::UnsafeRaw,
        ensures
            final(self).wf(),
            step_matches(old(self)@, input@, step, final(self)@),
    {
        proof {
            reveal(Incoming::read_spec);
        }
        if input.len() < 7 {
            return Ok(ReadStep::More);
        }
        let plain = bytes_between(input, 0, 7);
        assert(plain@ =~= input@.take(7));
        match parse_header(plain.as_slice(), true) {
            Err(error) => Err(error),
            Ok((padding, payload)) => {
                if padding != 0 {
                    Err(SnellError::RawPadding)
                } else if payload == 0 {
                    Ok(ReadStep::End(7))
                } else if input.len() < 7 + payload {
                    Ok(ReadStep::More)
                } else {
                    Ok(ReadStep::Record(bytes_between(input, 7, 7 + payload), 7 + payload))
                }
            },
        }
    }

    fn read_unshaped(&mut self, key: [u8; 16], start: usize, input: &[u8]) -> (step: Result<
        ReadStep,
        SnellError,
    >)
        requires
            old(self).wf(),
            old(self).mode == Mode::Unshaped,
            old(self)@.opening_len() == start <= input@.len(),
            old(self)@.key_for(input@) == Some(key@),
        ensures
            final(self).wf(),
            step_matches(old(self)@, input@, step, final(self)@),
    {
        proof {
            reveal(Incoming::read_spec);
        }
        let ghost before = self@;
        assert(before.read_spec(input@) == before.read_unshaped_spec(
            key@,
            start as int,
            input@,
        ));
        if input.len() - start < 23 {
            return Ok(ReadStep::More);
        }
        let body_start: usize = start + 23;
        let sealed_header = bytes_between(input, start, body_start);
        let no_aad: [u8; 0] = [];
        assert(no_aad@ =~= Seq::<u8>::empty());
        let mut nonce: [u8; 12] = self.nonce;
        let plain = match decrypt(&key, &mut nonce, &no_aad, sealed_header.as_slice()) {
            Ok(plain) => plain,
            Err(error) => {
                self.key = Some(key);
                return Err(error);
            },
        };
        let (padding, payload) = match parse_header(plain.as_slice(), true) {
            Ok(lens) => lens,
            Err(error) => {
                self.key = Some(key);
                self.nonce = nonce;
                return Err(error);
            },
        };
        if padding != 0 {
            self.key = Some(key);
            self.nonce = nonce;
            return Err(SnellError::UnshapedPadding);
        }
        if payload == 0 {
            self.key = Some(key);
            self.nonce = nonce;
            return Ok(ReadStep::End(body_start));
        }
        if input.len() - body_start < payload + 16 {
            return Ok(ReadStep::More);
        }
        let end: usize = body_start + payload + 16;
        let sealed_body = bytes_between(input, body_start, end);
        let opened = decrypt(&key, &mut nonce, &no_aad, sealed_body.as_slice());
        self.key = Some(key);
        self.nonce = nonce;
        match opened {
            Ok(body) => Ok(ReadStep::Record(body, end)),
            Err(error) => Err(error),
        }
    }

    fn read_shaped(&mut self, key: [u8; 16], start: usize, input: &[u8]) -> (step: Result<
        ReadStep,
        SnellError,
    >)
        requires
            old(self).wf(),
            old(self).mode == Mode::Default,
            old(self)@.opening_len() == start <= input@.len(),
            old(self)@.key_for(input@) == Some(key@),
        ensures
            final(self).wf(),
            step_matches(old(self)@, input@, step, final(self)@),
    {
        proof {
            reveal(Incoming::read_spec);
        }
        let ghost before = self@;
        assert(before.read_spec(input@) == before.read_shaped_spec(key@, start as int, input@));
        let profile: Profile = match self.profile {
            Some(profile) => profile,
            None => {
                return Ok(ReadStep::More);
            },
        };
        let sequence: u32 = self.sequence;
        let prefix_len: usize = profile.prefix_len(sequence);
        if input.len() - start < prefix_len + 23 {
            return Ok(ReadStep::More);
        }
        let header_start: usize = start + prefix_len;
        let padding_start: usize = header_start + 23;
        let prefix = bytes_between(input, start, header_start);
        let sealed_header = bytes_between(input, header_start, padding_start);
        let mut nonce: [u8; 12] = self.nonce;
        let plain = match decrypt(&key, &mut nonce, prefix.as_slice(), sealed_header.as_slice()) {
            Ok(plain) => plain,
            Err(error) => {
                self.key = Some(key);
                return Err(error);
            },
        };
        let (padding_len, payload_len) = match parse_header(plain.as_slice(), false) {
            Ok(lens) => lens,
            Err(error) => {
                self.key = Some(key);
                self.nonce = nonce;
                return Err(error);
            },
        };
        if input.len() - padding_start < padding_len {
            return Ok(ReadStep::More);
        }
        let body_start: usize = padding_start + padding_len;
        if payload_len == 0 {
            self.key = Some(key);
            self.nonce = nonce;
            self.sequence = sequence.wrapping_add(1);
            return Ok(ReadStep::End(body_start));
        }
        if input.len() - body_start < payload_len + 16 {
            return Ok(ReadStep::More);
        }
        let end: usize = body_start + payload_len + 16;
        let mut padding = bytes_between(input, padding_start, body_start);
        let mut body = bytes_between(input, body_start, end);
        profile.mix_payload(sequence, padding.as_mut_slice(), body.as_mut_slice());
        let opened = decrypt(&key, &mut nonce, padding.as_slice(), body.as_slice());
        self.key = Some(key);
        self.nonce = nonce;
        self.sequence = sequence.wrapping_add(1);
        match opened {
            Ok(payload) => Ok(ReadStep::Record(payload, end)),
            Err(error) => Err(error),
        }
    }
}

} // verus!
