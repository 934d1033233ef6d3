//! What records look like on the wire.

use vstd::prelude::*;

use crate::snell::cipher::{aes128gcm_seal, le_value, next_nonce, nonce_counts_up, pow256};
use crate::snell::error::SnellError;
use crate::snell::record::{header_spec, parse_header_spec, Incoming, Mode, Reading};
use crate::snell::writer::Outgoing;

verus! {

/// A mode goes by its word; the empty word is the default.
pub proof fn modes_go_by_words(word: Seq<char>)
    ensures
        Mode::parse_spec(word) == Some(Mode::Default) <==> word.len() == 0 || word == "default"@,
        Mode::parse_spec(word) == Some(Mode::Unshaped) <==> word == "unshaped"@,
        Mode::parse_spec(word) == Some(Mode::UnsafeRaw) <==> word == "unsafe-raw"@,
{
    reveal_strlit("");
    reveal_strlit("default");
    reveal_strlit("unshaped");
    reveal_strlit("unsafe-raw");
    assert(word.len() == 0 ==> word =~= ""@);
    assert("default"@.len() == 7);
    assert("unshaped"@.len() == 8);
    assert("unsafe-raw"@.len() == 10);
}

/// A header is seven bytes: a four, two zeros, the length of the padding and
/// that of the payload, the high byte of each first.
pub proof fn headers_are_seven_bytes(padding_len: u16, payload_len: u16)
    ensures
        header_spec(padding_len as int, payload_len as int) == seq![
            4u8,
            0u8,
            0u8,
            (padding_len / 256) as u8,
            (padding_len % 256) as u8,
            (payload_len / 256) as u8,
            (payload_len % 256) as u8,
        ],
{
}

/// A header of another version, or of another length, is refused; one with
/// reserved bytes is refused where they must be zero, and there alone.
pub proof fn headers_are_read(
    version: u8,
    reserved: (u8, u8),
    padding: (u8, u8),
    payload: (u8, u8),
    strict: bool,
)
    ensures
        ({
            let header = seq![
                version,
                reserved.0,
                reserved.1,
                padding.0,
                padding.1,
                payload.0,
                payload.1,
            ];
            let lens = parse_header_spec(header, strict);
            let clean = reserved.0 == 0 && reserved.1 == 0;
            &&& version != 4 ==> lens == Err::<(int, int), SnellError>(SnellError::RecordVersion)
            &&& version == 4 && strict && !clean ==> lens == Err::<(int, int), SnellError>(
                SnellError::ReservedBytes,
            )
            &&& version == 4 && (clean || !strict) ==> lens == Ok::<(int, int), SnellError>(
                (256 * padding.0 + padding.1, 256 * payload.0 + payload.1),
            )
        }),
        forall|other: Seq<u8>|
            other.len() != 7 ==> #[trigger] parse_header_spec(other, strict) == Err::<
                (int, int),
                SnellError,
            >(SnellError::RecordVersion),
{
}

/// A raw record is its header and its payload, in the clear; one without a
/// payload ends the stream, and one with padding is refused.
pub proof fn raw_records_are_read(reader: Incoming, payload: Seq<u8>, rest: Seq<u8>, pad: u16)
    requires
        reader.mode == Mode::UnsafeRaw,
        payload.len() <= 65535,
    ensures
        ({
            let high = (payload.len() / 256) as u8;
            let low = (payload.len() % 256) as u8;
            let clear = seq![4u8, 0u8, 0u8, 0u8, 0u8, high, low] + payload + rest;
            let padded = seq![4u8, 0u8, 0u8, (pad / 256) as u8, (pad % 256) as u8, high, low] + rest;
            &&& payload.len() > 0 ==> reader.read_spec(clear) == Reading::Record(
                payload,
                7 + payload.len() as int,
                reader,
            )
            &&& payload.len() == 0 ==> reader.read_spec(clear) == Reading::End(7, reader)
            &&& pad > 0 ==> reader.read_spec(padded) == Reading::Bad(SnellError::RawPadding, reader)
        }),
{
    reveal(Incoming::read_spec);
    let high = (payload.len() / 256) as u8;
    let low = (payload.len() % 256) as u8;
    let head = seq![4u8, 0u8, 0u8, 0u8, 0u8, high, low];
    let clear = head + payload + rest;
    assert(clear.take(7) =~= head);
    assert(clear.subrange(7, 7 + payload.len() as int) =~= payload);
    let other = seq![4u8, 0u8, 0u8, (pad / 256) as u8, (pad % 256) as u8, high, low];
    assert((other + rest).take(7) =~= other);
}

/// Before the first record of a stream stand the sixteen bytes of the salt, or
/// the block that hides it, or nothing, as the mode says; before the others
/// nothing does.
pub proof fn openings_go_by_the_mode(reader: Incoming, writer: Outgoing)
    ensures
        reader.key is Some || reader.mode == Mode::UnsafeRaw ==> reader.opening_len() == 0,
        reader.key is None && reader.mode == Mode::Unshaped ==> reader.opening_len() == 16,
        reader.key is None && reader.mode == Mode::Default ==> reader.opening_len()
            == reader.profile->0.salt_block_len,
        writer.salt_sent || writer.mode == Mode::UnsafeRaw ==> writer.opening().len() == 0,
        !writer.salt_sent && writer.mode == Mode::Unshaped ==> writer.opening() == writer.salt->0,
        !writer.salt_sent && writer.mode == Mode::Default ==> writer.opening()
            == writer.profile->0.with_salt(
            writer.salt->0,
            writer.profile->0.padding_bytes(
                0xffff_ffff,
                writer.profile->0.salt_block_len as nat,
            ),
        ),
{
}

/// The bytes of a record, part by part. Behind the opening stand, unshaped, the
/// sealed header and the sealed payload; shaped, the prefix, the header sealed
/// with the prefix beside it, and the padding and the payload sealed with the
/// padding beside it, both mixed. The header takes one nonce and the payload
/// the next.
pub proof fn records_are_laid_out(stream: Outgoing, payload: Seq<u8>)
    requires
        payload.len() <= 65535,
        stream.mode == Mode::Default ==> 0 <= stream.padding_len(payload) <= 65535,
    ensures
        ({
            let pad = stream.padding_len(payload);
            let head = seq![
                4u8,
                0u8,
                0u8,
                (pad / 256) as u8,
                (pad % 256) as u8,
                (payload.len() / 256) as u8,
                (payload.len() % 256) as u8,
            ];
            let key = stream.key->0;
            let none = Seq::<u8>::empty();
            let first = stream.nonce;
            let second = next_nonce(stream.nonce);
            let bytes = stream.record_bytes(payload);
            &&& stream.mode == Mode::UnsafeRaw ==> bytes == head + payload && pad == 0
            &&& stream.mode == Mode::Unshaped ==> pad == 0
            &&& stream.mode == Mode::Unshaped && payload.len() > 0 ==> bytes == stream.opening()
                + aes128gcm_seal(key, first, none, head) + aes128gcm_seal(
                key,
                second,
                none,
                payload,
            )
            &&& stream.mode == Mode::Unshaped && payload.len() == 0 ==> bytes == stream.opening()
                + aes128gcm_seal(key, first, none, head)
            &&& stream.mode == Mode::Default ==> {
                let profile = stream.profile->0;
                let prefix = profile.padding_bytes(
                    stream.sequence,
                    profile.prefix_len_spec(stream.sequence) as nat,
                );
                let padding = profile.padding_bytes(stream.sequence, pad as nat);
                let body = aes128gcm_seal(key, second, padding, payload);
                let front = stream.opening() + prefix + aes128gcm_seal(key, first, prefix, head);
                &&& payload.len() == 0 ==> bytes == front + padding
                &&& payload.len() > 0 ==> bytes == front + (profile.mixed(
                    stream.sequence,
                    padding,
                    body,
                ) + profile.mixed(stream.sequence, body, padding))
            }
        }),
{
    reveal(Outgoing::record_bytes);
    let pad = stream.padding_len(payload);
    let head = seq![
        4u8,
        0u8,
        0u8,
        (pad / 256) as u8,
        (pad % 256) as u8,
        (payload.len() / 256) as u8,
        (payload.len() % 256) as u8,
    ];
    assert(stream.plain_header(payload) =~= head);
    if stream.mode == Mode::Unshaped && payload.len() == 0 {
        assert(stream.record_bytes(payload) =~= stream.opening() + stream.sealed_header(payload));
    }
}

/// How much padding a writer gives a record: none but in a shaped stream, and
/// there what the profile says, with the opening counted until it was sent.
pub proof fn writers_pad_as_the_profile_says(stream: Outgoing, payload: Seq<u8>)
    requires
        stream.mode == Mode::Default,
    ensures
        ({
            let profile = stream.profile->0;
            let prefix = profile.prefix_len_spec(stream.sequence) as usize;
            let len = payload.len() as usize;
            &&& stream.salt_sent ==> stream.padding_len(payload) == profile.padding_len_spec(
                stream.sequence,
                len,
                prefix,
                0,
                0,
            )
            &&& !stream.salt_sent ==> stream.padding_len(payload) == profile.padding_len_spec(
                stream.sequence,
                len,
                prefix,
                (profile.salt_block_len - 16) as usize,
                profile.salt_block_len,
            )
        }),
{
}

/// A record moves the stream on: by one nonce for its header and one for its
/// payload, and in a shaped stream by one in the count of records. What was
/// fixed at its opening stays.
pub proof fn records_move_the_stream_on(stream: Outgoing, payload: Seq<u8>)
    requires
        stream.mode != Mode::UnsafeRaw,
        stream.nonce.len() == 12,
        le_value(stream.nonce) + 2 < pow256(12),
    ensures
        ({
            let after = stream.after_record(payload);
            &&& after.salt_sent
            &&& payload.len() == 0 ==> le_value(after.nonce) == le_value(stream.nonce) + 1
            &&& payload.len() > 0 ==> le_value(after.nonce) == le_value(stream.nonce) + 2
            &&& stream.mode == Mode::Unshaped ==> after.sequence == stream.sequence
            &&& stream.mode == Mode::Default && stream.sequence < 0xffff_ffff ==> after.sequence
                == stream.sequence + 1
            &&& after.mode == stream.mode
            &&& after.psk == stream.psk
            &&& after.profile == stream.profile
            &&& after.key == stream.key
            &&& after.salt == stream.salt
        }),
{
    nonce_counts_up(stream.nonce);
    assert(next_nonce(stream.nonce).len() == 12);
    nonce_counts_up(next_nonce(stream.nonce));
}

} // verus!
